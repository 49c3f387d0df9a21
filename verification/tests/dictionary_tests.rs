use jaxbrain::dictionary::DictionaryFile;
use jaxbrain::graph::DefinitionEntry;

fn entry(page: i32) -> DefinitionEntry {
    DefinitionEntry {
        found_on_page: page,
        time_period: String::new(),
        definition: format!("definition on page {page}"),
        usage: String::new(),
        examples: vec![],
        related_terms: vec![],
    }
}

#[test]
fn new_dictionary_is_empty() {
    let d = DictionaryFile::new();
    assert!(d.alphabetical_page_starts.is_empty());
    assert!(d.abbreviations.is_empty());
    assert!(d.definitions.is_empty());
}

#[test]
fn insert_keeps_definitions_sorted_by_key() {
    let mut d = DictionaryFile::new();
    for key in ["mango", "apple", "zucchini", "banana"] {
        d.insert_definition(key.to_string(), entry(1));
    }
    let keys: Vec<&str> = d.definitions.iter().map(|p| p.0.as_str()).collect();
    assert_eq!(keys, vec!["apple", "banana", "mango", "zucchini"]);
}

#[test]
fn insert_replaces_an_existing_key() {
    let mut d = DictionaryFile::new();
    d.insert_definition("apple".to_string(), entry(1));
    d.insert_definition("apple".to_string(), entry(7));
    assert_eq!(d.definitions.len(), 1);
    assert_eq!(d.get_definition("apple").unwrap().found_on_page, 7);
}

#[test]
fn get_finds_only_present_keys() {
    let mut d = DictionaryFile::new();
    d.insert_definition("apple".to_string(), entry(1));
    d.insert_definition("banana".to_string(), entry(2));
    assert_eq!(d.get_definition("banana").unwrap().found_on_page, 2);
    assert!(d.get_definition("cherry").is_none());
    assert!(d.get_definition("appl").is_none());
}

#[test]
fn remove_takes_the_entry_out() {
    let mut d = DictionaryFile::new();
    d.insert_definition("apple".to_string(), entry(1));
    d.insert_definition("banana".to_string(), entry(2));
    let gone = d.remove_definition("apple");
    assert_eq!(gone.unwrap().found_on_page, 1);
    assert!(d.get_definition("apple").is_none());
    assert_eq!(d.definitions.len(), 1);
    assert!(d.remove_definition("apple").is_none());
}
