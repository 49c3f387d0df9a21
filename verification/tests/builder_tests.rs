use jaxbrain::dictionary::{build_graph_from_dictionary, DictionaryFile};
use jaxbrain::graph::{node_id_eq, DefinitionEntry, NodeData, NodeId, NodeKind};

fn entry(page: i32, related: Vec<&str>) -> DefinitionEntry {
    DefinitionEntry {
        found_on_page: page,
        time_period: "archaic".to_string(),
        definition: "what the word means".to_string(),
        usage: "how the word is used".to_string(),
        examples: vec!["an example".to_string()],
        related_terms: related.into_iter().map(|s| s.to_string()).collect(),
    }
}

#[test]
fn builder_emits_terms_abbreviations_and_buckets() {
    let dict = DictionaryFile {
        alphabetical_page_starts: vec![("a".to_string(), 5), ("b".to_string(), 17)],
        abbreviations: vec![("e.g.".to_string(), "for example".to_string())],
        definitions: vec![
            ("apple".to_string(), entry(1, vec!["banana"])),
            ("banana".to_string(), entry(2, vec![])),
        ],
    };
    let g = build_graph_from_dictionary(&dict);
    // 2 terms + 1 abbreviation + 26 buckets.
    assert_eq!(g.nodes.len(), 2 + 1 + 26);

    // Terms come first, in definition order, carrying their entries.
    assert!(node_id_eq(&g.nodes[0].id, &NodeId::Term("apple".to_string())));
    assert_eq!(g.nodes[0].label, "apple");
    assert_eq!(g.nodes[0].kind, NodeKind::Term);
    match &g.nodes[0].data {
        NodeData::Term(e) => {
            assert_eq!(e.found_on_page, 1);
            assert_eq!(e.definition, "what the word means");
            assert_eq!(e.related_terms, vec!["banana".to_string()]);
        }
        _ => panic!("term node without its entry"),
    }

    // Then the abbreviation with its expansion.
    assert!(node_id_eq(&g.nodes[2].id, &NodeId::Abbr("e.g.".to_string())));
    match &g.nodes[2].data {
        NodeData::Abbreviation { expansion } => assert_eq!(expansion, "for example"),
        _ => panic!("abbreviation node without its expansion"),
    }

    // Then the 26 buckets with recorded page starts.
    let alpha_a = &g.nodes[3];
    assert!(node_id_eq(&alpha_a.id, &NodeId::Alpha(b'a')));
    assert_eq!(alpha_a.label, "A");
    match alpha_a.data {
        NodeData::Alpha { letter, page_start } => {
            assert_eq!(letter, b'a');
            assert_eq!(page_start, 5);
        }
        _ => panic!("bucket node without its letter"),
    }
    match g.nodes[4].data {
        NodeData::Alpha { letter, page_start } => {
            assert_eq!(letter, b'b');
            assert_eq!(page_start, 17);
        }
        _ => panic!("bucket node without its letter"),
    }
    match g.nodes[5].data {
        NodeData::Alpha { page_start, .. } => assert_eq!(page_start, 0),
        _ => panic!("bucket node without its letter"),
    }
    assert_eq!(g.nodes[28].label, "Z");

    // Edges: one related edge, then one contains edge per term.
    assert_eq!(g.edges.len(), 1 + 2);
    assert!(node_id_eq(&g.edges[0].from, &NodeId::Term("apple".to_string())));
    assert!(node_id_eq(&g.edges[0].to, &NodeId::Term("banana".to_string())));
    assert_eq!(g.edges[0].relation, "related_to");
    assert!(node_id_eq(&g.edges[1].from, &NodeId::Alpha(b'a')));
    assert!(node_id_eq(&g.edges[1].to, &NodeId::Term("apple".to_string())));
    assert_eq!(g.edges[1].relation, "contains");
    assert!(node_id_eq(&g.edges[2].from, &NodeId::Alpha(b'b')));
    assert_eq!(g.edges[2].relation, "contains");
}

#[test]
fn first_letter_is_the_first_ascii_letter_folded() {
    let dict = DictionaryFile {
        alphabetical_page_starts: vec![],
        abbreviations: vec![],
        definitions: vec![
            ("Zebra".to_string(), entry(1, vec![])),
            ("4chan".to_string(), entry(2, vec![])),
            ("1234".to_string(), entry(3, vec![])),
        ],
    };
    let g = build_graph_from_dictionary(&dict);
    // "Zebra" files under z, "4chan" under c, "1234" nowhere.
    assert_eq!(g.edges.len(), 2);
    assert!(node_id_eq(&g.edges[0].from, &NodeId::Alpha(b'z')));
    assert!(node_id_eq(&g.edges[1].from, &NodeId::Alpha(b'c')));
}

#[test]
fn empty_dictionary_builds_only_buckets() {
    let g = build_graph_from_dictionary(&DictionaryFile::new());
    assert_eq!(g.nodes.len(), 26);
    assert_eq!(g.edges.len(), 0);
    for (i, n) in g.nodes.iter().enumerate() {
        assert_eq!(n.kind, NodeKind::Alpha);
        assert!(node_id_eq(&n.id, &NodeId::Alpha(b'a' + i as u8)));
    }
}
