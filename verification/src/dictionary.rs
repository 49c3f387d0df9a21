//! The dictionary document and the builder that turns it into a
//! semantic graph: one term node per definition, one abbreviation node
//! per abbreviation, the twenty-six alphabetical bucket nodes, related
//! edges between terms, and a contains edge filing each term under the
//! bucket of its first letter.

use vstd::prelude::*;

use crate::graph::DefinitionEntry;
use crate::graph::Edge;
use crate::graph::Graph;
use crate::graph::Node;
use crate::graph::NodeData;
use crate::graph::NodeId;
use crate::graph::NodeKind;
use crate::graph::SpecDefinitionEntry;
use crate::graph::SpecEdge;
use crate::graph::SpecGraph;
use crate::graph::SpecNode;
use crate::graph::SpecNodeData;
use crate::graph::SpecNodeId;
use crate::graph::edges_view;
use crate::graph::nodes_view;
use crate::order::lex_lt;
use crate::order::lex_lt_str;
use crate::order::lemma_lex_le_antisym;
use crate::order::lemma_lex_le_total;
use crate::order::lemma_lex_lt_trans;
use crate::order::str_eq;

verus! {

/// A dictionary document: page starts per letter, abbreviations and
/// definitions, each an association list sorted by key.
///
/// The lists play the role of ordered maps: [`DictionaryFile::wf`]
/// states the map invariant (keys strictly increasing), which readers
/// of a well-formed document may rely on. The graph builder itself is
/// total over any contents.
#[derive(Debug)]
pub struct DictionaryFile {
    pub alphabetical_page_starts: Vec<(String, i32)>,
    pub abbreviations: Vec<(String, String)>,
    pub definitions: Vec<(String, DefinitionEntry)>,
}

/// Mathematical model of a [`DictionaryFile`].
pub struct SpecDictionaryFile {
    pub alphabetical_page_starts: Seq<(Seq<char>, i32)>,
    pub abbreviations: Seq<(Seq<char>, Seq<char>)>,
    pub definitions: Seq<(Seq<char>, SpecDefinitionEntry)>,
}

/// The model of a page-start list.
pub open spec fn aps_view(s: Seq<(String, i32)>) -> Seq<(Seq<char>, i32)> {
    s.map_values(|p: (String, i32)| (p.0@, p.1))
}

/// The model of an abbreviation list.
pub open spec fn abbrs_view(s: Seq<(String, String)>) -> Seq<(Seq<char>, Seq<char>)> {
    s.map_values(|p: (String, String)| (p.0@, p.1@))
}

/// The model of a definition list.
pub open spec fn defs_view(s: Seq<(String, DefinitionEntry)>) -> Seq<
    (Seq<char>, SpecDefinitionEntry),
> {
    s.map_values(|p: (String, DefinitionEntry)| (p.0@, p.1@))
}

impl View for DictionaryFile {
    type V = SpecDictionaryFile;

    open spec fn view(&self) -> SpecDictionaryFile {
        SpecDictionaryFile {
            alphabetical_page_starts: aps_view(self.alphabetical_page_starts@),
            abbreviations: abbrs_view(self.abbreviations@),
            definitions: defs_view(self.definitions@),
        }
    }
}

/// Strictly increasing keys: the association-list counterpart of the
/// ordered-map invariant.
pub open spec fn keys_strictly_sorted<T>(s: Seq<(Seq<char>, T)>) -> bool {
    forall|i: int, j: int| 0 <= i < j < s.len() ==> lex_lt(#[trigger] s[i].0, #[trigger] s[j].0)
}

impl DictionaryFile {
    /// All three association lists carry strictly increasing keys.
    pub open spec fn wf(self) -> bool {
        &&& keys_strictly_sorted(self@.alphabetical_page_starts)
        &&& keys_strictly_sorted(self@.abbreviations)
        &&& keys_strictly_sorted(self@.definitions)
    }

    /// Returns an empty, well-formed dictionary.
    pub fn new() -> (d: DictionaryFile)
        ensures
            d.wf(),
            d@.alphabetical_page_starts.len() == 0,
            d@.abbreviations.len() == 0,
            d@.definitions.len() == 0,
    {
        DictionaryFile {
            alphabetical_page_starts: Vec::new(),
            abbreviations: Vec::new(),
            definitions: Vec::new(),
        }
    }
}

/// The upper-case alphabet; bucket `n` is labelled with its `n`-th
/// letter.
pub open spec fn spec_alpha_label(n: int) -> Seq<char> {
    "ABCDEFGHIJKLMNOPQRSTUVWXYZ"@.subrange(n, n + 1)
}

/// The lower-case alphabet; bucket `n` is keyed by its `n`-th letter.
pub open spec fn spec_lower_letter(n: int) -> Seq<char> {
    "abcdefghijklmnopqrstuvwxyz"@.subrange(n, n + 1)
}

/// The page start recorded for bucket `n`: the value under the
/// one-letter key, or 0 when the key is absent.
pub open spec fn spec_page_start_of(aps: Seq<(Seq<char>, i32)>, n: int) -> i32
    decreases aps.len(),
{
    if aps.len() == 0 {
        0
    } else if aps.first().0 == spec_lower_letter(n) {
        aps.first().1
    } else {
        spec_page_start_of(aps.drop_first(), n)
    }
}

/// Whether this code point is an ASCII letter.
pub open spec fn is_ascii_letter_code(c: u32) -> bool {
    (65 <= c && c <= 90) || (97 <= c && c <= 122)
}

/// The lower-cased byte of the first ASCII letter of `s`, if any: the
/// bucket a term is filed under.
pub open spec fn spec_first_letter(s: Seq<char>) -> Option<u8>
    decreases s.len(),
{
    if s.len() == 0 {
        None
    } else if is_ascii_letter_code(s.first() as u32) {
        if s.first() as u32 <= 90 {
            Some((s.first() as u32 + 32) as u8)
        } else {
            Some((s.first() as u32) as u8)
        }
    } else {
        spec_first_letter(s.drop_first())
    }
}

/// The first `n` term nodes, in definition order.
pub open spec fn spec_term_nodes_upto(defs: Seq<(Seq<char>, SpecDefinitionEntry)>, n: int) -> Seq<
    SpecNode,
>
    decreases n,
{
    if n <= 0 {
        Seq::empty()
    } else {
        spec_term_nodes_upto(defs, n - 1).push(
            SpecNode {
                id: SpecNodeId::Term(defs[n - 1].0),
                label: defs[n - 1].0,
                kind: NodeKind::Term,
                data: SpecNodeData::Term(defs[n - 1].1),
            },
        )
    }
}

/// The first `m` related edges of the term `key`.
pub open spec fn spec_related_edges_for(key: Seq<char>, rels: Seq<Seq<char>>, m: int) -> Seq<
    SpecEdge,
>
    decreases m,
{
    if m <= 0 {
        Seq::empty()
    } else {
        spec_related_edges_for(key, rels, m - 1).push(
            SpecEdge {
                from: SpecNodeId::Term(key),
                to: SpecNodeId::Term(rels[m - 1]),
                relation: "related_to"@,
            },
        )
    }
}

/// The related edges of the first `n` definitions, in order.
pub open spec fn spec_related_edges_upto(defs: Seq<(Seq<char>, SpecDefinitionEntry)>, n: int) -> Seq<
    SpecEdge,
>
    decreases n,
{
    if n <= 0 {
        Seq::empty()
    } else {
        spec_related_edges_upto(defs, n - 1) + spec_related_edges_for(
            defs[n - 1].0,
            defs[n - 1].1.related_terms,
            defs[n - 1].1.related_terms.len() as int,
        )
    }
}

/// The first `n` abbreviation nodes, in list order.
pub open spec fn spec_abbr_nodes_upto(abbrs: Seq<(Seq<char>, Seq<char>)>, n: int) -> Seq<SpecNode>
    decreases n,
{
    if n <= 0 {
        Seq::empty()
    } else {
        spec_abbr_nodes_upto(abbrs, n - 1).push(
            SpecNode {
                id: SpecNodeId::Abbr(abbrs[n - 1].0),
                label: abbrs[n - 1].0,
                kind: NodeKind::Abbreviation,
                data: SpecNodeData::Abbreviation { expansion: abbrs[n - 1].1 },
            },
        )
    }
}

/// The first `n` of the twenty-six alphabetical bucket nodes.
pub open spec fn spec_alpha_nodes_upto(aps: Seq<(Seq<char>, i32)>, n: int) -> Seq<SpecNode>
    decreases n,
{
    if n <= 0 {
        Seq::empty()
    } else {
        spec_alpha_nodes_upto(aps, n - 1).push(
            SpecNode {
                id: SpecNodeId::Alpha((97 + n - 1) as u8),
                label: spec_alpha_label(n - 1),
                kind: NodeKind::Alpha,
                data: SpecNodeData::Alpha {
                    letter: (97 + n - 1) as u8,
                    page_start: spec_page_start_of(aps, n - 1),
                },
            },
        )
    }
}

/// The contains edges of the first `n` definitions: each term filed
/// under the bucket of its first ASCII letter, terms without one left
/// unfiled.
pub open spec fn spec_contains_edges_upto(defs: Seq<(Seq<char>, SpecDefinitionEntry)>, n: int) -> Seq<
    SpecEdge,
>
    decreases n,
{
    if n <= 0 {
        Seq::empty()
    } else {
        spec_contains_edges_upto(defs, n - 1) + match spec_first_letter(defs[n - 1].0) {
            Some(l) => seq![
                SpecEdge {
                    from: SpecNodeId::Alpha(l),
                    to: SpecNodeId::Term(defs[n - 1].0),
                    relation: "contains"@,
                },
            ],
            None => Seq::empty(),
        }
    }
}

/// The semantic graph of a dictionary, as a mathematical function of
/// the document: term, abbreviation and bucket nodes, then related and
/// contains edges.
pub open spec fn spec_build(d: SpecDictionaryFile) -> SpecGraph {
    SpecGraph {
        nodes: spec_term_nodes_upto(d.definitions, d.definitions.len() as int)
            + spec_abbr_nodes_upto(d.abbreviations, d.abbreviations.len() as int)
            + spec_alpha_nodes_upto(d.alphabetical_page_starts, 26),
        edges: spec_related_edges_upto(d.definitions, d.definitions.len() as int)
            + spec_contains_edges_upto(d.definitions, d.definitions.len() as int),
    }
}


// ---------------------------------------------------------------------
// The executable builder, pinned to the functional description.
// ---------------------------------------------------------------------

/// Looks up the page start recorded for bucket `n`.
#[verifier::loop_isolation(false)]
fn page_start_for(aps: &Vec<(String, i32)>, n: usize) -> (r: i32)
    requires
        n < 26,
    ensures
        r == spec_page_start_of(aps_view(aps@), n as int),
{
    let lower: &str = "abcdefghijklmnopqrstuvwxyz";
    proof {
        reveal_strlit("abcdefghijklmnopqrstuvwxyz");
        assert(vstd::string::is_ascii(lower));
    }
    let key: &str = lower.substring_ascii(n, n + 1);
    proof {
        assert(key@ == spec_lower_letter(n as int));
        assert(aps_view(aps@).skip(0) =~= aps_view(aps@));
    }
    let mut i: usize = 0;
    while i < aps.len()
        invariant
            0 <= i <= aps@.len(),
            spec_page_start_of(aps_view(aps@), n as int) == spec_page_start_of(
                aps_view(aps@).skip(i as int),
                n as int,
            ),
        decreases aps@.len() - i,
    {
        proof {
            assert(aps_view(aps@).skip(i as int).first()
                == (aps@[i as int].0@, aps@[i as int].1));
            assert(aps_view(aps@).skip(i as int).drop_first() =~= aps_view(aps@).skip(i + 1));
        }
        if str_eq(aps[i].0.as_str(), key) {
            return aps[i].1;
        }
        i = i + 1;
    }
    proof {
        assert(aps_view(aps@).skip(aps@.len() as int) =~= Seq::<(Seq<char>, i32)>::empty());
    }
    0
}

/// Finds the bucket letter of a term: its first ASCII letter, lower
/// cased.
#[verifier::loop_isolation(false)]
fn first_letter_of(s: &str) -> (r: Option<u8>)
    ensures
        r == spec_first_letter(s@),
{
    let len: usize = s.unicode_len();
    proof {
        assert(s@.skip(0) =~= s@);
    }
    let mut i: usize = 0;
    while i < len
        invariant
            0 <= i <= len,
            len == s@.len(),
            spec_first_letter(s@) == spec_first_letter(s@.skip(i as int)),
        decreases len - i,
    {
        proof {
            assert(s@.skip(i as int).first() == s@[i as int]);
            assert(s@.skip(i as int).drop_first() =~= s@.skip(i + 1));
        }
        let c: char = s.get_char(i);
        let code: u32 = c as u32;
        if 65 <= code && code <= 90 {
            return Some((code + 32) as u8);
        }
        if 97 <= code && code <= 122 {
            return Some(code as u8);
        }
        i = i + 1;
    }
    proof {
        assert(s@.skip(len as int) =~= Seq::<char>::empty());
    }
    None
}

/// Builds the term nodes, in definition order.
#[verifier::loop_isolation(false)]
fn build_term_nodes(defs: &Vec<(String, DefinitionEntry)>) -> (r: Vec<Node>)
    ensures
        nodes_view(r@) == spec_term_nodes_upto(defs_view(defs@), defs@.len() as int),
{
    let mut out: Vec<Node> = Vec::new();
    let mut i: usize = 0;
    while i < defs.len()
        invariant
            0 <= i <= defs@.len(),
            nodes_view(out@) == spec_term_nodes_upto(defs_view(defs@), i as int),
        decreases defs@.len() - i,
    {
        let ghost prev = nodes_view(out@);
        out.push(
            Node {
                id: NodeId::Term(defs[i].0.clone()),
                label: defs[i].0.clone(),
                kind: NodeKind::Term,
                data: NodeData::Term(defs[i].1.clone()),
            },
        );
        proof {
            assert(defs_view(defs@)[i as int] == (defs@[i as int].0@, defs@[i as int].1@));
            assert(nodes_view(out@) =~= spec_term_nodes_upto(defs_view(defs@), i + 1));
        }
        i = i + 1;
    }
    out
}

/// Builds the related edges of every definition, in order.
#[verifier::loop_isolation(false)]
fn build_related_edges(defs: &Vec<(String, DefinitionEntry)>) -> (r: Vec<Edge>)
    ensures
        edges_view(r@) == spec_related_edges_upto(defs_view(defs@), defs@.len() as int),
{
    let ghost dv = defs_view(defs@);
    let mut out: Vec<Edge> = Vec::new();
    let mut i: usize = 0;
    while i < defs.len()
        invariant
            0 <= i <= defs@.len(),
            edges_view(out@) == spec_related_edges_upto(dv, i as int),
        decreases defs@.len() - i,
    {
        proof {
            assert(dv[i as int] == (defs@[i as int].0@, defs@[i as int].1@));
        }
        let mut j: usize = 0;
        let rel_count: usize = defs[i].1.related_terms.len();
        while j < rel_count
            invariant
                0 <= j <= rel_count,
                rel_count == defs@[i as int].1.related_terms@.len(),
                edges_view(out@) == spec_related_edges_upto(dv, i as int)
                    + spec_related_edges_for(dv[i as int].0, dv[i as int].1.related_terms, j as int),
            decreases rel_count - j,
        {
            let ghost prev = edges_view(out@);
            out.push(
                Edge {
                    from: NodeId::Term(defs[i].0.clone()),
                    to: NodeId::Term(defs[i].1.related_terms[j].clone()),
                    relation: "related_to".to_owned(),
                },
            );
            proof {
                assert(dv[i as int].1.related_terms[j as int]
                    == defs@[i as int].1.related_terms@[j as int]@);
                assert(edges_view(out@) =~= prev.push(
                    SpecEdge {
                        from: SpecNodeId::Term(dv[i as int].0),
                        to: SpecNodeId::Term(dv[i as int].1.related_terms[j as int]),
                        relation: "related_to"@,
                    },
                ));
                assert(edges_view(out@) =~= spec_related_edges_upto(dv, i as int)
                    + spec_related_edges_for(
                    dv[i as int].0,
                    dv[i as int].1.related_terms,
                    j + 1,
                ));
            }
            j = j + 1;
        }
        proof {
            assert(edges_view(out@) =~= spec_related_edges_upto(dv, i + 1));
        }
        i = i + 1;
    }
    out
}

/// Builds the abbreviation nodes, in list order.
#[verifier::loop_isolation(false)]
fn build_abbr_nodes(abbrs: &Vec<(String, String)>) -> (r: Vec<Node>)
    ensures
        nodes_view(r@) == spec_abbr_nodes_upto(abbrs_view(abbrs@), abbrs@.len() as int),
{
    let mut out: Vec<Node> = Vec::new();
    let mut i: usize = 0;
    while i < abbrs.len()
        invariant
            0 <= i <= abbrs@.len(),
            nodes_view(out@) == spec_abbr_nodes_upto(abbrs_view(abbrs@), i as int),
        decreases abbrs@.len() - i,
    {
        out.push(
            Node {
                id: NodeId::Abbr(abbrs[i].0.clone()),
                label: abbrs[i].0.clone(),
                kind: NodeKind::Abbreviation,
                data: NodeData::Abbreviation { expansion: abbrs[i].1.clone() },
            },
        );
        proof {
            assert(abbrs_view(abbrs@)[i as int] == (abbrs@[i as int].0@, abbrs@[i as int].1@));
            assert(nodes_view(out@) =~= spec_abbr_nodes_upto(abbrs_view(abbrs@), i + 1));
        }
        i = i + 1;
    }
    out
}

/// Builds the twenty-six alphabetical bucket nodes.
#[verifier::loop_isolation(false)]
fn build_alpha_nodes(aps: &Vec<(String, i32)>) -> (r: Vec<Node>)
    ensures
        nodes_view(r@) == spec_alpha_nodes_upto(aps_view(aps@), 26),
{
    let upper: &str = "ABCDEFGHIJKLMNOPQRSTUVWXYZ";
    proof {
        reveal_strlit("ABCDEFGHIJKLMNOPQRSTUVWXYZ");
        assert(vstd::string::is_ascii(upper));
    }
    let mut out: Vec<Node> = Vec::new();
    let mut n: usize = 0;
    while n < 26
        invariant
            0 <= n <= 26,
            nodes_view(out@) == spec_alpha_nodes_upto(aps_view(aps@), n as int),
        decreases 26 - n,
    {
        let label: String = upper.substring_ascii(n, n + 1).to_owned();
        let page: i32 = page_start_for(aps, n);
        let letter: u8 = 97 + (n as u8);
        out.push(
            Node {
                id: NodeId::Alpha(letter),
                label,
                kind: NodeKind::Alpha,
                data: NodeData::Alpha { letter, page_start: page },
            },
        );
        proof {
            assert(nodes_view(out@) =~= spec_alpha_nodes_upto(aps_view(aps@), n + 1));
        }
        n = n + 1;
    }
    out
}

/// Builds the contains edges: each term filed under the bucket of its
/// first ASCII letter, terms without one left unfiled.
#[verifier::loop_isolation(false)]
fn build_contains_edges(defs: &Vec<(String, DefinitionEntry)>) -> (r: Vec<Edge>)
    ensures
        edges_view(r@) == spec_contains_edges_upto(defs_view(defs@), defs@.len() as int),
{
    let ghost dv = defs_view(defs@);
    let mut out: Vec<Edge> = Vec::new();
    let mut i: usize = 0;
    while i < defs.len()
        invariant
            0 <= i <= defs@.len(),
            edges_view(out@) == spec_contains_edges_upto(dv, i as int),
        decreases defs@.len() - i,
    {
        let ghost prev = edges_view(out@);
        proof {
            assert(dv[i as int] == (defs@[i as int].0@, defs@[i as int].1@));
        }
        match first_letter_of(defs[i].0.as_str()) {
            Some(l) => {
                out.push(
                    Edge {
                        from: NodeId::Alpha(l),
                        to: NodeId::Term(defs[i].0.clone()),
                        relation: "contains".to_owned(),
                    },
                );
                proof {
                    assert(edges_view(out@) =~= prev.push(
                        SpecEdge {
                            from: SpecNodeId::Alpha(l),
                            to: SpecNodeId::Term(dv[i as int].0),
                            relation: "contains"@,
                        },
                    ));
                    assert(edges_view(out@) =~= spec_contains_edges_upto(dv, i + 1));
                }
            },
            None => {
                proof {
                    assert(edges_view(out@) =~= spec_contains_edges_upto(dv, i + 1));
                }
            },
        }
        i = i + 1;
    }
    out
}

/// Builds the semantic graph of a dictionary document: term,
/// abbreviation and bucket nodes, then the related and contains edges.
/// The output is exactly [`spec_build`] of the document.
pub fn build_graph_from_dictionary(raw: &DictionaryFile) -> (g: Graph)
    ensures
        g@ == spec_build(raw@),
{
    let mut nodes: Vec<Node> = build_term_nodes(&raw.definitions);
    let mut abbr_nodes: Vec<Node> = build_abbr_nodes(&raw.abbreviations);
    let mut alpha_nodes: Vec<Node> = build_alpha_nodes(&raw.alphabetical_page_starts);
    nodes.append(&mut abbr_nodes);
    nodes.append(&mut alpha_nodes);
    let mut edges: Vec<Edge> = build_related_edges(&raw.definitions);
    let mut contains_edges: Vec<Edge> = build_contains_edges(&raw.definitions);
    edges.append(&mut contains_edges);
    proof {
        assert(nodes_view(nodes@) =~= spec_build(raw@).nodes);
        assert(edges_view(edges@) =~= spec_build(raw@).edges);
    }
    Graph { nodes, edges }
}


// ---------------------------------------------------------------------
// The ordered-map operations on the definition list. The association
// list stands in for an ordered map; these keep its invariant and say
// exactly what the list becomes.
// ---------------------------------------------------------------------

/// The value under `key`: the first entry carrying it.
pub open spec fn spec_assoc_find<T>(s: Seq<(Seq<char>, T)>, key: Seq<char>) -> Option<T>
    decreases s.len(),
{
    if s.len() == 0 {
        None
    } else if s.first().0 == key {
        Some(s.first().1)
    } else {
        spec_assoc_find(s.drop_first(), key)
    }
}

/// The list with `v` under `key`: the first entry carrying `key` is
/// replaced, else the new entry goes in front of the first larger key.
pub open spec fn spec_assoc_insert<T>(s: Seq<(Seq<char>, T)>, key: Seq<char>, v: T) -> Seq<
    (Seq<char>, T),
>
    decreases s.len(),
{
    if s.len() == 0 {
        seq![(key, v)]
    } else if s.first().0 == key {
        seq![(key, v)] + s.drop_first()
    } else if lex_lt(key, s.first().0) {
        seq![(key, v)] + s
    } else {
        seq![s.first()] + spec_assoc_insert(s.drop_first(), key, v)
    }
}

/// The list without the first entry carrying `key`.
pub open spec fn spec_assoc_remove<T>(s: Seq<(Seq<char>, T)>, key: Seq<char>) -> Seq<
    (Seq<char>, T),
>
    decreases s.len(),
{
    if s.len() == 0 {
        s
    } else if s.first().0 == key {
        s.drop_first()
    } else {
        seq![s.first()] + spec_assoc_remove(s.drop_first(), key)
    }
}

/// A position found by scanning over the smaller keys pins down what
/// [`spec_assoc_insert`] returns: an update in place on a key match,
/// else an insertion at that position.
proof fn lemma_assoc_insert_at<T>(s: Seq<(Seq<char>, T)>, key: Seq<char>, v: T, j: int)
    requires
        0 <= j <= s.len(),
        forall|m: int| 0 <= m < j ==> lex_lt(#[trigger] s[m].0, key),
        j < s.len() ==> !lex_lt(s[j].0, key),
    ensures
        spec_assoc_insert(s, key, v) == if j < s.len() && s[j].0 == key {
            s.update(j, (key, v))
        } else {
            s.insert(j, (key, v))
        },
    decreases j,
{
    if j == 0 {
        if s.len() == 0 {
            assert(spec_assoc_insert(s, key, v) =~= s.insert(0, (key, v)));
        } else if s.first().0 == key {
            assert(spec_assoc_insert(s, key, v) =~= s.update(0, (key, v)));
        } else {
            lemma_lex_le_total(key, s[0].0, false);
            assert(lex_lt(key, s.first().0));
            assert(spec_assoc_insert(s, key, v) =~= s.insert(0, (key, v)));
        }
    } else {
        assert(lex_lt(s[0].0, key));
        assert(s.first().0 != key);
        if lex_lt(key, s.first().0) {
            lemma_lex_le_antisym(key, s.first().0);
            assert(false);
        }
        let dl = s.drop_first();
        assert(forall|m: int| 0 <= m < j - 1 ==> lex_lt(#[trigger] dl[m].0, key));
        lemma_assoc_insert_at(dl, key, v, j - 1);
        if j < s.len() && s[j].0 == key {
            assert(dl[j - 1].0 == key);
            assert(seq![s.first()] + dl.update(j - 1, (key, v)) =~= s.update(j, (key, v)));
        } else {
            assert(seq![s.first()] + dl.insert(j - 1, (key, v)) =~= s.insert(j, (key, v)));
        }
    }
}

/// Inserting under a scanned-for position keeps the keys strictly
/// sorted.
proof fn lemma_assoc_insert_sorted_at<T>(s: Seq<(Seq<char>, T)>, key: Seq<char>, v: T, j: int)
    requires
        keys_strictly_sorted(s),
        0 <= j <= s.len(),
        forall|m: int| 0 <= m < j ==> lex_lt(#[trigger] s[m].0, key),
        j < s.len() ==> !lex_lt(s[j].0, key),
    ensures
        keys_strictly_sorted(spec_assoc_insert(s, key, v)),
{
    lemma_assoc_insert_at(s, key, v, j);
    if j < s.len() && s[j].0 == key {
        let r = s.update(j, (key, v));
        assert forall|x: int, y: int| 0 <= x < y < r.len() implies lex_lt(r[x].0, r[y].0) by {
            assert(lex_lt(s[x].0, s[y].0));
            if x == j {
                assert(r[x].0 == s[x].0);
            }
            if y == j {
                assert(r[y].0 == s[y].0);
            }
        }
    } else {
        // Every later key exceeds `key`: the scan stopped on a key at
        // least `key`, distinct from it, and the rest are larger
        // still.
        assert forall|m: int| j <= m < s.len() implies lex_lt(key, #[trigger] s[m].0) by {
            lemma_lex_le_total(key, s[j].0, false);
            assert(lex_lt(key, s[j].0));
            if m > j {
                lemma_lex_lt_trans(key, s[j].0, s[m].0);
            }
        }
        let r = s.insert(j, (key, v));
        assert forall|x: int, y: int| 0 <= x < y < r.len() implies lex_lt(r[x].0, r[y].0) by {
            if x < j && y < j {
                assert(r[x] == s[x] && r[y] == s[y]);
            } else if x < j && y == j {
                assert(r[x] == s[x]);
            } else if x < j && y > j {
                assert(r[x] == s[x] && r[y] == s[y - 1]);
            } else if x == j {
                assert(r[y] == s[y - 1]);
            } else {
                assert(r[x] == s[x - 1] && r[y] == s[y - 1]);
            }
        }
    }
}

/// A position found by scanning over non-matching keys pins down what
/// [`spec_assoc_remove`] returns.
proof fn lemma_assoc_remove_at<T>(s: Seq<(Seq<char>, T)>, key: Seq<char>, j: int)
    requires
        0 <= j <= s.len(),
        forall|m: int| 0 <= m < j ==> (#[trigger] s[m].0) != key,
        j < s.len() ==> s[j].0 == key,
    ensures
        spec_assoc_remove(s, key) == if j < s.len() {
            s.remove(j)
        } else {
            s
        },
    decreases j,
{
    if j == 0 {
        if s.len() == 0 {
            assert(spec_assoc_remove(s, key) =~= s);
        } else if s.first().0 == key {
            assert(spec_assoc_remove(s, key) =~= s.remove(0));
        }
    } else {
        let dl = s.drop_first();
        assert(forall|m: int| 0 <= m < j - 1 ==> (#[trigger] dl[m].0) != key);
        lemma_assoc_remove_at(dl, key, j - 1);
        if j < s.len() {
            assert(seq![s.first()] + dl.remove(j - 1) =~= s.remove(j));
        } else {
            assert(seq![s.first()] + dl =~= s);
        }
    }
}

/// Removal keeps the keys strictly sorted.
proof fn lemma_assoc_remove_sorted<T>(s: Seq<(Seq<char>, T)>, key: Seq<char>, j: int)
    requires
        keys_strictly_sorted(s),
        0 <= j <= s.len(),
        forall|m: int| 0 <= m < j ==> (#[trigger] s[m].0) != key,
        j < s.len() ==> s[j].0 == key,
    ensures
        keys_strictly_sorted(spec_assoc_remove(s, key)),
{
    lemma_assoc_remove_at(s, key, j);
    if j < s.len() {
        let r = s.remove(j);
        assert forall|x: int, y: int| 0 <= x < y < r.len() implies lex_lt(r[x].0, r[y].0) by {
            if x < j && y < j {
                assert(r[x] == s[x] && r[y] == s[y]);
            } else if x < j {
                assert(r[x] == s[x] && r[y] == s[y + 1]);
            } else {
                assert(r[x] == s[x + 1] && r[y] == s[y + 1]);
            }
        }
    }
}

impl DictionaryFile {
    /// Looks up the definition entry under `key`.
    #[verifier::loop_isolation(false)]
    pub fn get_definition(&self, key: &str) -> (r: Option<&DefinitionEntry>)
        ensures
            (match spec_assoc_find(self@.definitions, key@) {
                Some(v) => r matches Some(e) && e@ == v,
                None => r is None,
            }),
    {
        proof {
            assert(self@.definitions.skip(0) =~= self@.definitions);
        }
        let mut i: usize = 0;
        while i < self.definitions.len()
            invariant
                0 <= i <= self.definitions@.len(),
                spec_assoc_find(self@.definitions, key@) == spec_assoc_find(
                    self@.definitions.skip(i as int),
                    key@,
                ),
            decreases self.definitions@.len() - i,
        {
            proof {
                assert(self@.definitions.skip(i as int).first() == (
                    self.definitions@[i as int].0@,
                    self.definitions@[i as int].1@,
                ));
                assert(self@.definitions.skip(i as int).drop_first() =~= self@.definitions.skip(
                    i + 1,
                ));
            }
            if str_eq(self.definitions[i].0.as_str(), key) {
                return Some(&self.definitions[i].1);
            }
            i = i + 1;
        }
        proof {
            assert(self@.definitions.skip(self.definitions@.len() as int) =~= Seq::<
                (Seq<char>, SpecDefinitionEntry),
            >::empty());
        }
        None
    }

    /// Puts `entry` under `key`: replaces the entry carrying `key`,
    /// or inserts the pair at its sorted position. Keeps the
    /// well-formedness invariant.
    #[verifier::loop_isolation(false)]
    pub fn insert_definition(&mut self, key: String, entry: DefinitionEntry)
        ensures
            final(self)@.definitions == spec_assoc_insert(old(self)@.definitions, key@, entry@),
            final(self)@.alphabetical_page_starts == old(self)@.alphabetical_page_starts,
            final(self)@.abbreviations == old(self)@.abbreviations,
            old(self).wf() ==> final(self).wf(),
    {
        let ghost dv = self@.definitions;
        let mut j: usize = 0;
        while j < self.definitions.len() && lex_lt_str(self.definitions[j].0.as_str(), key.as_str())
            invariant
                0 <= j <= self.definitions@.len(),
                forall|m: int| 0 <= m < j ==> lex_lt(#[trigger] dv[m].0, key@),
            decreases self.definitions@.len() - j,
        {
            proof {
                assert(dv[j as int].0 == self.definitions@[j as int].0@);
            }
            j = j + 1;
        }
        proof {
            if j < self.definitions@.len() {
                assert(dv[j as int].0 == self.definitions@[j as int].0@);
            }
            lemma_assoc_insert_at(dv, key@, entry@, j as int);
            if old(self).wf() {
                lemma_assoc_insert_sorted_at(dv, key@, entry@, j as int);
            }
        }
        if j < self.definitions.len() && str_eq(self.definitions[j].0.as_str(), key.as_str()) {
            self.definitions.remove(j);
            self.definitions.insert(j, (key, entry));
            proof {
                assert(self@.definitions =~= dv.update(j as int, (key@, entry@)));
            }
        } else {
            self.definitions.insert(j, (key, entry));
            proof {
                assert(self@.definitions =~= dv.insert(j as int, (key@, entry@)));
            }
        }
    }

    /// Takes out the entry under `key`, handing it back if there was
    /// one. Keeps the well-formedness invariant.
    #[verifier::loop_isolation(false)]
    pub fn remove_definition(&mut self, key: &str) -> (r: Option<DefinitionEntry>)
        ensures
            final(self)@.definitions == spec_assoc_remove(old(self)@.definitions, key@),
            final(self)@.alphabetical_page_starts == old(self)@.alphabetical_page_starts,
            final(self)@.abbreviations == old(self)@.abbreviations,
            old(self).wf() ==> final(self).wf(),
            (match spec_assoc_find(old(self)@.definitions, key@) {
                Some(v) => r matches Some(e) && e@ == v,
                None => r is None,
            }),
    {
        let ghost dv = self@.definitions;
        proof {
            assert(dv.skip(0) =~= dv);
        }
        let mut j: usize = 0;
        while j < self.definitions.len() && !str_eq(self.definitions[j].0.as_str(), key)
            invariant
                0 <= j <= self.definitions@.len(),
                forall|m: int| 0 <= m < j ==> (#[trigger] dv[m].0) != key@,
                spec_assoc_find(dv, key@) == spec_assoc_find(dv.skip(j as int), key@),
            decreases self.definitions@.len() - j,
        {
            proof {
                assert(dv[j as int].0 == self.definitions@[j as int].0@);
                assert(dv.skip(j as int).first() == dv[j as int]);
                assert(dv.skip(j as int).drop_first() =~= dv.skip(j + 1));
            }
            j = j + 1;
        }
        proof {
            if j < self.definitions@.len() {
                assert(dv[j as int].0 == self.definitions@[j as int].0@);
                assert(dv.skip(j as int).first() == dv[j as int]);
            } else {
                assert(dv.skip(j as int) =~= Seq::<(Seq<char>, SpecDefinitionEntry)>::empty());
            }
            lemma_assoc_remove_at(dv, key@, j as int);
            if old(self).wf() {
                lemma_assoc_remove_sorted(dv, key@, j as int);
            }
        }
        if j < self.definitions.len() {
            let pair = self.definitions.remove(j);
            proof {
                assert(self@.definitions =~= dv.remove(j as int));
            }
            Some(pair.1)
        } else {
            None
        }
    }
}

} // verus!
