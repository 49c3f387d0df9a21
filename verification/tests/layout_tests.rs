use jaxbrain::dictionary::{build_graph_from_dictionary, DictionaryFile};
use jaxbrain::graph::{node_id_eq, DefinitionEntry, Edge, Graph, Node, NodeData, NodeId, NodeKind};
use jaxbrain::layout::{
    layout_dictionary_graph, layout_dictionary_graph_with_radii, radius_for, visual_graph_eq,
    LayoutRadii, Position, RingPos, VisualGraph,
};

fn entry(page: i32, related: Vec<&str>) -> DefinitionEntry {
    DefinitionEntry {
        found_on_page: page,
        time_period: "modern".to_string(),
        definition: "a definition".to_string(),
        usage: "used in tests".to_string(),
        examples: vec![],
        related_terms: related.into_iter().map(|s| s.to_string()).collect(),
    }
}

fn dict_three_terms() -> DictionaryFile {
    DictionaryFile {
        alphabetical_page_starts: vec![("a".to_string(), 5)],
        abbreviations: vec![],
        definitions: vec![
            ("apple".to_string(), entry(1, vec![])),
            ("ash".to_string(), entry(2, vec![])),
            ("axe".to_string(), entry(3, vec![])),
        ],
    }
}

#[test]
fn scenario_one_root_two_categories_26_buckets_3_terms() {
    // One root, 2 categories, 26 buckets, 0 abbreviations and 3 terms
    // under bucket "a" give exactly 1 + 2 + 26 + 3 = 32 visual nodes.
    let graph = build_graph_from_dictionary(&dict_three_terms());
    let vg = layout_dictionary_graph(&graph, None);
    assert_eq!(vg.nodes.len(), 32);
    // At least 2 hierarchy + 26 category + 3 contains + the semantic
    // edges (3 contains edges of the semantic graph).
    let semantic = graph.edges.len();
    assert_eq!(semantic, 3);
    assert!(vg.edges.len() >= 2 + 26 + 3 + semantic);
    assert_eq!(vg.edges.len(), 2 + 26 + 3 + semantic);
}

#[test]
fn layout_twice_is_bit_identical() {
    let graph = build_graph_from_dictionary(&dict_three_terms());
    let a = layout_dictionary_graph(&graph, Some("My Collection"));
    let b = layout_dictionary_graph(&graph, Some("My Collection"));
    assert!(visual_graph_eq(&a, &b));
}

#[test]
fn alpha_buckets_get_distinct_slots_on_the_alpha_ring() {
    let graph = build_graph_from_dictionary(&dict_three_terms());
    let vg = layout_dictionary_graph(&graph, None);
    // Roomy profile: category distance 400 + 180 + 35 + 40 = 655, so
    // the "Definitions" center is at (300 - 655, 250); the alpha ring
    // radius defaults to 180 + 35 + 15 + 60 = 290.
    let mut seen = [false; 26];
    for i in 0..26 {
        let vn = &vg.nodes[3 + i];
        assert_eq!(vn.kind, NodeKind::Alpha);
        match vn.pos {
            Position::OnRing(RingPos { cx, cy, radius, index, count }) => {
                assert_eq!(cx, 300 - 655);
                assert_eq!(cy, 250);
                assert_eq!(radius, 290);
                assert_eq!(count, 26);
                assert!(index < 26);
                assert!(!seen[index], "two buckets share a slot");
                seen[index] = true;
                assert_eq!(index, i);
            }
            _ => panic!("bucket not on the alpha ring"),
        }
    }
    // Buckets are sorted alphabetically: labels A..Z in order.
    let labels: Vec<&str> = (0..26).map(|i| vg.nodes[3 + i].label.as_str()).collect();
    let mut sorted = labels.clone();
    sorted.sort();
    assert_eq!(labels, sorted);
    assert_eq!(labels[0], "A");
    assert_eq!(labels[25], "Z");
}

#[test]
fn every_semantic_edge_appears_unmodified() {
    let mut dict = dict_three_terms();
    dict.definitions[0].1.related_terms = vec!["ash".to_string(), "zebra".to_string()];
    let graph = build_graph_from_dictionary(&dict);
    let vg = layout_dictionary_graph(&graph, None);
    for e in &graph.edges {
        let found = vg.edges.iter().any(|ve| {
            node_id_eq(&ve.from, &e.from) && node_id_eq(&ve.to, &e.to) && ve.kind == e.relation
        });
        assert!(found, "semantic edge missing from visual edges");
    }
}

#[test]
fn terms_ring_around_their_bucket_sorted_and_capped() {
    let mut dict = dict_three_terms();
    for name in ["ant", "arrow", "atlas", "azure", "amber"] {
        dict.definitions.push((name.to_string(), entry(9, vec![])));
    }
    dict.definitions.sort_by(|a, b| a.0.cmp(&b.0));
    // Eight terms under "a"; only six get a position.
    let graph = build_graph_from_dictionary(&dict);
    let vg = layout_dictionary_graph(&graph, None);
    assert_eq!(vg.nodes.len(), 3 + 26 + 6);
    let terms: Vec<_> = vg.nodes.iter().filter(|n| n.kind == NodeKind::Term).collect();
    assert_eq!(terms.len(), 6);
    let expected = ["amber", "ant", "apple", "arrow", "ash", "atlas"];
    for (k, vn) in terms.iter().enumerate() {
        assert_eq!(vn.label, expected[k]);
        match vn.pos {
            Position::OnLeafRing { parent, radius, index, count } => {
                // Leaf ring default: 15 + 35 + 14 + 30 = 94.
                assert_eq!(radius, 94);
                assert_eq!(index, k);
                assert_eq!(count, 6);
                // The parent slot is bucket "a": slot 0 of 26.
                assert_eq!(parent.index, 0);
                assert_eq!(parent.count, 26);
            }
            _ => panic!("term not on a leaf ring"),
        }
    }
}

#[test]
fn abbreviations_ring_and_cap() {
    let mut dict = DictionaryFile {
        alphabetical_page_starts: vec![],
        abbreviations: vec![],
        definitions: vec![],
    };
    for i in 0..45 {
        dict.abbreviations
            .push((format!("ab{:02}", i), format!("expansion {}", i)));
    }
    let graph = build_graph_from_dictionary(&dict);
    let vg = layout_dictionary_graph(&graph, None);
    // 3 fixed + 26 buckets + 40 capped abbreviations.
    assert_eq!(vg.nodes.len(), 3 + 26 + 40);
    let abbrs: Vec<_> = vg
        .nodes
        .iter()
        .filter(|n| n.kind == NodeKind::Abbreviation)
        .collect();
    assert_eq!(abbrs.len(), 40);
    match abbrs[0].pos {
        Position::OnRing(rp) => {
            assert_eq!(rp.cx, 300 + 655);
            assert_eq!(rp.cy, 250);
            // Abbreviation ring default: 180 + 35 + 14 + 40 = 269.
            assert_eq!(rp.radius, 269);
            assert_eq!(rp.index, 0);
            assert_eq!(rp.count, 40);
        }
        _ => panic!("abbreviation not on its ring"),
    }
}

#[test]
fn empty_graph_still_yields_root_and_categories() {
    let graph = Graph { nodes: vec![], edges: vec![] };
    let vg = layout_dictionary_graph(&graph, None);
    assert_eq!(vg.nodes.len(), 3);
    assert_eq!(vg.edges.len(), 2);
    assert_eq!(vg.nodes[0].label, "Dictionary Collection");
    assert_eq!(vg.nodes[0].kind, NodeKind::Root);
    assert!(matches!(vg.nodes[0].pos, Position::At { x: 300, y: 250 }));
    assert_eq!(vg.nodes[1].label, "Definitions");
    assert_eq!(vg.nodes[2].label, "Abbreviations");
    assert_eq!(vg.edges[0].kind, "hierarchy");
    assert_eq!(vg.edges[1].kind, "hierarchy");
}

#[test]
fn title_labels_the_root() {
    let graph = Graph { nodes: vec![], edges: vec![] };
    let vg = layout_dictionary_graph(&graph, Some("Black's Law Dictionary (9th)"));
    assert_eq!(vg.nodes[0].label, "Black's Law Dictionary (9th)");
}

#[test]
fn dangling_contains_edge_places_no_term_but_stays_semantic() {
    // A contains edge whose bucket node does not exist: the term gets
    // no position, the edge is still mirrored.
    let graph = Graph {
        nodes: vec![],
        edges: vec![Edge {
            from: NodeId::Alpha(b'q'),
            to: NodeId::Term("quark".to_string()),
            relation: "contains".to_string(),
        }],
    };
    let vg = layout_dictionary_graph(&graph, None);
    assert_eq!(vg.nodes.len(), 3);
    assert_eq!(vg.edges.len(), 3);
    let last = &vg.edges[2];
    assert!(node_id_eq(&last.from, &NodeId::Alpha(b'q')));
    assert_eq!(last.kind, "contains");
}

#[test]
fn buckets_sort_by_case_folded_label() {
    let mk = |letter: u8, label: &str| Node {
        id: NodeId::Alpha(letter),
        label: label.to_string(),
        kind: NodeKind::Alpha,
        data: NodeData::Empty,
    };
    let graph = Graph {
        nodes: vec![mk(b'c', "C"), mk(b'a', "a"), mk(b'b', "B")],
        edges: vec![],
    };
    let vg = layout_dictionary_graph(&graph, None);
    let labels: Vec<&str> = vg.nodes[3..6].iter().map(|n| n.label.as_str()).collect();
    assert_eq!(labels, vec!["a", "B", "C"]);
}

#[test]
fn radii_profiles_and_defaults() {
    let roomy = LayoutRadii::roomy();
    assert_eq!(roomy.root, 400);
    assert_eq!(roomy.category, 180);
    assert_eq!(roomy.alpha, 15);
    assert_eq!(roomy.term, 14);
    assert_eq!(roomy.abbreviation, 14);
    assert_eq!(roomy.padding, 35);
    assert_eq!(roomy.category_extra_offset, 40);
    assert_eq!(roomy.alpha_ring_radius_default(), 290);
    assert_eq!(roomy.leaf_ring_radius_default(), 94);
    assert_eq!(roomy.abbr_ring_radius_default(), 269);

    let compact = LayoutRadii::compact();
    assert_eq!(compact.root, 70);
    assert_eq!(compact.category, 16);
    assert_eq!(compact.padding, 24);
    assert_eq!(compact.category_extra_offset, 25);

    assert_eq!(radius_for(NodeKind::Root), 400);
    assert_eq!(radius_for(NodeKind::Category), 180);
    assert_eq!(radius_for(NodeKind::Term), 14);
}

#[test]
fn explicit_ring_radii_override_the_defaults() {
    let mut radii = LayoutRadii::compact();
    radii.alpha_ring_radius = Some(500);
    let graph = build_graph_from_dictionary(&dict_three_terms());
    let vg: VisualGraph = layout_dictionary_graph_with_radii(&graph, None, radii);
    match vg.nodes[3].pos {
        Position::OnRing(rp) => assert_eq!(rp.radius, 500),
        _ => panic!("bucket not on the alpha ring"),
    }
}
