//! The radial layout engine: places every node of a semantic graph on
//! concentric rings (root, two categories, alphabetical buckets, leaf
//! rings) and mirrors every semantic edge into the visual edge list.
//!
//! A placement is exact data: a ring center, a ring radius, and the
//! angular slot `index` out of `count` even slots of a full turn. The
//! angle of slot `index` is `index / count` of `2 pi`; resolving a
//! placement to cartesian coordinates is left to the (unverified)
//! renderer, so the layout itself is free of floating point and its
//! output is reproducible bit for bit.

use vstd::prelude::*;

use crate::graph::Edge;
use crate::graph::Graph;
use crate::graph::Node;
use crate::graph::NodeId;
use crate::graph::node_id_eq;
use crate::graph::NodeKind;
use crate::graph::SpecEdge;
use crate::graph::edges_view;
use crate::graph::SpecGraph;
use crate::graph::SpecNode;
use crate::graph::SpecNodeId;
use crate::graph::nodes_view;
use crate::graph::strs_view;
use crate::order::lex_le;
use crate::order::lex_le_str;
use crate::order::str_eq;
use crate::order::lemma_insert_by_position;
use crate::order::spec_insert_by;
use crate::order::spec_sort_by;

verus! {

/// X coordinate of the fixed layout center.
pub const CENTER_X: i64 = 300;

/// Y coordinate of the fixed layout center.
pub const CENTER_Y: i64 = 250;

/// At most this many abbreviation leaves receive a position.
pub const ABBR_LIMIT: usize = 40;

/// At most this many term leaves receive a position per bucket.
pub const PER_LETTER_LIMIT: usize = 6;

/// Per-kind node radii and ring spacing, in world units.
///
/// Each layout profile picks its own sizes; ring radii left as `None`
/// are computed conservatively from the node radii.
#[derive(Clone, Copy, Debug)]
pub struct LayoutRadii {
    pub root: u64,
    pub category: u64,
    pub alpha: u64,
    pub term: u64,
    pub abbreviation: u64,
    /// Extra space between circles (and between rings) against visual
    /// overlap.
    pub padding: u64,
    /// Extra spread between the root and the category centers, beyond
    /// radii plus padding.
    pub category_extra_offset: u64,
    /// Ring radius of the alphabetical buckets around "Definitions".
    pub alpha_ring_radius: Option<u64>,
    /// Ring radius of the term leaves around their bucket.
    pub leaf_ring_radius: Option<u64>,
    /// Ring radius of the abbreviation leaves around "Abbreviations".
    pub abbr_ring_radius: Option<u64>,
}

/// Bound on every radius field, generous for drawing and small enough
/// that all derived coordinates stay far from machine limits.
pub const RADIUS_BOUND: u64 = 1000000;

impl LayoutRadii {
    /// Every field within [`RADIUS_BOUND`].
    pub open spec fn wf(self) -> bool {
        &&& self.root <= RADIUS_BOUND
        &&& self.category <= RADIUS_BOUND
        &&& self.alpha <= RADIUS_BOUND
        &&& self.term <= RADIUS_BOUND
        &&& self.abbreviation <= RADIUS_BOUND
        &&& self.padding <= RADIUS_BOUND
        &&& self.category_extra_offset <= RADIUS_BOUND
        &&& (self.alpha_ring_radius matches Some(r) ==> r <= RADIUS_BOUND)
        &&& (self.leaf_ring_radius matches Some(r) ==> r <= RADIUS_BOUND)
        &&& (self.abbr_ring_radius matches Some(r) ==> r <= RADIUS_BOUND)
    }

    /// The generously spaced profile.
    pub open spec fn spec_roomy() -> LayoutRadii {
        LayoutRadii {
            root: 400,
            category: 180,
            alpha: 15,
            term: 14,
            abbreviation: 14,
            padding: 35,
            category_extra_offset: 40,
            alpha_ring_radius: None,
            leaf_ring_radius: None,
            abbr_ring_radius: None,
        }
    }

    /// The tightly packed profile.
    pub open spec fn spec_compact() -> LayoutRadii {
        LayoutRadii {
            root: 70,
            category: 16,
            alpha: 12,
            term: 12,
            abbreviation: 12,
            padding: 24,
            category_extra_offset: 25,
            alpha_ring_radius: None,
            leaf_ring_radius: None,
            abbr_ring_radius: None,
        }
    }

    /// Returns the generously spaced profile.
    pub fn roomy() -> (r: LayoutRadii)
        ensures
            r == LayoutRadii::spec_roomy(),
            r.wf(),
    {
        LayoutRadii {
            root: 400,
            category: 180,
            alpha: 15,
            term: 14,
            abbreviation: 14,
            padding: 35,
            category_extra_offset: 40,
            alpha_ring_radius: None,
            leaf_ring_radius: None,
            abbr_ring_radius: None,
        }
    }

    /// Returns the tightly packed profile.
    pub fn compact() -> (r: LayoutRadii)
        ensures
            r == LayoutRadii::spec_compact(),
            r.wf(),
    {
        LayoutRadii {
            root: 70,
            category: 16,
            alpha: 12,
            term: 12,
            abbreviation: 12,
            padding: 24,
            category_extra_offset: 25,
            alpha_ring_radius: None,
            leaf_ring_radius: None,
            abbr_ring_radius: None,
        }
    }

    /// The drawn radius of a node of the given kind.
    pub open spec fn spec_radius_for(self, kind: NodeKind) -> u64 {
        match kind {
            NodeKind::Root => self.root,
            NodeKind::Category => self.category,
            NodeKind::Alpha => self.alpha,
            NodeKind::Term => self.term,
            NodeKind::Abbreviation => self.abbreviation,
        }
    }

    /// Returns the drawn radius of a node of the given kind.
    pub fn radius_for(&self, kind: NodeKind) -> (r: u64)
        ensures
            r == self.spec_radius_for(kind),
    {
        match kind {
            NodeKind::Root => self.root,
            NodeKind::Category => self.category,
            NodeKind::Alpha => self.alpha,
            NodeKind::Term => self.term,
            NodeKind::Abbreviation => self.abbreviation,
        }
    }

    /// Default alpha ring radius: buckets clear the category circle.
    pub open spec fn spec_alpha_ring_radius_default(self) -> int {
        self.category + self.padding + self.alpha + 60
    }

    /// Returns the default alpha ring radius.
    pub fn alpha_ring_radius_default(&self) -> (r: u64)
        requires
            self.wf(),
        ensures
            r == self.spec_alpha_ring_radius_default(),
    {
        self.category + self.padding + self.alpha + 60
    }

    /// Default leaf ring radius: terms clear their bucket's circle.
    pub open spec fn spec_leaf_ring_radius_default(self) -> int {
        self.alpha + self.padding + self.term + 30
    }

    /// Returns the default leaf ring radius.
    pub fn leaf_ring_radius_default(&self) -> (r: u64)
        requires
            self.wf(),
        ensures
            r == self.spec_leaf_ring_radius_default(),
    {
        self.alpha + self.padding + self.term + 30
    }

    /// Default abbreviation ring radius around "Abbreviations".
    pub open spec fn spec_abbr_ring_radius_default(self) -> int {
        self.category + self.padding + self.abbreviation + 40
    }

    /// Returns the default abbreviation ring radius.
    pub fn abbr_ring_radius_default(&self) -> (r: u64)
        requires
            self.wf(),
        ensures
            r == self.spec_abbr_ring_radius_default(),
    {
        self.category + self.padding + self.abbreviation + 40
    }
}

/// Returns the drawn radius of a node kind under the roomy profile.
pub fn radius_for(kind: NodeKind) -> (r: u64)
    ensures
        r == LayoutRadii::spec_roomy().spec_radius_for(kind),
{
    LayoutRadii::roomy().radius_for(kind)
}

/// An even angular slot on a circle around a fixed center: the slot's
/// angle is `index / count` of a full turn.
#[derive(Clone, Copy, Debug, PartialEq, Eq, Structural)]
pub struct RingPos {
    pub cx: i64,
    pub cy: i64,
    pub radius: u64,
    pub index: usize,
    pub count: usize,
}

/// The exact placement of a visual node.
#[derive(Clone, Copy, Debug, PartialEq, Eq, Structural)]
pub enum Position {
    /// An exact point (the root and the two category nodes).
    At { x: i64, y: i64 },
    /// A slot on a ring around an exact center (buckets and
    /// abbreviation leaves).
    OnRing(RingPos),
    /// A slot on a small ring whose center is itself the ring slot
    /// `parent` (term leaves around their bucket).
    OnLeafRing { parent: RingPos, radius: u64, index: usize, count: usize },
}

/// A node with its computed placement.
#[derive(Debug)]
pub struct VisualNode {
    pub id: NodeId,
    pub label: String,
    pub kind: NodeKind,
    pub pos: Position,
}

/// Mathematical model of a [`VisualNode`].
pub struct SpecVisualNode {
    pub id: SpecNodeId,
    pub label: Seq<char>,
    pub kind: NodeKind,
    pub pos: Position,
}

impl View for VisualNode {
    type V = SpecVisualNode;

    open spec fn view(&self) -> SpecVisualNode {
        SpecVisualNode { id: self.id@, label: self.label@, kind: self.kind, pos: self.pos }
    }
}

/// A visual edge between two node identities.
#[derive(Debug)]
pub struct VisualEdge {
    pub from: NodeId,
    pub to: NodeId,
    pub kind: String,
}

/// Mathematical model of a [`VisualEdge`].
pub struct SpecVisualEdge {
    pub from: SpecNodeId,
    pub to: SpecNodeId,
    pub kind: Seq<char>,
}

impl View for VisualEdge {
    type V = SpecVisualEdge;

    open spec fn view(&self) -> SpecVisualEdge {
        SpecVisualEdge { from: self.from@, to: self.to@, kind: self.kind@ }
    }
}

/// The model of a sequence of visual nodes.
pub open spec fn vnodes_view(s: Seq<VisualNode>) -> Seq<SpecVisualNode> {
    s.map_values(|n: VisualNode| n@)
}

/// The model of a sequence of visual edges.
pub open spec fn vedges_view(s: Seq<VisualEdge>) -> Seq<SpecVisualEdge> {
    s.map_values(|e: VisualEdge| e@)
}

/// The laid-out graph: every placed node and the full visual edge list,
/// a superset of the semantic edges.
#[derive(Debug)]
pub struct VisualGraph {
    pub nodes: Vec<VisualNode>,
    pub edges: Vec<VisualEdge>,
}

/// Mathematical model of a [`VisualGraph`].
pub struct SpecVisualGraph {
    pub nodes: Seq<SpecVisualNode>,
    pub edges: Seq<SpecVisualEdge>,
}

impl View for VisualGraph {
    type V = SpecVisualGraph;

    open spec fn view(&self) -> SpecVisualGraph {
        SpecVisualGraph { nodes: vnodes_view(self.nodes@), edges: vedges_view(self.edges@) }
    }
}

// ---------------------------------------------------------------------
// The functional description of the layout. The executable function
// returns exactly these values; every property of the layout is proved
// against them.
// ---------------------------------------------------------------------

/// Bucket nodes order under case-folded lexicographic label order.
pub open spec fn node_label_leq(a: SpecNode, b: SpecNode) -> bool {
    lex_le(a.label, b.label, true)
}

/// [`node_label_leq`] as a function value, defined once so every use
/// denotes the same ordering.
pub open spec fn node_leq_fn() -> spec_fn(SpecNode, SpecNode) -> bool {
    |a: SpecNode, b: SpecNode| node_label_leq(a, b)
}

/// Plain lexicographic order on strings, as a function value.
pub open spec fn str_leq_fn() -> spec_fn(Seq<char>, Seq<char>) -> bool {
    |a: Seq<char>, b: Seq<char>| lex_le(a, b, false)
}

/// Distance from the layout center to each category center: the two
/// circles clear each other by the configured padding and extra offset.
pub open spec fn spec_cat_radius(radii: LayoutRadii) -> int {
    radii.root + radii.category + radii.padding + radii.category_extra_offset
}

/// X coordinate of the "Definitions" category center.
pub open spec fn spec_defs_cx(radii: LayoutRadii) -> int {
    CENTER_X - spec_cat_radius(radii)
}

/// X coordinate of the "Abbreviations" category center.
pub open spec fn spec_abbr_cx(radii: LayoutRadii) -> int {
    CENTER_X + spec_cat_radius(radii)
}

/// The configured alpha ring radius, or its conservative default.
pub open spec fn spec_alpha_ring_radius(radii: LayoutRadii) -> int {
    match radii.alpha_ring_radius {
        Some(r) => r as int,
        None => radii.spec_alpha_ring_radius_default(),
    }
}

/// The configured leaf ring radius, or its conservative default.
pub open spec fn spec_leaf_ring_radius(radii: LayoutRadii) -> int {
    match radii.leaf_ring_radius {
        Some(r) => r as int,
        None => radii.spec_leaf_ring_radius_default(),
    }
}

/// The configured abbreviation ring radius, or its default.
pub open spec fn spec_abbr_ring_radius(radii: LayoutRadii) -> int {
    match radii.abbr_ring_radius {
        Some(r) => r as int,
        None => radii.spec_abbr_ring_radius_default(),
    }
}

/// The nodes of kind `kind` among the first `n` nodes, in input order.
pub open spec fn spec_nodes_of_kind_upto(s: Seq<SpecNode>, kind: NodeKind, n: int) -> Seq<SpecNode>
    decreases n,
{
    if n <= 0 {
        Seq::empty()
    } else {
        spec_nodes_of_kind_upto(s, kind, n - 1) + if s[n - 1].kind == kind {
            seq![s[n - 1]]
        } else {
            Seq::empty()
        }
    }
}

/// The alphabetical bucket nodes, sorted by case-folded label.
pub open spec fn spec_sorted_alphas(g: SpecGraph) -> Seq<SpecNode> {
    spec_sort_by(
        spec_nodes_of_kind_upto(g.nodes, NodeKind::Alpha, g.nodes.len() as int),
        node_leq_fn(),
    )
}

/// The abbreviation nodes, in input order.
pub open spec fn spec_abbr_nodes(g: SpecGraph) -> Seq<SpecNode> {
    spec_nodes_of_kind_upto(g.nodes, NodeKind::Abbreviation, g.nodes.len() as int)
}

/// The root visual node, at the fixed center.
pub open spec fn spec_master_vnode(title: Seq<char>) -> SpecVisualNode {
    SpecVisualNode {
        id: SpecNodeId::Master,
        label: title,
        kind: NodeKind::Root,
        pos: Position::At { x: CENTER_X, y: CENTER_Y },
    }
}

/// The "Definitions" category visual node, left of center.
pub open spec fn spec_defs_vnode(radii: LayoutRadii) -> SpecVisualNode {
    SpecVisualNode {
        id: SpecNodeId::Definitions,
        label: "Definitions"@,
        kind: NodeKind::Category,
        pos: Position::At { x: spec_defs_cx(radii) as i64, y: CENTER_Y },
    }
}

/// The "Abbreviations" category visual node, right of center.
pub open spec fn spec_abbr_cat_vnode(radii: LayoutRadii) -> SpecVisualNode {
    SpecVisualNode {
        id: SpecNodeId::Abbreviations,
        label: "Abbreviations"@,
        kind: NodeKind::Category,
        pos: Position::At { x: spec_abbr_cx(radii) as i64, y: CENTER_Y },
    }
}

/// The ring slot of the `i`-th of `count` bucket nodes around the
/// "Definitions" center.
pub open spec fn spec_alpha_ring_pos(radii: LayoutRadii, i: int, count: int) -> RingPos {
    RingPos {
        cx: spec_defs_cx(radii) as i64,
        cy: CENTER_Y,
        radius: spec_alpha_ring_radius(radii) as u64,
        index: i as usize,
        count: count as usize,
    }
}

/// The first `n` bucket visual nodes: the sorted buckets, each on its
/// own slot of the alpha ring.
pub open spec fn spec_alpha_vnodes_upto(g: SpecGraph, radii: LayoutRadii, n: int) -> Seq<
    SpecVisualNode,
>
    decreases n,
{
    if n <= 0 {
        Seq::empty()
    } else {
        let sorted = spec_sorted_alphas(g);
        let count = if sorted.len() == 0 {
            1int
        } else {
            sorted.len() as int
        };
        spec_alpha_vnodes_upto(g, radii, n - 1).push(
            SpecVisualNode {
                id: sorted[n - 1].id,
                label: sorted[n - 1].label,
                kind: NodeKind::Alpha,
                pos: Position::OnRing(spec_alpha_ring_pos(radii, n - 1, count)),
            },
        )
    }
}

/// All bucket visual nodes.
pub open spec fn spec_alpha_vnodes(g: SpecGraph, radii: LayoutRadii) -> Seq<SpecVisualNode> {
    spec_alpha_vnodes_upto(g, radii, spec_sorted_alphas(g).len() as int)
}

/// How many abbreviation leaves are placed: all of them, capped.
pub open spec fn spec_abbr_placed(g: SpecGraph) -> int {
    if spec_abbr_nodes(g).len() <= ABBR_LIMIT {
        spec_abbr_nodes(g).len() as int
    } else {
        ABBR_LIMIT as int
    }
}

/// The first `n` abbreviation visual nodes, on the ring around the
/// "Abbreviations" center.
pub open spec fn spec_abbr_vnodes_upto(g: SpecGraph, radii: LayoutRadii, n: int) -> Seq<
    SpecVisualNode,
>
    decreases n,
{
    if n <= 0 {
        Seq::empty()
    } else {
        let limit = spec_abbr_placed(g);
        let count = if limit == 0 {
            1int
        } else {
            limit
        };
        spec_abbr_vnodes_upto(g, radii, n - 1).push(
            SpecVisualNode {
                id: spec_abbr_nodes(g)[n - 1].id,
                label: spec_abbr_nodes(g)[n - 1].label,
                kind: spec_abbr_nodes(g)[n - 1].kind,
                pos: Position::OnRing(
                    RingPos {
                        cx: spec_abbr_cx(radii) as i64,
                        cy: CENTER_Y,
                        radius: spec_abbr_ring_radius(radii) as u64,
                        index: (n - 1) as usize,
                        count: count as usize,
                    },
                ),
            },
        )
    }
}

/// All placed abbreviation visual nodes.
pub open spec fn spec_abbr_vnodes(g: SpecGraph, radii: LayoutRadii) -> Seq<SpecVisualNode> {
    spec_abbr_vnodes_upto(g, radii, spec_abbr_placed(g))
}

/// Whether this edge files a term under bucket letter `l`.
pub open spec fn edge_feeds_bucket(e: SpecEdge, l: u8) -> bool {
    &&& e.relation == "contains"@
    &&& e.from == SpecNodeId::Alpha(l)
    &&& e.to is Term
}

/// The term keys filed under bucket letter `l` by the first `n` edges,
/// in edge order.
pub open spec fn spec_bucket_terms_upto(edges: Seq<SpecEdge>, l: u8, n: int) -> Seq<Seq<char>>
    decreases n,
{
    if n <= 0 {
        Seq::empty()
    } else {
        spec_bucket_terms_upto(edges, l, n - 1) + if edge_feeds_bucket(edges[n - 1], l) {
            seq![edges[n - 1].to->Term_0]
        } else {
            Seq::empty()
        }
    }
}

/// The term keys of bucket `l`, sorted.
pub open spec fn spec_bucket_terms_sorted(g: SpecGraph, l: u8) -> Seq<Seq<char>> {
    spec_sort_by(spec_bucket_terms_upto(g.edges, l, g.edges.len() as int), str_leq_fn())
}

/// How many terms of bucket `l` are placed: all of them, capped.
pub open spec fn spec_terms_placed(g: SpecGraph, l: u8) -> int {
    if spec_bucket_terms_sorted(g, l).len() <= PER_LETTER_LIMIT {
        spec_bucket_terms_sorted(g, l).len() as int
    } else {
        PER_LETTER_LIMIT as int
    }
}

/// The ring slot of the last placed bucket node with letter `l`, if
/// any bucket node with that letter received a position.
pub open spec fn spec_find_alpha_ring(part: Seq<SpecVisualNode>, l: u8) -> Option<RingPos>
    decreases part.len(),
{
    if part.len() == 0 {
        None
    } else if part.last().id == SpecNodeId::Alpha(l) {
        match part.last().pos {
            Position::OnRing(rp) => Some(rp),
            _ => None,
        }
    } else {
        spec_find_alpha_ring(part.drop_last(), l)
    }
}

/// The label a placed term leaf shows: the label of the first semantic
/// node carrying that term key, or the key under its namespace prefix
/// when no node carries it.
pub open spec fn spec_term_label(nodes: Seq<SpecNode>, t: Seq<char>) -> Seq<char>
    decreases nodes.len(),
{
    if nodes.len() == 0 {
        "term:"@ + t
    } else if nodes.first().id == SpecNodeId::Term(t) {
        nodes.first().label
    } else {
        spec_term_label(nodes.drop_first(), t)
    }
}

/// The first `n` placed term leaves of bucket `l`: sorted, capped, on
/// a small ring around the bucket's slot.
pub open spec fn spec_letter_vnodes_upto(g: SpecGraph, radii: LayoutRadii, l: u8, rp: RingPos, n: int) -> Seq<SpecVisualNode>
    decreases n,
{
    if n <= 0 {
        Seq::empty()
    } else {
        let terms = spec_bucket_terms_sorted(g, l);
        let limit = spec_terms_placed(g, l);
        let count = if limit == 0 {
            1int
        } else {
            limit
        };
        spec_letter_vnodes_upto(g, radii, l, rp, n - 1).push(
            SpecVisualNode {
                id: SpecNodeId::Term(terms[n - 1]),
                label: spec_term_label(g.nodes, terms[n - 1]),
                kind: NodeKind::Term,
                pos: Position::OnLeafRing {
                    parent: rp,
                    radius: spec_leaf_ring_radius(radii) as u64,
                    index: (n - 1) as usize,
                    count: count as usize,
                },
            },
        )
    }
}

/// The placed term leaves of bucket `l`; empty when no bucket node
/// with letter `l` has a position.
pub open spec fn spec_letter_vnodes(g: SpecGraph, radii: LayoutRadii, l: u8) -> Seq<
    SpecVisualNode,
> {
    match spec_find_alpha_ring(spec_alpha_vnodes(g, radii), l) {
        Some(rp) => spec_letter_vnodes_upto(g, radii, l, rp, spec_terms_placed(g, l)),
        None => Seq::empty(),
    }
}

/// The placed term leaves of every bucket letter below `lmax`, in
/// letter order.
pub open spec fn spec_term_vnodes_upto(g: SpecGraph, radii: LayoutRadii, lmax: int) -> Seq<
    SpecVisualNode,
>
    decreases lmax,
{
    if lmax <= 0 {
        Seq::empty()
    } else {
        spec_term_vnodes_upto(g, radii, lmax - 1) + spec_letter_vnodes(g, radii, (lmax - 1) as u8)
    }
}

/// Every placed visual node, in placement order.
pub open spec fn spec_layout_nodes(g: SpecGraph, title: Seq<char>, radii: LayoutRadii) -> Seq<
    SpecVisualNode,
> {
    seq![spec_master_vnode(title), spec_defs_vnode(radii), spec_abbr_cat_vnode(radii)]
        + spec_alpha_vnodes(g, radii) + spec_abbr_vnodes(g, radii) + spec_term_vnodes_upto(
        g,
        radii,
        256,
    )
}

/// The two structural hierarchy edges from the root.
pub open spec fn spec_hierarchy_edges() -> Seq<SpecVisualEdge> {
    seq![
        SpecVisualEdge {
            from: SpecNodeId::Master,
            to: SpecNodeId::Definitions,
            kind: "hierarchy"@,
        },
        SpecVisualEdge {
            from: SpecNodeId::Master,
            to: SpecNodeId::Abbreviations,
            kind: "hierarchy"@,
        },
    ]
}

/// The first `n` structural category edges to bucket nodes.
pub open spec fn spec_alpha_edges_upto(g: SpecGraph, n: int) -> Seq<SpecVisualEdge>
    decreases n,
{
    if n <= 0 {
        Seq::empty()
    } else {
        spec_alpha_edges_upto(g, n - 1).push(
            SpecVisualEdge {
                from: SpecNodeId::Definitions,
                to: spec_sorted_alphas(g)[n - 1].id,
                kind: "category"@,
            },
        )
    }
}

/// The first `n` structural category edges to abbreviation leaves.
pub open spec fn spec_abbr_edges_upto(g: SpecGraph, n: int) -> Seq<SpecVisualEdge>
    decreases n,
{
    if n <= 0 {
        Seq::empty()
    } else {
        spec_abbr_edges_upto(g, n - 1).push(
            SpecVisualEdge {
                from: SpecNodeId::Abbreviations,
                to: spec_abbr_nodes(g)[n - 1].id,
                kind: "category"@,
            },
        )
    }
}

/// The first `n` structural contains edges of bucket `l`.
pub open spec fn spec_letter_edges_upto(g: SpecGraph, l: u8, n: int) -> Seq<SpecVisualEdge>
    decreases n,
{
    if n <= 0 {
        Seq::empty()
    } else {
        spec_letter_edges_upto(g, l, n - 1).push(
            SpecVisualEdge {
                from: SpecNodeId::Alpha(l),
                to: SpecNodeId::Term(spec_bucket_terms_sorted(g, l)[n - 1]),
                kind: "contains"@,
            },
        )
    }
}

/// The structural contains edges of bucket `l`; empty when the bucket
/// has no position.
pub open spec fn spec_letter_edges(g: SpecGraph, radii: LayoutRadii, l: u8) -> Seq<
    SpecVisualEdge,
> {
    match spec_find_alpha_ring(spec_alpha_vnodes(g, radii), l) {
        Some(_rp) => spec_letter_edges_upto(g, l, spec_terms_placed(g, l)),
        None => Seq::empty(),
    }
}

/// The structural contains edges of every bucket letter below `lmax`.
pub open spec fn spec_term_edges_upto(g: SpecGraph, radii: LayoutRadii, lmax: int) -> Seq<
    SpecVisualEdge,
>
    decreases lmax,
{
    if lmax <= 0 {
        Seq::empty()
    } else {
        spec_term_edges_upto(g, radii, lmax - 1) + spec_letter_edges(g, radii, (lmax - 1) as u8)
    }
}

/// The first `n` semantic edges, each mirrored verbatim.
pub open spec fn spec_semantic_edges_upto(g: SpecGraph, n: int) -> Seq<SpecVisualEdge>
    decreases n,
{
    if n <= 0 {
        Seq::empty()
    } else {
        spec_semantic_edges_upto(g, n - 1).push(
            SpecVisualEdge {
                from: g.edges[n - 1].from,
                to: g.edges[n - 1].to,
                kind: g.edges[n - 1].relation,
            },
        )
    }
}

/// Every visual edge, in emission order: structural edges first, then
/// every semantic edge verbatim.
pub open spec fn spec_layout_edges(g: SpecGraph, radii: LayoutRadii) -> Seq<SpecVisualEdge> {
    spec_hierarchy_edges() + spec_alpha_edges_upto(g, spec_sorted_alphas(g).len() as int)
        + spec_abbr_edges_upto(g, spec_abbr_placed(g)) + spec_term_edges_upto(g, radii, 256)
        + spec_semantic_edges_upto(g, g.edges.len() as int)
}

/// The layout, as a mathematical function of the semantic graph, the
/// root label and the radii profile.
pub open spec fn spec_layout(g: SpecGraph, title: Seq<char>, radii: LayoutRadii) -> SpecVisualGraph {
    SpecVisualGraph {
        nodes: spec_layout_nodes(g, title, radii),
        edges: spec_layout_edges(g, radii),
    }
}


// ---------------------------------------------------------------------
// Executable helpers, each pinned to its functional description.
// ---------------------------------------------------------------------

/// Collects the nodes of one kind, in input order.
fn filter_nodes_of_kind(nodes: &Vec<Node>, kind: NodeKind) -> (r: Vec<Node>)
    ensures
        nodes_view(r@) == spec_nodes_of_kind_upto(nodes_view(nodes@), kind, nodes@.len() as int),
{
    let mut out: Vec<Node> = Vec::new();
    let mut i: usize = 0;
    while i < nodes.len()
        invariant
            0 <= i <= nodes@.len(),
            nodes_view(out@) == spec_nodes_of_kind_upto(nodes_view(nodes@), kind, i as int),
        decreases nodes@.len() - i,
    {
        let ghost prev = nodes_view(out@);
        if nodes[i].kind == kind {
            out.push(nodes[i].clone());
            proof {
                assert(nodes_view(out@) =~= prev.push(nodes@[i as int]@));
                assert(nodes_view(nodes@)[i as int] == nodes@[i as int]@);
                assert(nodes_view(out@) =~= spec_nodes_of_kind_upto(
                    nodes_view(nodes@),
                    kind,
                    i + 1,
                ));
            }
        } else {
            proof {
                assert(nodes_view(out@) =~= spec_nodes_of_kind_upto(
                    nodes_view(nodes@),
                    kind,
                    i + 1,
                ));
            }
        }
        i = i + 1;
    }
    out
}

/// Sorts bucket nodes by case-folded label, stably.
fn sort_nodes_by_label(v: Vec<Node>) -> (r: Vec<Node>)
    ensures
        nodes_view(r@) == spec_sort_by(nodes_view(v@), node_leq_fn()),
        r@.len() == v@.len(),
{
    let mut out: Vec<Node> = Vec::new();
    let mut k: usize = 0;
    while k < v.len()
        invariant
            0 <= k <= v@.len(),
            out@.len() == k,
            nodes_view(out@) == spec_sort_by(nodes_view(v@).take(k as int), node_leq_fn()),
        decreases v@.len() - k,
    {
        let x = v[k].clone();
        let mut j: usize = out.len();
        while j > 0 && !lex_le_str(out[j - 1].label.as_str(), x.label.as_str(), true)
            invariant
                0 <= j <= out@.len(),
                x@ == v@[k as int]@,
                forall|m: int|
                    j <= m < out@.len() ==> !node_label_leq(#[trigger] out@[m]@, x@),
            decreases j,
        {
            j = j - 1;
        }
        let ghost prev = nodes_view(out@);
        out.insert(j, x);
        proof {
            assert forall|m: int| j <= m < prev.len() implies !(node_leq_fn()(
                #[trigger] prev[m],
                v@[k as int]@,
            )) by {
                assert(!node_label_leq(prev[m], v@[k as int]@));
            }
            if j > 0 {
                assert(node_leq_fn()(prev[j - 1], v@[k as int]@) == node_label_leq(
                    prev[j - 1],
                    v@[k as int]@,
                ));
            }
            lemma_insert_by_position(prev, v@[k as int]@, node_leq_fn(), j as int);
            assert(nodes_view(out@) =~= prev.insert(j as int, v@[k as int]@));
            assert(nodes_view(v@).take(k + 1).drop_last() =~= nodes_view(v@).take(k as int));
            assert(nodes_view(v@).take(k + 1).last() == v@[k as int]@);
            assert(nodes_view(out@) == spec_sort_by(
                nodes_view(v@).take(k + 1),
                node_leq_fn(),
            ));
        }
        k = k + 1;
    }
    proof {
        assert(nodes_view(v@).take(v@.len() as int) =~= nodes_view(v@));
    }
    out
}

/// Sorts term keys lexicographically, stably.
fn sort_strings(v: Vec<String>) -> (r: Vec<String>)
    ensures
        strs_view(r@) == spec_sort_by(strs_view(v@), str_leq_fn()),
        r@.len() == v@.len(),
{
    let mut out: Vec<String> = Vec::new();
    let mut k: usize = 0;
    while k < v.len()
        invariant
            0 <= k <= v@.len(),
            out@.len() == k,
            strs_view(out@) == spec_sort_by(strs_view(v@).take(k as int), str_leq_fn()),
        decreases v@.len() - k,
    {
        let x = v[k].clone();
        let mut j: usize = out.len();
        while j > 0 && !lex_le_str(out[j - 1].as_str(), x.as_str(), false)
            invariant
                0 <= j <= out@.len(),
                x@ == v@[k as int]@,
                forall|m: int| j <= m < out@.len() ==> !lex_le(#[trigger] out@[m]@, x@, false),
            decreases j,
        {
            j = j - 1;
        }
        let ghost prev = strs_view(out@);
        out.insert(j, x);
        proof {
            assert forall|m: int| j <= m < prev.len() implies !(str_leq_fn()(
                #[trigger] prev[m],
                v@[k as int]@,
            )) by {
                assert(!lex_le(prev[m], v@[k as int]@, false));
            }
            if j > 0 {
                assert(str_leq_fn()(prev[j - 1], v@[k as int]@) == lex_le(
                    prev[j - 1],
                    v@[k as int]@,
                    false,
                ));
            }
            lemma_insert_by_position(prev, v@[k as int]@, str_leq_fn(), j as int);
            assert(strs_view(out@) =~= prev.insert(j as int, v@[k as int]@));
            assert(strs_view(v@).take(k + 1).drop_last() =~= strs_view(v@).take(k as int));
            assert(strs_view(v@).take(k + 1).last() == v@[k as int]@);
            assert(strs_view(out@) == spec_sort_by(strs_view(v@).take(k + 1), str_leq_fn()));
        }
        k = k + 1;
    }
    proof {
        assert(strs_view(v@).take(v@.len() as int) =~= strs_view(v@));
    }
    out
}


/// Collects the term keys filed under bucket letter `l`, in edge order.
fn bucket_terms(edges: &Vec<Edge>, l: u8) -> (r: Vec<String>)
    ensures
        strs_view(r@) == spec_bucket_terms_upto(edges_view(edges@), l, edges@.len() as int),
{
    let mut out: Vec<String> = Vec::new();
    let mut i: usize = 0;
    while i < edges.len()
        invariant
            0 <= i <= edges@.len(),
            strs_view(out@) == spec_bucket_terms_upto(edges_view(edges@), l, i as int),
        decreases edges@.len() - i,
    {
        let ghost prev = strs_view(out@);
        let ghost ev = edges_view(edges@)[i as int];
        let e = &edges[i];
        let from_ok: bool = match &e.from {
            NodeId::Alpha(b) => *b == l,
            _ => false,
        };
        if from_ok && str_eq(e.relation.as_str(), "contains") {
            match &e.to {
                NodeId::Term(t) => {
                    out.push(t.clone());
                    proof {
                        assert(edge_feeds_bucket(ev, l));
                        assert(strs_view(out@) =~= prev.push(t@));
                        assert(strs_view(out@) =~= spec_bucket_terms_upto(
                            edges_view(edges@),
                            l,
                            i + 1,
                        ));
                    }
                },
                _ => {
                    proof {
                        assert(!edge_feeds_bucket(ev, l));
                        assert(strs_view(out@) =~= spec_bucket_terms_upto(
                            edges_view(edges@),
                            l,
                            i + 1,
                        ));
                    }
                },
            }
        } else {
            proof {
                assert(!edge_feeds_bucket(ev, l));
                assert(strs_view(out@) =~= spec_bucket_terms_upto(edges_view(edges@), l, i + 1));
            }
        }
        i = i + 1;
    }
    out
}

/// Finds the ring slot of the last placed bucket node with letter `l`.
fn find_alpha_ring(part: &Vec<VisualNode>, l: u8) -> (r: Option<RingPos>)
    ensures
        r == spec_find_alpha_ring(vnodes_view(part@), l),
{
    let mut i: usize = part.len();
    proof {
        assert(vnodes_view(part@).take(part@.len() as int) =~= vnodes_view(part@));
    }
    while i > 0
        invariant
            0 <= i <= part@.len(),
            spec_find_alpha_ring(vnodes_view(part@), l) == spec_find_alpha_ring(
                vnodes_view(part@).take(i as int),
                l,
            ),
        decreases i,
    {
        let ghost pv = vnodes_view(part@).take(i as int);
        proof {
            assert(pv.last() == part@[i - 1]@);
            assert(pv.drop_last() =~= vnodes_view(part@).take(i - 1));
        }
        let hit: bool = match &part[i - 1].id {
            NodeId::Alpha(b) => *b == l,
            _ => false,
        };
        if hit {
            match &part[i - 1].pos {
                Position::OnRing(rp) => {
                    return Some(*rp);
                },
                _ => {
                    return None;
                },
            }
        }
        i = i - 1;
    }
    None
}

/// Returns the label a placed term leaf shows for term key `t`.
fn term_label(nodes: &Vec<Node>, t: &String) -> (r: String)
    ensures
        r@ == spec_term_label(nodes_view(nodes@), t@),
{
    let mut i: usize = 0;
    proof {
        assert(nodes_view(nodes@).skip(0) =~= nodes_view(nodes@));
    }
    while i < nodes.len()
        invariant
            0 <= i <= nodes@.len(),
            spec_term_label(nodes_view(nodes@), t@) == spec_term_label(
                nodes_view(nodes@).skip(i as int),
                t@,
            ),
        decreases nodes@.len() - i,
    {
        let ghost sv = nodes_view(nodes@).skip(i as int);
        proof {
            assert(sv.first() == nodes@[i as int]@);
            assert(sv.drop_first() =~= nodes_view(nodes@).skip(i + 1));
        }
        let hit: bool = match &nodes[i].id {
            NodeId::Term(s) => str_eq(s.as_str(), t.as_str()),
            _ => false,
        };
        if hit {
            return nodes[i].label.clone();
        }
        i = i + 1;
    }
    proof {
        assert(vstd::prelude::Seq::<SpecNode>::empty() =~= nodes_view(nodes@).skip(
            nodes@.len() as int,
        ));
    }
    let base: String = "term:".to_owned();
    base.concat(t.as_str())
}


/// The root label: the given title, or the default collection label.
pub open spec fn spec_title_label(title: Option<&str>) -> Seq<char> {
    match title {
        Some(t) => t@,
        None => "Dictionary Collection"@,
    }
}

/// Places the sorted buckets on the alpha ring and appends their
/// structural category edges.
#[verifier::loop_isolation(false)]
fn place_alphas(
    graph: &Graph,
    radii: LayoutRadii,
    defs_cx: i64,
    alpha_ring: u64,
    vedges: &mut Vec<VisualEdge>,
) -> (r: Vec<VisualNode>)
    requires
        radii.wf(),
        defs_cx == spec_defs_cx(radii) as i64,
        alpha_ring == spec_alpha_ring_radius(radii) as u64,
    ensures
        vnodes_view(r@) == spec_alpha_vnodes(graph@, radii),
        vedges_view(final(vedges)@) == vedges_view(old(vedges)@) + spec_alpha_edges_upto(
            graph@,
            spec_sorted_alphas(graph@).len() as int,
        ),
{
    let ghost g = graph@;
    let alphas: Vec<Node> = sort_nodes_by_label(filter_nodes_of_kind(&graph.nodes, NodeKind::Alpha));
    proof {
        assert(nodes_view(alphas@) == spec_sorted_alphas(g));
    }
    let alpha_count: usize = if alphas.len() == 0 {
        1
    } else {
        alphas.len()
    };
    let mut out: Vec<VisualNode> = Vec::new();
    let mut i: usize = 0;
    while i < alphas.len()
        invariant
            0 <= i <= alphas@.len(),
            vnodes_view(out@) == spec_alpha_vnodes_upto(g, radii, i as int),
            vedges_view(vedges@) == vedges_view(old(vedges)@) + spec_alpha_edges_upto(
                g,
                i as int,
            ),
        decreases alphas@.len() - i,
    {
        let ghost prev_e = vedges_view(vedges@);
        out.push(
            VisualNode {
                id: alphas[i].id.clone(),
                label: alphas[i].label.clone(),
                kind: NodeKind::Alpha,
                pos: Position::OnRing(
                    RingPos {
                        cx: defs_cx,
                        cy: CENTER_Y,
                        radius: alpha_ring,
                        index: i,
                        count: alpha_count,
                    },
                ),
            },
        );
        vedges.push(
            VisualEdge {
                from: NodeId::Definitions,
                to: alphas[i].id.clone(),
                kind: "category".to_owned(),
            },
        );
        proof {
            assert(spec_sorted_alphas(g)[i as int] == alphas@[i as int]@);
            assert(vnodes_view(out@) =~= spec_alpha_vnodes_upto(g, radii, i + 1));
            let ghost enew = SpecVisualEdge {
                from: SpecNodeId::Definitions,
                to: spec_sorted_alphas(g)[i as int].id,
                kind: "category"@,
            };
            assert(vedges_view(vedges@) =~= prev_e.push(enew));
            assert(vedges_view(vedges@) =~= vedges_view(old(vedges)@) + spec_alpha_edges_upto(
                g,
                i + 1,
            ));
        }
        i = i + 1;
    }
    out
}

/// Places the capped abbreviation leaves around "Abbreviations" and
/// appends their structural category edges.
#[verifier::loop_isolation(false)]
fn place_abbrs(
    graph: &Graph,
    radii: LayoutRadii,
    abbr_cx: i64,
    abbr_ring: u64,
    vedges: &mut Vec<VisualEdge>,
) -> (r: Vec<VisualNode>)
    requires
        radii.wf(),
        abbr_cx == spec_abbr_cx(radii) as i64,
        abbr_ring == spec_abbr_ring_radius(radii) as u64,
    ensures
        vnodes_view(r@) == spec_abbr_vnodes(graph@, radii),
        vedges_view(final(vedges)@) == vedges_view(old(vedges)@) + spec_abbr_edges_upto(
            graph@,
            spec_abbr_placed(graph@),
        ),
{
    let ghost g = graph@;
    let abbrs: Vec<Node> = filter_nodes_of_kind(&graph.nodes, NodeKind::Abbreviation);
    let abbr_limit: usize = if abbrs.len() < ABBR_LIMIT {
        abbrs.len()
    } else {
        ABBR_LIMIT
    };
    proof {
        assert(abbr_limit as int == spec_abbr_placed(g));
    }
    let abbr_count: usize = if abbr_limit == 0 {
        1
    } else {
        abbr_limit
    };
    let mut out: Vec<VisualNode> = Vec::new();
    let mut i: usize = 0;
    while i < abbr_limit
        invariant
            0 <= i <= abbr_limit,
            vnodes_view(out@) == spec_abbr_vnodes_upto(g, radii, i as int),
            vedges_view(vedges@) == vedges_view(old(vedges)@) + spec_abbr_edges_upto(g, i as int),
        decreases abbr_limit - i,
    {
        let ghost prev_e = vedges_view(vedges@);
        out.push(
            VisualNode {
                id: abbrs[i].id.clone(),
                label: abbrs[i].label.clone(),
                kind: abbrs[i].kind,
                pos: Position::OnRing(
                    RingPos {
                        cx: abbr_cx,
                        cy: CENTER_Y,
                        radius: abbr_ring,
                        index: i,
                        count: abbr_count,
                    },
                ),
            },
        );
        vedges.push(
            VisualEdge {
                from: NodeId::Abbreviations,
                to: abbrs[i].id.clone(),
                kind: "category".to_owned(),
            },
        );
        proof {
            assert(spec_abbr_nodes(g)[i as int] == abbrs@[i as int]@);
            assert(vnodes_view(out@) =~= spec_abbr_vnodes_upto(g, radii, i + 1));
            let ghost enew = SpecVisualEdge {
                from: SpecNodeId::Abbreviations,
                to: spec_abbr_nodes(g)[i as int].id,
                kind: "category"@,
            };
            assert(vedges_view(vedges@) =~= prev_e.push(enew));
            assert(vedges_view(vedges@) =~= vedges_view(old(vedges)@) + spec_abbr_edges_upto(
                g,
                i + 1,
            ));
        }
        i = i + 1;
    }
    out
}

/// Places the sorted, capped term leaves of one bucket and appends
/// their structural contains edges.
#[verifier::loop_isolation(false)]
fn place_letter_terms(
    graph: &Graph,
    radii: LayoutRadii,
    leaf_ring: u64,
    lb: u8,
    rp: RingPos,
    out: &mut Vec<VisualNode>,
    vedges: &mut Vec<VisualEdge>,
)
    requires
        radii.wf(),
        leaf_ring == spec_leaf_ring_radius(radii) as u64,
    ensures
        vnodes_view(final(out)@) == vnodes_view(old(out)@) + spec_letter_vnodes_upto(
            graph@,
            radii,
            lb,
            rp,
            spec_terms_placed(graph@, lb),
        ),
        vedges_view(final(vedges)@) == vedges_view(old(vedges)@) + spec_letter_edges_upto(
            graph@,
            lb,
            spec_terms_placed(graph@, lb),
        ),
{
    let ghost g = graph@;
    let terms: Vec<String> = sort_strings(bucket_terms(&graph.edges, lb));
    proof {
        assert(strs_view(terms@) == spec_bucket_terms_sorted(g, lb));
    }
    let tlimit: usize = if terms.len() < PER_LETTER_LIMIT {
        terms.len()
    } else {
        PER_LETTER_LIMIT
    };
    proof {
        assert(tlimit as int == spec_terms_placed(g, lb));
    }
    let tcount: usize = if tlimit == 0 {
        1
    } else {
        tlimit
    };
    let mut k: usize = 0;
    while k < tlimit
        invariant
            0 <= k <= tlimit,
            vnodes_view(out@) == vnodes_view(old(out)@) + spec_letter_vnodes_upto(
                g,
                radii,
                lb,
                rp,
                k as int,
            ),
            vedges_view(vedges@) == vedges_view(old(vedges)@) + spec_letter_edges_upto(
                g,
                lb,
                k as int,
            ),
        decreases tlimit - k,
    {
        let ghost prev_n = vnodes_view(out@);
        let ghost prev_e = vedges_view(vedges@);
        let label: String = term_label(&graph.nodes, &terms[k]);
        out.push(
            VisualNode {
                id: NodeId::Term(terms[k].clone()),
                label,
                kind: NodeKind::Term,
                pos: Position::OnLeafRing {
                    parent: rp,
                    radius: leaf_ring,
                    index: k,
                    count: tcount,
                },
            },
        );
        vedges.push(
            VisualEdge {
                from: NodeId::Alpha(lb),
                to: NodeId::Term(terms[k].clone()),
                kind: "contains".to_owned(),
            },
        );
        proof {
            assert(spec_bucket_terms_sorted(g, lb)[k as int] == terms@[k as int]@);
            let ghost nnew = SpecVisualNode {
                id: SpecNodeId::Term(spec_bucket_terms_sorted(g, lb)[k as int]),
                label: spec_term_label(g.nodes, spec_bucket_terms_sorted(g, lb)[k as int]),
                kind: NodeKind::Term,
                pos: Position::OnLeafRing {
                    parent: rp,
                    radius: spec_leaf_ring_radius(radii) as u64,
                    index: k as usize,
                    count: tcount,
                },
            };
            assert(vnodes_view(out@) =~= prev_n.push(nnew));
            assert(vnodes_view(out@) =~= vnodes_view(old(out)@) + spec_letter_vnodes_upto(
                g,
                radii,
                lb,
                rp,
                k + 1,
            ));
            let ghost enew = SpecVisualEdge {
                from: SpecNodeId::Alpha(lb),
                to: SpecNodeId::Term(spec_bucket_terms_sorted(g, lb)[k as int]),
                kind: "contains"@,
            };
            assert(vedges_view(vedges@) =~= prev_e.push(enew));
            assert(vedges_view(vedges@) =~= vedges_view(old(vedges)@) + spec_letter_edges_upto(
                g,
                lb,
                k + 1,
            ));
        }
        k = k + 1;
    }
}

/// Places the term leaves of every bucket, in letter order, and
/// appends their structural contains edges.
#[verifier::loop_isolation(false)]
fn place_terms(
    graph: &Graph,
    radii: LayoutRadii,
    leaf_ring: u64,
    alpha_vnodes: &Vec<VisualNode>,
    vedges: &mut Vec<VisualEdge>,
) -> (r: Vec<VisualNode>)
    requires
        radii.wf(),
        leaf_ring == spec_leaf_ring_radius(radii) as u64,
        vnodes_view(alpha_vnodes@) == spec_alpha_vnodes(graph@, radii),
    ensures
        vnodes_view(r@) == spec_term_vnodes_upto(graph@, radii, 256),
        vedges_view(final(vedges)@) == vedges_view(old(vedges)@) + spec_term_edges_upto(
            graph@,
            radii,
            256,
        ),
{
    let ghost g = graph@;
    let mut out: Vec<VisualNode> = Vec::new();
    let mut l: usize = 0;
    while l < 256
        invariant
            0 <= l <= 256,
            vnodes_view(out@) == spec_term_vnodes_upto(g, radii, l as int),
            vedges_view(vedges@) == vedges_view(old(vedges)@) + spec_term_edges_upto(
                g,
                radii,
                l as int,
            ),
        decreases 256 - l,
    {
        let ghost prev_n = vnodes_view(out@);
        let ghost prev_e = vedges_view(vedges@);
        let lb: u8 = l as u8;
        match find_alpha_ring(alpha_vnodes, lb) {
            None => {
                proof {
                    assert(spec_letter_vnodes(g, radii, lb) =~= Seq::<SpecVisualNode>::empty());
                    assert(spec_letter_edges(g, radii, lb) =~= Seq::<SpecVisualEdge>::empty());
                    assert(vnodes_view(out@) =~= spec_term_vnodes_upto(g, radii, l + 1));
                    assert(vedges_view(vedges@) =~= vedges_view(old(vedges)@)
                        + spec_term_edges_upto(g, radii, l + 1));
                }
            },
            Some(rp) => {
                place_letter_terms(graph, radii, leaf_ring, lb, rp, &mut out, vedges);
                proof {
                    assert(spec_letter_vnodes(g, radii, lb) == spec_letter_vnodes_upto(
                        g,
                        radii,
                        lb,
                        rp,
                        spec_terms_placed(g, lb),
                    ));
                    assert(spec_letter_edges(g, radii, lb) == spec_letter_edges_upto(
                        g,
                        lb,
                        spec_terms_placed(g, lb),
                    ));
                    assert(vnodes_view(out@) =~= spec_term_vnodes_upto(g, radii, l + 1));
                    assert(vedges_view(vedges@) =~= vedges_view(old(vedges)@)
                        + spec_term_edges_upto(g, radii, l + 1));
                }
            },
        }
        l = l + 1;
    }
    out
}

/// Appends every semantic edge, mirrored verbatim.
#[verifier::loop_isolation(false)]
fn copy_semantic_edges(graph: &Graph, vedges: &mut Vec<VisualEdge>)
    ensures
        vedges_view(final(vedges)@) == vedges_view(old(vedges)@) + spec_semantic_edges_upto(
            graph@,
            graph@.edges.len() as int,
        ),
{
    let ghost g = graph@;
    let mut i: usize = 0;
    while i < graph.edges.len()
        invariant
            0 <= i <= graph.edges@.len(),
            vedges_view(vedges@) == vedges_view(old(vedges)@) + spec_semantic_edges_upto(
                g,
                i as int,
            ),
        decreases graph.edges@.len() - i,
    {
        let ghost prev_e = vedges_view(vedges@);
        vedges.push(
            VisualEdge {
                from: graph.edges[i].from.clone(),
                to: graph.edges[i].to.clone(),
                kind: graph.edges[i].relation.clone(),
            },
        );
        proof {
            assert(g.edges[i as int] == graph.edges@[i as int]@);
            let ghost enew = SpecVisualEdge {
                from: g.edges[i as int].from,
                to: g.edges[i as int].to,
                kind: g.edges[i as int].relation,
            };
            assert(vedges_view(vedges@) =~= prev_e.push(enew));
            assert(vedges_view(vedges@) =~= vedges_view(old(vedges)@) + spec_semantic_edges_upto(
                g,
                i + 1,
            ));
        }
        i = i + 1;
    }
}

/// Lays out a semantic graph on concentric rings under the given radii
/// profile.
///
/// The output is exactly [`spec_layout`]: the root at the fixed
/// center; the two categories left and right of it; the buckets
/// sorted by case-folded label, each on its own slot of the alpha
/// ring; the abbreviation leaves (capped) around "Abbreviations"; per
/// placed bucket its term keys sorted and capped on a small ring; and
/// every semantic edge mirrored verbatim behind the structural edges.
pub fn layout_dictionary_graph_with_radii(
    graph: &Graph,
    title: Option<&str>,
    radii: LayoutRadii,
) -> (vg: VisualGraph)
    requires
        radii.wf(),
    ensures
        vg@ == spec_layout(graph@, spec_title_label(title), radii),
{
    let ghost g = graph@;
    let ghost ttl = spec_title_label(title);

    let cat_radius: u64 = radii.root + radii.category + radii.padding
        + radii.category_extra_offset;
    let defs_cx: i64 = CENTER_X - (cat_radius as i64);
    let abbr_cx: i64 = CENTER_X + (cat_radius as i64);
    let alpha_ring: u64 = match radii.alpha_ring_radius {
        Some(r) => r,
        None => radii.alpha_ring_radius_default(),
    };
    let leaf_ring: u64 = match radii.leaf_ring_radius {
        Some(r) => r,
        None => radii.leaf_ring_radius_default(),
    };
    let abbr_ring: u64 = match radii.abbr_ring_radius {
        Some(r) => r,
        None => radii.abbr_ring_radius_default(),
    };

    let master_label: String = match title {
        Some(t) => t.to_owned(),
        None => "Dictionary Collection".to_owned(),
    };

    let mut out_nodes: Vec<VisualNode> = Vec::new();
    let mut vedges: Vec<VisualEdge> = Vec::new();

    out_nodes.push(
        VisualNode {
            id: NodeId::Master,
            label: master_label,
            kind: NodeKind::Root,
            pos: Position::At { x: CENTER_X, y: CENTER_Y },
        },
    );
    out_nodes.push(
        VisualNode {
            id: NodeId::Definitions,
            label: "Definitions".to_owned(),
            kind: NodeKind::Category,
            pos: Position::At { x: defs_cx, y: CENTER_Y },
        },
    );
    out_nodes.push(
        VisualNode {
            id: NodeId::Abbreviations,
            label: "Abbreviations".to_owned(),
            kind: NodeKind::Category,
            pos: Position::At { x: abbr_cx, y: CENTER_Y },
        },
    );
    vedges.push(
        VisualEdge {
            from: NodeId::Master,
            to: NodeId::Definitions,
            kind: "hierarchy".to_owned(),
        },
    );
    vedges.push(
        VisualEdge {
            from: NodeId::Master,
            to: NodeId::Abbreviations,
            kind: "hierarchy".to_owned(),
        },
    );
    proof {
        assert(vnodes_view(out_nodes@) =~= seq![
            spec_master_vnode(ttl),
            spec_defs_vnode(radii),
            spec_abbr_cat_vnode(radii),
        ]);
        assert(vedges_view(vedges@) =~= spec_hierarchy_edges());
    }

    let mut alpha_vnodes: Vec<VisualNode> = place_alphas(
        graph,
        radii,
        defs_cx,
        alpha_ring,
        &mut vedges,
    );
    let mut abbr_vnodes: Vec<VisualNode> = place_abbrs(graph, radii, abbr_cx, abbr_ring, &mut vedges);
    let mut term_vnodes: Vec<VisualNode> = place_terms(
        graph,
        radii,
        leaf_ring,
        &alpha_vnodes,
        &mut vedges,
    );
    copy_semantic_edges(graph, &mut vedges);

    out_nodes.append(&mut alpha_vnodes);
    out_nodes.append(&mut abbr_vnodes);
    out_nodes.append(&mut term_vnodes);
    proof {
        assert(vnodes_view(out_nodes@) =~= spec_layout_nodes(g, ttl, radii));
        assert(vedges_view(vedges@) =~= spec_layout_edges(g, radii));
    }
    VisualGraph { nodes: out_nodes, edges: vedges }
}

/// Lays out a semantic graph under the roomy radii profile, labelling
/// the root with the given title or the default collection label.
pub fn layout_dictionary_graph(graph: &Graph, title: Option<&str>) -> (vg: VisualGraph)
    ensures
        vg@ == spec_layout(graph@, spec_title_label(title), LayoutRadii::spec_roomy()),
{
    layout_dictionary_graph_with_radii(graph, title, LayoutRadii::roomy())
}


// ---------------------------------------------------------------------
// Laws of the layout.
// ---------------------------------------------------------------------

/// Length and shape of the bucket part of the node list.
proof fn lemma_alpha_vnodes_upto_props(g: SpecGraph, radii: LayoutRadii, n: int)
    requires
        0 <= n <= spec_sorted_alphas(g).len(),
    ensures
        spec_alpha_vnodes_upto(g, radii, n).len() == n,
        forall|i: int|
            0 <= i < n ==> spec_alpha_vnodes_upto(g, radii, n)[i] == (SpecVisualNode {
                id: spec_sorted_alphas(g)[i].id,
                label: spec_sorted_alphas(g)[i].label,
                kind: NodeKind::Alpha,
                pos: Position::OnRing(
                    spec_alpha_ring_pos(
                        radii,
                        i,
                        if spec_sorted_alphas(g).len() == 0 {
                            1int
                        } else {
                            spec_sorted_alphas(g).len() as int
                        },
                    ),
                ),
            }),
    decreases n,
{
    if n > 0 {
        lemma_alpha_vnodes_upto_props(g, radii, n - 1);
    }
}

/// Law: in any layout, the `k` alphabetical bucket nodes (sorted by
/// case-folded label) stand right behind the three fixed nodes, each
/// on its own angular slot `i` of `k` — that is, at angle `i / k` of a
/// full turn — on the circle of the configured alpha ring radius
/// around the "Definitions" center, and no two of them share a slot.
pub proof fn lemma_alpha_buckets_on_ring(g: SpecGraph, title: Seq<char>, radii: LayoutRadii)
    requires
        spec_sorted_alphas(g).len() <= usize::MAX,
    ensures
        ({
            let vg = spec_layout(g, title, radii);
            let sorted = spec_sorted_alphas(g);
            let k = sorted.len() as int;
            &&& vg.nodes.len() >= 3 + k
            &&& forall|i: int|
                0 <= i < k ==> vg.nodes[3 + i] == (SpecVisualNode {
                    id: sorted[i].id,
                    label: sorted[i].label,
                    kind: NodeKind::Alpha,
                    pos: Position::OnRing(
                        spec_alpha_ring_pos(
                            radii,
                            i,
                            if k == 0 {
                                1int
                            } else {
                                k
                            },
                        ),
                    ),
                })
            &&& forall|i: int, j: int|
                0 <= i < j < k ==> #[trigger] vg.nodes[3 + i].pos != #[trigger] vg.nodes[3 + j].pos
        }),
{
    let vg = spec_layout(g, title, radii);
    let sorted = spec_sorted_alphas(g);
    let k = sorted.len() as int;
    lemma_alpha_vnodes_upto_props(g, radii, k);
    assert(spec_alpha_vnodes(g, radii).len() == k);
    assert forall|i: int| 0 <= i < k implies vg.nodes[3 + i] == spec_alpha_vnodes(g, radii)[i] by {
    }
    assert forall|i: int, j: int|
        0 <= i < j < k implies #[trigger] vg.nodes[3 + i].pos != #[trigger] vg.nodes[3
        + j].pos by {
        assert(vg.nodes[3 + i] == spec_alpha_vnodes(g, radii)[i]);
        assert(vg.nodes[3 + j] == spec_alpha_vnodes(g, radii)[j]);
        assert(vg.nodes[3 + i].pos == Position::OnRing(
            spec_alpha_ring_pos(
                radii,
                i,
                if k == 0 {
                    1int
                } else {
                    k
                },
            ),
        ));
        assert(spec_alpha_ring_pos(
            radii,
            i,
            if k == 0 {
                1int
            } else {
                k
            },
        ).index == i as usize);
        assert(i as usize != j as usize);
    }
}

/// Length and shape of the mirrored semantic edges.
proof fn lemma_semantic_edges_upto_props(g: SpecGraph, n: int)
    requires
        0 <= n <= g.edges.len(),
    ensures
        spec_semantic_edges_upto(g, n).len() == n,
        forall|i: int|
            0 <= i < n ==> spec_semantic_edges_upto(g, n)[i] == (SpecVisualEdge {
                from: g.edges[i].from,
                to: g.edges[i].to,
                kind: g.edges[i].relation,
            }),
    decreases n,
{
    if n > 0 {
        lemma_semantic_edges_upto_props(g, n - 1);
    }
}

/// Law: every semantic edge of the input appears, unmodified, in the
/// visual edge list of any layout of it — as the trailing block of
/// that list, in input order.
pub proof fn lemma_semantic_edges_preserved(g: SpecGraph, title: Seq<char>, radii: LayoutRadii)
    ensures
        ({
            let vg = spec_layout(g, title, radii);
            let m = g.edges.len() as int;
            &&& vg.edges.len() >= m
            &&& forall|i: int|
                0 <= i < m ==> vg.edges[vg.edges.len() - m + i] == (SpecVisualEdge {
                    from: g.edges[i].from,
                    to: g.edges[i].to,
                    kind: g.edges[i].relation,
                })
            &&& forall|i: int|
                0 <= i < m ==> vg.edges.contains(
                    SpecVisualEdge {
                        from: g.edges[i].from,
                        to: g.edges[i].to,
                        kind: g.edges[i].relation,
                    },
                )
        }),
{
    let vg = spec_layout(g, title, radii);
    let m = g.edges.len() as int;
    lemma_semantic_edges_upto_props(g, m);
    let base = vg.edges.len() - m;
    assert forall|i: int|
        0 <= i < m implies vg.edges[base + i] == SpecVisualEdge {
            from: g.edges[i].from,
            to: g.edges[i].to,
            kind: g.edges[i].relation,
        } by {
        assert(vg.edges[base + i] == spec_semantic_edges_upto(g, m)[i]);
    }
    assert forall|i: int|
        0 <= i < m implies vg.edges.contains(
            SpecVisualEdge { from: g.edges[i].from, to: g.edges[i].to, kind: g.edges[i].relation },
        ) by {
        let e = SpecVisualEdge {
            from: g.edges[i].from,
            to: g.edges[i].to,
            kind: g.edges[i].relation,
        };
        assert(vg.edges[base + i] == e);
    }
}

/// Law: the layout is a function of the semantic graph, the title and
/// the radii profile alone — laying out the same input twice gives
/// bit-identical output.
pub proof fn lemma_layout_deterministic(
    g: SpecGraph,
    title: Seq<char>,
    radii: LayoutRadii,
    a: SpecVisualGraph,
    b: SpecVisualGraph,
)
    requires
        a == spec_layout(g, title, radii),
        b == spec_layout(g, title, radii),
    ensures
        a == b,
{
}


// ---------------------------------------------------------------------
// Equality of laid-out graphs, decided at the level of the models.
// ---------------------------------------------------------------------

/// Decides equality of two placed nodes, in the sense of their models.
pub fn visual_node_eq(a: &VisualNode, b: &VisualNode) -> (r: bool)
    ensures
        r == (a@ == b@),
{
    node_id_eq(&a.id, &b.id) && a.label == b.label && a.kind == b.kind && a.pos == b.pos
}

/// Decides equality of two visual edges, in the sense of their models.
pub fn visual_edge_eq(a: &VisualEdge, b: &VisualEdge) -> (r: bool)
    ensures
        r == (a@ == b@),
{
    node_id_eq(&a.from, &b.from) && node_id_eq(&a.to, &b.to) && a.kind == b.kind
}

/// Decides equality of two laid-out graphs, in the sense of their
/// models: the same placed nodes and the same visual edges, in the
/// same order.
pub fn visual_graph_eq(a: &VisualGraph, b: &VisualGraph) -> (r: bool)
    ensures
        r == (a@ == b@),
{
    if a.nodes.len() != b.nodes.len() || a.edges.len() != b.edges.len() {
        proof {
            assert(a@.nodes.len() == a.nodes@.len());
            assert(b@.nodes.len() == b.nodes@.len());
            assert(a@.edges.len() == a.edges@.len());
            assert(b@.edges.len() == b.edges@.len());
        }
        return false;
    }
    let mut i: usize = 0;
    while i < a.nodes.len()
        invariant
            0 <= i <= a.nodes@.len(),
            a.nodes@.len() == b.nodes@.len(),
            a.edges@.len() == b.edges@.len(),
            forall|m: int| 0 <= m < i ==> vnodes_view(a.nodes@)[m] == vnodes_view(b.nodes@)[m],
        decreases a.nodes@.len() - i,
    {
        if !visual_node_eq(&a.nodes[i], &b.nodes[i]) {
            proof {
                assert(vnodes_view(a.nodes@)[i as int] != vnodes_view(b.nodes@)[i as int]);
            }
            return false;
        }
        i = i + 1;
    }
    let mut j: usize = 0;
    while j < a.edges.len()
        invariant
            0 <= j <= a.edges@.len(),
            a.edges@.len() == b.edges@.len(),
            vnodes_view(a.nodes@) == vnodes_view(b.nodes@),
            forall|m: int| 0 <= m < j ==> vedges_view(a.edges@)[m] == vedges_view(b.edges@)[m],
        decreases a.edges@.len() - j,
    {
        if !visual_edge_eq(&a.edges[j], &b.edges[j]) {
            proof {
                assert(vedges_view(a.edges@)[j as int] != vedges_view(b.edges@)[j as int]);
            }
            return false;
        }
        j = j + 1;
    }
    proof {
        assert(vedges_view(a.edges@) =~= vedges_view(b.edges@));
    }
    true
}

} // verus!
