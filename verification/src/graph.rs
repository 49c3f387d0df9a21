//! The semantic graph: typed nodes, directed edges with a free-form
//! relation tag, and the attribute payload each node carries.

use vstd::prelude::*;

verus! {

/// The closed set of node roles the dictionary graph uses.
#[derive(Clone, Copy, Debug, PartialEq, Eq, Structural)]
pub enum NodeKind {
    Root,
    Category,
    Alpha,
    Term,
    Abbreviation,
}

/// A node identity, namespaced by role so identities are globally unique
/// without a separate allocator.
#[derive(Debug)]
pub enum NodeId {
    /// The single root ("master") node of a laid-out collection.
    Master,
    /// The "Definitions" category node.
    Definitions,
    /// The "Abbreviations" category node.
    Abbreviations,
    /// An alphabetical bucket, identified by its lower-case letter byte.
    Alpha(u8),
    /// A term leaf, identified by the term's key.
    Term(String),
    /// An abbreviation leaf, identified by the abbreviation.
    Abbr(String),
}

/// Mathematical model of a [`NodeId`].
pub enum SpecNodeId {
    Master,
    Definitions,
    Abbreviations,
    Alpha(u8),
    Term(Seq<char>),
    Abbr(Seq<char>),
}

impl View for NodeId {
    type V = SpecNodeId;

    open spec fn view(&self) -> SpecNodeId {
        match self {
            NodeId::Master => SpecNodeId::Master,
            NodeId::Definitions => SpecNodeId::Definitions,
            NodeId::Abbreviations => SpecNodeId::Abbreviations,
            NodeId::Alpha(b) => SpecNodeId::Alpha(*b),
            NodeId::Term(s) => SpecNodeId::Term(s@),
            NodeId::Abbr(s) => SpecNodeId::Abbr(s@),
        }
    }
}

/// Decides equality of two identities, in the sense of their models.
pub fn node_id_eq(a: &NodeId, b: &NodeId) -> (r: bool)
    ensures
        r == (a@ == b@),
{
    match a {
        NodeId::Master => match b {
            NodeId::Master => true,
            _ => false,
        },
        NodeId::Definitions => match b {
            NodeId::Definitions => true,
            _ => false,
        },
        NodeId::Abbreviations => match b {
            NodeId::Abbreviations => true,
            _ => false,
        },
        NodeId::Alpha(x) => match b {
            NodeId::Alpha(y) => x == y,
            _ => false,
        },
        NodeId::Term(x) => match b {
            NodeId::Term(y) => *x == *y,
            _ => false,
        },
        NodeId::Abbr(x) => match b {
            NodeId::Abbr(y) => *x == *y,
            _ => false,
        },
    }
}

impl Clone for NodeId {
    /// Clones an identity without changing its model.
    fn clone(&self) -> (res: Self)
        ensures
            res@ == self@,
    {
        match self {
            NodeId::Master => NodeId::Master,
            NodeId::Definitions => NodeId::Definitions,
            NodeId::Abbreviations => NodeId::Abbreviations,
            NodeId::Alpha(b) => NodeId::Alpha(*b),
            NodeId::Term(s) => NodeId::Term(s.clone()),
            NodeId::Abbr(s) => NodeId::Abbr(s.clone()),
        }
    }
}

/// The model of a sequence of strings: the sequence of their models.
pub open spec fn strs_view(s: Seq<String>) -> Seq<Seq<char>> {
    s.map_values(|x: String| x@)
}

/// One dictionary definition: the payload a term node carries.
#[derive(Debug)]
pub struct DefinitionEntry {
    pub found_on_page: i32,
    pub time_period: String,
    pub definition: String,
    pub usage: String,
    pub examples: Vec<String>,
    pub related_terms: Vec<String>,
}

/// Mathematical model of a [`DefinitionEntry`].
pub struct SpecDefinitionEntry {
    pub found_on_page: i32,
    pub time_period: Seq<char>,
    pub definition: Seq<char>,
    pub usage: Seq<char>,
    pub examples: Seq<Seq<char>>,
    pub related_terms: Seq<Seq<char>>,
}

impl View for DefinitionEntry {
    type V = SpecDefinitionEntry;

    open spec fn view(&self) -> SpecDefinitionEntry {
        SpecDefinitionEntry {
            found_on_page: self.found_on_page,
            time_period: self.time_period@,
            definition: self.definition@,
            usage: self.usage@,
            examples: strs_view(self.examples@),
            related_terms: strs_view(self.related_terms@),
        }
    }
}

/// Clones a vector of strings without changing its model.
pub fn clone_strings(v: &Vec<String>) -> (res: Vec<String>)
    ensures
        strs_view(res@) == strs_view(v@),
        res@.len() == v@.len(),
{
    let cloned: Vec<String> = v.clone();
    proof {
        assert(strs_view(cloned@) =~= strs_view(v@));
    }
    cloned
}

impl Clone for DefinitionEntry {
    /// Clones an entry without changing its model.
    fn clone(&self) -> (res: Self)
        ensures
            res@ == self@,
    {
        DefinitionEntry {
            found_on_page: self.found_on_page,
            time_period: self.time_period.clone(),
            definition: self.definition.clone(),
            usage: self.usage.clone(),
            examples: clone_strings(&self.examples),
            related_terms: clone_strings(&self.related_terms),
        }
    }
}

/// The attribute payload of a node, one closed variant per node role.
#[derive(Debug)]
pub enum NodeData {
    /// No payload (root and category nodes).
    Empty,
    /// A term node carries its dictionary entry.
    Term(DefinitionEntry),
    /// An abbreviation node carries its expansion.
    Abbreviation { expansion: String },
    /// An alphabetical bucket carries its letter and the page its
    /// section starts on.
    Alpha { letter: u8, page_start: i32 },
}

/// Mathematical model of a [`NodeData`].
pub enum SpecNodeData {
    Empty,
    Term(SpecDefinitionEntry),
    Abbreviation { expansion: Seq<char> },
    Alpha { letter: u8, page_start: i32 },
}

impl View for NodeData {
    type V = SpecNodeData;

    open spec fn view(&self) -> SpecNodeData {
        match self {
            NodeData::Empty => SpecNodeData::Empty,
            NodeData::Term(e) => SpecNodeData::Term(e@),
            NodeData::Abbreviation { expansion } => SpecNodeData::Abbreviation {
                expansion: expansion@,
            },
            NodeData::Alpha { letter, page_start } => SpecNodeData::Alpha {
                letter: *letter,
                page_start: *page_start,
            },
        }
    }
}

impl Clone for NodeData {
    /// Clones a payload without changing its model.
    fn clone(&self) -> (res: Self)
        ensures
            res@ == self@,
    {
        match self {
            NodeData::Empty => NodeData::Empty,
            NodeData::Term(e) => NodeData::Term(e.clone()),
            NodeData::Abbreviation { expansion } => NodeData::Abbreviation {
                expansion: expansion.clone(),
            },
            NodeData::Alpha { letter, page_start } => NodeData::Alpha {
                letter: *letter,
                page_start: *page_start,
            },
        }
    }
}

/// A semantic node: identity, display label, role, payload.
#[derive(Debug)]
pub struct Node {
    pub id: NodeId,
    pub label: String,
    pub kind: NodeKind,
    pub data: NodeData,
}

/// Mathematical model of a [`Node`].
pub struct SpecNode {
    pub id: SpecNodeId,
    pub label: Seq<char>,
    pub kind: NodeKind,
    pub data: SpecNodeData,
}

impl View for Node {
    type V = SpecNode;

    open spec fn view(&self) -> SpecNode {
        SpecNode { id: self.id@, label: self.label@, kind: self.kind, data: self.data@ }
    }
}

impl Clone for Node {
    /// Clones a node without changing its model.
    fn clone(&self) -> (res: Self)
        ensures
            res@ == self@,
    {
        Node {
            id: self.id.clone(),
            label: self.label.clone(),
            kind: self.kind,
            data: self.data.clone(),
        }
    }
}

/// A directed semantic edge with a free-form relation tag. Duplicates
/// are permitted, and endpoints need not exist in the node list.
#[derive(Debug)]
pub struct Edge {
    pub from: NodeId,
    pub to: NodeId,
    pub relation: String,
}

/// Mathematical model of an [`Edge`].
pub struct SpecEdge {
    pub from: SpecNodeId,
    pub to: SpecNodeId,
    pub relation: Seq<char>,
}

impl View for Edge {
    type V = SpecEdge;

    open spec fn view(&self) -> SpecEdge {
        SpecEdge { from: self.from@, to: self.to@, relation: self.relation@ }
    }
}

impl Clone for Edge {
    /// Clones an edge without changing its model.
    fn clone(&self) -> (res: Self)
        ensures
            res@ == self@,
    {
        Edge { from: self.from.clone(), to: self.to.clone(), relation: self.relation.clone() }
    }
}

/// The model of a sequence of nodes: the sequence of their models.
pub open spec fn nodes_view(s: Seq<Node>) -> Seq<SpecNode> {
    s.map_values(|n: Node| n@)
}

/// The model of a sequence of edges: the sequence of their models.
pub open spec fn edges_view(s: Seq<Edge>) -> Seq<SpecEdge> {
    s.map_values(|e: Edge| e@)
}

/// A semantic graph: the domain data independent of any drawn position.
#[derive(Debug)]
pub struct Graph {
    pub nodes: Vec<Node>,
    pub edges: Vec<Edge>,
}

/// Mathematical model of a [`Graph`].
pub struct SpecGraph {
    pub nodes: Seq<SpecNode>,
    pub edges: Seq<SpecEdge>,
}

impl View for Graph {
    type V = SpecGraph;

    open spec fn view(&self) -> SpecGraph {
        SpecGraph { nodes: nodes_view(self.nodes@), edges: edges_view(self.edges@) }
    }
}

} // verus!
