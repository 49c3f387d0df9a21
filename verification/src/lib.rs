//! Verified core of a personal dashboard application: the semantic term
//! graph behind the knowledge-graph panel, the deterministic radial layout
//! that places its nodes on concentric rings, and the integer viewport
//! controller (pan, zoom, hover repulsion) that drives the interactive view.
//!
//! Positions are kept exact: a node's placement is recorded as its ring
//! center, ring radius and angular slot `index / count` of a full turn,
//! so layout output can be reproduced bit for bit and reasoned about
//! without floating point. Rendering code outside this crate resolves a
//! placement to screen coordinates with trigonometry.

pub mod collections;
pub mod dictionary;
pub mod goals;
pub mod health;
pub mod graph;
pub mod layout;
pub mod order;
pub mod viewport;
