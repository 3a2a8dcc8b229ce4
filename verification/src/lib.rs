//! A mutable hypergraph store.
//!
//! Vertices carry a payload, hyperedges are ordered, weighted relations over
//! any number of vertices. Both are addressed through stable external indexes
//! while being kept in dense arrays that are compacted on removal.
//!
//! The hyperedges form a set keyed by full content: no two live hyperedges
//! have the same ordered vertices and the same weight. An operation that would
//! give a hyperedge the content of another live one (adding, replacing its
//! vertices, reversing it, removing a vertex from it) is refused with
//! `DuplicateHyperedge` and changes nothing; two hyperedges are never merged.
//! Every operation either completes or leaves the hypergraph as it was.

pub mod errors;
pub mod graph;
pub mod hyperedges;
pub mod indices;
pub mod laws;
pub mod mapping;
pub mod parallel;
pub mod vertices;
pub mod weights;

pub use errors::HypergraphError;
pub use graph::{HyperedgeKey, Hypergraph};
pub use indices::{HyperedgeIndex, VertexIndex};
pub use mapping::IndexMapping;
