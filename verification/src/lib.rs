//! A dataflow engine: typed computation nodes, wired socket to socket, and
//! evaluated on demand by pulling from the output node.
//!
//! Every node declares the payload types of its input and output sockets. The
//! graph erases those types, checks each connection against the declarations
//! when it evaluates, and hands values from node to node in type-erased cells.
//!
//! - `identity`: type identities, and the payloads that carry them.
//! - `cell`: value cells, one type-erased payload each.
//! - `signature`, `tuples`: tuples of payloads, to and from lists of cells.
//! - `node`: operations, sockets, connections, and the graph with its
//!   evaluation.
//! - `nodes`: the output marker and the constant source.
//! - `resolve`, `ordering`: what an evaluation gives.
//! - `acyclic`: whether a node can be evaluated: whether no cycle feeds it.
//! - `laws`: what holds of every evaluation.
//! - `label`, `error`: names to show, and the ways to fail.
pub mod acyclic;
pub mod cell;
pub mod error;
pub mod identity;
pub mod label;
pub mod laws;
pub mod node;
pub mod nodes;
pub mod ordering;
pub mod resolve;
pub mod signature;
pub mod tuples;
