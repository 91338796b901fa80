//! A composable extraction toolkit over JSON-like document trees.
//!
//! A caller builds a declarative extractor expression — narrowing by key, by
//! structural pointer, fanning out over sequence elements, or decoding into a
//! typed value — and runs it against a document to collect zero or more
//! outputs into one flat ordered sequence. Absence of a match is never an
//! error: a branch that does not match simply contributes nothing.

mod decode;
mod extract;
mod laws;
mod node;
mod pointer;

pub use decode::Decodable;
pub use extract::{parse, Deserialize, DocIndex, ForEach, Identity, Index, Jsoth, Pointer};
pub use laws::{
    accumulator_preserved_law, decode_filtering_law, fan_out_non_sequence_law,
    fan_out_ordering_law, identity_law, idempotence_law, key_narrowing_law, pointer_narrowing_law,
};
pub use node::{Node, NodeV};
