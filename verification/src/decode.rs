//! Typed decoding of a document node into a plain value.

use vstd::prelude::*;

use crate::node::{Node, NodeV};

verus! {

/// A type a document node can decode into. `decode_spec` says, at the view
/// level, exactly which nodes decode and to what value; `decode` realises
/// it. A node outside the type's range decodes to nothing — never an error.
pub trait Decodable: DeepView + Sized {
    /// Which nodes decode into this type, and to what value.
    spec fn decode_spec(v: NodeV) -> Option<Self::V>;

    /// Decodes `n`, per `decode_spec`.
    fn decode(n: &Node) -> (r: Option<Self>)
        ensures
            match r {
                Some(t) => Self::decode_spec(n@) == Some(t.deep_view()),
                None => Self::decode_spec(n@) is None,
            },
    ;
}

impl Decodable for bool {
    open spec fn decode_spec(v: NodeV) -> Option<bool> {
        match v {
            NodeV::Bool(b) => Some(b),
            _ => None,
        }
    }

    fn decode(n: &Node) -> (r: Option<bool>) {
        match n {
            Node::Bool(b) => Some(*b),
            _ => None,
        }
    }
}

impl Decodable for u8 {
    open spec fn decode_spec(v: NodeV) -> Option<u8> {
        match v {
            NodeV::Int(i) => if 0 <= i <= u8::MAX {
                Some(i as u8)
            } else {
                None
            },
            _ => None,
        }
    }

    fn decode(n: &Node) -> (r: Option<u8>) {
        match n {
            Node::Int(i) => if 0 <= *i && *i <= 255 {
                Some(*i as u8)
            } else {
                None
            },
            _ => None,
        }
    }
}

impl Decodable for u64 {
    open spec fn decode_spec(v: NodeV) -> Option<u64> {
        match v {
            NodeV::Int(i) => if 0 <= i <= u64::MAX {
                Some(i as u64)
            } else {
                None
            },
            _ => None,
        }
    }

    fn decode(n: &Node) -> (r: Option<u64>) {
        match n {
            Node::Int(i) => if 0 <= *i {
                Some(*i as u64)
            } else {
                None
            },
            _ => None,
        }
    }
}

impl Decodable for i64 {
    open spec fn decode_spec(v: NodeV) -> Option<i64> {
        match v {
            NodeV::Int(i) => if i64::MIN <= i <= i64::MAX {
                Some(i as i64)
            } else {
                None
            },
            _ => None,
        }
    }

    fn decode(n: &Node) -> (r: Option<i64>) {
        match n {
            Node::Int(i) => Some(*i),
            _ => None,
        }
    }
}

impl Decodable for String {
    open spec fn decode_spec(v: NodeV) -> Option<Seq<char>> {
        match v {
            NodeV::Str(s) => Some(s),
            _ => None,
        }
    }

    fn decode(n: &Node) -> (r: Option<String>) {
        match n {
            Node::Str(s) => Some(s.clone()),
            _ => None,
        }
    }
}

} // verus!
