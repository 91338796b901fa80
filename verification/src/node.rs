//! The document model: an immutable, recursively defined JSON-like value,
//! with its mathematical view.

use vstd::prelude::*;

verus! {

/// A JSON-like document node: null, boolean, signed 64-bit integer, string,
/// ordered sequence of nodes, or string-keyed mapping.
///
/// A mapping is kept as an ordered list of `(key, value)` entries; lookup is
/// by exact key equality and, where a key occurs more than once, returns the
/// first entry bearing it.
#[derive(Debug, PartialEq, Eq)]
pub enum Node {
    Null,
    Bool(bool),
    Int(i64),
    Str(String),
    Arr(Vec<Node>),
    Obj(Vec<(String, Node)>),
}

/// The mathematical value of a document node: the same tree with strings as
/// character sequences and integers unbounded.
pub enum NodeV {
    Null,
    Bool(bool),
    Int(int),
    Str(Seq<char>),
    Arr(Seq<NodeV>),
    Obj(Seq<(Seq<char>, NodeV)>),
}

/// The mathematical value of a document node.
pub open spec fn node_view(n: Node) -> NodeV
    decreases n,
{
    match n {
        Node::Null => NodeV::Null,
        Node::Bool(b) => NodeV::Bool(b),
        Node::Int(i) => NodeV::Int(i as int),
        Node::Str(s) => NodeV::Str(s@),
        Node::Arr(items) => NodeV::Arr(
            Seq::new(
                items@.len(),
                |i: int|
                    if 0 <= i < items@.len() {
                        node_view(items@[i])
                    } else {
                        NodeV::Null
                    },
            ),
        ),
        Node::Obj(entries) => NodeV::Obj(
            Seq::new(
                entries@.len(),
                |i: int|
                    if 0 <= i < entries@.len() {
                        (entries@[i].0@, node_view(entries@[i].1))
                    } else {
                        (Seq::empty(), NodeV::Null)
                    },
            ),
        ),
    }
}

impl View for Node {
    type V = NodeV;

    #[verifier::inline]
    open spec fn view(&self) -> NodeV {
        node_view(*self)
    }
}

impl DeepView for Node {
    type V = NodeV;

    #[verifier::inline]
    open spec fn deep_view(&self) -> NodeV {
        self.view()
    }
}

/// The first value bound to `key` among `entries[i..]`, if any.
pub open spec fn obj_get_from(entries: Seq<(Seq<char>, NodeV)>, key: Seq<char>, i: int) -> Option<
    NodeV,
>
    decreases entries.len() - i,
{
    if i < 0 || i >= entries.len() {
        None
    } else if entries[i].0 == key {
        Some(entries[i].1)
    } else {
        obj_get_from(entries, key, i + 1)
    }
}

/// Looking `key` up in `v`: the first matching entry of a mapping, `None` on
/// every other node.
pub open spec fn obj_lookup(v: NodeV, key: Seq<char>) -> Option<NodeV> {
    match v {
        NodeV::Obj(entries) => obj_get_from(entries, key, 0),
        _ => None,
    }
}

/// Indexing `v` at position `i`: the `i`-th element of a sequence node,
/// `None` out of range and on every other node.
pub open spec fn arr_lookup(v: NodeV, i: int) -> Option<NodeV> {
    match v {
        NodeV::Arr(items) => if 0 <= i < items.len() {
            Some(items[i])
        } else {
            None
        },
        _ => None,
    }
}

impl Node {
    /// Looks a string key up in this node, per `obj_lookup`.
    pub fn get_key<'a>(&'a self, key: &str) -> (r: Option<&'a Node>)
        ensures
            match r {
                Some(c) => obj_lookup(self@, key@) == Some(c@),
                None => obj_lookup(self@, key@) is None,
            },
    {
        let kc = to_chars(key);
        obj_get_chars(self, &kc)
    }

    /// Looks a position up in this node, per `arr_lookup`.
    pub fn get_pos<'a>(&'a self, i: usize) -> (r: Option<&'a Node>)
        ensures
            match r {
                Some(c) => arr_lookup(self@, i as int) == Some(c@),
                None => arr_lookup(self@, i as int) is None,
            },
    {
        match self {
            Node::Arr(items) => if i < items.len() {
                Some(&items[i])
            } else {
                None
            },
            _ => None,
        }
    }
}

/// The characters of a string slice, as a vector.
pub fn to_chars(s: &str) -> (r: Vec<char>)
    ensures
        r@ == s@,
{
    let n = s.unicode_len();
    let mut out: Vec<char> = Vec::new();
    let mut i: usize = 0;
    while i < n
        invariant
            i <= n,
            n == s@.len(),
            out@ == s@.subrange(0, i as int),
        decreases n - i,
    {
        out.push(s.get_char(i));
        proof {
            assert(out@ =~= s@.subrange(0, i + 1));
        }
        i = i + 1;
    }
    proof {
        assert(out@ =~= s@);
    }
    out
}

/// Character-by-character comparison of a string slice against a character
/// vector, so that equality of the views is what the result means.
pub fn str_eq_chars(a: &str, b: &Vec<char>) -> (r: bool)
    ensures
        r == (a@ == b@),
{
    let alen = a.unicode_len();
    if alen != b.len() {
        return false;
    }
    let mut i: usize = 0;
    while i < alen
        invariant
            i <= alen,
            alen == a@.len(),
            alen == b@.len(),
            forall|j: int| 0 <= j < i ==> a@[j] == b@[j],
        decreases alen - i,
    {
        if a.get_char(i) != b[i] {
            return false;
        }
        i = i + 1;
    }
    proof {
        assert(a@ =~= b@);
    }
    true
}

/// The lookup loop behind `Node::get_key`, with the key already split into
/// characters.
pub(crate) fn obj_get_chars<'a>(v: &'a Node, key: &Vec<char>) -> (r: Option<&'a Node>)
    ensures
        match r {
            Some(c) => obj_lookup(v@, key@) == Some(c@),
            None => obj_lookup(v@, key@) is None,
        },
{
    match v {
        Node::Obj(entries) => {
            let ghost keys_vals = v@->Obj_0;
            let mut i: usize = 0;
            while i < entries.len()
                invariant
                    i <= entries.len(),
                    v@ == NodeV::Obj(keys_vals),
                    keys_vals.len() == entries@.len(),
                    forall|j: int|
                        0 <= j < entries@.len() ==> keys_vals[j] == (
                        entries@[j].0@,
                        entries@[j].1@,
                        ),
                    obj_get_from(keys_vals, key@, 0) == obj_get_from(keys_vals, key@, i as int),
                decreases entries.len() - i,
            {
                if str_eq_chars(entries[i].0.as_str(), key) {
                    return Some(&entries[i].1);
                }
                i = i + 1;
            }
            None
        },
        _ => None,
    }
}

/// Structural copy of a node; the copy means the same document.
fn clone_node(n: &Node) -> (res: Node)
    ensures
        res@ == n@,
    decreases n,
{
    match n {
        Node::Null => Node::Null,
        Node::Bool(b) => Node::Bool(*b),
        Node::Int(i) => Node::Int(*i),
        Node::Str(s) => Node::Str(s.clone()),
        Node::Arr(items) => {
            proof {
                assert(decreases_to!(*n => *items));
            }
            let mut res: Vec<Node> = Vec::new();
            let mut i: usize = 0;
            while i < items.len()
                invariant
                    decreases_to!(*n => *items),
                    i <= items.len(),
                    res@.len() == i,
                    forall|j: int| 0 <= j < i ==> #[trigger] res@[j]@ == items@[j]@,
                decreases items.len() - i,
            {
                proof {
                    assert(decreases_to!(*items => items@[i as int]));
                }
                res.push(clone_node(&items[i]));
                i = i + 1;
            }
            let out = Node::Arr(res);
            proof {
                assert(res@.len() == items@.len());
                assert(forall|j: int|
                    0 <= j < items@.len() ==> node_view(res@[j]) == node_view(items@[j]));
                assert(out@->Arr_0 =~= n@->Arr_0);
            }
            out
        },
        Node::Obj(entries) => {
            let mut res: Vec<(String, Node)> = Vec::new();
            let mut i: usize = 0;
            while i < entries.len()
                invariant
                    decreases_to!(*n => *entries),
                    i <= entries.len(),
                    res@.len() == i,
                    forall|j: int|
                        0 <= j < i ==> #[trigger] res@[j].0@ == entries@[j].0@ && res@[j].1@
                            == entries@[j].1@,
                decreases entries.len() - i,
            {
                proof {
                    assert(decreases_to!(*entries => entries@[i as int]));
                    assert(decreases_to!(entries@[i as int] => entries@[i as int].1));
                }
                let copy = (entries[i].0.clone(), clone_node(&entries[i].1));
                res.push(copy);
                i = i + 1;
            }
            let out = Node::Obj(res);
            proof {
                assert(out@->Obj_0 =~= n@->Obj_0);
            }
            out
        },
    }
}

impl Clone for Node {
    /// The copy means the same document as the original.
    fn clone(&self) -> (res: Self)
        ensures
            res@ == self@,
    {
        clone_node(self)
    }
}

} // verus!

