//! The extractor expression tree and its evaluation.

use core::marker::PhantomData;

use vstd::prelude::*;

use crate::decode::Decodable;
use crate::node::{arr_lookup, obj_lookup, Node, NodeV};
use crate::pointer::pointer_lookup;

verus! {

/// One extractor: visiting a document node appends zero or more values of
/// the declared output type to the accumulator, in a fixed order, and
/// touches it in no other way. `outputs` is the contract: exactly which
/// values a visit appends. Absence of a match appends nothing — never an
/// error — so evaluation is infallible.
pub trait Jsoth {
    type Output: DeepView;

    /// The values visiting `v` appends, in order, at the view level.
    spec fn outputs(&self, v: NodeV) -> Seq<<Self::Output as DeepView>::V>;

    /// Visits `value`, appending `outputs(value@)` to `output` and leaving
    /// what was already there untouched.
    fn act(&self, value: &Node, output: &mut Vec<Self::Output>)
        ensures
            final(output).deep_view() == old(output).deep_view() + self.outputs(value@),
    ;
}

/// Copies the node it visits: always exactly one output, the node itself.
pub struct Identity;

impl Jsoth for Identity {
    type Output = Node;

    open spec fn outputs(&self, v: NodeV) -> Seq<NodeV> {
        seq![v]
    }

    fn act(&self, value: &Node, output: &mut Vec<Self::Output>) {
        output.push(value.clone());
        proof {
            assert(output.deep_view() =~= old(output).deep_view() + seq![value@]);
        }
    }
}

/// What can index one step into a document node: a string selects from a
/// mapping by key, an integer selects from a sequence by position.
pub trait DocIndex {
    /// The child `self` selects from `v`, if any.
    spec fn select(&self, v: NodeV) -> Option<NodeV>;

    /// Resolves `self` against `v`, per `select`.
    fn get<'a>(&self, v: &'a Node) -> (r: Option<&'a Node>)
        ensures
            match r {
                Some(c) => self.select(v@) == Some(c@),
                None => self.select(v@) is None,
            },
    ;
}

impl DocIndex for usize {
    open spec fn select(&self, v: NodeV) -> Option<NodeV> {
        arr_lookup(v, *self as int)
    }

    fn get<'a>(&self, v: &'a Node) -> (r: Option<&'a Node>) {
        v.get_pos(*self)
    }
}

impl DocIndex for String {
    open spec fn select(&self, v: NodeV) -> Option<NodeV> {
        obj_lookup(v, self@)
    }

    fn get<'a>(&self, v: &'a Node) -> (r: Option<&'a Node>) {
        v.get_key(self.as_str())
    }
}

impl<'s> DocIndex for &'s str {
    open spec fn select(&self, v: NodeV) -> Option<NodeV> {
        obj_lookup(v, self@)
    }

    fn get<'a>(&self, v: &'a Node) -> (r: Option<&'a Node>) {
        v.get_key(*self)
    }
}

/// Narrows by one lookup key, then hands the child found, if any, to the
/// inner extractor; a key that does not resolve appends nothing.
pub struct Index<J, I> {
    pub index: I,
    pub inner: J,
}

impl<J: Jsoth, I: DocIndex> Jsoth for Index<J, I> {
    type Output = J::Output;

    open spec fn outputs(&self, v: NodeV) -> Seq<<J::Output as DeepView>::V> {
        match self.index.select(v) {
            Some(c) => self.inner.outputs(c),
            None => Seq::empty(),
        }
    }

    fn act(&self, value: &Node, output: &mut Vec<Self::Output>) {
        if let Some(child) = self.index.get(value) {
            self.inner.act(child, output);
        } else {
            proof {
                assert(output.deep_view() =~= old(output).deep_view() + self.outputs(value@));
            }
        }
    }
}

/// Narrows by a structural pointer, then hands the node the path leads to,
/// if any, to the inner extractor; an unresolved path appends nothing.
pub struct Pointer<'p, J> {
    pub pointer: &'p str,
    pub inner: J,
}

impl<'p, J: Jsoth> Jsoth for Pointer<'p, J> {
    type Output = J::Output;

    open spec fn outputs(&self, v: NodeV) -> Seq<<J::Output as DeepView>::V> {
        match pointer_lookup(v, self.pointer@) {
            Some(c) => self.inner.outputs(c),
            None => Seq::empty(),
        }
    }

    fn act(&self, value: &Node, output: &mut Vec<Self::Output>) {
        if let Some(child) = value.get_pointer(self.pointer) {
            self.inner.act(child, output);
        } else {
            proof {
                assert(output.deep_view() =~= old(output).deep_view() + self.outputs(value@));
            }
        }
    }
}

/// Decodes the node it visits into `T`: one output on success, none on any
/// decode failure.
pub struct Deserialize<T>(PhantomData<T>);

impl<T> Deserialize<T> {
    /// A fresh decoding extractor.
    pub fn new() -> Self {
        Deserialize(PhantomData)
    }
}

impl<T: Decodable> Jsoth for Deserialize<T> {
    type Output = T;

    open spec fn outputs(&self, v: NodeV) -> Seq<T::V> {
        match T::decode_spec(v) {
            Some(t) => seq![t],
            None => Seq::empty(),
        }
    }

    fn act(&self, value: &Node, output: &mut Vec<Self::Output>) {
        if let Some(t) = T::decode(value) {
            output.push(t);
            proof {
                assert(output.deep_view() =~= old(output).deep_view() + self.outputs(value@));
            }
        } else {
            proof {
                assert(output.deep_view() =~= old(output).deep_view() + self.outputs(value@));
            }
        }
    }
}

/// Fans out over the elements of a sequence node, visiting each in order
/// with the inner extractor; on any other node appends nothing.
pub struct ForEach<J>(pub J);

/// The outputs of `inner` over the elements `items[i..]`, concatenated in
/// element order.
pub open spec fn fan_out_from<J: Jsoth>(inner: &J, items: Seq<NodeV>, i: int) -> Seq<
    <J::Output as DeepView>::V,
>
    decreases items.len() - i,
{
    if i < 0 || i >= items.len() {
        Seq::empty()
    } else {
        inner.outputs(items[i]) + fan_out_from(inner, items, i + 1)
    }
}

impl<J: Jsoth> Jsoth for ForEach<J> {
    type Output = J::Output;

    open spec fn outputs(&self, v: NodeV) -> Seq<<J::Output as DeepView>::V> {
        match v {
            NodeV::Arr(items) => fan_out_from(&self.0, items, 0),
            _ => Seq::empty(),
        }
    }

    fn act(&self, value: &Node, output: &mut Vec<Self::Output>) {
        match value {
            Node::Arr(items) => {
                let ghost vitems = value@->Arr_0;
                let ghost base = output.deep_view();
                let mut i: usize = 0;
                while i < items.len()
                    invariant
                        i <= items.len(),
                        value@ == NodeV::Arr(vitems),
                        vitems.len() == items@.len(),
                        forall|j: int|
                            0 <= j < items@.len() ==> vitems[j] == #[trigger] items@[j]@,
                        output.deep_view() + fan_out_from(&self.0, vitems, i as int) == base
                            + fan_out_from(&self.0, vitems, 0),
                    decreases items.len() - i,
                {
                    let ghost prev = output.deep_view();
                    self.0.act(&items[i], output);
                    proof {
                        assert((prev + self.0.outputs(vitems[i as int])) + fan_out_from(
                            &self.0,
                            vitems,
                            i + 1,
                        ) =~= prev + (self.0.outputs(vitems[i as int]) + fan_out_from(
                            &self.0,
                            vitems,
                            i + 1,
                        )));
                    }
                    i = i + 1;
                }
                proof {
                    assert(output.deep_view() + fan_out_from(&self.0, vitems, items@.len() as int)
                        =~= output.deep_view());
                }
            },
            _ => {
                proof {
                    assert(output.deep_view() =~= old(output).deep_view() + self.outputs(value@));
                }
            },
        }
    }
}

/// Runs `jsoth` once against `value`: a fresh accumulator, one visit, the
/// collected outputs handed back by value. Always returns — an unmatched
/// branch only contributes nothing, and nothing collected is ever dropped.
pub fn parse<O: DeepView, J: Jsoth<Output = O>>(jsoth: J, value: &Node) -> (r: Vec<O>)
    ensures
        r.deep_view() == jsoth.outputs(value@),
{
    let mut output = Vec::new();
    jsoth.act(value, &mut output);
    proof {
        assert(output.deep_view() =~= jsoth.outputs(value@));
    }
    output
}

} // verus!
