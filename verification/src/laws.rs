//! The library's general laws, stated over the same spec functions the
//! evaluation contracts use, and proved once and for all.

use vstd::prelude::*;

use crate::decode::Decodable;
use crate::extract::{fan_out_from, Deserialize, ForEach, Identity, Index, Jsoth, Pointer};
use crate::node::{obj_lookup, NodeV};
use crate::pointer::pointer_lookup;

verus! {

/// Evaluating `Identity` against any document node yields exactly the
/// single-element sequence holding that node.
pub proof fn identity_law(v: NodeV)
    ensures
        (Identity).outputs(v) == seq![v],
{
}

/// Narrowing by a mapping key with `Identity` inside yields exactly the
/// value the key is bound to, and nothing where the key is absent or the
/// node is no mapping.
pub proof fn key_narrowing_law(v: NodeV, key: String)
    ensures
        obj_lookup(v, key@) matches Some(x) ==> (Index { index: key, inner: Identity }).outputs(v)
            == seq![x],
        obj_lookup(v, key@) is None ==> (Index { index: key, inner: Identity }).outputs(v)
            == Seq::<NodeV>::empty(),
{
}

/// Narrowing by a structural pointer hands exactly the node the path
/// resolves to over to the inner extractor, and appends nothing where the
/// path resolves to nothing.
pub proof fn pointer_narrowing_law<'p, J: Jsoth>(ptr: Pointer<'p, J>, v: NodeV)
    ensures
        pointer_lookup(v, ptr.pointer@) matches Some(c) ==> ptr.outputs(v) == ptr.inner.outputs(c),
        pointer_lookup(v, ptr.pointer@) is None ==> ptr.outputs(v) == Seq::<
            <J::Output as DeepView>::V,
        >::empty(),
{
}

proof fn lemma_fan_out_identity(inner: &Identity, items: Seq<NodeV>, i: int)
    requires
        0 <= i <= items.len(),
    ensures
        fan_out_from(inner, items, i) == items.subrange(i, items.len() as int),
    decreases items.len() - i,
{
    if i < items.len() {
        lemma_fan_out_identity(inner, items, i + 1);
        assert(seq![items[i]] + items.subrange(i + 1, items.len() as int) =~= items.subrange(
            i,
            items.len() as int,
        ));
    } else {
        assert(items.subrange(i, items.len() as int) =~= Seq::<NodeV>::empty());
    }
}

/// Fanning out with `Identity` inside over a sequence node yields exactly
/// its elements, in sequence order.
pub proof fn fan_out_ordering_law(each: ForEach<Identity>, items: Seq<NodeV>)
    ensures
        each.outputs(NodeV::Arr(items)) == items,
{
    lemma_fan_out_identity(&each.0, items, 0);
    assert(items.subrange(0, items.len() as int) =~= items);
}

/// Fanning out over anything but a sequence node yields nothing.
pub proof fn fan_out_non_sequence_law<J: Jsoth>(each: ForEach<J>, v: NodeV)
    requires
        !(v is Arr),
    ensures
        each.outputs(v) == Seq::<<J::Output as DeepView>::V>::empty(),
{
}

/// Decoding filters: a numeric node within the target range yields the one
/// decoded value equal to the source number; any other node — a string, a
/// mapping, an out-of-range number — yields nothing, and no error arises.
pub proof fn decode_filtering_law(d: Deserialize<u8>, v: NodeV)
    ensures
        d.outputs(v) == (match u8::decode_spec(v) {
            Some(t) => seq![t],
            None => Seq::<u8>::empty(),
        }),
        u8::decode_spec(v) == (match v {
            NodeV::Int(i) => if 0 <= i <= u8::MAX {
                Some(i as u8)
            } else {
                None
            },
            _ => None,
        }),
{
}

/// Re-running one extractor against one unchanged document yields the same
/// output sequence every time: what a visit appends is a function of the
/// extractor tree and the document alone, with no memory across runs.
pub proof fn idempotence_law<J: Jsoth>(
    jsoth: &J,
    v: NodeV,
    first: Seq<<J::Output as DeepView>::V>,
    second: Seq<<J::Output as DeepView>::V>,
)
    requires
        first == jsoth.outputs(v),
        second == jsoth.outputs(v),
    ensures
        first == second,
{
}

/// A visit only appends: whatever the accumulator held before the visit
/// stands unchanged, in place, as a prefix of what it holds after.
pub proof fn accumulator_preserved_law<J: Jsoth>(
    jsoth: &J,
    v: NodeV,
    before: Seq<<J::Output as DeepView>::V>,
    after: Seq<<J::Output as DeepView>::V>,
)
    requires
        after == before + jsoth.outputs(v),
    ensures
        after.len() == before.len() + jsoth.outputs(v).len(),
        forall|k: int| 0 <= k < before.len() ==> after[k] == before[k],
{
}

} // verus!
