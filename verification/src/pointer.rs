//! Structural-pointer resolution: a slash-delimited path whose segments walk
//! into mappings by key and into sequences by position, with `~1` standing
//! for `/` and `~0` for `~` inside a segment.

use vstd::prelude::*;

use crate::node::{arr_lookup, obj_get_chars, obj_lookup, Node, NodeV};

verus! {

/// Is `c` a decimal digit?
pub open spec fn is_digit(c: char) -> bool {
    48 <= c as u32 <= 57
}

/// The numeric value of the digit `c`.
pub open spec fn digit_of(c: char) -> int {
    c as u32 - 48
}

/// The number the first `i` characters of `s` denote, read as decimal digits.
pub open spec fn digits_value(s: Seq<char>, i: int) -> int
    decreases i,
{
    if i <= 0 {
        0
    } else {
        digits_value(s, i - 1) * 10 + digit_of(s[i - 1])
    }
}

/// Has `s` the form of a sequence position: not empty, decimal digits only,
/// and no superfluous leading zero?
pub open spec fn is_index_seg(s: Seq<char>) -> bool {
    &&& s.len() > 0
    &&& (forall|k: int| 0 <= k < s.len() ==> is_digit(#[trigger] s[k]))
    &&& (s.len() > 1 ==> s[0] != '0')
}

/// The position a well-formed index segment denotes.
pub open spec fn index_value(s: Seq<char>) -> int {
    digits_value(s, s.len() as int)
}

/// `s[i..]` with every `~` that is followed by `second` replaced, as a pair,
/// by `repl`, scanning left to right.
pub open spec fn replace_from(s: Seq<char>, second: char, repl: char, i: int) -> Seq<char>
    decreases s.len() - i,
{
    if i < 0 || i >= s.len() {
        Seq::empty()
    } else if i + 1 < s.len() && s[i] == '~' && s[i + 1] == second {
        seq![repl] + replace_from(s, second, repl, i + 2)
    } else {
        seq![s[i]] + replace_from(s, second, repl, i + 1)
    }
}

/// A pointer segment unescaped: first every `~1` becomes `/`, then every `~0`
/// of the outcome becomes `~`.
pub open spec fn unescape(s: Seq<char>) -> Seq<char> {
    replace_from(replace_from(s, '1', '/', 0), '0', '~', 0)
}

/// Where the segment that starts at `i` ends: the position of the next `/`,
/// or the end of the path.
pub open spec fn seg_end(p: Seq<char>, i: int) -> int
    decreases p.len() - i,
{
    if i < 0 || i >= p.len() {
        p.len() as int
    } else if p[i] == '/' {
        i
    } else {
        seg_end(p, i + 1)
    }
}

pub proof fn lemma_seg_end_bounds(p: Seq<char>, i: int)
    requires
        0 <= i <= p.len(),
    ensures
        i <= seg_end(p, i) <= p.len(),
    decreases p.len() - i,
{
    if i < p.len() && p[i] != '/' {
        lemma_seg_end_bounds(p, i + 1);
    }
}

/// One resolution step: `seg` taken into `v` as a mapping key, or as a
/// sequence position where it has that form.
pub open spec fn step(v: NodeV, seg: Seq<char>) -> Option<NodeV> {
    match v {
        NodeV::Obj(_) => obj_lookup(v, seg),
        NodeV::Arr(_) => if is_index_seg(seg) {
            arr_lookup(v, index_value(seg))
        } else {
            None
        },
        _ => None,
    }
}

/// Resolution of the path segments that start at `i` (just past a `/`)
/// against `v`: walk one segment, then the rest against the child found.
pub open spec fn resolve_from(v: NodeV, p: Seq<char>, i: int) -> Option<NodeV>
    decreases p.len() - i,
        via resolve_from_decreases
{
    if i < 0 || i > p.len() {
        None
    } else {
        let j = seg_end(p, i);
        match step(v, unescape(p.subrange(i, j))) {
            None => None,
            Some(c) => if j >= p.len() {
                Some(c)
            } else {
                resolve_from(c, p, j + 1)
            },
        }
    }
}

#[via_fn]
proof fn resolve_from_decreases(v: NodeV, p: Seq<char>, i: int) {
    if 0 <= i <= p.len() {
        lemma_seg_end_bounds(p, i);
    }
}

/// What a whole pointer denotes against `v`: the empty path is `v` itself, a
/// path not starting with `/` resolves to nothing, and any other path is its
/// segments walked in turn.
pub open spec fn pointer_lookup(v: NodeV, p: Seq<char>) -> Option<NodeV> {
    if p.len() == 0 {
        Some(v)
    } else if p[0] != '/' {
        None
    } else {
        resolve_from(v, p, 1)
    }
}

proof fn lemma_digits_nonneg(s: Seq<char>, i: int)
    requires
        forall|k: int| 0 <= k < i ==> is_digit(#[trigger] s[k]),
    ensures
        digits_value(s, i) >= 0,
    decreases i,
{
    if i > 0 {
        lemma_digits_nonneg(s, i - 1);
    }
}

proof fn lemma_digits_monotone(s: Seq<char>, i: int, j: int)
    requires
        0 <= i <= j,
        forall|k: int| 0 <= k < j ==> is_digit(#[trigger] s[k]),
    ensures
        digits_value(s, j) >= digits_value(s, i),
    decreases j - i,
{
    if i < j {
        lemma_digits_monotone(s, i, j - 1);
        lemma_digits_nonneg(s, j - 1);
    }
}

/// The characters `p[from..to]`, as a fresh vector.
fn copy_range(p: &Vec<char>, from: usize, to: usize) -> (r: Vec<char>)
    requires
        from <= to <= p@.len(),
    ensures
        r@ == p@.subrange(from as int, to as int),
{
    let mut out: Vec<char> = Vec::new();
    let mut i: usize = from;
    while i < to
        invariant
            from <= i <= to <= p@.len(),
            out@ == p@.subrange(from as int, i as int),
        decreases to - i,
    {
        out.push(p[i]);
        proof {
            assert(out@ =~= p@.subrange(from as int, i + 1));
        }
        i = i + 1;
    }
    out
}

/// One unescaping pass over `s`, per `replace_from`.
fn replace_pairs(s: &Vec<char>, second: char, repl: char) -> (r: Vec<char>)
    ensures
        r@ == replace_from(s@, second, repl, 0),
{
    let mut out: Vec<char> = Vec::new();
    let mut i: usize = 0;
    while i < s.len()
        invariant
            i <= s@.len(),
            replace_from(s@, second, repl, 0) == out@ + replace_from(s@, second, repl, i as int),
        decreases s@.len() - i,
    {
        let ghost prev = out@;
        if i + 1 < s.len() && s[i] == '~' && s[i + 1] == second {
            out.push(repl);
            proof {
                assert(out@ =~= prev + seq![repl]);
                assert((prev + seq![repl]) + replace_from(s@, second, repl, i + 2) =~= prev + (
                seq![repl] + replace_from(s@, second, repl, i + 2)));
            }
            i = i + 2;
        } else {
            out.push(s[i]);
            proof {
                assert(out@ =~= prev + seq![s@[i as int]]);
                assert((prev + seq![s@[i as int]]) + replace_from(s@, second, repl, i + 1) =~= prev
                    + (seq![s@[i as int]] + replace_from(s@, second, repl, i + 1)));
            }
            i = i + 1;
        }
    }
    proof {
        assert(out@ + replace_from(s@, second, repl, s@.len() as int) =~= out@);
    }
    out
}

/// The segment `p[from..to]`, unescaped.
fn unescape_range(p: &Vec<char>, from: usize, to: usize) -> (r: Vec<char>)
    requires
        from <= to <= p@.len(),
    ensures
        r@ == unescape(p@.subrange(from as int, to as int)),
{
    let raw = copy_range(p, from, to);
    let pass1 = replace_pairs(&raw, '1', '/');
    replace_pairs(&pass1, '0', '~')
}

/// Where the segment that starts at `i` ends, per `seg_end`.
fn find_seg_end(p: &Vec<char>, i: usize) -> (r: usize)
    requires
        i <= p@.len(),
    ensures
        r == seg_end(p@, i as int),
{
    let mut j = i;
    while j < p.len()
        invariant
            i <= j <= p@.len(),
            seg_end(p@, i as int) == seg_end(p@, j as int),
        decreases p@.len() - j,
    {
        if p[j] == '/' {
            return j;
        }
        j = j + 1;
    }
    j
}

/// Reads `seg` as a sequence position, per `is_index_seg` and `index_value`;
/// a well-formed position beyond `usize` can denote no element of a vector.
fn parse_index(seg: &Vec<char>) -> (r: Option<usize>)
    ensures
        match r {
            Some(k) => is_index_seg(seg@) && index_value(seg@) == k as int,
            None => !is_index_seg(seg@) || index_value(seg@) > usize::MAX,
        },
{
    if seg.len() == 0 {
        return None;
    }
    if seg.len() > 1 && seg[0] == '0' {
        return None;
    }
    let mut val: usize = 0;
    let mut i: usize = 0;
    while i < seg.len()
        invariant
            i <= seg@.len(),
            seg@.len() > 0,
            seg@.len() > 1 ==> seg@[0] != '0',
            forall|k: int| 0 <= k < i ==> is_digit(#[trigger] seg@[k]),
            val as int == digits_value(seg@, i as int),
        decreases seg@.len() - i,
    {
        let cu = seg[i] as u32;
        if cu < 48 || cu > 57 {
            return None;
        }
        let d = (cu - 48) as usize;
        let stepped = match val.checked_mul(10) {
            Some(m) => m.checked_add(d),
            None => None,
        };
        match stepped {
            Some(next) => {
                val = next;
            },
            None => {
                proof {
                    if is_index_seg(seg@) {
                        lemma_digits_monotone(seg@, i + 1, seg@.len() as int);
                    }
                }
                return None;
            },
        }
        i = i + 1;
    }
    Some(val)
}

/// One resolution step against `v`, per `step`.
fn step_node<'a>(v: &'a Node, seg: &Vec<char>) -> (r: Option<&'a Node>)
    ensures
        match r {
            Some(c) => step(v@, seg@) == Some(c@),
            None => step(v@, seg@) is None,
        },
{
    match v {
        Node::Obj(_) => obj_get_chars(v, seg),
        Node::Arr(items) => {
            let len = items.len();
            match parse_index(seg) {
                Some(k) => v.get_pos(k),
                None => {
                    proof {
                        if is_index_seg(seg@) {
                            assert(items@.len() == len);
                        }
                    }
                    None
                },
            }
        },
        _ => None,
    }
}

/// Resolution of the path segments that start at `i`, per `resolve_from`.
fn resolve_at<'a>(v: &'a Node, p: &Vec<char>, i: usize) -> (r: Option<&'a Node>)
    requires
        i <= p@.len(),
    ensures
        match r {
            Some(c) => resolve_from(v@, p@, i as int) == Some(c@),
            None => resolve_from(v@, p@, i as int) is None,
        },
    decreases p@.len() - i,
{
    proof {
        lemma_seg_end_bounds(p@, i as int);
    }
    let j = find_seg_end(p, i);
    let seg = unescape_range(p, i, j);
    let child = step_node(v, &seg);
    match child {
        None => None,
        Some(c) => if j == p.len() {
            Some(c)
        } else {
            resolve_at(c, p, j + 1)
        },
    }
}

impl Node {
    /// Resolves `pointer` against this node, per `pointer_lookup`: the node
    /// the path leads to, or `None` where any segment fails to match.
    pub fn get_pointer<'a>(&'a self, pointer: &str) -> (r: Option<&'a Node>)
        ensures
            match r {
                Some(c) => pointer_lookup(self@, pointer@) == Some(c@),
                None => pointer_lookup(self@, pointer@) is None,
            },
    {
        let n = pointer.unicode_len();
        if n == 0 {
            return Some(self);
        }
        if pointer.get_char(0) != '/' {
            return None;
        }
        let chars = crate::node::to_chars(pointer);
        resolve_at(self, &chars, 1)
    }
}

} // verus!
