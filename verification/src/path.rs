//! Key-path expansion: how a dot-delimited path wraps a value in nested
//! single-entry dictionaries, one level per non-empty segment.

use vstd::prelude::*;

use crate::value::keys_unique;
use crate::value::val_wf;
use crate::value::Val;

verus! {

broadcast use vstd::seq::group_seq_axioms;

/// The position of the first `.` in `p`, or `p.len()` when there is none.
pub open spec fn dot_index(p: Seq<char>) -> nat
    decreases p.len(),
{
    if p.len() == 0 {
        0
    } else if p[0] == '.' {
        0
    } else {
        1 + dot_index(p.drop_first())
    }
}

/// What expanding the key path `p` around the value `v` yields: one
/// single-entry dictionary per non-empty segment of `p`, built from the last
/// segment inward to the first; an empty segment contributes no nesting
/// level, so a path of only empty segments passes `v` through unchanged.
pub open spec fn wrap_path(p: Seq<char>, v: Val) -> Val
    decreases p.len(),
{
    if p.len() == 0 {
        v
    } else {
        let i = dot_index(p) as int;
        if i < p.len() {
            let seg = p.take(i);
            let inner = wrap_path(p.skip(i + 1), v);
            if seg.len() == 0 {
                inner
            } else {
                Val::Dict(seq![(seg, inner)])
            }
        } else {
            Val::Dict(seq![(p, v)])
        }
    }
}

/// `dot_index` points at a dot and nothing before it is a dot.
pub proof fn lemma_dot_index(p: Seq<char>)
    ensures
        dot_index(p) <= p.len(),
        forall|k: int| 0 <= k < dot_index(p) ==> p[k] != '.',
        dot_index(p) < p.len() ==> p[dot_index(p) as int] == '.',
    decreases p.len(),
{
    if p.len() == 0 {
    } else if p[0] == '.' {
    } else {
        lemma_dot_index(p.drop_first());
        assert forall|k: int| 0 <= k < dot_index(p) implies p[k] != '.' by {
            if k > 0 {
                assert(p.drop_first()[k - 1] == p[k]);
            }
        }
        if dot_index(p) < p.len() {
            assert(p.drop_first()[dot_index(p) as int - 1] == p[dot_index(p) as int]);
        }
    }
}

/// A position with no dot before it and a dot (or the end) at it is exactly
/// `dot_index`.
pub proof fn lemma_dot_index_unique(p: Seq<char>, i: int)
    requires
        0 <= i <= p.len(),
        forall|k: int| 0 <= k < i ==> p[k] != '.',
        i < p.len() ==> p[i] == '.',
    ensures
        dot_index(p) == i,
    decreases p.len(),
{
    if p.len() == 0 {
    } else if p[0] == '.' {
        if i > 0 {
            assert(p[0] != '.');
        }
    } else {
        if i == 0 {
            assert(p[0] == '.');
        }
        assert forall|k: int| 0 <= k < i - 1 implies p.drop_first()[k] != '.' by {
            assert(p.drop_first()[k] == p[k + 1]);
        }
        if i - 1 < p.drop_first().len() {
            assert(p.drop_first()[i - 1] == p[i]);
        }
        lemma_dot_index_unique(p.drop_first(), i - 1);
    }
}

/// A single dot-free, non-empty segment wraps the value in one single-entry
/// dictionary.
pub proof fn lemma_wrap_single(seg: Seq<char>, v: Val)
    requires
        seg.len() > 0,
        forall|k: int| 0 <= k < seg.len() ==> seg[k] != '.',
    ensures
        wrap_path(seg, v) == Val::Dict(seq![(seg, v)]),
{
    lemma_dot_index_unique(seg, seg.len() as int);
}

/// Peeling the first segment off a path: a dot-free, non-empty leading
/// segment contributes exactly one dictionary level around the expansion of
/// the remainder.
pub proof fn lemma_wrap_segment(seg: Seq<char>, rest: Seq<char>, v: Val)
    requires
        seg.len() > 0,
        forall|k: int| 0 <= k < seg.len() ==> seg[k] != '.',
    ensures
        wrap_path(seg + seq!['.'] + rest, v) == Val::Dict(seq![(seg, wrap_path(rest, v))]),
{
    let p = seg + seq!['.'] + rest;
    assert forall|k: int| 0 <= k < seg.len() implies p[k] != '.' by {
        assert(p[k] == seg[k]);
    }
    assert(p[seg.len() as int] == '.');
    lemma_dot_index_unique(p, seg.len() as int);
    assert(p.take(seg.len() as int) =~= seg);
    assert(p.skip(seg.len() as int + 1) =~= rest);
}

/// A leading empty segment contributes no nesting level.
pub proof fn lemma_leading_dot(q: Seq<char>, v: Val)
    ensures
        wrap_path(seq!['.'] + q, v) == wrap_path(q, v),
{
    let p = seq!['.'] + q;
    assert(p[0] == '.');
    lemma_dot_index_unique(p, 0);
    assert(p.skip(1) =~= q);
    assert(p.take(0).len() == 0);
}

/// Path splitting is purely structural: a doubled delimiter, which splits to
/// an empty segment, adds no nesting level anywhere in the path.
pub proof fn lemma_empty_segment(p: Seq<char>, q: Seq<char>, v: Val)
    ensures
        wrap_path(p + seq!['.'] + seq!['.'] + q, v) == wrap_path(p + seq!['.'] + q, v),
    decreases p.len(),
{
    let d = seq!['.'];
    let lhs = p + d + d + q;
    let rhs = p + d + q;
    lemma_dot_index(p);
    let i = dot_index(p) as int;
    if i < p.len() {
        assert forall|k: int| 0 <= k < i implies lhs[k] != '.' by {
            assert(lhs[k] == p[k]);
        }
        assert forall|k: int| 0 <= k < i implies rhs[k] != '.' by {
            assert(rhs[k] == p[k]);
        }
        assert(lhs[i] == p[i]);
        assert(rhs[i] == p[i]);
        lemma_dot_index_unique(lhs, i);
        lemma_dot_index_unique(rhs, i);
        assert(lhs.take(i) =~= p.take(i));
        assert(rhs.take(i) =~= p.take(i));
        assert(lhs.skip(i + 1) =~= p.skip(i + 1) + d + d + q);
        assert(rhs.skip(i + 1) =~= p.skip(i + 1) + d + q);
        lemma_empty_segment(p.skip(i + 1), q, v);
    } else {
        assert forall|k: int| 0 <= k < p.len() implies lhs[k] != '.' by {
            assert(lhs[k] == p[k]);
        }
        assert forall|k: int| 0 <= k < p.len() implies rhs[k] != '.' by {
            assert(rhs[k] == p[k]);
        }
        assert(lhs[p.len() as int] == '.');
        assert(rhs[p.len() as int] == '.');
        lemma_dot_index_unique(lhs, p.len() as int);
        lemma_dot_index_unique(rhs, p.len() as int);
        assert(lhs.take(p.len() as int) =~= p);
        assert(rhs.take(p.len() as int) =~= p);
        assert(lhs.skip(p.len() as int + 1) =~= d + q);
        assert(rhs.skip(p.len() as int + 1) =~= q);
        lemma_leading_dot(q, v);
    }
}

/// A path holding any non-delimiter character expands to a dictionary,
/// whatever the shape of the wrapped value.
pub proof fn lemma_wrap_path_dict(p: Seq<char>, v: Val)
    requires
        exists|j: int| 0 <= j < p.len() && p[j] != '.',
    ensures
        wrap_path(p, v) is Dict,
    decreases p.len(),
{
    lemma_dot_index(p);
    let i = dot_index(p) as int;
    let j = choose|j: int| 0 <= j < p.len() && p[j] != '.';
    if i < p.len() {
        if i == 0 {
            assert(p[0] == '.');
            assert(j >= 1);
            assert(p.skip(1)[j - 1] == p[j]);
            lemma_wrap_path_dict(p.skip(1), v);
        }
    }
}

/// A path of only delimiters (or an empty path) passes the value through
/// unwrapped.
pub proof fn lemma_wrap_path_passthrough(p: Seq<char>, v: Val)
    requires
        forall|j: int| 0 <= j < p.len() ==> p[j] == '.',
    ensures
        wrap_path(p, v) == v,
    decreases p.len(),
{
    if p.len() > 0 {
        lemma_dot_index_unique(p, 0);
        assert forall|j: int| 0 <= j < p.skip(1).len() implies p.skip(1)[j] == '.' by {
            assert(p.skip(1)[j] == p[j + 1]);
        }
        lemma_wrap_path_passthrough(p.skip(1), v);
    }
}

/// Path expansion preserves well-formedness: every dictionary it builds holds
/// exactly one entry, so no duplicate key can arise from a single expansion.
pub proof fn lemma_wrap_path_wf(p: Seq<char>, v: Val)
    requires
        val_wf(v),
    ensures
        val_wf(wrap_path(p, v)),
    decreases p.len(),
{
    if p.len() == 0 {
    } else {
        let i = dot_index(p) as int;
        lemma_dot_index(p);
        if i < p.len() {
            lemma_wrap_path_wf(p.skip(i + 1), v);
            let seg = p.take(i);
            if seg.len() > 0 {
                let inner = wrap_path(p.skip(i + 1), v);
                assert(keys_unique(seq![(seg, inner)]));
            }
        } else {
            assert(keys_unique(seq![(p, v)]));
        }
    }
}

} // verus!
