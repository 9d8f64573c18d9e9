//! Structural equality of values.
//!
//! Two notions live here. `val_eq` is the equality the query language
//! itself uses (the `=` builtin, map keys, set membership): deep and
//! structural, except that floats compare by IEEE rules — NaN is unequal
//! to everything including itself, the two zeroes are equal, and a
//! float's display text is ignored. Ghost view equality (`a@ == b@`) is
//! the finer, purely syntactic identity that the analyzer's fixed-point
//! test uses; the executable `same_value` decides it.
//!
//! The recursive definitions measure termination by `height`, the size
//! of a value tree.

use vstd::prelude::*;
use crate::float_bits::{f64_eq, f64_eq_exec};
use crate::value::{
    EdnValue, ValView, view_of_vals, view_of_pairs, view_of_strings, lemma_view_of_vals,
    lemma_view_of_pairs, lemma_view_of_strings,
};

verus! {

/// The height of a value tree; every value has height at least 1.
pub open spec fn height(v: ValView) -> nat
    decreases v,
{
    match v {
        ValView::Vector(items) => 3 + heights(items),
        ValView::List(items) => 3 + heights(items),
        ValView::SetV(items) => 3 + heights(items),
        ValView::MapV(pairs) => 3 + pair_heights(pairs),
        ValView::Tagged { tag, value } => 1 + height(*value),
        ValView::WithMetadata { metadata, value } => 1 + height(*metadata) + height(*value),
        ValView::Lambda { params, body } => 1 + height(*body),
        _ => 1,
    }
}

pub open spec fn heights(s: Seq<ValView>) -> nat
    decreases s,
{
    if s.len() == 0 {
        0
    } else {
        height(s[0]) + heights(s.drop_first())
    }
}

pub open spec fn pair_heights(s: Seq<(ValView, ValView)>) -> nat
    decreases s,
{
    if s.len() == 0 {
        0
    } else {
        height(s[0].0) + height(s[0].1) + pair_heights(s.drop_first())
    }
}

/// Value equality of the query language.
pub open spec fn val_eq(a: ValView, b: ValView) -> bool
    decreases height(a) + height(b),
{
    match (a, b) {
        (ValView::Nil, ValView::Nil) => true,
        (ValView::Bool(x), ValView::Bool(y)) => x == y,
        (ValView::Str(x), ValView::Str(y)) => x == y,
        (ValView::Keyword(x), ValView::Keyword(y)) => x == y,
        (ValView::Symbol(x), ValView::Symbol(y)) => x == y,
        (ValView::Character(x), ValView::Character(y)) => x == y,
        (ValView::Integer(x), ValView::Integer(y)) => x == y,
        (ValView::Float { bits: x, .. }, ValView::Float { bits: y, .. }) => f64_eq(x, y),
        (ValView::Vector(xs), ValView::Vector(ys)) => seq_val_eq(xs, ys),
        (ValView::List(xs), ValView::List(ys)) => seq_val_eq(xs, ys),
        (ValView::MapV(xs), ValView::MapV(ys)) => xs.len() == ys.len() && pairs_in(xs, ys),
        (ValView::SetV(xs), ValView::SetV(ys)) => xs.len() == ys.len() && elems_in(xs, ys),
        (ValView::Tagged { tag: t1, value: v1 }, ValView::Tagged { tag: t2, value: v2 }) => t1
            == t2 && val_eq(*v1, *v2),
        (
            ValView::WithMetadata { metadata: m1, value: v1 },
            ValView::WithMetadata { metadata: m2, value: v2 },
        ) => val_eq(*m1, *m2) && val_eq(*v1, *v2),
        (ValView::Instant(x), ValView::Instant(y)) => x == y,
        (ValView::Uuid(x), ValView::Uuid(y)) => x == y,
        (ValView::Lambda { params: p1, body: b1 }, ValView::Lambda { params: p2, body: b2 }) => p1
            == p2 && val_eq(*b1, *b2),
        _ => false,
    }
}

/// Elementwise `val_eq` of two sequences of equal length.
pub open spec fn seq_val_eq(xs: Seq<ValView>, ys: Seq<ValView>) -> bool
    decreases heights(xs) + heights(ys) + 1,
    via seq_val_eq_decreases
{
    &&& xs.len() == ys.len()
    &&& (xs.len() == 0 || (val_eq(xs[0], ys[0]) && seq_val_eq(
        xs.drop_first(),
        ys.drop_first(),
    )))
}

#[via_fn]
proof fn seq_val_eq_decreases(xs: Seq<ValView>, ys: Seq<ValView>) {
    if xs.len() > 0 && ys.len() > 0 {
        lemma_height_pos(xs[0]);
        lemma_height_pos(ys[0]);
    }
}

pub proof fn lemma_height_pos(v: ValView)
    ensures
        height(v) >= 1,
{
}

/// The value at the first key of `ps` that is `val_eq` to `k`, scanning
/// in insertion order — the lookup an insertion-ordered map performs.
pub open spec fn lookup_pairs(ps: Seq<(ValView, ValView)>, k: ValView) -> Option<ValView>
    decreases pair_heights(ps) + height(k),
    via lookup_pairs_decreases
{
    if ps.len() == 0 {
        Option::None
    } else if val_eq(ps[0].0, k) {
        Option::Some(ps[0].1)
    } else {
        lookup_pairs(ps.drop_first(), k)
    }
}

#[via_fn]
proof fn lookup_pairs_decreases(ps: Seq<(ValView, ValView)>, k: ValView) {
    if ps.len() > 0 {
        lemma_height_pos(ps[0].0);
        lemma_height_pos(ps[0].1);
    }
}

/// Whether the entry `(k, v)` is matched in `ps`: the first key equal to
/// `k` carries a value equal to `v`.
pub open spec fn pair_in(ps: Seq<(ValView, ValView)>, k: ValView, v: ValView) -> bool
    decreases pair_heights(ps) + height(k) + height(v),
    via pair_in_decreases
{
    if ps.len() == 0 {
        false
    } else if val_eq(ps[0].0, k) {
        val_eq(v, ps[0].1)
    } else {
        pair_in(ps.drop_first(), k, v)
    }
}

#[via_fn]
proof fn pair_in_decreases(ps: Seq<(ValView, ValView)>, k: ValView, v: ValView) {
    if ps.len() > 0 {
        lemma_height_pos(ps[0].0);
        lemma_height_pos(ps[0].1);
    }
}

/// Every entry of `xs` is matched in `ys`.
pub open spec fn pairs_in(xs: Seq<(ValView, ValView)>, ys: Seq<(ValView, ValView)>) -> bool
    decreases pair_heights(xs) + pair_heights(ys) + 1,
    via pairs_in_decreases
{
    xs.len() == 0 || (pair_in(ys, xs[0].0, xs[0].1) && pairs_in(xs.drop_first(), ys))
}

#[via_fn]
proof fn pairs_in_decreases(xs: Seq<(ValView, ValView)>, ys: Seq<(ValView, ValView)>) {
    if xs.len() > 0 {
        lemma_height_pos(xs[0].0);
        lemma_height_pos(xs[0].1);
    }
}

/// Whether some element of `s` is `val_eq` to `x`.
pub open spec fn elem_in(s: Seq<ValView>, x: ValView) -> bool
    decreases heights(s) + height(x) + 1,
    via elem_in_decreases
{
    s.len() > 0 && (val_eq(s[0], x) || elem_in(s.drop_first(), x))
}

#[via_fn]
proof fn elem_in_decreases(s: Seq<ValView>, x: ValView) {
    if s.len() > 0 {
        lemma_height_pos(s[0]);
    }
}

/// Every element of `xs` occurs in `ys`.
pub open spec fn elems_in(xs: Seq<ValView>, ys: Seq<ValView>) -> bool
    decreases heights(xs) + heights(ys) + 2,
    via elems_in_decreases
{
    xs.len() == 0 || (elem_in(ys, xs[0]) && elems_in(xs.drop_first(), ys))
}

#[via_fn]
proof fn elems_in_decreases(xs: Seq<ValView>, ys: Seq<ValView>) {
    if xs.len() > 0 {
        lemma_height_pos(xs[0]);
    }
}

/// Every element's height is bounded by the height of the sequence.
pub proof fn lemma_heights_bound(s: Seq<ValView>)
    ensures
        forall|i: int| 0 <= i < s.len() ==> height(#[trigger] s[i]) <= heights(s),
    decreases s,
{
    if s.len() > 0 {
        lemma_heights_bound(s.drop_first());
        assert forall|i: int| 0 <= i < s.len() implies height(#[trigger] s[i]) <= heights(s) by {
            if i > 0 {
                assert(s.drop_first()[i - 1] == s[i]);
            }
        }
    }
}

/// Every entry's heights are bounded by the height of the pair sequence.
pub proof fn lemma_pair_heights_bound(s: Seq<(ValView, ValView)>)
    ensures
        forall|i: int| 0 <= i < s.len() ==> height(#[trigger] s[i].0) + height(s[i].1)
            <= pair_heights(s),
    decreases s,
{
    if s.len() > 0 {
        lemma_pair_heights_bound(s.drop_first());
        assert forall|i: int| 0 <= i < s.len() implies height(#[trigger] s[i].0) + height(s[i].1)
            <= pair_heights(s) by {
            if i > 0 {
                assert(s.drop_first()[i - 1] == s[i]);
            }
        }
    }
}

/// `seq_val_eq` is pointwise `val_eq` on sequences of equal length.
pub proof fn lemma_seq_val_eq_iff(xs: Seq<ValView>, ys: Seq<ValView>)
    ensures
        seq_val_eq(xs, ys) <==> (xs.len() == ys.len() && forall|i: int|
            0 <= i < xs.len() ==> val_eq(#[trigger] xs[i], ys[i])),
    decreases heights(xs),
{
    if xs.len() > 0 && xs.len() == ys.len() {
        lemma_height_pos(xs[0]);
        lemma_seq_val_eq_iff(xs.drop_first(), ys.drop_first());
        assert forall|i: int|
            0 <= i < xs.len() && (forall|j: int|
                0 <= j < xs.drop_first().len() ==> val_eq(
                    #[trigger] xs.drop_first()[j],
                    ys.drop_first()[j],
                )) && val_eq(xs[0], ys[0]) implies val_eq(#[trigger] xs[i], ys[i]) by {
            if i > 0 {
                assert(xs.drop_first()[i - 1] == xs[i]);
                assert(ys.drop_first()[i - 1] == ys[i]);
            }
        }
        if seq_val_eq(xs, ys) {
        }
        if xs.len() == ys.len() && (forall|i: int|
            0 <= i < xs.len() ==> val_eq(#[trigger] xs[i], ys[i])) {
            assert forall|j: int| 0 <= j < xs.drop_first().len() implies val_eq(
                #[trigger] xs.drop_first()[j],
                ys.drop_first()[j],
            ) by {
                assert(xs.drop_first()[j] == xs[j + 1]);
                assert(ys.drop_first()[j] == ys[j + 1]);
            }
        }
    }
}

/// `pairs_in` asks each entry of `xs` in turn.
pub proof fn lemma_pairs_in_iff(xs: Seq<(ValView, ValView)>, ys: Seq<(ValView, ValView)>)
    ensures
        pairs_in(xs, ys) <==> forall|i: int|
            0 <= i < xs.len() ==> pair_in(ys, #[trigger] xs[i].0, xs[i].1),
    decreases pair_heights(xs),
{
    if xs.len() > 0 {
        lemma_height_pos(xs[0].0);
        lemma_height_pos(xs[0].1);
        lemma_pairs_in_iff(xs.drop_first(), ys);
        assert forall|i: int|
            0 <= i < xs.len() && pairs_in(xs, ys) implies pair_in(
            ys,
            #[trigger] xs[i].0,
            xs[i].1,
        ) by {
            if i > 0 {
                assert(xs.drop_first()[i - 1] == xs[i]);
            }
        }
        if forall|i: int| 0 <= i < xs.len() ==> pair_in(ys, #[trigger] xs[i].0, xs[i].1) {
            assert forall|j: int| 0 <= j < xs.drop_first().len() implies pair_in(
                ys,
                #[trigger] xs.drop_first()[j].0,
                xs.drop_first()[j].1,
            ) by {
                assert(xs.drop_first()[j] == xs[j + 1]);
            }
        }
    }
}

/// `elems_in` asks each element of `xs` in turn.
pub proof fn lemma_elems_in_iff(xs: Seq<ValView>, ys: Seq<ValView>)
    ensures
        elems_in(xs, ys) <==> forall|i: int| 0 <= i < xs.len() ==> elem_in(ys, #[trigger] xs[i]),
    decreases heights(xs),
{
    if xs.len() > 0 {
        lemma_height_pos(xs[0]);
        lemma_elems_in_iff(xs.drop_first(), ys);
        assert forall|i: int| 0 <= i < xs.len() && elems_in(xs, ys) implies elem_in(
            ys,
            #[trigger] xs[i],
        ) by {
            if i > 0 {
                assert(xs.drop_first()[i - 1] == xs[i]);
            }
        }
        if forall|i: int| 0 <= i < xs.len() ==> elem_in(ys, #[trigger] xs[i]) {
            assert forall|j: int| 0 <= j < xs.drop_first().len() implies elem_in(
                ys,
                #[trigger] xs.drop_first()[j],
            ) by {
                assert(xs.drop_first()[j] == xs[j + 1]);
            }
        }
    }
}

/// Scanning `pair_in` past a key that does not match `k` changes nothing.
pub proof fn lemma_pair_in_step(ps: Seq<(ValView, ValView)>, k: ValView, v: ValView, i: int)
    requires
        0 <= i < ps.len(),
        !val_eq(ps[i].0, k),
    ensures
        pair_in(ps.skip(i), k, v) == pair_in(ps.skip(i + 1), k, v),
{
    assert(ps.skip(i)[0] == ps[i]);
    assert(ps.skip(i).drop_first() =~= ps.skip(i + 1));
}

/// Scanning `lookup_pairs` past a key that does not match `k` changes nothing.
pub proof fn lemma_lookup_step(ps: Seq<(ValView, ValView)>, k: ValView, i: int)
    requires
        0 <= i < ps.len(),
        !val_eq(ps[i].0, k),
    ensures
        lookup_pairs(ps.skip(i), k) == lookup_pairs(ps.skip(i + 1), k),
{
    assert(ps.skip(i)[0] == ps[i]);
    assert(ps.skip(i).drop_first() =~= ps.skip(i + 1));
}

/// Scanning `elem_in` past an element unequal to `x` changes nothing.
pub proof fn lemma_elem_in_step(s: Seq<ValView>, x: ValView, i: int)
    requires
        0 <= i < s.len(),
        !val_eq(s[i], x),
    ensures
        elem_in(s.skip(i), x) == elem_in(s.skip(i + 1), x),
{
    assert(s.skip(i)[0] == s[i]);
    assert(s.skip(i).drop_first() =~= s.skip(i + 1));
}

/// Decides `val_eq` on executable values.
pub fn value_eq(a: &EdnValue, b: &EdnValue) -> (r: bool)
    ensures
        r == val_eq(a@, b@),
    decreases height(a@) + height(b@),
{
    match (a, b) {
        (EdnValue::Nil, EdnValue::Nil) => true,
        (EdnValue::Bool(x), EdnValue::Bool(y)) => *x == *y,
        (EdnValue::String(x), EdnValue::String(y)) => *x == *y,
        (EdnValue::Keyword(x), EdnValue::Keyword(y)) => *x == *y,
        (EdnValue::Symbol(x), EdnValue::Symbol(y)) => *x == *y,
        (EdnValue::Character(x), EdnValue::Character(y)) => *x == *y,
        (EdnValue::Integer(x), EdnValue::Integer(y)) => *x == *y,
        (EdnValue::Float { bits: x, .. }, EdnValue::Float { bits: y, .. }) => f64_eq_exec(*x, *y),
        (EdnValue::Vector(xs), EdnValue::Vector(ys)) => seq_value_eq(xs, ys),
        (EdnValue::List(xs), EdnValue::List(ys)) => seq_value_eq(xs, ys),
        (EdnValue::MapV(xs), EdnValue::MapV(ys)) => {
            proof {
                lemma_view_of_pairs(xs@);
                lemma_view_of_pairs(ys@);
            }
            xs.len() == ys.len() && pairs_in_exec(xs, ys)
        },
        (EdnValue::SetV(xs), EdnValue::SetV(ys)) => {
            proof {
                lemma_view_of_vals(xs@);
                lemma_view_of_vals(ys@);
            }
            xs.len() == ys.len() && elems_in_exec(xs, ys)
        },
        (
            EdnValue::Tagged { tag: t1, value: v1 },
            EdnValue::Tagged { tag: t2, value: v2 },
        ) => *t1 == *t2 && value_eq(v1, v2),
        (
            EdnValue::WithMetadata { metadata: m1, value: v1 },
            EdnValue::WithMetadata { metadata: m2, value: v2 },
        ) => value_eq(m1, m2) && value_eq(v1, v2),
        (EdnValue::Instant(x), EdnValue::Instant(y)) => *x == *y,
        (EdnValue::Uuid(x), EdnValue::Uuid(y)) => *x == *y,
        (
            EdnValue::Lambda { params: p1, body: b1 },
            EdnValue::Lambda { params: p2, body: b2 },
        ) => strings_eq(p1, p2) && value_eq(b1, b2),
        _ => false,
    }
}

/// Elementwise equality of two parameter lists.
fn strings_eq(xs: &Vec<String>, ys: &Vec<String>) -> (r: bool)
    ensures
        r == (view_of_strings(xs@) == view_of_strings(ys@)),
{
    proof {
        lemma_view_of_strings(xs@);
        lemma_view_of_strings(ys@);
    }
    if xs.len() != ys.len() {
        return false;
    }
    let ghost vx = view_of_strings(xs@);
    let ghost vy = view_of_strings(ys@);
    let n = xs.len();
    let mut i: usize = 0;
    while i < n
        invariant
            i <= n,
            n == xs@.len() == ys@.len(),
            vx == view_of_strings(xs@),
            vy == view_of_strings(ys@),
            vx.len() == n && vy.len() == n,
            forall|j: int| 0 <= j < vx.len() ==> vx[j] == xs@[j]@ && vy[j] == ys@[j]@,
            forall|j: int| 0 <= j < i ==> #[trigger] vx[j] == vy[j],
        decreases n - i,
    {
        if xs[i] != ys[i] {
            proof {
                assert(vx[i as int] != vy[i as int]);
            }
            return false;
        }
        i = i + 1;
    }
    proof {
        assert(vx =~= vy);
    }
    true
}

fn seq_value_eq(xs: &Vec<EdnValue>, ys: &Vec<EdnValue>) -> (r: bool)
    ensures
        r == seq_val_eq(view_of_vals(xs@), view_of_vals(ys@)),
    decreases heights(view_of_vals(xs@)) + heights(view_of_vals(ys@)) + 1,
{
    let ghost vx = view_of_vals(xs@);
    let ghost vy = view_of_vals(ys@);
    proof {
        lemma_view_of_vals(xs@);
        lemma_view_of_vals(ys@);
        lemma_seq_val_eq_iff(vx, vy);
        lemma_heights_bound(vx);
        lemma_heights_bound(vy);
    }
    if xs.len() != ys.len() {
        return false;
    }
    let n = xs.len();
    let mut i: usize = 0;
    while i < n
        invariant
            i <= n,
            n == xs@.len() == ys@.len(),
            vx == view_of_vals(xs@) && vy == view_of_vals(ys@),
            vx.len() == n && vy.len() == n,
            forall|j: int| 0 <= j < n ==> #[trigger] vx[j] == xs@[j]@ && vy[j] == ys@[j]@,
            forall|j: int| 0 <= j < n ==> height(#[trigger] vx[j]) <= heights(vx) && height(
                vy[j],
            ) <= heights(vy),
            seq_val_eq(vx, vy) <==> (forall|j: int|
                0 <= j < n ==> val_eq(#[trigger] vx[j], vy[j])),
            forall|j: int| 0 <= j < i ==> val_eq(#[trigger] vx[j], vy[j]),
        decreases n - i,
    {
        proof {
            assert(vx[i as int] == xs@[i as int]@);
            assert(vy[i as int] == ys@[i as int]@);
            assert(height(vx[i as int]) <= heights(vx));
            assert(height(vy[i as int]) <= heights(vy));
        }
        if !value_eq(&xs[i], &ys[i]) {
            return false;
        }
        i = i + 1;
    }
    true
}

fn pair_in_exec(ps: &Vec<(EdnValue, EdnValue)>, k: &EdnValue, v: &EdnValue) -> (r: bool)
    ensures
        r == pair_in(view_of_pairs(ps@), k@, v@),
    decreases pair_heights(view_of_pairs(ps@)) + height(k@) + height(v@),
{
    let ghost pv = view_of_pairs(ps@);
    proof {
        lemma_view_of_pairs(ps@);
        lemma_pair_heights_bound(pv);
        assert(pv.skip(0) =~= pv);
    }
    let n = ps.len();
    let mut i: usize = 0;
    while i < n
        invariant
            i <= n,
            n == ps@.len(),
            pv == view_of_pairs(ps@),
            pv.len() == n,
            forall|j: int| 0 <= j < n ==> #[trigger] pv[j] == (ps@[j].0@, ps@[j].1@),
            forall|j: int| 0 <= j < n ==> height(#[trigger] pv[j].0) + height(pv[j].1)
                <= pair_heights(pv),
            pair_in(pv, k@, v@) == pair_in(pv.skip(i as int), k@, v@),
        decreases n - i,
    {
        if value_eq(&ps[i].0, k) {
            proof {
                assert(pv.skip(i as int)[0] == pv[i as int]);
            }
            return value_eq(v, &ps[i].1);
        }
        proof {
            lemma_pair_in_step(pv, k@, v@, i as int);
        }
        i = i + 1;
    }
    proof {
        assert(pv.skip(n as int) =~= Seq::<(ValView, ValView)>::empty());
    }
    false
}

fn pairs_in_exec(xs: &Vec<(EdnValue, EdnValue)>, ys: &Vec<(EdnValue, EdnValue)>) -> (r: bool)
    ensures
        r == pairs_in(view_of_pairs(xs@), view_of_pairs(ys@)),
    decreases pair_heights(view_of_pairs(xs@)) + pair_heights(view_of_pairs(ys@)) + 1,
{
    let ghost px = view_of_pairs(xs@);
    let ghost py = view_of_pairs(ys@);
    proof {
        lemma_view_of_pairs(xs@);
        lemma_view_of_pairs(ys@);
        lemma_pairs_in_iff(px, py);
        lemma_pair_heights_bound(px);
    }
    let n = xs.len();
    let mut i: usize = 0;
    while i < n
        invariant
            i <= n,
            n == xs@.len(),
            px == view_of_pairs(xs@) && py == view_of_pairs(ys@),
            px.len() == n,
            forall|j: int| 0 <= j < n ==> #[trigger] px[j] == (xs@[j].0@, xs@[j].1@),
            forall|j: int| 0 <= j < n ==> height(#[trigger] px[j].0) + height(px[j].1)
                <= pair_heights(px),
            pairs_in(px, py) <==> (forall|j: int|
                0 <= j < n ==> pair_in(py, #[trigger] px[j].0, px[j].1)),
            forall|j: int| 0 <= j < i ==> pair_in(py, #[trigger] px[j].0, px[j].1),
        decreases n - i,
    {
        proof {
            assert(px[i as int] == (xs@[i as int].0@, xs@[i as int].1@));
            assert(height(px[i as int].0) + height(px[i as int].1) <= pair_heights(px));
        }
        if !pair_in_exec(ys, &xs[i].0, &xs[i].1) {
            return false;
        }
        i = i + 1;
    }
    true
}

fn elem_in_exec(s: &Vec<EdnValue>, x: &EdnValue) -> (r: bool)
    ensures
        r == elem_in(view_of_vals(s@), x@),
    decreases heights(view_of_vals(s@)) + height(x@) + 1,
{
    let ghost sv = view_of_vals(s@);
    proof {
        lemma_view_of_vals(s@);
        lemma_heights_bound(sv);
        assert(sv.skip(0) =~= sv);
    }
    let n = s.len();
    let mut i: usize = 0;
    while i < n
        invariant
            i <= n,
            n == s@.len(),
            sv == view_of_vals(s@),
            sv.len() == n,
            forall|j: int| 0 <= j < n ==> #[trigger] sv[j] == s@[j]@,
            forall|j: int| 0 <= j < n ==> height(#[trigger] sv[j]) <= heights(sv),
            elem_in(sv, x@) == elem_in(sv.skip(i as int), x@),
        decreases n - i,
    {
        if value_eq(&s[i], x) {
            proof {
                assert(sv.skip(i as int)[0] == sv[i as int]);
            }
            return true;
        }
        proof {
            lemma_elem_in_step(sv, x@, i as int);
        }
        i = i + 1;
    }
    proof {
        assert(sv.skip(n as int) =~= Seq::<ValView>::empty());
    }
    false
}

fn elems_in_exec(xs: &Vec<EdnValue>, ys: &Vec<EdnValue>) -> (r: bool)
    ensures
        r == elems_in(view_of_vals(xs@), view_of_vals(ys@)),
    decreases heights(view_of_vals(xs@)) + heights(view_of_vals(ys@)) + 2,
{
    let ghost vx = view_of_vals(xs@);
    let ghost vy = view_of_vals(ys@);
    proof {
        lemma_view_of_vals(xs@);
        lemma_view_of_vals(ys@);
        lemma_elems_in_iff(vx, vy);
        lemma_heights_bound(vx);
    }
    let n = xs.len();
    let mut i: usize = 0;
    while i < n
        invariant
            i <= n,
            n == xs@.len(),
            vx == view_of_vals(xs@) && vy == view_of_vals(ys@),
            vx.len() == n,
            forall|j: int| 0 <= j < n ==> #[trigger] vx[j] == xs@[j]@,
            forall|j: int| 0 <= j < n ==> height(#[trigger] vx[j]) <= heights(vx),
            elems_in(vx, vy) <==> (forall|j: int| 0 <= j < n ==> elem_in(vy, #[trigger] vx[j])),
            forall|j: int| 0 <= j < i ==> elem_in(vy, #[trigger] vx[j]),
        decreases n - i,
    {
        proof {
            assert(vx[i as int] == xs@[i as int]@);
            assert(height(vx[i as int]) <= heights(vx));
        }
        if !elem_in_exec(ys, &xs[i]) {
            return false;
        }
        i = i + 1;
    }
    true
}

/// Decides ghost view equality (`a@ == b@`): the purely syntactic
/// identity of two values, under which a float's text matters and NaN
/// equals itself. The analyzer's fixed-point test uses this relation.
pub fn same_value(a: &EdnValue, b: &EdnValue) -> (r: bool)
    ensures
        r == (a@ == b@),
    decreases height(a@),
{
    match (a, b) {
        (EdnValue::Nil, EdnValue::Nil) => true,
        (EdnValue::Bool(x), EdnValue::Bool(y)) => *x == *y,
        (EdnValue::String(x), EdnValue::String(y)) => *x == *y,
        (EdnValue::Keyword(x), EdnValue::Keyword(y)) => *x == *y,
        (EdnValue::Symbol(x), EdnValue::Symbol(y)) => *x == *y,
        (EdnValue::Character(x), EdnValue::Character(y)) => *x == *y,
        (EdnValue::Integer(x), EdnValue::Integer(y)) => *x == *y,
        (
            EdnValue::Float { bits: x, text: tx },
            EdnValue::Float { bits: y, text: ty },
        ) => *x == *y && *tx == *ty,
        (EdnValue::Vector(xs), EdnValue::Vector(ys)) => same_values(xs, ys),
        (EdnValue::List(xs), EdnValue::List(ys)) => same_values(xs, ys),
        (EdnValue::MapV(xs), EdnValue::MapV(ys)) => same_pairs(xs, ys),
        (EdnValue::SetV(xs), EdnValue::SetV(ys)) => same_values(xs, ys),
        (
            EdnValue::Tagged { tag: t1, value: v1 },
            EdnValue::Tagged { tag: t2, value: v2 },
        ) => *t1 == *t2 && same_value(v1, v2),
        (
            EdnValue::WithMetadata { metadata: m1, value: v1 },
            EdnValue::WithMetadata { metadata: m2, value: v2 },
        ) => same_value(m1, m2) && same_value(v1, v2),
        (EdnValue::Instant(x), EdnValue::Instant(y)) => *x == *y,
        (EdnValue::Uuid(x), EdnValue::Uuid(y)) => *x == *y,
        (
            EdnValue::Lambda { params: p1, body: b1 },
            EdnValue::Lambda { params: p2, body: b2 },
        ) => strings_eq(p1, p2) && same_value(b1, b2),
        _ => false,
    }
}

/// Decides view equality of two value sequences.
pub fn same_values(xs: &Vec<EdnValue>, ys: &Vec<EdnValue>) -> (r: bool)
    ensures
        r == (view_of_vals(xs@) == view_of_vals(ys@)),
    decreases heights(view_of_vals(xs@)) + 1,
{
    let ghost vx = view_of_vals(xs@);
    let ghost vy = view_of_vals(ys@);
    proof {
        lemma_view_of_vals(xs@);
        lemma_view_of_vals(ys@);
        lemma_heights_bound(vx);
    }
    if xs.len() != ys.len() {
        return false;
    }
    let n = xs.len();
    let mut i: usize = 0;
    while i < n
        invariant
            i <= n,
            n == xs@.len() == ys@.len(),
            vx == view_of_vals(xs@) && vy == view_of_vals(ys@),
            vx.len() == n && vy.len() == n,
            forall|j: int| 0 <= j < n ==> #[trigger] vx[j] == xs@[j]@ && vy[j] == ys@[j]@,
            forall|j: int| 0 <= j < n ==> height(#[trigger] vx[j]) <= heights(vx),
            forall|j: int| 0 <= j < i ==> #[trigger] vx[j] == vy[j],
        decreases n - i,
    {
        proof {
            assert(vx[i as int] == xs@[i as int]@);
            assert(height(vx[i as int]) <= heights(vx));
        }
        if !same_value(&xs[i], &ys[i]) {
            proof {
                assert(vx[i as int] != vy[i as int]);
            }
            return false;
        }
        i = i + 1;
    }
    proof {
        assert(vx =~= vy);
    }
    true
}

/// Decides view equality of two entry sequences.
fn same_pairs(xs: &Vec<(EdnValue, EdnValue)>, ys: &Vec<(EdnValue, EdnValue)>) -> (r: bool)
    ensures
        r == (view_of_pairs(xs@) == view_of_pairs(ys@)),
    decreases pair_heights(view_of_pairs(xs@)) + 1,
{
    let ghost px = view_of_pairs(xs@);
    let ghost py = view_of_pairs(ys@);
    proof {
        lemma_view_of_pairs(xs@);
        lemma_view_of_pairs(ys@);
        lemma_pair_heights_bound(px);
    }
    if xs.len() != ys.len() {
        return false;
    }
    let n = xs.len();
    let mut i: usize = 0;
    while i < n
        invariant
            i <= n,
            n == xs@.len() == ys@.len(),
            px == view_of_pairs(xs@) && py == view_of_pairs(ys@),
            px.len() == n && py.len() == n,
            forall|j: int| 0 <= j < n ==> #[trigger] px[j] == (xs@[j].0@, xs@[j].1@) && py[j] == (
                ys@[j].0@,
                ys@[j].1@,
            ),
            forall|j: int| 0 <= j < n ==> height(#[trigger] px[j].0) + height(px[j].1)
                <= pair_heights(px),
            forall|j: int| 0 <= j < i ==> #[trigger] px[j] == py[j],
        decreases n - i,
    {
        proof {
            assert(px[i as int] == (xs@[i as int].0@, xs@[i as int].1@));
            assert(height(px[i as int].0) + height(px[i as int].1) <= pair_heights(px));
        }
        if !same_value(&xs[i].0, &ys[i].0) {
            proof {
                assert(px[i as int].0 != py[i as int].0);
            }
            return false;
        }
        if !same_value(&xs[i].1, &ys[i].1) {
            proof {
                assert(px[i as int].1 != py[i as int].1);
            }
            return false;
        }
        i = i + 1;
    }
    proof {
        assert(px =~= py);
    }
    true
}

/// Finds the first entry of `ps` whose key is `val_eq` to `k`, as an
/// index; `lookup_pairs` describes the value found.
pub fn lookup_index(ps: &Vec<(EdnValue, EdnValue)>, k: &EdnValue) -> (r: Option<usize>)
    ensures
        match r {
            Option::Some(i) => i < ps@.len() && lookup_pairs(view_of_pairs(ps@), k@)
                == Option::Some(ps@[i as int].1@) && val_eq(ps@[i as int].0@, k@) && forall|j: int|
                0 <= j < i ==> !val_eq(#[trigger] view_of_pairs(ps@)[j].0, k@),
            Option::None => lookup_pairs(view_of_pairs(ps@), k@) is None && forall|j: int|
                0 <= j < ps@.len() ==> !val_eq(#[trigger] view_of_pairs(ps@)[j].0, k@),
        },
{
    let ghost pv = view_of_pairs(ps@);
    proof {
        lemma_view_of_pairs(ps@);
        assert(pv.skip(0) =~= pv);
    }
    let n = ps.len();
    let mut i: usize = 0;
    while i < n
        invariant
            i <= n,
            n == ps@.len(),
            pv == view_of_pairs(ps@),
            pv.len() == n,
            forall|j: int| 0 <= j < n ==> #[trigger] pv[j] == (ps@[j].0@, ps@[j].1@),
            lookup_pairs(pv, k@) == lookup_pairs(pv.skip(i as int), k@),
            forall|j: int| 0 <= j < i ==> !val_eq(#[trigger] pv[j].0, k@),
        decreases n - i,
    {
        if value_eq(&ps[i].0, k) {
            proof {
                assert(pv.skip(i as int)[0] == pv[i as int]);
            }
            return Option::Some(i);
        }
        proof {
            lemma_lookup_step(pv, k@, i as int);
        }
        i = i + 1;
    }
    proof {
        assert(pv.skip(n as int) =~= Seq::<(ValView, ValView)>::empty());
    }
    Option::None
}

/// Finds the first element of `s` that is `val_eq` to `x`, as an index.
pub fn elem_index(s: &Vec<EdnValue>, x: &EdnValue) -> (r: Option<usize>)
    ensures
        match r {
            Option::Some(i) => i < s@.len() && elem_in(view_of_vals(s@), x@) && val_eq(
                s@[i as int]@,
                x@,
            ),
            Option::None => !elem_in(view_of_vals(s@), x@),
        },
{
    let ghost sv = view_of_vals(s@);
    proof {
        lemma_view_of_vals(s@);
        assert(sv.skip(0) =~= sv);
    }
    let n = s.len();
    let mut i: usize = 0;
    while i < n
        invariant
            i <= n,
            n == s@.len(),
            sv == view_of_vals(s@),
            sv.len() == n,
            forall|j: int| 0 <= j < n ==> #[trigger] sv[j] == s@[j]@,
            elem_in(sv, x@) == elem_in(sv.skip(i as int), x@),
        decreases n - i,
    {
        if value_eq(&s[i], x) {
            proof {
                assert(sv.skip(i as int)[0] == sv[i as int]);
            }
            return Option::Some(i);
        }
        proof {
            lemma_elem_in_step(sv, x@, i as int);
        }
        i = i + 1;
    }
    proof {
        assert(sv.skip(n as int) =~= Seq::<ValView>::empty());
    }
    Option::None
}

} // verus!
