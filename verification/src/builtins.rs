//! The builtin functions: eager, pure functions over already-evaluated
//! arguments. Each has a specification-level counterpart over ghost
//! views, and the executable function is proved to return exactly what
//! the counterpart says — including which error it reports, and on
//! which inputs it reports one.
//!
//! Deliberately permissive builtins (missing keys, out-of-range
//! indices, non-collection receivers) resolve to nil / empty / false;
//! arity mistakes are query errors, and operand-shape mistakes
//! (a non-integer count, incomparable comparison operands) are type
//! errors.

use vstd::prelude::*;
use crate::error::{EqError, EqResult, ErrKind};
use crate::value::{
    EdnValue, ValView, view_of_vals, view_of_pairs, lemma_view_of_vals, lemma_view_of_pairs,
    iter_items, count_of, assoc_get, get_in_path, first_item, last_item, rest_of, take_of,
    drop_of, keys_of, values_of, copy_vals,
};
use crate::eq::{
    val_eq, elem_in, lookup_pairs, lookup_index, elem_index, value_eq, height, heights,
    pair_heights, lemma_heights_bound, lemma_pair_heights_bound,
};
use crate::float_bits::{f64_cmp, f64_cmp_exec, f64_bits_of_i64, f64_bits_of_i64_exec};

verus! {

/// How an executable result relates to its spec counterpart: the same
/// success value (by view), or a failure of the same kind.
pub open spec fn res_like(r: EqResult<EdnValue>, s: Result<ValView, ErrKind>) -> bool {
    match r {
        Result::Ok(v) => s is Ok && v@ == s->Ok_0,
        Result::Err(e) => s is Err && e.kind() == s->Err_0,
    }
}

/// Lexicographic comparison of two character sequences by code point:
/// -1, 0 or 1.
pub open spec fn str_lex(a: Seq<char>, b: Seq<char>) -> int
    decreases a.len(),
{
    if a.len() == 0 && b.len() == 0 {
        0
    } else if a.len() == 0 {
        -1
    } else if b.len() == 0 {
        1
    } else if (a[0] as u32) < (b[0] as u32) {
        -1
    } else if (a[0] as u32) > (b[0] as u32) {
        1
    } else {
        str_lex(a.drop_first(), b.drop_first())
    }
}

/// Three-way ordering of two values: integers and floats compare
/// numerically (a mixed pair promotes the integer to a double first),
/// strings compare lexicographically, and any other pairing is a type
/// error.
pub open spec fn spec_cmp(a: ValView, b: ValView) -> Result<int, ErrKind> {
    match (a, b) {
        (ValView::Integer(x), ValView::Integer(y)) => Result::Ok(
            if x < y {
                -1int
            } else if x > y {
                1int
            } else {
                0int
            },
        ),
        (ValView::Float { bits: x, .. }, ValView::Float { bits: y, .. }) => Result::Ok(
            f64_cmp(x, y),
        ),
        (ValView::Integer(x), ValView::Float { bits: y, .. }) => Result::Ok(
            f64_cmp(f64_bits_of_i64(x), y),
        ),
        (ValView::Float { bits: x, .. }, ValView::Integer(y)) => Result::Ok(
            f64_cmp(x, f64_bits_of_i64(y)),
        ),
        (ValView::Str(x), ValView::Str(y)) => Result::Ok(str_lex(x, y)),
        _ => Result::Err(ErrKind::Type),
    }
}

/// The comparison operators that chain over their arguments.
#[derive(Debug, Clone, Copy, PartialEq, Eq, Structural)]
pub enum CmpOp {
    Less,
    Greater,
    LessEq,
    GreaterEq,
}

/// Whether a three-way comparison outcome satisfies the operator.
pub open spec fn op_holds(op: CmpOp, c: int) -> bool {
    match op {
        CmpOp::Less => c < 0,
        CmpOp::Greater => c > 0,
        CmpOp::LessEq => c <= 0,
        CmpOp::GreaterEq => c >= 0,
    }
}

/// N-ary chain semantics: `(< a b c)` asks a<b and b<c in turn; zero or
/// one argument is vacuously true; the chain stops at the first pair
/// that fails the operator, and a type error in a pair that is reached
/// aborts the whole chain.
pub open spec fn spec_chain(op: CmpOp, args: Seq<ValView>) -> Result<bool, ErrKind>
    decreases args.len(),
{
    if args.len() <= 1 {
        Result::Ok(true)
    } else {
        match spec_cmp(args[0], args[1]) {
            Result::Err(k) => Result::Err(k),
            Result::Ok(c) => if !op_holds(op, c) {
                Result::Ok(false)
            } else {
                spec_chain(op, args.drop_first())
            },
        }
    }
}

/// Compares two character sequences by code point.
fn str_cmp(x: &String, y: &String) -> (r: i32)
    ensures
        r == str_lex(x@, y@),
{
    let xs = x.as_str();
    let ys = y.as_str();
    let xn = xs.unicode_len();
    let yn = ys.unicode_len();
    let mut i: usize = 0;
    proof {
        assert(x@.skip(0) =~= x@);
        assert(y@.skip(0) =~= y@);
    }
    while i < xn || i < yn
        invariant
            i <= xn,
            i <= yn,
            xn == x@.len(),
            yn == y@.len(),
            xs@ == x@,
            ys@ == y@,
            str_lex(x@, y@) == str_lex(x@.skip(i as int), y@.skip(i as int)),
            forall|j: int| 0 <= j < i ==> x@[j] == y@[j],
        decreases xn + yn - 2 * i,
    {
        if i >= xn {
            proof {
                assert(x@.skip(i as int).len() == 0);
                assert(y@.skip(i as int).len() > 0);
            }
            return -1;
        }
        if i >= yn {
            return 1;
        }
        let cx = xs.get_char(i);
        let cy = ys.get_char(i);
        proof {
            assert(x@.skip(i as int)[0] == x@[i as int]);
            assert(y@.skip(i as int)[0] == y@[i as int]);
        }
        if (cx as u32) < (cy as u32) {
            return -1;
        }
        if (cx as u32) > (cy as u32) {
            return 1;
        }
        proof {
            assert(x@.skip(i as int).drop_first() =~= x@.skip(i as int + 1));
            assert(y@.skip(i as int).drop_first() =~= y@.skip(i as int + 1));
        }
        i = i + 1;
    }
    proof {
        assert(x@.skip(i as int).len() == 0);
        assert(y@.skip(i as int).len() == 0);
    }
    0
}

/// Orders two values as `spec_cmp` says, or reports the type error.
pub fn compare_values(left: &EdnValue, right: &EdnValue) -> (r: EqResult<i32>)
    ensures
        match spec_cmp(left@, right@) {
            Result::Ok(c) => r is Ok && r->Ok_0 == c,
            Result::Err(k) => r is Err && r->Err_0.kind() == k,
        },
{
    match (left, right) {
        (EdnValue::Integer(x), EdnValue::Integer(y)) => Result::Ok(
            if *x < *y {
                -1
            } else if *x > *y {
                1
            } else {
                0
            },
        ),
        (
            EdnValue::Float { bits: x, .. },
            EdnValue::Float { bits: y, .. },
        ) => Result::Ok(f64_cmp_exec(*x, *y)),
        (EdnValue::Integer(x), EdnValue::Float { bits: y, .. }) => Result::Ok(
            f64_cmp_exec(f64_bits_of_i64_exec(*x), *y),
        ),
        (EdnValue::Float { bits: x, .. }, EdnValue::Integer(y)) => Result::Ok(
            f64_cmp_exec(*x, f64_bits_of_i64_exec(*y)),
        ),
        (EdnValue::String(x), EdnValue::String(y)) => Result::Ok(str_cmp(x, y)),
        _ => Result::Err(
            EqError::type_error("comparable types", left.kind_name()),
        ),
    }
}

/// One comparison chain builtin (`<`, `>`, `<=`, `>=`).
pub fn builtin_compare_chain(op: CmpOp, args: &Vec<EdnValue>) -> (r: EqResult<EdnValue>)
    ensures
        match spec_chain(op, view_of_vals(args@)) {
            Result::Ok(b) => r is Ok && r->Ok_0@ == ValView::Bool(b),
            Result::Err(k) => r is Err && r->Err_0.kind() == k,
        },
{
    let ghost av = view_of_vals(args@);
    proof {
        lemma_view_of_vals(args@);
        assert(av.skip(0) =~= av);
    }
    let n = args.len();
    if n <= 1 {
        return Result::Ok(EdnValue::Bool(true));
    }
    let mut i: usize = 0;
    while i < n - 1
        invariant
            i <= n - 1,
            n == args@.len(),
            n >= 2,
            av == view_of_vals(args@),
            av.len() == n,
            forall|j: int| 0 <= j < n ==> #[trigger] av[j] == args@[j]@,
            spec_chain(op, av) == spec_chain(op, av.skip(i as int)),
        decreases n - i,
    {
        proof {
            assert(av.skip(i as int)[0] == av[i as int]);
            assert(av.skip(i as int)[1] == av[i as int + 1]);
            assert(av.skip(i as int).drop_first() =~= av.skip(i as int + 1));
        }
        let c = match compare_values(&args[i], &args[i + 1]) {
            Result::Ok(c) => c,
            Result::Err(e) => {
                return Result::Err(e);
            },
        };
        let holds = match op {
            CmpOp::Less => c < 0,
            CmpOp::Greater => c > 0,
            CmpOp::LessEq => c <= 0,
            CmpOp::GreaterEq => c >= 0,
        };
        if !holds {
            return Result::Ok(EdnValue::Bool(false));
        }
        i = i + 1;
    }
    proof {
        assert(av.skip(i as int).len() <= 1);
    }
    Result::Ok(EdnValue::Bool(true))
}

/// A lookup result, with a miss resolved to nil.
pub open spec fn or_nil(o: Option<ValView>) -> ValView {
    match o {
        Option::Some(v) => v,
        Option::None => ValView::Nil,
    }
}

/// The element count used by `count`: uncounted values count as 0.
pub open spec fn count_or_zero(v: ValView) -> nat {
    match count_of(v) {
        Option::Some(n) => n,
        Option::None => 0,
    }
}

/// All arguments behind the first are equal to it.
pub open spec fn all_equal(args: Seq<ValView>) -> bool {
    forall|j: int| 1 <= j < args.len() ==> val_eq(#[trigger] args[j], args[0])
}

/// The entries of `ps` whose key occurs in `ks`, in `ps` order.
pub open spec fn filtered_pairs(ps: Seq<(ValView, ValView)>, ks: Seq<ValView>) -> Seq<
    (ValView, ValView),
>
    decreases ps.len(),
{
    if ps.len() == 0 {
        Seq::empty()
    } else {
        filtered_pairs(ps.drop_last(), ks) + (if elem_in(ks, ps.last().0) {
            seq![ps.last()]
        } else {
            Seq::empty()
        })
    }
}

/// A count incremented; the count saturates at the integer maximum.
pub open spec fn inc_count(n: i64) -> i64 {
    if n == i64::MAX {
        n
    } else {
        (n + 1) as i64
    }
}

/// One element tallied into a frequency table: the first entry whose
/// key equals `x` has its integer count bumped in place; with no such
/// entry, `(x, 1)` is appended.
pub open spec fn bump(ps: Seq<(ValView, ValView)>, x: ValView) -> Seq<(ValView, ValView)>
    decreases ps.len(),
{
    if ps.len() == 0 {
        Seq::empty().push((x, ValView::Integer(1)))
    } else if val_eq(ps[0].0, x) {
        match ps[0].1 {
            ValView::Integer(n) => seq![(ps[0].0, ValView::Integer(inc_count(n)))]
                + ps.drop_first(),
            _ => ps,
        }
    } else {
        seq![ps[0]] + bump(ps.drop_first(), x)
    }
}

/// The frequency table of a sequence of elements: distinct element to
/// occurrence count, ordered by first occurrence.
pub open spec fn spec_freq(items: Seq<ValView>) -> Seq<(ValView, ValView)>
    decreases items.len(),
{
    if items.len() == 0 {
        Seq::empty()
    } else {
        bump(spec_freq(items.drop_last()), items.last())
    }
}

/// What each regular builtin returns, as a function of its evaluated
/// arguments. The three higher-order builtins (`map`, `remove`,
/// `select`) apply lambdas and are specified with the evaluator.
pub open spec fn spec_builtin(id: crate::registry::BuiltinId, args: Seq<ValView>) -> Result<
    ValView,
    ErrKind,
> {
    match id {
        crate::registry::BuiltinId::Get => if args.len() != 2 {
            Result::Err(ErrKind::Query)
        } else {
            Result::Ok(or_nil(assoc_get(args[0], args[1])))
        },
        crate::registry::BuiltinId::GetIn => if args.len() != 2 {
            Result::Err(ErrKind::Query)
        } else {
            match args[1] {
                ValView::Vector(path) => Result::Ok(or_nil(get_in_path(args[0], path))),
                _ => Result::Err(ErrKind::Type),
            }
        },
        crate::registry::BuiltinId::First => if args.len() != 1 {
            Result::Err(ErrKind::Query)
        } else {
            Result::Ok(or_nil(first_item(args[0])))
        },
        crate::registry::BuiltinId::Last => if args.len() != 1 {
            Result::Err(ErrKind::Query)
        } else {
            Result::Ok(or_nil(last_item(args[0])))
        },
        crate::registry::BuiltinId::Rest => if args.len() != 1 {
            Result::Err(ErrKind::Query)
        } else {
            Result::Ok(rest_of(args[0]))
        },
        crate::registry::BuiltinId::Take => if args.len() != 2 {
            Result::Err(ErrKind::Query)
        } else {
            match args[0] {
                ValView::Integer(n) => if n < 0 {
                    Result::Ok(ValView::Vector(Seq::empty()))
                } else {
                    Result::Ok(take_of(args[1], n as u64))
                },
                _ => Result::Err(ErrKind::Type),
            }
        },
        crate::registry::BuiltinId::Drop => if args.len() != 2 {
            Result::Err(ErrKind::Query)
        } else {
            match args[0] {
                ValView::Integer(n) => if n < 0 {
                    Result::Ok(args[1])
                } else {
                    Result::Ok(drop_of(args[1], n as u64))
                },
                _ => Result::Err(ErrKind::Type),
            }
        },
        crate::registry::BuiltinId::Nth => if args.len() != 2 {
            Result::Err(ErrKind::Query)
        } else {
            match args[1] {
                ValView::Integer(_) => Result::Ok(or_nil(assoc_get(args[0], args[1]))),
                _ => Result::Err(ErrKind::Type),
            }
        },
        crate::registry::BuiltinId::Count => if args.len() != 1 {
            Result::Err(ErrKind::Query)
        } else {
            Result::Ok(ValView::Integer(count_or_zero(args[0]) as i64))
        },
        crate::registry::BuiltinId::Keys => if args.len() != 1 {
            Result::Err(ErrKind::Query)
        } else {
            match args[0] {
                ValView::MapV(pairs) => Result::Ok(ValView::Vector(keys_of(pairs))),
                _ => Result::Ok(ValView::Vector(Seq::empty())),
            }
        },
        crate::registry::BuiltinId::Vals => if args.len() != 1 {
            Result::Err(ErrKind::Query)
        } else {
            match args[0] {
                ValView::MapV(pairs) => Result::Ok(ValView::Vector(values_of(pairs))),
                _ => Result::Ok(ValView::Vector(Seq::empty())),
            }
        },
        crate::registry::BuiltinId::IsNil => if args.len() != 1 {
            Result::Err(ErrKind::Query)
        } else {
            Result::Ok(ValView::Bool(args[0] is Nil))
        },
        crate::registry::BuiltinId::IsEmpty => if args.len() != 1 {
            Result::Err(ErrKind::Query)
        } else {
            Result::Ok(ValView::Bool(count_of(args[0]) == Option::Some(0nat)))
        },
        crate::registry::BuiltinId::Contains => if args.len() != 2 {
            Result::Err(ErrKind::Query)
        } else {
            match args[0] {
                ValView::SetV(items) => Result::Ok(ValView::Bool(elem_in(items, args[1]))),
                _ => Result::Ok(ValView::Bool(assoc_get(args[0], args[1]) is Some)),
            }
        },
        crate::registry::BuiltinId::IsNumber => if args.len() != 1 {
            Result::Err(ErrKind::Query)
        } else {
            Result::Ok(ValView::Bool(args[0] is Integer || args[0] is Float))
        },
        crate::registry::BuiltinId::IsString => if args.len() != 1 {
            Result::Err(ErrKind::Query)
        } else {
            Result::Ok(ValView::Bool(args[0] is Str))
        },
        crate::registry::BuiltinId::IsKeyword => if args.len() != 1 {
            Result::Err(ErrKind::Query)
        } else {
            Result::Ok(ValView::Bool(args[0] is Keyword))
        },
        crate::registry::BuiltinId::IsBoolean => if args.len() != 1 {
            Result::Err(ErrKind::Query)
        } else {
            Result::Ok(ValView::Bool(args[0] is Bool))
        },
        crate::registry::BuiltinId::Equal => Result::Ok(
            ValView::Bool(args.len() <= 1 || all_equal(args)),
        ),
        crate::registry::BuiltinId::Less => match spec_chain(CmpOp::Less, args) {
            Result::Ok(b) => Result::Ok(ValView::Bool(b)),
            Result::Err(k) => Result::Err(k),
        },
        crate::registry::BuiltinId::Greater => match spec_chain(CmpOp::Greater, args) {
            Result::Ok(b) => Result::Ok(ValView::Bool(b)),
            Result::Err(k) => Result::Err(k),
        },
        crate::registry::BuiltinId::LessEq => match spec_chain(CmpOp::LessEq, args) {
            Result::Ok(b) => Result::Ok(ValView::Bool(b)),
            Result::Err(k) => Result::Err(k),
        },
        crate::registry::BuiltinId::GreaterEq => match spec_chain(CmpOp::GreaterEq, args) {
            Result::Ok(b) => Result::Ok(ValView::Bool(b)),
            Result::Err(k) => Result::Err(k),
        },
        crate::registry::BuiltinId::SelectKeys => if args.len() != 2 {
            Result::Err(ErrKind::Query)
        } else {
            match args[1] {
                ValView::Vector(ks) => match args[0] {
                    ValView::MapV(ps) => Result::Ok(ValView::MapV(filtered_pairs(ps, ks))),
                    _ => Result::Ok(ValView::MapV(Seq::empty())),
                },
                ValView::List(ks) => match args[0] {
                    ValView::MapV(ps) => Result::Ok(ValView::MapV(filtered_pairs(ps, ks))),
                    _ => Result::Ok(ValView::MapV(Seq::empty())),
                },
                _ => Result::Err(ErrKind::Type),
            }
        },
        crate::registry::BuiltinId::Frequencies => if args.len() != 1 {
            Result::Err(ErrKind::Query)
        } else {
            Result::Ok(ValView::MapV(spec_freq(iter_items(args[0]))))
        },
        _ => Result::Err(ErrKind::Query),
    }
}

/// Copies out the sequence a value yields under iteration.
pub fn iter_values_vec(v: &EdnValue) -> (r: Vec<EdnValue>)
    ensures
        view_of_vals(r@) == iter_items(v@),
    decreases height(v@),
{
    match v {
        EdnValue::Vector(items) => copy_vals(items),
        EdnValue::List(items) => copy_vals(items),
        EdnValue::SetV(items) => copy_vals(items),
        EdnValue::MapV(pairs) => {
            let ghost pv = view_of_pairs(pairs@);
            proof {
                lemma_view_of_pairs(pairs@);
                lemma_pair_heights_bound(pv);
            }
            let n = pairs.len();
            let mut out: Vec<EdnValue> = Vec::new();
            let mut i: usize = 0;
            while i < n
                invariant
                    i <= n,
                    n == pairs@.len(),
                    pv == view_of_pairs(pairs@),
                    pv.len() == n,
                    forall|j: int| 0 <= j < n ==> #[trigger] pv[j] == (pairs@[j].0@, pairs@[j].1@),
                    forall|j: int| 0 <= j < n ==> height(#[trigger] pv[j].0) + height(pv[j].1)
                        <= pair_heights(pv),
                    out@.len() == i,
                    forall|j: int| 0 <= j < i ==> #[trigger] out@[j]@ == pv[j].1,
                decreases n - i,
            {
                proof {
                    assert(pv[i as int] == (pairs@[i as int].0@, pairs@[i as int].1@));
                    assert(height(pv[i as int].0) + height(pv[i as int].1) <= pair_heights(pv));
                }
                out.push(pairs[i].1.deep_copy());
                i = i + 1;
            }
            proof {
                lemma_view_of_vals(out@);
                assert forall|j: int| 0 <= j < n implies view_of_vals(out@)[j] == values_of(pv)[j]
                    by {
                    assert(values_of(pv)[j] == pv[j].1);
                    assert(view_of_vals(out@)[j] == out@[j]@);
                }
                assert(view_of_vals(out@) =~= values_of(pv));
            }
            out
        },
        EdnValue::WithMetadata { metadata, value } => iter_values_vec(value),
        _ => {
            let out: Vec<EdnValue> = Vec::new();
            proof {
                lemma_view_of_vals(out@);
                assert(view_of_vals(out@) =~= Seq::<ValView>::empty());
            }
            out
        },
    }
}

/// An empty vector value, with its view pinned down.
fn empty_vector() -> (r: EdnValue)
    ensures
        r@ == ValView::Vector(Seq::<ValView>::empty()),
{
    let out: Vec<EdnValue> = Vec::new();
    proof {
        lemma_view_of_vals(out@);
        assert(view_of_vals(out@) =~= Seq::<ValView>::empty());
    }
    EdnValue::Vector(out)
}

/// An empty map value, with its view pinned down.
fn empty_map() -> (r: EdnValue)
    ensures
        r@ == ValView::MapV(Seq::<(ValView, ValView)>::empty()),
{
    let out: Vec<(EdnValue, EdnValue)> = Vec::new();
    proof {
        lemma_view_of_pairs(out@);
        assert(view_of_pairs(out@) =~= Seq::<(ValView, ValView)>::empty());
    }
    EdnValue::MapV(out)
}

pub fn builtin_get(args: &Vec<EdnValue>) -> (r: EqResult<EdnValue>)
    ensures
        res_like(r, spec_builtin(crate::registry::BuiltinId::Get, view_of_vals(args@))),
{
    proof {
        lemma_view_of_vals(args@);
    }
    if args.len() != 2 {
        return Result::Err(EqError::query_error("get expects exactly 2 arguments"));
    }
    match args[0].get(&args[1]) {
        Option::Some(found) => Result::Ok(found.deep_copy()),
        Option::None => Result::Ok(EdnValue::Nil),
    }
}

pub fn builtin_get_in(args: &Vec<EdnValue>) -> (r: EqResult<EdnValue>)
    ensures
        res_like(r, spec_builtin(crate::registry::BuiltinId::GetIn, view_of_vals(args@))),
{
    proof {
        lemma_view_of_vals(args@);
    }
    if args.len() != 2 {
        return Result::Err(EqError::query_error("get-in expects exactly 2 arguments"));
    }
    match &args[1] {
        EdnValue::Vector(path) => match args[0].get_in(path) {
            Option::Some(found) => Result::Ok(found.deep_copy()),
            Option::None => Result::Ok(EdnValue::Nil),
        },
        _ => Result::Err(EqError::type_error("vector", args[1].kind_name())),
    }
}

pub fn builtin_first(args: &Vec<EdnValue>) -> (r: EqResult<EdnValue>)
    ensures
        res_like(r, spec_builtin(crate::registry::BuiltinId::First, view_of_vals(args@))),
{
    proof {
        lemma_view_of_vals(args@);
    }
    if args.len() != 1 {
        return Result::Err(EqError::query_error("first expects exactly 1 argument"));
    }
    match args[0].first() {
        Option::Some(found) => Result::Ok(found.deep_copy()),
        Option::None => Result::Ok(EdnValue::Nil),
    }
}

pub fn builtin_last(args: &Vec<EdnValue>) -> (r: EqResult<EdnValue>)
    ensures
        res_like(r, spec_builtin(crate::registry::BuiltinId::Last, view_of_vals(args@))),
{
    proof {
        lemma_view_of_vals(args@);
    }
    if args.len() != 1 {
        return Result::Err(EqError::query_error("last expects exactly 1 argument"));
    }
    match args[0].last() {
        Option::Some(found) => Result::Ok(found.deep_copy()),
        Option::None => Result::Ok(EdnValue::Nil),
    }
}

pub fn builtin_rest(args: &Vec<EdnValue>) -> (r: EqResult<EdnValue>)
    ensures
        res_like(r, spec_builtin(crate::registry::BuiltinId::Rest, view_of_vals(args@))),
{
    proof {
        lemma_view_of_vals(args@);
    }
    if args.len() != 1 {
        return Result::Err(EqError::query_error("rest expects exactly 1 argument"));
    }
    Result::Ok(args[0].rest())
}

pub fn builtin_take(args: &Vec<EdnValue>) -> (r: EqResult<EdnValue>)
    ensures
        res_like(r, spec_builtin(crate::registry::BuiltinId::Take, view_of_vals(args@))),
{
    proof {
        lemma_view_of_vals(args@);
    }
    if args.len() != 2 {
        return Result::Err(EqError::query_error("take expects exactly 2 arguments"));
    }
    match &args[0] {
        EdnValue::Integer(count) => {
            if *count < 0 {
                Result::Ok(empty_vector())
            } else {
                Result::Ok(args[1].take(*count as u64))
            }
        },
        _ => Result::Err(EqError::type_error("integer", args[0].kind_name())),
    }
}

pub fn builtin_drop(args: &Vec<EdnValue>) -> (r: EqResult<EdnValue>)
    ensures
        res_like(r, spec_builtin(crate::registry::BuiltinId::Drop, view_of_vals(args@))),
{
    proof {
        lemma_view_of_vals(args@);
    }
    if args.len() != 2 {
        return Result::Err(EqError::query_error("drop expects exactly 2 arguments"));
    }
    match &args[0] {
        EdnValue::Integer(count) => {
            if *count < 0 {
                Result::Ok(args[1].deep_copy())
            } else {
                Result::Ok(args[1].drop(*count as u64))
            }
        },
        _ => Result::Err(EqError::type_error("integer", args[0].kind_name())),
    }
}

pub fn builtin_nth(args: &Vec<EdnValue>) -> (r: EqResult<EdnValue>)
    ensures
        res_like(r, spec_builtin(crate::registry::BuiltinId::Nth, view_of_vals(args@))),
{
    proof {
        lemma_view_of_vals(args@);
    }
    if args.len() != 2 {
        return Result::Err(EqError::query_error("nth expects exactly 2 arguments"));
    }
    match &args[1] {
        EdnValue::Integer(_) => match args[0].get(&args[1]) {
            Option::Some(found) => Result::Ok(found.deep_copy()),
            Option::None => Result::Ok(EdnValue::Nil),
        },
        _ => Result::Err(EqError::type_error("integer", args[1].kind_name())),
    }
}

pub fn builtin_count(args: &Vec<EdnValue>) -> (r: EqResult<EdnValue>)
    ensures
        res_like(r, spec_builtin(crate::registry::BuiltinId::Count, view_of_vals(args@))),
{
    proof {
        lemma_view_of_vals(args@);
    }
    if args.len() != 1 {
        return Result::Err(EqError::query_error("count expects exactly 1 argument"));
    }
    match args[0].count() {
        Option::Some(n) => Result::Ok(EdnValue::Integer(n as i64)),
        Option::None => Result::Ok(EdnValue::Integer(0)),
    }
}

pub fn builtin_keys(args: &Vec<EdnValue>) -> (r: EqResult<EdnValue>)
    ensures
        res_like(r, spec_builtin(crate::registry::BuiltinId::Keys, view_of_vals(args@))),
{
    proof {
        lemma_view_of_vals(args@);
    }
    if args.len() != 1 {
        return Result::Err(EqError::query_error("keys expects exactly 1 argument"));
    }
    match &args[0] {
        EdnValue::MapV(pairs) => Result::Ok(EdnValue::Vector(extract_pairs(pairs, true))),
        _ => Result::Ok(empty_vector()),
    }
}

pub fn builtin_vals(args: &Vec<EdnValue>) -> (r: EqResult<EdnValue>)
    ensures
        res_like(r, spec_builtin(crate::registry::BuiltinId::Vals, view_of_vals(args@))),
{
    proof {
        lemma_view_of_vals(args@);
    }
    if args.len() != 1 {
        return Result::Err(EqError::query_error("vals expects exactly 1 argument"));
    }
    match &args[0] {
        EdnValue::MapV(pairs) => Result::Ok(EdnValue::Vector(extract_pairs(pairs, false))),
        _ => Result::Ok(empty_vector()),
    }
}

/// The keys (or the values) of an entry list, in order, as copies.
fn extract_pairs(pairs: &Vec<(EdnValue, EdnValue)>, want_keys: bool) -> (r: Vec<EdnValue>)
    ensures
        want_keys ==> view_of_vals(r@) == keys_of(view_of_pairs(pairs@)),
        !want_keys ==> view_of_vals(r@) == values_of(view_of_pairs(pairs@)),
{
    let ghost pv = view_of_pairs(pairs@);
    proof {
        lemma_view_of_pairs(pairs@);
        lemma_pair_heights_bound(pv);
    }
    let n = pairs.len();
    let mut out: Vec<EdnValue> = Vec::new();
    let mut i: usize = 0;
    while i < n
        invariant
            i <= n,
            n == pairs@.len(),
            pv == view_of_pairs(pairs@),
            pv.len() == n,
            forall|j: int| 0 <= j < n ==> #[trigger] pv[j] == (pairs@[j].0@, pairs@[j].1@),
            forall|j: int| 0 <= j < n ==> height(#[trigger] pv[j].0) + height(pv[j].1)
                <= pair_heights(pv),
            out@.len() == i,
            forall|j: int| 0 <= j < i ==> #[trigger] out@[j]@ == (if want_keys {
                pv[j].0
            } else {
                pv[j].1
            }),
        decreases n - i,
    {
        proof {
            assert(pv[i as int] == (pairs@[i as int].0@, pairs@[i as int].1@));
            assert(height(pv[i as int].0) + height(pv[i as int].1) <= pair_heights(pv));
        }
        if want_keys {
            out.push(pairs[i].0.deep_copy());
        } else {
            out.push(pairs[i].1.deep_copy());
        }
        i = i + 1;
    }
    proof {
        lemma_view_of_vals(out@);
        if want_keys {
            assert forall|j: int| 0 <= j < n implies view_of_vals(out@)[j] == keys_of(pv)[j] by {
                assert(keys_of(pv)[j] == pv[j].0);
                assert(view_of_vals(out@)[j] == out@[j]@);
            }
            assert(view_of_vals(out@) =~= keys_of(pv));
        } else {
            assert forall|j: int| 0 <= j < n implies view_of_vals(out@)[j] == values_of(pv)[j] by {
                assert(values_of(pv)[j] == pv[j].1);
                assert(view_of_vals(out@)[j] == out@[j]@);
            }
            assert(view_of_vals(out@) =~= values_of(pv));
        }
    }
    out
}

pub fn builtin_is_nil(args: &Vec<EdnValue>) -> (r: EqResult<EdnValue>)
    ensures
        res_like(r, spec_builtin(crate::registry::BuiltinId::IsNil, view_of_vals(args@))),
{
    proof {
        lemma_view_of_vals(args@);
    }
    if args.len() != 1 {
        return Result::Err(EqError::query_error("nil? expects exactly 1 argument"));
    }
    Result::Ok(EdnValue::Bool(matches!(&args[0], EdnValue::Nil)))
}

pub fn builtin_is_empty(args: &Vec<EdnValue>) -> (r: EqResult<EdnValue>)
    ensures
        res_like(r, spec_builtin(crate::registry::BuiltinId::IsEmpty, view_of_vals(args@))),
{
    proof {
        lemma_view_of_vals(args@);
    }
    if args.len() != 1 {
        return Result::Err(EqError::query_error("empty? expects exactly 1 argument"));
    }
    match args[0].count() {
        Option::Some(n) => Result::Ok(EdnValue::Bool(n == 0)),
        Option::None => Result::Ok(EdnValue::Bool(false)),
    }
}

pub fn builtin_contains(args: &Vec<EdnValue>) -> (r: EqResult<EdnValue>)
    ensures
        res_like(r, spec_builtin(crate::registry::BuiltinId::Contains, view_of_vals(args@))),
{
    proof {
        lemma_view_of_vals(args@);
    }
    if args.len() != 2 {
        return Result::Err(EqError::query_error("contains? expects exactly 2 arguments"));
    }
    match &args[0] {
        EdnValue::SetV(items) => {
            let found = elem_index(items, &args[1]);
            Result::Ok(EdnValue::Bool(found.is_some()))
        },
        _ => {
            let found = args[0].get(&args[1]);
            Result::Ok(EdnValue::Bool(found.is_some()))
        },
    }
}

pub fn builtin_is_number(args: &Vec<EdnValue>) -> (r: EqResult<EdnValue>)
    ensures
        res_like(r, spec_builtin(crate::registry::BuiltinId::IsNumber, view_of_vals(args@))),
{
    proof {
        lemma_view_of_vals(args@);
    }
    if args.len() != 1 {
        return Result::Err(EqError::query_error("number? expects exactly 1 argument"));
    }
    Result::Ok(
        EdnValue::Bool(
            matches!(&args[0], EdnValue::Integer(_))
                || matches!(&args[0], EdnValue::Float { .. }),
        ),
    )
}

pub fn builtin_is_string(args: &Vec<EdnValue>) -> (r: EqResult<EdnValue>)
    ensures
        res_like(r, spec_builtin(crate::registry::BuiltinId::IsString, view_of_vals(args@))),
{
    proof {
        lemma_view_of_vals(args@);
    }
    if args.len() != 1 {
        return Result::Err(EqError::query_error("string? expects exactly 1 argument"));
    }
    Result::Ok(EdnValue::Bool(matches!(&args[0], EdnValue::String(_))))
}

pub fn builtin_is_keyword(args: &Vec<EdnValue>) -> (r: EqResult<EdnValue>)
    ensures
        res_like(r, spec_builtin(crate::registry::BuiltinId::IsKeyword, view_of_vals(args@))),
{
    proof {
        lemma_view_of_vals(args@);
    }
    if args.len() != 1 {
        return Result::Err(EqError::query_error("keyword? expects exactly 1 argument"));
    }
    Result::Ok(EdnValue::Bool(matches!(&args[0], EdnValue::Keyword(_))))
}

pub fn builtin_is_boolean(args: &Vec<EdnValue>) -> (r: EqResult<EdnValue>)
    ensures
        res_like(r, spec_builtin(crate::registry::BuiltinId::IsBoolean, view_of_vals(args@))),
{
    proof {
        lemma_view_of_vals(args@);
    }
    if args.len() != 1 {
        return Result::Err(EqError::query_error("boolean? expects exactly 1 argument"));
    }
    Result::Ok(EdnValue::Bool(matches!(&args[0], EdnValue::Bool(_))))
}

pub fn builtin_equal(args: &Vec<EdnValue>) -> (r: EqResult<EdnValue>)
    ensures
        res_like(r, spec_builtin(crate::registry::BuiltinId::Equal, view_of_vals(args@))),
{
    let ghost av = view_of_vals(args@);
    proof {
        lemma_view_of_vals(args@);
    }
    let n = args.len();
    if n <= 1 {
        return Result::Ok(EdnValue::Bool(true));
    }
    let mut i: usize = 1;
    while i < n
        invariant
            1 <= i <= n,
            n == args@.len(),
            av == view_of_vals(args@),
            av.len() == n,
            forall|j: int| 0 <= j < n ==> #[trigger] av[j] == args@[j]@,
            forall|j: int| 1 <= j < i ==> val_eq(#[trigger] av[j], av[0]),
        decreases n - i,
    {
        if !value_eq(&args[i], &args[0]) {
            proof {
                assert(!val_eq(av[i as int], av[0]));
            }
            return Result::Ok(EdnValue::Bool(false));
        }
        i = i + 1;
    }
    Result::Ok(EdnValue::Bool(true))
}

pub fn builtin_select_keys(args: &Vec<EdnValue>) -> (r: EqResult<EdnValue>)
    ensures
        res_like(r, spec_builtin(crate::registry::BuiltinId::SelectKeys, view_of_vals(args@))),
{
    proof {
        lemma_view_of_vals(args@);
    }
    if args.len() != 2 {
        return Result::Err(EqError::query_error("select-keys expects exactly 2 arguments"));
    }
    let ks: &Vec<EdnValue> = match &args[1] {
        EdnValue::Vector(ks) => ks,
        EdnValue::List(ks) => ks,
        _ => {
            return Result::Err(EqError::type_error("vector or list", args[1].kind_name()));
        },
    };
    match &args[0] {
        EdnValue::MapV(pairs) => Result::Ok(EdnValue::MapV(filter_pairs_exec(pairs, ks))),
        _ => Result::Ok(empty_map()),
    }
}

/// The entries whose key occurs among `ks`, in entry order, as copies.
fn filter_pairs_exec(pairs: &Vec<(EdnValue, EdnValue)>, ks: &Vec<EdnValue>) -> (r: Vec<
    (EdnValue, EdnValue),
>)
    ensures
        view_of_pairs(r@) == filtered_pairs(view_of_pairs(pairs@), view_of_vals(ks@)),
{
    let ghost pv = view_of_pairs(pairs@);
    let ghost kv = view_of_vals(ks@);
    proof {
        lemma_view_of_pairs(pairs@);
        lemma_view_of_vals(ks@);
        lemma_pair_heights_bound(pv);
        assert(pv.take(0) =~= Seq::<(ValView, ValView)>::empty());
    }
    let n = pairs.len();
    let mut out: Vec<(EdnValue, EdnValue)> = Vec::new();
    let mut i: usize = 0;
    while i < n
        invariant
            i <= n,
            n == pairs@.len(),
            pv == view_of_pairs(pairs@) && kv == view_of_vals(ks@),
            pv.len() == n,
            forall|j: int| 0 <= j < n ==> #[trigger] pv[j] == (pairs@[j].0@, pairs@[j].1@),
            forall|j: int| 0 <= j < n ==> height(#[trigger] pv[j].0) + height(pv[j].1)
                <= pair_heights(pv),
            view_of_pairs(out@) == filtered_pairs(pv.take(i as int), kv),
        decreases n - i,
    {
        let ghost before = out@;
        proof {
            assert(pv[i as int] == (pairs@[i as int].0@, pairs@[i as int].1@));
            assert(height(pv[i as int].0) + height(pv[i as int].1) <= pair_heights(pv));
            assert(pv.take(i as int + 1).drop_last() =~= pv.take(i as int));
            assert(pv.take(i as int + 1).last() == pv[i as int]);
        }
        match elem_index(ks, &pairs[i].0) {
            Option::Some(_) => {
                let k = pairs[i].0.deep_copy();
                let v = pairs[i].1.deep_copy();
                out.push((k, v));
                proof {
                    lemma_view_of_pairs(out@);
                    lemma_view_of_pairs(before);
                    assert(out@.drop_last() =~= before);
                    assert(view_of_pairs(out@) =~= filtered_pairs(pv.take(i as int + 1), kv));
                }
            },
            Option::None => {
                proof {
                    assert(view_of_pairs(out@) =~= filtered_pairs(pv.take(i as int + 1), kv));
                }
            },
        }
        i = i + 1;
    }
    proof {
        assert(pv.take(n as int) =~= pv);
    }
    out
}

/// `bump` at the first matching index: the count there is bumped when it
/// is an integer; a non-integer count leaves the table unchanged.
proof fn lemma_bump_found(ps: Seq<(ValView, ValView)>, x: ValView, i: int)
    requires
        0 <= i < ps.len(),
        val_eq(ps[i].0, x),
        forall|j: int| 0 <= j < i ==> !val_eq(#[trigger] ps[j].0, x),
    ensures
        bump(ps, x) == (match ps[i].1 {
            ValView::Integer(n) => ps.update(i, (ps[i].0, ValView::Integer(inc_count(n)))),
            _ => ps,
        }),
    decreases i,
{
    if i == 0 {
        match ps[0].1 {
            ValView::Integer(n) => {
                assert(seq![(ps[0].0, ValView::Integer(inc_count(n)))] + ps.drop_first()
                    =~= ps.update(0, (ps[0].0, ValView::Integer(inc_count(n)))));
            },
            _ => {},
        }
    } else {
        assert forall|j: int| 0 <= j < i - 1 implies !val_eq(
            #[trigger] ps.drop_first()[j].0,
            x,
        ) by {
            assert(ps.drop_first()[j] == ps[j + 1]);
        }
        assert(ps.drop_first()[i - 1] == ps[i]);
        lemma_bump_found(ps.drop_first(), x, i - 1);
        match ps[i].1 {
            ValView::Integer(n) => {
                assert(seq![ps[0]] + ps.drop_first().update(
                    i - 1,
                    (ps[i].0, ValView::Integer(inc_count(n))),
                ) =~= ps.update(i, (ps[i].0, ValView::Integer(inc_count(n)))));
            },
            _ => {
                assert(seq![ps[0]] + ps.drop_first() =~= ps);
            },
        }
    }
}

/// `bump` with no matching key appends a fresh count of one.
proof fn lemma_bump_absent(ps: Seq<(ValView, ValView)>, x: ValView)
    requires
        forall|j: int| 0 <= j < ps.len() ==> !val_eq(#[trigger] ps[j].0, x),
    ensures
        bump(ps, x) == ps.push((x, ValView::Integer(1))),
    decreases ps.len(),
{
    if ps.len() == 0 {
        assert(Seq::<(ValView, ValView)>::empty().push((x, ValView::Integer(1))) =~= ps.push(
            (x, ValView::Integer(1)),
        ));
    } else {
        assert forall|j: int| 0 <= j < ps.drop_first().len() implies !val_eq(
            #[trigger] ps.drop_first()[j].0,
            x,
        ) by {
            assert(ps.drop_first()[j] == ps[j + 1]);
        }
        lemma_bump_absent(ps.drop_first(), x);
        assert(seq![ps[0]] + ps.drop_first().push((x, ValView::Integer(1))) =~= ps.push(
            (x, ValView::Integer(1)),
        ));
    }
}

pub fn builtin_frequencies(args: &Vec<EdnValue>) -> (r: EqResult<EdnValue>)
    ensures
        res_like(r, spec_builtin(crate::registry::BuiltinId::Frequencies, view_of_vals(args@))),
{
    proof {
        lemma_view_of_vals(args@);
    }
    if args.len() != 1 {
        return Result::Err(EqError::query_error("frequencies expects exactly 1 argument"));
    }
    let items = iter_values_vec(&args[0]);
    let ghost iv = view_of_vals(items@);
    proof {
        lemma_view_of_vals(items@);
        assert(iv.take(0) =~= Seq::<ValView>::empty());
    }
    let n = items.len();
    let mut out: Vec<(EdnValue, EdnValue)> = Vec::new();
    let mut i: usize = 0;
    while i < n
        invariant
            i <= n,
            n == items@.len(),
            iv == view_of_vals(items@),
            iv.len() == n,
            forall|j: int| 0 <= j < n ==> #[trigger] iv[j] == items@[j]@,
            view_of_pairs(out@) == spec_freq(iv.take(i as int)),
        decreases n - i,
    {
        let ghost before = out@;
        let ghost table = view_of_pairs(out@);
        proof {
            lemma_view_of_pairs(out@);
            assert(iv.take(i as int + 1).drop_last() =~= iv.take(i as int));
            assert(iv.take(i as int + 1).last() == iv[i as int]);
        }
        match lookup_index(&out, &items[i]) {
            Option::Some(idx) => {
                proof {
                    lemma_bump_found(table, iv[i as int], idx as int);
                    assert(table[idx as int] == (out@[idx as int].0@, out@[idx as int].1@));
                }
                match &out[idx].1 {
                    EdnValue::Integer(cnt) => {
                        let bumped: i64 = if *cnt == i64::MAX {
                            *cnt
                        } else {
                            *cnt + 1
                        };
                        let key = out[idx].0.deep_copy();
                        out.set(idx, (key, EdnValue::Integer(bumped)));
                        proof {
                            lemma_view_of_pairs(out@);
                            assert forall|j: int|
                                0 <= j < out@.len() implies #[trigger] view_of_pairs(out@)[j]
                                == bump(table, iv[i as int])[j] by {
                                if j != idx {
                                    assert(out@[j] == before[j]);
                                }
                            }
                            assert(view_of_pairs(out@) =~= bump(table, iv[i as int]));
                        }
                    },
                    _ => {
                        proof {
                            assert(view_of_pairs(out@) == bump(table, iv[i as int]));
                        }
                    },
                }
            },
            Option::None => {
                proof {
                    lemma_bump_absent(table, iv[i as int]);
                }
                let key = items[i].deep_copy();
                out.push((key, EdnValue::Integer(1)));
                proof {
                    lemma_view_of_pairs(out@);
                    lemma_view_of_pairs(before);
                    assert(out@.drop_last() =~= before);
                    assert(view_of_pairs(out@) =~= bump(table, iv[i as int]));
                }
            },
        }
        i = i + 1;
    }
    proof {
        assert(iv.take(n as int) =~= iv);
    }
    Result::Ok(EdnValue::MapV(out))
}

/// Dispatches one of the pure regular builtins (everything registered
/// as `Regular` except `map`, `remove` and `select`, which apply
/// lambdas and live with the evaluator).
pub fn apply_pure_builtin(id: crate::registry::BuiltinId, args: &Vec<EdnValue>) -> (r: EqResult<
    EdnValue,
>)
    requires
        id != crate::registry::BuiltinId::MapFn,
        id != crate::registry::BuiltinId::RemoveFn,
        id != crate::registry::BuiltinId::SelectFn,
    ensures
        res_like(r, spec_builtin(id, view_of_vals(args@))),
{
    match id {
        crate::registry::BuiltinId::Get => builtin_get(args),
        crate::registry::BuiltinId::GetIn => builtin_get_in(args),
        crate::registry::BuiltinId::First => builtin_first(args),
        crate::registry::BuiltinId::Last => builtin_last(args),
        crate::registry::BuiltinId::Rest => builtin_rest(args),
        crate::registry::BuiltinId::Take => builtin_take(args),
        crate::registry::BuiltinId::Drop => builtin_drop(args),
        crate::registry::BuiltinId::Nth => builtin_nth(args),
        crate::registry::BuiltinId::Count => builtin_count(args),
        crate::registry::BuiltinId::Keys => builtin_keys(args),
        crate::registry::BuiltinId::Vals => builtin_vals(args),
        crate::registry::BuiltinId::IsNil => builtin_is_nil(args),
        crate::registry::BuiltinId::IsEmpty => builtin_is_empty(args),
        crate::registry::BuiltinId::Contains => builtin_contains(args),
        crate::registry::BuiltinId::IsNumber => builtin_is_number(args),
        crate::registry::BuiltinId::IsString => builtin_is_string(args),
        crate::registry::BuiltinId::IsKeyword => builtin_is_keyword(args),
        crate::registry::BuiltinId::IsBoolean => builtin_is_boolean(args),
        crate::registry::BuiltinId::Equal => builtin_equal(args),
        crate::registry::BuiltinId::Less => builtin_compare_chain(CmpOp::Less, args),
        crate::registry::BuiltinId::Greater => builtin_compare_chain(CmpOp::Greater, args),
        crate::registry::BuiltinId::LessEq => builtin_compare_chain(CmpOp::LessEq, args),
        crate::registry::BuiltinId::GreaterEq => builtin_compare_chain(CmpOp::GreaterEq, args),
        crate::registry::BuiltinId::SelectKeys => builtin_select_keys(args),
        crate::registry::BuiltinId::Frequencies => builtin_frequencies(args),
        _ => Result::Err(EqError::query_error("not a pure builtin")),
    }
}

} // verus!
