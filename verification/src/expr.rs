//! The expression tree: raw nodes straight from staged data (a bare
//! identifier, a literal, a raw parenthesized list) and the analyzed
//! node kinds that only the analyzer produces. An analyzed tree never
//! contains a raw list node; the evaluator treats one as an internal
//! error.

use vstd::prelude::*;
use crate::value::{
    EdnValue, ValView, view_of_vals, lemma_view_of_vals, val_view,
};
use crate::eq::{height, heights, same_value, same_values, lemma_heights_bound, lemma_height_pos};

verus! {

#[derive(Debug, PartialEq)]
pub enum Expr {
    /// A bare identifier, looked up in the environment at evaluation.
    Symbol(String),
    /// `:key` — field access against the ambient input.
    KeywordAccess(String),
    /// `(:key expr)` — field access against a sub-expression.
    KeywordGet(String, Box<Expr>),
    /// `(:key expr default)` — field access with a default expression.
    KeywordGetWithDefault(String, Box<Expr>, Box<Expr>),
    /// A named function call; the name is resolved in the registry at
    /// evaluation time.
    Function { name: String, args: Vec<Expr> },
    /// Application of an evaluated callee (which must be a lambda).
    LambdaCall { func: Box<Expr>, args: Vec<Expr> },
    /// A pipeline: each stage's output feeds the next stage's input.
    Comp(Vec<Expr>),
    /// A raw parenthesized form, not yet interpreted.
    List(Vec<EdnValue>),
    /// A self-evaluating literal.
    Literal(EdnValue),
}

/// The ghost view of an expression tree.
pub enum ExprView {
    Symbol(Seq<char>),
    KeywordAccess(Seq<char>),
    KeywordGet(Seq<char>, Box<ExprView>),
    KeywordGetWithDefault(Seq<char>, Box<ExprView>, Box<ExprView>),
    Function { name: Seq<char>, args: Seq<ExprView> },
    LambdaCall { func: Box<ExprView>, args: Seq<ExprView> },
    Comp(Seq<ExprView>),
    List(Seq<ValView>),
    Literal(ValView),
}

pub open spec fn view_of_exprs(s: Seq<Expr>) -> Seq<ExprView>
    decreases s,
{
    if s.len() == 0 {
        Seq::empty()
    } else {
        view_of_exprs(s.drop_last()).push(expr_view(s.last()))
    }
}

pub open spec fn expr_view(e: Expr) -> ExprView
    decreases e,
{
    match e {
        Expr::Symbol(name) => ExprView::Symbol(name@),
        Expr::KeywordAccess(name) => ExprView::KeywordAccess(name@),
        Expr::KeywordGet(name, sub) => ExprView::KeywordGet(name@, Box::new(expr_view(*sub))),
        Expr::KeywordGetWithDefault(name, sub, dflt) => ExprView::KeywordGetWithDefault(
            name@,
            Box::new(expr_view(*sub)),
            Box::new(expr_view(*dflt)),
        ),
        Expr::Function { name, args } => ExprView::Function {
            name: name@,
            args: view_of_exprs(args@),
        },
        Expr::LambdaCall { func, args } => ExprView::LambdaCall {
            func: Box::new(expr_view(*func)),
            args: view_of_exprs(args@),
        },
        Expr::Comp(stages) => ExprView::Comp(view_of_exprs(stages@)),
        Expr::List(elements) => ExprView::List(view_of_vals(elements@)),
        Expr::Literal(value) => ExprView::Literal(val_view(value)),
    }
}

impl View for Expr {
    type V = ExprView;

    open spec fn view(&self) -> ExprView {
        expr_view(*self)
    }
}

pub broadcast proof fn lemma_view_of_exprs(s: Seq<Expr>)
    ensures
        #[trigger] view_of_exprs(s).len() == s.len(),
        forall|i: int| 0 <= i < s.len() ==> view_of_exprs(s)[i] == expr_view(s[i]),
    decreases s,
{
    if s.len() > 0 {
        lemma_view_of_exprs(s.drop_last());
    }
}

/// The height of an expression tree; at least 1 everywhere, with a gap
/// of 2 between a node with a child sequence and its children, so that
/// the analyzer's and evaluator's measures have room.
pub open spec fn eheight(e: ExprView) -> nat
    decreases e,
{
    match e {
        ExprView::Symbol(_) => 1,
        ExprView::KeywordAccess(_) => 1,
        ExprView::KeywordGet(_, sub) => 1 + eheight(*sub),
        ExprView::KeywordGetWithDefault(_, sub, dflt) => 1 + eheight(*sub) + eheight(*dflt),
        ExprView::Function { name, args } => 3 + eheights(args),
        ExprView::LambdaCall { func, args } => 3 + eheight(*func) + eheights(args),
        ExprView::Comp(stages) => 3 + eheights(stages),
        ExprView::List(elements) => 3 + heights(elements),
        ExprView::Literal(_) => 1,
    }
}

pub open spec fn eheights(s: Seq<ExprView>) -> nat
    decreases s,
{
    if s.len() == 0 {
        0
    } else {
        eheight(s[0]) + eheights(s.drop_first())
    }
}

pub proof fn lemma_eheight_pos(e: ExprView)
    ensures
        eheight(e) >= 1,
{
}

/// Every element's height is bounded by the height of the sequence.
pub proof fn lemma_eheights_bound(s: Seq<ExprView>)
    ensures
        forall|i: int| 0 <= i < s.len() ==> eheight(#[trigger] s[i]) <= eheights(s),
    decreases s,
{
    if s.len() > 0 {
        lemma_eheights_bound(s.drop_first());
        assert forall|i: int| 0 <= i < s.len() implies eheight(#[trigger] s[i]) <= eheights(s) by {
            if i > 0 {
                assert(s.drop_first()[i - 1] == s[i]);
            }
        }
    }
}

/// Decides ghost view equality of two expressions; the analyzer's
/// fixed-point loop stops when a pass leaves the expression unchanged
/// under this relation.
pub fn same_expr(a: &Expr, b: &Expr) -> (r: bool)
    ensures
        r == (a@ == b@),
    decreases eheight(a@),
{
    match (a, b) {
        (Expr::Symbol(x), Expr::Symbol(y)) => *x == *y,
        (Expr::KeywordAccess(x), Expr::KeywordAccess(y)) => *x == *y,
        (Expr::KeywordGet(n1, s1), Expr::KeywordGet(n2, s2)) => *n1 == *n2 && same_expr(s1, s2),
        (
            Expr::KeywordGetWithDefault(n1, s1, d1),
            Expr::KeywordGetWithDefault(n2, s2, d2),
        ) => *n1 == *n2 && same_expr(s1, s2) && same_expr(d1, d2),
        (
            Expr::Function { name: n1, args: a1 },
            Expr::Function { name: n2, args: a2 },
        ) => *n1 == *n2 && same_exprs(a1, a2),
        (
            Expr::LambdaCall { func: f1, args: a1 },
            Expr::LambdaCall { func: f2, args: a2 },
        ) => same_expr(f1, f2) && same_exprs(a1, a2),
        (Expr::Comp(s1), Expr::Comp(s2)) => same_exprs(s1, s2),
        (Expr::List(v1), Expr::List(v2)) => same_values(v1, v2),
        (Expr::Literal(v1), Expr::Literal(v2)) => same_value(v1, v2),
        _ => false,
    }
}

/// Decides view equality of two expression sequences.
pub fn same_exprs(xs: &Vec<Expr>, ys: &Vec<Expr>) -> (r: bool)
    ensures
        r == (view_of_exprs(xs@) == view_of_exprs(ys@)),
    decreases eheights(view_of_exprs(xs@)) + 1,
{
    let ghost vx = view_of_exprs(xs@);
    let ghost vy = view_of_exprs(ys@);
    proof {
        lemma_view_of_exprs(xs@);
        lemma_view_of_exprs(ys@);
        lemma_eheights_bound(vx);
    }
    if xs.len() != ys.len() {
        return false;
    }
    let n = xs.len();
    let mut i: usize = 0;
    while i < n
        invariant
            i <= n,
            n == xs@.len() == ys@.len(),
            vx == view_of_exprs(xs@) && vy == view_of_exprs(ys@),
            vx.len() == n && vy.len() == n,
            forall|j: int| 0 <= j < n ==> #[trigger] vx[j] == xs@[j]@ && vy[j] == ys@[j]@,
            forall|j: int| 0 <= j < n ==> eheight(#[trigger] vx[j]) <= eheights(vx),
            forall|j: int| 0 <= j < i ==> #[trigger] vx[j] == vy[j],
        decreases n - i,
    {
        proof {
            assert(vx[i as int] == xs@[i as int]@);
            assert(eheight(vx[i as int]) <= eheights(vx));
        }
        if !same_expr(&xs[i], &ys[i]) {
            proof {
                assert(vx[i as int] != vy[i as int]);
            }
            return false;
        }
        i = i + 1;
    }
    proof {
        assert(vx =~= vy);
    }
    true
}

/// Copies an expression; the copy has the same view.
pub fn copy_expr(e: &Expr) -> (r: Expr)
    ensures
        r@ == e@,
    decreases eheight(e@),
{
    match e {
        Expr::Symbol(name) => Expr::Symbol(name.clone()),
        Expr::KeywordAccess(name) => Expr::KeywordAccess(name.clone()),
        Expr::KeywordGet(name, sub) => Expr::KeywordGet(name.clone(), Box::new(copy_expr(sub))),
        Expr::KeywordGetWithDefault(name, sub, dflt) => Expr::KeywordGetWithDefault(
            name.clone(),
            Box::new(copy_expr(sub)),
            Box::new(copy_expr(dflt)),
        ),
        Expr::Function { name, args } => Expr::Function {
            name: name.clone(),
            args: copy_exprs(args),
        },
        Expr::LambdaCall { func, args } => Expr::LambdaCall {
            func: Box::new(copy_expr(func)),
            args: copy_exprs(args),
        },
        Expr::Comp(stages) => Expr::Comp(copy_exprs(stages)),
        Expr::List(elements) => Expr::List(crate::value::copy_vals(elements)),
        Expr::Literal(value) => Expr::Literal(value.deep_copy()),
    }
}

/// Copies an expression vector; the copy has the same view.
pub fn copy_exprs(xs: &Vec<Expr>) -> (r: Vec<Expr>)
    ensures
        view_of_exprs(r@) == view_of_exprs(xs@),
        r@.len() == xs@.len(),
    decreases eheights(view_of_exprs(xs@)) + 1,
{
    let ghost vx = view_of_exprs(xs@);
    proof {
        lemma_view_of_exprs(xs@);
        lemma_eheights_bound(vx);
    }
    let n = xs.len();
    let mut r: Vec<Expr> = Vec::new();
    let mut i: usize = 0;
    while i < n
        invariant
            i <= n,
            n == xs@.len(),
            vx == view_of_exprs(xs@),
            vx.len() == n,
            forall|j: int| 0 <= j < n ==> #[trigger] vx[j] == xs@[j]@,
            forall|j: int| 0 <= j < n ==> eheight(#[trigger] vx[j]) <= eheights(vx),
            r@.len() == i,
            forall|j: int| 0 <= j < i ==> #[trigger] r@[j]@ == xs@[j]@,
        decreases n - i,
    {
        proof {
            assert(vx[i as int] == xs@[i as int]@);
            assert(eheight(vx[i as int]) <= eheights(vx));
        }
        r.push(copy_expr(&xs[i]));
        i = i + 1;
    }
    proof {
        lemma_view_of_exprs(r@);
        assert(view_of_exprs(r@).len() == view_of_exprs(xs@).len());
        assert forall|j: int| 0 <= j < n implies view_of_exprs(r@)[j] == view_of_exprs(xs@)[j] by {
            assert(view_of_exprs(r@)[j] == r@[j]@);
            assert(view_of_exprs(xs@)[j] == xs@[j]@);
            assert(r@[j]@ == xs@[j]@);
        }
        assert(view_of_exprs(r@) =~= view_of_exprs(xs@));
    }
    r
}

} // verus!
