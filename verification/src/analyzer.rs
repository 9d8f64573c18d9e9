//! The analyzer: rewrites a raw expression into a macro-free, fully
//! resolved expression by repeated rewrite passes to a fixed point — a
//! pass that changes nothing ends the loop. A macro expansion is
//! returned unanalyzed, so an expansion that itself uses macros resolves
//! on a later pass.
//!
//! The whole rewrite system is first defined at the specification level
//! (`spec_analyze` and its helpers); the executable analyzer is proved
//! to return exactly what the specification says. A rewrite pass budget
//! bounds the fixed-point loop: the original design iterates without a
//! cap and diverges on a macro expansion that never stabilizes, but a
//! verified loop must terminate, so a query whose expansion does not
//! stabilize within the budget is reported as a query error instead of
//! looping forever. The budget is far beyond any expansion the builtin
//! macro set can need.

use vstd::prelude::*;
use crate::error::{EqError, EqResult, ErrKind};
use crate::value::{
    EdnValue, ValView, view_of_vals, view_of_strings, lemma_view_of_vals, lemma_view_of_strings,
    copy_vals,
};
use crate::eq::{height, heights, lemma_heights_bound, lemma_height_pos};
use crate::expr::{
    Expr, ExprView, view_of_exprs, lemma_view_of_exprs, eheight, eheights, lemma_eheights_bound,
    lemma_eheight_pos, same_expr, copy_expr, copy_exprs,
};
use crate::registry::{MacroId, FunctionType, spec_lookup, FunctionRegistry, name_is};

verus! {

/// How many rewrite passes the fixed-point loop may take before the
/// analyzer reports a non-stabilizing expansion.
pub const ANALYZE_FUEL: u64 = 4096;

/// Staging: one parsed value becomes one raw expression. An identifier
/// becomes a bare-identifier node, a parenthesized form a raw list
/// node, and everything else a literal node.
pub open spec fn spec_stage(v: ValView) -> ExprView {
    match v {
        ValView::Symbol(name) => ExprView::Symbol(name),
        ValView::List(elements) => ExprView::List(elements),
        _ => ExprView::Literal(v),
    }
}

pub open spec fn spec_stage_all(vs: Seq<ValView>) -> Seq<ExprView> {
    vs.map_values(|v: ValView| spec_stage(v))
}

/// The staged expression is no taller than the value it stages.
pub proof fn lemma_stage_height(v: ValView)
    ensures
        eheight(spec_stage(v)) <= height(v),
{
    lemma_height_pos(v);
}

/// Threading one form: the accumulated expression is inserted as the
/// first argument (`->`) or the last argument (`->>`) of the form.
pub open spec fn spec_thread_step(first: bool, acc: ExprView, form: ExprView) -> Result<
    ExprView,
    ErrKind,
> {
    match form {
        ExprView::Symbol(name) => Result::Ok(
            ExprView::Function { name, args: seq![acc] },
        ),
        ExprView::KeywordAccess(name) => Result::Ok(ExprView::KeywordGet(name, Box::new(acc))),
        ExprView::Function { name, args } => Result::Ok(
            ExprView::Function {
                name,
                args: if first {
                    seq![acc] + args
                } else {
                    args.push(acc)
                },
            },
        ),
        ExprView::List(elements) => if elements.len() == 0 {
            Result::Err(ErrKind::Query)
        } else {
            match elements[0] {
                ValView::Symbol(name) => {
                    // the stage's own arguments are staged like any other
                    // parsed form, so the fixed-point loop resolves them
                    // exactly as the nested application would
                    let staged = spec_stage_all(elements.drop_first());
                    Result::Ok(
                        ExprView::Function {
                            name,
                            args: if first {
                                seq![acc] + staged
                            } else {
                                staged.push(acc)
                            },
                        },
                    )
                },
                ValView::Keyword(name) => Result::Ok(ExprView::KeywordGet(name, Box::new(acc))),
                _ => Result::Err(ErrKind::Query),
            }
        },
        _ => Result::Err(ErrKind::Query),
    }
}

/// Threading folded over the remaining forms.
pub open spec fn spec_thread_fold(first: bool, acc: ExprView, forms: Seq<ExprView>) -> Result<
    ExprView,
    ErrKind,
>
    decreases forms.len(),
{
    if forms.len() == 0 {
        Result::Ok(acc)
    } else {
        match spec_thread_step(first, acc, forms[0]) {
            Result::Err(k) => Result::Err(k),
            Result::Ok(acc2) => spec_thread_fold(first, acc2, forms.drop_first()),
        }
    }
}

/// `(-> x f g h)` threads `x` through the forms in order; `(->> ...)`
/// differs only in where each step inserts the threaded expression.
pub open spec fn spec_thread(first: bool, args: Seq<ExprView>) -> Result<ExprView, ErrKind> {
    if args.len() == 0 {
        Result::Err(ErrKind::Query)
    } else {
        spec_thread_fold(first, args[0], args.drop_first())
    }
}

/// `(when t b...)` rewrites to `(if t (do b...) nil)`.
pub open spec fn spec_when(args: Seq<ExprView>) -> Result<ExprView, ErrKind> {
    if args.len() < 2 {
        Result::Err(ErrKind::Query)
    } else {
        Result::Ok(
            ExprView::Function {
                name: "if"@,
                args: seq![
                    args[0],
                    ExprView::Function { name: "do"@, args: args.drop_first() },
                    ExprView::Literal(ValView::Nil),
                ],
            },
        )
    }
}

/// What each macro rewrites its (staged, unevaluated) arguments to.
pub open spec fn spec_expand(m: MacroId, args: Seq<ExprView>) -> Result<ExprView, ErrKind> {
    match m {
        MacroId::ThreadFirst => spec_thread(true, args),
        MacroId::ThreadLast => spec_thread(false, args),
        MacroId::When => spec_when(args),
    }
}

/// Lambda parameter vectors hold identifiers only.
pub open spec fn spec_params(ps: Seq<ValView>) -> Result<Seq<Seq<char>>, ErrKind>
    decreases ps.len(),
{
    if ps.len() == 0 {
        Result::Ok(Seq::empty())
    } else {
        match ps[0] {
            ValView::Symbol(name) => match spec_params(ps.drop_first()) {
                Result::Ok(rest) => Result::Ok(seq![name] + rest),
                Result::Err(k) => Result::Err(k),
            },
            _ => Result::Err(ErrKind::Query),
        }
    }
}

/// `(fn [p1 p2 ...] body)` parses to a lambda value — parameter names
/// plus the body captured as unanalyzed raw data — returned as a
/// terminal literal.
pub open spec fn spec_analyze_lambda(args: Seq<ValView>) -> Result<ExprView, ErrKind> {
    if args.len() != 2 {
        Result::Err(ErrKind::Query)
    } else {
        match args[0] {
            ValView::Vector(ps) => match spec_params(ps) {
                Result::Ok(names) => Result::Ok(
                    ExprView::Literal(
                        ValView::Lambda { params: names, body: Box::new(args[1]) },
                    ),
                ),
                Result::Err(k) => Result::Err(k),
            },
            _ => Result::Err(ErrKind::Query),
        }
    }
}

/// The analyzer: repeat `spec_analyze_once` until a pass returns its
/// input unchanged; give up when the pass budget runs out.
pub open spec fn spec_analyze(e: ExprView, fuel: nat) -> Result<ExprView, ErrKind>
    decreases fuel, eheight(e), 5int,
{
    if fuel == 0 {
        Result::Err(ErrKind::Query)
    } else {
        match spec_analyze_once(e, fuel) {
            Result::Err(k) => Result::Err(k),
            Result::Ok(e1) => if e1 == e {
                Result::Ok(e)
            } else {
                spec_analyze(e1, (fuel - 1) as nat)
            },
        }
    }
}

/// One rewrite pass, by the shape of the node.
pub open spec fn spec_analyze_once(e: ExprView, fuel: nat) -> Result<ExprView, ErrKind>
    decreases fuel, eheight(e), 4int,
    via spec_analyze_once_decreases
{
    match e {
        ExprView::List(elements) => if elements.len() == 0 {
            Result::Err(ErrKind::Query)
        } else {
            match elements[0] {
                ValView::Symbol(name) => if name == "fn"@ {
                    spec_analyze_lambda(elements.drop_first())
                } else {
                    match spec_lookup(name) {
                        Option::Some(FunctionType::Macro(m)) => spec_expand(
                            m,
                            spec_stage_all(elements.drop_first()),
                        ),
                        _ => spec_analyze_call(name, elements.drop_first(), fuel),
                    }
                },
                ValView::Keyword(name) => spec_analyze_keyword(name, elements.drop_first(), fuel),
                _ => Result::Err(ErrKind::Query),
            }
        },
        ExprView::KeywordGet(name, sub) => match spec_analyze(*sub, fuel) {
            Result::Ok(s) => Result::Ok(ExprView::KeywordGet(name, Box::new(s))),
            Result::Err(k) => Result::Err(k),
        },
        ExprView::KeywordGetWithDefault(name, sub, dflt) => match spec_analyze(*sub, fuel) {
            Result::Ok(s) => match spec_analyze(*dflt, fuel) {
                Result::Ok(d) => Result::Ok(
                    ExprView::KeywordGetWithDefault(name, Box::new(s), Box::new(d)),
                ),
                Result::Err(k) => Result::Err(k),
            },
            Result::Err(k) => Result::Err(k),
        },
        ExprView::Function { name, args } => match spec_analyze_seq(args, fuel) {
            Result::Ok(analyzed) => Result::Ok(ExprView::Function { name, args: analyzed }),
            Result::Err(k) => Result::Err(k),
        },
        ExprView::LambdaCall { func, args } => match spec_analyze(*func, fuel) {
            Result::Ok(f) => match spec_analyze_seq(args, fuel) {
                Result::Ok(analyzed) => Result::Ok(
                    ExprView::LambdaCall { func: Box::new(f), args: analyzed },
                ),
                Result::Err(k) => Result::Err(k),
            },
            Result::Err(k) => Result::Err(k),
        },
        ExprView::Comp(stages) => match spec_analyze_seq(stages, fuel) {
            Result::Ok(analyzed) => Result::Ok(ExprView::Comp(analyzed)),
            Result::Err(k) => Result::Err(k),
        },
        _ => Result::Ok(e),
    }
}

#[via_fn]
proof fn spec_analyze_once_decreases(e: ExprView, fuel: nat) {
    match e {
        ExprView::List(elements) => {
            if elements.len() > 0 {
                lemma_height_pos(elements[0]);
            }
        },
        _ => {},
    }
}

/// Every sub-expression of a call analyzed independently.
pub open spec fn spec_analyze_seq(s: Seq<ExprView>, fuel: nat) -> Result<Seq<ExprView>, ErrKind>
    decreases fuel, eheights(s), 6int,
    via spec_analyze_seq_decreases
{
    if s.len() == 0 {
        Result::Ok(Seq::empty())
    } else {
        match spec_analyze(s[0], fuel) {
            Result::Err(k) => Result::Err(k),
            Result::Ok(h) => match spec_analyze_seq(s.drop_first(), fuel) {
                Result::Err(k) => Result::Err(k),
                Result::Ok(t) => Result::Ok(seq![h] + t),
            },
        }
    }
}

#[via_fn]
proof fn spec_analyze_seq_decreases(s: Seq<ExprView>, fuel: nat) {
    if s.len() > 0 {
        lemma_eheight_pos(s[0]);
    }
}

/// A function call: every staged argument analyzed, the failure of any
/// aborting the call. An unknown name is still accepted here — the
/// "unknown function" failure is deferred to evaluation.
pub open spec fn spec_analyze_call(name: Seq<char>, args: Seq<ValView>, fuel: nat) -> Result<
    ExprView,
    ErrKind,
>
    decreases fuel, 2 + heights(args), 1int,
{
    match spec_analyze_vals(args, fuel) {
        Result::Ok(analyzed) => Result::Ok(ExprView::Function { name, args: analyzed }),
        Result::Err(k) => Result::Err(k),
    }
}

/// Staged values of a call's argument list, each fully analyzed.
pub open spec fn spec_analyze_vals(vs: Seq<ValView>, fuel: nat) -> Result<Seq<ExprView>, ErrKind>
    decreases fuel, 2 + heights(vs), 0int,
    via spec_analyze_vals_decreases
{
    if vs.len() == 0 {
        Result::Ok(Seq::empty())
    } else {
        match spec_analyze(spec_stage(vs[0]), fuel) {
            Result::Err(k) => Result::Err(k),
            Result::Ok(h) => match spec_analyze_vals(vs.drop_first(), fuel) {
                Result::Err(k) => Result::Err(k),
                Result::Ok(t) => Result::Ok(seq![h] + t),
            },
        }
    }
}

#[via_fn]
proof fn spec_analyze_vals_decreases(vs: Seq<ValView>, fuel: nat) {
    if vs.len() > 0 {
        lemma_height_pos(vs[0]);
        lemma_stage_height(vs[0]);
    }
}

/// A keyword in call position: with no argument it is field access
/// against the ambient input; with one argument, field access against
/// that sub-expression; with two, field access with a default; any
/// other arity is an error.
pub open spec fn spec_analyze_keyword(name: Seq<char>, args: Seq<ValView>, fuel: nat) -> Result<
    ExprView,
    ErrKind,
>
    decreases fuel, 2 + heights(args), 1int,
    via spec_analyze_keyword_decreases
{
    if args.len() == 0 {
        Result::Ok(ExprView::KeywordAccess(name))
    } else if args.len() == 1 {
        match spec_analyze(spec_stage(args[0]), fuel) {
            Result::Ok(a) => Result::Ok(ExprView::KeywordGet(name, Box::new(a))),
            Result::Err(k) => Result::Err(k),
        }
    } else if args.len() == 2 {
        match spec_analyze(spec_stage(args[0]), fuel) {
            Result::Ok(a) => match spec_analyze(spec_stage(args[1]), fuel) {
                Result::Ok(d) => Result::Ok(
                    ExprView::KeywordGetWithDefault(name, Box::new(a), Box::new(d)),
                ),
                Result::Err(k) => Result::Err(k),
            },
            Result::Err(k) => Result::Err(k),
        }
    } else {
        Result::Err(ErrKind::Query)
    }
}

#[via_fn]
proof fn spec_analyze_keyword_decreases(name: Seq<char>, args: Seq<ValView>, fuel: nat) {
    if args.len() >= 1 {
        lemma_height_pos(args[0]);
        lemma_stage_height(args[0]);
        lemma_heights_bound(args);
        if args.len() >= 2 {
            lemma_height_pos(args[1]);
            lemma_stage_height(args[1]);
        }
    }
}

/// How an executable expression result relates to its spec counterpart.
pub open spec fn eres_like(r: EqResult<Expr>, s: Result<ExprView, ErrKind>) -> bool {
    match r {
        Result::Ok(e) => s is Ok && e@ == s->Ok_0,
        Result::Err(e) => s is Err && e.kind() == s->Err_0,
    }
}

/// Stages one parsed value into a raw expression.
pub fn stage(v: &EdnValue) -> (r: Expr)
    ensures
        r@ == spec_stage(v@),
{
    match v {
        EdnValue::Symbol(name) => Expr::Symbol(name.clone()),
        EdnValue::List(elements) => Expr::List(copy_vals(elements)),
        _ => Expr::Literal(v.deep_copy()),
    }
}

/// The elements of a list behind its head, as copies.
fn tail_vals(elements: &Vec<EdnValue>) -> (r: Vec<EdnValue>)
    requires
        elements@.len() >= 1,
    ensures
        view_of_vals(r@) == view_of_vals(elements@).drop_first(),
        heights(view_of_vals(r@)) <= heights(view_of_vals(elements@)),
{
    let ghost ev = view_of_vals(elements@);
    proof {
        lemma_view_of_vals(elements@);
        lemma_heights_bound(ev);
    }
    let n = elements.len();
    let mut out: Vec<EdnValue> = Vec::new();
    let mut i: usize = 1;
    while i < n
        invariant
            1 <= i <= n,
            n == elements@.len(),
            ev == view_of_vals(elements@),
            ev.len() == n,
            forall|j: int| 0 <= j < n ==> #[trigger] ev[j] == elements@[j]@,
            forall|j: int| 0 <= j < n ==> height(#[trigger] ev[j]) <= heights(ev),
            out@.len() == i - 1,
            forall|j: int| 0 <= j < i - 1 ==> #[trigger] out@[j]@ == elements@[j + 1]@,
        decreases n - i,
    {
        proof {
            assert(ev[i as int] == elements@[i as int]@);
            assert(height(ev[i as int]) <= heights(ev));
        }
        out.push(elements[i].deep_copy());
        i = i + 1;
    }
    proof {
        lemma_view_of_vals(out@);
        assert forall|j: int| 0 <= j < n - 1 implies view_of_vals(out@)[j] == ev.drop_first()[j]
            by {
            assert(view_of_vals(out@)[j] == out@[j]@);
            assert(ev.drop_first()[j] == ev[j + 1]);
        }
        assert(view_of_vals(out@) =~= ev.drop_first());
        assert(heights(ev) == height(ev[0]) + heights(ev.drop_first()));
    }
    out
}

/// Threads the accumulated expression into one form.
fn thread_step(first: bool, acc: Expr, form: &Expr) -> (r: EqResult<Expr>)
    ensures
        eres_like(r, spec_thread_step(first, acc@, form@)),
{
    let bad_form_message = "Invalid form in threading macro";
    match form {
        Expr::Symbol(name) => {
            let mut args: Vec<Expr> = Vec::new();
            let ghost accv = acc@;
            args.push(acc);
            proof {
                lemma_view_of_exprs(args@);
                assert(view_of_exprs(args@) =~= seq![accv]);
            }
            Result::Ok(Expr::Function { name: name.clone(), args })
        },
        Expr::KeywordAccess(name) => Result::Ok(
            Expr::KeywordGet(name.clone(), Box::new(acc)),
        ),
        Expr::Function { name, args } => {
            let ghost accv = acc@;
            let ghost av = view_of_exprs(args@);
            let mut newargs: Vec<Expr> = Vec::new();
            if first {
                newargs.push(acc);
                let mut rest = copy_exprs(args);
                let ghost restv = rest@;
                newargs.append(&mut rest);
                proof {
                    lemma_view_of_exprs(newargs@);
                    lemma_view_of_exprs(args@);
                    lemma_view_of_exprs(restv);
                    assert forall|j: int|
                        0 <= j < newargs@.len() implies view_of_exprs(newargs@)[j] == (seq![accv]
                        + av)[j] by {
                        assert(view_of_exprs(newargs@)[j] == newargs@[j]@);
                        if j > 0 {
                            assert(newargs@[j] == restv[j - 1]);
                            assert(view_of_exprs(restv)[j - 1] == restv[j - 1]@);
                            assert(view_of_exprs(restv)[j - 1] == view_of_exprs(args@)[j - 1]);
                            assert(view_of_exprs(args@)[j - 1] == av[j - 1]);
                        }
                    }
                    assert(view_of_exprs(newargs@) =~= seq![accv] + av);
                }
            } else {
                newargs = copy_exprs(args);
                let ghost before = newargs@;
                newargs.push(acc);
                proof {
                    lemma_view_of_exprs(newargs@);
                    lemma_view_of_exprs(before);
                    lemma_view_of_exprs(args@);
                    assert forall|j: int|
                        0 <= j < newargs@.len() implies view_of_exprs(newargs@)[j] == av.push(
                        accv,
                    )[j] by {
                        assert(view_of_exprs(newargs@)[j] == newargs@[j]@);
                        if j < newargs@.len() - 1 {
                            assert(newargs@[j] == before[j]);
                        }
                    }
                    assert(view_of_exprs(newargs@) =~= av.push(accv));
                }
            }
            Result::Ok(Expr::Function { name: name.clone(), args: newargs })
        },
        Expr::List(elements) => {
            proof {
                lemma_view_of_vals(elements@);
            }
            if elements.len() == 0 {
                return Result::Err(EqError::query_error(bad_form_message));
            }
            let ghost ev = view_of_vals(elements@);
            match &elements[0] {
                EdnValue::Symbol(name) => {
                    let ghost accv = acc@;
                    let ghost staged_tail = spec_stage_all(ev.drop_first());
                    let n = elements.len();
                    let mut newargs: Vec<Expr> = Vec::new();
                    let mut holder: Vec<Expr> = Vec::new();
                    holder.push(acc);
                    if first {
                        let threaded = holder.pop().unwrap();
                        newargs.push(threaded);
                    }
                    let mut i: usize = 1;
                    while i < n
                        invariant
                            1 <= i <= n,
                            n == elements@.len(),
                            ev == view_of_vals(elements@),
                            ev.len() == n,
                            forall|j: int| 0 <= j < n ==> #[trigger] ev[j] == elements@[j]@,
                            first ==> newargs@.len() == i && newargs@[0]@ == accv,
                            !first ==> newargs@.len() == i - 1 && holder@.len() == 1 && holder@[0]@
                                == accv,
                            forall|j: int|
                                (if first {
                                    1int
                                } else {
                                    0int
                                }) <= j < newargs@.len() ==> #[trigger] newargs@[j]@
                                    == spec_stage(
                                    ev[j + (if first {
                                        0int
                                    } else {
                                        1int
                                    })],
                                ),
                        decreases n - i,
                    {
                        proof {
                            assert(ev[i as int] == elements@[i as int]@);
                        }
                        newargs.push(stage(&elements[i]));
                        i = i + 1;
                    }
                    if !first {
                        let threaded = holder.pop().unwrap();
                        newargs.push(threaded);
                    }
                    proof {
                        lemma_view_of_exprs(newargs@);
                        let target = if first {
                            seq![accv] + staged_tail
                        } else {
                            staged_tail.push(accv)
                        };
                        assert forall|j: int|
                            0 <= j < newargs@.len() implies view_of_exprs(newargs@)[j]
                            == target[j] by {
                            assert(view_of_exprs(newargs@)[j] == newargs@[j]@);
                            if first {
                                if j > 0 {
                                    assert(staged_tail[j - 1] == spec_stage(
                                        ev.drop_first()[j - 1],
                                    ));
                                    assert(ev.drop_first()[j - 1] == ev[j]);
                                }
                            } else {
                                if j < newargs@.len() - 1 {
                                    assert(staged_tail[j] == spec_stage(ev.drop_first()[j]));
                                    assert(ev.drop_first()[j] == ev[j + 1]);
                                }
                            }
                        }
                        assert(view_of_exprs(newargs@) =~= target);
                    }
                    Result::Ok(Expr::Function { name: name.clone(), args: newargs })
                },
                EdnValue::Keyword(name) => Result::Ok(
                    Expr::KeywordGet(name.clone(), Box::new(acc)),
                ),
                _ => Result::Err(EqError::query_error(bad_form_message)),
            }
        },
        _ => Result::Err(EqError::query_error(bad_form_message)),
    }
}

/// The threading macros: fold the threaded expression through the forms.
fn expand_thread(first: bool, args: &Vec<Expr>) -> (r: EqResult<Expr>)
    ensures
        eres_like(r, spec_thread(first, view_of_exprs(args@))),
{
    let ghost av = view_of_exprs(args@);
    proof {
        lemma_view_of_exprs(args@);
    }
    if args.len() == 0 {
        return Result::Err(EqError::query_error("threading macro requires at least one argument"));
    }
    let n = args.len();
    let mut acc = copy_expr(&args[0]);
    proof {
        assert(av.skip(1) =~= av.drop_first());
    }
    let mut i: usize = 1;
    while i < n
        invariant
            1 <= i <= n,
            n == args@.len(),
            av == view_of_exprs(args@),
            av.len() == n,
            forall|j: int| 0 <= j < n ==> #[trigger] av[j] == args@[j]@,
            spec_thread(first, av) == spec_thread_fold(first, acc@, av.skip(i as int)),
        decreases n - i,
    {
        proof {
            assert(av.skip(i as int)[0] == av[i as int]);
            assert(av.skip(i as int).drop_first() =~= av.skip(i as int + 1));
        }
        acc = match thread_step(first, acc, &args[i]) {
            Result::Ok(acc2) => acc2,
            Result::Err(e) => {
                return Result::Err(e);
            },
        };
        i = i + 1;
    }
    proof {
        assert(av.skip(n as int).len() == 0);
    }
    Result::Ok(acc)
}

/// The `when` macro: `(when t b...)` becomes `(if t (do b...) nil)`.
fn expand_when(args: &Vec<Expr>) -> (r: EqResult<Expr>)
    ensures
        eres_like(r, spec_when(view_of_exprs(args@))),
{
    let ghost av = view_of_exprs(args@);
    proof {
        lemma_view_of_exprs(args@);
    }
    if args.len() < 2 {
        return Result::Err(EqError::query_error("when macro requires at least 2 arguments"));
    }
    let n = args.len();
    let condition = copy_expr(&args[0]);
    let mut body: Vec<Expr> = Vec::new();
    let mut i: usize = 1;
    while i < n
        invariant
            1 <= i <= n,
            n == args@.len(),
            av == view_of_exprs(args@),
            av.len() == n,
            forall|j: int| 0 <= j < n ==> #[trigger] av[j] == args@[j]@,
            body@.len() == i - 1,
            forall|j: int| 0 <= j < i - 1 ==> #[trigger] body@[j]@ == av[j + 1],
        decreases n - i,
    {
        body.push(copy_expr(&args[i]));
        i = i + 1;
    }
    proof {
        lemma_view_of_exprs(body@);
        assert forall|j: int| 0 <= j < n - 1 implies view_of_exprs(body@)[j] == av.drop_first()[j]
            by {
            assert(view_of_exprs(body@)[j] == body@[j]@);
            assert(av.drop_first()[j] == av[j + 1]);
        }
        assert(view_of_exprs(body@) =~= av.drop_first());
    }
    let do_expr = Expr::Function { name: "do".to_owned(), args: body };
    let ghost dv = do_expr@;
    let ghost cv = condition@;
    let mut if_args: Vec<Expr> = Vec::new();
    if_args.push(condition);
    if_args.push(do_expr);
    if_args.push(Expr::Literal(EdnValue::Nil));
    proof {
        lemma_view_of_exprs(if_args@);
        assert(view_of_exprs(if_args@) =~= seq![cv, dv, ExprView::Literal(ValView::Nil)]);
    }
    Result::Ok(Expr::Function { name: "if".to_owned(), args: if_args })
}

/// Expands one macro on its staged, unevaluated arguments.
pub(crate) fn expand_macro(m: MacroId, args: &Vec<Expr>) -> (r: EqResult<Expr>)
    ensures
        eres_like(r, spec_expand(m, view_of_exprs(args@))),
{
    match m {
        MacroId::ThreadFirst => expand_thread(true, args),
        MacroId::ThreadLast => expand_thread(false, args),
        MacroId::When => expand_when(args),
    }
}

/// Parses lambda syntax `(fn [params] body)` into a lambda literal.
fn analyze_lambda(args: &Vec<EdnValue>) -> (r: EqResult<Expr>)
    ensures
        eres_like(r, spec_analyze_lambda(view_of_vals(args@))),
{
    let ghost av = view_of_vals(args@);
    proof {
        lemma_view_of_vals(args@);
    }
    if args.len() != 2 {
        return Result::Err(
            EqError::query_error("fn requires exactly 2 arguments: parameter vector and body"),
        );
    }
    match &args[0] {
        EdnValue::Vector(ps) => {
            let ghost pv = view_of_vals(ps@);
            proof {
                lemma_view_of_vals(ps@);
                assert(pv.skip(0) =~= pv);
                assert(view_of_vals(args@)[0] == args@[0]@);
                assert(view_of_vals(args@)[0] == ValView::Vector(pv));
            }
            let n = ps.len();
            let mut names: Vec<String> = Vec::new();
            let mut i: usize = 0;
            proof {
                assert(pv.skip(0) =~= pv);
                lemma_view_of_strings(names@);
                assert(view_of_strings(names@) =~= Seq::<Seq<char>>::empty());
            }
            while i < n
                invariant
                    i <= n,
                    n == ps@.len(),
                    pv == view_of_vals(ps@),
                    pv.len() == n,
                    args@.len() == 2,
                    view_of_vals(args@).len() == 2,
                    view_of_vals(args@)[0] == ValView::Vector(pv),
                    forall|j: int| 0 <= j < n ==> #[trigger] pv[j] == ps@[j]@,
                    spec_params(pv) == (match spec_params(pv.skip(i as int)) {
                        Result::Ok(rest) => Result::Ok(view_of_strings(names@) + rest),
                        Result::Err(k) => Result::Err(k),
                    }),
                decreases n - i,
            {
                let ghost before = names@;
                proof {
                    assert(pv[i as int] == ps@[i as int]@);
                    assert(pv.skip(i as int)[0] == pv[i as int]);
                    assert(pv.skip(i as int).drop_first() =~= pv.skip(i as int + 1));
                }
                match &ps[i] {
                    EdnValue::Symbol(name) => {
                        proof {
                            assert(pv[i as int] is Symbol);
                        }
                        names.push(name.clone());
                        proof {
                            let nm = pv[i as int]->Symbol_0;
                            lemma_view_of_strings(names@);
                            lemma_view_of_strings(before);
                            assert(names@.drop_last() =~= before);
                            assert(view_of_strings(names@) =~= view_of_strings(before).push(nm));
                            match spec_params(pv.skip(i as int + 1)) {
                                Result::Ok(rest2) => {
                                    assert(view_of_strings(names@) + rest2 =~= view_of_strings(
                                        before,
                                    ) + (seq![nm] + rest2));
                                },
                                Result::Err(_) => {},
                            }
                        }
                    },
                    _ => {
                        proof {
                            assert(!(pv[i as int] is Symbol));
                            assert(spec_params(pv.skip(i as int)) == Result::<
                                Seq<Seq<char>>,
                                ErrKind,
                            >::Err(ErrKind::Query));
                            assert(spec_params(pv) == Result::<Seq<Seq<char>>, ErrKind>::Err(
                                ErrKind::Query,
                            ));
                            assert(view_of_vals(args@)[0] == ValView::Vector(pv));
                            assert(spec_analyze_lambda(view_of_vals(args@)) == Result::<
                                ExprView,
                                ErrKind,
                            >::Err(ErrKind::Query));
                        }
                        return Result::Err(EqError::query_error("fn parameters must be symbols"));
                    },
                }
                i = i + 1;
            }
            proof {
                assert(pv.skip(n as int).len() == 0);
                lemma_view_of_strings(names@);
                assert(view_of_strings(names@) + Seq::<Seq<char>>::empty() =~= view_of_strings(
                    names@,
                ));
            }
            let body = Box::new(args[1].deep_copy());
            Result::Ok(Expr::Literal(EdnValue::Lambda { params: names, body }))
        },
        _ => Result::Err(EqError::query_error("fn first argument must be a parameter vector")),
    }
}

/// Extends a sequence result by one analyzed head.
spec fn cons_result(h: ExprView, t: Result<Seq<ExprView>, ErrKind>) -> Result<
    Seq<ExprView>,
    ErrKind,
> {
    match t {
        Result::Ok(rest) => Result::Ok(seq![h] + rest),
        Result::Err(k) => Result::Err(k),
    }
}

/// Analyzes every staged value of an argument list.
fn analyze_vals(vs: &Vec<EdnValue>, fuel: u64) -> (r: Result<Vec<Expr>, EqError>)
    ensures
        match r {
            Result::Ok(out) => spec_analyze_vals(view_of_vals(vs@), fuel as nat) == Result::<
                Seq<ExprView>,
                ErrKind,
            >::Ok(view_of_exprs(out@)),
            Result::Err(e) => spec_analyze_vals(view_of_vals(vs@), fuel as nat) == Result::<
                Seq<ExprView>,
                ErrKind,
            >::Err(e.kind()),
        },
    decreases fuel, 2 + heights(view_of_vals(vs@)), 0int,
{
    let ghost vv = view_of_vals(vs@);
    proof {
        lemma_view_of_vals(vs@);
        lemma_heights_bound(vv);
        assert(vv.skip(0) =~= vv);
        lemma_view_of_exprs(Seq::<Expr>::empty());
    }
    let n = vs.len();
    let mut out: Vec<Expr> = Vec::new();
    proof {
        lemma_view_of_exprs(out@);
        assert(view_of_exprs(out@) =~= Seq::<ExprView>::empty());
    }
    let mut i: usize = 0;
    while i < n
        invariant
            i <= n,
            n == vs@.len(),
            vv == view_of_vals(vs@),
            vv.len() == n,
            forall|j: int| 0 <= j < n ==> #[trigger] vv[j] == vs@[j]@,
            forall|j: int| 0 <= j < n ==> height(#[trigger] vv[j]) <= heights(vv),
            spec_analyze_vals(vv, fuel as nat) == (match spec_analyze_vals(
                vv.skip(i as int),
                fuel as nat,
            ) {
                Result::Ok(rest) => Result::Ok(view_of_exprs(out@) + rest),
                Result::Err(k) => Result::<Seq<ExprView>, ErrKind>::Err(k),
            }),
        decreases n - i,
    {
        proof {
            assert(vv[i as int] == vs@[i as int]@);
            assert(height(vv[i as int]) <= heights(vv));
            lemma_stage_height(vs@[i as int]@);
            assert(vv.skip(i as int)[0] == vv[i as int]);
            assert(vv.skip(i as int).drop_first() =~= vv.skip(i as int + 1));
        }
        let staged = stage(&vs[i]);
        let analyzed = match analyze_fueled(staged, fuel) {
            Result::Ok(a) => a,
            Result::Err(e) => {
                return Result::Err(e);
            },
        };
        let ghost before = out@;
        out.push(analyzed);
        proof {
            lemma_view_of_exprs(out@);
            lemma_view_of_exprs(before);
            assert(out@.drop_last() =~= before);
            match spec_analyze_vals(vv.skip(i as int + 1), fuel as nat) {
                Result::Ok(rest2) => {
                    assert(view_of_exprs(out@) + rest2 =~= view_of_exprs(before) + (seq![
                        out@.last()@,
                    ] + rest2));
                },
                Result::Err(_) => {},
            }
        }
        i = i + 1;
    }
    proof {
        assert(vv.skip(n as int).len() == 0);
        assert(view_of_exprs(out@) + Seq::<ExprView>::empty() =~= view_of_exprs(out@));
    }
    Result::Ok(out)
}

/// Analyzes every expression of a sequence.
fn analyze_seq(s: &Vec<Expr>, fuel: u64) -> (r: Result<Vec<Expr>, EqError>)
    ensures
        match r {
            Result::Ok(out) => spec_analyze_seq(view_of_exprs(s@), fuel as nat) == Result::<
                Seq<ExprView>,
                ErrKind,
            >::Ok(view_of_exprs(out@)),
            Result::Err(e) => spec_analyze_seq(view_of_exprs(s@), fuel as nat) == Result::<
                Seq<ExprView>,
                ErrKind,
            >::Err(e.kind()),
        },
    decreases fuel, eheights(view_of_exprs(s@)), 6int,
{
    let ghost sv = view_of_exprs(s@);
    proof {
        lemma_view_of_exprs(s@);
        lemma_eheights_bound(sv);
        assert(sv.skip(0) =~= sv);
    }
    let n = s.len();
    let mut out: Vec<Expr> = Vec::new();
    proof {
        lemma_view_of_exprs(out@);
        assert(view_of_exprs(out@) =~= Seq::<ExprView>::empty());
    }
    let mut i: usize = 0;
    while i < n
        invariant
            i <= n,
            n == s@.len(),
            sv == view_of_exprs(s@),
            sv.len() == n,
            forall|j: int| 0 <= j < n ==> #[trigger] sv[j] == s@[j]@,
            forall|j: int| 0 <= j < n ==> eheight(#[trigger] sv[j]) <= eheights(sv),
            spec_analyze_seq(sv, fuel as nat) == (match spec_analyze_seq(
                sv.skip(i as int),
                fuel as nat,
            ) {
                Result::Ok(rest) => Result::Ok(view_of_exprs(out@) + rest),
                Result::Err(k) => Result::<Seq<ExprView>, ErrKind>::Err(k),
            }),
        decreases n - i,
    {
        proof {
            assert(sv[i as int] == s@[i as int]@);
            assert(eheight(sv[i as int]) <= eheights(sv));
            assert(sv.skip(i as int)[0] == sv[i as int]);
            assert(sv.skip(i as int).drop_first() =~= sv.skip(i as int + 1));
        }
        let copy = copy_expr(&s[i]);
        let analyzed = match analyze_fueled(copy, fuel) {
            Result::Ok(a) => a,
            Result::Err(e) => {
                return Result::Err(e);
            },
        };
        let ghost before = out@;
        out.push(analyzed);
        proof {
            lemma_view_of_exprs(out@);
            lemma_view_of_exprs(before);
            assert(out@.drop_last() =~= before);
            match spec_analyze_seq(sv.skip(i as int + 1), fuel as nat) {
                Result::Ok(rest2) => {
                    assert(view_of_exprs(out@) + rest2 =~= view_of_exprs(before) + (seq![
                        out@.last()@,
                    ] + rest2));
                },
                Result::Err(_) => {},
            }
        }
        i = i + 1;
    }
    proof {
        assert(sv.skip(n as int).len() == 0);
        assert(view_of_exprs(out@) + Seq::<ExprView>::empty() =~= view_of_exprs(out@));
    }
    Result::Ok(out)
}

/// Analyzes a function call with a symbol head.
fn analyze_function_call(name: &String, args: &Vec<EdnValue>, fuel: u64) -> (r: EqResult<Expr>)
    ensures
        eres_like(r, spec_analyze_call(name@, view_of_vals(args@), fuel as nat)),
    decreases fuel, 2 + heights(view_of_vals(args@)), 1int,
{
    match analyze_vals(args, fuel) {
        Result::Ok(analyzed) => Result::Ok(Expr::Function { name: name.clone(), args: analyzed }),
        Result::Err(e) => Result::Err(e),
    }
}

/// Analyzes a keyword in call position.
fn analyze_keyword_call(name: &String, args: &Vec<EdnValue>, fuel: u64) -> (r: EqResult<Expr>)
    ensures
        eres_like(r, spec_analyze_keyword(name@, view_of_vals(args@), fuel as nat)),
    decreases fuel, 2 + heights(view_of_vals(args@)), 1int,
{
    let ghost av = view_of_vals(args@);
    proof {
        lemma_view_of_vals(args@);
        lemma_heights_bound(av);
    }
    if args.len() == 1 {
        proof {
            assert(av[0] == args@[0]@);
            assert(height(av[0]) <= heights(av));
            lemma_stage_height(args@[0]@);
        }
        let staged = stage(&args[0]);
        match analyze_fueled(staged, fuel) {
            Result::Ok(a) => Result::Ok(Expr::KeywordGet(name.clone(), Box::new(a))),
            Result::Err(e) => Result::Err(e),
        }
    } else if args.len() == 2 {
        proof {
            assert(av[0] == args@[0]@);
            assert(av[1] == args@[1]@);
            assert(height(av[0]) <= heights(av));
            assert(height(av[1]) <= heights(av));
            lemma_stage_height(args@[0]@);
            lemma_stage_height(args@[1]@);
        }
        let staged = stage(&args[0]);
        let a = match analyze_fueled(staged, fuel) {
            Result::Ok(a) => a,
            Result::Err(e) => {
                return Result::Err(e);
            },
        };
        let staged_default = stage(&args[1]);
        match analyze_fueled(staged_default, fuel) {
            Result::Ok(d) => Result::Ok(
                Expr::KeywordGetWithDefault(name.clone(), Box::new(a), Box::new(d)),
            ),
            Result::Err(e) => Result::Err(e),
        }
    } else if args.len() == 0 {
        Result::Ok(Expr::KeywordAccess(name.clone()))
    } else {
        Result::Err(EqError::query_error("keyword access takes at most 2 arguments"))
    }
}

/// One rewrite pass over an expression.
fn analyze_once(e: &Expr, fuel: u64) -> (r: EqResult<Expr>)
    ensures
        eres_like(r, spec_analyze_once(e@, fuel as nat)),
    decreases fuel, eheight(e@), 4int,
{
    match e {
        Expr::List(elements) => {
            let ghost ev = view_of_vals(elements@);
            proof {
                lemma_view_of_vals(elements@);
            }
            if elements.len() == 0 {
                return Result::Err(EqError::query_error("Empty list expression"));
            }
            proof {
                assert(ev[0] == elements@[0]@);
                lemma_height_pos(ev[0]);
                assert(heights(ev) == height(ev[0]) + heights(ev.drop_first()));
            }
            match &elements[0] {
                EdnValue::Symbol(name) => {
                    if name_is(name, "fn") {
                        let tail = tail_vals(elements);
                        analyze_lambda(&tail)
                    } else {
                        let registry = FunctionRegistry::new();
                        match registry.get(name) {
                            Option::Some(FunctionType::Macro(m)) => {
                                let tail = tail_vals(elements);
                                let staged = stage_exprs(&tail);
                                expand_macro(m, &staged)
                            },
                            _ => {
                                let tail = tail_vals(elements);
                                analyze_function_call(name, &tail, fuel)
                            },
                        }
                    }
                },
                EdnValue::Keyword(name) => {
                    let tail = tail_vals(elements);
                    analyze_keyword_call(name, &tail, fuel)
                },
                _ => Result::Err(
                    EqError::query_error("First element of list must be a symbol or keyword"),
                ),
            }
        },
        Expr::KeywordGet(name, sub) => {
            let copy = copy_expr(sub);
            match analyze_fueled(copy, fuel) {
                Result::Ok(s) => Result::Ok(Expr::KeywordGet(name.clone(), Box::new(s))),
                Result::Err(err) => Result::Err(err),
            }
        },
        Expr::KeywordGetWithDefault(name, sub, dflt) => {
            let copy = copy_expr(sub);
            let s = match analyze_fueled(copy, fuel) {
                Result::Ok(s) => s,
                Result::Err(err) => {
                    return Result::Err(err);
                },
            };
            let copy_default = copy_expr(dflt);
            match analyze_fueled(copy_default, fuel) {
                Result::Ok(d) => Result::Ok(
                    Expr::KeywordGetWithDefault(name.clone(), Box::new(s), Box::new(d)),
                ),
                Result::Err(err) => Result::Err(err),
            }
        },
        Expr::Function { name, args } => match analyze_seq(args, fuel) {
            Result::Ok(analyzed) => Result::Ok(
                Expr::Function { name: name.clone(), args: analyzed },
            ),
            Result::Err(err) => Result::Err(err),
        },
        Expr::LambdaCall { func, args } => {
            let copy = copy_expr(func);
            let f = match analyze_fueled(copy, fuel) {
                Result::Ok(f) => f,
                Result::Err(err) => {
                    return Result::Err(err);
                },
            };
            match analyze_seq(args, fuel) {
                Result::Ok(analyzed) => Result::Ok(
                    Expr::LambdaCall { func: Box::new(f), args: analyzed },
                ),
                Result::Err(err) => Result::Err(err),
            }
        },
        Expr::Comp(stages) => match analyze_seq(stages, fuel) {
            Result::Ok(analyzed) => Result::Ok(Expr::Comp(analyzed)),
            Result::Err(err) => Result::Err(err),
        },
        _ => Result::Ok(copy_expr(e)),
    }
}

/// Stages every value of a (tail) list, for handing to a macro.
fn stage_exprs(vs: &Vec<EdnValue>) -> (r: Vec<Expr>)
    ensures
        view_of_exprs(r@) == spec_stage_all(view_of_vals(vs@)),
{
    let ghost vv = view_of_vals(vs@);
    proof {
        lemma_view_of_vals(vs@);
    }
    let n = vs.len();
    let mut out: Vec<Expr> = Vec::new();
    let mut i: usize = 0;
    while i < n
        invariant
            i <= n,
            n == vs@.len(),
            vv == view_of_vals(vs@),
            vv.len() == n,
            forall|j: int| 0 <= j < n ==> #[trigger] vv[j] == vs@[j]@,
            out@.len() == i,
            forall|j: int| 0 <= j < i ==> #[trigger] out@[j]@ == spec_stage(vv[j]),
        decreases n - i,
    {
        proof {
            assert(vv[i as int] == vs@[i as int]@);
        }
        out.push(stage(&vs[i]));
        i = i + 1;
    }
    proof {
        lemma_view_of_exprs(out@);
        assert forall|j: int| 0 <= j < n implies view_of_exprs(out@)[j] == spec_stage_all(vv)[j]
            by {
            assert(view_of_exprs(out@)[j] == out@[j]@);
            assert(spec_stage_all(vv)[j] == spec_stage(vv[j]));
        }
        assert(view_of_exprs(out@) =~= spec_stage_all(vv));
    }
    out
}

/// The fixed-point loop with its pass budget.
fn analyze_fueled(e: Expr, fuel: u64) -> (r: EqResult<Expr>)
    ensures
        eres_like(r, spec_analyze(e@, fuel as nat)),
    decreases fuel, eheight(e@), 5int,
{
    if fuel == 0 {
        return Result::Err(EqError::query_error("macro expansion did not stabilize"));
    }
    match analyze_once(&e, fuel) {
        Result::Err(err) => Result::Err(err),
        Result::Ok(e1) => {
            if same_expr(&e1, &e) {
                Result::Ok(e)
            } else {
                analyze_fueled(e1, fuel - 1)
            }
        },
    }
}

/// Analyzes and macro-expands an expression to a fixed point: the
/// result contains no raw list node, and analyzing it again returns it
/// unchanged (see `lemma_analyze_idempotent`).
pub fn analyze(expr: Expr) -> (r: EqResult<Expr>)
    ensures
        eres_like(r, spec_analyze(expr@, ANALYZE_FUEL as nat)),
{
    analyze_fueled(expr, ANALYZE_FUEL)
}

} // verus!
