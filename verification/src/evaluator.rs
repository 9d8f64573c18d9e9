//! The evaluator: a tree-walking interpreter that executes an analyzed
//! expression against an input value and a lexical environment,
//! dispatching named calls through the registry, applying lambdas, and
//! re-analyzing any macro discovered lazily at call time.
//!
//! The interpreter is first defined at the specification level
//! (`spec_eval` and its helpers) and the executable evaluator is proved
//! to return exactly what that definition says. A call-depth budget
//! bounds lambda application and lazy macro expansion: the language can
//! express self-application, which the original design answers with
//! unbounded recursion, but a verified interpreter must terminate, so a
//! program that nests deeper than the budget is reported as a query
//! error instead of overflowing the stack. Structural descent costs no
//! budget — only a lambda application or a macro discovered at call
//! time does — so the budget is far beyond any reasonable query.

use vstd::prelude::*;
use crate::error::{EqError, EqResult, ErrKind};
use crate::value::{
    EdnValue, ValView, view_of_vals, view_of_strings, lemma_view_of_vals, lemma_view_of_strings,
    truthy, assoc_get, iter_items,
};
use crate::expr::{
    Expr, ExprView, view_of_exprs, lemma_view_of_exprs, eheight, eheights, lemma_eheights_bound,
    lemma_eheight_pos,
};
use crate::env::{Environment, env_lookup};
use crate::registry::{
    BuiltinId, SpecialFormId, MacroId, FunctionType, spec_lookup, FunctionRegistry,
};
use crate::builtins::{or_nil, spec_builtin, res_like, apply_pure_builtin, iter_values_vec};
use crate::analyzer::{
    ANALYZE_FUEL, spec_stage, spec_analyze, spec_expand, stage, analyze, expand_macro,
};

verus! {

/// How many lambda applications (or call-time macro expansions) may be
/// nested before the evaluator reports runaway recursion.
pub const EVAL_FUEL: u64 = 1024;

/// The environment built for a lambda application: each parameter bound
/// to its evaluated argument, in order.
pub open spec fn bind_env(params: Seq<Seq<char>>, vals: Seq<ValView>) -> Seq<
    (Seq<char>, ValView),
> {
    Seq::new(params.len(), |i: int| (params[i], vals[i]))
}

/// The ambient input inside a lambda body: the first argument, or nil.
pub open spec fn lambda_context(vals: Seq<ValView>) -> ValView {
    if vals.len() > 0 {
        vals[0]
    } else {
        ValView::Nil
    }
}

/// The environment a composition stage runs in: only the ambient-input
/// symbol, bound to the running value.
pub open spec fn stage_env(current: ValView) -> Seq<(Seq<char>, ValView)> {
    Seq::<(Seq<char>, ValView)>::empty().push(("."@, current))
}

/// What evaluating an expression returns, as a function of the
/// expression, the ambient input, the environment, and the call-depth
/// budget.
pub open spec fn spec_eval(
    e: ExprView,
    input: ValView,
    env: Seq<(Seq<char>, ValView)>,
    fuel: nat,
) -> Result<ValView, ErrKind>
    decreases fuel, eheight(e), 0nat, 2int,
{
    match e {
        ExprView::Symbol(name) => match env_lookup(env, name) {
            Option::Some(v) => Result::Ok(v),
            Option::None => Result::Err(ErrKind::Query),
        },
        ExprView::KeywordAccess(name) => Result::Ok(
            or_nil(assoc_get(input, ValView::Keyword(name))),
        ),
        ExprView::KeywordGet(name, sub) => match spec_eval(*sub, input, env, fuel) {
            Result::Ok(target) => Result::Ok(or_nil(assoc_get(target, ValView::Keyword(name)))),
            Result::Err(k) => Result::Err(k),
        },
        ExprView::KeywordGetWithDefault(name, sub, dflt) => match spec_eval(
            *sub,
            input,
            env,
            fuel,
        ) {
            Result::Ok(target) => match assoc_get(target, ValView::Keyword(name)) {
                Option::Some(v) => Result::Ok(v),
                Option::None => spec_eval(*dflt, input, env, fuel),
            },
            Result::Err(k) => Result::Err(k),
        },
        ExprView::Function { name, args } => match spec_lookup(name) {
            Option::Some(FunctionType::Regular(id)) => match spec_eval_args(
                args,
                input,
                env,
                fuel,
            ) {
                Result::Ok(vals) => if id == BuiltinId::MapFn || id == BuiltinId::RemoveFn || id
                    == BuiltinId::SelectFn {
                    spec_map_like(id, vals, fuel)
                } else {
                    spec_builtin(id, vals)
                },
                Result::Err(k) => Result::Err(k),
            },
            Option::Some(FunctionType::SpecialForm(SpecialFormId::If)) => spec_if(
                args,
                input,
                env,
                fuel,
            ),
            Option::Some(FunctionType::SpecialForm(SpecialFormId::Do)) => spec_do(
                args,
                input,
                env,
                fuel,
            ),
            Option::Some(FunctionType::Macro(m)) => match spec_expand(m, args) {
                Result::Ok(expansion) => match spec_analyze(expansion, ANALYZE_FUEL as nat) {
                    Result::Ok(analyzed) => if fuel == 0 {
                        Result::Err(ErrKind::Query)
                    } else {
                        spec_eval(analyzed, input, env, (fuel - 1) as nat)
                    },
                    Result::Err(k) => Result::Err(k),
                },
                Result::Err(k) => Result::Err(k),
            },
            Option::None => Result::Err(ErrKind::Query),
        },
        ExprView::LambdaCall { func, args } => match spec_eval(*func, input, env, fuel) {
            Result::Ok(lamval) => match spec_eval_args(args, input, env, fuel) {
                Result::Ok(vals) => spec_call_lambda(lamval, vals, fuel),
                Result::Err(k) => Result::Err(k),
            },
            Result::Err(k) => Result::Err(k),
        },
        ExprView::Comp(stages) => spec_comp(stages, input, fuel),
        ExprView::Literal(v) => Result::Ok(v),
        ExprView::List(_) => Result::Err(ErrKind::Query),
    }
}

/// Every argument evaluated left to right against the same input and
/// environment; the first failure aborts the call.
pub open spec fn spec_eval_args(
    args: Seq<ExprView>,
    input: ValView,
    env: Seq<(Seq<char>, ValView)>,
    fuel: nat,
) -> Result<Seq<ValView>, ErrKind>
    decreases fuel, eheights(args), 0nat, 3int,
    via spec_eval_args_decreases
{
    if args.len() == 0 {
        Result::Ok(Seq::empty())
    } else {
        match spec_eval(args[0], input, env, fuel) {
            Result::Err(k) => Result::Err(k),
            Result::Ok(v) => match spec_eval_args(args.drop_first(), input, env, fuel) {
                Result::Err(k) => Result::Err(k),
                Result::Ok(rest) => Result::Ok(seq![v] + rest),
            },
        }
    }
}

#[via_fn]
proof fn spec_eval_args_decreases(
    args: Seq<ExprView>,
    input: ValView,
    env: Seq<(Seq<char>, ValView)>,
    fuel: nat,
) {
    if args.len() > 0 {
        lemma_eheight_pos(args[0]);
        lemma_eheights_bound(args);
    }
}

/// `if` evaluates only the branch the test selects; a two-argument
/// form yields nil when the test is falsy.
pub open spec fn spec_if(
    args: Seq<ExprView>,
    input: ValView,
    env: Seq<(Seq<char>, ValView)>,
    fuel: nat,
) -> Result<ValView, ErrKind>
    decreases fuel, eheights(args), 0nat, 3int,
    via spec_if_decreases
{
    if args.len() == 2 {
        match spec_eval(args[0], input, env, fuel) {
            Result::Ok(test) => if truthy(test) {
                spec_eval(args[1], input, env, fuel)
            } else {
                Result::Ok(ValView::Nil)
            },
            Result::Err(k) => Result::Err(k),
        }
    } else if args.len() == 3 {
        match spec_eval(args[0], input, env, fuel) {
            Result::Ok(test) => if truthy(test) {
                spec_eval(args[1], input, env, fuel)
            } else {
                spec_eval(args[2], input, env, fuel)
            },
            Result::Err(k) => Result::Err(k),
        }
    } else {
        Result::Err(ErrKind::Query)
    }
}

#[via_fn]
proof fn spec_if_decreases(
    args: Seq<ExprView>,
    input: ValView,
    env: Seq<(Seq<char>, ValView)>,
    fuel: nat,
) {
    if args.len() > 0 {
        lemma_eheights_bound(args);
        lemma_eheight_pos(args[0]);
    }
}

/// `do` evaluates every argument in sequence and returns the last
/// result; an empty `do` is nil.
pub open spec fn spec_do(
    args: Seq<ExprView>,
    input: ValView,
    env: Seq<(Seq<char>, ValView)>,
    fuel: nat,
) -> Result<ValView, ErrKind>
    decreases fuel, eheights(args), 0nat, 3int,
    via spec_do_decreases
{
    if args.len() == 0 {
        Result::Ok(ValView::Nil)
    } else {
        match spec_eval(args[0], input, env, fuel) {
            Result::Err(k) => Result::Err(k),
            Result::Ok(v) => if args.len() == 1 {
                Result::Ok(v)
            } else {
                spec_do(args.drop_first(), input, env, fuel)
            },
        }
    }
}

#[via_fn]
proof fn spec_do_decreases(
    args: Seq<ExprView>,
    input: ValView,
    env: Seq<(Seq<char>, ValView)>,
    fuel: nat,
) {
    if args.len() > 0 {
        lemma_eheights_bound(args);
        lemma_eheight_pos(args[0]);
    }
}

/// A composition threads the running value through each stage in
/// order; each stage runs with the running value as its ambient input
/// and an environment binding only the ambient-input symbol.
pub open spec fn spec_comp(
    stages: Seq<ExprView>,
    current: ValView,
    fuel: nat,
) -> Result<ValView, ErrKind>
    decreases fuel, eheights(stages), 0nat, 3int,
    via spec_comp_decreases
{
    if stages.len() == 0 {
        Result::Ok(current)
    } else {
        match spec_eval(stages[0], current, stage_env(current), fuel) {
            Result::Err(k) => Result::Err(k),
            Result::Ok(next) => spec_comp(stages.drop_first(), next, fuel),
        }
    }
}

#[via_fn]
proof fn spec_comp_decreases(stages: Seq<ExprView>, current: ValView, fuel: nat) {
    if stages.len() > 0 {
        lemma_eheights_bound(stages);
        lemma_eheight_pos(stages[0]);
    }
}

/// Lambda application: the argument count must match the parameter
/// count; the raw body is staged and analyzed fresh on every call and
/// evaluated with each parameter bound to its argument, the first
/// argument (or nil) serving as the ambient input. A non-lambda callee
/// is a type error.
pub open spec fn spec_call_lambda(lamval: ValView, vals: Seq<ValView>, fuel: nat) -> Result<
    ValView,
    ErrKind,
>
    decreases fuel, 0nat, 0nat, 0int,
{
    match lamval {
        ValView::Lambda { params, body } => if vals.len() != params.len() {
            Result::Err(ErrKind::Query)
        } else {
            match spec_analyze(spec_stage(*body), ANALYZE_FUEL as nat) {
                Result::Ok(analyzed) => if fuel == 0 {
                    Result::Err(ErrKind::Query)
                } else {
                    spec_eval(
                        analyzed,
                        lambda_context(vals),
                        bind_env(params, vals),
                        (fuel - 1) as nat,
                    )
                },
                Result::Err(k) => Result::Err(k),
            }
        },
        _ => Result::Err(ErrKind::Type),
    }
}

/// The higher-order builtins: apply the lambda to each element the
/// collection yields, producing the mapped vector (`map`), the elements
/// whose result is truthy (`select`), or those whose result is falsy
/// (`remove`).
pub open spec fn spec_map_like(id: BuiltinId, vals: Seq<ValView>, fuel: nat) -> Result<
    ValView,
    ErrKind,
>
    decreases fuel, 1nat, 0nat, 2int,
{
    if vals.len() != 2 {
        Result::Err(ErrKind::Query)
    } else {
        match vals[0] {
            ValView::Lambda { .. } => match spec_map_over(id, vals[0], iter_items(vals[1]), fuel) {
                Result::Ok(items) => Result::Ok(ValView::Vector(items)),
                Result::Err(k) => Result::Err(k),
            },
            _ => Result::Err(ErrKind::Type),
        }
    }
}

pub open spec fn spec_map_over(
    id: BuiltinId,
    lam: ValView,
    items: Seq<ValView>,
    fuel: nat,
) -> Result<Seq<ValView>, ErrKind>
    decreases fuel, 0nat, items.len(), 1int,
{
    if items.len() == 0 {
        Result::Ok(Seq::empty())
    } else {
        match spec_call_lambda(lam, seq![items[0]], fuel) {
            Result::Err(k) => Result::Err(k),
            Result::Ok(res) => match spec_map_over(id, lam, items.drop_first(), fuel) {
                Result::Err(k) => Result::Err(k),
                Result::Ok(rest) => Result::Ok(
                    if id == BuiltinId::MapFn {
                        seq![res] + rest
                    } else if id == BuiltinId::SelectFn {
                        if truthy(res) {
                            seq![items[0]] + rest
                        } else {
                            rest
                        }
                    } else {
                        if !truthy(res) {
                            seq![items[0]] + rest
                        } else {
                            rest
                        }
                    },
                ),
            },
        }
    }
}

/// Evaluates every argument left to right.
fn eval_args(args: &Vec<Expr>, context: &EdnValue, env: &Environment, fuel: u64) -> (r: Result<
    Vec<EdnValue>,
    EqError,
>)
    ensures
        match r {
            Result::Ok(out) => spec_eval_args(view_of_exprs(args@), context@, env@, fuel as nat)
                == Result::<Seq<ValView>, ErrKind>::Ok(view_of_vals(out@)),
            Result::Err(e) => spec_eval_args(view_of_exprs(args@), context@, env@, fuel as nat)
                == Result::<Seq<ValView>, ErrKind>::Err(e.kind()),
        },
    decreases fuel, eheights(view_of_exprs(args@)), 0nat, 3int,
{
    let ghost av = view_of_exprs(args@);
    proof {
        lemma_view_of_exprs(args@);
        lemma_eheights_bound(av);
        assert(av.skip(0) =~= av);
    }
    let n = args.len();
    let mut out: Vec<EdnValue> = Vec::new();
    proof {
        lemma_view_of_vals(out@);
        assert(view_of_vals(out@) =~= Seq::<ValView>::empty());
    }
    let mut i: usize = 0;
    while i < n
        invariant
            i <= n,
            n == args@.len(),
            av == view_of_exprs(args@),
            av.len() == n,
            forall|j: int| 0 <= j < n ==> #[trigger] av[j] == args@[j]@,
            forall|j: int| 0 <= j < n ==> eheight(#[trigger] av[j]) <= eheights(av),
            spec_eval_args(av, context@, env@, fuel as nat) == (match spec_eval_args(
                av.skip(i as int),
                context@,
                env@,
                fuel as nat,
            ) {
                Result::Ok(rest) => Result::<Seq<ValView>, ErrKind>::Ok(
                    view_of_vals(out@) + rest,
                ),
                Result::Err(k) => Result::<Seq<ValView>, ErrKind>::Err(k),
            }),
        decreases n - i,
    {
        proof {
            assert(av[i as int] == args@[i as int]@);
            assert(eheight(av[i as int]) <= eheights(av));
            assert(av.skip(i as int)[0] == av[i as int]);
            assert(av.skip(i as int).drop_first() =~= av.skip(i as int + 1));
        }
        let v = match eval_fueled(&args[i], context, env, fuel) {
            Result::Ok(v) => v,
            Result::Err(e) => {
                return Result::Err(e);
            },
        };
        let ghost before = out@;
        out.push(v);
        proof {
            lemma_view_of_vals(out@);
            lemma_view_of_vals(before);
            assert(out@.drop_last() =~= before);
            match spec_eval_args(av.skip(i as int + 1), context@, env@, fuel as nat) {
                Result::Ok(rest2) => {
                    assert(view_of_vals(out@) + rest2 =~= view_of_vals(before) + (seq![
                        out@.last()@,
                    ] + rest2));
                },
                Result::Err(_) => {},
            }
        }
        i = i + 1;
    }
    proof {
        assert(av.skip(n as int).len() == 0);
        assert(view_of_vals(out@) + Seq::<ValView>::empty() =~= view_of_vals(out@));
    }
    Result::Ok(out)
}

/// The `if` special form.
fn special_form_if(args: &Vec<Expr>, context: &EdnValue, env: &Environment, fuel: u64) -> (r:
    EqResult<EdnValue>)
    ensures
        res_like(r, spec_if(view_of_exprs(args@), context@, env@, fuel as nat)),
    decreases fuel, eheights(view_of_exprs(args@)), 0nat, 3int,
{
    let ghost av = view_of_exprs(args@);
    proof {
        lemma_view_of_exprs(args@);
        lemma_eheights_bound(av);
    }
    if args.len() == 2 {
        proof {
            assert(av[0] == args@[0]@ && av[1] == args@[1]@);
            assert(eheight(av[0]) <= eheights(av) && eheight(av[1]) <= eheights(av));
        }
        let test = match eval_fueled(&args[0], context, env, fuel) {
            Result::Ok(v) => v,
            Result::Err(e) => {
                return Result::Err(e);
            },
        };
        if test.is_truthy() {
            eval_fueled(&args[1], context, env, fuel)
        } else {
            Result::Ok(EdnValue::Nil)
        }
    } else if args.len() == 3 {
        proof {
            assert(av[0] == args@[0]@ && av[1] == args@[1]@ && av[2] == args@[2]@);
            assert(eheight(av[0]) <= eheights(av) && eheight(av[1]) <= eheights(av) && eheight(
                av[2],
            ) <= eheights(av));
        }
        let test = match eval_fueled(&args[0], context, env, fuel) {
            Result::Ok(v) => v,
            Result::Err(e) => {
                return Result::Err(e);
            },
        };
        if test.is_truthy() {
            eval_fueled(&args[1], context, env, fuel)
        } else {
            eval_fueled(&args[2], context, env, fuel)
        }
    } else {
        Result::Err(EqError::query_error("if takes 2 or 3 arguments"))
    }
}

/// The `do` special form.
fn special_form_do(args: &Vec<Expr>, context: &EdnValue, env: &Environment, fuel: u64) -> (r:
    EqResult<EdnValue>)
    ensures
        res_like(r, spec_do(view_of_exprs(args@), context@, env@, fuel as nat)),
    decreases fuel, eheights(view_of_exprs(args@)), 0nat, 3int,
{
    let ghost av = view_of_exprs(args@);
    proof {
        lemma_view_of_exprs(args@);
        lemma_eheights_bound(av);
        assert(av.skip(0) =~= av);
    }
    let n = args.len();
    let mut result = EdnValue::Nil;
    let mut i: usize = 0;
    while i < n
        invariant
            i <= n,
            n == args@.len(),
            av == view_of_exprs(args@),
            av.len() == n,
            forall|j: int| 0 <= j < n ==> #[trigger] av[j] == args@[j]@,
            forall|j: int| 0 <= j < n ==> eheight(#[trigger] av[j]) <= eheights(av),
            i < n ==> spec_do(av, context@, env@, fuel as nat) == spec_do(
                av.skip(i as int),
                context@,
                env@,
                fuel as nat,
            ),
            i == n ==> spec_do(av, context@, env@, fuel as nat) == Result::<
                ValView,
                ErrKind,
            >::Ok(result@),
        decreases n - i,
    {
        proof {
            assert(av.skip(i as int)[0] == av[i as int]);
            assert(av.skip(i as int).drop_first() =~= av.skip(i as int + 1));
        }
        result = match eval_fueled(&args[i], context, env, fuel) {
            Result::Ok(v) => v,
            Result::Err(e) => {
                return Result::Err(e);
            },
        };
        i = i + 1;
    }
    Result::Ok(result)
}

/// Applies a lambda value to already-evaluated arguments.
fn call_lambda(lambda_value: &EdnValue, args: &Vec<EdnValue>, fuel: u64) -> (r: EqResult<
    EdnValue,
>)
    ensures
        res_like(r, spec_call_lambda(lambda_value@, view_of_vals(args@), fuel as nat)),
    decreases fuel, 0nat, 0nat, 0int,
{
    let ghost av = view_of_vals(args@);
    proof {
        lemma_view_of_vals(args@);
    }
    match lambda_value {
        EdnValue::Lambda { params, body } => {
            proof {
                lemma_view_of_strings(params@);
            }
            if args.len() != params.len() {
                return Result::Err(EqError::query_error("lambda argument count mismatch"));
            }
            let ghost pv = view_of_strings(params@);
            let n = params.len();
            let mut new_env = Environment::new();
            let mut i: usize = 0;
            while i < n
                invariant
                    i <= n,
                    n == params@.len() == args@.len(),
                    pv == view_of_strings(params@),
                    pv.len() == n,
                    av.len() == n,
                    forall|j: int| 0 <= j < n ==> #[trigger] pv[j] == params@[j]@,
                    forall|j: int| 0 <= j < n ==> #[trigger] av[j] == args@[j]@,
                    new_env@.len() == i,
                    forall|j: int| 0 <= j < i ==> #[trigger] new_env@[j] == (pv[j], av[j]),
                decreases n - i,
            {
                new_env.bind(params[i].clone(), args[i].deep_copy());
                i = i + 1;
            }
            proof {
                assert(new_env@ =~= bind_env(pv, av));
            }
            let body_expr = stage(body);
            let analyzed_body = match analyze(body_expr) {
                Result::Ok(a) => a,
                Result::Err(e) => {
                    return Result::Err(e);
                },
            };
            let body_context = if args.len() > 0 {
                args[0].deep_copy()
            } else {
                EdnValue::Nil
            };
            if fuel == 0 {
                return Result::Err(EqError::query_error("lambda recursion too deep"));
            }
            eval_fueled(&analyzed_body, &body_context, &new_env, fuel - 1)
        },
        _ => Result::Err(EqError::type_error("lambda", lambda_value.kind_name())),
    }
}

/// The higher-order builtins `map`, `remove` and `select`.
fn apply_map_like(id: BuiltinId, args: &Vec<EdnValue>, fuel: u64) -> (r: EqResult<EdnValue>)
    requires
        id == BuiltinId::MapFn || id == BuiltinId::RemoveFn || id == BuiltinId::SelectFn,
    ensures
        res_like(r, spec_map_like(id, view_of_vals(args@), fuel as nat)),
    decreases fuel, 1nat, 0nat, 0int,
{
    let ghost av = view_of_vals(args@);
    proof {
        lemma_view_of_vals(args@);
    }
    if args.len() != 2 {
        return Result::Err(
            EqError::query_error("map, remove and select expect exactly 2 arguments"),
        );
    }
    match &args[0] {
        EdnValue::Lambda { .. } => {
            let items = iter_values_vec(&args[1]);
            let ghost iv = view_of_vals(items@);
            proof {
                lemma_view_of_vals(items@);
                assert(iv.skip(0) =~= iv);
                assert(iv == iter_items(av[1]));
            }
            let n = items.len();
            let mut out: Vec<EdnValue> = Vec::new();
            proof {
                lemma_view_of_vals(out@);
                assert(view_of_vals(out@) =~= Seq::<ValView>::empty());
            }
            let mut i: usize = 0;
            while i < n
                invariant
                    i <= n,
                    n == items@.len(),
                    args@.len() == 2,
                    av == view_of_vals(args@),
                    av.len() == 2,
                    av[0] == args@[0]@ && av[1] == args@[1]@,
                    av[0] is Lambda,
                    iv == view_of_vals(items@),
                    iv.len() == n,
                    iv == iter_items(av[1]),
                    forall|j: int| 0 <= j < n ==> #[trigger] iv[j] == items@[j]@,
                    id == BuiltinId::MapFn || id == BuiltinId::RemoveFn || id
                        == BuiltinId::SelectFn,
                    spec_map_over(id, av[0], iv, fuel as nat) == (match spec_map_over(
                        id,
                        av[0],
                        iv.skip(i as int),
                        fuel as nat,
                    ) {
                        Result::Ok(rest) => Result::<Seq<ValView>, ErrKind>::Ok(
                            view_of_vals(out@) + rest,
                        ),
                        Result::Err(k) => Result::<Seq<ValView>, ErrKind>::Err(k),
                    }),
                decreases n - i,
            {
                proof {
                    assert(iv[i as int] == items@[i as int]@);
                    assert(iv.skip(i as int)[0] == iv[i as int]);
                    assert(iv.skip(i as int).drop_first() =~= iv.skip(i as int + 1));
                }
                let mut single: Vec<EdnValue> = Vec::new();
                single.push(items[i].deep_copy());
                proof {
                    lemma_view_of_vals(single@);
                    assert(view_of_vals(single@) =~= seq![iv[i as int]]);
                }
                let res = match call_lambda(&args[0], &single, fuel) {
                    Result::Ok(v) => v,
                    Result::Err(e) => {
                        return Result::Err(e);
                    },
                };
                let ghost before = out@;
                let keep: Option<EdnValue> = if id == BuiltinId::MapFn {
                    Option::Some(res)
                } else if id == BuiltinId::SelectFn {
                    if res.is_truthy() {
                        Option::Some(items[i].deep_copy())
                    } else {
                        Option::None
                    }
                } else {
                    if !res.is_truthy() {
                        Option::Some(items[i].deep_copy())
                    } else {
                        Option::None
                    }
                };
                match keep {
                    Option::Some(v) => {
                        out.push(v);
                        proof {
                            lemma_view_of_vals(out@);
                            lemma_view_of_vals(before);
                            assert(out@.drop_last() =~= before);
                            match spec_map_over(id, av[0], iv.skip(i as int + 1), fuel as nat) {
                                Result::Ok(rest2) => {
                                    assert(view_of_vals(out@) + rest2 =~= view_of_vals(before) + (
                                    seq![out@.last()@] + rest2));
                                },
                                Result::Err(_) => {},
                            }
                        }
                    },
                    Option::None => {},
                }
                i = i + 1;
            }
            proof {
                assert(iv.skip(n as int).len() == 0);
                assert(view_of_vals(out@) + Seq::<ValView>::empty() =~= view_of_vals(out@));
            }
            Result::Ok(EdnValue::Vector(out))
        },
        _ => Result::Err(EqError::type_error("lambda", args[0].kind_name())),
    }
}

/// Evaluates one expression against an input and an environment; the
/// result is exactly what `spec_eval` says for the same views and
/// budget.
fn eval_fueled(expr: &Expr, context: &EdnValue, env: &Environment, fuel: u64) -> (r: EqResult<
    EdnValue,
>)
    ensures
        res_like(r, spec_eval(expr@, context@, env@, fuel as nat)),
    decreases fuel, eheight(expr@), 0nat, 2int,
{
    match expr {
        Expr::Symbol(name) => match env.lookup(name) {
            Option::Some(found) => Result::Ok(found.deep_copy()),
            Option::None => Result::Err(EqError::query_error("Undefined symbol")),
        },
        Expr::KeywordAccess(name) => {
            let key = EdnValue::Keyword(name.clone());
            match context.get(&key) {
                Option::Some(found) => Result::Ok(found.deep_copy()),
                Option::None => Result::Ok(EdnValue::Nil),
            }
        },
        Expr::KeywordGet(name, sub) => {
            let target = match eval_fueled(sub, context, env, fuel) {
                Result::Ok(v) => v,
                Result::Err(e) => {
                    return Result::Err(e);
                },
            };
            let key = EdnValue::Keyword(name.clone());
            match target.get(&key) {
                Option::Some(found) => Result::Ok(found.deep_copy()),
                Option::None => Result::Ok(EdnValue::Nil),
            }
        },
        Expr::KeywordGetWithDefault(name, sub, dflt) => {
            let target = match eval_fueled(sub, context, env, fuel) {
                Result::Ok(v) => v,
                Result::Err(e) => {
                    return Result::Err(e);
                },
            };
            let key = EdnValue::Keyword(name.clone());
            match target.get(&key) {
                Option::Some(found) => Result::Ok(found.deep_copy()),
                Option::None => eval_fueled(dflt, context, env, fuel),
            }
        },
        Expr::Function { name, args } => {
            let registry = FunctionRegistry::new();
            match registry.get(name) {
                Option::Some(FunctionType::Regular(id)) => {
                    let vals = match eval_args(args, context, env, fuel) {
                        Result::Ok(vals) => vals,
                        Result::Err(e) => {
                            return Result::Err(e);
                        },
                    };
                    match id {
                        BuiltinId::MapFn => apply_map_like(id, &vals, fuel),
                        BuiltinId::RemoveFn => apply_map_like(id, &vals, fuel),
                        BuiltinId::SelectFn => apply_map_like(id, &vals, fuel),
                        _ => apply_pure_builtin(id, &vals),
                    }
                },
                Option::Some(FunctionType::SpecialForm(SpecialFormId::If)) => special_form_if(
                    args,
                    context,
                    env,
                    fuel,
                ),
                Option::Some(FunctionType::SpecialForm(SpecialFormId::Do)) => special_form_do(
                    args,
                    context,
                    env,
                    fuel,
                ),
                Option::Some(FunctionType::Macro(m)) => {
                    let expansion = match expand_macro(m, args) {
                        Result::Ok(e2) => e2,
                        Result::Err(e) => {
                            return Result::Err(e);
                        },
                    };
                    let analyzed = match analyze(expansion) {
                        Result::Ok(a) => a,
                        Result::Err(e) => {
                            return Result::Err(e);
                        },
                    };
                    if fuel == 0 {
                        return Result::Err(EqError::query_error("macro recursion too deep"));
                    }
                    eval_fueled(&analyzed, context, env, fuel - 1)
                },
                Option::None => Result::Err(EqError::query_error("Unknown function")),
            }
        },
        Expr::LambdaCall { func, args } => {
            let lambda_value = match eval_fueled(func, context, env, fuel) {
                Result::Ok(v) => v,
                Result::Err(e) => {
                    return Result::Err(e);
                },
            };
            let vals = match eval_args(args, context, env, fuel) {
                Result::Ok(vals) => vals,
                Result::Err(e) => {
                    return Result::Err(e);
                },
            };
            call_lambda(&lambda_value, &vals, fuel)
        },
        Expr::Comp(stages) => {
            let ghost sv = view_of_exprs(stages@);
            proof {
                lemma_view_of_exprs(stages@);
                lemma_eheights_bound(sv);
                assert(sv.skip(0) =~= sv);
            }
            let n = stages.len();
            let mut current = context.deep_copy();
            let mut i: usize = 0;
            while i < n
                invariant
                    i <= n,
                    n == stages@.len(),
                    sv == view_of_exprs(stages@),
                    sv.len() == n,
                    forall|j: int| 0 <= j < n ==> #[trigger] sv[j] == stages@[j]@,
                    forall|j: int| 0 <= j < n ==> eheight(#[trigger] sv[j]) <= eheights(sv),
                    expr@ == ExprView::Comp(sv),
                    eheight(expr@) == 3 + eheights(sv),
                    spec_comp(sv, context@, fuel as nat) == spec_comp(
                        sv.skip(i as int),
                        current@,
                        fuel as nat,
                    ),
                decreases n - i,
            {
                proof {
                    assert(sv.skip(i as int)[0] == sv[i as int]);
                    assert(sv.skip(i as int).drop_first() =~= sv.skip(i as int + 1));
                }
                let stage_input = current.deep_copy();
                let new_env = Environment::with_context(current);
                current = match eval_fueled(&stages[i], &stage_input, &new_env, fuel) {
                    Result::Ok(v) => v,
                    Result::Err(e) => {
                        return Result::Err(e);
                    },
                };
                i = i + 1;
            }
            proof {
                assert(sv.skip(n as int).len() == 0);
            }
            Result::Ok(current)
        },
        Expr::Literal(value) => Result::Ok(value.deep_copy()),
        Expr::List(_) => Result::Err(
            EqError::query_error("Unanalyzed list expression found"),
        ),
    }
}

/// Evaluates an expression with a given environment.
pub fn evaluate_with_env(expr: &Expr, context: &EdnValue, env: &Environment) -> (r: EqResult<
    EdnValue,
>)
    ensures
        res_like(r, spec_eval(expr@, context@, env@, EVAL_FUEL as nat)),
{
    eval_fueled(expr, context, env, EVAL_FUEL)
}

/// Evaluates an analyzed expression against an input document: a fresh
/// environment binds the ambient-input symbol to the input, and the
/// result is exactly what `spec_eval` says.
pub fn evaluate(expr: &Expr, context: &EdnValue) -> (r: EqResult<EdnValue>)
    ensures
        res_like(
            r,
            spec_eval(expr@, context@, stage_env(context@), EVAL_FUEL as nat),
        ),
{
    let env = Environment::with_context(context.deep_copy());
    eval_fueled(expr, context, &env, EVAL_FUEL)
}

} // verus!
