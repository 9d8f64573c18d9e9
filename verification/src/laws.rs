//! Laws of the engine, stated over the specification-level analyzer and
//! evaluator and proved once and for all. Each law's doc comment states
//! it in words.

use vstd::prelude::*;
use crate::error::ErrKind;
use crate::value::{ValView, last_item, count_of};
use crate::eq::{val_eq, elem_in, lookup_pairs, height, heights, lemma_height_pos};
use crate::expr::{ExprView, eheight, eheights, lemma_eheights_bound, lemma_eheight_pos};
use crate::registry::{BuiltinId, MacroId, FunctionType, spec_lookup};
use crate::builtins::{spec_builtin, spec_chain, CmpOp, or_nil, filtered_pairs};
use crate::analyzer::{
    spec_analyze, spec_analyze_once, spec_analyze_seq, spec_when, spec_expand, ANALYZE_FUEL,
    lemma_stage_height, spec_stage,
};
use crate::evaluator::{spec_eval, spec_if, spec_do};

verus! {

/// An analyzed expression: no raw list node anywhere. This is the shape
/// the analyzer promises, and the shape the evaluator expects.
pub open spec fn is_analyzed(e: ExprView) -> bool
    decreases e,
{
    match e {
        ExprView::List(_) => false,
        ExprView::KeywordGet(_, sub) => is_analyzed(*sub),
        ExprView::KeywordGetWithDefault(_, sub, dflt) => is_analyzed(*sub) && is_analyzed(*dflt),
        ExprView::Function { name, args } => all_analyzed(args),
        ExprView::LambdaCall { func, args } => is_analyzed(*func) && all_analyzed(args),
        ExprView::Comp(stages) => all_analyzed(stages),
        _ => true,
    }
}

pub open spec fn all_analyzed(s: Seq<ExprView>) -> bool
    decreases s,
{
    s.len() == 0 || (is_analyzed(s[0]) && all_analyzed(s.drop_first()))
}

pub proof fn lemma_all_analyzed_iff(s: Seq<ExprView>)
    ensures
        all_analyzed(s) <==> forall|i: int| 0 <= i < s.len() ==> is_analyzed(#[trigger] s[i]),
    decreases s,
{
    if s.len() > 0 {
        lemma_all_analyzed_iff(s.drop_first());
        assert forall|i: int| 0 <= i < s.len() && all_analyzed(s) implies is_analyzed(
            #[trigger] s[i],
        ) by {
            if i > 0 {
                assert(s.drop_first()[i - 1] == s[i]);
            }
        }
        if forall|i: int| 0 <= i < s.len() ==> is_analyzed(#[trigger] s[i]) {
            assert forall|j: int| 0 <= j < s.drop_first().len() implies is_analyzed(
                #[trigger] s.drop_first()[j],
            ) by {
                assert(s.drop_first()[j] == s[j + 1]);
            }
        }
    }
}

/// One rewrite pass leaves an analyzed expression exactly as it is.
pub proof fn lemma_once_on_analyzed(e: ExprView, fuel: nat)
    requires
        is_analyzed(e),
        fuel >= 1,
    ensures
        spec_analyze_once(e, fuel) == Result::<ExprView, ErrKind>::Ok(e),
    decreases fuel, eheight(e), 2int,
{
    match e {
        ExprView::KeywordGet(name, sub) => {
            lemma_analyzed_fixed(*sub, fuel);
        },
        ExprView::KeywordGetWithDefault(name, sub, dflt) => {
            lemma_analyzed_fixed(*sub, fuel);
            lemma_analyzed_fixed(*dflt, fuel);
        },
        ExprView::Function { name, args } => {
            lemma_seq_on_analyzed(args, fuel);
        },
        ExprView::LambdaCall { func, args } => {
            lemma_analyzed_fixed(*func, fuel);
            lemma_seq_on_analyzed(args, fuel);
        },
        ExprView::Comp(stages) => {
            lemma_seq_on_analyzed(stages, fuel);
        },
        _ => {},
    }
}

proof fn lemma_seq_on_analyzed(s: Seq<ExprView>, fuel: nat)
    requires
        all_analyzed(s),
        fuel >= 1,
    ensures
        spec_analyze_seq(s, fuel) == Result::<Seq<ExprView>, ErrKind>::Ok(s),
    decreases fuel, eheights(s), 4int,
{
    if s.len() > 0 {
        lemma_eheight_pos(s[0]);
        lemma_eheights_bound(s);
        lemma_analyzed_fixed(s[0], fuel);
        lemma_seq_on_analyzed(s.drop_first(), fuel);
        assert(seq![s[0]] + s.drop_first() =~= s);
    } else {
        assert(Seq::<ExprView>::empty() =~= s);
    }
}

/// Analyzing an already-analyzed expression returns it unchanged, at
/// any pass budget of at least one.
pub proof fn lemma_analyzed_fixed(e: ExprView, fuel: nat)
    requires
        is_analyzed(e),
        fuel >= 1,
    ensures
        spec_analyze(e, fuel) == Result::<ExprView, ErrKind>::Ok(e),
    decreases fuel, eheight(e), 3int,
{
    lemma_once_on_analyzed(e, fuel);
}

/// Whatever the analyzer accepts, it returns analyzed: the result
/// contains no raw list node.
pub proof fn lemma_analyze_yields_analyzed(e: ExprView, fuel: nat)
    requires
        spec_analyze(e, fuel) is Ok,
    ensures
        is_analyzed(spec_analyze(e, fuel)->Ok_0),
    decreases fuel, eheight(e), 3int,
{
    let once = spec_analyze_once(e, fuel);
    if once is Ok && once->Ok_0 == e {
        lemma_fixed_is_analyzed(e, fuel);
    } else {
        lemma_analyze_yields_analyzed(once->Ok_0, (fuel - 1) as nat);
    }
}

/// A fixed point of one rewrite pass contains no raw list node.
proof fn lemma_fixed_is_analyzed(e: ExprView, fuel: nat)
    requires
        spec_analyze_once(e, fuel) == Result::<ExprView, ErrKind>::Ok(e),
    ensures
        is_analyzed(e),
    decreases fuel, eheight(e), 2int,
{
    match e {
        ExprView::List(elements) => {
            lemma_once_on_list_is_not_list(e, fuel);
        },
        ExprView::KeywordGet(name, sub) => {
            lemma_fix_of_analyze(*sub, fuel);
        },
        ExprView::KeywordGetWithDefault(name, sub, dflt) => {
            lemma_fix_of_analyze(*sub, fuel);
            lemma_fix_of_analyze(*dflt, fuel);
        },
        ExprView::Function { name, args } => {
            lemma_fixed_seq_is_analyzed(args, fuel);
        },
        ExprView::LambdaCall { func, args } => {
            lemma_fix_of_analyze(*func, fuel);
            lemma_fixed_seq_is_analyzed(args, fuel);
        },
        ExprView::Comp(stages) => {
            lemma_fixed_seq_is_analyzed(stages, fuel);
        },
        _ => {},
    }
}

/// If the full analysis of `e` returns `e` itself, `e` is analyzed.
proof fn lemma_fix_of_analyze(e: ExprView, fuel: nat)
    requires
        spec_analyze(e, fuel) == Result::<ExprView, ErrKind>::Ok(e),
    ensures
        is_analyzed(e),
    decreases fuel, eheight(e), 4int,
{
    lemma_analyze_yields_analyzed(e, fuel);
}

proof fn lemma_fixed_seq_is_analyzed(s: Seq<ExprView>, fuel: nat)
    requires
        spec_analyze_seq(s, fuel) == Result::<Seq<ExprView>, ErrKind>::Ok(s),
    ensures
        all_analyzed(s),
    decreases fuel, eheights(s), 5int,
{
    if s.len() > 0 {
        lemma_eheight_pos(s[0]);
        lemma_eheights_bound(s);
        let h = spec_analyze(s[0], fuel)->Ok_0;
        let t = spec_analyze_seq(s.drop_first(), fuel)->Ok_0;
        assert((seq![h] + t)[0] == h);
        assert(h == s[0]);
        assert forall|j: int| 0 <= j < t.len() implies #[trigger] t[j] == s.drop_first()[j] by {
            assert((seq![h] + t)[j + 1] == t[j]);
        }
        assert(t =~= s.drop_first());
        lemma_fix_of_analyze(s[0], fuel);
        lemma_fixed_seq_is_analyzed(s.drop_first(), fuel);
    }
}

/// One rewrite pass on a raw list never returns that same list: every
/// outcome is an error or a node of another shape — in the macro case
/// because the expansion of a one-form thread is strictly smaller than
/// the list that invoked it.
proof fn lemma_once_on_list_is_not_list(e: ExprView, fuel: nat)
    requires
        e is List,
    ensures
        !(spec_analyze_once(e, fuel) == Result::<ExprView, ErrKind>::Ok(e)),
{
    let elements = e->List_0;
    if elements.len() > 0 {
        lemma_height_pos(elements[0]);
        match elements[0] {
            ValView::Symbol(name) => {
                if name == "fn"@ {
                } else {
                    match spec_lookup(name) {
                        Option::Some(FunctionType::Macro(m)) => {
                            lemma_expand_never_self(m, elements, e);
                        },
                        _ => {},
                    }
                }
            },
            _ => {},
        }
    }
}

/// A macro expansion is never the invoking list itself.
proof fn lemma_expand_never_self(m: MacroId, elements: Seq<ValView>, e: ExprView)
    requires
        e == ExprView::List(elements),
        elements.len() > 0,
    ensures
        !(spec_expand(m, crate::analyzer::spec_stage_all(elements.drop_first())) == Result::<
            ExprView,
            ErrKind,
        >::Ok(e)),
{
    let staged = crate::analyzer::spec_stage_all(elements.drop_first());
    match m {
        MacroId::When => {
            // a `when` expansion is a Function node, never a List
        },
        _ => {
            let first = (m == MacroId::ThreadFirst);
            if staged.len() > 0 {
                if staged.len() == 1 {
                    // the expansion is the staged first argument alone,
                    // which is strictly shorter than the invoking list
                    assert(staged[0] == spec_stage(elements.drop_first()[0]));
                    assert(elements.drop_first()[0] == elements[1]);
                    lemma_stage_height(elements[1]);
                    crate::eq::lemma_heights_bound(elements);
                    lemma_height_pos(elements[0]);
                    assert(heights(elements) == height(elements[0]) + heights(
                        elements.drop_first(),
                    ));
                    assert(heights(elements.drop_first()) == height(elements.drop_first()[0])
                        + heights(elements.drop_first().drop_first()));
                    assert(eheight(staged[0]) < eheight(e));
                    assert(staged.drop_first().len() == 0);
                    if spec_expand(m, staged) == Result::<ExprView, ErrKind>::Ok(e) {
                        assert(crate::analyzer::spec_thread_fold(first, staged[0], staged.drop_first())
                            == Result::<ExprView, ErrKind>::Ok(staged[0]));
                        assert(e == staged[0]);
                        assert(false);
                    }
                } else {
                    lemma_fold_shape(first, staged[0], staged.drop_first());
                }
            }
        },
    }
}

/// A threading fold over at least one form yields a named call or a
/// keyword access, never a list.
proof fn lemma_fold_shape(first: bool, acc: ExprView, forms: Seq<ExprView>)
    requires
        forms.len() >= 1,
    ensures
        match crate::analyzer::spec_thread_fold(first, acc, forms) {
            Result::Ok(r) => r is Function || r is KeywordGet,
            Result::Err(_) => true,
        },
    decreases forms.len(),
{
    match crate::analyzer::spec_thread_step(first, acc, forms[0]) {
        Result::Err(_) => {},
        Result::Ok(acc2) => {
            if forms.len() > 1 {
                lemma_fold_shape(first, acc2, forms.drop_first());
            }
        },
    }
}

/// Idempotence: analyzing an already-analyzed expression returns it
/// unchanged. In particular, whatever the analyzer accepts is a fixed
/// point: running it again on its own output gives the same output.
pub proof fn lemma_analyze_idempotent(e: ExprView, fuel: nat)
    requires
        spec_analyze(e, fuel) is Ok,
        fuel >= 1,
    ensures
        spec_analyze(spec_analyze(e, fuel)->Ok_0, fuel) == spec_analyze(e, fuel),
{
    let r = spec_analyze(e, fuel)->Ok_0;
    lemma_analyze_yields_analyzed(e, fuel);
    lemma_analyzed_fixed(r, fuel);
}

/// Negative indexing: for a non-empty vector or list, `nth` at -1,
/// `get` at -1 and `last` all return the final element.
pub proof fn lemma_negative_index_last(v: ValView)
    requires
        v is Vector || v is List,
        count_of(v)->Some_0 > 0,
    ensures
        spec_builtin(BuiltinId::Nth, seq![v, ValView::Integer(-1i64)]) == spec_builtin(
            BuiltinId::Last,
            seq![v],
        ),
        spec_builtin(BuiltinId::Get, seq![v, ValView::Integer(-1i64)]) == spec_builtin(
            BuiltinId::Last,
            seq![v],
        ),
        spec_builtin(BuiltinId::Last, seq![v]) == Result::<ValView, ErrKind>::Ok(
            or_nil(last_item(v)),
        ),
{
    let args2 = seq![v, ValView::Integer(-1i64)];
    assert(args2[0] == v && args2[1] == ValView::Integer(-1i64));
    let args1 = seq![v];
    assert(args1[0] == v);
}

/// Predicate totality: `nil?`, `number?`, `string?`, `keyword?`,
/// `boolean?` and `empty?` return a boolean for every value, never an
/// error.
pub proof fn lemma_predicates_total(v: ValView)
    ensures
        spec_builtin(BuiltinId::IsNil, seq![v]) matches Result::Ok(b) && b is Bool,
        spec_builtin(BuiltinId::IsNumber, seq![v]) matches Result::Ok(b) && b is Bool,
        spec_builtin(BuiltinId::IsString, seq![v]) matches Result::Ok(b) && b is Bool,
        spec_builtin(BuiltinId::IsKeyword, seq![v]) matches Result::Ok(b) && b is Bool,
        spec_builtin(BuiltinId::IsBoolean, seq![v]) matches Result::Ok(b) && b is Bool,
        spec_builtin(BuiltinId::IsEmpty, seq![v]) matches Result::Ok(b) && b is Bool,
{
    let args = seq![v];
    assert(args.len() == 1 && args[0] == v);
}

/// The comparison chain law: `(< a b c)` holds exactly when `(< a b)`
/// and `(< b c)` both hold — and likewise for the other chain
/// operators.
pub proof fn lemma_chain_law(op: CmpOp, a: ValView, b: ValView, c: ValView)
    ensures
        (spec_chain(op, seq![a, b, c]) == Result::<bool, ErrKind>::Ok(true)) <==> (spec_chain(
            op,
            seq![a, b],
        ) == Result::<bool, ErrKind>::Ok(true) && spec_chain(op, seq![b, c]) == Result::<
            bool,
            ErrKind,
        >::Ok(true)),
{
    let abc = seq![a, b, c];
    let ab = seq![a, b];
    let bc = seq![b, c];
    assert(abc[0] == a && abc[1] == b && abc[2] == c);
    assert(ab[0] == a && ab[1] == b);
    assert(bc[0] == b && bc[1] == c);
    assert(abc.drop_first() =~= bc);
    assert(ab.drop_first() =~= seq![b]);
    assert(bc.drop_first() =~= seq![c]);
    assert(spec_chain(op, seq![b]) == Result::<bool, ErrKind>::Ok(true));
    assert(spec_chain(op, seq![c]) == Result::<bool, ErrKind>::Ok(true));
}

/// What the registry says for the names the laws mention.
proof fn lemma_lookup_known()
    ensures
        spec_lookup("when"@) == Option::Some(FunctionType::Macro(MacroId::When)),
        spec_lookup("->"@) == Option::Some(FunctionType::Macro(MacroId::ThreadFirst)),
        spec_lookup("->>"@) == Option::Some(FunctionType::Macro(MacroId::ThreadLast)),
        spec_lookup("if"@) == Option::Some(
            FunctionType::SpecialForm(crate::registry::SpecialFormId::If),
        ),
        spec_lookup("do"@) == Option::Some(
            FunctionType::SpecialForm(crate::registry::SpecialFormId::Do),
        ),
        "->"@ != "fn"@,
        "->>"@ != "fn"@,
        "when"@ != "fn"@,
{
    reveal_strlit("get");
    reveal_strlit("get-in");
    reveal_strlit("first");
    reveal_strlit("last");
    reveal_strlit("rest");
    reveal_strlit("take");
    reveal_strlit("drop");
    reveal_strlit("nth");
    reveal_strlit("count");
    reveal_strlit("keys");
    reveal_strlit("vals");
    reveal_strlit("nil?");
    reveal_strlit("empty?");
    reveal_strlit("contains?");
    reveal_strlit("number?");
    reveal_strlit("string?");
    reveal_strlit("keyword?");
    reveal_strlit("boolean?");
    reveal_strlit("=");
    reveal_strlit("<");
    reveal_strlit(">");
    reveal_strlit("<=");
    reveal_strlit(">=");
    reveal_strlit("map");
    reveal_strlit("remove");
    reveal_strlit("select");
    reveal_strlit("select-keys");
    reveal_strlit("frequencies");
    reveal_strlit("if");
    reveal_strlit("do");
    reveal_strlit("->");
    reveal_strlit("->>");
    reveal_strlit("when");
    reveal_strlit("fn");
    assert("->"@[0] == '-' && "fn"@[0] == 'f');
    assert("->"@ != "fn"@);
    assert("->>"@.len() == 3 && "fn"@.len() == 2);
    assert("->>"@ != "fn"@);
    assert("when"@.len() == 4);
    assert("when"@ != "fn"@);
    assert("if"@.len() == 2 && "get"@.len() == 3);
    assert("if"@ != "get"@);
    assert("if"@.len() == 2 && "get-in"@.len() == 6);
    assert("if"@ != "get-in"@);
    assert("if"@.len() == 2 && "first"@.len() == 5);
    assert("if"@ != "first"@);
    assert("if"@.len() == 2 && "last"@.len() == 4);
    assert("if"@ != "last"@);
    assert("if"@.len() == 2 && "rest"@.len() == 4);
    assert("if"@ != "rest"@);
    assert("if"@.len() == 2 && "take"@.len() == 4);
    assert("if"@ != "take"@);
    assert("if"@.len() == 2 && "drop"@.len() == 4);
    assert("if"@ != "drop"@);
    assert("if"@.len() == 2 && "nth"@.len() == 3);
    assert("if"@ != "nth"@);
    assert("if"@.len() == 2 && "count"@.len() == 5);
    assert("if"@ != "count"@);
    assert("if"@.len() == 2 && "keys"@.len() == 4);
    assert("if"@ != "keys"@);
    assert("if"@.len() == 2 && "vals"@.len() == 4);
    assert("if"@ != "vals"@);
    assert("if"@.len() == 2 && "nil?"@.len() == 4);
    assert("if"@ != "nil?"@);
    assert("if"@.len() == 2 && "empty?"@.len() == 6);
    assert("if"@ != "empty?"@);
    assert("if"@.len() == 2 && "contains?"@.len() == 9);
    assert("if"@ != "contains?"@);
    assert("if"@.len() == 2 && "number?"@.len() == 7);
    assert("if"@ != "number?"@);
    assert("if"@.len() == 2 && "string?"@.len() == 7);
    assert("if"@ != "string?"@);
    assert("if"@.len() == 2 && "keyword?"@.len() == 8);
    assert("if"@ != "keyword?"@);
    assert("if"@.len() == 2 && "boolean?"@.len() == 8);
    assert("if"@ != "boolean?"@);
    assert("if"@.len() == 2 && "="@.len() == 1);
    assert("if"@ != "="@);
    assert("if"@.len() == 2 && "<"@.len() == 1);
    assert("if"@ != "<"@);
    assert("if"@.len() == 2 && ">"@.len() == 1);
    assert("if"@ != ">"@);
    assert("if"@[0] == 'i' && "<="@[0] == '<');
    assert("if"@ != "<="@);
    assert("if"@[0] == 'i' && ">="@[0] == '>');
    assert("if"@ != ">="@);
    assert("if"@.len() == 2 && "map"@.len() == 3);
    assert("if"@ != "map"@);
    assert("if"@.len() == 2 && "remove"@.len() == 6);
    assert("if"@ != "remove"@);
    assert("if"@.len() == 2 && "select"@.len() == 6);
    assert("if"@ != "select"@);
    assert("if"@.len() == 2 && "select-keys"@.len() == 11);
    assert("if"@ != "select-keys"@);
    assert("if"@.len() == 2 && "frequencies"@.len() == 11);
    assert("if"@ != "frequencies"@);
    assert("do"@.len() == 2 && "get"@.len() == 3);
    assert("do"@ != "get"@);
    assert("do"@.len() == 2 && "get-in"@.len() == 6);
    assert("do"@ != "get-in"@);
    assert("do"@.len() == 2 && "first"@.len() == 5);
    assert("do"@ != "first"@);
    assert("do"@.len() == 2 && "last"@.len() == 4);
    assert("do"@ != "last"@);
    assert("do"@.len() == 2 && "rest"@.len() == 4);
    assert("do"@ != "rest"@);
    assert("do"@.len() == 2 && "take"@.len() == 4);
    assert("do"@ != "take"@);
    assert("do"@.len() == 2 && "drop"@.len() == 4);
    assert("do"@ != "drop"@);
    assert("do"@.len() == 2 && "nth"@.len() == 3);
    assert("do"@ != "nth"@);
    assert("do"@.len() == 2 && "count"@.len() == 5);
    assert("do"@ != "count"@);
    assert("do"@.len() == 2 && "keys"@.len() == 4);
    assert("do"@ != "keys"@);
    assert("do"@.len() == 2 && "vals"@.len() == 4);
    assert("do"@ != "vals"@);
    assert("do"@.len() == 2 && "nil?"@.len() == 4);
    assert("do"@ != "nil?"@);
    assert("do"@.len() == 2 && "empty?"@.len() == 6);
    assert("do"@ != "empty?"@);
    assert("do"@.len() == 2 && "contains?"@.len() == 9);
    assert("do"@ != "contains?"@);
    assert("do"@.len() == 2 && "number?"@.len() == 7);
    assert("do"@ != "number?"@);
    assert("do"@.len() == 2 && "string?"@.len() == 7);
    assert("do"@ != "string?"@);
    assert("do"@.len() == 2 && "keyword?"@.len() == 8);
    assert("do"@ != "keyword?"@);
    assert("do"@.len() == 2 && "boolean?"@.len() == 8);
    assert("do"@ != "boolean?"@);
    assert("do"@.len() == 2 && "="@.len() == 1);
    assert("do"@ != "="@);
    assert("do"@.len() == 2 && "<"@.len() == 1);
    assert("do"@ != "<"@);
    assert("do"@.len() == 2 && ">"@.len() == 1);
    assert("do"@ != ">"@);
    assert("do"@[0] == 'd' && "<="@[0] == '<');
    assert("do"@ != "<="@);
    assert("do"@[0] == 'd' && ">="@[0] == '>');
    assert("do"@ != ">="@);
    assert("do"@.len() == 2 && "map"@.len() == 3);
    assert("do"@ != "map"@);
    assert("do"@.len() == 2 && "remove"@.len() == 6);
    assert("do"@ != "remove"@);
    assert("do"@.len() == 2 && "select"@.len() == 6);
    assert("do"@ != "select"@);
    assert("do"@.len() == 2 && "select-keys"@.len() == 11);
    assert("do"@ != "select-keys"@);
    assert("do"@.len() == 2 && "frequencies"@.len() == 11);
    assert("do"@ != "frequencies"@);
    assert("do"@[0] == 'd' && "if"@[0] == 'i');
    assert("do"@ != "if"@);
    assert("->"@.len() == 2 && "get"@.len() == 3);
    assert("->"@ != "get"@);
    assert("->"@.len() == 2 && "get-in"@.len() == 6);
    assert("->"@ != "get-in"@);
    assert("->"@.len() == 2 && "first"@.len() == 5);
    assert("->"@ != "first"@);
    assert("->"@.len() == 2 && "last"@.len() == 4);
    assert("->"@ != "last"@);
    assert("->"@.len() == 2 && "rest"@.len() == 4);
    assert("->"@ != "rest"@);
    assert("->"@.len() == 2 && "take"@.len() == 4);
    assert("->"@ != "take"@);
    assert("->"@.len() == 2 && "drop"@.len() == 4);
    assert("->"@ != "drop"@);
    assert("->"@.len() == 2 && "nth"@.len() == 3);
    assert("->"@ != "nth"@);
    assert("->"@.len() == 2 && "count"@.len() == 5);
    assert("->"@ != "count"@);
    assert("->"@.len() == 2 && "keys"@.len() == 4);
    assert("->"@ != "keys"@);
    assert("->"@.len() == 2 && "vals"@.len() == 4);
    assert("->"@ != "vals"@);
    assert("->"@.len() == 2 && "nil?"@.len() == 4);
    assert("->"@ != "nil?"@);
    assert("->"@.len() == 2 && "empty?"@.len() == 6);
    assert("->"@ != "empty?"@);
    assert("->"@.len() == 2 && "contains?"@.len() == 9);
    assert("->"@ != "contains?"@);
    assert("->"@.len() == 2 && "number?"@.len() == 7);
    assert("->"@ != "number?"@);
    assert("->"@.len() == 2 && "string?"@.len() == 7);
    assert("->"@ != "string?"@);
    assert("->"@.len() == 2 && "keyword?"@.len() == 8);
    assert("->"@ != "keyword?"@);
    assert("->"@.len() == 2 && "boolean?"@.len() == 8);
    assert("->"@ != "boolean?"@);
    assert("->"@.len() == 2 && "="@.len() == 1);
    assert("->"@ != "="@);
    assert("->"@.len() == 2 && "<"@.len() == 1);
    assert("->"@ != "<"@);
    assert("->"@.len() == 2 && ">"@.len() == 1);
    assert("->"@ != ">"@);
    assert("->"@[0] == '-' && "<="@[0] == '<');
    assert("->"@ != "<="@);
    assert("->"@[0] == '-' && ">="@[0] == '>');
    assert("->"@ != ">="@);
    assert("->"@.len() == 2 && "map"@.len() == 3);
    assert("->"@ != "map"@);
    assert("->"@.len() == 2 && "remove"@.len() == 6);
    assert("->"@ != "remove"@);
    assert("->"@.len() == 2 && "select"@.len() == 6);
    assert("->"@ != "select"@);
    assert("->"@.len() == 2 && "select-keys"@.len() == 11);
    assert("->"@ != "select-keys"@);
    assert("->"@.len() == 2 && "frequencies"@.len() == 11);
    assert("->"@ != "frequencies"@);
    assert("->"@[0] == '-' && "if"@[0] == 'i');
    assert("->"@ != "if"@);
    assert("->"@[0] == '-' && "do"@[0] == 'd');
    assert("->"@ != "do"@);
    assert("->>"@[0] == '-' && "get"@[0] == 'g');
    assert("->>"@ != "get"@);
    assert("->>"@.len() == 3 && "get-in"@.len() == 6);
    assert("->>"@ != "get-in"@);
    assert("->>"@.len() == 3 && "first"@.len() == 5);
    assert("->>"@ != "first"@);
    assert("->>"@.len() == 3 && "last"@.len() == 4);
    assert("->>"@ != "last"@);
    assert("->>"@.len() == 3 && "rest"@.len() == 4);
    assert("->>"@ != "rest"@);
    assert("->>"@.len() == 3 && "take"@.len() == 4);
    assert("->>"@ != "take"@);
    assert("->>"@.len() == 3 && "drop"@.len() == 4);
    assert("->>"@ != "drop"@);
    assert("->>"@[0] == '-' && "nth"@[0] == 'n');
    assert("->>"@ != "nth"@);
    assert("->>"@.len() == 3 && "count"@.len() == 5);
    assert("->>"@ != "count"@);
    assert("->>"@.len() == 3 && "keys"@.len() == 4);
    assert("->>"@ != "keys"@);
    assert("->>"@.len() == 3 && "vals"@.len() == 4);
    assert("->>"@ != "vals"@);
    assert("->>"@.len() == 3 && "nil?"@.len() == 4);
    assert("->>"@ != "nil?"@);
    assert("->>"@.len() == 3 && "empty?"@.len() == 6);
    assert("->>"@ != "empty?"@);
    assert("->>"@.len() == 3 && "contains?"@.len() == 9);
    assert("->>"@ != "contains?"@);
    assert("->>"@.len() == 3 && "number?"@.len() == 7);
    assert("->>"@ != "number?"@);
    assert("->>"@.len() == 3 && "string?"@.len() == 7);
    assert("->>"@ != "string?"@);
    assert("->>"@.len() == 3 && "keyword?"@.len() == 8);
    assert("->>"@ != "keyword?"@);
    assert("->>"@.len() == 3 && "boolean?"@.len() == 8);
    assert("->>"@ != "boolean?"@);
    assert("->>"@.len() == 3 && "="@.len() == 1);
    assert("->>"@ != "="@);
    assert("->>"@.len() == 3 && "<"@.len() == 1);
    assert("->>"@ != "<"@);
    assert("->>"@.len() == 3 && ">"@.len() == 1);
    assert("->>"@ != ">"@);
    assert("->>"@.len() == 3 && "<="@.len() == 2);
    assert("->>"@ != "<="@);
    assert("->>"@.len() == 3 && ">="@.len() == 2);
    assert("->>"@ != ">="@);
    assert("->>"@[0] == '-' && "map"@[0] == 'm');
    assert("->>"@ != "map"@);
    assert("->>"@.len() == 3 && "remove"@.len() == 6);
    assert("->>"@ != "remove"@);
    assert("->>"@.len() == 3 && "select"@.len() == 6);
    assert("->>"@ != "select"@);
    assert("->>"@.len() == 3 && "select-keys"@.len() == 11);
    assert("->>"@ != "select-keys"@);
    assert("->>"@.len() == 3 && "frequencies"@.len() == 11);
    assert("->>"@ != "frequencies"@);
    assert("->>"@.len() == 3 && "if"@.len() == 2);
    assert("->>"@ != "if"@);
    assert("->>"@.len() == 3 && "do"@.len() == 2);
    assert("->>"@ != "do"@);
    assert("->>"@.len() == 3 && "->"@.len() == 2);
    assert("->>"@ != "->"@);
    assert("when"@.len() == 4 && "get"@.len() == 3);
    assert("when"@ != "get"@);
    assert("when"@.len() == 4 && "get-in"@.len() == 6);
    assert("when"@ != "get-in"@);
    assert("when"@.len() == 4 && "first"@.len() == 5);
    assert("when"@ != "first"@);
    assert("when"@[0] == 'w' && "last"@[0] == 'l');
    assert("when"@ != "last"@);
    assert("when"@[0] == 'w' && "rest"@[0] == 'r');
    assert("when"@ != "rest"@);
    assert("when"@[0] == 'w' && "take"@[0] == 't');
    assert("when"@ != "take"@);
    assert("when"@[0] == 'w' && "drop"@[0] == 'd');
    assert("when"@ != "drop"@);
    assert("when"@.len() == 4 && "nth"@.len() == 3);
    assert("when"@ != "nth"@);
    assert("when"@.len() == 4 && "count"@.len() == 5);
    assert("when"@ != "count"@);
    assert("when"@[0] == 'w' && "keys"@[0] == 'k');
    assert("when"@ != "keys"@);
    assert("when"@[0] == 'w' && "vals"@[0] == 'v');
    assert("when"@ != "vals"@);
    assert("when"@[0] == 'w' && "nil?"@[0] == 'n');
    assert("when"@ != "nil?"@);
    assert("when"@.len() == 4 && "empty?"@.len() == 6);
    assert("when"@ != "empty?"@);
    assert("when"@.len() == 4 && "contains?"@.len() == 9);
    assert("when"@ != "contains?"@);
    assert("when"@.len() == 4 && "number?"@.len() == 7);
    assert("when"@ != "number?"@);
    assert("when"@.len() == 4 && "string?"@.len() == 7);
    assert("when"@ != "string?"@);
    assert("when"@.len() == 4 && "keyword?"@.len() == 8);
    assert("when"@ != "keyword?"@);
    assert("when"@.len() == 4 && "boolean?"@.len() == 8);
    assert("when"@ != "boolean?"@);
    assert("when"@.len() == 4 && "="@.len() == 1);
    assert("when"@ != "="@);
    assert("when"@.len() == 4 && "<"@.len() == 1);
    assert("when"@ != "<"@);
    assert("when"@.len() == 4 && ">"@.len() == 1);
    assert("when"@ != ">"@);
    assert("when"@.len() == 4 && "<="@.len() == 2);
    assert("when"@ != "<="@);
    assert("when"@.len() == 4 && ">="@.len() == 2);
    assert("when"@ != ">="@);
    assert("when"@.len() == 4 && "map"@.len() == 3);
    assert("when"@ != "map"@);
    assert("when"@.len() == 4 && "remove"@.len() == 6);
    assert("when"@ != "remove"@);
    assert("when"@.len() == 4 && "select"@.len() == 6);
    assert("when"@ != "select"@);
    assert("when"@.len() == 4 && "select-keys"@.len() == 11);
    assert("when"@ != "select-keys"@);
    assert("when"@.len() == 4 && "frequencies"@.len() == 11);
    assert("when"@ != "frequencies"@);
    assert("when"@.len() == 4 && "if"@.len() == 2);
    assert("when"@ != "if"@);
    assert("when"@.len() == 4 && "do"@.len() == 2);
    assert("when"@ != "do"@);
    assert("when"@.len() == 4 && "->"@.len() == 2);
    assert("when"@ != "->"@);
    assert("when"@.len() == 4 && "->>"@.len() == 3);
    assert("when"@ != "->>"@);
}

/// `when` equivalence: `(when t b)` evaluates exactly as
/// `(if t b nil)` does, for every test `t` and body `b` in analyzed
/// form — the macro call spends one unit of the call-depth budget on
/// its expansion, so the right-hand side runs at the budget the
/// expansion runs at.
pub proof fn lemma_when_equivalence(
    t: ExprView,
    b: ExprView,
    input: ValView,
    env: Seq<(Seq<char>, ValView)>,
    fuel: nat,
)
    requires
        is_analyzed(t),
        is_analyzed(b),
        fuel >= 1,
    ensures
        spec_eval(
            ExprView::Function { name: "when"@, args: seq![t, b] },
            input,
            env,
            fuel,
        ) == spec_eval(
            ExprView::Function {
                name: "if"@,
                args: seq![t, b, ExprView::Literal(ValView::Nil)],
            },
            input,
            env,
            (fuel - 1) as nat,
        ),
{
    lemma_lookup_known();
    let wargs = seq![t, b];
    assert(wargs[0] == t && wargs[1] == b);
    assert(wargs.drop_first() =~= seq![b]);
    let body = ExprView::Function { name: "do"@, args: seq![b] };
    let expansion = ExprView::Function {
        name: "if"@,
        args: seq![t, body, ExprView::Literal(ValView::Nil)],
    };
    assert(spec_when(wargs) == Result::<ExprView, ErrKind>::Ok(expansion));
    assert(seq![b][0] == b);
    assert(seq![b].drop_first() =~= Seq::<ExprView>::empty());
    assert(all_analyzed(Seq::<ExprView>::empty()));
    assert(all_analyzed(seq![b]));
    assert(is_analyzed(body));
    let eargs = seq![t, body, ExprView::Literal(ValView::Nil)];
    let e1 = eargs.drop_first();
    let e2 = e1.drop_first();
    assert(e1 =~= seq![body, ExprView::Literal(ValView::Nil)]);
    assert(e2 =~= seq![ExprView::Literal(ValView::Nil)]);
    assert(e2.drop_first() =~= Seq::<ExprView>::empty());
    assert(e2[0] == ExprView::Literal(ValView::Nil));
    assert(is_analyzed(ExprView::Literal(ValView::Nil)));
    assert(all_analyzed(e2));
    assert(e1[0] == body);
    assert(all_analyzed(e1));
    assert(eargs[0] == t);
    assert(all_analyzed(eargs));
    assert(is_analyzed(expansion));
    lemma_analyzed_fixed(expansion, ANALYZE_FUEL as nat);
    let f1 = (fuel - 1) as nat;
    assert(ANALYZE_FUEL as nat >= 1);
    assert(spec_analyze(expansion, ANALYZE_FUEL as nat) == Result::<ExprView, ErrKind>::Ok(
        expansion,
    ));
    assert(spec_eval(ExprView::Function { name: "when"@, args: wargs }, input, env, fuel)
        == spec_eval(expansion, input, env, f1));
    assert(spec_eval(expansion, input, env, f1) == spec_if(eargs, input, env, f1));
    let iargs = seq![t, b, ExprView::Literal(ValView::Nil)];
    assert(eargs[0] == t && eargs[1] == body && eargs[2] == ExprView::Literal(ValView::Nil));
    assert(iargs[0] == t && iargs[1] == b && iargs[2] == ExprView::Literal(ValView::Nil));
    assert(spec_eval(
        ExprView::Function { name: "if"@, args: iargs },
        input,
        env,
        f1,
    ) == spec_if(iargs, input, env, f1));
    match spec_eval(t, input, env, f1) {
        Result::Ok(test) => {
            if crate::value::truthy(test) {
                assert(seq![b][0] == b);
                assert(spec_do(seq![b], input, env, f1) == spec_eval(b, input, env, f1));
                assert(spec_eval(body, input, env, f1) == spec_eval(b, input, env, f1));
            }
        },
        Result::Err(_) => {},
    }
    assert(spec_if(eargs, input, env, f1) == spec_if(iargs, input, env, f1));
}

/// A threading step on analyzed operands yields an analyzed node.
proof fn lemma_step_analyzed(first: bool, acc: ExprView, form: ExprView)
    requires
        is_analyzed(acc),
        is_analyzed(form),
    ensures
        match crate::analyzer::spec_thread_step(first, acc, form) {
            Result::Ok(r) => is_analyzed(r),
            Result::Err(_) => true,
        },
{
    match crate::analyzer::spec_thread_step(first, acc, form) {
        Result::Ok(r) => {
            match form {
                ExprView::Symbol(name) => {
                    assert(seq![acc][0] == acc);
                    assert(seq![acc].drop_first() =~= Seq::<ExprView>::empty());
                    assert(all_analyzed(Seq::<ExprView>::empty()));
                    assert(all_analyzed(seq![acc]));
                },
                ExprView::KeywordAccess(name) => {},
                ExprView::Function { name, args } => {
                    lemma_all_analyzed_iff(args);
                    let newargs = if first {
                        seq![acc] + args
                    } else {
                        args.push(acc)
                    };
                    lemma_all_analyzed_iff(newargs);
                    assert forall|i: int| 0 <= i < newargs.len() implies is_analyzed(
                        #[trigger] newargs[i],
                    ) by {
                        if first {
                            if i > 0 {
                                assert(newargs[i] == args[i - 1]);
                            }
                        } else {
                            if i < args.len() {
                                assert(newargs[i] == args[i]);
                            }
                        }
                    }
                },
                _ => {},
            }
        },
        Result::Err(_) => {},
    }
}

/// A threading fold over analyzed forms, started from an analyzed
/// expression, yields an analyzed expression.
proof fn lemma_fold_analyzed(first: bool, acc: ExprView, forms: Seq<ExprView>)
    requires
        is_analyzed(acc),
        forall|i: int| 0 <= i < forms.len() ==> is_analyzed(#[trigger] forms[i]),
    ensures
        match crate::analyzer::spec_thread_fold(first, acc, forms) {
            Result::Ok(r) => is_analyzed(r),
            Result::Err(_) => true,
        },
    decreases forms.len(),
{
    if forms.len() > 0 {
        lemma_step_analyzed(first, acc, forms[0]);
        match crate::analyzer::spec_thread_step(first, acc, forms[0]) {
            Result::Ok(acc2) => {
                assert forall|i: int| 0 <= i < forms.drop_first().len() implies is_analyzed(
                    #[trigger] forms.drop_first()[i],
                ) by {
                    assert(forms.drop_first()[i] == forms[i + 1]);
                }
                lemma_fold_analyzed(first, acc2, forms.drop_first());
            },
            Result::Err(_) => {},
        }
    }
}

/// Threading equivalence: `(-> x f1 ... fn)` evaluates exactly as the
/// nested application its expansion denotes (each step inserting the
/// threaded expression as first argument; `->>` differs only in
/// inserting it as last argument) — the macro call spends one unit of
/// the call-depth budget on its expansion, so the nested form runs at
/// the budget the expansion runs at.
pub proof fn lemma_thread_equivalence(
    first: bool,
    args: Seq<ExprView>,
    input: ValView,
    env: Seq<(Seq<char>, ValView)>,
    fuel: nat,
)
    requires
        fuel >= 1,
        forall|i: int| 0 <= i < args.len() ==> is_analyzed(#[trigger] args[i]),
        crate::analyzer::spec_thread(first, args) is Ok,
    ensures
        spec_eval(
            ExprView::Function {
                name: if first {
                    "->"@
                } else {
                    "->>"@
                },
                args,
            },
            input,
            env,
            fuel,
        ) == spec_eval(
            crate::analyzer::spec_thread(first, args)->Ok_0,
            input,
            env,
            (fuel - 1) as nat,
        ),
{
    lemma_lookup_known();
    let nested = crate::analyzer::spec_thread(first, args)->Ok_0;
    assert(args.len() > 0);
    assert forall|i: int| 0 <= i < args.drop_first().len() implies is_analyzed(
        #[trigger] args.drop_first()[i],
    ) by {
        assert(args.drop_first()[i] == args[i + 1]);
    }
    lemma_fold_analyzed(first, args[0], args.drop_first());
    assert(is_analyzed(nested));
    lemma_analyzed_fixed(nested, ANALYZE_FUEL as nat);
}

/// Threading equivalence at the source level, covering the raw stage
/// shapes every surface query arrives in: a raw `(-> x f1 ... fn)`
/// form analyzes to exactly what its expansion — the corresponding
/// nested application, with each stage's own arguments staged like any
/// other parsed form — analyzes to, one rewrite pass later. `->>`
/// reads the same with the threaded expression inserted last. Since
/// the two pipelines produce the very same analyzed expression,
/// evaluating them against any input and environment is identical.
pub proof fn lemma_thread_source_equivalence(first: bool, elements: Seq<ValView>, fuel: nat)
    requires
        fuel >= 1,
        elements.len() >= 1,
        elements[0] == ValView::Symbol(
            if first {
                "->"@
            } else {
                "->>"@
            },
        ),
    ensures
        spec_analyze(ExprView::List(elements), fuel) == (match spec_expand(
            if first {
                MacroId::ThreadFirst
            } else {
                MacroId::ThreadLast
            },
            crate::analyzer::spec_stage_all(elements.drop_first()),
        ) {
            Result::Ok(nested) => spec_analyze(nested, (fuel - 1) as nat),
            Result::Err(k) => Result::<ExprView, ErrKind>::Err(k),
        }),
{
    lemma_lookup_known();
    let e = ExprView::List(elements);
    let m = if first {
        MacroId::ThreadFirst
    } else {
        MacroId::ThreadLast
    };
    let name = if first {
        "->"@
    } else {
        "->>"@
    };
    assert(name != "fn"@);
    assert(spec_lookup(name) == Option::Some(FunctionType::Macro(m)));
    match spec_expand(m, crate::analyzer::spec_stage_all(elements.drop_first())) {
        Result::Ok(nested) => {
            assert(spec_analyze_once(e, fuel) == Result::<ExprView, ErrKind>::Ok(nested));
            lemma_expand_never_self(m, elements, e);
            assert(nested != e);
        },
        Result::Err(_) => {},
    }
}

/// A key self-equal under `val_eq` and unique in the table looks
/// itself up to its own entry's value.
proof fn lemma_lookup_self(ps: Seq<(ValView, ValView)>, j: int)
    requires
        0 <= j < ps.len(),
        val_eq(ps[j].0, ps[j].0),
        forall|m: int, j2: int| 0 <= m < j2 < ps.len() ==> !val_eq(
            #[trigger] ps[m].0,
            #[trigger] ps[j2].0,
        ),
    ensures
        lookup_pairs(ps, ps[j].0) == Option::Some(ps[j].1),
    decreases j,
{
    if j == 0 {
    } else {
        assert(!val_eq(ps[0].0, ps[j].0));
        assert forall|m: int, j2: int|
            0 <= m < j2 < ps.drop_first().len() implies !val_eq(
            #[trigger] ps.drop_first()[m].0,
            #[trigger] ps.drop_first()[j2].0,
        ) by {
            assert(ps.drop_first()[m] == ps[m + 1]);
            assert(ps.drop_first()[j2] == ps[j2 + 1]);
        }
        assert(ps.drop_first()[j - 1] == ps[j]);
        lemma_lookup_self(ps.drop_first(), j - 1);
    }
}

/// Every entry the projection keeps is one of the table's entries.
proof fn lemma_filtered_pairs_from(ps: Seq<(ValView, ValView)>, ks: Seq<ValView>)
    ensures
        forall|i: int|
            0 <= i < filtered_pairs(ps, ks).len() ==> elem_in(
                ks,
                #[trigger] filtered_pairs(ps, ks)[i].0,
            ) && exists|j: int| 0 <= j < ps.len() && filtered_pairs(ps, ks)[i] == #[trigger] ps[j],
    decreases ps.len(),
{
    if ps.len() > 0 {
        lemma_filtered_pairs_from(ps.drop_last(), ks);
        let fp = filtered_pairs(ps, ks);
        let prev = filtered_pairs(ps.drop_last(), ks);
        assert forall|i: int| 0 <= i < fp.len() implies elem_in(ks, #[trigger] fp[i].0) && exists|
            j: int,
        | 0 <= j < ps.len() && fp[i] == #[trigger] ps[j] by {
            if i < prev.len() {
                assert(fp[i] == prev[i]);
                assert(elem_in(ks, filtered_pairs(ps.drop_last(), ks)[i].0) && exists|j: int|
                    0 <= j < ps.drop_last().len() && filtered_pairs(ps.drop_last(), ks)[i]
                        == #[trigger] ps.drop_last()[j]);
                let j = choose|j: int|
                    0 <= j < ps.drop_last().len() && filtered_pairs(ps.drop_last(), ks)[i]
                        == #[trigger] ps.drop_last()[j];
                assert(ps.drop_last()[j] == ps[j]);
                assert(fp[i] == ps[j]);
            } else {
                assert(elem_in(ks, ps.last().0));
                assert(fp[i] == ps.last());
                assert(ps.last() == ps[ps.len() - 1]);
            }
        }
    }
}

/// `select-keys` round trip: every key present in the projection of a
/// well-formed map (keys unique and self-equal) is drawn from the
/// requested key list, and its value equals what `get` returns for
/// that key on the original map.
pub proof fn lemma_select_keys_round_trip(ps: Seq<(ValView, ValView)>, ks: Seq<ValView>)
    requires
        forall|m: int, j2: int| 0 <= m < j2 < ps.len() ==> !val_eq(
            #[trigger] ps[m].0,
            #[trigger] ps[j2].0,
        ),
        forall|j: int| 0 <= j < ps.len() ==> val_eq(#[trigger] ps[j].0, ps[j].0),
    ensures
        forall|i: int|
            0 <= i < filtered_pairs(ps, ks).len() ==> elem_in(
                ks,
                #[trigger] filtered_pairs(ps, ks)[i].0,
            ) && lookup_pairs(ps, filtered_pairs(ps, ks)[i].0) == Option::Some(
                filtered_pairs(ps, ks)[i].1,
            ),
{
    lemma_filtered_pairs_from(ps, ks);
    let fp = filtered_pairs(ps, ks);
    assert forall|i: int| 0 <= i < fp.len() implies elem_in(ks, #[trigger] fp[i].0)
        && lookup_pairs(ps, fp[i].0) == Option::Some(fp[i].1) by {
        let j = choose|j: int| 0 <= j < ps.len() && fp[i] == #[trigger] ps[j];
        lemma_lookup_self(ps, j);
    }
}

} // verus!
