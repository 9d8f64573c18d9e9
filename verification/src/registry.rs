//! The function registry: a fixed table, built once, mapping a name to
//! a regular function, a special form, or a macro. Lookup is by name;
//! an unregistered name in call position surfaces as an error only at
//! evaluation time.

use vstd::prelude::*;

verus! {

/// The regular (eager) builtin functions.
#[derive(Debug, Clone, Copy, PartialEq, Eq, Structural)]
pub enum BuiltinId {
    Get,
    GetIn,
    First,
    Last,
    Rest,
    Take,
    Drop,
    Nth,
    Count,
    Keys,
    Vals,
    IsNil,
    IsEmpty,
    Contains,
    IsNumber,
    IsString,
    IsKeyword,
    IsBoolean,
    Equal,
    Less,
    Greater,
    LessEq,
    GreaterEq,
    MapFn,
    RemoveFn,
    SelectFn,
    SelectKeys,
    Frequencies,
}

/// The special forms, which control their own evaluation order.
#[derive(Debug, Clone, Copy, PartialEq, Eq, Structural)]
pub enum SpecialFormId {
    If,
    Do,
}

/// The macros, which rewrite syntax and never evaluate anything.
#[derive(Debug, Clone, Copy, PartialEq, Eq, Structural)]
pub enum MacroId {
    ThreadFirst,
    ThreadLast,
    When,
}

/// What a registered name stands for.
#[derive(Debug, Clone, Copy, PartialEq, Eq, Structural)]
pub enum FunctionType {
    Regular(BuiltinId),
    SpecialForm(SpecialFormId),
    Macro(MacroId),
}

/// The registry's content as a mathematical function of the name.
pub open spec fn spec_lookup(name: Seq<char>) -> Option<FunctionType> {
    if name == "get"@ {
        Option::Some(FunctionType::Regular(BuiltinId::Get))
    } else if name == "get-in"@ {
        Option::Some(FunctionType::Regular(BuiltinId::GetIn))
    } else if name == "first"@ {
        Option::Some(FunctionType::Regular(BuiltinId::First))
    } else if name == "last"@ {
        Option::Some(FunctionType::Regular(BuiltinId::Last))
    } else if name == "rest"@ {
        Option::Some(FunctionType::Regular(BuiltinId::Rest))
    } else if name == "take"@ {
        Option::Some(FunctionType::Regular(BuiltinId::Take))
    } else if name == "drop"@ {
        Option::Some(FunctionType::Regular(BuiltinId::Drop))
    } else if name == "nth"@ {
        Option::Some(FunctionType::Regular(BuiltinId::Nth))
    } else if name == "count"@ {
        Option::Some(FunctionType::Regular(BuiltinId::Count))
    } else if name == "keys"@ {
        Option::Some(FunctionType::Regular(BuiltinId::Keys))
    } else if name == "vals"@ {
        Option::Some(FunctionType::Regular(BuiltinId::Vals))
    } else if name == "nil?"@ {
        Option::Some(FunctionType::Regular(BuiltinId::IsNil))
    } else if name == "empty?"@ {
        Option::Some(FunctionType::Regular(BuiltinId::IsEmpty))
    } else if name == "contains?"@ {
        Option::Some(FunctionType::Regular(BuiltinId::Contains))
    } else if name == "number?"@ {
        Option::Some(FunctionType::Regular(BuiltinId::IsNumber))
    } else if name == "string?"@ {
        Option::Some(FunctionType::Regular(BuiltinId::IsString))
    } else if name == "keyword?"@ {
        Option::Some(FunctionType::Regular(BuiltinId::IsKeyword))
    } else if name == "boolean?"@ {
        Option::Some(FunctionType::Regular(BuiltinId::IsBoolean))
    } else if name == "="@ {
        Option::Some(FunctionType::Regular(BuiltinId::Equal))
    } else if name == "<"@ {
        Option::Some(FunctionType::Regular(BuiltinId::Less))
    } else if name == ">"@ {
        Option::Some(FunctionType::Regular(BuiltinId::Greater))
    } else if name == "<="@ {
        Option::Some(FunctionType::Regular(BuiltinId::LessEq))
    } else if name == ">="@ {
        Option::Some(FunctionType::Regular(BuiltinId::GreaterEq))
    } else if name == "map"@ {
        Option::Some(FunctionType::Regular(BuiltinId::MapFn))
    } else if name == "remove"@ {
        Option::Some(FunctionType::Regular(BuiltinId::RemoveFn))
    } else if name == "select"@ {
        Option::Some(FunctionType::Regular(BuiltinId::SelectFn))
    } else if name == "select-keys"@ {
        Option::Some(FunctionType::Regular(BuiltinId::SelectKeys))
    } else if name == "frequencies"@ {
        Option::Some(FunctionType::Regular(BuiltinId::Frequencies))
    } else if name == "if"@ {
        Option::Some(FunctionType::SpecialForm(SpecialFormId::If))
    } else if name == "do"@ {
        Option::Some(FunctionType::SpecialForm(SpecialFormId::Do))
    } else if name == "->"@ {
        Option::Some(FunctionType::Macro(MacroId::ThreadFirst))
    } else if name == "->>"@ {
        Option::Some(FunctionType::Macro(MacroId::ThreadLast))
    } else if name == "when"@ {
        Option::Some(FunctionType::Macro(MacroId::When))
    } else {
        Option::None
    }
}

/// Whether `name` names a macro.
pub open spec fn spec_is_macro(name: Seq<char>) -> bool {
    match spec_lookup(name) {
        Option::Some(FunctionType::Macro(_)) => true,
        _ => false,
    }
}

/// Whether a string equals a string literal.
pub fn name_is(name: &String, lit: &str) -> (r: bool)
    ensures
        r == (name@ == lit@),
{
    *name == lit.to_owned()
}

/// Builds the registry holding the full builtin set. The table is the
/// same on every call, so the value itself carries no state.
pub fn create_builtin_registry() -> FunctionRegistry {
    FunctionRegistry::new()
}

/// Registry for builtin functions, special forms and macros. The table
/// is fixed at construction — the full builtin set — and read-only
/// afterwards, so the registry itself carries no state.
#[derive(Debug, Clone, Copy, PartialEq, Eq, Structural)]
pub struct FunctionRegistry;

impl FunctionRegistry {
    pub fn new() -> FunctionRegistry {
        FunctionRegistry
    }

    /// Resolves a name to what it is registered as.
    pub fn get(&self, name: &String) -> (r: Option<FunctionType>)
        ensures
            r == spec_lookup(name@),
    {
        if name_is(name, "get") {
            Option::Some(FunctionType::Regular(BuiltinId::Get))
        } else if name_is(name, "get-in") {
            Option::Some(FunctionType::Regular(BuiltinId::GetIn))
        } else if name_is(name, "first") {
            Option::Some(FunctionType::Regular(BuiltinId::First))
        } else if name_is(name, "last") {
            Option::Some(FunctionType::Regular(BuiltinId::Last))
        } else if name_is(name, "rest") {
            Option::Some(FunctionType::Regular(BuiltinId::Rest))
        } else if name_is(name, "take") {
            Option::Some(FunctionType::Regular(BuiltinId::Take))
        } else if name_is(name, "drop") {
            Option::Some(FunctionType::Regular(BuiltinId::Drop))
        } else if name_is(name, "nth") {
            Option::Some(FunctionType::Regular(BuiltinId::Nth))
        } else if name_is(name, "count") {
            Option::Some(FunctionType::Regular(BuiltinId::Count))
        } else if name_is(name, "keys") {
            Option::Some(FunctionType::Regular(BuiltinId::Keys))
        } else if name_is(name, "vals") {
            Option::Some(FunctionType::Regular(BuiltinId::Vals))
        } else if name_is(name, "nil?") {
            Option::Some(FunctionType::Regular(BuiltinId::IsNil))
        } else if name_is(name, "empty?") {
            Option::Some(FunctionType::Regular(BuiltinId::IsEmpty))
        } else if name_is(name, "contains?") {
            Option::Some(FunctionType::Regular(BuiltinId::Contains))
        } else if name_is(name, "number?") {
            Option::Some(FunctionType::Regular(BuiltinId::IsNumber))
        } else if name_is(name, "string?") {
            Option::Some(FunctionType::Regular(BuiltinId::IsString))
        } else if name_is(name, "keyword?") {
            Option::Some(FunctionType::Regular(BuiltinId::IsKeyword))
        } else if name_is(name, "boolean?") {
            Option::Some(FunctionType::Regular(BuiltinId::IsBoolean))
        } else if name_is(name, "=") {
            Option::Some(FunctionType::Regular(BuiltinId::Equal))
        } else if name_is(name, "<") {
            Option::Some(FunctionType::Regular(BuiltinId::Less))
        } else if name_is(name, ">") {
            Option::Some(FunctionType::Regular(BuiltinId::Greater))
        } else if name_is(name, "<=") {
            Option::Some(FunctionType::Regular(BuiltinId::LessEq))
        } else if name_is(name, ">=") {
            Option::Some(FunctionType::Regular(BuiltinId::GreaterEq))
        } else if name_is(name, "map") {
            Option::Some(FunctionType::Regular(BuiltinId::MapFn))
        } else if name_is(name, "remove") {
            Option::Some(FunctionType::Regular(BuiltinId::RemoveFn))
        } else if name_is(name, "select") {
            Option::Some(FunctionType::Regular(BuiltinId::SelectFn))
        } else if name_is(name, "select-keys") {
            Option::Some(FunctionType::Regular(BuiltinId::SelectKeys))
        } else if name_is(name, "frequencies") {
            Option::Some(FunctionType::Regular(BuiltinId::Frequencies))
        } else if name_is(name, "if") {
            Option::Some(FunctionType::SpecialForm(SpecialFormId::If))
        } else if name_is(name, "do") {
            Option::Some(FunctionType::SpecialForm(SpecialFormId::Do))
        } else if name_is(name, "->") {
            Option::Some(FunctionType::Macro(MacroId::ThreadFirst))
        } else if name_is(name, "->>") {
            Option::Some(FunctionType::Macro(MacroId::ThreadLast))
        } else if name_is(name, "when") {
            Option::Some(FunctionType::Macro(MacroId::When))
        } else {
            Option::None
        }
    }
}

} // verus!
