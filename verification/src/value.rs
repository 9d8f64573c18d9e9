//! The value model: a closed tagged union of primitive and collection
//! values, together with its ghost view and the spec-level notion of
//! value equality that the query language uses.
//!
//! Maps are insertion-ordered associations with unique keys and sets are
//! insertion-ordered collections of distinct elements; both are held as
//! plain vectors of entries so that their contents stay visible to the
//! verifier. Floating-point numbers are carried opaquely as their IEEE-754
//! bit pattern plus the text they render to; the engine never does float
//! arithmetic, it only compares bit patterns (see the `float_bits` module).

use vstd::prelude::*;

verus! {

/// An EDN-style value. The variant names `MapV` and `SetV` stand for the
/// map and set collections; the bare words `Map` and `Set` name vstd's
/// spec collections and cannot be reused here.
#[derive(Debug, PartialEq)]
pub enum EdnValue {
    Nil,
    Bool(bool),
    String(String),
    Keyword(String),
    Symbol(String),
    Character(char),
    Integer(i64),
    /// An IEEE-754 double carried as its bit pattern, plus the text it
    /// displays as. The engine compares and hashes floats through the
    /// bits alone; the text only matters to the output formatter.
    Float { bits: u64, text: String },
    Vector(Vec<EdnValue>),
    List(Vec<EdnValue>),
    /// Insertion-ordered association; keys are unique up to `val_eq`.
    MapV(Vec<(EdnValue, EdnValue)>),
    /// Insertion-ordered collection of elements distinct up to `val_eq`.
    SetV(Vec<EdnValue>),
    Tagged { tag: String, value: Box<EdnValue> },
    WithMetadata { metadata: Box<EdnValue>, value: Box<EdnValue> },
    Instant(String),
    Uuid(String),
    /// An anonymous function: parameter names plus the body, captured as
    /// unanalyzed raw data. Analysis of the body is deferred to call time.
    Lambda { params: Vec<String>, body: Box<EdnValue> },
}

/// The ghost view of an `EdnValue`: the same tree over mathematical types.
pub enum ValView {
    Nil,
    Bool(bool),
    Str(Seq<char>),
    Keyword(Seq<char>),
    Symbol(Seq<char>),
    Character(char),
    Integer(i64),
    Float { bits: u64, text: Seq<char> },
    Vector(Seq<ValView>),
    List(Seq<ValView>),
    MapV(Seq<(ValView, ValView)>),
    SetV(Seq<ValView>),
    Tagged { tag: Seq<char>, value: Box<ValView> },
    WithMetadata { metadata: Box<ValView>, value: Box<ValView> },
    Instant(Seq<char>),
    Uuid(Seq<char>),
    Lambda { params: Seq<Seq<char>>, body: Box<ValView> },
}

pub open spec fn view_of_vals(s: Seq<EdnValue>) -> Seq<ValView>
    decreases s,
{
    if s.len() == 0 {
        Seq::empty()
    } else {
        view_of_vals(s.drop_last()).push(val_view(s.last()))
    }
}

pub open spec fn view_of_pairs(s: Seq<(EdnValue, EdnValue)>) -> Seq<(ValView, ValView)>
    decreases s,
{
    if s.len() == 0 {
        Seq::empty()
    } else {
        view_of_pairs(s.drop_last()).push((val_view(s.last().0), val_view(s.last().1)))
    }
}

pub open spec fn view_of_strings(s: Seq<String>) -> Seq<Seq<char>>
    decreases s,
{
    if s.len() == 0 {
        Seq::empty()
    } else {
        view_of_strings(s.drop_last()).push(s.last()@)
    }
}

pub open spec fn val_view(v: EdnValue) -> ValView
    decreases v,
{
    match v {
        EdnValue::Nil => ValView::Nil,
        EdnValue::Bool(b) => ValView::Bool(b),
        EdnValue::String(s) => ValView::Str(s@),
        EdnValue::Keyword(s) => ValView::Keyword(s@),
        EdnValue::Symbol(s) => ValView::Symbol(s@),
        EdnValue::Character(c) => ValView::Character(c),
        EdnValue::Integer(i) => ValView::Integer(i),
        EdnValue::Float { bits, text } => ValView::Float { bits, text: text@ },
        EdnValue::Vector(items) => ValView::Vector(view_of_vals(items@)),
        EdnValue::List(items) => ValView::List(view_of_vals(items@)),
        EdnValue::MapV(pairs) => ValView::MapV(view_of_pairs(pairs@)),
        EdnValue::SetV(items) => ValView::SetV(view_of_vals(items@)),
        EdnValue::Tagged { tag, value } => ValView::Tagged {
            tag: tag@,
            value: Box::new(val_view(*value)),
        },
        EdnValue::WithMetadata { metadata, value } => ValView::WithMetadata {
            metadata: Box::new(val_view(*metadata)),
            value: Box::new(val_view(*value)),
        },
        EdnValue::Instant(s) => ValView::Instant(s@),
        EdnValue::Uuid(s) => ValView::Uuid(s@),
        EdnValue::Lambda { params, body } => ValView::Lambda {
            params: view_of_strings(params@),
            body: Box::new(val_view(*body)),
        },
    }
}

impl View for EdnValue {
    type V = ValView;

    open spec fn view(&self) -> ValView {
        val_view(*self)
    }
}

pub broadcast proof fn lemma_view_of_vals(s: Seq<EdnValue>)
    ensures
        #[trigger] view_of_vals(s).len() == s.len(),
        forall|i: int| 0 <= i < s.len() ==> view_of_vals(s)[i] == val_view(s[i]),
    decreases s,
{
    if s.len() > 0 {
        lemma_view_of_vals(s.drop_last());
    }
}

pub broadcast proof fn lemma_view_of_pairs(s: Seq<(EdnValue, EdnValue)>)
    ensures
        #[trigger] view_of_pairs(s).len() == s.len(),
        forall|i: int| 0 <= i < s.len() ==> view_of_pairs(s)[i]
            == (val_view(s[i].0), val_view(s[i].1)),
    decreases s,
{
    if s.len() > 0 {
        lemma_view_of_pairs(s.drop_last());
    }
}

pub broadcast proof fn lemma_view_of_strings(s: Seq<String>)
    ensures
        #[trigger] view_of_strings(s).len() == s.len(),
        forall|i: int| 0 <= i < s.len() ==> view_of_strings(s)[i] == s[i]@,
    decreases s,
{
    if s.len() > 0 {
        lemma_view_of_strings(s.drop_last());
    }
}

/// Truthiness: every value is truthy except nil and boolean false.
pub open spec fn truthy(v: ValView) -> bool {
    !(v is Nil) && v != ValView::Bool(false)
}

/// The elements of a sequential value (vector or list); the metadata
/// wrapper is transparent.
pub open spec fn seq_items(v: ValView) -> Option<Seq<ValView>>
    decreases v,
{
    match v {
        ValView::Vector(items) => Option::Some(items),
        ValView::List(items) => Option::Some(items),
        ValView::WithMetadata { metadata, value } => seq_items(*value),
        _ => Option::None,
    }
}

pub open spec fn values_of(ps: Seq<(ValView, ValView)>) -> Seq<ValView> {
    ps.map_values(|p: (ValView, ValView)| p.1)
}

pub open spec fn keys_of(ps: Seq<(ValView, ValView)>) -> Seq<ValView> {
    ps.map_values(|p: (ValView, ValView)| p.0)
}

/// What iterating a value yields: vector and list elements in order,
/// map values in insertion order, set elements in insertion order;
/// everything else yields nothing.
pub open spec fn iter_items(v: ValView) -> Seq<ValView>
    decreases v,
{
    match v {
        ValView::Vector(items) => items,
        ValView::List(items) => items,
        ValView::MapV(pairs) => values_of(pairs),
        ValView::SetV(items) => items,
        ValView::WithMetadata { metadata, value } => iter_items(*value),
        _ => Seq::empty(),
    }
}

/// The number of elements a counted value holds: collections count
/// entries, strings count characters, anything else is not counted.
pub open spec fn count_of(v: ValView) -> Option<nat>
    decreases v,
{
    match v {
        ValView::Vector(items) => Option::Some(items.len()),
        ValView::List(items) => Option::Some(items.len()),
        ValView::MapV(pairs) => Option::Some(pairs.len()),
        ValView::SetV(items) => Option::Some(items.len()),
        ValView::Str(text) => Option::Some(text.len()),
        ValView::WithMetadata { metadata, value } => count_of(*value),
        _ => Option::None,
    }
}

/// Index lookup on a sequence, with negative indices counting from the
/// end; out of range is a miss, never an error.
pub open spec fn seq_index_get(s: Seq<ValView>, i: i64) -> Option<ValView> {
    if 0 <= i && i < s.len() {
        Option::Some(s[i as int])
    } else if i < 0 && 0 <= s.len() + i {
        Option::Some(s[s.len() + i])
    } else {
        Option::None
    }
}

/// Associative lookup: maps by key (structural value equality, first
/// match in insertion order), vectors and lists by integer index; the
/// metadata wrapper is transparent; everything else always misses.
pub open spec fn assoc_get(coll: ValView, key: ValView) -> Option<ValView>
    decreases coll,
{
    match coll {
        ValView::MapV(pairs) => crate::eq::lookup_pairs(pairs, key),
        ValView::Vector(items) => match key {
            ValView::Integer(i) => seq_index_get(items, i),
            _ => Option::None,
        },
        ValView::List(items) => match key {
            ValView::Integer(i) => seq_index_get(items, i),
            _ => Option::None,
        },
        ValView::WithMetadata { metadata, value } => assoc_get(*value, key),
        _ => Option::None,
    }
}

/// `assoc_get` folded over a path of keys, missing as soon as one step
/// misses.
pub open spec fn get_in_path(v: ValView, path: Seq<ValView>) -> Option<ValView>
    decreases path.len(),
{
    if path.len() == 0 {
        Option::Some(v)
    } else {
        match assoc_get(v, path[0]) {
            Option::Some(next) => get_in_path(next, path.drop_first()),
            Option::None => Option::None,
        }
    }
}

/// The name of a value's kind, as the error messages report it.
pub open spec fn kind_name_of(v: ValView) -> Seq<char> {
    match v {
        ValView::Nil => "nil"@,
        ValView::Bool(_) => "boolean"@,
        ValView::Str(_) => "string"@,
        ValView::Keyword(_) => "keyword"@,
        ValView::Symbol(_) => "symbol"@,
        ValView::Character(_) => "character"@,
        ValView::Integer(_) => "integer"@,
        ValView::Float { .. } => "float"@,
        ValView::Vector(_) => "vector"@,
        ValView::List(_) => "list"@,
        ValView::MapV(_) => "map"@,
        ValView::SetV(_) => "set"@,
        ValView::Tagged { .. } => "tagged"@,
        ValView::WithMetadata { .. } => "with-metadata"@,
        ValView::Instant(_) => "instant"@,
        ValView::Uuid(_) => "uuid"@,
        ValView::Lambda { .. } => "lambda"@,
    }
}

impl EdnValue {
    /// Returns the name of this value's kind.
    pub fn kind_name(&self) -> (r: &'static str)
        ensures
            r@ == kind_name_of(self@),
    {
        match self {
            EdnValue::Nil => "nil",
            EdnValue::Bool(_) => "boolean",
            EdnValue::String(_) => "string",
            EdnValue::Keyword(_) => "keyword",
            EdnValue::Symbol(_) => "symbol",
            EdnValue::Character(_) => "character",
            EdnValue::Integer(_) => "integer",
            EdnValue::Float { .. } => "float",
            EdnValue::Vector(_) => "vector",
            EdnValue::List(_) => "list",
            EdnValue::MapV(_) => "map",
            EdnValue::SetV(_) => "set",
            EdnValue::Tagged { .. } => "tagged",
            EdnValue::WithMetadata { .. } => "with-metadata",
            EdnValue::Instant(_) => "instant",
            EdnValue::Uuid(_) => "uuid",
            EdnValue::Lambda { .. } => "lambda",
        }
    }

    /// Everything is truthy except nil and false.
    pub fn is_truthy(&self) -> (r: bool)
        ensures
            r == truthy(self@),
    {
        match self {
            EdnValue::Nil => false,
            EdnValue::Bool(b) => *b,
            _ => true,
        }
    }

    /// The element count of a counted value; `None` for uncounted kinds.
    pub fn count(&self) -> (r: Option<usize>)
        ensures
            match r {
                Option::Some(n) => count_of(self@) == Option::Some(n as nat),
                Option::None => count_of(self@) is None,
            },
        decreases crate::eq::height(self@),
    {
        match self {
            EdnValue::Vector(items) => {
                proof {
                    lemma_view_of_vals(items@);
                }
                Option::Some(items.len())
            },
            EdnValue::List(items) => {
                proof {
                    lemma_view_of_vals(items@);
                }
                Option::Some(items.len())
            },
            EdnValue::MapV(pairs) => {
                proof {
                    lemma_view_of_pairs(pairs@);
                }
                Option::Some(pairs.len())
            },
            EdnValue::SetV(items) => {
                proof {
                    lemma_view_of_vals(items@);
                }
                Option::Some(items.len())
            },
            EdnValue::String(text) => Option::Some(text.as_str().unicode_len()),
            EdnValue::WithMetadata { metadata, value } => value.count(),
            _ => Option::None,
        }
    }

    /// Associative lookup (see `assoc_get`); borrows the found value.
    pub fn get<'a>(&'a self, key: &EdnValue) -> (r: Option<&'a EdnValue>)
        ensures
            match r {
                Option::Some(found) => assoc_get(self@, key@) == Option::Some(found@),
                Option::None => assoc_get(self@, key@) is None,
            },
        decreases crate::eq::height(self@),
    {
        match self {
            EdnValue::MapV(pairs) => {
                proof {
                    lemma_view_of_pairs(pairs@);
                }
                match crate::eq::lookup_index(pairs, key) {
                    Option::Some(i) => Option::Some(&pairs[i].1),
                    Option::None => Option::None,
                }
            },
            EdnValue::Vector(items) => Self::index_get(items, key),
            EdnValue::List(items) => Self::index_get(items, key),
            EdnValue::WithMetadata { metadata, value } => value.get(key),
            _ => Option::None,
        }
    }

    fn index_get<'a>(items: &'a Vec<EdnValue>, key: &EdnValue) -> (r: Option<&'a EdnValue>)
        ensures
            match key@ {
                ValView::Integer(i) => match r {
                    Option::Some(found) => seq_index_get(view_of_vals(items@), i)
                        == Option::Some(found@),
                    Option::None => seq_index_get(view_of_vals(items@), i) is None,
                },
                _ => r is None,
            },
    {
        proof {
            lemma_view_of_vals(items@);
        }
        let n = items.len();
        match key {
            EdnValue::Integer(i) => {
                if *i >= 0 {
                    if (*i as u64) < (n as u64) {
                        Option::Some(&items[*i as usize])
                    } else {
                        Option::None
                    }
                } else {
                    let back: u64 = if *i == i64::MIN {
                        0x8000_0000_0000_0000u64
                    } else {
                        (-*i) as u64
                    };
                    if back <= (n as u64) {
                        Option::Some(&items[n - (back as usize)])
                    } else {
                        Option::None
                    }
                }
            },
            _ => Option::None,
        }
    }

    /// `get` folded across a key path, missing at the first absent step.
    pub fn get_in<'a>(&'a self, path: &Vec<EdnValue>) -> (r: Option<&'a EdnValue>)
        ensures
            match r {
                Option::Some(found) => get_in_path(self@, view_of_vals(path@)) == Option::Some(
                    found@,
                ),
                Option::None => get_in_path(self@, view_of_vals(path@)) is None,
            },
    {
        let ghost pv = view_of_vals(path@);
        proof {
            lemma_view_of_vals(path@);
            assert(pv.skip(0) =~= pv);
        }
        let n = path.len();
        let mut current: &'a EdnValue = self;
        let mut i: usize = 0;
        while i < n
            invariant
                i <= n,
                n == path@.len(),
                pv == view_of_vals(path@),
                pv.len() == n,
                forall|j: int| 0 <= j < n ==> #[trigger] pv[j] == path@[j]@,
                get_in_path(self@, pv) == get_in_path(current@, pv.skip(i as int)),
            decreases n - i,
        {
            proof {
                assert(pv.skip(i as int)[0] == pv[i as int]);
                assert(pv.skip(i as int).drop_first() =~= pv.skip(i as int + 1));
            }
            match current.get(&path[i]) {
                Option::Some(next) => {
                    current = next;
                },
                Option::None => {
                    return Option::None;
                },
            }
            i = i + 1;
        }
        proof {
            assert(pv.skip(n as int) =~= Seq::<ValView>::empty());
        }
        Option::Some(current)
    }
}

/// The first element of a sequential value, or nothing.
pub open spec fn first_item(v: ValView) -> Option<ValView> {
    match seq_items(v) {
        Option::Some(s) => if s.len() > 0 {
            Option::Some(s[0])
        } else {
            Option::None
        },
        Option::None => Option::None,
    }
}

/// The last element of a sequential value, or nothing.
pub open spec fn last_item(v: ValView) -> Option<ValView> {
    match seq_items(v) {
        Option::Some(s) => if s.len() > 0 {
            Option::Some(s[s.len() - 1])
        } else {
            Option::None
        },
        Option::None => Option::None,
    }
}

/// All but the first element, always as a vector; empty for
/// non-sequential receivers.
pub open spec fn rest_of(v: ValView) -> ValView {
    ValView::Vector(
        match seq_items(v) {
            Option::Some(s) => if s.len() > 0 {
                s.drop_first()
            } else {
                Seq::empty()
            },
            Option::None => Seq::empty(),
        },
    )
}

/// The first `n` elements (or all, when fewer), always as a vector.
pub open spec fn take_of(v: ValView, n: u64) -> ValView {
    ValView::Vector(
        match seq_items(v) {
            Option::Some(s) => if n <= s.len() {
                s.take(n as int)
            } else {
                s
            },
            Option::None => Seq::empty(),
        },
    )
}

/// All but the first `n` elements (empty when fewer), always as a vector.
pub open spec fn drop_of(v: ValView, n: u64) -> ValView {
    ValView::Vector(
        match seq_items(v) {
            Option::Some(s) => if n <= s.len() {
                s.skip(n as int)
            } else {
                Seq::empty()
            },
            Option::None => Seq::empty(),
        },
    )
}

/// Copies a vector of values; the copy has the same view.
pub fn copy_vals(xs: &Vec<EdnValue>) -> (r: Vec<EdnValue>)
    ensures
        view_of_vals(r@) == view_of_vals(xs@),
        r@.len() == xs@.len(),
    decreases crate::eq::heights(view_of_vals(xs@)) + 1,
{
    let ghost vx = view_of_vals(xs@);
    proof {
        lemma_view_of_vals(xs@);
        crate::eq::lemma_heights_bound(vx);
    }
    let n = xs.len();
    let mut r: Vec<EdnValue> = Vec::new();
    let mut i: usize = 0;
    while i < n
        invariant
            i <= n,
            n == xs@.len(),
            vx == view_of_vals(xs@),
            vx.len() == n,
            forall|j: int| 0 <= j < n ==> #[trigger] vx[j] == xs@[j]@,
            forall|j: int| 0 <= j < n ==> crate::eq::height(#[trigger] vx[j])
                <= crate::eq::heights(vx),
            r@.len() == i,
            forall|j: int| 0 <= j < i ==> #[trigger] r@[j]@ == xs@[j]@,
        decreases n - i,
    {
        proof {
            assert(vx[i as int] == xs@[i as int]@);
            assert(crate::eq::height(vx[i as int]) <= crate::eq::heights(vx));
        }
        r.push(xs[i].deep_copy());
        i = i + 1;
    }
    proof {
        lemma_view_of_vals(r@);
        assert(view_of_vals(r@).len() == view_of_vals(xs@).len());
        assert forall|j: int| 0 <= j < n implies view_of_vals(r@)[j] == view_of_vals(xs@)[j] by {
            assert(view_of_vals(r@)[j] == r@[j]@);
            assert(view_of_vals(xs@)[j] == xs@[j]@);
            assert(r@[j]@ == xs@[j]@);
        }
        assert(view_of_vals(r@) =~= view_of_vals(xs@));
    }
    r
}

/// Copies a vector of entries; the copy has the same view.
pub fn copy_pairs(xs: &Vec<(EdnValue, EdnValue)>) -> (r: Vec<(EdnValue, EdnValue)>)
    ensures
        view_of_pairs(r@) == view_of_pairs(xs@),
        r@.len() == xs@.len(),
    decreases crate::eq::pair_heights(view_of_pairs(xs@)) + 1,
{
    let ghost px = view_of_pairs(xs@);
    proof {
        lemma_view_of_pairs(xs@);
        crate::eq::lemma_pair_heights_bound(px);
    }
    let n = xs.len();
    let mut r: Vec<(EdnValue, EdnValue)> = Vec::new();
    let mut i: usize = 0;
    while i < n
        invariant
            i <= n,
            n == xs@.len(),
            px == view_of_pairs(xs@),
            px.len() == n,
            forall|j: int| 0 <= j < n ==> #[trigger] px[j] == (xs@[j].0@, xs@[j].1@),
            forall|j: int| 0 <= j < n ==> crate::eq::height(#[trigger] px[j].0)
                + crate::eq::height(px[j].1) <= crate::eq::pair_heights(px),
            r@.len() == i,
            forall|j: int| 0 <= j < i ==> (#[trigger] r@[j].0@, r@[j].1@) == (
                xs@[j].0@,
                xs@[j].1@,
            ),
        decreases n - i,
    {
        proof {
            assert(px[i as int] == (xs@[i as int].0@, xs@[i as int].1@));
            assert(crate::eq::height(px[i as int].0) + crate::eq::height(px[i as int].1)
                <= crate::eq::pair_heights(px));
        }
        let k = xs[i].0.deep_copy();
        let v = xs[i].1.deep_copy();
        r.push((k, v));
        i = i + 1;
    }
    proof {
        lemma_view_of_pairs(r@);
        assert(view_of_pairs(r@).len() == view_of_pairs(xs@).len());
        assert forall|j: int| 0 <= j < n implies view_of_pairs(r@)[j] == view_of_pairs(xs@)[j] by {
            assert(view_of_pairs(r@)[j] == (r@[j].0@, r@[j].1@));
            assert(view_of_pairs(xs@)[j] == (xs@[j].0@, xs@[j].1@));
            assert((r@[j].0@, r@[j].1@) == (xs@[j].0@, xs@[j].1@));
        }
        assert(view_of_pairs(r@) =~= view_of_pairs(xs@));
    }
    r
}

/// Copies a parameter list; the copy has the same view.
pub fn copy_strings(xs: &Vec<String>) -> (r: Vec<String>)
    ensures
        view_of_strings(r@) == view_of_strings(xs@),
        r@.len() == xs@.len(),
{
    proof {
        lemma_view_of_strings(xs@);
    }
    let n = xs.len();
    let mut r: Vec<String> = Vec::new();
    let mut i: usize = 0;
    while i < n
        invariant
            i <= n,
            n == xs@.len(),
            r@.len() == i,
            forall|j: int| 0 <= j < i ==> #[trigger] r@[j]@ == xs@[j]@,
        decreases n - i,
    {
        r.push(xs[i].clone());
        i = i + 1;
    }
    proof {
        lemma_view_of_strings(r@);
        lemma_view_of_strings(xs@);
        assert(view_of_strings(r@) =~= view_of_strings(xs@));
    }
    r
}

impl EdnValue {
    /// Builds a value with the same view; the engine copies values this
    /// way because it never mutates them in place.
    pub fn deep_copy(&self) -> (r: EdnValue)
        ensures
            r@ == self@,
        decreases crate::eq::height(self@),
    {
        match self {
            EdnValue::Nil => EdnValue::Nil,
            EdnValue::Bool(b) => EdnValue::Bool(*b),
            EdnValue::String(s) => EdnValue::String(s.clone()),
            EdnValue::Keyword(s) => EdnValue::Keyword(s.clone()),
            EdnValue::Symbol(s) => EdnValue::Symbol(s.clone()),
            EdnValue::Character(c) => EdnValue::Character(*c),
            EdnValue::Integer(i) => EdnValue::Integer(*i),
            EdnValue::Float { bits, text } => EdnValue::Float { bits: *bits, text: text.clone() },
            EdnValue::Vector(items) => EdnValue::Vector(copy_vals(items)),
            EdnValue::List(items) => EdnValue::List(copy_vals(items)),
            EdnValue::MapV(pairs) => EdnValue::MapV(copy_pairs(pairs)),
            EdnValue::SetV(items) => EdnValue::SetV(copy_vals(items)),
            EdnValue::Tagged { tag, value } => EdnValue::Tagged {
                tag: tag.clone(),
                value: Box::new(value.deep_copy()),
            },
            EdnValue::WithMetadata { metadata, value } => EdnValue::WithMetadata {
                metadata: Box::new(metadata.deep_copy()),
                value: Box::new(value.deep_copy()),
            },
            EdnValue::Instant(s) => EdnValue::Instant(s.clone()),
            EdnValue::Uuid(s) => EdnValue::Uuid(s.clone()),
            EdnValue::Lambda { params, body } => EdnValue::Lambda {
                params: copy_strings(params),
                body: Box::new(body.deep_copy()),
            },
        }
    }

    /// The underlying element vector of a sequential value, metadata
    /// wrapper unwrapped; `None` for non-sequential receivers.
    fn seq_ref(&self) -> (r: Option<&Vec<EdnValue>>)
        ensures
            match r {
                Option::Some(items) => seq_items(self@) == Option::Some(view_of_vals(items@)),
                Option::None => seq_items(self@) is None,
            },
        decreases crate::eq::height(self@),
    {
        match self {
            EdnValue::Vector(items) => Option::Some(items),
            EdnValue::List(items) => Option::Some(items),
            EdnValue::WithMetadata { metadata, value } => value.seq_ref(),
            _ => Option::None,
        }
    }

    /// The first element of a vector or list, or nothing.
    pub fn first(&self) -> (r: Option<&EdnValue>)
        ensures
            match r {
                Option::Some(found) => first_item(self@) == Option::Some(found@),
                Option::None => first_item(self@) is None,
            },
    {
        match self.seq_ref() {
            Option::Some(items) => {
                proof {
                    lemma_view_of_vals(items@);
                }
                if items.len() > 0 {
                    Option::Some(&items[0])
                } else {
                    Option::None
                }
            },
            Option::None => Option::None,
        }
    }

    /// The last element of a vector or list, or nothing.
    pub fn last(&self) -> (r: Option<&EdnValue>)
        ensures
            match r {
                Option::Some(found) => last_item(self@) == Option::Some(found@),
                Option::None => last_item(self@) is None,
            },
    {
        match self.seq_ref() {
            Option::Some(items) => {
                proof {
                    lemma_view_of_vals(items@);
                }
                if items.len() > 0 {
                    Option::Some(&items[items.len() - 1])
                } else {
                    Option::None
                }
            },
            Option::None => Option::None,
        }
    }

    /// All elements but the first, as a fresh vector value.
    pub fn rest(&self) -> (r: EdnValue)
        ensures
            r@ == rest_of(self@),
    {
        match self.seq_ref() {
            Option::Some(items) => {
                proof {
                    lemma_view_of_vals(items@);
                }
                if items.len() == 0 {
                    let out: Vec<EdnValue> = Vec::new();
                    proof {
                        lemma_view_of_vals(out@);
                        assert(view_of_vals(out@) =~= Seq::<ValView>::empty());
                    }
                    EdnValue::Vector(out)
                } else {
                    let ghost sv = view_of_vals(items@);
                    let n = items.len();
                    let mut out: Vec<EdnValue> = Vec::new();
                    let mut i: usize = 1;
                    while i < n
                        invariant
                            1 <= i <= n,
                            n == items@.len(),
                            sv == view_of_vals(items@),
                            sv.len() == n,
                            forall|j: int| 0 <= j < n ==> #[trigger] sv[j] == items@[j]@,
                            out@.len() == i - 1,
                            forall|j: int| 0 <= j < i - 1 ==> #[trigger] out@[j]@ == items@[j
                                + 1]@,
                        decreases n - i,
                    {
                        out.push(items[i].deep_copy());
                        i = i + 1;
                    }
                    proof {
                        lemma_view_of_vals(out@);
                        assert(view_of_vals(out@).len() == sv.drop_first().len());
                        assert forall|j: int| 0 <= j < n - 1 implies view_of_vals(out@)[j]
                            == sv.drop_first()[j] by {
                            assert(view_of_vals(out@)[j] == out@[j]@);
                            assert(out@[j]@ == items@[j + 1]@);
                            assert(sv.drop_first()[j] == sv[j + 1]);
                            assert(sv[j + 1] == items@[j + 1]@);
                        }
                        assert(view_of_vals(out@) =~= sv.drop_first());
                    }
                    EdnValue::Vector(out)
                }
            },
            Option::None => {
                let out: Vec<EdnValue> = Vec::new();
                proof {
                    lemma_view_of_vals(out@);
                    assert(view_of_vals(out@) =~= Seq::<ValView>::empty());
                }
                EdnValue::Vector(out)
            },
        }
    }

    /// The first `n` elements, as a fresh vector value.
    pub fn take(&self, n: u64) -> (r: EdnValue)
        ensures
            r@ == take_of(self@, n),
    {
        match self.seq_ref() {
            Option::Some(items) => {
                proof {
                    lemma_view_of_vals(items@);
                }
                let ghost sv = view_of_vals(items@);
                let len = items.len();
                let m: usize = if n <= len as u64 {
                    n as usize
                } else {
                    len
                };
                let mut out: Vec<EdnValue> = Vec::new();
                let mut i: usize = 0;
                while i < m
                    invariant
                        i <= m <= len,
                        len == items@.len(),
                        sv == view_of_vals(items@),
                        sv.len() == len,
                        forall|j: int| 0 <= j < len ==> #[trigger] sv[j] == items@[j]@,
                        out@.len() == i,
                        forall|j: int| 0 <= j < i ==> #[trigger] out@[j]@ == items@[j]@,
                    decreases m - i,
                {
                    out.push(items[i].deep_copy());
                    i = i + 1;
                }
                proof {
                    lemma_view_of_vals(out@);
                    assert forall|j: int| 0 <= j < m implies view_of_vals(out@)[j] == sv[j] by {
                        assert(view_of_vals(out@)[j] == out@[j]@);
                        assert(out@[j]@ == items@[j]@);
                        assert(sv[j] == items@[j]@);
                    }
                    if n <= sv.len() {
                        assert(view_of_vals(out@) =~= sv.take(n as int));
                    } else {
                        assert(view_of_vals(out@) =~= sv);
                    }
                }
                EdnValue::Vector(out)
            },
            Option::None => {
                let out: Vec<EdnValue> = Vec::new();
                proof {
                    lemma_view_of_vals(out@);
                    assert(view_of_vals(out@) =~= Seq::<ValView>::empty());
                }
                EdnValue::Vector(out)
            },
        }
    }

    /// All but the first `n` elements, as a fresh vector value.
    pub fn drop(&self, n: u64) -> (r: EdnValue)
        ensures
            r@ == drop_of(self@, n),
    {
        match self.seq_ref() {
            Option::Some(items) => {
                proof {
                    lemma_view_of_vals(items@);
                }
                let ghost sv = view_of_vals(items@);
                let len = items.len();
                let start: usize = if n <= len as u64 {
                    n as usize
                } else {
                    len
                };
                let mut out: Vec<EdnValue> = Vec::new();
                let mut i: usize = start;
                while i < len
                    invariant
                        start <= i <= len,
                        len == items@.len(),
                        sv == view_of_vals(items@),
                        sv.len() == len,
                        forall|j: int| 0 <= j < len ==> #[trigger] sv[j] == items@[j]@,
                        out@.len() == i - start,
                        forall|j: int| 0 <= j < i - start ==> #[trigger] out@[j]@ == items@[j
                            + start]@,
                    decreases len - i,
                {
                    out.push(items[i].deep_copy());
                    i = i + 1;
                }
                proof {
                    lemma_view_of_vals(out@);
                    assert forall|j: int| 0 <= j < len - start implies view_of_vals(out@)[j] == sv[j
                        + start] by {
                        assert(view_of_vals(out@)[j] == out@[j]@);
                        assert(out@[j]@ == items@[j + start]@);
                        assert(sv[j + start] == items@[j + start]@);
                    }
                    if n <= sv.len() {
                        assert(view_of_vals(out@) =~= sv.skip(n as int));
                    } else {
                        assert(view_of_vals(out@) =~= Seq::<ValView>::empty());
                    }
                }
                EdnValue::Vector(out)
            },
            Option::None => {
                let out: Vec<EdnValue> = Vec::new();
                proof {
                    lemma_view_of_vals(out@);
                    assert(view_of_vals(out@) =~= Seq::<ValView>::empty());
                }
                EdnValue::Vector(out)
            },
        }
    }
}

} // verus!
