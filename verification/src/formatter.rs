//! The two output formatters: compact (single-line) and pretty
//! (indented, with size heuristics for inlining small collections).
//! Each is specified as a text function over value views and proved to
//! produce exactly that text. Sets print in their own insertion order,
//! which is already deterministic here.

use vstd::prelude::*;
use vstd::string::{StringExecFns, StrSliceExecFns};
use crate::value::{
    EdnValue, ValView, view_of_vals, view_of_pairs, view_of_strings, lemma_view_of_vals,
    lemma_view_of_pairs, lemma_view_of_strings,
};
use crate::eq::{height, heights, pair_heights, lemma_heights_bound, lemma_pair_heights_bound};
use crate::output::OutputConfig;
use crate::collection_formatter::{
    CollectionFormatter, layout_text, join_spaced, multiline_body, indent_text, views_of_strings,
    pair_texts,
};
use crate::primitives::{escaped, char_text, int_text, escape_string, format_character,
    format_integer, push_char};

verus! {

/// The compact rendering of a value: everything on one line, elements
/// a single space apart.
pub open spec fn compact_text(v: ValView, raw: bool) -> Seq<char>
    decreases v,
{
    match v {
        ValView::Nil => "nil"@,
        ValView::Bool(b) => if b {
            "true"@
        } else {
            "false"@
        },
        ValView::Str(s) => if raw {
            s
        } else {
            "\""@ + escaped(s) + "\""@
        },
        ValView::Keyword(k) => ":"@ + k,
        ValView::Symbol(s) => s,
        ValView::Character(c) => char_text(c),
        ValView::Integer(i) => int_text(i),
        ValView::Float { bits, text } => text,
        ValView::Vector(items) => "["@ + join_spaced(compact_texts(items, raw)) + "]"@,
        ValView::List(items) => "("@ + join_spaced(compact_texts(items, raw)) + ")"@,
        ValView::MapV(ps) => "{"@ + join_spaced(compact_pair_texts(ps, raw)) + "}"@,
        ValView::SetV(items) => "#{"@ + join_spaced(compact_texts(items, raw)) + "}"@,
        ValView::Tagged { tag, value } => "#"@ + tag + " "@ + compact_text(*value, raw),
        ValView::WithMetadata { metadata, value } => "^"@ + compact_text(*metadata, raw) + " "@
            + compact_text(*value, raw),
        ValView::Instant(s) => "#inst \""@ + s + "\""@,
        ValView::Uuid(s) => "#uuid \""@ + s + "\""@,
        ValView::Lambda { params, body } => "(fn ["@ + join_spaced(params) + "] "@ + compact_text(
            *body,
            raw,
        ) + ")"@,
    }
}

pub open spec fn compact_texts(items: Seq<ValView>, raw: bool) -> Seq<Seq<char>>
    decreases items,
{
    if items.len() == 0 {
        Seq::empty()
    } else {
        compact_texts(items.drop_last(), raw).push(compact_text(items.last(), raw))
    }
}

/// Each entry rendered as its key and value a space apart.
pub open spec fn compact_pair_texts(ps: Seq<(ValView, ValView)>, raw: bool) -> Seq<Seq<char>>
    decreases ps,
{
    if ps.len() == 0 {
        Seq::empty()
    } else {
        compact_pair_texts(ps.drop_last(), raw).push(
            compact_text(ps.last().0, raw) + " "@ + compact_text(ps.last().1, raw),
        )
    }
}

pub proof fn lemma_compact_texts(items: Seq<ValView>, raw: bool)
    ensures
        compact_texts(items, raw).len() == items.len(),
        forall|i: int| 0 <= i < items.len() ==> #[trigger] compact_texts(items, raw)[i]
            == compact_text(items[i], raw),
    decreases items,
{
    if items.len() > 0 {
        lemma_compact_texts(items.drop_last(), raw);
    }
}

pub proof fn lemma_compact_pair_texts(ps: Seq<(ValView, ValView)>, raw: bool)
    ensures
        compact_pair_texts(ps, raw).len() == ps.len(),
        forall|i: int| 0 <= i < ps.len() ==> #[trigger] compact_pair_texts(ps, raw)[i]
            == compact_text(ps[i].0, raw) + " "@ + compact_text(ps[i].1, raw),
    decreases ps,
{
    if ps.len() > 0 {
        lemma_compact_pair_texts(ps.drop_last(), raw);
    }
}

/// Compact formatter — no line breaks.
pub struct CompactFormatter;

impl CompactFormatter {
    /// Renders a value on one line.
    pub fn format(&self, value: &EdnValue, config: &OutputConfig, depth: usize) -> (r: String)
        ensures
            r@ == compact_text(value@, config.raw_strings),
        decreases height(value@), 1int,
    {
        match value {
            EdnValue::Nil => "nil".to_owned(),
            EdnValue::Bool(b) => if *b {
                "true".to_owned()
            } else {
                "false".to_owned()
            },
            EdnValue::String(s) => {
                if config.raw_strings {
                    s.clone()
                } else {
                    let mut out = "\"".to_owned();
                    let esc = escape_string(s.as_str());
                    out.append(esc.as_str());
                    out.append("\"");
                    out
                }
            },
            EdnValue::Keyword(k) => {
                let mut out = ":".to_owned();
                out.append(k.as_str());
                out
            },
            EdnValue::Symbol(s) => s.clone(),
            EdnValue::Character(c) => format_character(*c),
            EdnValue::Integer(i) => format_integer(*i),
            EdnValue::Float { bits, text } => text.clone(),
            EdnValue::Vector(items) => {
                let texts = self.texts_of(items, config);
                let cf = CollectionFormatter::new(config);
                let out = cf.format("[", "]", &texts, 0, true);
                proof {
                    self.lemma_layout_inline("["@, "]"@, views_of_strings(texts@));
                }
                out
            },
            EdnValue::List(items) => {
                let texts = self.texts_of(items, config);
                let cf = CollectionFormatter::new(config);
                let out = cf.format("(", ")", &texts, 0, true);
                proof {
                    self.lemma_layout_inline("("@, ")"@, views_of_strings(texts@));
                }
                out
            },
            EdnValue::SetV(items) => {
                let texts = self.texts_of(items, config);
                let cf = CollectionFormatter::new(config);
                let out = cf.format("#{", "}", &texts, 0, true);
                proof {
                    self.lemma_layout_inline("#{"@, "}"@, views_of_strings(texts@));
                }
                out
            },
            EdnValue::MapV(ps) => {
                let texts = self.pair_texts_of(ps, config);
                let cf = CollectionFormatter::new(config);
                let out = cf.format("{", "}", &texts, 0, true);
                proof {
                    self.lemma_layout_inline("{"@, "}"@, views_of_strings(texts@));
                }
                out
            },
            EdnValue::Tagged { tag, value } => {
                let mut out = "#".to_owned();
                out.append(tag.as_str());
                out.append(" ");
                let inner = self.format(value, config, 0);
                out.append(inner.as_str());
                out
            },
            EdnValue::WithMetadata { metadata, value } => {
                let mut out = "^".to_owned();
                let meta = self.format(metadata, config, 0);
                out.append(meta.as_str());
                out.append(" ");
                let inner = self.format(value, config, 0);
                out.append(inner.as_str());
                out
            },
            EdnValue::Instant(s) => {
                let mut out = "#inst \"".to_owned();
                out.append(s.as_str());
                out.append("\"");
                out
            },
            EdnValue::Uuid(s) => {
                let mut out = "#uuid \"".to_owned();
                out.append(s.as_str());
                out.append("\"");
                out
            },
            EdnValue::Lambda { params, body } => {
                proof {
                    lemma_view_of_strings(params@);
                }
                let ghost pv = view_of_strings(params@);
                let mut out = "(fn [".to_owned();
                let n = params.len();
                let mut i: usize = 0;
                while i < n
                    invariant
                        i <= n,
                        n == params@.len(),
                        pv == view_of_strings(params@),
                        pv.len() == n,
                        forall|j: int| 0 <= j < n ==> #[trigger] pv[j] == params@[j]@,
                        out@ == "(fn ["@ + join_spaced(pv.take(i as int)),
                    decreases n - i,
                {
                    proof {
                        assert(pv.take(i as int + 1).drop_last() =~= pv.take(i as int));
                        assert(pv.take(i as int + 1).last() == pv[i as int]);
                        assert(pv.take(1)[0] == pv[0]);
                    }
                    if i > 0 {
                        push_char(&mut out, ' ');
                    }
                    out.append(params[i].as_str());
                    i = i + 1;
                }
                proof {
                    assert(pv.take(n as int) =~= pv);
                }
                out.append("] ");
                let inner = self.format(body, config, 0);
                out.append(inner.as_str());
                out.append(")");
                out
            },
        }
    }

    /// Inline layout of non-empty or empty item lists is the joined
    /// form either way.
    proof fn lemma_layout_inline(&self, prefix: Seq<char>, suffix: Seq<char>, items: Seq<Seq<char>>)
        ensures
            layout_text(prefix, suffix, items, 0, true, false, 0) == prefix + join_spaced(items)
                + suffix,
            forall|depth: nat, tabs: bool, sz: nat|
                #[trigger] layout_text(prefix, suffix, items, depth, true, tabs, sz) == prefix
                    + join_spaced(items) + suffix,
    {
        assert forall|depth: nat, tabs: bool, sz: nat|
            #[trigger] layout_text(prefix, suffix, items, depth, true, tabs, sz) == prefix
                + join_spaced(items) + suffix by {
            if items.len() == 0 {
                assert(join_spaced(items) =~= Seq::<char>::empty());
                assert(prefix + join_spaced(items) + suffix =~= prefix + suffix);
            }
        }
    }

    /// Compact texts of every element.
    pub(crate) fn texts_of(&self, items: &Vec<EdnValue>, config: &OutputConfig) -> (r: Vec<String>)
        ensures
            views_of_strings(r@) == compact_texts(view_of_vals(items@), config.raw_strings),
        decreases height(ValView::Vector(view_of_vals(items@))), 0int,
    {
        let ghost iv = view_of_vals(items@);
        let ghost raw = config.raw_strings;
        proof {
            lemma_view_of_vals(items@);
            lemma_heights_bound(iv);
            lemma_compact_texts(iv, raw);
        }
        let n = items.len();
        let mut out: Vec<String> = Vec::new();
        let mut i: usize = 0;
        while i < n
            invariant
                i <= n,
                n == items@.len(),
                iv == view_of_vals(items@),
                raw == config.raw_strings,
                iv.len() == n,
                forall|j: int| 0 <= j < n ==> #[trigger] iv[j] == items@[j]@,
                forall|j: int| 0 <= j < n ==> height(#[trigger] iv[j]) <= heights(iv),
                compact_texts(iv, raw).len() == n,
                forall|j: int| 0 <= j < n ==> #[trigger] compact_texts(iv, raw)[j] == compact_text(
                    iv[j],
                    raw,
                ),
                out@.len() == i,
                forall|j: int| 0 <= j < i ==> #[trigger] out@[j]@ == compact_text(iv[j], raw),
            decreases n - i,
        {
            proof {
                assert(iv[i as int] == items@[i as int]@);
                assert(height(iv[i as int]) <= heights(iv));
            }
            out.push(self.format(&items[i], config, 0));
            i = i + 1;
        }
        proof {
            assert forall|j: int| 0 <= j < n implies views_of_strings(out@)[j] == compact_texts(
                iv,
                raw,
            )[j] by {
                assert(views_of_strings(out@)[j] == out@[j]@);
            }
            assert(views_of_strings(out@) =~= compact_texts(iv, raw));
        }
        out
    }

    /// Compact texts of every entry.
    pub(crate) fn pair_texts_of(&self, ps: &Vec<(EdnValue, EdnValue)>, config: &OutputConfig) -> (r: Vec<
        String,
    >)
        ensures
            views_of_strings(r@) == compact_pair_texts(view_of_pairs(ps@), config.raw_strings),
        decreases height(ValView::MapV(view_of_pairs(ps@))), 0int,
    {
        let ghost pv = view_of_pairs(ps@);
        let ghost raw = config.raw_strings;
        proof {
            lemma_view_of_pairs(ps@);
            lemma_pair_heights_bound(pv);
            lemma_compact_pair_texts(pv, raw);
        }
        let n = ps.len();
        let mut out: Vec<String> = Vec::new();
        let mut i: usize = 0;
        while i < n
            invariant
                i <= n,
                n == ps@.len(),
                pv == view_of_pairs(ps@),
                raw == config.raw_strings,
                pv.len() == n,
                forall|j: int| 0 <= j < n ==> #[trigger] pv[j] == (ps@[j].0@, ps@[j].1@),
                forall|j: int| 0 <= j < n ==> height(#[trigger] pv[j].0) + height(pv[j].1)
                    <= pair_heights(pv),
                compact_pair_texts(pv, raw).len() == n,
                forall|j: int| 0 <= j < n ==> #[trigger] compact_pair_texts(pv, raw)[j]
                    == compact_text(pv[j].0, raw) + " "@ + compact_text(pv[j].1, raw),
                out@.len() == i,
                forall|j: int| 0 <= j < i ==> #[trigger] out@[j]@ == compact_text(pv[j].0, raw)
                    + " "@ + compact_text(pv[j].1, raw),
            decreases n - i,
        {
            proof {
                assert(pv[i as int] == (ps@[i as int].0@, ps@[i as int].1@));
                assert(height(pv[i as int].0) + height(pv[i as int].1) <= pair_heights(pv));
            }
            let mut one = self.format(&ps[i].0, config, 0);
            one.append(" ");
            let vtext = self.format(&ps[i].1, config, 0);
            one.append(vtext.as_str());
            out.push(one);
            i = i + 1;
        }
        proof {
            assert forall|j: int| 0 <= j < n implies views_of_strings(out@)[j]
                == compact_pair_texts(pv, raw)[j] by {
                assert(views_of_strings(out@)[j] == out@[j]@);
            }
            assert(views_of_strings(out@) =~= compact_pair_texts(pv, raw));
        }
        out
    }
}

pub open spec fn sum_lens(texts: Seq<Seq<char>>) -> nat
    decreases texts,
{
    if texts.len() == 0 {
        0
    } else {
        sum_lens(texts.drop_last()) + texts.last().len()
    }
}

/// Whether a vector, list or set stays on one line: at most four
/// elements whose compact renderings fit a small budget.
pub open spec fn inline_items(items: Seq<ValView>, raw: bool) -> bool {
    items.len() <= 4 && sum_lens(compact_texts(items, raw)) + items.len() < 60
}

/// The size estimate of a map rendering.
pub open spec fn map_estimate(ps: Seq<(ValView, ValView)>, raw: bool) -> nat {
    sum_lens(compact_pair_texts(ps, raw)) + 2 * ps.len()
}

/// Whether a map stays on one line: at most two small entries.
pub open spec fn inline_map(ps: Seq<(ValView, ValView)>, raw: bool) -> bool {
    ps.len() <= 2 && map_estimate(ps, raw) < 50
}

/// Whether a value is a collection (the metadata wrapper is
/// transparent).
pub open spec fn is_coll(v: ValView) -> bool
    decreases v,
{
    match v {
        ValView::Vector(_) => true,
        ValView::List(_) => true,
        ValView::MapV(_) => true,
        ValView::SetV(_) => true,
        ValView::WithMetadata { metadata, value } => is_coll(*value),
        _ => false,
    }
}

pub open spec fn non_coll_items(items: Seq<ValView>) -> bool
    decreases items,
{
    items.len() == 0 || (!is_coll(items.last()) && non_coll_items(items.drop_last()))
}

pub open spec fn non_coll_pairs(ps: Seq<(ValView, ValView)>) -> bool
    decreases ps,
{
    ps.len() == 0 || (!is_coll(ps.last().0) && !is_coll(ps.last().1) && non_coll_pairs(
        ps.drop_last(),
    ))
}

/// Whether a collection holds no nested collection.
pub open spec fn is_simple_coll(v: ValView) -> bool
    decreases v,
{
    match v {
        ValView::Vector(items) => non_coll_items(items),
        ValView::List(items) => non_coll_items(items),
        ValView::SetV(items) => non_coll_items(items),
        ValView::MapV(ps) => non_coll_pairs(ps),
        ValView::WithMetadata { metadata, value } => is_simple_coll(*value),
        _ => true,
    }
}

/// One nesting level deeper, saturating below the machine word so the
/// depth counter never overflows.
pub open spec fn next_depth(d: nat) -> nat {
    if d >= usize::MAX - 1 {
        d
    } else {
        d + 1
    }
}

/// The pretty rendering of a value: small collections inline in their
/// compact form, larger ones one element per line, one level deeper.
pub open spec fn pretty_text(v: ValView, raw: bool, tabs: bool, sz: nat, depth: nat) -> Seq<char>
    decreases v, 1int,
{
    match v {
        ValView::Vector(items) => layout_text(
            "["@,
            "]"@,
            if inline_items(items, raw) {
                compact_texts(items, raw)
            } else {
                pretty_texts(items, raw, tabs, sz, next_depth(depth))
            },
            depth,
            inline_items(items, raw),
            tabs,
            sz,
        ),
        ValView::List(items) => layout_text(
            "("@,
            ")"@,
            if inline_items(items, raw) {
                compact_texts(items, raw)
            } else {
                pretty_texts(items, raw, tabs, sz, next_depth(depth))
            },
            depth,
            inline_items(items, raw),
            tabs,
            sz,
        ),
        ValView::SetV(items) => layout_text(
            "#{"@,
            "}"@,
            if inline_items(items, raw) {
                compact_texts(items, raw)
            } else {
                pretty_texts(items, raw, tabs, sz, next_depth(depth))
            },
            depth,
            inline_items(items, raw),
            tabs,
            sz,
        ),
        ValView::MapV(ps) => if inline_map(ps, raw) {
            layout_text("{"@, "}"@, compact_pair_texts(ps, raw), depth, true, tabs, sz)
        } else {
            "{"@ + pm_body(ps, raw, tabs, sz, depth) + "}"@
        },
        ValView::Tagged { tag, value } => "#"@ + tag + " "@ + pretty_text(
            *value,
            raw,
            tabs,
            sz,
            depth,
        ),
        ValView::WithMetadata { metadata, value } => "^"@ + pretty_text(
            *metadata,
            raw,
            tabs,
            sz,
            depth,
        ) + " "@ + pretty_text(*value, raw, tabs, sz, depth),
        ValView::Lambda { params, body } => "(fn ["@ + join_spaced(params) + "] "@ + pretty_text(
            *body,
            raw,
            tabs,
            sz,
            depth,
        ) + ")"@,
        _ => compact_text(v, raw),
    }
}

pub open spec fn pretty_texts(
    items: Seq<ValView>,
    raw: bool,
    tabs: bool,
    sz: nat,
    depth: nat,
) -> Seq<Seq<char>>
    decreases items, 0int,
{
    if items.len() == 0 {
        Seq::empty()
    } else {
        pretty_texts(items.drop_last(), raw, tabs, sz, depth).push(
            pretty_text(items.last(), raw, tabs, sz, depth),
        )
    }
}

/// The body of a multi-line map: each entry's key, then its value —
/// on a fresh indented line when the value is itself a non-trivial
/// collection.
pub open spec fn pm_body(
    ps: Seq<(ValView, ValView)>,
    raw: bool,
    tabs: bool,
    sz: nat,
    depth: nat,
) -> Seq<char>
    decreases ps, 0int,
{
    if ps.len() == 0 {
        Seq::empty()
    } else {
        pm_body(ps.drop_last(), raw, tabs, sz, depth) + (if ps.len() == 1 {
            seq![' ']
        } else {
            seq!['\n'] + indent_text(next_depth(depth), tabs, sz)
        }) + pretty_text(ps.last().0, raw, tabs, sz, next_depth(depth)) + seq![' '] + (if is_coll(
            ps.last().1,
        ) && !is_simple_coll(ps.last().1) {
            seq!['\n'] + indent_text(next_depth(depth), tabs, sz)
        } else {
            Seq::empty()
        }) + pretty_text(ps.last().1, raw, tabs, sz, next_depth(depth))
    }
}

pub proof fn lemma_pretty_texts(items: Seq<ValView>, raw: bool, tabs: bool, sz: nat, depth: nat)
    ensures
        pretty_texts(items, raw, tabs, sz, depth).len() == items.len(),
        forall|i: int| 0 <= i < items.len() ==> #[trigger] pretty_texts(
            items,
            raw,
            tabs,
            sz,
            depth,
        )[i] == pretty_text(items[i], raw, tabs, sz, depth),
    decreases items,
{
    if items.len() > 0 {
        lemma_pretty_texts(items.drop_last(), raw, tabs, sz, depth);
    }
}

proof fn lemma_non_coll_items_iff(items: Seq<ValView>)
    ensures
        non_coll_items(items) <==> forall|i: int| 0 <= i < items.len() ==> !is_coll(
            #[trigger] items[i],
        ),
    decreases items,
{
    if items.len() > 0 {
        lemma_non_coll_items_iff(items.drop_last());
        assert(items.last() == items[items.len() - 1]);
        if non_coll_items(items) {
            assert forall|i: int| 0 <= i < items.len() implies !is_coll(#[trigger] items[i]) by {
                if i < items.len() - 1 {
                    assert(items.drop_last()[i] == items[i]);
                }
            }
        }
        if forall|i: int| 0 <= i < items.len() ==> !is_coll(#[trigger] items[i]) {
            assert forall|i: int| 0 <= i < items.drop_last().len() implies !is_coll(
                #[trigger] items.drop_last()[i],
            ) by {
                assert(items.drop_last()[i] == items[i]);
            }
        }
    }
}

proof fn lemma_non_coll_pairs_iff(ps: Seq<(ValView, ValView)>)
    ensures
        non_coll_pairs(ps) <==> forall|i: int| 0 <= i < ps.len() ==> !is_coll(#[trigger] ps[i].0)
            && !is_coll(ps[i].1),
    decreases ps,
{
    if ps.len() > 0 {
        lemma_non_coll_pairs_iff(ps.drop_last());
        assert(ps.last() == ps[ps.len() - 1]);
        if non_coll_pairs(ps) {
            assert forall|i: int| 0 <= i < ps.len() implies !is_coll(#[trigger] ps[i].0)
                && !is_coll(ps[i].1) by {
                if i < ps.len() - 1 {
                    assert(ps.drop_last()[i] == ps[i]);
                    assert(ps.drop_last()[i].0 == ps[i].0);
                    assert(ps.drop_last()[i].1 == ps[i].1);
                } else {
                    assert(ps.last().0 == ps[i].0);
                    assert(ps.last().1 == ps[i].1);
                }
            }
        }
        if forall|i: int| 0 <= i < ps.len() ==> !is_coll(#[trigger] ps[i].0) && !is_coll(
            ps[i].1,
        ) {
            assert forall|i: int| 0 <= i < ps.drop_last().len() implies !is_coll(
                #[trigger] ps.drop_last()[i].0,
            ) && !is_coll(ps.drop_last()[i].1) by {
                assert(ps.drop_last()[i] == ps[i]);
                assert(ps[i].0 == ps.drop_last()[i].0);
                assert(ps[i].1 == ps.drop_last()[i].1);
                assert(!is_coll(ps[i].0) && !is_coll(ps[i].1));
            }
        }
    }
}

/// Pretty formatter — indented, multi-line.
pub struct PrettyFormatter;

impl PrettyFormatter {
    fn is_collection(&self, value: &EdnValue) -> (r: bool)
        ensures
            r == is_coll(value@),
        decreases height(value@),
    {
        match value {
            EdnValue::Vector(_) => true,
            EdnValue::List(_) => true,
            EdnValue::MapV(_) => true,
            EdnValue::SetV(_) => true,
            EdnValue::WithMetadata { metadata, value } => self.is_collection(value),
            _ => false,
        }
    }

    fn is_simple_collection(&self, value: &EdnValue) -> (r: bool)
        ensures
            r == is_simple_coll(value@),
        decreases height(value@),
    {
        match value {
            EdnValue::Vector(items) => self.items_simple(items),
            EdnValue::List(items) => self.items_simple(items),
            EdnValue::SetV(items) => self.items_simple(items),
            EdnValue::MapV(ps) => {
                let ghost pv = view_of_pairs(ps@);
                proof {
                    lemma_view_of_pairs(ps@);
                    lemma_non_coll_pairs_iff(pv);
                    lemma_pair_heights_bound(pv);
                }
                let n = ps.len();
                let mut i: usize = 0;
                while i < n
                    invariant
                        i <= n,
                        n == ps@.len(),
                        pv == view_of_pairs(ps@),
                        pv.len() == n,
                        value@ == ValView::MapV(pv),
                        forall|j: int| 0 <= j < n ==> #[trigger] pv[j] == (ps@[j].0@, ps@[j].1@),
                        forall|j: int| 0 <= j < n ==> height(#[trigger] pv[j].0) + height(pv[j].1)
                            <= pair_heights(pv),
                        non_coll_pairs(pv) <==> (forall|j: int|
                            0 <= j < n ==> !is_coll(#[trigger] pv[j].0) && !is_coll(pv[j].1)),
                        non_coll_pairs(pv.take(i as int)),
                    decreases n - i,
                {
                    proof {
                        assert(pv[i as int] == (ps@[i as int].0@, ps@[i as int].1@));
                        assert(height(pv[i as int].0) + height(pv[i as int].1) <= pair_heights(
                            pv,
                        ));
                        assert(pv.take(i as int + 1).drop_last() =~= pv.take(i as int));
                        assert(pv.take(i as int + 1).last() == pv[i as int]);
                    }
                    let k_coll = self.is_collection(&ps[i].0);
                    let v_coll = self.is_collection(&ps[i].1);
                    if k_coll || v_coll {
                        return false;
                    }
                    proof {
                        assert(!is_coll(pv[i as int].0));
                        assert(!is_coll(pv[i as int].1));
                        assert(non_coll_pairs(pv.take(i as int + 1)));
                    }
                    i = i + 1;
                }
                proof {
                    assert(pv.take(n as int) =~= pv);
                }
                true
            },
            EdnValue::WithMetadata { metadata, value } => self.is_simple_collection(value),
            _ => true,
        }
    }

    fn items_simple(&self, items: &Vec<EdnValue>) -> (r: bool)
        ensures
            r == non_coll_items(view_of_vals(items@)),
        decreases height(ValView::Vector(view_of_vals(items@))),
    {
        let ghost iv = view_of_vals(items@);
        proof {
            lemma_view_of_vals(items@);
            lemma_non_coll_items_iff(iv);
            lemma_heights_bound(iv);
        }
        let n = items.len();
        let mut i: usize = 0;
        while i < n
            invariant
                i <= n,
                n == items@.len(),
                iv == view_of_vals(items@),
                iv.len() == n,
                forall|j: int| 0 <= j < n ==> #[trigger] iv[j] == items@[j]@,
                forall|j: int| 0 <= j < n ==> height(#[trigger] iv[j]) <= heights(iv),
                non_coll_items(iv) <==> (forall|j: int|
                    0 <= j < n ==> !is_coll(#[trigger] iv[j])),
                forall|j: int| 0 <= j < i ==> !is_coll(#[trigger] iv[j]),
            decreases n - i,
        {
            proof {
                assert(iv[i as int] == items@[i as int]@);
                assert(height(iv[i as int]) <= heights(iv));
            }
            if self.is_collection(&items[i]) {
                return false;
            }
            i = i + 1;
        }
        true
    }

    /// Whether the items fit the inline budget, measured in their
    /// compact form.
    fn should_inline(&self, items: &Vec<EdnValue>, config: &OutputConfig) -> (r: bool)
        ensures
            r == inline_items(view_of_vals(items@), config.raw_strings),
    {
        let ghost iv = view_of_vals(items@);
        let ghost raw = config.raw_strings;
        proof {
            lemma_view_of_vals(items@);
        }
        if items.len() > 4 {
            return false;
        }
        let compact = CompactFormatter;
        let texts = compact.texts_of(items, config);
        let ghost ct = compact_texts(iv, raw);
        let n = texts.len();
        proof {
            lemma_compact_texts(iv, raw);
            assert(views_of_strings(texts@).len() == ct.len());
        }
        let mut sum: usize = 0;
        let mut i: usize = 0;
        while i < n
            invariant
                i <= n,
                n == texts@.len(),
                n == ct.len(),
                n <= 4,
                views_of_strings(texts@) == ct,
                forall|j: int| 0 <= j < n ==> #[trigger] texts@[j]@ == ct[j],
                sum <= 61 * i,
                (sum <= 59 && sum as nat == sum_lens(ct.take(i as int))) || (sum > 59 && sum_lens(
                    ct.take(i as int),
                ) > 59),
            decreases n - i,
        {
            proof {
                assert(ct.take(i as int + 1).drop_last() =~= ct.take(i as int));
                assert(ct.take(i as int + 1).last() == ct[i as int]);
            }
            let li = texts[i].as_str().unicode_len();
            let c: usize = if li > 61 {
                61
            } else {
                li
            };
            sum = sum + c;
            i = i + 1;
        }
        proof {
            assert(ct.take(n as int) =~= ct);
        }
        sum + items.len() < 60
    }

    /// Whether the map entries fit the inline budget.
    fn should_inline_pairs(&self, ps: &Vec<(EdnValue, EdnValue)>, config: &OutputConfig) -> (r:
        bool)
        ensures
            r == inline_map(view_of_pairs(ps@), config.raw_strings),
    {
        let ghost pv = view_of_pairs(ps@);
        let ghost raw = config.raw_strings;
        proof {
            lemma_view_of_pairs(ps@);
        }
        if ps.len() > 2 {
            return false;
        }
        let compact = CompactFormatter;
        let texts = compact.pair_texts_of(ps, config);
        let ghost ct = compact_pair_texts(pv, raw);
        let n = texts.len();
        proof {
            lemma_compact_pair_texts(pv, raw);
            assert(views_of_strings(texts@).len() == ct.len());
        }
        let mut sum: usize = 0;
        let mut i: usize = 0;
        while i < n
            invariant
                i <= n,
                n == texts@.len(),
                n == ct.len(),
                n <= 2,
                views_of_strings(texts@) == ct,
                forall|j: int| 0 <= j < n ==> #[trigger] texts@[j]@ == ct[j],
                sum <= 51 * i,
                (sum <= 49 && sum as nat == sum_lens(ct.take(i as int))) || (sum > 49 && sum_lens(
                    ct.take(i as int),
                ) > 49),
            decreases n - i,
        {
            proof {
                assert(ct.take(i as int + 1).drop_last() =~= ct.take(i as int));
                assert(ct.take(i as int + 1).last() == ct[i as int]);
            }
            let li = texts[i].as_str().unicode_len();
            let c: usize = if li > 51 {
                51
            } else {
                li
            };
            sum = sum + c;
            i = i + 1;
        }
        proof {
            assert(ct.take(n as int) =~= ct);
        }
        sum + 2 * ps.len() < 50
    }

    /// Pretty texts of every element, one nesting level deeper.
    fn ptexts_of(&self, items: &Vec<EdnValue>, config: &OutputConfig, depth: usize) -> (r: Vec<
        String,
    >)
        requires
            depth < usize::MAX,
        ensures
            views_of_strings(r@) == pretty_texts(
                view_of_vals(items@),
                config.raw_strings,
                config.use_tabs,
                config.indent_size as nat,
                depth as nat,
            ),
        decreases height(ValView::Vector(view_of_vals(items@))), 0int,
    {
        let ghost iv = view_of_vals(items@);
        let ghost raw = config.raw_strings;
        let ghost tabs = config.use_tabs;
        let ghost sz = config.indent_size as nat;
        proof {
            lemma_view_of_vals(items@);
            lemma_heights_bound(iv);
            lemma_pretty_texts(iv, raw, tabs, sz, depth as nat);
        }
        let n = items.len();
        let mut out: Vec<String> = Vec::new();
        let mut i: usize = 0;
        while i < n
            invariant
                i <= n,
                n == items@.len(),
                iv == view_of_vals(items@),
                raw == config.raw_strings && tabs == config.use_tabs && sz
                    == config.indent_size as nat,
                depth < usize::MAX,
                iv.len() == n,
                forall|j: int| 0 <= j < n ==> #[trigger] iv[j] == items@[j]@,
                forall|j: int| 0 <= j < n ==> height(#[trigger] iv[j]) <= heights(iv),
                pretty_texts(iv, raw, tabs, sz, depth as nat).len() == n,
                forall|j: int| 0 <= j < n ==> #[trigger] pretty_texts(
                    iv,
                    raw,
                    tabs,
                    sz,
                    depth as nat,
                )[j] == pretty_text(iv[j], raw, tabs, sz, depth as nat),
                out@.len() == i,
                forall|j: int| 0 <= j < i ==> #[trigger] out@[j]@ == pretty_text(
                    iv[j],
                    raw,
                    tabs,
                    sz,
                    depth as nat,
                ),
            decreases n - i,
        {
            proof {
                assert(iv[i as int] == items@[i as int]@);
                assert(height(iv[i as int]) <= heights(iv));
            }
            out.push(self.format(&items[i], config, depth));
            i = i + 1;
        }
        proof {
            assert forall|j: int| 0 <= j < n implies views_of_strings(out@)[j] == pretty_texts(
                iv,
                raw,
                tabs,
                sz,
                depth as nat,
            )[j] by {
                assert(views_of_strings(out@)[j] == out@[j]@);
            }
            assert(views_of_strings(out@) =~= pretty_texts(iv, raw, tabs, sz, depth as nat));
        }
        out
    }

    /// Renders a value with indentation; small collections inline.
    #[verifier::rlimit(100)]
    pub fn format(&self, value: &EdnValue, config: &OutputConfig, depth: usize) -> (r: String)
        requires
            depth < usize::MAX,
        ensures
            r@ == pretty_text(
                value@,
                config.raw_strings,
                config.use_tabs,
                config.indent_size as nat,
                depth as nat,
            ),
        decreases height(value@), 1int,
    {
        let ghost raw = config.raw_strings;
        let ghost tabs = config.use_tabs;
        let ghost sz = config.indent_size as nat;
        let next: usize = if depth >= usize::MAX - 1 {
            depth
        } else {
            depth + 1
        };
        match value {
            EdnValue::Vector(items) => {
                proof {
                    lemma_view_of_vals(items@);
                }
                let si = self.should_inline(items, config);
                let compact = CompactFormatter;
                let texts = if si {
                    compact.texts_of(items, config)
                } else {
                    self.ptexts_of(items, config, next)
                };
                let cf = CollectionFormatter::new(config);
                cf.format("[", "]", &texts, depth, si)
            },
            EdnValue::List(items) => {
                proof {
                    lemma_view_of_vals(items@);
                }
                let si = self.should_inline(items, config);
                let compact = CompactFormatter;
                let texts = if si {
                    compact.texts_of(items, config)
                } else {
                    self.ptexts_of(items, config, next)
                };
                let cf = CollectionFormatter::new(config);
                cf.format("(", ")", &texts, depth, si)
            },
            EdnValue::SetV(items) => {
                proof {
                    lemma_view_of_vals(items@);
                }
                let si = self.should_inline(items, config);
                let compact = CompactFormatter;
                let texts = if si {
                    compact.texts_of(items, config)
                } else {
                    self.ptexts_of(items, config, next)
                };
                let cf = CollectionFormatter::new(config);
                cf.format("#{", "}", &texts, depth, si)
            },
            EdnValue::MapV(ps) => {
                let ghost pv = view_of_pairs(ps@);
                proof {
                    lemma_view_of_pairs(ps@);
                    lemma_pair_heights_bound(pv);
                }
                let si = self.should_inline_pairs(ps, config);
                if si {
                    let compact = CompactFormatter;
                    let texts = compact.pair_texts_of(ps, config);
                    let cf = CollectionFormatter::new(config);
                    let out = cf.format("{", "}", &texts, depth, true);
                    proof {
                        let compactf = CompactFormatter;
                        compactf.lemma_layout_inline("{"@, "}"@, views_of_strings(texts@));
                        if views_of_strings(texts@).len() == 0 {
                        }
                        assert(layout_text(
                            "{"@,
                            "}"@,
                            views_of_strings(texts@),
                            depth as nat,
                            true,
                            tabs,
                            sz,
                        ) == "{"@ + join_spaced(views_of_strings(texts@)) + "}"@);
                    }
                    out
                } else {
                    let cf = CollectionFormatter::new(config);
                    let mut out = "{".to_owned();
                    let n = ps.len();
                    let mut i: usize = 0;
                    while i < n
                        invariant
                            i <= n,
                            n == ps@.len(),
                            pv == view_of_pairs(ps@),
                            raw == config.raw_strings && tabs == config.use_tabs && sz
                                == config.indent_size as nat,
                            depth < usize::MAX,
                            next == next_depth(depth as nat),
                            next < usize::MAX,
                            cf.config == config,
                            pv.len() == n,
                            value@ == ValView::MapV(pv),
                            forall|j: int| 0 <= j < n ==> #[trigger] pv[j] == (
                                ps@[j].0@,
                                ps@[j].1@,
                            ),
                            forall|j: int| 0 <= j < n ==> height(#[trigger] pv[j].0) + height(
                                pv[j].1,
                            ) <= pair_heights(pv),
                            out@ == "{"@ + pm_body(
                                pv.take(i as int),
                                raw,
                                tabs,
                                sz,
                                depth as nat,
                            ),
                        decreases n - i,
                    {
                        proof {
                            assert(pv.take(i as int + 1).drop_last() =~= pv.take(i as int));
                            assert(pv.take(i as int + 1).last() == pv[i as int]);
                            assert(pv[i as int] == (ps@[i as int].0@, ps@[i as int].1@));
                            assert(height(pv[i as int].0) + height(pv[i as int].1)
                                <= pair_heights(pv));
                        }
                        if i == 0 {
                            push_char(&mut out, ' ');
                        } else {
                            push_char(&mut out, '\n');
                            let ind = cf.indent(next);
                            out.append(ind.as_str());
                        }
                        let ktext = self.format(&ps[i].0, config, next);
                        out.append(ktext.as_str());
                        push_char(&mut out, ' ');
                        if self.is_collection(&ps[i].1) && !self.is_simple_collection(&ps[i].1) {
                            push_char(&mut out, '\n');
                            let ind = cf.indent(next);
                            out.append(ind.as_str());
                        }
                        let vtext = self.format(&ps[i].1, config, next);
                        out.append(vtext.as_str());
                        proof {
                            assert(out@ =~= "{"@ + pm_body(
                                pv.take(i as int + 1),
                                raw,
                                tabs,
                                sz,
                                depth as nat,
                            ));
                        }
                        i = i + 1;
                    }
                    out.append("}");
                    proof {
                        assert(pv.take(n as int) =~= pv);
                    }
                    out
                }
            },
            EdnValue::Tagged { tag, value } => {
                let mut out = "#".to_owned();
                out.append(tag.as_str());
                out.append(" ");
                let inner = self.format(value, config, depth);
                out.append(inner.as_str());
                out
            },
            EdnValue::WithMetadata { metadata, value } => {
                let mut out = "^".to_owned();
                let meta = self.format(metadata, config, depth);
                out.append(meta.as_str());
                out.append(" ");
                let inner = self.format(value, config, depth);
                out.append(inner.as_str());
                out
            },
            EdnValue::Lambda { params, body } => {
                proof {
                    lemma_view_of_strings(params@);
                }
                let ghost pvs = view_of_strings(params@);
                let mut out = "(fn [".to_owned();
                let n = params.len();
                let mut i: usize = 0;
                while i < n
                    invariant
                        i <= n,
                        n == params@.len(),
                        pvs == view_of_strings(params@),
                        pvs.len() == n,
                        forall|j: int| 0 <= j < n ==> #[trigger] pvs[j] == params@[j]@,
                        out@ == "(fn ["@ + join_spaced(pvs.take(i as int)),
                    decreases n - i,
                {
                    proof {
                        assert(pvs.take(i as int + 1).drop_last() =~= pvs.take(i as int));
                        assert(pvs.take(i as int + 1).last() == pvs[i as int]);
                        assert(pvs.take(1)[0] == pvs[0]);
                    }
                    if i > 0 {
                        push_char(&mut out, ' ');
                    }
                    out.append(params[i].as_str());
                    i = i + 1;
                }
                proof {
                    assert(pvs.take(n as int) =~= pvs);
                }
                out.append("] ");
                let inner = self.format(body, config, depth);
                out.append(inner.as_str());
                out.append(")");
                out
            },
            _ => {
                let compact = CompactFormatter;
                compact.format(value, config, 0)
            },
        }
    }
}

/// Renders a value for output: compact when the configuration says so,
/// pretty otherwise.
pub fn format_output(value: &EdnValue, config: &OutputConfig) -> (r: String)
    ensures
        config.compact ==> r@ == compact_text(value@, config.raw_strings),
        !config.compact ==> r@ == pretty_text(
            value@,
            config.raw_strings,
            config.use_tabs,
            config.indent_size as nat,
            0,
        ),
{
    if config.compact {
        let formatter = CompactFormatter;
        formatter.format(value, config, 0)
    } else {
        let formatter = PrettyFormatter;
        formatter.format(value, config, 0)
    }
}

} // verus!
