//! A unified layout engine for collection output: already-rendered
//! element texts are joined inline with spaces, or spread one per line
//! with indentation, between configurable delimiters.

use vstd::prelude::*;
use vstd::string::StringExecFns;
use crate::output::OutputConfig;
use crate::primitives::push_char;

verus! {

/// A character repeated `n` times.
pub open spec fn rep_char(c: char, n: nat) -> Seq<char>
    decreases n,
{
    if n == 0 {
        Seq::empty()
    } else {
        rep_char(c, (n - 1) as nat).push(c)
    }
}

/// Spaces per indent level, saturating at the machine word: an indent
/// too wide to measure is clamped rather than overflowing.
pub open spec fn indent_width(depth: nat, indent_size: nat) -> nat {
    if depth * indent_size > usize::MAX {
        usize::MAX as nat
    } else {
        depth * indent_size
    }
}

/// One level-`depth` indent: tabs, or `indent_size` spaces per level.
pub open spec fn indent_text(depth: nat, use_tabs: bool, indent_size: nat) -> Seq<char> {
    if use_tabs {
        rep_char('\t', depth)
    } else {
        rep_char(' ', indent_width(depth, indent_size))
    }
}

/// Texts joined by single spaces.
pub open spec fn join_spaced(items: Seq<Seq<char>>) -> Seq<char>
    decreases items.len(),
{
    if items.len() == 0 {
        Seq::empty()
    } else if items.len() == 1 {
        items[0]
    } else {
        join_spaced(items.drop_last()) + seq![' '] + items.last()
    }
}

/// The body of a multi-line layout: the first item after one space,
/// every later item on its own line behind a level-(depth+1) indent.
pub open spec fn multiline_body(
    items: Seq<Seq<char>>,
    depth: nat,
    use_tabs: bool,
    indent_size: nat,
) -> Seq<char>
    decreases items.len(),
{
    if items.len() == 0 {
        Seq::empty()
    } else if items.len() == 1 {
        seq![' '] + items[0]
    } else {
        multiline_body(items.drop_last(), depth, use_tabs, indent_size) + seq!['\n'] + indent_text(
            depth + 1,
            use_tabs,
            indent_size,
        ) + items.last()
    }
}

/// What the layout engine produces: delimiters around an inline or
/// multi-line body.
pub open spec fn layout_text(
    prefix: Seq<char>,
    suffix: Seq<char>,
    items: Seq<Seq<char>>,
    depth: nat,
    should_inline: bool,
    use_tabs: bool,
    indent_size: nat,
) -> Seq<char> {
    if items.len() == 0 {
        prefix + suffix
    } else if should_inline {
        prefix + join_spaced(items) + suffix
    } else {
        prefix + multiline_body(items, depth, use_tabs, indent_size) + suffix
    }
}

pub open spec fn views_of_strings(s: Seq<String>) -> Seq<Seq<char>> {
    s.map_values(|x: String| x@)
}

/// A rendered key-value pair: the two texts a space apart.
pub open spec fn pair_texts(s: Seq<(String, String)>) -> Seq<Seq<char>> {
    s.map_values(|p: (String, String)| p.0@ + seq![' '] + p.1@)
}

/// Lays out collections whose elements are already rendered.
pub struct CollectionFormatter<'a> {
    pub config: &'a OutputConfig,
}

impl<'a> CollectionFormatter<'a> {
    pub fn new(config: &'a OutputConfig) -> (cf: CollectionFormatter<'a>)
        ensures
            cf.config == config,
    {
        CollectionFormatter { config }
    }

    /// One indent at the given depth, per the configuration.
    pub fn indent(&self, depth: usize) -> (r: String)
        ensures
            r@ == indent_text(depth as nat, self.config.use_tabs, self.config.indent_size as nat),
    {
        self.make_indent(depth)
    }

    fn make_indent(&self, depth: usize) -> (r: String)
        ensures
            r@ == indent_text(depth as nat, self.config.use_tabs, self.config.indent_size as nat),
    {
        let mut out = String::new();
        if self.config.use_tabs {
            let mut i: usize = 0;
            while i < depth
                invariant
                    i <= depth,
                    out@ == rep_char('\t', i as nat),
                decreases depth - i,
            {
                push_char(&mut out, '\t');
                i = i + 1;
            }
        } else {
            let size = self.config.indent_size;
            proof {
                if size != 0 {
                    vstd::arithmetic::div_mod::lemma_fundamental_div_mod(
                        usize::MAX as int,
                        size as int,
                    );
                    if depth > usize::MAX / size {
                        assert(depth * size > usize::MAX) by (nonlinear_arith)
                            requires
                                depth >= usize::MAX / size + 1,
                                size >= 1,
                                usize::MAX as int == (usize::MAX as int / size as int) * (
                                size as int) + (usize::MAX as int % size as int),
                                (usize::MAX as int % size as int) < size as int,
                        ;
                    } else {
                        assert(depth * size <= usize::MAX) by (nonlinear_arith)
                            requires
                                depth <= usize::MAX / size,
                                size >= 1,
                                usize::MAX as int == (usize::MAX as int / size as int) * (
                                size as int) + (usize::MAX as int % size as int),
                                0 <= (usize::MAX as int % size as int),
                        ;
                    }
                }
            }
            let total: usize = if size != 0 && depth > usize::MAX / size {
                usize::MAX
            } else {
                depth * size
            };
            proof {
                assert(total as nat == indent_width(depth as nat, size as nat));
            }
            let mut i: usize = 0;
            while i < total
                invariant
                    i <= total,
                    out@ == rep_char(' ', i as nat),
                decreases total - i,
            {
                push_char(&mut out, ' ');
                i = i + 1;
            }
        }
        out
    }

    /// Helper for multi-line formatting.
    fn format_multiline(&self, prefix: &str, suffix: &str, items: &Vec<String>, depth: usize) -> (
        r: String)
        requires
            depth < usize::MAX,
        ensures
            r@ == prefix@ + multiline_body(
                views_of_strings(items@),
                depth as nat,
                self.config.use_tabs,
                self.config.indent_size as nat,
            ) + suffix@,
    {
        let ghost tv = views_of_strings(items@);
        let mut out = prefix.to_owned();
        let n = items.len();
        let mut i: usize = 0;
        while i < n
            invariant
                i <= n,
                n == items@.len(),
                tv == views_of_strings(items@),
                tv.len() == n,
                depth < usize::MAX,
                out@ == prefix@ + multiline_body(
                    tv.take(i as int),
                    depth as nat,
                    self.config.use_tabs,
                    self.config.indent_size as nat,
                ),
            decreases n - i,
        {
            proof {
                assert(tv.take(i as int + 1).drop_last() =~= tv.take(i as int));
                assert(tv.take(i as int + 1).last() == tv[i as int]);
                assert(tv[i as int] == items@[i as int]@);
            }
            if i == 0 {
                push_char(&mut out, ' ');
            } else {
                push_char(&mut out, '\n');
                let ind = self.make_indent(depth + 1);
                out.append(ind.as_str());
            }
            out.append(items[i].as_str());
            i = i + 1;
        }
        out.append(suffix);
        proof {
            assert(tv.take(n as int) =~= tv);
        }
        out
    }

    /// Lays out any collection with customizable delimiters.
    pub fn format(
        &self,
        prefix: &str,
        suffix: &str,
        items: &Vec<String>,
        depth: usize,
        should_inline: bool,
    ) -> (r: String)
        requires
            depth < usize::MAX,
        ensures
            r@ == layout_text(
                prefix@,
                suffix@,
                views_of_strings(items@),
                depth as nat,
                should_inline,
                self.config.use_tabs,
                self.config.indent_size as nat,
            ),
    {
        let ghost tv = views_of_strings(items@);
        if items.len() == 0 {
            let mut out = prefix.to_owned();
            out.append(suffix);
            return out;
        }
        if should_inline {
            let mut out = prefix.to_owned();
            let n = items.len();
            let mut i: usize = 0;
            while i < n
                invariant
                    i <= n,
                    n == items@.len(),
                    tv == views_of_strings(items@),
                    tv.len() == n,
                    out@ == prefix@ + join_spaced(tv.take(i as int)),
                decreases n - i,
            {
                proof {
                    assert(tv.take(i as int + 1).drop_last() =~= tv.take(i as int));
                    assert(tv.take(i as int + 1).last() == tv[i as int]);
                    assert(tv[i as int] == items@[i as int]@);
                    assert(tv.take(1)[0] == tv[0]);
                }
                if i > 0 {
                    push_char(&mut out, ' ');
                }
                out.append(items[i].as_str());
                i = i + 1;
            }
            out.append(suffix);
            proof {
                assert(tv.take(n as int) =~= tv);
            }
            out
        } else {
            self.format_multiline(prefix, suffix, items, depth)
        }
    }

    /// Lays out key-value pairs (for maps).
    pub fn format_pairs(
        &self,
        prefix: &str,
        suffix: &str,
        pairs: &Vec<(String, String)>,
        depth: usize,
        should_inline: bool,
    ) -> (r: String)
        requires
            depth < usize::MAX,
        ensures
            r@ == layout_text(
                prefix@,
                suffix@,
                pair_texts(pairs@),
                depth as nat,
                should_inline,
                self.config.use_tabs,
                self.config.indent_size as nat,
            ),
    {
        let ghost pt = pair_texts(pairs@);
        let n = pairs.len();
        let mut items: Vec<String> = Vec::new();
        let mut i: usize = 0;
        while i < n
            invariant
                i <= n,
                n == pairs@.len(),
                pt == pair_texts(pairs@),
                pt.len() == n,
                items@.len() == i,
                forall|j: int| 0 <= j < i ==> #[trigger] items@[j]@ == pt[j],
            decreases n - i,
        {
            proof {
                assert(pt[i as int] == pairs@[i as int].0@ + seq![' '] + pairs@[i as int].1@);
            }
            let mut one = pairs[i].0.clone();
            push_char(&mut one, ' ');
            one.append(pairs[i].1.as_str());
            items.push(one);
            i = i + 1;
        }
        proof {
            assert forall|j: int| 0 <= j < n implies views_of_strings(items@)[j] == pt[j] by {
                assert(views_of_strings(items@)[j] == items@[j]@);
            }
            assert(views_of_strings(items@) =~= pt);
        }
        self.format(prefix, suffix, &items, depth, should_inline)
    }

    /// Whether a map of `size` entries whose rendering is estimated at
    /// `estimated_length` characters stays on one line.
    pub fn should_inline_map(&self, size: usize, estimated_length: usize) -> (r: bool)
        ensures
            r == (size <= 2 && estimated_length < 50),
    {
        size <= 2 && estimated_length < 50
    }
}

} // verus!
