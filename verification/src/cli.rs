//! Command-line argument parsing: a filter expression, input file
//! names, and the output and input-mode flags. The grammar is
//! specified as a fold over the argument tokens, and the parser is
//! proved to produce exactly what the fold says.

use vstd::prelude::*;
use crate::error::{EqError, EqResult, ErrKind};
use crate::registry::name_is;
use crate::collection_formatter::views_of_strings;
use vstd::string::StrSliceExecFns;

verus! {

/// The parsed command line.
#[derive(Debug)]
pub struct Args {
    /// Filter expression to apply.
    pub filter: String,
    /// Input files (the driver reads stdin if none are given).
    pub files: Vec<String>,
    /// Compact instead of pretty-printed output.
    pub compact: bool,
    /// Output raw strings, not quoted strings.
    pub raw_output: bool,
    /// Each line of input is a string, not parsed as structured data.
    pub raw_input: bool,
    /// Read the entire input stream into one vector.
    pub slurp: bool,
    /// Don't read input; the filter gets nil input.
    pub null_input: bool,
    /// Set the exit status based on the output.
    pub exit_status: bool,
    /// Read the filter from a file.
    pub from_file: Option<String>,
    /// Use tabs for indentation.
    pub tab: bool,
    /// Use this many spaces for indentation.
    pub indent: usize,
    /// Show debug information.
    pub debug: bool,
    /// Verbose output.
    pub verbose: bool,
    /// Print the file name for each output line.
    pub with_filename: bool,
}

/// The parser state: what has been collected, and whether a flag is
/// still waiting for its value.
pub struct CliView {
    pub filter: Option<Seq<char>>,
    pub files: Seq<Seq<char>>,
    pub compact: bool,
    pub raw_output: bool,
    pub raw_input: bool,
    pub slurp: bool,
    pub null_input: bool,
    pub exit_status: bool,
    pub from_file: Option<Seq<char>>,
    pub tab: bool,
    pub indent: nat,
    pub debug: bool,
    pub verbose: bool,
    pub with_filename: bool,
    pub pending_file: bool,
    pub pending_indent: bool,
}

/// Before any token: no filter, no files, all flags off, two-space
/// indentation.
pub open spec fn cli_init() -> CliView {
    CliView {
        filter: Option::None,
        files: Seq::empty(),
        compact: false,
        raw_output: false,
        raw_input: false,
        slurp: false,
        null_input: false,
        exit_status: false,
        from_file: Option::None,
        tab: false,
        indent: 2,
        debug: false,
        verbose: false,
        with_filename: false,
        pending_file: false,
        pending_indent: false,
    }
}

/// The numeric value of a short all-digit token (at most six digits).
pub open spec fn dec_val(s: Seq<char>) -> Option<nat>
    decreases s.len(),
{
    if s.len() == 0 || s.len() > 6 {
        Option::None
    } else if s.len() == 1 {
        digit_of(s[0])
    } else {
        match (dec_val(s.drop_last()), digit_of(s.last())) {
            (Option::Some(hi), Option::Some(d)) => Option::Some(hi * 10 + d),
            _ => Option::None,
        }
    }
}

pub open spec fn digit_of(c: char) -> Option<nat> {
    let u = c as u32;
    if '0' as u32 <= u <= '9' as u32 {
        Option::Some((u - '0' as u32) as nat)
    } else {
        Option::None
    }
}

pub open spec fn is_flag_tok(t: Seq<char>) -> bool {
    t.len() >= 2 && t[0] == '-'
}

/// One token folded into the state.
pub open spec fn cli_step(st: CliView, t: Seq<char>) -> Result<CliView, ErrKind> {
    if st.pending_file {
        Result::Ok(CliView { from_file: Option::Some(t), pending_file: false, ..st })
    } else if st.pending_indent {
        match dec_val(t) {
            Option::Some(n) => Result::Ok(CliView { indent: n, pending_indent: false, ..st }),
            Option::None => Result::Err(ErrKind::Query),
        }
    } else if t == "-c"@ || t == "--compact"@ {
        Result::Ok(CliView { compact: true, ..st })
    } else if t == "-r"@ || t == "--raw-output"@ {
        Result::Ok(CliView { raw_output: true, ..st })
    } else if t == "-R"@ || t == "--raw-input"@ {
        Result::Ok(CliView { raw_input: true, ..st })
    } else if t == "-s"@ || t == "--slurp"@ {
        Result::Ok(CliView { slurp: true, ..st })
    } else if t == "-n"@ || t == "--null-input"@ {
        Result::Ok(CliView { null_input: true, ..st })
    } else if t == "-e"@ || t == "--exit-status"@ {
        Result::Ok(CliView { exit_status: true, ..st })
    } else if t == "-f"@ || t == "--from-file"@ {
        Result::Ok(CliView { pending_file: true, ..st })
    } else if t == "--tab"@ {
        Result::Ok(CliView { tab: true, ..st })
    } else if t == "--indent"@ {
        Result::Ok(CliView { pending_indent: true, ..st })
    } else if t == "--debug"@ {
        Result::Ok(CliView { debug: true, ..st })
    } else if t == "-v"@ || t == "--verbose"@ {
        Result::Ok(CliView { verbose: true, ..st })
    } else if t == "-H"@ || t == "--with-filename"@ {
        Result::Ok(CliView { with_filename: true, ..st })
    } else if is_flag_tok(t) {
        Result::Err(ErrKind::Query)
    } else if st.filter is None {
        Result::Ok(CliView { filter: Option::Some(t), ..st })
    } else {
        Result::Ok(CliView { files: st.files.push(t), ..st })
    }
}

pub open spec fn cli_fold(toks: Seq<Seq<char>>, st: CliView) -> Result<CliView, ErrKind>
    decreases toks.len(),
{
    if toks.len() == 0 {
        Result::Ok(st)
    } else {
        match cli_step(st, toks[0]) {
            Result::Ok(st2) => cli_fold(toks.drop_first(), st2),
            Result::Err(k) => Result::Err(k),
        }
    }
}

/// What parsing a whole command line yields: the first token names
/// the program and is skipped; the filter is required, and a flag
/// still waiting for its value at the end is an error.
pub open spec fn cli_parse(toks: Seq<Seq<char>>) -> Result<CliView, ErrKind> {
    if toks.len() == 0 {
        Result::Err(ErrKind::Query)
    } else {
        match cli_fold(toks.drop_first(), cli_init()) {
            Result::Ok(st) => if st.filter is Some && !st.pending_file && !st.pending_indent {
                Result::Ok(st)
            } else {
                Result::Err(ErrKind::Query)
            },
            Result::Err(k) => Result::Err(k),
        }
    }
}

/// Whether an executable `Args` value equals a parser state.
pub open spec fn args_match(a: Args, st: CliView) -> bool {
    &&& st.filter == Option::Some(a.filter@)
    &&& views_of_strings(a.files@) == st.files
    &&& a.compact == st.compact
    &&& a.raw_output == st.raw_output
    &&& a.raw_input == st.raw_input
    &&& a.slurp == st.slurp
    &&& a.null_input == st.null_input
    &&& a.exit_status == st.exit_status
    &&& (match (a.from_file, st.from_file) {
        (Option::Some(f), Option::Some(sv)) => f@ == sv,
        (Option::None, Option::None) => true,
        _ => false,
    })
    &&& a.tab == st.tab
    &&& a.indent as nat == st.indent
    &&& a.debug == st.debug
    &&& a.verbose == st.verbose
    &&& a.with_filename == st.with_filename
}

pub open spec fn pow10(n: nat) -> nat
    decreases n,
{
    if n == 0 {
        1
    } else {
        10 * pow10((n - 1) as nat)
    }
}

/// Parses a short all-digit token.
fn parse_indent(t: &String) -> (r: Option<usize>)
    ensures
        match r {
            Option::Some(n) => dec_val(t@) == Option::Some(n as nat),
            Option::None => dec_val(t@) is None,
        },
{
    let s = t.as_str();
    let n = s.unicode_len();
    if n == 0 || n > 6 {
        return Option::None;
    }
    let mut acc: usize = 0;
    let mut i: usize = 0;
    proof {
        assert(t@.take(0).len() == 0);
        assert(pow10(0) == 1);
        assert(pow10(1) == 10);
        assert(pow10(2) == 100);
        assert(pow10(3) == 1000);
        assert(pow10(4) == 10000);
        assert(pow10(5) == 100000);
        assert(pow10(6) == 1000000);
    }
    while i < n
        invariant
            i <= n,
            1 <= n <= 6,
            n == t@.len(),
            s@ == t@,
            acc < pow10(i as nat),
            pow10(0) == 1 && pow10(1) == 10 && pow10(2) == 100 && pow10(3) == 1000 && pow10(4)
                == 10000 && pow10(5) == 100000 && pow10(6) == 1000000,
            i > 0 ==> dec_val(t@.take(i as int)) == Option::Some(acc as nat),
            i == 0 ==> acc == 0,
        decreases n - i,
    {
        proof {
            assert(pow10(i as nat + 1) == 10 * pow10(i as nat));
            if i as nat + 1 <= 6 {
                assert(pow10(i as nat) <= 100000) by {
                    if i == 0 {
                    } else if i == 1 {
                    } else if i == 2 {
                    } else if i == 3 {
                    } else if i == 4 {
                    } else {
                        assert(i == 5);
                    }
                }
            }
        }
        let c = s.get_char(i);
        let u = c as u32;
        if u < '0' as u32 || u > '9' as u32 {
            proof {
                lemma_dec_val_bad(t@, i as int);
            }
            return Option::None;
        }
        let d = (u - '0' as u32) as usize;
        proof {
            assert(t@.take(i as int + 1).drop_last() =~= t@.take(i as int));
            assert(t@.take(i as int + 1).last() == t@[i as int]);
            assert(digit_of(t@[i as int]) == Option::Some(d as nat));
        }
        acc = acc * 10 + d;
        i = i + 1;
    }
    proof {
        assert(t@.take(n as int) =~= t@);
    }
    Option::Some(acc)
}

/// A non-digit anywhere makes the whole token invalid.
proof fn lemma_dec_val_bad(s: Seq<char>, i: int)
    requires
        0 <= i < s.len(),
        digit_of(s[i]) is None,
        s.len() <= 6,
    ensures
        dec_val(s) is None,
    decreases s.len(),
{
    if s.len() > 0 {
        if i == s.len() - 1 {
        } else {
            lemma_dec_val_bad(s.drop_last(), i);
        }
    }
}

/// Collects the command line token by token.
struct CliBuilder {
    filter: Option<String>,
    files: Vec<String>,
    compact: bool,
    raw_output: bool,
    raw_input: bool,
    slurp: bool,
    null_input: bool,
    exit_status: bool,
    from_file: Option<String>,
    tab: bool,
    indent: usize,
    debug: bool,
    verbose: bool,
    with_filename: bool,
    pending_file: bool,
    pending_indent: bool,
}

impl View for CliBuilder {
    type V = CliView;

    closed spec fn view(&self) -> CliView {
        CliView {
            filter: match self.filter {
                Option::Some(f) => Option::Some(f@),
                Option::None => Option::None,
            },
            files: views_of_strings(self.files@),
            compact: self.compact,
            raw_output: self.raw_output,
            raw_input: self.raw_input,
            slurp: self.slurp,
            null_input: self.null_input,
            exit_status: self.exit_status,
            from_file: match self.from_file {
                Option::Some(f) => Option::Some(f@),
                Option::None => Option::None,
            },
            tab: self.tab,
            indent: self.indent as nat,
            debug: self.debug,
            verbose: self.verbose,
            with_filename: self.with_filename,
            pending_file: self.pending_file,
            pending_indent: self.pending_indent,
        }
    }
}

impl CliBuilder {
    fn new() -> (b: CliBuilder)
        ensures
            b@ == cli_init(),
    {
        let files: Vec<String> = Vec::new();
        proof {
            assert(views_of_strings(files@) =~= Seq::<Seq<char>>::empty());
        }
        CliBuilder {
            filter: Option::None,
            files,
            compact: false,
            raw_output: false,
            raw_input: false,
            slurp: false,
            null_input: false,
            exit_status: false,
            from_file: Option::None,
            tab: false,
            indent: 2,
            debug: false,
            verbose: false,
            with_filename: false,
            pending_file: false,
            pending_indent: false,
        }
    }

    /// Folds one token into the state.
    #[verifier::rlimit(100)]
    fn step(&mut self, t: &String) -> (r: Result<(), EqError>)
        ensures
            match r {
                Result::Ok(_) => cli_step(old(self)@, t@) == Result::<CliView, ErrKind>::Ok(
                    final(self)@,
                ),
                Result::Err(e) => cli_step(old(self)@, t@) == Result::<CliView, ErrKind>::Err(
                    e.kind(),
                ),
            },
    {
        if self.pending_file {
            self.from_file = Option::Some(t.clone());
            self.pending_file = false;
            Result::Ok(())
        } else if self.pending_indent {
            match parse_indent(t) {
                Option::Some(v) => {
                    self.indent = v;
                    self.pending_indent = false;
                    Result::Ok(())
                },
                Option::None => Result::Err(EqError::query_error("indent takes a small number")),
            }
        } else if name_is(t, "-c") || name_is(t, "--compact") {
            self.compact = true;
            Result::Ok(())
        } else if name_is(t, "-r") || name_is(t, "--raw-output") {
            self.raw_output = true;
            Result::Ok(())
        } else if name_is(t, "-R") || name_is(t, "--raw-input") {
            self.raw_input = true;
            Result::Ok(())
        } else if name_is(t, "-s") || name_is(t, "--slurp") {
            self.slurp = true;
            Result::Ok(())
        } else if name_is(t, "-n") || name_is(t, "--null-input") {
            self.null_input = true;
            Result::Ok(())
        } else if name_is(t, "-e") || name_is(t, "--exit-status") {
            self.exit_status = true;
            Result::Ok(())
        } else if name_is(t, "-f") || name_is(t, "--from-file") {
            self.pending_file = true;
            Result::Ok(())
        } else if name_is(t, "--tab") {
            self.tab = true;
            Result::Ok(())
        } else if name_is(t, "--indent") {
            self.pending_indent = true;
            Result::Ok(())
        } else if name_is(t, "--debug") {
            self.debug = true;
            Result::Ok(())
        } else if name_is(t, "-v") || name_is(t, "--verbose") {
            self.verbose = true;
            Result::Ok(())
        } else if name_is(t, "-H") || name_is(t, "--with-filename") {
            self.with_filename = true;
            Result::Ok(())
        } else {
            let looks_flag = t.as_str().unicode_len() >= 2 && t.as_str().get_char(0) == '-';
            if looks_flag {
                Result::Err(EqError::query_error("unknown flag"))
            } else if self.filter.is_none() {
                self.filter = Option::Some(t.clone());
                Result::Ok(())
            } else {
                let ghost before = self.files@;
                self.files.push(t.clone());
                proof {
                    assert(views_of_strings(self.files@) =~= views_of_strings(before).push(t@));
                }
                Result::Ok(())
            }
        }
    }

    /// Finishes parsing: the filter is required, and a flag still
    /// waiting for its value is an error.
    fn finish(self) -> (r: EqResult<Args>)
        ensures
            match r {
                Result::Ok(a) => self@.filter is Some && !self@.pending_file
                    && !self@.pending_indent && args_match(a, self@),
                Result::Err(_) => !(self@.filter is Some && !self@.pending_file
                    && !self@.pending_indent),
            },
    {
        if self.pending_file || self.pending_indent {
            return Result::Err(EqError::query_error("a flag is missing its value"));
        }
        match self.filter {
            Option::Some(f) => Result::Ok(
                Args {
                    filter: f,
                    files: self.files,
                    compact: self.compact,
                    raw_output: self.raw_output,
                    raw_input: self.raw_input,
                    slurp: self.slurp,
                    null_input: self.null_input,
                    exit_status: self.exit_status,
                    from_file: self.from_file,
                    tab: self.tab,
                    indent: self.indent,
                    debug: self.debug,
                    verbose: self.verbose,
                    with_filename: self.with_filename,
                },
            ),
            Option::None => Result::Err(EqError::query_error("a filter expression is required")),
        }
    }
}

impl Args {
    /// Parses a command line, the first token being the program name.
    /// Unknown flags, a missing filter expression, a missing flag value
    /// and a malformed indent width are reported as errors.
    pub fn try_parse_from(args: &Vec<String>) -> (r: EqResult<Args>)
        ensures
            match r {
                Result::Ok(a) => cli_parse(views_of_strings(args@)) matches Result::Ok(st)
                    && args_match(a, st),
                Result::Err(e) => cli_parse(views_of_strings(args@)) is Err,
            },
    {
        let ghost tv = views_of_strings(args@);
        if args.len() == 0 {
            return Result::Err(EqError::query_error("no arguments"));
        }
        let mut builder = CliBuilder::new();
        let n = args.len();
        let mut i: usize = 1;
        proof {
            assert(tv.skip(1) =~= tv.drop_first());
        }
        while i < n
            invariant
                1 <= i <= n,
                n == args@.len(),
                tv == views_of_strings(args@),
                tv.len() == n,
                forall|j: int| 0 <= j < n ==> #[trigger] tv[j] == args@[j]@,
                cli_fold(tv.drop_first(), cli_init()) == cli_fold(tv.skip(i as int), builder@),
            decreases n - i,
        {
            proof {
                assert(tv.skip(i as int)[0] == tv[i as int]);
                assert(tv.skip(i as int).drop_first() =~= tv.skip(i as int + 1));
            }
            match builder.step(&args[i]) {
                Result::Ok(_) => {},
                Result::Err(e) => {
                    return Result::Err(e);
                },
            }
            i = i + 1;
        }
        proof {
            assert(tv.skip(n as int).len() == 0);
        }
        builder.finish()
    }
}

} // verus!
