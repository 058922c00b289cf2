//! Command-line parsing for `xlangc`: which command to run, on which files,
//! and with which options.
use vstd::prelude::*;
use crate::checked_type::{all_digits, digits_part, digits_value, lemma_digits_value_mono};
use crate::driver::{
    RunSafeOptions, DEFAULT_RUN_SAFE_OUTPUT_LIMIT_BYTES, DEFAULT_RUN_SAFE_TIMEOUT_MS,
};
use crate::error::{XError, XResult};
use crate::lexer::text_eq;
use crate::text::{debug_str, debug_str_text, text_of};

verus! {

/// A command of `xlangc`.
#[derive(Debug)]
pub enum CliCommand {
    Help,
    /// Parse and check each file.
    Check { files: Vec<String> },
    /// Print the syntax tree as JSON.
    Ast { source: String },
    /// Write the generated C.
    C { source: String, output: Option<String> },
    /// Build a native executable.
    Build { source: String, output: Option<String> },
    /// Build and run.
    Run { source: String, output: Option<String> },
    /// Build and run with a timeout and an output limit.
    RunSafe { source: String, options: RunSafeOptions },
}

/// The plain-value content of a [`CliCommand`].
pub enum CommandView {
    Help,
    Check(Seq<Seq<char>>),
    Ast(Seq<char>),
    C(Seq<char>, Option<Seq<char>>),
    Build(Seq<char>, Option<Seq<char>>),
    Run(Seq<char>, Option<Seq<char>>),
    RunSafe(Seq<char>, u64, usize),
}

pub open spec fn opt_str(o: Option<String>) -> Option<Seq<char>> {
    match o {
        Some(s) => Some(s@),
        None => None,
    }
}

impl View for CliCommand {
    type V = CommandView;

    open spec fn view(&self) -> CommandView {
        match self {
            CliCommand::Help => CommandView::Help,
            CliCommand::Check { files } => CommandView::Check(
                files@.map_values(|f: String| f@),
            ),
            CliCommand::Ast { source } => CommandView::Ast(source@),
            CliCommand::C { source, output } => CommandView::C(source@, opt_str(*output)),
            CliCommand::Build { source, output } => CommandView::Build(source@, opt_str(*output)),
            CliCommand::Run { source, output } => CommandView::Run(source@, opt_str(*output)),
            CliCommand::RunSafe { source, options } => CommandView::RunSafe(
                source@,
                options.timeout_ms,
                options.output_limit_bytes,
            ),
        }
    }
}

pub open spec fn usage_message(usage: Seq<char>) -> Seq<char> {
    "usage: "@ + usage
}

fn usage_error(usage: &str) -> (r: XError)
    ensures
        r matches XError::Parse(m) && m@ == usage_message(usage@),
{
    let mut m = text_of("usage: ");
    m.append(usage);
    XError::Parse(m)
}

// ---------------------------------------------------------------------------
// Numbers
// ---------------------------------------------------------------------------

/// Value of a decimal literal as `str::parse::<u64>` reads it: an optional
/// `+`, then one or more ASCII digits, with no overflow.
pub open spec fn parse_u64_spec(s: Seq<char>) -> Option<nat> {
    let digits = digits_part(s);
    if digits.len() == 0 || !all_digits(digits) || digits_value(digits) > u64::MAX {
        None
    } else {
        Some(digits_value(digits))
    }
}

/// `str::parse::<u64>` on `s`.
fn parse_u64(s: &String) -> (r: Option<u64>)
    ensures
        r matches Some(v) ==> parse_u64_spec(s@) == Some(v as nat),
        r is None ==> parse_u64_spec(s@) is None,
{
    let cs = crate::text::str_chars(s.as_str());
    let mut k: usize = 0;
    if cs.len() > 0 && cs[0] == '+' {
        k = 1;
    }
    let ghost digits = digits_part(s@);
    assert(digits =~= cs@.skip(k as int));
    if k >= cs.len() {
        return None;
    }
    let mut value: u64 = 0;
    let start = k;
    while k < cs.len()
        invariant
            start <= k <= cs.len(),
            start < cs.len(),
            cs@ == s@,
            digits == cs@.skip(start as int),
            digits == digits_part(s@),
            digits.len() > 0,
            forall|j: int| start <= j < k ==> '0' <= #[trigger] cs@[j] <= '9',
            value as nat == digits_value(cs@.subrange(start as int, k as int)),
        decreases cs.len() - k,
    {
        let c = cs[k];
        proof {
            assert(cs@.subrange(start as int, k + 1).drop_last() =~= cs@.subrange(
                start as int,
                k as int,
            ));
        }
        if !('0' <= c && c <= '9') {
            proof {
                let j = (k - start) as int;
                assert(digits[j] == c);
                assert(!all_digits(digits));
            }
            return None;
        }
        let d = (c as u32 - '0' as u32) as u64;
        if value > (u64::MAX - d) / 10 {
            proof {
                assert(value * 10 + d > u64::MAX) by (nonlinear_arith)
                    requires
                        value > (u64::MAX - d) / 10,
                        d < 10,
                ;
                assert(cs@.subrange(start as int, k + 1) =~= digits.take((k - start) as int + 1));
                assert(digits_value(digits.take((k - start) as int + 1)) == value * 10 + d);
                if all_digits(digits) {
                    lemma_digits_value_mono(digits, (k - start) as int + 1);
                }
            }
            return None;
        }
        assert(value * 10 + d <= u64::MAX) by (nonlinear_arith)
            requires
                value <= (u64::MAX - d) / 10,
                d < 10,
        ;
        value = value * 10 + d;
        k = k + 1;
    }
    assert(cs@.subrange(start as int, cs.len() as int) =~= digits);
    Some(value)
}

/// A positive integer option value.
pub fn parse_positive_u64(value: &String, flag: &str) -> (r: XResult<u64>)
    ensures
        match r {
            Ok(v) => v > 0 && parse_u64_spec(value@) == Some(v as nat),
            Err(XError::Parse(m)) => (parse_u64_spec(value@) is None || parse_u64_spec(value@)
                == Some(0nat)) && m@ == flag@ + " expects a positive integer"@,
            Err(_) => false,
        },
{
    match parse_u64(value) {
        Some(v) => {
            if v == 0 {
                let mut m = text_of(flag);
                m.append(" expects a positive integer");
                return Err(XError::Parse(m));
            }
            Ok(v)
        },
        None => {
            let mut m = text_of(flag);
            m.append(" expects a positive integer");
            Err(XError::Parse(m))
        },
    }
}

/// A non-negative integer option value.
pub fn parse_usize(value: &String, flag: &str) -> (r: XResult<usize>)
    ensures
        match r {
            Ok(v) => crate::checked_type::parse_usize_spec(value@) == Some(v as nat),
            Err(XError::Parse(m)) => crate::checked_type::parse_usize_spec(value@) is None && m@
                == flag@ + " expects a non-negative integer"@,
            Err(_) => false,
        },
{
    match crate::checked_type::parse_usize(value) {
        Some(v) => Ok(v),
        None => {
            let mut m = text_of(flag);
            m.append(" expects a non-negative integer");
            Err(XError::Parse(m))
        },
    }
}

// ---------------------------------------------------------------------------
// Arguments
// ---------------------------------------------------------------------------

pub open spec fn texts(args: Seq<String>) -> Seq<Seq<char>> {
    args.map_values(|a: String| a@)
}

/// The single source argument of a command.
pub fn one_source_arg(args: &Vec<String>, usage: &str) -> (r: XResult<String>)
    ensures
        match r {
            Ok(s) => args@.len() == 1 && s@ == args@[0]@,
            Err(XError::Parse(m)) => args@.len() != 1 && m@ == usage_message(usage@),
            Err(_) => false,
        },
{
    if args.len() != 1 {
        return Err(usage_error(usage));
    }
    Ok(args[0].clone())
}

/// The output file named by `-o`/`--output` options from index `i` on; the
/// last one counts. `None` when an option is unknown or lacks its value.
pub open spec fn output_option(args: Seq<Seq<char>>, i: int, out: Option<Seq<char>>) -> Option<
    Option<Seq<char>>,
>
    decreases args.len() - i,
{
    if i >= args.len() {
        Some(out)
    } else if args[i] == "-o"@ || args[i] == "--output"@ {
        if i + 1 >= args.len() {
            None
        } else {
            output_option(args, i + 2, Some(args[i + 1]))
        }
    } else {
        None
    }
}

/// `<file> [-o output]`.
pub fn parse_source_o(args: &Vec<String>, usage: &str) -> (r: XResult<(String, Option<String>)>)
    ensures
        match r {
            Ok((source, output)) => args@.len() > 0 && source@ == args@[0]@ && output_option(
                texts(args@),
                1,
                None,
            ) == Some(opt_str(output)),
            Err(XError::Parse(m)) => (args@.len() == 0 || output_option(texts(args@), 1, None)
                is None) && m@ == usage_message(usage@),
            Err(_) => false,
        },
{
    if args.len() == 0 {
        return Err(usage_error(usage));
    }
    let ghost av = texts(args@);
    let source = args[0].clone();
    let mut output: Option<String> = None;
    let mut i: usize = 1;
    while i < args.len()
        invariant
            1 <= i,
            av == texts(args@),
            args@.len() > 0,
            output_option(av, 1, None) == output_option(av, i as int, opt_str(output)),
        decreases args.len() - i,
    {
        assert(av[i as int] == args@[i as int]@);
        if text_eq(&args[i], "-o") || text_eq(&args[i], "--output") {
            if i + 1 >= args.len() {
                return Err(usage_error(usage));
            }
            assert(av[i + 1] == args@[i + 1]@);
            output = Some(args[i + 1].clone());
            i = i + 2;
        } else {
            return Err(usage_error(usage));
        }
    }
    Ok((source, output))
}

/// The options of `run-safe` from index `i` on: `--timeout-ms` (positive)
/// and `--output-limit-bytes` (non-negative), each followed by its value.
pub open spec fn run_safe_options(args: Seq<Seq<char>>, i: int, timeout: u64, limit: usize, usage: Seq<char>) -> Result<(u64, usize), Seq<char>>
    decreases args.len() - i,
{
    if i >= args.len() {
        Ok((timeout, limit))
    } else if args[i] == "--timeout-ms"@ {
        if i + 1 >= args.len() {
            Err(usage_message(usage))
        } else {
            match parse_u64_spec(args[i + 1]) {
                Some(v) => if v > 0 {
                    run_safe_options(args, i + 2, v as u64, limit, usage)
                } else {
                    Err("--timeout-ms expects a positive integer"@)
                },
                None => Err("--timeout-ms expects a positive integer"@),
            }
        }
    } else if args[i] == "--output-limit-bytes"@ {
        if i + 1 >= args.len() {
            Err(usage_message(usage))
        } else {
            match crate::checked_type::parse_usize_spec(args[i + 1]) {
                Some(v) => run_safe_options(args, i + 2, timeout, v as usize, usage),
                None => Err("--output-limit-bytes expects a non-negative integer"@),
            }
        }
    } else {
        Err(usage_message(usage))
    }
}

/// `<file> [--timeout-ms ms] [--output-limit-bytes bytes]`, starting from the
/// default options.
pub fn parse_run_safe_args(args: &Vec<String>, usage: &str) -> (r: XResult<(String, RunSafeOptions)>)
    ensures
        match r {
            Ok((source, options)) => args@.len() > 0 && source@ == args@[0]@ && run_safe_options(
                texts(args@),
                1,
                DEFAULT_RUN_SAFE_TIMEOUT_MS,
                DEFAULT_RUN_SAFE_OUTPUT_LIMIT_BYTES,
                usage@,
            ) == Ok::<(u64, usize), Seq<char>>((options.timeout_ms, options.output_limit_bytes)),
            Err(XError::Parse(m)) => if args@.len() == 0 {
                m@ == usage_message(usage@)
            } else {
                run_safe_options(
                    texts(args@),
                    1,
                    DEFAULT_RUN_SAFE_TIMEOUT_MS,
                    DEFAULT_RUN_SAFE_OUTPUT_LIMIT_BYTES,
                    usage@,
                ) == Err::<(u64, usize), Seq<char>>(m@)
            },
            Err(_) => false,
        },
{
    if args.len() == 0 {
        return Err(usage_error(usage));
    }
    let ghost av = texts(args@);
    let source = args[0].clone();
    let mut options = RunSafeOptions::default();
    let mut i: usize = 1;
    while i < args.len()
        invariant
            1 <= i,
            av == texts(args@),
            args@.len() > 0,
            run_safe_options(
                av,
                1,
                DEFAULT_RUN_SAFE_TIMEOUT_MS,
                DEFAULT_RUN_SAFE_OUTPUT_LIMIT_BYTES,
                usage@,
            ) == run_safe_options(av, i as int, options.timeout_ms, options.output_limit_bytes, usage@),
        decreases args.len() - i,
    {
        assert(av[i as int] == args@[i as int]@);
        if text_eq(&args[i], "--timeout-ms") {
            if i + 1 >= args.len() {
                return Err(usage_error(usage));
            }
            assert(av[i + 1] == args@[i + 1]@);
            options.timeout_ms = match parse_positive_u64(&args[i + 1], "--timeout-ms") {
                Ok(v) => v,
                Err(e) => {
                    proof {
                        reveal_strlit("--timeout-ms");
                        reveal_strlit(" expects a positive integer");
                        reveal_strlit("--timeout-ms expects a positive integer");
                        assert("--timeout-ms"@ + " expects a positive integer"@
                            =~= "--timeout-ms expects a positive integer"@);
                    }
                    return Err(e);
                },
            };
            i = i + 2;
        } else if text_eq(&args[i], "--output-limit-bytes") {
            if i + 1 >= args.len() {
                return Err(usage_error(usage));
            }
            assert(av[i + 1] == args@[i + 1]@);
            options.output_limit_bytes = match parse_usize(&args[i + 1], "--output-limit-bytes") {
                Ok(v) => v,
                Err(e) => {
                    proof {
                        reveal_strlit("--output-limit-bytes");
                        reveal_strlit(" expects a non-negative integer");
                        reveal_strlit("--output-limit-bytes expects a non-negative integer");
                        assert("--output-limit-bytes"@ + " expects a non-negative integer"@
                            =~= "--output-limit-bytes expects a non-negative integer"@);
                    }
                    return Err(e);
                },
            };
            i = i + 2;
        } else {
            return Err(usage_error(usage));
        }
    }
    Ok((source, options))
}

// ---------------------------------------------------------------------------
// Commands
// ---------------------------------------------------------------------------

pub open spec fn is_help_word(a: Seq<char>) -> bool {
    a == "help"@ || a == "--help"@ || a == "-h"@
}

pub open spec fn check_usage() -> Seq<char> {
    "usage: xlangc check <files...>"@
}

/// A source with an optional output, or the usage error.
pub open spec fn source_o_spec(rest: Seq<Seq<char>>, usage: Seq<char>) -> Result<(Seq<char>, Option<Seq<char>>), Seq<char>> {
    if rest.len() == 0 {
        Err(usage_message(usage))
    } else {
        match output_option(rest, 1, None) {
            Some(o) => Ok((rest[0], o)),
            None => Err(usage_message(usage)),
        }
    }
}

/// The command that the arguments (the program name left out) ask for, or
/// the message of a usage error.
pub open spec fn command_spec(args: Seq<Seq<char>>) -> Result<CommandView, Seq<char>> {
    if args.len() == 0 || is_help_word(args[0]) {
        Ok(CommandView::Help)
    } else {
        let cmd = args[0];
        let rest = args.drop_first();
        if cmd == "check"@ {
            if rest.len() == 0 {
                Err(check_usage())
            } else {
                Ok(CommandView::Check(rest))
            }
        } else if cmd == "ast"@ {
            if rest.len() != 1 {
                Err(usage_message("xlangc ast <file>"@))
            } else {
                Ok(CommandView::Ast(rest[0]))
            }
        } else if cmd == "c"@ {
            match source_o_spec(rest, "xlangc c <file> [-o output.c]"@) {
                Ok((s, o)) => Ok(CommandView::C(s, o)),
                Err(m) => Err(m),
            }
        } else if cmd == "build"@ {
            match source_o_spec(rest, "xlangc build <file> [-o output]"@) {
                Ok((s, o)) => Ok(CommandView::Build(s, o)),
                Err(m) => Err(m),
            }
        } else if cmd == "run"@ {
            match source_o_spec(rest, "xlangc run <file> [-o output]"@) {
                Ok((s, o)) => Ok(CommandView::Run(s, o)),
                Err(m) => Err(m),
            }
        } else if cmd == "run-safe"@ {
            let usage = "xlangc run-safe <file> [--timeout-ms ms] [--output-limit-bytes bytes]"@;
            if rest.len() == 0 {
                Err(usage_message(usage))
            } else {
                match run_safe_options(
                    rest,
                    1,
                    DEFAULT_RUN_SAFE_TIMEOUT_MS,
                    DEFAULT_RUN_SAFE_OUTPUT_LIMIT_BYTES,
                    usage,
                ) {
                    Ok((t, l)) => Ok(CommandView::RunSafe(rest[0], t, l)),
                    Err(m) => Err(m),
                }
            }
        } else {
            Err("unknown command "@ + debug_str_text(cmd))
        }
    }
}

/// Reads the command line (the program name left out).
pub fn parse_command(args: &Vec<String>) -> (r: XResult<CliCommand>)
    ensures
        match r {
            Ok(c) => command_spec(texts(args@)) == Ok::<CommandView, Seq<char>>(c@),
            Err(XError::Parse(m)) => command_spec(texts(args@)) == Err::<CommandView, Seq<char>>(m@),
            Err(_) => false,
        },
{
    let ghost av = texts(args@);
    if args.len() == 0 {
        return Ok(CliCommand::Help);
    }
    assert(av[0] == args@[0]@);
    if text_eq(&args[0], "help") || text_eq(&args[0], "--help") || text_eq(&args[0], "-h") {
        return Ok(CliCommand::Help);
    }
    let mut rest: Vec<String> = Vec::new();
    let mut k: usize = 1;
    while k < args.len()
        invariant
            1 <= k <= args.len(),
            av == texts(args@),
            texts(rest@) == av.subrange(1, k as int),
        decreases args.len() - k,
    {
        let ghost old_r = texts(rest@);
        let a = args[k].clone();
        let ghost a_v = a@;
        rest.push(a);
        assert(texts(rest@) =~= old_r.push(a_v));
        assert(av.subrange(1, k + 1) =~= av.subrange(1, k as int).push(av[k as int]));
        k = k + 1;
    }
    assert(av.subrange(1, args@.len() as int) =~= av.drop_first());
    let cmd = &args[0];
    if text_eq(cmd, "check") {
        if rest.len() == 0 {
            return Err(XError::Parse(text_of("usage: xlangc check <files...>")));
        }
        Ok(CliCommand::Check { files: rest })
    } else if text_eq(cmd, "ast") {
        match one_source_arg(&rest, "xlangc ast <file>") {
            Ok(source) => {
                assert(texts(rest@)[0] == rest@[0]@);
                Ok(CliCommand::Ast { source })
            },
            Err(e) => Err(e),
        }
    } else if text_eq(cmd, "c") {
        match parse_source_o(&rest, "xlangc c <file> [-o output.c]") {
            Ok((source, output)) => {
                assert(texts(rest@)[0] == rest@[0]@);
                Ok(CliCommand::C { source, output })
            },
            Err(e) => Err(e),
        }
    } else if text_eq(cmd, "build") {
        match parse_source_o(&rest, "xlangc build <file> [-o output]") {
            Ok((source, output)) => {
                assert(texts(rest@)[0] == rest@[0]@);
                Ok(CliCommand::Build { source, output })
            },
            Err(e) => Err(e),
        }
    } else if text_eq(cmd, "run") {
        match parse_source_o(&rest, "xlangc run <file> [-o output]") {
            Ok((source, output)) => {
                assert(texts(rest@)[0] == rest@[0]@);
                Ok(CliCommand::Run { source, output })
            },
            Err(e) => Err(e),
        }
    } else if text_eq(cmd, "run-safe") {
        match parse_run_safe_args(
            &rest,
            "xlangc run-safe <file> [--timeout-ms ms] [--output-limit-bytes bytes]",
        ) {
            Ok((source, options)) => {
                assert(texts(rest@)[0] == rest@[0]@);
                Ok(CliCommand::RunSafe { source, options })
            },
            Err(e) => Err(e),
        }
    } else {
        let mut m = text_of("unknown command ");
        let d = debug_str(cmd.as_str());
        m.append(d.as_str());
        Err(XError::Parse(m))
    }
}

} // verus!
