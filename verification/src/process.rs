//! Running programs on the host.
use vstd::prelude::*;
use vstd::utf8::{decode_utf8, valid_utf8};
use crate::commands::push_text;
use crate::lexical::{join, join_text, trim, trimmed};

verus! {

/// The views of the texts of a list of arguments.
pub open spec fn arg_views(args: Seq<&str>) -> Seq<Seq<char>> {
    args.map_values(|a: &str| a@)
}

/// Runs programs on the host.
///
/// What a program prints, and whether it succeeds, depends on the host: the
/// methods promise nothing about their results, and two runs of one command
/// may end differently. The functions that call them say which commands they
/// run, in which order, and what they make of each outcome, naming an
/// outcome as one that the method can give (`run_gives` and its kin).
pub trait CommandRunner {
    /// Runs `program` and gives back its standard output, without white
    /// space at its ends, or an error message.
    fn run(&self, program: &str, args: &[&str]) -> Result<String, String>;

    /// Runs `program` and tells whether it succeeded.
    fn run_status(&self, program: &str, args: &[&str]) -> Result<(), String>;

    /// Runs `program` with owned arguments and gives back its trimmed
    /// standard output, or an error message.
    fn run_owned(&self, program: &str, args: &[String]) -> Result<String, String>;

    /// Runs `program` with owned arguments and tells whether it succeeded.
    fn run_status_owned(&self, program: &str, args: &[String]) -> Result<(), String>;

    /// Runs `program` with owned arguments, writes `input` to its standard
    /// input, and tells whether it succeeded.
    fn run_status_owned_with_input(&self, program: &str, args: &[String], input: &str) -> Result<
        (),
        String,
    >;
}

/// `r` is an outcome that `runner.run` can give for `program` and `args`.
pub open spec fn run_gives<R: CommandRunner>(
    runner: &R,
    program: Seq<char>,
    args: Seq<Seq<char>>,
    r: Result<String, String>,
) -> bool {
    exists|p: &str, a: &[&str]|
        p@ == program && arg_views(a@) == args && #[trigger] call_ensures(R::run, (runner, p, a), r)
}

/// `r` is an outcome that `runner.run_status` can give for `program` and `args`.
pub open spec fn status_gives<R: CommandRunner>(
    runner: &R,
    program: Seq<char>,
    args: Seq<Seq<char>>,
    r: Result<(), String>,
) -> bool {
    exists|p: &str, a: &[&str]|
        p@ == program && arg_views(a@) == args && #[trigger] call_ensures(
            R::run_status,
            (runner, p, a),
            r,
        )
}

/// `r` is an outcome that `runner.run_owned` can give for `program` and `args`.
pub open spec fn owned_gives<R: CommandRunner>(
    runner: &R,
    program: Seq<char>,
    args: Seq<Seq<char>>,
    r: Result<String, String>,
) -> bool {
    exists|p: &str, a: &[String]|
        p@ == program && a.deep_view() == args && #[trigger] call_ensures(
            R::run_owned,
            (runner, p, a),
            r,
        )
}

/// `r` is an outcome that `runner.run_status_owned` can give for `program`
/// and `args`.
pub open spec fn owned_status_gives<R: CommandRunner>(
    runner: &R,
    program: Seq<char>,
    args: Seq<Seq<char>>,
    r: Result<(), String>,
) -> bool {
    exists|p: &str, a: &[String]|
        p@ == program && a.deep_view() == args && #[trigger] call_ensures(
            R::run_status_owned,
            (runner, p, a),
            r,
        )
}

/// `r` is an outcome that `runner.run_status_owned_with_input` can give for
/// `program`, `args` and `input`.
pub open spec fn input_status_gives<R: CommandRunner>(
    runner: &R,
    program: Seq<char>,
    args: Seq<Seq<char>>,
    input: Seq<char>,
    r: Result<(), String>,
) -> bool {
    exists|p: &str, a: &[String], i: &str|
        p@ == program && a.deep_view() == args && i@ == input && #[trigger] call_ensures(
            R::run_status_owned_with_input,
            (runner, p, a, i),
            r,
        )
}

/// `r` is what follows a first step that ended with `first`: its failure, or,
/// when it succeeded, an outcome for which `rest` holds.
pub open spec fn after_step<T>(first: Result<(), String>, rest: bool, r: Result<T, String>) -> bool {
    match first {
        Err(e) => r == Err::<T, String>(e),
        Ok(()) => rest,
    }
}

// The functions below call the runner's methods through their values, so
// that their contracts can name the outcome as one the method can give.

/// Runs `program` with `args` and gives back its output.
pub(crate) fn run_through<R: CommandRunner>(runner: &R, program: &str, args: &[&str]) -> (r:
    Result<String, String>)
    ensures
        run_gives(runner, program@, arg_views(args@), r),
{
    let f = R::run;
    f(runner, program, args)
}

/// Runs `program` with `args` and tells whether it succeeded.
pub(crate) fn run_status_through<R: CommandRunner>(runner: &R, program: &str, args: &[&str]) -> (r:
    Result<(), String>)
    ensures
        status_gives(runner, program@, arg_views(args@), r),
{
    let f = R::run_status;
    f(runner, program, args)
}

/// Runs `program` with the owned `args` and gives back its output.
pub(crate) fn run_owned_through<R: CommandRunner>(runner: &R, program: &str, args: &[String]) -> (r:
    Result<String, String>)
    ensures
        owned_gives(runner, program@, args.deep_view(), r),
{
    let f = R::run_owned;
    f(runner, program, args)
}

/// Runs `program` with the owned `args` and tells whether it succeeded.
pub(crate) fn run_status_owned_through<R: CommandRunner>(
    runner: &R,
    program: &str,
    args: &[String],
) -> (r: Result<(), String>)
    ensures
        owned_status_gives(runner, program@, args.deep_view(), r),
{
    let f = R::run_status_owned;
    f(runner, program, args)
}

/// Runs `program` with the owned `args`, feeding it `input`, and tells
/// whether it succeeded.
pub(crate) fn run_with_input_through<R: CommandRunner>(
    runner: &R,
    program: &str,
    args: &[String],
    input: &str,
) -> (r: Result<(), String>)
    ensures
        input_status_gives(runner, program@, args.deep_view(), input@, r),
{
    let f = R::run_status_owned_with_input;
    f(runner, program, args, input)
}

/// The text that `String::from_utf8_lossy` makes of `bytes`.
pub uninterp spec fn lossy_decode(bytes: Seq<u8>) -> Seq<char>;

/// Calls `String::from_utf8_lossy`, which decodes `bytes` as UTF-8 and puts
/// U+FFFD in place of each invalid sequence. Its result is named
/// `lossy_decode`; for valid UTF-8 it is the plain decoding. What it is for
/// invalid input is not stated.
#[verifier::external_body]
fn lossy_text(bytes: &[u8]) -> (r: String)
    ensures
        r@ == lossy_decode(bytes@),
        valid_utf8(bytes@) ==> r@ == decode_utf8(bytes@),
{
    String::from_utf8_lossy(bytes).into_owned()
}

/// What a program printed, decoded and without white space at its ends.
pub open spec fn printed(bytes: Seq<u8>) -> Seq<char> {
    trim(lossy_decode(bytes))
}

/// What a program printed, decoded and without white space at its ends.
pub fn captured_output(bytes: &[u8]) -> (r: String)
    ensures
        r@ == printed(bytes@),
{
    let text = lossy_text(bytes);
    trimmed(text.as_str())
}

/// The message that `program` ended with the exit status `status`.
pub open spec fn exit_text(program: Seq<char>, status: Seq<char>) -> Seq<char> {
    program + " exited with status "@ + status
}

/// The message that `program` ended with the exit status `status`.
pub fn exit_message(program: &str, status: &str) -> (r: String)
    ensures
        r@ == exit_text(program@, status@),
{
    let mut r = program.to_string();
    r.append(" exited with status ");
    r.append(status);
    r
}

/// The message for a failed run: the exit status, then what the program
/// wrote to its error output and to its standard output, each only when it
/// is not empty, separated by ` | `.
pub open spec fn failure_text(
    program: Seq<char>,
    status: Seq<char>,
    stdout: Seq<u8>,
    stderr: Seq<u8>,
) -> Seq<char> {
    let err = printed(stderr);
    let out = printed(stdout);
    let parts = seq![exit_text(program, status)] + (if err.len() > 0 {
        seq!["stderr: "@ + err]
    } else {
        seq![]
    }) + (if out.len() > 0 {
        seq!["stdout: "@ + out]
    } else {
        seq![]
    });
    join(parts, " | "@)
}

/// The message for a failed run of `program` that ended with `status` after
/// printing `stdout` and `stderr`.
pub fn format_failure(program: &str, status: &str, stdout: &[u8], stderr: &[u8]) -> (r: String)
    ensures
        r@ == failure_text(program@, status@, stdout@, stderr@),
{
    let out = captured_output(stdout);
    let err = captured_output(stderr);
    let mut parts: Vec<String> = Vec::new();
    assert(parts.deep_view() =~= Seq::<Seq<char>>::empty());
    push_text(&mut parts, exit_message(program, status).as_str());
    assert(parts.deep_view() =~= seq![exit_text(program@, status@)]);
    let ghost first = parts.deep_view();
    if !err.as_str().is_empty() {
        let mut e = "stderr: ".to_string();
        e.append(err.as_str());
        push_text(&mut parts, e.as_str());
    }
    let ghost second = parts.deep_view();
    if !out.as_str().is_empty() {
        let mut o = "stdout: ".to_string();
        o.append(out.as_str());
        push_text(&mut parts, o.as_str());
    }
    proof {
        let e_part: Seq<Seq<char>> = if err@.len() > 0 {
            seq!["stderr: "@ + err@]
        } else {
            seq![]
        };
        let o_part: Seq<Seq<char>> = if out@.len() > 0 {
            seq!["stdout: "@ + out@]
        } else {
            seq![]
        };
        assert(second =~= first + e_part);
        assert(parts.deep_view() =~= first + e_part + o_part);
    }
    join_text(&parts, " | ")
}

} // verus!

