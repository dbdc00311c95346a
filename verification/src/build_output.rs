//! Decisions over build output: which stream of a verification script holds
//! the lint diagnostics and in which format, whether compiler output shows an
//! internal compiler error, and what a build verdict means for the run.

use vstd::prelude::*;
use vstd::string::StrSliceExecFns;
use vstd::string::StringExecFns;

use crate::text::contains_seq;
use crate::text::find_char;
use crate::text::first_occurrence;
use crate::text::lemma_first_occurrence;
use crate::text::str_contains;

verus! {

/// The format of a diagnostic stream: raw compiler JSON, or the wrapping
/// build tool's JSON envelope.
#[derive(Debug, PartialEq, Eq, Structural)]
pub enum LintMode {
    Rustc,
    Cargo,
}

/// The first line of `s`: everything before the first line break, with a
/// trailing carriage return removed.
pub open spec fn first_line(s: Seq<char>) -> Seq<char> {
    let t = s.take(first_occurrence(s, '\n'));
    if t.len() > 0 && t.last() == '\r' {
        t.drop_last()
    } else {
        t
    }
}

/// The lint format a script marked on the first line of one of its output
/// streams, if any: `minimize-fmt-cargo` or `minimize-fmt-rustc`. An empty
/// stream has no first line and carries no mark.
pub open spec fn marked_mode(out: Seq<char>) -> Option<LintMode> {
    if out.len() == 0 {
        None
    } else if contains_seq(first_line(out), "minimize-fmt-cargo"@) {
        Some(LintMode::Cargo)
    } else if contains_seq(first_line(out), "minimize-fmt-rustc"@) {
        Some(LintMode::Rustc)
    } else {
        None
    }
}

/// Reads the mark on the first line of one output stream.
fn marked_output(out: &str) -> (r: Option<LintMode>)
    ensures
        r == marked_mode(out@),
{
    let n = out.unicode_len();
    if n == 0 {
        return None;
    }
    let e = match find_char(out, '\n', 0) {
        Some(i) => i,
        None => n,
    };
    proof {
        lemma_first_occurrence(out@, '\n', e as int);
    }
    let line_end = if e > 0 && out.get_char(e - 1) == '\r' {
        e - 1
    } else {
        e
    };
    let line = out.substring_char(0, line_end);
    proof {
        let t = out@.take(e as int);
        if e > 0 && out@[e - 1] == '\r' {
            assert(t.last() == out@[e - 1]);
            assert(line@ =~= t.drop_last());
        } else {
            if t.len() > 0 {
                assert(t.last() == out@[e - 1]);
            }
            assert(line@ =~= t);
        }
        assert(line@ == first_line(out@));
    }
    if str_contains(line, "minimize-fmt-cargo") {
        Some(LintMode::Cargo)
    } else if str_contains(line, "minimize-fmt-rustc") {
        Some(LintMode::Rustc)
    } else {
        None
    }
}

/// Picks the stream that carries the lint diagnostics of a verification
/// script, and its format: the stream whose first line carries a format mark
/// wins, standard output before standard error; without any mark the
/// diagnostics default to the build tool's format on standard output.
pub fn read_script_output<'a>(stdout: &'a str, stderr: &'a str) -> (r: (&'a str, LintMode))
    ensures
        match marked_mode(stdout@) {
            Some(m) => r.0@ == stdout@ && r.1 == m,
            None => match marked_mode(stderr@) {
                Some(m) => r.0@ == stderr@ && r.1 == m,
                None => r.0@ == stdout@ && r.1 == LintMode::Cargo,
            },
        },
{
    match marked_output(stdout) {
        Some(mode) => (stdout, mode),
        None => match marked_output(stderr) {
            Some(mode) => (stderr, mode),
            None => (stdout, LintMode::Cargo),
        },
    }
}

/// The build tool's stderr shows an internal compiler error: the fixed
/// marker text, or a panic of the compiler process.
pub open spec fn spec_cargo_ice(output: Seq<char>) -> bool {
    contains_seq(output, "internal compiler error"@) || contains_seq(output, "' panicked at"@)
}

/// Whether the wrapped compiler's stderr shows an internal compiler error.
pub fn cargo_output_shows_ice(output: &str) -> (r: bool)
    ensures
        r == spec_cargo_ice(output@),
{
    str_contains(output, "internal compiler error") || str_contains(output, "' panicked at")
}

/// A direct compiler invocation shows an internal compiler error: exit code
/// 101, or the fixed marker text on stderr.
pub open spec fn spec_rustc_ice(output: Seq<char>, code: Option<i32>) -> bool {
    code == Some(101i32) || contains_seq(output, "internal compiler error"@)
}

/// Whether a direct compiler invocation shows an internal compiler error.
pub fn rustc_output_shows_ice(output: &str, code: Option<i32>) -> (r: bool)
    ensures
        r == spec_rustc_ice(output@, code),
{
    let by_code = match code {
        Some(c) => c == 101,
        None => false,
    };
    by_code || str_contains(output, "internal compiler error")
}

/// The model of one build's outcome.
pub struct BuildResultModel {
    pub reproduces_issue: bool,
    pub no_verification: bool,
    pub output: Seq<char>,
}

/// The outcome of one build or verification run: whether the issue still
/// reproduces, whether verification was disabled for this run, and the raw
/// output the verdict was drawn from.
pub struct BuildResult {
    reproduces_issue: bool,
    no_verification: bool,
    output: String,
}

impl View for BuildResult {
    type V = BuildResultModel;

    closed spec fn view(&self) -> BuildResultModel {
        BuildResultModel {
            reproduces_issue: self.reproduces_issue,
            no_verification: self.no_verification,
            output: self.output@,
        }
    }
}

impl BuildResult {
    /// Wraps one build outcome.
    pub fn new(reproduces_issue: bool, no_verification: bool, output: String) -> (r: BuildResult)
        ensures
            r@.reproduces_issue == reproduces_issue,
            r@.no_verification == no_verification,
            r@.output == output@,
    {
        BuildResult { reproduces_issue, no_verification, output }
    }

    /// Whether this build keeps the run going: the issue reproduced, or
    /// verification is disabled, in which case every change counts as kept.
    pub fn reproduces_issue(&self) -> (r: bool)
        ensures
            r == (self@.reproduces_issue || self@.no_verification),
    {
        self.reproduces_issue || self.no_verification
    }

    /// The raw output the verdict was drawn from.
    pub fn output(&self) -> (r: &String)
        ensures
            r@ == self@.output,
    {
        &self.output
    }

    /// Demands a reproduction: fails, naming the build and quoting its
    /// output, when the issue did not reproduce.
    pub fn require_reproduction(&self, build: &str) -> (r: Result<(), String>)
        ensures
            r is Ok <==> (self@.reproduces_issue || self@.no_verification),
            r matches Err(e) ==> e@ == build@ + " build must reproduce issue. Output:\n"@
                + self@.output,
    {
        if self.reproduces_issue() {
            Ok(())
        } else {
            Err(
                build.to_owned().concat(" build must reproduce issue. Output:\n").concat(
                    self.output.as_str(),
                ),
            )
        }
    }
}

} // verus!
