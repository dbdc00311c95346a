//! Decision logic of the dead-code reaper: which diagnostics name an unused
//! function in a given file, whether an identifier span is the one a
//! diagnostic points at, and whether the function behind it may be deleted
//! right now.

use vstd::prelude::*;

use crate::processor::checker::can_process_allowed;
use crate::processor::checker::record_step;
use crate::processor::checker::segments_view;
use crate::processor::checker::PassController;
use crate::processor::files::FileChange;
use crate::processor::files::SourceFile;
use crate::text::contains_seq;
use crate::text::path_ends_with;
use crate::text::spec_path_ends_with;
use crate::text::str_contains;
use crate::text::str_eq;
use crate::text::string_eq;

verus! {

/// One span of a compiler diagnostic: a file and a line/column range, with
/// columns 1-based as the compiler reports them.
pub struct DiagSpan {
    pub file_name: String,
    pub line_start: usize,
    pub line_end: usize,
    pub column_start: usize,
    pub column_end: usize,
}

/// One compiler diagnostic, as handed over by the diagnostics collaborator:
/// its lint code, its message, and its spans.
pub struct Diag {
    pub code: Option<String>,
    pub message: String,
    pub spans: Vec<DiagSpan>,
}

/// One location the compiler reported as unused: a line and a 0-based column
/// range.
#[derive(Debug, PartialEq, Eq, Structural)]
pub struct Unused {
    pub line: usize,
    pub column_start: usize,
    pub column_end: usize,
}

/// Whether a diagnostic names an unused function: its code, when present, is
/// the dead-code lint, and its message speaks of a function.
pub open spec fn dead_code_function_diag(d: Diag) -> bool {
    &&& match d.code {
        Some(c) => c@ == "dead_code"@,
        None => true,
    }
    &&& contains_seq(d.message@, "function"@)
}

/// What the engine demands of a dead-code diagnostic from the diagnostics
/// collaborator: at least one span, a single-line primary span, and 1-based
/// columns.
pub open spec fn wf_dead_code_diag(d: Diag) -> bool {
    dead_code_function_diag(d) ==> {
        &&& d.spans@.len() >= 1
        &&& d.spans@[0].line_start == d.spans@[0].line_end
        &&& d.spans@[0].column_start >= 1
        &&& d.spans@[0].column_end >= 1
    }
}

/// The unused location a dead-code diagnostic points at, with the columns
/// turned 0-based.
pub open spec fn unused_of(d: Diag) -> Unused
    recommends
        wf_dead_code_diag(d),
        dead_code_function_diag(d),
{
    Unused {
        line: d.spans@[0].line_start,
        column_start: (d.spans@[0].column_start - 1) as usize,
        column_end: (d.spans@[0].column_end - 1) as usize,
    }
}

/// Whether the primary span of a diagnostic lies in the file at `file_path`:
/// the file's path ends with the span's file name. The span's path may be
/// remapped, so only the suffix is compared.
pub open spec fn diag_in_file(d: Diag, file_path: Seq<char>) -> bool
    recommends
        d.spans@.len() >= 1,
{
    spec_path_ends_with(file_path, d.spans@[0].file_name@)
}

/// The unused locations that the given diagnostics report for one file, in
/// order.
pub open spec fn spec_collect_unused(diags: Seq<Diag>, file_path: Seq<char>) -> Seq<Unused>
    decreases diags.len(),
{
    if diags.len() == 0 {
        Seq::empty()
    } else {
        let rest = spec_collect_unused(diags.drop_last(), file_path);
        let d = diags.last();
        if dead_code_function_diag(d) && diag_in_file(d, file_path) {
            rest.push(unused_of(d))
        } else {
            rest
        }
    }
}

/// Collects the unused-function locations that the diagnostics report for
/// the file at `file_path`.
pub fn collect_unused(diags: &Vec<Diag>, file_path: &str) -> (r: Vec<Unused>)
    requires
        forall|i: int| 0 <= i < diags@.len() ==> wf_dead_code_diag(#[trigger] diags@[i]),
    ensures
        r@ == spec_collect_unused(diags@, file_path@),
{
    let mut out: Vec<Unused> = Vec::new();
    let n = diags.len();
    let mut i: usize = 0;
    while i < n
        invariant
            0 <= i <= n,
            n == diags@.len(),
            forall|k: int| 0 <= k < diags@.len() ==> wf_dead_code_diag(#[trigger] diags@[k]),
            out@ == spec_collect_unused(diags@.take(i as int), file_path@),
        decreases n - i,
    {
        let d = &diags[i];
        proof {
            assert(diags@.take(i as int + 1).drop_last() =~= diags@.take(i as int));
        }
        let code_matches = match &d.code {
            Some(c) => str_eq(c.as_str(), "dead_code"),
            None => true,
        };
        if code_matches && str_contains(d.message.as_str(), "function") {
            if path_ends_with(file_path, d.spans[0].file_name.as_str()) {
                out.push(
                    Unused {
                        line: d.spans[0].line_start,
                        column_start: d.spans[0].column_start - 1,
                        column_end: d.spans[0].column_end - 1,
                    },
                );
            }
        }
        i = i + 1;
        assert(out@ =~= spec_collect_unused(diags@.take(i as int), file_path@));
    }
    proof {
        assert(diags@.take(n as int) =~= diags@);
    }
    out
}

/// Whether a single-line identifier span at `line`, columns `[col_start,
/// col_end)` (0-based), is one this unused location points at: same line,
/// and the identifier's columns lie within the reported ones.
pub open spec fn spec_span_matches(u: Unused, line: usize, col_start: usize, col_end: usize) -> bool {
    &&& u.line == line
    &&& u.column_start <= col_start
    &&& u.column_end >= col_end
}

impl Unused {
    /// Whether the identifier span at `line`, columns `[col_start, col_end)`,
    /// is the one this location points at.
    pub fn span_matches(&self, line: usize, col_start: usize, col_end: usize) -> (r: bool)
        ensures
            r == spec_span_matches(*self, line, col_start, col_end),
    {
        let line_matches = self.line == line;
        let column_matches = self.column_start <= col_start && self.column_end >= col_end;
        line_matches && column_matches
    }
}

/// How many of the unused locations match the given identifier span.
pub open spec fn spec_count_matches(
    us: Seq<Unused>,
    line: usize,
    col_start: usize,
    col_end: usize,
) -> int
    decreases us.len(),
{
    if us.len() == 0 {
        0
    } else {
        spec_count_matches(us.drop_last(), line, col_start, col_end) + if spec_span_matches(
            us.last(),
            line,
            col_start,
            col_end,
        ) {
            1int
        } else {
            0int
        }
    }
}

/// Counts how many unused locations match one identifier span.
pub fn count_span_matches(unused: &Vec<Unused>, line: usize, col_start: usize, col_end: usize) -> (r:
    usize)
    ensures
        r == spec_count_matches(unused@, line, col_start, col_end),
{
    let mut count: usize = 0;
    let n = unused.len();
    let mut i: usize = 0;
    while i < n
        invariant
            0 <= i <= n,
            n == unused@.len(),
            count <= i,
            count == spec_count_matches(unused@.take(i as int), line, col_start, col_end),
        decreases n - i,
    {
        proof {
            assert(unused@.take(i as int + 1).drop_last() =~= unused@.take(i as int));
        }
        if unused[i].span_matches(line, col_start, col_end) {
            count = count + 1;
        }
        i = i + 1;
    }
    proof {
        assert(unused@.take(n as int) =~= unused@);
    }
    count
}

/// Decides whether the item whose identifier matched `span_match_count`
/// unused locations stays in the tree. An unmatched item always stays. A
/// matched item is offered to the controller under its path: it is deleted
/// exactly when the controller allows the edit, and the deletion invalidates
/// the file's diagnostics, since deleting code shifts the spans below it.
/// Returns `(retain, invalidated)`.
pub fn should_retain_item(
    checker: &mut PassController,
    path: &[String],
    span_match_count: usize,
) -> (r: (bool, bool))
    requires
        span_match_count <= 1,
        !(old(checker)@ is Success),
        old(checker)@.wf(),
    ensures
        span_match_count == 0 ==> r == (true, false) && *final(checker) == *old(checker),
        span_match_count == 1 ==> {
            &&& final(checker)@ == record_step(old(checker)@, segments_view(path@))
            &&& r.0 == !can_process_allowed(old(checker)@, segments_view(path@))
            &&& r.1 == can_process_allowed(old(checker)@, segments_view(path@))
        },
        final(checker)@.wf(),
        final(checker).options_spec() == old(checker).options_spec(),
{
    if span_match_count == 0 {
        (true, false)
    } else {
        let allowed = checker.can_process(path);
        if allowed {
            (false, true)
        } else {
            (true, false)
        }
    }
}

/// Whether a text parses as a Rust source file; the verdict depends on the
/// text alone.
pub uninterp spec fn is_valid_rust(code: Seq<char>) -> bool;

/// Relies on syn::parse_file: whether the text parses as a Rust source file.
#[verifier::external_body]
fn parses_as_rust(code: &str) -> (r: bool)
    ensures
        r == is_valid_rust(code@),
{
    syn::parse_file(code).is_ok()
}

/// Writes the text rewritten by the machine-applied import suggestions into
/// the file's transaction, provided the rewrite changed something and still
/// parses as Rust: the cache is the next build's input, so text that does
/// not parse must never reach it. On failure nothing is touched.
pub fn write_rewritten_text(change: &mut FileChange, file: &mut SourceFile, new_text: String) -> (r:
    Result<(), String>)
    requires
        old(change)@.path == old(file)@.path,
    ensures
        match r {
            Ok(()) => {
                &&& new_text@ != old(change)@.before_content
                &&& is_valid_rust(new_text@)
                &&& final(file)@.path == old(file)@.path
                &&& final(file)@.content == new_text@
                &&& final(change)@.path == old(change)@.path
                &&& final(change)@.before_content == old(change)@.before_content
                &&& final(change)@.has_written
            },
            Err(e) => {
                &&& *final(file) == *old(file)
                &&& *final(change) == *old(change)
                &&& if new_text@ == old(change)@.before_content {
                    e@ == "Suggestions 'applied' but no changes made??"@
                } else {
                    &&& !is_valid_rust(new_text@)
                    &&& e@ == "parsing file after applying suggestions"@
                }
            },
        },
{
    if string_eq(&new_text, change.before_content()) {
        return Err("Suggestions 'applied' but no changes made??".to_owned());
    }
    if !parses_as_rust(new_text.as_str()) {
        return Err("parsing file after applying suggestions".to_owned());
    }
    change.write(file, new_text);
    Ok(())
}

/// Whether a machine-applicable suggestion concerns an unused import.
pub fn is_unused_import_message(message: &str) -> (r: bool)
    ensures
        r == contains_seq(message@, "unused import"@),
{
    str_contains(message, "unused import")
}

#[verifier::external_type_specification]
#[verifier::external_body]
pub struct ExSuggestion(rustfix::Suggestion);

/// The diagnostic message a suggestion came from, as a value: it depends on
/// the suggestion alone.
pub uninterp spec fn message_of(s: rustfix::Suggestion) -> Seq<char>;

/// Relies on the `message` field of rustfix::Suggestion: the message of the
/// diagnostic the suggestion came from.
#[verifier::external_body]
fn suggestion_message(s: &rustfix::Suggestion) -> (r: &String)
    ensures
        r@ == message_of(*s),
{
    &s.message
}

/// Relies on rustfix's derived `Clone` for Suggestion: the clone equals the
/// original, since the type holds only strings, numbers and lists of them.
#[verifier::external_body]
fn clone_suggestion(s: &rustfix::Suggestion) -> (r: rustfix::Suggestion)
    ensures
        r == *s,
{
    s.clone()
}

/// Whether the suggestion engine accepts these suggestions against this
/// text — it refuses out-of-range and conflicting replacements. The verdict
/// depends on the text and the suggestions alone.
pub uninterp spec fn rewrite_accepted(
    code: Seq<char>,
    suggestions: Seq<rustfix::Suggestion>,
) -> bool;

/// The text the suggestion engine produces by applying the suggestions'
/// machine-applicable replacements, a function of the text and the
/// suggestions alone.
pub uninterp spec fn rewrite_of(code: Seq<char>, suggestions: Seq<rustfix::Suggestion>) -> Seq<
    char,
>;

/// Relies on rustfix::apply_suggestions: applies each suggestion's
/// machine-applicable replacement to the text, or describes why it could
/// not.
#[verifier::external_body]
fn apply_suggestions_call(code: &str, suggestions: &Vec<rustfix::Suggestion>) -> (r: Result<
    String,
    String,
>)
    ensures
        r is Ok <==> rewrite_accepted(code@, suggestions@),
        r matches Ok(t) ==> t@ == rewrite_of(code@, suggestions@),
{
    match rustfix::apply_suggestions(code, suggestions) {
        Ok(t) => Ok(t),
        Err(e) => Err(format!("{e}")),
    }
}

/// The suggestions whose message speaks of an unused import, in order.
pub open spec fn unused_import_suggestions(suggestions: Seq<rustfix::Suggestion>) -> Seq<
    rustfix::Suggestion,
>
    decreases suggestions.len(),
{
    if suggestions.len() == 0 {
        Seq::empty()
    } else {
        let rest = unused_import_suggestions(suggestions.drop_last());
        if contains_seq(message_of(suggestions.last()), "unused import"@) {
            rest.push(suggestions.last())
        } else {
            rest
        }
    }
}

/// Applies the unused-import suggestions for one file to its transaction:
/// keeps exactly the suggestions whose message speaks of an unused import,
/// lets the suggestion engine rewrite the text with them, and takes the
/// rewrite only when it changed something and still parses as Rust. Returns
/// whether a rewrite was written; without any unused-import suggestion, or
/// on failure, nothing is touched.
pub fn apply_unused_import_suggestions(
    change: &mut FileChange,
    file: &mut SourceFile,
    suggestions: &Vec<rustfix::Suggestion>,
) -> (r: Result<bool, String>)
    requires
        old(change)@.path == old(file)@.path,
    ensures
        ({
            let desired = unused_import_suggestions(suggestions@);
            let before = old(change)@.before_content;
            match r {
                Ok(applied) => {
                    &&& (applied <==> desired.len() > 0)
                    &&& (!applied ==> *final(file) == *old(file) && *final(change) == *old(
                        change,
                    ))
                    &&& (applied ==> {
                        &&& rewrite_accepted(before, desired)
                        &&& rewrite_of(before, desired) != before
                        &&& is_valid_rust(rewrite_of(before, desired))
                        &&& final(file)@.path == old(file)@.path
                        &&& final(file)@.content == rewrite_of(before, desired)
                        &&& final(change)@.path == old(change)@.path
                        &&& final(change)@.before_content == before
                        &&& final(change)@.has_written
                    })
                },
                Err(e) => {
                    &&& *final(file) == *old(file)
                    &&& *final(change) == *old(change)
                    &&& desired.len() > 0
                    &&& if !rewrite_accepted(before, desired) {
                        true
                    } else if rewrite_of(before, desired) == before {
                        e@ == "Suggestions 'applied' but no changes made??"@
                    } else {
                        &&& !is_valid_rust(rewrite_of(before, desired))
                        &&& e@ == "parsing file after applying suggestions"@
                    }
                },
            }
        }),
{
    let mut desired: Vec<rustfix::Suggestion> = Vec::new();
    let n = suggestions.len();
    let mut i: usize = 0;
    while i < n
        invariant
            0 <= i <= n,
            n == suggestions@.len(),
            desired@ == unused_import_suggestions(suggestions@.take(i as int)),
        decreases n - i,
    {
        let ghost prev = suggestions@.take(i as int);
        let ghost cur = suggestions@.take(i as int + 1);
        proof {
            assert(cur.drop_last() =~= prev);
            assert(cur.last() == suggestions@[i as int]);
        }
        if is_unused_import_message(suggestion_message(&suggestions[i]).as_str()) {
            desired.push(clone_suggestion(&suggestions[i]));
            assert(desired@ =~= unused_import_suggestions(cur));
        } else {
            assert(desired@ =~= unused_import_suggestions(cur));
        }
        i = i + 1;
    }
    proof {
        assert(suggestions@.take(n as int) =~= suggestions@);
    }
    if desired.is_empty() {
        return Ok(false);
    }
    let rewritten = match apply_suggestions_call(change.before_content().as_str(), &desired) {
        Ok(t) => t,
        Err(e) => {
            return Err(e);
        },
    };
    match write_rewritten_text(change, file, rewritten) {
        Ok(()) => Ok(true),
        Err(e) => Err(e),
    }
}

/// Whether a suggestion's file path and a source file's path name the same
/// file: one ends with the other, since either may carry a remapped prefix.
pub fn file_matches_suggestion(file_path: &str, sugg_path: &str) -> (r: bool)
    ensures
        r == (spec_path_ends_with(file_path@, sugg_path@) || spec_path_ends_with(
            sugg_path@,
            file_path@,
        )),
{
    path_ends_with(file_path, sugg_path) || path_ends_with(sugg_path, file_path)
}

} // verus!
