//! Tests of the engine around the controller: the file-change transaction
//! layer, verdict application, the run-loop decisions, the configuration, and
//! the dead-code reaper's decision logic.

use cargo_minimize::processor::apply_verdict;
use cargo_minimize::processor::checker::PassController;
use cargo_minimize::processor::files::Changes;
use cargo_minimize::processor::files::SourceFile;
use cargo_minimize::processor::reaper::apply_unused_import_suggestions;
use cargo_minimize::processor::reaper::collect_unused;
use cargo_minimize::processor::reaper::count_span_matches;
use cargo_minimize::processor::reaper::file_matches_suggestion;
use cargo_minimize::processor::reaper::is_unused_import_message;
use cargo_minimize::processor::reaper::should_retain_item;
use cargo_minimize::processor::reaper::Diag;
use cargo_minimize::processor::reaper::DiagSpan;
use cargo_minimize::processor::reaper::write_rewritten_text;
use cargo_minimize::processor::reaper::Unused;
use cargo_minimize::processor::sweep_decision;
use cargo_minimize::processor::Minimizer;
use cargo_minimize::processor::SweepAction;
use cargo_minimize::roots::ensure_roots_kept;
use cargo_minimize::EnvVar;
use cargo_minimize::Options;

fn file(path: &str, content: &str) -> SourceFile {
    SourceFile::new(path.to_string(), content.to_string())
}

fn strings(names: &[&str]) -> Vec<String> {
    names.iter().map(|s| s.to_string()).collect()
}

/// Puts a fresh controller into the bisecting phase with one candidate.
fn bisecting_controller() -> PassController {
    let mut c = PassController::new(Options::default());
    assert!(!c.can_process(&strings(&["main"])));
    c.no_change();
    c
}

#[test]
fn transaction_rollback_restores_the_snapshot() {
    let mut f = file("src/main.rs", "fn main() {}");
    let mut change = f.try_change();
    assert_eq!(change.before_content(), "fn main() {}");
    change.write(&mut f, "fn main() { loop {} }".to_string());
    assert_eq!(f.content(), "fn main() { loop {} }");
    change.rollback(&mut f);
    assert_eq!(f.content(), "fn main() {}");
}

#[test]
fn transaction_commit_keeps_the_text_and_records_the_change() {
    let mut f = file("src/main.rs", "fn main() {}");
    let mut changes = Changes::default();
    assert!(!changes.had_changes());
    let mut change = f.try_change();
    change.write(&mut f, "fn main() { loop {} }".to_string());
    change.commit(&mut changes);
    assert_eq!(f.content(), "fn main() { loop {} }");
    assert!(changes.had_changes());
}

#[test]
fn verdict_reproduces_commits_the_edit() {
    // The global invariant: an edit is kept on the tree exactly when the
    // build after it still reproduced the issue.
    let mut checker = bisecting_controller();
    let mut f = file("src/main.rs", "fn main() { old(); }");
    let mut changes = Changes::default();
    let mut change = f.try_change();
    change.write(&mut f, "fn main() {}".to_string());
    apply_verdict(&mut checker, change, &mut f, &mut changes, true);
    assert_eq!(f.content(), "fn main() {}");
    assert!(changes.had_changes());
    assert!(checker.is_finished());
}

#[test]
fn verdict_does_not_reproduce_rolls_back() {
    let mut checker = bisecting_controller();
    let mut f = file("src/main.rs", "fn main() { old(); }");
    let mut changes = Changes::default();
    let mut change = f.try_change();
    change.write(&mut f, "fn main() {}".to_string());
    apply_verdict(&mut checker, change, &mut f, &mut changes, false);
    assert_eq!(f.content(), "fn main() { old(); }");
    assert!(!changes.had_changes());
    // The single candidate is now confirmed bad and the bisection is over.
    assert!(checker.is_finished());
}

#[test]
fn sweep_decisions() {
    assert_eq!(sweep_decision(true, false, false), SweepAction::NextSweep);
    assert_eq!(sweep_decision(true, true, true), SweepAction::NextSweep);
    assert_eq!(sweep_decision(false, true, false), SweepAction::RefreshAndRetry);
    // The refresh retry happens at most once per no-change detection.
    assert_eq!(sweep_decision(false, true, true), SweepAction::Finished);
    assert_eq!(sweep_decision(false, false, false), SweepAction::Finished);
}

#[test]
fn pass_disabled_by_explicit_list() {
    let mut options = Options::default();
    let files = vec![file("src/main.rs", "fn main() {}")];
    options.passes = Some("privatize,item-deleter".to_string());
    let m = Minimizer::new_glob_dir(options, files).unwrap();
    assert!(!m.pass_disabled("privatize"));
    assert!(!m.pass_disabled("item-deleter"));
    assert!(m.pass_disabled("everybody-loops"));
    assert!(m.pass_disabled("item"));
}

#[test]
fn all_passes_enabled_by_default() {
    let files = vec![file("src/main.rs", "fn main() {}")];
    let m = Minimizer::new_glob_dir(Options::default(), files).unwrap();
    assert!(!m.pass_disabled("everybody-loops"));
    assert!(!m.pass_disabled("anything"));
}

#[test]
fn glob_dir_respects_the_ignore_list() {
    let mut options = Options::default();
    options.ignore_file = strings(&["src/generated"]);
    let files = vec![
        file("src/main.rs", ""),
        file("src/generated/big.rs", ""),
        file("src/lib2.rs", ""),
    ];
    let m = Minimizer::new_glob_dir(options, files).unwrap();
    assert_eq!(m.files.len(), 2);
    assert_eq!(m.files[0].path_no_fs_interact(), "src/main.rs");
    assert_eq!(m.files[1].path_no_fs_interact(), "src/lib2.rs");
}

#[test]
fn glob_dir_needs_at_least_one_file() {
    let mut options = Options::default();
    options.path = "src".to_string();
    let err = Minimizer::new_glob_dir(options, Vec::new()).unwrap_err();
    assert_eq!(err, "Did not find any files for path src");
}

#[test]
fn glob_dir_rustc_needs_a_single_file() {
    let mut options = Options::default();
    options.rustc = true;
    let files = vec![file("a.rs", ""), file("b.rs", "")];
    let err = Minimizer::new_glob_dir(options, files).unwrap_err();
    assert_eq!(err, "Found more than one file. --rustc only works with a single file.");
}

#[test]
fn env_var_parsing() {
    let v = EnvVar::from_str("NAME=VALUE").unwrap();
    assert_eq!(v.key, "NAME");
    assert_eq!(v.value, "VALUE");
    // Everything after a second `=` is dropped, as `split('=')` does.
    let v = EnvVar::from_str("A=B=C").unwrap();
    assert_eq!(v.key, "A");
    assert_eq!(v.value, "B");
    let v = EnvVar::from_str("EMPTY=").unwrap();
    assert_eq!(v.key, "EMPTY");
    assert_eq!(v.value, "");
    assert!(EnvVar::from_str("NOVALUE").is_err());
    assert!(EnvVar::from_str("").is_err());
}

#[test]
fn default_options() {
    let o = Options::default();
    assert_eq!(o.cargo_subcmd, "build");
    assert!(!o.rustc);
    assert!(!o.no_verification);
    assert!(o.passes.is_none());
    assert!(o.env.is_empty());
    assert!(o.ignore_file.is_empty());
}

#[test]
fn roots_kept_passes_and_fails() {
    let end = strings(&["root_a", "root_b", "extra"]);
    assert!(ensure_roots_kept(&end, &strings(&["root_a", "root_b"])).is_ok());
    assert!(ensure_roots_kept(&end, &strings(&[])).is_ok());
    let err = ensure_roots_kept(&end, &strings(&["root_a", "gone"])).unwrap_err();
    assert_eq!(err, "gone was not found after minimization");
    // With several roots missing, the first one is named.
    let err = ensure_roots_kept(&end, &strings(&["gone_first", "root_a", "gone_second"]))
        .unwrap_err();
    assert_eq!(err, "gone_first was not found after minimization");
}

#[test]
fn span_matching_is_line_and_column_containment() {
    let u = Unused { line: 10, column_start: 4, column_end: 10 };
    assert!(u.span_matches(10, 4, 10));
    assert!(u.span_matches(10, 5, 9));
    assert!(!u.span_matches(11, 4, 10));
    assert!(!u.span_matches(10, 3, 10));
    assert!(!u.span_matches(10, 4, 11));
}

fn dead_code_diag(file_name: &str, line: usize, cols: (usize, usize)) -> Diag {
    Diag {
        code: Some("dead_code".to_string()),
        message: "function `unused` is never used".to_string(),
        spans: vec![DiagSpan {
            file_name: file_name.to_string(),
            line_start: line,
            line_end: line,
            column_start: cols.0,
            column_end: cols.1,
        }],
    }
}

#[test]
fn collect_unused_filters_by_code_message_and_file() {
    let mut diags = vec![dead_code_diag("src/main.rs", 3, (4, 10))];
    // A different lint is skipped.
    diags.push(Diag {
        code: Some("unused_variables".to_string()),
        message: "function-like but wrong code".to_string(),
        spans: Vec::new(),
    });
    // A dead-code diagnostic about something else than a function is skipped.
    diags.push(Diag {
        code: Some("dead_code".to_string()),
        message: "struct `S` is never constructed".to_string(),
        spans: Vec::new(),
    });
    // A diagnostic for another file is skipped.
    diags.push(dead_code_diag("src/other.rs", 9, (1, 2)));

    let unused = collect_unused(&diags, "/work/project/src/main.rs");
    assert_eq!(unused.len(), 1);
    // Columns are converted from 1-based to 0-based.
    assert_eq!(unused[0], Unused { line: 3, column_start: 3, column_end: 9 });
}

#[test]
fn count_span_matches_counts_exactly() {
    let unused = vec![
        Unused { line: 2, column_start: 0, column_end: 8 },
        Unused { line: 2, column_start: 2, column_end: 6 },
        Unused { line: 5, column_start: 0, column_end: 8 },
    ];
    assert_eq!(count_span_matches(&unused, 2, 3, 5), 2);
    assert_eq!(count_span_matches(&unused, 2, 0, 8), 1);
    assert_eq!(count_span_matches(&unused, 5, 1, 7), 1);
    assert_eq!(count_span_matches(&unused, 9, 0, 0), 0);
}

#[test]
fn unmatched_items_are_retained_without_asking() {
    let mut checker = bisecting_controller();
    let (retain, invalidated) = should_retain_item(&mut checker, &strings(&["f"]), 0);
    assert!(retain);
    assert!(!invalidated);
}

#[test]
fn matched_items_follow_the_controller() {
    // While collecting, a matched item is recorded and kept.
    let mut checker = PassController::new(Options::default());
    let (retain, invalidated) = should_retain_item(&mut checker, &strings(&["f"]), 1);
    assert!(retain);
    assert!(!invalidated);
    checker.no_change();
    // While bisecting, a matched item in the current batch is deleted and the
    // file's diagnostics become stale.
    let (retain, invalidated) = should_retain_item(&mut checker, &strings(&["f"]), 1);
    assert!(!retain);
    assert!(invalidated);
    // One outside the current batch stays.
    let (retain, invalidated) = should_retain_item(&mut checker, &strings(&["g"]), 1);
    assert!(retain);
    assert!(!invalidated);
}

#[test]
fn rewritten_text_is_taken_only_when_changed_and_parsing() {
    let mut f = file("src/main.rs", "use std::fs;\nfn main() {}\n");
    let mut change = f.try_change();
    let r = write_rewritten_text(&mut change, &mut f, "fn main() {}\n".to_string());
    assert!(r.is_ok());
    assert_eq!(f.content(), "fn main() {}\n");
}

#[test]
fn unchanged_rewrite_is_rejected() {
    let mut f = file("src/main.rs", "fn main() {}\n");
    let mut change = f.try_change();
    let r = write_rewritten_text(&mut change, &mut f, "fn main() {}\n".to_string());
    assert_eq!(r.unwrap_err(), "Suggestions 'applied' but no changes made??");
    assert_eq!(f.content(), "fn main() {}\n");
}

#[test]
fn unparsable_rewrite_is_rejected() {
    let mut f = file("src/main.rs", "fn main() {}\n");
    let mut change = f.try_change();
    let r = write_rewritten_text(&mut change, &mut f, "fn main( {".to_string());
    assert_eq!(r.unwrap_err(), "parsing file after applying suggestions");
    // The cache is untouched on failure.
    assert_eq!(f.content(), "fn main() {}\n");
}

fn import_suggestion(message: &str, file_name: &str, range: std::ops::Range<usize>) -> rustfix::Suggestion {
    let snippet = rustfix::Snippet {
        file_name: file_name.to_string(),
        line_range: rustfix::LineRange {
            start: rustfix::LinePosition { line: 1, column: 1 },
            end: rustfix::LinePosition { line: 1, column: 13 },
        },
        range,
    };
    rustfix::Suggestion {
        message: message.to_string(),
        snippets: vec![snippet.clone()],
        solutions: vec![rustfix::Solution {
            message: message.to_string(),
            replacements: vec![rustfix::Replacement {
                snippet,
                replacement: String::new(),
            }],
        }],
    }
}

#[test]
fn unused_import_suggestions_rewrite_the_cache() {
    let mut f = file("src/main.rs", "use std::fs;\nfn main() {}\n");
    let mut change = f.try_change();
    let suggestions = vec![import_suggestion(
        "unused import: `std::fs`",
        "src/main.rs",
        0..13,
    )];
    let applied = apply_unused_import_suggestions(&mut change, &mut f, &suggestions).unwrap();
    assert!(applied);
    assert_eq!(f.content(), "fn main() {}\n");
}

#[test]
fn non_import_suggestions_touch_nothing() {
    let mut f = file("src/main.rs", "fn main() { let x = 1; }\n");
    let mut change = f.try_change();
    let suggestions = vec![import_suggestion(
        "unused variable: `x`",
        "src/main.rs",
        0..1,
    )];
    let applied = apply_unused_import_suggestions(&mut change, &mut f, &suggestions).unwrap();
    assert!(!applied);
    assert_eq!(f.content(), "fn main() { let x = 1; }\n");
}

#[test]
fn unused_import_suggestions_are_recognized() {
    assert!(is_unused_import_message("unused import: `std::fs`"));
    assert!(!is_unused_import_message("unused variable: `x`"));
}

#[test]
fn suggestion_file_matching_is_a_suffix_check_either_way() {
    assert!(file_matches_suggestion("/work/project/src/main.rs", "src/main.rs"));
    assert!(file_matches_suggestion("src/main.rs", "/work/project/src/main.rs"));
    assert!(file_matches_suggestion("src/main.rs", "src/main.rs"));
    assert!(!file_matches_suggestion("src/main.rs", "ain.rs"));
    assert!(!file_matches_suggestion("src/main.rs", "src/other.rs"));
}
