//! Tests of the build-output decisions: which stream carries the lints and
//! in which format, internal-compiler-error detection, and build verdicts.

use cargo_minimize::build_output::cargo_output_shows_ice;
use cargo_minimize::build_output::read_script_output;
use cargo_minimize::build_output::rustc_output_shows_ice;
use cargo_minimize::build_output::BuildResult;
use cargo_minimize::build_output::LintMode;

#[test]
fn script_output_default() {
    let (output, mode) = read_script_output("uwu", "owo");
    assert_eq!(output, "uwu");
    assert_eq!(mode, LintMode::Cargo);
}

#[test]
fn script_output_rustc_stderr() {
    let (output, mode) = read_script_output("wrong", "minimize-fmt-rustc");
    assert_eq!(output, "minimize-fmt-rustc");
    assert_eq!(mode, LintMode::Rustc);
}

#[test]
fn script_output_cargo_stderr() {
    let (output, mode) = read_script_output("wrong", "minimize-fmt-cargo");
    assert_eq!(output, "minimize-fmt-cargo");
    assert_eq!(mode, LintMode::Cargo);
}

#[test]
fn script_output_rustc_stdout() {
    let (output, mode) = read_script_output("minimize-fmt-rustc", "wrong");
    assert_eq!(output, "minimize-fmt-rustc");
    assert_eq!(mode, LintMode::Rustc);
}

#[test]
fn script_output_only_first_line_counts() {
    // The mark must be on the first line of the stream.
    let (output, mode) = read_script_output("nothing\nminimize-fmt-rustc", "owo");
    assert_eq!(output, "nothing\nminimize-fmt-rustc");
    assert_eq!(mode, LintMode::Cargo);
}

#[test]
fn script_output_crlf_first_line() {
    let (output, mode) = read_script_output("minimize-fmt-rustc\r\nrest", "owo");
    assert_eq!(output, "minimize-fmt-rustc\r\nrest");
    assert_eq!(mode, LintMode::Rustc);
}

#[test]
fn script_output_empty_streams() {
    let (output, mode) = read_script_output("", "");
    assert_eq!(output, "");
    assert_eq!(mode, LintMode::Cargo);
}

#[test]
fn script_output_cargo_mark_wins_over_rustc_mark() {
    // The stdout mark is checked before the stderr one.
    let (output, mode) = read_script_output("minimize-fmt-cargo", "minimize-fmt-rustc");
    assert_eq!(output, "minimize-fmt-cargo");
    assert_eq!(mode, LintMode::Cargo);
}

#[test]
fn cargo_ice_detection() {
    assert!(cargo_output_shows_ice("error: internal compiler error: it broke"));
    assert!(cargo_output_shows_ice("thread 'rustc' panicked at compiler/x.rs"));
    assert!(!cargo_output_shows_ice("error[E0308]: mismatched types"));
    assert!(!cargo_output_shows_ice(""));
}

#[test]
fn rustc_ice_detection() {
    assert!(rustc_output_shows_ice("anything", Some(101)));
    assert!(rustc_output_shows_ice("internal compiler error: oh no", Some(0)));
    assert!(rustc_output_shows_ice("internal compiler error: oh no", None));
    assert!(!rustc_output_shows_ice("error: expected `;`", Some(1)));
    assert!(!rustc_output_shows_ice("fine", None));
}

#[test]
fn build_result_no_verification_counts_as_reproduction() {
    let r = BuildResult::new(false, true, String::new());
    assert!(r.reproduces_issue());
    assert!(r.require_reproduction("Initial").is_ok());
}

#[test]
fn build_result_requires_reproduction() {
    let r = BuildResult::new(false, false, "some output".to_string());
    assert!(!r.reproduces_issue());
    let err = r.require_reproduction("Initial").unwrap_err();
    assert_eq!(err, "Initial build must reproduce issue. Output:\nsome output");

    let ok = BuildResult::new(true, false, String::new());
    assert!(ok.reproduces_issue());
    assert!(ok.require_reproduction("Initial").is_ok());
}
