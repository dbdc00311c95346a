//! Tests of the bisection controller: candidate collection, batch splitting,
//! the worklist, and whole bisection runs driven by a simulated build.

use cargo_minimize::div_ceil;
use cargo_minimize::processor::checker::split_owned;
use cargo_minimize::processor::checker::AstPath;
use cargo_minimize::processor::checker::PassController;
use cargo_minimize::processor::checker::Worklist;
use cargo_minimize::Options;

fn path(segments: &[&str]) -> AstPath {
    AstPath::new(segments.iter().map(|s| s.to_string()).collect())
}

fn segments(names: &[&str]) -> Vec<String> {
    names.iter().map(|s| s.to_string()).collect()
}

#[test]
fn div_ceil_values() {
    assert_eq!(div_ceil(0, 2), 0);
    assert_eq!(div_ceil(1, 2), 1);
    assert_eq!(div_ceil(2, 2), 1);
    assert_eq!(div_ceil(7, 2), 4);
    assert_eq!(div_ceil(8, 2), 4);
    assert_eq!(div_ceil(9, 3), 3);
    assert_eq!(div_ceil(10, 3), 4);
}

#[test]
fn split_sizes_are_ceil_and_floor() {
    let batch: Vec<AstPath> = (0..9).map(|i| path(&[&format!("c{i}")])).collect();
    let (first, second) = split_owned(batch);
    assert_eq!(first.len(), 5);
    assert_eq!(second.len(), 4);
    // The two halves recover the original batch exactly, in order.
    assert_eq!(first[0].segments(), &segments(&["c0"]));
    assert_eq!(first[4].segments(), &segments(&["c4"]));
    assert_eq!(second[0].segments(), &segments(&["c5"]));
    assert_eq!(second[3].segments(), &segments(&["c8"]));
}

#[test]
fn has_prefix_by_segments() {
    let module = path(&["outer", "inner"]);
    let item = path(&["outer", "inner", "f"]);
    let other = path(&["outer", "innerx"]);
    assert!(item.has_prefix(&module));
    assert!(item.has_prefix(&item));
    assert!(!module.has_prefix(&item));
    assert!(!other.has_prefix(&module));
    assert!(!item.has_prefix(&other));
    // The empty path is a prefix of every path.
    assert!(item.has_prefix(&path(&[])));
}

#[test]
fn worklist_push_pop_skips_empty() {
    let mut w = Worklist::new();
    assert!(w.pop().is_none());
    w.push(Vec::new());
    assert!(w.pop().is_none());
    w.push(vec![path(&["a"])]);
    w.push(vec![path(&["b"]), path(&["c"])]);
    let top = w.pop().unwrap();
    assert_eq!(top.len(), 2);
    assert_eq!(top[0].segments(), &segments(&["b"]));
    let next = w.pop().unwrap();
    assert_eq!(next.len(), 1);
    assert_eq!(next[0].segments(), &segments(&["a"]));
    assert!(w.pop().is_none());
}

#[test]
fn worklist_prune_drops_covered_paths() {
    let mut w = Worklist::new();
    w.push(vec![path(&["m", "f"]), path(&["other"])]);
    w.push(vec![path(&["m", "g"]), path(&["m"])]);
    // Everything under (and including) module `m` is now redundant.
    w.prune(&vec![path(&["m"])]);
    let top = w.pop().unwrap();
    assert_eq!(top.len(), 1);
    assert_eq!(top[0].segments(), &segments(&["other"]));
    // The second batch became empty and was dropped.
    assert!(w.pop().is_none());
}

#[test]
fn no_candidates_means_immediate_success() {
    // A pass that has nothing to offer ends the bisection at once: running a
    // pass over an already-fixpointed file yields an immediate Success.
    let mut c = PassController::new(Options::default());
    assert!(!c.is_finished());
    c.no_change();
    assert!(c.is_finished());
}

#[test]
fn collection_denies_and_records() {
    let mut c = PassController::new(Options::default());
    // During the initial collection, nothing may be processed.
    assert!(!c.can_process(&segments(&["a"])));
    assert!(!c.can_process(&segments(&["b"])));
    c.no_change();
    assert!(!c.is_finished());
    // Bisection starts with the full candidate set as the current batch.
    assert!(c.can_process(&segments(&["a"])));
    assert!(c.can_process(&segments(&["b"])));
    assert!(!c.can_process(&segments(&["c"])));
}

#[test]
fn committing_the_full_batch_finishes() {
    let mut c = PassController::new(Options::default());
    assert!(!c.can_process(&segments(&["a"])));
    assert!(!c.can_process(&segments(&["b"])));
    c.no_change();
    // The whole first batch reproduces: everything is committed at once.
    c.reproduces();
    assert!(c.is_finished());
}

/// Drives a whole bisection as the engine would, with a simulated build: a
/// trial reproduces the issue exactly when its batch holds no bad candidate.
/// Returns the committed candidates and how often each bad candidate was
/// tried as a singleton.
fn run_bisection(candidates: &[&str], bad: &[&str]) -> (Vec<String>, Vec<usize>) {
    let mut c = PassController::new(Options::default());
    for name in candidates {
        assert!(!c.can_process(&segments(&[name])));
    }
    c.no_change();

    let mut committed: Vec<String> = Vec::new();
    let mut bad_singleton_tries = vec![0usize; bad.len()];
    let mut rounds = 0usize;
    while !c.is_finished() {
        rounds += 1;
        assert!(rounds <= 4 * candidates.len() + 4, "bisection did not terminate");
        // Read off the current batch; membership queries are pure while
        // bisecting.
        let current: Vec<&str> = candidates
            .iter()
            .copied()
            .filter(|name| c.can_process(&segments(&[name])))
            .collect();
        assert!(!current.is_empty());
        let verdict = current.iter().all(|name| !bad.contains(name));
        if verdict {
            committed.extend(current.iter().map(|s| s.to_string()));
            c.reproduces();
        } else {
            if current.len() == 1 {
                let i = bad.iter().position(|b| *b == current[0]).unwrap();
                bad_singleton_tries[i] += 1;
            }
            c.does_not_reproduce();
        }
    }
    (committed, bad_singleton_tries)
}

#[test]
fn bisection_isolates_the_good_subset() {
    // Eight candidates, three of them independently bad: a batch fails
    // whenever it holds any bad candidate. The bisection must commit exactly
    // the good five and try each bad candidate at most once as a singleton.
    let candidates = ["c0", "c1", "c2", "c3", "c4", "c5", "c6", "c7"];
    let bad = ["c1", "c4", "c7"];
    let (mut committed, tries) = run_bisection(&candidates, &bad);
    committed.sort();
    assert_eq!(committed, vec!["c0", "c2", "c3", "c5", "c6"]);
    for t in tries {
        assert!(t <= 1, "a confirmed-bad singleton was retried");
    }
}

#[test]
fn bisection_with_every_candidate_bad() {
    let candidates = ["c0", "c1", "c2", "c3", "c4", "c5", "c6", "c7"];
    let (committed, tries) = run_bisection(&candidates, &candidates);
    assert!(committed.is_empty());
    // Every candidate ends up tried exactly once in isolation, and never again.
    assert_eq!(tries, vec![1; 8]);
}

#[test]
fn bisection_with_no_bad_candidate() {
    let candidates = ["c0", "c1", "c2"];
    let (mut committed, _) = run_bisection(&candidates, &[]);
    committed.sort();
    assert_eq!(committed, vec!["c0", "c1", "c2"]);
}

#[test]
fn single_bad_candidate_among_eight() {
    let candidates = ["c0", "c1", "c2", "c3", "c4", "c5", "c6", "c7"];
    let bad = ["c3"];
    let (mut committed, tries) = run_bisection(&candidates, &bad);
    committed.sort();
    assert_eq!(committed, vec!["c0", "c1", "c2", "c4", "c5", "c6", "c7"]);
    assert_eq!(tries, vec![1]);
}

#[test]
fn duplicate_candidates_are_tracked_once() {
    // A pass may offer one path twice: two inherent impls of the same type
    // share the path. The controller tracks such a location once, so the
    // seeded batch is a singleton and one failing verdict resolves it.
    let mut c = PassController::new(Options::default());
    assert!(!c.can_process(&segments(&["Foo"])));
    assert!(!c.can_process(&segments(&["Foo"])));
    c.no_change();
    c.does_not_reproduce();
    assert!(c.is_finished());
}

#[test]
fn duplicate_offer_does_not_cause_a_retry() {
    // Even with a duplicate recording, a confirmed-bad candidate is tried at
    // most once in isolation and never re-enters a batch.
    let mut c = PassController::new(Options::default());
    for name in ["Foo", "other", "Foo"] {
        assert!(!c.can_process(&segments(&[name])));
    }
    c.no_change();
    let mut foo_singleton_tries = 0;
    let mut committed: Vec<&str> = Vec::new();
    let mut rounds = 0;
    while !c.is_finished() {
        rounds += 1;
        assert!(rounds <= 16, "bisection did not terminate");
        let current: Vec<&str> = ["Foo", "other"]
            .iter()
            .copied()
            .filter(|n| c.can_process(&segments(&[n])))
            .collect();
        assert!(!current.is_empty());
        if current.contains(&"Foo") {
            if current.len() == 1 {
                foo_singleton_tries += 1;
            }
            c.does_not_reproduce();
        } else {
            committed.extend(current);
            c.reproduces();
        }
    }
    assert_eq!(committed, vec!["other"]);
    assert_eq!(foo_singleton_tries, 1);
}

#[test]
fn astpath_matches_is_exact() {
    let a = path(&["m", "f"]);
    let b = path(&["m", "f"]);
    let c = path(&["m"]);
    assert!(a.matches(&b));
    assert!(!a.matches(&c));
    assert!(!c.matches(&a));
}
