//! The minimization engine: the bisection controller, the file-change
//! transaction layer, the dead-code reaper's decision logic, and the
//! decisions of the run loop itself.

use vstd::prelude::*;
use vstd::string::StringExecFns;

pub mod checker;
pub mod files;
pub mod reaper;

use crate::processor::checker::does_not_reproduce_step;
use crate::processor::checker::reproduces_step;
use crate::processor::checker::state_measure;
use crate::processor::checker::PassController;
use crate::processor::files::Changes;
use crate::processor::files::FileChange;
use crate::processor::files::SourceFile;
use crate::text::csv_contains;
use crate::text::csv_contains_name;
use crate::text::path_starts_with;
use crate::text::spec_path_starts_with;
use crate::Options;

verus! {

/// What a pass reports after one attempt on one file.
#[derive(Debug, PartialEq, Eq, Structural)]
pub enum ProcessState {
    /// The pass made no edit.
    NoChange,
    /// The pass mutated the tree; the result should be tried.
    Changed,
    /// The pass mutated the tree, and the metadata it depends on (such as
    /// diagnostics keyed by line and column) is now stale for this file: its
    /// refresh hook must run before the pass touches this file again.
    FileInvalidated,
}

/// What the run loop does after a sweep over all files produced no change.
#[derive(Debug, PartialEq, Eq, Structural)]
pub enum SweepAction {
    /// Some file changed: sweep again.
    NextSweep,
    /// Nothing changed, but some files were invalidated: refresh the pass's
    /// state, clear the invalidation set, and try one more sweep.
    RefreshAndRetry,
    /// Nothing changed and nothing is left to refresh: the pass is done.
    Finished,
}

/// The decision at the end of one sweep of a pass over all files. The
/// refresh retry happens at most once per no-change detection (guarded by
/// `already_refreshed`), so a pass that keeps reporting no change
/// terminates.
pub fn sweep_decision(had_changes: bool, any_invalidated: bool, already_refreshed: bool) -> (a:
    SweepAction)
    ensures
        a == (if had_changes {
            SweepAction::NextSweep
        } else if !already_refreshed && any_invalidated {
            SweepAction::RefreshAndRetry
        } else {
            SweepAction::Finished
        }),
{
    if had_changes {
        SweepAction::NextSweep
    } else if !already_refreshed && any_invalidated {
        SweepAction::RefreshAndRetry
    } else {
        SweepAction::Finished
    }
}

/// Settles one tentative change from the build's verdict. On a reproducing
/// build the change is committed: the file keeps the written text, the sweep
/// records a change, and the controller commits the current batch. On a
/// non-reproducing build the file is rolled back to the snapshot and the
/// controller splits or fails the current batch. The written text is kept on
/// the file exactly when the build reproduced the issue.
pub fn apply_verdict(
    checker: &mut PassController,
    change: FileChange,
    file: &mut SourceFile,
    changes: &mut Changes,
    reproduces: bool,
)
    requires
        change@.has_written,
        change@.path == old(file)@.path,
        old(checker)@.wf(),
        old(checker)@ is Bisecting,
    ensures
        reproduces ==> {
            &&& final(file)@ == old(file)@
            &&& final(changes)@ == true
            &&& final(checker)@ == reproduces_step(old(checker)@)
        },
        !reproduces ==> {
            &&& final(file)@.path == old(file)@.path
            &&& final(file)@.content == change@.before_content
            &&& final(changes)@ == old(changes)@
            &&& final(checker)@ == does_not_reproduce_step(old(checker)@)
        },
        final(checker)@.wf(),
        state_measure(final(checker)@) < state_measure(old(checker)@),
        final(checker).options_spec() == old(checker).options_spec(),
{
    if reproduces {
        change.commit(changes);
        checker.reproduces();
    } else {
        change.rollback(file);
        checker.does_not_reproduce();
    }
}

/// One source file is ignored when its path starts with one of the ignored
/// prefixes, on `/` component boundaries.
pub open spec fn ignored_path(p: Seq<char>, ignore: Seq<String>) -> bool {
    exists|i: int| 0 <= i < ignore.len() && spec_path_starts_with(p, ignore[i]@)
}

/// The files that survive the ignore list, in order.
pub open spec fn kept_files(files: Seq<SourceFile>, ignore: Seq<String>) -> Seq<SourceFile>
    decreases files.len(),
{
    if files.len() == 0 {
        Seq::empty()
    } else {
        let rest = kept_files(files.drop_last(), ignore);
        if ignored_path(files.last()@.path, ignore) {
            rest
        } else {
            rest.push(files.last())
        }
    }
}

/// The top-level orchestrator: it owns the file set and the configuration,
/// and drives each pass over all files until a fixpoint. The build itself
/// and the tree-transforming passes run in the surrounding binary; the
/// engine's decisions are taken here and in `PassController`.
#[derive(Debug)]
pub struct Minimizer {
    pub files: Vec<SourceFile>,
    pub options: Options,
}

impl Minimizer {
    /// Builds the engine over the source files found under the target
    /// directory, dropping every file on the ignore list. Fails when no file
    /// is left, or when direct single-file compilation is requested for more
    /// than one file.
    pub fn new_glob_dir(options: Options, files: Vec<SourceFile>) -> (r: Result<
        Minimizer,
        String,
    >)
        ensures
            match r {
                Ok(m) => {
                    &&& m.files@ == kept_files(files@, options.ignore_file@)
                    &&& m.options == options
                    &&& m.files@.len() > 0
                    &&& (options.rustc ==> m.files@.len() == 1)
                },
                Err(e) => {
                    let kept = kept_files(files@, options.ignore_file@);
                    if kept.len() == 0 {
                        e@ == "Did not find any files for path "@ + options.path@
                    } else {
                        &&& options.rustc
                        &&& kept.len() > 1
                        &&& e@
                            == "Found more than one file. --rustc only works with a single file."@
                    }
                },
            },
    {
        let ghost orig = files@;
        let ghost ig = options.ignore_file@;
        let mut kept: Vec<SourceFile> = Vec::new();
        let mut rest = files;
        let total = rest.len();
        let mut j: usize = 0;
        while rest.len() > 0
            invariant
                orig.len() == total,
                j + rest@.len() == orig.len(),
                rest@ == orig.skip(j as int),
                kept@ == kept_files(orig.take(j as int), ig),
                ig == options.ignore_file@,
            decreases rest@.len(),
        {
            let f = rest.remove(0);
            proof {
                assert(orig.skip(j as int).remove(0) =~= orig.skip(j as int + 1));
                assert(orig.take(j as int + 1).drop_last() =~= orig.take(j as int));
            }
            if !is_ignored(&f, &options.ignore_file) {
                kept.push(f);
            }
            j = j + 1;
            assert(kept@ =~= kept_files(orig.take(j as int), ig));
        }
        proof {
            assert(orig.take(orig.len() as int) =~= orig);
        }
        let n_kept = kept.len();
        if n_kept == 0 {
            return Err("Did not find any files for path ".to_owned().concat(
                options.path.as_str(),
            ));
        }
        if options.rustc && n_kept > 1 {
            return Err("Found more than one file. --rustc only works with a single file.".to_owned());
        }
        Ok(Minimizer { files: kept, options })
    }

    /// Whether the configuration disables the pass of the given name: a pass
    /// is disabled when an explicit pass list is set and the name is not one
    /// of its comma-separated entries.
    pub fn pass_disabled(&self, name: &str) -> (r: bool)
        ensures
            r == match self.options.passes {
                Some(p) => !csv_contains(p@, name@),
                None => false,
            },
    {
        match &self.options.passes {
            Some(p) => !csv_contains_name(p.as_str(), name),
            None => false,
        }
    }
}

/// Whether the path of `f` starts with one of the ignored prefixes.
fn is_ignored(f: &SourceFile, ignore: &Vec<String>) -> (r: bool)
    ensures
        r == ignored_path(f@.path, ignore@),
{
    let n = ignore.len();
    let mut i: usize = 0;
    while i < n
        invariant
            0 <= i <= n,
            n == ignore@.len(),
            forall|k: int| 0 <= k < i ==> !spec_path_starts_with(f@.path, ignore@[k]@),
        decreases n - i,
    {
        if path_starts_with(f.path_no_fs_interact().as_str(), ignore[i].as_str()) {
            return true;
        }
        i = i + 1;
    }
    false
}

} // verus!
