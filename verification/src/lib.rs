//! Minimization engine for shrinking a Rust source tree that exhibits a
//! reproducible regression: a pass-scheduling driver, a bisection state
//! machine that decides which candidate edits may be applied together, and a
//! transactional edit-application layer that keeps the in-memory file cache
//! consistent while trial edits are committed or rolled back.

use vstd::prelude::*;
use vstd::string::StrSliceExecFns;

pub mod build_output;
pub mod passes;
pub mod processor;
pub mod roots;
pub mod text;

pub use crate::processor::checker::div_ceil;

use crate::text::find_char;
use crate::text::first_occurrence;
use crate::text::lemma_first_occurrence;

verus! {

/// The `cargo` subcommand wrapper: the one entry point of the command line.
pub enum Cargo {
    Minimize(Options),
}

/// Configuration for one minimization run.
#[derive(Clone, Debug)]
pub struct Options {
    /// Additional arguments to pass to the build tool, separated by whitespace.
    pub extra_args: Option<String>,
    /// The build subcommand used to find the reproduction.
    pub cargo_subcmd: String,
    /// The build subcommand used to get diagnostics such as the dead-code
    /// lint; defaults to `cargo_subcmd`.
    pub cargo_subcmd_lints: Option<String>,
    /// Disables colored output.
    pub no_color: bool,
    /// Bypasses the build tool and compiles a single file directly.
    pub rustc: bool,
    /// Skips testing whether the regression reproduces and just applies the
    /// most aggressive minimization.
    pub no_verification: bool,
    /// Source text of a closure, returning a bool, that checks whether a
    /// regression reproduces; compiled and loaded outside the engine.
    pub verify_fn: Option<String>,
    /// Additional environment variables to pass to the build.
    pub env: Vec<EnvVar>,
    /// The working directory where the build is invoked.
    pub project_dir: Option<String>,
    /// The directory or file of the code to be minimized.
    pub path: String,
    /// A comma-separated list of passes that should be enabled; all passes
    /// are enabled when absent.
    pub passes: Option<String>,
    /// A script that is run to check whether the code reproduces: exit code 0
    /// means the problem reproduces.
    pub script_path: Option<String>,
    /// A script that is run to get lints.
    pub script_path_lints: Option<String>,
    /// Files never to touch.
    pub ignore_file: Vec<String>,
    /// Exempts functions from deletion by the item-deleting pass.
    pub no_delete_functions: bool,
}

impl Default for Options {
    /// The default configuration: a plain `build` verification of `src`,
    /// every pass enabled.
    fn default() -> (r: Self)
        ensures
            r.extra_args is None,
            r.cargo_subcmd@ == "build"@,
            r.cargo_subcmd_lints is None,
            !r.no_color,
            !r.rustc,
            !r.no_verification,
            r.verify_fn is None,
            r.env@ == Seq::<EnvVar>::empty(),
            r.project_dir is None,
            r.path@ == "/the/wrong/path/you/need/to/change/it"@,
            r.passes is None,
            r.script_path is None,
            r.script_path_lints is None,
            r.ignore_file@ == Seq::<String>::empty(),
            !r.no_delete_functions,
    {
        Options {
            extra_args: None,
            cargo_subcmd: "build".to_owned(),
            cargo_subcmd_lints: None,
            no_color: false,
            rustc: false,
            no_verification: false,
            verify_fn: None,
            env: Vec::new(),
            project_dir: None,
            path: "/the/wrong/path/you/need/to/change/it".to_owned(),
            passes: None,
            script_path: None,
            script_path_lints: None,
            ignore_file: Vec::new(),
            no_delete_functions: false,
        }
    }
}

/// One `KEY=VALUE` environment variable forwarded to the build.
#[derive(Clone, Debug)]
pub struct EnvVar {
    pub key: String,
    pub value: String,
}

impl EnvVar {
    /// Parses `KEY=VALUE`: the key is everything before the first `=`, the
    /// value everything between the first `=` and the second one (or the end
    /// of the string). An input without `=` is rejected.
    pub fn from_str(s: &str) -> (r: Result<EnvVar, &'static str>)
        ensures
            match r {
                Ok(v) => {
                    let f = first_occurrence(s@, '=');
                    let rest = s@.skip(f + 1);
                    &&& f < s@.len()
                    &&& v.key@ == s@.take(f)
                    &&& v.value@ == rest.take(first_occurrence(rest, '='))
                },
                Err(m) => {
                    &&& first_occurrence(s@, '=') == s@.len()
                    &&& m@ == "env var must have KEY=VALUE format"@
                },
            },
    {
        let n = s.unicode_len();
        let f = match find_char(s, '=', 0) {
            Some(f) => f,
            None => {
                proof {
                    lemma_first_occurrence(s@, '=', s@.len() as int);
                }
                return Err("env var must have KEY=VALUE format");
            },
        };
        proof {
            lemma_first_occurrence(s@, '=', f as int);
        }
        let key = s.substring_char(0, f).to_owned();
        let g = match find_char(s, '=', f + 1) {
            Some(g) => g,
            None => n,
        };
        let value = s.substring_char(f + 1, g).to_owned();
        proof {
            let rest = s@.skip(f + 1);
            assert(forall|k: int| 0 <= k < g - f - 1 ==> rest[k] == s@[k + f + 1]);
            assert(g - f - 1 == rest.len() || rest[g - f - 1] == '=');
            lemma_first_occurrence(rest, '=', g - f - 1);
            assert(value@ =~= rest.take(first_occurrence(rest, '=')));
            assert(key@ =~= s@.take(f as int));
        }
        Ok(EnvVar { key, value })
    }
}

} // verus!
