//! The root-keeping check of the test harness: after a minimization run,
//! every marker root found before the run must still be present.

use vstd::prelude::*;
use vstd::string::StringExecFns;

use crate::text::string_eq;

verus! {

/// Whether `roots` holds a string equal to `name`.
pub open spec fn holds_root(roots: Seq<String>, name: Seq<char>) -> bool {
    exists|i: int| 0 <= i < roots.len() && roots[i]@ == name
}

/// Checks that every root marker present before minimization is still
/// present afterwards: succeeds exactly when each entry of `start_roots`
/// occurs in `end_roots`, and otherwise names the first missing root.
pub fn ensure_roots_kept(end_roots: &Vec<String>, start_roots: &Vec<String>) -> (r: Result<
    (),
    String,
>)
    ensures
        r is Ok <==> forall|i: int|
            0 <= i < start_roots@.len() ==> holds_root(end_roots@, #[trigger] start_roots@[i]@),
        r matches Err(e) ==> exists|i: int|
            {
                &&& 0 <= i < start_roots@.len()
                &&& !holds_root(end_roots@, #[trigger] start_roots@[i]@)
                &&& (forall|k: int|
                    0 <= k < i ==> holds_root(end_roots@, #[trigger] start_roots@[k]@))
                &&& e@ == start_roots@[i]@ + " was not found after minimization"@
            },
{
    let n = start_roots.len();
    let mut i: usize = 0;
    while i < n
        invariant
            0 <= i <= n,
            n == start_roots@.len(),
            forall|k: int| 0 <= k < i ==> holds_root(end_roots@, #[trigger] start_roots@[k]@),
        decreases n - i,
    {
        if !contains_string(end_roots, &start_roots[i]) {
            return Err(
                start_roots[i].clone().concat(" was not found after minimization"),
            );
        }
        i = i + 1;
    }
    Ok(())
}

/// Whether the list holds a string equal to `name`.
fn contains_string(list: &Vec<String>, name: &String) -> (r: bool)
    ensures
        r == holds_root(list@, name@),
{
    let n = list.len();
    let mut i: usize = 0;
    while i < n
        invariant
            0 <= i <= n,
            n == list@.len(),
            forall|k: int| 0 <= k < i ==> list@[k]@ != name@,
        decreases n - i,
    {
        if string_eq(&list[i], name) {
            return true;
        }
        i = i + 1;
    }
    false
}

} // verus!
