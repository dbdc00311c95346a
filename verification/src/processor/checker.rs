//! The bisection controller: the interface between the transformation passes
//! and the core engine. Its job is to narrow down which of the candidate
//! edits a pass offers can be applied while still reproducing the issue,
//! applying as many as possible in batches.

use vstd::multiset::Multiset;
use vstd::prelude::*;
use vstd::seq_lib::lemma_multiset_commutative;

use crate::text::string_eq;
use crate::Options;

verus! {

/// The model of one candidate location: the sequence of name segments that
/// leads to it through the nesting of modules, items and fields.
pub type PathModel = Seq<Seq<char>>;

/// An ordered sequence of name segments identifying one minimization
/// candidate's location in a source tree.
pub struct AstPath {
    segments: Vec<String>,
}

/// The model of a sequence of path segments.
pub open spec fn segments_view(path: Seq<String>) -> PathModel {
    path.map_values(|s: String| s@)
}

/// The model of a batch of candidate paths.
pub open spec fn batch_view(b: Seq<AstPath>) -> Seq<PathModel> {
    b.map_values(|p: AstPath| p@)
}

impl View for AstPath {
    type V = PathModel;

    closed spec fn view(&self) -> PathModel {
        segments_view(self.segments@)
    }
}

impl AstPath {
    /// Wraps a list of name segments as a candidate path.
    pub fn new(segments: Vec<String>) -> (p: AstPath)
        ensures
            p@ == segments_view(segments@),
    {
        AstPath { segments }
    }

    /// Clones each name segment of a borrowed segment list.
    pub fn from_segments(path: &[String]) -> (p: AstPath)
        ensures
            p@ == segments_view(path@),
    {
        let mut segments: Vec<String> = Vec::new();
        let n = path.len();
        let mut i: usize = 0;
        while i < n
            invariant
                0 <= i <= n,
                n == path@.len(),
                segments@.len() == i,
                forall|k: int| 0 <= k < i ==> segments@[k]@ == path@[k]@,
            decreases n - i,
        {
            segments.push(path[i].clone());
            i = i + 1;
        }
        let p = AstPath { segments };
        assert(p@ =~= segments_view(path@));
        p
    }

    /// The name segments of this path.
    pub fn segments(&self) -> (r: &Vec<String>)
        ensures
            segments_view(r@) == self@,
    {
        &self.segments
    }

    /// `other` leads to this path or to one of the items around it: every
    /// segment of `other` is matched by this path's segments, in order from
    /// the root.
    pub fn has_prefix(&self, other: &AstPath) -> (r: bool)
        ensures
            r == other@.is_prefix_of(self@),
    {
        if self.segments.len() < other.segments.len() {
            return false;
        }
        let n = other.segments.len();
        let mut i: usize = 0;
        while i < n
            invariant
                0 <= i <= n,
                n == other.segments@.len(),
                n <= self.segments@.len(),
                forall|k: int| 0 <= k < i ==> self.segments@[k]@ == other.segments@[k]@,
            decreases n - i,
        {
            if !string_eq(&self.segments[i], &other.segments[i]) {
                assert(self@[i as int] != other@[i as int]);
                assert(!other@.is_prefix_of(self@)) by {
                    if other@.is_prefix_of(self@) {
                        let j = i as int;
                        assert(self@.subrange(0, other@.len() as int)[j] == self@[j]);
                    }
                }
                return false;
            }
            i = i + 1;
        }
        assert(other@ =~= self@.subrange(0, other@.len() as int));
        true
    }

    /// This path names the same location as `other`.
    pub fn matches(&self, other: &AstPath) -> (r: bool)
        ensures
            r == (self@ == other@),
    {
        if self.segments.len() != other.segments.len() {
            assert(self@.len() != other@.len());
            return false;
        }
        let r = self.has_prefix(other);
        if r {
            assert(self@ =~= other@);
        } else {
            assert(self@ != other@) by {
                if self@ == other@ {
                    assert(other@.is_prefix_of(self@)) by {
                        assert(other@ =~= self@.subrange(0, other@.len() as int));
                    }
                }
            }
        }
        r
    }

}

impl Clone for AstPath {
    /// Clones the path, segment by segment.
    fn clone(&self) -> (r: Self)
        ensures
            r@ == self@,
    {
        let mut segments: Vec<String> = Vec::new();
        let n = self.segments.len();
        let mut i: usize = 0;
        while i < n
            invariant
                0 <= i <= n,
                n == self.segments@.len(),
                segments@.len() == i,
                forall|k: int| 0 <= k < i ==> segments@[k]@ == self.segments@[k]@,
            decreases n - i,
        {
            segments.push(self.segments[i].clone());
            i = i + 1;
        }
        let r = AstPath { segments };
        assert(r@ =~= self@);
        r
    }
}

/// One candidate path `p` has a prefix among `things`.
pub open spec fn covered_by(p: PathModel, things: Seq<PathModel>) -> bool {
    exists|i: int| 0 <= i < things.len() && things[i].is_prefix_of(p)
}

/// A batch with the paths covered by `things` removed, in order.
pub open spec fn prune_batch(b: Seq<PathModel>, things: Seq<PathModel>) -> Seq<PathModel>
    decreases b.len(),
{
    if b.len() == 0 {
        Seq::empty()
    } else {
        let rest = prune_batch(b.drop_last(), things);
        if covered_by(b.last(), things) {
            rest
        } else {
            rest.push(b.last())
        }
    }
}

/// A worklist with every batch pruned and the batches that became empty
/// dropped, in order.
pub open spec fn prune_worklist(w: Seq<Seq<PathModel>>, things: Seq<PathModel>) -> Seq<
    Seq<PathModel>,
>
    decreases w.len(),
{
    if w.len() == 0 {
        Seq::empty()
    } else {
        let rest = prune_worklist(w.drop_last(), things);
        let pb = prune_batch(w.last(), things);
        if pb.len() == 0 {
            rest
        } else {
            rest.push(pb)
        }
    }
}

/// The stack of pending batches that the bisection still has to try. The
/// inner batches are never empty.
pub struct Worklist {
    batches: Vec<Vec<AstPath>>,
}

impl View for Worklist {
    type V = Seq<Seq<PathModel>>;

    closed spec fn view(&self) -> Seq<Seq<PathModel>> {
        self.batches@.map_values(|b: Vec<AstPath>| batch_view(b@))
    }
}

impl Worklist {
    /// The empty worklist.
    pub fn new() -> (w: Worklist)
        ensures
            w@ == Seq::<Seq<PathModel>>::empty(),
    {
        let w = Worklist { batches: Vec::new() };
        assert(w@ =~= Seq::<Seq<PathModel>>::empty());
        w
    }

    /// Pushes a batch, unless it is empty: the worklist holds no empty batch.
    pub fn push(&mut self, next: Vec<AstPath>)
        ensures
            final(self)@ == if next@.len() == 0 {
                old(self)@
            } else {
                old(self)@.push(batch_view(next@))
            },
    {
        if !next.is_empty() {
            self.batches.push(next);
            assert(self@ =~= old(self)@.push(batch_view(next@)));
        }
    }

    /// Pops the most recently pushed batch, if any.
    pub fn pop(&mut self) -> (r: Option<Vec<AstPath>>)
        ensures
            match r {
                Some(b) => {
                    &&& old(self)@.len() > 0
                    &&& batch_view(b@) == old(self)@.last()
                    &&& final(self)@ == old(self)@.drop_last()
                },
                None => {
                    &&& old(self)@.len() == 0
                    &&& final(self)@ == old(self)@
                },
            },
    {
        let r = self.batches.pop();
        match r {
            Some(b) => {
                assert(self@ =~= old(self)@.drop_last());
                Some(b)
            },
            None => None,
        }
    }

    /// Removes every pending path that one of `things` reaches already: if a
    /// whole containing item is deleted there is no point in trying to delete
    /// the items nested inside it. Batches that become empty are dropped.
    pub fn prune(&mut self, things: &Vec<AstPath>)
        ensures
            final(self)@ == prune_worklist(old(self)@, batch_view(things@)),
    {
        let mut kept: Vec<Vec<AstPath>> = Vec::new();
        let n = self.batches.len();
        let mut i: usize = 0;
        while i < n
            invariant
                0 <= i <= n,
                n == self.batches@.len(),
                kept@.map_values(|b: Vec<AstPath>| batch_view(b@)) == prune_worklist(
                    self.batches@.take(i as int).map_values(|b: Vec<AstPath>| batch_view(b@)),
                    batch_view(things@),
                ),
            decreases n - i,
        {
            let pruned = prune_one_batch(&self.batches[i], things);
            let ghost prev = self.batches@.take(i as int).map_values(
                |b: Vec<AstPath>| batch_view(b@),
            );
            let ghost cur = self.batches@.take(i as int + 1).map_values(
                |b: Vec<AstPath>| batch_view(b@),
            );
            proof {
                assert(cur.drop_last() =~= prev);
                assert(cur.last() == batch_view(self.batches@[i as int]@));
            }
            if !pruned.is_empty() {
                kept.push(pruned);
                assert(kept@.map_values(|b: Vec<AstPath>| batch_view(b@)) =~= prune_worklist(
                    cur,
                    batch_view(things@),
                ));
            } else {
                assert(kept@.map_values(|b: Vec<AstPath>| batch_view(b@)) =~= prune_worklist(
                    cur,
                    batch_view(things@),
                ));
            }
            i = i + 1;
        }
        proof {
            assert(self.batches@.take(n as int) =~= self.batches@);
        }
        self.batches = kept;
    }
}

/// One pruned batch: the paths of `b` that have no prefix among `things`.
fn prune_one_batch(b: &Vec<AstPath>, things: &Vec<AstPath>) -> (r: Vec<AstPath>)
    ensures
        batch_view(r@) == prune_batch(batch_view(b@), batch_view(things@)),
{
    let mut kept: Vec<AstPath> = Vec::new();
    let n = b.len();
    let mut i: usize = 0;
    while i < n
        invariant
            0 <= i <= n,
            n == b@.len(),
            batch_view(kept@) == prune_batch(
                batch_view(b@.take(i as int)),
                batch_view(things@),
            ),
        decreases n - i,
    {
        let covered = is_covered(&b[i], things);
        let ghost prev = batch_view(b@.take(i as int));
        let ghost cur = batch_view(b@.take(i as int + 1));
        proof {
            assert(cur.drop_last() =~= prev);
            assert(cur.last() == b@[i as int]@);
        }
        if !covered {
            kept.push(b[i].clone());
            assert(batch_view(kept@) =~= prune_batch(cur, batch_view(things@)));
        } else {
            assert(batch_view(kept@) =~= prune_batch(cur, batch_view(things@)));
        }
        i = i + 1;
    }
    proof {
        assert(batch_view(b@.take(n as int)) =~= batch_view(b@));
    }
    kept
}

/// Whether one of `things` is a prefix of `p`.
fn is_covered(p: &AstPath, things: &Vec<AstPath>) -> (r: bool)
    ensures
        r == covered_by(p@, batch_view(things@)),
{
    let n = things.len();
    let mut i: usize = 0;
    while i < n
        invariant
            0 <= i <= n,
            n == things@.len(),
            forall|k: int| 0 <= k < i ==> !batch_view(things@)[k].is_prefix_of(p@),
        decreases n - i,
    {
        if p.has_prefix(&things[i]) {
            assert(batch_view(things@)[i as int].is_prefix_of(p@));
            return true;
        }
        i = i + 1;
    }
    false
}

/// Ceiling division, used to split a failing batch of candidate edits into
/// a first half of size `ceil(n/2)` and a second half of size `floor(n/2)`.
pub fn div_ceil(lhs: usize, rhs: usize) -> (r: usize)
    requires
        rhs > 0,
    ensures
        r == spec_div_ceil(lhs as int, rhs as int),
{
    let d = lhs / rhs;
    let r = lhs % rhs;
    if r > 0 {
        assert(d < lhs) by (nonlinear_arith)
            requires
                d == lhs as int / rhs as int,
                r == lhs as int % rhs as int,
                rhs > 0,
                r > 0,
        ;
        d + 1
    } else {
        d
    }
}

/// `lhs / rhs`, rounded towards positive infinity.
pub open spec fn spec_div_ceil(lhs: int, rhs: int) -> int {
    if lhs % rhs == 0 {
        lhs / rhs
    } else {
        lhs / rhs + 1
    }
}

/// The model of the bisection: the working set of candidate paths,
/// partitioned into not-yet-seen, currently-tried, committed-good and
/// confirmed-bad.
#[verifier::ext_equal]
pub enum CtrlState {
    /// The pass has not been tried on this file yet: every candidate the pass
    /// offers is recorded while all changes are denied.
    InitialCollection { candidates: Seq<PathModel> },
    /// The candidates are bisected: `current` is the batch being tried,
    /// `worklist` the stack of batches still to try, `committed` the
    /// candidates kept on disk, `failed` the candidates rejected for good.
    Bisecting {
        committed: Seq<PathModel>,
        failed: Seq<PathModel>,
        current: Seq<PathModel>,
        worklist: Seq<Seq<PathModel>>,
    },
    /// Every candidate was committed or thrown away.
    Success,
}

impl CtrlState {
    /// Structural well-formedness: while bisecting, the tried batch and
    /// every pending batch are nonempty, and no candidate path is tracked
    /// twice over the four partitions — so a committed or confirmed-bad path
    /// can never show up in a later batch.
    pub open spec fn wf(self) -> bool {
        &&& match self {
            CtrlState::InitialCollection { .. } => true,
            CtrlState::Bisecting { current, worklist, .. } => {
                &&& current.len() >= 1
                &&& forall|i: int| 0 <= i < worklist.len() ==> worklist[i].len() >= 1
            },
            CtrlState::Success => true,
        }
        &&& (self is Bisecting ==> forall|p: PathModel| #[trigger] all_paths(self).count(p) <= 1)
    }
}

/// The recorded candidates with duplicates dropped: the first occurrence of
/// each path is kept, in recording order. A pass may offer one path twice —
/// two inherent impls of the same type share it — and the bisection must
/// track such a location once.
pub open spec fn dedup_paths(b: Seq<PathModel>) -> Seq<PathModel>
    decreases b.len(),
{
    if b.len() == 0 {
        Seq::empty()
    } else {
        let rest = dedup_paths(b.drop_last());
        if b.drop_last().contains(b.last()) {
            rest
        } else {
            rest.push(b.last())
        }
    }
}

/// Deduplication keeps exactly the distinct paths: the same paths occur,
/// each exactly once, and a nonempty batch stays nonempty.
pub proof fn lemma_dedup_paths(b: Seq<PathModel>)
    ensures
        forall|p: PathModel| #[trigger] dedup_paths(b).contains(p) <==> b.contains(p),
        forall|p: PathModel| #[trigger] dedup_paths(b).to_multiset().count(p) <= 1,
        dedup_paths(b).len() <= b.len(),
        b.len() > 0 ==> dedup_paths(b).len() >= 1,
    decreases b.len(),
{
    broadcast use vstd::seq_lib::group_to_multiset_ensures;
    broadcast use vstd::multiset::group_multiset_axioms;

    if b.len() == 0 {
        assert forall|p: PathModel| #[trigger] dedup_paths(b).to_multiset().count(p) <= 1 by {
            assert(!dedup_paths(b).contains(p));
        }
    } else {
        let t = b.drop_last();
        let rest = dedup_paths(t);
        lemma_dedup_paths(t);
        assert forall|p: PathModel| #[trigger] b.contains(p) implies t.contains(p) || p
            == b.last() by {
            let i = choose|i: int| 0 <= i < b.len() && b[i] == p;
            if i < b.len() - 1 {
                assert(t[i] == p);
            }
        }
        assert forall|p: PathModel| t.contains(p) implies #[trigger] b.contains(p) by {
            let i = choose|i: int| 0 <= i < t.len() && t[i] == p;
            assert(b[i] == p);
        }
        assert(b[b.len() - 1] == b.last());
        assert(b.contains(b.last()));
        if t.contains(b.last()) {
            assert(dedup_paths(b) == rest);
            assert forall|p: PathModel| #[trigger] dedup_paths(b).contains(p) <==> b.contains(
                p,
            ) by {
                assert(rest.contains(p) <==> t.contains(p));
            }
            assert forall|p: PathModel| #[trigger] dedup_paths(b).to_multiset().count(p)
                <= 1 by {
                assert(rest.to_multiset().count(p) <= 1);
            }
        } else {
            assert(dedup_paths(b) == rest.push(b.last()));
            assert forall|p: PathModel| #[trigger] dedup_paths(b).contains(p) <==> b.contains(
                p,
            ) by {
                assert(rest.contains(p) <==> t.contains(p));
                if dedup_paths(b).contains(p) {
                    let i = choose|i: int| 0 <= i < dedup_paths(b).len() && dedup_paths(b)[i]
                        == p;
                    if i < rest.len() {
                        assert(rest[i] == p);
                    } else {
                        assert(p == b.last());
                    }
                }
                if b.contains(p) {
                    if p == b.last() {
                        assert(dedup_paths(b)[rest.len() as int] == p);
                    } else {
                        assert(rest.contains(p));
                        let i = choose|i: int| 0 <= i < rest.len() && rest[i] == p;
                        assert(dedup_paths(b)[i] == p);
                    }
                }
            }
            assert forall|p: PathModel| #[trigger] dedup_paths(b).to_multiset().count(p)
                <= 1 by {
                assert(rest.to_multiset().count(p) <= 1);
                assert(rest.push(b.last()).to_multiset() =~= rest.to_multiset().insert(
                    b.last(),
                ));
                if p == b.last() {
                    assert(!rest.contains(p));
                    assert(rest.to_multiset().count(p) == 0);
                }
            }
        }
    }
}

/// Pops the next pending batch into `current`, or ends in `Success` when
/// nothing is pending.
pub open spec fn advance_step(
    committed: Seq<PathModel>,
    failed: Seq<PathModel>,
    worklist: Seq<Seq<PathModel>>,
) -> CtrlState {
    if worklist.len() == 0 {
        CtrlState::Success
    } else {
        CtrlState::Bisecting {
            committed,
            failed,
            current: worklist.last(),
            worklist: worklist.drop_last(),
        }
    }
}

/// The issue still reproduces with the current batch applied: the whole
/// batch is committed and the next pending batch is tried.
pub open spec fn reproduces_step(s: CtrlState) -> CtrlState {
    match s {
        CtrlState::InitialCollection { .. } => CtrlState::Success,
        CtrlState::Bisecting { committed, failed, current, worklist } => advance_step(
            committed + current,
            failed,
            worklist,
        ),
        CtrlState::Success => s,
    }
}

/// The issue no longer reproduces: a single-candidate batch is confirmed
/// bad; a larger batch is split into a first half of size `ceil(n/2)` and a
/// second half of size `floor(n/2)`, both pushed as future attempts, and the
/// next pending batch is tried.
pub open spec fn does_not_reproduce_step(s: CtrlState) -> CtrlState {
    match s {
        CtrlState::Bisecting { committed, failed, current, worklist } => {
            if current.len() == 1 {
                advance_step(committed, failed + current, worklist)
            } else {
                let half = spec_div_ceil(current.len() as int, 2);
                advance_step(
                    committed,
                    failed,
                    worklist.push(current.take(half)).push(current.skip(half)),
                )
            }
        },
        _ => s,
    }
}

/// The pass applied no change: an empty collection ends at once; a nonempty
/// collection becomes the first bisection batch, with duplicate recordings
/// collapsed so that no candidate is tracked twice.
pub open spec fn no_change_step(s: CtrlState) -> CtrlState {
    match s {
        CtrlState::InitialCollection { candidates } => {
            if candidates.len() == 0 {
                CtrlState::Success
            } else {
                CtrlState::Bisecting {
                    committed: Seq::empty(),
                    failed: Seq::empty(),
                    current: dedup_paths(candidates),
                    worklist: Seq::empty(),
                }
            }
        },
        CtrlState::Bisecting { .. } => CtrlState::Success,
        CtrlState::Success => s,
    }
}

/// Asking whether a path may be processed records it as a candidate during
/// the initial collection and changes nothing afterwards.
pub open spec fn record_step(s: CtrlState, p: PathModel) -> CtrlState {
    match s {
        CtrlState::InitialCollection { candidates } => CtrlState::InitialCollection {
            candidates: candidates.push(p),
        },
        _ => s,
    }
}

/// Whether a pass is allowed to apply the edit at `p`: never during the
/// initial collection, and exactly for the paths of the current batch while
/// bisecting.
pub open spec fn can_process_allowed(s: CtrlState, p: PathModel) -> bool {
    match s {
        CtrlState::InitialCollection { .. } => false,
        CtrlState::Bisecting { current, .. } => current.contains(p),
        CtrlState::Success => false,
    }
}

/// An upper bound on the number of verdicts still to consume for one batch:
/// a batch of size `n` costs at most `2n - 1` verdicts (one per eventual
/// singleton plus one per split).
pub open spec fn batch_measure(b: Seq<PathModel>) -> int {
    if b.len() == 0 {
        0
    } else {
        2 * b.len() - 1
    }
}

/// The summed measure of all pending batches.
pub open spec fn worklist_measure(w: Seq<Seq<PathModel>>) -> int
    decreases w.len(),
{
    if w.len() == 0 {
        0
    } else {
        worklist_measure(w.drop_last()) + batch_measure(w.last())
    }
}

/// An upper bound on the number of verdicts the controller can still
/// consume before reaching `Success`. Every verdict strictly decreases it,
/// so the bisection terminates after finitely many steps.
pub open spec fn state_measure(s: CtrlState) -> int {
    match s {
        CtrlState::InitialCollection { candidates } => 2 * candidates.len() as int + 1,
        CtrlState::Bisecting { current, worklist, .. } => batch_measure(current)
            + worklist_measure(worklist) + 1,
        CtrlState::Success => 0,
    }
}

/// The measure of a worklist is never negative.
pub proof fn lemma_worklist_measure_nonneg(w: Seq<Seq<PathModel>>)
    ensures
        worklist_measure(w) >= 0,
    decreases w.len(),
{
    if w.len() > 0 {
        lemma_worklist_measure_nonneg(w.drop_last());
    }
}

/// The measure of a well-formed state is never negative: together with the
/// strict decrease on every verdict, the controller reaches `Success` after
/// finitely many verdicts, at most `state_measure` of them.
pub proof fn lemma_state_measure_nonneg(s: CtrlState)
    ensures
        state_measure(s) >= 0,
{
    match s {
        CtrlState::Bisecting { worklist, .. } => {
            lemma_worklist_measure_nonneg(worklist);
        },
        _ => {},
    }
}

/// Pushing a batch adds its measure.
pub proof fn lemma_worklist_measure_push(w: Seq<Seq<PathModel>>, b: Seq<PathModel>)
    ensures
        worklist_measure(w.push(b)) == worklist_measure(w) + batch_measure(b),
{
    assert(w.push(b).drop_last() =~= w);
    assert(w.push(b).last() == b);
}

/// The bisection controller: the interface between the passes and the core
/// logic. It is created fresh for every (pass, file) pair, collects the
/// candidate edits the pass offers, and then feeds batches of them back,
/// narrowing down on build verdicts until every candidate is committed or
/// confirmed bad.
pub struct PassController {
    state: PassControllerState,
    options: Options,
}

/// The current state of the bisection.
enum PassControllerState {
    /// Candidates are recorded while every change is denied.
    InitialCollection { candidates: Vec<AstPath> },
    /// Candidates are bisected in batches.
    Bisecting {
        /// These candidates could be applied while still reproducing the
        /// issue; they are on disk and included in all subsequent runs.
        committed: Vec<AstPath>,
        /// These candidates failed in isolation and are therefore bad.
        failed: Vec<AstPath>,
        /// The batch being tried in this iteration.
        current: Vec<AstPath>,
        /// The batches to try in the future.
        worklist: Worklist,
    },
    /// Bisection is over: every candidate was committed or thrown away.
    Success,
}

impl View for PassController {
    type V = CtrlState;

    closed spec fn view(&self) -> CtrlState {
        match self.state {
            PassControllerState::InitialCollection { candidates } => CtrlState::InitialCollection {
                candidates: batch_view(candidates@),
            },
            PassControllerState::Bisecting { committed, failed, current, worklist } => CtrlState::Bisecting {
                committed: batch_view(committed@),
                failed: batch_view(failed@),
                current: batch_view(current@),
                worklist: worklist@,
            },
            PassControllerState::Success => CtrlState::Success,
        }
    }
}

impl PassController {
    /// The configuration this controller was created with.
    pub closed spec fn options_spec(&self) -> Options {
        self.options
    }

    /// The configuration this controller was created with; passes read it to
    /// decide which edits to offer.
    pub fn options(&self) -> (r: &Options)
        ensures
            *r == self.options_spec(),
    {
        &self.options
    }

    /// A fresh controller, ready to collect the candidates of one pass on
    /// one file.
    pub fn new(options: Options) -> (r: PassController)
        ensures
            r@ == (CtrlState::InitialCollection { candidates: Seq::<PathModel>::empty() }),
            r@.wf(),
            r.options_spec() == options,
    {
        let r = PassController {
            state: PassControllerState::InitialCollection { candidates: Vec::new() },
            options,
        };
        assert(r@ =~= (CtrlState::InitialCollection { candidates: Seq::<PathModel>::empty() }));
        r
    }

    /// The changes of the current batch kept the issue reproducing: they are
    /// committed and the bisection advances to the next pending batch.
    pub fn reproduces(&mut self)
        requires
            old(self)@.wf(),
            !(old(self)@ is Success),
        ensures
            final(self)@ == reproduces_step(old(self)@),
            final(self)@.wf(),
            state_measure(final(self)@) < state_measure(old(self)@),
            final(self).options_spec() == old(self).options_spec(),
    {
        let mut st = PassControllerState::Success;
        core::mem::swap(&mut st, &mut self.state);
        match st {
            PassControllerState::InitialCollection { .. } => {
                self.state = PassControllerState::Success;
            },
            PassControllerState::Bisecting { mut committed, failed, mut current, worklist } => {
                proof {
                    lemma_worklist_measure_nonneg(worklist@);
                    if worklist@.len() > 0 {
                        lemma_worklist_measure_nonneg(worklist@.drop_last());
                    }
                }
                committed.append(&mut current);
                self.next_in_worklist(committed, failed, worklist);
            },
            PassControllerState::Success => {
                self.state = PassControllerState::Success;
            },
        }
        proof {
            if self@ is Bisecting {
                assert(self@ == reproduces_step(old(self)@));
                lemma_reproduces_preserves_candidates(old(self)@);
            }
        }
    }

    /// The changes of the current batch lost the reproduction: a singleton
    /// batch is confirmed bad, a larger batch is split in two halves to be
    /// tried separately, and the bisection advances.
    pub fn does_not_reproduce(&mut self)
        requires
            old(self)@.wf(),
            old(self)@ is Bisecting,
        ensures
            final(self)@ == does_not_reproduce_step(old(self)@),
            final(self)@.wf(),
            state_measure(final(self)@) < state_measure(old(self)@),
            final(self).options_spec() == old(self).options_spec(),
    {
        let mut st = PassControllerState::Success;
        core::mem::swap(&mut st, &mut self.state);
        match st {
            PassControllerState::Bisecting { committed, mut failed, mut current, mut worklist } => {
                proof {
                    lemma_worklist_measure_nonneg(worklist@);
                    if worklist@.len() > 0 {
                        lemma_worklist_measure_nonneg(worklist@.drop_last());
                    }
                }
                if current.len() == 1 {
                    // A leaf of the bisection: this single edit is bad.
                    failed.append(&mut current);
                    self.next_in_worklist(committed, failed, worklist);
                } else {
                    // Split the batch and try both halves later.
                    let ghost cur = batch_view(current@);
                    let ghost half = spec_div_ceil(cur.len() as int, 2);
                    let (first_half, second_half) = split_owned(current);
                    proof {
                        assert(batch_view(first_half@) =~= cur.take(half));
                        assert(batch_view(second_half@) =~= cur.skip(half));
                        lemma_worklist_measure_push(worklist@, cur.take(half));
                        lemma_worklist_measure_push(
                            worklist@.push(cur.take(half)),
                            cur.skip(half),
                        );
                    }
                    worklist.push(first_half);
                    worklist.push(second_half);
                    self.next_in_worklist(committed, failed, worklist);
                }
            },
            PassControllerState::InitialCollection { candidates } => {
                self.state = PassControllerState::InitialCollection { candidates };
            },
            PassControllerState::Success => {
                self.state = PassControllerState::Success;
            },
        }
        proof {
            if self@ is Bisecting {
                assert(self@ == does_not_reproduce_step(old(self)@));
                lemma_does_not_reproduce_preserves_candidates(old(self)@);
            }
        }
    }

    /// The pass applied no change. During the initial collection this either
    /// ends the bisection (no candidates at all) or seeds it with the full
    /// candidate set as the first batch.
    pub fn no_change(&mut self)
        requires
            match old(self)@ {
                CtrlState::InitialCollection { .. } => true,
                CtrlState::Bisecting { current, .. } => current.len() == 0,
                CtrlState::Success => false,
            },
        ensures
            final(self)@ == no_change_step(old(self)@),
            final(self)@.wf(),
            state_measure(final(self)@) < state_measure(old(self)@),
            final(self).options_spec() == old(self).options_spec(),
    {
        let mut st = PassControllerState::Success;
        core::mem::swap(&mut st, &mut self.state);
        match st {
            PassControllerState::InitialCollection { candidates } => {
                if candidates.is_empty() {
                    self.state = PassControllerState::Success;
                } else {
                    let ghost cands = batch_view(candidates@);
                    let current = dedup_candidates(&candidates);
                    proof {
                        lemma_dedup_paths(cands);
                    }
                    self.state = PassControllerState::Bisecting {
                        committed: Vec::new(),
                        failed: Vec::new(),
                        current,
                        worklist: Worklist::new(),
                    };
                    proof {
                        assert(self@ =~= no_change_step(old(self)@));
                        assert forall|p: PathModel| #[trigger] all_paths(self@).count(p)
                            <= 1 by {
                            broadcast use vstd::seq_lib::group_to_multiset_ensures;
                            broadcast use vstd::multiset::group_multiset_axioms;

                            assert(!Seq::<PathModel>::empty().contains(p));
                            assert(Seq::<PathModel>::empty().to_multiset().count(p) == 0);
                        }
                    }
                }
            },
            PassControllerState::Bisecting { .. } => {
                proof {
                    let w = match old(self)@ {
                        CtrlState::Bisecting { worklist, .. } => worklist,
                        _ => Seq::empty(),
                    };
                    lemma_worklist_measure_nonneg(w);
                }
                self.state = PassControllerState::Success;
            },
            PassControllerState::Success => {
                self.state = PassControllerState::Success;
            },
        }
    }

    /// Whether the bisection for this (pass, file) pair is over.
    pub fn is_finished(&mut self) -> (r: bool)
        ensures
            r == (old(self)@ is Success),
            *final(self) == *old(self),
    {
        match &self.state {
            PassControllerState::InitialCollection { .. } => false,
            PassControllerState::Bisecting { .. } => false,
            PassControllerState::Success => true,
        }
    }

    /// Whether the controller is in the bisecting phase and so expects a
    /// build verdict after a change.
    pub fn is_bisecting(&self) -> (r: bool)
        ensures
            r == (self@ is Bisecting),
    {
        match &self.state {
            PassControllerState::Bisecting { .. } => true,
            _ => false,
        }
    }

    /// Checks whether a pass may apply the changes for one minimization
    /// site. During the initial collection the site is recorded and denied;
    /// during bisection exactly the sites of the current batch are allowed.
    pub fn can_process(&mut self, path: &[String]) -> (r: bool)
        requires
            !(old(self)@ is Success),
        ensures
            final(self)@ == record_step(old(self)@, segments_view(path@)),
            r == can_process_allowed(old(self)@, segments_view(path@)),
            old(self)@.wf() ==> final(self)@.wf(),
            final(self).options_spec() == old(self).options_spec(),
    {
        let mut st = PassControllerState::Success;
        core::mem::swap(&mut st, &mut self.state);
        match st {
            PassControllerState::InitialCollection { mut candidates } => {
                // For the initial collection, record the candidate and apply
                // nothing.
                candidates.push(AstPath::from_segments(path));
                self.state = PassControllerState::InitialCollection { candidates };
                assert(self@ =~= record_step(old(self)@, segments_view(path@)));
                false
            },
            PassControllerState::Bisecting { committed, failed, current, worklist } => {
                let target = AstPath::from_segments(path);
                let r = batch_contains(&current, &target);
                self.state = PassControllerState::Bisecting {
                    committed,
                    failed,
                    current,
                    worklist,
                };
                r
            },
            PassControllerState::Success => {
                self.state = PassControllerState::Success;
                false
            },
        }
    }

    /// Pops the next pending batch into the current one, or ends in
    /// `Success` when the worklist is exhausted.
    fn next_in_worklist(
        &mut self,
        committed: Vec<AstPath>,
        failed: Vec<AstPath>,
        worklist: Worklist,
    )
        ensures
            final(self)@ == advance_step(batch_view(committed@), batch_view(failed@), worklist@),
            final(self).options_spec() == old(self).options_spec(),
    {
        let mut worklist = worklist;
        match worklist.pop() {
            Some(next) => {
                self.state = PassControllerState::Bisecting {
                    committed,
                    failed,
                    current: next,
                    worklist,
                };
            },
            None => {
                self.state = PassControllerState::Success;
            },
        }
    }
}

/// The multiset of paths pending in a worklist.
pub open spec fn worklist_paths(w: Seq<Seq<PathModel>>) -> Multiset<PathModel>
    decreases w.len(),
{
    if w.len() == 0 {
        Multiset::empty()
    } else {
        worklist_paths(w.drop_last()).add(w.last().to_multiset())
    }
}

/// Every candidate path the controller is tracking, over all four
/// partitions: committed, failed, currently tried and pending.
pub open spec fn all_paths(s: CtrlState) -> Multiset<PathModel> {
    match s {
        CtrlState::InitialCollection { candidates } => candidates.to_multiset(),
        CtrlState::Bisecting { committed, failed, current, worklist } => committed.to_multiset()
            .add(failed.to_multiset()).add(current.to_multiset()).add(worklist_paths(worklist)),
        CtrlState::Success => Multiset::empty(),
    }
}

/// Splitting law: a failing batch of size `n > 1` is replaced by exactly two
/// batches, of sizes `ceil(n/2)` and `floor(n/2)`, whose concatenation
/// recovers the original batch exactly.
pub proof fn lemma_split_recovers_batch(b: Seq<PathModel>)
    requires
        b.len() >= 2,
    ensures
        b.take(spec_div_ceil(b.len() as int, 2)).len() == spec_div_ceil(b.len() as int, 2),
        b.skip(spec_div_ceil(b.len() as int, 2)).len() == b.len() as int / 2,
        b.take(spec_div_ceil(b.len() as int, 2)) + b.skip(spec_div_ceil(b.len() as int, 2)) == b,
{
    let half = spec_div_ceil(b.len() as int, 2);
    assert(half + b.len() as int / 2 == b.len());
    assert(b.take(half) + b.skip(half) =~= b);
}

/// Recording a candidate during the initial collection adds exactly that
/// candidate to the tracked set.
pub proof fn lemma_collection_records_candidate(s: CtrlState, p: PathModel)
    requires
        s is InitialCollection,
    ensures
        all_paths(record_step(s, p)) == all_paths(s).insert(p),
{
    broadcast use vstd::seq_lib::group_to_multiset_ensures;

    match s {
        CtrlState::InitialCollection { candidates } => {
            assert(candidates.push(p).to_multiset() =~= candidates.to_multiset().insert(p));
        },
        _ => {},
    }
}

/// Seeding the bisection keeps exactly the distinct recorded candidates: a
/// path is tracked after seeding if and only if it was recorded, and it is
/// tracked exactly once — none is lost, none is duplicated.
pub proof fn lemma_no_change_preserves_candidates(s: CtrlState)
    requires
        s is InitialCollection,
        no_change_step(s) is Bisecting,
    ensures
        s matches CtrlState::InitialCollection { candidates } ==> {
            &&& forall|p: PathModel|
                #[trigger] all_paths(no_change_step(s)).count(p) > 0 <==> candidates.contains(p)
            &&& forall|p: PathModel| #[trigger] all_paths(no_change_step(s)).count(p) <= 1
        },
{
    broadcast use vstd::multiset::group_multiset_axioms;
    broadcast use vstd::seq_lib::group_to_multiset_ensures;

    match s {
        CtrlState::InitialCollection { candidates } => {
            lemma_dedup_paths(candidates);
            assert forall|p: PathModel| #[trigger] all_paths(no_change_step(s)).count(p) > 0
                <==> candidates.contains(p) by {
                assert(!Seq::<PathModel>::empty().contains(p));
                assert(Seq::<PathModel>::empty().to_multiset().count(p) == 0);
                assert(dedup_paths(candidates).to_multiset().count(p) > 0 <==> dedup_paths(
                    candidates,
                ).contains(p));
            }
            assert forall|p: PathModel| #[trigger] all_paths(no_change_step(s)).count(p)
                <= 1 by {
                assert(!Seq::<PathModel>::empty().contains(p));
                assert(Seq::<PathModel>::empty().to_multiset().count(p) == 0);
            }
        },
        _ => {},
    }
}

/// A confirmed-bad candidate is never retried: the verdict that fails a
/// singleton batch moves its path into `failed`, and from then on the path
/// sits in no batch — `can_process` denies it for the rest of this
/// controller's run.
pub proof fn lemma_failed_singleton_not_retried(s: CtrlState)
    requires
        s.wf(),
        s matches CtrlState::Bisecting { current, .. } && current.len() == 1,
    ensures
        s matches CtrlState::Bisecting { current, .. } ==> {
            &&& (does_not_reproduce_step(s) matches CtrlState::Bisecting { failed: f2, .. }
                ==> f2.contains(current[0]))
            &&& !can_process_allowed(does_not_reproduce_step(s), current[0])
        },
{
    broadcast use vstd::multiset::group_multiset_axioms;
    broadcast use vstd::seq_lib::group_to_multiset_ensures;

    match s {
        CtrlState::Bisecting { committed, failed, current, worklist } => {
            let p = current[0];
            assert(current.contains(p));
            assert(current.to_multiset().count(p) > 0);
            assert(all_paths(s).count(p) <= 1);
            assert(worklist_paths(worklist).count(p) == 0);
            assert((failed + current).contains(p)) by {
                assert((failed + current)[failed.len() as int] == p);
            }
            if worklist.len() > 0 {
                assert(worklist_paths(worklist) == worklist_paths(worklist.drop_last()).add(
                    worklist.last().to_multiset(),
                ));
                assert(worklist.last().to_multiset().count(p) == 0);
                assert(!worklist.last().contains(p));
            }
        },
        _ => {},
    }
}

/// The reproducing verdict that ends the bisection resolves everything: it
/// happens only with an empty worklist, and the candidates tracked at that
/// point are exactly the already-committed and failed ones plus the final
/// batch, which it commits.
pub proof fn lemma_reproduces_terminal_accounting(s: CtrlState)
    requires
        s is Bisecting,
        reproduces_step(s) is Success,
    ensures
        s matches CtrlState::Bisecting { committed, failed, current, worklist } ==> {
            &&& worklist.len() == 0
            &&& all_paths(s) == (committed + current).to_multiset().add(failed.to_multiset())
        },
{
    broadcast use vstd::multiset::group_multiset_axioms;

    match s {
        CtrlState::Bisecting { committed, failed, current, worklist } => {
            lemma_multiset_commutative(committed, current);
            assert(all_paths(s) =~= (committed + current).to_multiset().add(
                failed.to_multiset(),
            ));
        },
        _ => {},
    }
}

/// The failing verdict that ends the bisection resolves everything: it
/// happens only when the final batch is a single confirmed-bad candidate and
/// nothing is pending, and that candidate joins `failed`.
pub proof fn lemma_does_not_reproduce_terminal_accounting(s: CtrlState)
    requires
        s is Bisecting,
        does_not_reproduce_step(s) is Success,
    ensures
        s matches CtrlState::Bisecting { committed, failed, current, worklist } ==> {
            &&& worklist.len() == 0
            &&& current.len() == 1
            &&& all_paths(s) == committed.to_multiset().add((failed + current).to_multiset())
        },
{
    broadcast use vstd::multiset::group_multiset_axioms;

    match s {
        CtrlState::Bisecting { committed, failed, current, worklist } => {
            lemma_multiset_commutative(failed, current);
            assert(all_paths(s) =~= committed.to_multiset().add(
                (failed + current).to_multiset(),
            ));
        },
        _ => {},
    }
}

/// Committing the current batch on a reproducing build keeps every tracked
/// candidate: the batch only moves from `current` to `committed`.
pub proof fn lemma_reproduces_preserves_candidates(s: CtrlState)
    requires
        s is Bisecting,
        reproduces_step(s) is Bisecting,
    ensures
        all_paths(reproduces_step(s)) == all_paths(s),
{
    broadcast use vstd::multiset::group_multiset_axioms;

    match s {
        CtrlState::Bisecting { committed, failed, current, worklist } => {
            assert(worklist.len() > 0);
            lemma_multiset_commutative(committed, current);
            assert(worklist_paths(worklist) == worklist_paths(worklist.drop_last()).add(
                worklist.last().to_multiset(),
            ));
            assert(all_paths(reproduces_step(s)) =~= all_paths(s));
        },
        _ => {},
    }
}

/// The controller reaches `Success` on a reproducing build exactly when no
/// batch is pending: nothing is dropped early.
pub proof fn lemma_reproduces_success_condition(s: CtrlState)
    requires
        s is Bisecting,
    ensures
        s matches CtrlState::Bisecting { worklist, .. } ==> ((reproduces_step(s) is Success)
            <==> worklist.len() == 0),
{
}

/// Splitting or failing the current batch on a non-reproducing build keeps
/// every tracked candidate: a singleton moves to `failed`, a larger batch is
/// split into two halves that together hold exactly its paths.
pub proof fn lemma_does_not_reproduce_preserves_candidates(s: CtrlState)
    requires
        s.wf(),
        s is Bisecting,
        does_not_reproduce_step(s) is Bisecting,
    ensures
        all_paths(does_not_reproduce_step(s)) == all_paths(s),
{
    broadcast use vstd::multiset::group_multiset_axioms;

    match s {
        CtrlState::Bisecting { committed, failed, current, worklist } => {
            if current.len() == 1 {
                assert(worklist.len() > 0);
                lemma_multiset_commutative(failed, current);
                assert(worklist_paths(worklist) == worklist_paths(worklist.drop_last()).add(
                    worklist.last().to_multiset(),
                ));
                assert(all_paths(does_not_reproduce_step(s)) =~= all_paths(s));
            } else {
                let half = spec_div_ceil(current.len() as int, 2);
                let first = current.take(half);
                let second = current.skip(half);
                lemma_split_recovers_batch(current);
                lemma_multiset_commutative(first, second);
                assert(first.to_multiset().add(second.to_multiset()) == current.to_multiset());
                let w1 = worklist.push(first);
                let w2 = w1.push(second);
                assert(worklist_paths(w1) == worklist_paths(worklist).add(first.to_multiset()))
                    by {
                    assert(w1.drop_last() =~= worklist);
                }
                assert(worklist_paths(w2) == worklist_paths(w1).add(second.to_multiset())) by {
                    assert(w2.drop_last() =~= w1);
                }
                assert(w2.len() > 0);
                assert(w2.last() == second);
                assert(w2.drop_last() =~= w1);
                assert(all_paths(does_not_reproduce_step(s)) == committed.to_multiset().add(
                    failed.to_multiset(),
                ).add(second.to_multiset()).add(worklist_paths(w1)));
                assert(all_paths(does_not_reproduce_step(s)) =~= all_paths(s));
            }
        },
        _ => {},
    }
}

/// The controller reaches `Success` on a non-reproducing build exactly when
/// the current batch was a confirmed-bad singleton and nothing is pending.
pub proof fn lemma_does_not_reproduce_success_condition(s: CtrlState)
    requires
        s.wf(),
        s is Bisecting,
    ensures
        s matches CtrlState::Bisecting { current, worklist, .. } ==> ((does_not_reproduce_step(
            s,
        ) is Success) <==> (current.len() == 1 && worklist.len() == 0)),
{
    match s {
        CtrlState::Bisecting { committed, failed, current, worklist } => {
            if current.len() != 1 {
                let half = spec_div_ceil(current.len() as int, 2);
                assert(current.skip(half).len() > 0);
            }
        },
        _ => {},
    }
}

/// Whether the first `upto` paths of the batch hold one naming the same
/// location as `target`.
fn batch_contains_up_to(batch: &Vec<AstPath>, upto: usize, target: &AstPath) -> (r: bool)
    requires
        upto <= batch@.len(),
    ensures
        r == batch_view(batch@.take(upto as int)).contains(target@),
{
    let mut i: usize = 0;
    while i < upto
        invariant
            0 <= i <= upto,
            upto <= batch@.len(),
            forall|k: int| 0 <= k < i ==> batch_view(batch@)[k] != target@,
        decreases upto - i,
    {
        if batch[i].matches(target) {
            proof {
                assert(batch@.take(upto as int)[i as int] == batch@[i as int]);
                assert(batch_view(batch@.take(upto as int))[i as int] == target@);
            }
            return true;
        }
        i = i + 1;
    }
    proof {
        let tv = batch_view(batch@.take(upto as int));
        assert(!tv.contains(target@)) by {
            if tv.contains(target@) {
                let k = choose|k: int| 0 <= k < tv.len() && tv[k] == target@;
                assert(batch@.take(upto as int)[k] == batch@[k]);
                assert(batch_view(batch@)[k] == target@);
            }
        }
    }
    false
}

/// The recorded candidates with duplicates dropped, first occurrences kept.
fn dedup_candidates(v: &Vec<AstPath>) -> (r: Vec<AstPath>)
    ensures
        batch_view(r@) == dedup_paths(batch_view(v@)),
{
    let mut out: Vec<AstPath> = Vec::new();
    let n = v.len();
    let mut i: usize = 0;
    while i < n
        invariant
            0 <= i <= n,
            n == v@.len(),
            batch_view(out@) == dedup_paths(batch_view(v@.take(i as int))),
        decreases n - i,
    {
        let seen = batch_contains_up_to(v, i, &v[i]);
        let ghost prev = batch_view(v@.take(i as int));
        let ghost cur = batch_view(v@.take(i as int + 1));
        proof {
            assert(cur.drop_last() =~= prev);
            assert(cur.last() == v@[i as int]@);
        }
        if !seen {
            out.push(v[i].clone());
            assert(batch_view(out@) =~= dedup_paths(cur));
        } else {
            assert(batch_view(out@) =~= dedup_paths(cur));
        }
        i = i + 1;
    }
    proof {
        assert(batch_view(v@.take(n as int)) =~= batch_view(v@));
    }
    out
}

/// Whether the batch holds a path naming the same location as `target`.
fn batch_contains(batch: &Vec<AstPath>, target: &AstPath) -> (r: bool)
    ensures
        r == batch_view(batch@).contains(target@),
{
    let n = batch.len();
    let mut i: usize = 0;
    while i < n
        invariant
            0 <= i <= n,
            n == batch@.len(),
            forall|k: int| 0 <= k < i ==> batch_view(batch@)[k] != target@,
        decreases n - i,
    {
        if batch[i].matches(target) {
            assert(batch_view(batch@)[i as int] == target@);
            return true;
        }
        i = i + 1;
    }
    false
}

/// Splits an owned batch in half: the first half holds the first
/// `ceil(n/2)` elements, the second half the rest.
pub fn split_owned<T>(v: Vec<T>) -> (r: (Vec<T>, Vec<T>))
    ensures
        r.0@ == v@.take(spec_div_ceil(v@.len() as int, 2)),
        r.1@ == v@.skip(spec_div_ceil(v@.len() as int, 2)),
{
    let half = div_ceil(v.len(), 2);
    let mut first: Vec<T> = Vec::new();
    let mut rest = v;
    let ghost orig = rest@;
    while first.len() < half
        invariant
            half == spec_div_ceil(orig.len() as int, 2),
            half <= orig.len(),
            first@.len() <= half,
            first@ == orig.take(first@.len() as int),
            rest@ == orig.skip(first@.len() as int),
        decreases half - first@.len(),
    {
        let ghost k = first@.len() as int;
        let x = rest.remove(0);
        first.push(x);
        proof {
            assert(orig.skip(k).remove(0) =~= orig.skip(k + 1));
            assert(orig.take(k).push(orig.skip(k)[0]) =~= orig.take(k + 1));
        }
    }
    (first, rest)
}

} // verus!
