//! The event watcher's decisions: which paths are pending confirmation, when
//! each one is due, and what settling it yields.
//!
//! The caller owns the subscription, the clock and the disk: it feeds each
//! change notification in, with a metadata read of every path, asks which
//! candidate is due, reads that path again and settles it.
use vstd::prelude::*;

use crate::classify::{
    classification, classify, is_relevant, marks_in_progress, ChangeKind, Classification,
    PathState,
};
use crate::text::same_text;
use crate::settle::{completion_of, confirm, settled, Completion, CompletionRecord, QUIESCENCE_MS};

verus! {

/// A path under evaluation, from its first sighting until it is settled.
#[derive(Debug)]
pub struct CandidateState {
    pub path: String,
    pub name: String,
    pub first_seen_kind: ChangeKind,
    /// When the candidate was first seen, in milliseconds of the caller's clock.
    pub enqueued_at: u64,
}

/// The value a `CandidateState` holds.
pub ghost struct Candidate {
    pub path: Seq<char>,
    pub name: Seq<char>,
    pub first_seen_kind: ChangeKind,
    pub enqueued_at: u64,
}

impl View for CandidateState {
    type V = Candidate;

    open spec fn view(&self) -> Candidate {
        Candidate {
            path: self.path@,
            name: self.name@,
            first_seen_kind: self.first_seen_kind,
            enqueued_at: self.enqueued_at,
        }
    }
}

/// One path of a change notification, with what a metadata read of it found.
#[derive(Debug)]
pub struct ObservedPath {
    pub path: String,
    /// The path's file name.
    pub name: String,
    pub state: PathState,
}

/// The value an `ObservedPath` holds.
pub ghost struct Observation {
    pub path: Seq<char>,
    pub name: Seq<char>,
    pub state: PathState,
}

impl View for ObservedPath {
    type V = Observation;

    open spec fn view(&self) -> Observation {
        Observation { path: self.path@, name: self.name@, state: self.state }
    }
}

/// A change notification: its kind and the paths it names, in order.
#[derive(Debug)]
pub struct ChangeEvent {
    pub kind: ChangeKind,
    pub paths: Vec<ObservedPath>,
}

/// The candidates pending confirmation, in the order they were first seen.
pub struct Watcher {
    pending: Vec<CandidateState>,
}

/// Some pending candidate has this path.
pub open spec fn tracks(pending: Seq<Candidate>, path: Seq<char>) -> bool {
    exists|i: int| 0 <= i < pending.len() && #[trigger] pending[i].path == path
}

/// No two candidates share a path, and each one came from a creation or a
/// rename and has a name that marks no download in progress.
pub open spec fn pending_wf(pending: Seq<Candidate>) -> bool {
    &&& forall|i: int, j: int|
        0 <= i < pending.len() && 0 <= j < pending.len() && i != j ==> #[trigger] pending[i].path
            != #[trigger] pending[j].path
    &&& forall|i: int|
        0 <= i < pending.len() ==> is_relevant(#[trigger] pending[i].first_seen_kind)
            && !marks_in_progress(pending[i].name)
}

/// The pending set after one path of a notification: a candidate that is not
/// pending yet joins at the end; anything else leaves the set as it was.
pub open spec fn admitted(
    pending: Seq<Candidate>,
    kind: ChangeKind,
    seen: Observation,
    now: u64,
) -> Seq<Candidate> {
    if classification(kind, seen.name, seen.state) is Candidate && !tracks(pending, seen.path) {
        pending.push(
            Candidate { path: seen.path, name: seen.name, first_seen_kind: kind, enqueued_at: now },
        )
    } else {
        pending
    }
}

/// The pending set after every path of a notification, taken in order.
pub open spec fn admitted_all(
    pending: Seq<Candidate>,
    kind: ChangeKind,
    seen: Seq<Observation>,
    now: u64,
) -> Seq<Candidate>
    decreases seen.len(),
{
    if seen.len() == 0 {
        pending
    } else {
        admitted(admitted_all(pending, kind, seen.drop_last(), now), kind, seen.last(), now)
    }
}

/// The candidate has been quiet for the whole delay at time `now`.
pub open spec fn is_due(c: Candidate, now: u64) -> bool {
    now >= c.enqueued_at + QUIESCENCE_MS
}

/// When the candidate falls due, capped at the clock's largest value.
pub open spec fn deadline(c: Candidate) -> u64 {
    if c.enqueued_at + QUIESCENCE_MS <= u64::MAX {
        (c.enqueued_at + QUIESCENCE_MS) as u64
    } else {
        u64::MAX
    }
}

/// The position of the candidate with this path, if one is pending.
pub open spec fn position_of(pending: Seq<Candidate>, path: Seq<char>) -> int {
    choose|i: int| 0 <= i < pending.len() && pending[i].path == path
}

/// Settling a path at time `now`: a pending candidate that is due leaves the
/// set and yields what its second metadata read shows; otherwise nothing
/// changes and nothing is yielded.
pub open spec fn settle_outcome(
    pending: Seq<Candidate>,
    path: Seq<char>,
    state: PathState,
    now: u64,
) -> (Seq<Candidate>, Option<Completion>) {
    if tracks(pending, path) && is_due(pending[position_of(pending, path)], now) {
        let i = position_of(pending, path);
        (pending.remove(i), settled(pending[i].name, path, state))
    } else {
        (pending, None)
    }
}

impl View for Watcher {
    type V = Seq<Candidate>;

    closed spec fn view(&self) -> Seq<Candidate> {
        self.pending@.map_values(|c: CandidateState| c@)
    }
}

impl Watcher {
    /// The pending set is well formed.
    pub open spec fn wf(&self) -> bool {
        pending_wf(self@)
    }

    /// A watcher with nothing pending.
    pub fn new() -> (w: Watcher)
        ensures
            w.wf(),
            w@ == Seq::<Candidate>::empty(),
    {
        let w = Watcher { pending: Vec::new() };
        assert(w@ =~= Seq::<Candidate>::empty());
        w
    }

    /// The number of pending candidates.
    pub fn pending_len(&self) -> (n: usize)
        ensures
            n == self@.len(),
    {
        self.pending.len()
    }

    /// Whether a candidate with this path is pending.
    pub fn is_pending(&self, path: &str) -> (r: bool)
        ensures
            r == tracks(self@, path@),
    {
        self.find(path).is_some()
    }

    /// Takes one path of a change notification, seen at time `now`: a
    /// candidate that is not pending yet joins the pending set.
    pub fn observe(&mut self, kind: ChangeKind, seen: &ObservedPath, now: u64) -> (c:
        Classification)
        requires
            old(self).wf(),
        ensures
            final(self).wf(),
            c == classification(kind, seen@.name, seen@.state),
            final(self)@ == admitted(old(self)@, kind, seen@, now),
    {
        let c = classify(kind, seen.name.as_str(), seen.state);
        if c == Classification::Candidate && self.find(seen.path.as_str()).is_none() {
            let ghost before = self@;
            let fresh = CandidateState {
                path: seen.path.clone(),
                name: seen.name.clone(),
                first_seen_kind: kind,
                enqueued_at: now,
            };
            self.pending.push(fresh);
            assert(self@ =~= before.push(fresh@));
        }
        c
    }

    /// Takes a whole change notification, seen at time `now`, path by path in
    /// order, and returns the classification of each path.
    pub fn ingest(&mut self, event: &ChangeEvent, now: u64) -> (r: Vec<Classification>)
        requires
            old(self).wf(),
        ensures
            final(self).wf(),
            r@.len() == event.paths@.len(),
            forall|i: int|
                0 <= i < r@.len() ==> #[trigger] r@[i] == classification(
                    event.kind,
                    event.paths@[i]@.name,
                    event.paths@[i]@.state,
                ),
            final(self)@ == admitted_all(
                old(self)@,
                event.kind,
                event.paths@.map_values(|p: ObservedPath| p@),
                now,
            ),
    {
        let ghost start = self@;
        let ghost seen = event.paths@.map_values(|p: ObservedPath| p@);
        let mut r: Vec<Classification> = Vec::new();
        let mut i: usize = 0;
        while i < event.paths.len()
            invariant
                i <= event.paths@.len(),
                seen == event.paths@.map_values(|p: ObservedPath| p@),
                self.wf(),
                r@.len() == i,
                forall|j: int|
                    0 <= j < i ==> #[trigger] r@[j] == classification(
                        event.kind,
                        event.paths@[j]@.name,
                        event.paths@[j]@.state,
                    ),
                self@ == admitted_all(start, event.kind, seen.subrange(0, i as int), now),
            decreases event.paths@.len() - i,
        {
            let c = self.observe(event.kind, &event.paths[i], now);
            r.push(c);
            assert(seen.subrange(0, i + 1).drop_last() =~= seen.subrange(0, i as int));
            i += 1;
        }
        assert(seen.subrange(0, i as int) =~= seen);
        r
    }

    /// The path of the earliest-seen candidate that is due at time `now`, if
    /// any is.
    pub fn first_due(&self, now: u64) -> (r: Option<String>)
        ensures
            match r {
                Some(p) => exists|i: int|
                    0 <= i < self@.len() && is_due(self@[i], now) && self@[i].path == p@ && forall|
                        j: int,
                    |
                        0 <= j < i ==> !is_due(#[trigger] self@[j], now),
                None => forall|i: int| 0 <= i < self@.len() ==> !is_due(#[trigger] self@[i], now),
            },
    {
        let mut i: usize = 0;
        while i < self.pending.len()
            invariant
                i <= self.pending@.len(),
                self@ == self.pending@.map_values(|c: CandidateState| c@),
                forall|j: int| 0 <= j < i ==> !is_due(#[trigger] self@[j], now),
            decreases self.pending@.len() - i,
        {
            let c = &self.pending[i];
            if now >= c.enqueued_at && now - c.enqueued_at >= QUIESCENCE_MS {
                assert(is_due(self@[i as int], now));
                return Some(c.path.clone());
            }
            i += 1;
        }
        None
    }

    /// The earliest time at which a pending candidate falls due, or nothing
    /// when none is pending.
    pub fn next_deadline(&self) -> (r: Option<u64>)
        ensures
            match r {
                Some(d) => (exists|i: int| 0 <= i < self@.len() && deadline(self@[i]) == d)
                    && forall|i: int| 0 <= i < self@.len() ==> d <= deadline(#[trigger] self@[i]),
                None => self@.len() == 0,
            },
    {
        let mut best: Option<u64> = None;
        let mut i: usize = 0;
        while i < self.pending.len()
            invariant
                i <= self.pending@.len(),
                self@ == self.pending@.map_values(|c: CandidateState| c@),
                match best {
                    Some(d) => (exists|k: int| 0 <= k < i && deadline(self@[k]) == d) && forall|
                        k: int,
                    |
                        0 <= k < i ==> d <= deadline(#[trigger] self@[k]),
                    None => i == 0,
                },
            decreases self.pending@.len() - i,
        {
            let at = self.pending[i].enqueued_at;
            let d = if at <= u64::MAX - QUIESCENCE_MS {
                at + QUIESCENCE_MS
            } else {
                u64::MAX
            };
            assert(d == deadline(self@[i as int]));
            best = match best {
                Some(b) => if d < b {
                    Some(d)
                } else {
                    Some(b)
                },
                None => Some(d),
            };
            i += 1;
        }
        best
    }

    /// Settles a path at time `now`, from what a metadata read of it found:
    /// a pending candidate that is due leaves the pending set and yields a
    /// record if the path is a regular file; otherwise nothing changes.
    pub fn settle(&mut self, path: &str, state: PathState, now: u64) -> (r: Option<
        CompletionRecord,
    >)
        requires
            old(self).wf(),
        ensures
            final(self).wf(),
            (final(self)@, completion_of(r)) == settle_outcome(old(self)@, path@, state, now),
    {
        let ghost before = self@;
        match self.find(path) {
            None => None,
            Some(i) => {
                proof {
                    let k = position_of(before, path@);
                    assert(before[i as int].path == path@);
                    assert(k == i);
                }
                let at = self.pending[i].enqueued_at;
                if now >= at && now - at >= QUIESCENCE_MS {
                    let c = self.pending.remove(i);
                    assert(self@ =~= before.remove(i as int));
                    proof {
                        assert forall|a: int, b: int|
                            0 <= a < self@.len() && 0 <= b < self@.len() && a != b implies #[trigger] self@[a].path
                                != #[trigger] self@[b].path by {
                            let a0 = if a < i { a } else { a + 1 };
                            let b0 = if b < i { b } else { b + 1 };
                            assert(self@[a] == before[a0]);
                            assert(self@[b] == before[b0]);
                        }
                        assert forall|a: int| 0 <= a < self@.len() implies is_relevant(
                            #[trigger] self@[a].first_seen_kind,
                        ) && !marks_in_progress(self@[a].name) by {
                            let a0 = if a < i { a } else { a + 1 };
                            assert(self@[a] == before[a0]);
                        }
                    }
                    confirm(c.name, c.path, state)
                } else {
                    None
                }
            },
        }
    }

    /// The position of the candidate with this path.
    fn find(&self, path: &str) -> (r: Option<usize>)
        ensures
            match r {
                Some(i) => i < self@.len() && self@[i as int].path == path@,
                None => !tracks(self@, path@),
            },
    {
        let mut i: usize = 0;
        while i < self.pending.len()
            invariant
                i <= self.pending@.len(),
                self@ == self.pending@.map_values(|c: CandidateState| c@),
                forall|j: int| 0 <= j < i ==> self@[j].path != path@,
            decreases self.pending@.len() - i,
        {
            if same_text(self.pending[i].path.as_str(), path) {
                return Some(i);
            }
            i += 1;
        }
        None
    }
}

/// The candidate with a given path is the one at its position.
proof fn lemma_position_of(pending: Seq<Candidate>, path: Seq<char>, i: int)
    requires
        pending_wf(pending),
        0 <= i < pending.len(),
        pending[i].path == path,
    ensures
        position_of(pending, path) == i,
{
    let k = position_of(pending, path);
    assert(0 <= k < pending.len() && pending[k].path == path);
}

/// Once settling a path has yielded a record, settling the same path again
/// yields nothing, whatever the disk shows and whenever it happens: each
/// download is confirmed once.
pub proof fn lemma_settles_once(
    pending: Seq<Candidate>,
    path: Seq<char>,
    first: PathState,
    first_at: u64,
    second: PathState,
    second_at: u64,
)
    requires
        pending_wf(pending),
        settle_outcome(pending, path, first, first_at).1 is Some,
    ensures
        settle_outcome(settle_outcome(pending, path, first, first_at).0, path, second, second_at).1
            is None,
{
    let i = position_of(pending, path);
    let rest = pending.remove(i);
    assert(0 <= i < pending.len() && pending[i].path == path);
    assert forall|k: int| 0 <= k < rest.len() implies #[trigger] rest[k].path != path by {
        let k0 = if k < i { k } else { k + 1 };
        assert(rest[k] == pending[k0]);
        assert(k0 != i);
    }
}

/// A path that is gone, unreadable or no regular file when it is settled
/// yields no record.
pub proof fn lemma_vanished_paths_yield_nothing(
    pending: Seq<Candidate>,
    path: Seq<char>,
    state: PathState,
    now: u64,
)
    requires
        !(state is File),
    ensures
        settle_outcome(pending, path, state, now).1 is None,
{
}

/// A pending candidate that is due and still a regular file yields exactly one
/// record: its name, its path and the length read when it was settled.
pub proof fn lemma_stable_files_yield_their_size(
    pending: Seq<Candidate>,
    i: int,
    size: u64,
    now: u64,
)
    requires
        pending_wf(pending),
        0 <= i < pending.len(),
        is_due(pending[i], now),
    ensures
        settle_outcome(pending, pending[i].path, PathState::File { size }, now) == (
            pending.remove(i),
            Some(Completion { name: pending[i].name, path: pending[i].path, size_bytes: size }),
        ),
{
    lemma_position_of(pending, pending[i].path, i);
}

/// No record ever names a download in progress: what settling yields carries
/// a name without a partial-download suffix or a leading dot.
pub proof fn lemma_records_carry_final_names(
    pending: Seq<Candidate>,
    path: Seq<char>,
    state: PathState,
    now: u64,
)
    requires
        pending_wf(pending),
    ensures
        settle_outcome(pending, path, state, now).1 matches Some(c) ==> !marks_in_progress(c.name),
{
    if tracks(pending, path) {
        let i = position_of(pending, path);
        assert(0 <= i < pending.len() && pending[i].path == path);
        assert(is_relevant(pending[i].first_seen_kind));
    }
}

/// Further notifications for a path that is already pending leave the pending
/// set as it is.
pub proof fn lemma_repeated_events_coalesce(
    pending: Seq<Candidate>,
    kind: ChangeKind,
    seen: Observation,
    now: u64,
)
    requires
        tracks(pending, seen.path),
    ensures
        admitted(pending, kind, seen, now) == pending,
{
}

} // verus!
