use vstd::prelude::*;

use crate::system::RiskAnalysisResult;

verus! {

/// The state of a [`SnapshotCache`].
pub struct CacheState {
    /// The last complete analysis, if any.
    pub snapshot: Option<RiskAnalysisResult>,
    /// When it was stored, in seconds.
    pub last_update: u64,
    /// How long a snapshot stays fresh, in seconds.
    pub ttl: u64,
    /// A recomputation holds the single-flight flag.
    pub refreshing: bool,
}

/// What a reader does.
#[derive(Clone, Copy, Debug, PartialEq, Eq, Structural)]
pub enum ReadDecision {
    /// Serve the cached snapshot without taking the lock.
    ServeCached,
    /// The lock was acquired in time: recompute and serve the result.
    Recompute,
    /// The lock could not be had in time: answer "busy".
    Busy,
}

/// The snapshot exists and is younger than the TTL at `now`.
pub open spec fn is_fresh(s: CacheState, now: int) -> bool {
    &&& s.snapshot is Some
    &&& s.last_update <= now < s.last_update + s.ttl
}

/// A fresh snapshot is served; otherwise the reader recomputes if it got
/// the lock within its timeout, and is told "busy" if it did not.
pub open spec fn read_decision(s: CacheState, now: int, lock_acquired: bool) -> ReadDecision {
    if is_fresh(s, now) {
        ReadDecision::ServeCached
    } else if lock_acquired {
        ReadDecision::Recompute
    } else {
        ReadDecision::Busy
    }
}

/// The compare-and-swap of the single-flight flag: it succeeds, setting the
/// flag, only when the flag is clear.
pub open spec fn begin_refresh(s: CacheState) -> (CacheState, bool) {
    if s.refreshing {
        (s, false)
    } else {
        (CacheState { refreshing: true, ..s }, true)
    }
}

/// The end of a recomputation attempt, successful or not: the flag is
/// cleared, and a new analysis replaces the snapshot and its timestamp as a
/// whole.
pub open spec fn finish_refresh(
    s: CacheState,
    outcome: Option<RiskAnalysisResult>,
    now: u64,
) -> CacheState {
    match outcome {
        Some(a) => CacheState { snapshot: Some(a), last_update: now, refreshing: false, ..s },
        None => CacheState { refreshing: false, ..s },
    }
}

/// Holds the last analysis with its freshness deadline, and the flag that
/// lets at most one recomputation run at a time.
pub struct SnapshotCache {
    snapshot: Option<RiskAnalysisResult>,
    last_update: u64,
    ttl: u64,
    refreshing: bool,
}

impl View for SnapshotCache {
    type V = CacheState;

    closed spec fn view(&self) -> CacheState {
        CacheState {
            snapshot: self.snapshot,
            last_update: self.last_update,
            ttl: self.ttl,
            refreshing: self.refreshing,
        }
    }
}

impl SnapshotCache {
    /// An empty cache whose snapshots stay fresh for `ttl` seconds.
    pub fn new(ttl: u64) -> (r: SnapshotCache)
        ensures
            r@ == (CacheState { snapshot: None, last_update: 0, ttl, refreshing: false }),
    {
        SnapshotCache { snapshot: None, last_update: 0, ttl, refreshing: false }
    }

    /// Whether the snapshot is fresh at `now`.
    pub fn is_fresh(&self, now: u64) -> (r: bool)
        ensures
            r == is_fresh(self@, now as int),
    {
        self.snapshot.is_some() && self.last_update <= now && now - self.last_update < self.ttl
    }

    /// The snapshot, if it is fresh at `now`.
    pub fn cached(&self, now: u64) -> (r: Option<&RiskAnalysisResult>)
        ensures
            match r {
                Some(a) => is_fresh(self@, now as int) && self@.snapshot == Some(*a),
                None => !is_fresh(self@, now as int),
            },
    {
        if self.is_fresh(now) {
            self.snapshot.as_ref()
        } else {
            None
        }
    }

    /// What a reader does at `now`, given whether its bounded wait for the
    /// lock succeeded.
    pub fn decide_read(&self, now: u64, lock_acquired: bool) -> (r: ReadDecision)
        ensures
            r == read_decision(self@, now as int, lock_acquired),
    {
        if self.is_fresh(now) {
            ReadDecision::ServeCached
        } else if lock_acquired {
            ReadDecision::Recompute
        } else {
            ReadDecision::Busy
        }
    }

    /// Claims the single-flight flag; false when a recomputation already
    /// holds it, in which case this tick is skipped.
    pub fn try_begin_refresh(&mut self) -> (r: bool)
        ensures
            (final(self)@, r) == begin_refresh(old(self)@),
    {
        if self.refreshing {
            false
        } else {
            self.refreshing = true;
            true
        }
    }

    /// Replaces the snapshot with an analysis taken at `now`, leaving the
    /// single-flight flag as it is; for a reader that recomputed under the
    /// lock.
    pub fn store(&mut self, analysis: RiskAnalysisResult, now: u64)
        ensures
            final(self)@ == (CacheState {
                snapshot: Some(analysis),
                last_update: now,
                ..old(self)@
            }),
    {
        self.snapshot = Some(analysis);
        self.last_update = now;
    }

    /// Ends a recomputation attempt: stores a new analysis taken at `now`,
    /// or keeps the old snapshot when the attempt was abandoned or failed;
    /// the flag is cleared either way.
    pub fn finish_refresh(&mut self, outcome: Option<RiskAnalysisResult>, now: u64)
        ensures
            final(self)@ == finish_refresh(old(self)@, outcome, now),
    {
        match outcome {
            Some(a) => {
                self.snapshot = Some(a);
                self.last_update = now;
            },
            None => {},
        }
        self.refreshing = false;
    }
}

/// Of two attempts to start a recomputation with no finish between them, at
/// most one succeeds; from a clear flag exactly the first does. Once that
/// attempt finishes, whatever its outcome, the next one succeeds again.
pub proof fn lemma_single_flight(s: CacheState, outcome: Option<RiskAnalysisResult>, now: u64)
    ensures
        ({
            let (s1, first) = begin_refresh(s);
            let (s2, second) = begin_refresh(s1);
            &&& !(first && second)
            &&& !s.refreshing ==> first && !second
            &&& s.refreshing ==> !first && !second
            &&& begin_refresh(finish_refresh(s1, outcome, now)).1
        }),
{
}

/// A reader that finds no fresh snapshot and cannot take the lock within
/// its timeout is answered "busy"; it does not wait further.
pub proof fn lemma_busy_fallback(s: CacheState, now: int)
    requires
        !is_fresh(s, now),
    ensures
        read_decision(s, now, false) == ReadDecision::Busy,
        read_decision(s, now, true) == ReadDecision::Recompute,
{
}

} // verus!
