//! The media-session cache: the last known snapshot, its age, and a
//! single-flight refresh gate.
//!
//! Readers never wait for a refresh: `get` hands out the stored snapshot
//! (empty before the first refresh completes). A refresh is begun with
//! `start_update`, which succeeds for exactly one caller at a time, and is
//! closed with `finish_update`, which stores the new snapshot and clears
//! the refreshing flag. Methods take the current time as a number, so
//! staleness is a plain predicate of the state.

use crate::models::{MediaInfo, MediaInfoV};
use vstd::prelude::*;

verus! {

/// The mathematical state of the cache.
pub struct CacheModel {
    pub snapshot: Seq<MediaInfoV>,
    pub last_update: Option<u64>,
    pub updating: bool,
}

/// One interaction with the cache that can change its state.
pub enum CacheEvent {
    /// A `start_update` call: an attempt to begin a refresh.
    Begin,
    /// A `finish_update` call: a refresh completes with a snapshot at a time.
    Complete(Seq<MediaInfoV>, u64),
}

/// How one event transforms the cache state; the flag of the result says
/// whether a `Begin` succeeded.
pub open spec fn cache_step(m: CacheModel, e: CacheEvent) -> (CacheModel, bool) {
    match e {
        CacheEvent::Begin => (
            CacheModel { updating: true, ..m },
            !m.updating,
        ),
        CacheEvent::Complete(snapshot, now_ms) => (
            CacheModel { snapshot, last_update: Some(now_ms), updating: false },
            false,
        ),
    }
}

/// The state after a sequence of events.
pub open spec fn cache_run(m: CacheModel, es: Seq<CacheEvent>) -> CacheModel
    decreases es.len(),
{
    if es.len() == 0 {
        m
    } else {
        cache_run(cache_step(m, es[0]).0, es.drop_first())
    }
}

/// Whether a snapshot is stale at `now_ms`: nothing was ever stored, or the
/// store is older than `max_age_ms`.
pub open spec fn spec_is_stale(last_update: Option<u64>, now_ms: u64, max_age_ms: u64) -> bool {
    match last_update {
        None => true,
        Some(t) => now_ms > t && now_ms - t > max_age_ms,
    }
}

/// The first record of a snapshot carrying a given session id.
pub open spec fn spec_find_by_id(s: Seq<MediaInfoV>, id: Seq<char>) -> Option<MediaInfoV>
    decreases s.len(),
{
    if s.len() == 0 {
        None
    } else if s[0].session_id == id {
        Some(s[0])
    } else {
        spec_find_by_id(s.drop_first(), id)
    }
}

/// The last known media snapshot, with the single-flight refresh gate.
pub struct MediaSessionCache {
    data: Vec<MediaInfo>,
    last_update: Option<u64>,
    is_updating: bool,
}

impl MediaSessionCache {
    /// The mathematical state of this cache.
    pub closed spec fn model(&self) -> CacheModel {
        CacheModel {
            snapshot: self.data.deep_view(),
            last_update: self.last_update,
            updating: self.is_updating,
        }
    }

    /// An empty cache: no snapshot, no store time, no refresh in flight.
    pub fn new() -> (c: Self)
        ensures
            c.model() == (CacheModel { snapshot: Seq::<MediaInfoV>::empty(), last_update: None, updating: false }),
    {
        let c = MediaSessionCache { data: Vec::new(), last_update: None, is_updating: false };
        proof {
            assert(c.data.deep_view() =~= Seq::<MediaInfoV>::empty());
        }
        c
    }

    /// Whether the snapshot is stale at `now_ms` for the window `max_age_ms`.
    pub fn should_update(&self, now_ms: u64, max_age_ms: u64) -> (r: bool)
        ensures
            r == spec_is_stale(self.model().last_update, now_ms, max_age_ms),
    {
        match self.last_update {
            None => true,
            Some(t) => now_ms > t && now_ms - t > max_age_ms,
        }
    }

    /// The single-flight gate: succeeds exactly when no refresh is in
    /// flight, and leaves one in flight either way.
    pub fn start_update(&mut self) -> (r: bool)
        ensures
            final(self).model() == cache_step(old(self).model(), CacheEvent::Begin).0,
            r == cache_step(old(self).model(), CacheEvent::Begin).1,
    {
        let was_updating = self.is_updating;
        self.is_updating = true;
        !was_updating
    }

    /// Closes a refresh: stores the snapshot, records its time, clears the
    /// gate.
    pub fn finish_update(&mut self, data: Vec<MediaInfo>, now_ms: u64)
        ensures
            final(self).model() == cache_step(
                old(self).model(),
                CacheEvent::Complete(data.deep_view(), now_ms),
            ).0,
    {
        self.data = data;
        self.last_update = Some(now_ms);
        self.is_updating = false;
    }

    /// The stored snapshot. Total: it never waits for a refresh, and before
    /// the first one it returns the empty snapshot.
    pub fn get(&self) -> (r: Vec<MediaInfo>)
        ensures
            r.deep_view() == self.model().snapshot,
    {
        let mut out: Vec<MediaInfo> = Vec::new();
        let n = self.data.len();
        let mut i: usize = 0;
        while i < n
            invariant
                n == self.data@.len(),
                i <= n,
                out@.len() == i,
                forall|j: int| 0 <= j < i ==> out@[j]@ == self.data@[j]@,
            decreases n - i,
        {
            out.push(self.data[i].clone());
            i += 1;
        }
        proof {
            assert(out.deep_view() =~= self.data.deep_view());
        }
        out
    }

    /// The first stored record carrying the given session id, if any.
    pub fn find_by_id(&self, session_id: &str) -> (r: Option<MediaInfo>)
        ensures
            match r {
                Some(m) => spec_find_by_id(self.model().snapshot, session_id@) == Some(m@),
                None => spec_find_by_id(self.model().snapshot, session_id@) is None,
            },
    {
        let target: String = session_id.to_owned();
        let n = self.data.len();
        let mut i: usize = 0;
        proof {
            assert(self.data.deep_view().skip(0) =~= self.data.deep_view());
        }
        while i < n
            invariant
                n == self.data@.len(),
                i <= n,
                target@ == session_id@,
                spec_find_by_id(self.data.deep_view(), session_id@) == spec_find_by_id(
                    self.data.deep_view().skip(i as int),
                    session_id@,
                ),
            decreases n - i,
        {
            proof {
                assert(self.data.deep_view().skip(i as int)[0] == self.data@[i as int]@);
                assert(self.data.deep_view().skip(i as int).drop_first() =~= self.data.deep_view()
                    .skip(i + 1));
            }
            if self.data[i].session_id == target {
                return Some(self.data[i].clone());
            }
            i += 1;
        }
        proof {
            assert(self.data.deep_view().skip(n as int) =~= Seq::<MediaInfoV>::empty());
        }
        None
    }
}

/// Once a refresh has begun, every later attempt to begin one fails until a
/// completion is observed: of any sequence of concurrent `start_update`
/// calls, at most one succeeds per completed refresh.
pub proof fn lemma_single_flight(m: CacheModel, es: Seq<CacheEvent>)
    requires
        m.updating,
        forall|i: int| 0 <= i < es.len() ==> !(#[trigger] es[i] is Complete),
    ensures
        cache_run(m, es).updating,
        !cache_step(cache_run(m, es), CacheEvent::Begin).1,
    decreases es.len(),
{
    if es.len() > 0 {
        assert(es[0] is Begin);
        let m1 = cache_step(m, es[0]).0;
        assert(forall|i: int|
            0 <= i < es.drop_first().len() ==> !(#[trigger] es.drop_first()[i] is Complete));
        lemma_single_flight(m1, es.drop_first());
    }
}

/// How many refresh attempts of a sequence succeed.
pub open spec fn begin_successes(m: CacheModel, es: Seq<CacheEvent>) -> int
    decreases es.len(),
{
    if es.len() == 0 {
        0
    } else {
        (if cache_step(m, es[0]).1 {
            1int
        } else {
            0int
        }) + begin_successes(cache_step(m, es[0]).0, es.drop_first())
    }
}

/// While a refresh is in flight, no attempt of an attempt-only sequence
/// succeeds.
proof fn lemma_no_success_while_updating(m: CacheModel, es: Seq<CacheEvent>)
    requires
        m.updating,
        forall|i: int| 0 <= i < es.len() ==> !(#[trigger] es[i] is Complete),
    ensures
        begin_successes(m, es) == 0,
    decreases es.len(),
{
    if es.len() > 0 {
        assert(es[0] is Begin);
        assert(forall|i: int|
            0 <= i < es.drop_first().len() ==> !(#[trigger] es.drop_first()[i] is Complete));
        lemma_no_success_while_updating(cache_step(m, es[0]).0, es.drop_first());
    }
}

/// Of any sequence of refresh attempts with no completion among them —
/// however they interleave — at most one succeeds.
pub proof fn lemma_at_most_one_success(m: CacheModel, es: Seq<CacheEvent>)
    requires
        forall|i: int| 0 <= i < es.len() ==> !(#[trigger] es[i] is Complete),
    ensures
        begin_successes(m, es) <= 1,
    decreases es.len(),
{
    if es.len() > 0 {
        assert(es[0] is Begin);
        let m1 = cache_step(m, es[0]).0;
        assert(forall|i: int|
            0 <= i < es.drop_first().len() ==> !(#[trigger] es.drop_first()[i] is Complete));
        if cache_step(m, es[0]).1 {
            assert(m1.updating);
            lemma_no_success_while_updating(m1, es.drop_first());
        } else {
            lemma_at_most_one_success(m1, es.drop_first());
        }
    }
}


} // verus!
