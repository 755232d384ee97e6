//! Media-control decisions: driving the snapshot cache, naming
//! sessions, finding a session by its id, and the play/pause toggle.
//!
//! The blocking provider work — enumerating the operating system's
//! media sessions, pausing or skipping one — happens outside the
//! library. What stands here decides when a refresh begins, which
//! session an id points at, and which transport action a toggle asks
//! for.

use crate::cache::{cache_step, spec_is_stale, CacheEvent, MediaSessionCache};
use crate::json::{spec_digits, u64_to_string};
use crate::models::MediaInfo;
use vstd::prelude::*;

verus! {

/// Serves a read against the cache and decides whether a background
/// refresh must begin. The caller gets the stored snapshot at once —
/// stale or fresh — and begins the provider fetch exactly when the
/// snapshot is stale and no refresh is in flight; `finish_update`
/// closes what this opened.
pub fn plan_media_refresh(cache: &mut MediaSessionCache, now_ms: u64, max_age_ms: u64) -> (r: (
    bool,
    Vec<MediaInfo>,
))
    ensures
        r.1.deep_view() == old(cache).model().snapshot,
        r.0 == (spec_is_stale(old(cache).model().last_update, now_ms, max_age_ms) && !old(
            cache,
        ).model().updating),
        r.0 ==> final(cache).model() == cache_step(old(cache).model(), CacheEvent::Begin).0,
        !r.0 ==> final(cache).model() == old(cache).model(),
{
    if !cache.should_update(now_ms, max_age_ms) {
        return (false, cache.get());
    }
    if !cache.start_update() {
        return (false, cache.get());
    }
    (true, cache.get())
}

/// The leading media session of a snapshot: what `get_media_info`
/// answers with.
pub fn get_media_info(sessions: &Vec<MediaInfo>) -> (r: Option<MediaInfo>)
    ensures
        match r {
            Some(m) => sessions@.len() > 0 && m@ == sessions@[0]@,
            None => sessions@.len() == 0,
        },
{
    if sessions.len() > 0 {
        Some(sessions[0].clone())
    } else {
        None
    }
}

/// The id of the session at one position of the enumeration: its
/// application identity, an underscore, and the position.
pub open spec fn spec_session_id(app_name: Seq<char>, index: int) -> Seq<char> {
    app_name + "_"@ + spec_digits(index)
}

/// The id of the session at one position of the enumeration.
pub fn make_session_id(app_name: &str, index: u64) -> (r: String)
    ensures
        r@ == spec_session_id(app_name@, index as int),
{
    let mut out = String::new();
    out.append(app_name);
    out.append("_");
    let digits = u64_to_string(index);
    out.append(digits.as_str());
    proof {
        assert(out@ =~= spec_session_id(app_name@, index as int));
    }
    out
}

/// The position of the enumerated session a given id points at: the
/// first whose application identity and position write that id.
pub fn find_session_index(app_names: &Vec<String>, session_id: &str) -> (r: Option<usize>)
    ensures
        match r {
            Some(i) => i < app_names@.len() && spec_session_id(app_names@[i as int]@, i as int)
                == session_id@ && (forall|j: int|
                0 <= j < i ==> spec_session_id((#[trigger] app_names@[j])@, j) != session_id@),
            None => forall|j: int|
                0 <= j < app_names@.len() ==> spec_session_id((#[trigger] app_names@[j])@, j)
                    != session_id@,
        },
{
    let n = app_names.len();
    let mut i: usize = 0;
    while i < n
        invariant
            n == app_names@.len(),
            i <= n,
            forall|j: int|
                0 <= j < i ==> spec_session_id((#[trigger] app_names@[j])@, j) != session_id@,
        decreases n - i,
    {
        let candidate = make_session_id(app_names[i].as_str(), i as u64);
        let target = session_id.to_owned();
        if candidate == target {
            return Some(i);
        }
        i += 1;
    }
    None
}

/// The error text of a session id no enumerated session writes; it
/// names the id asked for.
pub open spec fn spec_session_not_found_error(session_id: Seq<char>) -> Seq<char> {
    "找不到會話: "@ + session_id
}

/// The error text of a session id no enumerated session writes.
pub fn session_not_found_error(session_id: &str) -> (r: String)
    ensures
        r@ == spec_session_not_found_error(session_id@),
{
    let mut out = String::new();
    out.append("找不到會話: ");
    out.append(session_id);
    proof {
        assert(out@ =~= spec_session_not_found_error(session_id@));
    }
    out
}

/// What the play/pause toggle asks the transport session for.
#[derive(PartialEq, Eq, Structural, Debug)]
pub enum MediaAction {
    Pause,
    Play,
}

/// The toggle: a playing session is paused, any other is played.
pub fn play_pause_action(is_playing: bool) -> (r: MediaAction)
    ensures
        r == (if is_playing {
            MediaAction::Pause
        } else {
            MediaAction::Play
        }),
{
    if is_playing {
        MediaAction::Pause
    } else {
        MediaAction::Play
    }
}

} // verus!
