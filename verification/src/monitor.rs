//! One step of the change monitor loop.
//!
//! The loop itself sleeps, asks the provider for a fresh snapshot and
//! performs the returned actions; the decision of what to publish is
//! here. A step compares the snapshot with the previous one by its
//! fields: when nothing changed nothing is published; when something
//! changed, one event per session of the new snapshot is published, or a
//! single cleared event when the snapshot emptied. A provider failure
//! changes nothing — the loop runs on.

use crate::models::{media_list_eq, MediaInfo, MediaInfoV};
use crate::wire::{data_response, media_info_json, spec_data_response, spec_media_info_json};
use vstd::prelude::*;

verus! {

/// What the monitor remembers between iterations: the previous
/// snapshot, once one has been seen.
pub struct MonitorState {
    pub last: Option<Vec<MediaInfo>>,
}

/// The mathematical value of a `MonitorState`.
impl View for MonitorState {
    type V = Option<Seq<MediaInfoV>>;

    open spec fn view(&self) -> Option<Seq<MediaInfoV>> {
        match &self.last {
            Some(v) => Some(v.deep_view()),
            None => None,
        }
    }
}

/// One event the monitor publishes.
pub enum MonitorEvent {
    /// A session of the changed snapshot.
    InfoUpdated(MediaInfo),
    /// The snapshot emptied.
    Cleared,
}

/// The mathematical value of a `MonitorEvent`.
pub enum MonitorEventV {
    InfoUpdated(MediaInfoV),
    Cleared,
}

impl View for MonitorEvent {
    type V = MonitorEventV;

    open spec fn view(&self) -> MonitorEventV {
        match self {
            MonitorEvent::InfoUpdated(m) => MonitorEventV::InfoUpdated(m@),
            MonitorEvent::Cleared => MonitorEventV::Cleared,
        }
    }
}

impl DeepView for MonitorEvent {
    type V = MonitorEventV;

    open spec fn deep_view(&self) -> MonitorEventV {
        self.view()
    }
}

/// The events one snapshot publishes against the previous state: none
/// when nothing changed, one per session of the changed snapshot, or one
/// cleared event when a non-empty snapshot emptied.
pub open spec fn spec_monitor_events(
    last: Option<Seq<MediaInfoV>>,
    cur: Seq<MediaInfoV>,
) -> Seq<MonitorEventV> {
    if last == Some(cur) {
        Seq::empty()
    } else if cur.len() > 0 {
        cur.map_values(|m: MediaInfoV| MonitorEventV::InfoUpdated(m))
    } else {
        match last {
            Some(prev) => if prev.len() > 0 {
                seq![MonitorEventV::Cleared]
            } else {
                Seq::empty()
            },
            None => Seq::empty(),
        }
    }
}

/// Whether a letter of `b` (lowercase reference) matches `a` without
/// regard to ASCII case.
pub open spec fn lower_eq(a: char, b: char) -> bool {
    a == b || ('A' <= a && a <= 'Z' && a as int + 32 == b as int)
}

/// Whether `needle` (lowercase reference) stands at position `k` of `s`,
/// without regard to ASCII case.
pub open spec fn matches_at(s: Seq<char>, needle: Seq<char>, k: int) -> bool {
    &&& 0 <= k
    &&& k + needle.len() <= s.len()
    &&& forall|i: int| 0 <= i < needle.len() ==> lower_eq(s[k + i], #[trigger] needle[i])
}

/// Whether `needle` (lowercase reference) occurs in `s`, without regard
/// to ASCII case.
pub open spec fn contains_ci(s: Seq<char>, needle: Seq<char>) -> bool {
    exists|k: int| matches_at(s, needle, k)
}

/// The fixed allow-list of browser identities: an application whose name
/// holds one of these gets its thumbnail fetched off the critical path.
pub open spec fn spec_browser_app(app: Seq<char>) -> bool {
    ||| contains_ci(app, "chrome"@)
    ||| contains_ci(app, "edge"@)
    ||| contains_ci(app, "firefox"@)
    ||| contains_ci(app, "opera"@)
    ||| contains_ci(app, "brave"@)
}

/// The session whose thumbnail a changed snapshot asks for: the leading
/// session, when its application is a browser.
pub open spec fn spec_thumbnail_fetch(
    last: Option<Seq<MediaInfoV>>,
    cur: Seq<MediaInfoV>,
) -> Option<Seq<char>> {
    if last != Some(cur) && cur.len() > 0 && spec_browser_app(cur[0].app_name) {
        Some(cur[0].session_id)
    } else {
        None
    }
}

/// Whether `a` matches `b` without regard to ASCII case, as characters.
fn lower_eq_exec(a: char, b: char) -> (r: bool)
    ensures
        r == lower_eq(a, b),
{
    a == b || ((a as u32) >= 65 && (a as u32) <= 90 && (a as u32) + 32 == (b as u32))
}

/// Whether `needle` (lowercase) occurs in `s`, without regard to ASCII
/// case.
pub fn contains_ci_exec(s: &str, needle: &str) -> (r: bool)
    ensures
        r == contains_ci(s@, needle@),
{
    let n = s.unicode_len();
    let m = needle.unicode_len();
    if m == 0 {
        proof {
            assert(matches_at(s@, needle@, 0));
        }
        return true;
    }
    if m > n {
        proof {
            assert(forall|k: int| !matches_at(s@, needle@, k));
        }
        return false;
    }
    let mut k: usize = 0;
    while k <= n - m
        invariant
            n == s@.len(),
            m == needle@.len(),
            0 < m <= n,
            k <= n - m + 1,
            forall|j: int| 0 <= j < k ==> !matches_at(s@, needle@, j),
        decreases n - m - k + 1,
    {
        let mut i: usize = 0;
        let mut all = true;
        while i < m && all
            invariant
                n == s@.len(),
                m == needle@.len(),
                k + m <= n,
                i <= m,
                all ==> forall|j: int| 0 <= j < i ==> lower_eq(s@[k + j], #[trigger] needle@[j]),
                !all ==> !matches_at(s@, needle@, k as int),
            decreases m - i + (if all {
                1int
            } else {
                0int
            }),
        {
            if !lower_eq_exec(s.get_char(k + i), needle.get_char(i)) {
                all = false;
                proof {
                    assert(!lower_eq(s@[k + i], needle@[i as int]));
                    assert(!matches_at(s@, needle@, k as int));
                }
            } else {
                i += 1;
            }
        }
        if all {
            proof {
                assert(matches_at(s@, needle@, k as int));
            }
            return true;
        }
        k += 1;
    }
    proof {
        assert forall|j: int| !matches_at(s@, needle@, j) by {
            if 0 <= j && j + needle@.len() <= s@.len() {
                assert(j < k);
            }
        }
    }
    false
}

/// Whether the application name belongs to the browser allow-list.
pub fn is_browser_app(app: &str) -> (r: bool)
    ensures
        r == spec_browser_app(app@),
{
    contains_ci_exec(app, "chrome") || contains_ci_exec(app, "edge") || contains_ci_exec(
        app,
        "firefox",
    ) || contains_ci_exec(app, "opera") || contains_ci_exec(app, "brave")
}

/// One iteration's decision: the events to publish, and the session
/// whose thumbnail to fetch off the critical path, if any. A provider
/// error leaves the state as it was and publishes nothing.
pub fn monitor_step(state: &mut MonitorState, fetched: Result<Vec<MediaInfo>, String>) -> (r: (
    Vec<MonitorEvent>,
    Option<String>,
))
    ensures
        match fetched {
            Err(_) => final(state)@ == old(state)@ && r.0@.len() == 0 && r.1 is None,
            Ok(cur) => {
                &&& final(state)@ == Some(cur.deep_view())
                &&& r.0.deep_view() == spec_monitor_events(old(state)@, cur.deep_view())
                &&& (match r.1 {
                    Some(sid) => spec_thumbnail_fetch(old(state)@, cur.deep_view()) == Some(sid@),
                    None => spec_thumbnail_fetch(old(state)@, cur.deep_view()) is None,
                })
            },
        },
{
    let cur = match fetched {
        Err(_) => {
            return (Vec::new(), None);
        },
        Ok(cur) => cur,
    };
    let changed = match &state.last {
        Some(prev) => !media_list_eq(prev, &cur),
        None => true,
    };
    let mut events: Vec<MonitorEvent> = Vec::new();
    let mut fetch: Option<String> = None;
    if changed {
        if cur.len() > 0 {
            let n = cur.len();
            let mut i: usize = 0;
            while i < n
                invariant
                    n == cur@.len(),
                    i <= n,
                    events@.len() == i,
                    forall|j: int|
                        0 <= j < i ==> (#[trigger] events@[j])@ == MonitorEventV::InfoUpdated(
                            cur@[j]@,
                        ),
                decreases n - i,
            {
                events.push(MonitorEvent::InfoUpdated(cur[i].clone()));
                i += 1;
            }
            proof {
                assert(events.deep_view() =~= cur.deep_view().map_values(
                    |m: MediaInfoV| MonitorEventV::InfoUpdated(m),
                ));
            }
            if is_browser_app(cur[0].app_name.as_str()) {
                fetch = Some(cur[0].session_id.clone());
            }
        } else {
            let had = match &state.last {
                Some(prev) => prev.len() > 0,
                None => false,
            };
            if had {
                events.push(MonitorEvent::Cleared);
                proof {
                    assert(events.deep_view() =~= seq![MonitorEventV::Cleared]);
                }
            } else {
                proof {
                    assert(events.deep_view() =~= Seq::<MonitorEventV>::empty());
                }
            }
        }
    } else {
        proof {
            assert(events.deep_view() =~= Seq::<MonitorEventV>::empty());
        }
    }
    state.last = Some(cur);
    (events, fetch)
}

/// The broadcast text of one monitor event.
pub open spec fn spec_encode_monitor_event(e: MonitorEventV) -> Seq<char> {
    match e {
        MonitorEventV::InfoUpdated(m) => spec_data_response(
            "media_info_updated"@,
            spec_media_info_json(m),
        ),
        MonitorEventV::Cleared => "{\"type\":\"media_info_cleared\"}"@,
    }
}

/// The broadcast text of one monitor event.
pub fn encode_monitor_event(e: &MonitorEvent) -> (r: String)
    ensures
        r@ == spec_encode_monitor_event(e@),
{
    match e {
        MonitorEvent::InfoUpdated(m) => {
            let data = media_info_json(m);
            data_response("media_info_updated", data.as_str())
        },
        MonitorEvent::Cleared => {
            let mut out = String::new();
            out.append("{\"type\":\"media_info_cleared\"}");
            proof {
                assert(out@ =~= "{\"type\":\"media_info_cleared\"}"@);
            }
            out
        },
    }
}

/// Change detection (what one step publishes): equal consecutive
/// snapshots publish nothing; a changed snapshot publishes exactly one
/// event per session, or exactly one cleared event when a non-empty
/// snapshot emptied.
pub proof fn lemma_monitor_change_detection(last: Option<Seq<MediaInfoV>>, cur: Seq<MediaInfoV>)
    ensures
        last == Some(cur) ==> spec_monitor_events(last, cur).len() == 0,
        last != Some(cur) && cur.len() > 0 ==> spec_monitor_events(last, cur).len() == cur.len()
            && (forall|j: int|
            0 <= j < cur.len() ==> spec_monitor_events(last, cur)[j]
                == MonitorEventV::InfoUpdated(#[trigger] cur[j])),
        last != Some(cur) && cur.len() == 0 && (match last {
            Some(prev) => prev.len() > 0,
            None => false,
        }) ==> spec_monitor_events(last, cur) == seq![MonitorEventV::Cleared],
{
}

} // verus!
