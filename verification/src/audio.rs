//! Audio-session shaping: the display name of a session, duplicate
//! collapsing, and matching a session by name.
//!
//! The provider enumerates raw sessions as plain values — an executable
//! path, a process id, the volume and the mute flag. Everything that
//! decides how those become the `audio_sessions` list, and which
//! sessions a `set_session_volume` or `set_session_mute` command
//! touches, is here.

use crate::json::spec_digits;
use crate::json::u64_to_string;
use crate::models::{AudioSession, AudioSessionV};
use vstd::prelude::*;

verus! {

/// One enumerated audio session as the provider hands it over.
pub struct RawSession {
    pub path: String,
    pub pid: u32,
    /// Volume in permille of the unit scalar.
    pub volume: u32,
    pub is_muted: bool,
}

/// The mathematical value of a `RawSession`.
pub struct RawSessionV {
    pub path: Seq<char>,
    pub pid: u32,
    pub volume: u32,
    pub is_muted: bool,
}

impl View for RawSession {
    type V = RawSessionV;

    open spec fn view(&self) -> RawSessionV {
        RawSessionV {
            path: self.path@,
            pid: self.pid,
            volume: self.volume,
            is_muted: self.is_muted,
        }
    }
}

impl DeepView for RawSession {
    type V = RawSessionV;

    open spec fn deep_view(&self) -> RawSessionV {
        self.view()
    }
}

/// Whether a character separates path components.
pub open spec fn is_sep(c: char) -> bool {
    c == '/' || c == '\\'
}

/// The index of the last path separator, or a negative value if there
/// is none.
pub open spec fn last_sep(s: Seq<char>) -> int
    decreases s.len(),
{
    if s.len() == 0 {
        -1
    } else if is_sep(s.last()) {
        s.len() - 1
    } else {
        last_sep(s.drop_last())
    }
}

/// The component after the last separator.
pub open spec fn spec_basename(s: Seq<char>) -> Seq<char> {
    s.skip(last_sep(s) + 1)
}

/// The display name of a session: the file name of its path, the whole
/// path when that name is empty or `..`, and `PID <pid>` when there is
/// no path at all.
pub open spec fn spec_display_name(path: Seq<char>, pid: u32) -> Seq<char> {
    if path.len() == 0 {
        "PID "@ + spec_digits(pid as int)
    } else {
        let base = spec_basename(path);
        if base.len() == 0 || base == ".."@ {
            path
        } else {
            base
        }
    }
}

/// `last_sep` stays below every index whose characters are all
/// non-separators from there on.
proof fn lemma_last_sep(s: Seq<char>, k: int)
    requires
        0 <= k <= s.len(),
        forall|j: int| k <= j < s.len() ==> !is_sep(#[trigger] s[j]),
        k == 0 || is_sep(s[k - 1]),
    ensures
        last_sep(s) == k - 1,
    decreases s.len(),
{
    if s.len() > 0 {
        if k == s.len() {
        } else {
            assert(!is_sep(s.last()));
            assert(forall|j: int| k <= j < s.drop_last().len() ==> !is_sep(#[trigger] s.drop_last()[j]));
            if k > 0 {
                assert(s.drop_last()[k - 1] == s[k - 1]);
            }
            lemma_last_sep(s.drop_last(), k);
        }
    }
}

/// The display name of a session.
pub fn display_name(path: &str, pid: u32) -> (r: String)
    ensures
        r@ == spec_display_name(path@, pid),
{
    let n = path.unicode_len();
    if n == 0 {
        let mut out = String::new();
        out.append("PID ");
        let digits = u64_to_string(pid as u64);
        out.append(digits.as_str());
        proof {
            assert(out@ =~= "PID "@ + spec_digits(pid as int));
        }
        return out;
    }
    // find the cut after the last separator
    let mut k: usize = n;
    let mut found = false;
    while k > 0 && !found
        invariant
            n == path@.len(),
            k <= n,
            forall|j: int| k <= j < n ==> !is_sep(#[trigger] path@[j]),
            found ==> k > 0 && is_sep(path@[k - 1]),
        decreases k + (if found {
            0int
        } else {
            1int
        }),
    {
        let c = path.get_char(k - 1);
        if c == '/' || c == '\\' {
            found = true;
        } else {
            k -= 1;
        }
    }
    proof {
        if k > 0 {
            assert(is_sep(path@[k - 1]));
        }
        lemma_last_sep(path@, k as int);
        assert(spec_basename(path@) == path@.skip(k as int));
    }
    let base = path.substring_char(k, n);
    proof {
        assert(base@ =~= path@.skip(k as int));
    }
    let is_dotdot = {
        let b = base.to_owned();
        let dd = String::from_str("..");
        b == dd
    };
    if base.is_empty() || is_dotdot {
        path.to_owned()
    } else {
        base.to_owned()
    }
}

/// Whether a sequence of sessions holds one with the given name.
pub open spec fn contains_name(s: Seq<AudioSessionV>, name: Seq<char>) -> bool {
    exists|i: int| 0 <= i < s.len() && (#[trigger] s[i]).name == name
}

/// The sessions of a list with every repeated name dropped: the first
/// session of each name stays, in order.
pub open spec fn spec_dedup(s: Seq<AudioSessionV>) -> Seq<AudioSessionV>
    decreases s.len(),
{
    if s.len() == 0 {
        Seq::empty()
    } else if contains_name(s.drop_last(), s.last().name) {
        spec_dedup(s.drop_last())
    } else {
        spec_dedup(s.drop_last()).push(s.last())
    }
}

/// Collapsing keeps exactly the names already present.
proof fn lemma_dedup_names(s: Seq<AudioSessionV>, name: Seq<char>)
    ensures
        contains_name(spec_dedup(s), name) == contains_name(s, name),
    decreases s.len(),
{
    if s.len() > 0 {
        lemma_dedup_names(s.drop_last(), name);
        if contains_name(s.drop_last(), s.last().name) {
            if contains_name(s, name) && !contains_name(s.drop_last(), name) {
                let i = choose|i: int| 0 <= i < s.len() && (#[trigger] s[i]).name == name;
                if i < s.len() - 1 {
                    assert(s.drop_last()[i] == s[i]);
                    assert(contains_name(s.drop_last(), name));
                } else {
                    assert(s.last().name == name);
                    assert(contains_name(s.drop_last(), name));
                }
            }
        } else {
            let d = spec_dedup(s.drop_last());
            if contains_name(s, name) {
                let i = choose|i: int| 0 <= i < s.len() && (#[trigger] s[i]).name == name;
                if i < s.len() - 1 {
                    assert(s.drop_last()[i] == s[i]);
                    assert(contains_name(d, name));
                    let j = choose|j: int| 0 <= j < d.len() && (#[trigger] d[j]).name == name;
                    assert(d.push(s.last())[j] == d[j]);
                } else {
                    assert(d.push(s.last()).last() == s.last());
                }
            }
            if contains_name(spec_dedup(s), name) {
                let j = choose|j: int|
                    0 <= j < d.push(s.last()).len() && (#[trigger] d.push(s.last())[j]).name
                        == name;
                if j < d.len() {
                    assert(d[j].name == name);
                } else {
                    assert(d.push(s.last())[j] == s.last());
                    assert(s[s.len() - 1].name == name);
                }
            }
        }
    }
}

/// The mathematical sessions that a raw enumeration shapes into.
pub open spec fn spec_shaped(raw: Seq<RawSessionV>) -> Seq<AudioSessionV> {
    raw.map_values(
        |r: RawSessionV| AudioSessionV {
            name: spec_display_name(r.path, r.pid),
            volume: r.volume,
            is_muted: r.is_muted,
        },
    )
}

/// The `audio_sessions` list of a raw enumeration: each session named,
/// repeated names collapsed to their first session.
pub fn build_audio_sessions(raw: &Vec<RawSession>) -> (r: Vec<AudioSession>)
    ensures
        r.deep_view() == spec_dedup(spec_shaped(raw.deep_view())),
{
    let ghost shaped = spec_shaped(raw.deep_view());
    let mut out: Vec<AudioSession> = Vec::new();
    let n = raw.len();
    let mut i: usize = 0;
    proof {
        assert(shaped.take(0) =~= Seq::<AudioSessionV>::empty());
        assert(out.deep_view() =~= spec_dedup(shaped.take(0)));
    }
    while i < n
        invariant
            n == raw@.len(),
            i <= n,
            shaped == spec_shaped(raw.deep_view()),
            out.deep_view() == spec_dedup(shaped.take(i as int)),
        decreases n - i,
    {
        let name = display_name(raw[i].path.as_str(), raw[i].pid);
        proof {
            assert(shaped.take(i + 1).drop_last() =~= shaped.take(i as int));
            assert(shaped.take(i + 1).last() == shaped[i as int]);
            assert(shaped[i as int].name == name@);
        }
        let mut seen = false;
        let m = out.len();
        let mut j: usize = 0;
        while j < m && !seen
            invariant
                m == out@.len(),
                j <= m,
                seen ==> contains_name(out.deep_view(), name@),
                !seen ==> forall|t: int| 0 <= t < j ==> (#[trigger] out@[t])@.name != name@,
            decreases m - j + (if seen {
                0int
            } else {
                1int
            }),
        {
            if out[j].name == name {
                seen = true;
                proof {
                    assert(out.deep_view()[j as int].name == name@);
                }
            } else {
                j += 1;
            }
        }
        proof {
            if !seen {
                assert forall|t: int| 0 <= t < out.deep_view().len() implies (#[trigger]
                out.deep_view()[t]).name != name@ by {
                    assert(out.deep_view()[t] == out@[t]@);
                }
            }
            lemma_dedup_names(shaped.take(i as int), name@);
            assert(seen == contains_name(shaped.take(i as int), shaped[i as int].name));
        }
        if !seen {
            out.push(
                AudioSession { name, volume: raw[i].volume, is_muted: raw[i].is_muted },
            );
            proof {
                assert(out.deep_view() =~= spec_dedup(shaped.take(i as int)).push(
                    shaped[i as int],
                ));
            }
        }
        i += 1;
    }
    proof {
        assert(shaped.take(n as int) =~= shaped);
    }
    out
}

/// Whether one raw session answers to the given display name.
pub fn session_name_matches(raw: &RawSession, session_name: &str) -> (r: bool)
    ensures
        r == (spec_display_name(raw@.path, raw@.pid) == session_name@),
{
    let name = display_name(raw.path.as_str(), raw.pid);
    let target = session_name.to_owned();
    name == target
}

/// Whether any raw session answers to the given display name: the
/// condition under which `set_session_volume` and `set_session_mute`
/// succeed.
pub fn any_session_matches(raw: &Vec<RawSession>, session_name: &str) -> (r: bool)
    ensures
        r == (exists|i: int|
            0 <= i < raw@.len() && spec_display_name(
                (#[trigger] raw@[i])@.path,
                raw@[i]@.pid,
            ) == session_name@),
{
    let n = raw.len();
    let mut i: usize = 0;
    while i < n
        invariant
            n == raw@.len(),
            i <= n,
            forall|t: int|
                0 <= t < i ==> spec_display_name((#[trigger] raw@[t])@.path, raw@[t]@.pid)
                    != session_name@,
        decreases n - i,
    {
        if session_name_matches(&raw[i], session_name) {
            return true;
        }
        i += 1;
    }
    false
}

/// The error text of a session-targeting command whose name no session
/// answers to; it names the session asked for.
pub open spec fn spec_not_found_error(name: Seq<char>) -> Seq<char> {
    "找不到: '"@ + name + "'"@
}

/// The error text of a session-targeting command whose name no session
/// answers to.
pub fn not_found_error(name: &str) -> (r: String)
    ensures
        r@ == spec_not_found_error(name@),
{
    let mut out = String::new();
    out.append("找不到: '");
    out.append(name);
    out.append("'");
    proof {
        assert(out@ =~= spec_not_found_error(name@));
    }
    out
}

/// Whether the session at one position answers to the name.
pub open spec fn spec_name_matches(raw: Seq<RawSessionV>, j: int, name: Seq<char>) -> bool {
    spec_display_name(raw[j].path, raw[j].pid) == name
}

/// The sessions a `set_session_volume` or `set_session_mute` command
/// touches: every position whose display name is the one asked for, in
/// order. When none answers, the command fails with the error text that
/// names the session.
pub fn set_session_targets(raw: &Vec<RawSession>, session_name: &str) -> (r: Result<
    Vec<usize>,
    String,
>)
    ensures
        match r {
            Ok(targets) => {
                &&& targets@.len() > 0
                &&& forall|t: int|
                    0 <= t < targets@.len() ==> (#[trigger] targets@[t]) < raw@.len()
                        && spec_name_matches(raw.deep_view(), targets@[t] as int, session_name@)
                &&& forall|j: int|
                    0 <= j < raw@.len() && spec_name_matches(raw.deep_view(), j, session_name@)
                        ==> exists|t: int|
                        0 <= t < targets@.len() && (#[trigger] targets@[t]) == j
            },
            Err(e) => {
                &&& forall|j: int|
                    0 <= j < raw@.len() ==> !spec_name_matches(raw.deep_view(), j, session_name@)
                &&& e@ == spec_not_found_error(session_name@)
            },
        },
{
    let mut targets: Vec<usize> = Vec::new();
    let n = raw.len();
    let mut i: usize = 0;
    while i < n
        invariant
            n == raw@.len(),
            i <= n,
            forall|t: int|
                0 <= t < targets@.len() ==> (#[trigger] targets@[t]) < i
                    && spec_name_matches(raw.deep_view(), targets@[t] as int, session_name@),
            forall|j: int|
                0 <= j < i && spec_name_matches(raw.deep_view(), j, session_name@)
                    ==> exists|t: int| 0 <= t < targets@.len() && (#[trigger] targets@[t]) == j,
        decreases n - i,
    {
        if session_name_matches(&raw[i], session_name) {
            let ghost before = targets@;
            targets.push(i);
            proof {
                assert(raw.deep_view()[i as int] == raw@[i as int]@);
                assert(targets@[targets@.len() - 1] == i);
                assert(forall|t: int|
                    0 <= t < before.len() ==> targets@[t] == (#[trigger] before[t]));
            }
        } else {
            proof {
                assert(raw.deep_view()[i as int] == raw@[i as int]@);
            }
        }
        i += 1;
    }
    if targets.len() == 0 {
        proof {
            assert forall|j: int|
                0 <= j < raw@.len() implies !spec_name_matches(
                raw.deep_view(),
                j,
                session_name@,
            ) by {
                if spec_name_matches(raw.deep_view(), j, session_name@) {
                    let t = choose|t: int|
                        0 <= t < targets@.len() && (#[trigger] targets@[t]) == j;
                }
            }
        }
        Err(not_found_error(session_name))
    } else {
        Ok(targets)
    }
}


} // verus!
