//! Value records for audio and media state.
//!
//! Volume scalars are held as integers in permille: `0` is silent and
//! `1000` is full volume. The unit-interval scalar the operating system
//! speaks is converted at the process boundary.

use vstd::prelude::*;

verus! {

/// Full volume, in permille of the unit scalar.
pub const VOLUME_FULL_PERMILLE: u32 = 1000;

/// A point-in-time record of one application's audio session.
#[derive(Debug)]
pub struct AudioSession {
    pub name: String,
    /// Volume in permille of the unit scalar, at most `VOLUME_FULL_PERMILLE`.
    pub volume: u32,
    pub is_muted: bool,
}

/// The mathematical value of an `AudioSession`.
pub struct AudioSessionV {
    pub name: Seq<char>,
    pub volume: u32,
    pub is_muted: bool,
}

impl View for AudioSession {
    type V = AudioSessionV;

    open spec fn view(&self) -> AudioSessionV {
        AudioSessionV { name: self.name@, volume: self.volume, is_muted: self.is_muted }
    }
}

impl DeepView for AudioSession {
    type V = AudioSessionV;

    open spec fn deep_view(&self) -> AudioSessionV {
        self.view()
    }
}

impl AudioSession {
    /// The volume scalar stays inside the unit interval.
    pub open spec fn wf(self) -> bool {
        self.volume <= VOLUME_FULL_PERMILLE
    }
}

/// A point-in-time record of one audio output device.
#[derive(Debug)]
pub struct AudioDevice {
    pub id: String,
    pub name: String,
    pub is_default: bool,
}

/// The mathematical value of an `AudioDevice`.
pub struct AudioDeviceV {
    pub id: Seq<char>,
    pub name: Seq<char>,
    pub is_default: bool,
}

impl View for AudioDevice {
    type V = AudioDeviceV;

    open spec fn view(&self) -> AudioDeviceV {
        AudioDeviceV { id: self.id@, name: self.name@, is_default: self.is_default }
    }
}

impl DeepView for AudioDevice {
    type V = AudioDeviceV;

    open spec fn deep_view(&self) -> AudioDeviceV {
        self.view()
    }
}

/// One media session (player) of the media snapshot.
#[derive(Debug)]
pub struct MediaInfo {
    pub session_id: String,
    pub app_name: String,
    pub title: String,
    pub artist: String,
    pub album: String,
    pub is_playing: bool,
    /// Base64-encoded thumbnail payload, when one has been fetched.
    pub thumbnail: Option<String>,
    pub can_go_next: bool,
    pub can_go_previous: bool,
}

/// The mathematical value of a `MediaInfo`.
pub struct MediaInfoV {
    pub session_id: Seq<char>,
    pub app_name: Seq<char>,
    pub title: Seq<char>,
    pub artist: Seq<char>,
    pub album: Seq<char>,
    pub is_playing: bool,
    pub thumbnail: Option<Seq<char>>,
    pub can_go_next: bool,
    pub can_go_previous: bool,
}

impl View for MediaInfo {
    type V = MediaInfoV;

    open spec fn view(&self) -> MediaInfoV {
        MediaInfoV {
            session_id: self.session_id@,
            app_name: self.app_name@,
            title: self.title@,
            artist: self.artist@,
            album: self.album@,
            is_playing: self.is_playing,
            thumbnail: match self.thumbnail {
                Some(t) => Some(t@),
                None => None,
            },
            can_go_next: self.can_go_next,
            can_go_previous: self.can_go_previous,
        }
    }
}

impl DeepView for MediaInfo {
    type V = MediaInfoV;

    open spec fn deep_view(&self) -> MediaInfoV {
        self.view()
    }
}

impl Clone for AudioSession {
    fn clone(&self) -> (res: Self)
        ensures
            res@ == self@,
    {
        AudioSession { name: self.name.clone(), volume: self.volume, is_muted: self.is_muted }
    }
}

impl Clone for AudioDevice {
    fn clone(&self) -> (res: Self)
        ensures
            res@ == self@,
    {
        AudioDevice { id: self.id.clone(), name: self.name.clone(), is_default: self.is_default }
    }
}

impl Clone for MediaInfo {
    fn clone(&self) -> (res: Self)
        ensures
            res@ == self@,
    {
        MediaInfo {
            session_id: self.session_id.clone(),
            app_name: self.app_name.clone(),
            title: self.title.clone(),
            artist: self.artist.clone(),
            album: self.album.clone(),
            is_playing: self.is_playing,
            thumbnail: match &self.thumbnail {
                Some(t) => Some(t.clone()),
                None => None,
            },
            can_go_next: self.can_go_next,
            can_go_previous: self.can_go_previous,
        }
    }
}

/// Whether two optional strings hold the same text.
pub fn opt_string_eq(a: &Option<String>, b: &Option<String>) -> (r: bool)
    ensures
        r <==> (a.deep_view() == b.deep_view()),
{
    match a {
        Some(x) => match b {
            Some(y) => {
                let r = *x == *y;
                assert(a.deep_view() == Some(x@) && b.deep_view() == Some(y@));
                r
            },
            None => {
                assert(a.deep_view() is Some && b.deep_view() is None);
                false
            },
        },
        None => match b {
            Some(y) => {
                assert(a.deep_view() is None && b.deep_view() is Some);
                false
            },
            None => true,
        },
    }
}

/// Whether two media records hold the same fields.
pub fn media_info_eq(a: &MediaInfo, b: &MediaInfo) -> (r: bool)
    ensures
        r <==> a@ == b@,
{
    let fields = a.session_id == b.session_id && a.app_name == b.app_name && a.title == b.title
        && a.artist == b.artist && a.album == b.album && a.is_playing == b.is_playing
        && a.can_go_next == b.can_go_next && a.can_go_previous == b.can_go_previous;
    let r = fields && opt_string_eq(&a.thumbnail, &b.thumbnail);
    proof {
        if r {
            assert(a@ == b@);
        }
    }
    r
}

/// Whether two media snapshots hold the same sessions in the same order.
pub fn media_list_eq(a: &Vec<MediaInfo>, b: &Vec<MediaInfo>) -> (r: bool)
    ensures
        r <==> a.deep_view() == b.deep_view(),
{
    if a.len() != b.len() {
        assert(a.deep_view().len() == a@.len());
        assert(b.deep_view().len() == b@.len());
        return false;
    }
    let n = a.len();
    let mut i: usize = 0;
    while i < n
        invariant
            n == a@.len() == b@.len(),
            i <= n,
            forall|j: int| 0 <= j < i ==> a@[j]@ == b@[j]@,
        decreases n - i,
    {
        if !media_info_eq(&a[i], &b[i]) {
            assert(a.deep_view()[i as int] == a@[i as int]@);
            assert(b.deep_view()[i as int] == b@[i as int]@);
            return false;
        }
        i += 1;
    }
    assert(a.deep_view() =~= b.deep_view());
    true
}

} // verus!
