//! The wire format of records, arrays and message envelopes.
//!
//! Every message of the protocol is a JSON object with a `type` field
//! and, depending on the kind, a `data` payload or a `message` text.
//! The encoders here write that text directly; their contracts give the
//! exact character sequence produced for every value.

use crate::json::{json_string, spec_json_string, spec_volume_number, volume_number};
use crate::models::{
    AudioDevice, AudioDeviceV, AudioSession, AudioSessionV, MediaInfo, MediaInfoV,
};
use vstd::prelude::*;

verus! {

/// A JSON boolean.
pub open spec fn spec_bool_json(b: bool) -> Seq<char> {
    if b {
        "true"@
    } else {
        "false"@
    }
}

/// An optional JSON string, written as `null` when absent.
pub open spec fn spec_opt_string_json(s: Option<Seq<char>>) -> Seq<char> {
    match s {
        Some(t) => spec_json_string(t),
        None => "null"@,
    }
}

/// One audio session as a JSON object.
pub open spec fn spec_audio_session_json(a: AudioSessionV) -> Seq<char> {
    "{\"name\":"@ + spec_json_string(a.name) + ",\"volume\":"@ + spec_volume_number(
        a.volume as int,
    ) + ",\"is_muted\":"@ + spec_bool_json(a.is_muted) + "}"@
}

/// One audio device as a JSON object.
pub open spec fn spec_audio_device_json(d: AudioDeviceV) -> Seq<char> {
    "{\"id\":"@ + spec_json_string(d.id) + ",\"name\":"@ + spec_json_string(d.name)
        + ",\"is_default\":"@ + spec_bool_json(d.is_default) + "}"@
}

/// One media session as a JSON object.
pub open spec fn spec_media_info_json(m: MediaInfoV) -> Seq<char> {
    "{\"session_id\":"@ + spec_json_string(m.session_id) + ",\"app_name\":"@ + spec_json_string(
        m.app_name,
    ) + ",\"title\":"@ + spec_json_string(m.title) + ",\"artist\":"@ + spec_json_string(m.artist)
        + ",\"album\":"@ + spec_json_string(m.album) + ",\"is_playing\":"@ + spec_bool_json(
        m.is_playing,
    ) + ",\"thumbnail\":"@ + spec_opt_string_json(m.thumbnail) + ",\"can_go_next\":"@
        + spec_bool_json(m.can_go_next) + ",\"can_go_previous\":"@ + spec_bool_json(
        m.can_go_previous,
    ) + "}"@
}

/// The body of a JSON array: the elements joined with commas.
pub open spec fn spec_join(elems: Seq<Seq<char>>) -> Seq<char>
    decreases elems.len(),
{
    if elems.len() == 0 {
        Seq::empty()
    } else if elems.len() == 1 {
        elems[0]
    } else {
        spec_join(elems.drop_last()) + ","@ + elems.last()
    }
}

/// A JSON array of already-encoded elements.
pub open spec fn spec_array_json(elems: Seq<Seq<char>>) -> Seq<char> {
    "["@ + spec_join(elems) + "]"@
}

/// A reply or broadcast that carries a payload:
/// `{"type":"<ty>","data":<data>}`.
pub open spec fn spec_data_response(ty: Seq<char>, data: Seq<char>) -> Seq<char> {
    "{\"type\":\""@ + ty + "\",\"data\":"@ + data + "}"@
}

/// A reply that carries a text: `{"type":"<ty>","message":<text>}`, the
/// text escaped as a JSON string.
pub open spec fn spec_message_response(ty: Seq<char>, message: Seq<char>) -> Seq<char> {
    "{\"type\":\""@ + ty + "\",\"message\":"@ + spec_json_string(message) + "}"@
}

/// An error reply.
pub open spec fn spec_error_response(message: Seq<char>) -> Seq<char> {
    spec_message_response("error"@, message)
}

/// A success reply.
pub open spec fn spec_success_response(message: Seq<char>) -> Seq<char> {
    spec_message_response("success"@, message)
}

/// A JSON boolean.
pub fn bool_json(b: bool) -> (r: String)
    ensures
        r@ == spec_bool_json(b),
{
    let mut out = String::new();
    if b {
        out.append("true");
    } else {
        out.append("false");
    }
    proof {
        assert(out@ =~= spec_bool_json(b));
    }
    out
}

/// One audio session as a JSON object.
pub fn audio_session_json(a: &AudioSession) -> (r: String)
    ensures
        r@ == spec_audio_session_json(a@),
{
    let mut out = String::new();
    out.append("{\"name\":");
    let name = json_string(a.name.as_str());
    out.append(name.as_str());
    out.append(",\"volume\":");
    let vol = volume_number(a.volume);
    out.append(vol.as_str());
    out.append(",\"is_muted\":");
    let muted = bool_json(a.is_muted);
    out.append(muted.as_str());
    out.append("}");
    proof {
        assert(out@ =~= spec_audio_session_json(a@));
    }
    out
}

/// One audio device as a JSON object.
pub fn audio_device_json(d: &AudioDevice) -> (r: String)
    ensures
        r@ == spec_audio_device_json(d@),
{
    let mut out = String::new();
    out.append("{\"id\":");
    let id = json_string(d.id.as_str());
    out.append(id.as_str());
    out.append(",\"name\":");
    let name = json_string(d.name.as_str());
    out.append(name.as_str());
    out.append(",\"is_default\":");
    let def = bool_json(d.is_default);
    out.append(def.as_str());
    out.append("}");
    proof {
        assert(out@ =~= spec_audio_device_json(d@));
    }
    out
}

/// One media session as a JSON object.
pub fn media_info_json(m: &MediaInfo) -> (r: String)
    ensures
        r@ == spec_media_info_json(m@),
{
    let mut out = String::new();
    out.append("{\"session_id\":");
    let sid = json_string(m.session_id.as_str());
    out.append(sid.as_str());
    out.append(",\"app_name\":");
    let app = json_string(m.app_name.as_str());
    out.append(app.as_str());
    out.append(",\"title\":");
    let title = json_string(m.title.as_str());
    out.append(title.as_str());
    out.append(",\"artist\":");
    let artist = json_string(m.artist.as_str());
    out.append(artist.as_str());
    out.append(",\"album\":");
    let album = json_string(m.album.as_str());
    out.append(album.as_str());
    out.append(",\"is_playing\":");
    let playing = bool_json(m.is_playing);
    out.append(playing.as_str());
    out.append(",\"thumbnail\":");
    match &m.thumbnail {
        Some(t) => {
            let th = json_string(t.as_str());
            out.append(th.as_str());
        },
        None => {
            out.append("null");
        },
    }
    out.append(",\"can_go_next\":");
    let next = bool_json(m.can_go_next);
    out.append(next.as_str());
    out.append(",\"can_go_previous\":");
    let prev = bool_json(m.can_go_previous);
    out.append(prev.as_str());
    out.append("}");
    proof {
        assert(out@ =~= spec_media_info_json(m@));
    }
    out
}

/// The audio sessions of a list, each as a JSON object.
pub open spec fn spec_audio_sessions_elems(items: Seq<AudioSessionV>) -> Seq<Seq<char>> {
    items.map_values(|a: AudioSessionV| spec_audio_session_json(a))
}

/// The audio devices of a list, each as a JSON object.
pub open spec fn spec_audio_devices_elems(items: Seq<AudioDeviceV>) -> Seq<Seq<char>> {
    items.map_values(|d: AudioDeviceV| spec_audio_device_json(d))
}

/// The media sessions of a list, each as a JSON object.
pub open spec fn spec_media_infos_elems(items: Seq<MediaInfoV>) -> Seq<Seq<char>> {
    items.map_values(|m: MediaInfoV| spec_media_info_json(m))
}

/// A list of audio sessions as a JSON array.
pub fn audio_sessions_json(items: &Vec<AudioSession>) -> (r: String)
    ensures
        r@ == spec_array_json(spec_audio_sessions_elems(items.deep_view())),
{
    let ghost elems = spec_audio_sessions_elems(items.deep_view());
    let mut out = String::new();
    out.append("[");
    let n = items.len();
    let mut i: usize = 0;
    while i < n
        invariant
            n == items@.len(),
            i <= n,
            elems == spec_audio_sessions_elems(items.deep_view()),
            out@ == "["@ + spec_join(elems.take(i as int)),
        decreases n - i,
    {
        if i > 0 {
            out.append(",");
        }
        let item = audio_session_json(&items[i]);
        out.append(item.as_str());
        proof {
            assert(elems.take(i + 1).drop_last() =~= elems.take(i as int));
            assert(elems.take(i + 1).last() == spec_audio_session_json(items@[i as int]@));
            assert(out@ =~= "["@ + spec_join(elems.take(i + 1)));
        }
        i += 1;
    }
    out.append("]");
    proof {
        assert(elems.take(n as int) =~= elems);
        assert(out@ =~= spec_array_json(elems));
    }
    out
}

/// A list of audio devices as a JSON array.
pub fn audio_devices_json(items: &Vec<AudioDevice>) -> (r: String)
    ensures
        r@ == spec_array_json(spec_audio_devices_elems(items.deep_view())),
{
    let ghost elems = spec_audio_devices_elems(items.deep_view());
    let mut out = String::new();
    out.append("[");
    let n = items.len();
    let mut i: usize = 0;
    while i < n
        invariant
            n == items@.len(),
            i <= n,
            elems == spec_audio_devices_elems(items.deep_view()),
            out@ == "["@ + spec_join(elems.take(i as int)),
        decreases n - i,
    {
        if i > 0 {
            out.append(",");
        }
        let item = audio_device_json(&items[i]);
        out.append(item.as_str());
        proof {
            assert(elems.take(i + 1).drop_last() =~= elems.take(i as int));
            assert(elems.take(i + 1).last() == spec_audio_device_json(items@[i as int]@));
            assert(out@ =~= "["@ + spec_join(elems.take(i + 1)));
        }
        i += 1;
    }
    out.append("]");
    proof {
        assert(elems.take(n as int) =~= elems);
        assert(out@ =~= spec_array_json(elems));
    }
    out
}

/// A list of media sessions as a JSON array.
pub fn media_infos_json(items: &Vec<MediaInfo>) -> (r: String)
    ensures
        r@ == spec_array_json(spec_media_infos_elems(items.deep_view())),
{
    let ghost elems = spec_media_infos_elems(items.deep_view());
    let mut out = String::new();
    out.append("[");
    let n = items.len();
    let mut i: usize = 0;
    while i < n
        invariant
            n == items@.len(),
            i <= n,
            elems == spec_media_infos_elems(items.deep_view()),
            out@ == "["@ + spec_join(elems.take(i as int)),
        decreases n - i,
    {
        if i > 0 {
            out.append(",");
        }
        let item = media_info_json(&items[i]);
        out.append(item.as_str());
        proof {
            assert(elems.take(i + 1).drop_last() =~= elems.take(i as int));
            assert(elems.take(i + 1).last() == spec_media_info_json(items@[i as int]@));
            assert(out@ =~= "["@ + spec_join(elems.take(i + 1)));
        }
        i += 1;
    }
    out.append("]");
    proof {
        assert(elems.take(n as int) =~= elems);
        assert(out@ =~= spec_array_json(elems));
    }
    out
}

/// A reply or broadcast that carries a payload.
pub fn data_response(ty: &str, data: &str) -> (r: String)
    ensures
        r@ == spec_data_response(ty@, data@),
{
    let mut out = String::new();
    out.append("{\"type\":\"");
    out.append(ty);
    out.append("\",\"data\":");
    out.append(data);
    out.append("}");
    proof {
        assert(out@ =~= spec_data_response(ty@, data@));
    }
    out
}

/// A reply that carries a text.
pub fn message_response(ty: &str, message: &str) -> (r: String)
    ensures
        r@ == spec_message_response(ty@, message@),
{
    let mut out = String::new();
    out.append("{\"type\":\"");
    out.append(ty);
    out.append("\",\"message\":");
    let msg = json_string(message);
    out.append(msg.as_str());
    out.append("}");
    proof {
        assert(out@ =~= spec_message_response(ty@, message@));
    }
    out
}

/// An error reply.
pub fn error_response(message: &str) -> (r: String)
    ensures
        r@ == spec_error_response(message@),
{
    message_response("error", message)
}

/// A success reply.
pub fn success_response(message: &str) -> (r: String)
    ensures
        r@ == spec_success_response(message@),
{
    message_response("success", message)
}

} // verus!
