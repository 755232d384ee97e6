//! The message dispatcher: decode a command from an inbound text,
//! choose the operation, and encode the reply.
//!
//! An inbound text that is not JSON is answered with an error reply. A
//! JSON object without a string `type` field, and a known command whose
//! required `data` fields are missing or wrongly typed, are dropped
//! without a reply. An unknown `type` is answered with an error reply
//! naming it. Decoding leans on `serde_json` behind the trusted items
//! below; everything after the decode is verified.
//!
//! A command itself is carried out against the operating-system provider
//! outside the library; each `handle_*` function takes that provider
//! outcome and encodes the reply the original command gets.

use crate::json::{
    json_string, parse_volume, spec_json_string, spec_parse_volume, spec_volume_number,
    volume_number,
};
use crate::models::{AudioDevice, AudioSession, MediaInfo};
use crate::wire::{
    audio_devices_json, audio_sessions_json, bool_json, data_response, error_response,
    media_info_json, media_infos_json, spec_array_json, spec_audio_devices_elems,
    spec_audio_sessions_elems, spec_bool_json, spec_data_response, spec_error_response,
    spec_media_info_json, spec_media_infos_elems, spec_success_response, success_response,
};
use vstd::prelude::*;

verus! {

/// What the `type` field of an inbound text holds: the parse error's
/// text when the text is not JSON, else the field's text when it is a
/// string.
pub uninterp spec fn json_type_of(s: Seq<char>) -> Result<Option<Seq<char>>, Seq<char>>;

/// What a string field of the `data` object of an inbound text holds.
pub uninterp spec fn json_data_str_of(s: Seq<char>, key: Seq<char>) -> Option<Seq<char>>;

/// What a boolean field of the `data` object of an inbound text holds.
pub uninterp spec fn json_data_bool_of(s: Seq<char>, key: Seq<char>) -> Option<bool>;

/// The decimal text of a number field of the `data` object of an
/// inbound text.
pub uninterp spec fn json_data_number_of(s: Seq<char>, key: Seq<char>) -> Option<Seq<char>>;

/// Relies on `serde_json::from_str`, `serde_json::Value::get` and
/// `serde_json::Value::as_str`: `Err` carries the parse error's debug
/// text when `text` is not JSON; `Ok` carries the `type` field's text
/// when the parsed value has one and it is a string.
#[verifier::external_body]
fn decode_type(text: &str) -> (r: Result<Option<String>, String>)
    ensures
        match r {
            Ok(Some(t)) => json_type_of(text@) == Ok::<Option<Seq<char>>, Seq<char>>(Some(t@)),
            Ok(None) => json_type_of(text@) == Ok::<Option<Seq<char>>, Seq<char>>(None),
            Err(e) => json_type_of(text@) == Err::<Option<Seq<char>>, Seq<char>>(e@),
        },
{
    match serde_json::from_str::<serde_json::Value>(text) {
        Ok(v) => Ok(v.get("type").and_then(|t| t.as_str()).map(|t| t.to_string())),
        Err(e) => Err(format!("{:?}", e)),
    }
}

/// Relies on `serde_json::from_str`, `serde_json::Value::get` and
/// `serde_json::Value::as_str`: the named field of the `data` object,
/// when the text parses and the field is a string.
#[verifier::external_body]
fn decode_data_str(text: &str, key: &str) -> (r: Option<String>)
    ensures
        match r {
            Some(v) => json_data_str_of(text@, key@) == Some(v@),
            None => json_data_str_of(text@, key@) is None,
        },
{
    let v: serde_json::Value = serde_json::from_str(text).ok()?;
    v.get("data").and_then(|d| d.get(key)).and_then(|x| x.as_str()).map(|x| x.to_string())
}

/// Relies on `serde_json::from_str`, `serde_json::Value::get` and
/// `serde_json::Value::as_bool`: the named field of the `data` object,
/// when the text parses and the field is a boolean.
#[verifier::external_body]
fn decode_data_bool(text: &str, key: &str) -> (r: Option<bool>)
    ensures
        r == json_data_bool_of(text@, key@),
{
    let v: serde_json::Value = serde_json::from_str(text).ok()?;
    v.get("data").and_then(|d| d.get(key)).and_then(|x| x.as_bool())
}

/// Relies on `serde_json::from_str`, `serde_json::Value::get`,
/// `serde_json::Value::as_number` and `serde_json::Number`'s text form:
/// the decimal text of the named field of the `data` object, when the
/// text parses and the field is a number.
#[verifier::external_body]
fn decode_data_number(text: &str, key: &str) -> (r: Option<String>)
    ensures
        match r {
            Some(v) => json_data_number_of(text@, key@) == Some(v@),
            None => json_data_number_of(text@, key@) is None,
        },
{
    let v: serde_json::Value = serde_json::from_str(text).ok()?;
    v.get("data").and_then(|d| d.get(key)).and_then(|x| x.as_number()).map(|n| n.to_string())
}

/// One decoded command of the protocol.
pub enum Command {
    GetAudioSessions,
    SetSessionVolume { session_name: String, volume: u32 },
    SetSessionMute { session_name: String, mute: bool },
    GetAudioDevices,
    SetDefaultDevice { device_id: String },
    GetDefaultDeviceVolume,
    SetDefaultDeviceVolume { volume: u32 },
    GetDefaultDeviceMute,
    SetDefaultDeviceMute { mute: bool },
    GetAllMediaSessions,
    GetMediaInfo,
    GetMediaThumbnail { session_id: Option<String> },
    MediaPlayPause { session_id: Option<String> },
    MediaNext { session_id: Option<String> },
    MediaPrevious { session_id: Option<String> },
}

/// The mathematical value of a `Command`.
pub enum CommandV {
    GetAudioSessions,
    SetSessionVolume { session_name: Seq<char>, volume: u32 },
    SetSessionMute { session_name: Seq<char>, mute: bool },
    GetAudioDevices,
    SetDefaultDevice { device_id: Seq<char> },
    GetDefaultDeviceVolume,
    SetDefaultDeviceVolume { volume: u32 },
    GetDefaultDeviceMute,
    SetDefaultDeviceMute { mute: bool },
    GetAllMediaSessions,
    GetMediaInfo,
    GetMediaThumbnail { session_id: Option<Seq<char>> },
    MediaPlayPause { session_id: Option<Seq<char>> },
    MediaNext { session_id: Option<Seq<char>> },
    MediaPrevious { session_id: Option<Seq<char>> },
}

impl View for Command {
    type V = CommandV;

    open spec fn view(&self) -> CommandV {
        match self {
            Command::GetAudioSessions => CommandV::GetAudioSessions,
            Command::SetSessionVolume { session_name, volume } => CommandV::SetSessionVolume {
                session_name: session_name@,
                volume: *volume,
            },
            Command::SetSessionMute { session_name, mute } => CommandV::SetSessionMute {
                session_name: session_name@,
                mute: *mute,
            },
            Command::GetAudioDevices => CommandV::GetAudioDevices,
            Command::SetDefaultDevice { device_id } => CommandV::SetDefaultDevice {
                device_id: device_id@,
            },
            Command::GetDefaultDeviceVolume => CommandV::GetDefaultDeviceVolume,
            Command::SetDefaultDeviceVolume { volume } => CommandV::SetDefaultDeviceVolume {
                volume: *volume,
            },
            Command::GetDefaultDeviceMute => CommandV::GetDefaultDeviceMute,
            Command::SetDefaultDeviceMute { mute } => CommandV::SetDefaultDeviceMute {
                mute: *mute,
            },
            Command::GetAllMediaSessions => CommandV::GetAllMediaSessions,
            Command::GetMediaInfo => CommandV::GetMediaInfo,
            Command::GetMediaThumbnail { session_id } => CommandV::GetMediaThumbnail {
                session_id: match session_id {
                    Some(s) => Some(s@),
                    None => None,
                },
            },
            Command::MediaPlayPause { session_id } => CommandV::MediaPlayPause {
                session_id: match session_id {
                    Some(s) => Some(s@),
                    None => None,
                },
            },
            Command::MediaNext { session_id } => CommandV::MediaNext {
                session_id: match session_id {
                    Some(s) => Some(s@),
                    None => None,
                },
            },
            Command::MediaPrevious { session_id } => CommandV::MediaPrevious {
                session_id: match session_id {
                    Some(s) => Some(s@),
                    None => None,
                },
            },
        }
    }
}

/// What the dispatcher decides for one inbound text.
pub enum MessageAction {
    /// The text is dropped without a reply.
    NoReply,
    /// The reply is fixed by the text alone.
    Reply(String),
    /// A command for the provider; the reply follows from its outcome.
    Invoke(Command),
}

/// The mathematical value of a `MessageAction`.
pub enum MessageActionV {
    NoReply,
    Reply(Seq<char>),
    Invoke(CommandV),
}

impl View for MessageAction {
    type V = MessageActionV;

    open spec fn view(&self) -> MessageActionV {
        match self {
            MessageAction::NoReply => MessageActionV::NoReply,
            MessageAction::Reply(s) => MessageActionV::Reply(s@),
            MessageAction::Invoke(c) => MessageActionV::Invoke(c@),
        }
    }
}

/// The reply to a text that is not JSON.
pub open spec fn spec_parse_error_reply(detail: Seq<char>) -> Seq<char> {
    spec_error_response("無法解析訊息: "@ + detail)
}

/// The reply to a JSON object whose `type` no command carries.
pub open spec fn spec_unknown_type_reply(ty: Seq<char>) -> Seq<char> {
    spec_error_response("未知的消息類型: "@ + ty)
}

/// An optional session id taken from `data`, present or not.
pub open spec fn spec_opt_session_id(s: Seq<char>) -> Option<Seq<char>> {
    json_data_str_of(s, "session_id"@)
}

/// What the dispatcher decides for an inbound text, by its decoded
/// fields.
pub open spec fn spec_handle_message(s: Seq<char>) -> MessageActionV {
    match json_type_of(s) {
        Err(detail) => MessageActionV::Reply(spec_parse_error_reply(detail)),
        Ok(None) => MessageActionV::NoReply,
        Ok(Some(ty)) => spec_dispatch(s, ty),
    }
}

/// The command, reply or silence that a well-formed envelope with the
/// given `type` field maps to.
pub open spec fn spec_dispatch(s: Seq<char>, ty: Seq<char>) -> MessageActionV {
    if ty == "get_audio_sessions"@ {
        MessageActionV::Invoke(CommandV::GetAudioSessions)
    } else if ty == "set_session_volume"@ {
        match (json_data_str_of(s, "session_name"@), json_data_number_of(s, "volume"@)) {
            (Some(name), Some(num)) => match spec_parse_volume(num) {
                Some(v) => MessageActionV::Invoke(
                    CommandV::SetSessionVolume { session_name: name, volume: v },
                ),
                None => MessageActionV::NoReply,
            },
            _ => MessageActionV::NoReply,
        }
    } else if ty == "set_session_mute"@ {
        match (json_data_str_of(s, "session_name"@), json_data_bool_of(s, "mute"@)) {
            (Some(name), Some(m)) => MessageActionV::Invoke(
                CommandV::SetSessionMute { session_name: name, mute: m },
            ),
            _ => MessageActionV::NoReply,
        }
    } else if ty == "get_audio_devices"@ {
        MessageActionV::Invoke(CommandV::GetAudioDevices)
    } else if ty == "set_default_device"@ {
        match json_data_str_of(s, "device_id"@) {
            Some(id) => MessageActionV::Invoke(CommandV::SetDefaultDevice { device_id: id }),
            None => MessageActionV::NoReply,
        }
    } else if ty == "get_default_device_volume"@ {
        MessageActionV::Invoke(CommandV::GetDefaultDeviceVolume)
    } else if ty == "set_default_device_volume"@ {
        match json_data_number_of(s, "volume"@) {
            Some(num) => match spec_parse_volume(num) {
                Some(v) => MessageActionV::Invoke(CommandV::SetDefaultDeviceVolume { volume: v }),
                None => MessageActionV::NoReply,
            },
            None => MessageActionV::NoReply,
        }
    } else if ty == "get_default_device_mute"@ {
        MessageActionV::Invoke(CommandV::GetDefaultDeviceMute)
    } else if ty == "set_default_device_mute"@ {
        match json_data_bool_of(s, "mute"@) {
            Some(m) => MessageActionV::Invoke(CommandV::SetDefaultDeviceMute { mute: m }),
            None => MessageActionV::NoReply,
        }
    } else if ty == "get_all_media_sessions"@ {
        MessageActionV::Invoke(CommandV::GetAllMediaSessions)
    } else if ty == "get_media_info"@ {
        MessageActionV::Invoke(CommandV::GetMediaInfo)
    } else if ty == "get_media_thumbnail"@ {
        MessageActionV::Invoke(
            CommandV::GetMediaThumbnail { session_id: spec_opt_session_id(s) },
        )
    } else if ty == "media_play_pause"@ {
        MessageActionV::Invoke(CommandV::MediaPlayPause { session_id: spec_opt_session_id(s) })
    } else if ty == "media_next"@ {
        MessageActionV::Invoke(CommandV::MediaNext { session_id: spec_opt_session_id(s) })
    } else if ty == "media_previous"@ {
        MessageActionV::Invoke(CommandV::MediaPrevious { session_id: spec_opt_session_id(s) })
    } else {
        MessageActionV::Reply(spec_unknown_type_reply(ty))
    }
}

/// Whether two texts hold the same characters.
pub fn str_eq(a: &str, b: &str) -> (r: bool)
    ensures
        r == (a@ == b@),
{
    let sa = a.to_owned();
    let sb = b.to_owned();
    sa == sb
}

/// One text after another.
pub fn concat_str(prefix: &str, rest: &str) -> (r: String)
    ensures
        r@ == prefix@ + rest@,
{
    let mut out = String::new();
    out.append(prefix);
    out.append(rest);
    proof {
        assert(out@ =~= prefix@ + rest@);
    }
    out
}

/// Decides what an inbound text gets: silence, a fixed reply, or a
/// command for the provider. A text that is not JSON is answered with a
/// parse-error reply; a missing or non-string `type`, and a known
/// command whose required fields are absent, get silence; an unknown
/// `type` is answered with an error reply that names it.
pub fn handle_message(text: &str) -> (r: MessageAction)
    ensures
        r@ == spec_handle_message(text@),
{
    match decode_type(text) {
        Err(detail) => {
            let msg = concat_str("無法解析訊息: ", detail.as_str());
            MessageAction::Reply(error_response(msg.as_str()))
        },
        Ok(None) => MessageAction::NoReply,
        Ok(Some(ty)) => dispatch(text, ty.as_str()),
    }
}

/// The dispatch step of `handle_message`, once a `type` text is in hand.
fn dispatch(text: &str, ty: &str) -> (r: MessageAction)
    ensures
        r@ == spec_dispatch(text@, ty@),
{
    if str_eq(ty, "get_audio_sessions") {
        MessageAction::Invoke(Command::GetAudioSessions)
    } else if str_eq(ty, "set_session_volume") {
        match (decode_data_str(text, "session_name"), decode_data_number(text, "volume")) {
            (Some(name), Some(num)) => match parse_volume(num.as_str()) {
                Some(v) => MessageAction::Invoke(
                    Command::SetSessionVolume { session_name: name, volume: v },
                ),
                None => MessageAction::NoReply,
            },
            _ => MessageAction::NoReply,
        }
    } else if str_eq(ty, "set_session_mute") {
        match (decode_data_str(text, "session_name"), decode_data_bool(text, "mute")) {
            (Some(name), Some(m)) => MessageAction::Invoke(
                Command::SetSessionMute { session_name: name, mute: m },
            ),
            _ => MessageAction::NoReply,
        }
    } else if str_eq(ty, "get_audio_devices") {
        MessageAction::Invoke(Command::GetAudioDevices)
    } else if str_eq(ty, "set_default_device") {
        match decode_data_str(text, "device_id") {
            Some(id) => MessageAction::Invoke(Command::SetDefaultDevice { device_id: id }),
            None => MessageAction::NoReply,
        }
    } else if str_eq(ty, "get_default_device_volume") {
        MessageAction::Invoke(Command::GetDefaultDeviceVolume)
    } else if str_eq(ty, "set_default_device_volume") {
        match decode_data_number(text, "volume") {
            Some(num) => match parse_volume(num.as_str()) {
                Some(v) => MessageAction::Invoke(Command::SetDefaultDeviceVolume { volume: v }),
                None => MessageAction::NoReply,
            },
            None => MessageAction::NoReply,
        }
    } else if str_eq(ty, "get_default_device_mute") {
        MessageAction::Invoke(Command::GetDefaultDeviceMute)
    } else if str_eq(ty, "set_default_device_mute") {
        match decode_data_bool(text, "mute") {
            Some(m) => MessageAction::Invoke(Command::SetDefaultDeviceMute { mute: m }),
            None => MessageAction::NoReply,
        }
    } else if str_eq(ty, "get_all_media_sessions") {
        MessageAction::Invoke(Command::GetAllMediaSessions)
    } else if str_eq(ty, "get_media_info") {
        MessageAction::Invoke(Command::GetMediaInfo)
    } else if str_eq(ty, "get_media_thumbnail") {
        MessageAction::Invoke(
            Command::GetMediaThumbnail { session_id: decode_data_str(text, "session_id") },
        )
    } else if str_eq(ty, "media_play_pause") {
        MessageAction::Invoke(
            Command::MediaPlayPause { session_id: decode_data_str(text, "session_id") },
        )
    } else if str_eq(ty, "media_next") {
        MessageAction::Invoke(
            Command::MediaNext { session_id: decode_data_str(text, "session_id") },
        )
    } else if str_eq(ty, "media_previous") {
        MessageAction::Invoke(
            Command::MediaPrevious { session_id: decode_data_str(text, "session_id") },
        )
    } else {
        let msg = concat_str("未知的消息類型: ", ty);
        MessageAction::Reply(error_response(msg.as_str()))
    }
}

/// The reply to `get_audio_sessions`, given the provider's outcome.
pub fn handle_get_audio_sessions(result: Result<Vec<AudioSession>, String>) -> (r: String)
    ensures
        match result {
            Ok(sessions) => r@ == spec_data_response(
                "audio_sessions"@,
                spec_array_json(spec_audio_sessions_elems(sessions.deep_view())),
            ),
            Err(e) => r@ == spec_error_response(e@),
        },
{
    match result {
        Ok(sessions) => {
            let data = audio_sessions_json(&sessions);
            data_response("audio_sessions", data.as_str())
        },
        Err(e) => error_response(e.as_str()),
    }
}

/// The reply to `set_session_volume`, given the provider's outcome.
pub fn handle_set_session_volume(result: Result<(), String>) -> (r: String)
    ensures
        match result {
            Ok(_) => r@ == spec_success_response("音量設定成功"@),
            Err(e) => r@ == spec_error_response(e@),
        },
{
    match result {
        Ok(_) => success_response("音量設定成功"),
        Err(e) => error_response(e.as_str()),
    }
}

/// The reply to `set_session_mute`, given the provider's outcome.
pub fn handle_set_session_mute(result: Result<(), String>) -> (r: String)
    ensures
        match result {
            Ok(_) => r@ == spec_success_response("靜音設定成功"@),
            Err(e) => r@ == spec_error_response(e@),
        },
{
    match result {
        Ok(_) => success_response("靜音設定成功"),
        Err(e) => error_response(e.as_str()),
    }
}

/// The reply to `get_audio_devices`, given the provider's outcome.
pub fn handle_get_audio_devices(result: Result<Vec<AudioDevice>, String>) -> (r: String)
    ensures
        match result {
            Ok(devices) => r@ == spec_data_response(
                "audio_devices"@,
                spec_array_json(spec_audio_devices_elems(devices.deep_view())),
            ),
            Err(e) => r@ == spec_error_response(e@),
        },
{
    match result {
        Ok(devices) => {
            let data = audio_devices_json(&devices);
            data_response("audio_devices", data.as_str())
        },
        Err(e) => error_response(e.as_str()),
    }
}

/// The reply to `set_default_device`, given the provider's outcome.
pub fn handle_set_default_device(result: Result<(), String>) -> (r: String)
    ensures
        match result {
            Ok(_) => r@ == spec_success_response("預設裝置設定成功"@),
            Err(e) => r@ == spec_error_response(e@),
        },
{
    match result {
        Ok(_) => success_response("預設裝置設定成功"),
        Err(e) => error_response(e.as_str()),
    }
}

/// The reply to `get_default_device_volume`, given the provider's
/// outcome: the volume as a JSON number in the unit interval.
pub fn handle_get_default_device_volume(result: Result<u32, String>) -> (r: String)
    ensures
        match result {
            Ok(v) => r@ == spec_data_response(
                "default_device_volume"@,
                spec_volume_number(v as int),
            ),
            Err(e) => r@ == spec_error_response(e@),
        },
{
    match result {
        Ok(v) => {
            let data = volume_number(v);
            data_response("default_device_volume", data.as_str())
        },
        Err(e) => error_response(e.as_str()),
    }
}

/// The reply to `set_default_device_volume`, given the provider's
/// outcome.
pub fn handle_set_default_device_volume(result: Result<(), String>) -> (r: String)
    ensures
        match result {
            Ok(_) => r@ == spec_success_response("預設裝置音量設定成功"@),
            Err(e) => r@ == spec_error_response(e@),
        },
{
    match result {
        Ok(_) => success_response("預設裝置音量設定成功"),
        Err(e) => error_response(e.as_str()),
    }
}

/// The reply to `get_default_device_mute`, given the provider's outcome.
pub fn handle_get_default_device_mute(result: Result<bool, String>) -> (r: String)
    ensures
        match result {
            Ok(m) => r@ == spec_data_response("default_device_mute"@, spec_bool_json(m)),
            Err(e) => r@ == spec_error_response(e@),
        },
{
    match result {
        Ok(m) => {
            let data = bool_json(m);
            data_response("default_device_mute", data.as_str())
        },
        Err(e) => error_response(e.as_str()),
    }
}

/// The reply to `set_default_device_mute`, given the provider's outcome.
pub fn handle_set_default_device_mute(result: Result<(), String>) -> (r: String)
    ensures
        match result {
            Ok(_) => r@ == spec_success_response("預設裝置靜音設定成功"@),
            Err(e) => r@ == spec_error_response(e@),
        },
{
    match result {
        Ok(_) => success_response("預設裝置靜音設定成功"),
        Err(e) => error_response(e.as_str()),
    }
}

/// The reply to `get_all_media_sessions`, given the provider's outcome.
pub fn handle_get_all_media_sessions(result: Result<Vec<MediaInfo>, String>) -> (r: String)
    ensures
        match result {
            Ok(sessions) => r@ == spec_data_response(
                "all_media_sessions"@,
                spec_array_json(spec_media_infos_elems(sessions.deep_view())),
            ),
            Err(e) => r@ == spec_error_response(e@),
        },
{
    match result {
        Ok(sessions) => {
            let data = media_infos_json(&sessions);
            data_response("all_media_sessions", data.as_str())
        },
        Err(e) => error_response(e.as_str()),
    }
}

/// The reply to `get_media_info`, given the provider's outcome: the
/// leading media session, or `null` when none plays.
pub fn handle_get_media_info(result: Result<Option<MediaInfo>, String>) -> (r: String)
    ensures
        match result {
            Ok(Some(info)) => r@ == spec_data_response(
                "media_info"@,
                spec_media_info_json(info@),
            ),
            Ok(None) => r@ == spec_data_response("media_info"@, "null"@),
            Err(e) => r@ == spec_error_response(e@),
        },
{
    match result {
        Ok(Some(info)) => {
            let data = media_info_json(&info);
            data_response("media_info", data.as_str())
        },
        Ok(None) => data_response("media_info", "null"),
        Err(e) => error_response(e.as_str()),
    }
}

/// The reply to `get_media_thumbnail`, given the provider's outcome:
/// the thumbnail as a JSON string of its base64 text, or `null`.
pub fn handle_get_media_thumbnail(result: Result<Option<String>, String>) -> (r: String)
    ensures
        match result {
            Ok(Some(thumb)) => r@ == spec_data_response(
                "media_thumbnail"@,
                spec_json_string(thumb@),
            ),
            Ok(None) => r@ == spec_data_response("media_thumbnail"@, "null"@),
            Err(e) => r@ == spec_error_response(e@),
        },
{
    match result {
        Ok(Some(thumb)) => {
            let data = json_string(thumb.as_str());
            data_response("media_thumbnail", data.as_str())
        },
        Ok(None) => data_response("media_thumbnail", "null"),
        Err(e) => error_response(e.as_str()),
    }
}

/// The reply to `media_play_pause`, given the provider's outcome.
pub fn handle_media_play_pause(result: Result<(), String>) -> (r: String)
    ensures
        match result {
            Ok(_) => r@ == spec_success_response("播放/暫停成功"@),
            Err(e) => r@ == spec_error_response(e@),
        },
{
    match result {
        Ok(_) => success_response("播放/暫停成功"),
        Err(e) => error_response(e.as_str()),
    }
}

/// The reply to `media_next`, given the provider's outcome.
pub fn handle_media_next(result: Result<(), String>) -> (r: String)
    ensures
        match result {
            Ok(_) => r@ == spec_success_response("下一首成功"@),
            Err(e) => r@ == spec_error_response(e@),
        },
{
    match result {
        Ok(_) => success_response("下一首成功"),
        Err(e) => error_response(e.as_str()),
    }
}

/// The reply to `media_previous`, given the provider's outcome.
pub fn handle_media_previous(result: Result<(), String>) -> (r: String)
    ensures
        match result {
            Ok(_) => r@ == spec_success_response("上一首成功"@),
            Err(e) => r@ == spec_error_response(e@),
        },
{
    match result {
        Ok(_) => success_response("上一首成功"),
        Err(e) => error_response(e.as_str()),
    }
}


/// The drop/reply policy of the dispatcher: a text that is not JSON is
/// answered with an error reply; a JSON text without a string `type` is
/// dropped in silence. The asymmetry is deliberate: structurally valid
/// but unrecognizable commands deserve visibility, a structurally
/// invalid envelope does not.
pub proof fn lemma_dispatch_policy(s: Seq<char>)
    ensures
        json_type_of(s) is Err ==> spec_handle_message(s) == MessageActionV::Reply(
            spec_parse_error_reply(json_type_of(s)->Err_0),
        ),
        json_type_of(s) == Ok::<Option<Seq<char>>, Seq<char>>(None) ==> spec_handle_message(s)
            is NoReply,
{
}


} // verus!
