use eazy_controller::message_handler::{
    handle_get_audio_devices, handle_get_audio_sessions, handle_get_default_device_mute,
    handle_get_default_device_volume, handle_get_media_info, handle_get_media_thumbnail,
    handle_media_next, handle_media_play_pause, handle_media_previous, handle_message,
    handle_set_default_device, handle_set_default_device_mute, handle_set_default_device_volume,
    handle_set_session_mute, handle_set_session_volume, Command, MessageAction,
};
use eazy_controller::models::{AudioDevice, AudioSession, MediaInfo};

#[test]
fn malformed_message_gets_no_response() {
    // a JSON object without a `type` field is dropped in silence
    assert!(matches!(handle_message("{\"data\":{}}"), MessageAction::NoReply));
    // a non-string `type` too
    assert!(matches!(handle_message("{\"type\":5}"), MessageAction::NoReply));
    // a non-object too
    assert!(matches!(handle_message("42"), MessageAction::NoReply));
}

#[test]
fn unknown_type_gets_an_error_naming_it() {
    let action = handle_message("{\"type\":\"unknown_x\"}");
    match action {
        MessageAction::Reply(text) => {
            let parsed: serde_json::Value = serde_json::from_str(&text).unwrap();
            assert_eq!(parsed["type"], "error");
            let message = parsed["message"].as_str().unwrap();
            assert!(message.contains("unknown_x"));
        }
        _ => panic!("an unknown type deserves an explicit error"),
    }
}

#[test]
fn text_that_is_not_json_gets_a_parse_error_reply() {
    let action = handle_message("not json at all {");
    match action {
        MessageAction::Reply(text) => {
            let parsed: serde_json::Value = serde_json::from_str(&text).unwrap();
            assert_eq!(parsed["type"], "error");
        }
        _ => panic!("unparsable text deserves an error reply"),
    }
}

#[test]
fn known_commands_dispatch() {
    assert!(matches!(
        handle_message("{\"type\":\"get_audio_sessions\"}"),
        MessageAction::Invoke(Command::GetAudioSessions)
    ));
    assert!(matches!(
        handle_message("{\"type\":\"get_audio_devices\"}"),
        MessageAction::Invoke(Command::GetAudioDevices)
    ));
    assert!(matches!(
        handle_message("{\"type\":\"get_default_device_volume\"}"),
        MessageAction::Invoke(Command::GetDefaultDeviceVolume)
    ));
    assert!(matches!(
        handle_message("{\"type\":\"get_default_device_mute\"}"),
        MessageAction::Invoke(Command::GetDefaultDeviceMute)
    ));
    assert!(matches!(
        handle_message("{\"type\":\"get_all_media_sessions\"}"),
        MessageAction::Invoke(Command::GetAllMediaSessions)
    ));
    assert!(matches!(
        handle_message("{\"type\":\"get_media_info\"}"),
        MessageAction::Invoke(Command::GetMediaInfo)
    ));
}

#[test]
fn set_session_volume_decodes_name_and_volume() {
    let action =
        handle_message("{\"type\":\"set_session_volume\",\"data\":{\"session_name\":\"app.exe\",\"volume\":0.5}}");
    match action {
        MessageAction::Invoke(Command::SetSessionVolume { session_name, volume }) => {
            assert_eq!(session_name, "app.exe");
            assert_eq!(volume, 500);
        }
        _ => panic!("expected a volume command"),
    }
    // an integer volume decodes too
    let action = handle_message(
        "{\"type\":\"set_default_device_volume\",\"data\":{\"volume\":1}}",
    );
    match action {
        MessageAction::Invoke(Command::SetDefaultDeviceVolume { volume }) => {
            assert_eq!(volume, 1000);
        }
        _ => panic!("expected a device volume command"),
    }
}

#[test]
fn set_session_volume_without_required_fields_is_dropped() {
    assert!(matches!(
        handle_message("{\"type\":\"set_session_volume\",\"data\":{\"volume\":0.5}}"),
        MessageAction::NoReply
    ));
    assert!(matches!(
        handle_message("{\"type\":\"set_session_volume\",\"data\":{\"session_name\":\"a\"}}"),
        MessageAction::NoReply
    ));
    // a volume of the wrong type is dropped too
    assert!(matches!(
        handle_message(
            "{\"type\":\"set_session_volume\",\"data\":{\"session_name\":\"a\",\"volume\":\"x\"}}"
        ),
        MessageAction::NoReply
    ));
}

#[test]
fn set_session_mute_decodes() {
    let action = handle_message(
        "{\"type\":\"set_session_mute\",\"data\":{\"session_name\":\"app.exe\",\"mute\":true}}",
    );
    match action {
        MessageAction::Invoke(Command::SetSessionMute { session_name, mute }) => {
            assert_eq!(session_name, "app.exe");
            assert!(mute);
        }
        _ => panic!("expected a mute command"),
    }
}

#[test]
fn media_commands_take_an_optional_session_id() {
    match handle_message("{\"type\":\"media_play_pause\",\"data\":{\"session_id\":\"a_0\"}}") {
        MessageAction::Invoke(Command::MediaPlayPause { session_id }) => {
            assert_eq!(session_id.as_deref(), Some("a_0"));
        }
        _ => panic!("expected a play/pause command"),
    }
    match handle_message("{\"type\":\"media_next\"}") {
        MessageAction::Invoke(Command::MediaNext { session_id }) => assert!(session_id.is_none()),
        _ => panic!("expected a next command"),
    }
    match handle_message("{\"type\":\"media_previous\"}") {
        MessageAction::Invoke(Command::MediaPrevious { session_id }) => {
            assert!(session_id.is_none())
        }
        _ => panic!("expected a previous command"),
    }
    match handle_message("{\"type\":\"get_media_thumbnail\"}") {
        MessageAction::Invoke(Command::GetMediaThumbnail { session_id }) => {
            assert!(session_id.is_none())
        }
        _ => panic!("expected a thumbnail command"),
    }
}

#[test]
fn default_device_volume_reply_is_a_unit_scalar() {
    let reply = handle_get_default_device_volume(Ok(500));
    assert_eq!(reply, "{\"type\":\"default_device_volume\",\"data\":0.5}");
    let parsed: serde_json::Value = serde_json::from_str(&reply).unwrap();
    assert_eq!(parsed["type"], "default_device_volume");
    let v = parsed["data"].as_f64().unwrap();
    assert!((0.0..=1.0).contains(&v));
    // a provider failure becomes an error envelope
    let err = handle_get_default_device_volume(Err("no device".to_string()));
    let parsed: serde_json::Value = serde_json::from_str(&err).unwrap();
    assert_eq!(parsed["type"], "error");
    assert_eq!(parsed["message"], "no device");
}

#[test]
fn volume_replies_cover_the_unit_interval() {
    assert_eq!(
        handle_get_default_device_volume(Ok(0)),
        "{\"type\":\"default_device_volume\",\"data\":0}"
    );
    assert_eq!(
        handle_get_default_device_volume(Ok(1000)),
        "{\"type\":\"default_device_volume\",\"data\":1}"
    );
    assert_eq!(
        handle_get_default_device_volume(Ok(250)),
        "{\"type\":\"default_device_volume\",\"data\":0.25}"
    );
    assert_eq!(
        handle_get_default_device_volume(Ok(123)),
        "{\"type\":\"default_device_volume\",\"data\":0.123}"
    );
    assert_eq!(
        handle_get_default_device_volume(Ok(20)),
        "{\"type\":\"default_device_volume\",\"data\":0.02}"
    );
}

#[test]
fn session_and_device_lists_encode() {
    let sessions = vec![
        AudioSession { name: "a.exe".to_string(), volume: 500, is_muted: false },
        AudioSession { name: "b.exe".to_string(), volume: 1000, is_muted: true },
    ];
    let reply = handle_get_audio_sessions(Ok(sessions));
    assert_eq!(
        reply,
        "{\"type\":\"audio_sessions\",\"data\":[{\"name\":\"a.exe\",\"volume\":0.5,\"is_muted\":false},{\"name\":\"b.exe\",\"volume\":1,\"is_muted\":true}]}"
    );
    let devices = vec![AudioDevice {
        id: "dev-1".to_string(),
        name: "Speakers".to_string(),
        is_default: true,
    }];
    let reply = handle_get_audio_devices(Ok(devices));
    assert_eq!(
        reply,
        "{\"type\":\"audio_devices\",\"data\":[{\"id\":\"dev-1\",\"name\":\"Speakers\",\"is_default\":true}]}"
    );
    let empty = handle_get_audio_sessions(Ok(Vec::new()));
    assert_eq!(empty, "{\"type\":\"audio_sessions\",\"data\":[]}");
}

#[test]
fn media_replies_encode() {
    let reply = handle_get_media_info(Ok(None));
    assert_eq!(reply, "{\"type\":\"media_info\",\"data\":null}");
    let one = MediaInfo {
        session_id: "a_0".to_string(),
        app_name: "p.exe".to_string(),
        title: "t".to_string(),
        artist: "r".to_string(),
        album: "l".to_string(),
        is_playing: false,
        thumbnail: Some("QUJD".to_string()),
        can_go_next: false,
        can_go_previous: true,
    };
    let reply = handle_get_media_info(Ok(Some(one)));
    assert_eq!(
        reply,
        "{\"type\":\"media_info\",\"data\":{\"session_id\":\"a_0\",\"app_name\":\"p.exe\",\"title\":\"t\",\"artist\":\"r\",\"album\":\"l\",\"is_playing\":false,\"thumbnail\":\"QUJD\",\"can_go_next\":false,\"can_go_previous\":true}}"
    );
    assert_eq!(
        handle_get_media_thumbnail(Ok(Some("QUJD".to_string()))),
        "{\"type\":\"media_thumbnail\",\"data\":\"QUJD\"}"
    );
    assert_eq!(
        handle_get_media_thumbnail(Ok(None)),
        "{\"type\":\"media_thumbnail\",\"data\":null}"
    );
}

#[test]
fn success_and_error_envelopes() {
    assert_eq!(
        handle_set_session_volume(Ok(())),
        "{\"type\":\"success\",\"message\":\"音量設定成功\"}"
    );
    assert_eq!(
        handle_set_session_mute(Ok(())),
        "{\"type\":\"success\",\"message\":\"靜音設定成功\"}"
    );
    assert_eq!(
        handle_set_default_device(Ok(())),
        "{\"type\":\"success\",\"message\":\"預設裝置設定成功\"}"
    );
    assert_eq!(
        handle_set_default_device_volume(Ok(())),
        "{\"type\":\"success\",\"message\":\"預設裝置音量設定成功\"}"
    );
    assert_eq!(
        handle_set_default_device_mute(Ok(())),
        "{\"type\":\"success\",\"message\":\"預設裝置靜音設定成功\"}"
    );
    assert_eq!(
        handle_media_play_pause(Ok(())),
        "{\"type\":\"success\",\"message\":\"播放/暫停成功\"}"
    );
    assert_eq!(handle_media_next(Ok(())), "{\"type\":\"success\",\"message\":\"下一首成功\"}");
    assert_eq!(
        handle_media_previous(Ok(())),
        "{\"type\":\"success\",\"message\":\"上一首成功\"}"
    );
    assert_eq!(
        handle_set_session_volume(Err("boom".to_string())),
        "{\"type\":\"error\",\"message\":\"boom\"}"
    );
    let mute_reply = handle_get_default_device_mute(Ok(true));
    assert_eq!(mute_reply, "{\"type\":\"default_device_mute\",\"data\":true}");
}

#[test]
fn wrong_typed_fields_are_dropped() {
    // a boolean where a string is required
    assert!(matches!(
        handle_message("{\"type\":\"set_session_mute\",\"data\":{\"session_name\":\"a\",\"mute\":\"yes\"}}"),
        MessageAction::NoReply
    ));
    assert!(matches!(
        handle_message("{\"type\":\"set_default_device\",\"data\":{\"device_id\":7}}"),
        MessageAction::NoReply
    ));
    // `data` missing entirely for a command that needs it
    assert!(matches!(
        handle_message("{\"type\":\"set_default_device_mute\"}"),
        MessageAction::NoReply
    ));
}

#[test]
fn unknown_type_with_awkward_characters_stays_valid_json() {
    let action = handle_message("{\"type\":\"bad\\\"quote\\\\type\"}");
    match action {
        MessageAction::Reply(text) => {
            let parsed: serde_json::Value = serde_json::from_str(&text).unwrap();
            assert_eq!(parsed["type"], "error");
            assert!(parsed["message"].as_str().unwrap().contains("bad\"quote\\type"));
        }
        _ => panic!("an unknown type deserves an explicit error"),
    }
}
