use eazy_controller::audio::{
    any_session_matches, build_audio_sessions, display_name, not_found_error, set_session_targets,
    RawSession,
};
use eazy_controller::json::{escape_json, json_string, parse_volume, u64_to_string, volume_number};
use eazy_controller::media::{find_session_index, get_media_info, make_session_id, play_pause_action, MediaAction};
use eazy_controller::message_handler::{handle_message, handle_set_session_volume, Command, MessageAction};
use eazy_controller::models::MediaInfo;
use eazy_controller::server::{advertisement_plan, asset_fallback, health_response, resolve_asset_path};

#[test]
fn numbers_write_their_digits() {
    assert_eq!(u64_to_string(0), "0");
    assert_eq!(u64_to_string(7), "7");
    assert_eq!(u64_to_string(1234), "1234");
    assert_eq!(u64_to_string(1000000), "1000000");
}

#[test]
fn volume_numbers_are_shortest_plain_decimals() {
    assert_eq!(volume_number(0), "0");
    assert_eq!(volume_number(1000), "1");
    assert_eq!(volume_number(500), "0.5");
    assert_eq!(volume_number(250), "0.25");
    assert_eq!(volume_number(123), "0.123");
    assert_eq!(volume_number(20), "0.02");
    assert_eq!(volume_number(100), "0.1");
    assert_eq!(volume_number(1), "0.001");
    assert_eq!(volume_number(999), "0.999");
}

#[test]
fn volumes_parse_and_clamp() {
    assert_eq!(parse_volume("0.5"), Some(500));
    assert_eq!(parse_volume("0"), Some(0));
    assert_eq!(parse_volume("1"), Some(1000));
    assert_eq!(parse_volume("1.0"), Some(1000));
    assert_eq!(parse_volume("0.25"), Some(250));
    assert_eq!(parse_volume("0.999"), Some(999));
    // truncated past the third fraction digit
    assert_eq!(parse_volume("0.1234"), Some(123));
    // clamped into the unit interval
    assert_eq!(parse_volume("1.5"), Some(1000));
    assert_eq!(parse_volume("2"), Some(1000));
    assert_eq!(parse_volume("-0.5"), Some(0));
    // everything else reads as nothing
    assert_eq!(parse_volume(""), None);
    assert_eq!(parse_volume("abc"), None);
    assert_eq!(parse_volume(".5"), None);
    assert_eq!(parse_volume("1."), None);
    assert_eq!(parse_volume("1.2.3"), None);
    assert_eq!(parse_volume("-"), None);
}

#[test]
fn json_strings_escape_as_json_does() {
    for s in [
        "plain",
        "",
        "with \"quotes\" and \\backslash\\",
        "line\nbreak\ttab\rreturn",
        "control \u{1} \u{1f}",
        "backspace \u{8} formfeed \u{c}",
        "中文也可以",
        "mixed 中文 and ascii",
    ] {
        assert_eq!(json_string(s), serde_json::to_string(s).unwrap());
    }
    assert_eq!(escape_json("a\"b"), "a\\\"b");
    assert_eq!(escape_json("\u{1}"), "\\u0001");
    assert_eq!(escape_json("\u{1f}"), "\\u001f");
}

#[test]
fn display_names_take_the_file_name() {
    assert_eq!(display_name("C:\\Program Files\\app.exe", 1), "app.exe");
    assert_eq!(display_name("/usr/bin/foo", 1), "foo");
    assert_eq!(display_name("plain.exe", 1), "plain.exe");
    // no path: the process id names the session
    assert_eq!(display_name("", 42), "PID 42");
    // nothing after the last separator: the whole path stands
    assert_eq!(display_name("dir/", 1), "dir/");
    assert_eq!(display_name("a/..", 1), "a/..");
}

#[test]
fn sessions_dedup_by_name_first_wins() {
    let raw = vec![
        RawSession { path: "C:\\x\\app.exe".to_string(), pid: 1, volume: 300, is_muted: false },
        RawSession { path: "C:\\y\\app.exe".to_string(), pid: 2, volume: 900, is_muted: true },
        RawSession { path: String::new(), pid: 7, volume: 100, is_muted: false },
    ];
    let sessions = build_audio_sessions(&raw);
    assert_eq!(sessions.len(), 2);
    assert_eq!(sessions[0].name, "app.exe");
    assert_eq!(sessions[0].volume, 300);
    assert!(!sessions[0].is_muted);
    assert_eq!(sessions[1].name, "PID 7");
}

#[test]
fn missing_session_yields_an_error_naming_it() {
    let raw = vec![RawSession {
        path: "C:\\x\\present.exe".to_string(),
        pid: 1,
        volume: 300,
        is_muted: false,
    }];
    assert!(!any_session_matches(&raw, "missing.exe"));
    assert!(any_session_matches(&raw, "present.exe"));
    let err = set_session_targets(&raw, "missing.exe").unwrap_err();
    assert!(err.contains("missing.exe"));
    assert_eq!(err, not_found_error("missing.exe"));
    let targets = set_session_targets(&raw, "present.exe").unwrap();
    assert_eq!(targets, vec![0]);
}

#[test]
fn set_session_volume_against_missing_session_end_to_end() {
    // the client's command decodes...
    let action = handle_message(
        "{\"type\":\"set_session_volume\",\"data\":{\"session_name\":\"missing.exe\",\"volume\":0.5}}",
    );
    let session_name = match action {
        MessageAction::Invoke(Command::SetSessionVolume { session_name, volume }) => {
            assert_eq!(volume, 500);
            session_name
        }
        _ => panic!("expected a volume command"),
    };
    // ...the provider knows no such session...
    let raw: Vec<RawSession> = vec![RawSession {
        path: "C:\\x\\other.exe".to_string(),
        pid: 3,
        volume: 100,
        is_muted: false,
    }];
    let outcome = set_session_targets(&raw, &session_name).map(|_| ());
    // ...and the reply is an error that names it
    let reply = handle_set_session_volume(outcome);
    let parsed: serde_json::Value = serde_json::from_str(&reply).unwrap();
    assert_eq!(parsed["type"], "error");
    assert!(parsed["message"].as_str().unwrap().contains("missing.exe"));
}

#[test]
fn session_ids_name_identity_and_position() {
    assert_eq!(make_session_id("app.exe", 0), "app.exe_0");
    assert_eq!(make_session_id("app.exe", 12), "app.exe_12");
    let names = vec!["a.exe".to_string(), "b.exe".to_string(), "a.exe".to_string()];
    assert_eq!(find_session_index(&names, "b.exe_1"), Some(1));
    assert_eq!(find_session_index(&names, "a.exe_2"), Some(2));
    assert_eq!(find_session_index(&names, "a.exe_1"), None);
    assert_eq!(find_session_index(&names, "c.exe_0"), None);
}

#[test]
fn first_session_is_the_media_info() {
    let mk = |id: &str| MediaInfo {
        session_id: id.to_string(),
        app_name: "p".to_string(),
        title: String::new(),
        artist: String::new(),
        album: String::new(),
        is_playing: false,
        thumbnail: None,
        can_go_next: true,
        can_go_previous: true,
    };
    assert!(get_media_info(&Vec::new()).is_none());
    let list = vec![mk("x_0"), mk("y_1")];
    assert_eq!(get_media_info(&list).unwrap().session_id, "x_0");
}

#[test]
fn play_pause_toggles() {
    assert_eq!(play_pause_action(true), MediaAction::Pause);
    assert_eq!(play_pause_action(false), MediaAction::Play);
}

#[test]
fn health_and_asset_paths() {
    assert_eq!(health_response(), "OK");
    assert_eq!(resolve_asset_path("/"), "index.html");
    assert_eq!(resolve_asset_path(""), "index.html");
    assert_eq!(resolve_asset_path("/app.js"), "app.js");
    assert_eq!(resolve_asset_path("//nested/x.css"), "nested/x.css");
    assert_eq!(asset_fallback("app.js").as_deref(), Some("index.html"));
    assert_eq!(asset_fallback("index.html"), None);
}

#[test]
fn advertisement_is_best_effort() {
    assert!(advertisement_plan(None, 8800).is_none());
    assert!(advertisement_plan(Some([0, 0, 0, 0]), 8800).is_none());
    let plan = advertisement_plan(Some([192, 168, 1, 5]), 8800).unwrap();
    assert_eq!(plan.service_type, "_http._tcp.local.");
    assert_eq!(plan.instance_name, "eazycontroller");
    assert_eq!(plan.host_name, "eazycontroller.local.");
    assert_eq!(plan.port, 8800);
}

#[test]
fn every_control_character_escapes_as_json_does() {
    let mut s = String::new();
    for c in 0u32..32u32 {
        s.push(char::from_u32(c).unwrap());
    }
    assert_eq!(json_string(&s), serde_json::to_string(&s).unwrap());
}
