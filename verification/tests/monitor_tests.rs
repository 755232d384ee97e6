use eazy_controller::models::MediaInfo;
use eazy_controller::monitor::{
    encode_monitor_event, is_browser_app, monitor_step, MonitorEvent, MonitorState,
};
use eazy_controller::thumbnail::{thumbnail_event, thumbnail_to_base64};

fn info(id: &str, app: &str, title: &str) -> MediaInfo {
    MediaInfo {
        session_id: id.to_string(),
        app_name: app.to_string(),
        title: title.to_string(),
        artist: String::new(),
        album: String::new(),
        is_playing: true,
        thumbnail: None,
        can_go_next: true,
        can_go_previous: false,
    }
}

#[test]
fn identical_snapshots_publish_nothing() {
    let mut state = MonitorState { last: None };
    let snap = vec![info("a_0", "player.exe", "song")];
    let (events, _) = monitor_step(&mut state, Ok(snap));
    assert_eq!(events.len(), 1);
    let snap_again = vec![info("a_0", "player.exe", "song")];
    let (events2, fetch2) = monitor_step(&mut state, Ok(snap_again));
    assert_eq!(events2.len(), 0);
    assert!(fetch2.is_none());
}

#[test]
fn changed_snapshot_publishes_one_event_per_session() {
    let mut state = MonitorState { last: None };
    let snap = vec![info("a_0", "p.exe", "one"), info("b_1", "q.exe", "two")];
    let (events, _) = monitor_step(&mut state, Ok(snap));
    assert_eq!(events.len(), 2);
    match &events[0] {
        MonitorEvent::InfoUpdated(m) => assert_eq!(m.session_id, "a_0"),
        MonitorEvent::Cleared => panic!("expected a session event"),
    }
    match &events[1] {
        MonitorEvent::InfoUpdated(m) => assert_eq!(m.session_id, "b_1"),
        MonitorEvent::Cleared => panic!("expected a session event"),
    }
}

#[test]
fn emptied_snapshot_publishes_one_clear() {
    let mut state = MonitorState { last: None };
    let (e0, _) = monitor_step(&mut state, Ok(vec![info("a_0", "p.exe", "one")]));
    assert_eq!(e0.len(), 1);
    let (e1, _) = monitor_step(&mut state, Ok(Vec::new()));
    assert_eq!(e1.len(), 1);
    assert!(matches!(e1[0], MonitorEvent::Cleared));
    // staying empty publishes nothing more
    let (e2, _) = monitor_step(&mut state, Ok(Vec::new()));
    assert_eq!(e2.len(), 0);
    let (e3, _) = monitor_step(&mut state, Ok(Vec::new()));
    assert_eq!(e3.len(), 0);
}

#[test]
fn empty_from_the_start_publishes_nothing() {
    let mut state = MonitorState { last: None };
    let (events, fetch) = monitor_step(&mut state, Ok(Vec::new()));
    assert_eq!(events.len(), 0);
    assert!(fetch.is_none());
}

#[test]
fn provider_error_is_absorbed() {
    let mut state = MonitorState { last: None };
    let (e0, _) = monitor_step(&mut state, Ok(vec![info("a_0", "p.exe", "one")]));
    assert_eq!(e0.len(), 1);
    let (e1, f1) = monitor_step(&mut state, Err("transient".to_string()));
    assert_eq!(e1.len(), 0);
    assert!(f1.is_none());
    // the remembered snapshot is unchanged: the same data is still "no change"
    let (e2, _) = monitor_step(&mut state, Ok(vec![info("a_0", "p.exe", "one")]));
    assert_eq!(e2.len(), 0);
}

#[test]
fn browser_leader_triggers_thumbnail_fetch() {
    let mut state = MonitorState { last: None };
    let (_, fetch) = monitor_step(&mut state, Ok(vec![info("c_0", "Google Chrome", "tab")]));
    assert_eq!(fetch.as_deref(), Some("c_0"));
    let mut state2 = MonitorState { last: None };
    let (_, fetch2) = monitor_step(&mut state2, Ok(vec![info("v_0", "vlc.exe", "movie")]));
    assert!(fetch2.is_none());
}

#[test]
fn browser_allow_list_is_case_insensitive() {
    assert!(is_browser_app("Google Chrome"));
    assert!(is_browser_app("MSEDGE.EXE"));
    assert!(is_browser_app("FireFox"));
    assert!(is_browser_app("opera"));
    assert!(is_browser_app("Brave Browser"));
    assert!(!is_browser_app("vlc.exe"));
    assert!(!is_browser_app(""));
}

#[test]
fn monitor_event_wire_form() {
    let cleared = encode_monitor_event(&MonitorEvent::Cleared);
    assert_eq!(cleared, "{\"type\":\"media_info_cleared\"}");
    let updated = encode_monitor_event(&MonitorEvent::InfoUpdated(info("a_0", "p.exe", "song")));
    assert_eq!(
        updated,
        "{\"type\":\"media_info_updated\",\"data\":{\"session_id\":\"a_0\",\"app_name\":\"p.exe\",\"title\":\"song\",\"artist\":\"\",\"album\":\"\",\"is_playing\":true,\"thumbnail\":null,\"can_go_next\":true,\"can_go_previous\":false}}"
    );
    // the payload is valid JSON with the fields intact
    let parsed: serde_json::Value = serde_json::from_str(&updated).unwrap();
    assert_eq!(parsed["type"], "media_info_updated");
    assert_eq!(parsed["data"]["session_id"], "a_0");
    assert_eq!(parsed["data"]["thumbnail"], serde_json::Value::Null);
}

#[test]
fn thumbnail_bytes_to_event() {
    let b64 = thumbnail_to_base64(&b"hello".to_vec()).expect("within bounds");
    assert_eq!(b64, "aGVsbG8=");
    assert_eq!(
        thumbnail_event(&b64),
        "{\"type\":\"media_thumbnail_updated\",\"data\":\"aGVsbG8=\"}"
    );
    assert!(thumbnail_to_base64(&Vec::new()).is_none());
    assert!(thumbnail_to_base64(&vec![0u8; 5_000_001]).is_none());
    assert!(thumbnail_to_base64(&vec![0u8; 5_000_000]).is_some());
}
