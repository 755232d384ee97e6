use eazy_controller::cache::MediaSessionCache;
use eazy_controller::media::plan_media_refresh;
use eazy_controller::models::MediaInfo;

fn info(id: &str, title: &str, playing: bool) -> MediaInfo {
    MediaInfo {
        session_id: id.to_string(),
        app_name: "player.exe".to_string(),
        title: title.to_string(),
        artist: "artist".to_string(),
        album: "album".to_string(),
        is_playing: playing,
        thumbnail: None,
        can_go_next: true,
        can_go_previous: true,
    }
}

#[test]
fn read_before_any_refresh_is_empty() {
    let cache = MediaSessionCache::new();
    assert_eq!(cache.get().len(), 0);
    assert!(cache.find_by_id("anything").is_none());
}

#[test]
fn single_flight_gate_admits_one() {
    let mut cache = MediaSessionCache::new();
    assert!(cache.start_update());
    assert!(!cache.start_update());
    assert!(!cache.start_update());
    cache.finish_update(vec![info("a_0", "t", true)], 100);
    assert!(cache.start_update());
    assert!(!cache.start_update());
}

#[test]
fn read_during_refresh_serves_stale_snapshot() {
    let mut cache = MediaSessionCache::new();
    cache.finish_update(vec![info("a_0", "one", true)], 100);
    assert!(cache.start_update());
    let snap = cache.get();
    assert_eq!(snap.len(), 1);
    assert_eq!(snap[0].title, "one");
}

#[test]
fn staleness_window() {
    let mut cache = MediaSessionCache::new();
    assert!(cache.should_update(0, 500));
    cache.finish_update(Vec::new(), 1000);
    assert!(!cache.should_update(1400, 500));
    assert!(!cache.should_update(1500, 500));
    assert!(cache.should_update(1501, 500));
    assert!(!cache.should_update(900, 500));
}

#[test]
fn find_by_id_returns_first_match() {
    let mut cache = MediaSessionCache::new();
    cache.finish_update(
        vec![info("a_0", "first", true), info("b_1", "second", false), info("a_0", "shadowed", false)],
        5,
    );
    let found = cache.find_by_id("a_0").expect("a_0 is stored");
    assert_eq!(found.title, "first");
    assert_eq!(cache.find_by_id("b_1").unwrap().title, "second");
    assert!(cache.find_by_id("c_2").is_none());
}

#[test]
fn finish_update_replaces_snapshot() {
    let mut cache = MediaSessionCache::new();
    cache.finish_update(vec![info("a_0", "one", true)], 1);
    cache.finish_update(vec![info("b_0", "two", false)], 2);
    let snap = cache.get();
    assert_eq!(snap.len(), 1);
    assert_eq!(snap[0].session_id, "b_0");
}

#[test]
fn plan_refresh_begins_once_until_finished() {
    let mut cache = MediaSessionCache::new();
    let (begin, snap) = plan_media_refresh(&mut cache, 0, 500);
    assert!(begin);
    assert_eq!(snap.len(), 0);
    // a second caller while the first refresh is in flight
    let (begin2, _) = plan_media_refresh(&mut cache, 0, 500);
    assert!(!begin2);
    cache.finish_update(vec![info("a_0", "t", true)], 10);
    // fresh snapshot: no refresh needed
    let (begin3, snap3) = plan_media_refresh(&mut cache, 200, 500);
    assert!(!begin3);
    assert_eq!(snap3.len(), 1);
    // stale again
    let (begin4, _) = plan_media_refresh(&mut cache, 1000, 500);
    assert!(begin4);
}
