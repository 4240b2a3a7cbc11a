use pjp::AudioMetadata;
use pjp::NowPlaying;
use pjp::PjpConfig;
use pjp::Scrobbler;
use pjp::make_signature;

fn snapshot(title: &str, artist: &str, dur_ms: u64, elapsed_frames: u32, start_ts: u64) -> NowPlaying {
    NowPlaying {
        track: AudioMetadata {
            dur_ms,
            artist: artist.to_string(),
            title: title.to_string(),
            album: String::new(),
        },
        elapsed_frames,
        start_ts,
    }
}

fn scrobbler() -> Scrobbler {
    Scrobbler::new(
        "token".to_string(),
        "listener".to_string(),
        "key".to_string(),
        "secret".to_string(),
    )
}

#[test]
fn makes_signature() {
    let params = vec![
        ("foo".to_string(), "bar".to_string()),
        ("baz".to_string(), "qux".to_string()),
    ];
    let res = make_signature(&params, "xyz");
    assert_eq!(res, "5b44ff6a214ae37880ba22083aea0881");
    assert_eq!(res.len(), 32);
}

#[test]
fn signature_ignores_parameter_order() {
    let forward = vec![
        ("baz".to_string(), "qux".to_string()),
        ("foo".to_string(), "bar".to_string()),
    ];
    let res = make_signature(&forward, "xyz");
    assert_eq!(res, "5b44ff6a214ae37880ba22083aea0881");
}

#[test]
fn takes_at_most_one_batch() {
    let mut s = scrobbler();
    for i in 0..60u32 {
        s.to_scrobble.push(snapshot("t", "a", 1000, i, i as u64));
    }
    let rest = s.take_batch();
    assert_eq!(s.to_scrobble.len(), 50);
    assert_eq!(rest.len(), 10);
    assert_eq!(s.to_scrobble[49].elapsed_frames, 49);
    assert_eq!(rest[0].elapsed_frames, 50);
}

#[test]
fn small_queue_is_one_batch() {
    let mut s = scrobbler();
    s.to_scrobble.push(snapshot("t", "a", 1000, 1, 1));
    let rest = s.take_batch();
    assert_eq!(s.to_scrobble.len(), 1);
    assert_eq!(rest.len(), 0);
}

#[test]
fn success_requeues_the_remainder() {
    let mut s = scrobbler();
    s.to_scrobble.push(snapshot("t", "a", 1000, 1, 1));
    let rest = vec![snapshot("u", "b", 1000, 2, 2)];
    s.on_scrobble_result(None, rest);
    assert_eq!(s.to_scrobble.len(), 1);
    assert_eq!(s.to_scrobble[0].track.title, "u");
}

#[test]
fn retryable_errors_keep_the_batch() {
    for code in ["11", "16"] {
        let mut s = scrobbler();
        s.to_scrobble.push(snapshot("t", "a", 1000, 1, 1));
        s.on_scrobble_result(Some(&code.to_string()), Vec::new());
        assert_eq!(s.to_scrobble.len(), 1);
        assert_eq!(s.to_scrobble[0].track.title, "t");
    }
}

#[test]
fn fatal_errors_drop_the_batch() {
    let mut s = scrobbler();
    s.to_scrobble.push(snapshot("t", "a", 1000, 1, 1));
    s.on_scrobble_result(Some(&"6".to_string()), Vec::new());
    assert_eq!(s.to_scrobble.len(), 0);
}

#[test]
fn first_snapshot_opens_a_session() {
    let mut s = scrobbler();
    let actions = s.set_now_playing(Some(snapshot("t", "a", 300_000, 0, 10)));
    assert!(actions.send_now_playing);
    assert!(!actions.run_scrobble);
    assert_eq!(s.now_playing_start.as_ref().unwrap().track.title, "t");
    assert!(s.now_playing_end.is_none());
}

#[test]
fn same_track_extends_the_session() {
    let mut s = scrobbler();
    s.set_now_playing(Some(snapshot("t", "a", 300_000, 0, 10)));
    let actions = s.set_now_playing(Some(snapshot("t", "a", 300_000, 44100, 10)));
    assert!(!actions.send_now_playing);
    assert!(!actions.run_scrobble);
    assert_eq!(s.now_playing_end.as_ref().unwrap().elapsed_frames, 44100);
    assert_eq!(s.to_scrobble.len(), 0);
}

#[test]
fn long_enough_session_is_queued_when_the_track_changes() {
    let mut s = scrobbler();
    // a 300-second track, heard for 200 seconds: more than half
    s.set_now_playing(Some(snapshot("t", "a", 300_000, 0, 10)));
    s.set_now_playing(Some(snapshot("t", "a", 300_000, 200 * 44100, 10)));
    let actions = s.set_now_playing(Some(snapshot("u", "b", 100_000, 0, 300)));
    assert!(actions.send_now_playing);
    assert!(actions.run_scrobble);
    assert_eq!(s.to_scrobble.len(), 1);
    assert_eq!(s.to_scrobble[0].track.title, "t");
    assert_eq!(s.now_playing_start.as_ref().unwrap().track.title, "u");
    assert!(s.now_playing_end.is_none());
}

#[test]
fn short_session_is_not_queued() {
    let mut s = scrobbler();
    // a 300-second track, heard for 10 seconds
    s.set_now_playing(Some(snapshot("t", "a", 300_000, 0, 10)));
    s.set_now_playing(Some(snapshot("t", "a", 300_000, 10 * 44100, 10)));
    let actions = s.set_now_playing(None);
    assert!(!actions.send_now_playing);
    assert!(!actions.run_scrobble);
    assert_eq!(s.to_scrobble.len(), 0);
    assert!(s.now_playing_start.is_none());
}

#[test]
fn four_minutes_suffice_for_a_long_track() {
    let mut s = scrobbler();
    // an hour-long track, heard for five minutes
    s.set_now_playing(Some(snapshot("t", "a", 3_600_000, 0, 10)));
    s.set_now_playing(Some(snapshot("t", "a", 3_600_000, 300 * 44100, 10)));
    s.set_now_playing(None);
    assert_eq!(s.to_scrobble.len(), 1);
}

#[test]
fn default_config_has_the_stock_port() {
    let c = PjpConfig::default();
    assert_eq!(c.port, "7878");
    assert!(c.last_fm_api_key.is_none());
    assert!(c.last_fm_username.is_none());
    assert!(c.last_fm_password.is_none());
    assert!(c.last_fm_secret_key.is_none());
}
