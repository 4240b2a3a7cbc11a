use pjp::AudioFileSource;
use pjp::PlaybackState;
use pjp::PlayerState;

fn player_with(paths: &[&str], consume: bool) -> PlayerState {
    let mut ps = PlayerState::new();
    ps.consume = consume;
    for p in paths {
        ps.playlist.push(AudioFileSource::new(p.to_string()));
    }
    ps
}

#[test]
fn starts_paused_and_empty() {
    let ps = PlayerState::new();
    assert!(matches!(ps.state, PlaybackState::Paused));
    assert_eq!(ps.playlist.len(), 0);
    assert_eq!(ps.current_item, 0);
    assert_eq!(ps.current_offset, 0);
    assert_eq!(ps.current_item_start_ts, 0);
    assert!(ps.consume);
}

#[test]
fn consume_next_empties_single_track_playlist() {
    let mut ps = player_with(&["a"], true);
    ps.next(7);
    assert_eq!(ps.playlist.len(), 0);
    assert_eq!(ps.current_item_start_ts, 0);
}

#[test]
fn cycling_without_consume_wraps() {
    let mut ps = player_with(&["a", "b"], false);
    assert_eq!(ps.current_item, 0);
    ps.next(1);
    assert_eq!(ps.current_item, 1);
    ps.next(2);
    assert_eq!(ps.current_item, 0);
    ps.next(3);
    assert_eq!(ps.current_item, 1);
    assert_eq!(ps.playlist.len(), 2);
}

#[test]
fn backward_skip_keeps_playlist_with_consume() {
    let mut ps = player_with(&["a", "b", "c"], true);
    ps.current_item = 2;
    ps.skip_to(0, 5);
    assert_eq!(ps.playlist.len(), 3);
    assert_eq!(ps.current_item, 0);
    assert_eq!(ps.current_offset, 0);
}

#[test]
fn backward_skip_keeps_playlist_without_consume() {
    let mut ps = player_with(&["a", "b", "c"], false);
    ps.current_item = 2;
    ps.skip_to(1, 5);
    assert_eq!(ps.playlist.len(), 3);
    assert_eq!(ps.current_item, 1);
}

#[test]
fn forward_skip_consumes_intervening_tracks() {
    let mut ps = player_with(&["a", "b", "c"], true);
    ps.skip_to(2, 5);
    // each advance removed the then-current entry
    assert_eq!(ps.playlist.len(), 1);
    assert_eq!(ps.current_item, 0);
    assert_eq!(ps.playlist[0].filename, "c");
}

#[test]
fn skip_to_current_restarts_track() {
    let mut ps = player_with(&["a", "b"], false);
    ps.current_offset = 4242;
    ps.skip_to(0, 5);
    assert_eq!(ps.current_offset, 0);
    assert_eq!(ps.playlist.len(), 2);
    assert_eq!(ps.current_item, 0);
}

#[test]
fn toggle_twice_returns_to_original_mode() {
    let mut ps = player_with(&["a"], false);
    assert!(matches!(ps.state, PlaybackState::Paused));
    ps.toggle(1);
    assert!(matches!(ps.state, PlaybackState::Playing));
    ps.toggle(2);
    assert!(matches!(ps.state, PlaybackState::Paused));
    ps.toggle(3);
    ps.toggle(4);
    assert!(matches!(ps.state, PlaybackState::Paused));
}

#[test]
fn play_stamps_and_pause_clears_timestamp() {
    let mut ps = player_with(&["a"], false);
    ps.play(99);
    assert!(matches!(ps.state, PlaybackState::Playing));
    assert_eq!(ps.current_item_start_ts, 99);
    ps.pause();
    assert!(matches!(ps.state, PlaybackState::Paused));
    assert_eq!(ps.current_item_start_ts, 0);
}

#[test]
fn play_on_empty_playlist_leaves_timestamp_cleared() {
    let mut ps = PlayerState::new();
    ps.play(99);
    assert!(matches!(ps.state, PlaybackState::Playing));
    assert_eq!(ps.current_item_start_ts, 0);
}

#[test]
fn clear_resets_everything_but_mode() {
    let mut ps = player_with(&["a", "b"], false);
    ps.play(9);
    ps.current_offset = 100;
    ps.clear();
    assert_eq!(ps.playlist.len(), 0);
    assert_eq!(ps.current_item, 0);
    assert_eq!(ps.current_offset, 0);
    assert_eq!(ps.current_item_start_ts, 0);
    assert!(matches!(ps.state, PlaybackState::Playing));
}

#[test]
fn validate_drops_missing_track() {
    let mut ps = player_with(&["a", "b", "c"], false);
    // the middle track's backing file vanished between add and validate
    let present = vec![true, false, true];
    ps.validate(&present);
    assert_eq!(ps.playlist.len(), 2);
    assert_eq!(ps.playlist[0].filename, "a");
    assert_eq!(ps.playlist[1].filename, "c");
}

#[test]
fn validate_keeps_current_track_current() {
    let mut ps = player_with(&["a", "b", "c"], false);
    ps.current_item = 2;
    let present = vec![false, true, true];
    ps.validate(&present);
    assert_eq!(ps.playlist.len(), 2);
    assert_eq!(ps.current_item, 1);
    assert_eq!(ps.playlist[1].filename, "c");
}

#[test]
fn add_tracks_appends_and_validates() {
    let mut ps = player_with(&["a"], false);
    let present = vec![true, true, false];
    ps.add_tracks(vec!["b".to_string(), "c".to_string()], &present, 5);
    assert_eq!(ps.playlist.len(), 2);
    assert_eq!(ps.playlist[0].filename, "a");
    assert_eq!(ps.playlist[1].filename, "b");
}

#[test]
fn add_tracks_stamps_on_empty_to_nonempty_while_playing() {
    let mut ps = PlayerState::new();
    ps.play(1);
    assert_eq!(ps.current_item_start_ts, 0);
    let present = vec![true];
    ps.add_tracks(vec!["a".to_string()], &present, 77);
    assert_eq!(ps.current_item_start_ts, 77);
}

#[test]
fn snapshot_restores_and_clamps_the_cursor() {
    let ps = PlayerState::from_snapshot(
        PlaybackState::Playing,
        vec!["a".to_string(), "b".to_string()],
        7,
        123,
        456,
        false,
    );
    assert!(matches!(ps.state, PlaybackState::Playing));
    assert_eq!(ps.playlist.len(), 2);
    assert_eq!(ps.playlist[0].filename, "a");
    // the saved cursor pointed past the playlist: it comes back in range
    assert_eq!(ps.current_item, 0);
    assert_eq!(ps.current_offset, 123);
    assert_eq!(ps.current_item_start_ts, 456);
    assert!(!ps.consume);
}

#[test]
fn now_playing_reports_only_while_playing() {
    let mut ps = player_with(&["some/file.mp3"], false);
    assert!(ps.now_playing().is_none());
    ps.play(10);
    ps.current_offset = 44100;
    let np = ps.now_playing().unwrap();
    assert_eq!(np.start_ts, 10);
    assert_eq!(np.elapsed_frames, 44100);
    // no metadata computed yet: the title falls back to the filename
    assert_eq!(np.track.title, "some/file.mp3");
    assert_eq!(np.track.artist, "");
}
