use pjp::AudioFileSource;
use pjp::AudioMetadata;
use pjp::CACHE_BOUND;

fn block(frames: usize, value: u32) -> Vec<Vec<u32>> {
    vec![vec![value; frames], vec![value; frames]]
}

#[test]
fn fresh_track_has_nothing_cached() {
    let mut t = AudioFileSource::new("a.mp3".to_string());
    assert!(t.needs_open());
    assert!(t.cached_buffer(0).is_none());
    assert_eq!(t.cache_len(), 0);
    t.on_opened();
    assert!(!t.needs_open());
}

#[test]
fn decoded_blocks_cover_their_offsets() {
    let mut t = AudioFileSource::new("a.mp3".to_string());
    t.on_opened();
    t.on_block_decoded(block(1024, 5), 44100);
    t.on_block_decoded(block(1024, 6), 44100);
    let b = t.cached_buffer(0).unwrap();
    assert_eq!(b.offset, 0);
    assert_eq!(b.length, 1024);
    assert_eq!(b.samples[0][0], 5);
    let b = t.cached_buffer(1500).unwrap();
    assert_eq!(b.offset, 1024);
    assert_eq!(b.samples[1][0], 6);
    assert!(t.cached_buffer(2048).is_none());
}

#[test]
fn seek_moves_the_cursor() {
    let mut t = AudioFileSource::new("a.mp3".to_string());
    t.on_opened();
    assert!(t.needs_seek(100));
    t.on_seek(90);
    assert!(!t.needs_seek(90));
    t.on_block_decoded(block(10, 1), 44100);
    let b = t.cached_buffer(95).unwrap();
    assert_eq!(b.offset, 90);
    assert_eq!(b.length, 10);
}

#[test]
fn cache_never_exceeds_its_bound() {
    let mut t = AudioFileSource::new("a.mp3".to_string());
    t.on_opened();
    for i in 0..(CACHE_BOUND + 15) {
        t.on_block_decoded(block(4, i as u32), 44100);
        assert!(t.cache_len() <= CACHE_BOUND);
    }
    assert_eq!(t.cache_len(), CACHE_BOUND);
    // the oldest blocks were evicted in insertion order
    assert!(t.cached_buffer(0).is_none());
    assert!(t.cached_buffer(15 * 4 - 1).is_none());
    assert_eq!(t.cached_buffer(15 * 4).unwrap().samples[0][0], 15);
}

#[test]
fn repeated_scans_return_identical_content() {
    let mut t = AudioFileSource::new("a.mp3".to_string());
    t.on_opened();
    t.on_block_decoded(block(8, 3), 44100);
    let first: Vec<u32> = t.cached_buffer(2).unwrap().samples[0].clone();
    let second: Vec<u32> = t.cached_buffer(2).unwrap().samples[0].clone();
    assert_eq!(first, second);
}

#[test]
fn metadata_is_memoized() {
    let mut t = AudioFileSource::new("a.mp3".to_string());
    assert!(t.needs_metadata());
    assert!(t.get_metadata().is_none());
    let m = AudioMetadata::from_tags(
        &"a.mp3".to_string(),
        95000,
        Some("artist".to_string()),
        None,
        Some("album".to_string()),
    );
    assert_eq!(m.title, "a.mp3");
    assert_eq!(m.artist, "artist");
    assert_eq!(m.album, "album");
    assert_eq!(m.dur_ms, 95000);
    t.set_metadata(m);
    assert!(!t.needs_metadata());
    assert_eq!(t.get_metadata().unwrap().artist, "artist");
}
