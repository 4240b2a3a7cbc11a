use pjp::AudioFileSource;
use pjp::PlayerState;
use pjp::RenderStatus;
use pjp::render_period;

fn out_buffers(channels: usize, frames: usize) -> Vec<Vec<u32>> {
    vec![vec![9999; frames]; channels]
}

fn playing_player(blocks: &[(usize, u32)]) -> PlayerState {
    let mut track = AudioFileSource::new("a.mp3".to_string());
    track.on_opened();
    for (frames, value) in blocks {
        track.on_block_decoded(vec![vec![*value; *frames], vec![*value + 1; *frames]], 44100);
    }
    let mut ps = PlayerState::new();
    ps.playlist.push(track);
    ps.play(1);
    ps
}

#[test]
fn paused_player_renders_silence() {
    let mut ps = PlayerState::new();
    ps.playlist.push(AudioFileSource::new("a.mp3".to_string()));
    let mut out = out_buffers(2, 16);
    let st = render_period(&mut ps, &mut out, 0, 16);
    assert_eq!(st, RenderStatus::Silence);
    for ch in &out {
        for s in ch {
            assert_eq!(*s, 0);
        }
    }
    assert_eq!(ps.current_offset, 0);
}

#[test]
fn empty_playlist_renders_silence() {
    let mut ps = PlayerState::new();
    ps.play(1);
    let mut out = out_buffers(1, 8);
    let st = render_period(&mut ps, &mut out, 0, 8);
    assert_eq!(st, RenderStatus::Silence);
    assert_eq!(out[0], vec![0; 8]);
}

#[test]
fn renders_cached_samples_and_advances_cursor() {
    let mut ps = playing_player(&[(8, 10), (8, 20)]);
    let mut out = out_buffers(2, 12);
    let st = render_period(&mut ps, &mut out, 0, 12);
    assert_eq!(st, RenderStatus::Complete);
    assert_eq!(ps.current_offset, 12);
    // first block holds frames 0..8, second 8..16
    assert_eq!(out[0][0], 10);
    assert_eq!(out[0][7], 10);
    assert_eq!(out[0][8], 20);
    assert_eq!(out[0][11], 20);
    // the second output channel reads the second source channel
    assert_eq!(out[1][0], 11);
    assert_eq!(out[1][8], 21);
}

#[test]
fn output_channels_cycle_over_source_channels() {
    let mut ps = playing_player(&[(4, 10)]);
    let mut out = out_buffers(3, 4);
    let st = render_period(&mut ps, &mut out, 0, 4);
    assert_eq!(st, RenderStatus::Complete);
    assert_eq!(out[0][0], 10);
    assert_eq!(out[1][0], 11);
    // the third output channel wraps back to the first source channel
    assert_eq!(out[2][0], 10);
}

#[test]
fn missing_block_stops_the_period_where_it_is_needed() {
    let mut ps = playing_player(&[(8, 10)]);
    let mut out = out_buffers(1, 12);
    let st = render_period(&mut ps, &mut out, 0, 12);
    assert_eq!(st, RenderStatus::NeedBuffer { frames_done: 8, offset: 8 });
    assert_eq!(ps.current_offset, 8);
    assert_eq!(out[0][7], 10);
    // the remainder of the period was left untouched
    assert_eq!(out[0][8], 9999);
}

#[test]
fn resumes_a_period_after_more_decoding() {
    let mut ps = playing_player(&[(8, 10)]);
    let mut out = out_buffers(1, 12);
    let st = render_period(&mut ps, &mut out, 0, 12);
    assert_eq!(st, RenderStatus::NeedBuffer { frames_done: 8, offset: 8 });
    // the caller decodes further, then resumes the same period
    ps.playlist[0].on_block_decoded(vec![vec![30; 8]], 44100);
    let st = render_period(&mut ps, &mut out, 8, 12);
    assert_eq!(st, RenderStatus::Complete);
    assert_eq!(ps.current_offset, 12);
    assert_eq!(out[0][7], 10);
    assert_eq!(out[0][8], 30);
    assert_eq!(out[0][11], 30);
}
