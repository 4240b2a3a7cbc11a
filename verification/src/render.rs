//! The real-time consumption loop's core: pulls sample words out of the
//! current track's block cache and writes them into the hardware period's
//! channel buffers, advancing the shared playback cursor.
//!
//! The caller owns the hardware callback and the decode work: when a frame
//! has no cached block, rendering stops at that frame and reports the
//! offset it needs, so the caller can decode further (or advance the
//! playlist when the source is exhausted) and resume the period.

use vstd::prelude::*;
use crate::audio_source::AudioBuffer;
use crate::audio_source::first_covering;
use crate::player_state::PlaybackState;
use crate::player_state::PlayerState;

verus! {

/// How a render call ended.
#[derive(PartialEq, Eq, Structural, Clone, Copy, Debug)]
pub enum RenderStatus {
    /// Paused or out of tracks: the whole period is silence.
    Silence,
    /// Every requested frame was written.
    Complete,
    /// Frame `frames_done` needs a block covering `offset` that the cache
    /// does not hold: decode further or advance, then resume there.
    NeedBuffer { frames_done: usize, offset: u32 },
}

/// The sample word the render loop emits on output channel `ch` for frame
/// `o` of the source: channels cycle when the output has more than the
/// source.
pub open spec fn source_sample(cache: Seq<AudioBuffer>, o: u32, ch: int) -> u32
    recommends
        first_covering(cache, o) is Some,
{
    let b = cache[first_covering(cache, o).unwrap()];
    b.sample_at(ch % (b.samples@.len() as int), o)
}

/// Fills frames `[from_frame, num_frames)` of the period's channel
/// buffers from the current track's cache, advancing the playback cursor
/// one frame at a time, until the period is complete or a frame's block
/// is missing from the cache.
pub fn render_period(
    ps: &mut PlayerState,
    out: &mut Vec<Vec<u32>>,
    from_frame: usize,
    num_frames: usize,
) -> (st: RenderStatus)
    requires
        old(ps)@.wf(),
        from_frame <= num_frames,
        old(ps)@.current_offset + (num_frames - from_frame) <= u32::MAX,
        forall|c: int|
            0 <= c < old(out)@.len() ==> (#[trigger] old(out)@[c])@.len() == num_frames,
        old(ps)@.playlist.len() > 0 ==> old(ps)@.playlist[old(ps)@.current_item].wf(),
    ensures
        final(ps)@.state == old(ps)@.state,
        final(ps)@.playlist == old(ps)@.playlist,
        final(ps)@.current_item == old(ps)@.current_item,
        final(ps)@.start_ts == old(ps)@.start_ts,
        final(ps)@.consume == old(ps)@.consume,
        final(ps)@.wf(),
        final(out)@.len() == old(out)@.len(),
        forall|c: int| 0 <= c < final(out)@.len() ==> (#[trigger] final(out)@[c])@.len() == num_frames,
        ({
            let cache = old(ps)@.playlist[old(ps)@.current_item].cache();
            let start = old(ps)@.current_offset;
            match st {
                RenderStatus::Silence => {
                    &&& (old(ps)@.state == PlaybackState::Paused || old(ps)@.playlist.len() == 0)
                    &&& final(ps)@.current_offset == start
                    &&& forall|c: int, j: int|
                        0 <= c < final(out)@.len() && 0 <= j < num_frames ==> (#[trigger] final(out)@[c]@[j]) == 0
                },
                RenderStatus::Complete => {
                    &&& old(ps)@.state == PlaybackState::Playing
                    &&& old(ps)@.playlist.len() > 0
                    &&& final(ps)@.current_offset == start + (num_frames - from_frame)
                    &&& forall|o: u32|
                        start <= o < start + (num_frames - from_frame) ==> first_covering(
                            cache,
                            o,
                        ) is Some
                    &&& forall|c: int, j: int|
                        0 <= c < final(out)@.len() && from_frame <= j < num_frames ==> (#[trigger] final(out)@[c]@[j]) == source_sample(
                            cache,
                            (start + j - from_frame) as u32,
                            c,
                        )
                    &&& forall|c: int, j: int|
                        0 <= c < final(out)@.len() && 0 <= j < from_frame ==> (#[trigger] final(out)@[c]@[j]) == old(out)@[c]@[j]
                },
                RenderStatus::NeedBuffer { frames_done, offset } => {
                    &&& old(ps)@.state == PlaybackState::Playing
                    &&& old(ps)@.playlist.len() > 0
                    &&& from_frame <= frames_done < num_frames
                    &&& offset == start + (frames_done - from_frame)
                    &&& first_covering(cache, offset) is None
                    &&& final(ps)@.current_offset == offset
                    &&& forall|o2: u32|
                        start <= o2 < offset ==> first_covering(cache, o2) is Some
                    &&& forall|c: int, j: int|
                        0 <= c < final(out)@.len() && from_frame <= j < frames_done ==> (#[trigger] final(out)@[c]@[j]) == source_sample(
                            cache,
                            (start + j - from_frame) as u32,
                            c,
                        )
                    &&& forall|c: int, j: int|
                        0 <= c < final(out)@.len() && (0 <= j < from_frame || frames_done <= j
                            < num_frames) ==> (#[trigger] final(out)@[c]@[j]) == old(out)@[c]@[j]
                },
            }
        }),
{
    let playing = match ps.state {
        PlaybackState::Playing => true,
        PlaybackState::Paused => false,
    };
    if !playing || ps.playlist.len() == 0 {
        fill_zero(out, num_frames);
        return RenderStatus::Silence;
    }

    let track = &ps.playlist[ps.current_item];
    let start: u32 = ps.current_offset;

    let mut d: usize = from_frame;
    let mut found_gap: bool = false;
    while d < num_frames && !found_gap
        invariant
            from_frame <= d <= num_frames,
            start + (num_frames - from_frame) <= u32::MAX,
            forall|o2: u32|
                start <= o2 < start + (d - from_frame) ==> first_covering(
                    track.cache(),
                    o2,
                ) is Some,
            found_gap ==> d < num_frames && first_covering(
                track.cache(),
                (start + d - from_frame) as u32,
            ) is None,
        decreases num_frames - d + (if found_gap {
            0int
        } else {
            1int
        }),
    {
        let o: u32 = start + (d - from_frame) as u32;
        match track.cached_buffer(o) {
            Some(_) => {
                d = d + 1;
            },
            None => {
                found_gap = true;
            },
        }
    }

    let nch_out: usize = out.len();
    let mut ch: usize = 0;
    while ch < nch_out
        invariant
            ch <= nch_out,
            out@.len() == nch_out,
            nch_out == old(out)@.len(),
            from_frame <= d <= num_frames,
            start + (num_frames - from_frame) <= u32::MAX,
            track.wf(),
            forall|o2: u32|
                start <= o2 < start + (d - from_frame) ==> first_covering(
                    track.cache(),
                    o2,
                ) is Some,
            forall|c: int|
                0 <= c < nch_out ==> (#[trigger] out@[c])@.len() == num_frames,
            forall|c: int, j: int|
                0 <= c < ch && from_frame <= j < d ==> (#[trigger] out@[c]@[j]) == source_sample(
                    track.cache(),
                    (start + j - from_frame) as u32,
                    c,
                ),
            forall|c: int, j: int|
                0 <= c < ch && (0 <= j < from_frame || d <= j < num_frames) ==> (#[trigger] out@[c]@[j])
                    == old(out)@[c]@[j],
            forall|c: int| ch <= c < nch_out ==> (#[trigger] out@[c]) == old(out)@[c],
        decreases nch_out - ch,
    {
        let mut col: Vec<u32> = out.remove(ch);
        let mut j: usize = from_frame;
        while j < d
            invariant
                from_frame <= j <= d <= num_frames,
                start + (num_frames - from_frame) <= u32::MAX,
                track.wf(),
                col@.len() == num_frames,
                forall|o2: u32|
                    start <= o2 < start + (d - from_frame) ==> first_covering(
                        track.cache(),
                        o2,
                    ) is Some,
                forall|jj: int|
                    from_frame <= jj < j ==> (#[trigger] col@[jj]) == source_sample(
                        track.cache(),
                        (start + jj - from_frame) as u32,
                        ch as int,
                    ),
                forall|jj: int|
                    0 <= jj < from_frame || j <= jj < num_frames ==> (#[trigger] col@[jj])
                        == old(out)@[ch as int]@[jj],
            decreases d - j,
        {
            let o: u32 = start + (j - from_frame) as u32;
            match track.cached_buffer(o) {
                Some(b) => {
                    proof {
                        crate::audio_source::lemma_first_covering(track.cache(), o);
                    }
                    let nch_src: usize = b.samples.len();
                    let word: u32 = b.samples[ch % nch_src][(o - b.offset) as usize];
                    col.set(j, word);
                },
                None => {
                    proof {
                        assert(false);
                    }
                },
            }
            j = j + 1;
        }
        out.insert(ch, col);
        ch = ch + 1;
    }

    ps.current_offset = start + (d - from_frame) as u32;
    if found_gap {
        RenderStatus::NeedBuffer { frames_done: d, offset: ps.current_offset }
    } else {
        RenderStatus::Complete
    }
}

/// Fills every channel's first `num_frames` positions with silence.
fn fill_zero(out: &mut Vec<Vec<u32>>, num_frames: usize)
    requires
        forall|c: int|
            0 <= c < old(out)@.len() ==> (#[trigger] old(out)@[c])@.len() == num_frames,
    ensures
        final(out)@.len() == old(out)@.len(),
        forall|c: int| 0 <= c < final(out)@.len() ==> (#[trigger] final(out)@[c])@.len() == num_frames,
        forall|c: int, j: int|
            0 <= c < final(out)@.len() && 0 <= j < num_frames ==> (#[trigger] final(out)@[c]@[j])
                == 0,
{
    let nch_out: usize = out.len();
    let mut ch: usize = 0;
    while ch < nch_out
        invariant
            ch <= nch_out,
            out@.len() == nch_out,
            nch_out == old(out)@.len(),
            forall|c: int| 0 <= c < nch_out ==> (#[trigger] out@[c])@.len() == num_frames,
            forall|c: int, j: int|
                0 <= c < ch && 0 <= j < num_frames ==> (#[trigger] out@[c]@[j]) == 0,
        decreases nch_out - ch,
    {
        let mut col: Vec<u32> = out.remove(ch);
        let mut j: usize = 0;
        while j < num_frames
            invariant
                j <= num_frames,
                col@.len() == num_frames,
                forall|jj: int| 0 <= jj < j ==> (#[trigger] col@[jj]) == 0,
            decreases num_frames - j,
        {
            col.set(j, 0);
            j = j + 1;
        }
        out.insert(ch, col);
        ch = ch + 1;
    }
}

} // verus!
