//! The playback state machine: playlist, play/pause, consume-on-advance,
//! skip semantics and now-playing snapshots.
//!
//! Every transition is stated as a pure function on `PlayerModel`, the
//! mathematical view of `PlayerState`, and each method is proved to effect
//! exactly that transition. Wall-clock time and file existence come in as
//! plain arguments, so the contracts pin every field of the new state.

use vstd::prelude::*;
use crate::audio_file::AudioFileSource;
use crate::audio_source::AudioMetadata;

verus! {

#[derive(PartialEq, Eq, Structural, Clone, Copy, Debug)]
pub enum PlaybackState {
    Playing,
    Paused,
}

/// The shared player state. One writer domain: the render loop and the
/// control dispatcher take turns under one exclusive-access boundary.
pub struct PlayerState {
    pub state: PlaybackState,
    pub playlist: Vec<AudioFileSource>,
    pub current_item: usize,
    pub current_offset: u32,
    pub current_item_start_ts: u64,
    pub consume: bool,
}

/// A point-in-time view of the active track for outside reporting.
pub struct NowPlaying {
    pub track: AudioMetadata,
    /// Elapsed playback, in frames of the track's timeline.
    pub elapsed_frames: u32,
    pub start_ts: u64,
}

impl NowPlaying {
    /// An equal copy of the snapshot.
    pub fn duplicate(&self) -> (r: NowPlaying)
        ensures
            r == *self,
    {
        NowPlaying {
            track: self.track.duplicate(),
            elapsed_frames: self.elapsed_frames,
            start_ts: self.start_ts,
        }
    }
}

/// The mathematical view of a `PlayerState`.
pub ghost struct PlayerModel {
    pub state: PlaybackState,
    pub playlist: Seq<AudioFileSource>,
    pub current_item: int,
    pub current_offset: int,
    pub start_ts: int,
    pub consume: bool,
}

impl View for PlayerState {
    type V = PlayerModel;

    open spec fn view(&self) -> PlayerModel {
        PlayerModel {
            state: self.state,
            playlist: self.playlist@,
            current_item: self.current_item as int,
            current_offset: self.current_offset as int,
            start_ts: self.current_item_start_ts as int,
            consume: self.consume,
        }
    }
}

/// The elements of `s` marked `true` in `m`, in order.
pub open spec fn filter_by_mask<T>(s: Seq<T>, m: Seq<bool>) -> Seq<T>
    recommends
        s.len() == m.len(),
    decreases s.len(),
{
    if s.len() == 0 {
        Seq::empty()
    } else {
        let prefix = filter_by_mask(s.drop_last(), m.drop_last());
        if m.last() {
            prefix.push(s.last())
        } else {
            prefix
        }
    }
}

/// How many of the first `k` marks are `true`.
pub open spec fn count_true(m: Seq<bool>, k: int) -> int
    recommends
        k <= m.len(),
    decreases k,
{
    if k <= 0 {
        0
    } else {
        count_true(m, k - 1) + if m[k - 1] {
            1int
        } else {
            0int
        }
    }
}

/// Filtering one more element keeps it exactly when its mark is `true`.
pub proof fn lemma_filter_by_mask_push<T>(s: Seq<T>, m: Seq<bool>, x: T, b: bool)
    requires
        s.len() == m.len(),
    ensures
        filter_by_mask(s.push(x), m.push(b)) == if b {
            filter_by_mask(s, m).push(x)
        } else {
            filter_by_mask(s, m)
        },
{
    assert(s.push(x).drop_last() =~= s);
    assert(m.push(b).drop_last() =~= m);
    assert(s.push(x).last() == x);
    assert(m.push(b).last() == b);
}

/// The filtered sequence holds exactly as many elements as there are
/// `true` marks.
pub proof fn lemma_filter_by_mask_len<T>(s: Seq<T>, m: Seq<bool>)
    requires
        s.len() == m.len(),
    ensures
        filter_by_mask(s, m).len() == count_true(m, m.len() as int),
    decreases s.len(),
{
    if s.len() > 0 {
        lemma_filter_by_mask_len(s.drop_last(), m.drop_last());
        lemma_count_true_prefix(m, m.len() - 1);
    }
}

/// An entry marked `false` might as well never have been there: filtering
/// the sequence equals filtering the sequence with that entry removed.
pub proof fn lemma_filter_by_mask_skips_false<T>(s: Seq<T>, m: Seq<bool>, i: int)
    requires
        s.len() == m.len(),
        0 <= i < s.len(),
        !m[i],
    ensures
        filter_by_mask(s, m) == filter_by_mask(s.remove(i), m.remove(i)),
    decreases s.len(),
{
    if i == s.len() - 1 {
        assert(s.remove(i) =~= s.drop_last());
        assert(m.remove(i) =~= m.drop_last());
    } else {
        lemma_filter_by_mask_skips_false(s.drop_last(), m.drop_last(), i);
        assert(s.remove(i).drop_last() =~= s.drop_last().remove(i));
        assert(m.remove(i).drop_last() =~= m.drop_last().remove(i));
        assert(s.remove(i).last() == s.last());
        assert(m.remove(i).last() == m.last());
    }
}

/// The count over the first `k` marks ignores everything after them.
proof fn lemma_count_true_prefix(m: Seq<bool>, k: int)
    requires
        0 <= k < m.len(),
    ensures
        count_true(m.drop_last(), k) == count_true(m, k),
    decreases k,
{
    if k > 0 {
        lemma_count_true_prefix(m, k - 1);
    }
}

impl PlayerModel {
    /// The playback cursor points inside the playlist whenever one exists.
    pub open spec fn wf(self) -> bool {
        &&& 0 <= self.current_item
        &&& self.playlist.len() > 0 ==> self.current_item < self.playlist.len()
    }

    /// The state a player starts in.
    pub open spec fn init() -> PlayerModel {
        PlayerModel {
            state: PlaybackState::Paused,
            playlist: Seq::empty(),
            current_item: 0,
            current_offset: 0,
            start_ts: 0,
            consume: true,
        }
    }

    /// The session timestamp after a transition: the wall clock when a
    /// track is actively playing, 0 otherwise.
    pub open spec fn stamp(self, now: u64) -> int {
        if self.playlist.len() > 0 && self.state == PlaybackState::Playing {
            now as int
        } else {
            0
        }
    }

    /// Advancing to the next track. The playhead resets; in consume mode
    /// the current entry leaves the playlist and the cursor comes to the
    /// following track (or the first, when it was the last); otherwise the
    /// cursor cycles. An empty playlist only clears the session timestamp.
    pub open spec fn next_spec(self, now: u64) -> PlayerModel {
        let s1 = if self.playlist.len() == 0 {
            self
        } else if self.consume {
            let pl = self.playlist.remove(self.current_item);
            PlayerModel {
                playlist: pl,
                current_offset: 0,
                current_item: if pl.len() == 0 || self.current_item < pl.len() {
                    self.current_item
                } else {
                    0
                },
                ..self
            }
        } else {
            PlayerModel {
                current_offset: 0,
                current_item: (self.current_item + 1) % (self.playlist.len() as int),
                ..self
            }
        };
        PlayerModel { start_ts: s1.stamp(now), ..s1 }
    }

    /// `k` applications of `next_spec`, all at the same wall-clock time.
    pub open spec fn next_iter(self, now: u64, k: nat) -> PlayerModel
        decreases k,
    {
        if k == 0 {
            self
        } else {
            self.next_spec(now).next_iter(now, (k - 1) as nat)
        }
    }

    /// Skipping: backward jumps are direct and never consume; forward
    /// skips advance track by track, so consume semantics apply to every
    /// intervening entry; skipping to the current track restarts it.
    pub open spec fn skip_to_spec(self, index: int, now: u64) -> PlayerModel {
        if index < self.playlist.len() && index < self.current_item {
            PlayerModel {
                current_item: index,
                current_offset: 0,
                start_ts: if self.state == PlaybackState::Playing {
                    now as int
                } else {
                    self.start_ts
                },
                ..self
            }
        } else if index > self.current_item {
            self.next_iter(now, (index - self.current_item) as nat)
        } else {
            PlayerModel {
                current_offset: 0,
                start_ts: if self.state == PlaybackState::Playing {
                    now as int
                } else {
                    self.start_ts
                },
                ..self
            }
        }
    }

    /// Pausing clears the session timestamp.
    pub open spec fn pause_spec(self) -> PlayerModel {
        PlayerModel { state: PlaybackState::Paused, start_ts: 0, ..self }
    }

    /// Playing stamps the session start when there is something to play.
    pub open spec fn play_spec(self, now: u64) -> PlayerModel {
        let s1 = PlayerModel { state: PlaybackState::Playing, ..self };
        PlayerModel { start_ts: s1.stamp(now), ..s1 }
    }

    /// Play when paused, pause when playing.
    pub open spec fn toggle_spec(self, now: u64) -> PlayerModel {
        if self.state == PlaybackState::Paused {
            self.play_spec(now)
        } else {
            self.pause_spec()
        }
    }

    /// Emptying the playlist resets the cursor, playhead and timestamp.
    pub open spec fn clear_spec(self) -> PlayerModel {
        PlayerModel { playlist: Seq::empty(), current_item: 0, current_offset: 0, start_ts: 0, ..self }
    }

    /// Dropping the entries whose backing file is gone (`present[i]` says
    /// whether entry `i` still exists). The cursor is recomputed so that a
    /// surviving current track stays current; when the current track
    /// itself vanished the cursor lands on the next surviving one, and at
    /// the playlist's end it wraps to the first.
    pub open spec fn validate_spec(self, present: Seq<bool>) -> PlayerModel {
        let pl = filter_by_mask(self.playlist, present);
        let cut = if self.current_item < self.playlist.len() {
            self.current_item
        } else {
            self.playlist.len() as int
        };
        let adj = count_true(present, cut);
        PlayerModel {
            playlist: pl,
            current_item: if adj < pl.len() {
                adj
            } else {
                0
            },
            ..self
        }
    }
}

/// Consume mode on a one-track playlist: advancing empties it.
pub proof fn lemma_next_consumes_last(m: PlayerModel, now: u64)
    requires
        m.wf(),
        m.consume,
        m.playlist.len() == 1,
    ensures
        m.next_spec(now).playlist.len() == 0,
        m.next_spec(now).start_ts == 0,
{
}

/// A backward skip never changes the playlist, whatever the consume flag.
pub proof fn lemma_skip_back_keeps_playlist(m: PlayerModel, index: int, now: u64)
    requires
        m.wf(),
        0 <= index < m.current_item,
    ensures
        m.skip_to_spec(index, now).playlist == m.playlist,
{
}

/// Toggling twice returns to the original playback mode.
pub proof fn lemma_toggle_involution(m: PlayerModel, t1: u64, t2: u64)
    ensures
        m.toggle_spec(t1).toggle_spec(t2).state == m.state,
{
}

/// Advancing a non-consuming player cycles the cursor through the
/// playlist and never changes the playlist itself.
pub proof fn lemma_next_cycles(m: PlayerModel, now: u64)
    requires
        m.wf(),
        !m.consume,
        m.playlist.len() > 0,
    ensures
        m.next_spec(now).playlist == m.playlist,
        m.next_spec(now).current_item == (m.current_item + 1) % (m.playlist.len() as int),
{
}

/// `next_spec` preserves well-formedness.
pub proof fn lemma_next_spec_wf(m: PlayerModel, now: u64)
    requires
        m.wf(),
    ensures
        m.next_spec(now).wf(),
{
}

/// `next_iter` preserves well-formedness.
pub proof fn lemma_next_iter_wf(m: PlayerModel, now: u64, k: nat)
    requires
        m.wf(),
    ensures
        m.next_iter(now, k).wf(),
    decreases k,
{
    if k > 0 {
        lemma_next_spec_wf(m, now);
        lemma_next_iter_wf(m.next_spec(now), now, (k - 1) as nat);
    }
}

/// One more application of `next_spec` on the right.
pub proof fn lemma_next_iter_snoc(m: PlayerModel, now: u64, k: nat)
    ensures
        m.next_iter(now, k).next_spec(now) == m.next_iter(now, k + 1),
    decreases k,
{
    if k == 0 {
        assert(m.next_iter(now, 1) == m.next_spec(now).next_iter(now, 0));
        assert(m.next_spec(now).next_iter(now, 0) == m.next_spec(now));
    } else {
        lemma_next_iter_snoc(m.next_spec(now), now, (k - 1) as nat);
        assert(m.next_iter(now, k) == m.next_spec(now).next_iter(now, (k - 1) as nat));
        assert(m.next_iter(now, k + 1) == m.next_spec(now).next_iter(now, k));
    }
}

impl Default for PlayerState {
    /// A paused player with an empty playlist in consume mode.
    fn default() -> (s: PlayerState)
        ensures
            s@ == PlayerModel::init(),
    {
        PlayerState {
            state: PlaybackState::Paused,
            playlist: Vec::new(),
            current_item: 0,
            current_offset: 0,
            current_item_start_ts: 0,
            consume: true,
        }
    }
}

impl PlayerState {
    pub fn new() -> (s: PlayerState)
        ensures
            s@ == PlayerModel::init(),
    {
        PlayerState::default()
    }

    /// Rebuilds a player from a persisted snapshot: one fresh track per
    /// saved path, and the saved cursor clamped back into the playlist.
    pub fn from_snapshot(
        state: PlaybackState,
        paths: Vec<String>,
        current_item: usize,
        current_offset: u32,
        start_ts: u64,
        consume: bool,
    ) -> (s: PlayerState)
        ensures
            s@.wf(),
            s@.state == state,
            s@.playlist.len() == paths@.len(),
            forall|i: int|
                0 <= i < paths@.len() ==> AudioFileSource::is_fresh(
                    #[trigger] s@.playlist[i],
                    paths@[i]@,
                ),
            s@.current_item == if current_item < paths@.len() || paths@.len() == 0 {
                current_item as int
            } else {
                0
            },
            s@.current_offset == current_offset,
            s@.start_ts == start_ts,
            s@.consume == consume,
    {
        let mut s = PlayerState {
            state,
            playlist: Vec::new(),
            current_item: 0,
            current_offset,
            current_item_start_ts: start_ts,
            consume,
        };
        s.append_fresh(&paths);
        s.current_item = if current_item < s.playlist.len() || s.playlist.len() == 0 {
            current_item
        } else {
            0
        };
        proof {
            assert(s.playlist@ =~= Seq::<AudioFileSource>::empty() + s.playlist@.skip(0));
        }
        s
    }

    /// Empties the playlist and resets cursor, playhead and timestamp.
    pub fn clear(&mut self)
        ensures
            final(self)@ == old(self)@.clear_spec(),
            final(self)@.wf(),
    {
        self.playlist.clear();
        self.current_item = 0;
        self.current_offset = 0;
        self.current_item_start_ts = 0;
    }

    /// Advances to the next track; see `PlayerModel::next_spec`.
    pub fn next(&mut self, now: u64)
        requires
            old(self)@.wf(),
        ensures
            final(self)@ == old(self)@.next_spec(now),
            final(self)@.wf(),
    {
        if self.playlist.len() > 0 {
            self.current_offset = 0;
            if self.consume {
                self.playlist.remove(self.current_item);
                if self.playlist.len() > 0 && self.current_item >= self.playlist.len() {
                    self.current_item = 0;
                }
            } else {
                self.current_item = (self.current_item + 1) % self.playlist.len();
            }
        }
        self.current_item_start_ts = if self.playlist.len() > 0 && self.state
            == PlaybackState::Playing {
            now
        } else {
            0
        };
    }

    /// Jumps or advances to `index`; see `PlayerModel::skip_to_spec`.
    pub fn skip_to(&mut self, index: usize, now: u64)
        requires
            old(self)@.wf(),
        ensures
            final(self)@ == old(self)@.skip_to_spec(index as int, now),
            final(self)@.wf(),
    {
        if index < self.playlist.len() && index < self.current_item {
            self.current_item = index;
            self.current_offset = 0;
            if self.state == PlaybackState::Playing {
                self.current_item_start_ts = now;
            }
        } else if index > self.current_item {
            let diff: usize = index - self.current_item;
            let mut j: usize = 0;
            while j < diff
                invariant
                    j <= diff,
                    self@ == old(self)@.next_iter(now, j as nat),
                    self@.wf(),
                decreases diff - j,
            {
                self.next(now);
                proof {
                    lemma_next_iter_snoc(old(self)@, now, j as nat);
                }
                j = j + 1;
            }
            proof {
                lemma_next_iter_wf(old(self)@, now, diff as nat);
            }
        } else {
            self.current_offset = 0;
            if self.state == PlaybackState::Playing {
                self.current_item_start_ts = now;
            }
        }
    }

    /// Pauses playback and clears the session timestamp.
    pub fn pause(&mut self)
        ensures
            final(self)@ == old(self)@.pause_spec(),
    {
        self.state = PlaybackState::Paused;
        self.current_item_start_ts = 0;
    }

    /// Starts playback and stamps the session start.
    pub fn play(&mut self, now: u64)
        ensures
            final(self)@ == old(self)@.play_spec(now),
    {
        self.state = PlaybackState::Playing;
        self.current_item_start_ts = if self.playlist.len() > 0 {
            now
        } else {
            0
        };
    }

    /// Plays when paused, pauses when playing.
    pub fn toggle(&mut self, now: u64)
        ensures
            final(self)@ == old(self)@.toggle_spec(now),
    {
        match self.state {
            PlaybackState::Paused => self.play(now),
            PlaybackState::Playing => self.pause(),
        }
    }

    /// Drops the playlist entries marked missing; see
    /// `PlayerModel::validate_spec`.
    pub fn validate(&mut self, present: &Vec<bool>)
        requires
            present@.len() == old(self)@.playlist.len(),
        ensures
            final(self)@ == old(self)@.validate_spec(present@),
            final(self)@.wf(),
    {
        let n: usize = self.playlist.len();
        let mut kept: Vec<AudioFileSource> = Vec::new();
        let mut i: usize = 0;
        while i < n
            invariant
                i <= n,
                n == old(self)@.playlist.len(),
                present@.len() == n,
                self.playlist@ =~= old(self)@.playlist.skip(i as int),
                kept@ == filter_by_mask(
                    old(self)@.playlist.take(i as int),
                    present@.take(i as int),
                ),
                self.current_item == old(self)@.current_item,
                self.current_offset == old(self)@.current_offset,
                self.current_item_start_ts == old(self)@.start_ts,
                self.state == old(self)@.state,
                self.consume == old(self)@.consume,
            decreases n - i,
        {
            let t = self.playlist.remove(0);
            proof {
                assert(old(self)@.playlist.skip(i as int).remove(0) =~= old(
                    self,
                )@.playlist.skip(i + 1));
                assert(old(self)@.playlist.take(i + 1) =~= old(self)@.playlist.take(
                    i as int,
                ).push(old(self)@.playlist[i as int]));
                assert(present@.take(i + 1) =~= present@.take(i as int).push(
                    present@[i as int],
                ));
                lemma_filter_by_mask_push(
                    old(self)@.playlist.take(i as int),
                    present@.take(i as int),
                    old(self)@.playlist[i as int],
                    present@[i as int],
                );
            }
            if present[i] {
                kept.push(t);
            }
            i = i + 1;
        }
        proof {
            assert(old(self)@.playlist.take(n as int) =~= old(self)@.playlist);
            assert(present@.take(n as int) =~= present@);
            lemma_filter_by_mask_len(old(self)@.playlist, present@);
        }
        let cut: usize = if self.current_item < n {
            self.current_item
        } else {
            n
        };
        let mut cnt: usize = 0;
        let mut j: usize = 0;
        while j < cut
            invariant
                j <= cut,
                cut <= n,
                n == present@.len(),
                cnt == count_true(present@, j as int),
                cnt <= j,
            decreases cut - j,
        {
            if present[j] {
                cnt = cnt + 1;
            }
            j = j + 1;
        }
        self.playlist = kept;
        self.current_item = if cnt < self.playlist.len() {
            cnt
        } else {
            0
        };
        proof {
            lemma_count_true_le(present@, cut as int);
        }
    }

    /// Appends one fresh track per path, drops the entries whose backing
    /// file is missing (`present[i]` says whether entry `i` of the grown
    /// playlist exists), and stamps the session start when a playing
    /// player's playlist turned from empty to non-empty.
    #[verifier::rlimit(60)]
    pub fn add_tracks(&mut self, paths: Vec<String>, present: &Vec<bool>, now: u64)
        requires
            old(self)@.wf(),
            present@.len() == old(self)@.playlist.len() + paths@.len(),
        ensures
            final(self)@.wf(),
            exists|fresh: Seq<AudioFileSource>|
                {
                    &&& #[trigger] fresh.len() == paths@.len()
                    &&& (forall|i: int|
                        0 <= i < fresh.len() ==> AudioFileSource::is_fresh(
                            #[trigger] fresh[i],
                            paths@[i]@,
                        ))
                    &&& {
                        let grown = PlayerModel {
                            playlist: old(self)@.playlist + fresh,
                            ..old(self)@
                        };
                        let validated = grown.validate_spec(present@);
                        final(self)@ == PlayerModel {
                            start_ts: if validated.playlist.len() > 0 && old(
                                self,
                            )@.playlist.len() == 0 && old(self)@.state == PlaybackState::Playing {
                                now as int
                            } else {
                                validated.start_ts
                            },
                            ..validated
                        }
                    }
                },
    {
        let ghost old_model = old(self)@;
        let init_playlist_len: usize = self.playlist.len();
        self.append_fresh(&paths);
        let ghost fresh = self.playlist@.skip(old_model.playlist.len() as int);
        proof {
            assert(self.playlist@ =~= old_model.playlist + fresh);
        }
        self.validate(present);
        if self.playlist.len() > 0 && init_playlist_len == 0 && self.state
            == PlaybackState::Playing {
            self.current_item_start_ts = now;
        }
        proof {
            let grown = PlayerModel { playlist: old_model.playlist + fresh, ..old_model };
            let validated = grown.validate_spec(present@);
            assert(fresh.len() == paths@.len() && (forall|i: int|
                0 <= i < fresh.len() ==> AudioFileSource::is_fresh(
                    #[trigger] fresh[i],
                    paths@[i]@,
                )) && self@ == PlayerModel {
                start_ts: if validated.playlist.len() > 0 && old_model.playlist.len() == 0
                    && old_model.state == PlaybackState::Playing {
                    now as int
                } else {
                    validated.start_ts
                },
                ..validated
            });
        }
    }

    /// Appends one fresh track per path; nothing else changes.
    fn append_fresh(&mut self, paths: &Vec<String>)
        ensures
            final(self).playlist@.len() == old(self).playlist@.len() + paths@.len(),
            ({
                let fresh = final(self).playlist@.skip(old(self).playlist@.len() as int);
                &&& final(self).playlist@ == old(self).playlist@ + fresh
                &&& forall|i: int|
                    0 <= i < fresh.len() ==> AudioFileSource::is_fresh(
                        #[trigger] fresh[i],
                        paths@[i]@,
                    )
            }),
            final(self).state == old(self).state,
            final(self).current_item == old(self).current_item,
            final(self).current_offset == old(self).current_offset,
            final(self).current_item_start_ts == old(self).current_item_start_ts,
            final(self).consume == old(self).consume,
    {
        let n: usize = self.playlist.len();
        let mut k: usize = 0;
        while k < paths.len()
            invariant
                k <= paths@.len(),
                n == old(self).playlist@.len(),
                self.playlist@.len() == n + k,
                self.playlist@.subrange(0, n as int) =~= old(self).playlist@,
                forall|i: int|
                    0 <= i < k ==> AudioFileSource::is_fresh(
                        #[trigger] self.playlist@[n + i],
                        paths@[i]@,
                    ),
                self.current_item == old(self).current_item,
                self.current_offset == old(self).current_offset,
                self.current_item_start_ts == old(self).current_item_start_ts,
                self.state == old(self).state,
                self.consume == old(self).consume,
            decreases paths@.len() - k,
        {
            let src = AudioFileSource::new(paths[k].clone());
            self.playlist.push(src);
            k = k + 1;
        }
        proof {
            let fresh = self.playlist@.skip(n as int);
            assert(self.playlist@ =~= old(self).playlist@ + fresh);
            assert forall|i: int| 0 <= i < fresh.len() implies AudioFileSource::is_fresh(
                #[trigger] fresh[i],
                paths@[i]@,
            ) by {
                assert(fresh[i] == self.playlist@[n + i]);
            }
        }
    }

    /// A snapshot of the active track: its metadata (the filename standing
    /// in when none was computed), the elapsed frames and the session
    /// start. `None` whenever paused or out of tracks.
    pub fn now_playing(&self) -> (r: Option<NowPlaying>)
        requires
            self@.wf(),
        ensures
            match r {
                Some(np) => {
                    &&& self@.playlist.len() > 0
                    &&& self@.state == PlaybackState::Playing
                    &&& np.start_ts == self@.start_ts
                    &&& np.elapsed_frames == self@.current_offset
                    &&& {
                        let t = self@.playlist[self@.current_item];
                        match t.meta() {
                            Some(m) => np.track == m,
                            None => {
                                &&& np.track.dur_ms == 0
                                &&& np.track.artist@ == Seq::<char>::empty()
                                &&& np.track.title@ == t.name()
                                &&& np.track.album@ == Seq::<char>::empty()
                            },
                        }
                    }
                },
                None => !(self@.playlist.len() > 0 && self@.state == PlaybackState::Playing),
            },
    {
        if self.playlist.len() > 0 && self.state == PlaybackState::Playing {
            let track = &self.playlist[self.current_item];
            let md = match track.get_metadata() {
                Some(m) => m.duplicate(),
                None => AudioMetadata::from_tags(track.path(), 0, None, None, None),
            };
            Some(
                NowPlaying {
                    track: md,
                    elapsed_frames: self.current_offset,
                    start_ts: self.current_item_start_ts,
                },
            )
        } else {
            None
        }
    }
}

/// At most `k` of the first `k` marks are `true`.
proof fn lemma_count_true_le(m: Seq<bool>, k: int)
    requires
        0 <= k <= m.len(),
    ensures
        0 <= count_true(m, k) <= k,
    decreases k,
{
    if k > 0 {
        lemma_count_true_le(m, k - 1);
    }
}

} // verus!
