//! The scrobble reporter's logic: request signing, the batch queue, the
//! retry policy, and the decisions taken when a new now-playing snapshot
//! arrives. The HTTP transport stays with the caller; every decision and
//! every queue movement is verified here.

use vstd::prelude::*;
use vstd::string::StringSliceAdditionalSpecFns;
use vstd::string::StrSliceExecFns;
use vstd::slice::slice_to_vec;
use crate::player_state::NowPlaying;

verus! {

/// The frames-per-second figure used to convert the playhead to seconds.
pub const NOMINAL_SAMPLE_RATE: u64 = 44100;

/// At most this many queued tracks are reported per request.
pub const SCROBBLE_BATCH: usize = 50;

/// An artist as the listening service reports it.
pub struct LastFMArtist {
    pub name: String,
    pub mbid: Option<String>,
    pub url: String,
}

/// A date as the listening service reports it.
pub struct LastFMDate {
    pub text: String,
    pub uts: String,
}

/// One loved track as the listening service reports it.
pub struct LastFMTrack {
    pub mbid: Option<String>,
    pub name: String,
    pub url: String,
    pub artist: LastFMArtist,
    pub date: LastFMDate,
}

/// The track list of a loved-tracks response.
pub struct LastFMTracks {
    pub track: Vec<LastFMTrack>,
}

/// A loved-tracks response.
pub struct GetLovedTracksResult {
    pub lovedtracks: LastFMTracks,
}

/// Lexicographic order on byte strings: `a` sorts at or before `b`.
pub open spec fn bytes_le(a: Seq<u8>, b: Seq<u8>) -> bool
    decreases a.len(),
{
    if a.len() == 0 {
        true
    } else if b.len() == 0 {
        false
    } else if a[0] < b[0] {
        true
    } else if a[0] > b[0] {
        false
    } else {
        bytes_le(a.drop_first(), b.drop_first())
    }
}

/// `bytes_le` ignores an equal prefix.
proof fn lemma_bytes_le_skip(a: Seq<u8>, b: Seq<u8>, i: int)
    requires
        0 <= i <= a.len(),
        i <= b.len(),
        forall|j: int| 0 <= j < i ==> a[j] == b[j],
    ensures
        bytes_le(a, b) == bytes_le(a.skip(i), b.skip(i)),
    decreases i,
{
    if i == 0 {
        assert(a.skip(0) =~= a);
        assert(b.skip(0) =~= b);
    } else {
        assert(a[0] == b[0]);
        assert(bytes_le(a, b) == bytes_le(a.drop_first(), b.drop_first()));
        lemma_bytes_le_skip(a.drop_first(), b.drop_first(), i - 1);
        assert(a.skip(i) =~= a.drop_first().skip(i - 1));
        assert(b.skip(i) =~= b.drop_first().skip(i - 1));
    }
}

/// Compares two byte strings lexicographically.
fn bytes_le_exec(a: &[u8], b: &[u8]) -> (r: bool)
    ensures
        r == bytes_le(a@, b@),
{
    let na: usize = a.len();
    let nb: usize = b.len();
    let mut i: usize = 0;
    while i < na && i < nb
        invariant
            0 <= i <= na,
            i <= nb,
            na == a@.len(),
            nb == b@.len(),
            forall|j: int| 0 <= j < i ==> a@[j] == b@[j],
        decreases na - i,
    {
        if a[i] < b[i] {
            proof {
                lemma_bytes_le_skip(a@, b@, i as int);
            }
            return true;
        }
        if a[i] > b[i] {
            proof {
                lemma_bytes_le_skip(a@, b@, i as int);
            }
            return false;
        }
        i = i + 1;
    }
    proof {
        lemma_bytes_le_skip(a@, b@, i as int);
        if i == na {
            assert(a@.skip(i as int) =~= Seq::<u8>::empty());
        } else {
            assert(b@.skip(i as int) =~= Seq::<u8>::empty());
            assert(a@.skip(i as int).len() > 0);
        }
    }
    na <= nb
}

/// The key a parameter pair sorts under: the UTF-8 bytes of its name.
pub open spec fn key_bytes(p: (String, String)) -> Seq<u8> {
    vstd::utf8::encode_utf8(p.0@)
}

/// The bytes a parameter pair contributes to the signature: name, then
/// value.
pub open spec fn pair_bytes(p: (String, String)) -> Seq<u8> {
    vstd::utf8::encode_utf8(p.0@) + vstd::utf8::encode_utf8(p.1@)
}

/// Stable insertion into a key-sorted sequence: after every pair whose key
/// sorts at or before the new one.
pub open spec fn insert_pair(s: Seq<(String, String)>, p: (String, String)) -> Seq<
    (String, String),
>
    decreases s.len(),
{
    if s.len() == 0 {
        seq![p]
    } else if bytes_le(key_bytes(s[0]), key_bytes(p)) {
        seq![s[0]] + insert_pair(s.drop_first(), p)
    } else {
        seq![p] + s
    }
}

/// The pairs sorted by key, stably: insertion sort from the left.
pub open spec fn sort_pairs(s: Seq<(String, String)>) -> Seq<(String, String)>
    decreases s.len(),
{
    if s.len() == 0 {
        Seq::empty()
    } else {
        insert_pair(sort_pairs(s.drop_last()), s.last())
    }
}

/// The concatenation of every pair's bytes, in order.
pub open spec fn cat_pairs(s: Seq<(String, String)>) -> Seq<u8>
    decreases s.len(),
{
    if s.len() == 0 {
        Seq::empty()
    } else {
        cat_pairs(s.drop_last()) + pair_bytes(s.last())
    }
}

/// The bytes the request signature digests: every parameter pair in key
/// order, name then value, then the shared secret.
pub open spec fn sig_input(pairs: Seq<(String, String)>, secret: Seq<u8>) -> Seq<u8> {
    cat_pairs(sort_pairs(pairs)) + secret
}

/// The digest of the bytes, as 32 lowercase hex digits. The digest is a
/// function of the bytes alone.
pub uninterp spec fn md5_hex_of(bytes: Seq<u8>) -> Seq<char>;

/// Relies on md5::compute and its Digest's LowerHex impl: the 128-bit
/// digest of the bytes, printed as two lowercase hex digits per digest
/// byte, 32 characters in all.
#[verifier::external_body]
fn md5_hex(bytes: &[u8]) -> (r: String)
    ensures
        r@ == md5_hex_of(bytes@),
        r@.len() == 32,
{
    format!("{:x}", md5::compute(bytes))
}

/// Inserting where the scan stopped is the stable insertion point.
proof fn lemma_insert_pair_at(s: Seq<(String, String)>, p: (String, String), i: int)
    requires
        0 <= i <= s.len(),
        forall|j: int| 0 <= j < i ==> bytes_le(key_bytes(#[trigger] s[j]), key_bytes(p)),
        i < s.len() ==> !bytes_le(key_bytes(s[i]), key_bytes(p)),
    ensures
        insert_pair(s, p) == s.take(i) + seq![p] + s.skip(i),
    decreases i,
{
    if i == 0 {
        if s.len() == 0 {
            assert(insert_pair(s, p) =~= s.take(0) + seq![p] + s.skip(0));
        } else {
            assert(insert_pair(s, p) =~= s.take(0) + seq![p] + s.skip(0));
        }
    } else {
        assert(bytes_le(key_bytes(s[0]), key_bytes(p)));
        let sub = s.drop_first();
        assert(forall|j: int|
            0 <= j < i - 1 ==> bytes_le(key_bytes(#[trigger] sub[j]), key_bytes(p)));
        assert(i - 1 < sub.len() ==> !bytes_le(key_bytes(sub[i - 1]), key_bytes(p)));
        lemma_insert_pair_at(sub, p, i - 1);
        assert(seq![s[0]] + (sub.take(i - 1) + seq![p] + sub.skip(i - 1)) =~= s.take(i) + seq![p]
            + s.skip(i));
    }
}

/// The signature of a request: the parameter pairs are sorted by name,
/// concatenated name-then-value, the secret is appended, and the whole is
/// digested to 32 lowercase hex digits.
pub fn make_signature(params: &Vec<(String, String)>, secret: &str) -> (r: String)
    ensures
        r@ == md5_hex_of(sig_input(params@, secret.spec_bytes())),
        r@.len() == 32,
{
    let n: usize = params.len();
    let mut sorted: Vec<(String, String)> = Vec::new();
    let mut k: usize = 0;
    while k < n
        invariant
            k <= n,
            n == params@.len(),
            sorted@ == sort_pairs(params@.take(k as int)),
        decreases n - k,
    {
        let p: (String, String) = (params[k].0.clone(), params[k].1.clone());
        proof {
            assert(p == params@[k as int]);
        }
        let m: usize = sorted.len();
        let mut pos: usize = 0;
        let mut stop = false;
        while pos < m && !stop
            invariant
                0 <= pos <= m,
                m == sorted@.len(),
                forall|j: int|
                    0 <= j < pos ==> bytes_le(key_bytes(#[trigger] sorted@[j]), key_bytes(p)),
                stop ==> pos < m && !bytes_le(key_bytes(sorted@[pos as int]), key_bytes(p)),
            decreases m - pos + (if stop {
                0int
            } else {
                1int
            }),
        {
            if bytes_le_exec(sorted[pos].0.as_str().as_bytes(), p.0.as_str().as_bytes()) {
                pos = pos + 1;
            } else {
                stop = true;
            }
        }
        proof {
            lemma_insert_pair_at(sorted@, p, pos as int);
        }
        sorted.insert(pos, p);
        proof {
            assert(sorted@ =~= sort_pairs(params@.take(k as int)).take(pos as int) + seq![p]
                + sort_pairs(params@.take(k as int)).skip(pos as int));
            assert(params@.take(k + 1).drop_last() =~= params@.take(k as int));
            assert(params@.take(k + 1).last() == params@[k as int]);
        }
        k = k + 1;
    }
    proof {
        assert(params@.take(n as int) =~= params@);
    }

    let sn: usize = sorted.len();
    let mut sig: Vec<u8> = Vec::new();
    let mut i: usize = 0;
    while i < sn
        invariant
            i <= sn,
            sn == sorted@.len(),
            sig@ == cat_pairs(sorted@.take(i as int)),
        decreases sn - i,
    {
        let mut kb: Vec<u8> = sorted[i].0.as_str().as_bytes_vec();
        let mut vb: Vec<u8> = sorted[i].1.as_str().as_bytes_vec();
        sig.append(&mut kb);
        sig.append(&mut vb);
        proof {
            assert(sorted@.take(i + 1).drop_last() =~= sorted@.take(i as int));
            assert(sorted@.take(i + 1).last() == sorted@[i as int]);
        }
        i = i + 1;
    }
    proof {
        assert(sorted@.take(sn as int) =~= sorted@);
    }
    let mut sb: Vec<u8> = slice_to_vec(secret.as_bytes());
    sig.append(&mut sb);
    md5_hex(sig.as_slice())
}

/// The same artist and title, in the same playback session, with the
/// playhead not having moved backwards: the snapshot reports the track the
/// reporter already announced.
pub open spec fn same_session(was: NowPlaying, now: NowPlaying) -> bool {
    &&& now.track.title@ == was.track.title@
    &&& now.track.artist@ == was.track.artist@
    &&& now.start_ts == was.start_ts
    &&& now.elapsed_frames >= was.elapsed_frames
}

/// Whether a finished session deserves a scrobble: more than four minutes
/// were heard, or more than half the track.
pub open spec fn should_scrobble(start: NowPlaying, end: NowPlaying) -> bool {
    let total = end.elapsed_frames as int - start.elapsed_frames as int;
    ||| total > 240 * (NOMINAL_SAMPLE_RATE as int)
    ||| 2000 * total > (NOMINAL_SAMPLE_RATE as int) * (start.track.dur_ms as int)
}

/// What the caller must do after a snapshot was folded in: announce the
/// new track, and flush the scrobble queue.
#[derive(PartialEq, Eq, Structural, Clone, Copy, Debug)]
pub struct NowPlayingActions {
    /// Announce the new snapshot as now playing.
    pub send_now_playing: bool,
    /// The queue is non-empty: report it.
    pub run_scrobble: bool,
}

/// The scrobble reporter: the session credentials, the queue of finished
/// sessions to report, and the bounds of the session being listened to.
pub struct Scrobbler {
    pub token: String,
    pub username: String,
    pub api_key: String,
    pub secret_key: String,
    pub to_scrobble: Vec<NowPlaying>,
    pub now_playing_start: Option<NowPlaying>,
    pub now_playing_end: Option<NowPlaying>,
}

impl Scrobbler {
    pub fn new(token: String, username: String, api_key: String, secret_key: String) -> (s:
        Scrobbler)
        ensures
            s.token == token,
            s.username == username,
            s.api_key == api_key,
            s.secret_key == secret_key,
            s.to_scrobble@ == Seq::<NowPlaying>::empty(),
            s.now_playing_start is None,
            s.now_playing_end is None,
    {
        Scrobbler {
            token,
            username,
            api_key,
            secret_key,
            to_scrobble: Vec::new(),
            now_playing_start: None,
            now_playing_end: None,
        }
    }

    /// Splits the queue for one report: at most one batch stays queued for
    /// the request, the remainder is handed back to be requeued by
    /// `on_scrobble_result`.
    pub fn take_batch(&mut self) -> (rest: Vec<NowPlaying>)
        ensures
            old(self).to_scrobble@.len() > SCROBBLE_BATCH ==> {
                &&& final(self).to_scrobble@ == old(self).to_scrobble@.take(SCROBBLE_BATCH as int)
                &&& rest@ == old(self).to_scrobble@.skip(SCROBBLE_BATCH as int)
            },
            old(self).to_scrobble@.len() <= SCROBBLE_BATCH ==> {
                &&& final(self).to_scrobble@ == old(self).to_scrobble@
                &&& rest@ == Seq::<NowPlaying>::empty()
            },
            final(self).now_playing_start == old(self).now_playing_start,
            final(self).now_playing_end == old(self).now_playing_end,
            final(self).token == old(self).token,
            final(self).username == old(self).username,
            final(self).api_key == old(self).api_key,
            final(self).secret_key == old(self).secret_key,
    {
        if self.to_scrobble.len() > SCROBBLE_BATCH {
            self.to_scrobble.split_off(SCROBBLE_BATCH)
        } else {
            Vec::new()
        }
    }

    /// Folds a report's outcome back into the queue. On success, or on an
    /// error that retrying cannot mend, the reported batch is dropped and
    /// the remainder requeued; on a retryable error (service offline or
    /// temporarily unavailable) the batch stays queued for the next try.
    pub fn on_scrobble_result(&mut self, error_code: Option<&String>, rest: Vec<NowPlaying>)
        ensures
            final(self).to_scrobble@ == match error_code {
                None => rest@,
                Some(code) => if code@ == "11"@ || code@ == "16"@ {
                    old(self).to_scrobble@
                } else {
                    rest@
                },
            },
            final(self).now_playing_start == old(self).now_playing_start,
            final(self).now_playing_end == old(self).now_playing_end,
            final(self).token == old(self).token,
            final(self).username == old(self).username,
            final(self).api_key == old(self).api_key,
            final(self).secret_key == old(self).secret_key,
    {
        match error_code {
            None => {
                self.to_scrobble = rest;
            },
            Some(code) => {
                let eleven = String::from_str("11");
                let sixteen = String::from_str("16");
                if !(*code == eleven) && !(*code == sixteen) {
                    self.to_scrobble = rest;
                }
            },
        }
    }

    /// Folds a fresh now-playing snapshot into the reporter's state, as one
    /// step of the session state machine. A snapshot of the same session
    /// only moves the session's end; anything else closes the session,
    /// queues it when enough of it was heard, and opens a new one. The
    /// returned actions tell the caller what to announce and whether the
    /// queue needs flushing.
    pub fn set_now_playing(&mut self, track: Option<NowPlaying>) -> (actions: NowPlayingActions)
        ensures
            ({
                let extending = match (old(self).now_playing_start, track) {
                    (Some(was), Some(now)) => same_session(was, now),
                    _ => false,
                };
                let closing = old(self).now_playing_start is Some && !extending;
                let queued = closing && old(self).now_playing_end is Some && should_scrobble(
                    old(self).now_playing_start.unwrap(),
                    old(self).now_playing_end.unwrap(),
                );
                &&& final(self).to_scrobble@ == if queued {
                    old(self).to_scrobble@.push(old(self).now_playing_start.unwrap())
                } else {
                    old(self).to_scrobble@
                }
                &&& final(self).now_playing_start == if extending {
                    old(self).now_playing_start
                } else {
                    track
                }
                &&& final(self).now_playing_end == if extending {
                    track
                } else {
                    None::<NowPlaying>
                }
                &&& actions.send_now_playing == (!extending && track is Some)
                &&& actions.run_scrobble == (final(self).to_scrobble@.len() > 0)
                &&& final(self).token == old(self).token
                &&& final(self).username == old(self).username
                &&& final(self).api_key == old(self).api_key
                &&& final(self).secret_key == old(self).secret_key
            }),
    {
        let extending = match (&self.now_playing_start, &track) {
            (Some(was), Some(now)) => {
                let titles_eq = now.track.title == was.track.title;
                let artists_eq = now.track.artist == was.track.artist;
                titles_eq && artists_eq && now.start_ts == was.start_ts && now.elapsed_frames
                    >= was.elapsed_frames
            },
            _ => false,
        };
        let closing = self.now_playing_start.is_some() && !extending;

        if closing {
            match (&self.now_playing_start, &self.now_playing_end) {
                (Some(was_start), Some(was_end)) => {
                    let heard_enough = if was_end.elapsed_frames >= was_start.elapsed_frames {
                        let total: u64 = (was_end.elapsed_frames - was_start.elapsed_frames)
                            as u64;
                        let total128: u128 = total as u128;
                        let dur128: u128 = was_start.track.dur_ms as u128;
                        proof {
                            assert(2000 * (total128 as int) < 0x100000000000000000000int)
                                by (nonlinear_arith)
                                requires
                                    total128 < 0x10000000000000000u128,
                            ;
                            assert(44100 * (dur128 as int) < 0x100000000000000000000int)
                                by (nonlinear_arith)
                                requires
                                    dur128 < 0x10000000000000000u128,
                            ;
                        }
                        total > 240 * NOMINAL_SAMPLE_RATE || 2000u128 * total128 > 44100u128
                            * dur128
                    } else {
                        false
                    };
                    if heard_enough {
                        let queued_track = was_start.duplicate();
                        self.to_scrobble.push(queued_track);
                    }
                },
                _ => {},
            }
        }

        let send_now_playing = !extending && track.is_some();
        if extending {
            self.now_playing_end = track;
        } else {
            self.now_playing_start = track;
            self.now_playing_end = None;
        }

        NowPlayingActions { send_now_playing, run_scrobble: self.to_scrobble.len() > 0 }
    }
}

} // verus!
