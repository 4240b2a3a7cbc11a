//! The value types every audio source shares: a decoded block of samples
//! and a track's metadata.

use vstd::prelude::*;

verus! {

/// One decoded block of audio.
///
/// `samples` holds one sequence per channel, all of the same length. A
/// sample is kept as its raw little-endian word (for 16-bit sources the
/// two sample bytes zero-extended, for 32-bit float sources the value's
/// bit pattern); `0` is silence either way. `offset` is the absolute frame index
/// in the source's timeline where this block begins, and `length` the number
/// of frames it holds.
pub struct AudioBuffer {
    pub samples: Vec<Vec<u32>>,
    pub sample_rate: u32,
    pub length: u32,
    pub offset: u32,
}

/// A track's metadata. Duration is kept in milliseconds; a missing tag
/// leaves its field empty, and the title falls back to the filename.
pub struct AudioMetadata {
    pub dur_ms: u64,
    pub artist: String,
    pub title: String,
    pub album: String,
}

impl AudioBuffer {
    /// The block holds the sample of frame `o`.
    pub open spec fn covers(&self, o: u32) -> bool {
        self.offset <= o < self.offset + self.length
    }

    /// Every channel holds exactly `length` samples, there is at least one
    /// channel, and the block's frame range stays within the timeline.
    pub open spec fn wf(&self) -> bool {
        &&& self.samples@.len() > 0
        &&& forall|c: int|
            0 <= c < self.samples@.len() ==> (#[trigger] self.samples@[c])@.len() == self.length
        &&& self.offset + self.length <= u32::MAX
    }

    /// The sample of channel `c` at absolute frame `o`.
    pub open spec fn sample_at(&self, c: int, o: u32) -> u32
        recommends
            self.covers(o),
            0 <= c < self.samples@.len(),
    {
        self.samples@[c]@[o - self.offset]
    }
}

/// The position of the first cached block that covers frame `o`, in
/// insertion order, as the decode engines scan for it.
pub open spec fn first_covering(cache: Seq<AudioBuffer>, o: u32) -> Option<int>
    decreases cache.len(),
{
    if cache.len() == 0 {
        None
    } else if cache[0].covers(o) {
        Some(0int)
    } else {
        match first_covering(cache.drop_first(), o) {
            None => None,
            Some(i) => Some(i + 1),
        }
    }
}

/// What `first_covering` returns: the covering block with the least index,
/// or nothing when no block covers `o`.
pub proof fn lemma_first_covering(cache: Seq<AudioBuffer>, o: u32)
    ensures
        match first_covering(cache, o) {
            Some(i) => {
                &&& 0 <= i < cache.len()
                &&& cache[i].covers(o)
                &&& forall|k: int| 0 <= k < i ==> !(#[trigger] cache[k]).covers(o)
            },
            None => forall|k: int| 0 <= k < cache.len() ==> !(#[trigger] cache[k]).covers(o),
        },
    decreases cache.len(),
{
    if cache.len() > 0 && !cache[0].covers(o) {
        let sub = cache.drop_first();
        lemma_first_covering(sub, o);
        match first_covering(sub, o) {
            Some(i) => {
                assert(cache[i + 1] == sub[i]);
                assert forall|k: int| 0 <= k < i + 1 implies !(#[trigger] cache[k]).covers(o) by {
                    if k > 0 {
                        assert(cache[k] == sub[k - 1]);
                    }
                }
            },
            None => {
                assert forall|k: int| 0 <= k < cache.len() implies !(#[trigger] cache[k]).covers(
                    o,
                ) by {
                    if k > 0 {
                        assert(cache[k] == sub[k - 1]);
                    }
                }
            },
        }
    }
}

impl AudioMetadata {
    /// An equal copy of the metadata.
    pub fn duplicate(&self) -> (m: AudioMetadata)
        ensures
            m == *self,
    {
        AudioMetadata {
            dur_ms: self.dur_ms,
            artist: self.artist.clone(),
            title: self.title.clone(),
            album: self.album.clone(),
        }
    }

    /// The metadata fields a track gets from its tags: a missing tag leaves
    /// the field empty, and a missing title falls back to the filename.
    pub fn from_tags(
        filename: &String,
        dur_ms: u64,
        artist: Option<String>,
        title: Option<String>,
        album: Option<String>,
    ) -> (m: AudioMetadata)
        ensures
            m.dur_ms == dur_ms,
            m.artist@ == match artist {
                Some(a) => a@,
                None => Seq::<char>::empty(),
            },
            m.title@ == match title {
                Some(t) => t@,
                None => filename@,
            },
            m.album@ == match album {
                Some(a) => a@,
                None => Seq::<char>::empty(),
            },
    {
        let artist = match artist {
            Some(a) => a,
            None => String::new(),
        };
        let title = match title {
            Some(t) => t,
            None => filename.clone(),
        };
        let album = match album {
            Some(a) => a,
            None => String::new(),
        };
        AudioMetadata { dur_ms, artist, title, album }
    }
}

} // verus!
