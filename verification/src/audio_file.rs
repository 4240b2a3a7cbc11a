//! The windowed decode cache of a container-decoded track.
//!
//! A track lazily opens a decode pipeline, seeks on a cursor mismatch, and
//! decodes sequentially into a bounded, insertion-ordered cache of blocks.
//! The pipeline itself (container probing, packet reads, codec work) is
//! outside work that the caller performs; this type holds every decision
//! and every piece of state of the engine, so the caller only opens, seeks
//! and decodes when told to, and hands the results back.

use vstd::prelude::*;
use crate::audio_source::AudioBuffer;
use crate::audio_source::AudioMetadata;
use crate::audio_source::first_covering;
use crate::audio_source::lemma_first_covering;

verus! {

/// How many decoded blocks a track keeps: about five seconds of
/// 1024-frame blocks at 44.1 kHz.
pub const CACHE_BOUND: usize = 220;

/// One playlist entry: a file-backed track with its decode cursor, its
/// bounded block cache and its memoized metadata.
pub struct AudioFileSource {
    pub filename: String,
    opened: bool,
    seek_pos: u32,
    decoded_buffers: Vec<AudioBuffer>,
    metadata: Option<AudioMetadata>,
}

impl AudioFileSource {
    /// The cached blocks, oldest first.
    pub closed spec fn cache(&self) -> Seq<AudioBuffer> {
        self.decoded_buffers@
    }

    /// Whether the decode pipeline has been opened.
    pub closed spec fn is_opened(&self) -> bool {
        self.opened
    }

    /// The decode cursor: the next frame index sequential decoding yields.
    pub closed spec fn cursor(&self) -> u32 {
        self.seek_pos
    }

    /// The memoized metadata, if computed.
    pub closed spec fn meta(&self) -> Option<AudioMetadata> {
        self.metadata
    }

    /// The backing file's name.
    pub closed spec fn name(&self) -> Seq<char> {
        self.filename@
    }

    /// The cache respects its bound and holds only well-formed blocks.
    pub open spec fn wf(&self) -> bool {
        &&& self.cache().len() <= CACHE_BOUND
        &&& forall|i: int| 0 <= i < self.cache().len() ==> (#[trigger] self.cache()[i]).wf()
    }

    /// A track as it enters the playlist: nothing opened, nothing cached.
    pub open spec fn is_fresh(t: AudioFileSource, filename: Seq<char>) -> bool {
        &&& t.name() == filename
        &&& !t.is_opened()
        &&& t.cursor() == 0
        &&& t.cache() == Seq::<AudioBuffer>::empty()
        &&& t.meta() is None
    }

    pub fn new(filename: String) -> (t: AudioFileSource)
        ensures
            AudioFileSource::is_fresh(t, filename@),
            t.wf(),
    {
        AudioFileSource {
            filename,
            opened: false,
            seek_pos: 0,
            decoded_buffers: Vec::new(),
            metadata: None,
        }
    }

    /// Scans the cache for a block covering `offset`: the block of least
    /// insertion index, exactly as `first_covering` names it.
    pub fn cached_buffer(&self, offset: u32) -> (r: Option<&AudioBuffer>)
        ensures
            match r {
                Some(b) => {
                    &&& first_covering(self.cache(), offset) is Some
                    &&& *b == self.cache()[first_covering(self.cache(), offset).unwrap()]
                    &&& b.covers(offset)
                },
                None => first_covering(self.cache(), offset) is None,
            },
    {
        proof {
            lemma_first_covering(self.cache(), offset);
        }
        let n: usize = self.decoded_buffers.len();
        let mut i: usize = 0;
        while i < n
            invariant
                n == self.cache().len(),
                0 <= i <= n,
                forall|k: int| 0 <= k < i ==> !(#[trigger] self.cache()[k]).covers(offset),
            decreases n - i,
        {
            let b = &self.decoded_buffers[i];
            if b.offset <= offset && offset - b.offset < b.length {
                proof {
                    lemma_first_covering(self.cache(), offset);
                }
                return Some(&self.decoded_buffers[i]);
            }
            i = i + 1;
        }
        None
    }

    /// Whether the decode pipeline still has to be opened.
    pub fn needs_open(&self) -> (r: bool)
        ensures
            r == !self.is_opened(),
    {
        !self.opened
    }

    /// Records that the caller opened the pipeline; the cursor starts at 0.
    pub fn on_opened(&mut self)
        ensures
            final(self).is_opened(),
            final(self).cursor() == 0,
            final(self).cache() == old(self).cache(),
            final(self).meta() == old(self).meta(),
            final(self).name() == old(self).name(),
    {
        self.opened = true;
        self.seek_pos = 0;
    }

    /// Whether a request for `offset` needs an accurate seek first.
    pub fn needs_seek(&self, offset: u32) -> (r: bool)
        ensures
            r == (offset != self.cursor()),
    {
        offset != self.seek_pos
    }

    /// Records the timestamp a seek actually landed on, which becomes the
    /// cursor (decoders may not land exactly on the requested frame).
    pub fn on_seek(&mut self, actual_ts: u32)
        ensures
            final(self).cursor() == actual_ts,
            final(self).is_opened() == old(self).is_opened(),
            final(self).cache() == old(self).cache(),
            final(self).meta() == old(self).meta(),
            final(self).name() == old(self).name(),
    {
        self.seek_pos = actual_ts;
    }

    /// Appends a decoded block to the cache, advances the cursor by its
    /// frame count, and evicts the oldest block when the bound is passed.
    pub fn on_block_decoded(&mut self, samples: Vec<Vec<u32>>, sample_rate: u32)
        requires
            old(self).wf(),
            samples@.len() > 0,
            forall|c: int|
                0 <= c < samples@.len() ==> (#[trigger] samples@[c])@.len()
                    == samples@[0]@.len(),
            old(self).cursor() + samples@[0]@.len() <= u32::MAX,
        ensures
            final(self).wf(),
            final(self).cursor() == old(self).cursor() + samples@[0]@.len(),
            final(self).is_opened() == old(self).is_opened(),
            final(self).meta() == old(self).meta(),
            final(self).name() == old(self).name(),
            ({
                let b = AudioBuffer {
                    samples,
                    sample_rate,
                    length: samples@[0]@.len() as u32,
                    offset: old(self).cursor(),
                };
                final(self).cache() == if old(self).cache().len() < CACHE_BOUND {
                    old(self).cache().push(b)
                } else {
                    old(self).cache().push(b).drop_first()
                }
            }),
            final(self).cache().len() <= CACHE_BOUND,
    {
        let length: usize = samples[0].len();
        let block = AudioBuffer { samples, sample_rate, length: length as u32, offset: self.seek_pos };
        assert(block.wf());
        self.seek_pos = self.seek_pos + length as u32;
        self.decoded_buffers.push(block);
        if self.decoded_buffers.len() > CACHE_BOUND {
            self.decoded_buffers.remove(0);
            assert(self.decoded_buffers@ =~= old(self).cache().push(block).drop_first());
        }
    }

    /// How many blocks the cache holds.
    pub fn cache_len(&self) -> (n: usize)
        ensures
            n == self.cache().len(),
    {
        self.decoded_buffers.len()
    }

    /// The backing file's name.
    pub fn path(&self) -> (r: &String)
        ensures
            r@ == self.name(),
    {
        &self.filename
    }

    /// Whether metadata still has to be computed.
    pub fn needs_metadata(&self) -> (r: bool)
        ensures
            r == (self.meta() is None),
    {
        self.metadata.is_none()
    }

    /// Memoizes the metadata the caller computed.
    pub fn set_metadata(&mut self, m: AudioMetadata)
        ensures
            final(self).meta() == Some(m),
            final(self).cache() == old(self).cache(),
            final(self).cursor() == old(self).cursor(),
            final(self).is_opened() == old(self).is_opened(),
            final(self).name() == old(self).name(),
    {
        self.metadata = Some(m);
    }

    /// The memoized metadata.
    pub fn get_metadata(&self) -> (r: Option<&AudioMetadata>)
        ensures
            match r {
                Some(m) => self.meta() == Some(*m),
                None => self.meta() is None,
            },
    {
        self.metadata.as_ref()
    }
}

} // verus!
