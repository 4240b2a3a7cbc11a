//! The raw-PCM container source: a fixed header, then frames of interleaved
//! integer or 32-bit-float samples.
//!
//! The source holds the container's bytes and decodes fixed-size blocks on
//! demand into a cache keyed by a quantized offset. Every sample of a block
//! is pinned to the bytes it was decoded from; positions beyond the bytes
//! actually available are silence.

use vstd::prelude::*;
use vstd::hash_map::HashMapWithView;
use vstd::math::min;
use vstd::bytes::spec_u16_from_le_bytes;
use vstd::bytes::spec_u32_from_le_bytes;
use vstd::arithmetic::div_mod::lemma_fundamental_div_mod;
use vstd::arithmetic::div_mod::lemma_mod_bound;
use crate::audio_source::AudioBuffer;
use crate::wav_header::WavHeader;
use crate::wav_header::header_bytes_wf;
use crate::wav_header::header_parses_to;

verus! {

/// Frames per decoded block.
pub const WAV_BLOCK_FRAMES: usize = 1024;

/// The header shapes the raw-PCM decoder supports: plain PCM with 16-bit
/// integer or 32-bit float samples, at least one channel, and a data chunk
/// whose frame offsets leave room for one block below the `u32` limit.
pub open spec fn header_supported(h: WavHeader) -> bool {
    &&& h.format_type == 1
    &&& (h.bits_per_sample == 16 || h.bits_per_sample == 32)
    &&& h.number_of_channels >= 1
    &&& h.data_size + WAV_BLOCK_FRAMES <= u32::MAX
}

/// The container bytes this source is defined on: at least one header-read
/// worth of bytes, a parseable header, and a supported format.
pub open spec fn data_supported(data: Seq<u8>) -> bool {
    &&& data.len() >= 1024
    &&& header_bytes_wf(data.take(1024))
    &&& forall|h: WavHeader| header_parses_to(data.take(1024), h) ==> header_supported(h)
}

/// First byte of the audio data.
pub open spec fn wav_data_start(h: WavHeader) -> int {
    28 + h.format_data_length
}

/// First byte of the block requested at frame `offset`.
pub open spec fn block_byte_start(h: WavHeader, offset: u32) -> int {
    wav_data_start(h) + (offset as int) * (h.bytes_per_frame as int)
}

/// One past the last byte of that block, clipped to the data chunk.
pub open spec fn block_byte_end(h: WavHeader, offset: u32) -> int {
    min(
        block_byte_start(h, offset) + (WAV_BLOCK_FRAMES as int) * (h.bytes_per_frame as int),
        wav_data_start(h) + h.data_size,
    )
}

/// The request offset rounded down to the block size: the key the cache is
/// scanned under.
pub open spec fn quantize(o: u32) -> u32 {
    (((o as int) / (WAV_BLOCK_FRAMES as int)) * (WAV_BLOCK_FRAMES as int)) as u32
}

/// The sample word of channel `c`, frame `i`, of the block at `offset`:
/// read little-endian from the block's bytes, zero when the position lies
/// beyond the bytes actually available.
pub open spec fn wav_sample_word(data: Seq<u8>, h: WavHeader, offset: u32, c: int, i: int) -> u32 {
    let bps = h.bits_per_sample as int / 8;
    let base = block_byte_start(h, offset);
    let rel = i * bps * (h.number_of_channels as int) + c * bps;
    let avail = min(block_byte_end(h, offset), data.len() as int) - base;
    if rel + bps <= avail {
        if h.bits_per_sample == 16 {
            spec_u16_from_le_bytes(data.subrange(base + rel, base + rel + 2)) as u32
        } else {
            spec_u32_from_le_bytes(data.subrange(base + rel, base + rel + 4))
        }
    } else {
        0
    }
}

/// `b` is exactly the block that decoding `data` at `offset` yields.
pub open spec fn is_wav_block(data: Seq<u8>, h: WavHeader, offset: u32, b: AudioBuffer) -> bool {
    &&& b.offset == offset
    &&& b.length == WAV_BLOCK_FRAMES
    &&& b.sample_rate == h.sample_rate
    &&& b.samples@.len() == h.number_of_channels
    &&& forall|c: int, i: int|
        0 <= c < h.number_of_channels && 0 <= i < WAV_BLOCK_FRAMES ==> (#[trigger] b.samples@[c]@[i])
            == wav_sample_word(data, h, offset, c, i)
    &&& b.wf()
}

/// Two blocks decoded from the same bytes at the same offset hold
/// identical sample content.
pub proof fn lemma_wav_block_unique(
    data: Seq<u8>,
    h: WavHeader,
    offset: u32,
    b1: AudioBuffer,
    b2: AudioBuffer,
)
    requires
        is_wav_block(data, h, offset, b1),
        is_wav_block(data, h, offset, b2),
    ensures
        b1.offset == b2.offset,
        b1.length == b2.length,
        b1.sample_rate == b2.sample_rate,
        b1.samples@.len() == b2.samples@.len(),
        forall|c: int| 0 <= c < b1.samples@.len() ==> (#[trigger] b1.samples@[c])@ == b2.samples@[c]@,
{
    assert forall|c: int| 0 <= c < b1.samples@.len() implies (#[trigger] b1.samples@[c])@
        == b2.samples@[c]@ by {
        assert forall|i: int| 0 <= i < b1.samples@[c]@.len() implies b1.samples@[c]@[i]
            == b2.samples@[c]@[i] by {
            assert(b1.samples@[c]@[i] == wav_sample_word(data, h, offset, c, i));
            assert(b2.samples@[c]@[i] == wav_sample_word(data, h, offset, c, i));
        }
        assert(b1.samples@[c]@ =~= b2.samples@[c]@);
    }
}

/// What a request for `o` against cache `m` returns: the cached block
/// under the quantized key when one is there, else a fresh decode at the
/// request offset itself.
pub open spec fn wav_result(
    m: Map<u32, AudioBuffer>,
    data: Seq<u8>,
    h: WavHeader,
    o: u32,
    b: AudioBuffer,
) -> bool {
    if m.contains_key(quantize(o)) {
        b == m[quantize(o)]
    } else {
        is_wav_block(data, h, o, b)
    }
}

/// The cache such a request leaves behind: unchanged on a hit, the fresh
/// block cached under the request offset on a miss.
pub open spec fn wav_step(m: Map<u32, AudioBuffer>, o: u32, b: AudioBuffer) -> Map<
    u32,
    AudioBuffer,
> {
    if m.contains_key(quantize(o)) {
        m
    } else {
        m.insert(o, b)
    }
}

/// Requesting the same offset twice, with no mutation in between, yields
/// blocks of identical sample content.
pub proof fn lemma_get_buffer_idempotent(
    m: Map<u32, AudioBuffer>,
    data: Seq<u8>,
    h: WavHeader,
    o: u32,
    b1: AudioBuffer,
    b2: AudioBuffer,
)
    requires
        WavSource::cache_wf(data, h, m),
        wav_result(m, data, h, o, b1),
        wav_result(wav_step(m, o, b1), data, h, o, b2),
    ensures
        b1.offset == b2.offset,
        b1.length == b2.length,
        b1.samples@.len() == b2.samples@.len(),
        forall|c: int| 0 <= c < b1.samples@.len() ==> (#[trigger] b1.samples@[c])@ == b2.samples@[c]@,
{
    if m.contains_key(quantize(o)) {
        assert(b2 == b1);
        assert forall|c: int| 0 <= c < b1.samples@.len() implies (#[trigger] b1.samples@[c])@
            == b2.samples@[c]@ by {}
    } else {
        let m1 = m.insert(o, b1);
        if quantize(o) == o {
            assert(b2 == m1[o] && m1[o] == b1);
            assert forall|c: int| 0 <= c < b1.samples@.len() implies (#[trigger] b1.samples@[c])@
                == b2.samples@[c]@ by {}
        } else {
            assert(!m1.contains_key(quantize(o)));
            lemma_wav_block_unique(data, h, o, b1, b2);
        }
    }
}

/// A raw-PCM source: the container's bytes, the lazily parsed header and
/// the block cache.
pub struct WavSource {
    pub filename: String,
    data: Vec<u8>,
    header: Option<WavHeader>,
    decoded_buffers: HashMapWithView<u32, AudioBuffer>,
}

impl WavSource {
    /// The container's bytes.
    pub closed spec fn data_view(&self) -> Seq<u8> {
        self.data@
    }

    /// The parsed header, once a request parsed it.
    pub closed spec fn header_view(&self) -> Option<WavHeader> {
        self.header
    }

    /// The block cache.
    pub closed spec fn cache_view(&self) -> Map<u32, AudioBuffer> {
        self.decoded_buffers@
    }

    /// The backing file's name.
    pub closed spec fn name(&self) -> Seq<char> {
        self.filename@
    }

    /// Every cached block is the decode of the data at its key.
    pub open spec fn cache_wf(data: Seq<u8>, h: WavHeader, m: Map<u32, AudioBuffer>) -> bool {
        forall|k: u32| m.contains_key(k) ==> is_wav_block(data, h, k, #[trigger] m[k])
    }

    /// The parsed header matches the data, and the cache holds only true
    /// decodes of it.
    pub open spec fn wf(&self) -> bool {
        match self.header_view() {
            Some(h) => {
                &&& header_parses_to(self.data_view().take(1024), h)
                &&& Self::cache_wf(self.data_view(), h, self.cache_view())
            },
            None => self.cache_view() == Map::<u32, AudioBuffer>::empty(),
        }
    }

    pub fn new(filename: String, data: Vec<u8>) -> (s: WavSource)
        ensures
            s.wf(),
            s.name() == filename@,
            s.data_view() == data@,
            s.header_view() is None,
            s.cache_view() == Map::<u32, AudioBuffer>::empty(),
    {
        WavSource { filename, data, header: None, decoded_buffers: HashMapWithView::new() }
    }

    /// Builds a source only for container bytes the decoder is defined on:
    /// a parseable header of a supported shape. Anything else is a
    /// construction failure, not a later fault.
    pub fn try_new(filename: String, data: Vec<u8>) -> (r: Option<WavSource>)
        ensures
            match r {
                Some(s) => {
                    &&& data_supported(data@)
                    &&& s.wf()
                    &&& s.name() == filename@
                    &&& s.data_view() == data@
                    &&& s.header_view() is None
                    &&& s.cache_view() == Map::<u32, AudioBuffer>::empty()
                },
                None => !data_supported(data@),
            },
    {
        if data.len() < 1024 {
            return None;
        }
        let mut prefix: Vec<u8> = Vec::new();
        let mut i: usize = 0;
        while i < 1024
            invariant
                i <= 1024,
                1024 <= data@.len(),
                prefix@ =~= data@.take(i as int),
            decreases 1024 - i,
        {
            prefix.push(data[i]);
            proof {
                assert(prefix@ =~= data@.take(i + 1));
            }
            i = i + 1;
        }

        let format_data_length = crate::wav_header::read_le_u32(&prefix, 16);
        let search_start: u64 = 20u64 + format_data_length as u64;
        let chunk: Option<usize> = if search_start >= 1024 {
            None
        } else {
            let mut marker: Vec<u8> = Vec::new();
            marker.push(100);
            marker.push(97);
            marker.push(116);
            marker.push(97);
            assert(marker@ =~= crate::wav_header::data_marker());
            crate::wav_header::find_chunk(&prefix, search_start as usize, marker.as_slice())
        };
        let ds = match chunk {
            Some(ds) => ds,
            None => {
                return None;
            },
        };
        proof {
            crate::wav_header::lemma_find_chunk_spec_some(
                prefix@,
                search_start as int,
                crate::wav_header::data_marker(),
                ds as int,
            );
        }
        if ds > 1024 - 8 {
            return None;
        }

        let h = WavHeader::from(prefix);
        proof {
            assert(header_parses_to(data@.take(1024), h));
        }
        let shape_ok = h.format_type == 1 && (h.bits_per_sample == 16 || h.bits_per_sample == 32)
            && h.number_of_channels >= 1 && h.data_size as u64 + (WAV_BLOCK_FRAMES as u64)
            <= u32::MAX as u64;
        if !shape_ok {
            proof {
                assert(!header_supported(h));
            }
            return None;
        }
        proof {
            assert forall|h2: WavHeader| header_parses_to(
                data@.take(1024),
                h2,
            ) implies header_supported(h2) by {
                assert(h2.format_type == h.format_type);
                assert(h2.bits_per_sample == h.bits_per_sample);
                assert(h2.number_of_channels == h.number_of_channels);
                assert(h2.data_size == h.data_size);
            }
        }
        Some(WavSource { filename, data, header: None, decoded_buffers: HashMapWithView::new() })
    }

    /// Returns a block of audio covering `offset`, or `None` when `offset`
    /// lies at or past the data chunk's extent. The header is parsed on the
    /// first request; a block already decoded for the quantized offset is
    /// returned as is; otherwise the block's byte range is decoded, clipped
    /// to the data chunk, padded with silence past the available bytes, and
    /// cached under the request offset itself.
    pub fn get_buffer(&mut self, offset: u32) -> (r: Option<&AudioBuffer>)
        requires
            old(self).wf(),
            data_supported(old(self).data_view()),
        ensures
            final(self).wf(),
            final(self).data_view() == old(self).data_view(),
            final(self).name() == old(self).name(),
            final(self).header_view() is Some,
            old(self).header_view() is Some ==> final(self).header_view() == old(
                self,
            ).header_view(),
            header_parses_to(
                final(self).data_view().take(1024),
                final(self).header_view().unwrap(),
            ),
            ({
                let data = old(self).data_view();
                let h = final(self).header_view().unwrap();
                let m = old(self).cache_view();
                match r {
                    None => {
                        &&& block_byte_start(h, offset) >= block_byte_end(h, offset)
                        &&& final(self).cache_view() == m
                    },
                    Some(b) => {
                        &&& block_byte_start(h, offset) < block_byte_end(h, offset)
                        &&& b.covers(offset)
                        &&& wav_result(m, data, h, offset, *b)
                        &&& final(self).cache_view() == wav_step(m, offset, *b)
                    },
                }
            }),
    {
        if self.header.is_none() {
            let mut prefix: Vec<u8> = Vec::new();
            let mut i: usize = 0;
            while i < 1024
                invariant
                    i <= 1024,
                    1024 <= self.data@.len(),
                    prefix@ =~= self.data@.take(i as int),
                decreases 1024 - i,
            {
                prefix.push(self.data[i]);
                proof {
                    assert(prefix@ =~= self.data@.take(i + 1));
                }
                i = i + 1;
            }
            let h = WavHeader::from(prefix);
            self.header = Some(h);
        }
        let h = match self.header {
            Some(h) => h,
            None => {
                proof {
                    assert(false);
                }
                return None;
            },
        };
        proof {
            assert(header_supported(h));
        }

        let data_start: u64 = 28u64 + h.format_data_length as u64;
        let data_size: u64 = h.data_size as u64;
        let bpf: u64 = h.bytes_per_frame as u64;

        proof {
            assert((offset as int) * (bpf as int) <= 0xffff_ffff * 0x1_0000int)
                by (nonlinear_arith)
                requires
                    offset <= 0xffff_ffffu32,
                    bpf <= 0xffffu64,
            ;
        }
        let byte_start: u64 = data_start + (offset as u64) * bpf;
        let byte_end_raw: u64 = byte_start + (WAV_BLOCK_FRAMES as u64) * bpf;
        let extent: u64 = data_start + data_size;
        let byte_end: u64 = if byte_end_raw < extent {
            byte_end_raw
        } else {
            extent
        };
        assert(byte_end == block_byte_end(h, offset));

        if byte_start >= byte_end {
            return None;
        }

        let quant: u32 = (offset / 1024) * 1024;
        proof {
            lemma_fundamental_div_mod(offset as int, 1024);
            lemma_mod_bound(offset as int, 1024);
            assert(quant == quantize(offset));
            assert(quant <= offset < quant + 1024);
        }
        let cache_hit = self.decoded_buffers.contains_key(&quant);
        if cache_hit {
            match self.decoded_buffers.get(&quant) {
                Some(b) => {
                    return Some(b);
                },
                None => {
                    proof {
                        assert(false);
                    }
                    return None;
                },
            }
        }

        let data_len: u64 = self.data.len() as u64;
        let avail_end: u64 = if byte_end < data_len {
            byte_end
        } else {
            data_len
        };
        let avail: u64 = if avail_end > byte_start {
            avail_end - byte_start
        } else {
            0
        };
        proof {
            assert(avail == if min(block_byte_end(h, offset), self.data@.len() as int)
                - block_byte_start(h, offset) >= 0 {
                min(block_byte_end(h, offset), self.data@.len() as int) - block_byte_start(
                    h,
                    offset,
                )
            } else {
                0int
            });
        }

        let nch: usize = h.number_of_channels as usize;
        let bps: u64 = (h.bits_per_sample / 8) as u64;

        let mut samples: Vec<Vec<u32>> = Vec::new();
        let mut c: usize = 0;
        while c < nch
            invariant
                c <= nch,
                samples@.len() == c,
                forall|cc: int|
                    0 <= cc < c ==> {
                        &&& (#[trigger] samples@[cc])@.len() == WAV_BLOCK_FRAMES
                        &&& forall|ii: int|
                            0 <= ii < WAV_BLOCK_FRAMES ==> samples@[cc]@[ii] == wav_sample_word(
                                self.data@,
                                h,
                                offset,
                                cc,
                                ii,
                            )
                    },
                nch == h.number_of_channels,
                bps == h.bits_per_sample as int / 8,
                h.bits_per_sample == 16 || h.bits_per_sample == 32,
                byte_start == block_byte_start(h, offset),
                avail == if min(block_byte_end(h, offset), self.data@.len() as int)
                    - block_byte_start(h, offset) >= 0 {
                    min(block_byte_end(h, offset), self.data@.len() as int) - block_byte_start(
                        h,
                        offset,
                    )
                } else {
                    0int
                },
                avail > 0 ==> byte_start + avail <= self.data@.len(),
                self.data@.len() <= usize::MAX,
            decreases nch - c,
        {
            let mut channel: Vec<u32> = Vec::new();
            let mut i: usize = 0;
            while i < WAV_BLOCK_FRAMES
                invariant
                    i <= WAV_BLOCK_FRAMES,
                    c < nch,
                    channel@.len() == i,
                    forall|ii: int|
                        0 <= ii < i ==> (#[trigger] channel@[ii]) == wav_sample_word(
                            self.data@,
                            h,
                            offset,
                            c as int,
                            ii,
                        ),
                    nch == h.number_of_channels,
                    bps == h.bits_per_sample as int / 8,
                    h.bits_per_sample == 16 || h.bits_per_sample == 32,
                    byte_start == block_byte_start(h, offset),
                    avail == if min(block_byte_end(h, offset), self.data@.len() as int)
                        - block_byte_start(h, offset) >= 0 {
                        min(block_byte_end(h, offset), self.data@.len() as int)
                            - block_byte_start(h, offset)
                    } else {
                        0int
                    },
                    avail > 0 ==> byte_start + avail <= self.data@.len(),
                    self.data@.len() <= usize::MAX,
                decreases WAV_BLOCK_FRAMES - i,
            {
                proof {
                    assert((i as int) * (bps as int) <= 4096 && (i as int) * (bps as int) * (
                    nch as int) <= 4096 * 0x10000 && (c as int) * (bps as int) <= 4 * 0x10000 && 0
                        <= (i as int) * (bps as int) * (nch as int) && 0 <= (c as int) * (
                    bps as int)) by (nonlinear_arith)
                        requires
                            0 <= i < 1024,
                            0 <= bps <= 4,
                            0 <= nch <= 0x10000,
                            0 <= c < nch,
                    ;
                }
                let rel: u64 = (i as u64) * bps * (nch as u64) + (c as u64) * bps;
                let word: u32 = if rel + bps <= avail {
                    assert(byte_start + rel + bps <= self.data@.len());
                    let p: usize = (byte_start + rel) as usize;
                    if h.bits_per_sample == 16 {
                        vstd::bytes::u16_from_le_bytes(
                            vstd::slice::slice_subrange(self.data.as_slice(), p, p + 2),
                        ) as u32
                    } else {
                        vstd::bytes::u32_from_le_bytes(
                            vstd::slice::slice_subrange(self.data.as_slice(), p, p + 4),
                        )
                    }
                } else {
                    0
                };
                channel.push(word);
                i = i + 1;
            }
            samples.push(channel);
            c = c + 1;
        }

        proof {
            assert((offset as int) * (bpf as int) < h.data_size as int);
            assert(1024 * (bpf as int) > 0);
            assert((offset as int) <= (offset as int) * (bpf as int)) by (nonlinear_arith)
                requires
                    (bpf as int) >= 1,
                    (offset as int) >= 0,
            ;
            assert(offset + WAV_BLOCK_FRAMES <= u32::MAX);
        }
        let block = AudioBuffer {
            samples,
            sample_rate: h.sample_rate,
            length: WAV_BLOCK_FRAMES as u32,
            offset,
        };
        proof {
            assert(is_wav_block(self.data@, h, offset, block));
        }
        self.decoded_buffers.insert(offset, block);
        match self.decoded_buffers.get(&offset) {
            Some(b) => Some(b),
            None => {
                proof {
                    assert(false);
                }
                None
            },
        }
    }
}

} // verus!
