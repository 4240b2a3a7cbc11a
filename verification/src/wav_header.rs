//! Parsing of the fixed binary header of a raw-PCM container: the format
//! chunk at a fixed position, then a scan forward for the "data" marker.

use vstd::prelude::*;
use vstd::bytes::spec_u32_from_le_bytes;
use vstd::bytes::spec_u16_from_le_bytes;

verus! {

/// The fields of a raw-PCM container header, in file order.
#[derive(Debug, Copy, Clone)]
pub struct WavHeader {
    pub riff: [u8; 4],
    pub file_size: u32,
    pub file_type: [u8; 4],
    pub format_chunk_marker: [u8; 4],
    /// Declared length of the format chunk; 16 for plain PCM.
    pub format_data_length: u32,
    pub format_type: u16,
    pub number_of_channels: u16,
    pub sample_rate: u32,
    pub bytes_per_second: u32,
    pub bytes_per_frame: u16,
    pub bits_per_sample: u16,
    pub data_chunk_marker: [u8; 4],
    pub data_size: u32,
}

/// The four bytes of the "data" chunk marker.
pub open spec fn data_marker() -> Seq<u8> {
    seq![100u8, 97u8, 116u8, 97u8]
}

/// A full copy of `name` occurs in `bytes` at position `i`.
pub open spec fn chunk_match(bytes: Seq<u8>, name: Seq<u8>, i: int) -> bool {
    &&& name.len() > 0
    &&& 0 <= i
    &&& i + name.len() <= bytes.len()
    &&& forall|j: int| 0 <= j < name.len() ==> bytes[i + j] == name[j]
}

/// Position of the first copy of `name` in `bytes` at or after `start`.
pub open spec fn find_chunk_spec(bytes: Seq<u8>, start: int, name: Seq<u8>) -> Option<int>
    decreases bytes.len() - start when 0 <= start
{
    if start >= bytes.len() {
        None
    } else if chunk_match(bytes, name, start) {
        Some(start)
    } else {
        find_chunk_spec(bytes, start + 1, name)
    }
}

/// A found position lies between `start` and the end of `bytes`, and a copy
/// of `name` stands there; every position before it holds no copy.
pub proof fn lemma_find_chunk_spec_some(bytes: Seq<u8>, start: int, name: Seq<u8>, i: int)
    requires
        0 <= start,
        find_chunk_spec(bytes, start, name) == Some(i),
    ensures
        start <= i,
        chunk_match(bytes, name, i),
        forall|k: int| start <= k < i ==> !chunk_match(bytes, name, k),
    decreases bytes.len() - start,
{
    if start < bytes.len() && !chunk_match(bytes, name, start) {
        lemma_find_chunk_spec_some(bytes, start + 1, name, i);
    }
}

/// Returns the position of the first copy of `name` in `bytes` at or after
/// `start`, or `None` when no full copy stands anywhere after `start`.
pub fn find_chunk(bytes: &Vec<u8>, start: usize, name: &[u8]) -> (r: Option<usize>)
    ensures
        match r {
            Some(i) => find_chunk_spec(bytes@, start as int, name@) == Some(i as int),
            None => find_chunk_spec(bytes@, start as int, name@) is None,
        },
{
    if name.len() == 0 {
        proof {
            lemma_find_chunk_empty_name(bytes@, start as int, name@);
        }
        return None;
    }
    let n: usize = bytes.len();
    let mut i: usize = start;
    while i < n
        invariant
            n == bytes@.len(),
            start <= i,
            name@.len() > 0,
            find_chunk_spec(bytes@, start as int, name@) == find_chunk_spec(
                bytes@,
                i as int,
                name@,
            ),
        decreases bytes.len() - i,
    {
        if name.len() <= n - i {
            let mut j: usize = 0;
            let mut matched = true;
            while j < name.len()
                invariant
                    0 <= j <= name@.len(),
                    name@.len() > 0,
                    i + name@.len() <= bytes@.len(),
                    bytes@.len() <= usize::MAX,
                    matched ==> forall|jj: int| 0 <= jj < j ==> bytes@[i + jj] == name@[jj],
                    !matched ==> !chunk_match(bytes@, name@, i as int),
                decreases name@.len() - j,
            {
                if bytes[i + j] != name[j] {
                    matched = false;
                    j = name.len();
                } else {
                    j = j + 1;
                }
            }
            if matched {
                assert(chunk_match(bytes@, name@, i as int));
                return Some(i);
            }
        } else {
            assert(!chunk_match(bytes@, name@, i as int));
        }
        assert(find_chunk_spec(bytes@, i as int, name@) == find_chunk_spec(
            bytes@,
            i + 1 as int,
            name@,
        ));
        i = i + 1;
    }
    None
}

/// An empty `name` is never found.
proof fn lemma_find_chunk_empty_name(bytes: Seq<u8>, start: int, name: Seq<u8>)
    requires
        0 <= start,
        name.len() == 0,
    ensures
        find_chunk_spec(bytes, start, name) is None,
    decreases bytes.len() - start,
{
    if start < bytes.len() {
        lemma_find_chunk_empty_name(bytes, start + 1, name);
    }
}

/// The u32 little-endian value at position `i` of `bytes`.
pub open spec fn le_u32_at(bytes: Seq<u8>, i: int) -> u32
    recommends
        0 <= i,
        i + 4 <= bytes.len(),
{
    spec_u32_from_le_bytes(bytes.subrange(i, i + 4))
}

/// The u16 little-endian value at position `i` of `bytes`.
pub open spec fn le_u16_at(bytes: Seq<u8>, i: int) -> u16
    recommends
        0 <= i,
        i + 2 <= bytes.len(),
{
    spec_u16_from_le_bytes(bytes.subrange(i, i + 2))
}

/// The position of the data chunk marker that `WavHeader::from` reads: the
/// first "data" after the declared end of the format chunk.
pub open spec fn data_chunk_pos(bytes: Seq<u8>) -> Option<int>
    recommends
        bytes.len() >= 20,
{
    find_chunk_spec(bytes, 20 + le_u32_at(bytes, 16), data_marker())
}

/// The inputs on which `WavHeader::from` is defined: at least the fixed
/// 44-byte prefix, a "data" marker after the format chunk, and the eight
/// bytes of marker and size it declares.
pub open spec fn header_bytes_wf(bytes: Seq<u8>) -> bool {
    &&& bytes.len() >= 44
    &&& data_chunk_pos(bytes) is Some
    &&& data_chunk_pos(bytes).unwrap() + 8 <= bytes.len()
}

/// `h` holds exactly the fields that the header bytes declare.
pub open spec fn header_parses_to(bytes: Seq<u8>, h: WavHeader) -> bool {
    let ds = data_chunk_pos(bytes).unwrap();
    &&& h.riff@ == bytes.subrange(0, 4)
    &&& h.file_size == le_u32_at(bytes, 4)
    &&& h.file_type@ == bytes.subrange(8, 12)
    &&& h.format_chunk_marker@ == bytes.subrange(12, 16)
    &&& h.format_data_length == le_u32_at(bytes, 16)
    &&& h.format_type == le_u16_at(bytes, 20)
    &&& h.number_of_channels == le_u16_at(bytes, 22)
    &&& h.sample_rate == le_u32_at(bytes, 24)
    &&& h.bytes_per_second == le_u32_at(bytes, 28)
    &&& h.bytes_per_frame == le_u16_at(bytes, 32)
    &&& h.bits_per_sample == le_u16_at(bytes, 34)
    &&& h.data_chunk_marker@ == bytes.subrange(ds, ds + 4)
    &&& h.data_size == le_u32_at(bytes, ds + 4)
}

impl WavHeader {
    /// Parses the header fields out of the first bytes of a raw-PCM file.
    pub fn from(header_bytes: Vec<u8>) -> (h: WavHeader)
        requires
            header_bytes_wf(header_bytes@),
        ensures
            header_parses_to(header_bytes@, h),
    {
        let _n: usize = header_bytes.len();
        let format_data_length = read_le_u32(&header_bytes, 16);

        proof {
            lemma_find_chunk_spec_some(
                header_bytes@,
                20 + format_data_length as int,
                data_marker(),
                data_chunk_pos(header_bytes@).unwrap(),
            );
        }

        let mut marker: Vec<u8> = Vec::new();
        marker.push(100);
        marker.push(97);
        marker.push(116);
        marker.push(97);
        assert(marker@ =~= data_marker());
        let data_chunk_start: usize = match find_chunk(
            &header_bytes,
            20 + format_data_length as usize,
            marker.as_slice(),
        ) {
            Some(i) => i,
            None => {
                proof {
                    assert(false);
                }
                0
            },
        };

        let riff: [u8; 4] = [header_bytes[0], header_bytes[1], header_bytes[2], header_bytes[3]];
        let file_type: [u8; 4] = [
            header_bytes[8],
            header_bytes[9],
            header_bytes[10],
            header_bytes[11],
        ];
        let format_chunk_marker: [u8; 4] = [
            header_bytes[12],
            header_bytes[13],
            header_bytes[14],
            header_bytes[15],
        ];
        let data_chunk_marker: [u8; 4] = [
            header_bytes[data_chunk_start],
            header_bytes[data_chunk_start + 1],
            header_bytes[data_chunk_start + 2],
            header_bytes[data_chunk_start + 3],
        ];
        proof {
            let ds = data_chunk_pos(header_bytes@).unwrap();
            assert(riff@ =~= header_bytes@.subrange(0, 4));
            assert(file_type@ =~= header_bytes@.subrange(8, 12));
            assert(format_chunk_marker@ =~= header_bytes@.subrange(12, 16));
            assert(data_chunk_marker@ =~= header_bytes@.subrange(ds, ds + 4));
        }

        WavHeader {
            riff,
            file_size: read_le_u32(&header_bytes, 4),
            file_type,
            format_chunk_marker,
            format_data_length,
            format_type: read_le_u16(&header_bytes, 20),
            number_of_channels: read_le_u16(&header_bytes, 22),
            sample_rate: read_le_u32(&header_bytes, 24),
            bytes_per_second: read_le_u32(&header_bytes, 28),
            bytes_per_frame: read_le_u16(&header_bytes, 32),
            bits_per_sample: read_le_u16(&header_bytes, 34),
            data_chunk_marker,
            data_size: read_le_u32(&header_bytes, data_chunk_start + 4),
        }
    }

    /// First byte of the audio data proper: the fixed 20-byte prefix, the
    /// declared format chunk, and the 8 bytes of data marker and size.
    pub fn data_start(&self) -> (r: usize)
        requires
            self.format_data_length + 28 <= usize::MAX,
        ensures
            r == 28 + self.format_data_length,
    {
        20 + self.format_data_length as usize + 8
    }
}

/// The u32 little-endian field at position `i`.
pub(crate) fn read_le_u32(bytes: &Vec<u8>, i: usize) -> (r: u32)
    requires
        i + 4 <= bytes@.len(),
    ensures
        r == le_u32_at(bytes@, i as int),
{
    let _len: usize = bytes.len();
    vstd::bytes::u32_from_le_bytes(vstd::slice::slice_subrange(bytes.as_slice(), i, i + 4))
}

/// The u16 little-endian field at position `i`.
fn read_le_u16(bytes: &Vec<u8>, i: usize) -> (r: u16)
    requires
        i + 2 <= bytes@.len(),
    ensures
        r == le_u16_at(bytes@, i as int),
{
    let _len: usize = bytes.len();
    vstd::bytes::u16_from_le_bytes(vstd::slice::slice_subrange(bytes.as_slice(), i, i + 2))
}

} // verus!
