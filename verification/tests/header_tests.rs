use pjp::WavHeader;
use pjp::find_chunk;

#[test]
fn reads_wav_header_from_bytes() {
    let header_vec = [
        82, 73, 70, 70, 60, 5, 5, 0, 87, 65, 86, 69, 102, 109, 116, 32, 18, 0, 0, 0, 1, 0, 1, 0,
        68, 172, 0, 0, 136, 88, 1, 0, 2, 0, 16, 0, 0, 0, 100, 97, 116, 97, 22, 5, 5, 0,
    ]
    .to_vec();

    let header = WavHeader::from(header_vec);
    assert_eq!(header.sample_rate, 44100);
    assert_eq!(header.format_type, 1);
    assert_eq!(header.number_of_channels, 1);
    assert_eq!(header.bits_per_sample, 16);
    assert_eq!(header.data_size, 328982);
}

#[test]
fn finds_marker_after_start() {
    let bytes = vec![0u8, 1, 100, 97, 116, 97, 9, 100, 97, 116, 97];
    let marker = [100u8, 97, 116, 97];
    assert_eq!(find_chunk(&bytes, 0, &marker), Some(2));
    assert_eq!(find_chunk(&bytes, 3, &marker), Some(7));
    assert_eq!(find_chunk(&bytes, 8, &marker), None);
}

#[test]
fn finds_nothing_in_short_tail() {
    let bytes = vec![100u8, 97, 116];
    let marker = [100u8, 97, 116, 97];
    assert_eq!(find_chunk(&bytes, 0, &marker), None);
}

#[test]
fn data_start_counts_prefix_and_chunk() {
    let header_vec = [
        82, 73, 70, 70, 60, 5, 5, 0, 87, 65, 86, 69, 102, 109, 116, 32, 18, 0, 0, 0, 1, 0, 1, 0,
        68, 172, 0, 0, 136, 88, 1, 0, 2, 0, 16, 0, 0, 0, 100, 97, 116, 97, 22, 5, 5, 0,
    ]
    .to_vec();
    let header = WavHeader::from(header_vec);
    assert_eq!(header.data_start(), 20 + 18 + 8);
}
