use pjp::WavSource;

/// A minimal 16-bit mono raw-PCM container: a 44-byte header, `data_size`
/// declared, and `frames` two-byte frames of payload, padded so the whole
/// file is at least 1024 bytes long.
fn wav_bytes(frames: u16, data_size: u32) -> Vec<u8> {
    let mut v: Vec<u8> = Vec::new();
    v.extend_from_slice(&[82, 73, 70, 70]); // RIFF
    v.extend_from_slice(&0u32.to_le_bytes()); // file size (unused)
    v.extend_from_slice(&[87, 65, 86, 69]); // WAVE
    v.extend_from_slice(&[102, 109, 116, 32]); // fmt chunk marker
    v.extend_from_slice(&16u32.to_le_bytes()); // format data length
    v.extend_from_slice(&1u16.to_le_bytes()); // PCM
    v.extend_from_slice(&1u16.to_le_bytes()); // mono
    v.extend_from_slice(&44100u32.to_le_bytes()); // sample rate
    v.extend_from_slice(&88200u32.to_le_bytes()); // bytes per second
    v.extend_from_slice(&2u16.to_le_bytes()); // bytes per frame
    v.extend_from_slice(&16u16.to_le_bytes()); // bits per sample
    v.extend_from_slice(&[100, 97, 116, 97]); // data chunk marker
    v.extend_from_slice(&data_size.to_le_bytes());
    for i in 0..frames {
        let sample: i16 = (i as i16) + 1;
        v.extend_from_slice(&sample.to_le_bytes());
    }
    while v.len() < 1024 {
        v.push(0);
    }
    v
}

#[test]
fn decodes_initial_block() {
    // 100 frames of payload, and the header says so
    let src_data = wav_bytes(100, 200);
    let mut src = WavSource::new("synth.wav".to_string(), src_data);
    let buf = src.get_buffer(0).unwrap();
    assert_eq!(buf.offset, 0);
    assert_eq!(buf.length, 1024);
    assert_eq!(buf.sample_rate, 44100);
    assert_eq!(buf.samples.len(), 1);
    assert_eq!(buf.samples[0].len(), 1024);
    // samples are the raw 16-bit words, zero-extended
    assert_eq!(buf.samples[0][0], 1);
    assert_eq!(buf.samples[0][1], 2);
    assert_eq!(buf.samples[0][99], 100);
}

#[test]
fn pads_with_silence_past_available_bytes() {
    let src_data = wav_bytes(100, 200);
    let mut src = WavSource::new("synth.wav".to_string(), src_data);
    let buf = src.get_buffer(0).unwrap();
    // the data chunk ends after 100 frames: the rest of the block is silence
    for i in 100..1024 {
        assert_eq!(buf.samples[0][i], 0);
    }
}

#[test]
fn refuses_offset_past_data_extent() {
    let src_data = wav_bytes(100, 200);
    let mut src = WavSource::new("synth.wav".to_string(), src_data);
    // 100 frames exist; asking at or past the extent yields nothing
    assert!(src.get_buffer(100).is_none());
    assert!(src.get_buffer(44100 * 10).is_none());
}

#[test]
fn repeated_requests_return_identical_content() {
    let src_data = wav_bytes(100, 200);
    let mut src = WavSource::new("synth.wav".to_string(), src_data);
    let first: Vec<u32> = src.get_buffer(7).unwrap().samples[0].clone();
    let second: Vec<u32> = src.get_buffer(7).unwrap().samples[0].clone();
    assert_eq!(first, second);
}

#[test]
fn negative_sample_words_keep_their_bits() {
    // one frame holding -1 (0xFFFF little-endian)
    let mut src_data = wav_bytes(0, 2);
    src_data[44] = 0xFF;
    src_data[45] = 0xFF;
    let mut src = WavSource::new("synth.wav".to_string(), src_data);
    let buf = src.get_buffer(0).unwrap();
    assert_eq!(buf.samples[0][0], 0xFFFF);
    assert_eq!(buf.samples[0][0] as u16 as i16, -1);
}

#[test]
fn declared_extent_beyond_file_is_silence() {
    // the header claims 4000 bytes of data but the file holds 100 frames
    let src_data = wav_bytes(100, 4000);
    let mut src = WavSource::new("synth.wav".to_string(), src_data);
    let buf = src.get_buffer(1024).unwrap();
    assert_eq!(buf.offset, 1024);
    for i in 0..1024 {
        assert_eq!(buf.samples[0][i], 0);
    }
}

#[test]
fn construction_accepts_supported_containers() {
    let src_data = wav_bytes(100, 200);
    let mut src = WavSource::try_new("synth.wav".to_string(), src_data).unwrap();
    assert!(src.get_buffer(0).is_some());
}

#[test]
fn construction_refuses_unsupported_containers() {
    // not PCM
    let mut bad = wav_bytes(100, 200);
    bad[20] = 3;
    assert!(WavSource::try_new("synth.wav".to_string(), bad).is_none());
    // unsupported bit depth
    let mut bad = wav_bytes(100, 200);
    bad[34] = 24;
    assert!(WavSource::try_new("synth.wav".to_string(), bad).is_none());
    // no channels
    let mut bad = wav_bytes(100, 200);
    bad[22] = 0;
    bad[23] = 0;
    assert!(WavSource::try_new("synth.wav".to_string(), bad).is_none());
    // too short for a header read
    assert!(WavSource::try_new("synth.wav".to_string(), vec![0u8; 100]).is_none());
    // no data chunk marker
    let mut bad = wav_bytes(100, 200);
    bad[38] = 0;
    assert!(WavSource::try_new("synth.wav".to_string(), bad).is_none());
}
