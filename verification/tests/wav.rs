use crowndictator::wav::{read_wav, SampleKind, WavError};

fn le16(v: u16) -> [u8; 2] {
    v.to_le_bytes()
}

fn le32(v: u32) -> [u8; 4] {
    v.to_le_bytes()
}

fn chunk(tag: &[u8; 4], body: &[u8]) -> Vec<u8> {
    let mut c = Vec::new();
    c.extend_from_slice(tag);
    c.extend_from_slice(&le32(body.len() as u32));
    c.extend_from_slice(body);
    if body.len() % 2 == 1 {
        c.push(0);
    }
    c
}

fn fmt(format: u16, channels: u16, rate: u32, bits: u16) -> Vec<u8> {
    let mut b = Vec::new();
    b.extend_from_slice(&le16(format));
    b.extend_from_slice(&le16(channels));
    b.extend_from_slice(&le32(rate));
    b.extend_from_slice(&le32(rate * channels as u32 * bits as u32 / 8));
    b.extend_from_slice(&le16(channels * bits / 8));
    b.extend_from_slice(&le16(bits));
    chunk(b"fmt ", &b)
}

fn file(chunks: &[Vec<u8>]) -> Vec<u8> {
    let mut body = Vec::new();
    body.extend_from_slice(b"WAVE");
    for c in chunks {
        body.extend_from_slice(c);
    }
    let mut f = Vec::new();
    f.extend_from_slice(b"RIFF");
    f.extend_from_slice(&le32(body.len() as u32));
    f.extend_from_slice(&body);
    f
}

#[test]
fn a_stereo_pcm16_file_decodes_whole_frames() {
    let mut data = Vec::new();
    for s in [1i16, -1, 300, -300, 7] {
        data.extend_from_slice(&s.to_le_bytes());
    }
    let f = file(&[fmt(1, 2, 48_000, 16), chunk(b"data", &data)]);
    let a = read_wav(&f).unwrap();
    assert_eq!(a.kind, SampleKind::Int16);
    assert_eq!(a.channels, 2);
    assert_eq!(a.rate, 48_000);
    // Five samples are two whole stereo frames and a stray one.
    assert_eq!(a.samples, vec![1, 0xffff, 300, (-300i16) as u16 as u32]);
}

#[test]
fn float_and_pcm32_files_keep_their_words() {
    let data: Vec<u8> = [0.5f32, -0.25].iter().flat_map(|v| v.to_le_bytes()).collect();
    let a = read_wav(&file(&[fmt(3, 1, 16_000, 32), chunk(b"data", &data)])).unwrap();
    assert_eq!(a.kind, SampleKind::Float32);
    assert_eq!(a.samples, vec![0.5f32.to_bits(), (-0.25f32).to_bits()]);

    let data: Vec<u8> = [5i32, -5].iter().flat_map(|v| v.to_le_bytes()).collect();
    let a = read_wav(&file(&[fmt(1, 1, 22_050, 32), chunk(b"data", &data)])).unwrap();
    assert_eq!(a.kind, SampleKind::Int32);
    assert_eq!(a.rate, 22_050);
    assert_eq!(a.samples, vec![5, (-5i32) as u32]);
}

#[test]
fn other_chunks_are_skipped_with_their_padding() {
    let data: Vec<u8> = [9i16].iter().flat_map(|v| v.to_le_bytes()).collect();
    let f = file(&[chunk(b"LIST", b"abc"), fmt(1, 1, 8_000, 16), chunk(b"data", &data)]);
    let a = read_wav(&f).unwrap();
    assert_eq!(a.rate, 8_000);
    assert_eq!(a.samples, vec![9]);
}

#[test]
fn without_a_fmt_chunk_the_defaults_apply() {
    let data: Vec<u8> = [1i16, 2].iter().flat_map(|v| v.to_le_bytes()).collect();
    let a = read_wav(&file(&[chunk(b"junk", &[0u8; 30]), chunk(b"data", &data)]));
    // The default format is 0, which is no format the reader decodes.
    assert_eq!(a.err(), Some(WavError::Unsupported { format: 0, bits: 16 }));
}

#[test]
fn a_zero_channel_count_reads_as_mono() {
    let data: Vec<u8> = [4i16, 5].iter().flat_map(|v| v.to_le_bytes()).collect();
    let a = read_wav(&file(&[fmt(1, 0, 16_000, 16), chunk(b"data", &data)])).unwrap();
    assert_eq!(a.channels, 1);
    assert_eq!(a.samples, vec![4, 5]);
}

#[test]
fn the_last_data_chunk_wins() {
    let first: Vec<u8> = [1i16].iter().flat_map(|v| v.to_le_bytes()).collect();
    let second: Vec<u8> = [2i16, 3].iter().flat_map(|v| v.to_le_bytes()).collect();
    let f = file(&[fmt(1, 1, 16_000, 16), chunk(b"data", &first), chunk(b"data", &second)]);
    assert_eq!(read_wav(&f).unwrap().samples, vec![2, 3]);
}

#[test]
fn a_data_chunk_running_past_the_end_is_cut() {
    let mut f = file(&[fmt(1, 1, 16_000, 16)]);
    f.extend_from_slice(b"data");
    f.extend_from_slice(&le32(1000));
    f.extend_from_slice(&[1, 0, 2, 0, 3]);
    assert_eq!(read_wav(&f).unwrap().samples, vec![1, 2]);
}

#[test]
fn errors_name_what_is_wrong() {
    assert_eq!(read_wav(b"RIFF").err(), Some(WavError::NotRiffWave));
    let mut not_wave = file(&[fmt(1, 1, 16_000, 16), chunk(b"data", &[0; 8])]);
    not_wave[8] = b'X';
    assert_eq!(read_wav(&not_wave).err(), Some(WavError::NotRiffWave));
    let f = file(&[fmt(1, 1, 16_000, 16), chunk(b"LIST", &[0; 16])]);
    assert_eq!(read_wav(&f).err(), Some(WavError::NoData));
    let f = file(&[fmt(1, 1, 16_000, 24), chunk(b"data", &[0; 12])]);
    assert_eq!(read_wav(&f).err(), Some(WavError::Unsupported { format: 1, bits: 24 }));
}
