use server_voice_s3r::audio::{
    bytes_between, magnitude, pcm_has_speech, pcm_to_wav, read_samples, resample, split_sample,
    wav_to_pcm, DEVICE_RATE, MIN_LOUD_SAMPLES, TTS_RATE,
};

fn pcm(s: &[i16]) -> Vec<u8> {
    s.iter().flat_map(|v| v.to_le_bytes()).collect()
}

#[test]
fn samples_are_little_endian() {
    assert_eq!(read_samples(&[0x01, 0x02, 0xff, 0xff, 0x7f]), vec![0x0201, -1]);
    assert_eq!(split_sample(-2), (0xfe, 0xff));
    assert_eq!(split_sample(i16::MIN), (0, 0x80));
    for v in [0i16, 1, -1, 300, -300, i16::MAX, i16::MIN] {
        assert_eq!(split_sample(v), (v.to_le_bytes()[0], v.to_le_bytes()[1]));
        assert_eq!(read_samples(&pcm(&[v])), vec![v]);
    }
    assert_eq!(magnitude(i16::MIN), 32768);
}

#[test]
fn speech_needs_enough_loud_samples() {
    let loud = pcm(&vec![351i16; MIN_LOUD_SAMPLES]);
    let few = pcm(&vec![-351i16; MIN_LOUD_SAMPLES - 1]);
    let quiet = pcm(&vec![350i16; 10_000]);
    assert!(pcm_has_speech(&loud));
    assert!(!pcm_has_speech(&few));
    assert!(!pcm_has_speech(&quiet));
    assert!(!pcm_has_speech(&[]));
}

#[test]
fn wav_header_is_exact() {
    let w = pcm_to_wav(&[1, 2, 3, 4], 16_000);
    let mut want: Vec<u8> = Vec::new();
    want.extend_from_slice(b"RIFF");
    want.extend_from_slice(&40u32.to_le_bytes());
    want.extend_from_slice(b"WAVEfmt ");
    want.extend_from_slice(&16u32.to_le_bytes());
    want.extend_from_slice(&[1, 0, 1, 0]);
    want.extend_from_slice(&16_000u32.to_le_bytes());
    want.extend_from_slice(&32_000u32.to_le_bytes());
    want.extend_from_slice(&[2, 0, 16, 0]);
    want.extend_from_slice(b"data");
    want.extend_from_slice(&4u32.to_le_bytes());
    want.extend_from_slice(&[1, 2, 3, 4]);
    assert_eq!(w, want);
}

#[test]
fn wav_round_trips() {
    for p in [vec![], vec![9u8], vec![0u8; 1001], b"data in data".to_vec()] {
        assert_eq!(wav_to_pcm(&pcm_to_wav(&p, DEVICE_RATE)), p);
        assert_eq!(wav_to_pcm(&pcm_to_wav(&p, TTS_RATE)), p);
    }
}

#[test]
fn only_the_data_chunk_is_read() {
    let mut w = pcm_to_wav(&[1, 2], 16_000);
    w.extend_from_slice(b"LIST\x00\x00\x00\x00");
    assert_eq!(wav_to_pcm(&w), vec![1, 2]);
    let mut cut = pcm_to_wav(&[1, 2, 3, 4], 16_000);
    cut.truncate(46);
    assert_eq!(wav_to_pcm(&cut), vec![1, 2]);
    assert!(wav_to_pcm(b"data\x00\x00\x00\x00abc").is_empty());
}

#[test]
fn wav_without_data_is_empty() {
    assert!(wav_to_pcm(b"RIFF").is_empty());
    assert!(wav_to_pcm(b"xdata123").is_empty());
    assert_eq!(wav_to_pcm(b"xdata1234ab"), b"ab".to_vec());
    assert_eq!(bytes_between(&[1, 2, 3], 1, 2), vec![2]);
}

#[test]
fn resampling_up_interpolates() {
    // 2/3 of a source sample per step.
    let out = read_samples(&resample(&pcm(&[0, 300, 600, 900]), 16_000, 24_000));
    assert_eq!(out, vec![0, 200, 400, 600, 800, 900]);
}

#[test]
fn resampling_down_interpolates() {
    // 3/2 source samples per step.
    let out = read_samples(&resample(&pcm(&[0, 100, 200, 300, 400, 500]), 24_000, 16_000));
    assert_eq!(out, vec![0, 150, 300, 450]);
}

#[test]
fn resampling_rounds_halves_away_from_zero() {
    let up = read_samples(&resample(&pcm(&[0, 1, 2]), 24_000, 16_000));
    assert_eq!(up, vec![0, 2]);
    let down = read_samples(&resample(&pcm(&[0, -1, -2]), 24_000, 16_000));
    assert_eq!(down, vec![0, -2]);
}

#[test]
fn resampling_edge_cases() {
    assert_eq!(resample(&[1, 2, 3], 16_000, 16_000), vec![1, 2, 3]);
    assert!(resample(&[7], 16_000, 24_000).is_empty());
    assert!(resample(&[], 16_000, 24_000).is_empty());
}

#[test]
fn resampling_agrees_with_floating_point() {
    let src: Vec<i16> = (0..500).map(|i| ((i * 7919 + 31) % 65_536 - 32_768) as i16).collect();
    for (from, to) in [(16_000u32, 24_000u32), (24_000, 16_000)] {
        let ratio = from as f64 / to as f64;
        let n = ((src.len() as f64) / ratio).floor() as usize;
        let mut want: Vec<i16> = Vec::new();
        for i in 0..n {
            let pos = i as f64 * ratio;
            let idx = pos.floor() as usize;
            let frac = pos - idx as f64;
            let a = src[idx] as f64;
            let b = *src.get(idx + 1).unwrap_or(&src[idx]) as f64;
            want.push((a + (b - a) * frac).round() as i16);
        }
        let got = read_samples(&resample(&pcm(&src), from, to));
        assert_eq!(got, want);
    }
}
