use server_voice_s3r::loopback::{Loopback, LOOPBACK_CAP, LOOPBACK_CHUNK};
use server_voice_s3r::segment::{
    chunk_speaks, Segmenter, MAX_SEG_BYTES, MIN_SEG_BYTES, SILENCE_END_BYTES,
};

fn tone(level: i16, bytes: usize) -> Vec<u8> {
    (0..bytes / 2).flat_map(|_| level.to_le_bytes()).collect()
}

#[test]
fn one_loud_sample_speaks() {
    assert!(!chunk_speaks(&tone(350, 2048)));
    let mut c = tone(0, 2048);
    c[100] = 0x5f;
    c[101] = 0x01; // 351
    assert!(chunk_speaks(&c));
    assert!(!chunk_speaks(&[0xff]));
}

#[test]
fn silence_ends_a_segment() {
    let mut s = Segmenter::new();
    let quiet = tone(1, 2048);
    let loud = tone(1000, 2048);
    assert!(s.feed(&quiet).is_none());
    assert!(s.feed(&loud).is_none());
    let mut want = quiet.clone(); // the chunk before the onset is kept
    want.extend_from_slice(&loud);
    let mut fed = 0;
    loop {
        want.extend_from_slice(&quiet);
        fed += quiet.len();
        match s.feed(&quiet) {
            Some(seg) => {
                assert_eq!(seg, want);
                break;
            }
            None => assert!(fed < SILENCE_END_BYTES),
        }
    }
    assert!(fed >= SILENCE_END_BYTES);
    assert!(s.feed(&quiet).is_none());
    assert!(s.finish().is_none());
}

#[test]
fn speech_resets_the_silence() {
    let mut s = Segmenter::new();
    let quiet = tone(0, 12_000);
    let loud = tone(-2000, 2000);
    assert!(s.feed(&loud).is_none());
    assert!(s.feed(&quiet).is_none());
    assert!(s.feed(&quiet).is_none());
    assert!(s.feed(&loud).is_none());
    assert!(s.feed(&quiet).is_none());
    let seg = s.finish().unwrap();
    assert_eq!(seg.len(), 2000 + 12_000 + 12_000 + 2000 + 12_000);
}

#[test]
fn clicks_are_dropped() {
    let mut s = Segmenter::new();
    assert!(s.feed(&tone(900, 100)).is_none());
    assert!(s.finish().is_none());
    let mut s = Segmenter::new();
    s.feed(&tone(900, MIN_SEG_BYTES));
    assert_eq!(s.finish().unwrap().len(), MIN_SEG_BYTES);
}

#[test]
fn thirty_seconds_are_a_hard_cap() {
    let mut s = Segmenter::new();
    let loud = tone(900, 2048);
    let mut segments = 0;
    let mut bytes = 0;
    for _ in 0..1200 {
        if let Some(seg) = s.feed(&loud) {
            assert!(seg.len() >= MAX_SEG_BYTES);
            assert!(seg.len() < MAX_SEG_BYTES + 2 * 2048);
            segments += 1;
            bytes += seg.len();
        }
    }
    assert_eq!(segments, 2);
    let rest = s.finish().unwrap();
    assert!(rest.len() < MAX_SEG_BYTES);
    // No chunk is lost; the one before each new segment stands in both.
    assert_eq!(bytes + rest.len(), 1200 * 2048 + 2 * 2048);
    let mut s = Segmenter::new();
    assert_eq!(s.feed(&tone(900, MAX_SEG_BYTES)).unwrap().len(), MAX_SEG_BYTES);
}

#[test]
fn loopback_keeps_the_newest_bytes() {
    let mut b = Loopback::new();
    assert!(b.take_chunk().is_empty());
    b.capture(&[1, -2]);
    assert_eq!(b.take_chunk(), vec![1, 0, 0xfe, 0xff]);
    let all: Vec<i16> = (0..20_000).map(|i| i as i16).collect();
    b.capture(&all);
    let mut got: Vec<u8> = Vec::new();
    loop {
        let c = b.take_chunk();
        assert!(c.len() <= LOOPBACK_CHUNK);
        if c.is_empty() {
            break;
        }
        got.extend(c);
    }
    let bytes: Vec<u8> = all.iter().flat_map(|v| v.to_le_bytes()).collect();
    assert_eq!(got, bytes[bytes.len() - LOOPBACK_CAP..].to_vec());
    b.capture(&all[..8001]);
    let mut held = 0;
    loop {
        let c = b.take_chunk();
        if c.is_empty() {
            break;
        }
        held += c.len();
    }
    assert_eq!(held, 16_000);
    b.capture(&all);
    b.clear();
    assert!(b.take_chunk().is_empty());
}
