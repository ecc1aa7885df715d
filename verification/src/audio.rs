//! Sixteen-bit little-endian mono PCM: reading samples, judging loudness, wrapping in
//! and unwrapping from WAV, and linear resampling.

use vstd::prelude::*;
use crate::text::{find, find_from, find_is_first, occurs, occurs_at};

verus! {

/// Sample rate of the device's PCM, in hertz.
pub const DEVICE_RATE: u32 = 16_000;

/// Sample rate of the synthesized speech, in hertz.
pub const TTS_RATE: u32 = 24_000;

/// A sample louder than this counts as speech.
pub const SPEECH_PEAK: i32 = 350;

/// An utterance needs this many loud samples to be worth transcribing.
pub const MIN_LOUD_SAMPLES: usize = 1500;

// ---------------------------------------------------------------- samples

/// The signed value of the two bytes of a little-endian sample.
pub open spec fn sample(lo: u8, hi: u8) -> i16 {
    let u = lo + 256 * hi;
    (if u < 32768 {
        u
    } else {
        u - 65536
    }) as i16
}

/// The samples of `pcm`. A last byte without a partner is left out.
pub open spec fn samples(pcm: Seq<u8>) -> Seq<i16> {
    Seq::new((pcm.len() / 2) as nat, |i: int| sample(pcm[2 * i], pcm[2 * i + 1]))
}

/// The low byte of `v`.
pub open spec fn low_byte(v: i16) -> u8 {
    ((v as int) % 256) as u8
}

/// The high byte of `v` in two's complement.
pub open spec fn high_byte(v: i16) -> u8 {
    (((v as int) / 256) % 256) as u8
}

/// The little-endian bytes of a list of samples.
pub open spec fn sample_bytes(s: Seq<i16>) -> Seq<u8> {
    Seq::new(
        2 * s.len(),
        |i: int|
            if i % 2 == 0 {
                low_byte(s[i / 2])
            } else {
                high_byte(s[i / 2])
            },
    )
}

/// Writing samples and reading them gives them back.
pub proof fn samples_read_back(s: Seq<i16>)
    ensures
        samples(sample_bytes(s)) == s,
{
    let b = sample_bytes(s);
    assert forall|i: int| 0 <= i < s.len() implies samples(b)[i] == s[i] by {
        assert(b[2 * i] == low_byte(s[i]));
        assert((2 * i + 1) / 2 == i);
        assert(b[2 * i + 1] == high_byte(s[i]));
    }
    assert(samples(b) =~= s);
}

/// The distance of `v` from zero.
pub open spec fn loudness(v: i16) -> int {
    if v < 0 {
        -v
    } else {
        v as int
    }
}

/// How many samples of `s` are louder than a speech sample's floor.
pub open spec fn loud_count(s: Seq<i16>) -> nat
    decreases s.len(),
{
    if s.len() == 0 {
        0
    } else {
        loud_count(s.drop_last()) + if loudness(s.last()) > SPEECH_PEAK {
            1nat
        } else {
            0
        }
    }
}

/// The value of a little-endian sample.
pub fn read_sample(lo: u8, hi: u8) -> (v: i16)
    ensures
        v == sample(lo, hi),
{
    let u: i32 = lo as i32 + 256 * (hi as i32);
    if u < 32768 {
        u as i16
    } else {
        (u - 65536) as i16
    }
}

/// The samples of `pcm`.
pub fn read_samples(pcm: &[u8]) -> (r: Vec<i16>)
    ensures
        r@ == samples(pcm@),
{
    let total: usize = pcm.len();
    let n: usize = total / 2;
    let mut r: Vec<i16> = Vec::new();
    let mut i: usize = 0;
    while i < n
        invariant
            0 <= i <= n,
            total == pcm@.len(),
            n == pcm@.len() / 2,
            r@ == samples(pcm@).take(i as int),
        decreases n - i,
    {
        r.push(read_sample(pcm[2 * i], pcm[2 * i + 1]));
        i += 1;
        assert(samples(pcm@).take(i as int) =~= samples(pcm@).take(i - 1).push(
            samples(pcm@)[i - 1],
        ));
    }
    assert(samples(pcm@).take(n as int) =~= samples(pcm@));
    r
}

/// How far `v` is from zero.
pub fn magnitude(v: i16) -> (m: i32)
    ensures
        m == loudness(v),
{
    let w: i32 = v as i32;
    if w < 0 {
        -w
    } else {
        w
    }
}

/// True when `pcm` holds enough loud samples to be worth transcribing.
pub fn pcm_has_speech(pcm: &[u8]) -> (b: bool)
    ensures
        b == (loud_count(samples(pcm@)) >= MIN_LOUD_SAMPLES),
{
    let s: Vec<i16> = read_samples(pcm);
    let mut loud: usize = 0;
    let mut i: usize = 0;
    while i < s.len()
        invariant
            0 <= i <= s@.len(),
            s@ == samples(pcm@),
            loud == loud_count(s@.take(i as int)),
            loud <= i,
        decreases s@.len() - i,
    {
        assert(s@.take(i + 1).drop_last() == s@.take(i as int));
        if magnitude(s[i]) > SPEECH_PEAK {
            loud += 1;
        }
        i += 1;
    }
    assert(s@.take(i as int) == s@);
    loud >= MIN_LOUD_SAMPLES
}

// ---------------------------------------------------------------- WAV

/// The four little-endian bytes of `x`.
pub open spec fn le32(x: int) -> Seq<u8> {
    seq![
        (x % 256) as u8,
        (x / 256 % 256) as u8,
        (x / 65536 % 256) as u8,
        (x / 16777216 % 256) as u8,
    ]
}

/// The two little-endian bytes of `x`.
pub open spec fn le16(x: int) -> Seq<u8> {
    seq![(x % 256) as u8, (x / 256 % 256) as u8]
}

/// The bytes of the chunk name `RIFF`.
pub open spec fn riff_name() -> Seq<u8> {
    seq![0x52u8, 0x49, 0x46, 0x46]
}

/// The bytes of the form name `WAVE`.
pub open spec fn wave_name() -> Seq<u8> {
    seq![0x57u8, 0x41, 0x56, 0x45]
}

/// The bytes of the chunk name `fmt `.
pub open spec fn fmt_name() -> Seq<u8> {
    seq![0x66u8, 0x6d, 0x74, 0x20]
}

/// The bytes of the chunk name `data`.
pub open spec fn data_name() -> Seq<u8> {
    seq![0x64u8, 0x61, 0x74, 0x61]
}

/// The length of `pcm` as the 32-bit field of a WAV header holds it.
pub open spec fn wav_data_len(pcm: Seq<u8>) -> int {
    pcm.len() as int % 0x1_0000_0000
}

/// The 44-byte header of a WAV file with `n` bytes of 16-bit mono PCM at `rate` hertz.
pub open spec fn wav_header(n: int, rate: int) -> Seq<u8> {
    riff_name() + le32(36 + n) + wave_name() + fmt_name() + le32(16) + le16(1) + le16(1) + le32(
        rate,
    ) + le32(rate * 2) + le16(2) + le16(16) + data_name() + le32(n)
}

/// The 32-bit field of `b` at `p`, the low byte first.
pub open spec fn field32(b: Seq<u8>, p: int) -> int {
    b[p] + 0x100 * b[p + 1] + 0x1_0000 * b[p + 2] + 0x100_0000 * b[p + 3]
}

/// The contents of the first `data` chunk: as many bytes after its name and its size field as
/// that field says, or as there are. Nothing when there is no such chunk or its size field is
/// cut off.
pub open spec fn wav_data(wav: Seq<u8>) -> Seq<u8> {
    match find(wav, data_name()) {
        Some(p) => if p + 8 <= wav.len() {
            if field32(wav, p + 4) < wav.len() - (p + 8) {
                wav.subrange(p + 8, p + 8 + field32(wav, p + 4))
            } else {
                wav.skip(p + 8)
            }
        } else {
            Seq::empty()
        },
        None => Seq::empty(),
    }
}

fn push4(w: &mut Vec<u8>, a: u8, b: u8, c: u8, d: u8)
    ensures
        final(w)@ == old(w)@ + seq![a, b, c, d],
{
    w.push(a);
    w.push(b);
    w.push(c);
    w.push(d);
    assert(w@ =~= old(w)@ + seq![a, b, c, d]);
}

fn push_le32(w: &mut Vec<u8>, x: u32)
    ensures
        final(w)@ == old(w)@ + le32(x as int),
{
    push4(
        w,
        (x % 256) as u8,
        (x / 256 % 256) as u8,
        (x / 65536 % 256) as u8,
        (x / 16777216 % 256) as u8,
    );
}

fn push_le16(w: &mut Vec<u8>, x: u16)
    ensures
        final(w)@ == old(w)@ + le16(x as int),
{
    w.push((x % 256) as u8);
    w.push((x / 256 % 256) as u8);
    assert(w@ =~= old(w)@ + le16(x as int));
}

/// Wraps 16-bit mono PCM in a 44-byte WAV header.
pub fn pcm_to_wav(pcm: &[u8], rate: u32) -> (w: Vec<u8>)
    requires
        wav_data_len(pcm@) + 36 <= u32::MAX,
        rate * 2 <= u32::MAX,
    ensures
        w@ == wav_header(wav_data_len(pcm@), rate as int) + pcm@,
{
    let data_len: u32 = (pcm.len() as u64 % 0x1_0000_0000) as u32;
    let mut w: Vec<u8> = Vec::new();
    push4(&mut w, 0x52, 0x49, 0x46, 0x46);
    push_le32(&mut w, 36 + data_len);
    push4(&mut w, 0x57, 0x41, 0x56, 0x45);
    push4(&mut w, 0x66, 0x6d, 0x74, 0x20);
    push_le32(&mut w, 16);
    push_le16(&mut w, 1);
    push_le16(&mut w, 1);
    push_le32(&mut w, rate);
    push_le32(&mut w, rate * 2);
    push_le16(&mut w, 2);
    push_le16(&mut w, 16);
    push4(&mut w, 0x64, 0x61, 0x74, 0x61);
    push_le32(&mut w, data_len);
    assert(w@ =~= wav_header(wav_data_len(pcm@), rate as int));
    w.extend_from_slice(pcm);
    assert(w@ =~= wav_header(wav_data_len(pcm@), rate as int) + pcm@);
    w
}

/// The bytes of `v` from `from` up to `to`.
pub fn bytes_between(v: &[u8], from: usize, to: usize) -> (r: Vec<u8>)
    requires
        from <= to <= v@.len(),
    ensures
        r@ == v@.subrange(from as int, to as int),
{
    let mut r: Vec<u8> = Vec::new();
    let mut i: usize = from;
    while i < to
        invariant
            from <= i <= to <= v@.len(),
            r@ == v@.subrange(from as int, i as int),
        decreases to - i,
    {
        r.push(v[i]);
        i += 1;
        assert(v@.subrange(from as int, i as int) =~= v@.subrange(from as int, i - 1).push(
            v@[i - 1],
        ));
    }
    r
}

/// Extracts the PCM of the `data` chunk from a WAV file.
pub fn wav_to_pcm(wav: &[u8]) -> (r: Vec<u8>)
    ensures
        r@ == wav_data(wav@),
{
    let n: usize = wav.len();
    let mut p: usize = 0;
    while p < n && n - p >= 4
        invariant
            0 <= p <= n,
            n == wav@.len(),
            find(wav@, data_name()) == find_from(wav@, data_name(), p as int),
        decreases n - p,
    {
        let ghost window = wav@.subrange(p as int, p + 4);
        if wav[p] == 0x64 && wav[p + 1] == 0x61 && wav[p + 2] == 0x74 && wav[p + 3] == 0x61 {
            assert(window =~= data_name());
            if n - p >= 8 {
                let size: u64 = wav[p + 4] as u64 + 0x100 * wav[p + 5] as u64 + 0x1_0000 * wav[p
                    + 6] as u64 + 0x100_0000 * wav[p + 7] as u64;
                let left: usize = n - (p + 8);
                if size < left as u64 {
                    return bytes_between(wav, p + 8, p + 8 + size as usize);
                }
                assert(wav@.subrange(p + 8, n as int) =~= wav@.skip(p + 8));
                return bytes_between(wav, p + 8, n);
            }
            return Vec::new();
        }
        assert(window[0] == wav@[p as int] && window[1] == wav@[p + 1] && window[2] == wav@[p + 2]
            && window[3] == wav@[p + 3]);
        p += 1;
    }
    Vec::new()
}

/// The sizes and rates whose header holds the bytes `data` before the chunk of that name.
pub open spec fn header_names_data_early(n: int, rate: int) -> bool {
    ||| 36 + n == 0x6174_6164
    ||| rate == 0x6174_6164
    ||| rate * 2 == 0x6174_6164
    ||| rate == 0x6164_30ba
    ||| rate == 0x6164_b0ba
}

/// The bytes `data` stand in `h` at `j`.
spec fn spells_data(h: Seq<u8>, j: int) -> bool {
    h[j] == 0x64 && h[j + 1] == 0x61 && h[j + 2] == 0x74 && h[j + 3] == 0x61
}

/// The bytes `data` stand nowhere in `h` before `k`.
spec fn no_data_before(h: Seq<u8>, k: nat) -> bool
    decreases k,
{
    k == 0 || (!spells_data(h, k - 1) && no_data_before(h, (k - 1) as nat))
}

proof fn no_data_at(h: Seq<u8>, k: nat, j: int)
    requires
        no_data_before(h, k),
        0 <= j < k,
    ensures
        !spells_data(h, j),
    decreases k,
{
    if j < k - 1 {
        no_data_at(h, (k - 1) as nat, j);
    }
}

/// The header's bytes one by one.
proof fn header_bytes(n: int, rate: int)
    ensures
        wav_header(n, rate) == riff_name() + le32(36 + n) + (wave_name() + fmt_name() + le32(16)
            + le16(1) + le16(1)) + le32(rate) + le32(rate * 2) + (le16(2) + le16(16)
            + data_name()) + le32(n),
        wav_header(n, rate).len() == 44,
{
    assert(wav_header(n, rate) =~= riff_name() + le32(36 + n) + (wave_name() + fmt_name() + le32(16)
        + le16(1) + le16(1)) + le32(rate) + le32(rate * 2) + (le16(2) + le16(16) + data_name())
        + le32(n));
}

proof fn field_is_not_data(x: int)
    requires
        0 <= x < 0x1_0000_0000,
        x != 0x6174_6164,
    ensures
        !spells_data(le32(x), 0),
{
}

proof fn field_reads_back(x: int)
    requires
        0 <= x < 0x1_0000_0000,
    ensures
        field32(le32(x), 0) == x,
{
    let f = le32(x);
    assert(f[0] == x % 256 && f[1] == x / 256 % 256 && f[2] == x / 65536 % 256 && f[3] == x
        / 16777216 % 256);
}

/// Of a file whose header ends with the first `data` and the right size, the sound comes out,
/// whatever chunks follow it.
proof fn header_is_skipped(h: Seq<u8>, pcm: Seq<u8>, more: Seq<u8>)
    requires
        h.len() == 44,
        no_data_before(h, 36),
        h.subrange(36, 40) == data_name(),
        field32(h, 40) == pcm.len(),
    ensures
        wav_data(h + pcm + more) == pcm,
{
    let w = h + pcm + more;
    let d = data_name();
    assert(w.subrange(36, 40) =~= h.subrange(36, 40));
    assert(occurs_at(w, d, 36));
    assert forall|j: int| 0 <= j < 36 implies !occurs_at(w, d, j) by {
        let v = w.subrange(j, j + 4);
        no_data_at(h, 36, j);
        assert(v[0] == h[j] && v[1] == h[j + 1] && v[2] == h[j + 2] && v[3] == h[j + 3]);
    }
    find_is_first(w, d);
    assert(find(w, d) == Some(36int));
    assert(w[40] == h[40] && w[41] == h[41] && w[42] == h[42] && w[43] == h[43]);
    assert(field32(w, 40) == pcm.len());
    assert(w.subrange(44, 44 + pcm.len() as int) =~= pcm);
    if more.len() == 0 {
        assert(w.skip(44) =~= pcm);
    }
}

/// Unwrapping what was wrapped gives the PCM back, whatever chunks follow it in the file. The
/// size must fit the field of the header, and neither the size nor the rate may happen to spell
/// the chunk name `data` inside it.
pub proof fn wav_round_trip(pcm: Seq<u8>, rate: u32, more: Seq<u8>)
    requires
        pcm.len() + 36 <= u32::MAX,
        rate * 2 <= u32::MAX,
        !header_names_data_early(pcm.len() as int, rate as int),
    ensures
        wav_data(wav_header(wav_data_len(pcm), rate as int) + pcm + more) == pcm,
        wav_data(wav_header(wav_data_len(pcm), rate as int) + pcm) == pcm,
{
    let n = wav_data_len(pcm);
    let h = wav_header(n, rate as int);
    assert(n == pcm.len());
    header_bytes(n, rate as int);
    no_early_data(n, rate as int);
    assert(h.subrange(36, 40) =~= data_name());
    field_reads_back(n);
    let f = le32(n);
    assert(h[40] == f[0] && h[41] == f[1] && h[42] == f[2] && h[43] == f[3]);
    header_is_skipped(h, pcm, more);
    header_is_skipped(h, pcm, Seq::empty());
    assert(h + pcm + Seq::<u8>::empty() =~= h + pcm);
}

/// The field of the rate and the byte rate after it spell `data` between them for two rates
/// only, and the byte rate is even.
proof fn rate_fields_are_not_data(rate: int)
    requires
        0 <= rate,
        rate * 2 <= u32::MAX,
        rate != 0x6164_30ba,
        rate != 0x6164_b0ba,
    ensures
        !(le32(rate)[2] == 0x64 && le32(rate)[3] == 0x61 && le32(rate * 2)[0] == 0x74 && le32(
            rate * 2,
        )[1] == 0x61),
        le32(rate * 2)[0] != 0x61,
{
    assert((rate * 2) % 256 % 2 == 0);
}

/// The bytes of the fixed fields hold no `data`, so it can only begin in a number.
proof fn only_numbers_spell_data(h: Seq<u8>)
    requires
        h.len() == 44,
        h[0] == 0x52 && h[1] == 0x49 && h[2] == 0x46 && h[3] == 0x46,
        h[8] == 0x57 && h[9] == 0x41 && h[10] == 0x56 && h[11] == 0x45,
        h[12] == 0x66 && h[13] == 0x6d && h[14] == 0x74 && h[15] == 0x20,
        h[16] == 16 && h[17] == 0 && h[18] == 0 && h[19] == 0,
        h[20] == 1 && h[21] == 0 && h[22] == 1 && h[23] == 0,
        h[28] != 0x61,
        h[32] == 2 && h[33] == 0 && h[34] == 16 && h[35] == 0,
        !spells_data(h, 4) && !spells_data(h, 24) && !spells_data(h, 26) && !spells_data(h, 28),
    ensures
        no_data_before(h, 36),
{
    reveal_with_fuel(no_data_before, 37);
}

/// The bytes of the header, field by field.
proof fn header_fields(n: int, rate: int)
    ensures
        ({
            let h = wav_header(n, rate);
            let s = le32(36 + n);
            let r = le32(rate);
            let b = le32(rate * 2);
            &&& h.len() == 44
            &&& h[0] == 0x52 && h[1] == 0x49 && h[2] == 0x46 && h[3] == 0x46
            &&& h[4] == s[0] && h[5] == s[1] && h[6] == s[2] && h[7] == s[3]
            &&& h[8] == 0x57 && h[9] == 0x41 && h[10] == 0x56 && h[11] == 0x45
            &&& h[12] == 0x66 && h[13] == 0x6d && h[14] == 0x74 && h[15] == 0x20
            &&& h[16] == 16 && h[17] == 0 && h[18] == 0 && h[19] == 0
            &&& h[20] == 1 && h[21] == 0 && h[22] == 1 && h[23] == 0
            &&& h[24] == r[0] && h[25] == r[1] && h[26] == r[2] && h[27] == r[3]
            &&& h[28] == b[0] && h[29] == b[1] && h[30] == b[2] && h[31] == b[3]
            &&& h[32] == 2 && h[33] == 0 && h[34] == 16 && h[35] == 0
        }),
{
    header_bytes(n, rate);
}

proof fn no_early_data(n: int, rate: int)
    requires
        0 <= n,
        n + 36 <= u32::MAX,
        0 <= rate,
        rate * 2 <= u32::MAX,
        !header_names_data_early(n, rate),
    ensures
        no_data_before(wav_header(n, rate), 36),
{
    header_fields(n, rate);
    field_is_not_data(36 + n);
    field_is_not_data(rate);
    field_is_not_data(rate * 2);
    rate_fields_are_not_data(rate);
    only_numbers_spell_data(wav_header(n, rate));
}

// ---------------------------------------------------------------- resampling

/// `n / d` rounded to the nearest integer, halves away from zero.
pub open spec fn round_div(n: int, d: int) -> int {
    if n >= 0 {
        (2 * n + d) / (2 * d)
    } else {
        -((-2 * n + d) / (2 * d))
    }
}

/// The value at the rational position `num / den` on the line through the samples `s`;
/// behind the last sample the line is level.
pub open spec fn sample_between(s: Seq<i16>, num: int, den: int) -> int {
    let idx = num / den;
    let a = s[idx] as int;
    let b = if idx + 1 < s.len() {
        s[idx + 1] as int
    } else {
        a
    };
    round_div(a * den + (b - a) * (num % den), den)
}

/// How many samples `n` samples at `from` hertz become at `to` hertz.
pub open spec fn resampled_len(n: int, from: int, to: int) -> int {
    n * to / from
}

/// The samples `s`, taken at `from` hertz, linearly interpolated at `to` hertz.
pub open spec fn resampled(s: Seq<i16>, from: int, to: int) -> Seq<i16> {
    Seq::new(
        resampled_len(s.len() as int, from, to) as nat,
        |i: int| sample_between(s, i * from, to) as i16,
    )
}

/// A weighted mean of two samples, rounded, lies between them.
proof fn rounded_mean(a: int, b: int, r: int, d: int)
    requires
        0 <= r < d,
    ensures
        a <= b ==> a <= round_div(a * d + (b - a) * r, d) <= b,
        b <= a ==> b <= round_div(a * d + (b - a) * r, d) <= a,
{
    let n = a * d + (b - a) * r;
    if a <= b {
        assert(a * d <= n <= b * d) by (nonlinear_arith)
            requires
                n == a * d + (b - a) * r,
                a <= b,
                0 <= r < d,
        ;
        round_div_between(n, d, a, b);
    }
    if b <= a {
        assert(b * d <= n <= a * d) by (nonlinear_arith)
            requires
                n == a * d + (b - a) * r,
                b <= a,
                0 <= r < d,
        ;
        round_div_between(n, d, b, a);
    }
}

proof fn round_div_between(n: int, d: int, lo: int, hi: int)
    requires
        0 < d,
        lo * d <= n <= hi * d,
    ensures
        lo <= round_div(n, d) <= hi,
{
    if n >= 0 {
        let q = (2 * n + d) / (2 * d);
        assert(q * (2 * d) <= 2 * n + d < (q + 1) * (2 * d)) by (nonlinear_arith)
            requires
                q == (2 * n + d) / (2 * d),
                d > 0,
        ;
        assert(lo <= q <= hi) by (nonlinear_arith)
            requires
                q * (2 * d) <= 2 * n + d < (q + 1) * (2 * d),
                lo * d <= n <= hi * d,
                d > 0,
        ;
    } else {
        let q = (-2 * n + d) / (2 * d);
        assert(q * (2 * d) <= -2 * n + d < (q + 1) * (2 * d)) by (nonlinear_arith)
            requires
                q == (-2 * n + d) / (2 * d),
                d > 0,
        ;
        assert(lo <= -q <= hi) by (nonlinear_arith)
            requires
                q * (2 * d) <= -2 * n + d < (q + 1) * (2 * d),
                lo * d <= n <= hi * d,
                d > 0,
        ;
    }
}

/// A position before the end of the output falls on a sample of the input.
proof fn position_in_range(i: int, n: int, from: int, to: int)
    requires
        0 <= i < resampled_len(n, from, to),
        0 <= n,
        0 < from,
        0 <= to,
    ensures
        0 < to,
        0 <= i * from / to < n,
        0 <= (i * from) % to < to,
{
    let m = n * to / from;
    assert(m * from <= n * to) by (nonlinear_arith)
        requires
            m == n * to / from,
            from > 0,
    ;
    assert(i * from < n * to) by (nonlinear_arith)
        requires
            0 <= i < m,
            m * from <= n * to,
            from > 0,
    ;
    assert(0 <= i * from) by (nonlinear_arith)
        requires
            0 <= i,
            0 < from,
    ;
    assert(0 < to) by (nonlinear_arith)
        requires
            0 <= i * from < n * to,
            0 <= to,
            0 <= n,
    ;
    let p = i * from;
    let q = p / to;
    assert(0 <= q < n && 0 <= p % to < to) by (nonlinear_arith)
        requires
            q == p / to,
            0 <= p < n * to,
            0 < to,
    ;
}

/// Every output sample lies between the two input samples around its position: resampling
/// never clips and never overshoots.
pub proof fn resampled_between(s: Seq<i16>, from: int, to: int, i: int)
    requires
        0 < from,
        0 <= to,
        0 <= i < resampled(s, from, to).len(),
    ensures
        ({
            let idx = i * from / to;
            let a = s[idx];
            let b = if idx + 1 < s.len() {
                s[idx + 1]
            } else {
                a
            };
            let v = resampled(s, from, to)[i];
            &&& 0 <= idx < s.len()
            &&& a <= b ==> a <= v <= b
            &&& b <= a ==> b <= v <= a
        }),
{
    assert(s.len() * to / from >= 0) by (nonlinear_arith)
        requires
            s.len() >= 0,
            to >= 0,
            from > 0,
    ;
    position_in_range(i, s.len() as int, from, to);
    let idx = i * from / to;
    let a = s[idx] as int;
    let b = if idx + 1 < s.len() {
        s[idx + 1] as int
    } else {
        a
    };
    rounded_mean(a, b, (i * from) % to, to);
}

/// The two bytes of `v`, the low one first.
pub fn split_sample(v: i16) -> (r: (u8, u8))
    ensures
        r == (low_byte(v), high_byte(v)),
{
    let u: i32 = if v < 0 {
        v as i32 + 65536
    } else {
        v as i32
    };
    ((u % 256) as u8, (u / 256) as u8)
}

/// Appends the little-endian bytes of `v`.
fn push_sample(w: &mut Vec<u8>, v: i16)
    ensures
        final(w)@ == old(w)@.push(low_byte(v)).push(high_byte(v)),
{
    let (lo, hi): (u8, u8) = split_sample(v);
    w.push(lo);
    w.push(hi);
}

/// `n / d` rounded to the nearest integer, halves away from zero.
fn rounded(n: i64, d: i64) -> (r: i64)
    requires
        0 < d <= 0xffff_ffff,
        -0x4_0000_0000_0000 <= n <= 0x4_0000_0000_0000,
    ensures
        r == round_div(n as int, d as int),
{
    if n >= 0 {
        let q: i64 = (2 * n + d) / (2 * d);
        q
    } else {
        let p: i64 = -n;
        let m: i64 = 2 * p + d;
        let q: i64 = m / (2 * d);
        assert(q >= 0);
        assert(q <= m) by (nonlinear_arith)
            requires
                q == m as int / (2 * d),
                m >= 0,
                d > 0,
        ;
        -q
    }
}

/// Linearly resamples 16-bit mono PCM from `from` hertz to `to` hertz.
pub fn resample(pcm: &[u8], from: u32, to: u32) -> (r: Vec<u8>)
    requires
        from == to || pcm@.len() < 2 || from > 0,
        from != to && pcm@.len() >= 2 ==> 2 * resampled_len(
            samples(pcm@).len() as int,
            from as int,
            to as int,
        ) <= isize::MAX,
    ensures
        from == to ==> r@ == pcm@,
        from != to && pcm@.len() < 2 ==> r@ == Seq::<u8>::empty(),
        from != to && pcm@.len() >= 2 ==> r@ == sample_bytes(
            resampled(samples(pcm@), from as int, to as int),
        ),
{
    if from == to {
        assert(pcm@.subrange(0, pcm@.len() as int) == pcm@);
        return bytes_between(pcm, 0, pcm.len());
    }
    let src: Vec<i16> = read_samples(pcm);
    if src.len() == 0 {
        return Vec::new();
    }
    let ghost want = resampled(src@, from as int, to as int);
    assert(src@.len() * to / from as int >= 0) by (nonlinear_arith)
        requires
            src@.len() >= 0,
            to >= 0,
            from > 0,
    ;
    assert(src@.len() * to <= 0xffff_ffff_ffff_ffff * 0xffff_ffff) by (nonlinear_arith)
        requires
            0 <= src@.len() <= 0xffff_ffff_ffff_ffff,
            0 <= to <= 0xffff_ffff,
    ;
    let out_wide: u128 = src.len() as u128 * to as u128 / from as u128;
    let out_len: usize = out_wide as usize;
    assert(out_len == want.len());
    let mut out: Vec<u8> = Vec::new();
    let mut i: usize = 0;
    assert(out@ =~= sample_bytes(want.take(0)));
    while i < out_len
        invariant
            0 <= i <= out_len,
            out_len == want.len(),
            out_len == resampled_len(src@.len() as int, from as int, to as int),
            want == resampled(src@, from as int, to as int),
            from > 0,
            out@ == sample_bytes(want.take(i as int)),
        decreases out_len - i,
    {
        proof {
            position_in_range(i as int, src@.len() as int, from as int, to as int);
            resampled_between(src@, from as int, to as int, i as int);
        }
        assert(i * from <= 0xffff_ffff_ffff_ffff * 0xffff_ffff) by (nonlinear_arith)
            requires
                0 <= i <= 0xffff_ffff_ffff_ffff,
                0 <= from <= 0xffff_ffff,
        ;
        let pos: u128 = i as u128 * from as u128;
        let idx: usize = (pos / to as u128) as usize;
        let rem: i64 = (pos % to as u128) as i64;
        let a: i64 = src[idx] as i64;
        let b: i64 = if src.len() - idx > 1 {
            src[idx + 1] as i64
        } else {
            a
        };
        let den: i64 = to as i64;
        assert(-0x1_0000_0000_0000 <= a * den <= 0x1_0000_0000_0000) by (nonlinear_arith)
            requires
                -32768 <= a <= 32767,
                0 < den <= 0xffff_ffff,
        ;
        assert(-0x1_0000_0000_0000 <= (b - a) * rem <= 0x1_0000_0000_0000) by (nonlinear_arith)
            requires
                -65535 <= b - a <= 65535,
                0 <= rem <= 0xffff_ffff,
        ;
        let v: i64 = rounded(a * den + (b - a) * rem, den);
        assert(v == sample_between(src@, i * from, to as int));
        assert(-32768 <= v <= 32767) by {
            rounded_mean(a as int, b as int, rem as int, den as int);
        }
        let ghost before = out@;
        push_sample(&mut out, v as i16);
        i += 1;
        assert(out@ =~= sample_bytes(want.take(i as int)));
    }
    assert(want.take(i as int) =~= want);
    out
}

// ---------------------------------------------------------------- laws

/// A sample is little-endian and signed: the low byte counts one, the high byte 256, and values
/// from 32,768 on are negative.
pub proof fn samples_are_little_endian(lo: u8, hi: u8)
    ensures
        hi < 128 ==> sample(lo, hi) == lo + 256 * hi,
        hi >= 128 ==> sample(lo, hi) == lo + 256 * hi - 65536,
{
}

/// Loud samples are counted one by one; a sample is loud where it is more than 350 away from zero.
pub proof fn loud_samples_are_counted(a: Seq<i16>, b: Seq<i16>, v: i16)
    ensures
        loud_count(a + b) == loud_count(a) + loud_count(b),
        v > 350 || v < -350 ==> loud_count(seq![v]) == 1,
        -350 <= v <= 350 ==> loud_count(seq![v]) == 0,
        loud_count(Seq::empty()) == 0,
    decreases b.len(),
{
    assert(seq![v].drop_last() =~= Seq::empty());
    assert(loud_count(seq![v].drop_last()) == 0);
    if b.len() == 0 {
        assert(a + b =~= a);
    } else {
        loud_samples_are_counted(a, b.drop_last(), v);
        assert((a + b).drop_last() =~= a + b.drop_last());
    }
}

/// The header of a WAV file says what stands in it: one channel of 16-bit samples, uncompressed, at
/// the given rate, with the size of the sound and of the file.
pub proof fn wav_header_tells_the_format(n: int, rate: int)
    requires
        0 <= n,
        36 + n < 0x1_0000_0000,
        0 <= rate,
        rate * 2 < 0x1_0000_0000,
    ensures
        ({
            let h = wav_header(n, rate);
            &&& h.len() == 44
            &&& h[0] == 'R' as u8 && h[1] == 'I' as u8 && h[2] == 'F' as u8 && h[3] == 'F' as u8
            &&& h[8] == 'W' as u8 && h[9] == 'A' as u8 && h[10] == 'V' as u8 && h[11] == 'E' as u8
            &&& h[12] == 'f' as u8 && h[13] == 'm' as u8 && h[14] == 't' as u8 && h[15] == ' ' as u8
            &&& h[36] == 'd' as u8 && h[37] == 'a' as u8 && h[38] == 't' as u8 && h[39] == 'a' as u8
            &&& field32(h, 4) == 36 + n
            &&& field32(h, 16) == 16
            &&& h[20] == 1 && h[21] == 0 && h[22] == 1 && h[23] == 0
            &&& field32(h, 24) == rate
            &&& field32(h, 28) == 2 * rate
            &&& h[32] == 2 && h[33] == 0 && h[34] == 16 && h[35] == 0
            &&& field32(h, 40) == n
        }),
{
    header_fields(n, rate);
    header_tail(n, rate);
    field_reads_back(36 + n);
    field_reads_back(rate);
    field_reads_back(rate * 2);
    field_reads_back(n);
}

proof fn header_tail(n: int, rate: int)
    ensures
        ({
            let h = wav_header(n, rate);
            let s = le32(n);
            &&& h[36] == 0x64 && h[37] == 0x61 && h[38] == 0x74 && h[39] == 0x61
            &&& h[40] == s[0] && h[41] == s[1] && h[42] == s[2] && h[43] == s[3]
        }),
{
    header_bytes(n, rate);
}

/// Resampling keeps the duration: as many samples come out as fit in it at the new rate.
pub proof fn resampling_keeps_the_duration(s: Seq<i16>, from: int, to: int)
    requires
        0 < from,
        0 <= to,
    ensures
        ({
            let m = resampled(s, from, to).len();
            m * from <= s.len() * to < (m + 1) * from
        }),
{
    let n = s.len() as int;
    let m = n * to / from;
    assert(m * from <= n * to < (m + 1) * from && m >= 0) by (nonlinear_arith)
        requires
            m == n * to / from,
            from > 0,
            n >= 0,
            to >= 0,
    ;
    assert(resampled(s, from, to).len() == m);
}

/// Every output sample is the value of the straight line between its two neighbours in the input,
/// to the nearest whole number; where it falls on an input sample, it is that sample.
pub proof fn resampling_follows_the_line(s: Seq<i16>, from: int, to: int, i: int)
    requires
        0 < from,
        0 <= to,
        0 <= i < resampled(s, from, to).len(),
    ensures
        ({
            let k = i * from / to;
            let r = (i * from) % to;
            let a = s[k] as int;
            let b = if k + 1 < s.len() {
                s[k + 1] as int
            } else {
                a
            };
            let v = resampled(s, from, to)[i] as int;
            &&& 0 <= k < s.len() && 0 <= r < to
            &&& -to <= 2 * (v * to - (a * to + (b - a) * r)) <= to
            &&& r == 0 ==> v == a
        }),
{
    assert(s.len() * to / from >= 0) by (nonlinear_arith)
        requires
            s.len() >= 0,
            to >= 0,
            from > 0,
    ;
    position_in_range(i, s.len() as int, from, to);
    resampled_between(s, from, to, i);
    let k = i * from / to;
    let r = (i * from) % to;
    let a = s[k] as int;
    let b = if k + 1 < s.len() {
        s[k + 1] as int
    } else {
        a
    };
    let n = a * to + (b - a) * r;
    let v = round_div(n, to);
    rounded_mean(a, b, r, to);
    assert(resampled(s, from, to)[i] as int == v);
    rounding_is_near(n, to);
    if r == 0 {
        assert(n == a * to) by (nonlinear_arith)
            requires
                n == a * to + (b - a) * r,
                r == 0,
        ;
        round_div_between(n, to, a, a);
    }
}

proof fn rounding_is_near(n: int, d: int)
    requires
        0 < d,
    ensures
        -d <= 2 * (round_div(n, d) * d - n) <= d,
{
    if n >= 0 {
        let q = (2 * n + d) / (2 * d);
        assert(-d <= 2 * (q * d - n) <= d) by (nonlinear_arith)
            requires
                q == (2 * n + d) / (2 * d),
                d > 0,
        ;
    } else {
        let q = (-2 * n + d) / (2 * d);
        assert(-d <= 2 * (-q * d - n) <= d) by (nonlinear_arith)
            requires
                q == (-2 * n + d) / (2 * d),
                d > 0,
        ;
    }
}

/// An utterance needs 1500 loud samples to count as speech; the device works at 16,000 hertz, and
/// synthesized speech at 24,000.
pub proof fn limits_are_fixed()
    ensures
        MIN_LOUD_SAMPLES == 1500,
        SPEECH_PEAK == 350,
        DEVICE_RATE == 16_000,
        TTS_RATE == 24_000,
{
}

/// A file without a `data` chunk, or with one whose size is cut off, holds no sound; where the size
/// is greater than what follows, all that follows is the sound.
pub proof fn damaged_files_are_read_as_far_as_possible(h: Seq<u8>, size: Seq<u8>, rest: Seq<u8>)
    requires
        forall|j: int| 0 <= j < h.len() ==> (#[trigger] h[j]) != 0x64,
    ensures
        wav_data(h) == Seq::<u8>::empty(),
        size.len() < 4 ==> wav_data(h + data_name() + size) == Seq::<u8>::empty(),
        size.len() == 4 && field32(size, 0) >= rest.len() ==> wav_data(
            h + data_name() + size + rest,
        ) == rest,
        size.len() == 4 && field32(size, 0) < rest.len() ==> wav_data(
            h + data_name() + size + rest,
        ) == rest.take(field32(size, 0)),
{
    let d = data_name();
    find_is_first(h, d);
    if occurs(h, d) {
        let j = choose|j: int| occurs_at(h, d, j);
        assert(h.subrange(j, j + 4)[0] == h[j]);
    }
    if size.len() < 4 {
        first_data_is_found(h, size);
    }
    if size.len() == 4 {
        let w = h + d + size + rest;
        let p = h.len() as int;
        first_data_is_found(h, size + rest);
        assert(w =~= h + d + (size + rest));
        assert(w[p + 4] == size[0] && w[p + 5] == size[1] && w[p + 6] == size[2] && w[p + 7]
            == size[3]);
        assert(field32(w, p + 4) == field32(size, 0));
        assert(w.skip(p + 8) =~= rest);
        if field32(size, 0) < rest.len() {
            assert(w.subrange(p + 8, p + 8 + field32(size, 0)) =~= rest.take(field32(size, 0)));
        }
    }
}

proof fn first_data_is_found(h: Seq<u8>, more: Seq<u8>)
    requires
        forall|j: int| 0 <= j < h.len() ==> (#[trigger] h[j]) != 0x64,
    ensures
        find(h + data_name() + more, data_name()) == Some(h.len() as int),
{
    let w = h + data_name() + more;
    let p = h.len() as int;
    assert(w.subrange(p, p + 4) =~= data_name());
    assert forall|j: int| 0 <= j < p implies #[trigger] w[j] != 0x64 by {
        assert(w[j] == h[j]);
    }
    first_such_byte(w, data_name(), p);
}

proof fn first_such_byte(w: Seq<u8>, d: Seq<u8>, p: int)
    requires
        d.len() > 0 && d[0] == 0x64,
        occurs_at(w, d, p),
        forall|j: int| 0 <= j < p ==> #[trigger] w[j] != 0x64,
    ensures
        find(w, d) == Some(p),
{
    assert forall|j: int| 0 <= j < p implies !occurs_at(w, d, j) by {
        if occurs_at(w, d, j) {
            assert(w.subrange(j, j + d.len())[0] == w[j]);
        }
    }
    find_is_first(w, d);
}

/// A last byte without a partner is left out, and makes no other difference.
pub proof fn odd_byte_is_left_out(pcm: Seq<u8>, x: u8)
    requires
        pcm.len() % 2 == 0,
    ensures
        samples(pcm.push(x)) == samples(pcm),
        samples(pcm).len() == pcm.len() / 2,
{
    assert(samples(pcm.push(x)) =~= samples(pcm));
}

} // verus!
