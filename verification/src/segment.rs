//! Splitting a continuous microphone stream into spoken segments by energy.

use vstd::prelude::*;
use crate::audio::{loudness, magnitude, read_samples, samples, SPEECH_PEAK};

verus! {

/// This many bytes of trailing silence end a segment (about 0.8 s).
pub const SILENCE_END_BYTES: usize = 25_600;

/// A segment of this many bytes (30 s) ends, whether or not somebody still speaks.
pub const MAX_SEG_BYTES: usize = 960_000;

/// A shorter segment (about 0.25 s) is a click and is dropped.
pub const MIN_SEG_BYTES: usize = 8_000;

/// What the segmenter remembers between two chunks.
#[verifier::ext_equal]
pub struct SegmentState {
    /// The bytes of the segment that is being spoken.
    pub acc: Seq<u8>,
    /// The chunk before the next one.
    pub prev: Seq<u8>,
    /// A segment is being spoken.
    pub spoke: bool,
    /// The bytes of silence at the end of the segment.
    pub silence: nat,
}

/// A chunk with at least one sample at speech level.
pub open spec fn speaks(chunk: Seq<u8>) -> bool {
    exists|i: int|
        0 <= i < samples(chunk).len() && loudness(#[trigger] samples(chunk)[i]) > SPEECH_PEAK
}

impl SegmentState {
    /// The state before the first chunk.
    pub open spec fn initial() -> SegmentState {
        SegmentState { acc: Seq::empty(), prev: Seq::empty(), spoke: false, silence: 0 }
    }

    /// Outside a segment nothing is collected; inside one neither its silence nor its length
    /// is enough to end it.
    pub open spec fn wf(self) -> bool {
        &&& !self.spoke ==> self.acc.len() == 0 && self.silence == 0
        &&& self.silence < SILENCE_END_BYTES
        &&& self.acc.len() < MAX_SEG_BYTES
    }

    /// The segment with `chunk` at its end. A new one begins with the chunk before, so that
    /// the beginning of the word is not clipped.
    pub open spec fn gathered(self, chunk: Seq<u8>) -> Seq<u8> {
        if self.spoke {
            self.acc + chunk
        } else {
            self.acc + self.prev + chunk
        }
    }

    /// The silence at the end of the segment with `chunk` at its end.
    pub open spec fn quiet(self, chunk: Seq<u8>) -> nat {
        if speaks(chunk) {
            0
        } else {
            self.silence + chunk.len()
        }
    }

    /// `chunk` belongs to a segment: it speaks, or a segment is being spoken.
    pub open spec fn takes(self, chunk: Seq<u8>) -> bool {
        self.spoke || speaks(chunk)
    }

    /// The segment ends with `chunk`: by silence, or because it is long enough.
    pub open spec fn ends(self, chunk: Seq<u8>) -> bool {
        self.takes(chunk) && (self.quiet(chunk) >= SILENCE_END_BYTES || self.gathered(chunk).len()
            >= MAX_SEG_BYTES)
    }

    /// The state after `chunk`, and the segment that it completes.
    pub open spec fn step(self, chunk: Seq<u8>) -> (SegmentState, Option<Seq<u8>>) {
        if !self.takes(chunk) {
            (SegmentState { prev: chunk, ..self }, None)
        } else if self.ends(chunk) {
            (
                SegmentState { acc: Seq::empty(), prev: chunk, spoke: false, silence: 0 },
                if self.gathered(chunk).len() >= MIN_SEG_BYTES {
                    Some(self.gathered(chunk))
                } else {
                    None
                },
            )
        } else {
            (
                SegmentState {
                    acc: self.gathered(chunk),
                    prev: chunk,
                    spoke: true,
                    silence: self.quiet(chunk),
                },
                None,
            )
        }
    }

    /// The segment that is left when the stream ends.
    pub open spec fn rest(self) -> Option<Seq<u8>> {
        if self.spoke && self.acc.len() >= MIN_SEG_BYTES {
            Some(self.acc)
        } else {
            None
        }
    }
}

/// The bytes of a list of chunks, in order.
pub open spec fn stream_of(chunks: Seq<Seq<u8>>) -> Seq<u8>
    decreases chunks.len(),
{
    if chunks.len() == 0 {
        Seq::empty()
    } else {
        stream_of(chunks.drop_last()) + chunks.last()
    }
}

/// The state after a list of chunks.
pub open spec fn state_after(chunks: Seq<Seq<u8>>) -> SegmentState
    decreases chunks.len(),
{
    if chunks.len() == 0 {
        SegmentState::initial()
    } else {
        state_after(chunks.drop_last()).step(chunks.last()).0
    }
}

/// The segments that a list of chunks has completed so far.
pub open spec fn segments_of(chunks: Seq<Seq<u8>>) -> Seq<Seq<u8>>
    decreases chunks.len(),
{
    if chunks.len() == 0 {
        Seq::empty()
    } else {
        let before = segments_of(chunks.drop_last());
        match state_after(chunks.drop_last()).step(chunks.last()).1 {
            Some(seg) => before.push(seg),
            None => before,
        }
    }
}

/// Every reachable state is well formed, and the chunk it remembers is the last one.
pub proof fn state_after_is_wf(chunks: Seq<Seq<u8>>)
    ensures
        state_after(chunks).wf(),
        state_after(chunks).prev == (if chunks.len() == 0 {
            Seq::empty()
        } else {
            chunks.last()
        }),
    decreases chunks.len(),
{
    if chunks.len() > 0 {
        state_after_is_wf(chunks.drop_last());
    }
}

/// The bytes of the chunks `from..to`, without a gap.
pub open spec fn part_of(chunks: Seq<Seq<u8>>, from: int, to: int) -> Seq<u8> {
    stream_of(chunks.subrange(from, to))
}

/// The chunk with which the segment began that is being spoken: the one before the chunk that
/// spoke first, so that the beginning of the word is not clipped.
pub open spec fn began(chunks: Seq<Seq<u8>>) -> int
    decreases chunks.len(),
{
    if chunks.len() <= 1 {
        0
    } else if state_after(chunks.drop_last()).spoke {
        began(chunks.drop_last())
    } else {
        chunks.len() - 2
    }
}

/// The ended segments, each with its first chunk and the one after its last chunk. Clicks,
/// which are not handed out, are among them.
pub open spec fn ended(chunks: Seq<Seq<u8>>) -> Seq<(int, int)>
    decreases chunks.len(),
{
    if chunks.len() == 0 {
        Seq::empty()
    } else {
        let before = chunks.drop_last();
        if state_after(before).ends(chunks.last()) {
            ended(before).push((began(chunks), chunks.len() as int))
        } else {
            ended(before)
        }
    }
}

/// The bytes of those of the ranges that are long enough, in order.
pub open spec fn long_parts(chunks: Seq<Seq<u8>>, r: Seq<(int, int)>) -> Seq<Seq<u8>>
    decreases r.len(),
{
    if r.len() == 0 {
        Seq::empty()
    } else {
        let before = long_parts(chunks, r.drop_last());
        let part = part_of(chunks, r.last().0, r.last().1);
        if part.len() >= MIN_SEG_BYTES {
            before.push(part)
        } else {
            before
        }
    }
}

/// Chunk `i` stands in one of the ranges.
pub open spec fn covered(r: Seq<(int, int)>, i: int) -> bool {
    exists|k: int| 0 <= k < r.len() && (#[trigger] r[k]).0 <= i < r[k].1
}

proof fn part_extends(chunks: Seq<Seq<u8>>, from: int)
    requires
        chunks.len() > 0,
        0 <= from < chunks.len(),
    ensures
        part_of(chunks, from, chunks.len() as int) == part_of(
            chunks.drop_last(),
            from,
            chunks.len() - 1,
        ) + chunks.last(),
{
    let whole = chunks.subrange(from, chunks.len() as int);
    assert(whole.drop_last() =~= chunks.drop_last().subrange(from, chunks.len() - 1));
}

/// A segment that the last chunk belongs to is an unbroken part of the stream: from the chunk
/// before the first one that spoke up to the last one, nothing is lost inside it.
pub proof fn gathered_is_unbroken(chunks: Seq<Seq<u8>>)
    requires
        chunks.len() > 0,
        state_after(chunks.drop_last()).takes(chunks.last()),
    ensures
        0 <= began(chunks) < chunks.len(),
        state_after(chunks.drop_last()).gathered(chunks.last()) == part_of(
            chunks,
            began(chunks),
            chunks.len() as int,
        ),
    decreases chunks.len(), 0int,
{
    let before = chunks.drop_last();
    let st = state_after(before);
    let n = chunks.len() as int;
    state_after_is_wf(before);
    if st.spoke {
        open_segment_is_unbroken(before);
        part_extends(chunks, began(before));
    } else if n == 1 {
        part_extends(chunks, 0);
        assert(before.subrange(0, 0) =~= Seq::empty());
        assert(st.gathered(chunks.last()) =~= part_of(chunks, 0, 1));
    } else {
        part_extends(chunks, n - 2);
        part_extends(before, n - 2);
        let none = before.drop_last().subrange(n - 2, n - 2);
        assert(none =~= Seq::empty());
        assert(part_of(before, n - 2, n - 1) =~= before.last());
        assert(st.gathered(chunks.last()) =~= st.prev + chunks.last());
    }
}

/// The segment that is being spoken is an unbroken part of the stream that reaches up to the
/// last chunk.
pub proof fn open_segment_is_unbroken(chunks: Seq<Seq<u8>>)
    requires
        state_after(chunks).spoke,
    ensures
        0 <= began(chunks) < chunks.len(),
        state_after(chunks).acc == part_of(chunks, began(chunks), chunks.len() as int),
    decreases chunks.len(), 1int,
{
    gathered_is_unbroken(chunks);
}

proof fn ended_in_range(chunks: Seq<Seq<u8>>, k: int)
    requires
        0 <= k < ended(chunks).len(),
    ensures
        0 <= ended(chunks)[k].0 < ended(chunks)[k].1 <= chunks.len(),
    decreases chunks.len(),
{
    let before = chunks.drop_last();
    if k < ended(before).len() {
        ended_in_range(before, k);
    } else {
        gathered_is_unbroken(chunks);
    }
}

proof fn long_parts_extend(chunks: Seq<Seq<u8>>, more: Seq<u8>, r: Seq<(int, int)>)
    requires
        forall|k: int|
            0 <= k < r.len() ==> 0 <= (#[trigger] r[k]).0 <= r[k].1 <= chunks.len(),
    ensures
        long_parts(chunks.push(more), r) == long_parts(chunks, r),
    decreases r.len(),
{
    if r.len() > 0 {
        let d = r.drop_last();
        assert forall|k: int| 0 <= k < d.len() implies 0 <= (#[trigger] d[k]).0 <= d[k].1
            <= chunks.len() by {
            assert(r[k] == d[k]);
        }
        long_parts_extend(chunks, more, d);
        assert(r[r.len() - 1] == r.last());
        assert(chunks.push(more).subrange(r.last().0, r.last().1) =~= chunks.subrange(
            r.last().0,
            r.last().1,
        ));
    }
}

/// The segments that are handed out are the ended ones that are no clicks, each of them an
/// unbroken part of the stream, in the order in which they were spoken.
pub proof fn segments_are_the_ended_ones(chunks: Seq<Seq<u8>>)
    ensures
        segments_of(chunks) == long_parts(chunks, ended(chunks)),
    decreases chunks.len(),
{
    if chunks.len() > 0 {
        let before = chunks.drop_last();
        let n = chunks.len() as int;
        segments_are_the_ended_ones(before);
        assert forall|k: int| 0 <= k < ended(before).len() implies 0 <= (#[trigger] ended(
            before,
        )[k]).0 <= ended(before)[k].1 <= before.len() by {
            ended_in_range(before, k);
        }
        long_parts_extend(before, chunks.last(), ended(before));
        assert(before.push(chunks.last()) =~= chunks);
        if state_after(before).ends(chunks.last()) {
            gathered_is_unbroken(chunks);
            assert(ended(chunks).drop_last() =~= ended(before));
            assert(ended(chunks).last() == (began(chunks), n));
        }
    }
}

/// No speech is lost: a chunk that speaks stands in the segment that is being spoken, or in one
/// that has ended.
pub proof fn no_speech_is_lost(chunks: Seq<Seq<u8>>, i: int)
    requires
        0 <= i < chunks.len(),
        speaks(chunks[i]),
    ensures
        (state_after(chunks).spoke && began(chunks) <= i) || covered(ended(chunks), i),
    decreases chunks.len(),
{
    let before = chunks.drop_last();
    let n = chunks.len() as int;
    if i == n - 1 {
        gathered_is_unbroken(chunks);
        if state_after(before).ends(chunks.last()) {
            assert(ended(chunks)[ended(chunks).len() - 1] == (began(chunks), n));
        }
    } else {
        assert(before[i] == chunks[i]);
        no_speech_is_lost(before, i);
        if covered(ended(before), i) {
            let k = choose|k: int|
                0 <= k < ended(before).len() && (#[trigger] ended(before)[k]).0 <= i < ended(
                    before,
                )[k].1;
            assert(ended(chunks)[k] == ended(before)[k]);
        } else if state_after(before).ends(chunks.last()) {
            assert(ended(chunks)[ended(chunks).len() - 1] == (began(chunks), n));
        }
    }
}

/// No segment is longer than the cap and two chunks, however long somebody speaks without a
/// pause: neither one that was handed out nor the one that is left at the end.
pub proof fn segments_are_capped(chunks: Seq<Seq<u8>>, most: nat, i: int)
    requires
        forall|k: int| 0 <= k < chunks.len() ==> (#[trigger] chunks[k]).len() <= most,
    ensures
        0 <= i < segments_of(chunks).len() ==> segments_of(chunks)[i].len() < MAX_SEG_BYTES + 2
            * most,
        state_after(chunks).rest() matches Some(s) ==> s.len() < MAX_SEG_BYTES,
    decreases chunks.len(),
{
    state_after_is_wf(chunks);
    if chunks.len() > 0 {
        let before = chunks.drop_last();
        assert forall|k: int| 0 <= k < before.len() implies (#[trigger] before[k]).len()
            <= most by {
            assert(chunks[k].len() <= most);
        }
        segments_are_capped(before, most, i);
        state_after_is_wf(before);
        assert(chunks[chunks.len() - 1].len() <= most);
        if before.len() > 0 {
            assert(before[before.len() - 1].len() <= most);
        }
    }
}

/// No segment that is handed out is shorter than the least length.
pub proof fn segments_are_long(chunks: Seq<Seq<u8>>, i: int)
    requires
        0 <= i < segments_of(chunks).len(),
    ensures
        segments_of(chunks)[i].len() >= MIN_SEG_BYTES,
    decreases chunks.len(),
{
    if i < segments_of(chunks.drop_last()).len() {
        segments_are_long(chunks.drop_last(), i);
    }
}

/// Splits a stream of PCM chunks into spoken segments.
pub struct Segmenter {
    acc: Vec<u8>,
    prev: Vec<u8>,
    spoke: bool,
    silence: usize,
}

impl View for Segmenter {
    type V = SegmentState;

    closed spec fn view(&self) -> SegmentState {
        SegmentState {
            acc: self.acc@,
            prev: self.prev@,
            spoke: self.spoke,
            silence: self.silence as nat,
        }
    }
}

/// The bytes of an optional segment.
pub open spec fn segment_view(s: Option<Vec<u8>>) -> Option<Seq<u8>> {
    match s {
        Some(v) => Some(v@),
        None => None,
    }
}

/// True when some sample of `chunk` is at speech level.
pub fn chunk_speaks(chunk: &[u8]) -> (b: bool)
    ensures
        b == speaks(chunk@),
{
    let s: Vec<i16> = read_samples(chunk);
    let mut i: usize = 0;
    while i < s.len()
        invariant
            0 <= i <= s@.len(),
            s@ == samples(chunk@),
            forall|k: int| 0 <= k < i ==> loudness(#[trigger] samples(chunk@)[k]) <= SPEECH_PEAK,
        decreases s@.len() - i,
    {
        if magnitude(s[i]) > SPEECH_PEAK {
            assert(loudness(samples(chunk@)[i as int]) > SPEECH_PEAK);
            return true;
        }
        i += 1;
    }
    false
}

impl Segmenter {
    /// A segmenter that has heard nothing yet.
    pub fn new() -> (s: Segmenter)
        ensures
            s@ == SegmentState::initial(),
            s@.wf(),
    {
        let s: Segmenter = Segmenter {
            acc: Vec::new(),
            prev: Vec::new(),
            spoke: false,
            silence: 0,
        };
        assert(s@ =~= SegmentState::initial());
        s
    }

    /// Takes the next chunk of the stream; hands out the segment that it completes.
    pub fn feed(&mut self, chunk: &[u8]) -> (r: Option<Vec<u8>>)
        requires
            old(self)@.wf(),
        ensures
            final(self)@ == old(self)@.step(chunk@).0,
            segment_view(r) == old(self)@.step(chunk@).1,
            final(self)@.wf(),
    {
        let mut out: Option<Vec<u8>> = None;
        let loud: bool = chunk_speaks(chunk);
        if loud || self.spoke {
            if !self.spoke {
                self.acc.extend_from_slice(self.prev.as_slice());
            }
            self.acc.extend_from_slice(chunk);
            assert(self.acc@ =~= old(self)@.gathered(chunk@));
            let left: usize = SILENCE_END_BYTES - self.silence;
            if (!loud && chunk.len() >= left) || self.acc.len() >= MAX_SEG_BYTES {
                let mut seg: Vec<u8> = Vec::new();
                std::mem::swap(&mut seg, &mut self.acc);
                if seg.len() >= MIN_SEG_BYTES {
                    out = Some(seg);
                }
                self.spoke = false;
                self.silence = 0;
            } else {
                self.spoke = true;
                if loud {
                    self.silence = 0;
                } else {
                    self.silence = self.silence + chunk.len();
                }
            }
        }
        self.prev = Vec::new();
        self.prev.extend_from_slice(chunk);
        assert(self.prev@ =~= chunk@);
        assert(self@ =~= old(self)@.step(chunk@).0);
        out
    }

    /// Ends the stream; hands out the segment that was still being spoken.
    pub fn finish(self) -> (r: Option<Vec<u8>>)
        ensures
            segment_view(r) == self@.rest(),
    {
        if self.spoke && self.acc.len() >= MIN_SEG_BYTES {
            Some(self.acc)
        } else {
            None
        }
    }
}

// ---------------------------------------------------------------- laws of pauses

/// How many bytes of silence end the stream: the chunks after the last one that speaks.
pub open spec fn tail_silence(chunks: Seq<Seq<u8>>) -> nat
    decreases chunks.len(),
{
    if chunks.len() == 0 || speaks(chunks.last()) {
        0
    } else {
        tail_silence(chunks.drop_last()) + chunks.last().len()
    }
}

/// A chunk speaks exactly where one of its samples is louder than 350, in either direction.
pub proof fn loud_samples_speak(chunk: Seq<u8>, i: int)
    ensures
        0 <= i < samples(chunk).len() && (samples(chunk)[i] > 350 || samples(chunk)[i] < -350)
            ==> speaks(chunk),
        (forall|k: int|
            0 <= k < samples(chunk).len() ==> -350 <= #[trigger] samples(chunk)[k] <= 350)
            ==> !speaks(chunk),
{
    if 0 <= i < samples(chunk).len() && (samples(chunk)[i] > 350 || samples(chunk)[i] < -350) {
        assert(loudness(samples(chunk)[i]) > SPEECH_PEAK);
    }
    if speaks(chunk) {
        let k = choose|k: int|
            0 <= k < samples(chunk).len() && loudness(#[trigger] samples(chunk)[k]) > SPEECH_PEAK;
        assert(samples(chunk)[k] > 350 || samples(chunk)[k] < -350);
    }
}

proof fn silence_is_the_tail(chunks: Seq<Seq<u8>>)
    ensures
        state_after(chunks).spoke ==> state_after(chunks).silence == tail_silence(chunks),
    decreases chunks.len(),
{
    if chunks.len() > 0 {
        silence_is_the_tail(chunks.drop_last());
    }
}

/// A pause of 25,600 bytes ends the segment that was being spoken, at the chunk that completes the
/// pause; a segment of 8,000 bytes or more is handed out then, unbroken, and a shorter one is
/// dropped.
pub proof fn long_pause_ends_the_segment(chunks: Seq<Seq<u8>>)
    requires
        chunks.len() > 0,
        state_after(chunks.drop_last()).spoke,
        tail_silence(chunks) >= 25_600,
    ensures
        ({
            let before = segments_of(chunks.drop_last());
            let part = part_of(chunks, began(chunks), chunks.len() as int);
            &&& !state_after(chunks).spoke
            &&& part.len() >= 8_000 ==> segments_of(chunks) == before.push(part)
            &&& part.len() < 8_000 ==> segments_of(chunks) == before
        }),
{
    silence_is_the_tail(chunks.drop_last());
    gathered_is_unbroken(chunks);
    state_after_is_wf(chunks.drop_last());
}

/// A shorter pause does not cut a segment, and neither does anything else before it is 960,000
/// bytes long: it goes on, and nothing is handed out.
pub proof fn short_pause_does_not_cut(chunks: Seq<Seq<u8>>)
    requires
        chunks.len() > 0,
        state_after(chunks.drop_last()).spoke || speaks(chunks.last()),
        tail_silence(chunks) < 25_600,
        part_of(chunks, began(chunks), chunks.len() as int).len() < 960_000,
    ensures
        state_after(chunks).spoke,
        segments_of(chunks) == segments_of(chunks.drop_last()),
{
    silence_is_the_tail(chunks.drop_last());
    gathered_is_unbroken(chunks);
    state_after_is_wf(chunks.drop_last());
}

/// Somebody who speaks on is cut after 960,000 bytes, and what was said until then is handed out.
pub proof fn long_speech_is_cut(chunks: Seq<Seq<u8>>)
    requires
        chunks.len() > 0,
        state_after(chunks.drop_last()).spoke || speaks(chunks.last()),
        part_of(chunks, began(chunks), chunks.len() as int).len() >= 960_000,
    ensures
        !state_after(chunks).spoke,
        segments_of(chunks) == segments_of(chunks.drop_last()).push(
            part_of(chunks, began(chunks), chunks.len() as int),
        ),
{
    gathered_is_unbroken(chunks);
}

/// Silence outside a segment starts none and hands out nothing; a chunk that speaks starts one,
/// with the chunk before it.
pub proof fn only_speech_starts_a_segment(chunks: Seq<Seq<u8>>)
    requires
        chunks.len() > 0,
        !state_after(chunks.drop_last()).spoke,
    ensures
        !speaks(chunks.last()) ==> !state_after(chunks).spoke && segments_of(chunks)
            == segments_of(chunks.drop_last()),
        speaks(chunks.last()) ==> began(chunks) == (if chunks.len() == 1 {
            0
        } else {
            chunks.len() - 2
        }),
{
}

/// What is still being spoken when the stream ends is handed out, unbroken and up to the last
/// chunk, where it is no click.
pub proof fn end_of_stream_hands_out_the_rest(chunks: Seq<Seq<u8>>)
    ensures
        state_after(chunks).spoke ==> {
            let part = part_of(chunks, began(chunks), chunks.len() as int);
            &&& part.len() >= 8_000 ==> state_after(chunks).rest() == Some(part)
            &&& part.len() < 8_000 ==> state_after(chunks).rest() is None
        },
        !state_after(chunks).spoke ==> state_after(chunks).rest() is None,
{
    if state_after(chunks).spoke {
        open_segment_is_unbroken(chunks);
    }
}

} // verus!
