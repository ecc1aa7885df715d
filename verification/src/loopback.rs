//! The bounded buffer between the sound of the computer and the device that plays it.

use std::collections::VecDeque;
use vstd::prelude::*;
use crate::audio::{high_byte, low_byte, sample_bytes, split_sample};

verus! {

/// The buffer holds at most this many bytes (half a second), so that the device plays
/// near-live.
pub const LOOPBACK_CAP: usize = 16_000;

/// The device is served in chunks of at most this many bytes.
pub const LOOPBACK_CHUNK: usize = 2048;

/// The last `n` members of `s`.
pub open spec fn newest(s: Seq<u8>, n: int) -> Seq<u8> {
    if s.len() > n {
        s.skip(s.len() - n)
    } else {
        s
    }
}

/// The first `n` members of `s`.
pub open spec fn oldest(s: Seq<u8>, n: int) -> Seq<u8> {
    if s.len() > n {
        s.take(n)
    } else {
        s
    }
}

/// Captured sound that was not yet sent.
pub struct Loopback {
    bytes: VecDeque<u8>,
}

impl View for Loopback {
    type V = Seq<u8>;

    closed spec fn view(&self) -> Seq<u8> {
        self.bytes@
    }
}

impl Loopback {
    /// The buffer holds no more than it may.
    pub open spec fn wf(&self) -> bool {
        self@.len() <= LOOPBACK_CAP
    }

    /// An empty buffer.
    pub fn new() -> (b: Loopback)
        ensures
            b@ == Seq::<u8>::empty(),
            b.wf(),
    {
        let b: Loopback = Loopback { bytes: VecDeque::new() };
        assert(b@ =~= Seq::<u8>::empty());
        b
    }

    /// Adds captured samples; where the buffer is full the oldest bytes give way.
    pub fn capture(&mut self, captured: &[i16])
        requires
            old(self).wf(),
        ensures
            final(self)@ == newest(old(self)@ + sample_bytes(captured@), LOOPBACK_CAP as int),
            final(self).wf(),
    {
        let ghost start = self@;
        let mut i: usize = 0;
        assert(sample_bytes(captured@.take(0)) =~= Seq::empty());
        assert(self@ =~= newest(start + sample_bytes(captured@.take(0)), LOOPBACK_CAP as int));
        while i < captured.len()
            invariant
                0 <= i <= captured@.len(),
                self@ == newest(
                    start + sample_bytes(captured@.take(i as int)),
                    LOOPBACK_CAP as int,
                ),
                self.wf(),
            decreases captured@.len() - i,
        {
            let v: i16 = captured[i];
            let ghost before = start + sample_bytes(captured@.take(i as int));
            let ghost kept = self@;
            let (lo, hi): (u8, u8) = split_sample(v);
            self.bytes.push_back(lo);
            self.bytes.push_back(hi);
            let ghost full = self@;
            assert(full =~= kept + seq![low_byte(v), high_byte(v)]);
            while self.bytes.len() > LOOPBACK_CAP
                invariant
                    self@ == newest(full, self@.len() as int),
                    self@.len() <= full.len(),
                    full.len() >= LOOPBACK_CAP ==> self@.len() >= LOOPBACK_CAP,
                    full.len() <= LOOPBACK_CAP ==> self@ == full,
                decreases self@.len(),
            {
                let ghost now = self@;
                let _ = self.bytes.pop_front();
                assert(self@ =~= now.skip(1));
                assert(self@ =~= newest(full, self@.len() as int));
            }
            i += 1;
            assert(sample_bytes(captured@.take(i as int)) =~= sample_bytes(captured@.take(i - 1))
                + seq![low_byte(v), high_byte(v)]);
            let ghost after = start + sample_bytes(captured@.take(i as int));
            assert(after =~= before + seq![low_byte(v), high_byte(v)]);
            assert(self@ =~= newest(after, LOOPBACK_CAP as int));
        }
        assert(captured@.take(i as int) =~= captured@);
    }

    /// Takes the oldest bytes, at most one chunk.
    pub fn take_chunk(&mut self) -> (r: Vec<u8>)
        requires
            old(self).wf(),
        ensures
            r@ == oldest(old(self)@, LOOPBACK_CHUNK as int),
            r@ + final(self)@ == old(self)@,
            final(self).wf(),
    {
        let mut r: Vec<u8> = Vec::new();
        let ghost all = self@;
        while r.len() < LOOPBACK_CHUNK && self.bytes.len() > 0
            invariant
                r@ + self@ == all,
                r@.len() <= LOOPBACK_CHUNK,
            decreases self@.len(),
        {
            let ghost now = self@;
            let ghost done = r@;
            if let Some(b) = self.bytes.pop_front() {
                r.push(b);
                assert(r@ + self@ =~= done + now);
            }
        }
        assert(r@ =~= oldest(all, LOOPBACK_CHUNK as int));
        r
    }

    /// Drops what was captured, so that a new listener starts near-live.
    pub fn clear(&mut self)
        ensures
            final(self)@ == Seq::<u8>::empty(),
            final(self).wf(),
    {
        self.bytes.clear();
    }
}

/// Nothing that was captured is lost while the buffer is not full.
pub proof fn nothing_is_lost_in_time(before: Seq<u8>, captured: Seq<u8>)
    requires
        before.len() + captured.len() <= LOOPBACK_CAP,
    ensures
        newest(before + captured, LOOPBACK_CAP as int) == before + captured,
{
}

/// The buffer keeps the newest sound: all of it where it is at most 16,000 bytes, and else exactly
/// the last 16,000 bytes.
pub proof fn newest_sound_stays(before: Seq<u8>, captured: Seq<u8>)
    ensures
        ({
            let all = before + captured;
            let kept = newest(all, LOOPBACK_CAP as int);
            &&& all.len() <= 16_000 ==> kept == all
            &&& all.len() > 16_000 ==> kept.len() == 16_000 && forall|i: int|
                0 <= i < 16_000 ==> #[trigger] kept[i] == all[all.len() - 16_000 + i]
        }),
{
}

/// The device is served the oldest sound first: all of it where it is at most 2048 bytes, and else
/// exactly the first 2048 bytes.
pub proof fn oldest_sound_is_served_first(all: Seq<u8>)
    ensures
        all.len() <= 2048 ==> oldest(all, LOOPBACK_CHUNK as int) == all,
        all.len() > 2048 ==> oldest(all, LOOPBACK_CHUNK as int).len() == 2048 && forall|i: int|
            0 <= i < 2048 ==> #[trigger] oldest(all, LOOPBACK_CHUNK as int)[i] == all[i],
{
}

} // verus!
