//! How long something is waited for.

use vstd::prelude::*;

verus! {

/// A stream is looked at this often, every 50 ms, before it counts as dead.
pub const PROBE_LOOKS: u32 = 120;

/// The sound of a station is looked for this often, every 10 ms.
pub const STATION_LOOKS: u32 = 300;

/// The final text of a finished session is looked for this often, every 50 ms.
pub const RESULT_LOOKS: u32 = 40;

/// What to do after a look.
#[derive(Clone, Copy, PartialEq, Eq, Structural)]
pub enum Poll {
    /// The outcome is there.
    Done(bool),
    /// Wait, and look again.
    Wait,
    /// It was looked often enough.
    GiveUp,
}

/// What to do after `looks` earlier looks, of which at most `most` are made, where this one
/// showed `outcome`.
pub open spec fn polled(looks: nat, most: nat, outcome: Option<bool>) -> Poll {
    if looks >= most {
        Poll::GiveUp
    } else {
        match outcome {
            Some(b) => Poll::Done(b),
            None => Poll::Wait,
        }
    }
}

/// Decides whether to go on waiting. `tries` is the number of earlier looks, `most` the number of
/// looks that are made, and `outcome` what this look showed, none where it showed nothing yet.
pub fn poll(tries: u32, most: u32, outcome: Option<bool>) -> (r: Poll)
    ensures
        r == polled(tries as nat, most as nat, outcome),
{
    if tries >= most {
        return Poll::GiveUp;
    }
    match outcome {
        Some(b) => Poll::Done(b),
        None => Poll::Wait,
    }
}

/// What a whole wait ends with, where look `i` shows `show(i)`: the first outcome among the looks
/// from `looks` on, and nothing where there is none.
pub open spec fn waited(looks: nat, most: nat, show: spec_fn(nat) -> Option<bool>) -> Option<bool>
    decreases most - looks,
{
    match polled(looks, most, show(looks)) {
        Poll::Done(b) => Some(b),
        Poll::Wait => waited(looks + 1, most, show),
        Poll::GiveUp => None,
    }
}

/// A wait ends after at most `most` looks, with the first outcome that one of them shows, or with
/// nothing where none shows one.
pub proof fn wait_ends_with_first_outcome(
    looks: nat,
    most: nat,
    show: spec_fn(nat) -> Option<bool>,
)
    ensures
        match waited(looks, most, show) {
            Some(b) => exists|i: nat|
                looks <= i < most && #[trigger] show(i) == Some(b) && forall|j: nat|
                    looks <= j < i ==> #[trigger] show(j) is None,
            None => forall|j: nat| looks <= j < most ==> #[trigger] show(j) is None,
        },
    decreases most - looks,
{
    if looks < most && show(looks) is None {
        wait_ends_with_first_outcome(looks + 1, most, show);
        match waited(looks + 1, most, show) {
            Some(b) => {
                let i = choose|i: nat|
                    looks + 1 <= i < most && #[trigger] show(i) == Some(b) && forall|j: nat|
                        looks + 1 <= j < i ==> #[trigger] show(j) is None;
                assert(show(i) == Some(b));
            },
            None => {},
        }
    } else if looks < most {
        assert(show(looks) is Some);
    }
}

} // verus!
