use server_voice_s3r::polling::{poll, Poll, PROBE_LOOKS, RESULT_LOOKS, STATION_LOOKS};

#[test]
fn waiting_has_a_limit() {
    assert!(poll(0, 3, None) == Poll::Wait);
    assert!(poll(2, 3, None) == Poll::Wait);
    assert!(poll(3, 3, None) == Poll::GiveUp);
    assert!(poll(3, 3, Some(true)) == Poll::GiveUp);
    assert!(poll(0, 3, Some(false)) == Poll::Done(false));
    assert!(poll(2, 3, Some(true)) == Poll::Done(true));
    assert!(poll(0, 0, Some(true)) == Poll::GiveUp);
}

#[test]
fn a_wait_without_outcome_makes_all_its_looks() {
    for most in [PROBE_LOOKS, STATION_LOOKS, RESULT_LOOKS] {
        let mut waits = 0;
        while poll(waits, most, None) == Poll::Wait {
            waits += 1;
        }
        assert_eq!(waits, most);
    }
    assert_eq!((PROBE_LOOKS, STATION_LOOKS, RESULT_LOOKS), (120, 300, 40));
}
