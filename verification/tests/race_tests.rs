use coop_async::race::{poll_winner, settle, Either, Side, Verdict};

#[test]
fn earlier_left_wins_and_right_is_cancelled_before_it_completes() {
    let verdict = settle(10, 50);
    assert_eq!(
        verdict,
        Verdict { winner: Side::Left, decided_at_ms: 10, cancelled: Side::Right }
    );
    assert!(verdict.decided_at_ms < 50);
}

#[test]
fn earlier_right_wins_and_left_is_cancelled() {
    let verdict = settle(100, 10);
    assert_eq!(
        verdict,
        Verdict { winner: Side::Right, decided_at_ms: 10, cancelled: Side::Left }
    );
}

#[test]
fn tie_goes_to_the_left() {
    let verdict = settle(25, 25);
    assert_eq!(verdict.winner, Side::Left);
    assert_eq!(verdict.cancelled, Side::Right);
    assert_eq!(verdict.decided_at_ms, 25);
}

#[test]
fn settle_handles_the_extremes_of_time() {
    assert_eq!(settle(0, u64::MAX).winner, Side::Left);
    assert_eq!(settle(u64::MAX, 0).winner, Side::Right);
    assert_eq!(settle(u64::MAX, u64::MAX).decided_at_ms, u64::MAX);
}

#[test]
fn polling_prefers_the_left_when_both_are_ready() {
    assert_eq!(poll_winner(true, true), Some(Side::Left));
    assert_eq!(poll_winner(true, false), Some(Side::Left));
    assert_eq!(poll_winner(false, true), Some(Side::Right));
    assert_eq!(poll_winner(false, false), None);
}

#[test]
fn settling_agrees_with_polling_at_the_moment_of_decision() {
    for (left, right) in [(10u64, 50u64), (50, 10), (7, 7)] {
        let verdict = settle(left, right);
        let now = verdict.decided_at_ms;
        assert_eq!(poll_winner(left <= now, right <= now), Some(verdict.winner));
    }
}

#[test]
fn other_side_swaps() {
    assert_eq!(Side::Left.other(), Side::Right);
    assert_eq!(Side::Right.other(), Side::Left);
}

#[test]
fn either_knows_its_side_and_gives_up_its_value() {
    let left: Either<u32, u32> = Either::Left(3);
    let right: Either<u32, u32> = Either::Right(4);
    assert_eq!(left.side(), Side::Left);
    assert_eq!(right.side(), Side::Right);
    assert_eq!(left.into_inner(), 3);
    assert_eq!(right.into_inner(), 4);
}
