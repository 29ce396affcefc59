//! Racing two computations: which one wins, and when the other is dropped.

use vstd::prelude::*;

verus! {

/// One of the two computations of a race.
#[derive(Clone, Copy, Debug, PartialEq, Eq, Structural)]
pub enum Side {
    Left,
    Right,
}

impl Side {
    /// The other computation of the race.
    pub open spec fn spec_other(self) -> Side {
        match self {
            Side::Left => Side::Right,
            Side::Right => Side::Left,
        }
    }

    /// The other computation of the race.
    pub fn other(self) -> (side: Side)
        ensures
            side == self.spec_other(),
    {
        match self {
            Side::Left => Side::Right,
            Side::Right => Side::Left,
        }
    }
}

/// The result of a race: the value of the computation that finished first,
/// tagged with the side it came from.
#[derive(Debug)]
pub enum Either<A, B> {
    Left(A),
    Right(B),
}

impl<A, B> Either<A, B> {
    /// The side whose value this is.
    pub open spec fn spec_side(self) -> Side {
        match self {
            Either::Left(_) => Side::Left,
            Either::Right(_) => Side::Right,
        }
    }

    /// The side whose value this is.
    pub fn side(&self) -> (side: Side)
        ensures
            side == self.spec_side(),
    {
        match self {
            Either::Left(_) => Side::Left,
            Either::Right(_) => Side::Right,
        }
    }
}

impl<T> Either<T, T> {
    /// The carried value, whichever side it came from.
    pub open spec fn spec_into_inner(self) -> T {
        match self {
            Either::Left(value) => value,
            Either::Right(value) => value,
        }
    }

    /// Unwraps the value when both sides carry the same type, as the two
    /// page-title lookups of the scraper do.
    pub fn into_inner(self) -> (value: T)
        ensures
            value == self.spec_into_inner(),
    {
        match self {
            Either::Left(value) => value,
            Either::Right(value) => value,
        }
    }
}

/// The winner of one polling round. The left computation is registered first
/// and is therefore polled first: when both are ready in the same round the
/// left one wins. `None` means that the race is still undecided.
pub open spec fn spec_poll_winner(left_ready: bool, right_ready: bool) -> Option<Side> {
    if left_ready {
        Some(Side::Left)
    } else if right_ready {
        Some(Side::Right)
    } else {
        None
    }
}

/// Decides one polling round of a race.
pub fn poll_winner(left_ready: bool, right_ready: bool) -> (winner: Option<Side>)
    ensures
        winner == spec_poll_winner(left_ready, right_ready),
{
    if left_ready {
        Some(Side::Left)
    } else if right_ready {
        Some(Side::Right)
    } else {
        None
    }
}

/// How a race between two computations with known completion times ends.
#[derive(Clone, Copy, Debug, PartialEq, Eq, Structural)]
pub struct Verdict {
    /// The computation whose result is returned.
    pub winner: Side,
    /// The moment the race is decided, in milliseconds.
    pub decided_at_ms: u64,
    /// The computation that is dropped at the moment of decision.
    pub cancelled: Side,
}

/// The verdict of a race in which the left computation completes at
/// `left_done_ms` and the right one at `right_done_ms`: the earlier one wins,
/// the left one on a tie, and the loser is cancelled when the winner completes.
pub open spec fn spec_settle(left_done_ms: u64, right_done_ms: u64) -> Verdict {
    if left_done_ms <= right_done_ms {
        Verdict { winner: Side::Left, decided_at_ms: left_done_ms, cancelled: Side::Right }
    } else {
        Verdict { winner: Side::Right, decided_at_ms: right_done_ms, cancelled: Side::Left }
    }
}

/// Settles a race from the completion times of its two computations.
pub fn settle(left_done_ms: u64, right_done_ms: u64) -> (verdict: Verdict)
    ensures
        verdict == spec_settle(left_done_ms, right_done_ms),
{
    if left_done_ms <= right_done_ms {
        Verdict { winner: Side::Left, decided_at_ms: left_done_ms, cancelled: Side::Right }
    } else {
        Verdict { winner: Side::Right, decided_at_ms: right_done_ms, cancelled: Side::Left }
    }
}

/// The completion time of one side of a race.
pub open spec fn done_ms(side: Side, left_done_ms: u64, right_done_ms: u64) -> u64 {
    match side {
        Side::Left => left_done_ms,
        Side::Right => right_done_ms,
    }
}

/// A race is decided the moment its winner completes, never after the loser
/// would have completed, and the loser is the side that did not win. When the
/// completion times differ the loser is cancelled strictly before it would
/// have completed.
pub proof fn lemma_loser_cancelled_before_completion(left_done_ms: u64, right_done_ms: u64)
    ensures
        ({
            let verdict = spec_settle(left_done_ms, right_done_ms);
            &&& verdict.cancelled == verdict.winner.spec_other()
            &&& verdict.decided_at_ms == done_ms(verdict.winner, left_done_ms, right_done_ms)
            &&& verdict.decided_at_ms <= done_ms(verdict.cancelled, left_done_ms, right_done_ms)
            &&& left_done_ms != right_done_ms ==> verdict.decided_at_ms < done_ms(
                verdict.cancelled,
                left_done_ms,
                right_done_ms,
            )
        }),
{
}

/// Settling agrees with polling: in the round in which the race is decided the
/// winner is ready, and it is the side that polling picks.
pub proof fn lemma_settle_agrees_with_polling(left_done_ms: u64, right_done_ms: u64)
    ensures
        ({
            let verdict = spec_settle(left_done_ms, right_done_ms);
            let now = verdict.decided_at_ms;
            spec_poll_winner(left_done_ms <= now, right_done_ms <= now) == Some(verdict.winner)
        }),
{
}

} // verus!
