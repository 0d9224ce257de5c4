//! Facing directions and the rule that forbids an instant reversal.

use vstd::prelude::*;

verus! {

/// The way the snake faces. `Idle` is the state before the first movement
/// request: the snake stays where it is, and any request is accepted.
#[derive(Clone, Copy, Debug, PartialEq, Eq, Structural)]
pub enum Direction {
    Idle,
    Up,
    Down,
    Left,
    Right,
}

impl Direction {
    /// The unit step that one tick takes in this direction.
    pub open spec fn offset(self) -> (int, int) {
        match self {
            Direction::Idle => (0, 0),
            Direction::Up => (0, 1),
            Direction::Down => (0, -1),
            Direction::Left => (-1, 0),
            Direction::Right => (1, 0),
        }
    }

    /// The geometric opposite of a movement direction; `Idle` has none.
    pub open spec fn opposite(self) -> Option<Direction> {
        match self {
            Direction::Idle => None,
            Direction::Up => Some(Direction::Down),
            Direction::Down => Some(Direction::Up),
            Direction::Left => Some(Direction::Right),
            Direction::Right => Some(Direction::Left),
        }
    }
}

/// A turn from `current` to `requested` is legal unless `requested` is the
/// exact opposite of `current`.
pub open spec fn legal_turn(current: Direction, requested: Direction) -> bool {
    current.opposite() != Some(requested)
}

/// What one request does to the direction held: judged against `baseline`,
/// the direction of the snake's last step, a legal request replaces the
/// direction held, and any other leaves it.
pub open spec fn turn_outcome(baseline: Direction, held: Direction, requested: Direction) -> Direction {
    if legal_turn(baseline, requested) {
        requested
    } else {
        held
    }
}

/// The direction held after a run of requests, each judged against the same
/// `baseline`: the last legal request, or `held` if there is none.
pub open spec fn settle(baseline: Direction, held: Direction, requests: Seq<Direction>) -> Direction
    decreases requests.len(),
{
    if requests.len() == 0 {
        held
    } else {
        turn_outcome(baseline, settle(baseline, held, requests.drop_last()), requests.last())
    }
}

/// Decides whether the snake, facing `current`, may turn to `requested`.
pub fn is_legal_turn(current: Direction, requested: Direction) -> (legal: bool)
    ensures
        legal == legal_turn(current, requested),
        !legal <==> current.opposite() == Some(requested),
        requested == current ==> legal,
{
    match (current, requested) {
        (Direction::Up, Direction::Down) => false,
        (Direction::Down, Direction::Up) => false,
        (Direction::Left, Direction::Right) => false,
        (Direction::Right, Direction::Left) => false,
        _ => true,
    }
}

/// Settles a run of requests: the last one that is a legal turn from
/// `baseline`, or `held` if none is.
pub fn settle_requests(baseline: Direction, held: Direction, requests: &Vec<Direction>) -> (settled:
    Direction)
    ensures
        settled == settle(baseline, held, requests@),
{
    let mut current = held;
    let mut i: usize = 0;
    assert(requests@.take(0) =~= Seq::<Direction>::empty());
    while i < requests.len()
        invariant
            i <= requests@.len(),
            current == settle(baseline, held, requests@.take(i as int)),
        decreases requests@.len() - i,
    {
        if is_legal_turn(baseline, requests[i]) {
            current = requests[i];
        }
        assert(requests@.take(i + 1).drop_last() =~= requests@.take(i as int));
        i += 1;
    }
    assert(requests@.take(i as int) =~= requests@);
    current
}

/// The turn rule in full: a turn is illegal exactly for the four pairs of
/// opposites; repeating the current direction is legal; from `Idle` every
/// request is legal; and the rule is symmetric.
pub proof fn lemma_turn_rule(current: Direction, requested: Direction)
    ensures
        !legal_turn(current, requested) <==> {
            ||| (current == Direction::Up && requested == Direction::Down)
            ||| (current == Direction::Down && requested == Direction::Up)
            ||| (current == Direction::Left && requested == Direction::Right)
            ||| (current == Direction::Right && requested == Direction::Left)
        },
        legal_turn(current, current),
        legal_turn(Direction::Idle, requested),
        legal_turn(current, requested) == legal_turn(requested, current),
{
}

/// The direction settled on is the one held before or one of the requests,
/// and it is a legal turn from the baseline if the one held before was.
pub proof fn lemma_settle_is_legal(baseline: Direction, held: Direction, requests: Seq<Direction>)
    ensures
        legal_turn(baseline, held) ==> legal_turn(baseline, settle(baseline, held, requests)),
        settle(baseline, held, requests) == held || requests.contains(
            settle(baseline, held, requests),
        ),
    decreases requests.len(),
{
    if requests.len() > 0 {
        let earlier = requests.drop_last();
        lemma_settle_is_legal(baseline, held, earlier);
        let prior = settle(baseline, held, earlier);
        if legal_turn(baseline, requests.last()) {
            assert(requests[requests.len() - 1] == requests.last());
        } else if prior != held {
            let i = choose|i: int| 0 <= i < earlier.len() && earlier[i] == prior;
            assert(requests[i] == prior);
        }
    }
}

/// Requests handed over one by one settle as they do handed over together.
pub proof fn lemma_settle_one_by_one(
    baseline: Direction,
    held: Direction,
    requests: Seq<Direction>,
    requested: Direction,
)
    ensures
        settle(baseline, held, requests.push(requested)) == turn_outcome(
            baseline,
            settle(baseline, held, requests),
            requested,
        ),
{
    assert(requests.push(requested).drop_last() =~= requests);
}

} // verus!
