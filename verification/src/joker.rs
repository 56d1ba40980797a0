//! The jokers a player holds, and how one is taken out of the pool.

use vstd::prelude::*;
use crate::input::{digit_of, get_user_input, normalized, sole_char, valid_joker_answer, Validator};

verus! {

/// A one-time help. Each kind can be used once in a game.
#[allow(non_camel_case_types)]
#[derive(Clone, Copy, Debug, PartialEq, Eq, Structural)]
pub enum Joker {
    /// Two wrong options are pointed out.
    J50_50,
    /// The audience's vote is shown.
    Audience,
    /// A friend on the phone gives an opinion.
    Call,
}

impl Joker {
    /// The name that the joker goes by in the menu.
    pub open spec fn name(self) -> Seq<char> {
        match self {
            Joker::J50_50 => "50/50"@,
            Joker::Audience => "Audience"@,
            Joker::Call => "Call"@,
        }
    }

    /// The joker's name, as the menu shows it.
    pub fn to_string(&self) -> (text: String)
        ensures
            text@ == self.name(),
    {
        match self {
            Joker::J50_50 => "50/50".to_owned(),
            Joker::Audience => "Audience".to_owned(),
            Joker::Call => "Call".to_owned(),
        }
    }
}

/// The position asked for is not that of a joker in the pool.
#[derive(Clone, Copy, Debug, PartialEq, Eq, Structural)]
pub struct OutOfRange;

/// A pool in which no joker occurs twice: what a game starts with and keeps.
pub open spec fn distinct_jokers(pool: Seq<Joker>) -> bool {
    pool.no_duplicates()
}

/// Whether `position`, counted from 1, is that of a joker in a pool of `held`.
pub open spec fn holds_position(held: nat, position: int) -> bool {
    1 <= position <= held
}

/// The pool once the joker at `position` (from 1) is gone.
pub open spec fn pool_without(pool: Seq<Joker>, position: int) -> Seq<Joker> {
    pool.remove(position - 1)
}

/// The jokers that come out of the pool when `positions` are asked for one
/// after the other, in the order in which they come out. A position that the
/// pool does not hold at its turn brings nothing out.
pub open spec fn taken_in_turn(pool: Seq<Joker>, positions: Seq<int>) -> Seq<Joker>
    decreases positions.len(),
{
    if positions.len() == 0 {
        Seq::<Joker>::empty()
    } else if holds_position(pool.len(), positions[0]) {
        seq![pool[positions[0] - 1]] + taken_in_turn(
            pool_without(pool, positions[0]),
            positions.drop_first(),
        )
    } else {
        taken_in_turn(pool, positions.drop_first())
    }
}

/// Whatever comes out of a pool was in it.
proof fn lemma_taken_were_held(pool: Seq<Joker>, positions: Seq<int>)
    ensures
        forall|joker: Joker| #[trigger]
            taken_in_turn(pool, positions).contains(joker) ==> pool.contains(joker),
    decreases positions.len(),
{
    if positions.len() > 0 {
        if holds_position(pool.len(), positions[0]) {
            let rest = pool_without(pool, positions[0]);
            let later = taken_in_turn(rest, positions.drop_first());
            lemma_taken_were_held(rest, positions.drop_first());
            assert forall|joker: Joker| #[trigger]
                taken_in_turn(pool, positions).contains(joker) implies pool.contains(joker) by {
                let i = choose|i: int|
                    0 <= i < taken_in_turn(pool, positions).len() && taken_in_turn(
                        pool,
                        positions,
                    )[i] == joker;
                if i > 0 {
                    assert(later[i - 1] == joker);
                    assert(later.contains(joker));
                    assert(rest.contains(joker));
                    let k = choose|k: int| 0 <= k < rest.len() && rest[k] == joker;
                    assert(pool[if k < positions[0] - 1 {
                        k
                    } else {
                        k + 1
                    }] == joker);
                } else {
                    assert(pool[positions[0] - 1] == joker);
                }
            }
        } else {
            lemma_taken_were_held(pool, positions.drop_first());
            assert(taken_in_turn(pool, positions) == taken_in_turn(pool, positions.drop_first()));
        }
    } else {
        assert(taken_in_turn(pool, positions) =~= Seq::<Joker>::empty());
    }
}

/// A joker is used once in a game. When a joker is taken from a pool that
/// holds none twice, the pool has one joker less and none twice, that joker is
/// no longer in it, and however the pool is asked afterwards, that joker does
/// not come out again.
pub proof fn lemma_taken_joker_is_gone(pool: Seq<Joker>, position: int, later: Seq<int>)
    requires
        distinct_jokers(pool),
        holds_position(pool.len(), position),
    ensures
        pool_without(pool, position).len() == pool.len() - 1,
        distinct_jokers(pool_without(pool, position)),
        !pool_without(pool, position).contains(pool[position - 1]),
        !taken_in_turn(pool_without(pool, position), later).contains(pool[position - 1]),
{
    let rest = pool_without(pool, position);
    assert forall|k: int| 0 <= k < rest.len() implies rest[k] != pool[position - 1] by {
        assert(rest[k] == pool[if k < position - 1 {
            k
        } else {
            k + 1
        }]);
    }
    lemma_taken_were_held(rest, later);
}

/// Whether any joker is left.
pub fn has_available_jokers(jokers: &Vec<Joker>) -> (available: bool)
    ensures
        available == (jokers@.len() > 0),
{
    !jokers.is_empty()
}

/// Takes the joker at `position`, counted from 1 in the order of the pool.
///
/// The joker leaves the pool for good and the others keep their order. A
/// position outside the pool is refused and the pool stays as it was.
pub fn take_joker(jokers: &mut Vec<Joker>, position: usize) -> (taken: Result<Joker, OutOfRange>)
    ensures
        holds_position(old(jokers)@.len(), position as int) ==> ({
            &&& taken == Ok::<Joker, OutOfRange>(old(jokers)@[position - 1])
            &&& final(jokers)@ == pool_without(old(jokers)@, position as int)
            &&& final(jokers)@.len() == old(jokers)@.len() - 1
        }),
        !holds_position(old(jokers)@.len(), position as int) ==> ({
            &&& taken == Err::<Joker, OutOfRange>(OutOfRange)
            &&& final(jokers)@ == old(jokers)@
        }),
{
    if position >= 1 && position <= jokers.len() {
        Ok(jokers.remove(position - 1))
    } else {
        Err(OutOfRange)
    }
}

/// Takes the joker that a line typed at the joker menu picks.
///
/// The line is brought to its plain form first. A line that the menu does not
/// accept is refused and the pool stays as it was.
pub fn select_joker(jokers: &mut Vec<Joker>, line: &str) -> (taken: Result<Joker, OutOfRange>)
    ensures
        valid_joker_answer(normalized(line@), old(jokers)@.len()) ==> ({
            &&& taken == Ok::<Joker, OutOfRange>(old(jokers)@[digit_of(normalized(line@)) - 1])
            &&& final(jokers)@ == pool_without(old(jokers)@, digit_of(normalized(line@)))
            &&& final(jokers)@.len() == old(jokers)@.len() - 1
        }),
        !valid_joker_answer(normalized(line@), old(jokers)@.len()) ==> ({
            &&& taken == Err::<Joker, OutOfRange>(OutOfRange)
            &&& final(jokers)@ == old(jokers)@
        }),
{
    match get_user_input(line, Validator::JokerAnswer, jokers) {
        Some(plain) => {
            match sole_char(plain.as_str()) {
                Some(c) => take_joker(jokers, (c as u32 - '0' as u32) as usize),
                None => Err(OutOfRange),
            }
        },
        None => Err(OutOfRange),
    }
}

} // verus!
