//! What a joker does for the player once it is taken.

use vstd::prelude::*;
use rand::Rng;
use crate::joker::Joker;
use crate::question::Question;

verus! {

/// What the player gets to see when a joker is played.
#[derive(Clone, Debug, PartialEq, Eq)]
pub enum Effect {
    /// Two options that are wrong, counted from 0, the lower one first. They
    /// stay open to the player.
    Eliminated(u8, u8),
    /// The audience's vote, as the question holds it.
    Audience(String),
    /// The friend's words, as the question holds them.
    Call(String),
}

/// An [`Effect`] with its texts as sequences of characters.
pub enum EffectView {
    Eliminated(u8, u8),
    Audience(Seq<char>),
    Call(Seq<char>),
}

impl View for Effect {
    type V = EffectView;

    open spec fn view(&self) -> EffectView {
        match *self {
            Effect::Eliminated(first, second) => EffectView::Eliminated(first, second),
            Effect::Audience(text) => EffectView::Audience(text@),
            Effect::Call(text) => EffectView::Call(text@),
        }
    }
}

/// The `k`-th wrong option, counted from 0 in rising order, of a question
/// whose right option is `correct`. A question has three: `k` is 0, 1 or 2.
pub open spec fn nth_wrong(correct: u8, k: int) -> int {
    if k < correct {
        k
    } else {
        k + 1
    }
}

/// The two options that the 50/50 joker points out when the draw is `draw`.
///
/// The draw picks the wrong option that stays unnamed: the one at `draw % 3`
/// among the three. The other two are named, the lower one first.
pub open spec fn eliminated(correct: u8, draw: u8) -> (u8, u8) {
    let spared = draw % 3;
    if spared == 0 {
        (nth_wrong(correct, 1) as u8, nth_wrong(correct, 2) as u8)
    } else if spared == 1 {
        (nth_wrong(correct, 0) as u8, nth_wrong(correct, 2) as u8)
    } else {
        (nth_wrong(correct, 0) as u8, nth_wrong(correct, 1) as u8)
    }
}

/// The wrong option at place `k` (0, 1 or 2).
fn wrong_option(correct: u8, k: u8) -> (option: u8)
    requires
        k < 3,
    ensures
        option == nth_wrong(correct, k as int),
{
    if k < correct {
        k
    } else {
        k + 1
    }
}

/// Names two wrong options of a question whose right option is `correct`.
///
/// Whatever the draw, the two are different options, both are among the four,
/// and neither is the right one.
pub fn eliminate_two(correct: u8, draw: u8) -> (pair: (u8, u8))
    ensures
        pair == eliminated(correct, draw),
        pair.0 < pair.1 < 4,
        pair.0 != correct,
        pair.1 != correct,
{
    let spared: u8 = draw % 3;
    if spared == 0 {
        (wrong_option(correct, 1), wrong_option(correct, 2))
    } else if spared == 1 {
        (wrong_option(correct, 0), wrong_option(correct, 2))
    } else {
        (wrong_option(correct, 0), wrong_option(correct, 1))
    }
}

/// `rand::Rng::gen_range` over `0..bound`, on the generator of the current
/// thread that `rand::thread_rng` returns. The result is some number of the
/// range: at least 0 and below `bound`. Which one is left open. An empty range
/// makes `gen_range` panic, so `bound` is not 0.
#[verifier::external_body]
fn random_below(bound: u8) -> (n: u8)
    requires
        bound > 0,
    ensures
        n < bound,
{
    rand::thread_rng().gen_range(0..bound)
}

/// Plays the 50/50 joker on a question: draws which wrong option to spare and
/// names the other two.
pub fn apply_joker_50_50(question: &Question) -> (pair: (u8, u8))
    ensures
        exists|draw: u8| draw < 3 && pair == eliminated(question.correct_answer, draw),
        pair.0 < pair.1 < 4,
        pair.0 != question.correct_answer,
        pair.1 != question.correct_answer,
{
    let draw = random_below(3);
    eliminate_two(question.correct_answer, draw)
}

/// What `joker` shows on `question` when the draw of the 50/50 joker is
/// `draw`. The other two jokers show the question's own text and draw nothing.
pub open spec fn effect_of(joker: Joker, question: Question, draw: u8) -> EffectView {
    match joker {
        Joker::J50_50 => {
            let pair = eliminated(question.correct_answer, draw);
            EffectView::Eliminated(pair.0, pair.1)
        },
        Joker::Audience => EffectView::Audience(question.audience@),
        Joker::Call => EffectView::Call(question.phone@),
    }
}

/// Plays a joker on a question. Neither the question nor what the player may
/// answer changes: the player learns something and nothing else happens.
pub fn apply_joker(joker: Joker, question: &Question) -> (effect: Effect)
    ensures
        exists|draw: u8| draw < 3 && effect@ == effect_of(joker, *question, draw),
        joker == Joker::J50_50 ==> (effect matches Effect::Eliminated(first, second) && first
            < second < 4 && first != question.correct_answer && second
            != question.correct_answer),
{
    match joker {
        Joker::J50_50 => {
            let pair = apply_joker_50_50(question);
            let effect = Effect::Eliminated(pair.0, pair.1);
            proof {
                let draw = choose|draw: u8|
                    draw < 3 && pair == eliminated(question.correct_answer, draw);
                assert(effect@ == effect_of(joker, *question, draw));
            }
            effect
        },
        Joker::Audience => {
            let effect = Effect::Audience(question.audience.clone());
            assert(effect@ == effect_of(joker, *question, 0));
            effect
        },
        Joker::Call => {
            let effect = Effect::Call(question.phone.clone());
            assert(effect@ == effect_of(joker, *question, 0));
            effect
        },
    }
}

} // verus!
