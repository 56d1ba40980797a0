//! One question from the first prompt to its outcome, one line at a time.

use vstd::prelude::*;
use crate::effect::{apply_joker, effect_of, Effect, EffectView};
use crate::input::{
    digit_of, get_user_input, is_key, is_option_key, normalized, sole_char, valid_answer,
    valid_answer_no_joker, valid_joker_answer, Validator,
};
use crate::joker::{pool_without, select_joker, Joker};
use crate::question::{judged, Question, Response};

verus! {

/// Where a question stands: what the next line will be read as.
#[derive(Clone, Copy, Debug, PartialEq, Eq, Structural)]
pub enum Phase {
    /// The question is open. The next line is an answer, `Q`, or `J` while a
    /// joker is left.
    AwaitingAnswer,
    /// The player asked for a joker. The next line picks one from the menu.
    JokerMenu,
    /// The first answer was wrong and a second chance was spent. The next line
    /// is an answer or `Q`; jokers are not on offer.
    AwaitingRetry,
    /// The question is over.
    Resolved(Response),
}

/// What the player is told after a line.
#[derive(Clone, Debug, PartialEq, Eq)]
pub enum Reply {
    /// The line is not among the options of the prompt; the same prompt is
    /// asked again.
    Rejected,
    /// The jokers in the pool are to be listed, numbered from 1.
    JokerMenu,
    /// The joker has left the pool and this is what it shows. The question is
    /// open again.
    JokerApplied(Joker, Effect),
    /// The answer was wrong, and the player may answer once more.
    SecondChance,
    /// The question is over, with this outcome.
    Resolved(Response),
}

/// A [`Reply`] with its texts as sequences of characters.
pub enum ReplyView {
    Rejected,
    JokerMenu,
    JokerApplied(Joker, EffectView),
    SecondChance,
    Resolved(Response),
}

impl View for Reply {
    type V = ReplyView;

    open spec fn view(&self) -> ReplyView {
        match *self {
            Reply::Rejected => ReplyView::Rejected,
            Reply::JokerMenu => ReplyView::JokerMenu,
            Reply::JokerApplied(joker, effect) => ReplyView::JokerApplied(joker, effect@),
            Reply::SecondChance => ReplyView::SecondChance,
            Reply::Resolved(response) => ReplyView::Resolved(response),
        }
    }
}

/// All that a line can change while a question is played.
pub struct Round {
    /// Where the question stands.
    pub phase: Phase,
    /// The second chances that are left.
    pub helps: u8,
    /// The jokers that are left, in the order of the menu.
    pub jokers: Seq<Joker>,
}

/// How a plain line that names an option or `Q` settles a question whose
/// right option is `correct`. Any other line counts as a wrong answer.
pub open spec fn outcome_of(correct: u8, key: Seq<char>) -> Response {
    if is_key(key, 'Q') {
        Response::Quit
    } else if is_option_key(key) {
        judged(correct, digit_of(key))
    } else {
        Response::Incorrect
    }
}

/// The round after the plain line `key`, for a question whose right option is
/// `correct`.
///
/// A line that the prompt does not accept changes nothing. A joker leaves the
/// pool when it is picked from the menu, and the question is open again. A
/// wrong first answer spends a second chance if one is left and moves to the
/// retry; the retry answer is final.
pub open spec fn next_round(correct: u8, before: Round, key: Seq<char>) -> Round {
    match before.phase {
        Phase::AwaitingAnswer => {
            if !valid_answer(key, before.jokers.len()) {
                before
            } else if is_key(key, 'J') {
                Round { phase: Phase::JokerMenu, ..before }
            } else if outcome_of(correct, key) == Response::Incorrect && before.helps > 0 {
                Round { phase: Phase::AwaitingRetry, helps: (before.helps - 1) as u8, ..before }
            } else {
                Round { phase: Phase::Resolved(outcome_of(correct, key)), ..before }
            }
        },
        Phase::JokerMenu => {
            if !valid_joker_answer(key, before.jokers.len()) {
                before
            } else {
                Round {
                    phase: Phase::AwaitingAnswer,
                    jokers: pool_without(before.jokers, digit_of(key)),
                    ..before
                }
            }
        },
        Phase::AwaitingRetry => {
            if !valid_answer_no_joker(key) {
                before
            } else {
                Round { phase: Phase::Resolved(outcome_of(correct, key)), ..before }
            }
        },
        Phase::Resolved(_) => before,
    }
}

/// What the player is told after the plain line `key`, case by case as in
/// [`next_round`]. `draw` is the draw of the 50/50 joker and counts only where
/// that joker is picked.
pub open spec fn reply_of(question: Question, before: Round, key: Seq<char>, draw: u8) -> ReplyView {
    let correct = question.correct_answer;
    match before.phase {
        Phase::AwaitingAnswer => {
            if !valid_answer(key, before.jokers.len()) {
                ReplyView::Rejected
            } else if is_key(key, 'J') {
                ReplyView::JokerMenu
            } else if outcome_of(correct, key) == Response::Incorrect && before.helps > 0 {
                ReplyView::SecondChance
            } else {
                ReplyView::Resolved(outcome_of(correct, key))
            }
        },
        Phase::JokerMenu => {
            if !valid_joker_answer(key, before.jokers.len()) {
                ReplyView::Rejected
            } else {
                let joker = before.jokers[digit_of(key) - 1];
                ReplyView::JokerApplied(joker, effect_of(joker, question, draw))
            }
        },
        Phase::AwaitingRetry => {
            if !valid_answer_no_joker(key) {
                ReplyView::Rejected
            } else {
                ReplyView::Resolved(outcome_of(correct, key))
            }
        },
        Phase::Resolved(response) => ReplyView::Resolved(response),
    }
}

/// The round after the plain lines `keys`, played in order.
pub open spec fn round_after(correct: u8, start: Round, keys: Seq<Seq<char>>) -> Round
    decreases keys.len(),
{
    if keys.len() == 0 {
        start
    } else {
        round_after(correct, next_round(correct, start, keys[0]), keys.drop_first())
    }
}

/// How often the plain lines `keys`, played in order, bring the offer of a
/// retry.
pub open spec fn retries_offered(question: Question, start: Round, keys: Seq<Seq<char>>) -> nat
    decreases keys.len(),
{
    if keys.len() == 0 {
        0
    } else {
        let now: nat = if reply_of(question, start, keys[0], 0) == ReplyView::SecondChance {
            1
        } else {
            0
        };
        now + retries_offered(
            question,
            next_round(question.correct_answer, start, keys[0]),
            keys.drop_first(),
        )
    }
}

/// From any phase: each offer of a retry costs one second chance and nothing
/// else does, and once the retry has been offered it is not offered again.
proof fn lemma_second_chances_in_round(question: Question, start: Round, keys: Seq<Seq<char>>)
    ensures
        ({
            let end = round_after(question.correct_answer, start, keys);
            let offered = retries_offered(question, start, keys);
            &&& end.helps == start.helps - offered
            &&& match start.phase {
                Phase::AwaitingAnswer | Phase::JokerMenu => offered <= 1 && (offered == 1 ==> (
                end.phase is AwaitingRetry || end.phase is Resolved)) && (end.phase
                    is AwaitingRetry ==> offered == 1),
                Phase::AwaitingRetry => offered == 0 && (end.phase is AwaitingRetry || end.phase
                    is Resolved),
                Phase::Resolved(_) => offered == 0 && end.phase == start.phase,
            }
        }),
    decreases keys.len(),
{
    if keys.len() > 0 {
        lemma_second_chances_in_round(
            question,
            next_round(question.correct_answer, start, keys[0]),
            keys.drop_first(),
        );
    }
}

/// A question costs at most one second chance. From the moment a question is
/// put, whatever lines follow: a retry is offered once at most, and never if
/// no second chance is left when the question is put; the count of second
/// chances falls by one for the offer and changes in no other way, so it
/// never rises and never falls below zero.
pub proof fn lemma_one_second_chance_per_question(
    question: Question,
    start: Round,
    keys: Seq<Seq<char>>,
)
    requires
        start.phase == Phase::AwaitingAnswer,
    ensures
        ({
            let end = round_after(question.correct_answer, start, keys);
            let offered = retries_offered(question, start, keys);
            &&& offered <= 1
            &&& start.helps == 0 ==> offered == 0
            &&& end.helps == start.helps - offered
            &&& 0 <= end.helps <= start.helps
            &&& end.phase is AwaitingRetry ==> offered == 1
        }),
{
    lemma_second_chances_in_round(question, start, keys);
}

/// Settles a question with a plain line that names an option or `Q`.
pub fn check_answer(question: &Question, answer: &str) -> (response: Response)
    ensures
        response == outcome_of(question.correct_answer, answer@),
{
    match sole_char(answer) {
        Some(c) => {
            if c == 'Q' {
                Response::Quit
            } else if '1' <= c && c <= '4' {
                let index: u8 = (c as u32 - '1' as u32) as u8;
                if index == question.correct_answer {
                    Response::Correct
                } else {
                    Response::Incorrect
                }
            } else {
                Response::Incorrect
            }
        },
        None => Response::Incorrect,
    }
}

/// Plays one line of input on a question.
///
/// `helps` and `jokers` belong to the whole game and are handed to each
/// question in turn; `phase` is where this question stands. The line is taken
/// as it was read. The result is the phase to go on from and what to tell the
/// player. A second chance is spent exactly when one is offered.
pub fn ask_question(
    question: &Question,
    helps: &mut u8,
    jokers: &mut Vec<Joker>,
    phase: Phase,
    line: &str,
) -> (step: (Phase, Reply))
    ensures
        ({
            let before = Round { phase, helps: *old(helps), jokers: old(jokers)@ };
            let after = next_round(question.correct_answer, before, normalized(line@));
            &&& step.0 == after.phase
            &&& *final(helps) == after.helps
            &&& final(jokers)@ == after.jokers
            &&& exists|draw: u8|
                draw < 3 && step.1@ == reply_of(*question, before, normalized(line@), draw)
        }),
        *final(helps) == *old(helps) - (if step.1 is SecondChance {
            1int
        } else {
            0int
        }),
{
    let ghost before = Round { phase, helps: *helps, jokers: jokers@ };
    let ghost key = normalized(line@);
    match phase {
        Phase::AwaitingAnswer => {
            match get_user_input(line, Validator::Answer, jokers) {
                Some(answer) => {
                    let joker_asked = match sole_char(answer.as_str()) {
                        Some(c) => c == 'J',
                        None => false,
                    };
                    if joker_asked {
                        let reply = Reply::JokerMenu;
                        assert(reply@ == reply_of(*question, before, key, 0));
                        (Phase::JokerMenu, reply)
                    } else {
                        let response = check_answer(question, answer.as_str());
                        if response == Response::Incorrect && *helps > 0 {
                            *helps = *helps - 1;
                            let reply = Reply::SecondChance;
                            assert(reply@ == reply_of(*question, before, key, 0));
                            (Phase::AwaitingRetry, reply)
                        } else {
                            let reply = Reply::Resolved(response);
                            assert(reply@ == reply_of(*question, before, key, 0));
                            (Phase::Resolved(response), reply)
                        }
                    }
                },
                None => {
                    let reply = Reply::Rejected;
                    assert(reply@ == reply_of(*question, before, key, 0));
                    (phase, reply)
                },
            }
        },
        Phase::JokerMenu => {
            match select_joker(jokers, line) {
                Ok(joker) => {
                    let effect = apply_joker(joker, question);
                    let reply = Reply::JokerApplied(joker, effect);
                    proof {
                        let draw = choose|draw: u8|
                            draw < 3 && effect@ == effect_of(joker, *question, draw);
                        assert(reply@ == reply_of(*question, before, key, draw));
                    }
                    (Phase::AwaitingAnswer, reply)
                },
                Err(_) => {
                    let reply = Reply::Rejected;
                    assert(reply@ == reply_of(*question, before, key, 0));
                    (phase, reply)
                },
            }
        },
        Phase::AwaitingRetry => {
            match get_user_input(line, Validator::AnswerNoJoker, jokers) {
                Some(answer) => {
                    let response = check_answer(question, answer.as_str());
                    let reply = Reply::Resolved(response);
                    assert(reply@ == reply_of(*question, before, key, 0));
                    (Phase::Resolved(response), reply)
                },
                None => {
                    let reply = Reply::Rejected;
                    assert(reply@ == reply_of(*question, before, key, 0));
                    (phase, reply)
                },
            }
        },
        Phase::Resolved(response) => {
            let reply = Reply::Resolved(response);
            assert(reply@ == reply_of(*question, before, key, 0));
            (phase, reply)
        },
    }
}

} // verus!
