//! A question of the quiz and how an answer to it can turn out.

use vstd::prelude::*;

verus! {

/// One multiple-choice question. It is made once and only read after that.
#[derive(Clone, Debug, PartialEq, Eq)]
pub struct Question {
    /// The text of the question.
    pub question: String,
    /// The four options, shown to the player as `1` to `4`.
    pub answers: [String; 4],
    /// Which option is right, counted from 0.
    pub correct_answer: u8,
    /// What the audience joker shows.
    pub audience: String,
    /// What the friend on the phone says.
    pub phone: String,
    /// The prize that the question is played for.
    pub money: u32,
}

/// How a question ended.
#[derive(Clone, Copy, Debug, PartialEq, Eq, Structural)]
pub enum Response {
    /// The player gave the right option.
    Correct,
    /// The player gave a wrong option and had no second chance left, or used it
    /// on another wrong option.
    Incorrect,
    /// The player left the game.
    Quit,
}

/// How an option settles a question whose right option is `correct`: the
/// option is given as the player names it, from 1.
pub open spec fn judged(correct: u8, option: int) -> Response {
    if option - 1 == correct {
        Response::Correct
    } else {
        Response::Incorrect
    }
}

} // verus!
