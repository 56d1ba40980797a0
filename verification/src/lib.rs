//! The rules of a fifteen-question quiz show, played one line of input at a time.
//!
//! The player works through an ordered list of multiple-choice questions. Three
//! one-time jokers and two second chances are shared over the whole game. The
//! library decides what each line of input means and what follows from it; the
//! caller reads the lines and shows what the library hands back.

pub mod effect;
pub mod game;
pub mod input;
pub mod joker;
pub mod question;
pub mod round;
pub mod text;

pub use effect::{apply_joker, apply_joker_50_50, eliminate_two, Effect};
pub use game::Game;
pub use input::{
    get_user_input, is_valid_answer, is_valid_answer_no_joker, is_valid_joker_answer, normalize,
    Validator,
};
pub use joker::{has_available_jokers, select_joker, take_joker, Joker, OutOfRange};
pub use question::{Question, Response};
pub use round::{ask_question, check_answer, Phase, Reply};
pub use text::{present_question, show_available_jokers};
