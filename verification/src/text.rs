//! The lines that put a question and the joker menu before the player.

use vstd::prelude::*;
use crate::joker::Joker;
use crate::question::Question;

verus! {

/// The character of a digit from 0 to 9.
pub open spec fn digit_char(digit: nat) -> char {
    (('0' as u8) + digit) as u8 as char
}

/// A number written in decimal digits, without leading zeros.
pub open spec fn decimal(n: nat) -> Seq<char>
    decreases n,
{
    if n < 10 {
        seq![digit_char(n)]
    } else {
        decimal(n / 10).push(digit_char(n % 10))
    }
}

/// The line of the joker menu for the joker at `place`, counted from 0: its
/// number from 1, a bracket, and its name.
pub open spec fn menu_line(place: nat, joker: Joker) -> Seq<char> {
    decimal(place + 1) + ") "@ + joker.name()
}

/// What the player reads when a question is put: a word to the player with
/// the prize, the question, the four options numbered from 1, `J) Joker` if a
/// joker is left, and `Q) Quit`.
pub open spec fn question_text(question: Question, name: Seq<char>, held: nat) -> Seq<char> {
    "OK "@ + name + ". The $"@ + decimal(question.money as nat) + " question:\n"@
        + question.question@ + "\n1) "@ + question.answers[0]@ + "\n2) "@ + question.answers[1]@
        + "\n3) "@ + question.answers[2]@ + "\n4) "@ + question.answers[3]@ + "\n"@ + (if held > 0 {
        "J) Joker\n"@
    } else {
        Seq::<char>::empty()
    }) + "Q) Quit"@
}

/// Appends `n` in decimal digits.
fn push_decimal(text: &mut String, n: usize)
    ensures
        final(text)@ == old(text)@ + decimal(n as nat),
    decreases n,
{
    if n >= 10 {
        push_decimal(text, n / 10);
    }
    let digit: u8 = (n % 10) as u8;
    text.push(('0' as u8 + digit) as char);
    assert(text@ =~= old(text)@ + decimal(n as nat));
}

/// The joker menu: one line for each joker of the pool, in the pool's order
/// and numbered from 1, so that a line's number is the answer that picks its
/// joker.
pub fn show_available_jokers(jokers: &Vec<Joker>) -> (lines: Vec<String>)
    ensures
        lines@.len() == jokers@.len(),
        forall|i: int| 0 <= i < jokers@.len() ==> (#[trigger] lines@[i])@ == menu_line(i as nat, jokers@[i]),
{
    let mut lines: Vec<String> = Vec::new();
    let mut place: usize = 0;
    while place < jokers.len()
        invariant
            place <= jokers@.len(),
            lines@.len() == place,
            forall|i: int| 0 <= i < place ==> (#[trigger] lines@[i])@ == menu_line(i as nat, jokers@[i]),
        decreases jokers@.len() - place,
    {
        let mut line = String::new();
        push_decimal(&mut line, place + 1);
        line.append(") ");
        let name = jokers[place].to_string();
        line.append(name.as_str());
        assert(line@ =~= menu_line(place as nat, jokers@[place as int]));
        lines.push(line);
        place += 1;
    }
    lines
}

/// Puts a question before the player `name`, with the jokers that are left
/// deciding whether `J) Joker` is among the options.
pub fn present_question(question: &Question, name: &str, jokers: &Vec<Joker>) -> (text: String)
    ensures
        text@ == question_text(*question, name@, jokers@.len()),
{
    let mut text = String::new();
    text.append("OK ");
    text.append(name);
    text.append(". The $");
    push_decimal(&mut text, question.money as usize);
    text.append(" question:\n");
    text.append(question.question.as_str());
    text.append("\n1) ");
    text.append(question.answers[0].as_str());
    text.append("\n2) ");
    text.append(question.answers[1].as_str());
    text.append("\n3) ");
    text.append(question.answers[2].as_str());
    text.append("\n4) ");
    text.append(question.answers[3].as_str());
    text.append("\n");
    if !jokers.is_empty() {
        text.append("J) Joker\n");
    }
    text.append("Q) Quit");
    assert(text@ =~= question_text(*question, name@, jokers@.len()));
    text
}

} // verus!
