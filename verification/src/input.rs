//! What a line of input means: how it is brought to its plain form, and which
//! plain forms each prompt accepts.

use vstd::prelude::*;
use crate::joker::Joker;

verus! {

/// White space as Unicode defines it (`White_Space`): the characters that
/// `char::is_whitespace` takes for it.
pub open spec fn is_space(c: char) -> bool {
    ||| '\u{9}' <= c <= '\u{d}'
    ||| c == ' '
    ||| c == '\u{85}'
    ||| c == '\u{a0}'
    ||| c == '\u{1680}'
    ||| '\u{2000}' <= c <= '\u{200a}'
    ||| c == '\u{2028}'
    ||| c == '\u{2029}'
    ||| c == '\u{202f}'
    ||| c == '\u{205f}'
    ||| c == '\u{3000}'
}

/// The capital of a letter from `a` to `z`; any other character is itself.
pub open spec fn raised(c: char) -> char {
    if 'a' <= c <= 'z' {
        ((c as u32 - 32) as u8) as char
    } else {
        c
    }
}

/// `s` without the white space it starts with.
pub open spec fn without_leading_space(s: Seq<char>) -> Seq<char>
    decreases s.len(),
{
    if s.len() > 0 && is_space(s.first()) {
        without_leading_space(s.drop_first())
    } else {
        s
    }
}

/// `s` without the white space it ends with.
pub open spec fn without_trailing_space(s: Seq<char>) -> Seq<char>
    decreases s.len(),
{
    if s.len() > 0 && is_space(s.last()) {
        without_trailing_space(s.drop_last())
    } else {
        s
    }
}

/// `s` without the white space around it.
pub open spec fn trimmed(s: Seq<char>) -> Seq<char> {
    without_trailing_space(without_leading_space(s))
}

/// The plain form of a line: the white space around it is gone and the letters
/// `a` to `z` are capitals. Prompts compare plain forms, so `j` and ` J ` are
/// the same answer.
pub open spec fn normalized(line: Seq<char>) -> Seq<char> {
    trimmed(line).map_values(|c: char| raised(c))
}

/// `line` is the one character `c`.
pub open spec fn is_key(line: Seq<char>, c: char) -> bool {
    line.len() == 1 && line[0] == c
}

/// `line` names one of the four options: `1`, `2`, `3` or `4`.
pub open spec fn is_option_key(line: Seq<char>) -> bool {
    line.len() == 1 && '1' <= line[0] <= '4'
}

/// The plain line that names the option at `place`, counted from 0: `1` for
/// the first option up to `4` for the last.
pub open spec fn key_of_option(place: u8) -> Seq<char> {
    seq![('1' as u8 + place) as u8 as char]
}

/// The number that a one-digit line stands for.
pub open spec fn digit_of(line: Seq<char>) -> int {
    line[0] as int - '0' as int
}

/// What a prompt for an answer accepts when jokers are not on offer: an option
/// or `Q`.
pub open spec fn valid_answer_no_joker(line: Seq<char>) -> bool {
    is_option_key(line) || is_key(line, 'Q')
}

/// What a prompt for an answer accepts while `held` jokers are left: an
/// option, `Q`, and `J` as long as a joker is left.
pub open spec fn valid_answer(line: Seq<char>, held: nat) -> bool {
    valid_answer_no_joker(line) || (is_key(line, 'J') && held > 0)
}

/// What the joker menu accepts while `held` jokers are left: `1`, `2` or `3`,
/// and no number above `held`.
pub open spec fn valid_joker_answer(line: Seq<char>, held: nat) -> bool {
    line.len() == 1 && '1' <= line[0] <= '3' && digit_of(line) <= held
}

/// Two lines of the same length that differ at most in the case of the letters
/// `a` to `z`.
pub open spec fn same_but_for_case(a: Seq<char>, b: Seq<char>) -> bool {
    &&& a.len() == b.len()
    &&& forall|i: int| 0 <= i < a.len() ==> raised(#[trigger] a[i]) == raised(b[i])
}

/// Raising a letter neither makes nor unmakes white space.
proof fn lemma_case_keeps_space(x: char, y: char)
    requires
        raised(x) == raised(y),
    ensures
        is_space(x) == is_space(y),
{
}

/// Lines that differ only in case start with equally much white space.
proof fn lemma_case_keeps_leading_space(a: Seq<char>, b: Seq<char>)
    requires
        same_but_for_case(a, b),
    ensures
        same_but_for_case(without_leading_space(a), without_leading_space(b)),
    decreases a.len(),
{
    if a.len() > 0 {
        lemma_case_keeps_space(a[0], b[0]);
        if is_space(a.first()) {
            assert forall|i: int| 0 <= i < a.len() - 1 implies raised(
                #[trigger] a.drop_first()[i],
            ) == raised(b.drop_first()[i]) by {
                assert(raised(a[i + 1]) == raised(b[i + 1]));
            }
            lemma_case_keeps_leading_space(a.drop_first(), b.drop_first());
        }
    }
}

/// Lines that differ only in case end with equally much white space.
proof fn lemma_case_keeps_trailing_space(a: Seq<char>, b: Seq<char>)
    requires
        same_but_for_case(a, b),
    ensures
        same_but_for_case(without_trailing_space(a), without_trailing_space(b)),
    decreases a.len(),
{
    if a.len() > 0 {
        lemma_case_keeps_space(a[a.len() - 1], b[b.len() - 1]);
        if is_space(a.last()) {
            assert forall|i: int| 0 <= i < a.len() - 1 implies raised(
                #[trigger] a.drop_last()[i],
            ) == raised(b.drop_last()[i]) by {
                assert(raised(a[i]) == raised(b[i]));
            }
            lemma_case_keeps_trailing_space(a.drop_last(), b.drop_last());
        }
    }
}

/// Input is read without regard to case: two lines that differ only in the
/// case of their letters have the same plain form, so every prompt accepts
/// both or neither and takes both for the same answer.
pub proof fn lemma_case_is_ignored(a: Seq<char>, b: Seq<char>)
    requires
        same_but_for_case(a, b),
    ensures
        normalized(a) == normalized(b),
{
    lemma_case_keeps_leading_space(a, b);
    lemma_case_keeps_trailing_space(without_leading_space(a), without_leading_space(b));
    assert(normalized(a) =~= normalized(b));
}

/// A line that is `j` or `J`, with any white space around it, is accepted
/// where jokers are on offer if and only if a joker is left.
pub proof fn lemma_joker_key_needs_a_joker(line: Seq<char>, held: nat)
    requires
        is_key(trimmed(line), 'j') || is_key(trimmed(line), 'J'),
    ensures
        is_key(normalized(line), 'J'),
        valid_answer(normalized(line), held) <==> held > 0,
{
}

/// With no joker left, the prompt that offers jokers accepts what the prompt
/// without them accepts, and nothing else.
pub proof fn lemma_empty_pool_offers_no_joker(line: Seq<char>)
    ensures
        valid_answer(line, 0) == valid_answer_no_joker(line),
{
}

/// `String::push` of the standard library: the character is appended and the
/// text before it stays as it was.
pub assume_specification[ String::push ](text: &mut String, c: char)
    ensures
        final(text)@ == old(text)@.push(c),
;

/// Whether `c` is white space.
fn space(c: char) -> (b: bool)
    ensures
        b == is_space(c),
{
    ('\u{9}' <= c && c <= '\u{d}') || c == ' ' || c == '\u{85}' || c == '\u{a0}' || c == '\u{1680}'
        || ('\u{2000}' <= c && c <= '\u{200a}') || c == '\u{2028}' || c == '\u{2029}' || c
        == '\u{202f}' || c == '\u{205f}' || c == '\u{3000}'
}

/// The capital of `c` where it is a letter from `a` to `z`.
fn raise(c: char) -> (r: char)
    ensures
        r == raised(c),
{
    if 'a' <= c && c <= 'z' {
        ((c as u32 - 32) as u8) as char
    } else {
        c
    }
}

/// The characters of a line, in order.
fn chars_of(line: &str) -> (chars: Vec<char>)
    ensures
        chars@ == line@,
{
    broadcast use vstd::string::group_string_axioms;

    let mut chars: Vec<char> = Vec::new();
    for c in it: line.chars()
        invariant
            it.seq() == line@,
            chars@ == it.seq().take(it.index()),
    {
        chars.push(c);
    }
    assert(chars@ == line@);
    chars
}

/// Brings a line as it was typed to its plain form.
pub fn normalize(line: &str) -> (plain: String)
    ensures
        plain@ == normalized(line@),
{
    let chars = chars_of(line);
    let n = chars.len();
    let mut from: usize = 0;
    assert(chars@.skip(0) =~= chars@);
    while from < n && space(chars[from])
        invariant
            n == chars@.len(),
            from <= n,
            without_leading_space(chars@.skip(from as int)) == without_leading_space(chars@),
        decreases n - from,
    {
        assert(chars@.skip(from as int).drop_first() =~= chars@.skip(from + 1));
        from += 1;
    }
    assert(chars@.skip(from as int) =~= chars@.subrange(from as int, n as int));
    let mut to: usize = n;
    while to > from && space(chars[to - 1])
        invariant
            n == chars@.len(),
            from <= to <= n,
            without_trailing_space(chars@.subrange(from as int, to as int))
                == without_trailing_space(chars@.subrange(from as int, n as int)),
        decreases to - from,
    {
        assert(chars@.subrange(from as int, to as int).drop_last() =~= chars@.subrange(
            from as int,
            to - 1,
        ));
        to -= 1;
    }
    assert(trimmed(chars@) == chars@.subrange(from as int, to as int));
    let mut plain = String::new();
    let mut at: usize = from;
    while at < to
        invariant
            n == chars@.len(),
            from <= at <= to <= n,
            plain@.len() == at - from,
            forall|i: int| 0 <= i < at - from ==> plain@[i] == raised(#[trigger] chars@[from + i]),
        decreases to - at,
    {
        plain.push(raise(chars[at]));
        at += 1;
    }
    assert(plain@ =~= normalized(line@)) by {
        let kept = chars@.subrange(from as int, to as int);
        assert(normalized(line@).len() == kept.len());
        assert forall|i: int| 0 <= i < kept.len() implies plain@[i] == normalized(line@)[i] by {
            assert(kept[i] == chars@[from + i]);
        }
    }
    plain
}

/// The character of a line that holds exactly one; `None` for any other line.
pub(crate) fn sole_char(line: &str) -> (c: Option<char>)
    ensures
        c == (if line@.len() == 1 {
            Some(line@[0])
        } else {
            None::<char>
        }),
{
    broadcast use vstd::string::group_string_axioms;

    let mut rest = line.chars();
    let first = rest.next();
    let second = rest.next();
    match (first, second) {
        (Some(c), None) => Some(c),
        _ => None,
    }
}

/// Whether a plain line is accepted where an answer is asked for and jokers
/// are on offer.
pub fn is_valid_answer(answer: &str, jokers: &Vec<Joker>) -> (ok: bool)
    ensures
        ok == valid_answer(answer@, jokers@.len()),
{
    match sole_char(answer) {
        Some(c) => ('1' <= c && c <= '4') || c == 'Q' || (c == 'J' && !jokers.is_empty()),
        None => false,
    }
}

/// Whether a plain line is accepted where an answer is asked for and jokers
/// are not on offer. The pool has no say in it.
pub fn is_valid_answer_no_joker(answer: &str, _jokers: &Vec<Joker>) -> (ok: bool)
    ensures
        ok == valid_answer_no_joker(answer@),
{
    match sole_char(answer) {
        Some(c) => ('1' <= c && c <= '4') || c == 'Q',
        None => false,
    }
}

/// Whether a plain line picks a joker of the pool from the menu.
pub fn is_valid_joker_answer(answer: &str, jokers: &Vec<Joker>) -> (ok: bool)
    ensures
        ok == valid_joker_answer(answer@, jokers@.len()),
{
    match sole_char(answer) {
        Some(c) => (c == '1' && jokers.len() >= 1) || (c == '2' && jokers.len() >= 2) || (c == '3'
            && jokers.len() >= 3),
        None => false,
    }
}

/// The three prompts of a question, each with the lines it accepts.
#[derive(Clone, Copy, Debug, PartialEq, Eq, Structural)]
pub enum Validator {
    /// An answer is asked for and jokers are on offer.
    Answer,
    /// An answer is asked for and jokers are not on offer.
    AnswerNoJoker,
    /// A joker is to be picked from the menu.
    JokerAnswer,
}

impl Validator {
    /// Whether this prompt accepts the plain line while `held` jokers are left.
    pub open spec fn allows(self, line: Seq<char>, held: nat) -> bool {
        match self {
            Validator::Answer => valid_answer(line, held),
            Validator::AnswerNoJoker => valid_answer_no_joker(line),
            Validator::JokerAnswer => valid_joker_answer(line, held),
        }
    }

    /// Whether this prompt accepts the plain line `answer`.
    pub fn accepts(self, answer: &str, jokers: &Vec<Joker>) -> (ok: bool)
        ensures
            ok == self.allows(answer@, jokers@.len()),
    {
        match self {
            Validator::Answer => is_valid_answer(answer, jokers),
            Validator::AnswerNoJoker => is_valid_answer_no_joker(answer, jokers),
            Validator::JokerAnswer => is_valid_joker_answer(answer, jokers),
        }
    }
}

/// Takes a line as it was read and hands back its plain form if the prompt
/// accepts it. `None` means that the player has to be asked again.
pub fn get_user_input(line: &str, validator: Validator, jokers: &Vec<Joker>) -> (answer: Option<
    String,
>)
    ensures
        validator.allows(normalized(line@), jokers@.len()) ==> (answer matches Some(plain)
            && plain@ == normalized(line@)),
        !validator.allows(normalized(line@), jokers@.len()) ==> answer is None,
{
    let plain = normalize(line);
    if validator.accepts(plain.as_str(), jokers) {
        Some(plain)
    } else {
        None
    }
}

} // verus!
