//! A whole game: the questions in order, with the jokers and second chances
//! that all of them share.

use vstd::prelude::*;
use crate::input::{digit_of, key_of_option, normalized, valid_joker_answer};
use crate::joker::{distinct_jokers, lemma_taken_joker_is_gone, pool_without, Joker};
use crate::question::{Question, Response};
use crate::round::{ask_question, next_round, reply_of, Phase, Reply, Round};

verus! {

/// The second chances that a game starts with.
pub const INITIAL_HELPS: u8 = 2;

/// The state of a game between two lines of input.
#[derive(Clone, Debug, PartialEq, Eq)]
pub struct Game {
    /// The second chances that are left.
    pub helps: u8,
    /// The jokers that are left, in the order of the menu.
    pub jokers: Vec<Joker>,
    /// How many questions have been answered correctly. While the game goes
    /// on this is the place of the question being played, counted from 0.
    pub position: usize,
    /// Where the question being played stands; how the last one ended, once
    /// the game is over.
    pub phase: Phase,
    /// The prize of the last question that was answered correctly; 0 before
    /// the first.
    pub winnings: u32,
    /// The prize of the last question that came to an end, whatever its
    /// outcome: what the player is told on leaving the game.
    pub payout: u32,
    /// Whether the last question of the list was answered correctly.
    pub won: bool,
    /// Whether the game has ended by a win, a wrong answer or the player's
    /// leaving.
    pub over: bool,
}

/// A [`Game`] with its pool of jokers as a sequence.
pub struct GameView {
    pub helps: u8,
    pub jokers: Seq<Joker>,
    pub position: nat,
    pub phase: Phase,
    pub winnings: u32,
    pub payout: u32,
    pub won: bool,
    pub over: bool,
}

impl View for Game {
    type V = GameView;

    open spec fn view(&self) -> GameView {
        GameView {
            helps: self.helps,
            jokers: self.jokers@,
            position: self.position as nat,
            phase: self.phase,
            winnings: self.winnings,
            payout: self.payout,
            won: self.won,
            over: self.over,
        }
    }
}

impl GameView {
    /// What a line can change of the question being played.
    pub open spec fn round(self) -> Round {
        Round { phase: self.phase, helps: self.helps, jokers: self.jokers }
    }

    /// Whether no line will be played any more on a list of `count`
    /// questions.
    pub open spec fn finished(self, count: nat) -> bool {
        self.over || self.position >= count
    }

    /// What holds of every game that started from [`initial_game`]: no joker
    /// is held twice, the menu is open only while a joker is left, a question
    /// that has ended is either followed by the next or ends the game, and
    /// only a game that is over is won.
    pub open spec fn wf(self) -> bool {
        &&& distinct_jokers(self.jokers)
        &&& self.helps <= INITIAL_HELPS
        &&& self.phase == Phase::JokerMenu ==> self.jokers.len() > 0
        &&& self.phase is Resolved ==> self.over
        &&& self.won ==> self.over
    }
}

/// A game before the first line: two second chances, the three jokers, no
/// question answered, nothing won.
pub open spec fn initial_game() -> GameView {
    GameView {
        helps: INITIAL_HELPS,
        jokers: seq![Joker::J50_50, Joker::Audience, Joker::Call],
        position: 0,
        phase: Phase::AwaitingAnswer,
        winnings: 0,
        payout: 0,
        won: false,
        over: false,
    }
}

/// The game after the question being played has ended with `response`.
///
/// A right answer earns the question's prize and leads to the next question;
/// on the last question of the list it wins the game. A wrong answer and
/// leaving both end the game at once. In each case the prize of the question
/// is what the player is told. A game that is finished stays as it is.
pub open spec fn settled(game: GameView, questions: Seq<Question>, response: Response) -> GameView {
    if game.finished(questions.len()) {
        game
    } else {
        let prize = questions[game.position as int].money;
        let last = game.position + 1 == questions.len();
        match response {
            Response::Correct => GameView {
                position: game.position + 1,
                phase: if last {
                    Phase::Resolved(Response::Correct)
                } else {
                    Phase::AwaitingAnswer
                },
                winnings: prize,
                payout: prize,
                won: last,
                over: last,
                ..game
            },
            _ => GameView { phase: Phase::Resolved(response), payout: prize, over: true, ..game },
        }
    }
}

/// The game after the plain line `key`: the line is played on the question at
/// the game's position, and where that ends the question, the outcome is
/// settled.
pub open spec fn played(game: GameView, questions: Seq<Question>, key: Seq<char>) -> GameView {
    if game.finished(questions.len()) {
        game
    } else {
        let after = next_round(questions[game.position as int].correct_answer, game.round(), key);
        let moved = GameView {
            phase: after.phase,
            helps: after.helps,
            jokers: after.jokers,
            ..game
        };
        match after.phase {
            Phase::Resolved(response) => settled(moved, questions, response),
            _ => moved,
        }
    }
}

/// The game after the plain lines `keys`, played in order.
pub open spec fn game_after(game: GameView, questions: Seq<Question>, keys: Seq<Seq<char>>) -> GameView
    decreases keys.len(),
{
    if keys.len() == 0 {
        game
    } else {
        game_after(played(game, questions, keys[0]), questions, keys.drop_first())
    }
}

/// The joker that the plain line `key` brings into play, if it does: the one
/// picked from the menu of a game that still takes lines.
pub open spec fn joker_played(game: GameView, questions: Seq<Question>, key: Seq<char>) -> Option<
    Joker,
> {
    if !game.finished(questions.len()) && game.phase == Phase::JokerMenu && valid_joker_answer(
        key,
        game.jokers.len(),
    ) {
        Some(game.jokers[digit_of(key) - 1])
    } else {
        None
    }
}

/// The jokers that the plain lines `keys` bring into play, in order.
pub open spec fn jokers_played(
    game: GameView,
    questions: Seq<Question>,
    keys: Seq<Seq<char>>,
) -> Seq<Joker>
    decreases keys.len(),
{
    if keys.len() == 0 {
        Seq::<Joker>::empty()
    } else {
        let later = jokers_played(played(game, questions, keys[0]), questions, keys.drop_first());
        match joker_played(game, questions, keys[0]) {
            Some(joker) => seq![joker] + later,
            None => later,
        }
    }
}

/// A line keeps a game sound and gives nothing back: second chances and
/// jokers are never refilled, a joker leaves the pool exactly when the line
/// brings it into play, and the count of right answers rises by one at most.
pub proof fn lemma_line_keeps_game_sound(game: GameView, questions: Seq<Question>, key: Seq<char>)
    requires
        game.wf(),
    ensures
        ({
            let after = played(game, questions, key);
            &&& after.wf()
            &&& after.helps <= game.helps
            &&& game.position <= after.position <= game.position + 1
            &&& match joker_played(game, questions, key) {
                Some(joker) => after.jokers.len() == game.jokers.len() - 1
                    && !after.jokers.contains(joker),
                None => after.jokers == game.jokers,
            }
            &&& forall|joker: Joker| #[trigger]
                after.jokers.contains(joker) ==> game.jokers.contains(joker)
        }),
{
    if let Some(joker) = joker_played(game, questions, key) {
        lemma_taken_joker_is_gone(game.jokers, digit_of(key), Seq::<int>::empty());
        let rest = pool_without(game.jokers, digit_of(key));
        assert(played(game, questions, key).jokers == rest);
        assert forall|other: Joker| #[trigger] rest.contains(other) implies game.jokers.contains(
            other,
        ) by {
            let k = choose|k: int| 0 <= k < rest.len() && rest[k] == other;
            assert(game.jokers[if k < digit_of(key) - 1 {
                k
            } else {
                k + 1
            }] == other);
        }
    }
}

/// No joker is played twice in a game. Whatever lines are played on a sound
/// game, the jokers they bring into play are all different, each was in the
/// pool before, and none is in the pool afterwards.
pub proof fn lemma_each_joker_once(game: GameView, questions: Seq<Question>, keys: Seq<Seq<char>>)
    requires
        game.wf(),
    ensures
        game_after(game, questions, keys).wf(),
        jokers_played(game, questions, keys).no_duplicates(),
        forall|joker: Joker| #[trigger]
            jokers_played(game, questions, keys).contains(joker) ==> game.jokers.contains(joker)
                && !game_after(game, questions, keys).jokers.contains(joker),
        forall|joker: Joker| #[trigger]
            game_after(game, questions, keys).jokers.contains(joker) ==> game.jokers.contains(
                joker,
            ),
    decreases keys.len(),
{
    let used = jokers_played(game, questions, keys);
    if keys.len() == 0 {
        assert(used =~= Seq::<Joker>::empty());
    } else {
        let next = played(game, questions, keys[0]);
        let later = jokers_played(next, questions, keys.drop_first());
        let end = game_after(next, questions, keys.drop_first());
        lemma_line_keeps_game_sound(game, questions, keys[0]);
        lemma_each_joker_once(next, questions, keys.drop_first());
        match joker_played(game, questions, keys[0]) {
            Some(first) => {
                assert(used == seq![first] + later);
                assert(!later.contains(first));
                assert(!end.jokers.contains(first));
                assert forall|i: int, j: int| 0 <= i < j < used.len() implies used[i]
                    != used[j] by {
                    if i == 0 {
                        assert(later[j - 1] == used[j]);
                        assert(later.contains(used[j]));
                    } else {
                        assert(later[i - 1] == used[i] && later[j - 1] == used[j]);
                    }
                }
                assert forall|joker: Joker| #[trigger] used.contains(joker) implies game.jokers.contains(
                    joker,
                ) && !end.jokers.contains(joker) by {
                    let i = choose|i: int| 0 <= i < used.len() && used[i] == joker;
                    if i > 0 {
                        assert(later[i - 1] == joker);
                        assert(later.contains(joker));
                    }
                }
            },
            None => {
                assert(used == later);
            },
        }
    }
}

/// The plain lines of a player who gives the right option to every question
/// and nothing else.
pub open spec fn right_keys(questions: Seq<Question>) -> Seq<Seq<char>> {
    Seq::new(questions.len(), |i: int| key_of_option(questions[i].correct_answer))
}

/// Right answers from the question at the game's position to the last one win
/// the game.
proof fn lemma_right_answers_from(game: GameView, questions: Seq<Question>)
    requires
        !game.finished(questions.len()),
        game.phase == Phase::AwaitingAnswer,
        forall|i: int| 0 <= i < questions.len() ==> (#[trigger] questions[i]).correct_answer < 4,
    ensures
        ({
            let end = game_after(
                game,
                questions,
                right_keys(questions).skip(game.position as int),
            );
            &&& end.won && end.over
            &&& end.position == questions.len()
            &&& end.payout == questions.last().money
            &&& end.winnings == questions.last().money
            &&& end.helps == game.helps
            &&& end.jokers == game.jokers
        }),
    decreases questions.len() - game.position,
{
    let keys = right_keys(questions).skip(game.position as int);
    let next = played(game, questions, keys[0]);
    assert(questions[game.position as int].correct_answer < 4);
    assert(keys[0] == key_of_option(questions[game.position as int].correct_answer));
    assert(keys.drop_first() =~= right_keys(questions).skip(next.position as int));
    if next.position < questions.len() {
        lemma_right_answers_from(next, questions);
    } else {
        assert(game_after(next, questions, keys.drop_first()) == next);
    }
}

/// A player who gives the right option to every question, and uses neither a
/// joker nor a second chance, wins the game: the prize of the last question is
/// paid, and the jokers and second chances are all still there.
pub proof fn lemma_right_answers_win(questions: Seq<Question>)
    requires
        questions.len() > 0,
        forall|i: int| 0 <= i < questions.len() ==> (#[trigger] questions[i]).correct_answer < 4,
    ensures
        ({
            let end = game_after(initial_game(), questions, right_keys(questions));
            &&& end.won && end.over
            &&& end.payout == questions.last().money
            &&& end.helps == initial_game().helps
            &&& end.jokers == initial_game().jokers
        }),
{
    assert(right_keys(questions).skip(0) =~= right_keys(questions));
    lemma_right_answers_from(initial_game(), questions);
}

/// Leaving ends the game at once. When `Q` is given as an answer, first or
/// second, the game is over and not won, the prize of the question in play is
/// what the player is told, and no later question is reached.
pub proof fn lemma_leaving_ends_the_game(game: GameView, questions: Seq<Question>)
    requires
        !game.finished(questions.len()),
        game.phase == Phase::AwaitingAnswer || game.phase == Phase::AwaitingRetry,
    ensures
        ({
            let end = played(game, questions, seq!['Q']);
            &&& end.over && end.won == game.won
            &&& end.phase == Phase::Resolved(Response::Quit)
            &&& end.payout == questions[game.position as int].money
            &&& end.position == game.position
            &&& end.winnings == game.winnings
        }),
{
}

/// A wrong answer that no second chance covers ends the game at once. When a
/// wrong option is given as the second answer, or as the first with no second
/// chance left, the game is over and not won, the prize of the question in
/// play is what the player is told, and no later question is reached.
pub proof fn lemma_wrong_answer_ends_the_game(
    game: GameView,
    questions: Seq<Question>,
    place: u8,
)
    requires
        !game.finished(questions.len()),
        game.phase == Phase::AwaitingRetry || (game.phase == Phase::AwaitingAnswer && game.helps
            == 0),
        place < 4,
        place != questions[game.position as int].correct_answer,
    ensures
        ({
            let end = played(game, questions, key_of_option(place));
            &&& end.over && end.won == game.won
            &&& end.phase == Phase::Resolved(Response::Incorrect)
            &&& end.payout == questions[game.position as int].money
            &&& end.position == game.position
            &&& end.winnings == game.winnings
            &&& end.helps == game.helps
        }),
{
}

impl Game {
    /// A game before the first line.
    pub fn new() -> (game: Game)
        ensures
            game@ == initial_game(),
            game@.wf(),
    {
        let mut jokers: Vec<Joker> = Vec::new();
        jokers.push(Joker::J50_50);
        jokers.push(Joker::Audience);
        jokers.push(Joker::Call);
        assert(jokers@ =~= seq![Joker::J50_50, Joker::Audience, Joker::Call]);
        Game {
            helps: INITIAL_HELPS,
            jokers,
            position: 0,
            phase: Phase::AwaitingAnswer,
            winnings: 0,
            payout: 0,
            won: false,
            over: false,
        }
    }

    /// Whether the game takes no more lines on these questions.
    pub fn is_over(&self, questions: &[Question]) -> (finished: bool)
        ensures
            finished == self@.finished(questions@.len()),
    {
        self.over || self.position >= questions.len()
    }

    /// The question being played; `None` once the game takes no more lines.
    pub fn current_question<'a>(&self, questions: &'a [Question]) -> (current: Option<
        &'a Question,
    >)
        ensures
            self@.finished(questions@.len()) ==> current is None,
            !self@.finished(questions@.len()) ==> current == Some(
                &questions@[self@.position as int],
            ),
    {
        if self.is_over(questions) {
            None
        } else {
            Some(&questions[self.position])
        }
    }

    /// Records how the question being played has ended.
    pub fn settle(&mut self, questions: &[Question], response: Response)
        ensures
            final(self)@ == settled(old(self)@, questions@, response),
    {
        if self.over || self.position >= questions.len() {
            return ;
        }
        let prize = questions[self.position].money;
        let last = self.position + 1 == questions.len();
        self.payout = prize;
        match response {
            Response::Correct => {
                self.position = self.position + 1;
                self.winnings = prize;
                self.won = last;
                self.over = last;
                self.phase = if last {
                    Phase::Resolved(Response::Correct)
                } else {
                    Phase::AwaitingAnswer
                };
            },
            _ => {
                self.over = true;
                self.phase = Phase::Resolved(response);
            },
        }
    }

    /// Plays one line of input, taken as it was read.
    ///
    /// `None` means that the game is finished and the line was not looked at.
    /// Otherwise the line is played on the question at the game's position and
    /// the result is what to tell the player.
    pub fn play(&mut self, questions: &[Question], line: &str) -> (reply: Option<Reply>)
        ensures
            final(self)@ == played(old(self)@, questions@, normalized(line@)),
            old(self)@.finished(questions@.len()) ==> reply is None,
            !old(self)@.finished(questions@.len()) ==> (reply matches Some(told) && exists|draw: u8|
                draw < 3 && told@ == reply_of(
                    questions@[old(self)@.position as int],
                    old(self)@.round(),
                    normalized(line@),
                    draw,
                )),
            old(self)@.wf() ==> final(self)@.wf(),
    {
        proof {
            if self@.wf() {
                lemma_line_keeps_game_sound(self@, questions@, normalized(line@));
            }
        }
        if self.is_over(questions) {
            return None;
        }
        let (phase, reply) = ask_question(
            &questions[self.position],
            &mut self.helps,
            &mut self.jokers,
            self.phase,
            line,
        );
        self.phase = phase;
        if let Phase::Resolved(response) = phase {
            self.settle(questions, response);
        }
        Some(reply)
    }
}

} // verus!
