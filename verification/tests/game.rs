use millionaire::{Effect, Game, Joker, Phase, Question, Reply, Response};

fn make(text: &str, answers: [&str; 4], correct_answer: u8, money: u32) -> Question {
    Question {
        question: String::from(text),
        answers: [
            String::from(answers[0]),
            String::from(answers[1]),
            String::from(answers[2]),
            String::from(answers[3]),
        ],
        correct_answer,
        audience: format!("the audience on {}", money),
        phone: format!("the friend on {}", money),
        money,
    }
}

fn bank() -> Vec<Question> {
    vec![
        make("What is the biggest currency in Europe?", ["Afro", "Asio", "Australio", "Euro"], 3, 100),
        make("Which of these kills its victims by constriction?", ["Andalucia", "Anaconda", "Andypandy", "Annerobinson"], 1, 200),
        make("In the UK, VAT stands for value-added ...?", ["Transaction", "Total", "Tax", "Trauma"], 2, 300),
        make("What might an electrician lay?", ["Tables", "Gables", "Cables", "Stables"], 2, 500),
        make("How is a play on words commonly described?", ["Pan", "Pin", "Pen", "Pun"], 3, 1000),
        make("Which color describes an illegal market for rare goods?", ["Black", "Blue", "Red", "White"], 0, 2000),
        make("Which character was first played by Arnold Schwarzenegger in a 1984 film?", ["The Demonstrator", "The Instigator", "The Investigator", "The Terminator"], 3, 4000),
        make("In which country would you expect to be greeted with the word 'bonjour'?", ["France", "Italy", "Spain", "Wales"], 0, 8000),
        make("Who traditionally attends the groom on his wedding day?", ["Best man", "Top man", "Old man", "Poor man"], 0, 16000),
        make("People in a similar unfavourable situation are said to be 'all in the same ...'?", ["Train", "Plane", "Boat", "Tube"], 2, 32000),
        make("According to the old adage, how many lives does a cat have?", ["Five", "Seven", "Nine", "Ten"], 2, 64000),
        make("How many countries use the Euro as their currency?", ["12", "16", "19", "28"], 2, 125000),
        make("How many different time zones exist within Russia?", ["8", "7", "6", "5"], 0, 250000),
        make("California has almost the same population as...", ["The United Kingdom", "Spain", "Italy", "Poland"], 3, 500000),
        make("How many Game Boys were sold world wide?", ["over 50 Million", "over 100 Million", "over 500 Million", "over one Billion"], 1, 1000000),
    ]
}

fn right_line(question: &Question) -> String {
    format!("{}\n", question.correct_answer + 1)
}

fn wrong_line(question: &Question) -> String {
    format!("{}\n", (question.correct_answer + 1) % 4 + 1)
}

#[test]
fn new_game_starts_with_two_second_chances_and_three_jokers() {
    let game = Game::new();
    assert_eq!(game.helps, 2);
    assert_eq!(game.jokers, vec![Joker::J50_50, Joker::Audience, Joker::Call]);
    assert_eq!(game.position, 0);
    assert_eq!(game.phase, Phase::AwaitingAnswer);
    assert_eq!(game.winnings, 0);
    assert_eq!(game.payout, 0);
    assert!(!game.won);
    assert!(!game.over);
    assert!(!game.is_over(&bank()));
}

#[test]
fn all_fifteen_right_wins_the_million() {
    let questions = bank();
    let mut game = Game::new();
    for (place, question) in questions.iter().enumerate() {
        assert!(!game.is_over(&questions));
        assert_eq!(game.position, place);
        let reply = game.play(&questions, &right_line(question));
        assert_eq!(reply, Some(Reply::Resolved(Response::Correct)));
        assert_eq!(game.winnings, question.money);
        assert_eq!(game.payout, question.money);
        assert_eq!(game.won, place == 14);
    }
    assert!(game.won);
    assert!(game.over);
    assert!(game.is_over(&questions));
    assert_eq!(game.payout, 1_000_000);
    assert_eq!(game.winnings, 1_000_000);
    assert_eq!(game.position, 15);
    assert_eq!(game.helps, 2);
    assert_eq!(game.jokers, vec![Joker::J50_50, Joker::Audience, Joker::Call]);
}

#[test]
fn wrong_on_question_three_with_failed_retry_pays_300() {
    let questions = bank();
    let mut game = Game::new();
    game.play(&questions, &right_line(&questions[0]));
    game.play(&questions, &right_line(&questions[1]));
    assert_eq!(game.helps, 2);
    let reply = game.play(&questions, &wrong_line(&questions[2]));
    assert_eq!(reply, Some(Reply::SecondChance));
    assert_eq!(game.helps, 1);
    assert!(!game.over);
    let reply = game.play(&questions, &wrong_line(&questions[2]));
    assert_eq!(reply, Some(Reply::Resolved(Response::Incorrect)));
    assert!(game.over);
    assert!(!game.won);
    assert_eq!(game.payout, 300);
    assert_eq!(game.winnings, 200);
    assert_eq!(game.position, 2);
    assert_eq!(game.helps, 1);
    assert_eq!(game.play(&questions, &right_line(&questions[2])), None);
    assert_eq!(game.play(&questions, &right_line(&questions[3])), None);
    assert_eq!(game.position, 2);
    assert_eq!(game.payout, 300);
}

#[test]
fn wrong_on_question_three_with_declined_retry_pays_300() {
    let questions = bank();
    let mut game = Game::new();
    game.play(&questions, &right_line(&questions[0]));
    game.play(&questions, &right_line(&questions[1]));
    assert_eq!(game.play(&questions, &wrong_line(&questions[2])), Some(Reply::SecondChance));
    let reply = game.play(&questions, "q\n");
    assert_eq!(reply, Some(Reply::Resolved(Response::Quit)));
    assert!(game.over);
    assert!(!game.won);
    assert_eq!(game.payout, 300);
    assert_eq!(game.position, 2);
}

#[test]
fn quit_on_question_one_stops_at_once_with_100() {
    let questions = bank();
    let mut game = Game::new();
    let reply = game.play(&questions, "Q\n");
    assert_eq!(reply, Some(Reply::Resolved(Response::Quit)));
    assert!(game.over);
    assert!(!game.won);
    assert_eq!(game.payout, 100);
    assert_eq!(game.winnings, 0);
    assert_eq!(game.position, 0);
    assert_eq!(game.phase, Phase::Resolved(Response::Quit));
    assert_eq!(game.play(&questions, "4\n"), None);
    assert!(!game.won);
}

#[test]
fn fourth_joker_request_is_rejected() {
    let questions = bank();
    let mut game = Game::new();
    let mut used = Vec::new();
    for place in 0..3 {
        assert_eq!(game.play(&questions, "j\n"), Some(Reply::JokerMenu));
        match game.play(&questions, "1\n") {
            Some(Reply::JokerApplied(joker, _)) => used.push(joker),
            other => panic!("unexpected reply {:?}", other),
        }
        assert_eq!(game.jokers.len(), 2 - place);
        let reply = game.play(&questions, &right_line(&questions[place]));
        assert_eq!(reply, Some(Reply::Resolved(Response::Correct)));
    }
    assert_eq!(used, vec![Joker::J50_50, Joker::Audience, Joker::Call]);
    assert!(game.jokers.is_empty());
    assert_eq!(game.position, 3);
    for line in ["J\n", "j\n", " J \n"] {
        assert_eq!(game.play(&questions, line), Some(Reply::Rejected));
        assert_eq!(game.phase, Phase::AwaitingAnswer);
    }
    let reply = game.play(&questions, &right_line(&questions[3]));
    assert_eq!(reply, Some(Reply::Resolved(Response::Correct)));
    assert_eq!(game.payout, 500);
}

#[test]
fn second_chances_are_shared_over_the_game() {
    let questions = bank();
    let mut game = Game::new();
    for place in 0..2 {
        assert_eq!(game.play(&questions, &wrong_line(&questions[place])), Some(Reply::SecondChance));
        let reply = game.play(&questions, &right_line(&questions[place]));
        assert_eq!(reply, Some(Reply::Resolved(Response::Correct)));
    }
    assert_eq!(game.helps, 0);
    assert_eq!(game.position, 2);
    let reply = game.play(&questions, &wrong_line(&questions[2]));
    assert_eq!(reply, Some(Reply::Resolved(Response::Incorrect)));
    assert!(game.over);
    assert_eq!(game.payout, 300);
    assert_eq!(game.helps, 0);
}

#[test]
fn jokers_show_the_texts_of_the_question_in_play() {
    let questions = bank();
    let mut game = Game::new();
    game.play(&questions, &right_line(&questions[0]));
    game.play(&questions, "J");
    assert_eq!(
        game.play(&questions, "3"),
        Some(Reply::JokerApplied(Joker::Call, Effect::Call(String::from("the friend on 200"))))
    );
    game.play(&questions, "J");
    assert_eq!(
        game.play(&questions, "2"),
        Some(Reply::JokerApplied(
            Joker::Audience,
            Effect::Audience(String::from("the audience on 200"))
        ))
    );
    assert_eq!(game.jokers, vec![Joker::J50_50]);
}

#[test]
fn no_joker_is_played_twice_in_a_game() {
    let questions = bank();
    let script = [
        "j", "2", "j", "2", "4", "j", "3", "1", "2", "J", "1", "j", "1", "3",
    ];
    let mut game = Game::new();
    let mut played = Vec::new();
    for line in script {
        if let Some(Reply::JokerApplied(joker, _)) = game.play(&questions, line) {
            assert!(!played.contains(&joker));
            assert!(!game.jokers.contains(&joker));
            played.push(joker);
        }
    }
    assert_eq!(played, vec![Joker::Audience, Joker::Call, Joker::J50_50]);
    assert!(game.jokers.is_empty());
}

#[test]
fn settle_records_each_outcome() {
    let questions = bank();
    let mut game = Game::new();
    game.settle(&questions, Response::Correct);
    assert_eq!((game.position, game.winnings, game.payout, game.over), (1, 100, 100, false));
    assert_eq!(game.phase, Phase::AwaitingAnswer);
    let mut lost = game.clone();
    lost.settle(&questions, Response::Incorrect);
    assert_eq!((lost.position, lost.winnings, lost.payout, lost.over), (1, 100, 200, true));
    assert_eq!(lost.phase, Phase::Resolved(Response::Incorrect));
    assert!(!lost.won);
    let mut left = game.clone();
    left.settle(&questions, Response::Quit);
    assert_eq!((left.position, left.winnings, left.payout, left.over), (1, 100, 200, true));
    assert_eq!(left.phase, Phase::Resolved(Response::Quit));
    let before = left.clone();
    left.settle(&questions, Response::Correct);
    assert_eq!(left, before);
}

#[test]
fn last_question_decides_the_win() {
    let questions = vec![
        make("first", ["a", "b", "c", "d"], 0, 1_000_000),
        make("second", ["a", "b", "c", "d"], 1, 50),
    ];
    let mut game = Game::new();
    assert_eq!(game.play(&questions, "1"), Some(Reply::Resolved(Response::Correct)));
    assert!(!game.won);
    assert!(!game.over);
    assert_eq!(game.play(&questions, "2"), Some(Reply::Resolved(Response::Correct)));
    assert!(game.won);
    assert!(game.over);
    assert_eq!(game.payout, 50);
}

#[test]
fn game_without_questions_takes_no_line() {
    let questions: Vec<Question> = Vec::new();
    let mut game = Game::new();
    assert!(game.is_over(&questions));
    assert_eq!(game.play(&questions, "1"), None);
    assert_eq!(game, Game::new());
    game.settle(&questions, Response::Correct);
    assert_eq!(game, Game::new());
}

#[test]
fn rejected_lines_change_nothing() {
    let questions = bank();
    let mut game = Game::new();
    for line in ["", "5", "hello", "0", "\n"] {
        assert_eq!(game.play(&questions, line), Some(Reply::Rejected));
        assert_eq!(game, Game::new());
    }
}

#[test]
fn current_question_follows_the_position() {
    let questions = bank();
    let mut game = Game::new();
    assert_eq!(game.current_question(&questions), Some(&questions[0]));
    game.play(&questions, "4");
    assert_eq!(game.current_question(&questions), Some(&questions[1]));
    game.play(&questions, "q");
    assert_eq!(game.current_question(&questions), None);
    assert_eq!(Game::new().current_question(&[]), None);
}
