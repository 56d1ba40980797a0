use millionaire::{present_question, show_available_jokers, Joker, Question};

fn question(money: u32) -> Question {
    Question {
        question: String::from("What is the biggest currency in Europe?"),
        answers: [
            String::from("Afro"),
            String::from("Asio"),
            String::from("Australio"),
            String::from("Euro"),
        ],
        correct_answer: 3,
        audience: String::from("1: 0%, 2: 2%, 3: 0%, 4: 98%"),
        phone: String::from("Haha, are you kidding me? The answer is 4!"),
        money,
    }
}

#[test]
fn question_is_put_with_joker_hint_while_jokers_remain() {
    let text = present_question(&question(100), "Ada", &vec![Joker::Call]);
    assert_eq!(
        text,
        "OK Ada. The $100 question:\nWhat is the biggest currency in Europe?\n1) Afro\n2) Asio\n3) Australio\n4) Euro\nJ) Joker\nQ) Quit"
    );
}

#[test]
fn question_is_put_without_joker_hint_when_none_remain() {
    let text = present_question(&question(100), "Ada", &Vec::new());
    assert_eq!(
        text,
        "OK Ada. The $100 question:\nWhat is the biggest currency in Europe?\n1) Afro\n2) Asio\n3) Australio\n4) Euro\nQ) Quit"
    );
}

#[test]
fn prize_is_written_in_decimal() {
    for money in [0u32, 7, 10, 99, 100, 1000, 125000, 1000000, 4294967295] {
        let text = present_question(&question(money), "", &Vec::new());
        assert!(text.starts_with(&format!("OK . The ${} question:\n", money)));
    }
}

#[test]
fn joker_menu_numbers_the_pool_from_one() {
    let pool = vec![Joker::J50_50, Joker::Audience, Joker::Call];
    assert_eq!(show_available_jokers(&pool), vec!["1) 50/50", "2) Audience", "3) Call"]);
    let pool = vec![Joker::Call, Joker::J50_50];
    assert_eq!(show_available_jokers(&pool), vec!["1) Call", "2) 50/50"]);
    assert!(show_available_jokers(&Vec::new()).is_empty());
}

#[test]
fn joker_menu_numbers_long_pools_in_decimal() {
    let pool = vec![Joker::Call; 12];
    let lines = show_available_jokers(&pool);
    assert_eq!(lines.len(), 12);
    assert_eq!(lines[8], "9) Call");
    assert_eq!(lines[9], "10) Call");
    assert_eq!(lines[11], "12) Call");
}
