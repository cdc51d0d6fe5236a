use card_deck::deck::Deck;
use card_deck::card::Card;

#[test]
fn shuffle_draw() {
    let mut deck = Deck::default();
    println!("Shuffle Draw: {}", deck.size());
    for _i in 0..52 {
        match deck.draw_shuffled() {
            Ok(_c) => {}
            Err(_) => {
                panic!("Error");
            }
        };
    }

    for i in 0..52 {
        if !deck.is_in_play(i) {
            panic!("Index: {} wasn't drawn", i);
        }
    }
}

#[test]
fn unshuffled_draw() {
    let mut deck = Deck::default();

    for _i in 0..52 {
        match deck.draw_unshuffled() {
            Ok(_c) => {}
            Err(_) => {
                panic!("Couldn't Draw Card");
            }
        };
    }

    for i in 0..52 {
        if !deck.is_in_play(i) {
            panic!("Index: {} wasn't drawn", i);
        }
    }
}

#[test]
fn card_return_unshuffled_test() {
    let mut deck = Deck::default();
    let mut cards: Vec<Card> = Vec::new();

    for _i in 0..51 {
        match deck.draw_unshuffled() {
            Ok(c) => {
                cards.push(c);
            }
            Err(_) => {
                panic!("Couldn't Draw Card");
            }
        }
    }

    for i in cards {
        deck.return_card(i).unwrap();
    }

    assert!(deck.size() == 52);
}

#[test]
#[should_panic]
fn overdraw_shuffled() {
    let mut deck = Deck::default();

    for _i in 0..53 {
        match deck.draw_shuffled() {
            Ok(_c) => {}
            Err(_) => {
                panic!("");
            }
        }
    }
}

#[test]
#[should_panic]
fn overdraw_unshuffled() {
    let mut deck = Deck::default();

    for _i in 0..53 {
        match deck.draw_unshuffled() {
            Ok(_c) => {}
            Err(_) => {
                panic!("");
            }
        }
    }
}
