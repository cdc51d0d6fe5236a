use card_deck::card::{Card, Rank, Suit};
use card_deck::deck::Deck;
use card_deck::error::DeckError;

fn all_suits() -> Vec<Suit> {
    vec![Suit::Club, Suit::Spade, Suit::Heart, Suit::Diamond]
}

fn all_ranks() -> Vec<Rank> {
    vec![
        Rank::Ace,
        Rank::Two,
        Rank::Three,
        Rank::Four,
        Rank::Five,
        Rank::Six,
        Rank::Seven,
        Rank::Eight,
        Rank::Nine,
        Rank::Ten,
        Rank::Jack,
        Rank::Queen,
        Rank::King,
    ]
}

#[test]
fn fresh_deck_has_every_pair_once() {
    let mut deck = Deck::default();
    assert_eq!(deck.size(), 52);
    let mut seen = [0u32; 52];
    for _i in 0..52 {
        let c = deck.draw_unshuffled().unwrap();
        seen[c.index()] += 1;
    }
    for i in 0..52 {
        assert_eq!(seen[i], 1, "card index {} not present exactly once", i);
    }
    for s in all_suits() {
        for r in all_ranks() {
            let c = Card { suit: s, rank: r };
            assert_eq!(seen[c.index()], 1);
        }
    }
}

#[test]
fn shuffled_draws_cover_universe_then_empty() {
    let mut deck = Deck::default();
    let mut seen = [false; 52];
    for _i in 0..52 {
        let c = deck.draw_shuffled().unwrap();
        assert!(!seen[c.index()], "card index {} drawn twice", c.index());
        seen[c.index()] = true;
    }
    assert!(seen.iter().all(|&b| b));
    assert_eq!(deck.draw_shuffled(), Err(DeckError::EmptyDeck));
}

#[test]
fn unshuffled_draws_deterministic_then_empty() {
    let mut a = Deck::default();
    let mut b = Deck::default();
    for i in 0..52 {
        let ca = a.draw_unshuffled().unwrap();
        let cb = b.draw_unshuffled().unwrap();
        assert_eq!(ca, cb);
        assert_eq!(ca.index(), 51 - i, "fixed suit-major order, drawn from the back");
    }
    assert_eq!(a.draw_unshuffled(), Err(DeckError::EmptyDeck));
    assert_eq!(b.draw_unshuffled(), Err(DeckError::EmptyDeck));
}

#[test]
fn round_trip_draw_return_restores_deck() {
    let mut deck = Deck::default();
    let mut drawn: Vec<Card> = Vec::new();
    for _i in 0..20 {
        drawn.push(deck.draw_shuffled().unwrap());
    }
    assert_eq!(deck.size(), 32);
    // Return them in the reverse of the drawing order: any order is allowed.
    while let Some(c) = drawn.pop() {
        assert_eq!(deck.return_card(c), Ok(()));
    }
    assert_eq!(deck.size(), 52);
    for i in 0..52 {
        assert!(!deck.is_in_play(i));
    }
    // The restored deck again yields 52 distinct cards covering the universe.
    let mut seen = [false; 52];
    for _i in 0..52 {
        let c = deck.draw_unshuffled().unwrap();
        assert!(!seen[c.index()]);
        seen[c.index()] = true;
    }
    assert!(seen.iter().all(|&b| b));
}

#[test]
fn reset_restores_full_deck_without_returns() {
    let mut deck = Deck::default();
    for _i in 0..30 {
        deck.draw_shuffled().unwrap();
    }
    for _i in 0..10 {
        deck.draw_unshuffled().unwrap();
    }
    assert_eq!(deck.size(), 12);
    deck.reset();
    assert_eq!(deck.size(), 52);
    for i in 0..52 {
        assert!(!deck.is_in_play(i));
    }
    let mut seen = [false; 52];
    for _i in 0..52 {
        let c = deck.draw_unshuffled().unwrap();
        assert!(!seen[c.index()]);
        seen[c.index()] = true;
    }
    assert!(seen.iter().all(|&b| b));
}

#[test]
fn double_return_is_rejected() {
    let mut deck = Deck::default();
    let c = deck.draw_shuffled().unwrap();
    assert_eq!(deck.return_card(c), Ok(()));
    assert_eq!(deck.return_card(c), Err(DeckError::InvalidState));
    assert_eq!(deck.size(), 52);
}

#[test]
fn returning_an_undrawn_card_is_rejected() {
    let mut deck = Deck::default();
    let c = Card { suit: Suit::Heart, rank: Rank::Five };
    assert_eq!(deck.return_card(c), Err(DeckError::InvalidState));
    assert_eq!(deck.size(), 52);
}

#[test]
fn suit_char_and_index_round_trips() {
    for s in all_suits() {
        assert_eq!(Suit::from_char(s.to_char()), Ok(s));
        assert_eq!(Suit::from_char(s.to_char().to_ascii_lowercase()), Ok(s));
        assert_eq!(Suit::from_index(s.index()), Ok(s));
    }
}

#[test]
fn rank_char_and_index_round_trips() {
    for r in all_ranks() {
        assert_eq!(Rank::from_char(r.to_char()), Ok(r));
        assert_eq!(Rank::from_char(r.to_char().to_ascii_lowercase()), Ok(r));
        assert_eq!(Rank::from_index(r.index()), Ok(r));
    }
}

#[test]
fn parse_rejects_out_of_domain_input() {
    assert_eq!(Suit::from_char('Z'), Err(DeckError::InvalidInput));
    assert_eq!(Suit::from_char('a'), Err(DeckError::InvalidInput));
    assert_eq!(Suit::from_char('1'), Err(DeckError::InvalidInput));
    assert_eq!(Suit::from_index(4), Err(DeckError::InvalidInput));
    assert_eq!(Suit::from_index(52), Err(DeckError::InvalidInput));
    assert_eq!(Rank::from_char('Z'), Err(DeckError::InvalidInput));
    assert_eq!(Rank::from_char('1'), Err(DeckError::InvalidInput));
    assert_eq!(Rank::from_char('0'), Err(DeckError::InvalidInput));
    assert_eq!(Rank::from_index(13), Err(DeckError::InvalidInput));
    assert_eq!(Rank::from_index(52), Err(DeckError::InvalidInput));
}

#[test]
fn card_index_formula() {
    let c = Card { suit: Suit::Heart, rank: Rank::Five };
    assert_eq!(c.index(), 2 * 13 + 4);
    assert_eq!(Card { suit: Suit::Club, rank: Rank::Ace }.index(), 0);
    assert_eq!(Card { suit: Suit::Diamond, rank: Rank::King }.index(), 51);
    assert_eq!(Card::default(), Card { suit: Suit::Spade, rank: Rank::Ace });
}

#[test]
fn suit_and_rank_display_characters() {
    assert_eq!(Suit::Club.to_char(), 'C');
    assert_eq!(Suit::Spade.to_char(), 'S');
    assert_eq!(Suit::Heart.to_char(), 'H');
    assert_eq!(Suit::Diamond.to_char(), 'D');
    assert_eq!(Rank::Ace.to_char(), 'A');
    assert_eq!(Rank::Ten.to_char(), 'T');
    assert_eq!(Rank::Two.to_char(), '2');
    assert_eq!(Rank::King.to_char(), 'K');
}
