use naipe::common::card::Card;
use naipe::common::card::Rank;
use naipe::common::card::Suit;
use naipe::common::hand::Hand;

fn king_of_spades() -> Card {
    Card::new(Suit::Spade, Rank::King)
}

fn five_of_diamonds() -> Card {
    Card::new(Suit::Diamond, Rank::Five)
}

fn ten_of_hearts() -> Card {
    Card::new(Suit::Heart, Rank::Ten)
}

#[test]
fn new_hand_is_empty() {
    let hand = Hand::new();
    assert!(hand.is_empty());
    assert_eq!(hand.len(), 0);
    assert_eq!(hand, Hand::default());
}

#[test]
fn pop_on_an_empty_hand_gives_nothing() {
    let mut hand = Hand::new();
    assert_eq!(hand.pop(), None);
    assert!(hand.is_empty());
}

#[test]
fn pop_takes_the_card_pushed_last() {
    let mut hand = Hand::new();
    hand.extend(vec![king_of_spades(), five_of_diamonds(), ten_of_hearts()]);
    assert_eq!(hand.len(), 3);
    assert!(!hand.is_empty());
    assert_eq!(hand.pop(), Some(ten_of_hearts()));
    assert_eq!(hand.pop(), Some(five_of_diamonds()));
    assert_eq!(hand.len(), 1);
    assert_eq!(hand.pop(), Some(king_of_spades()));
    assert_eq!(hand.pop(), None);
    assert_eq!(hand.len(), 0);
}

#[test]
fn extend_puts_cards_on_top_in_their_order() {
    let mut hand = Hand::from_cards(vec![king_of_spades()]);
    hand.extend(vec![five_of_diamonds(), ten_of_hearts()]);
    assert_eq!(hand.cards(), &vec![king_of_spades(), five_of_diamonds(), ten_of_hearts()]);
    hand.extend(Vec::new());
    assert_eq!(hand.len(), 3);
}

#[test]
fn hand_from_cards_gives_them_back() {
    let cards = vec![five_of_diamonds(), king_of_spades()];
    let hand = Hand::from_cards(cards.clone());
    assert_eq!(hand.len(), 2);
    assert_eq!(hand.cards(), &cards);
    assert_eq!(hand.into_cards(), cards);
}

#[test]
fn hands_are_equal_when_they_hold_the_same_cards_in_order() {
    let one = Hand::from_cards(vec![five_of_diamonds(), king_of_spades()]);
    let same = Hand::from_cards(vec![five_of_diamonds(), king_of_spades()]);
    let swapped = Hand::from_cards(vec![king_of_spades(), five_of_diamonds()]);
    let shorter = Hand::from_cards(vec![five_of_diamonds()]);
    assert_eq!(one, same);
    assert_ne!(one, swapped);
    assert_ne!(one, shorter);
    assert_eq!(one.clone(), one);
}

#[test]
fn hand_is_written_in_brackets_with_commas() {
    let hand = Hand::from_cards(vec![king_of_spades(), five_of_diamonds(), ten_of_hearts()]);
    assert_eq!(hand.to_string(), "[K♠,5♦,10♥]");
    assert_eq!(Hand::from_cards(vec![king_of_spades()]).to_string(), "[K♠]");
    assert_eq!(Hand::new().to_string(), "[]");
}
