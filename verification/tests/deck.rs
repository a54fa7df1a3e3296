use naipe::common::card::Card;
use naipe::common::card::Rank;
use naipe::common::card::Suit;
use naipe::common::deck::Deck;
use naipe::common::deck::DeckDealError;
use naipe::common::hand::Hand;
use rand::rngs::StdRng;
use rand::SeedableRng;

/// Six different cards, `c0` to `c5`.
fn six_cards() -> Vec<Card> {
    vec![
        Card::new(Suit::Spade, Rank::Ace),
        Card::new(Suit::Club, Rank::Two),
        Card::new(Suit::Heart, Rank::Three),
        Card::new(Suit::Diamond, Rank::Four),
        Card::new(Suit::Spade, Rank::Five),
        Card::new(Suit::Club, Rank::Six),
    ]
}

fn deck_of(cards: &[Card]) -> Deck {
    let mut deck = Deck::new_empty();
    deck.extend(cards.to_vec());
    deck
}

/// All the cards of the deck, bottom first. The deck is used up.
fn cards_of(deck: &Deck) -> Vec<Card> {
    let mut copy = deck.clone();
    if copy.is_empty() {
        return Vec::new();
    }
    let mut from_top = copy.deal_all_cards(1).unwrap().pop().unwrap();
    from_top.reverse();
    from_top
}

fn sorted(cards: &[Card]) -> Vec<Card> {
    let mut cards = cards.to_vec();
    cards.sort();
    cards
}

#[test]
fn new_deck_holds_the_sets_one_after_another() {
    let deck = Deck::new(2);
    assert_eq!(deck.len(), 104);
    let cards = cards_of(&deck);
    let set = Card::all_cards();
    assert_eq!(&cards[..52], &set[..]);
    assert_eq!(&cards[52..], &set[..]);
}

#[test]
fn default_deck_is_one_set_in_order() {
    let deck = Deck::default();
    assert_eq!(deck.len(), 52);
    assert!(!deck.is_empty());
    assert_eq!(cards_of(&deck), Card::all_cards());
    assert_eq!(deck, Deck::new(1));
}

#[test]
fn empty_deck_has_no_cards() {
    let deck = Deck::new_empty();
    assert_eq!(deck.len(), 0);
    assert!(deck.is_empty());
}

#[test]
fn add_puts_a_card_on_top() {
    let cards = six_cards();
    let mut deck = Deck::new_empty();
    deck.add(cards[0]);
    deck.add(cards[1]);
    assert_eq!(deck.len(), 2);
    assert!(!deck.is_empty());
    let dealt = deck.deal_cards(1, 1).unwrap();
    assert_eq!(dealt, vec![vec![cards[1]]]);
    assert_eq!(cards_of(&deck), vec![cards[0]]);
}

#[test]
fn extend_puts_cards_on_top_of_the_deck_in_their_order() {
    let cards = six_cards();
    let mut deck = deck_of(&cards[..2]);
    deck.extend(cards[2..].to_vec());
    assert_eq!(cards_of(&deck), cards);
}

#[test]
fn empty_throws_the_cards_away() {
    let mut deck = Deck::default();
    deck.empty();
    assert!(deck.is_empty());
    assert_eq!(deck.len(), 0);
    assert_eq!(deck, Deck::new_empty());
}

#[test]
fn decks_are_equal_when_they_hold_the_same_cards_in_order() {
    let cards = six_cards();
    assert_eq!(deck_of(&cards), deck_of(&cards));
    assert_ne!(deck_of(&cards), deck_of(&cards[..5]));
    let mut swapped = cards.clone();
    swapped.swap(0, 1);
    assert_ne!(deck_of(&cards), deck_of(&swapped));
    assert_eq!(deck_of(&cards).clone(), deck_of(&cards));
}

#[test]
fn dealing_goes_round_the_hands_from_the_top() {
    let c = six_cards();
    let mut deck = deck_of(&c);
    let hands = deck.deal_cards(2, 3).unwrap();
    assert_eq!(hands.len(), 2);
    assert_eq!(hands[0], vec![c[5], c[3], c[1]]);
    assert_eq!(hands[1], vec![c[4], c[2], c[0]]);
    assert!(deck.is_empty());
}

#[test]
fn dealing_leaves_the_rest_at_the_bottom() {
    let c = six_cards();
    let mut deck = deck_of(&c);
    let hands = deck.deal_cards(3, 1).unwrap();
    assert_eq!(hands, vec![vec![c[5]], vec![c[4]], vec![c[3]]]);
    assert_eq!(cards_of(&deck), vec![c[0], c[1], c[2]]);
}

#[test]
fn dealing_more_than_the_deck_holds_changes_nothing() {
    let c = six_cards();
    let mut deck = deck_of(&c);
    let dealt = deck.deal_cards(2, 4);
    assert_eq!(dealt, Err(DeckDealError::NotEnoughCards));
    assert_eq!(deck.len(), 6);
    assert_eq!(deck, deck_of(&c));
    let dealt = deck.deal_cards(7, 1);
    assert_eq!(dealt, Err(DeckDealError::NotEnoughCards));
    assert_eq!(deck, deck_of(&c));
}

#[test]
fn dealing_exactly_the_deck_succeeds() {
    let c = six_cards();
    let mut deck = deck_of(&c);
    let hands = deck.deal_cards(6, 1).unwrap();
    assert_eq!(hands, vec![vec![c[5]], vec![c[4]], vec![c[3]], vec![c[2]], vec![c[1]], vec![c[0]]]);
    assert!(deck.is_empty());
}

#[test]
fn dealing_from_an_empty_deck_fails() {
    let mut deck = Deck::new_empty();
    assert_eq!(deck.deal_cards(1, 1), Err(DeckDealError::NotEnoughCards));
    assert!(deck.is_empty());
}

#[test]
fn dealing_a_number_too_large_to_count_fails() {
    let c = six_cards();
    let mut deck = deck_of(&c);
    assert_eq!(deck.deal_cards(usize::MAX, 2), Err(DeckDealError::NotEnoughCards));
    assert_eq!(deck.deal_cards(usize::MAX / 2 + 1, 2), Err(DeckDealError::NotEnoughCards));
    assert_eq!(deck, deck_of(&c));
}

#[test]
fn dealing_nothing_takes_nothing() {
    let c = six_cards();
    let mut deck = deck_of(&c);
    assert_eq!(deck.deal_cards(0, 3), Ok(Vec::new()));
    assert_eq!(deck.deal_cards(2, 0), Ok(vec![Vec::new(), Vec::new()]));
    assert_eq!(deck, deck_of(&c));
}

#[test]
fn dealing_to_hands_puts_the_cards_on_top_of_each() {
    let c = six_cards();
    let mut deck = deck_of(&c[..4]);
    let mut hands = vec![Hand::from_cards(vec![c[4]]), Hand::from_cards(vec![c[5]])];
    assert_eq!(deck.deal_cards_to_hands(&mut hands, 2), Ok(()));
    assert_eq!(hands[0], Hand::from_cards(vec![c[4], c[3], c[1]]));
    assert_eq!(hands[1], Hand::from_cards(vec![c[5], c[2], c[0]]));
    assert!(deck.is_empty());
}

#[test]
fn dealing_to_hands_more_than_the_deck_holds_changes_nothing() {
    let c = six_cards();
    let mut deck = deck_of(&c[..3]);
    let mut hands = vec![Hand::from_cards(vec![c[4]]), Hand::new()];
    let dealt = deck.deal_cards_to_hands(&mut hands, 2);
    assert_eq!(dealt, Err(DeckDealError::NotEnoughCards));
    assert_eq!(deck, deck_of(&c[..3]));
    assert_eq!(hands, vec![Hand::from_cards(vec![c[4]]), Hand::new()]);
}

#[test]
fn dealing_all_gives_each_hand_the_same_and_keeps_the_rest() {
    let mut cards = six_cards();
    cards.push(Card::new(Suit::Heart, Rank::King));
    let mut deck = deck_of(&cards);
    let hands = deck.deal_all_cards(3).unwrap();
    assert_eq!(hands.len(), 3);
    assert_eq!(hands[0], vec![cards[6], cards[3]]);
    assert_eq!(hands[1], vec![cards[5], cards[2]]);
    assert_eq!(hands[2], vec![cards[4], cards[1]]);
    assert_eq!(cards_of(&deck), vec![cards[0]]);
}

#[test]
fn dealing_all_to_one_hand_hands_over_the_deck_from_the_top() {
    let c = six_cards();
    let mut deck = deck_of(&c);
    let hands = deck.deal_all_cards(1).unwrap();
    assert_eq!(hands, vec![vec![c[5], c[4], c[3], c[2], c[1], c[0]]]);
    assert!(deck.is_empty());
}

#[test]
fn dealing_all_to_more_hands_than_cards_changes_nothing() {
    let c = six_cards();
    let mut deck = deck_of(&c[..2]);
    assert_eq!(deck.deal_all_cards(3), Err(DeckDealError::NotEnoughCards));
    assert_eq!(deck, deck_of(&c[..2]));
    let mut none = Deck::new_empty();
    assert_eq!(none.deal_all_cards(1), Err(DeckDealError::NotEnoughCards));
}

#[test]
fn dealing_all_to_hands_splits_a_full_set_in_two() {
    let mut deck = Deck::default();
    let mut hands = vec![Hand::new(), Hand::new()];
    assert_eq!(deck.deal_all_cards_to_hands(&mut hands), Ok(()));
    assert!(deck.is_empty());
    assert_eq!(hands[0].len(), 26);
    assert_eq!(hands[1].len(), 26);
    let set = Card::all_cards();
    for round in 0..26 {
        assert_eq!(hands[0].cards()[round], set[51 - 2 * round]);
        assert_eq!(hands[1].cards()[round], set[50 - 2 * round]);
    }
}

#[test]
fn dealing_all_to_hands_with_too_few_cards_changes_nothing() {
    let c = six_cards();
    let mut deck = deck_of(&c[..1]);
    let mut hands = vec![Hand::from_cards(vec![c[4]]), Hand::new()];
    let dealt = deck.deal_all_cards_to_hands(&mut hands);
    assert_eq!(dealt, Err(DeckDealError::NotEnoughCards));
    assert_eq!(deck, deck_of(&c[..1]));
    assert_eq!(hands, vec![Hand::from_cards(vec![c[4]]), Hand::new()]);
}

#[test]
fn shuffling_with_a_seed_reorders_the_same_cards() {
    let mut deck = Deck::default();
    let mut rng = StdRng::seed_from_u64(7);
    deck.shuffle(&mut rng);
    assert_eq!(deck.len(), 52);
    assert_ne!(deck, Deck::default());
    assert_eq!(sorted(&cards_of(&deck)), sorted(&Card::all_cards()));
}

#[test]
fn shuffling_with_the_same_seed_gives_the_same_order() {
    let mut one = Deck::default();
    let mut other = Deck::default();
    one.shuffle(&mut StdRng::seed_from_u64(2024));
    other.shuffle(&mut StdRng::seed_from_u64(2024));
    assert_eq!(one, other);
}

#[test]
fn shuffling_with_the_default_generator_keeps_the_cards() {
    let mut deck = Deck::new(2);
    deck.shuffle_with_default_rng();
    assert_eq!(deck.len(), 104);
    assert_ne!(deck, Deck::new(2));
    assert_eq!(sorted(&cards_of(&deck)), sorted(&cards_of(&Deck::new(2))));
}

#[test]
fn shuffling_an_empty_deck_leaves_it_empty() {
    let mut deck = Deck::new_empty();
    deck.shuffle_with_default_rng();
    assert!(deck.is_empty());
}

#[test]
fn deal_error_has_its_message() {
    assert_eq!(
        DeckDealError::NotEnoughCards.to_string(),
        "Not enough cards in deck to deal"
    );
}

#[test]
fn dealing_all_to_no_hands_moves_no_card() {
    let c = six_cards();
    let mut deck = deck_of(&c);
    assert_eq!(deck.deal_all_cards(0), Ok(Vec::new()));
    assert_eq!(deck, deck_of(&c));
    let mut none = Deck::new_empty();
    assert_eq!(none.deal_all_cards(0), Ok(Vec::new()));
    assert!(none.is_empty());
}

#[test]
fn dealing_all_to_no_hands_in_place_moves_no_card() {
    let c = six_cards();
    let mut deck = deck_of(&c);
    let mut hands: Vec<Hand> = Vec::new();
    assert_eq!(deck.deal_all_cards_to_hands(&mut hands), Ok(()));
    assert!(hands.is_empty());
    assert_eq!(deck, deck_of(&c));
    let mut none = Deck::new_empty();
    assert_eq!(none.deal_all_cards_to_hands(&mut hands), Ok(()));
    assert!(none.is_empty());
}
