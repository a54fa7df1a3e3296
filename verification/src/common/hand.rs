//! A player's hand: an ordered pile of cards whose top is its last card.

use super::card::same_cards;
use super::card::Card;
use vstd::prelude::*;

verus! {

/// The cards a player holds, bottom first. Cards are taken from the top,
/// which is the end of the sequence.
#[derive(Debug)]
pub struct Hand {
    cards: Vec<Card>,
}

/// A hand is seen as the sequence of its cards, bottom first.
impl View for Hand {
    type V = Seq<Card>;

    closed spec fn view(&self) -> Seq<Card> {
        self.cards@
    }
}

/// The written forms of the cards, bottom first, with a comma between
/// neighbours.
pub open spec fn listing(cards: Seq<Card>) -> Seq<char>
    decreases cards.len(),
{
    if cards.len() == 0 {
        Seq::empty()
    } else if cards.len() == 1 {
        cards[0].text()
    } else {
        listing(cards.drop_last()) + ","@ + cards.last().text()
    }
}

impl Hand {
    /// How the hand is written: the listing of its cards in square
    /// brackets.
    pub open spec fn text(self) -> Seq<char> {
        "["@ + listing(self@) + "]"@
    }

    /// Creates an empty hand.
    pub fn new() -> (hand: Hand)
        ensures
            hand@ == Seq::<Card>::empty(),
    {
        Hand { cards: Vec::new() }
    }

    /// Creates a hand that holds the given cards, the last of them on top.
    pub fn from_cards(cards: Vec<Card>) -> (hand: Hand)
        ensures
            hand@ == cards@,
    {
        Hand { cards }
    }

    /// Takes the top card off the hand. An empty hand gives `None` and
    /// stays as it is.
    pub fn pop(&mut self) -> (card: Option<Card>)
        ensures
            old(self)@.len() > 0 ==> card == Some(old(self)@.last()) && final(self)@ == old(
                self,
            )@.drop_last(),
            old(self)@.len() == 0 ==> card == None::<Card> && final(self)@ == old(self)@,
    {
        self.cards.pop()
    }

    /// Whether the hand holds no card.
    pub fn is_empty(&self) -> (empty: bool)
        ensures
            empty == (self@.len() == 0),
    {
        self.cards.is_empty()
    }

    /// The number of cards in the hand.
    pub fn len(&self) -> (count: usize)
        ensures
            count == self@.len(),
    {
        self.cards.len()
    }

    /// Puts the given cards on top of the hand, in their order: the last
    /// of them ends up on top.
    pub fn extend(&mut self, cards: Vec<Card>)
        ensures
            final(self)@ == old(self)@ + cards@,
    {
        let mut cards = cards;
        self.cards.append(&mut cards);
    }

    /// The cards of the hand, bottom first.
    pub fn cards(&self) -> (cards: &Vec<Card>)
        ensures
            cards@ == self@,
    {
        &self.cards
    }

    /// Gives up the hand for its cards, bottom first.
    pub fn into_cards(self) -> (cards: Vec<Card>)
        ensures
            cards@ == self@,
    {
        self.cards
    }

    /// The written form of the hand, such as `[K♠,5♦]`.
    pub fn to_string(&self) -> (text: String)
        ensures
            text@ == self.text(),
    {
        let mut text = String::new();
        text.push_str("[");
        let mut i: usize = 0;
        while i < self.cards.len()
            invariant
                i <= self.cards@.len(),
                text@ == "["@ + listing(self.cards@.take(i as int)),
            decreases self.cards@.len() - i,
        {
            assert(self.cards@.take(i + 1).drop_last() == self.cards@.take(i as int));
            if i > 0 {
                text.push_str(",");
            }
            let card = self.cards[i].to_string();
            text.push_str(card.as_str());
            i += 1;
        }
        assert(self.cards@.take(i as int) == self.cards@);
        text.push_str("]");
        text
    }
}

impl Default for Hand {
    /// The empty hand.
    fn default() -> (hand: Hand)
        ensures
            hand@ == Seq::<Card>::empty(),
    {
        Hand::new()
    }
}

/// A copy of a hand holds the same cards in the same order.
impl Clone for Hand {
    fn clone(&self) -> (hand: Hand)
        ensures
            hand@ == self@,
    {
        Hand { cards: self.cards.clone() }
    }
}

/// Two hands are equal when they hold the same cards in the same order.
impl PartialEq for Hand {
    fn eq(&self, other: &Hand) -> (equal: bool) {
        same_cards(&self.cards, &other.cards)
    }
}

impl Eq for Hand {

}

impl vstd::std_specs::cmp::PartialEqSpecImpl for Hand {
    open spec fn obeys_eq_spec() -> bool {
        true
    }

    open spec fn eq_spec(&self, other: &Hand) -> bool {
        self@ == other@
    }
}

} // verus!
