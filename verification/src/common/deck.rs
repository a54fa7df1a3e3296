//! A deck: an ordered pile of cards that is dealt from the top.
//!
//! A deck can hold any whole number of full sets of cards, or whatever
//! cards were added to it.

use super::card::is_reordering;
use super::card::same_cards;
use super::card::Card;
use super::hand::Hand;
use super::random::shuffle_cards_seeded;
use super::random::shuffle_cards_thread;
use super::random::thread_generator;
use vstd::prelude::*;
use vstd::seq_lib::to_multiset_len;

verus! {

/// What can go wrong when dealing from a deck.
#[derive(Copy, Clone, PartialEq, Eq, Structural, Debug)]
pub enum DeckDealError {
    /// The deck holds fewer cards than the deal asks for.
    NotEnoughCards,
}

impl DeckDealError {
    /// The message of the error.
    pub open spec fn text(self) -> Seq<char> {
        "Not enough cards in deck to deal"@
    }

    /// The message of the error, as an owned string.
    pub fn to_string(&self) -> (text: String)
        ensures
            text@ == self.text(),
    {
        "Not enough cards in deck to deal".to_owned()
    }
}

/// So many full sets of cards one after another, each in the order of
/// [`Card::full_set`].
pub open spec fn sets_of_cards(sets: nat) -> Seq<Card> {
    Seq::new(52 * sets, |i: int| Card::full_set()[i % 52])
}

/// The cards that the hand numbered `hand` receives when `cards_per_hand`
/// rounds are dealt from the top of `pile` to `hand_count` hands in turn:
/// in each round one card goes to each hand, hand 0 first, so the card
/// that this hand gets in round `round` lies `round * hand_count + hand`
/// below the top.
pub open spec fn dealt_hand(
    pile: Seq<Card>,
    hand_count: nat,
    cards_per_hand: nat,
    hand: int,
) -> Seq<Card> {
    Seq::new(cards_per_hand, |round: int| pile[pile.len() - 1 - (round * hand_count + hand)])
}

/// The number of cards that each of `hand_count` hands receives when
/// `cards` cards are dealt out alike as far as they go. With no hand to
/// deal to, no card is dealt.
pub open spec fn even_share(cards: nat, hand_count: nat) -> nat {
    if hand_count == 0 {
        0
    } else {
        cards / hand_count
    }
}

/// Whether dealing `cards_per_hand` rounds to `hand_count` hands turns the
/// pile `before` into the pile `after` and the buckets `hands`: the dealt
/// cards have left the top of the pile, and each bucket holds its cards in
/// the order in which they were dealt.
pub open spec fn is_deal(
    before: Seq<Card>,
    after: Seq<Card>,
    hands: Seq<Vec<Card>>,
    hand_count: nat,
    cards_per_hand: nat,
) -> bool {
    &&& hand_count * cards_per_hand <= before.len()
    &&& after == before.take(before.len() - hand_count * cards_per_hand)
    &&& hands.len() == hand_count
    &&& forall|h: int|
        0 <= h < hand_count ==> (#[trigger] hands[h])@ == dealt_hand(
            before,
            hand_count,
            cards_per_hand,
            h,
        )
}

/// Whether dealing `cards_per_hand` rounds from the pile `before` to the
/// hands `hands_before` in turn leaves the pile `after` and the hands
/// `hands_after`: each hand has received its cards on top, in the order in
/// which they were dealt.
pub open spec fn is_deal_to_hands(
    before: Seq<Card>,
    after: Seq<Card>,
    hands_before: Seq<Hand>,
    hands_after: Seq<Hand>,
    cards_per_hand: nat,
) -> bool {
    &&& hands_before.len() * cards_per_hand <= before.len()
    &&& after == before.take(before.len() - hands_before.len() * cards_per_hand)
    &&& hands_after.len() == hands_before.len()
    &&& forall|h: int|
        0 <= h < hands_before.len() ==> (#[trigger] hands_after[h])@ == hands_before[h]@
            + dealt_hand(before, hands_before.len(), cards_per_hand, h)
}

/// A pile of cards, bottom first. The top of the deck is the end of the
/// sequence: cards are added there and dealt from there.
#[derive(Debug)]
pub struct Deck {
    cards: Vec<Card>,
}

/// A deck is seen as the sequence of its cards, bottom first.
impl View for Deck {
    type V = Seq<Card>;

    closed spec fn view(&self) -> Seq<Card> {
        self.cards@
    }
}

/// The card dealt to hand `hand` in round `round` lies among the
/// `hand_count * cards_per_hand` cards of the deal, and a round takes
/// `hand_count` cards.
proof fn lemma_slot_in_deal(hand_count: nat, cards_per_hand: nat, round: int, hand: int)
    requires
        0 <= round < cards_per_hand,
        0 <= hand < hand_count,
    ensures
        0 <= round * hand_count + hand < hand_count * cards_per_hand,
        (round + 1) * hand_count == round * hand_count + hand_count,
{
    assert(round * hand_count + hand_count <= hand_count * cards_per_hand) by (nonlinear_arith)
        requires
            0 <= round < cards_per_hand,
            0 <= hand_count,
    ;
    assert(0 <= round * hand_count) by (nonlinear_arith)
        requires
            0 <= round,
            0 <= hand_count,
    ;
    assert((round + 1) * hand_count == round * hand_count + hand_count) by (nonlinear_arith);
}

impl Deck {
    /// Creates a deck of `sets` full sets of cards, set after set, each in
    /// the order of [`Card::full_set`]. A deck is made of at least one
    /// set.
    pub fn new(sets: u16) -> (deck: Deck)
        requires
            sets > 0,
        ensures
            deck@ == sets_of_cards(sets as nat),
    {
        let mut cards: Vec<Card> = Vec::new();
        let mut done: u16 = 0;
        while done < sets
            invariant
                done <= sets,
                cards@ == sets_of_cards(done as nat),
            decreases sets - done,
        {
            let mut set = Card::all_cards();
            cards.append(&mut set);
            done += 1;
        }
        Deck { cards }
    }

    /// Creates a deck with no cards in it.
    pub fn new_empty() -> (deck: Deck)
        ensures
            deck@ == Seq::<Card>::empty(),
    {
        Deck { cards: Vec::new() }
    }

    /// Shuffles the deck with the given seeded generator: afterwards the
    /// deck holds the cards it held, in an order that the generator
    /// decides.
    pub fn shuffle(&mut self, rng: &mut rand::rngs::StdRng)
        ensures
            is_reordering(final(self)@, old(self)@),
            final(self)@.len() == old(self)@.len(),
    {
        shuffle_cards_seeded(&mut self.cards, rng);
        proof {
            to_multiset_len(self@);
            to_multiset_len(old(self)@);
        }
    }

    /// Shuffles the deck with the generator of the current thread.
    pub fn shuffle_with_default_rng(&mut self)
        ensures
            is_reordering(final(self)@, old(self)@),
            final(self)@.len() == old(self)@.len(),
    {
        let mut rng = thread_generator();
        shuffle_cards_thread(&mut self.cards, &mut rng);
        proof {
            to_multiset_len(self@);
            to_multiset_len(old(self)@);
        }
    }

    /// Puts a card on top of the deck.
    pub fn add(&mut self, card: Card)
        ensures
            final(self)@ == old(self)@.push(card),
    {
        self.cards.push(card);
    }

    /// Puts the given cards on top of the deck, in their order: the last
    /// of them ends up on top.
    pub fn extend(&mut self, cards: Vec<Card>)
        ensures
            final(self)@ == old(self)@ + cards@,
    {
        let mut cards = cards;
        self.cards.append(&mut cards);
    }

    /// The number of cards in the deck.
    pub fn len(&self) -> (count: usize)
        ensures
            count == self@.len(),
    {
        self.cards.len()
    }

    /// Throws all the cards of the deck away.
    pub fn empty(&mut self)
        ensures
            final(self)@ == Seq::<Card>::empty(),
    {
        self.cards = Vec::new();
    }

    /// Whether the deck holds no card.
    pub fn is_empty(&self) -> (empty: bool)
        ensures
            empty == (self@.len() == 0),
    {
        self.cards.is_empty()
    }

    /// Deals `cards_per_hand` cards to each of `hand_count` hands from the
    /// top of the deck, one card to each hand in turn, round after round.
    ///
    /// The deal is all or nothing: if the deck holds fewer than
    /// `hand_count * cards_per_hand` cards, it is left as it was and the
    /// error is [`DeckDealError::NotEnoughCards`].
    pub fn deal_cards(&mut self, hand_count: usize, cards_per_hand: usize) -> (dealt: Result<
        Vec<Vec<Card>>,
        DeckDealError,
    >)
        ensures
            match dealt {
                Ok(hands) => is_deal(
                    old(self)@,
                    final(self)@,
                    hands@,
                    hand_count as nat,
                    cards_per_hand as nat,
                ),
                Err(error) => {
                    &&& error == DeckDealError::NotEnoughCards
                    &&& old(self)@.len() < hand_count * cards_per_hand
                    &&& final(self)@ == old(self)@
                },
            },
    {
        let available = self.cards.len();
        let needed = match hand_count.checked_mul(cards_per_hand) {
            Some(needed) => needed,
            None => {
                return Err(DeckDealError::NotEnoughCards);
            },
        };
        if available < needed {
            return Err(DeckDealError::NotEnoughCards);
        }
        let ghost before = self.cards@;
        let ghost count = hand_count as nat;
        let mut hands: Vec<Vec<Card>> = Vec::new();
        let mut made: usize = 0;
        while made < hand_count
            invariant
                made <= hand_count,
                hands@.len() == made,
                forall|h: int| 0 <= h < made ==> (#[trigger] hands@[h])@ == Seq::<Card>::empty(),
            decreases hand_count - made,
        {
            hands.push(Vec::new());
            made += 1;
        }
        let mut round: usize = 0;
        while round < cards_per_hand
            invariant
                round <= cards_per_hand,
                count == hand_count,
                needed == hand_count * cards_per_hand,
                needed <= before.len(),
                round * count <= needed,
                self.cards@ == before.take(before.len() - round * count),
                hands@.len() == hand_count,
                forall|h: int|
                    0 <= h < hand_count ==> (#[trigger] hands@[h])@ == dealt_hand(
                        before,
                        count,
                        round as nat,
                        h,
                    ),
            decreases cards_per_hand - round,
        {
            let mut hand: usize = 0;
            while hand < hand_count
                invariant
                    round < cards_per_hand,
                    hand <= hand_count,
                    count == hand_count,
                    needed == hand_count * cards_per_hand,
                    needed <= before.len(),
                    round * count + hand <= needed,
                    self.cards@ == before.take(before.len() - (round * count + hand)),
                    hands@.len() == hand_count,
                    forall|h: int|
                        0 <= h < hand ==> (#[trigger] hands@[h])@ == dealt_hand(
                            before,
                            count,
                            (round + 1) as nat,
                            h,
                        ),
                    forall|h: int|
                        hand <= h < hand_count ==> (#[trigger] hands@[h])@ == dealt_hand(
                            before,
                            count,
                            round as nat,
                            h,
                        ),
                decreases hand_count - hand,
            {
                proof {
                    lemma_slot_in_deal(count, cards_per_hand as nat, round as int, hand as int);
                }
                let card = self.cards.pop().unwrap();
                hands[hand].push(card);
                hand += 1;
            }
            proof {
                assert((round + 1) * count == round * count + count) by (nonlinear_arith);
            }
            round += 1;
        }
        proof {
            assert(round * count == hand_count * cards_per_hand) by (nonlinear_arith)
                requires
                    round == cards_per_hand,
                    count == hand_count,
            ;
        }
        Ok(hands)
    }

    /// Deals `cards_per_hand` cards to each of the given hands from the
    /// top of the deck, one card to each hand in turn, round after round.
    /// Each hand receives its cards on top of those it holds.
    ///
    /// The deal is all or nothing: if the deck holds fewer than
    /// `hands.len() * cards_per_hand` cards, the deck and the hands are
    /// left as they were and the error is
    /// [`DeckDealError::NotEnoughCards`].
    pub fn deal_cards_to_hands(&mut self, hands: &mut Vec<Hand>, cards_per_hand: usize) -> (dealt:
        Result<(), DeckDealError>)
        ensures
            match dealt {
                Ok(_) => is_deal_to_hands(
                    old(self)@,
                    final(self)@,
                    old(hands)@,
                    final(hands)@,
                    cards_per_hand as nat,
                ),
                Err(error) => {
                    &&& error == DeckDealError::NotEnoughCards
                    &&& old(self)@.len() < old(hands)@.len() * cards_per_hand
                    &&& final(self)@ == old(self)@
                    &&& final(hands)@ == old(hands)@
                },
            },
    {
        let buckets = match self.deal_cards(hands.len(), cards_per_hand) {
            Ok(buckets) => buckets,
            Err(error) => {
                return Err(error);
            },
        };
        hand_out(hands, buckets);
        Ok(())
    }

    /// Deals as many cards as the deck can give to each of `hand_count`
    /// hands alike, `len() / hand_count` to each, as [`Deck::deal_cards`]
    /// does. What does not divide stays in the deck. With no hand to deal
    /// to, the deal succeeds with no bucket and the deck keeps its cards.
    ///
    /// If the deck holds fewer than `hand_count` cards, so that not every
    /// hand could get one, it is left as it was and the error is
    /// [`DeckDealError::NotEnoughCards`].
    pub fn deal_all_cards(&mut self, hand_count: usize) -> (dealt: Result<
        Vec<Vec<Card>>,
        DeckDealError,
    >)
        ensures
            match dealt {
                Ok(hands) => {
                    &&& old(self)@.len() >= hand_count
                    &&& is_deal(
                        old(self)@,
                        final(self)@,
                        hands@,
                        hand_count as nat,
                        even_share(old(self)@.len(), hand_count as nat),
                    )
                },
                Err(error) => {
                    &&& error == DeckDealError::NotEnoughCards
                    &&& old(self)@.len() < hand_count
                    &&& final(self)@ == old(self)@
                },
            },
    {
        if hand_count == 0 {
            return self.deal_cards(0, 0);
        }
        if self.cards.len() < hand_count {
            return Err(DeckDealError::NotEnoughCards);
        }
        let cards_per_hand = self.cards.len() / hand_count;
        proof {
            assert(hand_count * cards_per_hand <= self.cards@.len()) by (nonlinear_arith)
                requires
                    hand_count > 0,
                    cards_per_hand == self.cards@.len() / (hand_count as nat),
            ;
        }
        self.deal_cards(hand_count, cards_per_hand)
    }

    /// Deals as many cards as the deck can give to each of the given hands
    /// alike, `len() / hands.len()` to each, as
    /// [`Deck::deal_cards_to_hands`] does. What does not divide stays in
    /// the deck. With no hand to deal to, the deal succeeds and the deck
    /// keeps its cards.
    ///
    /// If the deck holds fewer cards than there are hands, the deck and
    /// the hands are left as they were and the error is
    /// [`DeckDealError::NotEnoughCards`].
    pub fn deal_all_cards_to_hands(&mut self, hands: &mut Vec<Hand>) -> (dealt: Result<
        (),
        DeckDealError,
    >)
        ensures
            match dealt {
                Ok(_) => {
                    &&& old(self)@.len() >= old(hands)@.len()
                    &&& is_deal_to_hands(
                        old(self)@,
                        final(self)@,
                        old(hands)@,
                        final(hands)@,
                        even_share(old(self)@.len(), old(hands)@.len()),
                    )
                },
                Err(error) => {
                    &&& error == DeckDealError::NotEnoughCards
                    &&& old(self)@.len() < old(hands)@.len()
                    &&& final(self)@ == old(self)@
                    &&& final(hands)@ == old(hands)@
                },
            },
    {
        let buckets = match self.deal_all_cards(hands.len()) {
            Ok(buckets) => buckets,
            Err(error) => {
                return Err(error);
            },
        };
        hand_out(hands, buckets);
        Ok(())
    }
}

/// Puts each bucket of cards on top of the hand of the same number.
fn hand_out(hands: &mut Vec<Hand>, buckets: Vec<Vec<Card>>)
    requires
        buckets@.len() == old(hands)@.len(),
    ensures
        final(hands)@.len() == old(hands)@.len(),
        forall|h: int|
            0 <= h < old(hands)@.len() ==> (#[trigger] final(hands)@[h])@ == old(hands)@[h]@
                + buckets@[h]@,
{
    let mut buckets = buckets;
    let ghost all = buckets@;
    let mut left: usize = hands.len();
    while left > 0
        invariant
            left <= hands@.len(),
            hands@.len() == old(hands)@.len(),
            all.len() == hands@.len(),
            buckets@ == all.take(left as int),
            forall|h: int| 0 <= h < left ==> (#[trigger] hands@[h]) == old(hands)@[h],
            forall|h: int|
                left <= h < hands@.len() ==> (#[trigger] hands@[h])@ == old(hands)@[h]@ + all[h]@,
        decreases left,
    {
        left -= 1;
        let bucket = buckets.pop().unwrap();
        hands[left].extend(bucket);
    }
}

impl Default for Deck {
    /// A deck of one full set of cards.
    fn default() -> (deck: Deck)
        ensures
            deck@ == Card::full_set(),
    {
        let deck = Deck::new(1);
        deck
    }
}

/// A copy of a deck holds the same cards in the same order.
impl Clone for Deck {
    fn clone(&self) -> (deck: Deck)
        ensures
            deck@ == self@,
    {
        Deck { cards: self.cards.clone() }
    }
}

/// Two decks are equal when they hold the same cards in the same order.
impl PartialEq for Deck {
    fn eq(&self, other: &Deck) -> (equal: bool) {
        same_cards(&self.cards, &other.cards)
    }
}

impl Eq for Deck {

}

impl vstd::std_specs::cmp::PartialEqSpecImpl for Deck {
    open spec fn obeys_eq_spec() -> bool {
        true
    }

    open spec fn eq_spec(&self, other: &Deck) -> bool {
        self@ == other@
    }
}

} // verus!
