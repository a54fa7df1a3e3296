//! Ranks, suits and cards, and the wrapper that orders cards by rank alone.

use std::cmp::Ordering;
use vstd::prelude::*;
use vstd::std_specs::cmp::PartialEqSpec;
use vstd::std_specs::cmp::PartialOrdSpec;

verus! {

/// How two positions in an ascending order stand to each other.
pub open spec fn order_of(left: int, right: int) -> Ordering {
    if left < right {
        Ordering::Less
    } else if left == right {
        Ordering::Equal
    } else {
        Ordering::Greater
    }
}

/// Compares two positions in an ascending order.
fn order_positions(left: u8, right: u8) -> (order: Ordering)
    ensures
        match order {
            Ordering::Less => left < right,
            Ordering::Equal => left == right,
            Ordering::Greater => left > right,
        },
{
    if left < right {
        Ordering::Less
    } else if left == right {
        Ordering::Equal
    } else {
        Ordering::Greater
    }
}

/// The rank of a card. The ace is low: ranks ascend in the order in which
/// they are declared, from `Ace` up to `King`.
#[derive(Clone, Copy, PartialEq, Eq, Structural, Ord, Debug)]
pub enum Rank {
    Ace,
    Two,
    Three,
    Four,
    Five,
    Six,
    Seven,
    Eight,
    Nine,
    Ten,
    Jack,
    Queen,
    King,
}

impl Rank {
    /// The position of the rank in the ascending order, `Ace` being 1 and
    /// `King` 13.
    pub open spec fn ordinal(self) -> int {
        match self {
            Rank::Ace => 1,
            Rank::Two => 2,
            Rank::Three => 3,
            Rank::Four => 4,
            Rank::Five => 5,
            Rank::Six => 6,
            Rank::Seven => 7,
            Rank::Eight => 8,
            Rank::Nine => 9,
            Rank::Ten => 10,
            Rank::Jack => 11,
            Rank::Queen => 12,
            Rank::King => 13,
        }
    }

    /// All thirteen ranks in ascending order.
    pub open spec fn ascending() -> Seq<Rank> {
        seq![
            Rank::Ace,
            Rank::Two,
            Rank::Three,
            Rank::Four,
            Rank::Five,
            Rank::Six,
            Rank::Seven,
            Rank::Eight,
            Rank::Nine,
            Rank::Ten,
            Rank::Jack,
            Rank::Queen,
            Rank::King,
        ]
    }

    /// How the rank is written: `A`, `2` to `10`, `J`, `Q`, `K`.
    pub open spec fn text(self) -> Seq<char> {
        match self {
            Rank::Ace => "A"@,
            Rank::Two => "2"@,
            Rank::Three => "3"@,
            Rank::Four => "4"@,
            Rank::Five => "5"@,
            Rank::Six => "6"@,
            Rank::Seven => "7"@,
            Rank::Eight => "8"@,
            Rank::Nine => "9"@,
            Rank::Ten => "10"@,
            Rank::Jack => "J"@,
            Rank::Queen => "Q"@,
            Rank::King => "K"@,
        }
    }

    /// The position of the rank in the ascending order, as a number.
    pub fn position(&self) -> (n: u8)
        ensures
            n == self.ordinal(),
    {
        match self {
            Rank::Ace => 1,
            Rank::Two => 2,
            Rank::Three => 3,
            Rank::Four => 4,
            Rank::Five => 5,
            Rank::Six => 6,
            Rank::Seven => 7,
            Rank::Eight => 8,
            Rank::Nine => 9,
            Rank::Ten => 10,
            Rank::Jack => 11,
            Rank::Queen => 12,
            Rank::King => 13,
        }
    }

    /// All the ranks in a vector, in ascending order.
    pub fn all_ranks() -> (ranks: Vec<Rank>)
        ensures
            ranks@ == Rank::ascending(),
    {
        vec![
            Rank::Ace,
            Rank::Two,
            Rank::Three,
            Rank::Four,
            Rank::Five,
            Rank::Six,
            Rank::Seven,
            Rank::Eight,
            Rank::Nine,
            Rank::Ten,
            Rank::Jack,
            Rank::Queen,
            Rank::King,
        ]
    }

    /// Whether this rank is the one that follows `other_rank` directly.
    /// Nothing precedes the ace, so the ace follows no rank, and the ace
    /// does not follow the king.
    pub fn is_directly_after(&self, other_rank: Rank) -> (after: bool)
        ensures
            after == (self.ordinal() == other_rank.ordinal() + 1),
    {
        self.position() == other_rank.position() + 1
    }

    /// The written form of the rank.
    pub fn symbol(&self) -> (symbol: &'static str)
        ensures
            symbol@ == self.text(),
    {
        match self {
            Rank::Ace => "A",
            Rank::Two => "2",
            Rank::Three => "3",
            Rank::Four => "4",
            Rank::Five => "5",
            Rank::Six => "6",
            Rank::Seven => "7",
            Rank::Eight => "8",
            Rank::Nine => "9",
            Rank::Ten => "10",
            Rank::Jack => "J",
            Rank::Queen => "Q",
            Rank::King => "K",
        }
    }

    /// The written form of the rank, as an owned string.
    pub fn to_string(&self) -> (text: String)
        ensures
            text@ == self.text(),
    {
        self.symbol().to_owned()
    }
}

/// Ranks are ordered by their positions, the ace lowest.
impl PartialOrd for Rank {
    fn partial_cmp(&self, other: &Rank) -> (order: Option<Ordering>) {
        Some(order_positions(self.position(), other.position()))
    }
}

impl vstd::std_specs::cmp::PartialOrdSpecImpl for Rank {
    open spec fn obeys_partial_cmp_spec() -> bool {
        true
    }

    open spec fn partial_cmp_spec(&self, other: &Rank) -> Option<Ordering> {
        Some(order_of(self.ordinal(), other.ordinal()))
    }
}

/// The suit of a card.
#[derive(Clone, Copy, PartialEq, Eq, Structural, Ord, Debug)]
pub enum Suit {
    Spade,
    Club,
    Heart,
    Diamond,
}

impl Suit {
    /// The position of the suit in the order of declaration, `Spade`
    /// being 0 and `Diamond` 3.
    pub open spec fn ordinal(self) -> int {
        match self {
            Suit::Spade => 0,
            Suit::Club => 1,
            Suit::Heart => 2,
            Suit::Diamond => 3,
        }
    }

    /// The four suits in the order of declaration.
    pub open spec fn in_order() -> Seq<Suit> {
        seq![Suit::Spade, Suit::Club, Suit::Heart, Suit::Diamond]
    }

    /// How the suit is written: its playing-card symbol.
    pub open spec fn text(self) -> Seq<char> {
        match self {
            Suit::Spade => "♠"@,
            Suit::Club => "♣"@,
            Suit::Heart => "♥"@,
            Suit::Diamond => "♦"@,
        }
    }

    /// The position of the suit in the order of declaration, as a number.
    pub fn position(&self) -> (n: u8)
        ensures
            n == self.ordinal(),
    {
        match self {
            Suit::Spade => 0,
            Suit::Club => 1,
            Suit::Heart => 2,
            Suit::Diamond => 3,
        }
    }

    /// All the suits in a vector, in the order of declaration.
    pub fn all_suits() -> (suits: Vec<Suit>)
        ensures
            suits@ == Suit::in_order(),
    {
        vec![Suit::Spade, Suit::Club, Suit::Heart, Suit::Diamond]
    }

    /// The written form of the suit.
    pub fn symbol(&self) -> (symbol: &'static str)
        ensures
            symbol@ == self.text(),
    {
        match self {
            Suit::Spade => "♠",
            Suit::Club => "♣",
            Suit::Heart => "♥",
            Suit::Diamond => "♦",
        }
    }

    /// The written form of the suit, as an owned string.
    pub fn to_string(&self) -> (text: String)
        ensures
            text@ == self.text(),
    {
        self.symbol().to_owned()
    }
}

/// Suits are ordered as they are declared.
impl PartialOrd for Suit {
    fn partial_cmp(&self, other: &Suit) -> (order: Option<Ordering>) {
        Some(order_positions(self.position(), other.position()))
    }
}

impl vstd::std_specs::cmp::PartialOrdSpecImpl for Suit {
    open spec fn obeys_partial_cmp_spec() -> bool {
        true
    }

    open spec fn partial_cmp_spec(&self, other: &Suit) -> Option<Ordering> {
        Some(order_of(self.ordinal(), other.ordinal()))
    }
}

/// A playing card: a rank in a suit. A card never changes.
#[derive(Clone, Copy, PartialEq, Eq, Structural, Ord, Debug)]
pub struct Card {
    pub suit: Suit,
    pub rank: Rank,
}

impl Card {
    /// One full set: the 52 cards suit by suit in the order of
    /// [`Suit::in_order`], and within a suit in ascending rank.
    pub open spec fn full_set() -> Seq<Card> {
        Seq::new(
            52,
            |i: int| Card { suit: Suit::in_order()[i / 13], rank: Rank::ascending()[i % 13] },
        )
    }

    /// How the card is written: its rank, then its suit.
    pub open spec fn text(self) -> Seq<char> {
        self.rank.text() + self.suit.text()
    }

    /// Creates the card of the given suit and rank.
    pub fn new(suit: Suit, rank: Rank) -> (card: Card)
        ensures
            card == (Card { suit, rank }),
    {
        Card { suit, rank }
    }

    /// One full set of 52 cards in a vector, in the order of
    /// [`Card::full_set`].
    pub fn all_cards() -> (cards: Vec<Card>)
        ensures
            cards@ == Card::full_set(),
    {
        let suits = Suit::all_suits();
        let ranks = Rank::all_ranks();
        let mut cards: Vec<Card> = Vec::new();
        let mut s: usize = 0;
        while s < suits.len()
            invariant
                suits@ == Suit::in_order(),
                ranks@ == Rank::ascending(),
                s <= 4,
                cards@.len() == 13 * s,
                forall|i: int| 0 <= i < cards@.len() ==> cards@[i] == Card::full_set()[i],
            decreases 4 - s,
        {
            let mut r: usize = 0;
            while r < ranks.len()
                invariant
                    suits@ == Suit::in_order(),
                    ranks@ == Rank::ascending(),
                    s < 4,
                    r <= 13,
                    cards@.len() == 13 * s + r,
                    forall|i: int| 0 <= i < cards@.len() ==> cards@[i] == Card::full_set()[i],
                decreases 13 - r,
            {
                cards.push(Card::new(suits[s], ranks[r]));
                r += 1;
            }
            s += 1;
        }
        cards
    }

    /// The rank of the card.
    pub fn get_rank(&self) -> (rank: Rank)
        ensures
            rank == self.rank,
    {
        self.rank
    }

    /// The suit of the card.
    pub fn get_suit(&self) -> (suit: Suit)
        ensures
            suit == self.suit,
    {
        self.suit
    }

    /// The written form of the card: rank, then suit.
    pub fn to_string(&self) -> (text: String)
        ensures
            text@ == self.text(),
    {
        let mut text = self.rank.to_string();
        text.push_str(self.suit.symbol());
        text
    }
}

/// Whether one pile holds the cards of the other, each as often, in any
/// order.
pub open spec fn is_reordering(left: Seq<Card>, right: Seq<Card>) -> bool {
    left.to_multiset() == right.to_multiset()
}

/// Whether two piles hold the same cards in the same order.
pub(crate) fn same_cards(left: &Vec<Card>, right: &Vec<Card>) -> (same: bool)
    ensures
        same == (left@ == right@),
{
    if left.len() != right.len() {
        return false;
    }
    let mut i: usize = 0;
    while i < left.len()
        invariant
            left@.len() == right@.len(),
            i <= left@.len(),
            forall|j: int| 0 <= j < i ==> left@[j] == right@[j],
        decreases left@.len() - i,
    {
        if left[i] != right[i] {
            return false;
        }
        i += 1;
    }
    assert(left@ =~= right@);
    true
}

/// Cards are ordered by suit first, and within a suit by rank.
impl PartialOrd for Card {
    fn partial_cmp(&self, other: &Card) -> (order: Option<Ordering>) {
        if self.suit == other.suit {
            self.rank.partial_cmp(&other.rank)
        } else {
            self.suit.partial_cmp(&other.suit)
        }
    }
}

impl vstd::std_specs::cmp::PartialOrdSpecImpl for Card {
    open spec fn obeys_partial_cmp_spec() -> bool {
        true
    }

    open spec fn partial_cmp_spec(&self, other: &Card) -> Option<Ordering> {
        if self.suit == other.suit {
            Some(order_of(self.rank.ordinal(), other.rank.ordinal()))
        } else {
            Some(order_of(self.suit.ordinal(), other.suit.ordinal()))
        }
    }
}

/// A card that is compared by rank alone: two such cards are equal when
/// their ranks are, whatever their suits, and are ordered as their ranks
/// are. The suit stays readable.
#[derive(Clone, Copy, Debug)]
pub struct Suitless(pub Card);

impl Suitless {
    /// The rank of the wrapped card.
    pub fn get_rank(&self) -> (rank: Rank)
        ensures
            rank == self.0.rank,
    {
        self.0.rank
    }

    /// The suit of the wrapped card.
    pub fn get_suit(&self) -> (suit: Suit)
        ensures
            suit == self.0.suit,
    {
        self.0.suit
    }

    /// Gives the wrapped card back.
    pub fn unwrap(self) -> (card: Card)
        ensures
            card == self.0,
    {
        self.0
    }

    /// How this card stands to `other` by rank, the suits left aside.
    pub fn cmp(&self, other: &Suitless) -> (order: Ordering)
        ensures
            order == order_of(self.0.rank.ordinal(), other.0.rank.ordinal()),
    {
        order_positions(self.0.rank.position(), other.0.rank.position())
    }

    /// The written form of the wrapped card.
    pub fn to_string(&self) -> (text: String)
        ensures
            text@ == self.0.text(),
    {
        self.0.to_string()
    }
}

/// Two such cards are equal when their ranks are.
impl PartialEq for Suitless {
    fn eq(&self, other: &Suitless) -> (equal: bool) {
        self.0.rank == other.0.rank
    }
}

impl Eq for Suitless {

}

impl vstd::std_specs::cmp::PartialEqSpecImpl for Suitless {
    open spec fn obeys_eq_spec() -> bool {
        true
    }

    open spec fn eq_spec(&self, other: &Suitless) -> bool {
        self.0.rank == other.0.rank
    }
}

/// Such cards are ordered as their ranks are.
impl PartialOrd for Suitless {
    fn partial_cmp(&self, other: &Suitless) -> (order: Option<Ordering>) {
        Some(self.cmp(other))
    }
}

impl vstd::std_specs::cmp::PartialOrdSpecImpl for Suitless {
    open spec fn obeys_partial_cmp_spec() -> bool {
        true
    }

    open spec fn partial_cmp_spec(&self, other: &Suitless) -> Option<Ordering> {
        Some(order_of(self.0.rank.ordinal(), other.0.rank.ordinal()))
    }
}

/// The order of play looks at ranks only. Two cards are equal under it
/// exactly when their ranks are, whatever their suits, and they stand to
/// each other as their ranks do, whatever their suits.
pub proof fn lemma_order_of_play_ignores_suit(left: Card, right: Card)
    ensures
        Suitless(left).eq_spec(&Suitless(right)) == (left.rank == right.rank),
        Suitless(left).partial_cmp_spec(&Suitless(right)) == left.rank.partial_cmp_spec(
            &right.rank,
        ),
        (Suitless(left).partial_cmp_spec(&Suitless(right)) == Some(Ordering::Equal)) == (left.rank
            == right.rank),
{
}

} // verus!
