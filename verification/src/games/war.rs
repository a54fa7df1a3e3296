//! The card game War for two players.
//!
//! Each player plays the top card of their hand; the higher rank takes both
//! cards into the winner's capture pile. Equal ranks start a war: both
//! players put up to three cards face down and one face up into the pot,
//! and the higher card that a player showed last takes the whole pot. A
//! player whose hand runs out refills it from their shuffled capture pile,
//! and a player with neither hand nor captured cards has lost.

use crate::common::card::is_reordering;
use crate::common::card::Card;
use crate::common::card::Suitless;
use crate::common::deck::dealt_hand;
use crate::common::deck::Deck;
use crate::common::deck::DeckDealError;
use crate::common::hand::Hand;
use crate::games::Game;
use vstd::multiset::Multiset;
use vstd::prelude::*;
use vstd::seq_lib::lemma_multiset_commutative;
use vstd::seq_lib::to_multiset_build;
use vstd::seq_lib::to_multiset_len;

verus! {

/// What one player holds: the hand that is played from, and the pile of
/// captured cards. Both are written bottom first.
#[verifier::ext_equal]
pub struct Holding {
    pub hand: Seq<Card>,
    pub capture: Seq<Card>,
}

impl Holding {
    /// The number of cards the player holds.
    pub open spec fn count(self) -> nat {
        self.hand.len() + self.capture.len()
    }

    /// The cards the player holds, each as often as it is held.
    pub open spec fn cards(self) -> Multiset<Card> {
        self.hand.to_multiset().add(self.capture.to_multiset())
    }

    /// Whether the player has lost: neither a hand nor captured cards are
    /// left.
    pub open spec fn is_out(self) -> bool {
        self.hand.len() == 0 && self.capture.len() == 0
    }

    /// The number of cards the player can still play, a refill in the
    /// order `order` counted in where one is still to come.
    pub open spec fn supply(self, order: Seq<Card>) -> nat {
        if self.capture.len() > 0 {
            self.hand.len() + order.len()
        } else {
            self.hand.len()
        }
    }

    /// Whether `order` can serve as the refill of this player's hand: it
    /// holds the cards of the capture pile, unless that pile is empty and
    /// no refill can take place.
    pub open spec fn is_fed_by(self, order: Seq<Card>) -> bool {
        self.capture.len() == 0 || is_reordering(order, self.capture)
    }

    /// The holding after a refill was tried. Where the hand is empty and
    /// cards were captured, the captured cards become the hand in the
    /// order `order`; otherwise nothing changes.
    pub open spec fn refilled(self, order: Seq<Card>) -> Holding {
        if self.hand.len() == 0 && self.capture.len() > 0 {
            Holding { hand: order, capture: Seq::empty() }
        } else {
            self
        }
    }

    /// The top card of the hand, if the hand has one.
    pub open spec fn top(self) -> Option<Card> {
        if self.hand.len() > 0 {
            Some(self.hand.last())
        } else {
            None
        }
    }

    /// The holding once the top card of the hand, if any, was played.
    pub open spec fn without_top(self) -> Holding {
        if self.hand.len() > 0 {
            Holding { hand: self.hand.drop_last(), capture: self.capture }
        } else {
            self
        }
    }

    /// The holding once the cards of `pot` were put on top of the capture
    /// pile.
    pub open spec fn awarded(self, pot: Seq<Card>) -> Holding {
        Holding { hand: self.hand, capture: self.capture + pot }
    }
}

/// The pile `pile` with `card` on top, if there is a card.
pub open spec fn with_card(pile: Seq<Card>, card: Option<Card>) -> Seq<Card> {
    match card {
        Some(card) => pile.push(card),
        None => pile,
    }
}

/// The later of two cards that a player showed: `card` if there is one,
/// else the one before.
pub open spec fn latest(card: Option<Card>, before: Option<Card>) -> Option<Card> {
    if card is Some {
        card
    } else {
        before
    }
}

/// The state of a game between two steps.
#[verifier::ext_equal]
pub struct WarView {
    pub player_1: Holding,
    pub player_2: Holding,
}

/// The state of a game in the middle of a war: what the players still
/// hold, the pot, and the card that each player put into the pot last in
/// the current round, if any.
#[verifier::ext_equal]
pub struct Table {
    pub player_1: Holding,
    pub player_2: Holding,
    pub pot: Seq<Card>,
    pub last_1: Option<Card>,
    pub last_2: Option<Card>,
}

impl Table {
    /// The number of cards on the table and with the players.
    pub open spec fn count(self) -> nat {
        self.player_1.count() + self.player_2.count() + self.pot.len()
    }

    /// The cards on the table and with the players, each as often as it
    /// is there.
    pub open spec fn cards(self) -> Multiset<Card> {
        self.player_1.cards().add(self.player_2.cards()).add(self.pot.to_multiset())
    }

    /// Both players put one card into the pot, player 1 first, as far as
    /// they have one. With `refill`, a player whose hand is empty first
    /// refills it from the capture pile, in the order `order_1` for
    /// player 1 and `order_2` for player 2.
    pub open spec fn both_draw(
        self,
        order_1: Seq<Card>,
        order_2: Seq<Card>,
        refill: bool,
    ) -> Table {
        let player_1 = if refill {
            self.player_1.refilled(order_1)
        } else {
            self.player_1
        };
        let player_2 = if refill {
            self.player_2.refilled(order_2)
        } else {
            self.player_2
        };
        Table {
            player_1: player_1.without_top(),
            player_2: player_2.without_top(),
            pot: with_card(with_card(self.pot, player_1.top()), player_2.top()),
            last_1: latest(player_1.top(), self.last_1),
            last_2: latest(player_2.top(), self.last_2),
        }
    }

    /// The table after `times` face-down draws of both players, each with
    /// a refill where it is needed.
    pub open spec fn face_down(self, order_1: Seq<Card>, order_2: Seq<Card>, times: nat) -> Table
        decreases times,
    {
        if times == 0 {
            self
        } else {
            self.face_down(order_1, order_2, (times - 1) as nat).both_draw(order_1, order_2, true)
        }
    }

    /// The table after one round of a war: nobody has shown a card yet,
    /// then both players draw three times face down, refilling where it is
    /// needed, and once face up, without a refill.
    pub open spec fn war_round(self, order_1: Seq<Card>, order_2: Seq<Card>) -> Table {
        Table { last_1: None, last_2: None, ..self }.face_down(order_1, order_2, 3).both_draw(
            order_1,
            order_2,
            false,
        )
    }

    /// The game once player 1 has taken the pot.
    pub open spec fn taken_by_1(self) -> WarView {
        WarView { player_1: self.player_1.awarded(self.pot), player_2: self.player_2 }
    }

    /// The game once player 2 has taken the pot.
    pub open spec fn taken_by_2(self) -> WarView {
        WarView { player_1: self.player_1, player_2: self.player_2.awarded(self.pot) }
    }

    /// How the war on this table ends: round follows round until the
    /// cards that the players showed last differ in rank, or only one
    /// player could show a card at all. That player takes the pot. Where
    /// neither player could put a card into a round, both have run out
    /// and the war has no winner: the result is `None`.
    pub open spec fn fought_out(self, order_1: Seq<Card>, order_2: Seq<Card>) -> Option<WarView>
        decreases self.player_1.supply(order_1) + self.player_2.supply(order_2),
        via Self::fought_out_ends
    {
        let after = self.war_round(order_1, order_2);
        match (after.last_1, after.last_2) {
            (Some(card_1), Some(card_2)) => {
                if card_1.rank.ordinal() > card_2.rank.ordinal() {
                    Some(after.taken_by_1())
                } else if card_1.rank.ordinal() < card_2.rank.ordinal() {
                    Some(after.taken_by_2())
                } else {
                    after.fought_out(order_1, order_2)
                }
            },
            (Some(_), None) => Some(after.taken_by_1()),
            (None, Some(_)) => Some(after.taken_by_2()),
            (None, None) => None,
        }
    }

    /// A war ends: a round that both players put a card into leaves each of
    /// them fewer cards to play.
    #[via_fn]
    proof fn fought_out_ends(self, order_1: Seq<Card>, order_2: Seq<Card>) {
        self.lemma_round_uses_supply(order_1, order_2);
    }
}

impl Table {
    /// A draw of both players does not add to what they can still play,
    /// and a player who put a card into the pot can play one card less.
    pub proof fn lemma_draw_uses_supply(self, order_1: Seq<Card>, order_2: Seq<Card>, refill: bool)
        ensures
            ({
                let after = self.both_draw(order_1, order_2, refill);
                &&& after.player_1.supply(order_1) <= self.player_1.supply(order_1)
                &&& after.player_2.supply(order_2) <= self.player_2.supply(order_2)
                &&& after.last_1 != self.last_1 ==> after.player_1.supply(order_1)
                    < self.player_1.supply(order_1)
                &&& after.last_2 != self.last_2 ==> after.player_2.supply(order_2)
                    < self.player_2.supply(order_2)
                &&& self.last_1 is Some ==> after.last_1 is Some
                &&& self.last_2 is Some ==> after.last_2 is Some
            }),
    {
    }

    /// A round of a war does not add to what the players can still play,
    /// and a player who showed a card in it can play at least one card
    /// less.
    pub proof fn lemma_round_uses_supply(self, order_1: Seq<Card>, order_2: Seq<Card>)
        ensures
            ({
                let after = self.war_round(order_1, order_2);
                &&& after.player_1.supply(order_1) <= self.player_1.supply(order_1)
                &&& after.player_2.supply(order_2) <= self.player_2.supply(order_2)
                &&& after.last_1 is Some ==> after.player_1.supply(order_1)
                    < self.player_1.supply(order_1)
                &&& after.last_2 is Some ==> after.player_2.supply(order_2)
                    < self.player_2.supply(order_2)
            }),
    {
        reveal_with_fuel(Table::face_down, 4);
        let start = Table { last_1: None, last_2: None, ..self };
        start.lemma_draw_uses_supply(order_1, order_2, true);
        start.face_down(order_1, order_2, 1).lemma_draw_uses_supply(order_1, order_2, true);
        start.face_down(order_1, order_2, 2).lemma_draw_uses_supply(order_1, order_2, true);
        start.face_down(order_1, order_2, 3).lemma_draw_uses_supply(order_1, order_2, false);
    }
}

impl WarView {
    /// The number of cards in the game.
    pub open spec fn count(self) -> nat {
        self.player_1.count() + self.player_2.count()
    }

    /// The cards in the game, each as often as it is there.
    pub open spec fn cards(self) -> Multiset<Card> {
        self.player_1.cards().add(self.player_2.cards())
    }

    /// Whether the game is over: one of the players has lost.
    pub open spec fn is_over(self) -> bool {
        self.player_1.is_out() || self.player_2.is_out()
    }

    /// Whether the game is played with one full set of cards: the hands
    /// and capture piles together hold each of the 52 cards once.
    pub open spec fn is_single_set(self) -> bool {
        self.cards() == Card::full_set().to_multiset()
    }

    /// The game after one step, in a game that is not over. A refill of
    /// player 1's hand, should one take place, brings the captured cards
    /// in the order `order_1`, and `order_2` does the same for player 2.
    ///
    /// Both players refill their hand if it is empty and play its top
    /// card. The higher rank takes both cards, player 1's first. Equal
    /// ranks start a war over the two cards, see [`Table::fought_out`];
    /// `None` says that the war had no winner.
    pub open spec fn stepped(self, order_1: Seq<Card>, order_2: Seq<Card>) -> Option<WarView> {
        let player_1 = self.player_1.refilled(order_1);
        let player_2 = self.player_2.refilled(order_2);
        let card_1 = player_1.hand.last();
        let card_2 = player_2.hand.last();
        let table = Table {
            player_1: player_1.without_top(),
            player_2: player_2.without_top(),
            pot: seq![card_1, card_2],
            last_1: None,
            last_2: None,
        };
        if card_1.rank.ordinal() > card_2.rank.ordinal() {
            Some(table.taken_by_1())
        } else if card_1.rank.ordinal() < card_2.rank.ordinal() {
            Some(table.taken_by_2())
        } else {
            table.fought_out(order_1, order_2)
        }
    }
}

/// A pile that has a top card holds that card and what lies below it.
proof fn lemma_top_of_pile(pile: Seq<Card>)
    requires
        pile.len() > 0,
    ensures
        pile.to_multiset() == pile.drop_last().to_multiset().insert(pile.last()),
{
    assert(pile =~= pile.drop_last().push(pile.last()));
    to_multiset_build(pile.drop_last(), pile.last());
}

/// A pile with a card put on top holds that card and what it held.
proof fn lemma_with_card(pile: Seq<Card>, card: Option<Card>)
    ensures
        with_card(pile, card).to_multiset() == match card {
            Some(card) => pile.to_multiset().insert(card),
            None => pile.to_multiset(),
        },
        with_card(pile, card).len() == pile.len() + (if card is Some {
            1nat
        } else {
            0nat
        }),
{
    if let Some(card) = card {
        to_multiset_build(pile, card);
    }
}

impl Holding {
    /// A refill moves cards and neither adds nor removes one.
    pub proof fn lemma_refill_keeps_cards(self, order: Seq<Card>)
        requires
            self.is_fed_by(order),
        ensures
            self.refilled(order).cards() == self.cards(),
            self.refilled(order).count() == self.count(),
            self.refilled(order).is_fed_by(order),
    {
        broadcast use vstd::multiset::group_multiset_axioms;

        to_multiset_len(order);
        to_multiset_len(self.capture);
        to_multiset_len(self.hand);
        to_multiset_len(Seq::<Card>::empty());
    }

    /// Playing the top card takes exactly that card out of the holding.
    pub proof fn lemma_play_takes_top(self)
        ensures
            match self.top() {
                Some(card) => self.cards() == self.without_top().cards().insert(card)
                    && self.count() == self.without_top().count() + 1,
                None => self.without_top() == self,
            },
    {
        broadcast use vstd::multiset::group_multiset_axioms;

        if self.hand.len() > 0 {
            lemma_top_of_pile(self.hand);
        }
    }

    /// Taking a pot adds exactly the cards of the pot to the holding.
    pub proof fn lemma_award_adds_pot(self, pot: Seq<Card>)
        ensures
            self.awarded(pot).cards() == self.cards().add(pot.to_multiset()),
            self.awarded(pot).count() == self.count() + pot.len(),
    {
        broadcast use vstd::multiset::group_multiset_axioms;

        lemma_multiset_commutative(self.capture, pot);
    }
}

impl Table {
    /// Whether `order_1` and `order_2` can serve as the refills of the
    /// two players' hands.
    pub open spec fn is_fed_by(self, order_1: Seq<Card>, order_2: Seq<Card>) -> bool {
        self.player_1.is_fed_by(order_1) && self.player_2.is_fed_by(order_2)
    }

    /// A draw of both players moves cards into the pot and neither adds
    /// nor removes one.
    pub proof fn lemma_draw_keeps_cards(self, order_1: Seq<Card>, order_2: Seq<Card>, refill: bool)
        requires
            self.is_fed_by(order_1, order_2),
        ensures
            self.both_draw(order_1, order_2, refill).cards() == self.cards(),
            self.both_draw(order_1, order_2, refill).count() == self.count(),
            self.both_draw(order_1, order_2, refill).is_fed_by(order_1, order_2),
    {
        broadcast use vstd::multiset::group_multiset_axioms;

        let player_1 = if refill {
            self.player_1.refilled(order_1)
        } else {
            self.player_1
        };
        let player_2 = if refill {
            self.player_2.refilled(order_2)
        } else {
            self.player_2
        };
        self.player_1.lemma_refill_keeps_cards(order_1);
        self.player_2.lemma_refill_keeps_cards(order_2);
        player_1.lemma_play_takes_top();
        player_2.lemma_play_takes_top();
        let pot_1 = with_card(self.pot, player_1.top());
        lemma_with_card(self.pot, player_1.top());
        lemma_with_card(pot_1, player_2.top());
    }

    /// Face-down draws move cards into the pot and neither add nor remove
    /// one.
    pub proof fn lemma_face_down_keeps_cards(
        self,
        order_1: Seq<Card>,
        order_2: Seq<Card>,
        times: nat,
    )
        requires
            self.is_fed_by(order_1, order_2),
        ensures
            self.face_down(order_1, order_2, times).cards() == self.cards(),
            self.face_down(order_1, order_2, times).count() == self.count(),
            self.face_down(order_1, order_2, times).is_fed_by(order_1, order_2),
        decreases times,
    {
        if times > 0 {
            self.lemma_face_down_keeps_cards(order_1, order_2, (times - 1) as nat);
            self.face_down(order_1, order_2, (times - 1) as nat).lemma_draw_keeps_cards(
                order_1,
                order_2,
                true,
            );
        }
    }

    /// A round of a war moves cards into the pot and neither adds nor
    /// removes one.
    pub proof fn lemma_round_keeps_cards(self, order_1: Seq<Card>, order_2: Seq<Card>)
        requires
            self.is_fed_by(order_1, order_2),
        ensures
            self.war_round(order_1, order_2).cards() == self.cards(),
            self.war_round(order_1, order_2).count() == self.count(),
            self.war_round(order_1, order_2).is_fed_by(order_1, order_2),
    {
        let start = Table { last_1: None, last_2: None, ..self };
        start.lemma_face_down_keeps_cards(order_1, order_2, 3);
        start.face_down(order_1, order_2, 3).lemma_draw_keeps_cards(order_1, order_2, false);
    }

    /// A round of a war takes cards from the players and puts them into
    /// the pot: a player who showed a card in the round holds fewer cards
    /// after it, and a round in which both players showed a card, as every
    /// tied round is, has moved at least two cards into the pot. So a war
    /// cannot go on for more rounds than the players hold cards.
    pub proof fn lemma_round_moves_cards_to_pot(self, order_1: Seq<Card>, order_2: Seq<Card>)
        requires
            self.is_fed_by(order_1, order_2),
        ensures
            ({
                let after = self.war_round(order_1, order_2);
                &&& after.player_1.count() <= self.player_1.count()
                &&& after.player_2.count() <= self.player_2.count()
                &&& after.last_1 is Some ==> after.player_1.count() < self.player_1.count()
                &&& after.last_2 is Some ==> after.player_2.count() < self.player_2.count()
                &&& after.last_1 is Some && after.last_2 is Some ==> after.pot.len()
                    >= self.pot.len() + 2
            }),
    {
        let after = self.war_round(order_1, order_2);
        self.lemma_round_keeps_cards(order_1, order_2);
        self.lemma_round_uses_supply(order_1, order_2);
        to_multiset_len(order_1);
        to_multiset_len(order_2);
        to_multiset_len(self.player_1.capture);
        to_multiset_len(self.player_2.capture);
        to_multiset_len(after.player_1.capture);
        to_multiset_len(after.player_2.capture);
    }

    /// Whoever takes the pot, the game holds the cards that were on the
    /// table and with the players.
    pub proof fn lemma_pot_stays_in_game(self)
        ensures
            self.taken_by_1().cards() == self.cards(),
            self.taken_by_2().cards() == self.cards(),
            self.taken_by_1().count() == self.count(),
            self.taken_by_2().count() == self.count(),
    {
        broadcast use vstd::multiset::group_multiset_axioms;

        self.player_1.lemma_award_adds_pot(self.pot);
        self.player_2.lemma_award_adds_pot(self.pot);
    }

    /// A war that has a winner leaves in the game exactly the cards that
    /// were on the table and with the players.
    pub proof fn lemma_war_keeps_cards(self, order_1: Seq<Card>, order_2: Seq<Card>)
        requires
            self.is_fed_by(order_1, order_2),
        ensures
            self.fought_out(order_1, order_2) matches Some(after) ==> after.cards() == self.cards()
                && after.count() == self.count(),
        decreases self.player_1.supply(order_1) + self.player_2.supply(order_2),
    {
        let after = self.war_round(order_1, order_2);
        self.lemma_round_keeps_cards(order_1, order_2);
        self.lemma_round_uses_supply(order_1, order_2);
        after.lemma_pot_stays_in_game();
        if let (Some(card_1), Some(card_2)) = (after.last_1, after.last_2) {
            if card_1.rank.ordinal() == card_2.rank.ordinal() {
                after.lemma_war_keeps_cards(order_1, order_2);
            }
        }
    }
}

impl Table {
    /// What a draw of both players does for a player who has run out of
    /// cards, and for one who has not: the first puts nothing into the
    /// pot and stays out, the second puts a card in.
    proof fn lemma_draw_of_the_empty_handed(self, order_1: Seq<Card>, order_2: Seq<Card>)
        requires
            self.is_fed_by(order_1, order_2),
        ensures
            ({
                let after = self.both_draw(order_1, order_2, true);
                &&& after.is_fed_by(order_1, order_2)
                &&& self.player_1.is_out() ==> after.player_1.is_out() && after.last_1
                    == self.last_1
                &&& self.player_2.is_out() ==> after.player_2.is_out() && after.last_2
                    == self.last_2
                &&& !self.player_1.is_out() ==> after.last_1 is Some
                &&& !self.player_2.is_out() ==> after.last_2 is Some
            }),
    {
        to_multiset_len(order_1);
        to_multiset_len(order_2);
        to_multiset_len(self.player_1.capture);
        to_multiset_len(self.player_2.capture);
    }

    /// A player who has run out of cards in a war loses it to a player
    /// who still has cards: the round in which one player can put nothing
    /// into the pot while the other can is the last one, and the other
    /// player takes the whole pot.
    pub proof fn lemma_player_with_cards_takes_pot(self, order_1: Seq<Card>, order_2: Seq<Card>)
        requires
            self.is_fed_by(order_1, order_2),
        ensures
            self.player_1.is_out() && !self.player_2.is_out() ==> self.fought_out(order_1, order_2)
                == Some(self.war_round(order_1, order_2).taken_by_2()),
            self.player_2.is_out() && !self.player_1.is_out() ==> self.fought_out(order_1, order_2)
                == Some(self.war_round(order_1, order_2).taken_by_1()),
            self.player_1.is_out() && self.player_2.is_out() ==> self.fought_out(order_1, order_2)
                == None::<WarView>,
    {
        reveal_with_fuel(Table::face_down, 4);
        let start = Table { last_1: None, last_2: None, ..self };
        start.lemma_draw_of_the_empty_handed(order_1, order_2);
        start.face_down(order_1, order_2, 1).lemma_draw_of_the_empty_handed(order_1, order_2);
        start.face_down(order_1, order_2, 2).lemma_draw_of_the_empty_handed(order_1, order_2);
        start.face_down(order_1, order_2, 3).lemma_draw_uses_supply(order_1, order_2, false);
    }
}

impl WarView {
    /// A game with one full set of cards counts 52 cards, hands and
    /// capture piles of both players together.
    pub proof fn lemma_single_set_counts_52(self)
        requires
            self.is_single_set(),
        ensures
            self.count() == 52,
    {
        broadcast use vstd::multiset::group_multiset_axioms;

        to_multiset_len(self.player_1.hand);
        to_multiset_len(self.player_1.capture);
        to_multiset_len(self.player_2.hand);
        to_multiset_len(self.player_2.capture);
        to_multiset_len(Card::full_set());
    }

    /// No step adds a card to the game or takes one out of it: after a
    /// step the game holds the cards it held before, each as often, and
    /// so as many as before. This holds whatever the orders of the
    /// refills, as long as each is a reordering of the player's captured
    /// cards.
    pub proof fn lemma_step_keeps_cards(self, order_1: Seq<Card>, order_2: Seq<Card>)
        requires
            !self.is_over(),
            is_reordering(order_1, self.player_1.capture),
            is_reordering(order_2, self.player_2.capture),
        ensures
            self.stepped(order_1, order_2) matches Some(after) ==> after.cards() == self.cards()
                && after.count() == self.count(),
    {
        broadcast use vstd::multiset::group_multiset_axioms;

        let player_1 = self.player_1.refilled(order_1);
        let player_2 = self.player_2.refilled(order_2);
        self.player_1.lemma_refill_keeps_cards(order_1);
        self.player_2.lemma_refill_keeps_cards(order_2);
        player_1.lemma_play_takes_top();
        player_2.lemma_play_takes_top();
        let card_1 = player_1.hand.last();
        let card_2 = player_2.hand.last();
        let table = Table {
            player_1: player_1.without_top(),
            player_2: player_2.without_top(),
            pot: seq![card_1, card_2],
            last_1: None,
            last_2: None,
        };
        assert(table.pot =~= Seq::<Card>::empty().push(card_1).push(card_2));
        to_multiset_build(Seq::<Card>::empty(), card_1);
        to_multiset_build(Seq::<Card>::empty().push(card_1), card_2);
        to_multiset_len(Seq::<Card>::empty());
        table.lemma_pot_stays_in_game();
        table.lemma_war_keeps_cards(order_1, order_2);
    }

    /// Where both players have a card to play and the two cards differ in
    /// rank, the higher rank takes both: the winner's capture pile gains
    /// the card of player 1 and then the card of player 2, each hand
    /// loses its top card, and nothing else changes.
    pub proof fn lemma_higher_card_takes_both(self, order_1: Seq<Card>, order_2: Seq<Card>)
        requires
            self.player_1.hand.len() > 0,
            self.player_2.hand.len() > 0,
            self.player_1.hand.last().rank != self.player_2.hand.last().rank,
        ensures
            ({
                let card_1 = self.player_1.hand.last();
                let card_2 = self.player_2.hand.last();
                let rest_1 = self.player_1.hand.drop_last();
                let rest_2 = self.player_2.hand.drop_last();
                self.stepped(order_1, order_2) == Some(
                    if card_1.rank.ordinal() > card_2.rank.ordinal() {
                        WarView {
                            player_1: Holding {
                                hand: rest_1,
                                capture: self.player_1.capture.push(card_1).push(card_2),
                            },
                            player_2: Holding { hand: rest_2, capture: self.player_2.capture },
                        }
                    } else {
                        WarView {
                            player_1: Holding { hand: rest_1, capture: self.player_1.capture },
                            player_2: Holding {
                                hand: rest_2,
                                capture: self.player_2.capture.push(card_1).push(card_2),
                            },
                        }
                    },
                )
            }),
    {
    }
}

/// The game that starts when `deck` is dealt out to the two players in
/// turn, player 1 first, as far as it goes round: the capture piles are
/// empty.
pub open spec fn opening(deck: Seq<Card>) -> WarView {
    WarView {
        player_1: Holding { hand: dealt_hand(deck, 2, deck.len() / 2, 0), capture: Seq::empty() },
        player_2: Holding { hand: dealt_hand(deck, 2, deck.len() / 2, 1), capture: Seq::empty() },
    }
}

/// Dealing an even number of cards out to the two players hands every
/// card of the deck to one of them.
pub proof fn lemma_opening_keeps_cards(deck: Seq<Card>)
    requires
        deck.len() % 2 == 0,
    ensures
        opening(deck).cards() == deck.to_multiset(),
        opening(deck).count() == deck.len(),
    decreases deck.len(),
{
    broadcast use vstd::multiset::group_multiset_axioms;

    let hand_1 = opening(deck).player_1.hand;
    let hand_2 = opening(deck).player_2.hand;
    to_multiset_len(Seq::<Card>::empty());
    if deck.len() == 0 {
        assert(hand_1 =~= Seq::<Card>::empty());
        assert(hand_2 =~= Seq::<Card>::empty());
        assert(deck =~= Seq::<Card>::empty());
    } else {
        let rest = deck.skip(2);
        lemma_opening_keeps_cards(rest);
        assert(opening(rest).player_1.hand =~= hand_1.drop_last());
        assert(opening(rest).player_2.hand =~= hand_2.drop_last());
        lemma_top_of_pile(hand_1);
        lemma_top_of_pile(hand_2);
        let bottom = Seq::<Card>::empty().push(deck[0]).push(deck[1]);
        assert(deck =~= bottom + rest);
        lemma_multiset_commutative(bottom, rest);
        to_multiset_build(Seq::<Card>::empty(), deck[0]);
        to_multiset_build(Seq::<Card>::empty().push(deck[0]), deck[1]);
    }
}

/// Whether a step leads from the game `before` to the game `after` with
/// the report `report`, where a refill brings the captured cards in the
/// orders `order_1` and `order_2`.
///
/// In a game that is over, the step reports `Ok(true)` and changes
/// nothing. Otherwise it reports `Ok(false)` and the game is
/// `before.stepped(order_1, order_2)`; if that step ends in a war without
/// a winner, it reports `Err(())` and the game stays as it was.
pub open spec fn is_step(
    before: WarView,
    order_1: Seq<Card>,
    order_2: Seq<Card>,
    report: Result<bool, ()>,
    after: WarView,
) -> bool {
    if before.is_over() {
        report == Ok::<bool, ()>(true) && after == before
    } else {
        match before.stepped(order_1, order_2) {
            Some(next) => report == Ok::<bool, ()>(false) && after == next,
            None => report == Err::<bool, ()>(()) && after == before,
        }
    }
}

/// The state of a game of War: for each player the hand and the pile of
/// captured cards.
#[derive(Debug)]
pub struct WarGame {
    player_1_hand: Hand,
    player_2_hand: Hand,
    player_1_capture: Deck,
    player_2_capture: Deck,
}

/// A game is seen as what the two players hold.
impl View for WarGame {
    type V = WarView;

    closed spec fn view(&self) -> WarView {
        WarView {
            player_1: Holding { hand: self.player_1_hand@, capture: self.player_1_capture@ },
            player_2: Holding { hand: self.player_2_hand@, capture: self.player_2_capture@ },
        }
    }
}

/// Refills the hand from the capture pile if the hand is empty and cards
/// were captured: the captured cards come into the hand in the order
/// `order`.
fn refill(hand: &mut Hand, capture: &mut Deck, order: &Vec<Card>)
    ensures
        (Holding { hand: final(hand)@, capture: final(capture)@ }) == (Holding {
            hand: old(hand)@,
            capture: old(capture)@,
        }).refilled(order@),
{
    if hand.is_empty() && !capture.is_empty() {
        capture.empty();
        hand.extend(order.clone());
    }
}

/// Takes the top card of the hand for the pot, after a refill if the hand
/// is empty.
fn draw(hand: &mut Hand, capture: &mut Deck, order: &Vec<Card>) -> (card: Option<Card>)
    ensures
        card == (Holding { hand: old(hand)@, capture: old(capture)@ }).refilled(order@).top(),
        (Holding { hand: final(hand)@, capture: final(capture)@ }) == (Holding {
            hand: old(hand)@,
            capture: old(capture)@,
        }).refilled(order@).without_top(),
{
    refill(hand, capture, order);
    hand.pop()
}

/// Puts the card into the pot, if there is one, and remembers it as the
/// card shown last.
fn put_in(pot: &mut Vec<Card>, last: &mut Option<Card>, card: Option<Card>)
    ensures
        final(pot)@ == with_card(old(pot)@, card),
        *final(last) == latest(card, *old(last)),
{
    if let Some(shown) = card {
        pot.push(shown);
        *last = card;
    }
}

/// The shuffled pile dealt out into one bucket: the order in which its
/// cards come into a hand.
fn dealt_to_one(shuffled: Deck) -> (order: Vec<Card>)
    ensures
        is_reordering(order@, shuffled@),
{
    let mut copy = shuffled;
    match copy.deal_all_cards(1) {
        Ok(buckets) => {
            let mut buckets = buckets;
            let order = buckets.pop().unwrap();
            proof {
                assert(order@ =~= shuffled@.reverse());
                shuffled@.lemma_reverse_to_multiset();
            }
            order
        },
        Err(_) => {
            let order: Vec<Card> = Vec::new();
            assert(order@ =~= shuffled@);
            order
        },
    }
}

/// A copy of the pile, shuffled with the given seeded generator and dealt
/// out into one bucket.
fn reshuffled_using(pile: &Deck, rng: &mut rand::rngs::StdRng) -> (order: Vec<Card>)
    ensures
        is_reordering(order@, pile@),
{
    let mut copy = pile.clone();
    copy.shuffle(rng);
    dealt_to_one(copy)
}

/// A copy of the pile, shuffled with the generator of the current thread
/// and dealt out into one bucket.
fn reshuffled(pile: &Deck) -> (order: Vec<Card>)
    ensures
        is_reordering(order@, pile@),
{
    let mut copy = pile.clone();
    copy.shuffle_with_default_rng();
    dealt_to_one(copy)
}

/// Deals a shuffled full set out to the two players, 26 cards to each.
fn dealt_out(deck: Deck) -> (game: WarGame)
    requires
        is_reordering(deck@, Card::full_set()),
    ensures
        game@ == opening(deck@),
        game@.is_single_set(),
        game@.count() == 52,
{
    proof {
        to_multiset_len(deck@);
        to_multiset_len(Card::full_set());
        lemma_opening_keeps_cards(deck@);
    }
    WarGame::from_deck(deck).unwrap()
}

impl WarGame {
    /// Sets up a game from the four piles.
    pub fn from_piles(
        player_1_hand: Hand,
        player_2_hand: Hand,
        player_1_capture: Deck,
        player_2_capture: Deck,
    ) -> (game: WarGame)
        ensures
            game@ == (WarView {
                player_1: Holding { hand: player_1_hand@, capture: player_1_capture@ },
                player_2: Holding { hand: player_2_hand@, capture: player_2_capture@ },
            }),
    {
        WarGame { player_1_hand, player_2_hand, player_1_capture, player_2_capture }
    }

    /// Sets up a game by dealing the deck out to the two players in turn,
    /// from the top and player 1 first. Of an odd number of cards the
    /// bottom one takes no part. A deck of fewer than two cards cannot be
    /// dealt: the error is [`DeckDealError::NotEnoughCards`].
    pub fn from_deck(deck: Deck) -> (game: Result<WarGame, DeckDealError>)
        ensures
            match game {
                Ok(game) => deck@.len() >= 2 && game@ == opening(deck@),
                Err(error) => error == DeckDealError::NotEnoughCards && deck@.len() < 2,
            },
    {
        let ghost cards = deck@;
        let mut deck = deck;
        let mut players: Vec<Hand> = Vec::new();
        players.push(Hand::default());
        players.push(Hand::default());
        match deck.deal_all_cards_to_hands(&mut players) {
            Ok(_) => {
                let player_2_hand = players.pop().unwrap();
                let player_1_hand = players.pop().unwrap();
                let game = WarGame {
                    player_1_hand,
                    player_2_hand,
                    player_1_capture: Deck::new_empty(),
                    player_2_capture: Deck::new_empty(),
                };
                Ok(game)
            },
            Err(error) => Err(error),
        }
    }

    /// Sets up a new game with the given seeded generator: one full set of
    /// cards is shuffled and dealt out to the two players, 26 cards to
    /// each, and nothing is captured yet.
    pub fn shuffled(rng: &mut rand::rngs::StdRng) -> (game: WarGame)
        ensures
            exists|deck: Seq<Card>|
                is_reordering(deck, Card::full_set()) && game@ == #[trigger] opening(deck),
            game@.is_single_set(),
            game@.count() == 52,
    {
        let mut deck = Deck::default();
        deck.shuffle(rng);
        dealt_out(deck)
    }

    /// Whether player 1 has won: player 2 has neither a hand nor captured
    /// cards left.
    pub fn player_1_won(&self) -> (won: bool)
        ensures
            won == self@.player_2.is_out(),
    {
        self.player_2_hand.is_empty() && self.player_2_capture.is_empty()
    }

    /// Whether player 2 has won: player 1 has neither a hand nor captured
    /// cards left.
    pub fn player_2_won(&self) -> (won: bool)
        ensures
            won == self@.player_1.is_out(),
    {
        self.player_1_hand.is_empty() && self.player_1_capture.is_empty()
    }

    /// The number of cards that player 1 holds, hand and captured cards
    /// together. The count stops at the largest number that fits.
    pub fn player_1_card_count(&self) -> (count: usize)
        ensures
            self@.player_1.count() <= usize::MAX ==> count == self@.player_1.count(),
            self@.player_1.count() > usize::MAX ==> count == usize::MAX,
    {
        self.player_1_hand.len().saturating_add(self.player_1_capture.len())
    }

    /// The number of cards that player 2 holds, hand and captured cards
    /// together. The count stops at the largest number that fits.
    pub fn player_2_card_count(&self) -> (count: usize)
        ensures
            self@.player_2.count() <= usize::MAX ==> count == self@.player_2.count(),
            self@.player_2.count() > usize::MAX ==> count == usize::MAX,
    {
        self.player_2_hand.len().saturating_add(self.player_2_capture.len())
    }

    /// The hand of player 1.
    pub fn player_1_hand(&self) -> (hand: &Hand)
        ensures
            hand@ == self@.player_1.hand,
    {
        &self.player_1_hand
    }

    /// The hand of player 2.
    pub fn player_2_hand(&self) -> (hand: &Hand)
        ensures
            hand@ == self@.player_2.hand,
    {
        &self.player_2_hand
    }

    /// The pile of cards that player 1 has captured.
    pub fn player_1_capture(&self) -> (capture: &Deck)
        ensures
            capture@ == self@.player_1.capture,
    {
        &self.player_1_capture
    }

    /// The pile of cards that player 2 has captured.
    pub fn player_2_capture(&self) -> (capture: &Deck)
        ensures
            capture@ == self@.player_2.capture,
    {
        &self.player_2_capture
    }

    /// One round of a war: both players draw three times face down,
    /// refilling their hand where it is empty, and once face up, without a
    /// refill. Every card drawn goes into the pot. The result is the card
    /// that each player put in last, if any.
    fn war_round(&mut self, pot: &mut Vec<Card>, order_1: &Vec<Card>, order_2: &Vec<Card>) -> (last:
        (Option<Card>, Option<Card>))
        ensures
            (Table {
                player_1: final(self)@.player_1,
                player_2: final(self)@.player_2,
                pot: final(pot)@,
                last_1: last.0,
                last_2: last.1,
            }) == (Table {
                player_1: old(self)@.player_1,
                player_2: old(self)@.player_2,
                pot: old(pot)@,
                last_1: None,
                last_2: None,
            }).war_round(order_1@, order_2@),
    {
        let ghost start = Table {
            player_1: self@.player_1,
            player_2: self@.player_2,
            pot: pot@,
            last_1: None,
            last_2: None,
        };
        let mut last_1: Option<Card> = None;
        let mut last_2: Option<Card> = None;
        let mut round: usize = 0;
        while round < 3
            invariant
                round <= 3,
                (Table {
                    player_1: self@.player_1,
                    player_2: self@.player_2,
                    pot: pot@,
                    last_1,
                    last_2,
                }) == start.face_down(order_1@, order_2@, round as nat),
            decreases 3 - round,
        {
            let down_1 = draw(&mut self.player_1_hand, &mut self.player_1_capture, order_1);
            let down_2 = draw(&mut self.player_2_hand, &mut self.player_2_capture, order_2);
            put_in(pot, &mut last_1, down_1);
            put_in(pot, &mut last_2, down_2);
            round += 1;
        }
        let up_1 = self.player_1_hand.pop();
        let up_2 = self.player_2_hand.pop();
        put_in(pot, &mut last_1, up_1);
        put_in(pot, &mut last_2, up_2);
        (last_1, last_2)
    }

    /// Advances the game by one step, as [`Game::tick`] does, with the
    /// refills decided by the caller: should the hand of player 1 be
    /// refilled in this step, the captured cards come into it in the order
    /// `order_1`, the last of them on top, and `order_2` does the same for
    /// player 2.
    ///
    /// Each order has to hold the cards of the player's capture pile, each
    /// as often as the pile does.
    ///
    /// The report is `Ok(true)` when the game is over, and then nothing
    /// changes. It is `Ok(false)` when the step was played. It is
    /// `Err(())` when the step led into a war that neither player could
    /// win, both having run out of cards: the game is then left as it was
    /// before the step.
    pub fn tick_with(&mut self, order_1: &Vec<Card>, order_2: &Vec<Card>) -> (report: Result<
        bool,
        (),
    >)
        requires
            is_reordering(order_1@, old(self)@.player_1.capture),
            is_reordering(order_2@, old(self)@.player_2.capture),
        ensures
            is_step(old(self)@, order_1@, order_2@, report, final(self)@),
            final(self)@.cards() == old(self)@.cards(),
            final(self)@.count() == old(self)@.count(),
    {
        if self.player_1_won() || self.player_2_won() {
            return Ok(true);
        }
        proof {
            self@.lemma_step_keeps_cards(order_1@, order_2@);
            to_multiset_len(order_1@);
            to_multiset_len(order_2@);
            to_multiset_len(self@.player_1.capture);
            to_multiset_len(self@.player_2.capture);
        }
        let saved = self.clone();
        refill(&mut self.player_1_hand, &mut self.player_1_capture, order_1);
        refill(&mut self.player_2_hand, &mut self.player_2_capture, order_2);
        let play_1 = Suitless(self.player_1_hand.pop().unwrap());
        let play_2 = Suitless(self.player_2_hand.pop().unwrap());
        if play_1 > play_2 {
            self.player_1_capture.add(play_1.unwrap());
            self.player_1_capture.add(play_2.unwrap());
            assert(Some(self@) =~~= old(self)@.stepped(order_1@, order_2@));
            return Ok(false);
        }
        if play_1 < play_2 {
            self.player_2_capture.add(play_1.unwrap());
            self.player_2_capture.add(play_2.unwrap());
            assert(Some(self@) =~~= old(self)@.stepped(order_1@, order_2@));
            return Ok(false);
        }
        let mut pot: Vec<Card> = Vec::new();
        pot.push(play_1.unwrap());
        pot.push(play_2.unwrap());
        let ghost start = Table {
            player_1: self@.player_1,
            player_2: self@.player_2,
            pot: pot@,
            last_1: None,
            last_2: None,
        };
        assert(start =~~= (Table {
            player_1: old(self)@.player_1.refilled(order_1@).without_top(),
            player_2: old(self)@.player_2.refilled(order_2@).without_top(),
            pot: seq![play_1.0, play_2.0],
            last_1: None,
            last_2: None,
        }));
        loop
            invariant
                saved@ == old(self)@,
                !old(self)@.is_over(),
                old(self)@.stepped(order_1@, order_2@) matches Some(after) ==> after.cards() == old(
                    self,
                )@.cards() && after.count() == old(self)@.count(),
                old(self)@.stepped(order_1@, order_2@) == (Table {
                    player_1: self@.player_1,
                    player_2: self@.player_2,
                    pot: pot@,
                    last_1: None,
                    last_2: None,
                }).fought_out(order_1@, order_2@),
            decreases self@.player_1.supply(order_1@) + self@.player_2.supply(order_2@),
        {
            let ghost before = Table {
                player_1: self@.player_1,
                player_2: self@.player_2,
                pot: pot@,
                last_1: None,
                last_2: None,
            };
            let last = self.war_round(&mut pot, order_1, order_2);
            proof {
                before.lemma_round_uses_supply(order_1@, order_2@);
            }
            let ghost after = before.war_round(order_1@, order_2@);
            match last {
                (Some(card_1), Some(card_2)) => {
                    let shown_1 = Suitless(card_1);
                    let shown_2 = Suitless(card_2);
                    if shown_1 > shown_2 {
                        self.player_1_capture.extend(pot);
                        return Ok(false);
                    }
                    if shown_1 < shown_2 {
                        self.player_2_capture.extend(pot);
                        return Ok(false);
                    }
                    assert(after.fought_out(order_1@, order_2@) == (Table {
                        last_1: None,
                        last_2: None,
                        ..after
                    }).fought_out(order_1@, order_2@));
                },
                (Some(_), None) => {
                    self.player_1_capture.extend(pot);
                    return Ok(false);
                },
                (None, Some(_)) => {
                    self.player_2_capture.extend(pot);
                    return Ok(false);
                },
                (None, None) => {
                    *self = saved;
                    return Err(());
                },
            }
        }
    }
}

impl WarGame {
    /// Advances the game by one step, as [`Game::tick`] does, with the
    /// given seeded generator: a hand that has to be refilled receives the
    /// captured cards in the order in which the generator shuffles them.
    ///
    /// The report is `Ok(true)` when the game is over, and then nothing
    /// changes, however often the step is repeated. It is `Ok(false)` when
    /// the step was played. It is `Err(())` when the step led into a war
    /// that neither player could win, both having run out of cards: the
    /// game is then left as it was before the step.
    ///
    /// Whatever the shuffles give, the game holds the same cards after the
    /// step as before it.
    pub fn tick_using(&mut self, rng: &mut rand::rngs::StdRng) -> (report: Result<bool, ()>)
        ensures
            exists|order_1: Seq<Card>, order_2: Seq<Card>|
                is_reordering(order_1, old(self)@.player_1.capture) && is_reordering(
                    order_2,
                    old(self)@.player_2.capture,
                ) && #[trigger] is_step(old(self)@, order_1, order_2, report, final(self)@),
            old(self)@.is_over() ==> report == Ok::<bool, ()>(true) && final(self)@ == old(self)@,
            final(self)@.cards() == old(self)@.cards(),
            final(self)@.count() == old(self)@.count(),
    {
        if self.player_1_won() || self.player_2_won() {
            assert(is_step(
                self@,
                self@.player_1.capture,
                self@.player_2.capture,
                Ok::<bool, ()>(true),
                self@,
            ));
            return Ok(true);
        }
        let order_1 = reshuffled_using(&self.player_1_capture, rng);
        let order_2 = reshuffled_using(&self.player_2_capture, rng);
        self.tick_with(&order_1, &order_2)
    }
}

/// A copy of a game holds the same piles.
impl Clone for WarGame {
    fn clone(&self) -> (game: WarGame)
        ensures
            game@ == self@,
    {
        WarGame {
            player_1_hand: self.player_1_hand.clone(),
            player_2_hand: self.player_2_hand.clone(),
            player_1_capture: self.player_1_capture.clone(),
            player_2_capture: self.player_2_capture.clone(),
        }
    }
}

impl Default for WarGame {
    /// A new game, shuffled with the generator of the current thread: one
    /// full set of cards is dealt out to the two players, 26 cards to
    /// each, and nothing is captured yet.
    fn default() -> (game: WarGame)
        ensures
            exists|deck: Seq<Card>|
                is_reordering(deck, Card::full_set()) && game@ == #[trigger] opening(deck),
            game@.is_single_set(),
            game@.count() == 52,
    {
        let mut deck = Deck::default();
        deck.shuffle_with_default_rng();
        dealt_out(deck)
    }
}

impl Game for WarGame {
    type TickOk = bool;

    type TickError = ();

    /// Advances the game by one step. A hand that has to be refilled
    /// receives the captured cards in an order shuffled with the generator
    /// of the current thread.
    ///
    /// The report is `Ok(true)` when the game is over, and then nothing
    /// changes, however often the step is repeated. It is `Ok(false)` when
    /// the step was played. It is `Err(())` when the step led into a war
    /// that neither player could win, both having run out of cards: the
    /// game is then left as it was before the step.
    ///
    /// Whatever the shuffles give, the game holds the same cards after the
    /// step as before it.
    fn tick(&mut self) -> (report: Result<bool, ()>)
        ensures
            exists|order_1: Seq<Card>, order_2: Seq<Card>|
                is_reordering(order_1, old(self)@.player_1.capture) && is_reordering(
                    order_2,
                    old(self)@.player_2.capture,
                ) && #[trigger] is_step(old(self)@, order_1, order_2, report, final(self)@),
            old(self)@.is_over() ==> report == Ok::<bool, ()>(true) && final(self)@ == old(self)@,
            final(self)@.cards() == old(self)@.cards(),
            final(self)@.count() == old(self)@.count(),
            old(self)@.is_single_set() ==> final(self)@.is_single_set() && final(self)@.count()
                == 52,
    {
        proof {
            if self@.is_single_set() {
                self@.lemma_single_set_counts_52();
            }
        }
        if self.player_1_won() || self.player_2_won() {
            assert(is_step(
                self@,
                self@.player_1.capture,
                self@.player_2.capture,
                Ok::<bool, ()>(true),
                self@,
            ));
            return Ok(true);
        }
        let order_1 = reshuffled(&self.player_1_capture);
        let order_2 = reshuffled(&self.player_2_capture);
        self.tick_with(&order_1, &order_2)
    }
}

} // verus!
