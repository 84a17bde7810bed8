use vstd::prelude::*;
use crate::card::{Card, CardId, Cost};
use crate::card::spec_effective_cost;
use crate::gem_type::GemType;
use crate::payment::{is_payment, lists_payments, payment_options, spec_shortfall};
use crate::token::Tokens;

verus! {

/// How many cards a player may hold in reserve.
pub const MAX_RESERVED: usize = 3;

/// The points that a noble's visit is worth.
pub const NOBLE_POINTS: u8 = 3;

/// What a player lets every other participant see: the reservations are
/// counted, not named.
#[derive(Clone, Copy, Debug, PartialEq, Eq)]
pub struct PlayerPublicInfo {
    pub points: u8,
    pub num_reserved: usize,
    pub developments: Cost,
    pub gems: Tokens,
}

/// The test that keeps every identifier but `id`.
pub open spec fn is_not(id: CardId) -> spec_fn(CardId) -> bool {
    |other: CardId| other != id
}

/// The test that keeps every identifier that `list` does not hold.
pub open spec fn absent_from(list: Seq<CardId>) -> spec_fn(CardId) -> bool {
    |other: CardId| !list.contains(other)
}

/// The state of a player as plain values. The contracts of [`Player`]
/// are stated over it.
pub struct PlayerView {
    /// Victory points in all, the nobles' among them.
    pub points: int,
    /// The part of `points` that nobles brought.
    pub noble_points: int,
    /// The tokens held.
    pub gems: Tokens,
    /// The cards bought, counted per colour.
    pub developments: Tokens,
    /// The cards held in reserve, in the order in which they were taken.
    pub reserved: Seq<CardId>,
    /// Those of `reserved` that were taken unseen.
    pub blind_reserved: Seq<CardId>,
}

impl PlayerView {
    /// What holds of a player at all times.
    pub open spec fn wf(self) -> bool {
        &&& 0 <= self.noble_points <= self.points <= u8::MAX
        &&& self.gems.spec_legal()
        &&& self.developments.spec_legal()
        &&& self.reserved.len() <= MAX_RESERVED
        &&& self.reserved.no_duplicates()
        &&& self.blind_reserved.no_duplicates()
        &&& forall|i: int|
            0 <= i < self.blind_reserved.len() ==> self.reserved.contains(
                #[trigger] self.blind_reserved[i],
            )
    }

    /// A player at the start of a game.
    pub open spec fn fresh() -> PlayerView {
        PlayerView {
            points: 0,
            noble_points: 0,
            gems: Tokens::spec_empty(),
            developments: Tokens::spec_empty(),
            reserved: Seq::empty(),
            blind_reserved: Seq::empty(),
        }
    }

    /// Whether `points` more points still fit the counter.
    pub open spec fn can_add_points(self, points: u8) -> bool {
        self.points + points <= u8::MAX
    }

    /// The state with `points` more points.
    pub open spec fn add_points(self, points: u8) -> PlayerView {
        PlayerView { points: self.points + points, ..self }
    }

    /// The state after a noble's visit: its points count in the total
    /// and among the nobles' points.
    pub open spec fn add_noble_points(self) -> PlayerView {
        PlayerView {
            points: self.points + NOBLE_POINTS,
            noble_points: self.noble_points + NOBLE_POINTS,
            ..self
        }
    }

    /// Whether `gems` can be added: every counter stays in range and none
    /// becomes negative.
    pub open spec fn can_add_gems(self, gems: Tokens) -> bool {
        self.gems.can_add(gems) && self.gems.spec_plus(gems).spec_legal()
    }

    /// The state with `gems` added to the tokens held.
    pub open spec fn add_gems(self, gems: Tokens) -> PlayerView {
        PlayerView { gems: self.gems.spec_plus(gems), ..self }
    }

    /// Whether `gems` can be taken away: every counter stays in range and
    /// none becomes negative.
    pub open spec fn can_remove_gems(self, gems: Tokens) -> bool {
        self.gems.can_sub(gems) && self.gems.spec_minus(gems).spec_legal()
    }

    /// The state with `gems` taken from the tokens held.
    pub open spec fn remove_gems(self, gems: Tokens) -> PlayerView {
        PlayerView { gems: self.gems.spec_minus(gems), ..self }
    }

    /// Whether one more development of `color` still fits the counter.
    pub open spec fn can_add_development(self, color: GemType) -> bool {
        self.developments.spec_get(color) < i8::MAX
    }

    /// The state with one more development of `color`.
    pub open spec fn add_development(self, color: GemType) -> PlayerView {
        PlayerView { developments: self.developments.spec_plus(Tokens::spec_one(color)), ..self }
    }

    /// Whether the card `id` can be taken in reserve: there is room, and
    /// the card is not in reserve already.
    pub open spec fn can_reserve(self, id: CardId) -> bool {
        self.reserved.len() < MAX_RESERVED && !self.reserved.contains(id)
    }

    /// The state with the card `id` taken in reserve, face up.
    pub open spec fn reserve(self, id: CardId) -> PlayerView {
        PlayerView { reserved: self.reserved.push(id), ..self }
    }

    /// The state with the card `id` taken in reserve unseen.
    pub open spec fn blind_reserve(self, id: CardId) -> PlayerView {
        PlayerView {
            reserved: self.reserved.push(id),
            blind_reserved: self.blind_reserved.push(id),
            ..self
        }
    }

    /// Whether `card` can be bought with `payment`: the payment is a legal
    /// vector that the tokens held can give, and the development and the
    /// points still fit their counters. Whether the payment covers the
    /// card's price is not asked here.
    pub open spec fn can_purchase(self, card: Card, payment: Tokens) -> bool {
        &&& payment.spec_legal()
        &&& self.can_remove_gems(payment)
        &&& self.can_add_development(card.gem)
        &&& self.can_add_points(card.points)
    }

    /// The state after `card` was bought with `payment`: the payment is
    /// gone, the card counts as a development of its colour, its points
    /// are added, and the card is in reserve no longer.
    pub open spec fn purchase(self, card: Card, payment: Tokens) -> PlayerView {
        PlayerView {
            points: self.points + card.points,
            noble_points: self.noble_points,
            gems: self.gems.spec_minus(payment),
            developments: self.developments.spec_plus(Tokens::spec_one(card.gem)),
            reserved: self.reserved.filter(is_not(card.id)),
            blind_reserved: self.blind_reserved.filter(is_not(card.id)),
        }
    }

    /// The reservations that every participant knows: those not taken
    /// unseen, in the order in which they were taken.
    pub open spec fn public_reserved(self) -> Seq<CardId> {
        self.reserved.filter(absent_from(self.blind_reserved))
    }

    /// What the other participants may see of this state.
    pub open spec fn to_public(self) -> PlayerPublicInfo {
        PlayerPublicInfo {
            points: self.points as u8,
            num_reserved: self.reserved.len() as usize,
            developments: Cost::spec_from_tokens(&self.developments),
            gems: self.gems,
        }
    }
}

/// One participant's holdings: points, tokens, developments and the
/// cards in reserve.
#[derive(Debug)]
pub struct Player {
    points: u8,
    noble_points: u8,
    reserved: Vec<CardId>,
    gems: Tokens,
    developments: Tokens,
    blind_reserved: Vec<CardId>,
}

impl View for Player {
    type V = PlayerView;

    closed spec fn view(&self) -> PlayerView {
        PlayerView {
            points: self.points as int,
            noble_points: self.noble_points as int,
            gems: self.gems,
            developments: self.developments,
            reserved: self.reserved@,
            blind_reserved: self.blind_reserved@,
        }
    }
}

impl Clone for Player {
    fn clone(&self) -> (copy: Player)
        ensures
            copy@ == self@,
    {
        let reserved = self.reserved.clone();
        let blind_reserved = self.blind_reserved.clone();
        assert(reserved@ =~= self.reserved@);
        assert(blind_reserved@ =~= self.blind_reserved@);
        Player {
            points: self.points,
            noble_points: self.noble_points,
            reserved,
            gems: self.gems,
            developments: self.developments,
            blind_reserved,
        }
    }
}

impl Player {
    /// A player at the start of a game: no points, no tokens, no
    /// developments, nothing in reserve.
    pub fn new() -> (player: Player)
        ensures
            player@ == PlayerView::fresh(),
            player@.wf(),
    {
        Player {
            points: 0,
            noble_points: 0,
            reserved: Vec::new(),
            gems: Tokens::empty(),
            developments: Tokens::empty(),
            blind_reserved: Vec::new(),
        }
    }

    /// The player with the given holdings, or `None` where they break a
    /// rule that holds of every player: too many cards in reserve, a card
    /// in reserve twice, an unseen card that is not in reserve, a
    /// negative counter, or more nobles' points than points in all.
    pub fn from_parts(
        points: u8,
        noble_points: u8,
        gems: Tokens,
        developments: Tokens,
        reserved: Vec<CardId>,
        blind_reserved: Vec<CardId>,
    ) -> (player: Option<Player>)
        ensures
            player is Some <==> (PlayerView {
                points: points as int,
                noble_points: noble_points as int,
                gems,
                developments,
                reserved: reserved@,
                blind_reserved: blind_reserved@,
            }).wf(),
            player is Some ==> player->Some_0@ == (PlayerView {
                points: points as int,
                noble_points: noble_points as int,
                gems,
                developments,
                reserved: reserved@,
                blind_reserved: blind_reserved@,
            }),
    {
        if noble_points <= points && gems.legal() && developments.legal() && reserved.len()
            <= MAX_RESERVED && has_no_repeats(&reserved) && has_no_repeats(&blind_reserved)
            && holds_all(&reserved, &blind_reserved) {
            Some(Player { points, noble_points, reserved, gems, developments, blind_reserved })
        } else {
            None
        }
    }

    /// What the other participants may see of this player.
    pub fn to_public(&self) -> (info: PlayerPublicInfo)
        ensures
            info == self@.to_public(),
    {
        PlayerPublicInfo {
            points: self.points,
            num_reserved: self.reserved.len(),
            developments: Cost::from_tokens(&self.developments),
            gems: self.gems,
        }
    }

    /// Victory points in all.
    pub fn points(&self) -> (points: u8)
        ensures
            points == self@.points,
    {
        self.points
    }

    /// The part of the points that nobles brought.
    pub fn noble_points(&self) -> (points: u8)
        ensures
            points == self@.noble_points,
    {
        self.noble_points
    }

    /// The number of cards in reserve, seen and unseen.
    pub fn num_reserved(&self) -> (count: usize)
        ensures
            count == self@.reserved.len(),
    {
        self.reserved.len()
    }

    /// The identifiers of the cards in reserve that every participant
    /// knows.
    pub fn public_reserved(&self) -> (ids: Vec<CardId>)
        ensures
            ids@ == self@.public_reserved(),
    {
        let mut ids: Vec<CardId> = Vec::new();
        let mut i: usize = 0;
        proof {
            self.reserved@.take(0).lemma_filter_len(absent_from(self.blind_reserved@));
        }
        while i < self.reserved.len()
            invariant
                0 <= i <= self.reserved.len(),
                ids@ =~= self.reserved@.take(i as int).filter(absent_from(self.blind_reserved@)),
            decreases self.reserved.len() - i,
        {
            let id = self.reserved[i];
            proof {
                let seen = self.reserved@.take(i as int);
                assert(self.reserved@.take(i + 1) =~= seen.push(id));
                seen.lemma_filter_push(id, absent_from(self.blind_reserved@));
            }
            if !holds_id(&self.blind_reserved, id) {
                ids.push(id);
            }
            i += 1;
        }
        assert(self.reserved@.take(self.reserved.len() as int) =~= self.reserved@);
        ids
    }

    /// The identifiers of all cards in reserve, seen and unseen.
    pub fn all_reserved(&self) -> (ids: Vec<CardId>)
        ensures
            ids@ == self@.reserved,
    {
        let ids = self.reserved.clone();
        assert(ids@ =~= self.reserved@);
        ids
    }

    /// The identifiers of the cards that were taken in reserve unseen.
    pub fn blind_reserved(&self) -> (ids: Vec<CardId>)
        ensures
            ids@ == self@.blind_reserved,
    {
        let ids = self.blind_reserved.clone();
        assert(ids@ =~= self.blind_reserved@);
        ids
    }

    /// The tokens held.
    pub fn gems(&self) -> (gems: &Tokens)
        ensures
            *gems == self@.gems,
    {
        &self.gems
    }

    /// The cards bought, counted per colour.
    pub fn developments(&self) -> (developments: &Tokens)
        ensures
            *developments == self@.developments,
    {
        &self.developments
    }

    /// Whether the card `card_id` is in reserve.
    pub fn has_reserved_card(&self, card_id: CardId) -> (held: bool)
        ensures
            held == self@.reserved.contains(card_id),
    {
        holds_id(&self.reserved, card_id)
    }

    /// Adds `points` victory points.
    pub fn add_points(&mut self, points: u8)
        requires
            old(self)@.wf(),
            old(self)@.can_add_points(points),
        ensures
            final(self)@ == old(self)@.add_points(points),
            final(self)@.wf(),
    {
        self.points += points;
    }

    /// Awards a noble's visit: its points count in the total and among
    /// the nobles' points.
    pub fn add_noble_points(&mut self)
        requires
            old(self)@.wf(),
            old(self)@.can_add_points(NOBLE_POINTS),
        ensures
            final(self)@ == old(self)@.add_noble_points(),
            final(self)@.wf(),
    {
        self.noble_points += NOBLE_POINTS;
        self.points += NOBLE_POINTS;
    }

    /// Counts one more development of `color`.
    pub fn add_development(&mut self, color: GemType)
        requires
            old(self)@.wf(),
            old(self)@.can_add_development(color),
        ensures
            final(self)@ == old(self)@.add_development(color),
            final(self)@.wf(),
    {
        self.developments = self.developments.plus(Tokens::one(color));
    }

    /// Takes `gems` from the tokens held.
    pub fn remove_gems(&mut self, gems: Tokens)
        requires
            old(self)@.wf(),
            old(self)@.can_remove_gems(gems),
        ensures
            final(self)@ == old(self)@.remove_gems(gems),
            final(self)@.wf(),
    {
        self.gems = self.gems.minus(gems);
    }

    /// Adds `gems` to the tokens held.
    pub fn add_gems(&mut self, gems: Tokens)
        requires
            old(self)@.wf(),
            old(self)@.can_add_gems(gems),
        ensures
            final(self)@ == old(self)@.add_gems(gems),
            final(self)@.wf(),
    {
        self.gems = self.gems.plus(gems);
    }

    /// Buys `card` with `payment`: the payment leaves the tokens held, the
    /// card counts as a development of its colour, its points are added,
    /// and the card leaves the reserve if it was there.
    ///
    /// Whether `payment` covers the card's price is the caller's affair:
    /// it is not asked again here.
    pub fn purchase_card(&mut self, card: &Card, payment: &Tokens)
        requires
            old(self)@.wf(),
            old(self)@.can_purchase(*card, *payment),
        ensures
            final(self)@ == old(self)@.purchase(*card, *payment),
            !old(self)@.reserved.contains(card.id) ==> final(self)@.reserved == old(self)@.reserved
                && final(self)@.blind_reserved == old(self)@.blind_reserved,
            final(self)@.wf(),
    {
        proof {
            lemma_purchase_clears_reservation(self@, *card, *payment);
        }
        self.gems = self.gems.minus(*payment);
        self.add_development(card.gem());
        self.points += card.points();
        remove_id(&mut self.reserved, card.id());
        remove_id(&mut self.blind_reserved, card.id());
    }

    /// Takes the card `card_id` in reserve, face up.
    pub fn reserve_card(&mut self, card_id: CardId)
        requires
            old(self)@.wf(),
            old(self)@.can_reserve(card_id),
        ensures
            final(self)@ == old(self)@.reserve(card_id),
            final(self)@.reserved.len() == old(self)@.reserved.len() + 1,
            final(self)@.wf(),
    {
        proof {
            lemma_reserve_counts_one_more(self@, card_id);
        }
        self.reserved.push(card_id);
    }

    /// Takes the card `card_id` in reserve unseen.
    pub fn blind_reserve_card(&mut self, card_id: CardId)
        requires
            old(self)@.wf(),
            old(self)@.can_reserve(card_id),
        ensures
            final(self)@ == old(self)@.blind_reserve(card_id),
            final(self)@.reserved.len() == old(self)@.reserved.len() + 1,
            final(self)@.wf(),
    {
        proof {
            lemma_reserve_counts_one_more(self@, card_id);
        }
        self.reserved.push(card_id);
        self.blind_reserved.push(card_id);
    }

    /// Every way in which this player can pay for `card`, each listed
    /// once, or `None` where the player cannot afford it.
    ///
    /// The price is the card's cost less the player's developments, per
    /// colour and never below zero. Any unit of it may be paid with a
    /// token of its own colour or with a wildcard.
    pub fn payment_options_for(&self, card: &Card) -> (options: Option<Vec<Tokens>>)
        requires
            self@.wf(),
        ensures
            options is Some <==> spec_shortfall(
                spec_effective_cost(card, &self@.developments),
                self@.gems,
            ) <= self@.gems.gold,
            options is Some ==> options->Some_0@.len() > 0 && lists_payments(
                options->Some_0@,
                spec_effective_cost(card, &self@.developments).spec_to_tokens(),
                self@.gems,
            ),
            options is None ==> forall|p: Tokens|
                !is_payment(
                    spec_effective_cost(card, &self@.developments).spec_to_tokens(),
                    self@.gems,
                    p,
                ),
            spec_effective_cost(card, &self@.developments).spec_total() == 0 ==> options is Some
                && options->Some_0@ == seq![Tokens::spec_empty()],
            self@.gems.spec_total() == 0 && spec_effective_cost(
                card,
                &self@.developments,
            ).spec_total() > 0 ==> options is None,
            options is Some ==> forall|i: int|
                0 <= i < options->Some_0@.len() ==> self@.can_remove_gems(
                    #[trigger] options->Some_0@[i],
                ),
    {
        let cost = card.cost().discounted_with(&self.developments);
        let payments = payment_options(&cost, &self.gems);
        if payments.len() == 0 {
            proof {
                assert forall|p: Tokens| !is_payment(cost.spec_to_tokens(), self@.gems, p) by {
                    if is_payment(cost.spec_to_tokens(), self@.gems, p) {
                        assert(payments@.contains(p));
                    }
                }
            }
            return None;
        }
        Some(payments)
    }
}

/// Why a change to a player was refused. Each fault names the rule that
/// the call would have broken and carries the values that broke it.
#[derive(Clone, Copy, Debug, PartialEq, Eq)]
pub enum InvalidCall {
    /// The points would not fit their counter.
    PointsOverflow { points: u8, added: u8 },
    /// The developments of this colour would not fit their counter.
    DevelopmentOverflow { color: GemType },
    /// The tokens held would leave their range or turn negative.
    IllegalTokens { held: Tokens, change: Tokens },
    /// The payment holds a negative counter.
    MalformedPayment { payment: Tokens },
    /// The reserve is full.
    ReserveFull { reserved: usize },
    /// The card is in reserve already.
    AlreadyReserved { card_id: CardId },
}

impl PlayerView {
    /// The fault in adding `points`, if there is one.
    pub open spec fn add_points_fault(self, points: u8) -> Option<InvalidCall> {
        if self.can_add_points(points) {
            None
        } else {
            Some(InvalidCall::PointsOverflow { points: self.points as u8, added: points })
        }
    }

    /// The fault in counting one more development of `color`, if there is
    /// one.
    pub open spec fn add_development_fault(self, color: GemType) -> Option<InvalidCall> {
        if self.can_add_development(color) {
            None
        } else {
            Some(InvalidCall::DevelopmentOverflow { color })
        }
    }

    /// The fault in adding `gems`, if there is one.
    pub open spec fn add_gems_fault(self, gems: Tokens) -> Option<InvalidCall> {
        if self.can_add_gems(gems) {
            None
        } else {
            Some(InvalidCall::IllegalTokens { held: self.gems, change: gems })
        }
    }

    /// The fault in taking `gems` away, if there is one.
    pub open spec fn remove_gems_fault(self, gems: Tokens) -> Option<InvalidCall> {
        if self.can_remove_gems(gems) {
            None
        } else {
            Some(InvalidCall::IllegalTokens { held: self.gems, change: gems })
        }
    }

    /// The fault in taking the card `id` in reserve, if there is one; a
    /// full reserve is named before a card held twice.
    pub open spec fn reserve_fault(self, id: CardId) -> Option<InvalidCall> {
        if self.reserved.len() >= MAX_RESERVED {
            Some(InvalidCall::ReserveFull { reserved: self.reserved.len() as usize })
        } else if self.reserved.contains(id) {
            Some(InvalidCall::AlreadyReserved { card_id: id })
        } else {
            None
        }
    }

    /// The fault in buying `card` with `payment`, if there is one: the
    /// first of a malformed payment, tokens that cannot give it, a
    /// development that does not fit, and points that do not fit.
    pub open spec fn purchase_fault(self, card: Card, payment: Tokens) -> Option<InvalidCall> {
        if !payment.spec_legal() {
            Some(InvalidCall::MalformedPayment { payment })
        } else if !self.can_remove_gems(payment) {
            Some(InvalidCall::IllegalTokens { held: self.gems, change: payment })
        } else if !self.can_add_development(card.gem) {
            Some(InvalidCall::DevelopmentOverflow { color: card.gem })
        } else if !self.can_add_points(card.points) {
            Some(InvalidCall::PointsOverflow { points: self.points as u8, added: card.points })
        } else {
            None
        }
    }
}

/// A call has a fault exactly where its precondition fails.
pub proof fn lemma_fault_iff_refused(state: PlayerView, card: Card, tokens: Tokens, id: CardId)
    ensures
        state.add_points_fault(card.points) is None <==> state.can_add_points(card.points),
        state.add_development_fault(card.gem) is None <==> state.can_add_development(card.gem),
        state.add_gems_fault(tokens) is None <==> state.can_add_gems(tokens),
        state.remove_gems_fault(tokens) is None <==> state.can_remove_gems(tokens),
        state.reserve_fault(id) is None <==> state.can_reserve(id),
        state.purchase_fault(card, tokens) is None <==> state.can_purchase(card, tokens),
{
}

impl Player {
    /// Adds `points` victory points, or refuses and changes nothing.
    pub fn try_add_points(&mut self, points: u8) -> (outcome: Result<(), InvalidCall>)
        requires
            old(self)@.wf(),
        ensures
            final(self)@.wf(),
            match old(self)@.add_points_fault(points) {
                Some(fault) => outcome == Err::<(), InvalidCall>(fault) && final(self)@ == old(
                    self,
                )@,
                None => outcome is Ok && final(self)@ == old(self)@.add_points(points),
            },
    {
        if points > u8::MAX - self.points {
            return Err(InvalidCall::PointsOverflow { points: self.points, added: points });
        }
        self.add_points(points);
        Ok(())
    }

    /// Awards a noble's visit, or refuses and changes nothing.
    pub fn try_add_noble_points(&mut self) -> (outcome: Result<(), InvalidCall>)
        requires
            old(self)@.wf(),
        ensures
            final(self)@.wf(),
            match old(self)@.add_points_fault(NOBLE_POINTS) {
                Some(fault) => outcome == Err::<(), InvalidCall>(fault) && final(self)@ == old(
                    self,
                )@,
                None => outcome is Ok && final(self)@ == old(self)@.add_noble_points(),
            },
    {
        if NOBLE_POINTS > u8::MAX - self.points {
            return Err(InvalidCall::PointsOverflow { points: self.points, added: NOBLE_POINTS });
        }
        self.add_noble_points();
        Ok(())
    }

    /// Counts one more development of `color`, or refuses and changes
    /// nothing.
    pub fn try_add_development(&mut self, color: GemType) -> (outcome: Result<(), InvalidCall>)
        requires
            old(self)@.wf(),
        ensures
            final(self)@.wf(),
            match old(self)@.add_development_fault(color) {
                Some(fault) => outcome == Err::<(), InvalidCall>(fault) && final(self)@ == old(
                    self,
                )@,
                None => outcome is Ok && final(self)@ == old(self)@.add_development(color),
            },
    {
        if self.developments.get(color) == i8::MAX {
            return Err(InvalidCall::DevelopmentOverflow { color });
        }
        self.add_development(color);
        Ok(())
    }

    /// Adds `gems` to the tokens held, or refuses and changes nothing.
    pub fn try_add_gems(&mut self, gems: Tokens) -> (outcome: Result<(), InvalidCall>)
        requires
            old(self)@.wf(),
        ensures
            final(self)@.wf(),
            match old(self)@.add_gems_fault(gems) {
                Some(fault) => outcome == Err::<(), InvalidCall>(fault) && final(self)@ == old(
                    self,
                )@,
                None => outcome is Ok && final(self)@ == old(self)@.add_gems(gems),
            },
    {
        let allowed = match self.gems.checked_plus(gems) {
            Some(sum) => sum.legal(),
            None => false,
        };
        if !allowed {
            return Err(InvalidCall::IllegalTokens { held: self.gems, change: gems });
        }
        self.add_gems(gems);
        Ok(())
    }

    /// Takes `gems` from the tokens held, or refuses and changes nothing.
    pub fn try_remove_gems(&mut self, gems: Tokens) -> (outcome: Result<(), InvalidCall>)
        requires
            old(self)@.wf(),
        ensures
            final(self)@.wf(),
            match old(self)@.remove_gems_fault(gems) {
                Some(fault) => outcome == Err::<(), InvalidCall>(fault) && final(self)@ == old(
                    self,
                )@,
                None => outcome is Ok && final(self)@ == old(self)@.remove_gems(gems),
            },
    {
        let allowed = match self.gems.checked_minus(gems) {
            Some(rest) => rest.legal(),
            None => false,
        };
        if !allowed {
            return Err(InvalidCall::IllegalTokens { held: self.gems, change: gems });
        }
        self.remove_gems(gems);
        Ok(())
    }

    fn check_reserve(&self, card_id: CardId) -> (outcome: Result<(), InvalidCall>)
        ensures
            match self@.reserve_fault(card_id) {
                Some(fault) => outcome == Err::<(), InvalidCall>(fault),
                None => outcome is Ok,
            },
    {
        if self.reserved.len() >= MAX_RESERVED {
            Err(InvalidCall::ReserveFull { reserved: self.reserved.len() })
        } else if holds_id(&self.reserved, card_id) {
            Err(InvalidCall::AlreadyReserved { card_id })
        } else {
            Ok(())
        }
    }

    /// Takes the card `card_id` in reserve, face up, or refuses and
    /// changes nothing.
    pub fn try_reserve_card(&mut self, card_id: CardId) -> (outcome: Result<(), InvalidCall>)
        requires
            old(self)@.wf(),
        ensures
            final(self)@.wf(),
            match old(self)@.reserve_fault(card_id) {
                Some(fault) => outcome == Err::<(), InvalidCall>(fault) && final(self)@ == old(
                    self,
                )@,
                None => outcome is Ok && final(self)@ == old(self)@.reserve(card_id),
            },
    {
        match self.check_reserve(card_id) {
            Ok(()) => {
                self.reserve_card(card_id);
                Ok(())
            },
            Err(fault) => Err(fault),
        }
    }

    /// Takes the card `card_id` in reserve unseen, or refuses and changes
    /// nothing.
    pub fn try_blind_reserve_card(&mut self, card_id: CardId) -> (outcome: Result<
        (),
        InvalidCall,
    >)
        requires
            old(self)@.wf(),
        ensures
            final(self)@.wf(),
            match old(self)@.reserve_fault(card_id) {
                Some(fault) => outcome == Err::<(), InvalidCall>(fault) && final(self)@ == old(
                    self,
                )@,
                None => outcome is Ok && final(self)@ == old(self)@.blind_reserve(card_id),
            },
    {
        match self.check_reserve(card_id) {
            Ok(()) => {
                self.blind_reserve_card(card_id);
                Ok(())
            },
            Err(fault) => Err(fault),
        }
    }

    /// Buys `card` with `payment`, or refuses and changes nothing.
    pub fn try_purchase_card(&mut self, card: &Card, payment: &Tokens) -> (outcome: Result<
        (),
        InvalidCall,
    >)
        requires
            old(self)@.wf(),
        ensures
            final(self)@.wf(),
            match old(self)@.purchase_fault(*card, *payment) {
                Some(fault) => outcome == Err::<(), InvalidCall>(fault) && final(self)@ == old(
                    self,
                )@,
                None => outcome is Ok && final(self)@ == old(self)@.purchase(*card, *payment),
            },
    {
        if !payment.legal() {
            return Err(InvalidCall::MalformedPayment { payment: *payment });
        }
        let allowed = match self.gems.checked_minus(*payment) {
            Some(rest) => rest.legal(),
            None => false,
        };
        if !allowed {
            return Err(InvalidCall::IllegalTokens { held: self.gems, change: *payment });
        }
        if self.developments.get(card.gem()) == i8::MAX {
            return Err(InvalidCall::DevelopmentOverflow { color: card.gem() });
        }
        if card.points() > u8::MAX - self.points {
            return Err(InvalidCall::PointsOverflow { points: self.points, added: card.points() });
        }
        self.purchase_card(card, payment);
        Ok(())
    }
}

/// Taking a card in reserve, seen or unseen, makes the reserve one card
/// larger and keeps the state well formed; a full reserve takes no card.
pub proof fn lemma_reserve_counts_one_more(state: PlayerView, id: CardId)
    requires
        state.wf(),
    ensures
        state.reserved.len() == MAX_RESERVED ==> !state.can_reserve(id),
        state.can_reserve(id) ==> state.reserve(id).wf() && state.reserve(id).reserved.len()
            == state.reserved.len() + 1,
        state.can_reserve(id) ==> state.blind_reserve(id).wf() && state.blind_reserve(
            id,
        ).reserved.len() == state.reserved.len() + 1,
{
    if state.can_reserve(id) {
        lemma_push_new(state.reserved, id);
        lemma_subset_push(state.blind_reserved, state.reserved, id);
        if state.blind_reserved.contains(id) {
            let i = choose|i: int|
                0 <= i < state.blind_reserved.len() && state.blind_reserved[i] == id;
            assert(state.reserved.contains(state.blind_reserved[i]));
        }
        lemma_push_new(state.blind_reserved, id);
    }
}

/// Buying a card keeps the state well formed and takes the card out of
/// the reserve; buying one that is not in reserve leaves the reserve, its
/// unseen part included, as it was.
pub proof fn lemma_purchase_clears_reservation(state: PlayerView, card: Card, payment: Tokens)
    requires
        state.wf(),
        state.can_purchase(card, payment),
    ensures
        state.purchase(card, payment).wf(),
        !state.purchase(card, payment).reserved.contains(card.id),
        !state.purchase(card, payment).blind_reserved.contains(card.id),
        !state.reserved.contains(card.id) ==> state.purchase(card, payment).reserved
            == state.reserved && state.purchase(card, payment).blind_reserved
            == state.blind_reserved,
{
    lemma_without(state.reserved, card.id);
    lemma_without(state.blind_reserved, card.id);
    lemma_without_subset(state.blind_reserved, state.reserved, card.id);
    if !state.reserved.contains(card.id) && state.blind_reserved.contains(card.id) {
        let i = choose|i: int|
            0 <= i < state.blind_reserved.len() && state.blind_reserved[i] == card.id;
        assert(state.reserved.contains(state.blind_reserved[i]));
    }
}

/// What is left of a list once `id` is taken out.
pub proof fn lemma_without(list: Seq<CardId>, id: CardId)
    ensures
        list.filter(is_not(id)).len() <= list.len(),
        forall|other: CardId|
            #![trigger list.filter(is_not(id)).contains(other)]
            list.filter(is_not(id)).contains(other) <==> (list.contains(other) && other != id),
        list.no_duplicates() ==> list.filter(is_not(id)).no_duplicates(),
        !list.contains(id) ==> list.filter(is_not(id)) == list,
    decreases list.len(),
{
    let kept = list.filter(is_not(id));
    list.lemma_filter_len(is_not(id));
    if list.len() == 0 {
        assert(kept =~= list);
    } else {
        let front = list.drop_last();
        let last = list.last();
        let front_kept = front.filter(is_not(id));
        lemma_without(front, id);
        assert(list =~= front.push(last));
        front.lemma_filter_push(last, is_not(id));
        assert forall|other: CardId| #![trigger kept.contains(other)]
            kept.contains(other) <==> (list.contains(other) && other != id) by {
            if kept.contains(other) {
                let j = choose|j: int| 0 <= j < kept.len() && kept[j] == other;
                if j < front_kept.len() {
                    assert(front_kept[j] == other);
                    assert(front_kept.contains(other));
                    let k = choose|k: int| 0 <= k < front.len() && front[k] == other;
                    assert(list[k] == other);
                } else {
                    assert(list[list.len() - 1] == other);
                }
            }
            if list.contains(other) && other != id {
                let k = choose|k: int| 0 <= k < list.len() && list[k] == other;
                if k < front.len() {
                    assert(front[k] == other);
                    assert(front_kept.contains(other));
                    let j = choose|j: int| 0 <= j < front_kept.len() && front_kept[j] == other;
                    assert(kept[j] == other);
                } else {
                    assert(kept[kept.len() - 1] == other);
                }
            }
        }
        if list.no_duplicates() {
            assert(front.no_duplicates());
            if last != id {
                if front_kept.contains(last) {
                    let k = choose|k: int| 0 <= k < front.len() && front[k] == last;
                    assert(list[k] == list[list.len() - 1]);
                }
                lemma_push_new(front_kept, last);
            }
        }
        if !list.contains(id) {
            assert(last != id) by {
                assert(list[list.len() - 1] == last);
            }
            if front.contains(id) {
                let k = choose|k: int| 0 <= k < front.len() && front[k] == id;
                assert(list[k] == id);
            }
            assert(kept =~= list);
        }
    }
}

/// Taking `id` out of a list and out of a part of it leaves the one a
/// part of the other.
proof fn lemma_without_subset(part: Seq<CardId>, whole: Seq<CardId>, id: CardId)
    requires
        forall|i: int| 0 <= i < part.len() ==> whole.contains(#[trigger] part[i]),
    ensures
        forall|i: int|
            0 <= i < part.filter(is_not(id)).len() ==> whole.filter(is_not(id)).contains(
                #[trigger] part.filter(is_not(id))[i],
            ),
{
    lemma_without(part, id);
    lemma_without(whole, id);
    let part_kept = part.filter(is_not(id));
    assert forall|i: int| 0 <= i < part_kept.len() implies whole.filter(is_not(id)).contains(
        #[trigger] part_kept[i],
    ) by {
        assert(part_kept.contains(part_kept[i]));
        let k = choose|k: int| 0 <= k < part.len() && part[k] == part_kept[i];
        assert(whole.contains(part[k]));
    }
}

/// Takes every occurrence of `id` out of `list` and keeps the rest in
/// order.
fn remove_id(list: &mut Vec<CardId>, id: CardId)
    ensures
        final(list)@ == old(list)@.filter(is_not(id)),
{
    let mut kept: Vec<CardId> = Vec::new();
    let mut i: usize = 0;
    proof {
        list@.take(0).lemma_filter_len(is_not(id));
    }
    while i < list.len()
        invariant
            0 <= i <= list.len(),
            list@ == old(list)@,
            kept@ =~= list@.take(i as int).filter(is_not(id)),
        decreases list.len() - i,
    {
        let other = list[i];
        proof {
            let seen = list@.take(i as int);
            assert(list@.take(i + 1) =~= seen.push(other));
            seen.lemma_filter_push(other, is_not(id));
        }
        if other != id {
            kept.push(other);
        }
        i += 1;
    }
    assert(list@.take(list.len() as int) =~= list@);
    *list = kept;
}

/// Adding an item that a list without repeats does not hold leaves it
/// without repeats.
proof fn lemma_push_new(list: Seq<CardId>, id: CardId)
    requires
        list.no_duplicates(),
        !list.contains(id),
    ensures
        list.push(id).no_duplicates(),
{
}

/// What a list held of another, it holds of the other with one more item.
proof fn lemma_subset_push(part: Seq<CardId>, whole: Seq<CardId>, id: CardId)
    requires
        forall|i: int| 0 <= i < part.len() ==> whole.contains(#[trigger] part[i]),
    ensures
        forall|i: int| 0 <= i < part.len() ==> whole.push(id).contains(#[trigger] part[i]),
        forall|i: int|
            0 <= i < part.push(id).len() ==> whole.push(id).contains(#[trigger] part.push(id)[i]),
{
    assert forall|i: int| 0 <= i < part.len() implies whole.push(id).contains(
        #[trigger] part[i],
    ) by {
        let j = choose|j: int| 0 <= j < whole.len() && whole[j] == part[i];
        assert(whole.push(id)[j] == part[i]);
    }
    assert(whole.push(id)[whole.len() as int] == id);
}

fn has_no_repeats(list: &Vec<CardId>) -> (distinct: bool)
    ensures
        distinct == list@.no_duplicates(),
{
    let mut i: usize = 0;
    while i < list.len()
        invariant
            0 <= i <= list.len(),
            forall|a: int, b: int| 0 <= a < b < i ==> list@[a] != list@[b],
        decreases list.len() - i,
    {
        let mut j: usize = 0;
        while j < i
            invariant
                0 <= j <= i < list.len(),
                forall|a: int| 0 <= a < j ==> list@[a] != list@[i as int],
            decreases i - j,
        {
            if list[j] == list[i] {
                return false;
            }
            j += 1;
        }
        i += 1;
    }
    true
}

fn holds_all(whole: &Vec<CardId>, part: &Vec<CardId>) -> (all: bool)
    ensures
        all == (forall|i: int| 0 <= i < part@.len() ==> whole@.contains(#[trigger] part@[i])),
{
    let mut i: usize = 0;
    while i < part.len()
        invariant
            0 <= i <= part.len(),
            forall|k: int| 0 <= k < i ==> whole@.contains(#[trigger] part@[k]),
        decreases part.len() - i,
    {
        if !holds_id(whole, part[i]) {
            return false;
        }
        i += 1;
    }
    true
}

fn holds_id(list: &Vec<CardId>, id: CardId) -> (held: bool)
    ensures
        held == list@.contains(id),
{
    let mut i: usize = 0;
    while i < list.len()
        invariant
            0 <= i <= list.len(),
            forall|j: int| 0 <= j < i ==> list@[j] != id,
        decreases list.len() - i,
    {
        if list[i] == id {
            return true;
        }
        i += 1;
    }
    false
}

} // verus!
