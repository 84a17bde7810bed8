use vstd::prelude::*;
use crate::gem_type::GemType;
use crate::token::{excess, Tokens};

verus! {

/// The stable identifier of a card.
pub type CardId = u8;

/// The price of a card: an amount per standard colour. A price never asks
/// for the wildcard.
#[derive(Clone, Copy, Debug, PartialEq, Eq, Hash, Structural)]
pub struct Cost {
    pub onyx: i8,
    pub sapphire: i8,
    pub emerald: i8,
    pub ruby: i8,
    pub diamond: i8,
}

fn discount_one(amount: i8, discount: i8) -> (rest: i8)
    requires
        amount - discount <= i8::MAX,
    ensures
        rest == excess(amount, discount),
{
    let amount: i16 = amount as i16;
    let discount: i16 = discount as i16;
    let difference: i16 = amount - discount;
    if difference > 0 {
        difference as i8
    } else {
        0
    }
}

impl Cost {
    /// The same amounts as a token vector, with no wildcard.
    pub open spec fn spec_to_tokens(&self) -> Tokens {
        Tokens {
            onyx: self.onyx,
            sapphire: self.sapphire,
            emerald: self.emerald,
            ruby: self.ruby,
            diamond: self.diamond,
            gold: 0,
        }
    }

    /// The standard colours of a token vector; its wildcard counter is
    /// left out.
    pub open spec fn spec_from_tokens(tokens: &Tokens) -> Cost {
        Cost {
            onyx: tokens.onyx,
            sapphire: tokens.sapphire,
            emerald: tokens.emerald,
            ruby: tokens.ruby,
            diamond: tokens.diamond,
        }
    }

    /// The number of tokens asked for over all colours.
    pub open spec fn spec_total(&self) -> int {
        self.onyx + self.sapphire + self.emerald + self.ruby + self.diamond
    }

    /// No amount is negative.
    pub open spec fn spec_legal(&self) -> bool {
        &&& self.onyx >= 0
        &&& self.sapphire >= 0
        &&& self.emerald >= 0
        &&& self.ruby >= 0
        &&& self.diamond >= 0
    }

    /// Every discounted amount fits an `i8`. This holds whenever no
    /// discount is negative.
    pub open spec fn can_discount(&self, developments: &Tokens) -> bool {
        &&& self.onyx - developments.onyx <= i8::MAX
        &&& self.sapphire - developments.sapphire <= i8::MAX
        &&& self.emerald - developments.emerald <= i8::MAX
        &&& self.ruby - developments.ruby <= i8::MAX
        &&& self.diamond - developments.diamond <= i8::MAX
    }

    /// The price that is left once each colour's developments are taken
    /// off: per colour the difference, floored at zero. The wildcard
    /// counter of `developments` plays no part.
    pub open spec fn spec_discounted_with(&self, developments: &Tokens) -> Cost {
        Cost {
            onyx: excess(self.onyx, developments.onyx) as i8,
            sapphire: excess(self.sapphire, developments.sapphire) as i8,
            emerald: excess(self.emerald, developments.emerald) as i8,
            ruby: excess(self.ruby, developments.ruby) as i8,
            diamond: excess(self.diamond, developments.diamond) as i8,
        }
    }

    /// The same amounts as a token vector, with no wildcard.
    #[verifier::when_used_as_spec(spec_to_tokens)]
    pub fn to_tokens(&self) -> (tokens: Tokens)
        ensures
            tokens == self.spec_to_tokens(),
    {
        Tokens {
            onyx: self.onyx,
            sapphire: self.sapphire,
            emerald: self.emerald,
            ruby: self.ruby,
            diamond: self.diamond,
            gold: 0,
        }
    }

    /// The standard colours of a token vector; its wildcard counter is
    /// left out.
    #[verifier::when_used_as_spec(spec_from_tokens)]
    pub fn from_tokens(tokens: &Tokens) -> (cost: Cost)
        ensures
            cost == Self::spec_from_tokens(tokens),
    {
        Cost {
            onyx: tokens.onyx,
            sapphire: tokens.sapphire,
            emerald: tokens.emerald,
            ruby: tokens.ruby,
            diamond: tokens.diamond,
        }
    }

    /// Whether no amount is negative.
    #[verifier::when_used_as_spec(spec_legal)]
    pub fn legal(&self) -> (legal: bool)
        ensures
            legal == self.spec_legal(),
    {
        self.onyx >= 0 && self.sapphire >= 0 && self.emerald >= 0 && self.ruby >= 0
            && self.diamond >= 0
    }

    /// The price that is left once each colour's developments are taken
    /// off, floored at zero per colour.
    #[verifier::when_used_as_spec(spec_discounted_with)]
    pub fn discounted_with(&self, developments: &Tokens) -> (rest: Cost)
        requires
            self.can_discount(developments),
        ensures
            rest == self.spec_discounted_with(developments),
            rest.spec_legal(),
    {
        Cost {
            onyx: discount_one(self.onyx, developments.onyx),
            sapphire: discount_one(self.sapphire, developments.sapphire),
            emerald: discount_one(self.emerald, developments.emerald),
            ruby: discount_one(self.ruby, developments.ruby),
            diamond: discount_one(self.diamond, developments.diamond),
        }
    }
}

/// A development card: what it costs, the colour in which it grants a
/// discount once bought, and the points it is worth.
#[derive(Clone, Copy, Debug, PartialEq, Eq, Hash, Structural)]
pub struct Card {
    pub points: u8,
    pub cost: Cost,
    pub gem: GemType,
    pub id: CardId,
}

impl Card {
    /// The card's price before any discount.
    pub fn cost(&self) -> (cost: Cost)
        ensures
            cost == self.cost,
    {
        self.cost
    }

    /// The colour in which the card grants a discount.
    pub fn gem(&self) -> (gem: GemType)
        ensures
            gem == self.gem,
    {
        self.gem
    }

    /// The points the card is worth.
    pub fn points(&self) -> (points: u8)
        ensures
            points == self.points,
    {
        self.points
    }

    /// The card's identifier.
    pub fn id(&self) -> (id: CardId)
        ensures
            id == self.id,
    {
        self.id
    }
}

/// The effective cost of `card` for a player with the given developments.
pub open spec fn spec_effective_cost(card: &Card, developments: &Tokens) -> Cost {
    card.cost.spec_discounted_with(developments)
}

/// The effective cost of `card` for a player with the given developments:
/// per standard colour `max(0, cost - developments)`. Wildcards play no
/// part at this stage.
#[verifier::when_used_as_spec(spec_effective_cost)]
pub fn effective_cost(card: &Card, developments: &Tokens) -> (cost: Cost)
    requires
        card.cost.can_discount(developments),
    ensures
        cost == spec_effective_cost(card, developments),
        cost.spec_legal(),
{
    card.cost.discounted_with(developments)
}

} // verus!
