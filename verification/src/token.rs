use vstd::prelude::*;
use crate::gem_type::GemType;

verus! {

/// By how much `amount` exceeds `held`: the difference where it is
/// positive, else nothing.
pub open spec fn excess(amount: i8, held: i8) -> int {
    if amount - held > 0 {
        amount - held
    } else {
        0
    }
}

/// A vector of token counts, one counter per colour.
///
/// The counters are signed so that a difference of two holdings can be
/// formed before it is judged; a vector that a player may hold has no
/// negative counter (see [`Tokens::legal`]).
#[derive(Clone, Copy, Debug, PartialEq, Eq, Hash, Structural)]
pub struct Tokens {
    pub onyx: i8,
    pub sapphire: i8,
    pub emerald: i8,
    pub ruby: i8,
    pub diamond: i8,
    pub gold: i8,
}

impl Tokens {
    /// The counter of one colour.
    pub open spec fn spec_get(&self, color: GemType) -> i8 {
        match color {
            GemType::Onyx => self.onyx,
            GemType::Sapphire => self.sapphire,
            GemType::Emerald => self.emerald,
            GemType::Ruby => self.ruby,
            GemType::Diamond => self.diamond,
            GemType::Gold => self.gold,
        }
    }

    /// The number of tokens over all colours, the wildcard included.
    pub open spec fn spec_total(&self) -> int {
        self.onyx + self.sapphire + self.emerald + self.ruby + self.diamond + self.gold
    }

    /// No counter is negative.
    pub open spec fn spec_legal(&self) -> bool {
        &&& self.onyx >= 0
        &&& self.sapphire >= 0
        &&& self.emerald >= 0
        &&& self.ruby >= 0
        &&& self.diamond >= 0
        &&& self.gold >= 0
    }

    /// The vector with every counter zero.
    pub open spec fn spec_empty() -> Tokens {
        Tokens { onyx: 0, sapphire: 0, emerald: 0, ruby: 0, diamond: 0, gold: 0 }
    }

    /// The vector with one token of `color` and nothing else.
    pub open spec fn spec_one(color: GemType) -> Tokens {
        Tokens {
            onyx: if color == GemType::Onyx { 1i8 } else { 0i8 },
            sapphire: if color == GemType::Sapphire { 1i8 } else { 0i8 },
            emerald: if color == GemType::Emerald { 1i8 } else { 0i8 },
            ruby: if color == GemType::Ruby { 1i8 } else { 0i8 },
            diamond: if color == GemType::Diamond { 1i8 } else { 0i8 },
            gold: if color == GemType::Gold { 1i8 } else { 0i8 },
        }
    }

    /// Every counter of the elementwise sum fits an `i8`.
    pub open spec fn can_add(&self, other: Tokens) -> bool {
        &&& i8::MIN <= self.onyx + other.onyx <= i8::MAX
        &&& i8::MIN <= self.sapphire + other.sapphire <= i8::MAX
        &&& i8::MIN <= self.emerald + other.emerald <= i8::MAX
        &&& i8::MIN <= self.ruby + other.ruby <= i8::MAX
        &&& i8::MIN <= self.diamond + other.diamond <= i8::MAX
        &&& i8::MIN <= self.gold + other.gold <= i8::MAX
    }

    /// Every counter of the elementwise difference fits an `i8`.
    pub open spec fn can_sub(&self, other: Tokens) -> bool {
        &&& i8::MIN <= self.onyx - other.onyx <= i8::MAX
        &&& i8::MIN <= self.sapphire - other.sapphire <= i8::MAX
        &&& i8::MIN <= self.emerald - other.emerald <= i8::MAX
        &&& i8::MIN <= self.ruby - other.ruby <= i8::MAX
        &&& i8::MIN <= self.diamond - other.diamond <= i8::MAX
        &&& i8::MIN <= self.gold - other.gold <= i8::MAX
    }

    /// The elementwise sum; meaningful where [`Tokens::can_add`] holds.
    pub open spec fn spec_plus(&self, other: Tokens) -> Tokens {
        Tokens {
            onyx: (self.onyx + other.onyx) as i8,
            sapphire: (self.sapphire + other.sapphire) as i8,
            emerald: (self.emerald + other.emerald) as i8,
            ruby: (self.ruby + other.ruby) as i8,
            diamond: (self.diamond + other.diamond) as i8,
            gold: (self.gold + other.gold) as i8,
        }
    }

    /// The elementwise difference; meaningful where [`Tokens::can_sub`] holds.
    pub open spec fn spec_minus(&self, other: Tokens) -> Tokens {
        Tokens {
            onyx: (self.onyx - other.onyx) as i8,
            sapphire: (self.sapphire - other.sapphire) as i8,
            emerald: (self.emerald - other.emerald) as i8,
            ruby: (self.ruby - other.ruby) as i8,
            diamond: (self.diamond - other.diamond) as i8,
            gold: (self.gold - other.gold) as i8,
        }
    }

    /// No counter of `self` exceeds the same counter of `other`.
    pub open spec fn within(&self, other: Tokens) -> bool {
        &&& self.onyx <= other.onyx
        &&& self.sapphire <= other.sapphire
        &&& self.emerald <= other.emerald
        &&& self.ruby <= other.ruby
        &&& self.diamond <= other.diamond
        &&& self.gold <= other.gold
    }

    /// The vector with every counter zero.
    #[verifier::when_used_as_spec(spec_empty)]
    pub fn empty() -> (tokens: Tokens)
        ensures
            tokens == Self::spec_empty(),
    {
        Tokens { onyx: 0, sapphire: 0, emerald: 0, ruby: 0, diamond: 0, gold: 0 }
    }

    /// The vector with one token of `color` and nothing else.
    #[verifier::when_used_as_spec(spec_one)]
    pub fn one(color: GemType) -> (tokens: Tokens)
        ensures
            tokens == Self::spec_one(color),
    {
        let mut tokens = Tokens { onyx: 0, sapphire: 0, emerald: 0, ruby: 0, diamond: 0, gold: 0 };
        match color {
            GemType::Onyx => tokens.onyx = 1,
            GemType::Sapphire => tokens.sapphire = 1,
            GemType::Emerald => tokens.emerald = 1,
            GemType::Ruby => tokens.ruby = 1,
            GemType::Diamond => tokens.diamond = 1,
            GemType::Gold => tokens.gold = 1,
        }
        tokens
    }

    /// The counter of one colour.
    #[verifier::when_used_as_spec(spec_get)]
    pub fn get(&self, color: GemType) -> (count: i8)
        ensures
            count == self.spec_get(color),
    {
        match color {
            GemType::Onyx => self.onyx,
            GemType::Sapphire => self.sapphire,
            GemType::Emerald => self.emerald,
            GemType::Ruby => self.ruby,
            GemType::Diamond => self.diamond,
            GemType::Gold => self.gold,
        }
    }

    /// The number of tokens over all colours, the wildcard included.
    pub fn total(&self) -> (total: i32)
        ensures
            total == self.spec_total(),
    {
        let onyx: i32 = self.onyx as i32;
        let sapphire: i32 = self.sapphire as i32;
        let emerald: i32 = self.emerald as i32;
        let ruby: i32 = self.ruby as i32;
        let diamond: i32 = self.diamond as i32;
        let gold: i32 = self.gold as i32;
        onyx + sapphire + emerald + ruby + diamond + gold
    }

    /// Whether no counter is negative.
    #[verifier::when_used_as_spec(spec_legal)]
    pub fn legal(&self) -> (legal: bool)
        ensures
            legal == self.spec_legal(),
    {
        self.onyx >= 0 && self.sapphire >= 0 && self.emerald >= 0 && self.ruby >= 0
            && self.diamond >= 0 && self.gold >= 0
    }

    /// The elementwise sum.
    #[verifier::when_used_as_spec(spec_plus)]
    pub fn plus(&self, other: Tokens) -> (sum: Tokens)
        requires
            self.can_add(other),
        ensures
            sum == self.spec_plus(other),
    {
        Tokens {
            onyx: self.onyx + other.onyx,
            sapphire: self.sapphire + other.sapphire,
            emerald: self.emerald + other.emerald,
            ruby: self.ruby + other.ruby,
            diamond: self.diamond + other.diamond,
            gold: self.gold + other.gold,
        }
    }

    /// The elementwise difference.
    #[verifier::when_used_as_spec(spec_minus)]
    pub fn minus(&self, other: Tokens) -> (difference: Tokens)
        requires
            self.can_sub(other),
        ensures
            difference == self.spec_minus(other),
    {
        Tokens {
            onyx: self.onyx - other.onyx,
            sapphire: self.sapphire - other.sapphire,
            emerald: self.emerald - other.emerald,
            ruby: self.ruby - other.ruby,
            diamond: self.diamond - other.diamond,
            gold: self.gold - other.gold,
        }
    }

    /// The elementwise sum, or `None` where a counter of it does not fit.
    pub fn checked_plus(&self, other: Tokens) -> (sum: Option<Tokens>)
        ensures
            self.can_add(other) ==> sum == Some(self.spec_plus(other)),
            !self.can_add(other) ==> sum is None,
    {
        if fits(self.onyx as i16 + other.onyx as i16) && fits(
            self.sapphire as i16 + other.sapphire as i16,
        ) && fits(self.emerald as i16 + other.emerald as i16) && fits(
            self.ruby as i16 + other.ruby as i16,
        ) && fits(self.diamond as i16 + other.diamond as i16) && fits(
            self.gold as i16 + other.gold as i16,
        ) {
            Some(self.plus(other))
        } else {
            None
        }
    }

    /// The elementwise difference, or `None` where a counter of it does
    /// not fit.
    pub fn checked_minus(&self, other: Tokens) -> (difference: Option<Tokens>)
        ensures
            self.can_sub(other) ==> difference == Some(self.spec_minus(other)),
            !self.can_sub(other) ==> difference is None,
    {
        if fits(self.onyx as i16 - other.onyx as i16) && fits(
            self.sapphire as i16 - other.sapphire as i16,
        ) && fits(self.emerald as i16 - other.emerald as i16) && fits(
            self.ruby as i16 - other.ruby as i16,
        ) && fits(self.diamond as i16 - other.diamond as i16) && fits(
            self.gold as i16 - other.gold as i16,
        ) {
            Some(self.minus(other))
        } else {
            None
        }
    }
}

fn fits(counter: i16) -> (fits: bool)
    ensures
        fits == (i8::MIN <= counter <= i8::MAX),
{
    -128 <= counter && counter <= 127
}

} // verus!
