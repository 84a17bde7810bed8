use vstd::prelude::*;

verus! {

/// A token colour: the five standard colours, and gold, the wildcard that
/// stands in for any of them.
#[derive(Clone, Copy, Debug, PartialEq, Eq, Hash, Structural)]
pub enum GemType {
    Onyx,
    Sapphire,
    Emerald,
    Ruby,
    Diamond,
    Gold,
}

impl GemType {
    /// Every colour once, the wildcard last.
    pub open spec fn spec_all() -> Seq<GemType> {
        seq![
            GemType::Onyx,
            GemType::Sapphire,
            GemType::Emerald,
            GemType::Ruby,
            GemType::Diamond,
            GemType::Gold,
        ]
    }

    /// Every colour once, the wildcard last.
    pub fn all() -> (colors: [GemType; 6])
        ensures
            colors@ == Self::spec_all(),
    {
        let colors = [
            GemType::Onyx,
            GemType::Sapphire,
            GemType::Emerald,
            GemType::Ruby,
            GemType::Diamond,
            GemType::Gold,
        ];
        assert(colors@ =~= Self::spec_all());
        colors
    }
}

} // verus!
