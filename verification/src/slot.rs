//! Slots: the demand units of an encounter.

use crate::game::{Color, Level, Number};
use vstd::prelude::*;

verus! {

/// The monster that a slot is bound to.
#[derive(Clone, Copy, Debug, PartialEq, Eq, Hash, Structural)]
pub enum MonsterRef {
    /// The monster at a position of the monster catalog.
    Listed(usize),
    /// The stand-in for a special unit that no monster of the catalog
    /// represents.
    PureSpecial,
}

/// One slot of an encounter: a request for a monster of a color class and a
/// level tier, or a commitment to one monster.
#[derive(Clone, Copy, Debug, PartialEq, Eq, Hash, Structural)]
pub struct SlotRequest {
    /// The player count from which on the slot is used, if it has one.
    pub number: Option<Number>,
    /// The declared color class, if one is declared.
    pub color: Option<Color>,
    /// The level tier.
    pub level: Level,
    /// The monster that the slot is bound to, if it is bound.
    pub monster: Option<MonsterRef>,
    /// Whether the slot only keeps its monster out of the encounter.
    pub exclude: bool,
    /// Whether a preset fixed the slot's monster.
    pub preset: bool,
}

impl SlotRequest {
    /// Whether the slot is open: not bound, and not an exclusion.
    pub open spec fn spec_is_open(self) -> bool {
        self.monster is None && !self.exclude
    }

    /// Whether the slot is open: not bound, and not an exclusion.
    #[verifier::when_used_as_spec(spec_is_open)]
    pub fn is_open(self) -> (r: bool)
        ensures
            r == self.spec_is_open(),
    {
        self.monster.is_none() && !self.exclude
    }

    /// Whether the slot is bound to the monster at position `id` of the
    /// catalog.
    pub open spec fn spec_binds(self, id: int) -> bool {
        match self.monster {
            Some(MonsterRef::Listed(m)) => m == id,
            _ => false,
        }
    }

    /// Whether the slot is bound to the monster at position `id` of the
    /// catalog.
    #[verifier::when_used_as_spec(spec_binds_usize)]
    pub fn binds(self, id: usize) -> (r: bool)
        ensures
            r == self.spec_binds(id as int),
    {
        match self.monster {
            Some(MonsterRef::Listed(m)) => m == id,
            _ => false,
        }
    }

    /// Whether the slot is bound to the monster at position `id` of the
    /// catalog.
    pub open spec fn spec_binds_usize(self, id: usize) -> bool {
        self.spec_binds(id as int)
    }
}

} // verus!
