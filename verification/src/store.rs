//! The selection state of a session: the slots that the player asks for, the
//! output that the engine last made of them, and the preset that is shown.

use crate::game::{Color, Content, GameLanguage, Level, Number};
use crate::monster::{MonsterCatalog, MonsterModel};
use crate::laws::{output_of, spec_feasible};
use crate::pool::{spec_available, ContentSet};
use crate::select::{
    compute, compute_seeded, compute_with, draws_ok, spec_compute_seeded, spec_compute_with,
};
use crate::setup::Setup;
use crate::slot::{MonsterRef, SlotRequest};
use vstd::prelude::*;

verus! {

/// The preset that a selection was loaded from.
#[derive(Clone, Debug, PartialEq, Eq)]
pub struct PresetRef {
    pub content: Content,
    pub chapter: u64,
    pub name: String,
}

/// The selection state: the slots asked for, in order; the output that the
/// engine last made of them, which is empty where it failed; and the preset
/// that the selection was loaded from, while it is still that preset.
#[derive(Clone, Debug, PartialEq, Eq)]
pub struct SelectStore {
    pub selected: Vec<SlotRequest>,
    pub output: Vec<SlotRequest>,
    pub setup: Option<PresetRef>,
}

/// What the state shows for an output of the engine: the output, or nothing
/// where the engine failed.  No part of a failed attempt is shown.
pub open spec fn spec_output(output: Option<Seq<SlotRequest>>) -> Seq<SlotRequest> {
    match output {
        Some(out) => out,
        None => seq![],
    }
}

/// Whether `output` is what the engine makes of a selection on some draws
/// of the candidate pool and the available pool.
pub open spec fn recomputed(
    output: Seq<SlotRequest>,
    selection: Seq<SlotRequest>,
    cat: Seq<MonsterModel>,
    enabled: Set<Content>,
) -> bool {
    exists|first: Seq<usize>, second: Seq<usize>|
        draws_ok(selection, cat, enabled, first, second) && output == spec_output(
            #[trigger] spec_compute_with(selection, cat, first, second),
        )
}

/// Whether `output` is what the state shows after the engine ran on a
/// selection: where the available pool can serve the selection, an output
/// served from the available pool, such as the engine makes on some draws;
/// else nothing.
pub open spec fn put_out(
    output: Seq<SlotRequest>,
    selection: Seq<SlotRequest>,
    cat: Seq<MonsterModel>,
    enabled: Set<Content>,
) -> bool {
    &&& recomputed(output, selection, cat, enabled)
    &&& spec_feasible(selection, cat, spec_available(cat, enabled)) ==> output_of(
        selection,
        cat,
        spec_available(cat, enabled),
        output,
    )
    &&& !spec_feasible(selection, cat, spec_available(cat, enabled)) ==> output == Seq::<
        SlotRequest,
    >::empty()
}

/// Whether the monster that a slot is bound to is out of play: it is of a
/// pack that is not enabled, or is no monster of the catalog.
pub open spec fn spec_out_of_play(
    cat: Seq<MonsterModel>,
    enabled: Set<Content>,
    slot: SlotRequest,
) -> bool {
    match slot.monster {
        Some(MonsterRef::Listed(id)) => id >= cat.len() || !enabled.contains(
            cat[id as int].content,
        ),
        _ => false,
    }
}

/// A slot after the packs changed: open again where its monster is out of
/// play, with its number, color, tier and flags as they were; else as it
/// was.
pub open spec fn spec_adjust_slot(
    cat: Seq<MonsterModel>,
    enabled: Set<Content>,
    slot: SlotRequest,
) -> SlotRequest {
    if spec_out_of_play(cat, enabled, slot) {
        SlotRequest {
            number: slot.number,
            color: slot.color,
            level: slot.level,
            monster: None,
            exclude: slot.exclude,
            preset: slot.preset,
        }
    } else {
        slot
    }
}

/// A selection after the packs changed: every slot adjusted.
pub open spec fn spec_adjust(
    cat: Seq<MonsterModel>,
    enabled: Set<Content>,
    selection: Seq<SlotRequest>,
) -> Seq<SlotRequest> {
    selection.map_values(|slot: SlotRequest| spec_adjust_slot(cat, enabled, slot))
}

/// A slot of a preset as it is loaded: fixed by the preset exactly where it
/// is bound.
pub open spec fn spec_load_slot(slot: SlotRequest) -> SlotRequest {
    SlotRequest {
        number: slot.number,
        color: slot.color,
        level: slot.level,
        monster: slot.monster,
        exclude: slot.exclude,
        preset: slot.monster is Some,
    }
}

/// The selection that loading a preset gives: a copy of its roster.
pub open spec fn spec_load(items: Seq<SlotRequest>) -> Seq<SlotRequest> {
    items.map_values(|slot: SlotRequest| spec_load_slot(slot))
}

/// The tier that a slot of a color class takes.  A white, gray or black slot
/// takes the tier that is asked for.  A commander's or special slot takes no
/// rank: where a rank is asked for, its tier is the special one that names
/// no unit.
pub open spec fn spec_tier_for(color: Color, level: Level) -> Level {
    if color == Color::White || color == Color::Gray || color == Color::Black {
        level
    } else {
        match level {
            Level::Special(unit) => Level::Special(unit),
            _ => Level::Special(None),
        }
    }
}

/// The tier that a slot of a color class takes.
#[verifier::when_used_as_spec(spec_tier_for)]
pub fn tier_for(color: Color, level: Level) -> (r: Level)
    ensures
        r == spec_tier_for(color, level),
{
    match color {
        Color::White | Color::Gray | Color::Black => level,
        _ => match level {
            Level::Special(unit) => Level::Special(unit),
            _ => Level::Special(None),
        },
    }
}

/// A slot as the player adds it: not an exclusion, and fixed by no preset.
pub open spec fn spec_new_slot(
    number: Option<Number>,
    color: Color,
    level: Level,
    monster: Option<MonsterRef>,
) -> SlotRequest {
    SlotRequest {
        number,
        color: Some(color),
        level: spec_tier_for(color, level),
        monster,
        exclude: false,
        preset: false,
    }
}

impl SelectStore {
    /// The state at the start of a session: nothing selected, nothing put
    /// out, no preset.
    pub fn new() -> (r: SelectStore)
        ensures
            r.selected@ == Seq::<SlotRequest>::empty(),
            r.output@ == Seq::<SlotRequest>::empty(),
            r.setup is None,
    {
        SelectStore { selected: Vec::new(), output: Vec::new(), setup: None }
    }

    /// Puts out what the engine makes of the selection on two pools that are
    /// drawn already; nothing where it fails.  The preset is kept only where
    /// `keep_setup` says so.
    pub fn output_with(
        &mut self,
        catalog: &MonsterCatalog,
        first: Vec<usize>,
        second: Vec<usize>,
        keep_setup: bool,
    )
        ensures
            final(self).selected@ == old(self).selected@,
            final(self).output@ == spec_output(
                spec_compute_with(old(self).selected@, catalog@, first@, second@),
            ),
            keep_setup ==> final(self).setup == old(self).setup,
            !keep_setup ==> final(self).setup is None,
    {
        if !keep_setup {
            self.setup = None;
        }
        match compute_with(self.selected.as_slice(), catalog, first, second) {
            Some(out) => {
                self.output = out;
            },
            None => {
                self.output = Vec::new();
            },
        }
    }

    /// Runs the engine on the selection with shuffles that a seed decides,
    /// and puts out what it makes; nothing where it fails.  The preset is
    /// kept only where `keep_setup` says so.  The state afterwards is a
    /// function of the state before, the enabled packs, the catalog and the
    /// seed: the same seed puts out the same again.
    pub fn output_seeded(
        &mut self,
        enabled: &ContentSet,
        catalog: &MonsterCatalog,
        seed: u64,
        keep_setup: bool,
    )
        ensures
            final(self).selected@ == old(self).selected@,
            final(self).output@ == spec_output(
                spec_compute_seeded(old(self).selected@, catalog@, enabled@, seed),
            ),
            spec_feasible(old(self).selected@, catalog@, spec_available(catalog@, enabled@))
                ==> output_of(
                old(self).selected@,
                catalog@,
                spec_available(catalog@, enabled@),
                final(self).output@,
            ),
            !spec_feasible(old(self).selected@, catalog@, spec_available(catalog@, enabled@))
                ==> final(self).output@ == Seq::<SlotRequest>::empty(),
            keep_setup ==> final(self).setup == old(self).setup,
            !keep_setup ==> final(self).setup is None,
    {
        if !keep_setup {
            self.setup = None;
        }
        match compute_seeded(self.selected.as_slice(), enabled, catalog, seed) {
            Some(out) => {
                self.output = out;
            },
            None => {
                self.output = Vec::new();
            },
        }
    }

    /// Runs the engine on the selection and puts out what it makes; nothing
    /// where it fails.  The preset is kept only where `keep_setup` says so.
    pub fn output(&mut self, enabled: &ContentSet, catalog: &MonsterCatalog, keep_setup: bool)
        ensures
            final(self).selected@ == old(self).selected@,
            put_out(final(self).output@, old(self).selected@, catalog@, enabled@),
            keep_setup ==> final(self).setup == old(self).setup,
            !keep_setup ==> final(self).setup is None,
    {
        if !keep_setup {
            self.setup = None;
        }
        match compute(self.selected.as_slice(), enabled, catalog) {
            Some(out) => {
                self.output = out;
            },
            None => {
                self.output = Vec::new();
            },
        }
    }

    /// Adds a slot at the end of the selection, open or bound to a monster
    /// that the player chose, and runs the engine.  The selection is then no
    /// longer a preset.
    pub fn add(
        &mut self,
        number: Option<Number>,
        color: Color,
        level: Level,
        monster: Option<MonsterRef>,
        enabled: &ContentSet,
        catalog: &MonsterCatalog,
    )
        ensures
            final(self).selected@ == old(self).selected@.push(
                spec_new_slot(number, color, level, monster),
            ),
            put_out(final(self).output@, final(self).selected@, catalog@, enabled@),
            final(self).setup is None,
    {
        self.selected.push(
            SlotRequest {
                number,
                color: Some(color),
                level: tier_for(color, level),
                monster,
                exclude: false,
                preset: false,
            },
        );
        self.output(enabled, catalog, false);
    }

    /// Takes the slot at `index` out of the selection and runs the engine;
    /// the selection is then no longer a preset.  Where the selection has no
    /// such slot, nothing changes and `false` is returned.
    pub fn remove(&mut self, index: usize, enabled: &ContentSet, catalog: &MonsterCatalog) -> (r:
        bool)
        ensures
            r == (index < old(self).selected@.len()),
            !r ==> *final(self) == *old(self),
            r ==> final(self).selected@ == old(self).selected@.remove(index as int),
            r ==> put_out(final(self).output@, final(self).selected@, catalog@, enabled@),
            r ==> final(self).setup is None,
    {
        if index >= self.selected.len() {
            return false;
        }
        self.selected.remove(index);
        self.output(enabled, catalog, false);
        true
    }

    /// Runs the engine again on the same selection, with a fresh shuffle.
    /// The selection and the preset stay as they are.
    pub fn randomize(&mut self, enabled: &ContentSet, catalog: &MonsterCatalog)
        ensures
            final(self).selected@ == old(self).selected@,
            put_out(final(self).output@, old(self).selected@, catalog@, enabled@),
            final(self).setup == old(self).setup,
    {
        self.output(enabled, catalog, true);
    }

    /// Follows a change of the enabled packs: every slot bound to a monster
    /// that is out of play is open again, the engine is run, and the
    /// selection is no longer a preset.
    pub fn adjust_content(&mut self, enabled: &ContentSet, catalog: &MonsterCatalog)
        ensures
            final(self).selected@ == spec_adjust(catalog@, enabled@, old(self).selected@),
            put_out(final(self).output@, final(self).selected@, catalog@, enabled@),
            final(self).setup is None,
    {
        let n = self.selected.len();
        let mut i: usize = 0;
        while i < n
            invariant
                i <= n,
                n == self.selected@.len(),
                n == old(self).selected@.len(),
                forall|k: int|
                    0 <= k < i ==> self.selected@[k] == spec_adjust_slot(
                        catalog@,
                        enabled@,
                        old(self).selected@[k],
                    ),
                forall|k: int| i <= k < n ==> self.selected@[k] == old(self).selected@[k],
            decreases n - i,
        {
            let slot = self.selected[i];
            let out_of_play = match slot.monster {
                Some(MonsterRef::Listed(id)) => match catalog.get(id) {
                    Some(m) => !enabled.contains(m.content),
                    None => true,
                },
                _ => false,
            };
            if out_of_play {
                self.selected.set(
                    i,
                    SlotRequest {
                        number: slot.number,
                        color: slot.color,
                        level: slot.level,
                        monster: None,
                        exclude: slot.exclude,
                        preset: slot.preset,
                    },
                );
            }
            i += 1;
        }
        assert(self.selected@ =~= spec_adjust(catalog@, enabled@, old(self).selected@));
        self.output(enabled, catalog, false);
    }

    /// Loads a preset: the selection becomes a copy of its roster, each slot
    /// fixed by the preset exactly where it is bound; the engine is run; and
    /// the preset is noted, under its name in the given language.
    pub fn load(
        &mut self,
        setup: &Setup,
        game_language: GameLanguage,
        enabled: &ContentSet,
        catalog: &MonsterCatalog,
    )
        ensures
            final(self).selected@ == spec_load(setup@.items),
            put_out(final(self).output@, final(self).selected@, catalog@, enabled@),
            final(self).setup matches Some(p) && p.content == setup@.content && p.chapter
                == setup@.chapter && p.name@ == (match game_language {
                GameLanguage::En => setup@.name_en,
                GameLanguage::De => setup@.name_de,
            }),
    {
        let mut selected: Vec<SlotRequest> = Vec::new();
        let mut i: usize = 0;
        while i < setup.items.len()
            invariant
                i <= setup.items@.len(),
                selected@.len() == i,
                forall|k: int| 0 <= k < i ==> selected@[k] == spec_load_slot(setup.items@[k]),
            decreases setup.items@.len() - i,
        {
            let slot = setup.items[i];
            selected.push(
                SlotRequest {
                    number: slot.number,
                    color: slot.color,
                    level: slot.level,
                    monster: slot.monster,
                    exclude: slot.exclude,
                    preset: slot.monster.is_some(),
                },
            );
            i += 1;
        }
        assert(selected@ =~= spec_load(setup@.items));
        self.selected = selected;
        self.output(enabled, catalog, false);
        self.setup = Some(
            PresetRef {
                content: setup.content,
                chapter: setup.chapter,
                name: String::from_str(setup.name(game_language)),
            },
        );
    }
}

/// Enables a pack that is not enabled, or disables one that is, and lets
/// the selection follow.
pub fn toggle_content(
    enabled: &mut ContentSet,
    store: &mut SelectStore,
    content: Content,
    catalog: &MonsterCatalog,
)
    ensures
        final(enabled)@ == if old(enabled)@.contains(content) {
            old(enabled)@.remove(content)
        } else {
            old(enabled)@.insert(content)
        },
        final(store).selected@ == spec_adjust(catalog@, final(enabled)@, old(store).selected@),
        put_out(final(store).output@, final(store).selected@, catalog@, final(enabled)@),
        final(store).setup is None,
{
    enabled.toggle(content);
    store.adjust_content(enabled, catalog);
}

} // verus!
