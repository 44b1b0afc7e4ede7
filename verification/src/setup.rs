//! Presets: curated encounters, the rows of their text form, and the rules
//! that a preset must meet.

use crate::error::{CatalogError, ErrorKind, ErrorModel};
use crate::game::{Color, Content, GameLanguage, Level, Number, Special};
use crate::monster::{
    fields, lemma_index_from, line_numbers, spec_fields, spec_index_of, MonsterCatalog,
    MonsterModel,
};
use crate::slot::{MonsterRef, SlotRequest};
use crate::text::{
    chars_of, copy_of, eq_str, find, lemma_find, lines, parse_u64, slice_of, spec_find,
    spec_lines, spec_parse_u64, string_of, views,
};
use vstd::prelude::*;

verus! {

/// What the color of a slot is where the slot is marked special, is bound to
/// a special unit, and the unit forces no color class of its own.
#[derive(Clone, Copy, Debug, PartialEq, Eq, Structural)]
pub enum SpecialDefault {
    /// The slot has no color.
    NoColor,
    /// The slot counts as a commander's.
    Commander,
}

/// What a slot code says: the color class, where one is declared, the
/// player-count number and the level tier.
#[derive(Clone, Copy, Debug, PartialEq, Eq, Structural)]
pub struct SlotCode {
    pub color: Option<Color>,
    pub number: Number,
    pub level: Level,
}

/// The color that the first character of a slot code declares: `W`, `G`,
/// `B` and `C` declare a class, `S` marks a special slot that declares none.
pub open spec fn spec_color_char(c: char) -> Option<Option<Color>> {
    if c == 'W' {
        Some(Some(Color::White))
    } else if c == 'G' {
        Some(Some(Color::Gray))
    } else if c == 'B' {
        Some(Some(Color::Black))
    } else if c == 'C' {
        Some(Some(Color::Commander))
    } else if c == 'S' {
        Some(None)
    } else {
        None
    }
}

/// The color that the first character of a slot code declares.
pub fn color_char(c: char) -> (r: Option<Option<Color>>)
    ensures
        r == spec_color_char(c),
{
    if c == 'W' {
        Some(Some(Color::White))
    } else if c == 'G' {
        Some(Some(Color::Gray))
    } else if c == 'B' {
        Some(Some(Color::Black))
    } else if c == 'C' {
        Some(Some(Color::Commander))
    } else if c == 'S' {
        Some(None)
    } else {
        None
    }
}

/// The rank that a level code names: one of the four two-letter codes.
pub open spec fn spec_level_code(s: Seq<char>) -> Option<Level> {
    if s == Level::Rookie.spec_id() {
        Some(Level::Rookie)
    } else if s == Level::Fighter.spec_id() {
        Some(Level::Fighter)
    } else if s == Level::Veteran.spec_id() {
        Some(Level::Veteran)
    } else if s == Level::Champion.spec_id() {
        Some(Level::Champion)
    } else {
        None
    }
}

/// The rank that a level code names.
pub fn level_code(s: &[char]) -> (r: Option<Level>)
    ensures
        r == spec_level_code(s@),
{
    if eq_str(s, Level::Rookie.id()) {
        Some(Level::Rookie)
    } else if eq_str(s, Level::Fighter.id()) {
        Some(Level::Fighter)
    } else if eq_str(s, Level::Veteran.id()) {
        Some(Level::Veteran)
    } else if eq_str(s, Level::Champion.id()) {
        Some(Level::Champion)
    } else {
        None
    }
}

/// Whether a declared color is one of the three regular classes, which take
/// a rank.
pub open spec fn spec_is_regular(color: Option<Color>) -> bool {
    color == Some(Color::White) || color == Some(Color::Gray) || color == Some(Color::Black)
}

/// Whether a declared color is one of the three regular classes.
#[verifier::when_used_as_spec(spec_is_regular)]
pub fn is_regular(color: Option<Color>) -> (r: bool)
    ensures
        r == spec_is_regular(color),
{
    match color {
        Some(Color::White) | Some(Color::Gray) | Some(Color::Black) => true,
        _ => false,
    }
}

/// The part of a slot code after its first space; nothing where it has no
/// space.
pub open spec fn spec_code_tail(f1: Seq<char>) -> Seq<char> {
    let sp = spec_find(f1, ' ', 0);
    if sp < f1.len() {
        f1.subrange(sp + 1, f1.len() as int)
    } else {
        seq![]
    }
}

/// What a slot code says.  The code is a color character, a digit from 1 to
/// 5 and, for a regular color, a space and a level code.  A commander's or
/// special slot takes no level code: its tier is the special one.  The
/// checks come in this order: the length of the part before the space, the
/// color, the number, the level.
pub open spec fn spec_slot_code(f1: Seq<char>) -> Result<SlotCode, ErrorKind> {
    let sp = spec_find(f1, ' ', 0);
    let tail = spec_code_tail(f1);
    if sp < 2 {
        Err(ErrorKind::FieldTooShort)
    } else if sp > 2 {
        Err(ErrorKind::MalformedSlot)
    } else {
        match spec_color_char(f1[0]) {
            None => Err(ErrorKind::UnknownColorCode),
            Some(color) => match Number::spec_from_digit(f1[1]) {
                None => Err(ErrorKind::UnknownNumber),
                Some(number) => if spec_is_regular(color) {
                    match spec_level_code(tail) {
                        None => Err(ErrorKind::UnknownRegularLevel),
                        Some(level) => Ok(SlotCode { color, number, level }),
                    }
                } else if tail.len() == 0 {
                    Ok(SlotCode { color, number, level: Level::Special(None) })
                } else {
                    Err(ErrorKind::UnknownSpecialLevel)
                },
            },
        }
    }
}

/// Reads a slot code.
pub fn slot_code(f1: &[char]) -> (r: Result<SlotCode, ErrorKind>)
    ensures
        r == spec_slot_code(f1@),
{
    let sp = find(f1, ' ', 0);
    if sp < 2 {
        return Err(ErrorKind::FieldTooShort);
    }
    if sp > 2 {
        return Err(ErrorKind::MalformedSlot);
    }
    let tail = if sp < f1.len() {
        slice_of(f1, sp + 1, f1.len())
    } else {
        Vec::new()
    };
    assert(tail@ =~= spec_code_tail(f1@));
    let color = match color_char(f1[0]) {
        Some(c) => c,
        None => {
            return Err(ErrorKind::UnknownColorCode);
        },
    };
    let number = match Number::from_digit(f1[1]) {
        Some(n) => n,
        None => {
            return Err(ErrorKind::UnknownNumber);
        },
    };
    if is_regular(color) {
        match level_code(tail.as_slice()) {
            Some(level) => Ok(SlotCode { color, number, level }),
            None => Err(ErrorKind::UnknownRegularLevel),
        }
    } else if tail.len() == 0 {
        Ok(SlotCode { color, number, level: Level::Special(None) })
    } else {
        Err(ErrorKind::UnknownSpecialLevel)
    }
}

/// What a monster field binds a slot to: a monster, and the special unit
/// that the field named, where it named one.
#[derive(Clone, Copy, Debug, PartialEq, Eq, Structural)]
pub struct Binding {
    pub monster: Option<MonsterRef>,
    pub special: Option<Special>,
}

/// What a monster field binds a slot to.  An empty field binds nothing.  A
/// field that starts with `*` names a special unit by its English name;
/// the slot is then bound to the monster of the catalog that represents the
/// unit, or to the stand-in where none does.  Any other field names a
/// monster of the catalog by its English name.
pub open spec fn spec_binding(cat: Seq<MonsterModel>, f2: Seq<char>) -> Result<Binding, ErrorKind> {
    if f2.len() == 0 {
        Ok(Binding { monster: None, special: None })
    } else if f2[0] == '*' {
        match Special::spec_parse(f2.subrange(1, f2.len() as int)) {
            None => Err(ErrorKind::UnknownSpecial),
            Some(kind) => match kind.spec_monster() {
                None => Ok(
                    Binding { monster: Some(MonsterRef::PureSpecial), special: Some(kind) },
                ),
                Some(name) => match spec_index_of(cat, name) {
                    None => Err(ErrorKind::UnknownMonster),
                    Some(i) => Ok(
                        Binding {
                            monster: Some(MonsterRef::Listed(i as usize)),
                            special: Some(kind),
                        },
                    ),
                },
            },
        }
    } else {
        match spec_index_of(cat, f2) {
            None => Err(ErrorKind::UnknownMonster),
            Some(i) => Ok(Binding { monster: Some(MonsterRef::Listed(i as usize)), special: None }),
        }
    }
}

/// Reads what a monster field binds a slot to.
pub fn binding(cat: &MonsterCatalog, f2: &[char]) -> (r: Result<Binding, ErrorKind>)
    ensures
        r == spec_binding(cat@, f2@),
        r matches Ok(b) ==> (b.monster matches Some(MonsterRef::Listed(i)) ==> i < cat@.len()),
{
    if f2.len() == 0 {
        return Ok(Binding { monster: None, special: None });
    }
    if f2[0] == '*' {
        let name = slice_of(f2, 1, f2.len());
        let kind = match Special::parse(name.as_slice()) {
            Some(k) => k,
            None => {
                return Err(ErrorKind::UnknownSpecial);
            },
        };
        match kind.monster() {
            None => Ok(Binding { monster: Some(MonsterRef::PureSpecial), special: Some(kind) }),
            Some(represented) => {
                proof {
                    lemma_index_from(cat@, represented@, 0);
                }
                match cat.find(represented) {
                    None => Err(ErrorKind::UnknownMonster),
                    Some(i) => Ok(
                        Binding { monster: Some(MonsterRef::Listed(i)), special: Some(kind) },
                    ),
                }
            },
        }
    } else {
        proof {
            lemma_index_from(cat@, f2@, 0);
        }
        match cat.index_of(f2) {
            None => Err(ErrorKind::UnknownMonster),
            Some(i) => Ok(Binding { monster: Some(MonsterRef::Listed(i)), special: None }),
        }
    }
}

/// The color class of the monster that a slot is bound to, where it is
/// bound to one of the catalog.
pub open spec fn spec_bound_color(cat: Seq<MonsterModel>, monster: Option<MonsterRef>) -> Option<
    Color,
> {
    match monster {
        Some(MonsterRef::Listed(i)) => if i < cat.len() {
            Some(cat[i as int].color)
        } else {
            None
        },
        _ => None,
    }
}

/// The color class of the monster that a slot is bound to.
pub fn bound_color(cat: &MonsterCatalog, monster: Option<MonsterRef>) -> (r: Option<Color>)
    ensures
        r == spec_bound_color(cat@, monster),
{
    match monster {
        Some(MonsterRef::Listed(i)) => match cat.get(i) {
            Some(m) => Some(m.color),
            None => None,
        },
        _ => None,
    }
}

/// The color of a slot that is bound to a special unit: the class that the
/// unit forces, else the class that the slot declares, else what the
/// default says.
pub open spec fn spec_special_color(
    default: SpecialDefault,
    declared: Option<Color>,
    kind: Special,
) -> Option<Color> {
    match kind.spec_color() {
        Some(c) => Some(c),
        None => match declared {
            Some(c) => Some(c),
            None => match default {
                SpecialDefault::NoColor => None,
                SpecialDefault::Commander => Some(Color::Commander),
            },
        },
    }
}

/// The color of a slot that is bound to a special unit.
pub fn special_color(default: SpecialDefault, declared: Option<Color>, kind: Special) -> (r:
    Option<Color>)
    ensures
        r == spec_special_color(default, declared, kind),
{
    match kind.color() {
        Some(c) => Some(c),
        None => match declared {
            Some(c) => Some(c),
            None => match default {
                SpecialDefault::NoColor => None,
                SpecialDefault::Commander => Some(Color::Commander),
            },
        },
    }
}

/// The slot that a pair of fields defines, with the player-count number that
/// the next slot may not fall below; `last` is that number for this slot.
///
/// `Exclude` makes an exclusion: it has no number, color or rank, and is
/// bound to what the monster field names.  Any other first field is a slot
/// code.  Its number may not be less than `last`.  With an empty monster
/// field the slot is open, which a special slot may not be.  A special unit
/// gives the slot its tier, in place of any rank, and its color where it
/// forces one.  A monster of the catalog that the field names itself must
/// have the color that the slot declares, where it declares one.
pub open spec fn spec_item(
    cat: Seq<MonsterModel>,
    default: SpecialDefault,
    f1: Seq<char>,
    f2: Seq<char>,
    last: Number,
) -> Result<(SlotRequest, Number), (ErrorKind, Seq<char>)> {
    if f1 == "Exclude"@ {
        match spec_binding(cat, f2) {
            Err(k) => Err((k, f2)),
            Ok(b) => Ok(
                (
                    SlotRequest {
                        number: None,
                        color: None,
                        level: Level::Special(None),
                        monster: b.monster,
                        exclude: true,
                        preset: b.monster is Some,
                    },
                    last,
                ),
            ),
        }
    } else {
        match spec_slot_code(f1) {
            Err(k) => Err((k, f1)),
            Ok(code) => if code.number.spec_value() < last.spec_value() {
                Err((ErrorKind::NumberDecreased, f1))
            } else if f2.len() == 0 {
                if code.color is None {
                    Err((ErrorKind::SpecialWithoutMonster, f1))
                } else {
                    Ok(
                        (
                            SlotRequest {
                                number: Some(code.number),
                                color: code.color,
                                level: code.level,
                                monster: None,
                                exclude: false,
                                preset: false,
                            },
                            code.number,
                        ),
                    )
                }
            } else {
                match spec_binding(cat, f2) {
                    Err(k) => Err((k, f2)),
                    Ok(b) => match b.special {
                        Some(kind) => Ok(
                            (
                                SlotRequest {
                                    number: Some(code.number),
                                    color: spec_special_color(default, code.color, kind),
                                    level: Level::Special(Some(kind)),
                                    monster: b.monster,
                                    exclude: false,
                                    preset: true,
                                },
                                code.number,
                            ),
                        ),
                        None => if code.color is Some && spec_bound_color(cat, b.monster)
                            != code.color {
                            Err((ErrorKind::ColorMismatch, f2))
                        } else {
                            Ok(
                                (
                                    SlotRequest {
                                        number: Some(code.number),
                                        color: code.color,
                                        level: code.level,
                                        monster: b.monster,
                                        exclude: false,
                                        preset: true,
                                    },
                                    code.number,
                                ),
                            )
                        },
                    },
                }
            },
        }
    }
}

/// Reads the slot that a pair of fields defines.
pub fn item(
    cat: &MonsterCatalog,
    default: SpecialDefault,
    f1: &[char],
    f2: &[char],
    last: Number,
) -> (r: Result<(SlotRequest, Number), (ErrorKind, Vec<char>)>)
    ensures
        match r {
            Ok(p) => spec_item(cat@, default, f1@, f2@, last) == Ok::<
                (SlotRequest, Number),
                (ErrorKind, Seq<char>),
            >(p),
            Err(e) => spec_item(cat@, default, f1@, f2@, last) == Err::<
                (SlotRequest, Number),
                (ErrorKind, Seq<char>),
            >((e.0, e.1@)),
        },
{
    if eq_str(f1, "Exclude") {
        return match binding(cat, f2) {
            Err(k) => Err((k, copy_of(f2))),
            Ok(b) => Ok(
                (
                    SlotRequest {
                        number: None,
                        color: None,
                        level: Level::Special(None),
                        monster: b.monster,
                        exclude: true,
                        preset: b.monster.is_some(),
                    },
                    last,
                ),
            ),
        };
    }
    let code = match slot_code(f1) {
        Ok(c) => c,
        Err(k) => {
            return Err((k, copy_of(f1)));
        },
    };
    if code.number.value() < last.value() {
        return Err((ErrorKind::NumberDecreased, copy_of(f1)));
    }
    if f2.len() == 0 {
        if code.color.is_none() {
            return Err((ErrorKind::SpecialWithoutMonster, copy_of(f1)));
        }
        return Ok(
            (
                SlotRequest {
                    number: Some(code.number),
                    color: code.color,
                    level: code.level,
                    monster: None,
                    exclude: false,
                    preset: false,
                },
                code.number,
            ),
        );
    }
    let b = match binding(cat, f2) {
        Ok(b) => b,
        Err(k) => {
            return Err((k, copy_of(f2)));
        },
    };
    match b.special {
        Some(kind) => {
            Ok(
                (
                    SlotRequest {
                        number: Some(code.number),
                        color: special_color(default, code.color, kind),
                        level: Level::Special(Some(kind)),
                        monster: b.monster,
                        exclude: false,
                        preset: true,
                    },
                    code.number,
                ),
            )
        },
        None => {
            let declared = code.color;
            let actual = bound_color(cat, b.monster);
            let same = match (declared, actual) {
                (Some(d), Some(a)) => d == a,
                (Some(_), None) => false,
                (None, _) => true,
            };
            if !same {
                return Err((ErrorKind::ColorMismatch, copy_of(f2)));
            }
            Ok(
                (
                    SlotRequest {
                        number: Some(code.number),
                        color: code.color,
                        level: code.level,
                        monster: b.monster,
                        exclude: false,
                        preset: true,
                    },
                    code.number,
                ),
            )
        },
    }
}

/// Whether a slot fits a catalog: the monster that it is bound to is in the
/// catalog, and has the color that the slot declares, unless the slot is an
/// exclusion or stands for a special unit.
pub open spec fn slot_ok(cat: Seq<MonsterModel>, slot: SlotRequest) -> bool {
    match slot.monster {
        Some(MonsterRef::Listed(i)) => {
            &&& i < cat.len()
            &&& (!slot.exclude && slot.color is Some && !(slot.level matches Level::Special(
                Some(_),
            )) ==> slot.color == Some(cat[i as int].color))
        },
        _ => true,
    }
}

/// Whether every slot of a roster fits a catalog.
pub open spec fn roster_ok(cat: Seq<MonsterModel>, items: Seq<SlotRequest>) -> bool {
    forall|i: int| 0 <= i < items.len() ==> slot_ok(cat, #[trigger] items[i])
}

/// Whether the player-count numbers of a roster never decrease from one
/// numbered slot to a later one.
pub open spec fn numbers_ordered(items: Seq<SlotRequest>) -> bool {
    forall|i: int, j: int|
        0 <= i < j < items.len() && (#[trigger] items[i]).number is Some && (
        #[trigger] items[j]).number is Some ==> items[i].number->0.spec_value()
            <= items[j].number->0.spec_value()
}

/// Whether no numbered slot of a roster has a player-count number above
/// `last`.
pub open spec fn numbers_below(items: Seq<SlotRequest>, last: Number) -> bool {
    forall|i: int|
        0 <= i < items.len() && (#[trigger] items[i]).number is Some
            ==> items[i].number->0.spec_value() <= last.spec_value()
}

/// A slot that is read fits the catalog, and its number, where it has one,
/// is not below the number before it and is the number that the next slot
/// may not fall below.
pub proof fn lemma_item(
    cat: Seq<MonsterModel>,
    default: SpecialDefault,
    f1: Seq<char>,
    f2: Seq<char>,
    last: Number,
)
    requires
        cat.len() <= usize::MAX,
    ensures
        spec_item(cat, default, f1, f2, last) matches Ok(p) ==> {
            &&& slot_ok(cat, p.0)
            &&& last.spec_value() <= p.1.spec_value()
            &&& p.0.number matches Some(n) ==> n == p.1
        },
{
    lemma_index_from(cat, f2, 0);
    if f2.len() > 0 && f2[0] == '*' {
        match Special::spec_parse(f2.subrange(1, f2.len() as int)) {
            Some(kind) => {
                if kind.spec_monster() is Some {
                    lemma_index_from(cat, kind.spec_monster()->0, 0);
                }
            },
            None => {},
        }
    }
}

/// The number of fields before the first slot of a preset row.
pub const SETUP_FIELDS: usize = 4;

/// The first field of the pair at position `p` of a preset row.
pub open spec fn spec_pair_first(f: Seq<Seq<char>>, p: int) -> Seq<char> {
    f[SETUP_FIELDS + 2 * p]
}

/// The second field of the pair at position `p` of a preset row; empty
/// where the row ends after the first.
pub open spec fn spec_pair_second(f: Seq<Seq<char>>, p: int) -> Seq<char> {
    if SETUP_FIELDS + 2 * p + 1 < f.len() {
        f[SETUP_FIELDS + 2 * p + 1]
    } else {
        seq![]
    }
}

/// The roster that the pairs of a preset row from position `p` on define,
/// after the slots in `acc`.  A pair of two empty fields defines nothing;
/// the first pair that is refused ends the reading with its error.
pub open spec fn spec_items_from(
    cat: Seq<MonsterModel>,
    default: SpecialDefault,
    f: Seq<Seq<char>>,
    p: int,
    last: Number,
    acc: Seq<SlotRequest>,
) -> Result<Seq<SlotRequest>, (ErrorKind, Seq<char>)>
    decreases f.len() - 2 * p,
{
    if p < 0 || SETUP_FIELDS + 2 * p >= f.len() {
        Ok(acc)
    } else {
        let f1 = spec_pair_first(f, p);
        let f2 = spec_pair_second(f, p);
        if f1.len() == 0 && f2.len() == 0 {
            spec_items_from(cat, default, f, p + 1, last, acc)
        } else {
            match spec_item(cat, default, f1, f2, last) {
                Err(e) => Err(e),
                Ok(r) => spec_items_from(cat, default, f, p + 1, r.1, acc.push(r.0)),
            }
        }
    }
}

/// The roster that a preset row defines.  The numbers start at one.
pub open spec fn spec_items(cat: Seq<MonsterModel>, default: SpecialDefault, f: Seq<Seq<char>>)
    -> Result<Seq<SlotRequest>, (ErrorKind, Seq<char>)> {
    spec_items_from(cat, default, f, 0, Number::One, seq![])
}

/// A roster that is read fits the catalog and its numbers never decrease,
/// where that holds of the slots read so far.
pub proof fn lemma_items_from(
    cat: Seq<MonsterModel>,
    default: SpecialDefault,
    f: Seq<Seq<char>>,
    p: int,
    last: Number,
    acc: Seq<SlotRequest>,
)
    requires
        cat.len() <= usize::MAX,
        roster_ok(cat, acc),
        numbers_ordered(acc),
        numbers_below(acc, last),
    ensures
        spec_items_from(cat, default, f, p, last, acc) matches Ok(items) ==> roster_ok(cat, items)
            && numbers_ordered(items),
    decreases f.len() - 2 * p,
{
    if !(p < 0 || SETUP_FIELDS + 2 * p >= f.len()) {
        let f1 = spec_pair_first(f, p);
        let f2 = spec_pair_second(f, p);
        if f1.len() == 0 && f2.len() == 0 {
            lemma_items_from(cat, default, f, p + 1, last, acc);
        } else {
            lemma_item(cat, default, f1, f2, last);
            match spec_item(cat, default, f1, f2, last) {
                Err(e) => {},
                Ok(r) => {
                    let next = acc.push(r.0);
                    assert forall|i: int| 0 <= i < next.len() implies slot_ok(
                        cat,
                        #[trigger] next[i],
                    ) by {
                        if i < acc.len() {
                            assert(next[i] == acc[i]);
                        }
                    }
                    assert forall|i: int|
                        0 <= i < next.len() && (#[trigger] next[i]).number is Some
                            implies next[i].number->0.spec_value() <= r.1.spec_value() by {
                        if i < acc.len() {
                            assert(next[i] == acc[i]);
                        }
                    }
                    assert forall|i: int, j: int|
                        0 <= i < j < next.len() && (#[trigger] next[i]).number is Some && (
                        #[trigger] next[j]).number is Some implies next[i].number->0.spec_value()
                        <= next[j].number->0.spec_value() by {
                        assert(next[i] == acc[i]);
                        if j < acc.len() {
                            assert(next[j] == acc[j]);
                        }
                    }
                    lemma_items_from(cat, default, f, p + 1, r.1, next);
                },
            }
        }
    }
}

/// A preset: one curated encounter.
#[derive(Clone, Debug, PartialEq, Eq)]
pub struct Setup {
    /// The expansion pack that the preset belongs to.
    pub content: Content,
    /// The chapter of the pack's campaign that the preset is for.
    pub chapter: u64,
    /// The English name.
    pub name_en: String,
    /// The German name.
    pub name_de: String,
    /// The roster: the slots of the encounter, in order.
    pub items: Vec<SlotRequest>,
}

/// The mathematical content of a `Setup`.
pub ghost struct SetupModel {
    pub content: Content,
    pub chapter: u64,
    pub name_en: Seq<char>,
    pub name_de: Seq<char>,
    pub items: Seq<SlotRequest>,
}

impl View for Setup {
    type V = SetupModel;

    open spec fn view(&self) -> SetupModel {
        SetupModel {
            content: self.content,
            chapter: self.chapter,
            name_en: self.name_en@,
            name_de: self.name_de@,
            items: self.items@,
        }
    }
}

impl SetupModel {
    /// The rules of a preset over a catalog: every slot fits the catalog,
    /// and the player-count numbers never decrease along the roster.
    pub open spec fn wf(self, cat: Seq<MonsterModel>) -> bool {
        roster_ok(cat, self.items) && numbers_ordered(self.items)
    }

    /// Whether this preset may not stand after `next`: its pack sorts after
    /// that of `next`, or they share the pack and its chapter is the later.
    pub open spec fn after(self, next: SetupModel) -> bool {
        self.content.spec_ordinal() > next.content.spec_ordinal() || (self.content == next.content
            && self.chapter > next.chapter)
    }
}

/// The chapter that a field writes: a number in decimal digits, which one
/// plus sign may precede.
pub open spec fn spec_chapter(s: Seq<char>) -> Option<u64> {
    if s.len() > 0 && s[0] == '+' {
        spec_parse_u64(s.subrange(1, s.len() as int))
    } else {
        spec_parse_u64(s)
    }
}

/// The chapter that a field writes.
pub fn chapter(s: &[char]) -> (r: Option<u64>)
    ensures
        r == spec_chapter(s@),
{
    if s.len() > 0 && s[0] == '+' {
        let digits = slice_of(s, 1, s.len());
        parse_u64(digits.as_slice())
    } else {
        parse_u64(s)
    }
}

/// The preset that a row of at least four fields defines: pack, chapter,
/// English name, German name, then pairs of slot code and monster.  The
/// roster is read first, then the pack, then the chapter.
pub open spec fn spec_setup_row(cat: Seq<MonsterModel>, default: SpecialDefault, f: Seq<Seq<char>>)
    -> Result<SetupModel, (ErrorKind, Seq<char>)>
    recommends
        f.len() >= SETUP_FIELDS,
{
    match spec_items(cat, default, f) {
        Err(e) => Err(e),
        Ok(items) => match Content::spec_parse(f[0]) {
            None => Err((ErrorKind::UnknownContent, f[0])),
            Some(content) => match spec_chapter(f[1]) {
                None => Err((ErrorKind::UnknownChapter, f[1])),
                Some(chapter) => Ok(
                    SetupModel { content, chapter, name_en: f[2], name_de: f[3], items },
                ),
            },
        },
    }
}

/// A row with decreasing slot numbers is refused: the preset that a row
/// defines meets the rules of a preset, so its player-count numbers never
/// decrease along the roster.
pub proof fn lemma_setup_row_wf(
    cat: Seq<MonsterModel>,
    default: SpecialDefault,
    f: Seq<Seq<char>>,
)
    requires
        cat.len() <= usize::MAX,
    ensures
        spec_setup_row(cat, default, f) matches Ok(s) ==> s.wf(cat),
{
    lemma_items_from(cat, default, f, 0, Number::One, seq![]);
}

/// A roster is refused where, from pair `p` on, a slot code follows whose
/// number is less than the number that no slot may fall below.
pub proof fn lemma_number_below_last(
    cat: Seq<MonsterModel>,
    default: SpecialDefault,
    f: Seq<Seq<char>>,
    p: int,
    last: Number,
    acc: Seq<SlotRequest>,
    q: int,
)
    requires
        cat.len() <= usize::MAX,
        0 <= p <= q,
        SETUP_FIELDS + 2 * q < f.len(),
        spec_pair_first(f, q) != "Exclude"@,
        spec_slot_code(spec_pair_first(f, q)) matches Ok(code) && code.number.spec_value()
            < last.spec_value(),
    ensures
        spec_items_from(cat, default, f, p, last, acc) is Err,
    decreases q - p,
{
    let f1 = spec_pair_first(f, p);
    let f2 = spec_pair_second(f, p);
    if p == q {
        lemma_find(f1, ' ', 0);
    } else if f1.len() == 0 && f2.len() == 0 {
        lemma_number_below_last(cat, default, f, p + 1, last, acc, q);
    } else {
        lemma_item(cat, default, f1, f2, last);
        match spec_item(cat, default, f1, f2, last) {
            Err(e) => {},
            Ok(r) => {
                lemma_number_below_last(cat, default, f, p + 1, r.1, acc.push(r.0), q);
            },
        }
    }
}

/// A row with decreasing slot numbers is refused: where the slot code of
/// one pair of a row has a number that is less than that of the slot code
/// of a pair before it, the row defines no preset.
pub proof fn lemma_decreasing_numbers_rejected(
    cat: Seq<MonsterModel>,
    default: SpecialDefault,
    f: Seq<Seq<char>>,
    p: int,
    q: int,
)
    requires
        cat.len() <= usize::MAX,
        0 <= p < q,
        SETUP_FIELDS + 2 * q < f.len(),
        spec_pair_first(f, p) != "Exclude"@,
        spec_pair_first(f, q) != "Exclude"@,
        spec_slot_code(spec_pair_first(f, p)) is Ok,
        spec_slot_code(spec_pair_first(f, q)) is Ok,
        spec_slot_code(spec_pair_first(f, q))->Ok_0.number.spec_value() < spec_slot_code(
            spec_pair_first(f, p),
        )->Ok_0.number.spec_value(),
    ensures
        spec_setup_row(cat, default, f) is Err,
{
    lemma_decrease_after(cat, default, f, 0, Number::One, seq![], p, q);
}

/// A roster is refused where, from pair `k` on, two slot codes follow of
/// which the later has the lesser number.
proof fn lemma_decrease_after(
    cat: Seq<MonsterModel>,
    default: SpecialDefault,
    f: Seq<Seq<char>>,
    k: int,
    last: Number,
    acc: Seq<SlotRequest>,
    p: int,
    q: int,
)
    requires
        cat.len() <= usize::MAX,
        0 <= k <= p < q,
        SETUP_FIELDS + 2 * q < f.len(),
        spec_pair_first(f, p) != "Exclude"@,
        spec_pair_first(f, q) != "Exclude"@,
        spec_slot_code(spec_pair_first(f, p)) is Ok,
        spec_slot_code(spec_pair_first(f, q)) is Ok,
        spec_slot_code(spec_pair_first(f, q))->Ok_0.number.spec_value() < spec_slot_code(
            spec_pair_first(f, p),
        )->Ok_0.number.spec_value(),
    ensures
        spec_items_from(cat, default, f, k, last, acc) is Err,
    decreases p - k,
{
    let f1 = spec_pair_first(f, k);
    let f2 = spec_pair_second(f, k);
    if k == p {
        lemma_find(f1, ' ', 0);
        match spec_item(cat, default, f1, f2, last) {
            Err(e) => {},
            Ok(r) => {
                lemma_number_below_last(cat, default, f, k + 1, r.1, acc.push(r.0), q);
            },
        }
    } else if f1.len() == 0 && f2.len() == 0 {
        lemma_decrease_after(cat, default, f, k + 1, last, acc, p, q);
    } else {
        match spec_item(cat, default, f1, f2, last) {
            Err(e) => {},
            Ok(r) => {
                lemma_decrease_after(cat, default, f, k + 1, r.1, acc.push(r.0), p, q);
            },
        }
    }
}

/// Whether a result of the library is the given result over models.
pub open spec fn setup_result_is(
    r: Result<Setup, CatalogError>,
    line: int,
    model: Result<SetupModel, (ErrorKind, Seq<char>)>,
) -> bool {
    match r {
        Ok(s) => model == Ok::<SetupModel, (ErrorKind, Seq<char>)>(s@),
        Err(e) => model is Err && e@ == (ErrorModel {
            kind: model->Err_0.0,
            line,
            field: model->Err_0.1,
        }),
    }
}

impl Setup {
    /// Reads the preset that the fields of a row define, against the monster
    /// catalog; `line` is the row's line in the text, for the error.
    pub fn read(
        all_monsters: &MonsterCatalog,
        default: SpecialDefault,
        f: &Vec<Vec<char>>,
        line: usize,
    ) -> (r: Result<Setup, CatalogError>)
        requires
            f@.len() >= SETUP_FIELDS,
        ensures
            setup_result_is(r, line as int, spec_setup_row(all_monsters@, default, views(f@))),
            r matches Ok(s) ==> s@.wf(all_monsters@),
    {
        let ghost cat = all_monsters@;
        let ghost vf = views(f@);
        let mut items: Vec<SlotRequest> = Vec::new();
        let mut last = Number::One;
        let n = f.len();
        let pairs: usize = (n - 3) / 2;
        let mut p: usize = 0;
        while p < pairs
            invariant
                vf == views(f@),
                cat == all_monsters@,
                n == f@.len(),
                n >= SETUP_FIELDS,
                pairs == (n - 3) / 2,
                p <= pairs,
                spec_items(cat, default, vf) == spec_items_from(
                    cat,
                    default,
                    vf,
                    p as int,
                    last,
                    items@,
                ),
            decreases pairs - p,
        {
            let at = SETUP_FIELDS + 2 * p;
            let f1 = f[at].as_slice();
            let empty: Vec<char> = Vec::new();
            let f2 = if at + 1 < n {
                f[at + 1].as_slice()
            } else {
                empty.as_slice()
            };
            assert(f1@ == spec_pair_first(vf, p as int));
            assert(f2@ =~= spec_pair_second(vf, p as int));
            if f1.len() != 0 || f2.len() != 0 {
                match item(all_monsters, default, f1, f2, last) {
                    Err(e) => {
                        return Err(CatalogError::new(e.0, line, string_of(e.1.as_slice())));
                    },
                    Ok(r) => {
                        items.push(r.0);
                        last = r.1;
                    },
                }
            }
            p += 1;
        }
        let content = match Content::parse(f[0].as_slice()) {
            Some(c) => c,
            None => {
                return Err(
                    CatalogError::new(
                        ErrorKind::UnknownContent,
                        line,
                        string_of(f[0].as_slice()),
                    ),
                );
            },
        };
        let chapter = match chapter(f[1].as_slice()) {
            Some(c) => c,
            None => {
                return Err(
                    CatalogError::new(
                        ErrorKind::UnknownChapter,
                        line,
                        string_of(f[1].as_slice()),
                    ),
                );
            },
        };
        let count = all_monsters.len();
        proof {
            assert(cat.len() == count);
            lemma_setup_row_wf(cat, default, vf);
        }
        Ok(
            Setup {
                content,
                chapter,
                name_en: string_of(f[2].as_slice()),
                name_de: string_of(f[3].as_slice()),
                items,
            },
        )
    }

    /// The preset's name in a language.
    pub fn name(&self, game_language: GameLanguage) -> (r: &str)
        ensures
            r@ == match game_language {
                GameLanguage::En => self@.name_en,
                GameLanguage::De => self@.name_de,
            },
    {
        match game_language {
            GameLanguage::En => self.name_en.as_str(),
            GameLanguage::De => self.name_de.as_str(),
        }
    }
}

/// The presets that the rows of a text define, each with the line that it
/// stands on.
pub ghost struct SetupRows {
    pub setups: Seq<SetupModel>,
    pub lines: Seq<int>,
}

/// The presets that the lines from line `k` on define, after those in
/// `acc`.  A line of fewer than four fields defines nothing; the first row
/// that is refused ends the reading with its error.
pub open spec fn spec_setups_from(
    cat: Seq<MonsterModel>,
    default: SpecialDefault,
    lines: Seq<Seq<char>>,
    k: int,
    acc: SetupRows,
) -> Result<SetupRows, ErrorModel>
    decreases lines.len() - k,
{
    if k >= lines.len() {
        Ok(acc)
    } else {
        let f = spec_fields(lines[k]);
        if f.len() < SETUP_FIELDS {
            spec_setups_from(cat, default, lines, k + 1, acc)
        } else {
            match spec_setup_row(cat, default, f) {
                Err(e) => Err(ErrorModel { kind: e.0, line: k, field: e.1 }),
                Ok(s) => spec_setups_from(
                    cat,
                    default,
                    lines,
                    k + 1,
                    SetupRows { setups: acc.setups.push(s), lines: acc.lines.push(k) },
                ),
            }
        }
    }
}

/// The presets that the lines of a text define.
pub open spec fn spec_setups(
    cat: Seq<MonsterModel>,
    default: SpecialDefault,
    lines: Seq<Seq<char>>,
) -> Result<SetupRows, ErrorModel> {
    spec_setups_from(cat, default, lines, 0, SetupRows { setups: seq![], lines: seq![] })
}

/// The first preset from position `k` on that may not stand after the one
/// before it.
pub open spec fn spec_unordered_from(setups: Seq<SetupModel>, k: int) -> Option<int>
    decreases setups.len() - k,
{
    if k >= setups.len() {
        None
    } else if k >= 1 && setups[k - 1].after(setups[k]) {
        Some(k)
    } else {
        spec_unordered_from(setups, k + 1)
    }
}

/// Whether the presets are sorted by pack and chapter: none stands after one
/// that it should precede.
pub open spec fn setups_sorted(setups: Seq<SetupModel>) -> bool {
    forall|i: int, j: int|
        0 <= i < j < setups.len() ==> !(#[trigger] setups[i]).after(#[trigger] setups[j])
}

/// The rules of a preset catalog over a monster catalog: every preset meets
/// the rules of a preset, and the presets are sorted.
pub open spec fn presets_wf(cat: Seq<MonsterModel>, setups: Seq<SetupModel>) -> bool {
    &&& forall|i: int| 0 <= i < setups.len() ==> (#[trigger] setups[i]).wf(cat)
    &&& setups_sorted(setups)
}

/// The preset catalog that a text defines over a monster catalog, or the
/// first error in it: that of the first row that is refused, else that of
/// the first preset that stands after one that it should precede.
pub open spec fn spec_setup(cat: Seq<MonsterModel>, default: SpecialDefault, text: Seq<char>)
    -> Result<Seq<SetupModel>, ErrorModel> {
    match spec_setups(cat, default, spec_lines(text)) {
        Err(e) => Err(e),
        Ok(rows) => match spec_unordered_from(rows.setups, 0) {
            Some(j) => Err(
                ErrorModel {
                    kind: ErrorKind::WrongOrder,
                    line: rows.lines[j],
                    field: rows.setups[j].name_en,
                },
            ),
            None => Ok(rows.setups),
        },
    }
}

/// What `spec_unordered_from` finds stands after the preset before it;
/// where it finds nothing, no preset from `k` on does.
pub proof fn lemma_unordered_from(setups: Seq<SetupModel>, k: int)
    requires
        0 <= k,
    ensures
        match spec_unordered_from(setups, k) {
            Some(j) => k <= j < setups.len() && j >= 1 && setups[j - 1].after(setups[j]),
            None => forall|j: int|
                k <= j < setups.len() && j >= 1 ==> !(#[trigger] setups[j - 1]).after(setups[j]),
        },
    decreases setups.len() - k,
{
    if k < setups.len() && !(k >= 1 && setups[k - 1].after(setups[k])) {
        lemma_unordered_from(setups, k + 1);
    }
}

/// Presets of which none stands after the one before it are sorted, and
/// the other way round.
pub proof fn lemma_sorted(setups: Seq<SetupModel>)
    ensures
        setups_sorted(setups) <==> spec_unordered_from(setups, 0) is None,
{
    lemma_unordered_from(setups, 0);
    if spec_unordered_from(setups, 0) is None {
        assert forall|i: int, j: int| 0 <= i < j < setups.len() implies !(
        #[trigger] setups[i]).after(#[trigger] setups[j]) by {
            lemma_sorted_between(setups, i, j);
        }
    } else {
        let j = spec_unordered_from(setups, 0)->0;
        assert(setups[j - 1].after(setups[j]));
    }
}

/// Where no preset stands after the one before it, none stands after any
/// later one.
proof fn lemma_sorted_between(setups: Seq<SetupModel>, i: int, j: int)
    requires
        0 <= i < j < setups.len(),
        forall|k: int| 1 <= k < setups.len() ==> !(#[trigger] setups[k - 1]).after(setups[k]),
    ensures
        !setups[i].after(setups[j]),
    decreases j - i,
{
    if i + 1 < j {
        lemma_sorted_between(setups, i, j - 1);
        assert(!setups[j - 1].after(setups[j]));
    } else {
        assert(!setups[j - 1].after(setups[j]));
    }
}

/// The preset catalog: the presets in the order of their rows, which is the
/// order of their packs and chapters.
#[derive(Clone, Debug, PartialEq, Eq)]
pub struct PresetCatalog {
    pub setups: Vec<Setup>,
}

impl View for PresetCatalog {
    type V = Seq<SetupModel>;

    open spec fn view(&self) -> Seq<SetupModel> {
        self.setups@.map_values(|s: Setup| s@)
    }
}

/// The position of the preset that is number `index`, counted from 0, among
/// those of a pack and a chapter from position `from` on.
pub open spec fn spec_lookup_from(
    setups: Seq<SetupModel>,
    content: Content,
    chapter: u64,
    index: int,
    from: int,
) -> Option<int>
    decreases setups.len() - from,
{
    if from >= setups.len() {
        None
    } else if setups[from].content == content && setups[from].chapter == chapter {
        if index <= 0 {
            Some(from)
        } else {
            spec_lookup_from(setups, content, chapter, index - 1, from + 1)
        }
    } else {
        spec_lookup_from(setups, content, chapter, index, from + 1)
    }
}

impl PresetCatalog {
    /// Whether the catalog meets the rules of a preset catalog over a
    /// monster catalog.
    pub open spec fn wf(&self, cat: Seq<MonsterModel>) -> bool {
        presets_wf(cat, self@)
    }

    /// The number of presets.
    pub fn len(&self) -> (r: usize)
        ensures
            r == self@.len(),
    {
        self.setups.len()
    }

    /// The preset at a position.
    pub fn get(&self, at: usize) -> (r: Option<&Setup>)
        ensures
            match r {
                Some(s) => at < self@.len() && s@ == self@[at as int],
                None => at >= self@.len(),
            },
    {
        if at < self.setups.len() {
            Some(&self.setups[at])
        } else {
            None
        }
    }

    /// The position of the preset that is number `index`, counted from 0,
    /// among those of a pack and a chapter.
    pub fn lookup(&self, content: Content, chapter: u64, index: usize) -> (r: Option<usize>)
        ensures
            match r {
                Some(at) => spec_lookup_from(self@, content, chapter, index as int, 0) == Some(
                    at as int,
                ) && at < self@.len(),
                None => spec_lookup_from(self@, content, chapter, index as int, 0) is None,
            },
    {
        let mut left: usize = index;
        let mut from: usize = 0;
        while from < self.setups.len()
            invariant
                from <= self@.len(),
                self@.len() == self.setups@.len(),
                spec_lookup_from(self@, content, chapter, index as int, 0) == spec_lookup_from(
                    self@,
                    content,
                    chapter,
                    left as int,
                    from as int,
                ),
            decreases self@.len() - from,
        {
            let s = &self.setups[from];
            if s.content == content && s.chapter == chapter {
                if left == 0 {
                    return Some(from);
                }
                left -= 1;
            }
            from += 1;
        }
        None
    }
}

/// Reads the presets that the lines of a text define, each with the line
/// that it stands on.
pub fn read_setups(all_monsters: &MonsterCatalog, default: SpecialDefault, ls: &Vec<Vec<char>>)
    -> (r: Result<(PresetCatalog, Vec<usize>), CatalogError>)
    ensures
        match r {
            Ok(p) => spec_setups(all_monsters@, default, views(ls@)) == Ok::<
                SetupRows,
                ErrorModel,
            >(SetupRows { setups: p.0@, lines: line_numbers(p.1@) })
                && p.1@.len() == p.0@.len() && forall|i: int|
                0 <= i < p.0@.len() ==> (#[trigger] p.0@[i]).wf(all_monsters@),
            Err(e) => spec_setups(all_monsters@, default, views(ls@)) == Err::<
                SetupRows,
                ErrorModel,
            >(e@),
        },
{
    let mut catalog = PresetCatalog { setups: Vec::new() };
    let mut numbers: Vec<usize> = Vec::new();
    let mut k: usize = 0;
    assert(catalog@ =~= seq![]);
    assert(line_numbers(numbers@) =~= seq![]);
    while k < ls.len()
        invariant
            numbers@.len() == catalog@.len(),
            forall|i: int| 0 <= i < catalog@.len() ==> (#[trigger] catalog@[i]).wf(all_monsters@),
            spec_setups(all_monsters@, default, views(ls@)) == spec_setups_from(
                all_monsters@,
                default,
                views(ls@),
                k as int,
                SetupRows { setups: catalog@, lines: line_numbers(numbers@) },
            ),
        decreases ls@.len() - k,
    {
        let f = fields(ls[k].as_slice());
        assert(views(ls@)[k as int] == ls@[k as int]@);
        if f.len() >= SETUP_FIELDS {
            match Setup::read(all_monsters, default, &f, k) {
                Err(e) => {
                    return Err(e);
                },
                Ok(s) => {
                    let ghost before = catalog@;
                    let ghost lines_before = line_numbers(numbers@);
                    catalog.setups.push(s);
                    numbers.push(k);
                    assert(catalog@ =~= before.push(s@));
                    assert(line_numbers(numbers@) =~= lines_before.push(k as int));
                },
            }
        }
        k += 1;
    }
    Ok((catalog, numbers))
}

/// Whether the first preset may not stand before the second.
pub fn stands_after(first: &Setup, second: &Setup) -> (r: bool)
    ensures
        r == first@.after(second@),
{
    let a = first.content.ordinal();
    let b = second.content.ordinal();
    a > b || (a == b && first.chapter > second.chapter)
}

/// Builds the preset catalog from its text, against the monster catalog:
/// one row to a line, the fields of a row set apart by commas, the commas at
/// the end of a line left aside.  A row has the pack, the chapter, the
/// English and the German name, and then pairs of a slot code and a monster;
/// a line of fewer than four fields is passed over.  The catalog is handed
/// out only where every row is read and the presets are sorted by pack and
/// chapter; else the first error is returned.
pub fn setup(monsters: &MonsterCatalog, text: &str, default: SpecialDefault) -> (r: Result<
    PresetCatalog,
    CatalogError,
>)
    ensures
        match r {
            Ok(c) => spec_setup(monsters@, default, text@) == Ok::<Seq<SetupModel>, ErrorModel>(c@)
                && c.wf(monsters@),
            Err(e) => spec_setup(monsters@, default, text@) == Err::<Seq<SetupModel>, ErrorModel>(
                e@,
            ),
        },
        r is Ok <==> (spec_setups(monsters@, default, spec_lines(text@)) matches Ok(rows)
            && setups_sorted(rows.setups)),
{
    let chars = chars_of(text);
    let ls = lines(chars.as_slice());
    let (catalog, numbers) = match read_setups(monsters, default, &ls) {
        Err(e) => {
            return Err(e);
        },
        Ok(p) => p,
    };
    let n = catalog.setups.len();
    let mut k: usize = 0;
    while k < n
        invariant
            k <= n,
            n == catalog@.len(),
            n == catalog.setups@.len(),
            numbers@.len() == n,
            spec_setups(monsters@, default, spec_lines(text@)) == Ok::<SetupRows, ErrorModel>(
                SetupRows { setups: catalog@, lines: line_numbers(numbers@) },
            ),
            spec_unordered_from(catalog@, 0) == spec_unordered_from(catalog@, k as int),
        decreases n - k,
    {
        if k >= 1 && stands_after(&catalog.setups[k - 1], &catalog.setups[k]) {
            return Err(
                CatalogError::new(
                    ErrorKind::WrongOrder,
                    numbers[k],
                    catalog.setups[k].name_en.clone(),
                ),
            );
        }
        k += 1;
    }
    proof {
        lemma_sorted(catalog@);
    }
    Ok(catalog)
}

} // verus!
