//! The errors that stop the building of a catalog.

use vstd::prelude::*;

verus! {

/// What is wrong with a catalog text.
#[derive(Clone, Copy, Debug, PartialEq, Eq, Hash, Structural)]
pub enum ErrorKind {
    /// A field names no expansion pack.
    UnknownContent,
    /// The color field of a monster row names no color class.
    UnknownColor,
    /// Two monster rows bear the same English name.
    DuplicateMonster,
    /// A monster is represented by a name that no monster row bears.
    DanglingReference,
    /// A monster is represented by one that is itself represented by another.
    NestedReference,
    /// Two miniature pictures would be stored under one file name.
    DuplicateImage,
    /// A slot code has fewer than two characters.
    FieldTooShort,
    /// A slot code is longer than its grammar allows.
    MalformedSlot,
    /// The first character of a slot code stands for no color.
    UnknownColorCode,
    /// A slot code's player-count number is no digit from 1 to 5.
    UnknownNumber,
    /// A commander or special slot carries a level code.
    UnknownSpecialLevel,
    /// A white, gray or black slot carries no level code, or an unknown one.
    UnknownRegularLevel,
    /// A slot's player-count number is smaller than that of the slot before it.
    NumberDecreased,
    /// A special slot is bound to nothing.
    SpecialWithoutMonster,
    /// A slot is bound to a name that no monster of the catalog bears.
    UnknownMonster,
    /// A slot is bound to a name that no special unit bears.
    UnknownSpecial,
    /// A slot's color is not that of the monster it is bound to.
    ColorMismatch,
    /// A field is no chapter number.
    UnknownChapter,
    /// A preset comes before one that it should follow.
    WrongOrder,
}

/// An error in a catalog text: what is wrong, on which line of the text
/// (counted from 0), and the text of the offending field.
#[derive(Clone, Debug, PartialEq, Eq)]
pub struct CatalogError {
    pub kind: ErrorKind,
    pub line: usize,
    pub field: String,
}

/// The mathematical content of a `CatalogError`.
pub ghost struct ErrorModel {
    pub kind: ErrorKind,
    pub line: int,
    pub field: Seq<char>,
}

impl View for CatalogError {
    type V = ErrorModel;

    open spec fn view(&self) -> ErrorModel {
        ErrorModel { kind: self.kind, line: self.line as int, field: self.field@ }
    }
}

impl ErrorKind {
    /// Whether the kind is one of the monster catalog and its pictures.  The
    /// others are those of the slots and the order of the presets.
    pub open spec fn spec_of_monsters(self) -> bool {
        self == ErrorKind::UnknownContent || self == ErrorKind::UnknownColor || self
            == ErrorKind::DuplicateMonster || self == ErrorKind::DanglingReference || self
            == ErrorKind::NestedReference || self == ErrorKind::DuplicateImage
    }

    /// Whether the kind is one of the monster catalog and its pictures.
    #[verifier::when_used_as_spec(spec_of_monsters)]
    pub fn of_monsters(self) -> (r: bool)
        ensures
            r == self.spec_of_monsters(),
    {
        match self {
            ErrorKind::UnknownContent
            | ErrorKind::UnknownColor
            | ErrorKind::DuplicateMonster
            | ErrorKind::DanglingReference
            | ErrorKind::NestedReference
            | ErrorKind::DuplicateImage => true,
            _ => false,
        }
    }

    /// The sentence that describes the kind of error.
    pub open spec fn spec_reason(self) -> Seq<char> {
        match self {
            ErrorKind::UnknownContent => "Unknown content"@,
            ErrorKind::UnknownColor => "Unknown color"@,
            ErrorKind::DuplicateMonster => "Duplicate monster name"@,
            ErrorKind::DanglingReference => "Unknown miniature"@,
            ErrorKind::NestedReference => "Miniature of a miniature"@,
            ErrorKind::DuplicateImage => "Duplicate image"@,
            ErrorKind::FieldTooShort => "field too short"@,
            ErrorKind::MalformedSlot => "field too long"@,
            ErrorKind::UnknownColorCode => "unknown color"@,
            ErrorKind::UnknownNumber => "unknown number"@,
            ErrorKind::UnknownSpecialLevel => "unknown commander/special level"@,
            ErrorKind::UnknownRegularLevel => "unknown regular level"@,
            ErrorKind::NumberDecreased => "number decreased"@,
            ErrorKind::SpecialWithoutMonster => "special without monster"@,
            ErrorKind::UnknownMonster => "unknown monster"@,
            ErrorKind::UnknownSpecial => "unknown special"@,
            ErrorKind::ColorMismatch => "color mismatch"@,
            ErrorKind::UnknownChapter => "unknown chapter"@,
            ErrorKind::WrongOrder => "wrong order"@,
        }
    }

    /// The sentence that describes the kind of error.
    pub fn reason(self) -> (r: &'static str)
        ensures
            r@ == self.spec_reason(),
    {
        match self {
            ErrorKind::UnknownContent => "Unknown content",
            ErrorKind::UnknownColor => "Unknown color",
            ErrorKind::DuplicateMonster => "Duplicate monster name",
            ErrorKind::DanglingReference => "Unknown miniature",
            ErrorKind::NestedReference => "Miniature of a miniature",
            ErrorKind::DuplicateImage => "Duplicate image",
            ErrorKind::FieldTooShort => "field too short",
            ErrorKind::MalformedSlot => "field too long",
            ErrorKind::UnknownColorCode => "unknown color",
            ErrorKind::UnknownNumber => "unknown number",
            ErrorKind::UnknownSpecialLevel => "unknown commander/special level",
            ErrorKind::UnknownRegularLevel => "unknown regular level",
            ErrorKind::NumberDecreased => "number decreased",
            ErrorKind::SpecialWithoutMonster => "special without monster",
            ErrorKind::UnknownMonster => "unknown monster",
            ErrorKind::UnknownSpecial => "unknown special",
            ErrorKind::ColorMismatch => "color mismatch",
            ErrorKind::UnknownChapter => "unknown chapter",
            ErrorKind::WrongOrder => "wrong order",
        }
    }
}

/// An error in words: the reason, a colon, and the offending field, which
/// stands in quotes unless the error is one of the monster catalog.
pub open spec fn spec_message(e: ErrorModel) -> Seq<char> {
    if e.kind.spec_of_monsters() {
        e.kind.spec_reason() + ": "@ + e.field
    } else {
        e.kind.spec_reason() + ": \""@ + e.field + "\""@
    }
}

impl CatalogError {
    /// An error of a kind, on a line, about a field.
    pub fn new(kind: ErrorKind, line: usize, field: String) -> (r: CatalogError)
        ensures
            r@ == (ErrorModel { kind, line: line as int, field: field@ }),
    {
        CatalogError { kind, line, field }
    }

    /// The error in words: the reason, a colon, and the offending field.
    /// An error of the monster catalog names the field as it stands, as in
    /// `Duplicate monster name: Bane`; any other sets it in quotes, as in
    /// `number decreased: "G1 Ro"`.
    pub fn message(&self) -> (r: String)
        ensures
            r@ == spec_message(self@),
    {
        let mut r = String::from_str(self.kind.reason());
        if self.kind.of_monsters() {
            r.append(": ");
            r.append(self.field.as_str());
        } else {
            r.append(": \"");
            r.append(self.field.as_str());
            r.append("\"");
        }
        r
    }
}

} // verus!
