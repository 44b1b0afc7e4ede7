//! The monster catalog: the rows of its text form, and the rules that a
//! catalog must meet before it is handed out.

use crate::error::{CatalogError, ErrorKind, ErrorModel};
use crate::game::{Color, Content, GameLanguage};
use crate::text::{
    chars_of, eq_str, lines, spec_lines, spec_split, spec_trim_end, split, string_of, trim_end,
    views,
};
use vstd::prelude::*;

verus! {

/// One monster of the catalog.
#[derive(Clone, Debug, PartialEq, Eq)]
pub struct Monster {
    /// The expansion pack that the monster comes with.
    pub content: Content,
    /// The English name, by which the monster is known everywhere.
    pub name_en: String,
    /// The color class.
    pub color: Color,
    /// The English name of the monster whose miniature stands for this one
    /// on the board; `None` where the monster has a miniature of its own.
    pub miniature: Option<String>,
    /// The German name.
    pub name_de: String,
}

/// The mathematical content of a `Monster`.
pub ghost struct MonsterModel {
    pub content: Content,
    pub name_en: Seq<char>,
    pub color: Color,
    pub miniature: Option<Seq<char>>,
    pub name_de: Seq<char>,
}

impl View for Monster {
    type V = MonsterModel;

    open spec fn view(&self) -> MonsterModel {
        MonsterModel {
            content: self.content,
            name_en: self.name_en@,
            color: self.color,
            miniature: match self.miniature {
                Some(n) => Some(n@),
                None => None,
            },
            name_de: self.name_de@,
        }
    }
}

impl Monster {
    /// The monster's name in a language.
    pub fn name(&self, game_language: GameLanguage) -> (r: &str)
        ensures
            r@ == match game_language {
                GameLanguage::En => self@.name_en,
                GameLanguage::De => self@.name_de,
            },
    {
        match game_language {
            GameLanguage::En => self.name_en.as_str(),
            GameLanguage::De => self.name_de.as_str(),
        }
    }
}

impl MonsterModel {
    /// Whether the monster has a miniature of its own: it names none, or
    /// names itself.
    pub open spec fn represents_itself(self) -> bool {
        self.miniature is None || self.miniature == Some(self.name_en)
    }
}

/// The position of the first monster from `from` on whose English name is
/// `name`.
pub open spec fn spec_index_from(ms: Seq<MonsterModel>, name: Seq<char>, from: int) -> Option<int>
    decreases ms.len() - from,
{
    if from >= ms.len() {
        None
    } else if ms[from].name_en == name {
        Some(from)
    } else {
        spec_index_from(ms, name, from + 1)
    }
}

/// The position of the first monster whose English name is `name`.
pub open spec fn spec_index_of(ms: Seq<MonsterModel>, name: Seq<char>) -> Option<int> {
    spec_index_from(ms, name, 0)
}

/// What `spec_index_from` finds bears the name and is the first from `from`
/// on to do so; where it finds nothing, no monster from `from` on bears it.
pub proof fn lemma_index_from(ms: Seq<MonsterModel>, name: Seq<char>, from: int)
    requires
        0 <= from,
    ensures
        match spec_index_from(ms, name, from) {
            Some(i) => from <= i < ms.len() && ms[i].name_en == name && forall|k: int|
                from <= k < i ==> (#[trigger] ms[k]).name_en != name,
            None => forall|k: int| from <= k < ms.len() ==> (#[trigger] ms[k]).name_en != name,
        },
    decreases ms.len() - from,
{
    if from < ms.len() && ms[from].name_en != name {
        lemma_index_from(ms, name, from + 1);
    }
}

/// Whether no two monsters bear the same English name.
pub open spec fn names_unique(ms: Seq<MonsterModel>) -> bool {
    forall|i: int, j: int|
        0 <= i < j < ms.len() ==> (#[trigger] ms[i].name_en) != (#[trigger] ms[j].name_en)
}

/// Whether a monster with a miniature of its own bears the name.
pub open spec fn has_own_miniature(ms: Seq<MonsterModel>, name: Seq<char>) -> bool {
    exists|i: int|
        0 <= i < ms.len() && (#[trigger] ms[i].name_en) == name && ms[i].represents_itself()
}

/// Whether the monster at `j`, where another represents it, names one of
/// the catalog that has a miniature of its own.
pub open spec fn reference_ok(ms: Seq<MonsterModel>, j: int) -> bool {
    ms[j].miniature is Some ==> has_own_miniature(ms, ms[j].miniature->0)
}

/// The rules of a catalog: no two monsters bear the same English name, and
/// a monster that another represents is in the catalog and has a miniature
/// of its own.
pub open spec fn catalog_wf(ms: Seq<MonsterModel>) -> bool {
    &&& names_unique(ms)
    &&& forall|j: int| 0 <= j < ms.len() ==> #[trigger] reference_ok(ms, j)
}

/// The monster catalog: every monster definition, in the order of the rows
/// that defined them.  A monster is referred to by its position.
#[derive(Clone, Debug, PartialEq, Eq)]
pub struct MonsterCatalog {
    pub monsters: Vec<Monster>,
}

impl View for MonsterCatalog {
    type V = Seq<MonsterModel>;

    open spec fn view(&self) -> Seq<MonsterModel> {
        self.monsters@.map_values(|m: Monster| m@)
    }
}

impl MonsterCatalog {
    /// Whether the catalog meets the rules of a catalog.
    pub open spec fn wf(&self) -> bool {
        catalog_wf(self@)
    }

    /// The number of monsters.
    pub fn len(&self) -> (r: usize)
        ensures
            r == self@.len(),
    {
        self.monsters.len()
    }

    /// The monster at a position.
    pub fn get(&self, id: usize) -> (r: Option<&Monster>)
        ensures
            match r {
                Some(m) => id < self@.len() && m@ == self@[id as int],
                None => id >= self@.len(),
            },
    {
        if id < self.monsters.len() {
            Some(&self.monsters[id])
        } else {
            None
        }
    }

    /// The position of the monster with an English name.
    pub fn index_of(&self, name: &[char]) -> (r: Option<usize>)
        ensures
            match r {
                Some(i) => spec_index_of(self@, name@) == Some(i as int),
                None => spec_index_of(self@, name@) is None,
            },
    {
        let mut i: usize = 0;
        while i < self.monsters.len()
            invariant
                i <= self@.len(),
                self@.len() == self.monsters@.len(),
                spec_index_of(self@, name@) == spec_index_from(self@, name@, i as int),
            decreases self@.len() - i,
        {
            if eq_str(name, self.monsters[i].name_en.as_str()) {
                return Some(i);
            }
            i += 1;
        }
        None
    }

    /// The position of the monster with an English name.
    pub fn find(&self, name: &str) -> (r: Option<usize>)
        ensures
            match r {
                Some(i) => spec_index_of(self@, name@) == Some(i as int),
                None => spec_index_of(self@, name@) is None,
            },
    {
        let chars = chars_of(name);
        self.index_of(chars.as_slice())
    }
}

/// The fields of a line: the pieces between its commas, the commas at the
/// end of the line left aside.
pub open spec fn spec_fields(line: Seq<char>) -> Seq<Seq<char>> {
    spec_split(spec_trim_end(line, ','), ',')
}

/// The fields of a line.
pub fn fields(line: &[char]) -> (r: Vec<Vec<char>>)
    ensures
        views(r@) == spec_fields(line@),
{
    let trimmed = trim_end(line, ',');
    split(trimmed.as_slice(), ',')
}

/// The number of fields that a monster row has at least.
pub const MONSTER_FIELDS: usize = 5;

/// The monster that a row of at least five fields defines: pack, English
/// name, color class, the monster that represents it or `self`, German
/// name.  The row is refused where the first field names no pack, and then
/// where the third names no color class.
pub open spec fn spec_monster_row(f: Seq<Seq<char>>) -> Result<MonsterModel, (ErrorKind, Seq<char>)>
    recommends
        f.len() >= MONSTER_FIELDS,
{
    match Content::spec_parse(f[0]) {
        None => Err((ErrorKind::UnknownContent, f[0])),
        Some(content) => match Color::spec_parse(f[2]) {
            None => Err((ErrorKind::UnknownColor, f[2])),
            Some(color) => Ok(
                MonsterModel {
                    content,
                    name_en: f[1],
                    color,
                    miniature: if f[3] == "self"@ {
                        None
                    } else {
                        Some(f[3])
                    },
                    name_de: f[4],
                },
            ),
        },
    }
}

/// Whether a result of the library is the given result over models.
pub open spec fn monster_result_is(
    r: Result<Monster, CatalogError>,
    line: int,
    model: Result<MonsterModel, (ErrorKind, Seq<char>)>,
) -> bool {
    match r {
        Ok(m) => model == Ok::<MonsterModel, (ErrorKind, Seq<char>)>(m@),
        Err(e) => model is Err && e@ == (ErrorModel {
            kind: model->Err_0.0,
            line,
            field: model->Err_0.1,
        }),
    }
}

/// Reads the monster that the fields of a row define; `line` is the row's
/// line in the text, for the error.
pub fn monster_read(f: &Vec<Vec<char>>, line: usize) -> (r: Result<Monster, CatalogError>)
    requires
        f@.len() >= MONSTER_FIELDS,
    ensures
        monster_result_is(r, line as int, spec_monster_row(views(f@))),
{
    let content = match Content::parse(f[0].as_slice()) {
        Some(c) => c,
        None => {
            return Err(
                CatalogError::new(ErrorKind::UnknownContent, line, string_of(f[0].as_slice())),
            );
        },
    };
    let name_en = string_of(f[1].as_slice());
    let color = match Color::parse(f[2].as_slice()) {
        Some(c) => c,
        None => {
            return Err(
                CatalogError::new(ErrorKind::UnknownColor, line, string_of(f[2].as_slice())),
            );
        },
    };
    let miniature = if eq_str(f[3].as_slice(), "self") {
        None
    } else {
        Some(string_of(f[3].as_slice()))
    };
    let name_de = string_of(f[4].as_slice());
    Ok(Monster { content, name_en, color, miniature, name_de })
}

/// The monsters that the rows of a text define, each with the line that it
/// stands on.
pub ghost struct Rows {
    pub monsters: Seq<MonsterModel>,
    pub lines: Seq<int>,
}

/// The monsters that the lines from line `k` on define, after those in
/// `acc`.  A line of fewer than five fields defines nothing; the first row
/// that is refused ends the reading with its error.
pub open spec fn spec_rows_from(lines: Seq<Seq<char>>, k: int, acc: Rows) -> Result<
    Rows,
    ErrorModel,
>
    decreases lines.len() - k,
{
    if k >= lines.len() {
        Ok(acc)
    } else {
        let f = spec_fields(lines[k]);
        if f.len() < MONSTER_FIELDS {
            spec_rows_from(lines, k + 1, acc)
        } else {
            match spec_monster_row(f) {
                Err(e) => Err(ErrorModel { kind: e.0, line: k, field: e.1 }),
                Ok(m) => spec_rows_from(
                    lines,
                    k + 1,
                    Rows { monsters: acc.monsters.push(m), lines: acc.lines.push(k) },
                ),
            }
        }
    }
}

/// The monsters that the lines of a text define.  The first line is a
/// heading and defines nothing.
pub open spec fn spec_rows(lines: Seq<Seq<char>>) -> Result<Rows, ErrorModel> {
    spec_rows_from(lines, 1, Rows { monsters: seq![], lines: seq![] })
}

/// Whether the monster at `j` bears the name of one before it.
pub open spec fn spec_is_duplicate(ms: Seq<MonsterModel>, j: int) -> bool {
    spec_index_of(ms, ms[j].name_en) != Some(j)
}

/// The first monster from position `k` on that bears the name of one
/// before it.
pub open spec fn spec_duplicate_from(ms: Seq<MonsterModel>, k: int) -> Option<int>
    decreases ms.len() - k,
{
    if k >= ms.len() {
        None
    } else if spec_is_duplicate(ms, k) {
        Some(k)
    } else {
        spec_duplicate_from(ms, k + 1)
    }
}

/// What is wrong with the reference of the monster at `j` to the one that
/// represents it: nothing, or it names no monster, or it names one that is
/// itself represented by another.
pub open spec fn spec_reference_error(ms: Seq<MonsterModel>, j: int) -> Option<ErrorKind> {
    match ms[j].miniature {
        None => None,
        Some(n) => match spec_index_of(ms, n) {
            None => Some(ErrorKind::DanglingReference),
            Some(i) => if ms[i].represents_itself() {
                None
            } else {
                Some(ErrorKind::NestedReference)
            },
        },
    }
}

/// The first monster from position `k` on whose reference is wrong.
pub open spec fn spec_bad_reference_from(ms: Seq<MonsterModel>, k: int) -> Option<int>
    decreases ms.len() - k,
{
    if k >= ms.len() {
        None
    } else if spec_reference_error(ms, k) is Some {
        Some(k)
    } else {
        spec_bad_reference_from(ms, k + 1)
    }
}

/// The verdict on the monsters that the rows define: the first one that
/// bears a name twice is refused; then the first one whose reference is
/// wrong; else the monsters are the catalog.
pub open spec fn spec_checked(rows: Rows) -> Result<Seq<MonsterModel>, ErrorModel> {
    let ms = rows.monsters;
    match spec_duplicate_from(ms, 0) {
        Some(j) => Err(
            ErrorModel {
                kind: ErrorKind::DuplicateMonster,
                line: rows.lines[j],
                field: ms[j].name_en,
            },
        ),
        None => match spec_bad_reference_from(ms, 0) {
            Some(j) => Err(
                ErrorModel {
                    kind: spec_reference_error(ms, j)->0,
                    line: rows.lines[j],
                    field: ms[j].miniature->0,
                },
            ),
            None => Ok(ms),
        },
    }
}

/// The catalog that a text defines, or the first error in it.
pub open spec fn spec_monster(text: Seq<char>) -> Result<Seq<MonsterModel>, ErrorModel> {
    match spec_rows(spec_lines(text)) {
        Err(e) => Err(e),
        Ok(rows) => spec_checked(rows),
    }
}

/// The line numbers of a vector as integers.
pub open spec fn line_numbers(v: Seq<usize>) -> Seq<int> {
    v.map_values(|n: usize| n as int)
}

/// Reads the monsters that the lines of a text define, each with the line
/// that it stands on.
pub fn read_rows(ls: &Vec<Vec<char>>) -> (r: Result<(MonsterCatalog, Vec<usize>), CatalogError>)
    ensures
        match r {
            Ok(p) => spec_rows(views(ls@)) == Ok::<Rows, ErrorModel>(
                Rows { monsters: p.0@, lines: line_numbers(p.1@) },
            ) && p.1@.len() == p.0@.len(),
            Err(e) => spec_rows(views(ls@)) == Err::<Rows, ErrorModel>(e@),
        },
{
    let mut catalog = MonsterCatalog { monsters: Vec::new() };
    let mut numbers: Vec<usize> = Vec::new();
    let mut k: usize = 1;
    assert(catalog@ =~= seq![]);
    assert(line_numbers(numbers@) =~= seq![]);
    while k < ls.len()
        invariant
            1 <= k,
            numbers@.len() == catalog@.len(),
            spec_rows(views(ls@)) == spec_rows_from(
                views(ls@),
                k as int,
                Rows { monsters: catalog@, lines: line_numbers(numbers@) },
            ),
        decreases ls@.len() - k,
    {
        let f = fields(ls[k].as_slice());
        assert(views(ls@)[k as int] == ls@[k as int]@);
        if f.len() >= MONSTER_FIELDS {
            match monster_read(&f, k) {
                Err(e) => {
                    return Err(e);
                },
                Ok(m) => {
                    let ghost before = catalog@;
                    let ghost lines_before = line_numbers(numbers@);
                    catalog.monsters.push(m);
                    numbers.push(k);
                    assert(catalog@ =~= before.push(m@));
                    assert(line_numbers(numbers@) =~= lines_before.push(k as int));
                },
            }
        }
        k += 1;
    }
    Ok((catalog, numbers))
}

/// A monster bears the name of one before it exactly where the first
/// monster of its name is another.
pub proof fn lemma_is_duplicate(ms: Seq<MonsterModel>, j: int)
    requires
        0 <= j < ms.len(),
    ensures
        spec_index_of(ms, ms[j].name_en) is Some,
        0 <= spec_index_of(ms, ms[j].name_en)->0 <= j,
        ms[spec_index_of(ms, ms[j].name_en)->0].name_en == ms[j].name_en,
        !spec_is_duplicate(ms, j) ==> forall|i: int|
            0 <= i < j ==> (#[trigger] ms[i].name_en) != ms[j].name_en,
{
    lemma_index_from(ms, ms[j].name_en, 0);
}

/// What `spec_duplicate_from` finds bears the name of a monster before it;
/// where it finds nothing, no monster from `k` on does.
pub proof fn lemma_duplicate_from(ms: Seq<MonsterModel>, k: int)
    requires
        0 <= k,
    ensures
        match spec_duplicate_from(ms, k) {
            Some(j) => k <= j < ms.len() && spec_is_duplicate(ms, j),
            None => forall|j: int| k <= j < ms.len() ==> !#[trigger] spec_is_duplicate(ms, j),
        },
    decreases ms.len() - k,
{
    if k < ms.len() && !spec_is_duplicate(ms, k) {
        lemma_duplicate_from(ms, k + 1);
    }
}

/// What `spec_bad_reference_from` finds has a wrong reference; where it
/// finds nothing, no monster from `k` on has one.
pub proof fn lemma_bad_reference_from(ms: Seq<MonsterModel>, k: int)
    requires
        0 <= k,
    ensures
        match spec_bad_reference_from(ms, k) {
            Some(j) => k <= j < ms.len() && spec_reference_error(ms, j) is Some,
            None => forall|j: int|
                k <= j < ms.len() ==> (#[trigger] spec_reference_error(ms, j)) is None,
        },
    decreases ms.len() - k,
{
    if k < ms.len() && spec_reference_error(ms, k) is None {
        lemma_bad_reference_from(ms, k + 1);
    }
}

/// Where no monster bears the name of one before it, no two bear the same
/// name, and the other way round.
pub proof fn lemma_names_unique(ms: Seq<MonsterModel>)
    ensures
        names_unique(ms) <==> spec_duplicate_from(ms, 0) is None,
{
    lemma_duplicate_from(ms, 0);
    match spec_duplicate_from(ms, 0) {
        Some(j) => {
            lemma_is_duplicate(ms, j);
            let i = spec_index_of(ms, ms[j].name_en)->0;
            assert(i < j);
            assert(ms[i].name_en == ms[j].name_en);
        },
        None => {
            assert forall|i: int, j: int| 0 <= i < j < ms.len() implies (#[trigger] ms[i].name_en)
                != (#[trigger] ms[j].name_en) by {
                assert(!spec_is_duplicate(ms, j));
                lemma_is_duplicate(ms, j);
            }
        },
    }
}

/// In a catalog without namesakes, a reference is right exactly where it
/// names a monster of the catalog that has a miniature of its own.
pub proof fn lemma_reference_ok(ms: Seq<MonsterModel>, j: int)
    requires
        names_unique(ms),
        0 <= j < ms.len(),
    ensures
        reference_ok(ms, j) <==> spec_reference_error(ms, j) is None,
{
    if ms[j].miniature is Some {
        let n = ms[j].miniature->0;
        lemma_index_from(ms, n, 0);
        match spec_index_of(ms, n) {
            Some(f) => {
                if has_own_miniature(ms, n) {
                    let i = choose|i: int|
                        0 <= i < ms.len() && (#[trigger] ms[i].name_en) == n
                            && ms[i].represents_itself();
                    assert(ms[f].name_en == ms[i].name_en);
                    assert(f == i);
                }
                if ms[f].represents_itself() {
                    assert(ms[f].name_en == n);
                    assert(has_own_miniature(ms, n));
                }
            },
            None => {
                if has_own_miniature(ms, n) {
                    let i = choose|i: int|
                        0 <= i < ms.len() && (#[trigger] ms[i].name_en) == n
                            && ms[i].represents_itself();
                    assert(ms[i].name_en == n);
                    assert(false);
                }
            },
        }
    }
}

/// The monsters that pass the checks meet the rules of a catalog, and only
/// those pass.
pub proof fn lemma_checked(rows: Rows)
    ensures
        spec_checked(rows) is Ok <==> catalog_wf(rows.monsters),
        spec_checked(rows) is Ok ==> spec_checked(rows)->Ok_0 == rows.monsters,
{
    let ms = rows.monsters;
    lemma_names_unique(ms);
    lemma_bad_reference_from(ms, 0);
    if names_unique(ms) {
        match spec_bad_reference_from(ms, 0) {
            Some(j) => {
                lemma_reference_ok(ms, j);
                assert(!reference_ok(ms, j));
            },
            None => {
                assert forall|j: int| 0 <= j < ms.len() implies #[trigger] reference_ok(
                    ms,
                    j,
                ) by {
                    assert(spec_reference_error(ms, j) is None);
                    lemma_reference_ok(ms, j);
                }
            },
        }
    }
}

/// Two rows with one English name are refused: a text whose rows all read
/// but define two monsters of the same English name yields no catalog, and
/// the error says that a name stands twice.
pub proof fn lemma_duplicate_names_rejected(text: Seq<char>, i: int, j: int)
    requires
        spec_rows(spec_lines(text)) is Ok,
        0 <= i < j < spec_rows(spec_lines(text))->Ok_0.monsters.len(),
        spec_rows(spec_lines(text))->Ok_0.monsters[i].name_en == spec_rows(
            spec_lines(text),
        )->Ok_0.monsters[j].name_en,
    ensures
        spec_monster(text) is Err,
        spec_monster(text)->Err_0.kind == ErrorKind::DuplicateMonster,
{
    let rows = spec_rows(spec_lines(text))->Ok_0;
    lemma_names_unique(rows.monsters);
    assert(!names_unique(rows.monsters));
}

/// Checks the monsters that the rows define against the rules of a catalog.
pub fn check(catalog: MonsterCatalog, numbers: &Vec<usize>) -> (r: Result<
    MonsterCatalog,
    CatalogError,
>)
    requires
        numbers@.len() == catalog@.len(),
    ensures
        match r {
            Ok(c) => c@ == catalog@ && c.wf() && spec_checked(
                Rows { monsters: catalog@, lines: line_numbers(numbers@) },
            ) == Ok::<Seq<MonsterModel>, ErrorModel>(c@),
            Err(e) => spec_checked(Rows { monsters: catalog@, lines: line_numbers(numbers@) })
                == Err::<Seq<MonsterModel>, ErrorModel>(e@),
        },
        r is Ok <==> catalog_wf(catalog@),
{
    proof {
        lemma_checked(Rows { monsters: catalog@, lines: line_numbers(numbers@) });
    }
    let ghost rows = Rows { monsters: catalog@, lines: line_numbers(numbers@) };
    let n = catalog.monsters.len();
    let mut j: usize = 0;
    while j < n
        invariant
            j <= n,
            n == catalog@.len(),
            n == catalog.monsters@.len(),
            numbers@.len() == n,
            rows == (Rows { monsters: catalog@, lines: line_numbers(numbers@) }),
            spec_checked(rows) is Ok <==> catalog_wf(catalog@),
            spec_duplicate_from(catalog@, 0) == spec_duplicate_from(catalog@, j as int),
        decreases n - j,
    {
        let first = catalog.find(catalog.monsters[j].name_en.as_str());
        proof {
            lemma_is_duplicate(catalog@, j as int);
        }
        if first != Some(j) {
            return Err(
                CatalogError::new(
                    ErrorKind::DuplicateMonster,
                    numbers[j],
                    catalog.monsters[j].name_en.clone(),
                ),
            );
        }
        j += 1;
    }
    j = 0;
    while j < n
        invariant
            j <= n,
            n == catalog@.len(),
            n == catalog.monsters@.len(),
            numbers@.len() == n,
            rows == (Rows { monsters: catalog@, lines: line_numbers(numbers@) }),
            spec_checked(rows) is Ok <==> catalog_wf(catalog@),
            spec_duplicate_from(catalog@, 0) is None,
            spec_bad_reference_from(catalog@, 0) == spec_bad_reference_from(catalog@, j as int),
        decreases n - j,
    {
        match &catalog.monsters[j].miniature {
            None => {},
            Some(name) => {
                match catalog.find(name.as_str()) {
                    None => {
                        return Err(
                            CatalogError::new(
                                ErrorKind::DanglingReference,
                                numbers[j],
                                name.clone(),
                            ),
                        );
                    },
                    Some(i) => {
                        proof {
                            lemma_index_from(catalog@, name@, 0);
                        }
                        let target = &catalog.monsters[i];
                        let own = match &target.miniature {
                            None => true,
                            Some(t) => *t == target.name_en,
                        };
                        if !own {
                            return Err(
                                CatalogError::new(
                                    ErrorKind::NestedReference,
                                    numbers[j],
                                    name.clone(),
                                ),
                            );
                        }
                    },
                }
            },
        }
        j += 1;
    }
    proof {
        lemma_checked(rows);
    }
    Ok(catalog)
}

/// Builds the monster catalog from its text: one row to a line, the first
/// line a heading, the fields of a row set apart by commas.  A row has the
/// pack, the English name, the color class, the English name of the monster
/// that represents it or `self`, and the German name; a line of fewer fields
/// is passed over.  The catalog is handed out only where every row is read
/// and no rule of a catalog is broken; else the first error is returned.
pub fn monster(text: &str) -> (r: Result<MonsterCatalog, CatalogError>)
    ensures
        match r {
            Ok(c) => spec_monster(text@) == Ok::<Seq<MonsterModel>, ErrorModel>(c@) && c.wf(),
            Err(e) => spec_monster(text@) == Err::<Seq<MonsterModel>, ErrorModel>(e@),
        },
        r is Ok <==> (spec_rows(spec_lines(text@)) matches Ok(rows) && catalog_wf(rows.monsters)),
{
    let chars = chars_of(text);
    let ls = lines(chars.as_slice());
    match read_rows(&ls) {
        Err(e) => Err(e),
        Ok(p) => check(p.0, &p.1),
    }
}

/// The monsters of the game, as catalog text.
pub const MONSTERS: &'static str = "Content,Name,Color,Miniature,German\n\
Core,Abomination,Black,self,Abscheulichkeit\n\
Core,Archon,Commander,self,Archon\n\
Core,Bane,Commander,self,Bane\n\
Core,Executioner,Gray,self,Vollstrecker\n\
Core,Rotten Flesh,Gray,self,Fleischgolem\n\
Core,Shadow Cultist,White,self,Schattenkultist\n\
Core,Shadow Knight,Black,self,Schattenritter\n\
Core,Shadow Vampire,Gray,self,Schattenvampir\n\
Core,Skeleton Archer,White,self,Skelettbogenschütze\n\
Apocalypse,Dream Titan,Black,self,Dream Titan\n\
Apocalypse,Faceless Conjurer,Gray,self,Faceless Conjurer\n\
Apocalypse,Hellish Flayer,Gray,self,Hellish Flayer\n\
Apocalypse,Shadow Witch,White,self,Shadow Witch\n\
Apocalypse,Skeleton Knight,White,self,Skeleton Knight\n\
Awakenings,Doctor,Commander,self,Doctor\n\
Awakenings,Fell Asteris,Gray,self,Fell Asteris\n\
Awakenings,Flinch,Commander,self,Flinch\n\
Awakenings,Gorgon Hexer,Gray,self,Gorgon Hexer\n\
Awakenings,Gorgoness Witch,White,self,Gorgoness Witch\n\
Awakenings,Gremlin Horde,White,self,Gremlin Horde\n\
Awakenings,Grim Doctor,White,self,Grim Doctor\n\
Awakenings,Hellspawn Brute,Gray,self,Hellspawn Brute\n\
Awakenings,Hexer,Commander,self,Hexer\n\
Awakenings,Horde,Commander,self,Horde\n\
Awakenings,Hunter,Commander,self,Hunter\n\
Awakenings,Nagian Hunter,White,self,Nagian Hunter\n\
Awakenings,Night Stalker,Gray,self,Night Stalker\n\
Awakenings,Ox,Commander,self,Ox\n\
Awakenings,Spawn,Commander,self,Spawn\n\
Awakenings,Witch,Commander,self,Witch\n\
DesertOfTheHellscar,Corrupted Worm,Gray,self,Verdorbener Lindwurm\n\
FallenSisters,Fallen Sisters,Commander,self,Fallen Sisters\n\
MonsterPack1,Death Messenger,Gray,self,Todesbote\n\
MonsterPack1,Scout Of Darkness,White,self,Dunkler Späher\n\
RiseOfTheUndeadDragon,Corrupted Farmer,White,self,Verdorbener Baue\n\
SpoilsOfWar,Bone Reaper,Gray,self,Sensenmann\n\
SpoilsOfWar,Shadow Mistress,White,self,Schattenherrin\n\
SpoilsOfWar,Thern,Commander,self,Thern\n\
SpoilsOfWar,Twin,Commander,self,Twins\n\
SpoilsOfWar,Walking Horror,White,self,Wanderschrecken\n\
TheRuinOfLuccanor,Lady Claw,Gray,self,Klauennatter\n\
TheRuinOfLuccanor,Ravager,White,self,Verwüster\n\
TheShadowWorld,Shadow Guardian,Gray,self,Schattenwächter\n\
TheShadowWorld,Shadow Pain,White,self,Schattenschmerz\n";

} // verus!
