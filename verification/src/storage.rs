use vstd::prelude::*;
use crate::achievements::AchievementProgress;
use crate::achievements::AchievementTracker;
use crate::character::Character;
use crate::class::Class;
use crate::level::LevelSystem;
use crate::level::lemma_level_of_unique;
use crate::level::spec_level_from_xp;
use crate::stats::Stats;

verus! {

// Persistence model.  A document is an ordered list of named fields holding
// integers, text, or lists of either.  The engine turns its two persisted
// aggregates - the character and the achievement ledger - into documents and
// back; writing the document out as structured text (and the
// temporary-file/backup/rename protocol around it) is the thin I/O shell's
// job.  Decoding validates everything: a document either reproduces a
// well-formed value or is rejected with a typed error, so a corrupted file
// can never smuggle in a broken state.

/// One value in a document.
#[derive(Debug, Clone)]
pub enum FieldValue {
    Int(u64),
    Text(String),
    IntList(Vec<u64>),
    TextList(Vec<String>),
}

/// One named field.
#[derive(Debug, Clone)]
pub struct Field {
    pub name: String,
    pub value: FieldValue,
}

/// Why a document was rejected.
#[derive(Debug, Clone, Copy, PartialEq, Eq, Structural)]
pub enum DocumentError {
    /// The field count or a field name is not the expected one.
    WrongShape,
    /// A field holds the wrong kind of value.
    WrongKind,
    /// A value lies outside its permitted range.
    BadValue,
}

/// The abstract content of a field value.
pub enum DocValue {
    VInt(int),
    VText(Seq<char>),
    VInts(Seq<int>),
    VTexts(Seq<Seq<char>>),
}

pub open spec fn value_view(v: FieldValue) -> DocValue {
    match v {
        FieldValue::Int(x) => DocValue::VInt(x as int),
        FieldValue::Text(s) => DocValue::VText(s@),
        FieldValue::IntList(xs) => DocValue::VInts(xs@.map_values(|x: u64| x as int)),
        FieldValue::TextList(ss) => DocValue::VTexts(ss@.map_values(|s: String| s@)),
    }
}

pub open spec fn field_view(f: Field) -> (Seq<char>, DocValue) {
    (f.name@, value_view(f.value))
}

pub open spec fn doc_view(d: Seq<Field>) -> Seq<(Seq<char>, DocValue)> {
    d.map_values(|f: Field| field_view(f))
}

/// The name of the character's class.
pub open spec fn spec_class_text(c: Class) -> Seq<char> {
    crate::class::spec_class_name(c)
}

/// The canonical document of a character, field by field.
pub open spec fn spec_character_fields(c: Character) -> Seq<(Seq<char>, DocValue)> {
    seq![
        ("name"@, DocValue::VText(c.name@)),
        ("class"@, DocValue::VText(spec_class_text(c.class))),
        ("level"@, DocValue::VInt(c.level as int)),
        ("total_xp"@, DocValue::VInt(c.total_xp as int)),
        ("strength"@, DocValue::VInt(c.stats.strength as int)),
        ("dexterity"@, DocValue::VInt(c.stats.dexterity as int)),
        ("constitution"@, DocValue::VInt(c.stats.constitution as int)),
        ("intelligence"@, DocValue::VInt(c.stats.intelligence as int)),
        ("wisdom"@, DocValue::VInt(c.stats.wisdom as int)),
        ("charisma"@, DocValue::VInt(c.stats.charisma as int)),
        ("gold"@, DocValue::VInt(c.gold as int)),
        ("tasks_completed"@, DocValue::VInt(c.tasks_completed as int)),
        (
            "active_title"@,
            DocValue::VTexts(
                match c.active_title {
                    Some(t) => seq![t@],
                    None => Seq::empty(),
                },
            ),
        ),
    ]
}

/// Characters equal in every persisted field, text compared by contents.
pub open spec fn spec_char_eq(a: Character, b: Character) -> bool {
    &&& a.name@ == b.name@
    &&& a.class == b.class
    &&& a.level == b.level
    &&& a.total_xp == b.total_xp
    &&& a.stats == b.stats
    &&& a.gold == b.gold
    &&& a.tasks_completed == b.tasks_completed
    &&& (match (a.active_title, b.active_title) {
        (Some(x), Some(y)) => x@ == y@,
        (None, None) => true,
        _ => false,
    })
}

fn text_field(name: &str, value: &String) -> (f: Field)
    ensures
        field_view(f) == (name@, DocValue::VText(value@)),
{
    Field { name: name.to_owned(), value: FieldValue::Text(value.clone()) }
}

fn int_field(name: &str, value: u64) -> (f: Field)
    ensures
        field_view(f) == (name@, DocValue::VInt(value as int)),
{
    Field { name: name.to_owned(), value: FieldValue::Int(value) }
}

/// Turn a character into its canonical document.
pub fn encode_character(c: &Character) -> (doc: Vec<Field>)
    ensures
        doc_view(doc@) =~= spec_character_fields(*c),
{
    let mut doc: Vec<Field> = Vec::new();
    doc.push(text_field("name", &c.name));
    let class_name: String = c.class.name().to_owned();
    doc.push(text_field("class", &class_name));
    doc.push(int_field("level", c.level as u64));
    doc.push(int_field("total_xp", c.total_xp as u64));
    doc.push(int_field("strength", c.stats.strength));
    doc.push(int_field("dexterity", c.stats.dexterity));
    doc.push(int_field("constitution", c.stats.constitution));
    doc.push(int_field("intelligence", c.stats.intelligence));
    doc.push(int_field("wisdom", c.stats.wisdom));
    doc.push(int_field("charisma", c.stats.charisma));
    doc.push(int_field("gold", c.gold as u64));
    doc.push(int_field("tasks_completed", c.tasks_completed as u64));
    let mut title_list: Vec<String> = Vec::new();
    if let Some(t) = &c.active_title {
        title_list.push(t.clone());
    }
    proof {
        assert(title_list@.map_values(|s: String| s@) =~= (match c.active_title {
            Some(t) => seq![t@],
            None => Seq::<Seq<char>>::empty(),
        }));
    }
    doc.push(
        Field { name: "active_title".to_owned(), value: FieldValue::TextList(title_list) },
    );
    doc
}

/// Read one u64 field, checking its name.
fn take_int(doc: &Vec<Field>, i: usize, name: &str) -> (r: Result<u64, DocumentError>)
    requires
        i < doc@.len(),
    ensures
        match r {
            Ok(x) => field_view(doc@[i as int]) == (name@, DocValue::VInt(x as int)),
            Err(e) => (e == DocumentError::WrongShape || e == DocumentError::WrongKind)
                && (forall|x: int| field_view(doc@[i as int]) != (name@, DocValue::VInt(x))),
        },
{
    if !crate::achievements::str_eq(doc[i].name.as_str(), name) {
        return Err(DocumentError::WrongShape);
    }
    match &doc[i].value {
        FieldValue::Int(x) => Ok(*x),
        _ => Err(DocumentError::WrongKind),
    }
}

/// Read one text field, checking its name.
fn take_text(doc: &Vec<Field>, i: usize, name: &str) -> (r: Result<String, DocumentError>)
    requires
        i < doc@.len(),
    ensures
        match r {
            Ok(s) => field_view(doc@[i as int]) == (name@, DocValue::VText(s@)),
            Err(e) => (e == DocumentError::WrongShape || e == DocumentError::WrongKind)
                && (forall|s: Seq<char>| field_view(doc@[i as int]) != (name@, DocValue::VText(s))),
        },
{
    if !crate::achievements::str_eq(doc[i].name.as_str(), name) {
        return Err(DocumentError::WrongShape);
    }
    match &doc[i].value {
        FieldValue::Text(s) => Ok(s.clone()),
        _ => Err(DocumentError::WrongKind),
    }
}

/// Read one text-list field, checking its name.
fn take_texts(doc: &Vec<Field>, i: usize, name: &str) -> (r: Result<Vec<String>, DocumentError>)
    requires
        i < doc@.len(),
    ensures
        match r {
            Ok(ss) => field_view(doc@[i as int]) == (
                name@,
                DocValue::VTexts(ss@.map_values(|s: String| s@)),
            ),
            Err(e) => (e == DocumentError::WrongShape || e == DocumentError::WrongKind) && (
            forall|ss: Seq<Seq<char>>| field_view(doc@[i as int]) != (
                name@,
                DocValue::VTexts(ss),
            )),
        },
{
    if !crate::achievements::str_eq(doc[i].name.as_str(), name) {
        return Err(DocumentError::WrongShape);
    }
    match &doc[i].value {
        FieldValue::TextList(ss) => {
            let mut out: Vec<String> = Vec::new();
            let mut k: usize = 0;
            let n = ss.len();
            while k < n
                invariant
                    n == ss@.len(),
                    k <= n,
                    out@.len() == k,
                    forall|j: int| 0 <= j < k ==> (#[trigger] out@[j])@ == ss@[j]@,
                decreases n - k,
            {
                out.push(ss[k].clone());
                k = k + 1;
            }
            proof {
                assert(out@.map_values(|s: String| s@) =~= ss@.map_values(|s: String| s@));
            }
            Ok(out)
        },
        _ => Err(DocumentError::WrongKind),
    }
}

/// Read one integer-list field, checking its name.
fn take_ints(doc: &Vec<Field>, i: usize, name: &str) -> (r: Result<Vec<u64>, DocumentError>)
    requires
        i < doc@.len(),
    ensures
        match r {
            Ok(xs) => field_view(doc@[i as int]) == (
                name@,
                DocValue::VInts(xs@.map_values(|x: u64| x as int)),
            ),
            Err(e) => (e == DocumentError::WrongShape || e == DocumentError::WrongKind) && (
            forall|xs: Seq<int>| field_view(doc@[i as int]) != (name@, DocValue::VInts(xs))),
        },
{
    if !crate::achievements::str_eq(doc[i].name.as_str(), name) {
        return Err(DocumentError::WrongShape);
    }
    match &doc[i].value {
        FieldValue::IntList(xs) => {
            let mut out: Vec<u64> = Vec::new();
            let mut k: usize = 0;
            let n = xs.len();
            while k < n
                invariant
                    n == xs@.len(),
                    k <= n,
                    out@ == xs@.subrange(0, k as int),
                decreases n - k,
            {
                out.push(xs[k]);
                proof {
                    assert(out@ =~= xs@.subrange(0, k + 1));
                }
                k = k + 1;
            }
            proof {
                assert(out@ =~= xs@);
            }
            Ok(out)
        },
        _ => Err(DocumentError::WrongKind),
    }
}

/// Parse a class name.
fn parse_class(s: &str) -> (r: Option<Class>)
    ensures
        match r {
            Some(c) => spec_class_text(c) == s@,
            None => forall|c: Class| spec_class_text(c) != s@,
        },
{
    if crate::achievements::str_eq(s, "Rogue") {
        Some(Class::Rogue)
    } else if crate::achievements::str_eq(s, "Ranger") {
        Some(Class::Ranger)
    } else if crate::achievements::str_eq(s, "Warrior") {
        Some(Class::Warrior)
    } else if crate::achievements::str_eq(s, "Paladin") {
        Some(Class::Paladin)
    } else if crate::achievements::str_eq(s, "Monk") {
        Some(Class::Monk)
    } else {
        None
    }
}

/// Rebuild a character from its document.  A document that decodes is
/// exactly the canonical document of the returned character; the canonical
/// document of any well-formed character decodes back to it, field for
/// field - the save/load round trip.
pub fn decode_character(doc: &Vec<Field>) -> (r: Result<Character, DocumentError>)
    ensures
        r is Ok ==> (r->Ok_0).wf() && doc_view(doc@) =~= spec_character_fields(r->Ok_0),
        r is Err ==> forall|c: Character|
            c.wf() ==> !(doc_view(doc@) =~= spec_character_fields(c)),
        forall|c: Character|
            c.wf() && doc_view(doc@) =~= spec_character_fields(c) ==> r is Ok && spec_char_eq(
                r->Ok_0,
                c,
            ),
{
    proof {
        assert forall|i: int| 0 <= i < doc@.len() implies #[trigger] doc_view(doc@)[i]
            == field_view(doc@[i]) by {}
    }
    if doc.len() != 13 {
        proof {
            assert forall|c2: Character| c2.wf() implies !(doc_view(doc@)
                =~= spec_character_fields(c2)) by {
                if doc_view(doc@) =~= spec_character_fields(c2) {
                    assert(doc_view(doc@).len() == 13);
                }
            }
        }
        return Err(DocumentError::WrongShape);
    }
    let name = match take_text(doc, 0, "name") {
        Ok(s) => s,
        Err(e) => {
    proof {
        assert forall|c2: Character| c2.wf() implies !(doc_view(doc@) =~= spec_character_fields(
            c2,
        )) by {
            if doc_view(doc@) =~= spec_character_fields(c2) {
                assert(doc_view(doc@)[0] == field_view(doc@[0]));
                assert(doc_view(doc@)[0] == spec_character_fields(c2)[0]);
            }
        }
    }
            return Err(e)
        },
    };
    let class_text = match take_text(doc, 1, "class") {
        Ok(s) => s,
        Err(e) => {
    proof {
        assert forall|c2: Character| c2.wf() implies !(doc_view(doc@) =~= spec_character_fields(
            c2,
        )) by {
            if doc_view(doc@) =~= spec_character_fields(c2) {
                assert(doc_view(doc@)[1] == field_view(doc@[1]));
                assert(doc_view(doc@)[1] == spec_character_fields(c2)[1]);
            }
        }
    }
            return Err(e)
        },
    };
    let class = match parse_class(class_text.as_str()) {
        Some(c) => c,
        None => {
    proof {
        assert forall|c2: Character| c2.wf() implies !(doc_view(doc@) =~= spec_character_fields(
            c2,
        )) by {
            if doc_view(doc@) =~= spec_character_fields(c2) {
                assert(doc_view(doc@)[1] == field_view(doc@[1]));
                assert(doc_view(doc@)[1] == spec_character_fields(c2)[1]);
            }
        }
    }
            return Err(DocumentError::BadValue)
        },
    };
    let level = match take_int(doc, 2, "level") {
        Ok(x) => x,
        Err(e) => {
    proof {
        assert forall|c2: Character| c2.wf() implies !(doc_view(doc@) =~= spec_character_fields(
            c2,
        )) by {
            if doc_view(doc@) =~= spec_character_fields(c2) {
                assert(doc_view(doc@)[2] == field_view(doc@[2]));
                assert(doc_view(doc@)[2] == spec_character_fields(c2)[2]);
            }
        }
    }
            return Err(e)
        },
    };
    let total_xp = match take_int(doc, 3, "total_xp") {
        Ok(x) => x,
        Err(e) => {
    proof {
        assert forall|c2: Character| c2.wf() implies !(doc_view(doc@) =~= spec_character_fields(
            c2,
        )) by {
            if doc_view(doc@) =~= spec_character_fields(c2) {
                assert(doc_view(doc@)[3] == field_view(doc@[3]));
                assert(doc_view(doc@)[3] == spec_character_fields(c2)[3]);
            }
        }
    }
            return Err(e)
        },
    };
    if total_xp > 0xffffffffu64 {
    proof {
        assert forall|c2: Character| c2.wf() implies !(doc_view(doc@) =~= spec_character_fields(
            c2,
        )) by {
            if doc_view(doc@) =~= spec_character_fields(c2) {
                assert(doc_view(doc@)[3] == field_view(doc@[3]));
                assert(doc_view(doc@)[3] == spec_character_fields(c2)[3]);
            }
        }
    }
        return Err(DocumentError::BadValue);
    }
    let strength = match take_int(doc, 4, "strength") {
        Ok(x) => x,
        Err(e) => {
    proof {
        assert forall|c2: Character| c2.wf() implies !(doc_view(doc@) =~= spec_character_fields(
            c2,
        )) by {
            if doc_view(doc@) =~= spec_character_fields(c2) {
                assert(doc_view(doc@)[4] == field_view(doc@[4]));
                assert(doc_view(doc@)[4] == spec_character_fields(c2)[4]);
            }
        }
    }
            return Err(e)
        },
    };
    let dexterity = match take_int(doc, 5, "dexterity") {
        Ok(x) => x,
        Err(e) => {
    proof {
        assert forall|c2: Character| c2.wf() implies !(doc_view(doc@) =~= spec_character_fields(
            c2,
        )) by {
            if doc_view(doc@) =~= spec_character_fields(c2) {
                assert(doc_view(doc@)[5] == field_view(doc@[5]));
                assert(doc_view(doc@)[5] == spec_character_fields(c2)[5]);
            }
        }
    }
            return Err(e)
        },
    };
    let constitution = match take_int(doc, 6, "constitution") {
        Ok(x) => x,
        Err(e) => {
    proof {
        assert forall|c2: Character| c2.wf() implies !(doc_view(doc@) =~= spec_character_fields(
            c2,
        )) by {
            if doc_view(doc@) =~= spec_character_fields(c2) {
                assert(doc_view(doc@)[6] == field_view(doc@[6]));
                assert(doc_view(doc@)[6] == spec_character_fields(c2)[6]);
            }
        }
    }
            return Err(e)
        },
    };
    let intelligence = match take_int(doc, 7, "intelligence") {
        Ok(x) => x,
        Err(e) => {
    proof {
        assert forall|c2: Character| c2.wf() implies !(doc_view(doc@) =~= spec_character_fields(
            c2,
        )) by {
            if doc_view(doc@) =~= spec_character_fields(c2) {
                assert(doc_view(doc@)[7] == field_view(doc@[7]));
                assert(doc_view(doc@)[7] == spec_character_fields(c2)[7]);
            }
        }
    }
            return Err(e)
        },
    };
    let wisdom = match take_int(doc, 8, "wisdom") {
        Ok(x) => x,
        Err(e) => {
    proof {
        assert forall|c2: Character| c2.wf() implies !(doc_view(doc@) =~= spec_character_fields(
            c2,
        )) by {
            if doc_view(doc@) =~= spec_character_fields(c2) {
                assert(doc_view(doc@)[8] == field_view(doc@[8]));
                assert(doc_view(doc@)[8] == spec_character_fields(c2)[8]);
            }
        }
    }
            return Err(e)
        },
    };
    let charisma = match take_int(doc, 9, "charisma") {
        Ok(x) => x,
        Err(e) => {
    proof {
        assert forall|c2: Character| c2.wf() implies !(doc_view(doc@) =~= spec_character_fields(
            c2,
        )) by {
            if doc_view(doc@) =~= spec_character_fields(c2) {
                assert(doc_view(doc@)[9] == field_view(doc@[9]));
                assert(doc_view(doc@)[9] == spec_character_fields(c2)[9]);
            }
        }
    }
            return Err(e)
        },
    };
    if strength < 10000 || strength > 99000 {
    proof {
        assert forall|c2: Character| c2.wf() implies !(doc_view(doc@) =~= spec_character_fields(
            c2,
        )) by {
            if doc_view(doc@) =~= spec_character_fields(c2) {
                assert(doc_view(doc@)[4] == field_view(doc@[4]));
                assert(doc_view(doc@)[4] == spec_character_fields(c2)[4]);
            }
        }
    }
        return Err(DocumentError::BadValue);
    }
    if dexterity < 10000 || dexterity > 99000 {
    proof {
        assert forall|c2: Character| c2.wf() implies !(doc_view(doc@) =~= spec_character_fields(
            c2,
        )) by {
            if doc_view(doc@) =~= spec_character_fields(c2) {
                assert(doc_view(doc@)[5] == field_view(doc@[5]));
                assert(doc_view(doc@)[5] == spec_character_fields(c2)[5]);
            }
        }
    }
        return Err(DocumentError::BadValue);
    }
    if constitution < 10000 || constitution > 99000 {
    proof {
        assert forall|c2: Character| c2.wf() implies !(doc_view(doc@) =~= spec_character_fields(
            c2,
        )) by {
            if doc_view(doc@) =~= spec_character_fields(c2) {
                assert(doc_view(doc@)[6] == field_view(doc@[6]));
                assert(doc_view(doc@)[6] == spec_character_fields(c2)[6]);
            }
        }
    }
        return Err(DocumentError::BadValue);
    }
    if intelligence < 10000 || intelligence > 99000 {
    proof {
        assert forall|c2: Character| c2.wf() implies !(doc_view(doc@) =~= spec_character_fields(
            c2,
        )) by {
            if doc_view(doc@) =~= spec_character_fields(c2) {
                assert(doc_view(doc@)[7] == field_view(doc@[7]));
                assert(doc_view(doc@)[7] == spec_character_fields(c2)[7]);
            }
        }
    }
        return Err(DocumentError::BadValue);
    }
    if wisdom < 10000 || wisdom > 99000 {
    proof {
        assert forall|c2: Character| c2.wf() implies !(doc_view(doc@) =~= spec_character_fields(
            c2,
        )) by {
            if doc_view(doc@) =~= spec_character_fields(c2) {
                assert(doc_view(doc@)[8] == field_view(doc@[8]));
                assert(doc_view(doc@)[8] == spec_character_fields(c2)[8]);
            }
        }
    }
        return Err(DocumentError::BadValue);
    }
    if charisma < 10000 || charisma > 99000 {
    proof {
        assert forall|c2: Character| c2.wf() implies !(doc_view(doc@) =~= spec_character_fields(
            c2,
        )) by {
            if doc_view(doc@) =~= spec_character_fields(c2) {
                assert(doc_view(doc@)[9] == field_view(doc@[9]));
                assert(doc_view(doc@)[9] == spec_character_fields(c2)[9]);
            }
        }
    }
        return Err(DocumentError::BadValue);
    }
    let gold = match take_int(doc, 10, "gold") {
        Ok(x) => x,
        Err(e) => {
    proof {
        assert forall|c2: Character| c2.wf() implies !(doc_view(doc@) =~= spec_character_fields(
            c2,
        )) by {
            if doc_view(doc@) =~= spec_character_fields(c2) {
                assert(doc_view(doc@)[10] == field_view(doc@[10]));
                assert(doc_view(doc@)[10] == spec_character_fields(c2)[10]);
            }
        }
    }
            return Err(e)
        },
    };
    if gold > 0xffffffffu64 {
    proof {
        assert forall|c2: Character| c2.wf() implies !(doc_view(doc@) =~= spec_character_fields(
            c2,
        )) by {
            if doc_view(doc@) =~= spec_character_fields(c2) {
                assert(doc_view(doc@)[10] == field_view(doc@[10]));
                assert(doc_view(doc@)[10] == spec_character_fields(c2)[10]);
            }
        }
    }
        return Err(DocumentError::BadValue);
    }
    let tasks_completed = match take_int(doc, 11, "tasks_completed") {
        Ok(x) => x,
        Err(e) => {
    proof {
        assert forall|c2: Character| c2.wf() implies !(doc_view(doc@) =~= spec_character_fields(
            c2,
        )) by {
            if doc_view(doc@) =~= spec_character_fields(c2) {
                assert(doc_view(doc@)[11] == field_view(doc@[11]));
                assert(doc_view(doc@)[11] == spec_character_fields(c2)[11]);
            }
        }
    }
            return Err(e)
        },
    };
    if tasks_completed > 0xffffffffu64 {
    proof {
        assert forall|c2: Character| c2.wf() implies !(doc_view(doc@) =~= spec_character_fields(
            c2,
        )) by {
            if doc_view(doc@) =~= spec_character_fields(c2) {
                assert(doc_view(doc@)[11] == field_view(doc@[11]));
                assert(doc_view(doc@)[11] == spec_character_fields(c2)[11]);
            }
        }
    }
        return Err(DocumentError::BadValue);
    }
    let titles = match take_texts(doc, 12, "active_title") {
        Ok(ss) => ss,
        Err(e) => {
    proof {
        assert forall|c2: Character| c2.wf() implies !(doc_view(doc@) =~= spec_character_fields(
            c2,
        )) by {
            if doc_view(doc@) =~= spec_character_fields(c2) {
                assert(doc_view(doc@)[12] == field_view(doc@[12]));
                assert(doc_view(doc@)[12] == spec_character_fields(c2)[12]);
            }
        }
    }
            return Err(e)
        },
    };
    if titles.len() > 1 {
        proof {
            assert forall|c2: Character| c2.wf() implies !(doc_view(doc@)
                =~= spec_character_fields(c2)) by {
                if doc_view(doc@) =~= spec_character_fields(c2) {
                    assert(doc_view(doc@)[12] == field_view(doc@[12]));
                    assert(doc_view(doc@)[12] == spec_character_fields(c2)[12]);
                    assert(titles@.map_values(|s: String| s@).len() == titles@.len());
                }
            }
        }
        return Err(DocumentError::BadValue);
    }
    let computed_level = LevelSystem::level_from_xp(total_xp as u32);
    if level != computed_level as u64 {
        proof {
            assert forall|c2: Character| c2.wf() implies !(doc_view(doc@)
                =~= spec_character_fields(c2)) by {
                if doc_view(doc@) =~= spec_character_fields(c2) {
                    assert(doc_view(doc@)[2] == spec_character_fields(c2)[2]);
                    assert(doc_view(doc@)[3] == spec_character_fields(c2)[3]);
                    lemma_level_of_unique(
                        c2.total_xp as int,
                        c2.level as int,
                        spec_level_from_xp(c2.total_xp as int),
                    );
                }
            }
        }
        return Err(DocumentError::BadValue);
    }
    let ghost titles_view = titles@.map_values(|s: String| s@);
    let mut titles = titles;
    let active_title: Option<String> = if titles.len() == 1 {
        titles.pop()
    } else {
        None
    };
    let c = Character {
        name,
        class,
        level: computed_level,
        total_xp: total_xp as u32,
        stats: Stats { strength, dexterity, constitution, intelligence, wisdom, charisma },
        gold: gold as u32,
        tasks_completed: tasks_completed as u32,
        active_title,
    };
    proof {
        assert((match c.active_title {
            Some(t) => seq![t@],
            None => Seq::<Seq<char>>::empty(),
        }) =~= titles_view);
        assert(doc_view(doc@) =~= spec_character_fields(c));
        assert forall|c2: Character|
            c2.wf() && doc_view(doc@) =~= spec_character_fields(c2) implies spec_char_eq(
            c,
            c2,
        ) by {
            assert(doc_view(doc@)[0] == spec_character_fields(c2)[0]);
            assert(doc_view(doc@)[1] == spec_character_fields(c2)[1]);
            assert(doc_view(doc@)[2] == spec_character_fields(c2)[2]);
            assert(doc_view(doc@)[3] == spec_character_fields(c2)[3]);
            assert(doc_view(doc@)[4] == spec_character_fields(c2)[4]);
            assert(doc_view(doc@)[5] == spec_character_fields(c2)[5]);
            assert(doc_view(doc@)[6] == spec_character_fields(c2)[6]);
            assert(doc_view(doc@)[7] == spec_character_fields(c2)[7]);
            assert(doc_view(doc@)[8] == spec_character_fields(c2)[8]);
            assert(doc_view(doc@)[9] == spec_character_fields(c2)[9]);
            assert(doc_view(doc@)[10] == spec_character_fields(c2)[10]);
            assert(doc_view(doc@)[11] == spec_character_fields(c2)[11]);
            assert(doc_view(doc@)[12] == spec_character_fields(c2)[12]);
            lemma_class_text_injective(c.class, c2.class);
            lemma_level_of_unique(
                c2.total_xp as int,
                c2.level as int,
                spec_level_from_xp(c2.total_xp as int),
            );
            assert((match c2.active_title {
                Some(t) => seq![t@],
                None => Seq::<Seq<char>>::empty(),
            }) =~= titles_view);
            match (c.active_title, c2.active_title) {
                (Some(x), Some(y)) => {
                    assert(seq![x@] =~= seq![y@]);
                    assert(x@ == seq![y@][0]);
                },
                (None, Some(y)) => {
                    assert(titles_view.len() == 0 && titles_view.len() == 1);
                },
                (Some(x), None) => {
                    assert(titles_view.len() == 1 && titles_view.len() == 0);
                },
                (None, None) => {},
            }
        }
    }
    Ok(c)
}

/// Different classes carry different names.
proof fn lemma_class_text_injective(a: Class, b: Class)
    ensures
        spec_class_text(a) == spec_class_text(b) ==> a == b,
{
    if a != b && spec_class_text(a) == spec_class_text(b) {
        reveal_strlit("Rogue");
        reveal_strlit("Ranger");
        reveal_strlit("Warrior");
        reveal_strlit("Paladin");
        reveal_strlit("Monk");
        assert("Rogue"@.len() == 5 && "Ranger"@.len() == 6 && "Warrior"@.len() == 7 && "Paladin"@.len() == 7 && "Monk"@.len() == 4);
        assert("Warrior"@[0] == 'W' && "Paladin"@[0] == 'P');
        assert(false);
    }
}

/// Where a loaded value comes from: the primary file, the backup after the
/// primary failed, or nowhere.
#[derive(Debug, Clone, Copy, PartialEq, Eq, Structural)]
pub enum LoadSource {
    Primary,
    Backup,
    NoUsableState,
}

/// The backup-fallback rule of loading: take the primary document when it
/// decodes, fall back to the backup when only it does, and report no usable
/// state when neither does.
pub fn choose_loaded(
    primary: Option<Vec<Field>>,
    backup: Option<Vec<Field>>,
) -> (r: (Option<Character>, LoadSource))
    ensures
        match primary {
            Some(pdoc) => {
                if decode_ok_character(pdoc@) {
                    r.1 == LoadSource::Primary && r.0 is Some && doc_view(pdoc@)
                        =~= spec_character_fields(r.0->0)
                } else {
                    match backup {
                        Some(bdoc) => if decode_ok_character(bdoc@) {
                            r.1 == LoadSource::Backup && r.0 is Some && doc_view(bdoc@)
                                =~= spec_character_fields(r.0->0)
                        } else {
                            r.1 == LoadSource::NoUsableState && r.0 is None
                        },
                        None => r.1 == LoadSource::NoUsableState && r.0 is None,
                    }
                }
            },
            None => match backup {
                Some(bdoc) => if decode_ok_character(bdoc@) {
                    r.1 == LoadSource::Backup && r.0 is Some && doc_view(bdoc@)
                        =~= spec_character_fields(r.0->0)
                } else {
                    r.1 == LoadSource::NoUsableState && r.0 is None
                },
                None => r.1 == LoadSource::NoUsableState && r.0 is None,
            },
        },
        r.0 is Some ==> r.0->0.wf(),
{
    if let Some(pdoc) = primary {
        if let Ok(c) = decode_character(&pdoc) {
            return (Some(c), LoadSource::Primary);
        }
    }
    if let Some(bdoc) = backup {
        if let Ok(c) = decode_character(&bdoc) {
            return (Some(c), LoadSource::Backup);
        }
    }
    (None, LoadSource::NoUsableState)
}

/// Whether a document decodes as a character.
pub open spec fn decode_ok_character(doc: Seq<Field>) -> bool {
    exists|c: Character| c.wf() && doc_view(doc) =~= spec_character_fields(c)
}


/// The canonical document of the achievement ledger: the unlock flags in
/// catalog order, then every accumulator field.
pub open spec fn spec_tracker_fields(t: AchievementTracker) -> Seq<(Seq<char>, DocValue)> {
    seq![
        ("unlocked"@, DocValue::VInts(t.unlocked@.map_values(|b: bool| if b { 1int } else { 0int }))),
        ("quests_completed"@, DocValue::VInt(t.progress.quests_completed as int)),
        (
            "quests_by_difficulty"@,
            DocValue::VInts(t.progress.quests_by_difficulty@.map_values(|x: u32| x as int)),
        ),
        ("difficulty_10_quests"@, DocValue::VInt(t.progress.difficulty_10_quests as int)),
        ("active_days"@, DocValue::VInts(t.progress.active_days@.map_values(|x: u64| x as int))),
        (
            "projects_completed"@,
            DocValue::VTexts(t.progress.projects_completed@.map_values(|s: String| s@)),
        ),
        ("epic_loot_received"@, DocValue::VInt(if t.progress.epic_loot_received { 1int } else { 0int })),
        ("loot_drops_received"@, DocValue::VInt(t.progress.loot_drops_received as int)),
        ("rewards_purchased"@, DocValue::VInt(t.progress.rewards_purchased as int)),
        ("early_tasks"@, DocValue::VInt(t.progress.early_tasks as int)),
        ("grace_period_tasks"@, DocValue::VInt(t.progress.grace_period_tasks as int)),
        ("on_time_tasks"@, DocValue::VInt(t.progress.on_time_tasks as int)),
        ("tasks_with_due_date"@, DocValue::VInt(t.progress.tasks_with_due_date as int)),
        (
            "last_activity_date"@,
            DocValue::VInts(
                match t.progress.last_activity_date {
                    Some(d) => seq![d as int],
                    None => Seq::empty(),
                },
            ),
        ),
        ("comeback_quests_after_break"@, DocValue::VInt(t.progress.comeback_quests_after_break as int)),
        ("had_30_day_break"@, DocValue::VInt(if t.progress.had_30_day_break { 1int } else { 0int })),
        ("highest_stat_value"@, DocValue::VInt(t.progress.highest_stat_value as int)),
    ]
}

/// Ledgers equal in every persisted field, text compared by contents.
pub open spec fn spec_tracker_eq(a: AchievementTracker, b: AchievementTracker) -> bool {
    &&& a.unlocked@ == b.unlocked@
    &&& a.progress.quests_completed == b.progress.quests_completed
    &&& a.progress.quests_by_difficulty@ == b.progress.quests_by_difficulty@
    &&& a.progress.difficulty_10_quests == b.progress.difficulty_10_quests
    &&& a.progress.active_days@ == b.progress.active_days@
    &&& a.progress.projects_completed@.map_values(|s: String| s@)
        == b.progress.projects_completed@.map_values(|s: String| s@)
    &&& a.progress.epic_loot_received == b.progress.epic_loot_received
    &&& a.progress.loot_drops_received == b.progress.loot_drops_received
    &&& a.progress.rewards_purchased == b.progress.rewards_purchased
    &&& a.progress.early_tasks == b.progress.early_tasks
    &&& a.progress.grace_period_tasks == b.progress.grace_period_tasks
    &&& a.progress.on_time_tasks == b.progress.on_time_tasks
    &&& a.progress.tasks_with_due_date == b.progress.tasks_with_due_date
    &&& a.progress.last_activity_date == b.progress.last_activity_date
    &&& a.progress.comeback_quests_after_break == b.progress.comeback_quests_after_break
    &&& a.progress.had_30_day_break == b.progress.had_30_day_break
    &&& a.progress.highest_stat_value == b.progress.highest_stat_value
}

fn ints_field(name: &str, values: Vec<u64>) -> (f: Field)
    ensures
        field_view(f) == (name@, DocValue::VInts(values@.map_values(|x: u64| x as int))),
{
    Field { name: name.to_owned(), value: FieldValue::IntList(values) }
}

/// Turn the ledger into its canonical document.
pub fn encode_tracker(t: &AchievementTracker) -> (doc: Vec<Field>)
    requires
        t.wf(),
    ensures
        doc_view(doc@) =~= spec_tracker_fields(*t),
{
    let mut doc: Vec<Field> = Vec::new();
    let mut unlocked_bits: Vec<u64> = Vec::new();
    let mut i: usize = 0;
    let n = t.unlocked.len();
    while i < n
        invariant
            n == t.unlocked@.len(),
            i <= n,
            unlocked_bits@.len() == i,
            forall|k: int|
                0 <= k < i ==> unlocked_bits@[k] == (if t.unlocked@[k] {
                    1u64
                } else {
                    0u64
                }),
        decreases n - i,
    {
        unlocked_bits.push(if t.unlocked[i] {
            1
        } else {
            0
        });
        i = i + 1;
    }
    proof {
        assert(unlocked_bits@.map_values(|x: u64| x as int) =~= t.unlocked@.map_values(
            |b: bool| if b {
                1int
            } else {
                0int
            },
        ));
    }
    doc.push(ints_field("unlocked", unlocked_bits));
    doc.push(int_field("quests_completed", t.progress.quests_completed as u64));
    let mut by_difficulty: Vec<u64> = Vec::new();
    let mut i: usize = 0;
    while i < 10
        invariant
            t.progress.quests_by_difficulty@.len() == 10,
            i <= 10,
            by_difficulty@.len() == i,
            forall|k: int|
                0 <= k < i ==> by_difficulty@[k] == t.progress.quests_by_difficulty@[k] as u64,
        decreases 10 - i,
    {
        by_difficulty.push(t.progress.quests_by_difficulty[i] as u64);
        i = i + 1;
    }
    proof {
        assert(by_difficulty@.map_values(|x: u64| x as int)
            =~= t.progress.quests_by_difficulty@.map_values(|x: u32| x as int));
    }
    doc.push(ints_field("quests_by_difficulty", by_difficulty));
    doc.push(int_field("difficulty_10_quests", t.progress.difficulty_10_quests as u64));
    let mut days: Vec<u64> = Vec::new();
    let mut i: usize = 0;
    let nd = t.progress.active_days.len();
    while i < nd
        invariant
            nd == t.progress.active_days@.len(),
            i <= nd,
            days@ == t.progress.active_days@.subrange(0, i as int),
        decreases nd - i,
    {
        days.push(t.progress.active_days[i]);
        proof {
            assert(days@ =~= t.progress.active_days@.subrange(0, i + 1));
        }
        i = i + 1;
    }
    proof {
        assert(days@ =~= t.progress.active_days@);
    }
    doc.push(ints_field("active_days", days));
    let mut projects: Vec<String> = Vec::new();
    let mut i: usize = 0;
    let np = t.progress.projects_completed.len();
    while i < np
        invariant
            np == t.progress.projects_completed@.len(),
            i <= np,
            projects@.len() == i,
            forall|k: int|
                0 <= k < i ==> (#[trigger] projects@[k])@ == t.progress.projects_completed@[k]@,
        decreases np - i,
    {
        projects.push(t.progress.projects_completed[i].clone());
        i = i + 1;
    }
    proof {
        assert(projects@.map_values(|s: String| s@)
            =~= t.progress.projects_completed@.map_values(|s: String| s@));
    }
    doc.push(Field { name: "projects_completed".to_owned(), value: FieldValue::TextList(projects) });
    doc.push(int_field("epic_loot_received", if t.progress.epic_loot_received {
        1
    } else {
        0
    }));
    doc.push(int_field("loot_drops_received", t.progress.loot_drops_received as u64));
    doc.push(int_field("rewards_purchased", t.progress.rewards_purchased as u64));
    doc.push(int_field("early_tasks", t.progress.early_tasks as u64));
    doc.push(int_field("grace_period_tasks", t.progress.grace_period_tasks as u64));
    doc.push(int_field("on_time_tasks", t.progress.on_time_tasks as u64));
    doc.push(int_field("tasks_with_due_date", t.progress.tasks_with_due_date as u64));
    let mut last_list: Vec<u64> = Vec::new();
    if let Some(d) = t.progress.last_activity_date {
        last_list.push(d);
    }
    proof {
        assert(last_list@.map_values(|x: u64| x as int) =~= (match t.progress.last_activity_date {
            Some(d) => seq![d as int],
            None => Seq::<int>::empty(),
        }));
    }
    doc.push(ints_field("last_activity_date", last_list));
    doc.push(
        int_field("comeback_quests_after_break", t.progress.comeback_quests_after_break as u64),
    );
    doc.push(int_field("had_30_day_break", if t.progress.had_30_day_break {
        1
    } else {
        0
    }));
    doc.push(int_field("highest_stat_value", t.progress.highest_stat_value as u64));
    doc
}


/// Decode and validate the five list-shaped ledger fields.
#[verifier::rlimit(100)]
#[verifier::loop_isolation(false)]
fn decode_tracker_lists(doc: &Vec<Field>) -> (r: Result<
    (Vec<bool>, Vec<u32>, Vec<u64>, Vec<String>, Option<u64>),
    DocumentError,
>)
    requires
        doc@.len() == 17,
    ensures
        r is Err ==> forall|t: AchievementTracker|
            t.wf() ==> !(doc_view(doc@) =~= spec_tracker_fields(t)),
        r is Ok ==> ({
            let (unlocked, qbd, days, projects, last) = r->Ok_0;
            &&& unlocked@.len() == 30
            &&& field_view(doc@[0]) == (
                "unlocked"@,
                DocValue::VInts(unlocked@.map_values(|b: bool| if b { 1int } else { 0int })),
            )
            &&& qbd@.len() == 10
            &&& field_view(doc@[2]) == (
                "quests_by_difficulty"@,
                DocValue::VInts(qbd@.map_values(|x: u32| x as int)),
            )
            &&& field_view(doc@[4]) == (
                "active_days"@,
                DocValue::VInts(days@.map_values(|x: u64| x as int)),
            )
            &&& (forall|a: int, b: int| 0 <= a < b < days@.len() ==> days@[a] != days@[b])
            &&& field_view(doc@[5]) == (
                "projects_completed"@,
                DocValue::VTexts(projects@.map_values(|s: String| s@)),
            )
            &&& (forall|a: int, b: int|
                0 <= a < b < projects@.len() ==> (#[trigger] projects@[a])@
                    != (#[trigger] projects@[b])@)
            &&& field_view(doc@[13]) == (
                "last_activity_date"@,
                DocValue::VInts(
                    match last {
                        Some(d) => seq![d as int],
                        None => Seq::empty(),
                    },
                ),
            )
        }),
{
    proof {
        assert forall|i: int| 0 <= i < doc@.len() implies #[trigger] doc_view(doc@)[i]
            == field_view(doc@[i]) by {}
    }
    let unlocked_bits = match take_ints(doc, 0, "unlocked") {
        Ok(xs) => xs,
        Err(e) => {
            proof {
                assert forall|t2: AchievementTracker| t2.wf() implies !(doc_view(doc@)
                    =~= spec_tracker_fields(t2)) by {
                    if doc_view(doc@) =~= spec_tracker_fields(t2) {
                        assert(doc_view(doc@)[0] == field_view(doc@[0]));
                        assert(doc_view(doc@)[0] == spec_tracker_fields(t2)[0]);
                    }
                }
            }
            return Err(e)
        },
    };
    if unlocked_bits.len() != 30 {
            proof {
                assert forall|t2: AchievementTracker| t2.wf() implies !(doc_view(doc@)
                    =~= spec_tracker_fields(t2)) by {
                    if doc_view(doc@) =~= spec_tracker_fields(t2) {
                        assert(doc_view(doc@)[0] == field_view(doc@[0]));
                        assert(doc_view(doc@)[0] == spec_tracker_fields(t2)[0]);
                        assert(unlocked_bits@.map_values(|x: u64| x as int).len()
                            == unlocked_bits@.len());
                        assert(t2.unlocked@.map_values(|b: bool| if b { 1int } else { 0int }).len()
                            == t2.unlocked@.len());
                    }
                }
            }
        return Err(DocumentError::BadValue);
    }
    let mut unlocked: Vec<bool> = Vec::new();
    let mut i: usize = 0;
    while i < 30
        invariant
            unlocked_bits@.len() == 30,
            i <= 30,
            unlocked@.len() == i,
            forall|k: int| 0 <= k < i ==> unlocked_bits@[k] <= 1,
            forall|k: int| 0 <= k < i ==> unlocked@[k] == (unlocked_bits@[k] == 1),
        decreases 30 - i,
    {
        if unlocked_bits[i] > 1 {
            proof {
                assert forall|t2: AchievementTracker| t2.wf() implies !(doc_view(doc@)
                    =~= spec_tracker_fields(t2)) by {
                    if doc_view(doc@) =~= spec_tracker_fields(t2) {
                        assert(doc_view(doc@)[0] == field_view(doc@[0]));
                        assert(doc_view(doc@)[0] == spec_tracker_fields(t2)[0]);
                        assert(unlocked_bits@.map_values(|x: u64| x as int)[i as int]
                            == t2.unlocked@.map_values(
                            |b: bool| if b { 1int } else { 0int },
                        )[i as int]);
                    }
                }
            }
            return Err(DocumentError::BadValue);
        }
        unlocked.push(unlocked_bits[i] == 1);
        i = i + 1;
    }
    let by_difficulty_raw = match take_ints(doc, 2, "quests_by_difficulty") {
        Ok(xs) => xs,
        Err(e) => {
            proof {
                assert forall|t2: AchievementTracker| t2.wf() implies !(doc_view(doc@)
                    =~= spec_tracker_fields(t2)) by {
                    if doc_view(doc@) =~= spec_tracker_fields(t2) {
                        assert(doc_view(doc@)[2] == field_view(doc@[2]));
                        assert(doc_view(doc@)[2] == spec_tracker_fields(t2)[2]);
                    }
                }
            }
            return Err(e)
        },
    };
    if by_difficulty_raw.len() != 10 {
            proof {
                assert forall|t2: AchievementTracker| t2.wf() implies !(doc_view(doc@)
                    =~= spec_tracker_fields(t2)) by {
                    if doc_view(doc@) =~= spec_tracker_fields(t2) {
                        assert(doc_view(doc@)[2] == field_view(doc@[2]));
                        assert(doc_view(doc@)[2] == spec_tracker_fields(t2)[2]);
                        assert(by_difficulty_raw@.map_values(|x: u64| x as int).len()
                            == by_difficulty_raw@.len());
                        assert(t2.progress.quests_by_difficulty@.map_values(
                            |x: u32| x as int,
                        ).len() == t2.progress.quests_by_difficulty@.len());
                    }
                }
            }
        return Err(DocumentError::BadValue);
    }
    let mut quests_by_difficulty: Vec<u32> = Vec::new();
    let mut i: usize = 0;
    while i < 10
        invariant
            by_difficulty_raw@.len() == 10,
            i <= 10,
            quests_by_difficulty@.len() == i,
            forall|k: int| 0 <= k < i ==> by_difficulty_raw@[k] <= 0xffffffffu64,
            forall|k: int| 0 <= k < i ==> quests_by_difficulty@[k] == by_difficulty_raw@[k] as u32,
        decreases 10 - i,
    {
        if by_difficulty_raw[i] > 0xffffffffu64 {
            proof {
                assert forall|t2: AchievementTracker| t2.wf() implies !(doc_view(doc@)
                    =~= spec_tracker_fields(t2)) by {
                    if doc_view(doc@) =~= spec_tracker_fields(t2) {
                        assert(doc_view(doc@)[2] == field_view(doc@[2]));
                        assert(doc_view(doc@)[2] == spec_tracker_fields(t2)[2]);
                        assert(by_difficulty_raw@.map_values(|x: u64| x as int)[i as int]
                            == t2.progress.quests_by_difficulty@.map_values(
                            |x: u32| x as int,
                        )[i as int]);
                    }
                }
            }
            return Err(DocumentError::BadValue);
        }
        quests_by_difficulty.push(by_difficulty_raw[i] as u32);
        i = i + 1;
    }
    let active_days = match take_ints(doc, 4, "active_days") {
        Ok(xs) => xs,
        Err(e) => {
            proof {
                assert forall|t2: AchievementTracker| t2.wf() implies !(doc_view(doc@)
                    =~= spec_tracker_fields(t2)) by {
                    if doc_view(doc@) =~= spec_tracker_fields(t2) {
                        assert(doc_view(doc@)[4] == field_view(doc@[4]));
                        assert(doc_view(doc@)[4] == spec_tracker_fields(t2)[4]);
                    }
                }
            }
            return Err(e)
        },
    };
    let mut i: usize = 0;
    let nd = active_days.len();
    while i < nd
        invariant
            nd == active_days@.len(),
            i <= nd,
            forall|a: int, b: int| 0 <= a < b < i ==> active_days@[a] != active_days@[b],
        decreases nd - i,
    {
        let mut j: usize = 0;
        while j < i
            invariant
                i < nd == active_days@.len(),
                j <= i,
                forall|a: int| 0 <= a < j ==> active_days@[a] != active_days@[i as int],
            decreases i - j,
        {
            if active_days[j] == active_days[i] {
                proof {
                    assert forall|t2: AchievementTracker| t2.wf() implies !(doc_view(doc@)
                        =~= spec_tracker_fields(t2)) by {
                        if doc_view(doc@) =~= spec_tracker_fields(t2) {
                            assert(doc_view(doc@)[4] == field_view(doc@[4]));
                            assert(doc_view(doc@)[4] == spec_tracker_fields(t2)[4]);
                            assert(active_days@.map_values(|x: u64| x as int).len()
                                == active_days@.len());
                            assert(t2.progress.active_days@.map_values(|x: u64| x as int).len()
                                == t2.progress.active_days@.len());
                            assert(active_days@.map_values(|x: u64| x as int)[j as int]
                                == t2.progress.active_days@.map_values(|x: u64| x as int)[j as int]);
                            assert(active_days@.map_values(|x: u64| x as int)[i as int]
                                == t2.progress.active_days@.map_values(|x: u64| x as int)[i as int]);
                        }
                    }
                }
                return Err(DocumentError::BadValue);
            }
            j = j + 1;
        }
        i = i + 1;
    }
    let projects_completed = match take_texts(doc, 5, "projects_completed") {
        Ok(ss) => ss,
        Err(e) => {
            proof {
                assert forall|t2: AchievementTracker| t2.wf() implies !(doc_view(doc@)
                    =~= spec_tracker_fields(t2)) by {
                    if doc_view(doc@) =~= spec_tracker_fields(t2) {
                        assert(doc_view(doc@)[5] == field_view(doc@[5]));
                        assert(doc_view(doc@)[5] == spec_tracker_fields(t2)[5]);
                    }
                }
            }
            return Err(e)
        },
    };
    let mut i: usize = 0;
    let np = projects_completed.len();
    while i < np
        invariant
            np == projects_completed@.len(),
            i <= np,
            forall|a: int, b: int|
                0 <= a < b < i ==> (#[trigger] projects_completed@[a])@
                    != (#[trigger] projects_completed@[b])@,
        decreases np - i,
    {
        let mut j: usize = 0;
        while j < i
            invariant
                i < np == projects_completed@.len(),
                j <= i,
                forall|a: int| 0 <= a < j ==> (#[trigger] projects_completed@[a])@
                    != projects_completed@[i as int]@,
            decreases i - j,
        {
            if projects_completed[j] == projects_completed[i] {
                proof {
                    assert forall|t2: AchievementTracker| t2.wf() implies !(doc_view(doc@)
                        =~= spec_tracker_fields(t2)) by {
                        if doc_view(doc@) =~= spec_tracker_fields(t2) {
                            assert(doc_view(doc@)[5] == field_view(doc@[5]));
                            assert(doc_view(doc@)[5] == spec_tracker_fields(t2)[5]);
                            assert(projects_completed@.map_values(|s: String| s@).len()
                                == projects_completed@.len());
                            assert(t2.progress.projects_completed@.map_values(|s: String| s@).len()
                                == t2.progress.projects_completed@.len());
                            assert(projects_completed@.map_values(|s: String| s@)[j as int]
                                == t2.progress.projects_completed@.map_values(|s: String| s@)[j as int]);
                            assert(projects_completed@.map_values(|s: String| s@)[i as int]
                                == t2.progress.projects_completed@.map_values(|s: String| s@)[i as int]);
                        }
                    }
                }
                return Err(DocumentError::BadValue);
            }
            j = j + 1;
        }
        i = i + 1;
    }
    let last_list = match take_ints(doc, 13, "last_activity_date") {
        Ok(xs) => xs,
        Err(e) => {
            proof {
                assert forall|t2: AchievementTracker| t2.wf() implies !(doc_view(doc@)
                    =~= spec_tracker_fields(t2)) by {
                    if doc_view(doc@) =~= spec_tracker_fields(t2) {
                        assert(doc_view(doc@)[13] == field_view(doc@[13]));
                        assert(doc_view(doc@)[13] == spec_tracker_fields(t2)[13]);
                    }
                }
            }
            return Err(e)
        },
    };
    if last_list.len() > 1 {
        proof {
            assert forall|t2: AchievementTracker| t2.wf() implies !(doc_view(doc@)
                =~= spec_tracker_fields(t2)) by {
                if doc_view(doc@) =~= spec_tracker_fields(t2) {
                    assert(doc_view(doc@)[13] == field_view(doc@[13]));
                    assert(doc_view(doc@)[13] == spec_tracker_fields(t2)[13]);
                    assert(last_list@.map_values(|x: u64| x as int).len() == last_list@.len());
                }
            }
        }
        return Err(DocumentError::BadValue);
    }
    let last_activity_date: Option<u64> = if last_list.len() == 1 {
        Some(last_list[0])
    } else {
        None
    };
    proof {
        assert((match last_activity_date {
            Some(d) => seq![d as int],
            None => Seq::<int>::empty(),
        }) =~= last_list@.map_values(|x: u64| x as int));
        assert(unlocked@.map_values(|b: bool| if b { 1int } else { 0int })
            =~= unlocked_bits@.map_values(|x: u64| x as int));
        assert(quests_by_difficulty@.map_values(|x: u32| x as int)
            =~= by_difficulty_raw@.map_values(|x: u64| x as int));
    }
    Ok((unlocked, quests_by_difficulty, active_days, projects_completed, last_activity_date))
}

/// Rebuild the ledger from its document, validating every field; the
/// canonical document of a well-formed ledger decodes back to it, field for
/// field - the save/load round trip of the second persisted document.
#[verifier::rlimit(100)]
#[verifier::loop_isolation(false)]
pub fn decode_tracker(doc: &Vec<Field>) -> (r: Result<AchievementTracker, DocumentError>)
    ensures
        r is Ok ==> (r->Ok_0).wf() && doc_view(doc@) =~= spec_tracker_fields(r->Ok_0),
        r is Err ==> forall|t: AchievementTracker|
            t.wf() ==> !(doc_view(doc@) =~= spec_tracker_fields(t)),
        forall|t: AchievementTracker|
            t.wf() && doc_view(doc@) =~= spec_tracker_fields(t) ==> r is Ok && spec_tracker_eq(
                r->Ok_0,
                t,
            ),
{
    proof {
        assert forall|i: int| 0 <= i < doc@.len() implies #[trigger] doc_view(doc@)[i]
            == field_view(doc@[i]) by {}
    }
    if doc.len() != 17 {
        proof {
            assert forall|t2: AchievementTracker| t2.wf() implies !(doc_view(doc@)
                =~= spec_tracker_fields(t2)) by {
                if doc_view(doc@) =~= spec_tracker_fields(t2) {
                    assert(doc_view(doc@).len() == 17);
                }
            }
        }
        return Err(DocumentError::WrongShape);
    }
    let lists = match decode_tracker_lists(doc) {
        Ok(x) => x,
        Err(e) => {
            return Err(e)
        },
    };
    let (unlocked, quests_by_difficulty, active_days, projects_completed, last_activity_date) =
        lists;
    let quests_completed = match take_int(doc, 1, "quests_completed") {
        Ok(x) => x,
        Err(e) => {
            proof {
                assert forall|t2: AchievementTracker| t2.wf() implies !(doc_view(doc@)
                    =~= spec_tracker_fields(t2)) by {
                    if doc_view(doc@) =~= spec_tracker_fields(t2) {
                        assert(doc_view(doc@)[1] == field_view(doc@[1]));
                        assert(doc_view(doc@)[1] == spec_tracker_fields(t2)[1]);
                    }
                }
            }
            return Err(e)
        },
    };
    if quests_completed > 0xffffffffu64 {
            proof {
                assert forall|t2: AchievementTracker| t2.wf() implies !(doc_view(doc@)
                    =~= spec_tracker_fields(t2)) by {
                    if doc_view(doc@) =~= spec_tracker_fields(t2) {
                        assert(doc_view(doc@)[1] == field_view(doc@[1]));
                        assert(doc_view(doc@)[1] == spec_tracker_fields(t2)[1]);
                    }
                }
            }
        return Err(DocumentError::BadValue);
    }
    let difficulty_10_quests = match take_int(doc, 3, "difficulty_10_quests") {
        Ok(x) => x,
        Err(e) => {
            proof {
                assert forall|t2: AchievementTracker| t2.wf() implies !(doc_view(doc@)
                    =~= spec_tracker_fields(t2)) by {
                    if doc_view(doc@) =~= spec_tracker_fields(t2) {
                        assert(doc_view(doc@)[3] == field_view(doc@[3]));
                        assert(doc_view(doc@)[3] == spec_tracker_fields(t2)[3]);
                    }
                }
            }
            return Err(e)
        },
    };
    if difficulty_10_quests > 0xffffffffu64 {
            proof {
                assert forall|t2: AchievementTracker| t2.wf() implies !(doc_view(doc@)
                    =~= spec_tracker_fields(t2)) by {
                    if doc_view(doc@) =~= spec_tracker_fields(t2) {
                        assert(doc_view(doc@)[3] == field_view(doc@[3]));
                        assert(doc_view(doc@)[3] == spec_tracker_fields(t2)[3]);
                    }
                }
            }
        return Err(DocumentError::BadValue);
    }
    let loot_drops_received = match take_int(doc, 7, "loot_drops_received") {
        Ok(x) => x,
        Err(e) => {
            proof {
                assert forall|t2: AchievementTracker| t2.wf() implies !(doc_view(doc@)
                    =~= spec_tracker_fields(t2)) by {
                    if doc_view(doc@) =~= spec_tracker_fields(t2) {
                        assert(doc_view(doc@)[7] == field_view(doc@[7]));
                        assert(doc_view(doc@)[7] == spec_tracker_fields(t2)[7]);
                    }
                }
            }
            return Err(e)
        },
    };
    if loot_drops_received > 0xffffffffu64 {
            proof {
                assert forall|t2: AchievementTracker| t2.wf() implies !(doc_view(doc@)
                    =~= spec_tracker_fields(t2)) by {
                    if doc_view(doc@) =~= spec_tracker_fields(t2) {
                        assert(doc_view(doc@)[7] == field_view(doc@[7]));
                        assert(doc_view(doc@)[7] == spec_tracker_fields(t2)[7]);
                    }
                }
            }
        return Err(DocumentError::BadValue);
    }
    let rewards_purchased = match take_int(doc, 8, "rewards_purchased") {
        Ok(x) => x,
        Err(e) => {
            proof {
                assert forall|t2: AchievementTracker| t2.wf() implies !(doc_view(doc@)
                    =~= spec_tracker_fields(t2)) by {
                    if doc_view(doc@) =~= spec_tracker_fields(t2) {
                        assert(doc_view(doc@)[8] == field_view(doc@[8]));
                        assert(doc_view(doc@)[8] == spec_tracker_fields(t2)[8]);
                    }
                }
            }
            return Err(e)
        },
    };
    if rewards_purchased > 0xffffffffu64 {
            proof {
                assert forall|t2: AchievementTracker| t2.wf() implies !(doc_view(doc@)
                    =~= spec_tracker_fields(t2)) by {
                    if doc_view(doc@) =~= spec_tracker_fields(t2) {
                        assert(doc_view(doc@)[8] == field_view(doc@[8]));
                        assert(doc_view(doc@)[8] == spec_tracker_fields(t2)[8]);
                    }
                }
            }
        return Err(DocumentError::BadValue);
    }
    let early_tasks = match take_int(doc, 9, "early_tasks") {
        Ok(x) => x,
        Err(e) => {
            proof {
                assert forall|t2: AchievementTracker| t2.wf() implies !(doc_view(doc@)
                    =~= spec_tracker_fields(t2)) by {
                    if doc_view(doc@) =~= spec_tracker_fields(t2) {
                        assert(doc_view(doc@)[9] == field_view(doc@[9]));
                        assert(doc_view(doc@)[9] == spec_tracker_fields(t2)[9]);
                    }
                }
            }
            return Err(e)
        },
    };
    if early_tasks > 0xffffffffu64 {
            proof {
                assert forall|t2: AchievementTracker| t2.wf() implies !(doc_view(doc@)
                    =~= spec_tracker_fields(t2)) by {
                    if doc_view(doc@) =~= spec_tracker_fields(t2) {
                        assert(doc_view(doc@)[9] == field_view(doc@[9]));
                        assert(doc_view(doc@)[9] == spec_tracker_fields(t2)[9]);
                    }
                }
            }
        return Err(DocumentError::BadValue);
    }
    let grace_period_tasks = match take_int(doc, 10, "grace_period_tasks") {
        Ok(x) => x,
        Err(e) => {
            proof {
                assert forall|t2: AchievementTracker| t2.wf() implies !(doc_view(doc@)
                    =~= spec_tracker_fields(t2)) by {
                    if doc_view(doc@) =~= spec_tracker_fields(t2) {
                        assert(doc_view(doc@)[10] == field_view(doc@[10]));
                        assert(doc_view(doc@)[10] == spec_tracker_fields(t2)[10]);
                    }
                }
            }
            return Err(e)
        },
    };
    if grace_period_tasks > 0xffffffffu64 {
            proof {
                assert forall|t2: AchievementTracker| t2.wf() implies !(doc_view(doc@)
                    =~= spec_tracker_fields(t2)) by {
                    if doc_view(doc@) =~= spec_tracker_fields(t2) {
                        assert(doc_view(doc@)[10] == field_view(doc@[10]));
                        assert(doc_view(doc@)[10] == spec_tracker_fields(t2)[10]);
                    }
                }
            }
        return Err(DocumentError::BadValue);
    }
    let on_time_tasks = match take_int(doc, 11, "on_time_tasks") {
        Ok(x) => x,
        Err(e) => {
            proof {
                assert forall|t2: AchievementTracker| t2.wf() implies !(doc_view(doc@)
                    =~= spec_tracker_fields(t2)) by {
                    if doc_view(doc@) =~= spec_tracker_fields(t2) {
                        assert(doc_view(doc@)[11] == field_view(doc@[11]));
                        assert(doc_view(doc@)[11] == spec_tracker_fields(t2)[11]);
                    }
                }
            }
            return Err(e)
        },
    };
    if on_time_tasks > 0xffffffffu64 {
            proof {
                assert forall|t2: AchievementTracker| t2.wf() implies !(doc_view(doc@)
                    =~= spec_tracker_fields(t2)) by {
                    if doc_view(doc@) =~= spec_tracker_fields(t2) {
                        assert(doc_view(doc@)[11] == field_view(doc@[11]));
                        assert(doc_view(doc@)[11] == spec_tracker_fields(t2)[11]);
                    }
                }
            }
        return Err(DocumentError::BadValue);
    }
    let tasks_with_due_date = match take_int(doc, 12, "tasks_with_due_date") {
        Ok(x) => x,
        Err(e) => {
            proof {
                assert forall|t2: AchievementTracker| t2.wf() implies !(doc_view(doc@)
                    =~= spec_tracker_fields(t2)) by {
                    if doc_view(doc@) =~= spec_tracker_fields(t2) {
                        assert(doc_view(doc@)[12] == field_view(doc@[12]));
                        assert(doc_view(doc@)[12] == spec_tracker_fields(t2)[12]);
                    }
                }
            }
            return Err(e)
        },
    };
    if tasks_with_due_date > 0xffffffffu64 {
            proof {
                assert forall|t2: AchievementTracker| t2.wf() implies !(doc_view(doc@)
                    =~= spec_tracker_fields(t2)) by {
                    if doc_view(doc@) =~= spec_tracker_fields(t2) {
                        assert(doc_view(doc@)[12] == field_view(doc@[12]));
                        assert(doc_view(doc@)[12] == spec_tracker_fields(t2)[12]);
                    }
                }
            }
        return Err(DocumentError::BadValue);
    }
    let comeback_quests_after_break = match take_int(doc, 14, "comeback_quests_after_break") {
        Ok(x) => x,
        Err(e) => {
            proof {
                assert forall|t2: AchievementTracker| t2.wf() implies !(doc_view(doc@)
                    =~= spec_tracker_fields(t2)) by {
                    if doc_view(doc@) =~= spec_tracker_fields(t2) {
                        assert(doc_view(doc@)[14] == field_view(doc@[14]));
                        assert(doc_view(doc@)[14] == spec_tracker_fields(t2)[14]);
                    }
                }
            }
            return Err(e)
        },
    };
    if comeback_quests_after_break > 0xffffffffu64 {
            proof {
                assert forall|t2: AchievementTracker| t2.wf() implies !(doc_view(doc@)
                    =~= spec_tracker_fields(t2)) by {
                    if doc_view(doc@) =~= spec_tracker_fields(t2) {
                        assert(doc_view(doc@)[14] == field_view(doc@[14]));
                        assert(doc_view(doc@)[14] == spec_tracker_fields(t2)[14]);
                    }
                }
            }
        return Err(DocumentError::BadValue);
    }
    let highest_stat_value = match take_int(doc, 16, "highest_stat_value") {
        Ok(x) => x,
        Err(e) => {
            proof {
                assert forall|t2: AchievementTracker| t2.wf() implies !(doc_view(doc@)
                    =~= spec_tracker_fields(t2)) by {
                    if doc_view(doc@) =~= spec_tracker_fields(t2) {
                        assert(doc_view(doc@)[16] == field_view(doc@[16]));
                        assert(doc_view(doc@)[16] == spec_tracker_fields(t2)[16]);
                    }
                }
            }
            return Err(e)
        },
    };
    if highest_stat_value > 0xffffu64 {
            proof {
                assert forall|t2: AchievementTracker| t2.wf() implies !(doc_view(doc@)
                    =~= spec_tracker_fields(t2)) by {
                    if doc_view(doc@) =~= spec_tracker_fields(t2) {
                        assert(doc_view(doc@)[16] == field_view(doc@[16]));
                        assert(doc_view(doc@)[16] == spec_tracker_fields(t2)[16]);
                    }
                }
            }
        return Err(DocumentError::BadValue);
    }

    let epic_loot_received_raw = match take_int(doc, 6, "epic_loot_received") {
        Ok(x) => x,
        Err(e) => {
            proof {
                assert forall|t2: AchievementTracker| t2.wf() implies !(doc_view(doc@)
                    =~= spec_tracker_fields(t2)) by {
                    if doc_view(doc@) =~= spec_tracker_fields(t2) {
                        assert(doc_view(doc@)[6] == field_view(doc@[6]));
                        assert(doc_view(doc@)[6] == spec_tracker_fields(t2)[6]);
                    }
                }
            }
            return Err(e)
        },
    };
    if epic_loot_received_raw > 1 {
            proof {
                assert forall|t2: AchievementTracker| t2.wf() implies !(doc_view(doc@)
                    =~= spec_tracker_fields(t2)) by {
                    if doc_view(doc@) =~= spec_tracker_fields(t2) {
                        assert(doc_view(doc@)[6] == field_view(doc@[6]));
                        assert(doc_view(doc@)[6] == spec_tracker_fields(t2)[6]);
                    }
                }
            }
        return Err(DocumentError::BadValue);
    }
    let epic_loot_received: bool = epic_loot_received_raw == 1;
    let had_30_day_break_raw = match take_int(doc, 15, "had_30_day_break") {
        Ok(x) => x,
        Err(e) => {
            proof {
                assert forall|t2: AchievementTracker| t2.wf() implies !(doc_view(doc@)
                    =~= spec_tracker_fields(t2)) by {
                    if doc_view(doc@) =~= spec_tracker_fields(t2) {
                        assert(doc_view(doc@)[15] == field_view(doc@[15]));
                        assert(doc_view(doc@)[15] == spec_tracker_fields(t2)[15]);
                    }
                }
            }
            return Err(e)
        },
    };
    if had_30_day_break_raw > 1 {
            proof {
                assert forall|t2: AchievementTracker| t2.wf() implies !(doc_view(doc@)
                    =~= spec_tracker_fields(t2)) by {
                    if doc_view(doc@) =~= spec_tracker_fields(t2) {
                        assert(doc_view(doc@)[15] == field_view(doc@[15]));
                        assert(doc_view(doc@)[15] == spec_tracker_fields(t2)[15]);
                    }
                }
            }
        return Err(DocumentError::BadValue);
    }
    let had_30_day_break: bool = had_30_day_break_raw == 1;
    let t = AchievementTracker {
        unlocked,
        progress: AchievementProgress {
            quests_completed: quests_completed as u32,
            quests_by_difficulty,
            difficulty_10_quests: difficulty_10_quests as u32,
            active_days,
            projects_completed,
            epic_loot_received,
            loot_drops_received: loot_drops_received as u32,
            rewards_purchased: rewards_purchased as u32,
            early_tasks: early_tasks as u32,
            grace_period_tasks: grace_period_tasks as u32,
            on_time_tasks: on_time_tasks as u32,
            tasks_with_due_date: tasks_with_due_date as u32,
            last_activity_date,
            comeback_quests_after_break: comeback_quests_after_break as u32,
            had_30_day_break,
            highest_stat_value: highest_stat_value as u16,
        },
    };
    proof {
        assert(doc_view(doc@) =~= spec_tracker_fields(t));
        lemma_tracker_decode_unique(doc@, t);
    }
    Ok(t)
}

/// Two ledgers with the same canonical document agree in every field.
proof fn lemma_tracker_decode_unique(doc: Seq<Field>, t: AchievementTracker)
    requires
        doc_view(doc) =~= spec_tracker_fields(t),
    ensures
        forall|t2: AchievementTracker|
            t2.wf() && doc_view(doc) =~= spec_tracker_fields(t2) ==> spec_tracker_eq(t, t2),
{
    assert forall|t2: AchievementTracker|
        t2.wf() && doc_view(doc) =~= spec_tracker_fields(t2) implies spec_tracker_eq(t, t2) by {
        assert(spec_tracker_fields(t) == spec_tracker_fields(t2));
        lemma_tracker_fields_scalars(t, t2);
        lemma_tracker_fields_unlocked(t, t2);
        lemma_tracker_fields_difficulty(t, t2);
        lemma_tracker_fields_lists(t, t2);
    }
}

#[verifier::spinoff_prover]
proof fn lemma_tracker_fields_scalars(t: AchievementTracker, t2: AchievementTracker)
    requires
        spec_tracker_fields(t) == spec_tracker_fields(t2),
    ensures
        t.progress.quests_completed == t2.progress.quests_completed,
        t.progress.difficulty_10_quests == t2.progress.difficulty_10_quests,
        t.progress.epic_loot_received == t2.progress.epic_loot_received,
        t.progress.loot_drops_received == t2.progress.loot_drops_received,
        t.progress.rewards_purchased == t2.progress.rewards_purchased,
        t.progress.early_tasks == t2.progress.early_tasks,
        t.progress.grace_period_tasks == t2.progress.grace_period_tasks,
        t.progress.on_time_tasks == t2.progress.on_time_tasks,
        t.progress.tasks_with_due_date == t2.progress.tasks_with_due_date,
        t.progress.comeback_quests_after_break == t2.progress.comeback_quests_after_break,
        t.progress.had_30_day_break == t2.progress.had_30_day_break,
        t.progress.highest_stat_value == t2.progress.highest_stat_value,
{
    assert(spec_tracker_fields(t)[1] == spec_tracker_fields(t2)[1]);
    assert(spec_tracker_fields(t)[3] == spec_tracker_fields(t2)[3]);
    assert(spec_tracker_fields(t)[6] == spec_tracker_fields(t2)[6]);
    assert(spec_tracker_fields(t)[7] == spec_tracker_fields(t2)[7]);
    assert(spec_tracker_fields(t)[8] == spec_tracker_fields(t2)[8]);
    assert(spec_tracker_fields(t)[9] == spec_tracker_fields(t2)[9]);
    assert(spec_tracker_fields(t)[10] == spec_tracker_fields(t2)[10]);
    assert(spec_tracker_fields(t)[11] == spec_tracker_fields(t2)[11]);
    assert(spec_tracker_fields(t)[12] == spec_tracker_fields(t2)[12]);
    assert(spec_tracker_fields(t)[14] == spec_tracker_fields(t2)[14]);
    assert(spec_tracker_fields(t)[15] == spec_tracker_fields(t2)[15]);
    assert(spec_tracker_fields(t)[16] == spec_tracker_fields(t2)[16]);
}

#[verifier::spinoff_prover]
proof fn lemma_tracker_fields_unlocked(t: AchievementTracker, t2: AchievementTracker)
    requires
        spec_tracker_fields(t) == spec_tracker_fields(t2),
    ensures
        t.unlocked@ == t2.unlocked@,
{
    assert(spec_tracker_fields(t)[0] == spec_tracker_fields(t2)[0]);
    assert(t.unlocked@.map_values(|b: bool| if b { 1int } else { 0int }).len()
        == t.unlocked@.len());
    assert(t2.unlocked@.map_values(|b: bool| if b { 1int } else { 0int }).len()
        == t2.unlocked@.len());
    assert forall|k: int| 0 <= k < t.unlocked@.len() implies t.unlocked@[k] == t2.unlocked@[k] by {
        assert(t.unlocked@.map_values(|b: bool| if b { 1int } else { 0int })[k]
            == t2.unlocked@.map_values(|b: bool| if b { 1int } else { 0int })[k]);
    }
    assert(t.unlocked@ =~= t2.unlocked@);
}

#[verifier::spinoff_prover]
proof fn lemma_tracker_fields_difficulty(t: AchievementTracker, t2: AchievementTracker)
    requires
        spec_tracker_fields(t) == spec_tracker_fields(t2),
    ensures
        t.progress.quests_by_difficulty@ == t2.progress.quests_by_difficulty@,
        t.progress.active_days@ == t2.progress.active_days@,
{
    assert(spec_tracker_fields(t)[2] == spec_tracker_fields(t2)[2]);
    assert(t.progress.quests_by_difficulty@.map_values(|x: u32| x as int).len()
        == t.progress.quests_by_difficulty@.len());
    assert(t2.progress.quests_by_difficulty@.map_values(|x: u32| x as int).len()
        == t2.progress.quests_by_difficulty@.len());
    assert forall|k: int|
        0 <= k < t.progress.quests_by_difficulty@.len()
            implies t.progress.quests_by_difficulty@[k]
            == t2.progress.quests_by_difficulty@[k] by {
        assert(t.progress.quests_by_difficulty@.map_values(|x: u32| x as int)[k]
            == t2.progress.quests_by_difficulty@.map_values(|x: u32| x as int)[k]);
    }
    assert(t.progress.quests_by_difficulty@ =~= t2.progress.quests_by_difficulty@);
    assert(spec_tracker_fields(t)[4] == spec_tracker_fields(t2)[4]);
    assert(t.progress.active_days@.map_values(|x: u64| x as int).len()
        == t.progress.active_days@.len());
    assert(t2.progress.active_days@.map_values(|x: u64| x as int).len()
        == t2.progress.active_days@.len());
    assert forall|k: int|
        0 <= k < t.progress.active_days@.len() implies t.progress.active_days@[k]
            == t2.progress.active_days@[k] by {
        assert(t.progress.active_days@.map_values(|x: u64| x as int)[k]
            == t2.progress.active_days@.map_values(|x: u64| x as int)[k]);
    }
    assert(t.progress.active_days@ =~= t2.progress.active_days@);
}

#[verifier::spinoff_prover]
proof fn lemma_tracker_fields_lists(t: AchievementTracker, t2: AchievementTracker)
    requires
        spec_tracker_fields(t) == spec_tracker_fields(t2),
    ensures
        t.progress.projects_completed@.map_values(|s: String| s@)
            == t2.progress.projects_completed@.map_values(|s: String| s@),
        t.progress.last_activity_date == t2.progress.last_activity_date,
{
    assert(spec_tracker_fields(t)[5] == spec_tracker_fields(t2)[5]);
    assert(spec_tracker_fields(t)[13] == spec_tracker_fields(t2)[13]);
    match (t.progress.last_activity_date, t2.progress.last_activity_date) {
        (Some(x), Some(y)) => {
            assert(seq![x as int][0] == seq![y as int][0]);
        },
        (None, Some(y)) => {
            assert(seq![y as int].len() == Seq::<int>::empty().len());
        },
        (Some(x), None) => {
            assert(seq![x as int].len() == Seq::<int>::empty().len());
        },
        (None, None) => {},
    }
}

} // verus!
