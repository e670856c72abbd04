//! Records: JSON texts that are read field by field.
//!
//! What is stored as a record is not read as one value. A field that nobody asks for may hold
//! anything that has the form of JSON, however deep, and a field that is asked for must not be there
//! twice. Strings, numbers and the form of everything else are left to `serde_json`.
use vstd::prelude::*;
use crate::json;
use crate::json::Json;
use crate::text;
use crate::text::Class;

verus! {

/// What a text holds, piece by piece. A value that is an array, an object or damaged is none.
#[derive(Debug)]
pub enum Record {
    /// Fields with their names, in the order of the text.
    Named(Vec<(String, Option<Json>)>),
    /// Fields without names.
    Listed(Vec<Option<Json>>),
}

/// A field with its name.
pub type FieldV = (Seq<char>, Option<json::JsonV>);

/// What a text holds, piece by piece.
#[verifier::ext_equal]
pub enum RecordV {
    Named(Seq<FieldV>),
    Listed(Seq<Option<json::JsonV>>),
}

/// What a value means, if there is one.
pub open spec fn value_view(v: Option<Json>) -> Option<json::JsonV> {
    match v {
        Some(j) => Some(j@),
        None => None,
    }
}

/// What fields mean.
pub open spec fn fields_view(fields: Seq<(String, Option<Json>)>) -> Seq<FieldV> {
    fields.map_values(|f: (String, Option<Json>)| (f.0@, value_view(f.1)))
}

/// What items mean.
pub open spec fn items_view(items: Seq<Option<Json>>) -> Seq<Option<json::JsonV>> {
    items.map_values(|v: Option<Json>| value_view(v))
}

impl View for Record {
    type V = RecordV;

    open spec fn view(&self) -> RecordV {
        match *self {
            Record::Named(fields) => RecordV::Named(fields_view(fields@)),
            Record::Listed(items) => RecordV::Listed(items_view(items@)),
        }
    }
}

/// What a record means, if there is one.
pub open spec fn record_view(r: Option<Record>) -> Option<RecordV> {
    match r {
        Some(x) => Some(x@),
        None => None,
    }
}

// ---------------------------------------------------------------------------------------------
// The form of a record
// ---------------------------------------------------------------------------------------------
/// How many characters at the front of a text have the form of a JSON value, if they have.
pub uninterp spec fn value_length(s: Seq<char>) -> Option<nat>;

/// The value at the front of a text, and what follows it.
pub open spec fn front(s: Seq<char>) -> Option<(Seq<char>, Seq<char>)> {
    match value_length(s) {
        Some(n) => if 0 < n <= s.len() {
            Some((s.take(n as int), s.skip(n as int)))
        } else {
            None
        },
        None => None,
    }
}

/// `serde_json::StreamDeserializer` over `serde::de::IgnoredAny` takes the value at the front of a
/// text and says where it ends. That depends on the text alone, and a value is not empty.
#[verifier::external_body]
fn cut_value(s: &str) -> (r: Option<(String, String)>)
    ensures
        match r {
            Some(cut) => value_length(s@) == Some(cut.0@.len()) && cut.0@.len() > 0 && cut.0@
                + cut.1@ == s@,
            None => value_length(s@) is None,
        },
{
    let mut values = serde_json::Deserializer::from_str(s).into_iter::<serde::de::IgnoredAny>();
    match values.next() {
        Some(Ok(_)) => {
            let (value, rest) = s.split_at(values.byte_offset());
            Some((value.to_owned(), rest.to_owned()))
        },
        _ => None,
    }
}

fn take_front(s: &str) -> (r: Option<(String, String)>)
    ensures
        match r {
            Some(cut) => front(s@) == Some((cut.0@, cut.1@)),
            None => front(s@) is None,
        },
{
    match cut_value(s) {
        Some(cut) => {
            proof {
                assert(s@.take(cut.0@.len() as int) =~= cut.0@);
                assert(s@.skip(cut.0@.len() as int) =~= cut.1@);
            }
            Some(cut)
        },
        None => None,
    }
}

/// The text without the blanks in front of it.
pub open spec fn unblanked(s: Seq<char>) -> Seq<char> {
    text::skip_front(s, Class::Blank)
}

/// Whether a text begins with a character.
pub open spec fn begins(s: Seq<char>, c: char) -> bool {
    s.len() > 0 && s[0] == c
}

/// Whether nothing but blanks stands behind the first character.
pub open spec fn ends_here(s: Seq<char>) -> bool {
    unblanked(s.skip(1)).len() == 0
}

/// The value that a piece of text holds, unless it is an array, an object or damaged.
pub open spec fn scalar(piece: Seq<char>) -> Option<json::JsonV> {
    if begins(piece, '{') || begins(piece, '[') {
        None
    } else {
        match json::parsed(piece) {
            Ok(v) => Some(v),
            Err(_) => None,
        }
    }
}

/// The name that a piece of text holds, if it is a string.
pub open spec fn name_in(piece: Seq<char>) -> Option<Seq<char>> {
    if begins(piece, '"') {
        match json::parsed(piece) {
            Ok(v) => v.text(),
            Err(_) => None,
        }
    } else {
        None
    }
}

/// A field at the front of a text, and what follows it without blanks.
pub open spec fn field_at(s: Seq<char>) -> Option<(FieldV, Seq<char>)> {
    match front(unblanked(s)) {
        Some(key) => {
            let colon = unblanked(key.1);
            match (name_in(key.0), front(unblanked(colon.skip(1)))) {
                (Some(name), Some(value)) => if begins(colon, ':') {
                    Some(((name, scalar(value.0)), unblanked(value.1)))
                } else {
                    None
                },
                _ => None,
            }
        },
        None => None,
    }
}

/// The blanks in front of a text are part of it.
proof fn lemma_unblanked(s: Seq<char>)
    ensures
        unblanked(s).len() <= s.len(),
    decreases s.len(),
{
    if s.len() > 0 && Class::Blank.has(s[0]) {
        lemma_unblanked(s.drop_first());
    }
}

proof fn lemma_field_is_shorter(s: Seq<char>)
    ensures
        field_at(s) matches Some(f) ==> f.1.len() < s.len(),
{
    lemma_unblanked(s);
    if field_at(s) is Some {
        let key = front(unblanked(s))->0;
        let colon = unblanked(key.1);
        lemma_unblanked(key.1);
        lemma_unblanked(colon.skip(1));
        let value = front(unblanked(colon.skip(1)))->0;
        lemma_unblanked(value.1);
    }
}

proof fn lemma_item_is_shorter(s: Seq<char>)
    ensures
        front(unblanked(s)) matches Some(v) ==> unblanked(v.1).len() < s.len(),
{
    lemma_unblanked(s);
    if front(unblanked(s)) is Some {
        let v = front(unblanked(s))->0;
        lemma_unblanked(v.1);
    }
}

/// The fields of an object, from a field on.
pub open spec fn fields_from(s: Seq<char>) -> Option<Seq<FieldV>>
    decreases s.len(),
    via fields_from_ends
{
    match field_at(s) {
        Some(f) => if begins(f.1, '}') {
            if ends_here(f.1) {
                Some(seq![f.0])
            } else {
                None
            }
        } else if begins(f.1, ',') {
            match fields_from(f.1.skip(1)) {
                Some(more) => Some(seq![f.0] + more),
                None => None,
            }
        } else {
            None
        },
        None => None,
    }
}

#[via_fn]
proof fn fields_from_ends(s: Seq<char>) {
    lemma_field_is_shorter(s);
}

/// The items of an array, from an item on.
pub open spec fn items_from(s: Seq<char>) -> Option<Seq<Option<json::JsonV>>>
    decreases s.len(),
    via items_from_ends
{
    match front(unblanked(s)) {
        Some(v) => {
            let rest = unblanked(v.1);
            if begins(rest, ']') {
                if ends_here(rest) {
                    Some(seq![scalar(v.0)])
                } else {
                    None
                }
            } else if begins(rest, ',') {
                match items_from(rest.skip(1)) {
                    Some(more) => Some(seq![scalar(v.0)] + more),
                    None => None,
                }
            } else {
                None
            }
        },
        None => None,
    }
}

#[via_fn]
proof fn items_from_ends(s: Seq<char>) {
    lemma_item_is_shorter(s);
}

/// The record that a text holds: an object or an array, and nothing behind it.
pub open spec fn record_in(s: Seq<char>) -> Option<RecordV> {
    let t = unblanked(s);
    let inner = unblanked(t.skip(1));
    if begins(t, '{') {
        if begins(inner, '}') {
            if ends_here(inner) {
                Some(RecordV::Named(Seq::empty()))
            } else {
                None
            }
        } else {
            match fields_from(t.skip(1)) {
                Some(fields) => Some(RecordV::Named(fields)),
                None => None,
            }
        }
    } else if begins(t, '[') {
        if begins(inner, ']') {
            if ends_here(inner) {
                Some(RecordV::Listed(Seq::empty()))
            } else {
                None
            }
        } else {
            match items_from(t.skip(1)) {
                Some(items) => Some(RecordV::Listed(items)),
                None => None,
            }
        }
    } else {
        None
    }
}

fn unblank(s: &str) -> (r: String)
    ensures
        r@ == unblanked(s@),
{
    text::trim_front(s, &Class::Blank)
}

/// What follows a character at the front of a text.
fn behind(s: &str, c: char) -> (r: Option<String>)
    ensures
        match r {
            Some(rest) => begins(s@, c) && rest@ == s@.skip(1),
            None => !begins(s@, c),
        },
{
    let cs = text::chars_of(s);
    if cs.len() > 0 && cs[0] == c {
        assert(s@.subrange(1, s@.len() as int) =~= s@.skip(1));
        Some(text::text_between(&cs, 1, cs.len()))
    } else {
        None
    }
}

fn read_scalar(piece: &str) -> (r: Option<Json>)
    ensures
        value_view(r) == scalar(piece@),
{
    if behind(piece, '{').is_some() || behind(piece, '[').is_some() {
        return None;
    }
    match Json::parse(piece) {
        Ok(v) => Some(v),
        Err(_) => None,
    }
}

fn read_name(piece: &str) -> (r: Option<String>)
    ensures
        text::opt_view(r) == name_in(piece@),
{
    if behind(piece, '"').is_none() {
        return None;
    }
    match Json::parse(piece) {
        Ok(Json::Str(s)) => Some(s),
        _ => None,
    }
}

fn read_field(s: &str) -> (r: Option<(String, Option<Json>, String)>)
    ensures
        match r {
            Some(f) => field_at(s@) == Some(((f.0@, value_view(f.1)), f.2@)),
            None => field_at(s@) is None,
        },
{
    let key = match take_front(unblank(s).as_str()) {
        Some(key) => key,
        None => {
            return None;
        },
    };
    let name = match read_name(key.0.as_str()) {
        Some(name) => name,
        None => {
            return None;
        },
    };
    let rest = match behind(unblank(key.1.as_str()).as_str(), ':') {
        Some(rest) => rest,
        None => {
            return None;
        },
    };
    match take_front(unblank(rest.as_str()).as_str()) {
        Some(value) => Some(
            (name, read_scalar(value.0.as_str()), unblank(value.1.as_str())),
        ),
        None => None,
    }
}

/// A list put in front of what more is read.
spec fn after<T>(read: Seq<T>, more: Option<Seq<T>>) -> Option<Seq<T>> {
    match more {
        Some(x) => Some(read + x),
        None => None,
    }
}

fn read_fields(s: &str) -> (r: Option<Vec<(String, Option<Json>)>>)
    ensures
        match r {
            Some(fields) => fields_from(s@) == Some(fields_view(fields@)),
            None => fields_from(s@) is None,
        },
{
    let mut out: Vec<(String, Option<Json>)> = Vec::new();
    let mut rest: String = s.to_owned();
    proof {
        assert(fields_view(out@) =~= Seq::empty());
        if fields_from(s@) is Some {
            assert(fields_view(out@) + fields_from(s@)->0 =~= fields_from(s@)->0);
        }
    }
    loop
        invariant
            fields_from(s@) == after(fields_view(out@), fields_from(rest@)),
        decreases rest@.len(),
    {
        let ghost before = fields_view(out@);
        let ghost text_before = rest@;
        match read_field(rest.as_str()) {
            Some(f) => {
                proof {
                    lemma_field_is_shorter(rest@);
                }
                let ghost own: FieldV = (f.0@, value_view(f.1));
                out.push((f.0, f.1));
                assert(fields_view(out@) =~= before.push(own));
                assert(before.push(own) =~= before + seq![own]);
                if let Some(tail) = behind(f.2.as_str(), '}') {
                    if unblank(tail.as_str()).as_str().is_empty() {
                        return Some(out);
                    }
                    return None;
                }
                match behind(f.2.as_str(), ',') {
                    Some(tail) => {
                        proof {
                            if fields_from(tail@) is Some {
                                let more = fields_from(tail@)->0;
                                assert(before + (seq![own] + more) =~= before.push(own) + more);
                            }
                        }
                        rest = tail;
                    },
                    None => {
                        return None;
                    },
                }
            },
            None => {
                return None;
            },
        }
    }
}

fn read_items(s: &str) -> (r: Option<Vec<Option<Json>>>)
    ensures
        match r {
            Some(items) => items_from(s@) == Some(items_view(items@)),
            None => items_from(s@) is None,
        },
{
    let mut out: Vec<Option<Json>> = Vec::new();
    let mut rest: String = s.to_owned();
    proof {
        assert(items_view(out@) =~= Seq::empty());
        if items_from(s@) is Some {
            assert(items_view(out@) + items_from(s@)->0 =~= items_from(s@)->0);
        }
    }
    loop
        invariant
            items_from(s@) == after(items_view(out@), items_from(rest@)),
        decreases rest@.len(),
    {
        let ghost before = items_view(out@);
        match take_front(unblank(rest.as_str()).as_str()) {
            Some(v) => {
                proof {
                    lemma_item_is_shorter(rest@);
                }
                let value = read_scalar(v.0.as_str());
                let ghost own = value_view(value);
                out.push(value);
                assert(items_view(out@) =~= before.push(own));
                assert(before.push(own) =~= before + seq![own]);
                let next = unblank(v.1.as_str());
                if let Some(tail) = behind(next.as_str(), ']') {
                    if unblank(tail.as_str()).as_str().is_empty() {
                        return Some(out);
                    }
                    return None;
                }
                match behind(next.as_str(), ',') {
                    Some(tail) => {
                        proof {
                            if items_from(tail@) is Some {
                                let more = items_from(tail@)->0;
                                assert(before + (seq![own] + more) =~= before.push(own) + more);
                            }
                        }
                        rest = tail;
                    },
                    None => {
                        return None;
                    },
                }
            },
            None => {
                return None;
            },
        }
    }
}

/// The record that a text holds.
pub fn read_record(s: &str) -> (r: Option<Record>)
    ensures
        record_view(r) == record_in(s@),
{
    let t = unblank(s);
    if let Some(rest) = behind(t.as_str(), '{') {
        if let Some(tail) = behind(unblank(rest.as_str()).as_str(), '}') {
            if unblank(tail.as_str()).as_str().is_empty() {
                let none: Vec<(String, Option<Json>)> = Vec::new();
                assert(fields_view(none@) =~= Seq::empty());
                return Some(Record::Named(none));
            }
            return None;
        }
        return match read_fields(rest.as_str()) {
            Some(fields) => Some(Record::Named(fields)),
            None => None,
        };
    }
    if let Some(rest) = behind(t.as_str(), '[') {
        if let Some(tail) = behind(unblank(rest.as_str()).as_str(), ']') {
            if unblank(tail.as_str()).as_str().is_empty() {
                let none: Vec<Option<Json>> = Vec::new();
                assert(items_view(none@) =~= Seq::empty());
                return Some(Record::Listed(none));
            }
            return None;
        }
        return match read_items(rest.as_str()) {
            Some(items) => Some(Record::Listed(items)),
            None => None,
        };
    }
    None
}

// ---------------------------------------------------------------------------------------------
// Asking for fields
// ---------------------------------------------------------------------------------------------
/// What a record says of a field.
#[verifier::ext_equal]
pub enum AskedV {
    /// There is none.
    Absent,
    /// It is there once.
    Once(Option<json::JsonV>),
    /// It is there more than once.
    Repeated,
}

/// What fields say of the one with a name.
pub open spec fn asked(fields: Seq<FieldV>, name: Seq<char>) -> AskedV
    decreases fields.len(),
{
    if fields.len() == 0 {
        AskedV::Absent
    } else if fields.last().0 != name {
        asked(fields.drop_last(), name)
    } else if asked(fields.drop_last(), name) is Absent {
        AskedV::Once(fields.last().1)
    } else {
        AskedV::Repeated
    }
}

/// What a record says of a field.
pub enum Asked<'a> {
    Absent,
    Once(&'a Option<Json>),
    Repeated,
}

impl<'a> Asked<'a> {
    /// What it says.
    pub open spec fn meaning(self) -> AskedV {
        match self {
            Asked::Absent => AskedV::Absent,
            Asked::Once(v) => AskedV::Once(value_view(*v)),
            Asked::Repeated => AskedV::Repeated,
        }
    }
}

/// What fields say of the one with a name.
pub fn ask<'a>(fields: &'a Vec<(String, Option<Json>)>, name: &str) -> (r: Asked<'a>)
    ensures
        r.meaning() == asked(fields_view(fields@), name@),
{
    let ghost all = fields_view(fields@);
    let mut found: Asked<'a> = Asked::Absent;
    let mut i: usize = 0;
    while i < fields.len()
        invariant
            i <= fields@.len(),
            all == fields_view(fields@),
            found.meaning() == asked(all.take(i as int), name@),
        decreases fields.len() - i,
    {
        proof {
            assert(all.take(i + 1).drop_last() =~= all.take(i as int));
            assert(all.take(i + 1).last() == (fields@[i as int].0@, value_view(
                fields@[i as int].1,
            )));
        }
        if text::same(fields[i].0.as_str(), name) {
            found = match found {
                Asked::Absent => Asked::Once(&fields[i].1),
                _ => Asked::Repeated,
            };
        }
        i = i + 1;
    }
    assert(all.take(i as int) =~= all);
    found
}

/// What items say of the one at a position.
pub open spec fn asked_at(items: Seq<Option<json::JsonV>>, i: int) -> AskedV {
    if 0 <= i < items.len() {
        AskedV::Once(items[i])
    } else {
        AskedV::Absent
    }
}

/// What items say of the one at a position.
pub fn ask_at<'a>(items: &'a Vec<Option<Json>>, i: usize) -> (r: Asked<'a>)
    ensures
        r.meaning() == asked_at(items_view(items@), i as int),
{
    if i < items.len() {
        assert(items_view(items@)[i as int] == value_view(items@[i as int]));
        Asked::Once(&items[i])
    } else {
        Asked::Absent
    }
}

/// A text that need not be there: absent and `null` both mean none. Anything else but one string is
/// not understood.
pub open spec fn optional_text(a: AskedV) -> Result<Option<Seq<char>>, ()> {
    match a {
        AskedV::Absent => Ok(None),
        AskedV::Once(Some(json::JsonV::Null)) => Ok(None),
        AskedV::Once(Some(json::JsonV::Str(s))) => Ok(Some(s)),
        _ => Err(()),
    }
}

/// A text that need not be there.
pub fn read_optional_text(a: &Asked) -> (r: Result<Option<String>, ()>)
    ensures
        (match r {
            Ok(o) => Ok::<Option<Seq<char>>, ()>(text::opt_view(o)),
            Err(_) => Err(()),
        }) == optional_text(a.meaning()),
{
    match a {
        Asked::Absent => Ok(None),
        Asked::Once(Some(Json::Null)) => Ok(None),
        Asked::Once(Some(Json::Str(s))) => Ok(Some(s.clone())),
        _ => Err(()),
    }
}


// ---------------------------------------------------------------------------------------------
// Laws
// ---------------------------------------------------------------------------------------------
/// A field is found by its name wherever it stands, as long as no other has the same name; two of one
/// name are noticed, and none is made up.
pub proof fn law_a_field_is_found_by_its_name(fields: Seq<FieldV>, name: Seq<char>, i: int, j: int)
    ensures
        0 <= i < fields.len() && fields[i].0 == name && (forall|k: int|
            0 <= k < fields.len() && k != i ==> (#[trigger] fields[k]).0 != name) ==> asked(
            fields,
            name,
        ) == AskedV::Once(fields[i].1),
        (forall|k: int| 0 <= k < fields.len() ==> (#[trigger] fields[k]).0 != name) ==> asked(
            fields,
            name,
        ) is Absent,
        0 <= i < j < fields.len() && fields[i].0 == name && fields[j].0 == name ==> asked(fields, name)
            is Repeated,
        0 <= i < fields.len() && fields[i].0 == name ==> !(asked(fields, name) is Absent),
    decreases fields.len(),
{
    if fields.len() > 0 {
        let front = fields.drop_last();
        law_a_field_is_found_by_its_name(front, name, i, j);
        assert(forall|k: int| 0 <= k < front.len() ==> #[trigger] front[k] == fields[k]);
        assert(fields.last() == fields[fields.len() - 1]);
        if forall|k: int| 0 <= k < fields.len() ==> (#[trigger] fields[k]).0 != name {
            assert forall|k: int| 0 <= k < front.len() implies (#[trigger] front[k]).0 != name by {
                assert(fields[k].0 != name);
            }
        }
        if 0 <= i < fields.len() && fields[i].0 == name && (forall|k: int|
            0 <= k < fields.len() && k != i ==> (#[trigger] fields[k]).0 != name) {
            if i < front.len() {
                assert(front[i] == fields[i]);
                assert forall|k: int| 0 <= k < front.len() && k != i implies (#[trigger] front[k]).0
                    != name by {
                    assert(fields[k].0 != name);
                }
            } else {
                assert forall|k: int| 0 <= k < front.len() implies (#[trigger] front[k]).0 != name by {
                    assert(fields[k].0 != name);
                }
            }
        }
        if 0 <= i < front.len() {
            assert(front[i] == fields[i]);
        }
        if 0 <= j < front.len() {
            assert(front[j] == fields[j]);
        }
    }
}

/// A field without a name is found by its place.
pub proof fn law_an_item_is_found_by_its_place(items: Seq<Option<json::JsonV>>, i: int)
    ensures
        0 <= i < items.len() ==> asked_at(items, i) == AskedV::Once(items[i]),
        i >= items.len() ==> asked_at(items, i) is Absent,
{
}

/// A text that need not be there is the string in its field; none where the field is missing or null;
/// and anything else is not understood.
pub proof fn law_an_optional_text_is_a_string_or_none(s: Seq<char>, v: Option<json::JsonV>)
    ensures
        optional_text(AskedV::Once(Some(json::JsonV::Str(s)))) == Ok::<Option<Seq<char>>, ()>(Some(s)),
        optional_text(AskedV::Once(Some(json::JsonV::Null))) == Ok::<Option<Seq<char>>, ()>(None),
        optional_text(AskedV::Absent) == Ok::<Option<Seq<char>>, ()>(None),
        optional_text(AskedV::Repeated) is Err,
        v is None || !(v->0 is Str) && !(v->0 is Null) ==> optional_text(AskedV::Once(v)) is Err,
{
}

/// A record is an object or an array: one that begins otherwise is none, and the empty ones have no
/// fields.
pub proof fn law_a_record_is_an_object_or_an_array(s: Seq<char>)
    ensures
        record_in(s) matches Some(RecordV::Named(_)) ==> begins(unblanked(s), '{'),
        record_in(s) matches Some(RecordV::Listed(_)) ==> begins(unblanked(s), '['),
        !begins(unblanked(s), '{') && !begins(unblanked(s), '[') ==> record_in(s) is None,
        record_in("{}"@) == Some(RecordV::Named(Seq::empty())),
        record_in("[]"@) == Some(RecordV::Listed(Seq::empty())),
{
    reveal_strlit("{}");
    reveal_strlit("[]");
    let a = "{}"@;
    let b = "[]"@;
    assert(unblanked(a) == a);
    assert(unblanked(b) == b);
    assert(a.skip(1)[0] == '}');
    assert(b.skip(1)[0] == ']');
    assert(unblanked(a.skip(1)) == a.skip(1));
    assert(unblanked(b.skip(1)) == b.skip(1));
    assert(a.skip(1).skip(1) =~= Seq::empty());
    assert(b.skip(1).skip(1) =~= Seq::empty());
}

/// What is an array or an object inside a record, or damaged, is no value of it; anything else is what
/// it reads as.
pub proof fn law_only_simple_values_are_read(piece: Seq<char>, v: json::JsonV)
    ensures
        begins(piece, '{') || begins(piece, '[') ==> scalar(piece) is None,
        !begins(piece, '{') && !begins(piece, '[') && json::parsed(piece) == Ok::<
            json::JsonV,
            Seq<char>,
        >(v) ==> scalar(piece) == Some(v),
        json::parsed(piece) is Err ==> scalar(piece) is None && name_in(piece) is None,
        begins(piece, '"') && json::parsed(piece) == Ok::<json::JsonV, Seq<char>>(v) ==> name_in(piece)
            == v.text(),
        !begins(piece, '"') ==> name_in(piece) is None,
{
}

} // verus!
