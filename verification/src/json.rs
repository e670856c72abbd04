//! JSON values.
//!
//! [`Json`] is the value that the library reads and builds, [`JsonV`] what it means: an object is
//! a map from names to values, and which of its pairs comes first does not matter. Text becomes a
//! value, and a value text, through `serde_json`.
use vstd::prelude::*;
use serde::Serializer;
use serde_json::Value;
use crate::number;
use crate::number::Reading;
use crate::record;
use crate::text;

verus! {

/// A JSON value.
#[derive(Debug)]
pub enum Json {
    Null,
    Bool(bool),
    /// A whole number that a signed word of 64 bits holds.
    Int(i64),
    /// A whole number above that.
    Large(u64),
    /// Any other number.
    Real(Real),
    Str(String),
    Array(Vec<Json>),
    /// The fields of an object. A later pair replaces an earlier one with the same name.
    Object(Vec<(String, Json)>),
}

/// A number with a fraction or an exponent.
#[derive(Debug)]
pub struct Real {
    /// Its digits, as `serde_json` prints them.
    pub text: String,
    /// The bits of the double-precision number nearest to it.
    pub bits: u64,
}

/// What a JSON value means.
#[verifier::ext_equal]
pub enum JsonV {
    Null,
    Bool(bool),
    Int(i64),
    Large(u64),
    Real(Seq<char>, u64),
    Str(Seq<char>),
    Array(Seq<JsonV>),
    Object(Map<Seq<char>, JsonV>),
}

impl JsonV {
    /// The field of an object.
    pub open spec fn field(self, key: Seq<char>) -> Option<JsonV> {
        match self {
            JsonV::Object(m) => if m.dom().contains(key) {
                Some(m[key])
            } else {
                None
            },
            _ => None,
        }
    }

    /// The text of a string.
    pub open spec fn text(self) -> Option<Seq<char>> {
        match self {
            JsonV::Str(s) => Some(s),
            _ => None,
        }
    }

    /// The text of a string field.
    pub open spec fn text_at(self, key: Seq<char>) -> Option<Seq<char>> {
        match self.field(key) {
            Some(v) => v.text(),
            None => None,
        }
    }

    /// The truth value of a boolean field.
    pub open spec fn bool_at(self, key: Seq<char>) -> Option<bool> {
        match self.field(key) {
            Some(JsonV::Bool(b)) => Some(b),
            _ => None,
        }
    }

    /// The whole number of a field.
    pub open spec fn int_at(self, key: Seq<char>) -> Option<i64> {
        match self.field(key) {
            Some(JsonV::Int(n)) => Some(n),
            _ => None,
        }
    }

    /// The items of an array field.
    pub open spec fn array_at(self, key: Seq<char>) -> Option<Seq<JsonV>> {
        match self.field(key) {
            Some(JsonV::Array(items)) => Some(items),
            _ => None,
        }
    }

    /// The items of an array field; none if there is no such array.
    pub open spec fn items_at(self, key: Seq<char>) -> Seq<JsonV> {
        match self.array_at(key) {
            Some(items) => items,
            None => Seq::empty(),
        }
    }

    /// Whether it is a number.
    pub open spec fn is_number(self) -> bool {
        self is Int || self is Large || self is Real
    }

    /// The number as a double-precision one: the nearest to a whole number.
    pub open spec fn reading(self) -> Option<Reading> {
        match self {
            JsonV::Int(n) => Some(number::whole(n as int)),
            JsonV::Large(n) => Some(number::whole(n as int)),
            JsonV::Real(_, bits) => Some(Reading { bits }),
            _ => None,
        }
    }

    /// Whether the value is nested at most so deep and no object in it has the name by which
    /// `serde_json` marks raw text: printed, such a value reads as a value of the same shape.
    pub open spec fn legible(self, depth: nat) -> bool
        decreases depth,
    {
        match self {
            JsonV::Array(items) => depth > 0 && forall|i: int|
                0 <= i < items.len() ==> (#[trigger] items[i]).legible((depth - 1) as nat),
            JsonV::Object(m) => depth > 0 && !m.dom().contains(raw_marker()) && forall|
                k: Seq<char>,
            |
                m.dom().contains(k) ==> (#[trigger] m[k]).legible((depth - 1) as nat),
            _ => true,
        }
    }

    /// Whether the value is legible and holds no number with a fraction: printed, such a value
    /// reads back as it was.
    pub open spec fn plain(self, depth: nat) -> bool
        decreases depth,
    {
        match self {
            JsonV::Real(_, _) => false,
            JsonV::Large(n) => n > i64::MAX,
            JsonV::Array(items) => depth > 0 && forall|i: int|
                0 <= i < items.len() ==> (#[trigger] items[i]).plain((depth - 1) as nat),
            JsonV::Object(m) => depth > 0 && !m.dom().contains(raw_marker()) && forall|
                k: Seq<char>,
            |
                m.dom().contains(k) ==> (#[trigger] m[k]).plain((depth - 1) as nat),
            _ => true,
        }
    }
}

/// The name by which `serde_json` marks raw text: an object that begins with it is not read as an
/// object.
pub open spec fn raw_marker() -> Seq<char> {
    "$serde_json::private::RawValue"@
}

/// Whether a text may spell that name: it stands there, or characters are given by their numbers.
pub open spec fn may_mark_raw(s: Seq<char>) -> bool {
    text::holds_text(s, raw_marker()) || text::holds_text(s, "\\u"@)
}

/// What the fields of an object mean.
pub open spec fn fields_view(pairs: Seq<(String, Json)>) -> Map<Seq<char>, JsonV>
    decreases pairs,
{
    if pairs.len() == 0 {
        Map::empty()
    } else {
        fields_view(pairs.drop_last()).insert(pairs.last().0@, pairs.last().1.model())
    }
}

/// What the items of an array mean.
pub open spec fn items_view(items: Seq<Json>) -> Seq<JsonV> {
    items.map_values(|j: Json| j@)
}

impl Json {
    /// What the value means.
    pub open spec fn model(self) -> JsonV
        decreases self,
    {
        match self {
            Json::Null => JsonV::Null,
            Json::Bool(b) => JsonV::Bool(b),
            Json::Int(n) => JsonV::Int(n),
            Json::Large(n) => JsonV::Large(n),
            Json::Real(r) => JsonV::Real(r.text@, r.bits),
            Json::Str(s) => JsonV::Str(s@),
            Json::Array(items) => JsonV::Array(
                Seq::new(
                    items@.len(),
                    |i: int|
                        if 0 <= i < items@.len() {
                            items@[i].model()
                        } else {
                            JsonV::Null
                        },
                ),
            ),
            Json::Object(pairs) => JsonV::Object(fields_view(pairs@)),
        }
    }
}

impl View for Json {
    type V = JsonV;

    open spec fn view(&self) -> JsonV {
        self.model()
    }
}

/// The items of an array mean what each of them means.
pub proof fn lemma_array_model(items: Vec<Json>)
    ensures
        Json::Array(items)@ == JsonV::Array(items_view(items@)),
{
    assert(Json::Array(items)@->Array_0 =~= items_view(items@));
}

/// What a list of values means, value by value.
pub open spec fn opt_model(o: Option<&Json>) -> Option<JsonV> {
    match o {
        Some(j) => Some(j@),
        None => None,
    }
}

/// A name that no pair has is not in the object.
proof fn lemma_absent(pairs: Seq<(String, Json)>, key: Seq<char>)
    requires
        forall|i: int| 0 <= i < pairs.len() ==> (#[trigger] pairs[i]).0@ != key,
    ensures
        !fields_view(pairs).dom().contains(key),
    decreases pairs.len(),
{
    if pairs.len() > 0 {
        assert forall|i: int| 0 <= i < pairs.drop_last().len() implies (
        #[trigger] pairs.drop_last()[i]).0@ != key by {
            assert(pairs[i].0@ != key);
        }
        lemma_absent(pairs.drop_last(), key);
        assert(pairs[pairs.len() - 1].0@ != key);
    }
}

/// The last pair with a name gives the field.
proof fn lemma_present(pairs: Seq<(String, Json)>, key: Seq<char>, at: int)
    requires
        0 <= at < pairs.len(),
        pairs[at].0@ == key,
        forall|i: int| at < i < pairs.len() ==> (#[trigger] pairs[i]).0@ != key,
    ensures
        fields_view(pairs).dom().contains(key),
        fields_view(pairs)[key] == pairs[at].1@,
    decreases pairs.len(),
{
    if at < pairs.len() - 1 {
        assert forall|i: int| at < i < pairs.drop_last().len() implies (
        #[trigger] pairs.drop_last()[i]).0@ != key by {
            assert(pairs[i].0@ != key);
        }
        lemma_present(pairs.drop_last(), key, at);
        assert(pairs[pairs.len() - 1].0@ != key);
    }
}

/// Every field comes from a pair with its name.
pub proof fn lemma_from_pair(pairs: Seq<(String, Json)>, key: Seq<char>) -> (at: int)
    requires
        fields_view(pairs).dom().contains(key),
    ensures
        0 <= at < pairs.len(),
        pairs[at].0@ == key,
    decreases pairs.len(),
{
    if pairs.len() == 0 {
        0
    } else if pairs.last().0@ == key {
        pairs.len() - 1
    } else {
        lemma_from_pair(pairs.drop_last(), key)
    }
}

/// Where the last pair with a name stands.
fn find_field(pairs: &Vec<(String, Json)>, key: &str) -> (r: Option<usize>)
    ensures
        match r {
            Some(i) => i < pairs.len() && pairs@[i as int].0@ == key@
                && fields_view(pairs@).dom().contains(key@)
                && fields_view(pairs@)[key@] == pairs@[i as int].1@,
            None => !fields_view(pairs@).dom().contains(key@),
        },
{
    let mut n: usize = pairs.len();
    while n > 0
        invariant
            n <= pairs.len(),
            forall|i: int| n <= i < pairs.len() ==> (#[trigger] pairs@[i]).0@ != key@,
        decreases n,
    {
        n = n - 1;
        if text::same(pairs[n].0.as_str(), key) {
            proof {
                lemma_present(pairs@, key@, n as int);
            }
            return Some(n);
        }
    }
    proof {
        lemma_absent(pairs@, key@);
    }
    None
}

impl Json {
    /// A string value.
    pub fn text(s: &str) -> (r: Json)
        ensures
            r@ == JsonV::Str(s@),
    {
        Json::Str(s.to_owned())
    }

    /// An array of strings.
    pub fn texts(list: &Vec<String>) -> (r: Json)
        ensures
            r@ == JsonV::Array(text::views(list@).map_values(|s: Seq<char>| JsonV::Str(s))),
    {
        let mut items: Vec<Json> = Vec::new();
        let mut i: usize = 0;
        while i < list.len()
            invariant
                i <= list.len(),
                items.len() == i,
                forall|k: int| 0 <= k < i ==> (#[trigger] items@[k])@ == JsonV::Str(list@[k]@),
            decreases list.len() - i,
        {
            items.push(Json::text(list[i].as_str()));
            i = i + 1;
        }
        proof {
            lemma_array_model(items);
            assert(items_view(items@) =~= text::views(list@).map_values(
                |s: Seq<char>| JsonV::Str(s),
            ));
        }
        Json::Array(items)
    }

    /// The field of an object.
    pub fn get(&self, key: &str) -> (r: Option<&Json>)
        ensures
            opt_model(r) == self@.field(key@),
            match r {
                Some(j) => decreases_to!(self => j),
                None => true,
            },
    {
        match self {
            Json::Object(pairs) => match find_field(pairs, key) {
                Some(i) => {
                    proof {
                        assert(decreases_to!(self => pairs));
                        assert(decreases_to!(pairs => pairs@[i as int]));
                        assert(decreases_to!(pairs@[i as int] => pairs@[i as int].1));
                    }
                    Some(&pairs[i].1)
                },
                None => None,
            },
            _ => None,
        }
    }

    /// The text of a string.
    pub fn as_str(&self) -> (r: Option<&str>)
        ensures
            text::opt_str(r) == self@.text(),
    {
        match self {
            Json::Str(s) => Some(s.as_str()),
            _ => None,
        }
    }

    /// The text of a string field.
    pub fn get_str(&self, key: &str) -> (r: Option<&str>)
        ensures
            text::opt_str(r) == self@.text_at(key@),
    {
        match self.get(key) {
            Some(v) => v.as_str(),
            None => None,
        }
    }

    /// An owned copy of the text of a string field.
    pub fn get_text(&self, key: &str) -> (r: Option<String>)
        ensures
            text::opt_view(r) == self@.text_at(key@),
    {
        match self.get_str(key) {
            Some(s) => Some(s.to_owned()),
            None => None,
        }
    }

    /// The truth value of a boolean field.
    pub fn get_bool(&self, key: &str) -> (r: Option<bool>)
        ensures
            r == self@.bool_at(key@),
    {
        match self.get(key) {
            Some(Json::Bool(b)) => Some(*b),
            _ => None,
        }
    }

    /// The whole number of a field.
    pub fn get_int(&self, key: &str) -> (r: Option<i64>)
        ensures
            r == self@.int_at(key@),
    {
        match self.get(key) {
            Some(Json::Int(n)) => Some(*n),
            _ => None,
        }
    }

    /// The items of an array field.
    pub fn get_array(&self, key: &str) -> (r: Option<&Vec<Json>>)
        ensures
            match r {
                Some(v) => self@.array_at(key@) == Some(items_view(v@)),
                None => self@.array_at(key@) is None,
            },
    {
        match self.get(key) {
            Some(Json::Array(items)) => {
                proof {
                    lemma_array_model(*items);
                }
                Some(items)
            },
            _ => None,
        }
    }

    /// Whether the value is an object.
    pub fn is_object(&self) -> (r: bool)
        ensures
            r == (self@ is Object),
    {
        match self {
            Json::Object(_) => true,
            _ => false,
        }
    }

    /// The number as a double-precision one.
    pub fn reading(&self) -> (r: Option<Reading>)
        ensures
            r == self@.reading(),
    {
        match self {
            Json::Int(n) => Some(number::reading_of_int(*n)),
            Json::Large(n) => Some(number::reading_of_word(*n)),
            Json::Real(x) => Some(Reading { bits: x.bits }),
            _ => None,
        }
    }

    /// An owned copy.
    pub fn copy(&self) -> (r: Json)
        ensures
            r@ == self@,
        decreases self,
    {
        match self {
            Json::Null => Json::Null,
            Json::Bool(b) => Json::Bool(*b),
            Json::Int(n) => Json::Int(*n),
            Json::Large(n) => Json::Large(*n),
            Json::Real(x) => Json::Real(Real { text: x.text.clone(), bits: x.bits }),
            Json::Str(s) => Json::Str(s.clone()),
            Json::Array(items) => {
                let mut out: Vec<Json> = Vec::new();
                let mut i: usize = 0;
                while i < items.len()
                    invariant
                        i <= items.len(),
                        out.len() == i,
                        *self is Array,
                        *items == self->Array_0,
                        forall|k: int| 0 <= k < i ==> (#[trigger] out@[k])@ == items@[k]@,
                    decreases items.len() - i,
                {
                    assert(decreases_to!(self => self->Array_0));
                    assert(decreases_to!(items => items@[i as int]));
                    out.push(items[i].copy());
                    i = i + 1;
                }
                proof {
                    lemma_array_model(out);
                    lemma_array_model(*items);
                    assert(items_view(out@) =~= items_view(items@));
                }
                Json::Array(out)
            },
            Json::Object(pairs) => {
                let mut out: Vec<(String, Json)> = Vec::new();
                let mut i: usize = 0;
                while i < pairs.len()
                    invariant
                        i <= pairs.len(),
                        out.len() == i,
                        *self is Object,
                        *pairs == self->Object_0,
                        fields_view(out@) == fields_view(pairs@.take(i as int)),
                    decreases pairs.len() - i,
                {
                    assert(decreases_to!(self => self->Object_0));
                    assert(decreases_to!(pairs => pairs@[i as int]));
                    assert(decreases_to!(pairs@[i as int] => pairs@[i as int].1));
                    let value = pairs[i].1.copy();
                    let ghost before = out@;
                    out.push((pairs[i].0.clone(), value));
                    assert(out@.drop_last() =~= before);
                    assert(pairs@.take(i + 1).drop_last() =~= pairs@.take(i as int));
                    i = i + 1;
                }
                assert(pairs@.take(i as int) =~= pairs@);
                Json::Object(out)
            },
        }
    }

    /// Whether two values mean the same.
    pub fn equals(&self, other: &Json) -> (r: bool)
        ensures
            r == (self@ == other@),
        decreases self,
    {
        match (self, other) {
            (Json::Null, Json::Null) => true,
            (Json::Bool(a), Json::Bool(b)) => *a == *b,
            (Json::Int(a), Json::Int(b)) => *a == *b,
            (Json::Large(a), Json::Large(b)) => *a == *b,
            (Json::Real(a), Json::Real(b)) => a.bits == b.bits && text::same(
                a.text.as_str(),
                b.text.as_str(),
            ),
            (Json::Str(a), Json::Str(b)) => text::same(a.as_str(), b.as_str()),
            (Json::Array(a), Json::Array(b)) => {
                proof {
                    lemma_array_model(*a);
                    lemma_array_model(*b);
                }
                if a.len() != b.len() {
                    assert(items_view(a@).len() != items_view(b@).len());
                    return false;
                }
                let mut i: usize = 0;
                while i < a.len()
                    invariant
                        i <= a.len() == b.len(),
                        *self == Json::Array(*a),
                        self@ == JsonV::Array(items_view(a@)),
                        other@ == JsonV::Array(items_view(b@)),
                        forall|k: int| 0 <= k < i ==> (#[trigger] a@[k])@ == b@[k]@,
                    decreases a.len() - i,
                {
                    assert(decreases_to!(a => a@[i as int]));
                    if !a[i].equals(&b[i]) {
                        assert(items_view(a@)[i as int] != items_view(b@)[i as int]);
                        return false;
                    }
                    i = i + 1;
                }
                assert(items_view(a@) =~= items_view(b@));
                true
            },
            (Json::Object(a), Json::Object(b)) => {
                let ghost ma = fields_view(a@);
                let ghost mb = fields_view(b@);
                let mut i: usize = 0;
                while i < a.len()
                    invariant
                        i <= a.len(),
                        *self == Json::Object(*a),
                        ma == fields_view(a@),
                        mb == fields_view(b@),
                        self@ == JsonV::Object(ma),
                        other@ == JsonV::Object(mb),
                        forall|k: int|
                            0 <= k < i ==> mb.dom().contains((#[trigger] a@[k]).0@)
                                && mb[a@[k].0@] == ma[a@[k].0@],
                    decreases a.len() - i,
                {
                    match (find_field(a, a[i].0.as_str()), find_field(b, a[i].0.as_str())) {
                        (Some(x), Some(y)) => {
                            assert(decreases_to!(a => a@[x as int]));
                            assert(decreases_to!(a@[x as int] => a@[x as int].1));
                            if !a[x].1.equals(&b[y].1) {
                                assert(ma[a@[i as int].0@] != mb[a@[i as int].0@]);
                                return false;
                            }
                        },
                        (Some(_), None) => {
                            assert(ma.dom().contains(a@[i as int].0@));
                            return false;
                        },
                        (None, _) => {
                            proof {
                                lemma_pair_is_field(a@, i as int);
                            }
                            return false;
                        },
                    }
                    i = i + 1;
                }
                let mut j: usize = 0;
                while j < b.len()
                    invariant
                        j <= b.len(),
                        ma == fields_view(a@),
                        mb == fields_view(b@),
                        self@ == JsonV::Object(ma),
                        other@ == JsonV::Object(mb),
                        forall|k: int| 0 <= k < j ==> ma.dom().contains((#[trigger] b@[k]).0@),
                    decreases b.len() - j,
                {
                    if find_field(a, b[j].0.as_str()).is_none() {
                        proof {
                            lemma_pair_is_field(b@, j as int);
                        }
                        return false;
                    }
                    j = j + 1;
                }
                proof {
                    assert forall|k: Seq<char>| #[trigger]
                        ma.dom().contains(k) == mb.dom().contains(k) by {
                        if ma.dom().contains(k) {
                            let at = lemma_from_pair(a@, k);
                            assert(a@[at].0@ == k);
                        }
                        if mb.dom().contains(k) {
                            let at = lemma_from_pair(b@, k);
                            assert(b@[at].0@ == k);
                        }
                    }
                    assert forall|k: Seq<char>| #[trigger] ma.dom().contains(k) implies ma[k]
                        == mb[k] by {
                        let at = lemma_from_pair(a@, k);
                        assert(a@[at].0@ == k);
                    }
                    assert(ma.dom() =~= mb.dom());
                    assert(ma =~= mb);
                }
                true
            },
            _ => false,
        }
    }
}

/// Every pair's name is a field.
pub proof fn lemma_pair_is_field(pairs: Seq<(String, Json)>, i: int)
    requires
        0 <= i < pairs.len(),
    ensures
        fields_view(pairs).dom().contains(pairs[i].0@),
    decreases pairs.len(),
{
    if i < pairs.len() - 1 {
        lemma_pair_is_field(pairs.drop_last(), i);
    }
}

// ---------------------------------------------------------------------------------------------
// Lists of objects
// ---------------------------------------------------------------------------------------------
/// The first object in a list whose field is a given text.
pub open spec fn first_with_text(items: Seq<JsonV>, key: Seq<char>, value: Seq<char>) -> Option<
    JsonV,
>
    decreases items.len(),
{
    if items.len() == 0 {
        None
    } else {
        match first_with_text(items.drop_last(), key, value) {
            Some(found) => Some(found),
            None => if items.last().text_at(key) == Some(value) {
                Some(items.last())
            } else {
                None
            },
        }
    }
}

/// The texts of a field in a list of objects, of those objects that have one.
pub open spec fn texts_of(items: Seq<JsonV>, key: Seq<char>) -> Seq<Seq<char>>
    decreases items.len(),
{
    if items.len() == 0 {
        Seq::empty()
    } else {
        texts_of(items.drop_last(), key) + (match items.last().text_at(key) {
            Some(s) => seq![s],
            None => Seq::empty(),
        })
    }
}

/// The first object that is found stays the first, whatever follows.
proof fn lemma_first_with_text(items: Seq<JsonV>, key: Seq<char>, value: Seq<char>, i: int)
    requires
        0 <= i < items.len(),
        first_with_text(items.take(i), key, value) is None,
        items[i].text_at(key) == Some(value),
    ensures
        first_with_text(items, key, value) == Some(items[i]),
    decreases items.len(),
{
    if i == items.len() - 1 {
        assert(items.take(i) =~= items.drop_last());
    } else {
        assert(items.drop_last().take(i) =~= items.take(i));
        lemma_first_with_text(items.drop_last(), key, value, i);
    }
}

impl Json {
    /// The first object in an array field whose own field is a given text.
    pub fn find_with_text(&self, list: &str, key: &str, value: &str) -> (r: Option<&Json>)
        ensures
            opt_model(r) == first_with_text(self@.items_at(list@), key@, value@),
    {
        let items = match self.get_array(list) {
            Some(items) => items,
            None => {
                return None;
            },
        };
        let ghost all = items_view(items@);
        let mut i: usize = 0;
        while i < items.len()
            invariant
                i <= items.len(),
                all == items_view(items@),
                self@.items_at(list@) == all,
                first_with_text(all.take(i as int), key@, value@) is None,
            decreases items.len() - i,
        {
            proof {
                assert(all.take(i + 1).drop_last() =~= all.take(i as int));
                assert(all.take(i + 1).last() == items@[i as int]@);
            }
            if let Some(s) = items[i].get_str(key) {
                if text::same(s, value) {
                    proof {
                        lemma_first_with_text(all, key@, value@, i as int);
                    }
                    return Some(&items[i]);
                }
            }
            i = i + 1;
        }
        assert(all.take(i as int) =~= all);
        None
    }

    /// The texts of a field of the objects in an array field.
    pub fn collect_texts(&self, list: &str, key: &str) -> (r: Vec<String>)
        ensures
            text::views(r@) == texts_of(self@.items_at(list@), key@),
    {
        let mut out: Vec<String> = Vec::new();
        assert(text::views(out@) =~= Seq::empty());
        if let Some(items) = self.get_array(list) {
            let ghost all = items_view(items@);
            let mut i: usize = 0;
            while i < items.len()
                invariant
                    i <= items.len(),
                    all == items_view(items@),
                    text::views(out@) == texts_of(all.take(i as int), key@),
                decreases items.len() - i,
            {
                proof {
                    assert(all.take(i + 1).drop_last() =~= all.take(i as int));
                    assert(all.take(i + 1).last() == items@[i as int]@);
                }
                let ghost before = text::views(out@);
                if let Some(s) = items[i].get_text(key) {
                    let ghost own = s@;
                    out.push(s);
                    assert(text::views(out@) =~= before + seq![own]);
                } else {
                    assert(text::views(out@) =~= before + Seq::<Seq<char>>::empty());
                }
                i = i + 1;
            }
            assert(all.take(i as int) =~= all);
        }
        out
    }
}

// ---------------------------------------------------------------------------------------------
// Building objects
// ---------------------------------------------------------------------------------------------
/// The fields of an object being built.
pub struct Fields {
    pub pairs: Vec<(String, Json)>,
}

impl View for Fields {
    type V = Map<Seq<char>, JsonV>;

    open spec fn view(&self) -> Map<Seq<char>, JsonV> {
        fields_view(self.pairs@)
    }
}

impl Fields {
    /// No fields.
    pub fn new() -> (r: Fields)
        ensures
            r@ == Map::<Seq<char>, JsonV>::empty(),
            r.pairs@.len() == 0,
    {
        Fields { pairs: Vec::new() }
    }

    /// The fields with one more, or with another value of one.
    pub fn put(self, key: &str, value: Json) -> (r: Fields)
        ensures
            r@ == self@.insert(key@, value@),
            r.pairs@ == self.pairs@.push(r.pairs@.last()),
            r.pairs@.last().0@ == key@,
            r.pairs@.last().1@ == value@,
    {
        let mut pairs = self.pairs;
        let ghost before = pairs@;
        pairs.push((key.to_owned(), value));
        assert(pairs@.drop_last() =~= before);
        Fields { pairs }
    }

    /// The object with these fields.
    pub fn json(self) -> (r: Json)
        ensures
            r@ == JsonV::Object(self@),
    {
        Json::Object(self.pairs)
    }
}

// ---------------------------------------------------------------------------------------------
// Text
// ---------------------------------------------------------------------------------------------
/// A value of `serde_json`.
#[verifier::external_type_specification]
#[verifier::external_body]
pub struct ExValue(serde_json::Value);

/// What a value of `serde_json` holds.
pub uninterp spec fn value_model(v: serde_json::Value) -> JsonV;

/// What `serde_json` reads out of a text: a value, or the message of its error.
pub uninterp spec fn parsed(s: Seq<char>) -> Result<JsonV, Seq<char>>;

/// Whether a text reads as a value.
pub open spec fn reads_as(s: Seq<char>, v: JsonV) -> bool {
    parsed(s) is Ok && parsed(s)->Ok_0 == v
}

/// Whether a text is no JSON, for the reason given.
pub open spec fn is_refused(s: Seq<char>, reason: Seq<char>) -> bool {
    parsed(s) is Err && parsed(s)->Err_0 == reason
}

/// The text that `serde_json` prints for a value, without spaces.
pub uninterp spec fn printed(v: JsonV) -> Seq<char>;

/// The text that `serde_json` prints for a value, over several lines.
pub uninterp spec fn printed_pretty(v: JsonV) -> Seq<char>;

/// The text that `serde_json` prints for an object whose fields come in this order, without spaces.
pub uninterp spec fn printed_fields(fields: Seq<(Seq<char>, JsonV)>) -> Seq<char>;

/// The text that `serde_json` prints for an object whose fields come in this order, over several
/// lines.
pub uninterp spec fn printed_fields_pretty(fields: Seq<(Seq<char>, JsonV)>) -> Seq<char>;

/// The number that digits stand for, as `serde_json` holds it.
pub uninterp spec fn number_of(digits: Seq<char>) -> JsonV;

/// Whether a text reads as an object with these fields, those with plain values unchanged.
pub open spec fn reads_like(s: Seq<char>, m: Map<Seq<char>, JsonV>) -> bool {
    &&& parsed(s) is Ok
    &&& parsed(s)->Ok_0 is Object
    &&& parsed(s)->Ok_0->Object_0.dom() == m.dom()
    &&& forall|k: Seq<char>| #[trigger]
        m.dom().contains(k) && m[k].plain(126) ==> parsed(s)->Ok_0->Object_0[k] == m[k]
}

/// The fields of an object in their order.
pub open spec fn pairs_view(pairs: Seq<(String, Json)>) -> Seq<(Seq<char>, JsonV)> {
    pairs.map_values(|p: (String, Json)| (p.0@, rebuilt(p.1@)))
}

/// Whether the values of all fields are neither arrays nor objects nor numbers with a fraction.
pub open spec fn all_scalars(pairs: Seq<(String, Json)>) -> bool {
    forall|i: int| 0 <= i < pairs.len() ==> is_scalar((#[trigger] pairs[i]).1@)
}

/// Whether a value is neither an array nor an object nor a number with a fraction.
pub open spec fn is_scalar(v: JsonV) -> bool {
    match v {
        JsonV::Null | JsonV::Bool(_) | JsonV::Int(_) | JsonV::Str(_) => true,
        JsonV::Large(n) => n > i64::MAX,
        _ => false,
    }
}

/// The fields of a record that is made of these.
pub open spec fn record_fields(pairs: Seq<(String, Json)>) -> Seq<record::FieldV> {
    pairs.map_values(|p: (String, Json)| (p.0@, Some(p.1@)))
}

/// Whether a value is as `serde_json` gives it: a number with a fraction is the one that its digits
/// stand for, and a whole number has one form only.
pub open spec fn settled(v: JsonV) -> bool
    decreases v,
{
    match v {
        JsonV::Real(digits, _) => number_of(digits) == v,
        JsonV::Large(n) => n > i64::MAX,
        JsonV::Array(items) => forall|i: int|
            0 <= i < items.len() ==> settled(#[trigger] items[i]),
        JsonV::Object(m) => forall|k: Seq<char>|
            m.dom().contains(k) ==> settled(#[trigger] m[k]),
        _ => true,
    }
}

/// `serde_json::from_str` reads one value out of the whole text, or says what is wrong with it.
/// Both depend on the text alone; what the grammar makes of a given text is not stated here. At most
/// 127 arrays and objects are read inside one another, and none has the name that marks raw text,
/// unless the text may spell that name.
#[verifier::external_body]
fn value_from_text(s: &str) -> (r: Result<serde_json::Value, String>)
    ensures
        match r {
            Ok(v) => parsed(s@) is Ok && parsed(s@)->Ok_0 == value_model(v) && (!may_mark_raw(s@)
                ==> value_model(v).legible(127)),
            Err(e) => parsed(s@) is Err && parsed(s@)->Err_0 == e@,
        },
{
    serde_json::from_str::<serde_json::Value>(s).map_err(|e| e.to_string())
}

/// The texts of an array that holds nothing else.
pub open spec fn all_texts(v: JsonV) -> Option<Seq<Seq<char>>> {
    match v {
        JsonV::Array(items) => if forall|i: int|
            0 <= i < items.len() ==> (#[trigger] items[i]) is Str {
            Some(Seq::new(items.len(), |i: int| items[i]->Str_0))
        } else {
            None
        },
        _ => None,
    }
}

/// The list of texts that `serde_json` reads out of a text, if it reads one.
pub uninterp spec fn text_list(s: Seq<char>) -> Option<Seq<Seq<char>>>;

/// `serde_json::from_str` reads a list of texts out of the whole text, if that is what it holds.
/// The result depends on the text alone. A list that is read is what the text holds as a value; and
/// where the text cannot mark raw text, a list that it holds as a value is read.
#[verifier::external_body]
pub(crate) fn read_texts(s: &str) -> (r: Option<Vec<String>>)
    ensures
        match r {
            Some(list) => text_list(s@) == Some(text::views(list@)) && all_texts(
                parsed_or_null(s@),
            ) == text_list(s@),
            None => text_list(s@) is None && (may_mark_raw(s@) || all_texts(
                parsed_or_null(s@),
            ) is None),
        },
{
    serde_json::from_str::<Vec<String>>(s).ok()
}

/// The variants and accessors of `serde_json::Value`: the same value in the library's own type.
/// A number that is neither a signed nor an unsigned word of 64 bits is kept as its digits
/// together with the bits of its double-precision value. The digits printed for such a number are
/// the shortest that tell it from all others, so that the number is found again from them; a whole
/// number is a signed word wherever one holds it.
#[verifier::external_body]
fn json_from_value(v: serde_json::Value) -> (r: Json)
    ensures
        r@ == value_model(v),
        settled(r@),
{
    match v {
        Value::Null => Json::Null,
        Value::Bool(b) => Json::Bool(b),
        Value::Number(n) => match (n.as_i64(), n.as_u64()) {
            (Some(i), _) => Json::Int(i),
            (_, Some(u)) => Json::Large(u),
            _ => Json::Real(Real { text: n.to_string(), bits: n.as_f64().unwrap_or_default().to_bits() }),
        },
        Value::String(s) => Json::Str(s),
        Value::Array(a) => Json::Array(a.into_iter().map(json_from_value).collect()),
        Value::Object(o) => Json::Object(o.into_iter().map(|p| (p.0, json_from_value(p.1))).collect()),
    }
}

/// `serde_json::Number::from_f64` makes a number of the double-precision one that is nearest to the
/// digits. What it holds depends on the digits alone; digits that are none, or that are out of
/// range, give `Null`.
#[verifier::external_body]
fn value_from_digits(digits: &str) -> (r: serde_json::Value)
    ensures
        value_model(r) == number_of(digits@),
{
    digits.parse().ok().and_then(serde_json::Number::from_f64).map_or(Value::Null, Value::Number)
}

/// The constructors of `serde_json::Value`: the same value in the type of `serde_json`.
#[verifier::external_body]
fn value_from_json(j: &Json) -> (r: serde_json::Value)
    ensures
        value_model(r) == rebuilt(j@),
{
    match j {
        Json::Null => Value::Null,
        Json::Bool(b) => Value::Bool(*b),
        Json::Int(n) => Value::from(*n),
        Json::Large(n) => Value::from(*n),
        Json::Real(x) => value_from_digits(x.text.as_str()),
        Json::Str(s) => Value::from(s.as_str()),
        Json::Array(a) => Value::Array(a.iter().map(value_from_json).collect()),
        Json::Object(o) => Value::Object(
            o.iter().map(|p| (p.0.clone(), value_from_json(&p.1))).collect(),
        ),
    }
}

/// `serde_json::Value::to_string` prints a value without spaces. The text depends on the value
/// alone, and reads back as the same value where the value is plain.
#[verifier::external_body]
fn value_to_text(v: &serde_json::Value) -> (r: String)
    ensures
        r@ == printed(value_model(*v)),
        value_model(*v).plain(127) ==> reads_as(r@, value_model(*v)),
{
    v.to_string()
}

/// `serde_json::to_string_pretty` prints a value over several lines. The text depends on the value
/// alone. It reads back as the same value where the value is plain, and as an object with the same
/// fields, the plain ones unchanged, where it is a legible object. The text of an object begins with
/// its brace. Printing a value cannot fail.
#[verifier::external_body]
fn value_to_pretty_text(v: &serde_json::Value) -> (r: String)
    ensures
        r@ == printed_pretty(value_model(*v)),
        value_model(*v).plain(127) ==> reads_as(r@, value_model(*v)),
        value_model(*v) is Object && value_model(*v).legible(127) ==> reads_like(
            r@,
            value_model(*v)->Object_0,
        ),
        value_model(*v) is Object ==> r@.len() > 0 && r@[0] == '{',
{
    serde_json::to_string_pretty(v).unwrap_or_default()
}

/// `serde::Serializer::collect_map` with the compact `serde_json::Serializer` prints an object, its
/// fields in the order given. The text depends on them alone. Where no value is an array, an object or
/// a number with a fraction, it is read as a record of the same fields.
#[verifier::external_body]
fn fields_to_text(pairs: &Vec<(String, Json)>) -> (r: String)
    ensures
        r@ == printed_fields(pairs_view(pairs@)),
        all_scalars(pairs@) ==> record::record_in(r@) == Some(
            record::RecordV::Named(record_fields(pairs@)),
        ),
{
    let mut out: Vec<u8> = Vec::new();
    let mut to = serde_json::Serializer::new(&mut out);
    let _ = to.collect_map(pairs.iter().map(|p| (&p.0, value_from_json(&p.1))));
    String::from_utf8(out).unwrap_or_default()
}

/// `serde::Serializer::collect_map` with the pretty `serde_json::Serializer` prints an object over
/// several lines, its fields in the order given. The text depends on them alone. Where no value is
/// an array, an object or a number with a fraction, it is read as a record of the same fields.
#[verifier::external_body]
fn fields_to_pretty_text(pairs: &Vec<(String, Json)>) -> (r: String)
    ensures
        r@ == printed_fields_pretty(pairs_view(pairs@)),
        all_scalars(pairs@) ==> record::record_in(r@) == Some(
            record::RecordV::Named(record_fields(pairs@)),
        ),
{
    let mut out: Vec<u8> = Vec::new();
    let mut to = serde_json::Serializer::pretty(&mut out);
    let _ = to.collect_map(pairs.iter().map(|p| (&p.0, value_from_json(&p.1))));
    String::from_utf8(out).unwrap_or_default()
}

impl Fields {
    /// The object as text, without spaces, the fields in the order in which they were put.
    pub fn to_text(&self) -> (r: String)
        ensures
            r@ == printed_fields(pairs_view(self.pairs@)),
            all_scalars(self.pairs@) ==> record::record_in(r@) == Some(
                record::RecordV::Named(record_fields(self.pairs@)),
            ),
    {
        fields_to_text(&self.pairs)
    }

    /// The object as text over several lines, the fields in the order in which they were put.
    pub fn to_pretty_text(&self) -> (r: String)
        ensures
            r@ == printed_fields_pretty(pairs_view(self.pairs@)),
            all_scalars(self.pairs@) ==> record::record_in(r@) == Some(
                record::RecordV::Named(record_fields(self.pairs@)),
            ),
    {
        fields_to_pretty_text(&self.pairs)
    }
}

impl Json {
    /// The value that a text holds, or what is wrong with the text.
    pub fn parse(s: &str) -> (r: Result<Json, String>)
        ensures
            match r {
                Ok(j) => reads_as(s@, j@) && settled(j@) && (!may_mark_raw(s@) ==> j@.legible(127)),
                Err(e) => is_refused(s@, e@),
            },
    {
        match value_from_text(s) {
            Ok(v) => Ok(json_from_value(v)),
            Err(e) => Err(e),
        }
    }

    /// The value that a text holds; `Null` if it holds none.
    pub fn parse_or_null(s: &str) -> (r: Json)
        ensures
            r@ == parsed_or_null(s@),
    {
        match Json::parse(s) {
            Ok(j) => j,
            Err(_) => Json::Null,
        }
    }

    /// The value as text, without spaces. A plain value reads back as it was.
    pub fn to_text(&self) -> (r: String)
        ensures
            r@ == printed(rebuilt(self@)),
            settled(self@) ==> r@ == printed(self@),
            self@.plain(127) ==> reads_as(r@, self@),
    {
        proof {
            if self@.plain(127) {
                lemma_plain_is_settled(self@, 127);
            }
            if settled(self@) {
                lemma_settled_is_rebuilt(self@);
            }
        }
        value_to_text(&value_from_json(self))
    }

    /// The value as text over several lines. A plain value reads back as it was, a legible object
    /// with all its fields.
    pub fn to_pretty_text(&self) -> (r: String)
        ensures
            r@ == printed_pretty(rebuilt(self@)),
            settled(self@) ==> r@ == printed_pretty(self@),
            self@.plain(127) ==> reads_as(r@, self@),
            self@ is Object && settled(self@) && self@.legible(127) ==> reads_like(
                r@,
                self@->Object_0,
            ),
            self@ is Object ==> r@.len() > 0 && r@[0] == '{',
    {
        proof {
            if self@.plain(127) {
                lemma_plain_is_settled(self@, 127);
            }
            if settled(self@) {
                lemma_settled_is_rebuilt(self@);
            }
        }
        value_to_pretty_text(&value_from_json(self))
    }
}

/// The value that a text holds; `Null` if it holds none.
pub open spec fn parsed_or_null(s: Seq<char>) -> JsonV {
    match parsed(s) {
        Ok(v) => v,
        Err(_) => JsonV::Null,
    }
}

/// A value as the type of `serde_json` holds it: a number with a fraction is what its digits stand
/// for, and a whole number has one form only.
pub open spec fn rebuilt(v: JsonV) -> JsonV
    decreases v,
{
    match v {
        JsonV::Real(digits, _) => number_of(digits),
        JsonV::Large(n) => if n <= i64::MAX {
            JsonV::Int(n as i64)
        } else {
            v
        },
        JsonV::Array(items) => JsonV::Array(
            Seq::new(
                items.len(),
                |i: int|
                    if 0 <= i < items.len() {
                        rebuilt(items[i])
                    } else {
                        JsonV::Null
                    },
            ),
        ),
        JsonV::Object(m) => JsonV::Object(
            Map::new(
                |k: Seq<char>| m.dom().contains(k),
                |k: Seq<char>|
                    if m.dom().contains(k) {
                        rebuilt(m[k])
                    } else {
                        JsonV::Null
                    },
            ),
        ),
        _ => v,
    }
}

/// A plain value is settled.
pub proof fn lemma_plain_is_settled(v: JsonV, depth: nat)
    requires
        v.plain(depth),
    ensures
        settled(v),
    decreases depth,
{
    match v {
        JsonV::Array(items) => {
            assert forall|i: int| 0 <= i < items.len() implies settled(#[trigger] items[i]) by {
                lemma_plain_is_settled(items[i], (depth - 1) as nat);
            }
        },
        JsonV::Object(m) => {
            assert forall|k: Seq<char>| m.dom().contains(k) implies settled(#[trigger] m[k]) by {
                lemma_plain_is_settled(m[k], (depth - 1) as nat);
            }
        },
        _ => {},
    }
}

/// A settled value is held as it is.
pub proof fn lemma_settled_is_rebuilt(v: JsonV)
    requires
        settled(v),
    ensures
        rebuilt(v) == v,
    decreases v,
{
    match v {
        JsonV::Array(items) => {
            assert forall|i: int| 0 <= i < items.len() implies rebuilt(#[trigger] items[i])
                == items[i] by {
                lemma_settled_is_rebuilt(items[i]);
            }
            assert(rebuilt(v)->Array_0 =~= items);
        },
        JsonV::Object(m) => {
            assert forall|k: Seq<char>| m.dom().contains(k) implies rebuilt(#[trigger] m[k])
                == m[k] by {
                lemma_settled_is_rebuilt(m[k]);
            }
            assert(rebuilt(v)->Object_0 =~= m);
        },
        _ => {},
    }
}

// ---------------------------------------------------------------------------------------------
// Laws
// ---------------------------------------------------------------------------------------------
/// A field of an object is the value under its name, and there is none under any other name; what is
/// no object has no fields.
pub proof fn law_fields_go_by_their_names(m: Map<Seq<char>, JsonV>, key: Seq<char>, v: JsonV)
    ensures
        JsonV::Object(m.insert(key, v)).field(key) == Some(v),
        !m.dom().contains(key) ==> JsonV::Object(m).field(key) is None,
        !(v is Object) ==> v.field(key) is None,
{
}

/// A field is read as what it is: a text only as a text, a truth value only as one, a whole number
/// only as one, and an array only as one.
pub proof fn law_fields_keep_their_kind(
    m: Map<Seq<char>, JsonV>,
    key: Seq<char>,
    s: Seq<char>,
    b: bool,
    n: i64,
    items: Seq<JsonV>,
)
    ensures
        ({
            let v = JsonV::Object(m.insert(key, JsonV::Str(s)));
            v.text_at(key) == Some(s) && v.bool_at(key) is None && v.int_at(key) is None
                && v.array_at(key) is None && v.items_at(key).len() == 0
        }),
        ({
            let v = JsonV::Object(m.insert(key, JsonV::Bool(b)));
            v.bool_at(key) == Some(b) && v.text_at(key) is None && v.int_at(key) is None
                && v.array_at(key) is None
        }),
        ({
            let v = JsonV::Object(m.insert(key, JsonV::Int(n)));
            v.int_at(key) == Some(n) && v.text_at(key) is None && v.bool_at(key) is None
                && v.array_at(key) is None
        }),
        ({
            let v = JsonV::Object(m.insert(key, JsonV::Array(items)));
            v.array_at(key) == Some(items) && v.items_at(key) == items && v.text_at(key) is None
                && v.int_at(key) is None
        }),
        ({
            let v = JsonV::Object(m.insert(key, JsonV::Null));
            v.text_at(key) is None && v.bool_at(key) is None && v.int_at(key) is None
                && v.array_at(key) is None && v.field(key) == Some(JsonV::Null)
        }),
{
}

/// Of the objects in a list the first with the wanted text is found, wherever it stands, and none
/// where no object has it.
pub proof fn law_the_first_with_a_text_is_found(
    items: Seq<JsonV>,
    key: Seq<char>,
    value: Seq<char>,
    i: int,
)
    ensures
        0 <= i < items.len() && items[i].text_at(key) == Some(value) && (forall|j: int|
            0 <= j < i ==> (#[trigger] items[j]).text_at(key) != Some(value)) ==> first_with_text(
            items,
            key,
            value,
        ) == Some(items[i]),
        (forall|j: int| 0 <= j < items.len() ==> (#[trigger] items[j]).text_at(key) != Some(value))
            ==> first_with_text(items, key, value) is None,
        first_with_text(items, key, value) matches Some(v) ==> v.text_at(key) == Some(value)
            && items.contains(v),
    decreases items.len(),
{
    if items.len() > 0 {
        let front = items.drop_last();
        law_the_first_with_a_text_is_found(front, key, value, i);
        law_the_first_with_a_text_is_found(front, key, value, front.len() as int);
        if forall|j: int|
            0 <= j < items.len() ==> (#[trigger] items[j]).text_at(key) != Some(value) {
            assert forall|j: int| 0 <= j < front.len() implies (#[trigger] front[j]).text_at(key)
                != Some(value) by {
                assert(items[j].text_at(key) != Some(value));
            }
            assert(items[items.len() - 1].text_at(key) != Some(value));
        }
        if 0 <= i < items.len() && items[i].text_at(key) == Some(value) && (forall|j: int|
            0 <= j < i ==> (#[trigger] items[j]).text_at(key) != Some(value)) {
            if i < front.len() {
                assert forall|j: int| 0 <= j < i implies (#[trigger] front[j]).text_at(key) != Some(
                    value,
                ) by {
                    assert(items[j].text_at(key) != Some(value));
                }
                assert(front[i] == items[i]);
            } else {
                assert forall|j: int| 0 <= j < front.len() implies (#[trigger] front[j]).text_at(
                    key,
                ) != Some(value) by {
                    assert(items[j].text_at(key) != Some(value));
                }
            }
        }
        if first_with_text(items, key, value) is Some {
            let v = first_with_text(items, key, value)->0;
            if first_with_text(front, key, value) is Some {
                let k = choose|k: int| 0 <= k < front.len() && front[k] == v;
                assert(items[k] == v);
            } else {
                assert(items[items.len() - 1] == v);
            }
        }
    }
}

/// The texts of a field are collected object by object, in order: one of every object that has one.
pub proof fn law_texts_are_collected_in_order(a: Seq<JsonV>, v: JsonV, key: Seq<char>, s: Seq<char>)
    ensures
        v.text_at(key) == Some(s) ==> texts_of(a.push(v), key) == texts_of(a, key).push(s),
        v.text_at(key) is None ==> texts_of(a.push(v), key) == texts_of(a, key),
        texts_of(Seq::empty(), key).len() == 0,
{
    assert(a.push(v).drop_last() =~= a);
    assert(texts_of(a, key) + seq![s] =~= texts_of(a, key).push(s));
    assert(texts_of(a, key) + Seq::<Seq<char>>::empty() =~= texts_of(a, key));
}

/// Every object that has a text in the field adds it to the list.
pub proof fn lemma_texts_of_has(items: Seq<JsonV>, key: Seq<char>, i: int)
    requires
        0 <= i < items.len(),
        items[i].text_at(key) is Some,
    ensures
        texts_of(items, key).contains(items[i].text_at(key)->0),
    decreases items.len(),
{
    let s = items[i].text_at(key)->0;
    let before = texts_of(items.drop_last(), key);
    if i == items.len() - 1 {
        assert(texts_of(items, key)[before.len() as int] == s);
    } else {
        lemma_texts_of_has(items.drop_last(), key, i);
        let k = choose|k: int| 0 <= k < before.len() && before[k] == s;
        assert(texts_of(items, key)[k] == s);
    }
}


/// A number is read as the double-precision one nearest to it, one with a fraction by its bits; what
/// is no number is not read as one.
pub proof fn law_numbers_are_read_as_doubles(n: i64, m: u64, digits: Seq<char>, bits: u64, v: JsonV)
    ensures
        JsonV::Int(n).reading() == Some(number::whole(n as int)),
        JsonV::Large(m).reading() == Some(number::whole(m as int)),
        JsonV::Real(digits, bits).reading() == Some((Reading { bits })),
        v.reading() is Some <==> v.is_number(),
        parsed(digits) is Err ==> parsed_or_null(digits) is Null,
        parsed(digits) == Ok::<JsonV, Seq<char>>(v) ==> parsed_or_null(digits) == v,
{
}

} // verus!
