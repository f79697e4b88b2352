//! JSON values as the handlers read and build them. A number is its JSON text;
//! an object keeps its keys in order, so that equal objects are equal entry by
//! entry.

use vstd::prelude::*;

use crate::number::{
    decimal, i64_of, law_decimal_round_trip, law_unsigned_round_trip, parse_i64, parse_u64,
    show_i64, show_u64, u64_of,
};
use crate::order::{before, lemma_before_trans, lemma_rank, rank, rank_of, Rank};
use crate::text::{owned, same};

verus! {

/// A JSON value.
#[derive(Debug, PartialEq)]
pub enum Json {
    Null,
    Bool(bool),
    /// A number, as the text JSON writes it with.
    Number(String),
    Text(String),
    Array(Vec<Json>),
    Object(Vec<(String, Json)>),
}

/// A JSON value with its texts taken as character sequences.
#[verifier::ext_equal]
pub enum JsonModel {
    Null,
    Bool(bool),
    Number(Seq<char>),
    Text(Seq<char>),
    Array(Seq<JsonModel>),
    Object(Seq<(Seq<char>, JsonModel)>),
}

impl Json {
    /// The value's model.
    pub open spec fn model(self) -> JsonModel
        decreases self,
    {
        match self {
            Json::Null => JsonModel::Null,
            Json::Bool(b) => JsonModel::Bool(b),
            Json::Number(t) => JsonModel::Number(t@),
            Json::Text(t) => JsonModel::Text(t@),
            Json::Array(items) => JsonModel::Array(
                Seq::new(
                    items@.len(),
                    |i: int|
                        if 0 <= i < items@.len() {
                            items@[i].model()
                        } else {
                            JsonModel::Null
                        },
                ),
            ),
            Json::Object(entries) => JsonModel::Object(
                Seq::new(
                    entries@.len(),
                    |i: int|
                        if 0 <= i < entries@.len() {
                            (entries@[i].0@, entries@[i].1.model())
                        } else {
                            (Seq::empty(), JsonModel::Null)
                        },
                ),
            ),
        }
    }
}

impl View for Json {
    type V = JsonModel;

    open spec fn view(&self) -> JsonModel {
        self.model()
    }
}

/// How many leading entries have a key that sorts before `key`.
pub open spec fn slot(s: Seq<(Seq<char>, JsonModel)>, key: Seq<char>) -> int
    decreases s.len(),
{
    if s.len() == 0 || !before(s[0].0, key) {
        0
    } else {
        1 + slot(s.drop_first(), key)
    }
}

/// `s` with `key` holding `value`: replaced where it stands, or inserted in order.
pub open spec fn put_entry(
    s: Seq<(Seq<char>, JsonModel)>,
    key: Seq<char>,
    value: JsonModel,
) -> Seq<(Seq<char>, JsonModel)> {
    let p = slot(s, key);
    if p < s.len() && s[p].0 == key {
        s.update(p, (key, value))
    } else {
        s.insert(p, (key, value))
    }
}

/// The value of the first entry with that key.
pub open spec fn lookup(s: Seq<(Seq<char>, JsonModel)>, key: Seq<char>) -> Option<JsonModel>
    decreases s.len(),
{
    if s.len() == 0 {
        None
    } else if s[0].0 == key {
        Some(s[0].1)
    } else {
        lookup(s.drop_first(), key)
    }
}

impl JsonModel {
    /// The object without entries.
    pub open spec fn object() -> JsonModel {
        JsonModel::Object(Seq::empty())
    }

    /// The object with `key` holding `value`; what is no object stays as it is.
    pub open spec fn put(self, key: Seq<char>, value: JsonModel) -> JsonModel {
        match self {
            JsonModel::Object(s) => JsonModel::Object(put_entry(s, key, value)),
            _ => self,
        }
    }

    /// The value at `key`, when this is an object that has it.
    pub open spec fn get(self, key: Seq<char>) -> Option<JsonModel> {
        match self {
            JsonModel::Object(s) => lookup(s, key),
            _ => None,
        }
    }

    /// The text, when this is one.
    pub open spec fn as_text(self) -> Option<Seq<char>> {
        match self {
            JsonModel::Text(t) => Some(t),
            _ => None,
        }
    }

    /// The number as a signed integer, when it is one.
    pub open spec fn as_i64(self) -> Option<i64> {
        match self {
            JsonModel::Number(t) => i64_of(t),
            _ => None,
        }
    }

    /// The number as an unsigned integer, when it is one.
    pub open spec fn as_u64(self) -> Option<u64> {
        match self {
            JsonModel::Number(t) => u64_of(t),
            _ => None,
        }
    }

    /// The truth value, when this is one.
    pub open spec fn as_bool(self) -> Option<bool> {
        match self {
            JsonModel::Bool(b) => Some(b),
            _ => None,
        }
    }

    /// The value at `key` as text.
    pub open spec fn text_at(self, key: Seq<char>) -> Option<Seq<char>> {
        match self.get(key) {
            Some(v) => v.as_text(),
            None => None,
        }
    }

    /// An integer as JSON.
    pub open spec fn integer(n: int) -> JsonModel {
        JsonModel::Number(decimal(n))
    }

    /// A text or null.
    pub open spec fn text_or_null(t: Option<Seq<char>>) -> JsonModel {
        match t {
            Some(s) => JsonModel::Text(s),
            None => JsonModel::Null,
        }
    }

    /// An integer or null.
    pub open spec fn int_or_null(n: Option<int>) -> JsonModel {
        match n {
            Some(i) => JsonModel::integer(i),
            None => JsonModel::Null,
        }
    }

    /// A value or null.
    pub open spec fn or_null(v: Option<JsonModel>) -> JsonModel {
        match v {
            Some(j) => j,
            None => JsonModel::Null,
        }
    }
}

/// A written integer reads back, as a signed or an unsigned one where it is; an
/// absent text, count or value is null, and a present one itself.
pub proof fn law_written_values_read_back(n: i64, u: u64, t: Seq<char>, v: JsonModel)
    ensures
        JsonModel::integer(n as int).as_i64() == Some(n),
        JsonModel::integer(u as int).as_u64() == Some(u),
        JsonModel::text_or_null(Some(t)).as_text() == Some(t),
        JsonModel::text_or_null(None) is Null,
        JsonModel::int_or_null(Some(n as int)).as_i64() == Some(n),
        JsonModel::int_or_null(None) is Null,
        JsonModel::or_null(Some(v)) == v,
        JsonModel::or_null(None) is Null,
{
    law_decimal_round_trip(n);
    law_unsigned_round_trip(u);
}

/// The models of a list of values.
pub open spec fn models(v: Seq<Json>) -> Seq<JsonModel> {
    Seq::new(v.len(), |i: int| v[i]@)
}

/// The entries of an object by their models.
pub open spec fn entry_models(v: Seq<(String, Json)>) -> Seq<(Seq<char>, JsonModel)> {
    Seq::new(v.len(), |i: int| (v[i].0@, v[i].1@))
}

/// The strings as an array of texts.
pub open spec fn text_list(names: Seq<String>) -> JsonModel {
    JsonModel::Array(Seq::new(names.len(), |i: int| JsonModel::Text(names[i]@)))
}

/// The model of an array is the array of the models.
pub proof fn lemma_array_model(items: Vec<Json>)
    ensures
        Json::Array(items)@ == JsonModel::Array(models(items@)),
{
    let j = Json::Array(items);
    assert(j@->Array_0 =~= models(items@));
}

/// The model of an object is the object of the models.
pub proof fn lemma_object_model(entries: Vec<(String, Json)>)
    ensures
        Json::Object(entries)@ == JsonModel::Object(entry_models(entries@)),
{
    let j = Json::Object(entries);
    assert(j@->Object_0 =~= entry_models(entries@));
}

proof fn lemma_slot_at(s: Seq<(Seq<char>, JsonModel)>, key: Seq<char>, i: int)
    requires
        0 <= i <= s.len(),
        forall|k: int| 0 <= k < i ==> before((#[trigger] s[k]).0, key),
        i < s.len() ==> !before(s[i].0, key),
    ensures
        slot(s, key) == i,
    decreases i,
{
    if i > 0 {
        assert(before(s[0].0, key));
        assert forall|k: int| 0 <= k < i - 1 implies before(
            (#[trigger] s.drop_first()[k]).0,
            key,
        ) by {
            assert(before(s[k + 1].0, key));
        }
        lemma_slot_at(s.drop_first(), key, i - 1);
    }
}

proof fn lemma_lookup_at(s: Seq<(Seq<char>, JsonModel)>, key: Seq<char>, i: int)
    requires
        0 <= i <= s.len(),
        forall|k: int| 0 <= k < i ==> (#[trigger] s[k]).0 != key,
        i < s.len() ==> s[i].0 == key,
    ensures
        lookup(s, key) == if i < s.len() {
            Some(s[i].1)
        } else {
            None
        },
    decreases i,
{
    if i > 0 {
        assert(s[0].0 != key);
        assert forall|k: int| 0 <= k < i - 1 implies (#[trigger] s.drop_first()[k]).0 != key by {
            assert(s[k + 1].0 != key);
        }
        lemma_lookup_at(s.drop_first(), key, i - 1);
    }
}

impl Json {
    /// The object without entries.
    pub fn object() -> (r: Json)
        ensures
            r@ == JsonModel::object(),
    {
        let entries: Vec<(String, Json)> = Vec::new();
        proof {
            lemma_object_model(entries);
            assert(entry_models(entries@) =~= Seq::empty());
        }
        Json::Object(entries)
    }

    /// A text.
    pub fn text(s: &str) -> (r: Json)
        ensures
            r@ == JsonModel::Text(s@),
    {
        Json::Text(owned(s))
    }

    /// A text, or null when there is none.
    pub fn optional_text(s: &Option<String>) -> (r: Json)
        ensures
            r@ == JsonModel::text_or_null(
                match *s {
                    Some(t) => Some(t@),
                    None => None,
                },
            ),
    {
        match s {
            Some(t) => Json::text(t.as_str()),
            None => Json::Null,
        }
    }

    /// A signed integer.
    pub fn integer(n: i64) -> (r: Json)
        ensures
            r@ == JsonModel::integer(n as int),
    {
        Json::Number(show_i64(n))
    }

    /// An unsigned integer.
    pub fn unsigned(n: u64) -> (r: Json)
        ensures
            r@ == JsonModel::integer(n as int),
    {
        Json::Number(show_u64(n))
    }

    /// A signed integer, or null when there is none.
    pub fn optional_int(n: Option<i64>) -> (r: Json)
        ensures
            r@ == JsonModel::int_or_null(
                match n {
                    Some(i) => Some(i as int),
                    None => None,
                },
            ),
    {
        match n {
            Some(i) => Json::integer(i),
            None => Json::Null,
        }
    }

    /// A number whose text is known.
    pub fn number(t: &str) -> (r: Json)
        ensures
            r@ == JsonModel::Number(t@),
    {
        Json::Number(owned(t))
    }

    /// An array.
    pub fn array(items: Vec<Json>) -> (r: Json)
        ensures
            r@ == JsonModel::Array(models(items@)),
    {
        proof {
            lemma_array_model(items);
        }
        Json::Array(items)
    }

    /// An array of texts.
    pub fn texts(names: &[String]) -> (r: Json)
        ensures
            r@ == text_list(names@),
    {
        let mut out: Vec<Json> = Vec::new();
        let mut i: usize = 0;
        while i < names.len()
            invariant
                i <= names@.len(),
                out@.len() == i,
                forall|k: int| 0 <= k < i ==> (#[trigger] out@[k])@ == JsonModel::Text(names@[k]@),
            decreases names@.len() - i,
        {
            out.push(Json::text(names[i].as_str()));
            i += 1;
        }
        assert(models(out@) =~= text_list(names@)->Array_0);
        Json::array(out)
    }

    /// Sets one entry of an object; what is no object stays as it is.
    pub fn set(&mut self, key: &str, value: Json)
        ensures
            final(self)@ == old(self)@.put(key@, value@),
    {
        let mut whole = Json::Null;
        std::mem::swap(&mut whole, self);
        let done = match whole {
            Json::Object(mut entries) => {
                proof {
                    lemma_object_model(entries);
                }
                let ghost had = entry_models(entries@);
                let mut i: usize = 0;
                let mut at = Rank::After;
                while i < entries.len()
                    invariant_except_break
                        i <= entries@.len(),
                        had == entry_models(entries@),
                        forall|k: int| 0 <= k < i ==> before((#[trigger] had[k]).0, key@),
                    ensures
                        i <= entries@.len(),
                        had == entry_models(entries@),
                        forall|k: int| 0 <= k < i ==> before((#[trigger] had[k]).0, key@),
                        i < entries@.len() ==> at == rank(had[i as int].0, key@) && at
                            != Rank::Before,
                    decreases entries@.len() - i,
                {
                    at = rank_of(entries[i].0.as_str(), key);
                    match at {
                        Rank::Before => {
                            i += 1;
                        },
                        _ => {
                            break;
                        },
                    }
                }
                proof {
                    lemma_slot_at(had, key@, i as int);
                    if i < had.len() {
                        lemma_rank(had[i as int].0, key@);
                    }
                }
                let replaces = i < entries.len() && match at {
                    Rank::Same => true,
                    _ => false,
                };
                if replaces {
                    entries.set(i, (owned(key), value));
                } else {
                    entries.insert(i, (owned(key), value));
                }
                proof {
                    lemma_object_model(entries);
                    assert(entry_models(entries@) =~= put_entry(had, key@, value@));
                }
                Json::Object(entries)
            },
            other => other,
        };
        *self = done;
    }

    /// The value at `key`, when this is an object that has it.
    pub fn get(&self, key: &str) -> (r: Option<&Json>)
        ensures
            match r {
                Some(j) => self@.get(key@) == Some(j@),
                None => self@.get(key@) is None,
            },
    {
        match self {
            Json::Object(entries) => {
                let ghost had = entry_models(entries@);
                proof {
                    lemma_object_model(*entries);
                }
                let mut i: usize = 0;
                while i < entries.len()
                    invariant
                        i <= entries@.len(),
                        had == entry_models(entries@),
                        self@ == JsonModel::Object(had),
                        forall|k: int| 0 <= k < i ==> (#[trigger] had[k]).0 != key@,
                    decreases entries@.len() - i,
                {
                    if same(entries[i].0.as_str(), key) {
                        proof {
                            lemma_lookup_at(had, key@, i as int);
                        }
                        return Some(&entries[i].1);
                    }
                    i += 1;
                }
                proof {
                    lemma_lookup_at(had, key@, i as int);
                }
                None
            },
            _ => None,
        }
    }

    /// The text, when this is one.
    pub fn as_text(&self) -> (r: Option<&str>)
        ensures
            match r {
                Some(t) => self@.as_text() == Some(t@),
                None => self@.as_text() is None,
            },
    {
        match self {
            Json::Text(t) => Some(t.as_str()),
            _ => None,
        }
    }

    /// The value at `key` as text.
    pub fn text_at(&self, key: &str) -> (r: Option<&str>)
        ensures
            match r {
                Some(t) => self@.text_at(key@) == Some(t@),
                None => self@.text_at(key@) is None,
            },
    {
        match self.get(key) {
            Some(v) => v.as_text(),
            None => None,
        }
    }

    /// A copy of the value at `key`, or null.
    pub fn at(&self, key: &str) -> (r: Json)
        ensures
            r@ == JsonModel::or_null(self@.get(key@)),
    {
        match self.get(key) {
            Some(v) => v.copy(),
            None => Json::Null,
        }
    }

    /// The truth value, when this is one.
    pub fn as_bool(&self) -> (r: Option<bool>)
        ensures
            r == self@.as_bool(),
    {
        match self {
            Json::Bool(b) => Some(*b),
            _ => None,
        }
    }

    /// The number as a signed integer, when it is one.
    pub fn as_i64(&self) -> (r: Option<i64>)
        ensures
            r == self@.as_i64(),
    {
        match self {
            Json::Number(t) => parse_i64(t.as_str()),
            _ => None,
        }
    }

    /// The number as an unsigned integer, when it is one.
    pub fn as_u64(&self) -> (r: Option<u64>)
        ensures
            r == self@.as_u64(),
    {
        match self {
            Json::Number(t) => parse_u64(t.as_str()),
            _ => None,
        }
    }

    /// A copy of the value.
    pub fn copy(&self) -> (r: Json)
        ensures
            r@ == self@,
        decreases self,
    {
        match self {
            Json::Null => Json::Null,
            Json::Bool(b) => Json::Bool(*b),
            Json::Number(t) => Json::Number(owned(t.as_str())),
            Json::Text(t) => Json::Text(owned(t.as_str())),
            Json::Array(items) => {
                let mut out: Vec<Json> = Vec::new();
                let mut i: usize = 0;
                while i < items.len()
                    invariant
                        i <= items@.len(),
                        out@.len() == i,
                        *self == Json::Array(*items),
                        forall|k: int| 0 <= k < i ==> (#[trigger] out@[k])@ == items@[k]@,
                    decreases items@.len() - i,
                {
                    assert(decreases_to!(self->Array_0 => self->Array_0@));
                    assert(decreases_to!(self->Array_0@ => self->Array_0@[i as int]));
                    out.push(items[i].copy());
                    i += 1;
                }
                proof {
                    lemma_array_model(*items);
                    lemma_array_model(out);
                    assert(models(out@) =~= models(items@));
                }
                Json::Array(out)
            },
            Json::Object(entries) => {
                let mut out: Vec<(String, Json)> = Vec::new();
                let mut i: usize = 0;
                while i < entries.len()
                    invariant
                        i <= entries@.len(),
                        out@.len() == i,
                        *self == Json::Object(*entries),
                        forall|k: int|
                            0 <= k < i ==> (#[trigger] out@[k]).0@ == entries@[k].0@ && out@[k].1@
                                == entries@[k].1@,
                    decreases entries@.len() - i,
                {
                    assert(decreases_to!(self->Object_0 => self->Object_0@));
                    assert(decreases_to!(self->Object_0@ => self->Object_0@[i as int]));
                    assert(decreases_to!(self->Object_0@[i as int] => self->Object_0@[i as int].1));
                    out.push((owned(entries[i].0.as_str()), entries[i].1.copy()));
                    i += 1;
                }
                proof {
                    lemma_object_model(*entries);
                    lemma_object_model(out);
                    assert(entry_models(out@) =~= entry_models(entries@));
                }
                Json::Object(out)
            },
        }
    }

    /// Whether two values are the same.
    pub fn same_as(&self, other: &Json) -> (r: bool)
        ensures
            r == (self@ == other@),
        decreases self,
    {
        match (self, other) {
            (Json::Null, Json::Null) => true,
            (Json::Bool(a), Json::Bool(b)) => *a == *b,
            (Json::Number(a), Json::Number(b)) => same(a.as_str(), b.as_str()),
            (Json::Text(a), Json::Text(b)) => same(a.as_str(), b.as_str()),
            (Json::Array(a), Json::Array(b)) => {
                proof {
                    lemma_array_model(*a);
                    lemma_array_model(*b);
                }
                if a.len() != b.len() {
                    assert(models(a@).len() != models(b@).len());
                    return false;
                }
                let mut i: usize = 0;
                while i < a.len()
                    invariant
                        i <= a@.len(),
                        a@.len() == b@.len(),
                        *self == Json::Array(*a),
                        self@ == JsonModel::Array(models(a@)),
                        other@ == JsonModel::Array(models(b@)),
                        forall|k: int| 0 <= k < i ==> models(a@)[k] == models(b@)[k],
                    decreases a@.len() - i,
                {
                    assert(decreases_to!(*self => a@[i as int]));
                    if !a[i].same_as(&b[i]) {
                        assert(models(a@)[i as int] != models(b@)[i as int]);
                        return false;
                    }
                    i += 1;
                }
                assert(models(a@) =~= models(b@));
                true
            },
            (Json::Object(a), Json::Object(b)) => {
                proof {
                    lemma_object_model(*a);
                    lemma_object_model(*b);
                }
                if a.len() != b.len() {
                    assert(entry_models(a@).len() != entry_models(b@).len());
                    return false;
                }
                let mut i: usize = 0;
                while i < a.len()
                    invariant
                        i <= a@.len(),
                        a@.len() == b@.len(),
                        *self == Json::Object(*a),
                        self@ == JsonModel::Object(entry_models(a@)),
                        other@ == JsonModel::Object(entry_models(b@)),
                        forall|k: int| 0 <= k < i ==> entry_models(a@)[k] == entry_models(b@)[k],
                    decreases a@.len() - i,
                {
                    assert(decreases_to!(*self => a@[i as int].1));
                    if !same(a[i].0.as_str(), b[i].0.as_str()) || !a[i].1.same_as(&b[i].1) {
                        assert(entry_models(a@)[i as int] != entry_models(b@)[i as int]);
                        return false;
                    }
                    i += 1;
                }
                assert(entry_models(a@) =~= entry_models(b@));
                true
            },
            _ => false,
        }
    }
}

/// Whether the entries stand in strict key order.
pub open spec fn sorted(s: Seq<(Seq<char>, JsonModel)>) -> bool {
    forall|i: int, j: int|
        0 <= i < j < s.len() ==> before((#[trigger] s[i]).0, (#[trigger] s[j]).0)
}

proof fn lemma_slot(s: Seq<(Seq<char>, JsonModel)>, key: Seq<char>)
    ensures
        0 <= slot(s, key) <= s.len(),
        forall|k: int| 0 <= k < slot(s, key) ==> before((#[trigger] s[k]).0, key),
        slot(s, key) < s.len() ==> !before(s[slot(s, key)].0, key),
    decreases s.len(),
{
    if s.len() > 0 && before(s[0].0, key) {
        lemma_slot(s.drop_first(), key);
        assert forall|k: int| 0 <= k < slot(s, key) implies before((#[trigger] s[k]).0, key) by {
            if k > 0 {
                assert(before(s.drop_first()[k - 1].0, key));
            }
        }
    }
}

proof fn lemma_lookup(s: Seq<(Seq<char>, JsonModel)>, key: Seq<char>) -> (i: int)
    ensures
        lookup(s, key) is Some ==> 0 <= i < s.len() && s[i].0 == key && lookup(s, key) == Some(
            s[i].1,
        ),
        lookup(s, key) is None ==> forall|k: int| 0 <= k < s.len() ==> (#[trigger] s[k]).0 != key,
    decreases s.len(),
{
    if s.len() == 0 {
        0
    } else if s[0].0 == key {
        0
    } else {
        let j = lemma_lookup(s.drop_first(), key);
        if lookup(s, key) is None {
            assert forall|k: int| 0 <= k < s.len() implies (#[trigger] s[k]).0 != key by {
                if k > 0 {
                    assert(s.drop_first()[k - 1].0 != key);
                }
            }
        }
        j + 1
    }
}

proof fn lemma_lookup_sorted(s: Seq<(Seq<char>, JsonModel)>, i: int)
    requires
        sorted(s),
        0 <= i < s.len(),
    ensures
        lookup(s, s[i].0) == Some(s[i].1),
{
    assert forall|k: int| 0 <= k < i implies (#[trigger] s[k]).0 != s[i].0 by {
        lemma_rank(s[k].0, s[i].0);
    }
    lemma_lookup_at(s, s[i].0, i);
}

/// In an ordered object the last key stands nowhere before.
pub proof fn lemma_last_is_new(s: Seq<(Seq<char>, JsonModel)>)
    requires
        sorted(s),
        s.len() > 0,
    ensures
        lookup(s.drop_last(), s.last().0) is None,
{
    let rest = s.drop_last();
    assert forall|k: int| 0 <= k < rest.len() implies (#[trigger] rest[k]).0 != s.last().0 by {
        assert(before(s[k].0, s[s.len() - 1].0));
        lemma_rank(s[k].0, s.last().0);
    }
    lemma_lookup_at(rest, s.last().0, rest.len() as int);
}

/// Setting an entry keeps an object's keys in order.
pub proof fn law_put_keeps_order(
    s: Seq<(Seq<char>, JsonModel)>,
    key: Seq<char>,
    value: JsonModel,
)
    requires
        sorted(s),
    ensures
        sorted(put_entry(s, key, value)),
{
    lemma_slot(s, key);
    let p = slot(s, key);
    let t = put_entry(s, key, value);
    if p < s.len() {
        lemma_rank(s[p].0, key);
        lemma_rank(key, s[p].0);
    }
    assert forall|i: int, j: int| 0 <= i < j < t.len() implies before(
        (#[trigger] t[i]).0,
        (#[trigger] t[j]).0,
    ) by {
        if p < s.len() && s[p].0 == key {
            assert(before(s[i].0, s[j].0));
        } else if i < p && j > p {
            assert(before(s[i].0, s[j - 1].0));
        } else if i == p && j > p {
            if j - 1 > p {
                assert(before(s[p].0, s[j - 1].0));
                lemma_before_trans(key, s[p].0, s[j - 1].0);
            }
        } else if j < p {
            assert(before(s[i].0, s[j].0));
        } else if i > p {
            assert(before(s[i - 1].0, s[j - 1].0));
        } else {
            assert(before(s[i].0, key));
        }
    }
}

/// What was set is what is read.
pub proof fn law_get_after_put(s: Seq<(Seq<char>, JsonModel)>, key: Seq<char>, value: JsonModel)
    ensures
        lookup(put_entry(s, key, value), key) == Some(value),
{
    lemma_slot(s, key);
    let p = slot(s, key);
    let t = put_entry(s, key, value);
    assert forall|k: int| 0 <= k < p implies (#[trigger] t[k]).0 != key by {
        assert(before(s[k].0, key));
        lemma_rank(s[k].0, key);
    }
    lemma_lookup_at(t, key, p);
}

/// Setting one entry leaves every other as it was.
pub proof fn law_put_keeps_others(
    s: Seq<(Seq<char>, JsonModel)>,
    key: Seq<char>,
    value: JsonModel,
    other: Seq<char>,
)
    requires
        other != key,
    ensures
        lookup(put_entry(s, key, value), other) == lookup(s, other),
{
    lemma_slot(s, key);
    let p = slot(s, key);
    let t = put_entry(s, key, value);
    let i = lemma_lookup(s, other);
    lemma_first(s, other);
    let f = first_at(s, other);
    if p < s.len() && s[p].0 == key {
        assert forall|k: int| 0 <= k < f implies (#[trigger] t[k]).0 != other by {
            assert(s[k].0 != other);
        }
        lemma_lookup_at(t, other, f);
        lemma_lookup_at(s, other, f);
    } else {
        let g = if f < p {
            f
        } else {
            f + 1
        };
        assert forall|k: int| 0 <= k < g implies (#[trigger] t[k]).0 != other by {
            if k < p {
                assert(s[k].0 != other);
            } else if k > p {
                assert(s[k - 1].0 != other);
            }
        }
        lemma_lookup_at(t, other, g);
        lemma_lookup_at(s, other, f);
    }
}

/// Reading an object after an entry was set: the value at its key, and what stood
/// there before at every other.
pub proof fn law_read_after_put(m: JsonModel, key: Seq<char>, value: JsonModel, other: Seq<char>)
    requires
        m is Object,
    ensures
        m.put(key, value) is Object,
        m.put(key, value).get(other) == if other == key {
            Some(value)
        } else {
            m.get(other)
        },
{
    let s = m->Object_0;
    if other == key {
        law_get_after_put(s, key, value);
    } else {
        law_put_keeps_others(s, key, value, other);
    }
}

/// As `law_read_after_put`, of every key at once.
pub proof fn lemma_put(m: JsonModel, key: Seq<char>, value: JsonModel)
    requires
        m is Object,
    ensures
        m.put(key, value) is Object,
        forall|other: Seq<char>|
            #[trigger] m.put(key, value).get(other) == if other == key {
                Some(value)
            } else {
                m.get(other)
            },
{
    law_read_after_put(m, key, value, key);
    assert forall|other: Seq<char>|
        #[trigger] m.put(key, value).get(other) == if other == key {
            Some(value)
        } else {
            m.get(other)
        } by {
        law_read_after_put(m, key, value, other);
    }
}

spec fn first_at(s: Seq<(Seq<char>, JsonModel)>, key: Seq<char>) -> int
    decreases s.len(),
{
    if s.len() == 0 || s[0].0 == key {
        0
    } else {
        1 + first_at(s.drop_first(), key)
    }
}

proof fn lemma_first(s: Seq<(Seq<char>, JsonModel)>, key: Seq<char>)
    ensures
        0 <= first_at(s, key) <= s.len(),
        forall|k: int| 0 <= k < first_at(s, key) ==> (#[trigger] s[k]).0 != key,
        first_at(s, key) < s.len() ==> s[first_at(s, key)].0 == key,
    decreases s.len(),
{
    if s.len() > 0 && s[0].0 != key {
        lemma_first(s.drop_first(), key);
        assert forall|k: int| 0 <= k < first_at(s, key) implies (#[trigger] s[k]).0 != key by {
            if k > 0 {
                assert(s.drop_first()[k - 1].0 != key);
            }
        }
    }
}

/// Objects with ordered keys are determined by what their keys hold.
pub proof fn law_ordered_objects_are_equal_by_content(
    a: Seq<(Seq<char>, JsonModel)>,
    b: Seq<(Seq<char>, JsonModel)>,
)
    requires
        sorted(a),
        sorted(b),
        forall|k: Seq<char>| #[trigger] lookup(a, k) == lookup(b, k),
    ensures
        a == b,
    decreases a.len(),
{
    if a.len() == 0 {
        if b.len() > 0 {
            lemma_lookup_sorted(b, 0);
            assert(lookup(a, b[0].0) is Some);
        }
        assert(a =~= b);
    } else if b.len() == 0 {
        lemma_lookup_sorted(a, 0);
        assert(lookup(b, a[0].0) is Some);
    } else {
        lemma_lookup_sorted(a, 0);
        lemma_lookup_sorted(b, 0);
        assert(lookup(a, b[0].0) == lookup(b, b[0].0));
        assert(lookup(a, a[0].0) == lookup(b, a[0].0));
        let i = lemma_lookup(b, a[0].0);
        let j = lemma_lookup(a, b[0].0);
        if i > 0 && j > 0 {
            assert(before(b[0].0, b[i].0));
            assert(before(a[0].0, a[j].0));
            lemma_rank(a[0].0, b[0].0);
        }
        assert(a[0].0 == b[0].0);
        let ra = a.drop_first();
        let rb = b.drop_first();
        assert forall|m: int, n: int| 0 <= m < n < ra.len() implies before(
            (#[trigger] ra[m]).0,
            (#[trigger] ra[n]).0,
        ) by {
            assert(before(a[m + 1].0, a[n + 1].0));
        }
        assert forall|m: int, n: int| 0 <= m < n < rb.len() implies before(
            (#[trigger] rb[m]).0,
            (#[trigger] rb[n]).0,
        ) by {
            assert(before(b[m + 1].0, b[n + 1].0));
        }
        assert forall|k: Seq<char>| #[trigger] lookup(ra, k) == lookup(rb, k) by {
            if k == a[0].0 {
                let x = lemma_lookup(ra, k);
                if lookup(ra, k) is Some {
                    assert(before(a[0].0, a[x + 1].0));
                    lemma_rank(a[0].0, a[x + 1].0);
                }
                let y = lemma_lookup(rb, k);
                if lookup(rb, k) is Some {
                    assert(before(b[0].0, b[y + 1].0));
                    lemma_rank(b[0].0, b[y + 1].0);
                }
            } else {
                assert(lookup(a, k) == lookup(b, k));
            }
        }
        law_ordered_objects_are_equal_by_content(ra, rb);
        assert(a =~= seq![a[0]] + ra);
        assert(b =~= seq![b[0]] + rb);
    }
}

/// The order in which two different keys are set does not show.
pub proof fn law_put_commutes(
    s: Seq<(Seq<char>, JsonModel)>,
    key: Seq<char>,
    value: JsonModel,
    other: Seq<char>,
    with: JsonModel,
)
    requires
        sorted(s),
        key != other,
    ensures
        put_entry(put_entry(s, key, value), other, with) == put_entry(
            put_entry(s, other, with),
            key,
            value,
        ),
{
    let a = put_entry(put_entry(s, key, value), other, with);
    let b = put_entry(put_entry(s, other, with), key, value);
    law_put_keeps_order(s, key, value);
    law_put_keeps_order(s, other, with);
    law_put_keeps_order(put_entry(s, key, value), other, with);
    law_put_keeps_order(put_entry(s, other, with), key, value);
    assert forall|k: Seq<char>| #[trigger] lookup(a, k) == lookup(b, k) by {
        law_get_after_put(put_entry(s, key, value), other, with);
        law_get_after_put(put_entry(s, other, with), key, value);
        law_get_after_put(s, key, value);
        law_get_after_put(s, other, with);
        law_put_keeps_others(put_entry(s, key, value), other, with, key);
        law_put_keeps_others(put_entry(s, other, with), key, value, other);
        if k != key && k != other {
            law_put_keeps_others(s, key, value, k);
            law_put_keeps_others(s, other, with, k);
            law_put_keeps_others(put_entry(s, key, value), other, with, k);
            law_put_keeps_others(put_entry(s, other, with), key, value, k);
        }
    }
    law_ordered_objects_are_equal_by_content(a, b);
}

} // verus!
