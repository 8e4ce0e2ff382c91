//! JSON values, as the node's replies are read and its requests written.
use serde_json::{Number, Value};
use vstd::prelude::*;

verus! {

/// A JSON value.
#[derive(Debug)]
pub enum Json {
    Null,
    Bool(bool),
    /// An integer that is not negative.
    Unsigned(u64),
    /// A negative integer.
    Negative(i64),
    /// Any other number, as it is spelled.
    Float(String),
    Text(String),
    List(Vec<Json>),
    /// An object, its keys all different.
    Fields(Vec<(String, Json)>),
}

/// The contents of a [`Json`] value.
#[verifier::ext_equal]
pub enum JsonView {
    Null,
    Bool(bool),
    Unsigned(u64),
    Negative(i64),
    Float(Seq<char>),
    Text(Seq<char>),
    List(Seq<JsonView>),
    Fields(Seq<(Seq<char>, JsonView)>),
}

impl Json {
    /// The contents of the value.
    pub open spec fn content(self) -> JsonView
        decreases self,
    {
        match self {
            Json::Null => JsonView::Null,
            Json::Bool(b) => JsonView::Bool(b),
            Json::Unsigned(n) => JsonView::Unsigned(n),
            Json::Negative(n) => JsonView::Negative(n),
            Json::Float(spelling) => JsonView::Float(spelling@),
            Json::Text(s) => JsonView::Text(s@),
            Json::List(items) => JsonView::List(
                Seq::new(
                    items@.len(),
                    |i: int|
                        if 0 <= i < items@.len() {
                            items@[i].content()
                        } else {
                            JsonView::Null
                        },
                ),
            ),
            Json::Fields(fields) => JsonView::Fields(
                Seq::new(
                    fields@.len(),
                    |i: int|
                        if 0 <= i < fields@.len() {
                            (fields@[i].0@, fields@[i].1.content())
                        } else {
                            (Seq::empty(), JsonView::Null)
                        },
                ),
            ),
        }
    }
}

impl View for Json {
    type V = JsonView;

    open spec fn view(&self) -> JsonView {
        self.content()
    }
}

/// The contents of a reply: the parsed body, or the text of the failure.
pub open spec fn reply_view(reply: Result<Json, String>) -> Result<JsonView, Seq<char>> {
    match reply {
        Ok(body) => Ok(body@),
        Err(e) => Err(e@),
    }
}

/// The value of the first field with this key.
pub open spec fn lookup(fields: Seq<(Seq<char>, JsonView)>, key: Seq<char>) -> Option<JsonView>
    decreases fields.len(),
{
    if fields.len() == 0 {
        None
    } else if fields[0].0 == key {
        Some(fields[0].1)
    } else {
        lookup(fields.drop_first(), key)
    }
}

impl JsonView {
    /// The value of a field, `None` where there is no such field or no object.
    pub open spec fn get(self, key: Seq<char>) -> Option<JsonView> {
        match self {
            JsonView::Fields(fields) => lookup(fields, key),
            _ => None,
        }
    }

    /// The value of a field, null where there is none.
    pub open spec fn at(self, key: Seq<char>) -> JsonView {
        match self.get(key) {
            Some(v) => v,
            None => JsonView::Null,
        }
    }

    /// An item of a list, null where there is none.
    pub open spec fn nth(self, i: int) -> JsonView {
        match self {
            JsonView::List(items) => if 0 <= i < items.len() {
                items[i]
            } else {
                JsonView::Null
            },
            _ => JsonView::Null,
        }
    }

    /// The text, if it is one.
    pub open spec fn as_text(self) -> Option<Seq<char>> {
        match self {
            JsonView::Text(s) => Some(s),
            _ => None,
        }
    }

    /// The number, if it is an integer that fits.
    pub open spec fn as_signed(self) -> Option<i64> {
        match self {
            JsonView::Unsigned(n) => if n <= i64::MAX {
                Some(n as i64)
            } else {
                None
            },
            JsonView::Negative(n) => Some(n),
            _ => None,
        }
    }

    /// The number, if it is an integer that is not negative.
    pub open spec fn as_unsigned(self) -> Option<u64> {
        match self {
            JsonView::Unsigned(n) => Some(n),
            _ => None,
        }
    }
}

impl Json {
    /// The value of a field, `None` where there is no such field or no object.
    pub fn get(&self, key: &str) -> (r: Option<&Json>)
        ensures
            match r {
                Some(v) => self@.get(key@) == Some(v@),
                None => self@.get(key@) is None,
            },
    {
        match self {
            Json::Fields(fields) => {
                let ghost all = self@->Fields_0;
                let wanted = key.to_owned();
                let mut i: usize = 0;
                assert(all.skip(0) =~= all);
                while i < fields.len()
                    invariant
                        i <= fields@.len(),
                        wanted@ == key@,
                        self == Json::Fields(*fields),
                        self@ == JsonView::Fields(all),
                        all.len() == fields@.len(),
                        lookup(all, key@) == lookup(all.skip(i as int), key@),
                    decreases fields@.len() - i,
                {
                    let (name, value) = &fields[i];
                    assert(all[i as int] == (name@, value@));
                    if *name == wanted {
                        return Some(value);
                    }
                    assert(all.skip(i as int).drop_first() =~= all.skip(i + 1));
                    i += 1;
                }
                None
            },
            _ => None,
        }
    }

    /// An empty object.
    pub fn object() -> (r: Json)
        ensures
            r@ == JsonView::Fields(Seq::empty()),
    {
        let r = Json::Fields(Vec::new());
        assert(r@->Fields_0 =~= Seq::<(Seq<char>, JsonView)>::empty());
        r
    }

    /// An empty list.
    pub fn list() -> (r: Json)
        ensures
            r@ == JsonView::List(Seq::empty()),
    {
        let r = Json::List(Vec::new());
        assert(r@->List_0 =~= Seq::<JsonView>::empty());
        r
    }

    /// The text as a JSON value.
    pub fn text(s: &str) -> (r: Json)
        ensures
            r@ == JsonView::Text(s@),
    {
        Json::Text(s.to_owned())
    }

    /// The object with one more field at its end; any other value as it is.
    pub fn field(self, key: &str, value: Json) -> (r: Json)
        ensures
            r@ == (match self@ {
                JsonView::Fields(fields) => JsonView::Fields(fields.push((key@, value@))),
                other => other,
            }),
    {
        match self {
            Json::Fields(mut fields) => {
                let ghost before = Json::Fields(fields)@->Fields_0;
                fields.push((key.to_owned(), value));
                let r = Json::Fields(fields);
                assert(r@->Fields_0 =~= before.push((key@, value@)));
                r
            },
            other => other,
        }
    }

    /// The list with one more item at its end; any other value as it is.
    pub fn and(self, value: Json) -> (r: Json)
        ensures
            r@ == (match self@ {
                JsonView::List(items) => JsonView::List(items.push(value@)),
                other => other,
            }),
    {
        match self {
            Json::List(mut items) => {
                let ghost before = Json::List(items)@->List_0;
                items.push(value);
                let r = Json::List(items);
                assert(r@->List_0 =~= before.push(value@));
                r
            },
            other => other,
        }
    }

    /// An item of a list, `None` where there is no such item or no list.
    pub fn item(&self, i: usize) -> (r: Option<&Json>)
        ensures
            match r {
                Some(v) => v@ == self@.nth(i as int),
                None => self@.nth(i as int) is Null,
            },
    {
        match self {
            Json::List(items) => if i < items.len() {
                Some(&items[i])
            } else {
                None
            },
            _ => None,
        }
    }

    pub fn is_null(&self) -> (r: bool)
        ensures
            r == (self@ is Null),
    {
        match self {
            Json::Null => true,
            _ => false,
        }
    }

    /// The text, if it is one.
    pub fn as_str(&self) -> (r: Option<&str>)
        ensures
            match r {
                Some(s) => self@.as_text() == Some(s@),
                None => self@.as_text() is None,
            },
    {
        match self {
            Json::Text(s) => Some(s.as_str()),
            _ => None,
        }
    }

    /// The number, if it is an integer that fits.
    pub fn as_i64(&self) -> (r: Option<i64>)
        ensures
            r == self@.as_signed(),
    {
        match self {
            Json::Unsigned(n) => if *n <= i64::MAX as u64 {
                Some(*n as i64)
            } else {
                None
            },
            Json::Negative(n) => Some(*n),
            _ => None,
        }
    }

    /// The number, if it is an integer that is not negative.
    pub fn as_u64(&self) -> (r: Option<u64>)
        ensures
            r == self@.as_unsigned(),
    {
        match self {
            Json::Unsigned(n) => Some(*n),
            _ => None,
        }
    }
}

/// The JSON value of `serde_json`.
#[verifier::external_type_specification]
#[verifier::external_body]
pub struct ExValue(serde_json::Value);

/// The value as `serde_json` holds it, variant by variant; a number that is spelled wrongly comes
/// to null. Nothing is claimed of it.
#[verifier::external_body]
fn to_value(json: &Json) -> serde_json::Value {
    match json {
        Json::Null => Value::Null,
        Json::Bool(b) => Value::from(*b),
        Json::Unsigned(n) => Value::from(*n),
        Json::Negative(n) => Value::from(*n),
        Json::Float(s) => Value::from(s.parse().ok().and_then(Number::from_f64)),
        Json::Text(s) => Value::from(s.as_str()),
        Json::List(items) => items.iter().map(to_value).collect(),
        Json::Fields(fields) => fields.iter().map(|(k, v)| (k.as_str(), to_value(v))).collect(),
    }
}

/// The compact JSON text of a value.
pub uninterp spec fn json_text(value: JsonView) -> Seq<char>;

/// `Display` of `serde_json::Value`, which writes compact JSON and never fails on a value. The
/// text depends on the value alone.
#[verifier::external_body]
fn write_compact(json: &Json) -> (s: String)
    ensures
        s@ == json_text(json@),
{
    to_value(json).to_string()
}

impl Json {
    /// The compact JSON text of the value.
    pub fn to_text(&self) -> (s: String)
        ensures
            s@ == json_text(self@),
    {
        write_compact(self)
    }
}

/// A field is found under its key: the first one with it, where there are several. A key that no
/// field has finds nothing, and in what is no object nothing is found.
pub proof fn law_fields_are_found_by_key(
    fields: Seq<(Seq<char>, JsonView)>,
    key: Seq<char>,
    i: int,
    other: JsonView,
)
    ensures
        0 <= i < fields.len() && fields[i].0 == key && (forall|j: int|
            0 <= j < i ==> (#[trigger] fields[j]).0 != key) ==> JsonView::Fields(fields).get(key)
            == Some(fields[i].1) && JsonView::Fields(fields).at(key) == fields[i].1,
        (forall|j: int| 0 <= j < fields.len() ==> (#[trigger] fields[j]).0 != key)
            ==> JsonView::Fields(fields).get(key) is None && JsonView::Fields(fields).at(key)
            == JsonView::Null,
        !(other is Fields) ==> other.get(key) is None && other.at(key) == JsonView::Null,
    decreases fields.len(),
{
    if fields.len() > 0 {
        let rest = fields.drop_first();
        law_fields_are_found_by_key(rest, key, i - 1, other);
        assert forall|j: int| 0 <= j < rest.len() implies #[trigger] rest[j] == fields[j + 1] by {}
        if 0 < i < fields.len() && fields[i].0 == key && (forall|j: int|
            0 <= j < i ==> (#[trigger] fields[j]).0 != key) {
            assert(fields[0].0 != key);
            assert(rest[i - 1] == fields[i]);
        }
        if forall|j: int| 0 <= j < fields.len() ==> (#[trigger] fields[j]).0 != key {
            assert(fields[0].0 != key);
        }
    }
}

/// What a value is read as: an item by its place in a list, a text as itself, an integer as itself
/// where it fits; and anything else as nothing.
pub proof fn law_values_are_read_as_they_are(
    items: Seq<JsonView>,
    i: int,
    s: Seq<char>,
    n: u64,
    v: i64,
    other: JsonView,
)
    ensures
        0 <= i < items.len() ==> JsonView::List(items).nth(i) == items[i],
        !(0 <= i < items.len()) ==> JsonView::List(items).nth(i) == JsonView::Null,
        !(other is List) ==> other.nth(i) == JsonView::Null,
        JsonView::Text(s).as_text() == Some(s),
        !(other is Text) ==> other.as_text() is None,
        JsonView::Unsigned(n).as_unsigned() == Some(n),
        !(other is Unsigned) ==> other.as_unsigned() is None,
        JsonView::Negative(v).as_signed() == Some(v),
        JsonView::Unsigned(n).as_signed() matches Some(m) ==> m == n,
        JsonView::Unsigned(n).as_signed() is Some <==> n <= 0x7fff_ffff_ffff_ffff,
        !(other is Unsigned) && !(other is Negative) ==> other.as_signed() is None,
{
}

/// A value's contents are what it holds, at every depth: scalars and texts as they are, the items
/// of a list and the fields of an object in their order, none left out.
pub proof fn law_contents_are_what_is_held(value: Json, i: int)
    ensures
        value is Null <==> value@ is Null,
        value matches Json::Bool(b) ==> value@ == JsonView::Bool(b),
        value matches Json::Unsigned(n) ==> value@ == JsonView::Unsigned(n),
        value matches Json::Negative(n) ==> value@ == JsonView::Negative(n),
        value matches Json::Float(spelling) ==> value@ == JsonView::Float(spelling@),
        value matches Json::Text(s) ==> value@ == JsonView::Text(s@),
        value matches Json::List(items) ==> value@ is List && value@->List_0.len() == items@.len()
            && (0 <= i < items@.len() ==> value@->List_0[i] == items@[i]@),
        value matches Json::Fields(fields) ==> value@ is Fields && value@->Fields_0.len()
            == fields@.len() && (0 <= i < fields@.len() ==> value@->Fields_0[i].0 == fields@[i].0@
            && value@->Fields_0[i].1 == fields@[i].1@),
{
}

/// A reply is its body where there is one, and the text of the failure where there is none.
pub proof fn law_replies_are_bodies_or_failures(reply: Result<Json, String>)
    ensures
        reply matches Ok(body) ==> reply_view(reply) == Ok::<JsonView, Seq<char>>(body@),
        reply matches Err(e) ==> reply_view(reply) == Err::<JsonView, Seq<char>>(e@),
{
}

} // verus!
