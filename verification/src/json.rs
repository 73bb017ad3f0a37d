//! JSON values: the model, the accessors and the ways to build one.

use vstd::prelude::*;

use crate::text::same_text;

verus! {

/// A named value inside a JSON object.
#[derive(Debug, PartialEq, Eq)]
pub struct Field {
    pub name: String,
    pub value: Json,
}

/// A JSON value.
///
/// Where an object names a field twice, the later one counts.
#[derive(Debug, PartialEq, Eq)]
pub enum Json {
    Null,
    Bool(bool),
    /// An integer from zero up.
    Unsigned(u64),
    /// An integer with a sign. From zero up it is the same number as an
    /// unsigned one.
    Signed(i64),
    /// A number with a fraction or an exponent, as it is written. No operation
    /// here looks inside.
    Float(String),
    Text(String),
    Array(Vec<Json>),
    Object(Vec<Field>),
}

/// The model of a JSON value.
#[verifier::ext_equal]
pub ghost enum JsonView {
    Null,
    Bool(bool),
    Unsigned(u64),
    Signed(i64),
    Float(Seq<char>),
    Text(Seq<char>),
    Array(Seq<JsonView>),
    Object(Seq<(Seq<char>, JsonView)>),
}

/// The position of the field that counts for `key`, or -1 where there is none.
pub open spec fn position_of(fields: Seq<(Seq<char>, JsonView)>, key: Seq<char>) -> int
    decreases fields.len(),
{
    if fields.len() == 0 {
        -1
    } else if fields.last().0 == key {
        fields.len() - 1
    } else {
        position_of(fields.drop_last(), key)
    }
}

/// The fields with `key` set to `value`: in place where the field exists, at
/// the end where it does not.
pub open spec fn with_field(
    fields: Seq<(Seq<char>, JsonView)>,
    key: Seq<char>,
    value: JsonView,
) -> Seq<(Seq<char>, JsonView)> {
    let at = position_of(fields, key);
    if at < 0 {
        fields.push((key, value))
    } else {
        fields.update(at, (key, value))
    }
}

/// The object without fields.
pub open spec fn object() -> JsonView {
    JsonView::Object(Seq::empty())
}

impl JsonView {
    /// The object with one more field, at the end.
    pub open spec fn entry(self, key: Seq<char>, value: JsonView) -> JsonView {
        JsonView::Object(self->Object_0.push((key, value)))
    }

    /// The field `key` of an object. Other values have no fields.
    pub open spec fn field(self, key: Seq<char>) -> Option<JsonView> {
        match self {
            JsonView::Object(fields) => {
                let at = position_of(fields, key);
                if at < 0 {
                    None
                } else {
                    Some(fields[at].1)
                }
            },
            _ => None,
        }
    }

    /// The characters of a string.
    pub open spec fn text(self) -> Option<Seq<char>> {
        match self {
            JsonView::Text(s) => Some(s),
            _ => None,
        }
    }

    /// The items of an array.
    pub open spec fn items(self) -> Option<Seq<JsonView>> {
        match self {
            JsonView::Array(items) => Some(items),
            _ => None,
        }
    }

    /// The value of an integer from zero up.
    pub open spec fn unsigned(self) -> Option<u64> {
        match self {
            JsonView::Unsigned(n) => Some(n),
            JsonView::Signed(n) => if n >= 0 {
                Some(n as u64)
            } else {
                None
            },
            _ => None,
        }
    }

    /// The value of a boolean.
    pub open spec fn boolean(self) -> Option<bool> {
        match self {
            JsonView::Bool(b) => Some(b),
            _ => None,
        }
    }

    /// The string in the field `key`.
    pub open spec fn text_at(self, key: Seq<char>) -> Option<Seq<char>> {
        match self.field(key) {
            Some(value) => value.text(),
            None => None,
        }
    }

    /// The items of the array in the field `key`.
    pub open spec fn items_at(self, key: Seq<char>) -> Option<Seq<JsonView>> {
        match self.field(key) {
            Some(value) => value.items(),
            None => None,
        }
    }

    /// The integer from zero up in the field `key`.
    pub open spec fn unsigned_at(self, key: Seq<char>) -> Option<u64> {
        match self.field(key) {
            Some(value) => value.unsigned(),
            None => None,
        }
    }

    /// The value with the field `key` set. A null becomes an object first.
    pub open spec fn with(self, key: Seq<char>, value: JsonView) -> JsonView {
        match self {
            JsonView::Object(fields) => JsonView::Object(with_field(fields, key, value)),
            _ => object().entry(key, value),
        }
    }

    /// Whether a field can be set: objects and null take one.
    pub open spec fn takes_fields(self) -> bool {
        self is Object || self is Null
    }

    /// An integer.
    pub open spec fn integer(n: int) -> JsonView {
        if n < 0 {
            JsonView::Signed(n as i64)
        } else {
            JsonView::Unsigned(n as u64)
        }
    }
}

impl Json {
    /// What the value is.
    pub open spec fn model(&self) -> JsonView
        decreases self,
    {
        match self {
            Json::Null => JsonView::Null,
            Json::Bool(b) => JsonView::Bool(*b),
            Json::Unsigned(n) => JsonView::Unsigned(*n),
            Json::Signed(n) => JsonView::Signed(*n),
            Json::Float(text) => JsonView::Float(text@),
            Json::Text(s) => JsonView::Text(s@),
            Json::Array(items) => JsonView::Array(
                Seq::new(
                    items@.len(),
                    |i: int|
                        if 0 <= i < items@.len() {
                            items@[i].model()
                        } else {
                            JsonView::Null
                        },
                ),
            ),
            Json::Object(fields) => JsonView::Object(
                Seq::new(
                    fields@.len(),
                    |i: int|
                        if 0 <= i < fields@.len() {
                            (fields@[i].name@, fields@[i].value.model())
                        } else {
                            (Seq::empty(), JsonView::Null)
                        },
                ),
            ),
        }
    }
}

impl View for Json {
    type V = JsonView;

    open spec fn view(&self) -> JsonView {
        self.model()
    }
}

/// The model of a value that may be missing.
pub open spec fn model_if_any(json: Option<Json>) -> Option<JsonView> {
    match json {
        Some(json) => Some(json@),
        None => None,
    }
}

/// The model of a borrowed value that may be missing.
pub open spec fn model_if_lent(json: Option<&Json>) -> Option<JsonView> {
    match json {
        Some(json) => Some(json@),
        None => None,
    }
}

/// The models of a list of values.
pub open spec fn models(list: Seq<Json>) -> Seq<JsonView> {
    Seq::new(list.len(), |i: int| list[i]@)
}

/// The models of a list of fields.
pub open spec fn field_models(list: Seq<Field>) -> Seq<(Seq<char>, JsonView)> {
    Seq::new(list.len(), |i: int| (list[i].name@, list[i].value@))
}

/// The model of an array is made of the models of its items.
pub(crate) proof fn lemma_array_model(items: Vec<Json>)
    ensures
        Json::Array(items)@ == JsonView::Array(models(items@)),
{
    assert(Json::Array(items)@->Array_0 == models(items@));
}

/// The model of an object is made of the models of its fields.
pub(crate) proof fn lemma_object_model(fields: Vec<Field>)
    ensures
        Json::Object(fields)@ == JsonView::Object(field_models(fields@)),
{
    assert(Json::Object(fields)@->Object_0 == field_models(fields@));
}

/// The position of a key lies among the fields and holds that key.
pub(crate) proof fn lemma_position_of(fields: Seq<(Seq<char>, JsonView)>, key: Seq<char>)
    ensures
        -1 <= position_of(fields, key) < fields.len(),
        position_of(fields, key) >= 0 ==> fields[position_of(fields, key)].0 == key,
        forall|i: int|
            position_of(fields, key) < i < fields.len() ==> (#[trigger] fields[i]).0 != key,
    decreases fields.len(),
{
    if fields.len() > 0 && fields.last().0 != key {
        let before = fields.drop_last();
        lemma_position_of(before, key);
        assert forall|i: int| position_of(fields, key) < i < fields.len() implies (
        #[trigger] fields[i]).0 != key by {
            if i < before.len() {
                assert(before[i] == fields[i]);
            }
        }
    }
}

/// The last position that holds a key is the position of that key.
pub(crate) proof fn lemma_is_position_of(
    fields: Seq<(Seq<char>, JsonView)>,
    key: Seq<char>,
    at: int,
)
    requires
        -1 <= at < fields.len(),
        at >= 0 ==> fields[at].0 == key,
        forall|i: int| at < i < fields.len() ==> (#[trigger] fields[i]).0 != key,
    ensures
        position_of(fields, key) == at,
{
    lemma_position_of(fields, key);
}

impl Json {
    /// A string.
    pub fn text(s: &str) -> (json: Json)
        ensures
            json@ == JsonView::Text(s@),
    {
        Json::Text(s.to_owned())
    }

    /// An integer.
    pub fn integer(n: i64) -> (json: Json)
        ensures
            json@ == JsonView::integer(n as int),
    {
        if n < 0 {
            Json::Signed(n)
        } else {
            Json::Unsigned(n as u64)
        }
    }

    /// An array.
    pub fn array(items: Vec<Json>) -> (json: Json)
        ensures
            json@ == JsonView::Array(models(items@)),
    {
        proof {
            lemma_array_model(items);
        }
        Json::Array(items)
    }

    /// A value of its own with the same model.
    pub fn copy(&self) -> (json: Json)
        ensures
            json@ == self@,
        decreases self,
    {
        match self {
            Json::Null => Json::Null,
            Json::Bool(b) => Json::Bool(*b),
            Json::Unsigned(n) => Json::Unsigned(*n),
            Json::Signed(n) => Json::Signed(*n),
            Json::Float(text) => Json::Float(text.clone()),
            Json::Text(s) => Json::Text(s.clone()),
            Json::Array(items) => {
                let mut copies: Vec<Json> = Vec::new();
                for i in 0..items.len()
                    invariant
                        copies@.len() == i,
                        forall|j: int| 0 <= j < i ==> (#[trigger] copies@[j])@ == items@[j]@,
                        decreases_to!(self => items@),
                {
                    copies.push(items[i].copy());
                }
                proof {
                    lemma_array_model(*items);
                    assert(models(copies@) == models(items@));
                }
                Json::array(copies)
            },
            Json::Object(fields) => {
                let mut copies: Vec<Field> = Vec::new();
                for i in 0..fields.len()
                    invariant
                        copies@.len() == i,
                        forall|j: int|
                            0 <= j < i ==> (#[trigger] copies@[j]).name@ == fields@[j].name@
                                && copies@[j].value@ == fields@[j].value@,
                        decreases_to!(self => fields@),
                {
                    copies.push(
                        Field { name: fields[i].name.clone(), value: fields[i].value.copy() },
                    );
                }
                proof {
                    lemma_object_model(*fields);
                    lemma_object_model(copies);
                    assert(field_models(copies@) == field_models(fields@));
                }
                Json::Object(copies)
            },
        }
    }

    /// The field `key` of an object.
    pub fn get(&self, key: &str) -> (value: Option<&Json>)
        ensures
            match value {
                Some(value) => self@.field(key@) == Some(value@),
                None => self@.field(key@) is None,
            },
    {
        match self {
            Json::Object(fields) => {
                proof {
                    lemma_object_model(*fields);
                }
                let mut i: usize = fields.len();
                while i > 0
                    invariant
                        i <= fields.len(),
                        self@ == JsonView::Object(field_models(fields@)),
                        forall|j: int| i <= j < fields@.len() ==> (#[trigger] fields@[j]).name@ != key@,
                    decreases i,
                {
                    i = i - 1;
                    if same_text(fields[i].name.as_str(), key) {
                        proof {
                            lemma_is_position_of(field_models(fields@), key@, i as int);
                        }
                        return Some(&fields[i].value);
                    }
                }
                proof {
                    lemma_is_position_of(field_models(fields@), key@, -1);
                }
                None
            },
            _ => None,
        }
    }

    /// The characters of a string.
    pub fn as_str(&self) -> (s: Option<&str>)
        ensures
            match s {
                Some(s) => self@.text() == Some(s@),
                None => self@.text() is None,
            },
    {
        match self {
            Json::Text(s) => Some(s.as_str()),
            _ => None,
        }
    }

    /// The items of an array.
    pub fn as_array(&self) -> (items: Option<&Vec<Json>>)
        ensures
            match items {
                Some(items) => self@.items() == Some(models(items@)),
                None => self@.items() is None,
            },
    {
        match self {
            Json::Array(items) => {
                proof {
                    lemma_array_model(*items);
                }
                Some(items)
            },
            _ => None,
        }
    }

    /// The value of an integer from zero up.
    pub fn as_u64(&self) -> (n: Option<u64>)
        ensures
            n == self@.unsigned(),
    {
        match self {
            Json::Unsigned(n) => Some(*n),
            Json::Signed(n) => if *n >= 0 {
                Some(*n as u64)
            } else {
                None
            },
            _ => None,
        }
    }

    /// The value of a boolean.
    pub fn as_bool(&self) -> (b: Option<bool>)
        ensures
            b == self@.boolean(),
    {
        match self {
            Json::Bool(b) => Some(*b),
            _ => None,
        }
    }

    /// The string in the field `key`.
    pub fn text_at(&self, key: &str) -> (s: Option<&str>)
        ensures
            match s {
                Some(s) => self@.text_at(key@) == Some(s@),
                None => self@.text_at(key@) is None,
            },
    {
        match self.get(key) {
            Some(value) => value.as_str(),
            None => None,
        }
    }

    /// The items of the array in the field `key`.
    pub fn items_at(&self, key: &str) -> (items: Option<&Vec<Json>>)
        ensures
            match items {
                Some(items) => self@.items_at(key@) == Some(models(items@)),
                None => self@.items_at(key@) is None,
            },
    {
        match self.get(key) {
            Some(value) => value.as_array(),
            None => None,
        }
    }

    /// The integer from zero up in the field `key`.
    pub fn unsigned_at(&self, key: &str) -> (n: Option<u64>)
        ensures
            n == self@.unsigned_at(key@),
    {
        match self.get(key) {
            Some(value) => value.as_u64(),
            None => None,
        }
    }

    /// The value with the field `key` set. A null becomes an object first.
    pub fn with(self, key: &str, value: Json) -> (json: Json)
        requires
            self@.takes_fields(),
        ensures
            json@ == self@.with(key@, value@),
    {
        match self {
            Json::Object(mut fields) => {
                let ghost before = field_models(fields@);
                proof {
                    lemma_object_model(fields);
                }
                let mut i: usize = fields.len();
                while i > 0
                    invariant
                        i <= fields.len(),
                        forall|j: int| i <= j < fields@.len() ==> (#[trigger] fields@[j]).name@ != key@,
                        before == field_models(fields@),
                        self@ == JsonView::Object(before),
                    decreases i,
                {
                    i = i - 1;
                    if same_text(fields[i].name.as_str(), key) {
                        fields.set(i, Field { name: key.to_owned(), value });
                        proof {
                            lemma_is_position_of(before, key@, i as int);
                            lemma_object_model(fields);
                            assert(field_models(fields@) == before.update(i as int, (key@, value@)));
                        }
                        return Json::Object(fields);
                    }
                }
                fields.push(Field { name: key.to_owned(), value });
                proof {
                    lemma_is_position_of(before, key@, -1);
                    lemma_object_model(fields);
                    assert(field_models(fields@) == before.push((key@, value@)));
                }
                Json::Object(fields)
            },
            _ => ObjectBuilder::new().field(key, value).build(),
        }
    }
}

/// Copies of a list of values.
pub fn copy_all(items: &Vec<Json>) -> (copies: Vec<Json>)
    ensures
        models(copies@) == models(items@),
{
    let mut copies: Vec<Json> = Vec::new();
    for i in 0..items.len()
        invariant
            models(copies@) == models(items@).take(i as int),
    {
        let ghost before = models(copies@);
        let copy = items[i].copy();
        copies.push(copy);
        assert(models(copies@) == before.push(copy@));
        assert(models(items@).take(i + 1) == models(items@).take(i as int).push(items@[i as int]@));
    }
    assert(models(items@).take(items@.len() as int) == models(items@));
    copies
}

/// An object under construction: the fields so far, in order.
pub struct ObjectBuilder {
    fields: Vec<Field>,
}

impl View for ObjectBuilder {
    type V = JsonView;

    closed spec fn view(&self) -> JsonView {
        JsonView::Object(field_models(self.fields@))
    }
}

impl ObjectBuilder {
    /// An object without fields.
    pub fn new() -> (builder: ObjectBuilder)
        ensures
            builder@ == object(),
    {
        let builder = ObjectBuilder { fields: Vec::new() };
        assert(field_models(builder.fields@) == Seq::<(Seq<char>, JsonView)>::empty());
        builder
    }

    /// Adds a field at the end.
    pub fn field(self, name: &str, value: Json) -> (builder: ObjectBuilder)
        ensures
            builder@ == self@.entry(name@, value@),
    {
        let mut fields = self.fields;
        fields.push(Field { name: name.to_owned(), value });
        assert(field_models(fields@) == field_models(self.fields@).push((name@, value@)));
        ObjectBuilder { fields }
    }

    /// The object.
    pub fn build(self) -> (json: Json)
        ensures
            json@ == self@,
    {
        proof {
            lemma_object_model(self.fields);
        }
        Json::Object(self.fields)
    }
}

/// A field just added counts; the others count as before.
pub(crate) proof fn lemma_entry_field(json: JsonView, key: Seq<char>, value: JsonView, other: Seq<char>)
    requires
        json is Object,
    ensures
        json.entry(key, value).field(other) == if other == key {
            Some(value)
        } else {
            json.field(other)
        },
{
    let fields = json->Object_0;
    let longer = fields.push((key, value));
    assert(longer.drop_last() == fields);
    lemma_position_of(fields, other);
}

/// A field just set counts; the others count as before.
pub(crate) proof fn lemma_with_field(json: JsonView, key: Seq<char>, value: JsonView, other: Seq<char>)
    requires
        json.takes_fields(),
    ensures
        json.with(key, value) is Object,
        json.with(key, value).field(other) == if other == key {
            Some(value)
        } else {
            json.field(other)
        },
{
    match json {
        JsonView::Object(fields) => {
            let at = position_of(fields, key);
            lemma_position_of(fields, key);
            if at < 0 {
                lemma_entry_field(json, key, value, other);
            } else {
                let changed = fields.update(at, (key, value));
                lemma_position_of(fields, other);
                let there = position_of(fields, other);
                assert(forall|i: int| 0 <= i < fields.len() ==> (#[trigger] changed[i]).0 == fields[i].0);
                lemma_is_position_of(changed, other, there);
            }
        },
        _ => {
            lemma_entry_field(object(), key, value, other);
        },
    }
}

}
