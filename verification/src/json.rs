//! JSON values, and the way between them, the values of `serde_json` and text.
use vstd::prelude::*;

use crate::text::same_text;

verus! {

/// `serde_json::Number`, carried through without being looked into.
#[verifier::external_type_specification]
#[verifier::external_body]
pub struct ExNumber(serde_json::Number);

/// `serde_json::Value`, whose content is named by [`value_content`].
#[verifier::external_type_specification]
#[verifier::external_body]
pub struct ExValue(serde_json::Value);

/// A JSON value.
#[derive(Debug, PartialEq)]
pub enum Json {
    Null,
    Bool(bool),
    /// A non-negative integer below 2^64.
    UInt(u64),
    /// A number, in the form in which it was read.
    Number(serde_json::Number),
    Str(String),
    Array(Vec<Json>),
    /// Fields in the order in which they were set; the last one of a name counts.
    Object(Vec<(String, Json)>),
}

/// What a JSON value says, with texts as character sequences and objects as maps. A number that is
/// not negative and an integer below 2^64 is a `UInt`, in whatever form it was given.
#[verifier::ext_equal]
pub enum JsonView {
    Null,
    Bool(bool),
    UInt(u64),
    Number(serde_json::Number),
    Str(Seq<char>),
    Array(Seq<JsonView>),
    Object(Map<Seq<char>, JsonView>),
}

/// What a number says.
pub open spec fn number_content(n: serde_json::Number) -> JsonView {
    match number_as_u64(n) {
        Some(u) => JsonView::UInt(u),
        None => JsonView::Number(n),
    }
}

/// What each of several JSON values says.
pub open spec fn items_view(s: Seq<Json>) -> Seq<JsonView>
    decreases s,
{
    if s.len() == 0 {
        Seq::empty()
    } else {
        items_view(s.drop_last()).push(s.last().view())
    }
}

/// The map that a list of fields stands for.
pub open spec fn fields_view(s: Seq<(String, Json)>) -> Map<Seq<char>, JsonView>
    decreases s,
{
    if s.len() == 0 {
        Map::empty()
    } else {
        fields_view(s.drop_last()).insert(s.last().0@, s.last().1.view())
    }
}

impl Json {
    pub open spec fn view(self) -> JsonView
        decreases self,
    {
        match self {
            Json::Null => JsonView::Null,
            Json::Bool(b) => JsonView::Bool(b),
            Json::UInt(n) => JsonView::UInt(n),
            Json::Number(n) => number_content(n),
            Json::Str(s) => JsonView::Str(s@),
            Json::Array(v) => JsonView::Array(items_view(v@)),
            Json::Object(v) => JsonView::Object(fields_view(v@)),
        }
    }
}

impl JsonView {
    /// The field of an object; `Null` where there is none.
    pub open spec fn field(self, name: Seq<char>) -> JsonView {
        match self {
            JsonView::Object(m) => if m.contains_key(name) {
                m[name]
            } else {
                JsonView::Null
            },
            _ => JsonView::Null,
        }
    }

    /// The item of an array; `Null` where there is none.
    pub open spec fn item(self, i: int) -> JsonView {
        match self {
            JsonView::Array(s) => if 0 <= i < s.len() {
                s[i]
            } else {
                JsonView::Null
            },
            _ => JsonView::Null,
        }
    }

    /// The text, if the value is one.
    pub open spec fn text(self) -> Option<Seq<char>> {
        match self {
            JsonView::Str(s) => Some(s),
            _ => None,
        }
    }

    /// The number, if the value is a non-negative integer below 2^64.
    pub open spec fn uint(self) -> Option<u64> {
        match self {
            JsonView::UInt(n) => Some(n),
            _ => None,
        }
    }
}

/// The object whose fields are those of `m`, with one more or with one replaced.
pub open spec fn with_field(v: JsonView, name: Seq<char>, value: JsonView) -> JsonView {
    match v {
        JsonView::Object(m) => JsonView::Object(m.insert(name, value)),
        _ => v,
    }
}

/// An object without fields.
pub open spec fn empty_object() -> JsonView {
    JsonView::Object(Map::empty())
}

pub proof fn lemma_items_view(s: Seq<Json>)
    ensures
        items_view(s).len() == s.len(),
        forall|i: int| 0 <= i < s.len() ==> #[trigger] items_view(s)[i] == s[i].view(),
    decreases s.len(),
{
    if s.len() > 0 {
        lemma_items_view(s.drop_last());
        assert forall|i: int| 0 <= i < s.len() implies #[trigger] items_view(s)[i]
            == s[i].view() by {
            if i < s.len() - 1 {
                assert(items_view(s.drop_last())[i] == s.drop_last()[i].view());
            }
        }
    }
}

pub proof fn lemma_items_push(s: Seq<Json>, j: Json)
    ensures
        items_view(s.push(j)) == items_view(s).push(j.view()),
{
    assert(s.push(j).drop_last() =~= s);
}

pub proof fn lemma_fields_push(s: Seq<(String, Json)>, f: (String, Json))
    ensures
        fields_view(s.push(f)) == fields_view(s).insert(f.0@, f.1.view()),
{
    assert(s.push(f).drop_last() =~= s);
}

proof fn lemma_field_at(s: Seq<(String, Json)>, k: int)
    requires
        0 <= k < s.len(),
        forall|j: int| k < j < s.len() ==> (#[trigger] s[j]).0@ != s[k].0@,
    ensures
        fields_view(s).contains_key(s[k].0@),
        fields_view(s)[s[k].0@] == s[k].1.view(),
    decreases s.len(),
{
    if k < s.len() - 1 {
        assert(s.last() == s[s.len() - 1]);
        assert(s.last().0@ != s[k].0@);
        assert forall|j: int| k < j < s.drop_last().len() implies (#[trigger] s.drop_last()[j]).0@
            != s.drop_last()[k].0@ by {
            assert(s.drop_last()[j] == s[j]);
        }
        lemma_field_at(s.drop_last(), k);
    }
}

proof fn lemma_field_absent(s: Seq<(String, Json)>, name: Seq<char>)
    requires
        forall|j: int| 0 <= j < s.len() ==> (#[trigger] s[j]).0@ != name,
    ensures
        !fields_view(s).contains_key(name),
    decreases s.len(),
{
    if s.len() > 0 {
        assert(s.last() == s[s.len() - 1]);
        assert forall|j: int| 0 <= j < s.drop_last().len() implies (#[trigger] s.drop_last()[j]).0@
            != name by {
            assert(s.drop_last()[j] == s[j]);
        }
        lemma_field_absent(s.drop_last(), name);
    }
}

impl Json {
    /// An object without fields.
    pub fn object() -> (r: Json)
        ensures
            r@ == empty_object(),
    {
        let fields: Vec<(String, Json)> = Vec::new();
        Json::Object(fields)
    }

    /// A text.
    pub fn str(s: &str) -> (r: Json)
        ensures
            r@ == JsonView::Str(s@),
    {
        Json::Str(s.to_owned())
    }

    /// An array of the given items.
    pub fn array(items: Vec<Json>) -> (r: Json)
        ensures
            r@ == JsonView::Array(items_view(items@)),
    {
        Json::Array(items)
    }

    /// The object with the field `name` set to `value`.
    pub fn with(self, name: &str, value: Json) -> (r: Json)
        ensures
            r@ == with_field(self@, name@, value@),
    {
        match self {
            Json::Object(fields) => {
                let mut fields = fields;
                let key = name.to_owned();
                proof {
                    lemma_fields_push(fields@, (key, value));
                }
                fields.push((key, value));
                Json::Object(fields)
            },
            other => other,
        }
    }

    /// The field of an object.
    pub fn get(&self, name: &str) -> (r: Option<&Json>)
        ensures
            match (r, self@) {
                (Some(j), JsonView::Object(m)) => m.contains_key(name@) && m[name@] == j@,
                (None, JsonView::Object(m)) => !m.contains_key(name@),
                (Some(_), _) => false,
                (None, _) => true,
            },
    {
        match self {
            Json::Object(fields) => {
                let mut i: usize = fields.len();
                while i > 0
                    invariant
                        i <= fields.len(),
                        self == Json::Object(*fields),
                        forall|j: int| i <= j < fields.len() ==> (#[trigger] fields@[j]).0@ != name@,
                    decreases i,
                {
                    i -= 1;
                    if same_text(fields[i].0.as_str(), name) {
                        proof {
                            lemma_field_at(fields@, i as int);
                        }
                        return Some(&fields[i].1);
                    }
                }
                proof {
                    lemma_field_absent(fields@, name@);
                }
                None
            },
            _ => None,
        }
    }

    /// The field of an object; `Null` where there is none.
    pub fn field(&self, name: &str) -> (r: &Json)
        ensures
            r@ == self@.field(name@),
    {
        match self.get(name) {
            Some(j) => j,
            None => &Json::Null,
        }
    }

    /// The item of an array; `Null` where there is none.
    pub fn item(&self, i: usize) -> (r: &Json)
        ensures
            r@ == self@.item(i as int),
    {
        match self {
            Json::Array(items) => {
                proof {
                    lemma_items_view(items@);
                }
                if i < items.len() {
                    &items[i]
                } else {
                    &Json::Null
                }
            },
            _ => &Json::Null,
        }
    }

    /// The text, if the value is one.
    pub fn as_str(&self) -> (r: Option<&str>)
        ensures
            match r {
                Some(s) => self@ == JsonView::Str(s@),
                None => !(self@ is Str),
            },
    {
        match self {
            Json::Str(s) => Some(s.as_str()),
            _ => None,
        }
    }

    /// The number, if the value is a non-negative integer below 2^64.
    pub fn as_u64(&self) -> (r: Option<u64>)
        ensures
            r == self@.uint(),
    {
        match self {
            Json::UInt(n) => Some(*n),
            Json::Number(n) => n.as_u64(),
            _ => None,
        }
    }

    /// The truth value, if the value is one.
    pub fn as_bool(&self) -> (r: Option<bool>)
        ensures
            match r {
                Some(b) => self@ == JsonView::Bool(b),
                None => !(self@ is Bool),
            },
    {
        match self {
            Json::Bool(b) => Some(*b),
            _ => None,
        }
    }

    /// The items, if the value is an array.
    pub fn as_array(&self) -> (r: Option<&Vec<Json>>)
        ensures
            match r {
                Some(v) => self@ == JsonView::Array(items_view(v@)),
                None => !(self@ is Array),
            },
    {
        match self {
            Json::Array(v) => Some(v),
            _ => None,
        }
    }

    /// Whether the value is an object.
    pub fn is_object(&self) -> (r: bool)
        ensures
            r == self@ is Object,
    {
        matches!(self, Json::Object(_))
    }

    /// A value that says the same.
    pub fn duplicate(&self) -> (r: Json)
        ensures
            r@ == self@,
        decreases *self,
    {
        match self {
            Json::Null => Json::Null,
            Json::Bool(b) => Json::Bool(*b),
            Json::UInt(n) => Json::UInt(*n),
            Json::Number(n) => Json::Number(n.clone()),
            Json::Str(s) => Json::Str(s.clone()),
            Json::Array(items) => {
                let mut out: Vec<Json> = Vec::new();
                let mut i: usize = 0;
                while i < items.len()
                    invariant
                        i <= items.len(),
                        *self == Json::Array(*items),
                        items_view(out@) == items_view(items@.take(i as int)),
                    decreases items.len() - i,
                {
                    assert(decreases_to!(*self => self->Array_0));
                    assert(decreases_to!(*items => items@));
                    assert(decreases_to!(items@ => items@[i as int]));
                    let copy = items[i].duplicate();
                    proof {
                        lemma_items_push(out@, copy);
                        lemma_items_push(items@.take(i as int), items@[i as int]);
                        assert(items@.take(i as int).push(items@[i as int]) =~= items@.take(i + 1));
                    }
                    out.push(copy);
                    i += 1;
                }
                assert(items@.take(i as int) =~= items@);
                Json::Array(out)
            },
            Json::Object(fields) => {
                let mut out: Vec<(String, Json)> = Vec::new();
                let mut i: usize = 0;
                while i < fields.len()
                    invariant
                        i <= fields.len(),
                        *self == Json::Object(*fields),
                        fields_view(out@) == fields_view(fields@.take(i as int)),
                    decreases fields.len() - i,
                {
                    assert(decreases_to!(*self => self->Object_0));
                    assert(decreases_to!(*fields => fields@));
                    assert(decreases_to!(fields@ => fields@[i as int]));
                    let field = (fields[i].0.clone(), fields[i].1.duplicate());
                    proof {
                        lemma_fields_push(out@, field);
                        lemma_fields_push(fields@.take(i as int), fields@[i as int]);
                        assert(fields@.take(i as int).push(fields@[i as int]) =~= fields@.take(
                            i + 1,
                        ));
                    }
                    out.push(field);
                    i += 1;
                }
                assert(fields@.take(i as int) =~= fields@);
                Json::Object(out)
            },
        }
    }
}

/// `serde_json::Number::clone`: the same number.
pub assume_specification[ <serde_json::Number as Clone>::clone ](
    n: &serde_json::Number,
) -> (r: serde_json::Number)
    ensures
        r == *n,
;

/// What `serde_json::Number::as_u64` makes of a number.
pub uninterp spec fn number_as_u64(n: serde_json::Number) -> Option<u64>;

/// `serde_json::Number::as_u64`: the number as a `u64`, where it is one.
pub assume_specification[ serde_json::Number::as_u64 ](n: &serde_json::Number) -> (r: Option<u64>)
    ensures
        r == number_as_u64(*n),
;

/// `serde_json::Number::from` for a `u64`: the number that `as_u64` gives back.
#[verifier::external_body]
fn uint_number(u: u64) -> (r: serde_json::Number)
    ensures
        number_as_u64(r) == Some(u),
{
    serde_json::Number::from(u)
}

/// The lower 32 bits of a number.
pub open spec fn low32(n: u64) -> u32 {
    (n % 0x1_0000_0000) as u32
}

/// The lower 32 bits of a number.
pub fn lower32(n: u64) -> (r: u32)
    ensures
        r == low32(n),
{
    (n % 0x1_0000_0000) as u32
}

/// What a `serde_json::Value` holds.
pub uninterp spec fn value_content(v: serde_json::Value) -> JsonView;

/// What `serde_json::from_str` makes of a text: the value, or the words of its error.
pub uninterp spec fn parsed_json(text: Seq<char>) -> Result<JsonView, Seq<char>>;

/// The compact JSON text that `serde_json::to_string` writes for a value.
pub uninterp spec fn json_text(v: JsonView) -> Seq<char>;

/// What was read, or what was said instead.
pub open spec fn reading(r: Result<Json, String>) -> Result<JsonView, Seq<char>> {
    match r {
        Ok(j) => Ok(j@),
        Err(e) => Err(e@),
    }
}

/// The outermost layer of a `serde_json::Value`.
pub(crate) enum Layer {
    Null,
    Bool(bool),
    Number(serde_json::Number),
    Str(String),
    Array(Vec<serde_json::Value>),
    Object(Vec<(String, serde_json::Value)>),
}

/// The contents of several values.
pub open spec fn contents(s: Seq<serde_json::Value>) -> Seq<JsonView> {
    s.map_values(|v: serde_json::Value| value_content(v))
}

/// The map that a list of named values stands for.
pub open spec fn named_contents(s: Seq<(String, serde_json::Value)>) -> Map<Seq<char>, JsonView>
    decreases s.len(),
{
    if s.len() == 0 {
        Map::empty()
    } else {
        named_contents(s.drop_last()).insert(s.last().0@, value_content(s.last().1))
    }
}

pub(crate) open spec fn layer_content(l: Layer) -> JsonView {
    match l {
        Layer::Null => JsonView::Null,
        Layer::Bool(b) => JsonView::Bool(b),
        Layer::Number(n) => number_content(n),
        Layer::Str(s) => JsonView::Str(s@),
        Layer::Array(items) => JsonView::Array(contents(items@)),
        Layer::Object(fields) => JsonView::Object(named_contents(fields@)),
    }
}

/// Whether no two of the named values have the same name.
pub open spec fn distinct_names(s: Seq<(String, serde_json::Value)>) -> bool {
    forall|i: int, j: int|
        0 <= i < j < s.len() ==> (#[trigger] s[i]).0@ != (#[trigger] s[j]).0@
}

/// Takes a `serde_json::Value` apart by its variants, one for one. The fields of an object come as
/// its map yields them, each name once.
#[verifier::external_body]
fn open_value(v: serde_json::Value) -> (r: Layer)
    ensures
        value_content(v) == layer_content(r),
        r matches Layer::Object(fields) ==> distinct_names(fields@),
{
    match v {
        serde_json::Value::Null => Layer::Null,
        serde_json::Value::Bool(b) => Layer::Bool(b),
        serde_json::Value::Number(n) => Layer::Number(n),
        serde_json::Value::String(s) => Layer::Str(s),
        serde_json::Value::Array(items) => Layer::Array(items),
        serde_json::Value::Object(fields) => Layer::Object(fields.into_iter().collect()),
    }
}

/// Puts a `serde_json::Value` together from a layer other than an object, one for one.
#[verifier::external_body]
fn close_value(l: Layer) -> (r: serde_json::Value)
    requires
        !(l is Object),
    ensures
        value_content(r) == layer_content(l),
{
    match l {
        Layer::Null | Layer::Object(_) => serde_json::Value::Null,
        Layer::Bool(b) => serde_json::Value::Bool(b),
        Layer::Number(n) => serde_json::Value::Number(n),
        Layer::Str(s) => serde_json::Value::String(s),
        Layer::Array(items) => serde_json::Value::Array(items),
    }
}

/// `serde_json::Map::new`: an object without fields.
#[verifier::external_body]
fn empty_value() -> (r: serde_json::Value)
    ensures
        value_content(r) == empty_object(),
{
    serde_json::Value::Object(serde_json::Map::new())
}

/// `serde_json::Map::insert`: sets one field of an object, replacing one of the same name.
#[verifier::external_body]
fn insert_value(object: &mut serde_json::Value, name: String, value: serde_json::Value)
    requires
        value_content(*old(object)) is Object,
    ensures
        value_content(*final(object)) == with_field(
            value_content(*old(object)),
            name@,
            value_content(value),
        ),
{
    if let serde_json::Value::Object(fields) = object {
        fields.insert(name, value);
    }
}

/// `serde_json::from_str`: the value that a JSON text denotes, or the words of the error. The
/// grammar it reads and the words it uses are its own.
#[verifier::external_body]
fn parse_value(text: &str) -> (r: Result<serde_json::Value, String>)
    ensures
        match r {
            Ok(v) => parsed_json(text@) == Ok::<JsonView, Seq<char>>(value_content(v)),
            Err(e) => parsed_json(text@) == Err::<JsonView, Seq<char>>(e@),
        },
{
    serde_json::from_str::<serde_json::Value>(text).map_err(|e| e.to_string())
}

/// `Display` of `serde_json::Value`: the compact JSON text of the value.
#[verifier::external_body]
fn value_text(v: &serde_json::Value) -> (r: String)
    ensures
        r@ == json_text(value_content(*v)),
{
    v.to_string()
}

proof fn lemma_named_push(
    s: Seq<(String, serde_json::Value)>,
    f: (String, serde_json::Value),
)
    ensures
        named_contents(s.push(f)) == named_contents(s).insert(f.0@, value_content(f.1)),
{
    assert(s.push(f).drop_last() =~= s);
}

proof fn lemma_named_at(s: Seq<(String, serde_json::Value)>, k: int)
    requires
        0 <= k < s.len(),
        distinct_names(s),
    ensures
        named_contents(s).dom().finite(),
        named_contents(s).contains_key(s[k].0@),
        named_contents(s)[s[k].0@] == value_content(s[k].1),
    decreases s.len(),
{
    let front = s.drop_last();
    assert forall|i: int, j: int| 0 <= i < j < front.len() implies (#[trigger] front[i]).0@ != (
    #[trigger] front[j]).0@ by {
        assert(front[i] == s[i] && front[j] == s[j]);
    }
    if k < s.len() - 1 {
        assert(s.last() == s[s.len() - 1]);
        assert(front[k] == s[k]);
        lemma_named_at(front, k);
    } else {
        lemma_named_finite(front);
    }
}

proof fn lemma_named_finite(s: Seq<(String, serde_json::Value)>)
    ensures
        named_contents(s).dom().finite(),
    decreases s.len(),
{
    if s.len() > 0 {
        lemma_named_finite(s.drop_last());
    }
}

impl Json {
    /// The value that `v` holds.
    pub fn from_value(v: serde_json::Value) -> (r: Json)
        ensures
            r@ == value_content(v),
        decreases value_content(v),
    {
        let ghost whole = value_content(v);
        match open_value(v) {
            Layer::Null => Json::Null,
            Layer::Bool(b) => Json::Bool(b),
            Layer::Number(n) => match n.as_u64() {
                Some(u) => Json::UInt(u),
                None => Json::Number(n),
            },
            Layer::Str(s) => Json::Str(s),
            Layer::Array(items) => {
                let mut out: Vec<Json> = Vec::new();
                for item in it: items
                    invariant
                        it.seq() == items@,
                        whole == value_content(v),
                        whole == JsonView::Array(contents(items@)),
                        items_view(out@) == contents(items@.take(it.index() as int)),
                {
                    let ghost i = it.index() as int;
                    proof {
                        assert(contents(items@)[i] == value_content(item));
                        assert(decreases_to!(whole => whole->Array_0));
                        assert(decreases_to!(contents(items@) => contents(items@)[i]));
                    }
                    let j = Json::from_value(item);
                    proof {
                        lemma_items_push(out@, j);
                        assert(contents(items@.take(i + 1)) =~= contents(items@.take(i)).push(j@));
                    }
                    out.push(j);
                }
                assert(items@.take(items@.len() as int) =~= items@);
                Json::Array(out)
            },
            Layer::Object(fields) => {
                let mut out: Vec<(String, Json)> = Vec::new();
                for field in it: fields
                    invariant
                        it.seq() == fields@,
                        whole == value_content(v),
                        whole == JsonView::Object(named_contents(fields@)),
                        distinct_names(fields@),
                        fields_view(out@) == named_contents(fields@.take(it.index() as int)),
                {
                    let ghost i = it.index() as int;
                    proof {
                        lemma_named_at(fields@, i);
                        assert(decreases_to!(whole => whole->Object_0));
                        vstd::map::axiom_map_index_decreases_finite(
                            named_contents(fields@),
                            field.0@,
                        );
                    }
                    let j = Json::from_value(field.1);
                    proof {
                        lemma_fields_push(out@, (field.0, j));
                        lemma_named_push(fields@.take(i), field);
                        assert(fields@.take(i).push(field) =~= fields@.take(i + 1));
                    }
                    out.push((field.0, j));
                }
                assert(fields@.take(fields@.len() as int) =~= fields@);
                Json::Object(out)
            },
        }
    }

    /// The `serde_json::Value` that holds this value.
    pub fn to_value(&self) -> (r: serde_json::Value)
        ensures
            value_content(r) == self@,
        decreases *self,
    {
        match self {
            Json::Null => close_value(Layer::Null),
            Json::Bool(b) => close_value(Layer::Bool(*b)),
            Json::UInt(n) => close_value(Layer::Number(uint_number(*n))),
            Json::Number(n) => close_value(Layer::Number(n.clone())),
            Json::Str(s) => close_value(Layer::Str(s.clone())),
            Json::Array(items) => {
                let mut out: Vec<serde_json::Value> = Vec::new();
                let mut i: usize = 0;
                while i < items.len()
                    invariant
                        i <= items.len(),
                        *self == Json::Array(*items),
                        contents(out@) == items_view(items@.take(i as int)),
                    decreases items.len() - i,
                {
                    assert(decreases_to!(*self => self->Array_0));
                    assert(decreases_to!(*items => items@));
                    assert(decreases_to!(items@ => items@[i as int]));
                    let v = items[i].to_value();
                    proof {
                        assert(contents(out@.push(v)) =~= contents(out@).push(value_content(v)));
                        lemma_items_push(items@.take(i as int), items@[i as int]);
                        assert(items@.take(i as int).push(items@[i as int]) =~= items@.take(i + 1));
                    }
                    out.push(v);
                    i += 1;
                }
                assert(items@.take(i as int) =~= items@);
                close_value(Layer::Array(out))
            },
            Json::Object(fields) => {
                let mut out = empty_value();
                let mut i: usize = 0;
                while i < fields.len()
                    invariant
                        i <= fields.len(),
                        *self == Json::Object(*fields),
                        value_content(out) == JsonView::Object(
                            fields_view(fields@.take(i as int)),
                        ),
                    decreases fields.len() - i,
                {
                    assert(decreases_to!(*self => self->Object_0));
                    assert(decreases_to!(*fields => fields@));
                    assert(decreases_to!(fields@ => fields@[i as int]));
                    let v = fields[i].1.to_value();
                    proof {
                        lemma_fields_push(fields@.take(i as int), fields@[i as int]);
                        assert(fields@.take(i as int).push(fields@[i as int]) =~= fields@.take(
                            i + 1,
                        ));
                    }
                    insert_value(&mut out, fields[i].0.clone(), v);
                    i += 1;
                }
                assert(fields@.take(i as int) =~= fields@);
                out
            },
        }
    }

    /// Reads a JSON text; where it is none, says why.
    pub fn parse(text: &str) -> (r: Result<Json, String>)
        ensures
            reading(r) == parsed_json(text@),
    {
        match parse_value(text) {
            Ok(v) => Ok(Json::from_value(v)),
            Err(e) => Err(e),
        }
    }

    /// The compact JSON text of the value.
    pub fn to_text(&self) -> (r: String)
        ensures
            r@ == json_text(self@),
    {
        value_text(&self.to_value())
    }
}

} // verus!
