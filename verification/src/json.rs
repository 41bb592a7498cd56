//! JSON values as the library reads and builds them.

use crate::text::same_text;
use vstd::prelude::*;
use vstd::string::*;

verus! {

/// A JSON number: a non-negative integer, a negative one, or the text of any
/// other number.
#[derive(Debug)]
pub enum JsonNumber {
    Unsigned(u64),
    Negative(i64),
    Other(String),
}

/// A JSON value. The members of an object keep the order in which they stand.
#[derive(Debug)]
pub enum Json {
    Null,
    Bool(bool),
    Number(JsonNumber),
    Text(String),
    Array(Vec<Json>),
    Object(Vec<(String, Json)>),
}

/// The mathematical value of a JSON number.
pub enum NumberView {
    Unsigned(u64),
    Negative(i64),
    Other(Seq<char>),
}

/// The mathematical value of a JSON value.
pub enum JsonView {
    Null,
    Bool(bool),
    Number(NumberView),
    Text(Seq<char>),
    Array(Seq<JsonView>),
    Object(Seq<(Seq<char>, JsonView)>),
}

impl View for JsonNumber {
    type V = NumberView;

    open spec fn view(&self) -> NumberView {
        match self {
            JsonNumber::Unsigned(n) => NumberView::Unsigned(*n),
            JsonNumber::Negative(n) => NumberView::Negative(*n),
            JsonNumber::Other(text) => NumberView::Other(text@),
        }
    }
}

pub open spec fn json_view(value: Json) -> JsonView
    decreases value,
{
    match value {
        Json::Null => JsonView::Null,
        Json::Bool(b) => JsonView::Bool(b),
        Json::Number(n) => JsonView::Number(n@),
        Json::Text(text) => JsonView::Text(text@),
        Json::Array(items) => JsonView::Array(
            Seq::new(
                items@.len(),
                |i: int| if 0 <= i < items@.len() { json_view(items@[i]) } else { JsonView::Null },
            ),
        ),
        Json::Object(members) => JsonView::Object(
            Seq::new(
                members@.len(),
                |i: int|
                    if 0 <= i < members@.len() {
                        (members@[i].0@, json_view(members@[i].1))
                    } else {
                        (Seq::empty(), JsonView::Null)
                    },
            ),
        ),
    }
}

impl View for Json {
    type V = JsonView;

    open spec fn view(&self) -> JsonView {
        json_view(*self)
    }
}

/// A number with zero written in one way: of the numbers that are no integers,
/// `-0.0` and `0.0` are the only two texts of one value.
pub open spec fn plain_number(number: NumberView) -> NumberView {
    if number == NumberView::Other("-0.0"@) {
        NumberView::Other("0.0"@)
    } else {
        number
    }
}

/// A value with every zero in it written in one way.
pub open spec fn plain(value: JsonView) -> JsonView
    decreases value,
{
    match value {
        JsonView::Number(number) => JsonView::Number(plain_number(number)),
        JsonView::Array(items) => JsonView::Array(
            Seq::new(
                items.len(),
                |i: int| if 0 <= i < items.len() { plain(items[i]) } else { JsonView::Null },
            ),
        ),
        JsonView::Object(members) => JsonView::Object(
            Seq::new(
                members.len(),
                |i: int|
                    if 0 <= i < members.len() {
                        (members[i].0, plain(members[i].1))
                    } else {
                        (Seq::empty(), JsonView::Null)
                    },
            ),
        ),
        other => other,
    }
}

/// Whether two values are equal, however a zero in them is written.
pub open spec fn same_value(left: JsonView, right: JsonView) -> bool {
    plain(left) == plain(right)
}

/// The value of the first member with the given name.
pub open spec fn find_member(members: Seq<(Seq<char>, JsonView)>, key: Seq<char>) -> Option<JsonView>
    decreases members.len(),
{
    if members.len() == 0 {
        None
    } else if members[0].0 == key {
        Some(members[0].1)
    } else {
        find_member(members.drop_first(), key)
    }
}

/// The texts of a list of values, where every one of them is a text.
pub open spec fn all_texts(items: Seq<JsonView>) -> Option<Seq<Seq<char>>>
    decreases items.len(),
{
    if items.len() == 0 {
        Some(Seq::empty())
    } else {
        match (all_texts(items.drop_last()), items.last().text()) {
            (Some(before), Some(text)) => Some(before.push(text)),
            _ => None,
        }
    }
}

impl JsonView {
    /// The member of an object with the given name.
    pub open spec fn member(self, key: Seq<char>) -> Option<JsonView> {
        match self {
            JsonView::Object(members) => find_member(members, key),
            _ => None,
        }
    }

    /// The member of a member.
    pub open spec fn member2(self, first: Seq<char>, second: Seq<char>) -> Option<JsonView> {
        match self.member(first) {
            Some(value) => value.member(second),
            None => None,
        }
    }

    /// The text of a text value.
    pub open spec fn text(self) -> Option<Seq<char>> {
        match self {
            JsonView::Text(text) => Some(text),
            _ => None,
        }
    }

    /// The truth value of a boolean.
    pub open spec fn truth(self) -> Option<bool> {
        match self {
            JsonView::Bool(b) => Some(b),
            _ => None,
        }
    }

    /// The value of an integer that fits in 64 bits without a sign.
    pub open spec fn unsigned(self) -> Option<u64> {
        match self {
            JsonView::Number(NumberView::Unsigned(n)) => Some(n),
            _ => None,
        }
    }

    /// The value of an integer that fits in 64 bits with a sign.
    pub open spec fn signed(self) -> Option<i64> {
        match self {
            JsonView::Number(NumberView::Negative(n)) => Some(n),
            JsonView::Number(NumberView::Unsigned(n)) => if n <= i64::MAX {
                Some(n as i64)
            } else {
                None
            },
            _ => None,
        }
    }

    /// The items of an array.
    pub open spec fn items(self) -> Option<Seq<JsonView>> {
        match self {
            JsonView::Array(items) => Some(items),
            _ => None,
        }
    }

    /// The text of the member with the given name.
    pub open spec fn text_at(self, key: Seq<char>) -> Option<Seq<char>> {
        match self.member(key) {
            Some(value) => value.text(),
            None => None,
        }
    }

    /// The text of the member of a member.
    pub open spec fn text_at2(self, first: Seq<char>, second: Seq<char>) -> Option<Seq<char>> {
        match self.member2(first, second) {
            Some(value) => value.text(),
            None => None,
        }
    }

    /// The object with one more member at its end.
    pub open spec fn with(self, key: Seq<char>, value: JsonView) -> JsonView {
        match self {
            JsonView::Object(members) => JsonView::Object(members.push((key, value))),
            _ => self,
        }
    }
}

/// The object without members.
pub open spec fn no_members() -> JsonView {
    JsonView::Object(Seq::empty())
}

/// The number with an integer value.
pub open spec fn integer(n: i64) -> JsonView {
    if n >= 0 {
        JsonView::Number(NumberView::Unsigned(n as u64))
    } else {
        JsonView::Number(NumberView::Negative(n))
    }
}

impl Json {
    /// The text value with the given characters.
    pub fn of_text(text: &str) -> (r: Json)
        ensures
            r@ == JsonView::Text(text@),
    {
        Json::Text(text.to_owned())
    }

    /// The number with the given value.
    pub fn of_unsigned(n: u64) -> (r: Json)
        ensures
            r@ == JsonView::Number(NumberView::Unsigned(n)),
    {
        Json::Number(JsonNumber::Unsigned(n))
    }

    /// The number with the given value, which may be negative.
    pub fn of_signed(n: i64) -> (r: Json)
        ensures
            r@ == integer(n),
    {
        if n >= 0 {
            Json::Number(JsonNumber::Unsigned(n as u64))
        } else {
            Json::Number(JsonNumber::Negative(n))
        }
    }

    /// The object without members.
    pub fn object() -> (r: Json)
        ensures
            r@ == no_members(),
    {
        let r = Json::Object(Vec::new());
        assert(r@->Object_0 =~= Seq::empty());
        r
    }

    /// The array of the given values.
    pub fn of_items(items: Vec<Json>) -> (r: Json)
        ensures
            r@ == JsonView::Array(items@.map_values(|item: Json| item@)),
    {
        let r = Json::Array(items);
        assert(r@->Array_0 =~= items@.map_values(|item: Json| item@));
        r
    }

    /// The array of the given texts.
    pub fn of_texts(texts: &Vec<String>) -> (r: Json)
        ensures
            r@ == JsonView::Array(texts@.map_values(|text: String| JsonView::Text(text@))),
    {
        let mut items: Vec<Json> = Vec::new();
        let mut i: usize = 0;
        while i < texts.len()
            invariant
                0 <= i <= texts.len(),
                items.len() == i,
                forall|k: int| 0 <= k < i ==> (#[trigger] items@[k])@ == JsonView::Text(texts@[k]@),
            decreases texts.len() - i,
        {
            items.push(Json::Text(texts[i].clone()));
            i += 1;
        }
        let r = Json::Array(items);
        assert(r@->Array_0 =~= texts@.map_values(|text: String| JsonView::Text(text@)));
        r
    }

    /// This object with one more member at its end.
    pub fn with(self, key: &str, value: Json) -> (r: Json)
        ensures
            r@ == self@.with(key@, value@),
    {
        match self {
            Json::Object(members) => {
                let ghost before = members@;
                let mut members = members;
                members.push((key.to_owned(), value));
                let r = Json::Object(members);
                assert(r@->Object_0 =~= self@.with(key@, value@)->Object_0);
                r
            },
            other => other,
        }
    }

    /// The member of an object with the given name.
    pub fn get(&self, key: &str) -> (r: Option<&Json>)
        ensures
            match r {
                Some(value) => self@.member(key@) == Some(value@),
                None => self@.member(key@) is None,
            },
    {
        match self {
            Json::Object(members) => {
                let ghost views = self@->Object_0;
                let mut i: usize = 0;
                assert(views.skip(0) =~= views);
                while i < members.len()
                    invariant
                        0 <= i <= members.len(),
                        *self == Json::Object(*members),
                        views == self@->Object_0,
                        find_member(views, key@) == find_member(views.skip(i as int), key@),
                    decreases members.len() - i,
                {
                    assert(views.skip(i as int)[0] == (members@[i as int].0@, members@[i as int].1@));
                    if same_text(members[i].0.as_str(), key) {
                        return Some(&members[i].1);
                    }
                    assert(views.skip(i as int).drop_first() =~= views.skip(i + 1));
                    i += 1;
                }
                None
            },
            _ => None,
        }
    }

    /// The member of a member.
    pub fn get2(&self, first: &str, second: &str) -> (r: Option<&Json>)
        ensures
            match r {
                Some(value) => self@.member2(first@, second@) == Some(value@),
                None => self@.member2(first@, second@) is None,
            },
    {
        match self.get(first) {
            Some(value) => value.get(second),
            None => None,
        }
    }

    /// The text of a text value.
    pub fn as_text(&self) -> (r: Option<&str>)
        ensures
            match r {
                Some(text) => self@.text() == Some(text@),
                None => self@.text() is None,
            },
    {
        match self {
            Json::Text(text) => Some(text.as_str()),
            _ => None,
        }
    }

    /// The text of the member with the given name.
    pub fn text_at(&self, key: &str) -> (r: Option<&str>)
        ensures
            match r {
                Some(text) => self@.text_at(key@) == Some(text@),
                None => self@.text_at(key@) is None,
            },
    {
        match self.get(key) {
            Some(value) => value.as_text(),
            None => None,
        }
    }

    /// The text of the member of a member.
    pub fn text_at2(&self, first: &str, second: &str) -> (r: Option<&str>)
        ensures
            match r {
                Some(text) => self@.text_at2(first@, second@) == Some(text@),
                None => self@.text_at2(first@, second@) is None,
            },
    {
        match self.get2(first, second) {
            Some(value) => value.as_text(),
            None => None,
        }
    }

    /// The truth value of a boolean.
    pub fn as_bool(&self) -> (r: Option<bool>)
        ensures
            r == self@.truth(),
    {
        match self {
            Json::Bool(b) => Some(*b),
            _ => None,
        }
    }

    /// The value of an integer that fits in 64 bits without a sign.
    pub fn as_unsigned(&self) -> (r: Option<u64>)
        ensures
            r == self@.unsigned(),
    {
        match self {
            Json::Number(JsonNumber::Unsigned(n)) => Some(*n),
            _ => None,
        }
    }

    /// The value of an integer that fits in 64 bits with a sign.
    pub fn as_signed(&self) -> (r: Option<i64>)
        ensures
            r == self@.signed(),
    {
        match self {
            Json::Number(JsonNumber::Negative(n)) => Some(*n),
            Json::Number(JsonNumber::Unsigned(n)) => if *n <= i64::MAX as u64 {
                Some(*n as i64)
            } else {
                None
            },
            _ => None,
        }
    }

    /// The items of an array.
    pub fn as_items(&self) -> (r: Option<&Vec<Json>>)
        ensures
            match r {
                Some(items) => self@.items() == Some(items@.map_values(|item: Json| item@)),
                None => self@.items() is None,
            },
    {
        match self {
            Json::Array(items) => {
                assert(self@->Array_0 =~= items@.map_values(|item: Json| item@));
                Some(items)
            },
            _ => None,
        }
    }

    /// Whether this is an object.
    pub fn is_object(&self) -> (r: bool)
        ensures
            r == (self@ is Object),
    {
        match self {
            Json::Object(_) => true,
            _ => false,
        }
    }

    /// A value equal to this one.
    pub fn copy(&self) -> (r: Json)
        ensures
            r@ == self@,
        decreases *self,
    {
        match self {
            Json::Null => Json::Null,
            Json::Bool(b) => Json::Bool(*b),
            Json::Number(JsonNumber::Unsigned(n)) => Json::Number(JsonNumber::Unsigned(*n)),
            Json::Number(JsonNumber::Negative(n)) => Json::Number(JsonNumber::Negative(*n)),
            Json::Number(JsonNumber::Other(text)) => Json::Number(JsonNumber::Other(text.clone())),
            Json::Text(text) => Json::Text(text.clone()),
            Json::Array(items) => {
                let mut copies: Vec<Json> = Vec::new();
                let mut i: usize = 0;
                while i < items.len()
                    invariant
                        0 <= i <= items.len(),
                        *self == Json::Array(*items),
                        copies.len() == i,
                        forall|k: int| 0 <= k < i ==> (#[trigger] copies@[k])@ == items@[k]@,
                    decreases items.len() - i,
                {
                    assert(decreases_to!(*self => self->Array_0@[i as int]));
                    copies.push(items[i].copy());
                    i += 1;
                }
                let r = Json::Array(copies);
                assert(r@->Array_0 =~= self@->Array_0);
                r
            },
            Json::Object(members) => {
                let mut copies: Vec<(String, Json)> = Vec::new();
                let mut i: usize = 0;
                while i < members.len()
                    invariant
                        0 <= i <= members.len(),
                        *self == Json::Object(*members),
                        copies.len() == i,
                        forall|k: int|
                            0 <= k < i ==> (#[trigger] copies@[k]).0@ == members@[k].0@ && copies@[k].1@
                                == members@[k].1@,
                    decreases members.len() - i,
                {
                    assert(decreases_to!(*self => self->Object_0@[i as int].1));
                    copies.push((members[i].0.clone(), members[i].1.copy()));
                    i += 1;
                }
                let r = Json::Object(copies);
                assert(r@->Object_0 =~= self@->Object_0);
                r
            },
        }
    }

    /// Whether two values are equal.
    pub fn same(&self, other: &Json) -> (r: bool)
        ensures
            r == same_value(self@, other@),
        decreases *self,
    {
        match (self, other) {
            (Json::Null, Json::Null) => true,
            (Json::Bool(a), Json::Bool(b)) => *a == *b,
            (Json::Number(a), Json::Number(b)) => match (a, b) {
                (JsonNumber::Unsigned(x), JsonNumber::Unsigned(y)) => *x == *y,
                (JsonNumber::Negative(x), JsonNumber::Negative(y)) => *x == *y,
                (JsonNumber::Other(x), JsonNumber::Other(y)) => same_text(x.as_str(), y.as_str()) || (
                is_zero(x.as_str()) && is_zero(y.as_str())),
                _ => false,
            },
            (Json::Text(a), Json::Text(b)) => same_text(a.as_str(), b.as_str()),
            (Json::Array(a), Json::Array(b)) => {
                let ghost left = plain(self@)->Array_0;
                let ghost right = plain(other@)->Array_0;
                if a.len() != b.len() {
                    assert(left.len() != right.len());
                    return false;
                }
                let mut i: usize = 0;
                while i < a.len()
                    invariant
                        0 <= i <= a.len(),
                        a.len() == b.len(),
                        *self == Json::Array(*a),
                        *other == Json::Array(*b),
                        left == plain(self@)->Array_0,
                        right == plain(other@)->Array_0,
                        forall|k: int| 0 <= k < i ==> left[k] == right[k],
                    decreases a.len() - i,
                {
                    if !a[i].same(&b[i]) {
                        assert(left[i as int] != right[i as int]);
                        return false;
                    }
                    i += 1;
                }
                assert(left =~= right);
                true
            },
            (Json::Object(a), Json::Object(b)) => {
                let ghost left = plain(self@)->Object_0;
                let ghost right = plain(other@)->Object_0;
                if a.len() != b.len() {
                    assert(left.len() != right.len());
                    return false;
                }
                let mut i: usize = 0;
                while i < a.len()
                    invariant
                        0 <= i <= a.len(),
                        a.len() == b.len(),
                        *self == Json::Object(*a),
                        *other == Json::Object(*b),
                        left == plain(self@)->Object_0,
                        right == plain(other@)->Object_0,
                        forall|k: int| 0 <= k < i ==> left[k] == right[k],
                    decreases a.len() - i,
                {
                    if !same_text(a[i].0.as_str(), b[i].0.as_str()) || !a[i].1.same(&b[i].1) {
                        assert(left[i as int] != right[i as int]);
                        return false;
                    }
                    i += 1;
                }
                assert(left =~= right);
                true
            },
            _ => false,
        }
    }
}

/// Whether the text of a number that is no integer is that of zero.
fn is_zero(text: &str) -> (r: bool)
    ensures
        r == (text@ == "0.0"@ || text@ == "-0.0"@),
{
    same_text(text, "0.0") || same_text(text, "-0.0")
}

/// What `serde_json::from_str` makes of a text: the value that the text
/// denotes, or nothing where it is not JSON.
pub uninterp spec fn parsed_json(text: Seq<char>) -> Option<JsonView>;

/// The text that `serde_json::Value` is displayed as.
pub uninterp spec fn rendered_json(value: JsonView) -> Seq<char>;

/// A JSON value of `serde_json`.
#[verifier::external_type_specification]
#[verifier::external_body]
pub struct ExJsonValue(serde_json::Value);

/// Converts a `serde_json::Value`, variant by variant.
#[verifier::external_body]
fn value_to_json(value: serde_json::Value) -> Json {
    match value {
        serde_json::Value::Null => Json::Null,
        serde_json::Value::Bool(b) => Json::Bool(b),
        serde_json::Value::Number(n) => Json::Number(match (n.as_u64(), n.as_i64()) {
            (Some(u), _) => JsonNumber::Unsigned(u),
            (None, Some(i)) => JsonNumber::Negative(i),
            (None, None) => JsonNumber::Other(n.to_string()),
        }),
        serde_json::Value::String(text) => Json::Text(text),
        serde_json::Value::Array(items) => Json::Array(items.into_iter().map(value_to_json).collect()),
        serde_json::Value::Object(map) => Json::Object(map.into_iter().map(|(k, v)| (k, value_to_json(v))).collect()),
    }
}

/// Converts a value into a `serde_json::Value`, variant by variant.
#[verifier::external_body]
fn json_to_value(value: &Json) -> serde_json::Value {
    match value {
        Json::Null => serde_json::Value::Null,
        Json::Bool(b) => serde_json::Value::Bool(*b),
        Json::Number(JsonNumber::Unsigned(n)) => serde_json::Value::from(*n),
        Json::Number(JsonNumber::Negative(n)) => serde_json::Value::from(*n),
        Json::Number(JsonNumber::Other(text)) => serde_json::Value::from(text.parse::<serde_json::Number>().ok()),
        Json::Text(text) => serde_json::Value::String(text.clone()),
        Json::Array(items) => items.iter().map(json_to_value).collect(),
        Json::Object(members) => members.iter().map(|m| (m.0.clone(), json_to_value(&m.1))).collect(),
    }
}

/// `serde_json::from_str` on a text: the value it denotes, where it is JSON.
#[verifier::external_body]
pub(crate) fn read_json(text: &str) -> (r: Option<Json>)
    ensures
        match r {
            Some(value) => parsed_json(text@) == Some(value@),
            None => parsed_json(text@) is None,
        },
{
    serde_json::from_str::<serde_json::Value>(text).ok().map(value_to_json)
}

/// `serde_json::Value::to_string`: the compact text of a value.
#[verifier::external_body]
pub(crate) fn write_json(value: &Json) -> (r: String)
    ensures
        r@ == rendered_json(value@),
{
    json_to_value(value).to_string()
}

/// The value that a text denotes, where it is JSON.
pub fn parse_json(text: &str) -> (r: Option<Json>)
    ensures
        match r {
            Some(value) => parsed_json(text@) == Some(value@),
            None => parsed_json(text@) is None,
        },
{
    read_json(text)
}

/// The compact text of a value.
pub fn render_json(value: &Json) -> (r: String)
    ensures
        r@ == rendered_json(value@),
{
    write_json(value)
}

proof fn lemma_find_pushed(members: Seq<(Seq<char>, JsonView)>, key: Seq<char>, added: JsonView, name: Seq<char>)
    ensures
        find_member(members.push((key, added)), name) == (match find_member(members, name) {
            Some(value) => Some(value),
            None => if key == name {
                Some(added)
            } else {
                None
            },
        }),
    decreases members.len(),
{
    let more = members.push((key, added));
    if members.len() == 0 {
        assert(more.drop_first() =~= Seq::empty());
        assert(find_member(more.drop_first(), name) is None);
    } else {
        assert(more.drop_first() =~= members.drop_first().push((key, added)));
        lemma_find_pushed(members.drop_first(), key, added, name);
    }
}

/// A member that is added to an object is found under its name, where the name was
/// free, and every other name means what it meant.
pub broadcast proof fn lemma_member_of_extended(value: JsonView, key: Seq<char>, added: JsonView, name: Seq<char>)
    requires
        value is Object,
    ensures
        #[trigger] value.with(key, added).member(name) == (match value.member(name) {
            Some(found) => Some(found),
            None => if key == name {
                Some(added)
            } else {
                None
            },
        }),
{
    lemma_find_pushed(value->Object_0, key, added, name);
}

/// What is found under a name stands in the object under that name.
pub proof fn lemma_members_are_found(members: Seq<(Seq<char>, JsonView)>, name: Seq<char>)
    ensures
        match JsonView::Object(members).member(name) {
            Some(value) => exists|i: int|
                0 <= i < members.len() && #[trigger] members[i] == (name, value) && (forall|k: int|
                    0 <= k < i ==> (#[trigger] members[k]).0 != name),
            None => forall|k: int| 0 <= k < members.len() ==> (#[trigger] members[k]).0 != name,
        },
    decreases members.len(),
{
    if members.len() > 0 {
        let rest = members.drop_first();
        assert(forall|k: int| 0 <= k < rest.len() ==> #[trigger] rest[k] == members[k + 1]);
        lemma_members_are_found(rest, name);
        if members[0].0 == name {
            assert(members[0] == (name, members[0].1));
        } else {
            match JsonView::Object(rest).member(name) {
                Some(value) => {
                    let i = choose|i: int|
                        0 <= i < rest.len() && #[trigger] rest[i] == (name, value) && (forall|k: int|
                            0 <= k < i ==> (#[trigger] rest[k]).0 != name);
                    assert(members[i + 1] == (name, value));
                    assert forall|k: int| 0 <= k < i + 1 implies (#[trigger] members[k]).0 != name by {
                        if k > 0 {
                            assert(rest[k - 1] == members[k]);
                        }
                    }
                },
                None => {
                    assert forall|k: int| 0 <= k < members.len() implies (#[trigger] members[k]).0 != name by {
                        if k > 0 {
                            assert(rest[k - 1] == members[k]);
                        }
                    }
                },
            }
        }
    }
}

} // verus!
