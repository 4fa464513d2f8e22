//! JSON values, and the text they are read from and written to.
use crate::text_map::TextMap;
use vstd::prelude::*;

verus! {

/// A JSON number that is no integer, or one too large for sixty-four bits.
#[verifier::external_type_specification]
#[verifier::external_body]
pub struct ExNumber(serde_json::Number);

/// A JSON value as the parser gives it.
#[verifier::external_type_specification]
#[verifier::external_body]
pub struct ExValue(serde_json::Value);

/// What the JSON parser reports of a text that it does not accept.
#[verifier::external_type_specification]
#[verifier::external_body]
pub struct ExJsonError(serde_json::Error);

/// An error of the JSON parser or writer, and its words.
#[derive(Debug)]
pub struct JsonFailure {
    pub words: String,
    pub error: serde_json::Error,
}

/// A JSON value.
#[derive(Debug)]
pub enum Json {
    Null,
    Bool(bool),
    Unsigned(u64),
    Signed(i64),
    Float(serde_json::Number),
    Text(String),
    List(Vec<Json>),
    Object(TextMap<Json>),
}

/// What a JSON value stands for: an object is a map, whose members have no order.
pub enum JsonView {
    Null,
    Bool(bool),
    Integer(int),
    Float(serde_json::Number),
    Text(Seq<char>),
    List(Seq<JsonView>),
    Object(Map<Seq<char>, JsonView>),
}

impl View for Json {
    type V = JsonView;

    closed spec fn view(&self) -> JsonView
        decreases self,
    {
        match self {
            Json::Null => JsonView::Null,
            Json::Bool(b) => JsonView::Bool(*b),
            Json::Unsigned(n) => JsonView::Integer(*n as int),
            Json::Signed(n) => JsonView::Integer(*n as int),
            Json::Float(n) => JsonView::Float(*n),
            Json::Text(text) => JsonView::Text(text@),
            Json::List(items) => JsonView::List(
                Seq::new(
                    items@.len(),
                    |i: int|
                        if 0 <= i < items@.len() {
                            items@[i].view()
                        } else {
                            JsonView::Null
                        },
                ),
            ),
            Json::Object(members) => JsonView::Object(
                Map::new(
                    |key: Seq<char>| members@.contains_key(key),
                    |key: Seq<char>|
                        {
                            let at = members.keys().index_of(key);
                            if 0 <= at < members.entries@.len() {
                                members.entries@[at].1.view()
                            } else {
                                JsonView::Null
                            }
                        },
                ),
            ),
        }
    }
}

/// The member of an object that has a name; no other value has members.
pub open spec fn member(value: JsonView, name: Seq<char>) -> Option<JsonView> {
    match value {
        JsonView::Object(members) => if members.contains_key(name) {
            Some(members[name])
        } else {
            None
        },
        _ => None,
    }
}

/// The characters of a string value; no other value has any.
pub open spec fn string_of(value: JsonView) -> Option<Seq<char>> {
    match value {
        JsonView::Text(text) => Some(text),
        _ => None,
    }
}

/// The items of a list; no other value has any.
pub open spec fn items_of(value: JsonView) -> Option<Seq<JsonView>> {
    match value {
        JsonView::List(items) => Some(items),
        _ => None,
    }
}

/// The members of an object; no other value has any.
pub open spec fn members_of(value: JsonView) -> Option<Map<Seq<char>, JsonView>> {
    match value {
        JsonView::Object(members) => Some(members),
        _ => None,
    }
}

/// The value nests lists and objects no deeper than `depth` and holds no floating-point number.
pub open spec fn exact(value: JsonView, depth: nat) -> bool
    decreases depth,
{
    match value {
        JsonView::Float(_) => false,
        JsonView::List(items) => depth > 0 && forall|i: int|
            0 <= i < items.len() ==> exact(#[trigger] items[i], (depth - 1) as nat),
        JsonView::Object(members) => depth > 0 && forall|name: Seq<char>|
            members.contains_key(name) ==> exact(#[trigger] members[name], (depth - 1) as nat),
        _ => true,
    }
}

/// The value nests lists and objects no deeper than `depth`.
pub open spec fn nests(value: JsonView, depth: nat) -> bool
    decreases depth,
{
    match value {
        JsonView::List(items) => depth > 0 && forall|i: int|
            0 <= i < items.len() ==> nests(#[trigger] items[i], (depth - 1) as nat),
        JsonView::Object(members) => depth > 0 && forall|name: Seq<char>|
            members.contains_key(name) ==> nests(#[trigger] members[name], (depth - 1) as nat),
        _ => true,
    }
}

/// What an object holds nests one level less deep than the object.
pub proof fn members_nest_less(value: JsonView, name: Seq<char>, depth: nat)
    requires
        nests(value, depth),
        member(value, name) is Some,
    ensures
        depth > 0,
        nests(member(value, name)->0, (depth - 1) as nat),
{
    match value {
        JsonView::Object(members) => {
            assert(nests(members[name], (depth - 1) as nat));
        },
        _ => {},
    }
}

/// A value that was read is the one that was written, which nests no deeper than `depth`, but that a
/// floating-point number may have become another number.
pub open spec fn agrees(read: JsonView, written: JsonView, depth: nat) -> bool
    decreases depth,
{
    match written {
        JsonView::Float(_) => read is Float || read is Integer,
        JsonView::List(items) => {
            &&& depth > 0
            &&& read matches JsonView::List(found) && found.len() == items.len()
            &&& forall|i: int|
                0 <= i < items.len() ==> agrees(
                    #[trigger] read->List_0[i],
                    #[trigger] items[i],
                    (depth - 1) as nat,
                )
        },
        JsonView::Object(members) => {
            &&& depth > 0
            &&& read matches JsonView::Object(found) && found.dom() == members.dom()
            &&& forall|name: Seq<char>|
                members.contains_key(name) ==> agrees(
                    #[trigger] read->Object_0[name],
                    #[trigger] members[name],
                    (depth - 1) as nat,
                )
        },
        _ => read == written,
    }
}

/// An object that was read has the members of the one that was written, and each is as that one was.
pub proof fn members_agree(read: JsonView, written: JsonView, name: Seq<char>, depth: nat)
    requires
        agrees(read, written, depth),
        written is Object,
    ensures
        read is Object,
        member(read, name) is Some <==> member(written, name) is Some,
        member(written, name) matches Some(meant) ==> depth > 0 && agrees(
            member(read, name)->0,
            meant,
            (depth - 1) as nat,
        ),
{
    match written {
        JsonView::Object(members) => {
            match read {
                JsonView::Object(found) => {
                    assert(found.dom().contains(name) == members.dom().contains(name));
                    if members.contains_key(name) {
                        assert(agrees(found[name], members[name], (depth - 1) as nat));
                    }
                },
                _ => {},
            }
        },
        _ => {},
    }
}

/// A value without floating-point numbers agrees with itself alone.
pub proof fn exact_agrees_with_itself(read: JsonView, written: JsonView, depth: nat)
    requires
        exact(written, depth),
    ensures
        nests(written, depth),
        agrees(read, written, depth) <==> read == written,
    decreases depth,
{
    match written {
        JsonView::List(items) => {
            assert forall|i: int| 0 <= i < items.len() implies nests(#[trigger] items[i], (depth - 1) as nat) by {
                exact_agrees_with_itself(items[i], items[i], (depth - 1) as nat);
            }
            if let JsonView::List(found) = read {
                assert forall|i: int| 0 <= i < items.len() implies (agrees(
                    #[trigger] found[i],
                    items[i],
                    (depth - 1) as nat,
                ) <==> found[i] == items[i]) by {
                    assert(exact(items[i], (depth - 1) as nat));
                    exact_agrees_with_itself(found[i], items[i], (depth - 1) as nat);
                }
                if agrees(read, written, depth) {
                    assert(found =~= items);
                }
            }
        },
        JsonView::Object(members) => {
            assert forall|name: Seq<char>| members.contains_key(name) implies nests(
                #[trigger] members[name],
                (depth - 1) as nat,
            ) by {
                exact_agrees_with_itself(members[name], members[name], (depth - 1) as nat);
            }
            if let JsonView::Object(found) = read {
                assert forall|name: Seq<char>| members.contains_key(name) implies (agrees(
                    #[trigger] found[name],
                    members[name],
                    (depth - 1) as nat,
                ) <==> found[name] == members[name]) by {
                    assert(exact(members[name], (depth - 1) as nat));
                    exact_agrees_with_itself(found[name], members[name], (depth - 1) as nat);
                }
                if agrees(read, written, depth) {
                    assert(found =~= members);
                }
            }
        },
        _ => {},
    }
}

/// The values that a list of JSON values stands for.
pub open spec fn views(items: Seq<Json>) -> Seq<JsonView> {
    items.map_values(|item: Json| item@)
}

impl Json {
    proof fn object_view(members: TextMap<Json>)
        ensures
            Json::Object(members)@ == JsonView::Object(members@.map_values(|value: Json| value@)),
    {
        let seen = Json::Object(members)@->Object_0;
        let meant = members@.map_values(|value: Json| value@);
        assert forall|name: Seq<char>| #[trigger] seen.contains_key(name) implies seen[name] == meant[name] by {
            members.place_of(name);
        }
        assert(seen =~= meant);
    }

    proof fn list_view(items: Vec<Json>)
        ensures
            Json::List(items)@ == JsonView::List(views(items@)),
    {
        assert(Json::List(items)@->List_0 =~= views(items@));
    }

    /// A string value.
    pub fn text(text: &str) -> (value: Json)
        ensures
            value@ == JsonView::Text(text@),
    {
        Json::Text(text.to_owned())
    }

    /// An integer.
    pub fn integer(n: u64) -> (value: Json)
        ensures
            value@ == JsonView::Integer(n as int),
    {
        Json::Unsigned(n)
    }

    /// A truth value.
    pub fn flag(b: bool) -> (value: Json)
        ensures
            value@ == JsonView::Bool(b),
    {
        Json::Bool(b)
    }

    /// An object without members.
    pub fn object() -> (value: Json)
        ensures
            value@ == JsonView::Object(Map::empty()),
    {
        let members = TextMap::new();
        proof {
            Json::object_view(members);
            assert(members@.map_values(|value: Json| value@) =~= Map::empty());
        }
        Json::Object(members)
    }

    /// The object with one of its members set, whatever that member was before.
    pub fn with(self, name: &str, value: Json) -> (object: Json)
        requires
            self@ is Object,
        ensures
            object@ == JsonView::Object(self@->Object_0.insert(name@, value@)),
    {
        match self {
            Json::Object(members) => {
                let updated = members.with(name.to_owned(), value);
                proof {
                    Json::object_view(members);
                    Json::object_view(updated);
                    assert(updated@.map_values(|value: Json| value@) =~= members@.map_values(
                        |value: Json| value@,
                    ).insert(name@, value@));
                }
                Json::Object(updated)
            },
            other => other,
        }
    }

    /// Whether the value is nothing.
    pub fn is_null(&self) -> (found: bool)
        ensures
            found <==> self@ is Null,
    {
        match self {
            Json::Null => true,
            _ => false,
        }
    }

    /// The member of an object that has a name.
    pub fn get(&self, name: &str) -> (value: Option<&Json>)
        ensures
            value is Some <==> member(self@, name@) is Some,
            value matches Some(found) ==> member(self@, name@) == Some(found@),
    {
        match self {
            Json::Object(members) => {
                proof {
                    Json::object_view(*members);
                }
                members.get(name)
            },
            _ => None,
        }
    }

    /// The member of an object that has a name, taken out of the object.
    pub fn take(self, name: &str) -> (value: Option<Json>)
        ensures
            value is Some <==> member(self@, name@) is Some,
            value matches Some(found) ==> member(self@, name@) == Some(found@),
    {
        match self {
            Json::Object(members) => {
                proof {
                    Json::object_view(members);
                }
                members.take(name)
            },
            _ => None,
        }
    }

    /// The characters of a string value.
    pub fn as_str(&self) -> (text: Option<&str>)
        ensures
            text is Some <==> string_of(self@) is Some,
            text matches Some(found) ==> string_of(self@) == Some(found@),
    {
        match self {
            Json::Text(text) => Some(text.as_str()),
            _ => None,
        }
    }

    /// The items of a list.
    pub fn as_array(&self) -> (items: Option<&Vec<Json>>)
        ensures
            items is Some <==> items_of(self@) is Some,
            items matches Some(found) ==> items_of(self@) == Some(views(found@)),
    {
        match self {
            Json::List(items) => {
                proof {
                    Json::list_view(*items);
                }
                Some(items)
            },
            _ => None,
        }
    }

    /// The members of an object.
    pub fn as_object(&self) -> (members: Option<&TextMap<Json>>)
        ensures
            members is Some <==> members_of(self@) is Some,
            members matches Some(found) ==> members_of(self@) == Some(
                found@.map_values(|value: Json| value@),
            ),
    {
        match self {
            Json::Object(members) => {
                proof {
                    Json::object_view(*members);
                }
                Some(members)
            },
            _ => None,
        }
    }
}

/// The value that a text is the JSON of, as `serde_json::from_str` reads it into its `Value`;
/// nothing where it reports an error.
pub uninterp spec fn json_value(text: Seq<char>) -> Option<JsonView>;

/// The text that `Display` of `serde_json::Value` writes of a value.
pub uninterp spec fn json_text(value: JsonView) -> Seq<char>;

/// The words of the error that `serde_json::from_str` reports on a text that it does not accept.
pub uninterp spec fn json_error(text: Seq<char>) -> Seq<char>;

/// Turns a `serde_json::Value` into the JSON value it holds, part by part. Its map is a `BTreeMap`,
/// which hands out its members in the order of their names.
#[verifier::external_body]
fn json_of(value: serde_json::Value) -> Json {
    match value {
        serde_json::Value::Null => Json::Null,
        serde_json::Value::Bool(b) => Json::Bool(b),
        serde_json::Value::Number(n) => match (n.as_u64(), n.as_i64()) {
            (Some(unsigned), _) => Json::Unsigned(unsigned),
            (None, Some(signed)) => Json::Signed(signed),
            (None, None) => Json::Float(n),
        },
        serde_json::Value::String(text) => Json::Text(text),
        serde_json::Value::Array(items) => Json::List(items.into_iter().map(json_of).collect()),
        serde_json::Value::Object(members) => Json::Object(
            TextMap { entries: members.into_iter().map(|(name, value)| (name, json_of(value))).collect() },
        ),
    }
}

/// Turns a JSON value into the `serde_json::Value` that holds it, part by part.
#[verifier::external_body]
pub(crate) fn value_of(json: &Json) -> serde_json::Value {
    match json {
        Json::Null => serde_json::Value::Null,
        Json::Bool(b) => serde_json::Value::from(*b),
        Json::Unsigned(n) => serde_json::Value::from(*n),
        Json::Signed(n) => serde_json::Value::from(*n),
        Json::Float(n) => serde_json::Value::Number(n.clone()),
        Json::Text(text) => serde_json::Value::from(text.as_str()),
        Json::List(items) => serde_json::Value::Array(items.iter().map(value_of).collect()),
        Json::Object(members) => serde_json::Value::Object(
            members.entries.iter().map(|entry| (entry.0.clone(), value_of(&entry.1))).collect(),
        ),
    }
}

/// `serde_json::from_str` into a `Value`: whether it accepts the text, and the value it then gives,
/// are named by [`json_value`], and the words of its error by [`json_error`]. It accepts no more than
/// 127 nested lists and objects.
#[verifier::external_body]
fn from_str(text: &str) -> (value: Result<Json, JsonFailure>)
    ensures
        value is Ok <==> json_value(text@) is Some,
        value matches Ok(found) ==> json_value(text@) == Some(found@),
        value matches Ok(found) ==> nests(found@, 127),
        value matches Err(failure) ==> failure.words@ == json_error(text@),
{
    serde_json::from_str::<serde_json::Value>(text).map(json_of).map_err(
        |error| JsonFailure { words: error.to_string(), error },
    )
}

/// `to_string` of a `serde_json::Value`, named by [`json_text`]. The text is compact: it has no line
/// ends, as control characters inside strings are escaped. Where the parser's limit of 127 nested
/// lists and objects is kept, reading the text back gives the value, but that a floating-point number
/// may come back as another number, as the parser rounds.
#[verifier::external_body]
fn to_string(json: &Json) -> (text: String)
    ensures
        text@ == json_text(json@),
        !text@.contains('\n'),
        !text@.contains('\r'),
        nests(json@, 127) ==> (json_value(text@) is Some && agrees(json_value(text@)->0, json@, 127)),
{
    value_of(json).to_string()
}

/// Reads a JSON value from its text.
pub fn parse_json(text: &str) -> (value: Result<Json, JsonFailure>)
    ensures
        value is Ok <==> json_value(text@) is Some,
        value matches Ok(found) ==> json_value(text@) == Some(found@),
        value matches Ok(found) ==> nests(found@, 127),
        value matches Err(failure) ==> failure.words@ == json_error(text@),
{
    from_str(text)
}

/// Writes a JSON value on one line.
pub fn render_json(json: &Json) -> (text: String)
    ensures
        text@ == json_text(json@),
        !text@.contains('\n'),
        !text@.contains('\r'),
        nests(json@, 127) ==> (json_value(text@) is Some && agrees(json_value(text@)->0, json@, 127)),
        exact(json@, 127) ==> json_value(text@) == Some(json@),
{
    let text = to_string(json);
    proof {
        if exact(json@, 127) {
            exact_agrees_with_itself(json_value(text@)->0, json@, 127);
        }
    }
    text
}

proof fn item_is_exact(value: JsonView, at: int, depth: nat)
    requires
        exact(value, depth),
        value is List,
        0 <= at < value->List_0.len(),
    ensures
        depth > 0,
        exact(value->List_0[at], (depth - 1) as nat),
{
    match value {
        JsonView::List(items) => {
            assert(exact(items[at], (depth - 1) as nat));
        },
        _ => {},
    }
}

proof fn member_is_exact(value: JsonView, name: Seq<char>, depth: nat)
    requires
        exact(value, depth),
        value is Object,
        value->Object_0.contains_key(name),
    ensures
        depth > 0,
        exact(value->Object_0[name], (depth - 1) as nat),
{
    match value {
        JsonView::Object(members) => {
            assert(exact(members[name], (depth - 1) as nat));
        },
        _ => {},
    }
}

/// Whether a value nests lists and objects no deeper than `depth` and holds no floating-point number.
pub fn is_exact(value: &Json, depth: usize) -> (found: bool)
    ensures
        found <==> exact(value@, depth as nat),
    decreases depth,
{
    match value {
        Json::Float(_) => false,
        Json::List(items) => {
            proof {
                Json::list_view(*items);
            }
            let ghost seen = views(items@);
            if depth == 0 {
                return false;
            }
            let mut i: usize = 0;
            while i < items.len()
                invariant
                    seen == views(items@),
                    value@ == JsonView::List(seen),
                    depth > 0,
                    i <= items@.len(),
                    forall|j: int| 0 <= j < i ==> exact(#[trigger] seen[j], (depth - 1) as nat),
                decreases items@.len() - i,
            {
                assert(seen[i as int] == items@[i as int]@);
                if !is_exact(&items[i], depth - 1) {
                    proof {
                        if exact(value@, depth as nat) {
                            item_is_exact(value@, i as int, depth as nat);
                        }
                    }
                    return false;
                }
                i += 1;
            }
            true
        },
        Json::Object(members) => {
            proof {
                Json::object_view(*members);
            }
            let ghost seen = members@.map_values(|value: Json| value@);
            if depth == 0 {
                return false;
            }
            let n = members.len();
            let ghost keys = members.keys();
            let mut i: usize = 0;
            while i < n
                invariant
                    seen == members@.map_values(|value: Json| value@),
                    value@ == JsonView::Object(seen),
                    depth > 0,
                    n == keys.len(),
                    keys == members.keys(),
                    i <= n,
                    forall|j: int| 0 <= j < i ==> exact(seen[#[trigger] keys[j]], (depth - 1) as nat),
                decreases n - i,
            {
                let (name, member) = members.entry(i);
                assert(seen.contains_key(name@) && seen[name@] == member@);
                if !is_exact(member, depth - 1) {
                    proof {
                        if exact(value@, depth as nat) {
                            member_is_exact(value@, name@, depth as nat);
                        }
                    }
                    return false;
                }
                i += 1;
            }
            assert forall|name: Seq<char>| seen.contains_key(name) implies exact(
                #[trigger] seen[name],
                (depth - 1) as nat,
            ) by {
                assert(members@.contains_key(name));
                let j = keys.index_of(name);
                assert(keys[j] == name);
            }
            true
        },
        _ => true,
    }
}

/// What each kind of value stands for. A whole number stands for itself, however it is held.
pub proof fn values_stand_for_themselves(b: bool, n: u64, m: i64, number: serde_json::Number, text: String)
    ensures
        Json::Null@ == JsonView::Null,
        Json::Bool(b)@ == JsonView::Bool(b),
        Json::Unsigned(n)@ == JsonView::Integer(n as int),
        Json::Signed(m)@ == JsonView::Integer(m as int),
        Json::Float(number)@ == JsonView::Float(number),
        Json::Text(text)@ == JsonView::Text(text@),
{
}

/// A list stands for what its items stand for, and an object for what its members stand for.
pub proof fn parts_stand_for_themselves(items: Vec<Json>, members: TextMap<Json>, at: int, name: Seq<char>)
    ensures
        Json::List(items)@ is List,
        Json::List(items)@->List_0.len() == items@.len(),
        0 <= at < items@.len() ==> Json::List(items)@->List_0[at] == items@[at]@,
        Json::Object(members)@ is Object,
        Json::Object(members)@->Object_0.contains_key(name) <==> members@.contains_key(name),
        members@.contains_key(name) ==> Json::Object(members)@->Object_0[name] == members@[name]@,
{
    Json::list_view(items);
    Json::object_view(members);
}

/// An object has the members it holds, each under its name, and no other value has any member.
pub proof fn only_objects_have_members(value: JsonView, name: Seq<char>)
    ensures
        member(value, name) is Some <==> value is Object && value->Object_0.contains_key(name),
        member(value, name) is Some ==> member(value, name) == Some(value->Object_0[name]),
        members_of(value) is Some <==> value is Object,
        value is Object ==> members_of(value) == Some(value->Object_0),
{
}

/// Only a string has characters, and only a list has items.
pub proof fn only_strings_and_lists_have_theirs(value: JsonView)
    ensures
        string_of(value) is Some <==> value is Text,
        value is Text ==> string_of(value) == Some(value->Text_0),
        items_of(value) is Some <==> value is List,
        value is List ==> items_of(value) == Some(value->List_0),
{
}

/// A value is exact exactly if it nests no deeper than allowed and none of its parts is a
/// floating-point number: each part of a list or an object is exact with one level less.
pub proof fn parts_of_exact_values_are_exact(value: JsonView, depth: nat)
    ensures
        exact(value, depth) ==> !(value is Float),
        exact(value, depth) ==> nests(value, depth),
        value is List ==> (exact(value, depth) <==> depth > 0 && forall|i: int|
            0 <= i < value->List_0.len() ==> exact(#[trigger] value->List_0[i], (depth - 1) as nat)),
        value is Object ==> (exact(value, depth) <==> depth > 0 && forall|name: Seq<char>|
            value->Object_0.contains_key(name) ==> exact(#[trigger] value->Object_0[name], (depth - 1) as nat)),
        !(value is Float) && !(value is List) && !(value is Object) ==> exact(value, depth),
{
    if exact(value, depth) {
        exact_agrees_with_itself(value, value, depth);
    }
    match value {
        JsonView::List(items) => {},
        JsonView::Object(members) => {},
        _ => {},
    }
}

/// A value that was read is the one that was written where that is no number, list or object; a list or
/// an object agrees part by part, with the same length or the same members.
pub proof fn parts_agree(read: JsonView, written: JsonView, depth: nat, at: int, name: Seq<char>)
    requires
        agrees(read, written, depth),
    ensures
        written is Null || written is Bool || written is Integer || written is Text ==> read == written,
        written is Float ==> read is Float || read is Integer,
        written is List ==> read is List && read->List_0.len() == written->List_0.len() && (0 <= at
            < written->List_0.len() ==> agrees(read->List_0[at], written->List_0[at], (depth - 1) as nat)),
        written is Object ==> read is Object && (read->Object_0.contains_key(name)
            <==> written->Object_0.contains_key(name)) && (written->Object_0.contains_key(name) ==> agrees(
            read->Object_0[name],
            written->Object_0[name],
            (depth - 1) as nat,
        )),
{
    match written {
        JsonView::List(items) => {
            match read {
                JsonView::List(found) => {
                    if 0 <= at < items.len() {
                        assert(agrees(found[at], items[at], (depth - 1) as nat));
                    }
                },
                _ => {},
            }
        },
        JsonView::Object(members) => {
            members_agree(read, written, name, depth);
        },
        _ => {},
    }
}

} // verus!
