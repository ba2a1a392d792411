//! JSON values of the `serde_json` crate and what is known of them.

use vstd::prelude::*;

verus! {

/// A JSON value of the `serde_json` crate, a tree of objects and arrays.
#[verifier::external_type_specification]
#[verifier::external_body]
pub struct ExValue(serde_json::Value);

/// The contents of a JSON value.
pub ghost enum JsonTree {
    Null,
    Bool(bool),
    /// A number that `Number::as_i64` represents.
    Int(i64),
    /// Any other number, by the text that it is written with.
    Number(Seq<char>),
    Text(Seq<char>),
    Array(Seq<JsonTree>),
    Object(Map<Seq<char>, JsonTree>),
}

/// What a JSON value holds.
pub uninterp spec fn json_view(value: serde_json::Value) -> JsonTree;

/// What `serde_json::from_slice` reads out of a document: the value that it
/// holds, or the text of the error.
pub uninterp spec fn json_document(payload: Seq<u8>) -> Result<JsonTree, Seq<char>>;

/// What `Value::to_string` writes: the compact text of a value.
pub uninterp spec fn json_text(tree: JsonTree) -> Seq<char>;

/// What `serde_json::to_vec` writes for a value.
pub uninterp spec fn json_encoding(tree: JsonTree) -> Seq<u8>;

/// The contents of an optional JSON value.
pub open spec fn option_view(value: Option<&serde_json::Value>) -> Option<JsonTree> {
    match value {
        Some(v) => Some(json_view(*v)),
        None => None,
    }
}

/// The member `name` of a tree, if it is an object that has one.
pub open spec fn member_of(tree: JsonTree, name: Seq<char>) -> Option<JsonTree> {
    match tree {
        JsonTree::Object(members) => if members.contains_key(name) {
            Some(members[name])
        } else {
            None
        },
        _ => None,
    }
}

/// The member `name` of a tree that may be missing.
pub open spec fn child_of(tree: Option<JsonTree>, name: Seq<char>) -> Option<JsonTree> {
    match tree {
        Some(t) => member_of(t, name),
        None => None,
    }
}

/// The text of a tree that may be missing, if it is a string.
pub open spec fn text_in(tree: Option<JsonTree>) -> Option<Seq<char>> {
    match tree {
        Some(JsonTree::Text(text)) => Some(text),
        _ => None,
    }
}

/// The integer of a tree that may be missing, if it is an `i64`.
pub open spec fn int_in(tree: Option<JsonTree>) -> Option<i64> {
    match tree {
        Some(JsonTree::Int(n)) => Some(n),
        _ => None,
    }
}

/// An object with these members; of two with one name the later stays.
pub open spec fn object_of(members: Seq<(Seq<char>, JsonTree)>) -> JsonTree {
    JsonTree::Object(members_of(members))
}

/// The members as a map from name to value.
pub open spec fn members_of(members: Seq<(Seq<char>, JsonTree)>) -> Map<Seq<char>, JsonTree>
    decreases members.len(),
{
    if members.len() == 0 {
        Map::empty()
    } else {
        members_of(members.drop_last()).insert(members.last().0, members.last().1)
    }
}

/// The contents of named JSON values.
pub open spec fn member_views(members: Seq<(String, serde_json::Value)>) -> Seq<
    (Seq<char>, JsonTree),
> {
    members.map_values(|m: (String, serde_json::Value)| (m.0@, json_view(m.1)))
}

/// The contents of JSON values.
pub open spec fn value_views(values: Seq<serde_json::Value>) -> Seq<JsonTree> {
    values.map_values(|v: serde_json::Value| json_view(v))
}

/// Calls `serde_json::from_slice`. Claims that its outcome depends on the
/// bytes alone.
#[verifier::external_body]
pub(crate) fn parse_json(payload: &[u8]) -> (parsed: Result<serde_json::Value, String>)
    ensures
        match parsed {
            Ok(value) => json_document(payload@) == Ok::<JsonTree, Seq<char>>(json_view(value)),
            Err(text) => json_document(payload@) == Err::<JsonTree, Seq<char>>(text@),
        },
{
    serde_json::from_slice(payload).map_err(|e| e.to_string())
}

/// Calls `Value::get` with a name. Claims that it gives the member of that
/// name where the value is an object that has one, and nothing elsewhere.
#[verifier::external_body]
fn get_member<'a>(value: &'a serde_json::Value, name: &str) -> (member: Option<
    &'a serde_json::Value,
>)
    ensures
        option_view(member) == member_of(json_view(*value), name@),
{
    value.get(name)
}

/// Calls `Value::as_str`. Claims that it gives the text of a string, and
/// nothing elsewhere.
#[verifier::external_body]
fn get_text(value: &serde_json::Value) -> (text: Option<&str>)
    ensures
        crate::strings::option_str(text) == text_in(Some(json_view(*value))),
{
    value.as_str()
}

/// Calls `Value::as_i64`. Claims that it gives the number where it is an
/// integer that an `i64` represents, and nothing elsewhere.
#[verifier::external_body]
fn get_int(value: &serde_json::Value) -> (number: Option<i64>)
    ensures
        number == int_in(Some(json_view(*value))),
{
    value.as_i64()
}

/// Calls `Value::to_string`. Claims that the text depends on the contents of
/// the value alone.
#[verifier::external_body]
pub(crate) fn render_json(value: &serde_json::Value) -> (text: String)
    ensures
        text@ == json_text(json_view(*value)),
{
    value.to_string()
}

/// Calls `serde_json::to_vec`. Claims that it succeeds, a `Value` having only
/// string keys and finite numbers, and that the bytes depend on the contents
/// of the value alone.
#[verifier::external_body]
pub(crate) fn encode_json(value: &serde_json::Value) -> (encoded: Result<Vec<u8>, String>)
    ensures
        encoded is Ok,
        encoded->Ok_0@ == json_encoding(json_view(*value)),
{
    serde_json::to_vec(value).map_err(|e| e.to_string())
}

/// Makes a `Value::String`. Claims that it holds the text.
#[verifier::external_body]
pub(crate) fn text_value(text: &str) -> (value: serde_json::Value)
    ensures
        json_view(value) == JsonTree::Text(text@),
{
    serde_json::Value::String(text.to_string())
}

/// Makes a `Value::Number` by `Value::from`. Claims that it holds the number.
#[verifier::external_body]
pub(crate) fn int_value(number: i64) -> (value: serde_json::Value)
    ensures
        json_view(value) == JsonTree::Int(number),
{
    serde_json::Value::from(number)
}

/// Makes a `Value::Array`. Claims that it holds the values in their order.
#[verifier::external_body]
pub(crate) fn array_value(values: Vec<serde_json::Value>) -> (value: serde_json::Value)
    ensures
        json_view(value) == JsonTree::Array(value_views(values@)),
{
    serde_json::Value::Array(values)
}

/// Makes a `Value::Object` from members with distinct names, collected into a
/// `serde_json::Map`. Claims that it has these members and no others.
#[verifier::external_body]
pub(crate) fn object_value(members: Vec<(String, serde_json::Value)>) -> (value: serde_json::Value)
    requires
        forall|i: int, j: int|
            0 <= i < j < members@.len() ==> #[trigger] members@[i].0@ != #[trigger] members@[j].0@,
    ensures
        json_view(value) == object_of(member_views(members@)),
{
    serde_json::Value::Object(members.into_iter().collect())
}

/// The member `name` of a value that may be missing.
pub fn child<'a>(value: Option<&'a serde_json::Value>, name: &str) -> (member: Option<
    &'a serde_json::Value,
>)
    ensures
        option_view(member) == child_of(option_view(value), name@),
{
    match value {
        Some(v) => get_member(v, name),
        None => None,
    }
}

/// The text of a value that may be missing, if it is a string.
pub fn text_at<'a>(value: Option<&'a serde_json::Value>) -> (text: Option<&'a str>)
    ensures
        crate::strings::option_str(text) == text_in(option_view(value)),
{
    match value {
        Some(v) => get_text(v),
        None => None,
    }
}

/// The integer of a value that may be missing, if it is an `i64`.
pub fn int_at(value: Option<&serde_json::Value>) -> (number: Option<i64>)
    ensures
        number == int_in(option_view(value)),
{
    match value {
        Some(v) => get_int(v),
        None => None,
    }
}

/// An object with one member.
pub(crate) fn object1(name: &str, value: serde_json::Value) -> (object: serde_json::Value)
    ensures
        json_view(object) == object_of(seq![(name@, json_view(value))]),
{
    let mut members: Vec<(String, serde_json::Value)> = Vec::new();
    members.push((name.to_owned(), value));
    assert(member_views(members@) =~= seq![(name@, json_view(value))]);
    object_value(members)
}

/// An object with two members.
pub(crate) fn object2(
    name1: &str,
    value1: serde_json::Value,
    name2: &str,
    value2: serde_json::Value,
) -> (object: serde_json::Value)
    requires
        name1@ != name2@,
    ensures
        json_view(object) == object_of(
            seq![(name1@, json_view(value1)), (name2@, json_view(value2))],
        ),
{
    let mut members: Vec<(String, serde_json::Value)> = Vec::new();
    members.push((name1.to_owned(), value1));
    members.push((name2.to_owned(), value2));
    assert(member_views(members@) =~= seq![
        (name1@, json_view(value1)),
        (name2@, json_view(value2)),
    ]);
    object_value(members)
}

/// An object with three members.
pub(crate) fn object3(
    name1: &str,
    value1: serde_json::Value,
    name2: &str,
    value2: serde_json::Value,
    name3: &str,
    value3: serde_json::Value,
) -> (object: serde_json::Value)
    requires
        name1@ != name2@,
        name1@ != name3@,
        name2@ != name3@,
    ensures
        json_view(object) == object_of(
            seq![
                (name1@, json_view(value1)),
                (name2@, json_view(value2)),
                (name3@, json_view(value3)),
            ],
        ),
{
    let mut members: Vec<(String, serde_json::Value)> = Vec::new();
    members.push((name1.to_owned(), value1));
    members.push((name2.to_owned(), value2));
    members.push((name3.to_owned(), value3));
    assert(member_views(members@) =~= seq![
        (name1@, json_view(value1)),
        (name2@, json_view(value2)),
        (name3@, json_view(value3)),
    ]);
    object_value(members)
}

/// An object of one member has that member and no other.
pub proof fn lemma_object_of_one(name: Seq<char>, tree: JsonTree, other: Seq<char>)
    ensures
        member_of(object_of(seq![(name, tree)]), other) == (if other == name {
            Some(tree)
        } else {
            None
        }),
{
    let members = seq![(name, tree)];
    assert(members.drop_last() =~= seq![]);
    reveal_with_fuel(members_of, 2);
}

/// An object of two members with distinct names has these members and no
/// others.
pub proof fn lemma_object_of_two(
    name1: Seq<char>,
    tree1: JsonTree,
    name2: Seq<char>,
    tree2: JsonTree,
    other: Seq<char>,
)
    requires
        name1 != name2,
    ensures
        member_of(object_of(seq![(name1, tree1), (name2, tree2)]), other) == (if other == name1 {
            Some(tree1)
        } else if other == name2 {
            Some(tree2)
        } else {
            None
        }),
{
    let members = seq![(name1, tree1), (name2, tree2)];
    assert(members.drop_last() =~= seq![(name1, tree1)]);
    lemma_object_of_one(name1, tree1, other);
}

/// An object of three members with distinct names has these members and no
/// others.
pub proof fn lemma_object_of_three(
    name1: Seq<char>,
    tree1: JsonTree,
    name2: Seq<char>,
    tree2: JsonTree,
    name3: Seq<char>,
    tree3: JsonTree,
    other: Seq<char>,
)
    requires
        name1 != name2,
        name1 != name3,
        name2 != name3,
    ensures
        member_of(object_of(seq![(name1, tree1), (name2, tree2), (name3, tree3)]), other) == (
        if other == name1 {
            Some(tree1)
        } else if other == name2 {
            Some(tree2)
        } else if other == name3 {
            Some(tree3)
        } else {
            None
        }),
{
    let members = seq![(name1, tree1), (name2, tree2), (name3, tree3)];
    assert(members.drop_last() =~= seq![(name1, tree1), (name2, tree2)]);
    lemma_object_of_two(name1, tree1, name2, tree2, other);
}

/// The tree at the end of a path of member names.
pub open spec fn at_path(tree: Option<JsonTree>, path: Seq<Seq<char>>) -> Option<JsonTree>
    decreases path.len(),
{
    if path.len() == 0 {
        tree
    } else {
        match tree {
            Some(JsonTree::Object(members)) => at_path(
                if members.contains_key(path[0]) {
                    Some(members[path[0]])
                } else {
                    None
                },
                path.skip(1),
            ),
            _ => None,
        }
    }
}

/// A path of member names is followed member by member.
pub proof fn lemma_at_path(tree: Option<JsonTree>, path: Seq<Seq<char>>)
    ensures
        path.len() == 1 ==> at_path(tree, path) == child_of(tree, path[0]),
        path.len() == 2 ==> at_path(tree, path) == child_of(child_of(tree, path[0]), path[1]),
        path.len() == 3 ==> at_path(tree, path) == child_of(
            child_of(child_of(tree, path[0]), path[1]),
            path[2],
        ),
{
    reveal_with_fuel(at_path, 4);
    if path.len() == 2 {
        assert(path.skip(1)[0] == path[1]);
    } else if path.len() == 3 {
        assert(path.skip(1)[0] == path[1]);
        assert(path.skip(1).skip(1)[0] == path[2]);
    }
}

} // verus!
