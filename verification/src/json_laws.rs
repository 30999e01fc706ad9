//! What reading and building documents are for, said of what goes in and what comes out.

use crate::json::{
    fields_tree, items_tree, json_integer, json_of_value, json_parse, json_render, parse_json,
    render_json, value_of_json, value_tree, Hole, Json, JsonTree,
};
use vstd::prelude::*;
use vstd::string::*;

verus! {

/// A document says what it holds: an array its items, one by one and in order; an object, under each
/// name, what the last field of that name holds.
pub proof fn law_document_says_what_it_holds(
    items: Vec<Json>,
    fields: Vec<(String, Json)>,
    text: String,
    number: serde_json::Number,
    truth: bool,
)
    ensures
        Json::Null@ == JsonTree::Null,
        Json::Bool(truth)@ == JsonTree::Bool(truth),
        Json::Number(number)@ == JsonTree::Number(number),
        Json::Text(text)@ == JsonTree::Text(text@),
        Json::Array(items)@ is Array,
        Json::Array(items)@->Array_0.len() == items@.len(),
        forall|i: int|
            0 <= i < items@.len() ==> #[trigger] Json::Array(items)@->Array_0[i] == items@[i]@,
        Json::Object(fields)@ is Object,
        forall|i: int|
            #![trigger fields@[i]]
            0 <= i < fields@.len() && (forall|j: int|
                i < j < fields@.len() ==> (#[trigger] fields@[j]).0@ != fields@[i].0@)
                ==> Json::Object(fields)@->Object_0.contains_key(fields@[i].0@) && Json::Object(
                fields,
            )@->Object_0[fields@[i].0@] == fields@[i].1@,
        forall|key: Seq<char>| #[trigger]
            Json::Object(fields)@->Object_0.contains_key(key) ==> exists|i: int|
                0 <= i < fields@.len() && (#[trigger] fields@[i]).0@ == key,
{
    Json::lemma_counts(fields@);
    assert(Json::Object(fields)@->Object_0 == fields_tree(fields@));
    assert(Json::Array(items)@->Array_0 == items_tree(items@));
    assert forall|i: int|
        #![trigger fields@[i]]
        0 <= i < fields@.len() && (forall|j: int|
            i < j < fields@.len() ==> (#[trigger] fields@[j]).0@ != fields@[i].0@) implies Json::Object(
        fields,
    )@->Object_0.contains_key(fields@[i].0@) && Json::Object(fields)@->Object_0[fields@[i].0@]
        == fields@[i].1@ by {
        assert(Json::counts(fields@, i));
    }
    assert forall|key: Seq<char>| #[trigger]
        Json::Object(fields)@->Object_0.contains_key(key) implies exists|i: int|
        0 <= i < fields@.len() && (#[trigger] fields@[i]).0@ == key by {
        assert(fields_tree(fields@).contains_key(key));
    }
}

/// A member is found under its name, in an object that has it, and nowhere else; strings and arrays
/// give what they hold.
pub proof fn law_members_are_found(
    json: &Json,
    key: &str,
    member: Option<&Json>,
    text: Option<&str>,
    items: Option<&Vec<Json>>,
)
    requires
        call_ensures(Json::get, (json, key), member),
        call_ensures(Json::as_str, (json,), text),
        call_ensures(Json::as_array, (json,), items),
    ensures
        member is Some <==> json@ is Object && json@->Object_0.contains_key(key@),
        member matches Some(found) ==> found@ == json@->Object_0[key@],
        text is Some <==> json@ is Text,
        text matches Some(found) ==> found@ == json@->Text_0,
        items is Some <==> json@ is Array,
        items matches Some(found) ==> items_tree(found@) == json@->Array_0,
{
}

/// A member that is moved out is the one under its name; an object without one of its members is
/// whole again when the member is put back, and has another one in its place when another is.
pub proof fn law_members_move_out_and_back(
    json: Json,
    key: &str,
    moved: Result<Json, Json>,
    parts: Result<(Hole, Json), Json>,
    other: Json,
    filled: Json,
)
    requires
        call_ensures(Json::into_member, (json, key), moved),
        call_ensures(Json::detach, (json, key), parts),
        parts is Ok ==> call_ensures(Hole::fill, (parts->Ok_0.0, other), filled),
    ensures
        moved is Ok <==> json@ is Object && json@->Object_0.contains_key(key@),
        moved matches Ok(member) ==> member@ == json@->Object_0[key@],
        moved matches Err(whole) ==> whole@ == json@,
        parts is Ok <==> json@ is Object && json@->Object_0.contains_key(key@),
        parts matches Ok((hole, member)) ==> member@ == json@->Object_0[key@] && filled@
            == JsonTree::Object(json@->Object_0.insert(key@, other@)),
        parts matches Err(whole) ==> whole@ == json@,
{
}

/// A document that is built says what was put into it.
pub proof fn law_built_document(
    text: &str,
    number: u64,
    json: Json,
    key: &str,
    member: Json,
    string: Json,
    integer: Json,
    empty: Json,
    longer: Json,
)
    requires
        call_ensures(Json::text, (text,), string),
        call_ensures(Json::integer, (number,), integer),
        call_ensures(Json::object, (), empty),
        call_ensures(Json::with, (json, key, member), longer),
    ensures
        string@ == JsonTree::Text(text@),
        integer@ == JsonTree::Number(json_integer(number)),
        empty@ is Object,
        empty@->Object_0.dom() == Set::<Seq<char>>::empty(),
        !(json@ is Object) ==> longer@ == json@,
        json@ is Object ==> {
            &&& longer@ is Object
            &&& longer@->Object_0.contains_key(key@)
            &&& longer@->Object_0[key@] == member@
            &&& forall|other: Seq<char>|
                other != key@ ==> (#[trigger] longer@->Object_0.contains_key(other)
                    <==> json@->Object_0.contains_key(other))
            &&& forall|other: Seq<char>|
                other != key@ && json@->Object_0.contains_key(other) ==> #[trigger]
                longer@->Object_0[other] == json@->Object_0[other]
        },
{
}

/// Two documents that say the same are written the same, and a text that is a document is read as one
/// thing only. A value of the JSON crate and the document made of it say the same.
pub proof fn law_documents_are_what_they_say(
    one: Json,
    other: Json,
    one_text: String,
    other_text: String,
    text: &str,
    read: Option<Json>,
    value: serde_json::Value,
    json: Json,
    back: serde_json::Value,
)
    requires
        call_ensures(render_json, (one,), one_text),
        call_ensures(render_json, (other,), other_text),
        call_ensures(parse_json, (text,), read),
        call_ensures(json_of_value, (value,), json),
        call_ensures(value_of_json, (json,), back),
    ensures
        one@ == other@ ==> one_text@ == other_text@,
        one_text@ == json_render(one@),
        read is Some <==> json_parse(text@) is Some,
        read matches Some(document) ==> json_parse(text@) == Some(document@),
        json@ == value_tree(value),
        value_tree(back) == value_tree(value),
{
}

} // verus!
