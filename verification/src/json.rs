//! JSON documents: a tree type of plain values, and its reading and writing by `serde_json`.

use crate::text;
use vstd::prelude::*;

verus! {

/// `serde_json::Value`, opaque.
#[verifier::external_type_specification]
#[verifier::external_body]
pub struct ExValue(serde_json::Value);

/// `serde_json::Number`, opaque: a JSON number is carried, never computed with.
#[verifier::external_type_specification]
#[verifier::external_body]
pub struct ExNumber(serde_json::Number);

/// What a JSON document says, without the order of the members of its objects.
pub enum JsonTree {
    Null,
    Bool(bool),
    Number(serde_json::Number),
    Text(Seq<char>),
    Array(Seq<JsonTree>),
    Object(Map<Seq<char>, JsonTree>),
}

impl JsonTree {
    /// The member `key` of an object.
    pub open spec fn member(self, key: Seq<char>) -> Option<JsonTree> {
        match self {
            JsonTree::Object(fields) => if fields.contains_key(key) {
                Some(fields[key])
            } else {
                None
            },
            _ => None,
        }
    }

    /// The characters of a string.
    pub open spec fn characters(self) -> Option<Seq<char>> {
        match self {
            JsonTree::Text(s) => Some(s),
            _ => None,
        }
    }

    /// The items of an array.
    pub open spec fn items(self) -> Option<Seq<JsonTree>> {
        match self {
            JsonTree::Array(items) => Some(items),
            _ => None,
        }
    }
}

/// A JSON document. Where an object names a member twice, the later one counts.
#[derive(Debug, PartialEq, Eq)]
pub enum Json {
    Null,
    Bool(bool),
    Number(serde_json::Number),
    Text(String),
    Array(Vec<Json>),
    Object(Vec<(String, Json)>),
}

/// What `json` says.
pub open spec fn json_tree(json: Json) -> JsonTree
    decreases json,
{
    match json {
        Json::Null => JsonTree::Null,
        Json::Bool(b) => JsonTree::Bool(b),
        Json::Number(n) => JsonTree::Number(n),
        Json::Text(s) => JsonTree::Text(s@),
        Json::Array(items) => JsonTree::Array(items_tree(items@)),
        Json::Object(fields) => JsonTree::Object(fields_tree(fields@)),
    }
}

/// What the items of an array say, one by one.
pub open spec fn items_tree(items: Seq<Json>) -> Seq<JsonTree>
    decreases items,
{
    Seq::new(
        items.len(),
        |i: int|
            if 0 <= i < items.len() {
                json_tree(items[i])
            } else {
                JsonTree::Null
            },
    )
}

/// What the members of an object say; the last one of a name counts.
pub open spec fn fields_tree(fields: Seq<(String, Json)>) -> Map<Seq<char>, JsonTree>
    decreases fields,
{
    if fields.len() == 0 {
        Map::empty()
    } else {
        let rest = fields_tree(fields.drop_first());
        if rest.contains_key(fields[0].0@) {
            rest
        } else {
            rest.insert(fields[0].0@, json_tree(fields[0].1))
        }
    }
}

impl View for Json {
    type V = JsonTree;

    open spec fn view(&self) -> JsonTree {
        json_tree(*self)
    }
}

/// No two members share a name.
pub open spec fn distinct_names<T>(fields: Seq<(String, T)>) -> bool {
    forall|i: int, j: int|
        0 <= i < j < fields.len() ==> (#[trigger] fields[i]).0@ != (#[trigger] fields[j]).0@
}

/// A name is a member's exactly if one of the fields has it.
proof fn lemma_fields_dom(fields: Seq<(String, Json)>)
    ensures
        forall|k: Seq<char>| #[trigger]
            fields_tree(fields).contains_key(k) <==> exists|i: int|
                0 <= i < fields.len() && (#[trigger] fields[i]).0@ == k,
    decreases fields.len(),
{
    if fields.len() > 0 {
        let rest = fields.drop_first();
        lemma_fields_dom(rest);
        assert forall|k: Seq<char>| #[trigger] fields_tree(fields).contains_key(k) <==> exists|i: int|
            0 <= i < fields.len() && (#[trigger] fields[i]).0@ == k by {
            if exists|i: int| 0 <= i < fields.len() && (#[trigger] fields[i]).0@ == k {
                let i = choose|i: int| 0 <= i < fields.len() && (#[trigger] fields[i]).0@ == k;
                if i > 0 {
                    assert(rest[i - 1].0@ == k);
                }
            }
            if fields_tree(rest).contains_key(k) {
                let j = choose|j: int| 0 <= j < rest.len() && (#[trigger] rest[j]).0@ == k;
                assert(fields[j + 1].0@ == k);
            }
        }
    }
}

/// The last field with a name says what the member is.
proof fn lemma_last_field_counts(fields: Seq<(String, Json)>, i: int)
    requires
        0 <= i < fields.len(),
        forall|j: int| i < j < fields.len() ==> (#[trigger] fields[j]).0@ != fields[i].0@,
    ensures
        fields_tree(fields).contains_key(fields[i].0@),
        fields_tree(fields)[fields[i].0@] == json_tree(fields[i].1),
    decreases fields.len(),
{
    let rest = fields.drop_first();
    lemma_fields_dom(rest);
    if i > 0 {
        assert(rest[i - 1] == fields[i]);
        assert forall|j: int| i - 1 < j < rest.len() implies (#[trigger] rest[j]).0@ != rest[i
            - 1].0@ by {
            assert(rest[j] == fields[j + 1]);
        }
        lemma_last_field_counts(rest, i - 1);
    } else {
        if fields_tree(rest).contains_key(fields[0].0@) {
            let j = choose|j: int| 0 <= j < rest.len() && (#[trigger] rest[j]).0@ == fields[0].0@;
            assert(fields[j + 1].0@ == fields[0].0@);
        }
    }
}

/// An object without one of its members.
pub struct Hole {
    fields: Vec<(String, Json)>,
    at: usize,
    name: String,
}

impl Hole {
    /// What the object says with `member` in the place of the one that is missing.
    pub closed spec fn filled(self, member: JsonTree) -> JsonTree {
        JsonTree::Object(fields_tree(self.fields@).insert(self.name@, member))
    }

    /// The missing member was the last one of its name.
    #[verifier::type_invariant]
    spec fn last_of_its_name(self) -> bool {
        &&& self.at <= self.fields@.len()
        &&& forall|j: int|
            self.at <= j < self.fields@.len() ==> (#[trigger] self.fields@[j]).0@ != self.name@
    }

    /// The object with `member` in the place of the one that is missing.
    pub fn fill(self, member: Json) -> (json: Json)
        ensures
            json@ == self.filled(member@),
    {
        proof {
            use_type_invariant(&self);
            Json::lemma_insert_field(self.fields@, self.at as int, (self.name, member));
        }
        let Hole { fields, at, name } = self;
        let mut fields = fields;
        fields.insert(at, (name, member));
        Json::Object(fields)
    }
}

impl Json {
    /// Position of the last field named `key`.
    fn field_position(fields: &Vec<(String, Json)>, key: &str) -> (at: Option<usize>)
        ensures
            match at {
                Some(i) => Self::counts(fields@, i as int) && fields@[i as int].0@ == key@ && fields_tree(
                    fields@,
                ).contains_key(key@) && fields_tree(fields@)[key@] == fields@[i as int].1@,
                None => !fields_tree(fields@).contains_key(key@),
            },
    {
        let mut i: usize = fields.len();
        while i > 0
            invariant
                i <= fields@.len(),
                forall|j: int| i <= j < fields@.len() ==> (#[trigger] fields@[j]).0@ != key@,
            decreases i,
        {
            if text::same(fields[i - 1].0.as_str(), key) {
                proof {
                    lemma_last_field_counts(fields@, i - 1);
                }
                return Some(i - 1);
            }
            i = i - 1;
        }
        proof {
            lemma_fields_dom(fields@);
        }
        None
    }

    /// The field at `i` is the last one of its name.
    pub open spec fn counts(fields: Seq<(String, Json)>, i: int) -> bool {
        &&& 0 <= i < fields.len()
        &&& forall|j: int| i < j < fields.len() ==> (#[trigger] fields[j]).0@ != fields[i].0@
    }

    /// Whether the field at `i` is the last one of its name.
    pub fn field_counts(fields: &Vec<(String, Json)>, i: usize) -> (last: bool)
        requires
            i < fields@.len(),
        ensures
            last == Self::counts(fields@, i as int),
    {
        let mut j: usize = fields.len();
        while j > i + 1
            invariant
                i < j <= fields@.len(),
                forall|k: int|
                    j <= k < fields@.len() ==> (#[trigger] fields@[k]).0@ != fields@[i as int].0@,
            decreases j,
        {
            j = j - 1;
            if fields[j].0 == fields[i].0 {
                return false;
            }
        }
        true
    }

    /// The members of an object are the fields that are the last of their names.
    pub proof fn lemma_counts(fields: Seq<(String, Json)>)
        ensures
            forall|i: int| #[trigger]
                Self::counts(fields, i) ==> fields_tree(fields).contains_key(fields[i].0@)
                    && fields_tree(fields)[fields[i].0@] == fields[i].1@,
            forall|k: Seq<char>| #[trigger]
                fields_tree(fields).contains_key(k) ==> exists|i: int|
                    0 <= i < fields.len() && Self::counts(fields, i) && (#[trigger] fields[i]).0@
                        == k,
    {
        lemma_fields_dom(fields);
        assert forall|i: int| #[trigger] Self::counts(fields, i) implies fields_tree(
            fields,
        ).contains_key(fields[i].0@) && fields_tree(fields)[fields[i].0@] == fields[i].1@ by {
            lemma_last_field_counts(fields, i);
        }
        assert forall|k: Seq<char>| #[trigger]
            fields_tree(fields).contains_key(k) implies exists|i: int|
            0 <= i < fields.len() && Self::counts(fields, i) && (#[trigger] fields[i]).0@ == k by {
            let i = choose|i: int| 0 <= i < fields.len() && (#[trigger] fields[i]).0@ == k;
            Self::lemma_last_of_name(fields, k, i);
        }
    }

    proof fn lemma_last_of_name(fields: Seq<(String, Json)>, k: Seq<char>, i: int)
        requires
            0 <= i < fields.len(),
            fields[i].0@ == k,
        ensures
            exists|j: int|
                0 <= j < fields.len() && Self::counts(fields, j) && (#[trigger] fields[j]).0@ == k,
        decreases fields.len() - i,
    {
        if !Self::counts(fields, i) {
            let j = choose|j: int|
                i < j < fields.len() && (#[trigger] fields[j]).0@ == fields[i].0@;
            Self::lemma_last_of_name(fields, k, j);
        }
    }

    /// A field put where no later one has its name says what its member is and leaves the others
    /// as they were.
    proof fn lemma_insert_field(fields: Seq<(String, Json)>, at: int, field: (String, Json))
        requires
            0 <= at <= fields.len(),
            forall|j: int| at <= j < fields.len() ==> (#[trigger] fields[j]).0@ != field.0@,
        ensures
            fields_tree(fields.insert(at, field)) == fields_tree(fields).insert(field.0@, field.1@),
        decreases fields.len(),
    {
        let longer = fields.insert(at, field);
        lemma_fields_dom(fields);
        if at == 0 {
            assert(longer.drop_first() =~= fields);
            assert(fields_tree(longer) =~= fields_tree(fields).insert(field.0@, field.1@));
        } else {
            let rest = fields.drop_first();
            assert forall|j: int| at - 1 <= j < rest.len() implies (#[trigger] rest[j]).0@
                != field.0@ by {
                assert(rest[j] == fields[j + 1]);
            }
            Self::lemma_insert_field(rest, at - 1, field);
            assert(longer.drop_first() =~= rest.insert(at - 1, field));
            assert(fields_tree(longer) =~= fields_tree(fields).insert(field.0@, field.1@));
        }
    }

    /// Takes the member `key` out of an object; the document back where it is no object or has no
    /// such member.
    pub fn detach(self, key: &str) -> (parts: Result<(Hole, Json), Json>)
        ensures
            match parts {
                Ok((hole, member)) => {
                    &&& self@.member(key@) == Some(member@)
                    &&& self@ == hole.filled(member@)
                    &&& forall|other: JsonTree| #[trigger]
                        hole.filled(other) == JsonTree::Object(self@->Object_0.insert(key@, other))
                },
                Err(json) => self@.member(key@) is None && json == self,
            },
    {
        match self {
            Json::Object(fields) => {
                let mut fields = fields;
                let ghost all = fields@;
                match Self::field_position(&fields, key) {
                    Some(at) => {
                        let (name, member) = fields.remove(at);
                        proof {
                            assert(fields@.insert(at as int, (name, member)) =~= all);
                            assert forall|j: int| at <= j < fields@.len() implies (
                            #[trigger] fields@[j]).0@ != name@ by {
                                assert(fields@[j] == all[j + 1]);
                            }
                            Self::lemma_insert_field(fields@, at as int, (name, member));
                        }
                        let hole = Hole { fields, at, name };
                        assert forall|other: JsonTree| #[trigger]
                            hole.filled(other) == JsonTree::Object(
                                self@->Object_0.insert(key@, other),
                            ) by {
                            assert(fields_tree(hole.fields@).insert(key@, other)
                                =~= self@->Object_0.insert(key@, other));
                        }
                        Ok((hole, member))
                    },
                    None => Err(Json::Object(fields)),
                }
            },
            other => Err(other),
        }
    }

    /// The member `key` of an object.
    pub fn get(&self, key: &str) -> (member: Option<&Json>)
        ensures
            match member {
                Some(json) => self@.member(key@) == Some(json@),
                None => self@.member(key@) is None,
            },
    {
        match self {
            Json::Object(fields) => match Self::field_position(fields, key) {
                Some(i) => Some(&fields[i].1),
                None => None,
            },
            _ => None,
        }
    }

    /// The characters of a string.
    pub fn as_str(&self) -> (s: Option<&str>)
        ensures
            match s {
                Some(s) => self@.characters() == Some(s@),
                None => self@.characters() is None,
            },
    {
        match self {
            Json::Text(s) => Some(s.as_str()),
            _ => None,
        }
    }

    /// The items of an array.
    pub fn as_array(&self) -> (items: Option<&Vec<Json>>)
        ensures
            match items {
                Some(items) => self@.items() == Some(items_tree(items@)),
                None => self@.items() is None,
            },
    {
        match self {
            Json::Array(items) => Some(items),
            _ => None,
        }
    }

    /// The member `key` of an object, moved out of it.
    pub fn into_member(self, key: &str) -> (member: Result<Json, Json>)
        ensures
            match member {
                Ok(json) => self@.member(key@) == Some(json@),
                Err(json) => self@.member(key@) is None && json == self,
            },
    {
        match self {
            Json::Object(mut fields) => match Self::field_position(&fields, key) {
                Some(i) => Ok(fields.swap_remove(i).1),
                None => Err(Json::Object(fields)),
            },
            other => Err(other),
        }
    }
}

/// What a `serde_json::Value` says: its variants as those of [`JsonTree`], its map of members by
/// name.
pub uninterp spec fn value_tree(value: serde_json::Value) -> JsonTree;

/// What `serde_json::from_str` makes of a text; `None` where it reports an error.
pub uninterp spec fn json_parse(text: Seq<char>) -> Option<JsonTree>;

/// The text that `serde_json::to_string` writes for a document.
pub uninterp spec fn json_render(tree: JsonTree) -> Seq<char>;

/// The number that `serde_json::Number::from` makes of an unsigned integer.
pub uninterp spec fn json_integer(n: u64) -> serde_json::Number;

/// The outermost layer of a `serde_json::Value`.
pub enum Layer {
    Null,
    Bool(bool),
    Number(serde_json::Number),
    Text(String),
    Items(Vec<serde_json::Value>),
    Fields(Vec<(String, serde_json::Value)>),
}

/// What the members of an object say, where no two share a name.
pub open spec fn value_fields(fields: Seq<(String, serde_json::Value)>) -> Map<Seq<char>, JsonTree>
    decreases fields.len(),
{
    if fields.len() == 0 {
        Map::empty()
    } else {
        value_fields(fields.drop_last()).insert(fields.last().0@, value_tree(fields.last().1))
    }
}

/// What a value with this outermost layer says.
pub open spec fn layer_tree(layer: Layer) -> JsonTree {
    match layer {
        Layer::Null => JsonTree::Null,
        Layer::Bool(b) => JsonTree::Bool(b),
        Layer::Number(n) => JsonTree::Number(n),
        Layer::Text(s) => JsonTree::Text(s@),
        Layer::Items(items) => JsonTree::Array(
            Seq::new(items@.len(), |i: int| value_tree(items@[i])),
        ),
        Layer::Fields(fields) => JsonTree::Object(value_fields(fields@)),
    }
}

/// The members of a layer, if it has any, have names of their own.
pub open spec fn layer_distinct(layer: Layer) -> bool {
    layer matches Layer::Fields(fields) ==> distinct_names(fields@)
}

/// `serde_json::from_str` into a `serde_json::Value`: whether the text is a document, and what
/// the document says, depend on the text alone.
#[verifier::external_body]
fn read_value(text: &str) -> (value: Option<serde_json::Value>)
    ensures
        match value {
            Some(v) => json_parse(text@) == Some(value_tree(v)),
            None => json_parse(text@) is None,
        },
{
    serde_json::from_str::<serde_json::Value>(text).ok()
}

/// `serde_json::to_string` of a `serde_json::Value`: the text depends on what the value says
/// alone. (Members are written in the order of their names.)
#[verifier::external_body]
fn write_value(value: &serde_json::Value) -> (text: String)
    ensures
        text@ == json_render(value_tree(*value)),
{
    serde_json::to_string(value).unwrap_or_default()
}

/// `serde_json::Number::from` an unsigned integer.
#[verifier::external_body]
fn number_of(n: u64) -> (number: serde_json::Number)
    ensures
        number == json_integer(n),
{
    serde_json::Number::from(n)
}

/// `serde_json::Number::clone` gives the same number.
#[verifier::external_body]
pub(crate) fn copy_number(number: &serde_json::Number) -> (copy: serde_json::Number)
    ensures
        copy == *number,
{
    number.clone()
}

/// Takes a `serde_json::Value` apart into the fields of its variant. The members of a
/// `serde_json::Map` have distinct names.
#[verifier::external_body]
fn open_value(value: serde_json::Value) -> (layer: Layer)
    ensures
        layer_tree(layer) == value_tree(value),
        layer_distinct(layer),
{
    match value {
        serde_json::Value::Null => Layer::Null,
        serde_json::Value::Bool(b) => Layer::Bool(b),
        serde_json::Value::Number(n) => Layer::Number(n),
        serde_json::Value::String(s) => Layer::Text(s),
        serde_json::Value::Array(items) => Layer::Items(items),
        serde_json::Value::Object(fields) => Layer::Fields(fields.into_iter().collect()),
    }
}

/// Puts a `serde_json::Value` together from the fields of its variant, the members of an object
/// collected into a `serde_json::Map`.
#[verifier::external_body]
fn close_value(layer: Layer) -> (value: serde_json::Value)
    requires
        layer_distinct(layer),
    ensures
        value_tree(value) == layer_tree(layer),
{
    match layer {
        Layer::Null => serde_json::Value::Null,
        Layer::Bool(b) => serde_json::Value::Bool(b),
        Layer::Number(n) => serde_json::Value::Number(n),
        Layer::Text(s) => serde_json::Value::String(s),
        Layer::Items(items) => serde_json::Value::Array(items),
        Layer::Fields(fields) => serde_json::Value::Object(fields.into_iter().collect()),
    }
}

/// Members with distinct names: each name says what its field says, and there are no others.
proof fn lemma_value_fields(fields: Seq<(String, serde_json::Value)>)
    requires
        distinct_names(fields),
    ensures
        forall|i: int|
            0 <= i < fields.len() ==> value_fields(fields).contains_key((#[trigger] fields[i]).0@)
                && value_fields(fields)[fields[i].0@] == value_tree(fields[i].1),
        forall|k: Seq<char>| #[trigger]
            value_fields(fields).contains_key(k) ==> exists|i: int|
                0 <= i < fields.len() && (#[trigger] fields[i]).0@ == k,
        value_fields(fields).dom().finite(),
    decreases fields.len(),
{
    if fields.len() > 0 {
        let front = fields.drop_last();
        lemma_value_fields(front);
        assert forall|i: int| 0 <= i < fields.len() implies value_fields(fields).contains_key(
            (#[trigger] fields[i]).0@,
        ) && value_fields(fields)[fields[i].0@] == value_tree(fields[i].1) by {
            if i < front.len() {
                assert(front[i] == fields[i]);
            }
        }
        assert forall|k: Seq<char>| #[trigger]
            value_fields(fields).contains_key(k) implies exists|i: int|
            0 <= i < fields.len() && (#[trigger] fields[i]).0@ == k by {
            if k == fields.last().0@ {
                assert(fields[fields.len() - 1].0@ == k);
            } else {
                let i = choose|i: int| 0 <= i < front.len() && (#[trigger] front[i]).0@ == k;
                assert(fields[i].0@ == k);
            }
        }
    }
}

/// Fields that agree one by one, with distinct names, say the same.
proof fn lemma_same_fields(
    fields: Seq<(String, Json)>,
    values: Seq<(String, serde_json::Value)>,
)
    requires
        distinct_names(values),
        fields.len() == values.len(),
        forall|i: int|
            0 <= i < fields.len() ==> (#[trigger] fields[i]).0 == values[i].0 && fields[i].1@
                == value_tree(values[i].1),
    ensures
        fields_tree(fields) == value_fields(values),
{
    lemma_fields_dom(fields);
    lemma_value_fields(values);
    let a = fields_tree(fields);
    let b = value_fields(values);
    assert forall|k: Seq<char>| #[trigger] a.contains_key(k) <==> b.contains_key(k) by {
        if b.contains_key(k) {
            let i = choose|i: int| 0 <= i < values.len() && (#[trigger] values[i]).0@ == k;
            assert(fields[i].0@ == k);
        }
        if a.contains_key(k) {
            let i = choose|i: int| 0 <= i < fields.len() && (#[trigger] fields[i]).0@ == k;
            assert(values[i].0@ == k);
        }
    }
    assert forall|k: Seq<char>| #[trigger] a.contains_key(k) implies a[k] == b[k] by {
        let i = choose|i: int| 0 <= i < fields.len() && (#[trigger] fields[i]).0@ == k;
        assert forall|j: int| i < j < fields.len() implies (#[trigger] fields[j]).0@
            != fields[i].0@ by {
            assert(values[i].0@ != values[j].0@);
        }
        lemma_last_field_counts(fields, i);
        assert(values[i].0@ == k);
    }
    assert(a =~= b);
}

/// The document that `value` is.
pub fn json_of_value(value: serde_json::Value) -> (json: Json)
    ensures
        json@ == value_tree(value),
    decreases value_tree(value),
{
    match open_value(value) {
        Layer::Null => Json::Null,
        Layer::Bool(b) => Json::Bool(b),
        Layer::Number(n) => Json::Number(n),
        Layer::Text(s) => Json::Text(s),
        Layer::Items(items) => {
            let ghost all = items@;
            let mut out: Vec<Json> = Vec::new();
            for v in it: items.into_iter()
                invariant
                    it.seq() == all,
                    value_tree(value) == JsonTree::Array(
                        Seq::new(all.len(), |i: int| value_tree(all[i])),
                    ),
                    out@.len() == it.index(),
                    forall|i: int| 0 <= i < out@.len() ==> (#[trigger] out@[i])@ == value_tree(all[i]),
            {
                proof {
                    let trees = Seq::new(all.len(), |i: int| value_tree(all[i]));
                    assert(trees[it.index() as int] == value_tree(v));
                    let tree = value_tree(value);
                    assert(trees == tree->Array_0);
                    assert(decreases_to!(tree => tree->Array_0));
                    assert(decreases_to!(trees => trees[it.index() as int]));
                }
                out.push(json_of_value(v));
            }
            assert(items_tree(out@) =~= Seq::new(all.len(), |i: int| value_tree(all[i])));
            Json::Array(out)
        },
        Layer::Fields(fields) => {
            let ghost all = fields@;
            let mut out: Vec<(String, Json)> = Vec::new();
            for field in it: fields.into_iter()
                invariant
                    it.seq() == all,
                    distinct_names(all),
                    value_tree(value) == JsonTree::Object(value_fields(all)),
                    out@.len() == it.index(),
                    forall|i: int|
                        0 <= i < out@.len() ==> (#[trigger] out@[i]).0 == all[i].0 && out@[i].1@
                            == value_tree(all[i].1),
            {
                proof {
                    lemma_value_fields(all);
                    let members = value_fields(all);
                    let name = all[it.index() as int].0@;
                    let tree = value_tree(value);
                    assert(members == tree->Object_0);
                    assert(decreases_to!(tree => tree->Object_0));
                    assert(decreases_to!(members => members[name]));
                }
                let (name, v) = field;
                out.push((name, json_of_value(v)));
            }
            proof {
                lemma_same_fields(out@, all);
            }
            Json::Object(out)
        },
    }
}

/// Whether one of `fields` is named `key`.
fn has_name(fields: &Vec<(String, serde_json::Value)>, key: &String) -> (found: bool)
    ensures
        found == exists|i: int| 0 <= i < fields@.len() && (#[trigger] fields@[i]).0@ == key@,
{
    let mut i: usize = 0;
    while i < fields.len()
        invariant
            i <= fields@.len(),
            forall|j: int| 0 <= j < i ==> (#[trigger] fields@[j]).0@ != key@,
        decreases fields@.len() - i,
    {
        if fields[i].0 == *key {
            return true;
        }
        i = i + 1;
    }
    false
}

/// The `serde_json::Value` of a document.
pub fn value_of_json(json: Json) -> (value: serde_json::Value)
    ensures
        value_tree(value) == json@,
    decreases json,
{
    match json {
        Json::Null => close_value(Layer::Null),
        Json::Bool(b) => close_value(Layer::Bool(b)),
        Json::Number(n) => close_value(Layer::Number(n)),
        Json::Text(s) => close_value(Layer::Text(s)),
        Json::Array(items) => {
            let ghost all = items@;
            let mut out: Vec<serde_json::Value> = Vec::new();
            for item in it: items.into_iter()
                invariant
                    it.seq() == all,
                    all == json->Array_0@,
                    json is Array,
                    out@.len() == it.index(),
                    forall|i: int| 0 <= i < out@.len() ==> value_tree(#[trigger] out@[i]) == all[i]@,
            {
                proof {
                    assert(decreases_to!(json => json->Array_0));
                    assert(decreases_to!(json->Array_0 => json->Array_0@));
                    assert(decreases_to!(all => all[it.index() as int]));
                }
                out.push(value_of_json(item));
            }
            assert(items_tree(all) =~= Seq::new(out@.len(), |i: int| value_tree(out@[i])));
            close_value(Layer::Items(out))
        },
        Json::Object(fields) => {
            let ghost all = fields@;
            let mut rest = fields;
            let mut out: Vec<(String, serde_json::Value)> = Vec::new();
            assert(fields_tree(all.skip(all.len() as int)) =~= value_fields(out@));
            while rest.len() > 0
                invariant
                    json is Object,
                    all == json->Object_0@,
                    rest@.len() <= all.len(),
                    rest@ == all.take(rest@.len() as int),
                    distinct_names(out@),
                    value_fields(out@) == fields_tree(all.skip(rest@.len() as int)),
                decreases rest@.len(),
            {
                let ghost n = rest@.len() as int;
                let ghost before = out@;
                proof {
                    lemma_value_fields(out@);
                    assert(decreases_to!(json => json->Object_0));
                    assert(decreases_to!(json->Object_0 => json->Object_0@));
                    assert(decreases_to!(all => all[n - 1]));
                    assert(all.skip(n - 1).drop_first() =~= all.skip(n));
                    assert(rest@[n - 1] == all[n - 1]);
                }
                if let Some((name, member)) = rest.pop() {
                    assert(rest@ =~= all.take(n - 1));
                    if !has_name(&out, &name) {
                        out.push((name, value_of_json(member)));
                        assert(out@.drop_last() =~= before);
                    }
                }
            }
            assert(all.skip(0) =~= all);
            close_value(Layer::Fields(out))
        },
    }
}

/// Reads a document; `None` where the text is none.
pub fn parse_json(text: &str) -> (json: Option<Json>)
    ensures
        match json {
            Some(json) => json_parse(text@) == Some(json@),
            None => json_parse(text@) is None,
        },
{
    match read_value(text) {
        Some(value) => Some(json_of_value(value)),
        None => None,
    }
}

/// Writes a document.
pub fn render_json(json: Json) -> (text: String)
    ensures
        text@ == json_render(json@),
{
    write_value(&value_of_json(json))
}

/// A field at the end says what its member is and leaves the others as they were.
proof fn lemma_push_field(fields: Seq<(String, Json)>, field: (String, Json))
    ensures
        fields_tree(fields.push(field)) == fields_tree(fields).insert(field.0@, field.1@),
    decreases fields.len(),
{
    let longer = fields.push(field);
    if fields.len() == 0 {
        assert(longer.drop_first() =~= fields);
        assert(fields_tree(longer) =~= fields_tree(fields).insert(field.0@, field.1@));
    } else {
        let rest = fields.drop_first();
        lemma_push_field(rest, field);
        assert(longer.drop_first() =~= rest.push(field));
        assert(fields_tree(longer) =~= fields_tree(fields).insert(field.0@, field.1@));
    }
}

impl Json {
    /// The string `s`.
    pub fn text(s: &str) -> (json: Json)
        ensures
            json@ == JsonTree::Text(s@),
    {
        Json::Text(s.to_owned())
    }

    /// The number `n`.
    pub fn integer(n: u64) -> (json: Json)
        ensures
            json@ == JsonTree::Number(json_integer(n)),
    {
        Json::Number(number_of(n))
    }

    /// The object without members.
    pub fn object() -> (json: Json)
        ensures
            json@ == JsonTree::Object(Map::empty()),
    {
        Json::Object(Vec::new())
    }

    /// An object with the member `key` set; anything else as it was.
    pub fn with(self, key: &str, member: Json) -> (json: Json)
        ensures
            json@ == match self@ {
                JsonTree::Object(fields) => JsonTree::Object(fields.insert(key@, member@)),
                other => other,
            },
    {
        match self {
            Json::Object(fields) => {
                let mut fields = fields;
                let field = (key.to_owned(), member);
                proof {
                    lemma_push_field(fields@, field);
                }
                fields.push(field);
                Json::Object(fields)
            },
            other => other,
        }
    }
}

} // verus!
