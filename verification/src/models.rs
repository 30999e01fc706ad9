//! The documents that describe models.

use crate::json::{copy_number, items_tree, json_integer, Json, JsonTree};
use crate::text;
use vstd::prelude::*;
use vstd::string::*;

verus! {

/// The model that a document names in its member `model`; empty where it names none.
pub open spec fn named_model(body: JsonTree) -> Seq<char> {
    match body.member("model"@) {
        Some(JsonTree::Text(name)) => name,
        _ => Seq::empty(),
    }
}

/// A refusal: an HTTP status and a message.
pub struct Refusal {
    pub status: u16,
    pub message: String,
}

/// The model whose capabilities `body` asks for; a refusal where it names none.
pub fn requested_model(body: &Json) -> (model: Result<String, Refusal>)
    ensures
        match model {
            Ok(name) => named_model(body@).len() > 0 && name@ == named_model(body@),
            Err(refusal) => named_model(body@).len() == 0 && refusal.status == 400
                && refusal.message@ == "Missing 'model' field"@,
        },
{
    let name = match body.get("model") {
        Some(member) => match member.as_str() {
            Some(name) => name.to_owned(),
            None => String::new(),
        },
        None => String::new(),
    };
    if name.as_str().is_empty() {
        return Err(Refusal { status: 400, message: "Missing 'model' field".to_owned() });
    }
    Ok(name)
}

/// What is said of a model and its capabilities.
pub open spec fn description(
    model_name: Seq<char>,
    mapped_model: Seq<char>,
    request_type: Seq<char>,
    has_web_search: bool,
    image_config: Option<JsonTree>,
) -> JsonTree {
    let features = JsonTree::Object(
        map![
        "has_web_search"@ => JsonTree::Bool(has_web_search),
        "is_image_gen"@ => JsonTree::Bool(request_type == "image_gen"@)
    ],
    );
    let fields =
        map![
        "model"@ => JsonTree::Text(model_name),
        "mapped_model"@ => JsonTree::Text(mapped_model),
        "type"@ => JsonTree::Text(request_type),
        "features"@ => features
    ];
    match image_config {
        Some(config) => JsonTree::Object(fields.insert("config"@, config)),
        None => JsonTree::Object(fields),
    }
}

/// Describes a model and its capabilities.
pub fn describe_model(
    model_name: &str,
    mapped_model: &str,
    request_type: &str,
    has_web_search: bool,
    image_config: Option<Json>,
) -> (document: Json)
    ensures
        document@ == description(
            model_name@,
            mapped_model@,
            request_type@,
            has_web_search,
            match image_config {
                Some(config) => Some(config@),
                None => None,
            },
        ),
{
    let features = Json::object().with("has_web_search", Json::Bool(has_web_search)).with(
        "is_image_gen",
        Json::Bool(text::same(request_type, "image_gen")),
    );
    let document = Json::object().with("model", Json::text(model_name)).with(
        "mapped_model",
        Json::text(mapped_model),
    ).with("type", Json::text(request_type)).with("features", features);
    match image_config {
        Some(config) => document.with("config", config),
        None => document,
    }
}

/// The entry of a model in the list of models.
pub open spec fn listing(
    id: Seq<char>,
    temperature: serde_json::Number,
    top_p: serde_json::Number,
) -> JsonTree {
    JsonTree::Object(
        map![
        "name"@ => JsonTree::Text("models/"@ + id),
        "version"@ => JsonTree::Text("001"@),
        "displayName"@ => JsonTree::Text(id),
        "description"@ => JsonTree::Text(""@),
        "inputTokenLimit"@ => JsonTree::Number(json_integer(128000)),
        "outputTokenLimit"@ => JsonTree::Number(json_integer(8192)),
        "supportedGenerationMethods"@ => JsonTree::Array(
            seq![JsonTree::Text("generateContent"@), JsonTree::Text("countTokens"@)]),
        "temperature"@ => JsonTree::Number(temperature),
        "topP"@ => JsonTree::Number(top_p),
        "topK"@ => JsonTree::Number(json_integer(64))
    ],
    )
}

/// Lists a model. The two numbers that are not integers come from the caller.
pub fn list_model(
    id: &str,
    temperature: serde_json::Number,
    top_p: serde_json::Number,
) -> (entry: Json)
    ensures
        entry@ == listing(id@, temperature, top_p),
{
    let mut methods: Vec<Json> = Vec::new();
    methods.push(Json::text("generateContent"));
    methods.push(Json::text("countTokens"));
    assert(items_tree(methods@) =~= seq![
        JsonTree::Text("generateContent"@),
        JsonTree::Text("countTokens"@),
    ]);
    Json::object().with("name", Json::Text(qualified_name(id))).with("version", Json::text("001")).with(
        "displayName",
        Json::text(id),
    ).with("description", Json::text("")).with("inputTokenLimit", Json::integer(128000)).with(
        "outputTokenLimit",
        Json::integer(8192),
    ).with("supportedGenerationMethods", Json::Array(methods)).with(
        "temperature",
        Json::Number(temperature),
    ).with("topP", Json::Number(top_p)).with("topK", Json::integer(64))
}

/// The entries of models in the list of models, in order.
pub open spec fn listings(
    ids: Seq<String>,
    temperature: serde_json::Number,
    top_p: serde_json::Number,
) -> Seq<JsonTree> {
    Seq::new(ids.len(), |i: int| listing(ids[i]@, temperature, top_p))
}

/// The list of these models, in order. The two numbers that are not integers come from the caller.
pub fn list_models_of(
    ids: &Vec<String>,
    temperature: serde_json::Number,
    top_p: serde_json::Number,
) -> (document: Json)
    ensures
        document@ == JsonTree::Object(
            map!["models"@ => JsonTree::Array(listings(ids@, temperature, top_p))],
        ),
{
    let mut entries: Vec<Json> = Vec::new();
    let mut i: usize = 0;
    while i < ids.len()
        invariant
            i <= ids@.len(),
            entries@.len() == i,
            forall|j: int|
                0 <= j < i ==> (#[trigger] entries@[j])@ == listing(ids@[j]@, temperature, top_p),
        decreases ids@.len() - i,
    {
        entries.push(list_model(ids[i].as_str(), copy_number(&temperature), copy_number(&top_p)));
        i = i + 1;
    }
    assert(items_tree(entries@) =~= listings(ids@, temperature, top_p));
    list_models(entries)
}

/// The list of the models with these entries.
pub fn list_models(entries: Vec<Json>) -> (document: Json)
    ensures
        document@ == JsonTree::Object(map!["models"@ => JsonTree::Array(items_tree(entries@))]),
{
    Json::object().with("models", Json::Array(entries))
}

/// The name of a model among all resources.
fn qualified_name(id: &str) -> (name: String)
    ensures
        name@ == "models/"@ + id@,
{
    let mut name = "models/".to_owned();
    name.append(id);
    name
}

/// What is said of one model by name.
pub fn summarize_model(model_name: &str) -> (document: Json)
    ensures
        document@ == JsonTree::Object(
            map![
                "name"@ => JsonTree::Text("models/"@ + model_name@),
                "displayName"@ => JsonTree::Text(model_name@)
            ],
        ),
{
    Json::object().with("name", Json::Text(qualified_name(model_name))).with(
        "displayName",
        Json::text(model_name),
    )
}

/// The answer to a request to count tokens.
pub fn no_tokens() -> (document: Json)
    ensures
        document@ == JsonTree::Object(map!["totalTokens"@ => JsonTree::Number(json_integer(0))]),
{
    Json::object().with("totalTokens", Json::integer(0))
}

/// The refusal of a request for which no account can be had.
pub fn refuse_without_token(error: &str) -> (refusal: Refusal)
    ensures
        refusal.status == 503,
        refusal.message@ == "Token error: "@ + error@,
{
    let mut message = "Token error: ".to_owned();
    message.append(error);
    Refusal { status: 503, message }
}

} // verus!
