//! The models that Codex offers.

use crate::json::{integer, lemma_member_of_extended, no_members, Json, JsonView};
use crate::model::{error_of, protocol_error, ProtocolError};
use crate::requests::AgentProvider;
use crate::text::{number_of, read_number, text_of, texts_of};
use vstd::prelude::*;

verus! {

/// A model.
#[derive(Debug)]
pub struct AgentModel {
    pub id: String,
    pub display_name: String,
    pub is_default: bool,
    pub default_reasoning_effort: Option<String>,
    pub supported_reasoning_efforts: Vec<String>,
    pub context_window_tokens: Option<u64>,
}

/// The mathematical value of a model.
pub struct ModelView {
    pub id: Seq<char>,
    pub display_name: Seq<char>,
    pub is_default: bool,
    pub default_reasoning_effort: Option<Seq<char>>,
    pub supported_reasoning_efforts: Seq<Seq<char>>,
    pub context_window_tokens: Option<u64>,
}

impl View for AgentModel {
    type V = ModelView;

    open spec fn view(&self) -> ModelView {
        ModelView {
            id: self.id@,
            display_name: self.display_name@,
            is_default: self.is_default,
            default_reasoning_effort: text_of(self.default_reasoning_effort),
            supported_reasoning_efforts: texts_of(self.supported_reasoning_efforts@),
            context_window_tokens: self.context_window_tokens,
        }
    }
}

/// The mathematical value of models.
pub open spec fn models_view(list: Seq<AgentModel>) -> Seq<ModelView> {
    list.map_values(|model: AgentModel| model@)
}

/// What is asked for the models.
pub open spec fn model_messages(version: Seq<char>) -> Seq<JsonView> {
    seq![
        no_members().with("id"@, integer(1)).with("method"@, JsonView::Text("initialize"@)).with(
            "params"@,
            no_members().with(
                "clientInfo"@,
                no_members().with("name"@, JsonView::Text("the_ditch"@)).with(
                    "title"@,
                    JsonView::Text("The Ditch"@),
                ).with("version"@, JsonView::Text(version)),
            ),
        ),
        no_members().with("method"@, JsonView::Text("initialized"@)).with("params"@, no_members()),
        no_members().with("id"@, integer(2)).with("method"@, JsonView::Text("model/list"@)).with(
            "params"@,
            no_members().with("limit"@, integer(100)).with("includeHidden"@, JsonView::Bool(false)),
        ),
    ]
}

/// What is asked for the models.
pub fn model_requests(version: &str) -> (r: Vec<Json>)
    ensures
        r@.map_values(|message: Json| message@) == model_messages(version@),
{
    let client = Json::object().with("name", Json::of_text("the_ditch")).with(
        "title",
        Json::of_text("The Ditch"),
    ).with("version", Json::of_text(version));
    let mut list: Vec<Json> = Vec::new();
    list.push(
        Json::object().with("id", Json::of_signed(1)).with("method", Json::of_text("initialize")).with(
            "params",
            Json::object().with("clientInfo", client),
        ),
    );
    list.push(
        Json::object().with("method", Json::of_text("initialized")).with("params", Json::object()),
    );
    list.push(
        Json::object().with("id", Json::of_signed(2)).with("method", Json::of_text("model/list")).with(
            "params",
            Json::object().with("limit", Json::of_signed(100)).with("includeHidden", Json::Bool(false)),
        ),
    );
    assert(list@.map_values(|message: Json| message@) =~= model_messages(version@));
    list
}

/// The levels of effort that a list names.
pub open spec fn efforts_in(items: Seq<JsonView>) -> Seq<Seq<char>>
    decreases items.len(),
{
    if items.len() == 0 {
        Seq::empty()
    } else {
        let before = efforts_in(items.drop_last());
        match items.last().text_at("reasoningEffort"@) {
            Some(effort) => before.push(effort),
            None => before,
        }
    }
}

/// The items of a member that is a list, else none.
pub open spec fn items_at(value: JsonView, key: Seq<char>) -> Seq<JsonView> {
    match value.member(key) {
        Some(list) => match list.items() {
            Some(items) => items,
            None => Seq::empty(),
        },
        None => Seq::empty(),
    }
}

/// The size of a context, as a number or as a text.
pub open spec fn tokens_in(value: JsonView) -> Option<u64> {
    match value.unsigned() {
        Some(n) => Some(n),
        None => match value.text() {
            Some(text) => number_of(text),
            None => None,
        },
    }
}

/// The size of a model's context, under the first of its names that is there.
pub open spec fn context_window(item: JsonView) -> Option<u64> {
    match item.member("contextWindowTokens"@) {
        Some(value) => tokens_in(value),
        None => match item.member("contextWindow"@) {
            Some(value) => tokens_in(value),
            None => match item.member("context_window_tokens"@) {
                Some(value) => tokens_in(value),
                None => None,
            },
        },
    }
}

/// The model that an item describes. One without an id is none.
pub open spec fn model_in(item: JsonView) -> Option<ModelView> {
    match item.text_at("id"@) {
        None => None,
        Some(id) => Some(
            ModelView {
                id,
                display_name: match item.text_at("displayName"@) {
                    Some(name) => name,
                    None => id,
                },
                is_default: match item.member("isDefault"@) {
                    Some(value) => value.truth() == Some(true),
                    None => false,
                },
                default_reasoning_effort: item.text_at("defaultReasoningEffort"@),
                supported_reasoning_efforts: efforts_in(items_at(item, "supportedReasoningEfforts"@)),
                context_window_tokens: context_window(item),
            },
        ),
    }
}

/// The models that a list describes.
pub open spec fn models_in(items: Seq<JsonView>) -> Seq<ModelView>
    decreases items.len(),
{
    if items.len() == 0 {
        Seq::empty()
    } else {
        let before = models_in(items.drop_last());
        match model_in(items.last()) {
            Some(model) => before.push(model),
            None => before,
        }
    }
}

/// What a line of the answer says.
#[derive(Debug)]
pub enum ModelLine {
    /// Nothing about models.
    Other,
    /// The models cannot be told.
    Failed(Json),
    /// The models.
    Models(Vec<AgentModel>),
}

/// The models that an answer holds.
pub open spec fn models_of(value: JsonView) -> Seq<ModelView> {
    match value.member2("result"@, "data"@) {
        Some(data) => match data.items() {
            Some(items) => models_in(items),
            None => Seq::empty(),
        },
        None => Seq::empty(),
    }
}

/// The size of a context.
fn read_tokens(value: &Json) -> (r: Option<u64>)
    ensures
        r == tokens_in(value@),
{
    match value.as_unsigned() {
        Some(n) => Some(n),
        None => match value.as_text() {
            Some(text) => read_number(text),
            None => None,
        },
    }
}

/// The levels of effort that a list names.
fn read_efforts(items: &Vec<Json>) -> (r: Vec<String>)
    ensures
        texts_of(r@) == efforts_in(items@.map_values(|item: Json| item@)),
{
    let ghost views = items@.map_values(|item: Json| item@);
    let mut list: Vec<String> = Vec::new();
    let mut i: usize = 0;
    proof {
        assert(views.take(0) =~= Seq::empty());
        assert(texts_of(list@) =~= Seq::empty());
    }
    while i < items.len()
        invariant
            0 <= i <= items.len(),
            views == items@.map_values(|item: Json| item@),
            texts_of(list@) == efforts_in(views.take(i as int)),
        decreases items.len() - i,
    {
        let ghost before = texts_of(list@);
        proof {
            assert(views.take(i + 1).drop_last() =~= views.take(i as int));
            assert(views.take(i + 1).last() == items@[i as int]@);
        }
        if let Some(effort) = items[i].text_at("reasoningEffort") {
            list.push(effort.to_owned());
            assert(texts_of(list@) =~= before.push(effort@));
        }
        i += 1;
    }
    assert(views.take(items@.len() as int) =~= views);
    list
}

/// The model that an item describes.
fn read_model(item: &Json) -> (r: Option<AgentModel>)
    ensures
        match r {
            Some(model) => model_in(item@) == Some(model@),
            None => model_in(item@) is None,
        },
{
    let id = match item.text_at("id") {
        Some(id) => id,
        None => {
            return None;
        },
    };
    let efforts = match item.get("supportedReasoningEfforts") {
        Some(value) => match value.as_items() {
            Some(items) => read_efforts(items),
            None => Vec::new(),
        },
        None => Vec::new(),
    };
    assert(texts_of(efforts@) =~= efforts_in(items_at(item@, "supportedReasoningEfforts"@)));
    let is_default = match item.get("isDefault") {
        Some(value) => match value.as_bool() {
            Some(b) => b,
            None => false,
        },
        None => false,
    };
    let context_window_tokens = match item.get("contextWindowTokens") {
        Some(value) => read_tokens(value),
        None => match item.get("contextWindow") {
            Some(value) => read_tokens(value),
            None => match item.get("context_window_tokens") {
                Some(value) => read_tokens(value),
                None => None,
            },
        },
    };
    Some(
        AgentModel {
            id: id.to_owned(),
            display_name: match item.text_at("displayName") {
                Some(name) => name.to_owned(),
                None => id.to_owned(),
            },
            is_default,
            default_reasoning_effort: match item.text_at("defaultReasoningEffort") {
                Some(effort) => Some(effort.to_owned()),
                None => None,
            },
            supported_reasoning_efforts: efforts,
            context_window_tokens,
        },
    )
}

/// What a line of the answer says.
pub fn read_models(value: &Json) -> (r: ModelLine)
    ensures
        match value@.member("id"@) {
            Some(id) if id.signed() == Some(2i64) => match value@.member("error"@) {
                Some(error) => r matches ModelLine::Failed(e) && e@ == error,
                None => r matches ModelLine::Models(list) && models_view(list@) == models_of(value@),
            },
            _ => r is Other,
        },
{
    let answers = match value.get("id") {
        Some(id) => match id.as_signed() {
            Some(n) => n == 2,
            None => false,
        },
        None => false,
    };
    if !answers {
        return ModelLine::Other;
    }
    if let Some(error) = value.get("error") {
        return ModelLine::Failed(error.copy());
    }
    let mut list: Vec<AgentModel> = Vec::new();
    assert(models_view(list@) =~= Seq::empty());
    let items = match value.get2("result", "data") {
        Some(data) => match data.as_items() {
            Some(items) => items,
            None => {
                return ModelLine::Models(list);
            },
        },
        None => {
            return ModelLine::Models(list);
        },
    };
    let ghost views = items@.map_values(|item: Json| item@);
    let mut i: usize = 0;
    assert(views.take(0) =~= Seq::empty());
    while i < items.len()
        invariant
            0 <= i <= items.len(),
            views == items@.map_values(|item: Json| item@),
            models_view(list@) == models_in(views.take(i as int)),
        decreases items.len() - i,
    {
        let ghost before = models_view(list@);
        proof {
            assert(views.take(i + 1).drop_last() =~= views.take(i as int));
            assert(views.take(i + 1).last() == items@[i as int]@);
        }
        if let Some(model) = read_model(&items[i]) {
            list.push(model);
            assert(models_view(list@) =~= before.push(model@));
        }
        i += 1;
    }
    assert(views.take(items@.len() as int) =~= views);
    ModelLine::Models(list)
}

/// Whether the models of a provider are asked for, and of which installation. Only
/// Codex is asked.
pub fn list_agent_models(provider: AgentProvider, binary: Option<String>) -> (r: Result<
    Option<String>,
    ProtocolError,
>)
    ensures
        match provider {
            AgentProvider::Codex => match binary {
                Some(path) => r == Ok::<Option<String>, ProtocolError>(Some(path)),
                None => r matches Err(e) && e@ == error_of(
                    "codex_not_found"@,
                    "No working Codex CLI installation was found for this user"@,
                ),
            },
            _ => r == Ok::<Option<String>, ProtocolError>(None),
        },
{
    match provider {
        AgentProvider::Codex => match binary {
            Some(path) => Ok(Some(path)),
            None => Err(
                protocol_error(
                    "codex_not_found",
                    "No working Codex CLI installation was found for this user",
                ),
            ),
        },
        _ => Ok(None),
    }
}

/// A model is read with its own identifier and, where it has no name of its own, shown
/// under it; it is the default only where the list says so.
pub proof fn lemma_models_are_read_as_told(item: JsonView)
    ensures
        model_in(item) is Some <==> item.text_at("id"@) is Some,
        model_in(item) matches Some(model) ==> {
            &&& model.id == item.text_at("id"@)->0
            &&& item.text_at("displayName"@) is Some ==> model.display_name == item.text_at("displayName"@)->0
            &&& item.text_at("displayName"@) is None ==> model.display_name == model.id
            &&& model.is_default <==> item.member("isDefault"@) == Some(JsonView::Bool(true))
            &&& model.default_reasoning_effort == item.text_at("defaultReasoningEffort"@)
            &&& model.supported_reasoning_efforts.len() <= items_at(item, "supportedReasoningEfforts"@).len()
        },
{
    lemma_efforts_len(items_at(item, "supportedReasoningEfforts"@));
}

proof fn lemma_efforts_len(items: Seq<JsonView>)
    ensures
        efforts_in(items).len() <= items.len(),
    decreases items.len(),
{
    if items.len() > 0 {
        lemma_efforts_len(items.drop_last());
    }
}

/// Every item with an identifier is one of the models, and no model is made up.
pub proof fn lemma_models_are_those_listed(items: Seq<JsonView>, i: int)
    ensures
        0 <= i < items.len() && model_in(items[i]) is Some ==> models_in(items).contains(model_in(items[i])->0),
        0 <= i < models_in(items).len() ==> exists|k: int|
            0 <= k < items.len() && #[trigger] model_in(items[k]) == Some(models_in(items)[i]),
    decreases items.len(),
{
    if items.len() > 0 {
        let shorter = items.drop_last();
        let before = models_in(shorter);
        let all = models_in(items);
        if 0 <= i < items.len() && model_in(items[i]) is Some {
            if i < shorter.len() {
                lemma_models_are_those_listed(shorter, i);
                assert(shorter[i] == items[i]);
                let at = choose|at: int| 0 <= at < before.len() && before[at] == model_in(items[i])->0;
                assert(all[at] == model_in(items[i])->0);
            } else {
                assert(all[before.len() as int] == model_in(items[i])->0);
            }
        }
        if 0 <= i < all.len() {
            if i < before.len() {
                lemma_models_are_those_listed(shorter, i);
                let k = choose|k: int| 0 <= k < shorter.len() && #[trigger] model_in(shorter[k]) == Some(before[i]);
                assert(model_in(items[k]) == Some(all[i]));
            } else {
                assert(model_in(items[items.len() - 1]) == Some(all[i]));
            }
        }
    }
}

/// A server is greeted before it is asked for its models, under another number,
/// and is not asked for hidden ones.
pub proof fn lemma_models_are_asked_for(version: Seq<char>)
    ensures
        ({
            let list = model_messages(version);
            &&& list.len() == 3
            &&& list[0].member("method"@) == Some(JsonView::Text("initialize"@))
            &&& list[0].member("id"@) == Some(integer(1))
            &&& list[1].member("method"@) == Some(JsonView::Text("initialized"@))
            &&& list[1].member("id"@) is None
            &&& list[2].member("method"@) == Some(JsonView::Text("model/list"@))
            &&& list[2].member("id"@) == Some(integer(2))
            &&& list[2].member("params"@) matches Some(params) && params.member("limit"@) == Some(integer(100))
                && params.member("includeHidden"@) == Some(JsonView::Bool(false))
        }),
{
    broadcast use lemma_member_of_extended;

    reveal_strlit("id");
    reveal_strlit("method");
    reveal_strlit("params");
    reveal_strlit("limit");
    reveal_strlit("includeHidden");
    assert("id"@.len() == 2);
    assert("method"@.len() == 6 && "params"@.len() == 6 && "method"@[0] != "params"@[0]);
    assert("limit"@.len() == 5 && "includeHidden"@.len() == 13);
}

/// The models are those of the answer's data; an answer without data tells of none.
pub proof fn lemma_models_are_in_the_data(value: JsonView, items: Seq<JsonView>)
    ensures
        value.member2("result"@, "data"@) == Some(JsonView::Array(items)) ==> models_of(value) == models_in(items),
        value.member2("result"@, "data"@) is None ==> models_of(value).len() == 0,
{
}

} // verus!
