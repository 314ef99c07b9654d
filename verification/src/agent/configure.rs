//! The models, the thinking levels and the modes that a session offers.

use crate::error::AcpxError;
use crate::json;
use crate::json::{Json, JsonMap, JsonView};
use crate::pi::fields;
use crate::pi::rpc;
use crate::pi::rpc::{Model, RpcSessionState, ThinkingLevel};
use crate::session::facts;
use crate::session::facts::{
    ConfigCategoryFact, ConfigCategoryView, ConfigChoiceFact, ConfigChoiceView, ConfigOptionFact,
    ConfigOptionView,
};
use crate::text;
use vstd::prelude::*;
use vstd::string::*;

verus! {

/// The id of the config option for the model.
pub const MODEL_CONFIG_ID: &'static str = "model";

/// The id of the config option for the thinking level.
pub const THOUGHT_LEVEL_CONFIG_ID: &'static str = "thought_level";

// ---------------------------------------------------------------------------
// Models
// ---------------------------------------------------------------------------

/// The model of a [`Model`].
pub struct ModelView {
    pub provider: Seq<char>,
    pub id: Seq<char>,
    pub name: Seq<char>,
    pub reasoning: bool,
    pub base_url: Option<Seq<char>>,
    pub context_window: Option<u64>,
    pub max_tokens: Option<u64>,
    pub input: Option<Seq<Seq<char>>>,
}

impl View for Model {
    type V = ModelView;

    open spec fn view(&self) -> ModelView {
        ModelView {
            provider: self.provider@,
            id: self.id@,
            name: self.name@,
            reasoning: self.reasoning,
            base_url: text::opt_text(self.base_url),
            context_window: self.context_window,
            max_tokens: self.max_tokens,
            input: fields::opt_texts(self.input),
        }
    }
}

/// The models of a list.
pub open spec fn model_views(v: Seq<Model>) -> Seq<ModelView> {
    v.map_values(|m: Model| m@)
}

/// The model of an optional model.
pub open spec fn opt_model(o: Option<&Model>) -> Option<ModelView> {
    match o {
        Some(m) => Some(m@),
        None => None,
    }
}

/// What a record says of a model.
pub open spec fn model_in(v: JsonView) -> ModelView {
    let v = rpc::model_record(v);
    ModelView {
        provider: json::str_member(v, "provider"@)->0,
        id: json::str_member(v, "id"@)->0,
        name: json::str_member(v, "name"@)->0,
        reasoning: fields::flag(v, "reasoning"@)->0,
        base_url: fields::optional_text(v, "baseUrl"@)->0,
        context_window: fields::optional_count(v, "contextWindow"@)->0,
        max_tokens: fields::optional_count(v, "maxTokens"@)->0,
        input: fields::optional_text_list(v, "input"@)->0,
    }
}

/// The name that stands for a model: its provider and its id, without blanks
/// around them. A model without one of them has none.
pub open spec fn model_key(m: ModelView) -> Option<Seq<char>> {
    let provider = text::trimmed(m.provider);
    let id = text::trimmed(m.id);
    if provider.len() == 0 || id.len() == 0 {
        None
    } else {
        Some(provider + "/"@ + id)
    }
}

/// The models that have a name, each with its name and with what is shown.
pub open spec fn offered(ms: Seq<ModelView>) -> Seq<(Seq<char>, Seq<char>)>
    decreases ms.len(),
{
    if ms.len() == 0 {
        Seq::empty()
    } else {
        match model_key(ms.last()) {
            Some(key) => offered(ms.drop_last()).push(
                (key, text::trimmed(ms.last().provider) + "/"@ + ms.last().name),
            ),
            None => offered(ms.drop_last()),
        }
    }
}

/// A model on offer.
#[derive(Debug)]
pub struct AdvertisedModel {
    /// The name that stands for it.
    pub model_id: String,
    /// What is shown.
    pub name: String,
}

impl View for AdvertisedModel {
    type V = (Seq<char>, Seq<char>);

    open spec fn view(&self) -> (Seq<char>, Seq<char>) {
        (self.model_id@, self.name@)
    }
}

/// The models of a list of offers.
pub open spec fn offer_views(v: Seq<AdvertisedModel>) -> Seq<(Seq<char>, Seq<char>)> {
    v.map_values(|a: AdvertisedModel| a@)
}

fn model_key_of(m: &Model) -> (r: Option<String>)
    ensures
        text::opt_text(r) == model_key(m@),
{
    let provider = text::trim(m.provider.as_str());
    let id = text::trim(m.id.as_str());
    if provider.unicode_len() == 0 || id.unicode_len() == 0 {
        None
    } else {
        Some(text::cat3(provider, "/", id))
    }
}

/// The models on offer.
pub fn advertised_models(models: &Vec<Model>) -> (r: Vec<AdvertisedModel>)
    ensures
        offer_views(r@) == offered(model_views(models@)),
{
    let ghost all = model_views(models@);
    let mut out: Vec<AdvertisedModel> = Vec::new();
    let mut i: usize = 0;
    proof {
        assert(offer_views(out@) =~= Seq::<(Seq<char>, Seq<char>)>::empty());
        assert(all.take(0) =~= Seq::<ModelView>::empty());
    }
    while i < models.len()
        invariant
            i <= models@.len(),
            all == model_views(models@),
            offer_views(out@) == offered(all.take(i as int)),
        decreases models.len() - i,
    {
        proof {
            assert(all.take(i + 1).drop_last() =~= all.take(i as int));
            assert(all.take(i + 1).last() == models@[i as int]@);
        }
        let ghost before = offer_views(out@);
        if let Some(key) = model_key_of(&models[i]) {
            let provider = text::trim(models[i].provider.as_str());
            let name = text::cat3(provider, "/", models[i].name.as_str());
            let offer = AdvertisedModel { model_id: key, name };
            out.push(offer);
            assert(offer_views(out@) =~= before.push(offer@));
        }
        i += 1;
    }
    assert(all.take(i as int) =~= all);
    out
}

/// The models of a session: those on offer and the one in use.
#[derive(Debug)]
pub struct ModelState {
    /// The models on offer.
    pub available_models: Vec<AdvertisedModel>,
    /// The one in use.
    pub current_model_id: String,
}

/// The models of a session: the one in use is pi's, or else the first one on
/// offer. Without either there is nothing to choose.
pub open spec fn model_state(ms: Seq<ModelView>, current: Option<ModelView>) -> Option<
    (Seq<(Seq<char>, Seq<char>)>, Seq<char>),
> {
    let key = match current {
        Some(m) => model_key(m),
        None => None,
    };
    match key {
        Some(k) => Some((offered(ms), k)),
        None => if offered(ms).len() == 0 {
            None
        } else {
            Some((offered(ms), offered(ms)[0].0))
        },
    }
}

/// The models of a session.
pub fn model_state_from_parts(available: &Vec<Model>, current: Option<&Model>) -> (r: Option<
    ModelState,
>)
    ensures
        match r {
            Some(s) => model_state(model_views(available@), opt_model(current)) == Some(
                (offer_views(s.available_models@), s.current_model_id@),
            ),
            None => model_state(model_views(available@), opt_model(current)) is None,
        },
{
    let available_models = advertised_models(available);
    let key = match current {
        Some(m) => model_key_of(m),
        None => None,
    };
    match key {
        Some(k) => Some(ModelState { available_models, current_model_id: k }),
        None => {
            if available_models.len() == 0 {
                None
            } else {
                let first = available_models[0].model_id.clone();
                assert(offer_views(available_models@)[0].0 == first@);
                Some(ModelState { available_models, current_model_id: first })
            }
        },
    }
}

// ---------------------------------------------------------------------------
// Thinking levels
// ---------------------------------------------------------------------------

/// The levels that a model has: a model that cannot reason has one.
pub open spec fn levels_of(model: Option<ModelView>) -> Seq<ThinkingLevel> {
    match model {
        Some(m) => if m.reasoning {
            ThinkingLevel::ladder()
        } else {
            seq![ThinkingLevel::Off]
        },
        None => ThinkingLevel::ladder(),
    }
}

/// The levels that a model has.
pub fn supported_thinking_levels(model: Option<&Model>) -> (r: Vec<ThinkingLevel>)
    ensures
        r@ == levels_of(opt_model(model)),
{
    match model {
        Some(m) => {
            if m.reasoning {
                ThinkingLevel::all()
            } else {
                let mut v: Vec<ThinkingLevel> = Vec::new();
                v.push(ThinkingLevel::Off);
                assert(v@ =~= seq![ThinkingLevel::Off]);
                v
            }
        },
        None => ThinkingLevel::all(),
    }
}

/// The levels named in a list; names that are not known are passed over.
pub open spec fn levels_named(names: Seq<Seq<char>>) -> Seq<ThinkingLevel>
    decreases names.len(),
{
    if names.len() == 0 {
        Seq::empty()
    } else {
        match rpc::level_named(names.last()) {
            Some(l) => levels_named(names.drop_last()).push(l),
            None => levels_named(names.drop_last()),
        }
    }
}

/// The texts in a list of values.
pub open spec fn texts_in(items: Seq<JsonView>) -> Seq<Seq<char>>
    decreases items.len(),
{
    if items.len() == 0 {
        Seq::empty()
    } else {
        match json::str_of(items.last()) {
            Some(s) => texts_in(items.drop_last()).push(s),
            None => texts_in(items.drop_last()),
        }
    }
}

fn named_levels(names: &Vec<String>) -> (r: Vec<ThinkingLevel>)
    ensures
        r@ == levels_named(text::texts(names@)),
{
    let ghost all = text::texts(names@);
    let mut out: Vec<ThinkingLevel> = Vec::new();
    let mut i: usize = 0;
    assert(all.take(0) =~= Seq::<Seq<char>>::empty());
    while i < names.len()
        invariant
            i <= names@.len(),
            all == text::texts(names@),
            out@ == levels_named(all.take(i as int)),
        decreases names.len() - i,
    {
        proof {
            assert(all.take(i + 1).drop_last() =~= all.take(i as int));
            assert(all.take(i + 1).last() == names@[i as int]@);
        }
        if let Some(l) = ThinkingLevel::parse(names[i].as_str()) {
            out.push(l);
        }
        i += 1;
    }
    assert(all.take(i as int) =~= all);
    out
}

fn listed_texts(items: &Vec<Json>) -> (r: Vec<String>)
    ensures
        text::texts(r@) == texts_in(json::items_view(items@)),
{
    let ghost all = json::items_view(items@);
    let mut out: Vec<String> = Vec::new();
    let mut i: usize = 0;
    proof {
        assert(all.take(0) =~= Seq::<JsonView>::empty());
        assert(text::texts(out@) =~= Seq::<Seq<char>>::empty());
    }
    while i < items.len()
        invariant
            i <= items@.len(),
            all == json::items_view(items@),
            text::texts(out@) == texts_in(all.take(i as int)),
        decreases items.len() - i,
    {
        proof {
            assert(all.take(i + 1).drop_last() =~= all.take(i as int));
            assert(all.take(i + 1).last() == items@[i as int]@);
        }
        let ghost before = text::texts(out@);
        if let Some(s) = items[i].as_str() {
            out.push(s.to_owned());
            assert(text::texts(out@) =~= before.push(s@));
        }
        i += 1;
    }
    assert(all.take(i as int) =~= all);
    out
}

/// The levels that pi lists, when it lists some.
pub open spec fn listed_levels(data: Option<JsonView>) -> Option<Seq<ThinkingLevel>> {
    match data {
        Some(d) => match json::array_member(d, "levels"@) {
            Some(items) => if levels_named(texts_in(items)).len() > 0 {
                Some(levels_named(texts_in(items)))
            } else {
                None
            },
            None => None,
        },
        None => None,
    }
}

/// The levels that pi lists, when the answer has the right shape throughout
/// and lists some.
pub open spec fn listed_levels_strictly(data: Option<JsonView>) -> Option<Seq<ThinkingLevel>> {
    match data {
        Some(d) => match fields::text_list(d, "levels"@) {
            Some(names) => if levels_named(names).len() > 0 {
                Some(levels_named(names))
            } else {
                None
            },
            None => None,
        },
        None => None,
    }
}

/// The levels that a session offers: those that pi lists for its model. A pi
/// that lists none is asked for its state, `state`; its model decides then,
/// and without an answer every level is offered.
pub fn available_thinking_levels(listed: Option<&Json>, state: Option<&RpcSessionState>) -> (r: Vec<
    ThinkingLevel,
>)
    ensures
        r@ == (match listed_levels(json::opt_ref(listed)) {
            Some(levels) => levels,
            None => match state {
                Some(s) => levels_of(
                    match s.model {
                        Some(m) => Some(m@),
                        None => None,
                    },
                ),
                None => ThinkingLevel::ladder(),
            },
        }),
{
    if let Some(data) = listed {
        if let Some(items) = data.get_array("levels") {
            let names = listed_texts(items);
            let levels = named_levels(&names);
            if levels.len() > 0 {
                return levels;
            }
        }
    }
    match state {
        Some(s) => match &s.model {
            Some(m) => supported_thinking_levels(Some(m)),
            None => supported_thinking_levels(None),
        },
        None => ThinkingLevel::all(),
    }
}

// ---------------------------------------------------------------------------
// Modes
// ---------------------------------------------------------------------------

/// The modes of a session: a mode for each level, and the one in use.
#[derive(Debug)]
pub struct ModeState {
    /// The one in use; it may be none of the levels.
    pub current_mode_id: String,
    /// The levels.
    pub levels: Vec<ThinkingLevel>,
}

/// The modes of a session.
pub fn mode_state_from_levels(current: &str, levels: Vec<ThinkingLevel>) -> (r: ModeState)
    ensures
        r.current_mode_id@ == current@,
        r.levels@ == levels@,
{
    ModeState { current_mode_id: current.to_owned(), levels }
}

/// A mode as the client is told it.
pub open spec fn mode_json(l: ThinkingLevel) -> JsonView {
    JsonView::Object(
        json::put(
            json::put(
                json::put(Seq::empty(), "id"@, JsonView::Str(rpc::level_id(l))),
                "name"@,
                JsonView::Str("Thinking: "@ + l.label_view()),
            ),
            "description"@,
            JsonView::Str(l.description_view()),
        ),
    )
}

/// The modes of a session as the client is told them.
pub open spec fn modes_json(current: Seq<char>, levels: Seq<ThinkingLevel>) -> JsonView {
    JsonView::Object(
        json::put(
            json::put(Seq::empty(), "currentModeId"@, JsonView::Str(current)),
            "availableModes"@,
            JsonView::Array(levels.map_values(|l: ThinkingLevel| mode_json(l))),
        ),
    )
}

/// The modes of a session as the client is told them.
pub fn mode_state_to_acp(modes: &ModeState) -> (r: Json)
    ensures
        r@ == modes_json(modes.current_mode_id@, modes.levels@),
{
    broadcast use crate::json::json_view;

    let mut items: Vec<Json> = Vec::new();
    let mut i: usize = 0;
    while i < modes.levels.len()
        invariant
            i <= modes.levels@.len(),
            items@.len() == i,
            forall|k: int| 0 <= k < i ==> (#[trigger] items@[k])@ == mode_json(modes.levels@[k]),
        decreases modes.levels.len() - i,
    {
        let l = modes.levels[i];
        let name = text::cat2("Thinking: ", l.label());
        let item = Json::Object(
            JsonMap::new().with("id", Json::text(l.id())).with(
                "name",
                Json::text(name.as_str()),
            ).with("description", Json::text(l.description())),
        );
        proof {
            json::json_view(item);
        }
        items.push(item);
        i += 1;
    }
    assert(json::items_view(items@) =~= modes.levels@.map_values(|l: ThinkingLevel| mode_json(l)));
    Json::Object(
        JsonMap::new().with("currentModeId", Json::text(modes.current_mode_id.as_str())).with(
            "availableModes",
            Json::Array(items),
        ),
    )
}

// ---------------------------------------------------------------------------
// Config options
// ---------------------------------------------------------------------------

/// The choice for a level.
pub open spec fn level_choice(l: ThinkingLevel) -> ConfigChoiceView {
    ConfigChoiceView {
        value: rpc::level_id(l),
        name: l.label_view(),
        description: Some(l.description_view()),
        meta: None,
    }
}

/// The config option for the thinking level.
pub open spec fn level_option(current: Seq<char>, levels: Seq<ThinkingLevel>) -> ConfigOptionView {
    ConfigOptionView {
        id: THOUGHT_LEVEL_CONFIG_ID@,
        name: "Thinking"@,
        description: Some("Set the reasoning effort for this session"@),
        category: Some(ConfigCategoryView::ThoughtLevel),
        current_value: current,
        choices: levels.map_values(|l: ThinkingLevel| level_choice(l)),
        meta: None,
    }
}

/// The choice for a model.
pub open spec fn model_choice(m: (Seq<char>, Seq<char>)) -> ConfigChoiceView {
    ConfigChoiceView { value: m.0, name: m.1, description: None, meta: None }
}

/// The config option for the model; there is none when no model is on offer.
pub open spec fn model_option(current: Seq<char>, models: Seq<(Seq<char>, Seq<char>)>) -> Option<
    ConfigOptionView,
> {
    if models.len() == 0 {
        None
    } else {
        Some(
            ConfigOptionView {
                id: MODEL_CONFIG_ID@,
                name: "Model"@,
                description: Some("Select the model for this session"@),
                category: Some(ConfigCategoryView::Model),
                current_value: current,
                choices: models.map_values(|m: (Seq<char>, Seq<char>)| model_choice(m)),
                meta: None,
            },
        )
    }
}

/// The config option for the thinking level.
pub fn thought_level_config_option(current_level_id: &str, available: &Vec<ThinkingLevel>) -> (r:
    ConfigOptionFact)
    ensures
        r@ == level_option(current_level_id@, available@),
{
    let mut choices: Vec<ConfigChoiceFact> = Vec::new();
    let mut i: usize = 0;
    while i < available.len()
        invariant
            i <= available@.len(),
            choices@.len() == i,
            forall|k: int| 0 <= k < i ==> (#[trigger] choices@[k])@ == level_choice(available@[k]),
        decreases available.len() - i,
    {
        let l = available[i];
        choices.push(
            ConfigChoiceFact {
                value: l.id().to_owned(),
                name: l.label().to_owned(),
                description: Some(l.description().to_owned()),
                meta: None,
            },
        );
        i += 1;
    }
    assert(choices@.map_values(|c: ConfigChoiceFact| c@) =~= available@.map_values(
        |l: ThinkingLevel| level_choice(l),
    ));
    ConfigOptionFact {
        id: THOUGHT_LEVEL_CONFIG_ID.to_owned(),
        name: "Thinking".to_owned(),
        description: Some("Set the reasoning effort for this session".to_owned()),
        category: Some(ConfigCategoryFact::ThoughtLevel),
        current_value: current_level_id.to_owned(),
        choices,
        meta: None,
    }
}

/// The config option for the model; there is none when no model is on offer.
pub fn model_config_option(current_model_id: &str, available: &Vec<AdvertisedModel>) -> (r: Option<
    ConfigOptionFact,
>)
    ensures
        (match r {
            Some(o) => Some(o@),
            None => None,
        }) == model_option(current_model_id@, offer_views(available@)),
{
    if available.len() == 0 {
        return None;
    }
    let mut choices: Vec<ConfigChoiceFact> = Vec::new();
    let mut i: usize = 0;
    while i < available.len()
        invariant
            i <= available@.len(),
            choices@.len() == i,
            forall|k: int| 0 <= k < i ==> (#[trigger] choices@[k])@ == model_choice(available@[k]@),
        decreases available.len() - i,
    {
        choices.push(
            ConfigChoiceFact {
                value: available[i].model_id.clone(),
                name: available[i].name.clone(),
                description: None,
                meta: None,
            },
        );
        i += 1;
    }
    assert(choices@.map_values(|c: ConfigChoiceFact| c@) =~= offer_views(available@).map_values(
        |m: (Seq<char>, Seq<char>)| model_choice(m),
    ));
    Some(
        ConfigOptionFact {
            id: MODEL_CONFIG_ID.to_owned(),
            name: "Model".to_owned(),
            description: Some("Select the model for this session".to_owned()),
            category: Some(ConfigCategoryFact::Model),
            current_value: current_model_id.to_owned(),
            choices,
            meta: None,
        },
    )
}

/// The config options of a session: the model, when there is one to choose,
/// and the thinking level.
pub open spec fn config(
    models: Option<(Seq<(Seq<char>, Seq<char>)>, Seq<char>)>,
    current: Seq<char>,
    levels: Seq<ThinkingLevel>,
) -> Seq<ConfigOptionView> {
    let chosen = match models {
        Some(m) => model_option(m.1, m.0),
        None => None,
    };
    match chosen {
        Some(o) => seq![o, level_option(current, levels)],
        None => seq![level_option(current, levels)],
    }
}

fn option_pair(model: Option<ConfigOptionFact>, level: ConfigOptionFact) -> (r: Vec<
    ConfigOptionFact,
>)
    ensures
        facts::option_views(r@) == (match model {
            Some(m) => seq![m@, level@],
            None => seq![level@],
        }),
{
    let mut v: Vec<ConfigOptionFact> = Vec::new();
    match model {
        Some(m) => {
            v.push(m);
            v.push(level);
            assert(facts::option_views(v@) =~= seq![m@, level@]);
        },
        None => {
            v.push(level);
            assert(facts::option_views(v@) =~= seq![level@]);
        },
    }
    v
}

/// The model of an optional model state.
pub open spec fn opt_state(o: Option<&ModelState>) -> Option<
    (Seq<(Seq<char>, Seq<char>)>, Seq<char>),
> {
    match o {
        Some(s) => Some((offer_views(s.available_models@), s.current_model_id@)),
        None => None,
    }
}

/// The config options of a session.
pub fn build_config_options(models: Option<&ModelState>, modes: &ModeState) -> (r: Vec<
    ConfigOptionFact,
>)
    ensures
        facts::option_views(r@) == config(
            opt_state(models),
            modes.current_mode_id@,
            modes.levels@,
        ),
{
    let level = thought_level_config_option(modes.current_mode_id.as_str(), &modes.levels);
    let model = match models {
        Some(m) => model_config_option(m.current_model_id.as_str(), &m.available_models),
        None => None,
    };
    option_pair(model, level)
}

/// What a session offers: its config options and its modes.
#[derive(Debug)]
pub struct Configuration {
    /// The config options.
    pub options: Vec<ConfigOptionFact>,
    /// The modes.
    pub modes: ModeState,
}

/// The level in use; the middle one when pi does not tell.
pub open spec fn current_level(state: Option<RpcSessionState>) -> Seq<char> {
    match state {
        Some(s) => rpc::level_id(s.thinking_level),
        None => "medium"@,
    }
}

/// The model in use.
pub open spec fn current_model(state: Option<RpcSessionState>) -> Option<ModelView> {
    match state {
        Some(s) => match s.model {
            Some(m) => Some(m@),
            None => None,
        },
        None => None,
    }
}

/// What a session offers, given the models that pi lists, its state when it
/// told it, and the levels on offer.
pub fn get_session_configuration(
    available: &Vec<Model>,
    state: &Option<RpcSessionState>,
    levels: Vec<ThinkingLevel>,
) -> (r: Configuration)
    ensures
        r.modes.current_mode_id@ == current_level(*state),
        r.modes.levels@ == levels@,
        facts::option_views(r.options@) == config(
            model_state(model_views(available@), current_model(*state)),
            current_level(*state),
            levels@,
        ),
{
    let model: Option<&Model> = match state {
        Some(s) => match &s.model {
            Some(m) => Some(m),
            None => None,
        },
        None => None,
    };
    let models = model_state_from_parts(available, model);
    let current: &str = match state {
        Some(s) => s.thinking_level.id(),
        None => "medium",
    };
    let modes = mode_state_from_levels(current, levels);
    let options = match &models {
        Some(m) => build_config_options(Some(m), &modes),
        None => build_config_options(None, &modes),
    };
    Configuration { options, modes }
}

/// What pi's state says of the model in use.
pub open spec fn state_model(state: JsonView) -> Option<ModelView> {
    if rpc::readable_state(state) {
        match fields::optional_value(rpc::state_record(state), "model"@) {
            Some(m) => Some(model_in(m)),
            None => None,
        }
    } else {
        None
    }
}

/// The models that pi lists.
pub open spec fn listed(models: JsonView) -> Seq<ModelView> {
    match rpc::listed_models(models) {
        Some(items) => items.map_values(|v: JsonView| model_in(v)),
        None => Seq::empty(),
    }
}

/// The model that is shown as the one in use: pi's, or else the first one on
/// offer.
pub open spec fn shown_model(current: Option<ModelView>, ms: Seq<ModelView>) -> Seq<char> {
    let key = match current {
        Some(m) => model_key(m),
        None => None,
    };
    match key {
        Some(k) => k,
        None => if offered(ms).len() > 0 {
            offered(ms)[0].0
        } else {
            Seq::empty()
        },
    }
}

/// The config options once pi changed its thinking level by itself.
pub open spec fn refreshed(
    level: ThinkingLevel,
    state: JsonView,
    models: JsonView,
    levels: Option<JsonView>,
) -> Seq<ConfigOptionView> {
    config(
        Some((offered(listed(models)), shown_model(state_model(state), listed(models)))),
        rpc::level_id(level),
        match listed_levels_strictly(levels) {
            Some(l) => l,
            None => levels_of(state_model(state)),
        },
    )
}

fn read_listed(models: &Json) -> (r: Vec<Model>)
    ensures
        model_views(r@) == listed(models@),
{
    match rpc::available_models(models, "") {
        Ok(m) => {
            proof {
                let items = rpc::listed_models(models@)->0;
                assert(model_views(m@) =~= items.map_values(|v: JsonView| model_in(v))) by {
                    assert forall|i: int| 0 <= i < m@.len() implies (#[trigger] m@[i])@ == model_in(
                        items[i],
                    ) by {
                        assert(m@[i].reads(items[i]));
                    }
                }
            }
            m
        },
        Err(_) => {
            let none: Vec<Model> = Vec::new();
            proof {
                assert(rpc::listed_models(models@) is None);
                assert(model_views(none@) =~= Seq::<ModelView>::empty());
            }
            none
        },
    }
}

/// The config options once pi changed its thinking level by itself, from its
/// answers to the requests for its state, its models and its levels. Without
/// a state or models nothing is told.
pub fn refreshed_options(
    level: ThinkingLevel,
    state: Option<&Json>,
    models: Option<&Json>,
    levels: Option<&Json>,
) -> (r: Option<Vec<ConfigOptionFact>>)
    ensures
        match r {
            Some(options) => {
                &&& state is Some
                &&& models is Some
                &&& facts::option_views(options@) == refreshed(
                    level,
                    state->0@,
                    models->0@,
                    json::opt_ref(levels),
                )
            },
            None => state is None || models is None,
        },
{
    let (state, models) = match (state, models) {
        (Some(s), Some(m)) => (s, m),
        _ => return None,
    };
    let model: Option<Model> = match RpcSessionState::from_json(state) {
        Some(s) => s.model,
        None => None,
    };
    let listed_models = read_listed(models);
    let available = advertised_models(&listed_models);
    let mut named: Option<Vec<ThinkingLevel>> = None;
    if let Some(data) = levels {
        if let Some(names) = fields::read_text_list(data, "levels") {
            let found = named_levels(&names);
            if found.len() > 0 {
                named = Some(found);
            }
        }
    }
    let current_key = match &model {
        Some(m) => model_key_of(m),
        None => None,
    };
    let offered_levels = match named {
        Some(l) => l,
        None => match &model {
            Some(m) => supported_thinking_levels(Some(m)),
            None => supported_thinking_levels(None),
        },
    };
    let current = match current_key {
        Some(k) => k,
        None => {
            if available.len() > 0 {
                assert(offer_views(available@)[0].0 == available@[0].model_id@);
                available[0].model_id.clone()
            } else {
                String::new()
            }
        },
    };
    let option = model_config_option(current.as_str(), &available);
    let level_option = thought_level_config_option(level.id(), &offered_levels);
    Some(option_pair(option, level_option))
}

// ---------------------------------------------------------------------------
// Choosing a model
// ---------------------------------------------------------------------------

/// The provider and the id that a request names: the part before the first
/// slash and the rest. A bare id has the provider of the first model with it.
pub open spec fn requested_model(requested: Seq<char>, models: Seq<ModelView>) -> Option<
    (Seq<char>, Seq<char>),
> {
    match text::cut(requested, '/') {
        Some((provider, id)) => if id.len() == 0 {
            None
        } else {
            Some((provider, id))
        },
        None => match first_with(models, requested) {
            Some(m) => if m.id.len() == 0 {
                None
            } else {
                Some((m.provider, m.id))
            },
            None => None,
        },
    }
}

/// The first model with an id.
pub open spec fn first_with(models: Seq<ModelView>, id: Seq<char>) -> Option<ModelView>
    decreases models.len(),
{
    if models.len() == 0 {
        None
    } else if models[0].id == id {
        Some(models[0])
    } else {
        first_with(models.skip(1), id)
    }
}

/// Whether the models have to be listed before a request can be resolved.
pub fn needs_models(requested: &str) -> (r: bool)
    ensures
        r == (text::cut(requested@, '/') is None),
{
    text::split_once(requested, '/').is_none()
}

/// The provider and the id that a request names; an error when it names no
/// model.
pub fn resolve_model(requested: &str, models: &Vec<Model>) -> (r: Result<
    (String, String),
    AcpxError,
>)
    ensures
        match r {
            Ok(m) => requested_model(requested@, model_views(models@)) == Some((m.0@, m.1@)),
            Err(e) => requested_model(requested@, model_views(models@)) is None && e@ == (
            AcpxError::RpcFailed {
                command: "set_model"@,
                message: "Unknown modelId: "@ + requested@,
            }),
        },
{
    let ghost all = model_views(models@);
    let unknown = AcpxError::RpcFailed {
        command: "set_model".to_owned(),
        message: text::cat2("Unknown modelId: ", requested),
    };
    match text::split_once(requested, '/') {
        Some((provider, id)) => {
            if id.unicode_len() == 0 {
                Err(unknown)
            } else {
                Ok((provider.to_owned(), id.to_owned()))
            }
        },
        None => {
            let mut i: usize = 0;
            assert(all.skip(0) =~= all);
            while i < models.len()
                invariant
                    i <= models@.len(),
                    all == model_views(models@),
                    text::cut(requested@, '/') is None,
                    first_with(all, requested@) == first_with(all.skip(i as int), requested@),
                    unknown@ == (AcpxError::RpcFailed {
                        command: "set_model"@,
                        message: "Unknown modelId: "@ + requested@,
                    }),
                decreases models.len() - i,
            {
                proof {
                    assert(all.skip(i as int)[0] == models@[i as int]@);
                    assert(all.skip(i as int).skip(1) =~= all.skip(i + 1));
                }
                if text::same(models[i].id.as_str(), requested) {
                    return if models[i].id.as_str().unicode_len() == 0 {
                        Err(unknown)
                    } else {
                        Ok((models[i].provider.clone(), models[i].id.clone()))
                    };
                }
                i += 1;
            }
            Err(unknown)
        },
    }
}

// ---------------------------------------------------------------------------
// Laws
// ---------------------------------------------------------------------------

/// The mode picker and the config option describe the same levels, in the
/// same order, and have the same one in use.
pub proof fn pickers_agree(current: Seq<char>, levels: Seq<ThinkingLevel>, i: int)
    requires
        0 <= i < levels.len(),
    ensures
        level_option(current, levels).choices.len() == levels.len(),
        level_option(current, levels).choices[i].value == rpc::level_id(levels[i]),
        level_option(current, levels).current_value == current,
        json::member(modes_json(current, levels), "currentModeId"@) == Some(
            JsonView::Str(current),
        ),
{
    reveal_strlit("currentModeId");
    reveal_strlit("availableModes");
    assert("currentModeId"@.len() != "availableModes"@.len());
    let es = json::put(Seq::empty(), "currentModeId"@, JsonView::Str(current));
    json::put_then_entry(Seq::empty(), "currentModeId"@, JsonView::Str(current));
    json::put_keeps_others(
        es,
        "availableModes"@,
        JsonView::Array(levels.map_values(|l: ThinkingLevel| mode_json(l))),
        "currentModeId"@,
    );
}

/// The value of each choice on offer for the thinking level is a level that
/// can be set.
pub proof fn every_offered_level_can_be_set(current: Seq<char>, levels: Seq<ThinkingLevel>, i: int)
    requires
        0 <= i < levels.len(),
    ensures
        rpc::level_named(level_option(current, levels).choices[i].value) == Some(levels[i]),
{
    rpc::level_names_round_trip(levels[i]);
}

proof fn cut_of_key(provider: Seq<char>, id: Seq<char>)
    requires
        forall|k: int| 0 <= k < provider.len() ==> #[trigger] provider[k] != '/',
    ensures
        text::cut(provider + "/"@ + id, '/') == Some((provider, id)),
{
    reveal_strlit("/");
    let s = provider + "/"@ + id;
    assert(s[provider.len() as int] == '/');
    assert forall|k: int| 0 <= k < provider.len() implies #[trigger] s[k] != '/' by {
        assert(s[k] == provider[k]);
    }
    text::before_unique(s, '/', provider.len() as int);
    assert(s.take(provider.len() as int) =~= provider);
    assert(s.skip(provider.len() as int + 1) =~= id);
}

/// A model that is on offer is chosen by the name it is offered under, unless
/// its provider has a slash in its name.
pub proof fn an_offered_model_can_be_chosen(m: ModelView, models: Seq<ModelView>)
    requires
        model_key(m) is Some,
        forall|k: int|
            0 <= k < text::trimmed(m.provider).len() ==> #[trigger] text::trimmed(m.provider)[k]
                != '/',
    ensures
        requested_model(model_key(m)->0, models) == Some(
            (text::trimmed(m.provider), text::trimmed(m.id)),
        ),
{
    cut_of_key(text::trimmed(m.provider), text::trimmed(m.id));
}

/// A model of pi is offered under its provider and its id, and shown by its
/// provider and its name, in pi's order; one without either is not.
pub proof fn models_are_offered_in_order(ms: Seq<ModelView>, m: ModelView)
    ensures
        ({
            let p = text::trimmed(m.provider);
            let i = text::trimmed(m.id);
            &&& p.len() > 0 && i.len() > 0 ==> offered(ms.push(m)) == offered(ms).push(
                (p + "/"@ + i, p + "/"@ + m.name),
            )
            &&& p.len() == 0 || i.len() == 0 ==> offered(ms.push(m)) == offered(ms)
            &&& offered(Seq::empty()).len() == 0
        }),
{
    assert(ms.push(m).drop_last() =~= ms);
}

/// The model in force is pi's own, else the first that is offered.
pub proof fn the_model_in_force_is_shown(ms: Seq<ModelView>, current: Option<ModelView>)
    ensures
        current matches Some(m) ==> text::trimmed(m.provider).len() > 0 && text::trimmed(
            m.id,
        ).len() > 0 ==> (model_state(ms, current) matches Some(s) && s.1 == text::trimmed(
            m.provider,
        ) + "/"@ + text::trimmed(m.id) && s.0 == offered(ms)),
        current is None && offered(ms).len() > 0 ==> (model_state(ms, current) matches Some(s)
            && s.1 == offered(ms)[0].0 && s.0 == offered(ms)),
        current is None && offered(ms).len() == 0 ==> model_state(ms, current) is None,
{
}

/// A model that does not reason has no level but the lowest; one that does, or
/// that is not known, has all of them, from none to most.
pub proof fn levels_follow_the_model(m: ModelView)
    ensures
        !m.reasoning ==> levels_of(Some(m)) == seq![ThinkingLevel::Off],
        m.reasoning ==> levels_of(Some(m)) == levels_of(None),
        levels_of(None).len() == 6,
        levels_of(None)[0] == ThinkingLevel::Off,
        levels_of(None)[1] == ThinkingLevel::Minimal,
        levels_of(None)[2] == ThinkingLevel::Low,
        levels_of(None)[3] == ThinkingLevel::Medium,
        levels_of(None)[4] == ThinkingLevel::High,
        levels_of(None)[5] == ThinkingLevel::XHigh,
{
}

/// The levels that pi lists are offered in its order; names of no level are
/// passed over.
pub proof fn listed_levels_keep_their_order(items: Seq<JsonView>, name: Seq<char>)
    ensures
        rpc::level_named(name) matches Some(l) ==> levels_named(
            texts_in(items.push(JsonView::Str(name))),
        ) == levels_named(texts_in(items)).push(l),
        rpc::level_named(name) is None ==> levels_named(texts_in(items.push(JsonView::Str(name))))
            == levels_named(texts_in(items)),
        levels_named(texts_in(Seq::empty())).len() == 0,
{
    assert(items.push(JsonView::Str(name)).drop_last() =~= items);
    assert(texts_in(items).push(name).drop_last() =~= texts_in(items));
}

/// The levels that pi lists count when one of them is known.
pub proof fn listed_levels_count(data: JsonView, items: Seq<JsonView>)
    requires
        json::member(data, "levels"@) == Some(JsonView::Array(items)),
        levels_named(texts_in(items)).len() > 0,
    ensures
        listed_levels(Some(data)) == Some(levels_named(texts_in(items))),
        listed_levels(None) is None,
{
}

/// The modes that a client is shown are the levels, in order, each under its
/// id, with the one in force.
pub proof fn modes_are_shown_in_order(current: Seq<char>, levels: Seq<ThinkingLevel>, k: int)
    requires
        0 <= k < levels.len(),
    ensures
        json::member(modes_json(current, levels), "currentModeId"@) == Some(
            JsonView::Str(current),
        ),
        json::member(modes_json(current, levels), "availableModes"@) matches Some(
            JsonView::Array(ms),
        ) && ms.len() == levels.len() && json::member(ms[k], "id"@) == Some(
            JsonView::Str(rpc::level_id(levels[k])),
        ) && json::member(ms[k], "name"@) == Some(
            JsonView::Str("Thinking: "@ + levels[k].label_view()),
        ),
{
    broadcast use json::entry_of_put;

    reveal_strlit("currentModeId");
    reveal_strlit("availableModes");
    reveal_strlit("id");
    reveal_strlit("name");
    reveal_strlit("description");
    assert("currentModeId"@.len() == 13 && "availableModes"@.len() == 14 && "id"@.len() == 2);
    assert("name"@.len() == 4 && "description"@.len() == 11);
    let ms = levels.map_values(|l: ThinkingLevel| mode_json(l));
    assert(ms[k] == mode_json(levels[k]));
}

/// The options are the model, when there are some to choose from, and the
/// level: each with the value in force and all of its values, in order.
pub proof fn options_offer_model_and_level(
    models: Seq<(Seq<char>, Seq<char>)>,
    model: Seq<char>,
    level: Seq<char>,
    levels: Seq<ThinkingLevel>,
    k: int,
)
    ensures
        ({
            let os = config(Some((models, model)), level, levels);
            &&& models.len() > 0 ==> os.len() == 2 && os[0].id == "model"@ && os[0].current_value
                == model && os[0].choices.len() == models.len() && (0 <= k < models.len()
                ==> os[0].choices[k].value == models[k].0 && os[0].choices[k].name == models[k].1)
            &&& models.len() == 0 ==> os.len() == 1
            &&& os.last().id == "thought_level"@
            &&& os.last().current_value == level
            &&& os.last().choices.len() == levels.len()
            &&& 0 <= k < levels.len() ==> os.last().choices[k].value == rpc::level_id(levels[k])
                && os.last().choices[k].name == levels[k].label_view()
        }),
        config(None, level, levels).len() == 1,
{
}

/// The level in force is pi's own; before pi is asked it is the middle one.
pub proof fn the_level_in_force_is_shown(state: RpcSessionState)
    ensures
        current_level(Some(state)) == rpc::level_id(state.thinking_level),
        current_level(None) == "medium"@,
{
}

/// A model that is asked for by its id alone is the first of pi's that has it;
/// one that pi does not have is refused.
pub proof fn a_model_is_found_by_its_id(models: Seq<ModelView>, id: Seq<char>, k: int)
    requires
        forall|j: int| 0 <= j < id.len() ==> #[trigger] id[j] != '/',
        id.len() > 0,
        0 <= k <= models.len(),
        forall|j: int| 0 <= j < k ==> (#[trigger] models[j]).id != id,
        k < models.len() ==> models[k].id == id,
    ensures
        requested_model(id, models) == (if k < models.len() {
            Some((models[k].provider, id))
        } else {
            None
        }),
{
    text::before_unique(id, '/', id.len() as int);
    the_first_with(models, id, k);
}

proof fn the_first_with(models: Seq<ModelView>, id: Seq<char>, k: int)
    requires
        0 <= k <= models.len(),
        forall|j: int| 0 <= j < k ==> (#[trigger] models[j]).id != id,
        k < models.len() ==> models[k].id == id,
    ensures
        first_with(models, id) == (if k < models.len() {
            Some(models[k])
        } else {
            None
        }),
    decreases k,
{
    if k > 0 {
        let rest = models.skip(1);
        assert(models[0].id != id);
        assert forall|j: int| 0 <= j < k - 1 implies (#[trigger] rest[j]).id != id by {
            assert(rest[j] == models[j + 1]);
        }
        if k < models.len() {
            assert(rest[k - 1] == models[k]);
        }
        the_first_with(rest, id, k - 1);
    }
}

/// After pi changed its level, the options show that level, and the model that
/// pi has.
pub proof fn a_changed_level_is_shown(
    level: ThinkingLevel,
    state: JsonView,
    models: JsonView,
    levels: Option<JsonView>,
)
    ensures
        ({
            let os = refreshed(level, state, models, levels);
            &&& os.last().id == "thought_level"@
            &&& os.last().current_value == rpc::level_id(level)
            &&& offered(listed(models)).len() > 0 ==> os.len() == 2 && os[0].id == "model"@
                && os[0].choices.len() == offered(listed(models)).len()
            &&& offered(listed(models)).len() > 0 ==> (state_model(state) matches Some(m)
                ==> model_key(m) matches Some(k) ==> os[0].current_value == k)
        }),
{
}

} // verus!
