//! The rows that fill the model slot: where a model comes from, which of a row's
//! settings reach the adapter, and what is said of the model that is mounted.
use crate::data::{none_of, put, Dup};
use crate::events::{TokenUsage, ToolCall, ToolCallView};
use crate::stream;
use crate::text;
use crate::text::{lit, number, split_keeping};
use crate::turn::{RequestError, RequestErrorView, StreamEvent, StreamEventView};
use vstd::prelude::*;

verus! {

/// The settings of an OpenAI-compatible conversation model.
#[derive(Debug, PartialEq, Eq)]
pub struct OpenAiCompatRow {
    pub base_url: Option<String>,
    pub model: Option<String>,
    /// The environment variable that holds the key.
    pub api_key_env: Option<String>,
    pub context_window: Option<u32>,
    /// Unset leaves the answer to a guess from the model's name.
    pub supports_vision: Option<bool>,
    /// Passed through as it is; unset leaves the switch out.
    pub thinking_type: Option<String>,
    pub thinking_keep: Option<String>,
    pub supports_reasoning_effort: bool,
}

/// What a [`OpenAiCompatRow`] holds.
#[verifier::ext_equal]
pub struct OpenAiCompatRowView {
    pub base_url: Option<Seq<char>>,
    pub model: Option<Seq<char>>,
    pub api_key_env: Option<Seq<char>>,
    pub context_window: Option<u32>,
    pub supports_vision: Option<bool>,
    pub thinking_type: Option<Seq<char>>,
    pub thinking_keep: Option<Seq<char>>,
    pub supports_reasoning_effort: bool,
}

impl DeepView for OpenAiCompatRow {
    type V = OpenAiCompatRowView;

    open spec fn deep_view(&self) -> OpenAiCompatRowView {
        OpenAiCompatRowView {
            base_url: self.base_url.deep_view(),
            model: self.model.deep_view(),
            api_key_env: self.api_key_env.deep_view(),
            context_window: self.context_window.deep_view(),
            supports_vision: self.supports_vision.deep_view(),
            thinking_type: self.thinking_type.deep_view(),
            thinking_keep: self.thinking_keep.deep_view(),
            supports_reasoning_effort: self.supports_reasoning_effort.deep_view(),
        }
    }
}

impl Dup for OpenAiCompatRow {
    fn dup(&self) -> (r: Self) {
        OpenAiCompatRow {
            base_url: self.base_url.dup(),
            model: self.model.dup(),
            api_key_env: self.api_key_env.dup(),
            context_window: self.context_window.dup(),
            supports_vision: self.supports_vision.dup(),
            thinking_type: self.thinking_type.dup(),
            thinking_keep: self.thinking_keep.dup(),
            supports_reasoning_effort: self.supports_reasoning_effort.dup(),
        }
    }
}

impl Clone for OpenAiCompatRow {
    fn clone(&self) -> (r: Self)
        ensures
            r.deep_view() == self.deep_view(),
    {
        self.dup()
    }
}

/// The settings of a cheaper model for side calls.
#[derive(Debug, PartialEq, Eq)]
pub struct UtilityRow {
    pub model: String,
    pub base_url: Option<String>,
    pub api_key_env: Option<String>,
    pub context_window: Option<u32>,
    pub thinking_type: Option<String>,
    pub thinking_keep: Option<String>,
    pub supports_reasoning_effort: bool,
}

/// What a [`UtilityRow`] holds.
#[verifier::ext_equal]
pub struct UtilityRowView {
    pub model: Seq<char>,
    pub base_url: Option<Seq<char>>,
    pub api_key_env: Option<Seq<char>>,
    pub context_window: Option<u32>,
    pub thinking_type: Option<Seq<char>>,
    pub thinking_keep: Option<Seq<char>>,
    pub supports_reasoning_effort: bool,
}

impl DeepView for UtilityRow {
    type V = UtilityRowView;

    open spec fn deep_view(&self) -> UtilityRowView {
        UtilityRowView {
            model: self.model.deep_view(),
            base_url: self.base_url.deep_view(),
            api_key_env: self.api_key_env.deep_view(),
            context_window: self.context_window.deep_view(),
            thinking_type: self.thinking_type.deep_view(),
            thinking_keep: self.thinking_keep.deep_view(),
            supports_reasoning_effort: self.supports_reasoning_effort.deep_view(),
        }
    }
}

impl Dup for UtilityRow {
    fn dup(&self) -> (r: Self) {
        UtilityRow {
            model: self.model.dup(),
            base_url: self.base_url.dup(),
            api_key_env: self.api_key_env.dup(),
            context_window: self.context_window.dup(),
            thinking_type: self.thinking_type.dup(),
            thinking_keep: self.thinking_keep.dup(),
            supports_reasoning_effort: self.supports_reasoning_effort.dup(),
        }
    }
}

impl Clone for UtilityRow {
    fn clone(&self) -> (r: Self)
        ensures
            r.deep_view() == self.deep_view(),
    {
        self.dup()
    }
}

/// The settings of the model the user has configured elsewhere.
#[derive(Debug, PartialEq, Eq)]
pub struct ConfigRow {
    /// Which selection; unset is the default one.
    pub model: Option<String>,
    pub path: Option<String>,
}

/// What a [`ConfigRow`] holds.
#[verifier::ext_equal]
pub struct ConfigRowView {
    pub model: Option<Seq<char>>,
    pub path: Option<Seq<char>>,
}

impl DeepView for ConfigRow {
    type V = ConfigRowView;

    open spec fn deep_view(&self) -> ConfigRowView {
        ConfigRowView {
            model: self.model.deep_view(),
            path: self.path.deep_view(),
        }
    }
}

impl Dup for ConfigRow {
    fn dup(&self) -> (r: Self) {
        ConfigRow {
            model: self.model.dup(),
            path: self.path.dup(),
        }
    }
}

impl Clone for ConfigRow {
    fn clone(&self) -> (r: Self)
        ensures
            r.deep_view() == self.deep_view(),
    {
        self.dup()
    }
}

/// Where a row wants its model to come from.
#[derive(Debug, PartialEq, Eq)]
pub enum Want {
    /// The row states the endpoint itself.
    Explicit { base_url: String, model: String, api_key_env: Option<String> },
    Environment { api_key_env: Option<String> },
    /// The environment, but with this model.
    EnvironmentWithModel { api_key_env: Option<String>, model: String },
    /// The configuration file: the one at `path`, or the default one.
    UserConfig { selection: Option<String>, path: Option<String> },
}

/// What a [`Want`] holds.
#[verifier::ext_equal]
pub enum WantView {
    Explicit { base_url: Seq<char>, model: Seq<char>, api_key_env: Option<Seq<char>> },
    Environment { api_key_env: Option<Seq<char>> },
    EnvironmentWithModel { api_key_env: Option<Seq<char>>, model: Seq<char> },
    UserConfig { selection: Option<Seq<char>>, path: Option<Seq<char>> },
}

impl DeepView for Want {
    type V = WantView;

    open spec fn deep_view(&self) -> WantView {
        match self {
            Want::Explicit { base_url, model, api_key_env } => WantView::Explicit {
                base_url: base_url.deep_view(),
                model: model.deep_view(),
                api_key_env: api_key_env.deep_view(),
            },
            Want::Environment { api_key_env } => WantView::Environment {
                api_key_env: api_key_env.deep_view(),
            },
            Want::EnvironmentWithModel { api_key_env, model } => WantView::EnvironmentWithModel {
                api_key_env: api_key_env.deep_view(),
                model: model.deep_view(),
            },
            Want::UserConfig { selection, path } => WantView::UserConfig {
                path: path.deep_view(),
                selection: selection.deep_view(),
            },
        }
    }
}

impl Dup for Want {
    fn dup(&self) -> (r: Self) {
        match self {
            Want::Explicit { base_url, model, api_key_env } => Want::Explicit {
                base_url: base_url.dup(),
                model: model.dup(),
                api_key_env: api_key_env.dup(),
            },
            Want::Environment { api_key_env } => Want::Environment {
                api_key_env: api_key_env.dup(),
            },
            Want::EnvironmentWithModel { api_key_env, model } => Want::EnvironmentWithModel {
                api_key_env: api_key_env.dup(),
                model: model.dup(),
            },
            Want::UserConfig { selection, path } => Want::UserConfig {
                path: path.dup(),
                selection: selection.dup(),
            },
        }
    }
}

impl Clone for Want {
    fn clone(&self) -> (r: Self)
        ensures
            r.deep_view() == self.deep_view(),
    {
        self.dup()
    }
}

/// A model that was found.
#[derive(Debug, PartialEq, Eq)]
pub struct Endpoint {
    pub base_url: String,
    pub model: String,
    pub api_key: String,
    pub context_window: Option<u32>,
    pub supports_vision: Option<bool>,
    pub thinking_type: Option<String>,
    pub thinking_keep: Option<String>,
    pub supports_reasoning_effort: bool,
    /// Where it came from.
    pub origin: String,
}

/// What a [`Endpoint`] holds.
#[verifier::ext_equal]
pub struct EndpointView {
    pub base_url: Seq<char>,
    pub model: Seq<char>,
    pub api_key: Seq<char>,
    pub context_window: Option<u32>,
    pub supports_vision: Option<bool>,
    pub thinking_type: Option<Seq<char>>,
    pub thinking_keep: Option<Seq<char>>,
    pub supports_reasoning_effort: bool,
    pub origin: Seq<char>,
}

impl DeepView for Endpoint {
    type V = EndpointView;

    open spec fn deep_view(&self) -> EndpointView {
        EndpointView {
            base_url: self.base_url.deep_view(),
            model: self.model.deep_view(),
            api_key: self.api_key.deep_view(),
            context_window: self.context_window.deep_view(),
            supports_vision: self.supports_vision.deep_view(),
            thinking_type: self.thinking_type.deep_view(),
            thinking_keep: self.thinking_keep.deep_view(),
            supports_reasoning_effort: self.supports_reasoning_effort.deep_view(),
            origin: self.origin.deep_view(),
        }
    }
}

impl Dup for Endpoint {
    fn dup(&self) -> (r: Self) {
        Endpoint {
            base_url: self.base_url.dup(),
            model: self.model.dup(),
            api_key: self.api_key.dup(),
            context_window: self.context_window.dup(),
            supports_vision: self.supports_vision.dup(),
            thinking_type: self.thinking_type.dup(),
            thinking_keep: self.thinking_keep.dup(),
            supports_reasoning_effort: self.supports_reasoning_effort.dup(),
            origin: self.origin.dup(),
        }
    }
}

impl Clone for Endpoint {
    fn clone(&self) -> (r: Self)
        ensures
            r.deep_view() == self.deep_view(),
    {
        self.dup()
    }
}

/// What a row says to the adapter. Nothing said leaves the adapter as it is.
#[derive(Debug, PartialEq, Eq)]
pub struct AdapterKnobs {
    pub context_window: Option<u32>,
    pub supports_vision: Option<bool>,
    pub thinking_type: Option<String>,
    pub thinking_keep: Option<String>,
    pub supports_reasoning_effort: Option<bool>,
}

/// What a [`AdapterKnobs`] holds.
#[verifier::ext_equal]
pub struct AdapterKnobsView {
    pub context_window: Option<u32>,
    pub supports_vision: Option<bool>,
    pub thinking_type: Option<Seq<char>>,
    pub thinking_keep: Option<Seq<char>>,
    pub supports_reasoning_effort: Option<bool>,
}

impl DeepView for AdapterKnobs {
    type V = AdapterKnobsView;

    open spec fn deep_view(&self) -> AdapterKnobsView {
        AdapterKnobsView {
            context_window: self.context_window.deep_view(),
            supports_vision: self.supports_vision.deep_view(),
            thinking_type: self.thinking_type.deep_view(),
            thinking_keep: self.thinking_keep.deep_view(),
            supports_reasoning_effort: self.supports_reasoning_effort.deep_view(),
        }
    }
}

impl Dup for AdapterKnobs {
    fn dup(&self) -> (r: Self) {
        AdapterKnobs {
            context_window: self.context_window.dup(),
            supports_vision: self.supports_vision.dup(),
            thinking_type: self.thinking_type.dup(),
            thinking_keep: self.thinking_keep.dup(),
            supports_reasoning_effort: self.supports_reasoning_effort.dup(),
        }
    }
}

impl Clone for AdapterKnobs {
    fn clone(&self) -> (r: Self)
        ensures
            r.deep_view() == self.deep_view(),
    {
        self.dup()
    }
}

/// How an adapter is set up.
#[derive(Debug, PartialEq, Eq)]
pub struct AdapterConfig {
    pub api_key: String,
    pub base_url: String,
    pub model: String,
    pub context_window: u32,
    pub supports_vision: bool,
    pub thinking_type: Option<String>,
    pub thinking_keep: Option<String>,
    pub supports_reasoning_effort: bool,
}

/// What a [`AdapterConfig`] holds.
#[verifier::ext_equal]
pub struct AdapterConfigView {
    pub api_key: Seq<char>,
    pub base_url: Seq<char>,
    pub model: Seq<char>,
    pub context_window: u32,
    pub supports_vision: bool,
    pub thinking_type: Option<Seq<char>>,
    pub thinking_keep: Option<Seq<char>>,
    pub supports_reasoning_effort: bool,
}

impl DeepView for AdapterConfig {
    type V = AdapterConfigView;

    open spec fn deep_view(&self) -> AdapterConfigView {
        AdapterConfigView {
            api_key: self.api_key.deep_view(),
            base_url: self.base_url.deep_view(),
            model: self.model.deep_view(),
            context_window: self.context_window.deep_view(),
            supports_vision: self.supports_vision.deep_view(),
            thinking_type: self.thinking_type.deep_view(),
            thinking_keep: self.thinking_keep.deep_view(),
            supports_reasoning_effort: self.supports_reasoning_effort.deep_view(),
        }
    }
}

impl Dup for AdapterConfig {
    fn dup(&self) -> (r: Self) {
        AdapterConfig {
            api_key: self.api_key.dup(),
            base_url: self.base_url.dup(),
            model: self.model.dup(),
            context_window: self.context_window.dup(),
            supports_vision: self.supports_vision.dup(),
            thinking_type: self.thinking_type.dup(),
            thinking_keep: self.thinking_keep.dup(),
            supports_reasoning_effort: self.supports_reasoning_effort.dup(),
        }
    }
}

impl Clone for AdapterConfig {
    fn clone(&self) -> (r: Self)
        ensures
            r.deep_view() == self.deep_view(),
    {
        self.dup()
    }
}

/// A call in a script; the arguments are a JSON text.
#[derive(Debug, PartialEq, Eq)]
pub struct ReplayCall {
    pub name: String,
    pub args: String,
}

/// What a [`ReplayCall`] holds.
#[verifier::ext_equal]
pub struct ReplayCallView {
    pub name: Seq<char>,
    pub args: Seq<char>,
}

impl DeepView for ReplayCall {
    type V = ReplayCallView;

    open spec fn deep_view(&self) -> ReplayCallView {
        ReplayCallView {
            name: self.name.deep_view(),
            args: self.args.deep_view(),
        }
    }
}

impl Dup for ReplayCall {
    fn dup(&self) -> (r: Self) {
        ReplayCall {
            name: self.name.dup(),
            args: self.args.dup(),
        }
    }
}

impl Clone for ReplayCall {
    fn clone(&self) -> (r: Self)
        ensures
            r.deep_view() == self.deep_view(),
    {
        self.dup()
    }
}

/// One answer in a script.
#[derive(Debug, PartialEq, Eq)]
pub struct ReplayStep {
    pub text: String,
    pub calls: Vec<ReplayCall>,
    /// Fail the request with this instead.
    pub fail: Option<String>,
}

/// What a [`ReplayStep`] holds.
#[verifier::ext_equal]
pub struct ReplayStepView {
    pub text: Seq<char>,
    pub calls: Seq<ReplayCallView>,
    pub fail: Option<Seq<char>>,
}

impl DeepView for ReplayStep {
    type V = ReplayStepView;

    open spec fn deep_view(&self) -> ReplayStepView {
        ReplayStepView {
            text: self.text.deep_view(),
            calls: self.calls.deep_view(),
            fail: self.fail.deep_view(),
        }
    }
}

impl Dup for ReplayStep {
    fn dup(&self) -> (r: Self) {
        ReplayStep {
            text: self.text.dup(),
            calls: self.calls.dup(),
            fail: self.fail.dup(),
        }
    }
}

impl Clone for ReplayStep {
    fn clone(&self) -> (r: Self)
        ensures
            r.deep_view() == self.deep_view(),
    {
        self.dup()
    }
}

/// The settings of a scripted model.
#[derive(Debug, PartialEq, Eq)]
pub struct ReplayRow {
    pub script: Vec<ReplayStep>,
    pub supports_vision: bool,
    pub context_window: Option<u32>,
}

/// What a [`ReplayRow`] holds.
#[verifier::ext_equal]
pub struct ReplayRowView {
    pub script: Seq<ReplayStepView>,
    pub supports_vision: bool,
    pub context_window: Option<u32>,
}

impl DeepView for ReplayRow {
    type V = ReplayRowView;

    open spec fn deep_view(&self) -> ReplayRowView {
        ReplayRowView {
            script: self.script.deep_view(),
            supports_vision: self.supports_vision.deep_view(),
            context_window: self.context_window.deep_view(),
        }
    }
}

impl Dup for ReplayRow {
    fn dup(&self) -> (r: Self) {
        ReplayRow {
            script: self.script.dup(),
            supports_vision: self.supports_vision.dup(),
            context_window: self.context_window.dup(),
        }
    }
}

impl Clone for ReplayRow {
    fn clone(&self) -> (r: Self)
        ensures
            r.deep_view() == self.deep_view(),
    {
        self.dup()
    }
}

/// The variable that holds the key where a row names none.
pub const DEFAULT_API_KEY_ENV: &'static str = "ATOMCODE_API_KEY";

/// How large a window a stand-in claims where its row says nothing.
pub const REPLAY_WINDOW: u32 = 128000;

/// What a hand-written row is taken to say of thinking levels where it says nothing.
pub fn default_supports_effort() -> (r: bool)
    ensures
        r,
{
    true
}

// ---- where a model comes from ---------------------------------------------

pub open spec fn row_want(r: OpenAiCompatRowView) -> WantView {
    match (r.base_url, r.model) {
        (Some(base_url), Some(model)) => WantView::Explicit {
            base_url,
            model,
            api_key_env: r.api_key_env,
        },
        _ => WantView::Environment { api_key_env: r.api_key_env },
    }
}

/// What a row says of a model, and what its endpoint says where the row is silent.
pub open spec fn row_knobs(r: OpenAiCompatRowView, found: EndpointView) -> AdapterKnobsView {
    AdapterKnobsView {
        context_window: first_of(r.context_window, found.context_window),
        supports_vision: first_of(r.supports_vision, found.supports_vision),
        thinking_type: r.thinking_type,
        thinking_keep: r.thinking_keep,
        supports_reasoning_effort: Some(
            r.supports_reasoning_effort || found.supports_reasoning_effort,
        ),
    }
}

pub open spec fn utility_want(r: UtilityRowView) -> WantView {
    match r.base_url {
        Some(base_url) => WantView::Explicit {
            base_url,
            model: r.model,
            api_key_env: r.api_key_env,
        },
        None => WantView::EnvironmentWithModel { api_key_env: r.api_key_env, model: r.model },
    }
}

pub open spec fn utility_knobs(r: UtilityRowView, found: EndpointView) -> AdapterKnobsView {
    AdapterKnobsView {
        context_window: first_of(r.context_window, found.context_window),
        supports_vision: None,
        thinking_type: r.thinking_type,
        thinking_keep: r.thinking_keep,
        supports_reasoning_effort: Some(r.supports_reasoning_effort),
    }
}

pub open spec fn first_of<T>(a: Option<T>, b: Option<T>) -> Option<T> {
    match a {
        Some(x) => Some(x),
        None => b,
    }
}

impl OpenAiCompatRow {
    /// A row that states a whole endpoint is taken at its word; otherwise the
    /// environment is asked.
    pub fn want(&self) -> (w: Want)
        ensures
            w.deep_view() == row_want(self.deep_view()),
    {
        match (&self.base_url, &self.model) {
            (Some(base_url), Some(model)) => Want::Explicit {
                base_url: base_url.clone(),
                model: model.clone(),
                api_key_env: self.api_key_env.dup(),
            },
            _ => Want::Environment { api_key_env: self.api_key_env.dup() },
        }
    }

    /// What reaches the adapter: the row first, then what was found with the model. A
    /// level may be sent where either says so.
    pub fn knobs(&self, found: &Endpoint) -> (k: AdapterKnobs)
        ensures
            k.deep_view() == row_knobs(self.deep_view(), found.deep_view()),
    {
        AdapterKnobs {
            context_window: match self.context_window {
                Some(w) => Some(w),
                None => found.context_window,
            },
            supports_vision: match self.supports_vision {
                Some(v) => Some(v),
                None => found.supports_vision,
            },
            thinking_type: self.thinking_type.dup(),
            thinking_keep: self.thinking_keep.dup(),
            supports_reasoning_effort: Some(
                self.supports_reasoning_effort || found.supports_reasoning_effort,
            ),
        }
    }
}

impl UtilityRow {
    /// Only the model is the row's own; the endpoint is the tree's unless the row
    /// states one.
    pub fn want(&self) -> (w: Want)
        ensures
            w.deep_view() == utility_want(self.deep_view()),
    {
        match &self.base_url {
            Some(base_url) => Want::Explicit {
                base_url: base_url.clone(),
                model: self.model.clone(),
                api_key_env: self.api_key_env.dup(),
            },
            None => Want::EnvironmentWithModel {
                api_key_env: self.api_key_env.dup(),
                model: self.model.clone(),
            },
        }
    }

    /// What reaches the adapter. A side call carries no image, so nothing is said of
    /// them.
    pub fn knobs(&self, found: &Endpoint) -> (k: AdapterKnobs)
        ensures
            k.deep_view() == utility_knobs(self.deep_view(), found.deep_view()),
    {
        AdapterKnobs {
            context_window: match self.context_window {
                Some(w) => Some(w),
                None => found.context_window,
            },
            supports_vision: None,
            thinking_type: self.thinking_type.dup(),
            thinking_keep: self.thinking_keep.dup(),
            supports_reasoning_effort: Some(self.supports_reasoning_effort),
        }
    }
}

impl ConfigRow {
    pub fn want(&self) -> (w: Want)
        ensures
            w.deep_view() == (WantView::UserConfig {
                selection: self.deep_view().model,
                path: self.deep_view().path,
            }),
    {
        Want::UserConfig { selection: self.model.dup(), path: self.path.dup() }
    }

    /// The file the configuration is read from: the row's own, or the default one.
    pub fn locate(&self, default_path: &str) -> (r: String)
        ensures
            r@ == (match self.deep_view().path {
                Some(path) => path,
                None => default_path@,
            }),
    {
        match &self.path {
            Some(path) => path.clone(),
            None => lit(default_path),
        }
    }
}

/// What is said where there is no configuration file.
pub fn missing_config(path: &str) -> (r: String)
    ensures
        r@ == path@ + " does not exist.\n  - run AtomCode once to configure a provider, or\n  - patch the `llm` row to `llm-openai-compat` and set ATOMCODE_BASE_URL / ATOMCODE_MODEL / ATOMCODE_API_KEY, or\n  - add --offline for a scripted model that needs no key"@,
{
    lit(path).concat(" does not exist.\n  - run AtomCode once to configure a provider, or\n  - patch the `llm` row to `llm-openai-compat` and set ATOMCODE_BASE_URL / ATOMCODE_MODEL / ATOMCODE_API_KEY, or\n  - add --offline for a scripted model that needs no key")
}

// ---- setting up the adapter -----------------------------------------------

pub open spec fn no_knobs() -> AdapterKnobsView {
    AdapterKnobsView {
        context_window: None,
        supports_vision: None,
        thinking_type: None,
        thinking_keep: None,
        supports_reasoning_effort: None,
    }
}

impl Default for AdapterKnobs {
    fn default() -> (k: Self)
        ensures
            k.deep_view() == no_knobs(),
    {
        AdapterKnobs {
            context_window: None,
            supports_vision: None,
            thinking_type: None,
            thinking_keep: None,
            supports_reasoning_effort: None,
        }
    }
}

/// The set-up with what a row says in place of what it had.
pub open spec fn turned(start: AdapterConfigView, k: AdapterKnobsView) -> AdapterConfigView {
    AdapterConfigView {
        context_window: match k.context_window {
            Some(w) => w,
            None => start.context_window,
        },
        supports_vision: match k.supports_vision {
            Some(v) => v,
            None => start.supports_vision,
        },
        thinking_type: first_of(k.thinking_type, start.thinking_type),
        thinking_keep: first_of(k.thinking_keep, start.thinking_keep),
        supports_reasoning_effort: match k.supports_reasoning_effort {
            Some(a) => a,
            None => start.supports_reasoning_effort,
        },
        ..start
    }
}

/// Sets an adapter up: what it starts from, its guesses about the model's name
/// included, and over that what the row says.
pub fn openai_compat(start: AdapterConfig, knobs: AdapterKnobs) -> (cfg: AdapterConfig)
    ensures
        cfg.deep_view() == turned(start.deep_view(), knobs.deep_view()),
{
    let mut cfg = start;
    match knobs.context_window {
        Some(window) => {
            cfg.context_window = window;
        },
        None => {},
    }
    match knobs.supports_vision {
        Some(vision) => {
            cfg.supports_vision = vision;
        },
        None => {},
    }
    match knobs.thinking_type {
        Some(kind) => {
            cfg.thinking_type = Some(kind);
        },
        None => {},
    }
    match knobs.thinking_keep {
        Some(keep) => {
            cfg.thinking_keep = Some(keep);
        },
        None => {},
    }
    match knobs.supports_reasoning_effort {
        Some(accepts) => {
            cfg.supports_reasoning_effort = accepts;
        },
        None => {},
    }
    cfg
}

/// The set-up for a model out of the configuration file: what the file leaves out
/// about thinking is off.
pub open spec fn configured(start: AdapterConfigView, e: EndpointView) -> AdapterConfigView {
    AdapterConfigView {
        context_window: match e.context_window {
            Some(w) => w,
            None => start.context_window,
        },
        supports_vision: match e.supports_vision {
            Some(v) => v,
            None => start.supports_vision,
        },
        thinking_type: e.thinking_type,
        thinking_keep: e.thinking_keep,
        supports_reasoning_effort: e.supports_reasoning_effort,
        ..start
    }
}

pub fn from_config(start: AdapterConfig, e: &Endpoint) -> (cfg: AdapterConfig)
    ensures
        cfg.deep_view() == configured(start.deep_view(), e.deep_view()),
{
    let mut cfg = start;
    match e.context_window {
        Some(window) => {
            cfg.context_window = window;
        },
        None => {},
    }
    match e.supports_vision {
        Some(vision) => {
            cfg.supports_vision = vision;
        },
        None => {},
    }
    cfg.thinking_type = e.thinking_type.dup();
    cfg.thinking_keep = e.thinking_keep.dup();
    cfg.supports_reasoning_effort = e.supports_reasoning_effort;
    cfg
}

// ---- what is said of it ---------------------------------------------------

pub open spec fn context_text(window: u32, origin: Seq<char>) -> Seq<char> {
    "Context window: "@ + text::decimal(window as nat) + " tokens ("@ + origin + "). Auto-compaction fires as a fraction of this window, so a window smaller than the model's real one compacts early and a larger one overruns the provider."@
}

/// How large the window is, and where that number came from: a window someone stated
/// and a fallback look alike otherwise.
pub fn context_line(window: u32, origin: &str) -> (r: String)
    ensures
        r@ == context_text(window, origin@),
{
    lit("Context window: ").concat(number(window as u64).as_str()).concat(" tokens (").concat(origin).concat("). Auto-compaction fires as a fraction of this window, so a window smaller than the model's real one compacts early and a larger one overruns the provider.")
}

pub const STATED: &'static str = "stated on the `llm` row";

pub const ADAPTER_FALLBACK: &'static str = "the adapter's fallback, because this row states no `context_window` — nothing in this tree knows what this model really holds";

pub const REPLAY_FALLBACK: &'static str = "the built-in default, because this row states no `context_window`";

pub const FROM_FILE: &'static str = "from this model's `[models.*]` entry in that file";

pub open spec fn compat_text(
    model: Seq<char>,
    base_url: Seq<char>,
    key_var: Seq<char>,
    context: Seq<char>,
) -> Seq<char> {
    "MODEL. This tree talks to `"@ + model + "` at `"@ + base_url + "`, through the `llm-openai-compat` row reading ATOMCODE_BASE_URL / ATOMCODE_MODEL / "@ + key_var + ".\n"@ + context + "\nTo set it, the patch target is the ROW id, `llm`, and `--patch` takes a file rather than a string: `[[patch]] id = \"llm\" config = { context_window = 1000000 }`.\nTo switch model: change ATOMCODE_MODEL and restart. To use the account already configured in AtomCode instead, drop `--env-model` so the `llm` row is `llm-atomcode-config`.\nWhether `"@ + model + "` can be sent images is guessed from its name. That guess cannot know a gateway's own ids, so if it is wrong either way, overrule it on the `llm` row: put `[[patch]] id = \"llm\" config = { supports_vision = true }` in a file and pass it as `--patch <file>`.\nThe model is NOT in the user-settings catalog on purpose — it is a row in the running tree, not a preference."@
}

impl OpenAiCompatRow {
    /// What is said of the model this row mounted; `window` is the one the provider
    /// reports.
    pub fn describe(&self, model: &str, base_url: &str, window: u32) -> (r: String)
        ensures
            r@ == compat_text(
                model@,
                base_url@,
                match self.deep_view().api_key_env {
                    Some(v) => v,
                    None => DEFAULT_API_KEY_ENV@,
                },
                context_text(
                    window,
                    if self.context_window is Some {
                        STATED@
                    } else {
                        ADAPTER_FALLBACK@
                    },
                ),
            ),
    {
        let origin = match self.context_window {
            Some(_) => STATED,
            None => ADAPTER_FALLBACK,
        };
        let key_var = match &self.api_key_env {
            Some(v) => v.as_str(),
            None => DEFAULT_API_KEY_ENV,
        };
        let context = context_line(window, origin);
        lit("MODEL. This tree talks to `").concat(model).concat("` at `").concat(base_url).concat("`, through the `llm-openai-compat` row reading ATOMCODE_BASE_URL / ATOMCODE_MODEL / ").concat(key_var).concat(".\n").concat(context.as_str()).concat("\nTo set it, the patch target is the ROW id, `llm`, and `--patch` takes a file rather than a string: `[[patch]] id = \"llm\" config = { context_window = 1000000 }`.\nTo switch model: change ATOMCODE_MODEL and restart. To use the account already configured in AtomCode instead, drop `--env-model` so the `llm` row is `llm-atomcode-config`.\nWhether `").concat(model).concat("` can be sent images is guessed from its name. That guess cannot know a gateway's own ids, so if it is wrong either way, overrule it on the `llm` row: put `[[patch]] id = \"llm\" config = { supports_vision = true }` in a file and pass it as `--patch <file>`.\nThe model is NOT in the user-settings catalog on purpose — it is a row in the running tree, not a preference.")
    }
}

pub open spec fn config_text(selection: Seq<char>, e: EndpointView, context: Seq<char>) -> Seq<char> {
    "MODEL. This tree uses selection `"@ + selection + "` (model `"@ + e.model + "`) from `"@ + e.origin + "`, via the `llm-atomcode-config` row.\n"@ + context + "\nTo change it, put `context_window` in that model's `[models.*]` entry; this row reads the window from there and reports it.\nTo switch model: change the selection in that file (the `/model` picker writes it), or put `config = { model = \"…\" }` on the `llm` row.\nTo use an arbitrary OpenAI-compatible endpoint instead, launch with `--env-model` and set ATOMCODE_BASE_URL / ATOMCODE_MODEL / ATOMCODE_API_KEY — that swaps this row for `llm-openai-compat`.\nThe model is NOT in the user-settings catalog on purpose — it is a row in the running tree, not a preference."@
}

impl ConfigRow {
    /// What is said of the model this row mounted.
    pub fn describe(&self, e: &Endpoint, window: u32) -> (r: String)
        ensures
            r@ == config_text(
                match self.deep_view().model {
                    Some(m) => m,
                    None => "(the configured default)"@,
                },
                e.deep_view(),
                context_text(window, FROM_FILE@),
            ),
    {
        let selection = match &self.model {
            Some(m) => m.as_str(),
            None => "(the configured default)",
        };
        let context = context_line(window, FROM_FILE);
        lit("MODEL. This tree uses selection `").concat(selection).concat("` (model `").concat(e.model.as_str()).concat("`) from `").concat(e.origin.as_str()).concat("`, via the `llm-atomcode-config` row.\n").concat(context.as_str()).concat("\nTo change it, put `context_window` in that model's `[models.*]` entry; this row reads the window from there and reports it.\nTo switch model: change the selection in that file (the `/model` picker writes it), or put `config = { model = \"…\" }` on the `llm` row.\nTo use an arbitrary OpenAI-compatible endpoint instead, launch with `--env-model` and set ATOMCODE_BASE_URL / ATOMCODE_MODEL / ATOMCODE_API_KEY — that swaps this row for `llm-openai-compat`.\nThe model is NOT in the user-settings catalog on purpose — it is a row in the running tree, not a preference.")
    }
}

/// The line that says which model is in use.
pub fn using(e: &Endpoint) -> (r: String)
    ensures
        r@ == "\u{1b}[2musing `"@ + e.model@ + "` from "@ + e.origin@ + "\u{1b}[0m"@,
{
    lit("\u{1b}[2musing `").concat(e.model.as_str()).concat("` from ").concat(
        e.origin.as_str(),
    ).concat("\u{1b}[0m")
}

// ---- the scripted model ---------------------------------------------------

pub open spec fn replay_text(answers: nat, context: Seq<char>) -> Seq<char> {
    "MODEL. There is no model. The `llm` row is `llm-replay`, a scripted stand-in with "@ + text::decimal(answers) + " canned answer(s) and no network — used by `--offline` and by every test. Nothing you say reaches a provider.\n"@ + context + "\nTo talk to a real one, restart without `--offline`, or with `--env-model` plus ATOMCODE_BASE_URL / ATOMCODE_MODEL / ATOMCODE_API_KEY."@
}

impl Default for ReplayRow {
    fn default() -> (r: Self)
        ensures
            r.deep_view() == (ReplayRowView {
                script: Seq::empty(),
                supports_vision: false,
                context_window: None,
            }),
    {
        ReplayRow { script: none_of(), supports_vision: false, context_window: None }
    }
}

impl ReplayRow {
    /// The window the stand-in claims.
    pub fn window(&self) -> (w: u32)
        ensures
            w == (match self.context_window {
                Some(w) => w,
                None => REPLAY_WINDOW,
            }),
    {
        match self.context_window {
            Some(w) => w,
            None => REPLAY_WINDOW,
        }
    }

    /// What is said of the model this row mounted.
    pub fn describe(&self) -> (r: String)
        ensures
            r@ == replay_text(
                self.script@.len(),
                match self.context_window {
                    Some(w) => context_text(w, STATED@),
                    None => context_text(REPLAY_WINDOW, REPLAY_FALLBACK@),
                },
            ),
    {
        let origin = match self.context_window {
            Some(_) => STATED,
            None => REPLAY_FALLBACK,
        };
        let context = context_line(self.window(), origin);
        lit("MODEL. There is no model. The `llm` row is `llm-replay`, a scripted stand-in with ").concat(number(self.script.len() as u64).as_str()).concat(" canned answer(s) and no network — used by `--offline` and by every test. Nothing you say reaches a provider.\n").concat(context.as_str()).concat("\nTo talk to a real one, restart without `--offline`, or with `--env-model` plus ATOMCODE_BASE_URL / ATOMCODE_MODEL / ATOMCODE_API_KEY.")
    }
}

/// What a script says past its end.
pub const EXHAUSTED: &'static str = "(replay script exhausted)";

pub open spec fn said(words: Seq<Seq<char>>) -> Seq<StreamEventView> {
    Seq::new(words.len(), |i: int| StreamEventView::TextDelta(words[i]))
}

pub open spec fn called(calls: Seq<ReplayCallView>, index: nat) -> Seq<StreamEventView> {
    Seq::new(
        calls.len(),
        |i: int|
            StreamEventView::ToolCall(
                ToolCallView {
                    id: "replay-"@ + text::decimal(index) + "-"@ + text::decimal(i as nat),
                    name: calls[i].name,
                    arguments: calls[i].args,
                },
            ),
    )
}

pub open spec fn replay_usage() -> TokenUsage {
    TokenUsage { prompt: 100, completion: 20, cached: 0 }
}

/// The step at `index`; past the end, one that says so.
pub open spec fn step_at(script: Seq<ReplayStepView>, index: nat) -> ReplayStepView {
    if index < script.len() {
        script[index as int]
    } else {
        ReplayStepView { text: EXHAUSTED@, calls: Seq::empty(), fail: None }
    }
}

/// What a scripted model streams for its `index`-th request: the text a word at a time,
/// then the calls, then what it cost.
pub open spec fn replayed(script: Seq<ReplayStepView>, index: nat) -> Result<
    Seq<StreamEventView>,
    RequestErrorView,
> {
    let step = step_at(script, index);
    match step.fail {
        Some(message) => Err(stream::plain_error(message)),
        None => Ok(
            (said(text::kept_pieces(step.text, ' ')) + called(step.calls, index)).push(
                StreamEventView::Usage(replay_usage()),
            ),
        ),
    }
}

pub open spec fn streamed(r: Result<Vec<StreamEvent>, RequestError>) -> Result<
    Seq<StreamEventView>,
    RequestErrorView,
> {
    match r {
        Ok(v) => Ok(v.deep_view()),
        Err(e) => Err(e.deep_view()),
    }
}

/// Adds the text of a step, a word at a time.
fn say(out: &mut Vec<StreamEvent>, text: &str)
    ensures
        final(out).deep_view() == old(out).deep_view() + said(text::kept_pieces(text@, ' ')),
{
    let words = split_keeping(text, ' ');
    let ghost start = out.deep_view();
    let ghost all = said(words.deep_view());
    let mut i: usize = 0;
    assert(start + all.take(0) =~= start);
    while i < words.len()
        invariant
            i <= words.len(),
            all == said(words.deep_view()),
            out.deep_view() == start + all.take(i as int),
        decreases words.len() - i,
    {
        put(out, StreamEvent::TextDelta(words[i].clone()));
        assert(out.deep_view() =~= start + all.take(i + 1));
        i = i + 1;
    }
    assert(all.take(i as int) =~= all);
}

/// Adds the calls of a step.
fn call(out: &mut Vec<StreamEvent>, calls: &Vec<ReplayCall>, index: u64)
    ensures
        final(out).deep_view() == old(out).deep_view() + called(calls.deep_view(), index as nat),
{
    let ghost start = out.deep_view();
    let ghost all = called(calls.deep_view(), index as nat);
    let mut i: usize = 0;
    assert(start + all.take(0) =~= start);
    while i < calls.len()
        invariant
            i <= calls.len(),
            all == called(calls.deep_view(), index as nat),
            out.deep_view() == start + all.take(i as int),
        decreases calls.len() - i,
    {
        put(
            out,
            StreamEvent::ToolCall(
                ToolCall {
                    id: lit("replay-").concat(number(index).as_str()).concat("-").concat(
                        number(i as u64).as_str(),
                    ),
                    name: calls[i].name.clone(),
                    arguments: calls[i].args.clone(),
                },
            ),
        );
        assert(out.deep_view() =~= start + all.take(i + 1));
        i = i + 1;
    }
    assert(all.take(i as int) =~= all);
}

/// A scripted model.
pub struct ReplayProvider {
    script: Vec<ReplayStep>,
    cursor: usize,
}

impl ReplayProvider {
    pub closed spec fn steps(&self) -> Seq<ReplayStepView> {
        self.script.deep_view()
    }

    /// How many requests it has answered.
    pub closed spec fn answered(&self) -> nat {
        self.cursor as nat
    }

    pub fn new(script: Vec<ReplayStep>) -> (p: Self)
        ensures
            p.steps() == script.deep_view(),
            p.answered() == 0,
    {
        ReplayProvider { script, cursor: 0 }
    }

    /// Answers a request with the next step.
    pub fn answer(&mut self) -> (r: Result<Vec<StreamEvent>, RequestError>)
        ensures
            streamed(r) == replayed(old(self).steps(), old(self).answered()),
            final(self).steps() == old(self).steps(),
            final(self).answered() == (if old(self).answered() == usize::MAX {
                0
            } else {
                old(self).answered() + 1
            }),
    {
        let index = self.cursor;
        self.cursor = index.wrapping_add(1);
        let step = if index < self.script.len() {
            assert(self.script.deep_view()[index as int] == self.script@[index as int].deep_view());
            self.script[index].clone()
        } else {
            ReplayStep { text: lit(EXHAUSTED), calls: none_of(), fail: None }
        };
        match step.fail {
            Some(message) => Err(RequestError::message(message)),
            None => {
                let mut out: Vec<StreamEvent> = none_of();
                say(&mut out, step.text.as_str());
                call(&mut out, &step.calls, index as u64);
                put(
                    &mut out,
                    StreamEvent::Usage(TokenUsage { prompt: 100, completion: 20, cached: 0 }),
                );
                assert(out.deep_view() =~= (said(text::kept_pieces(step.text@, ' ')) + called(
                    step.calls.deep_view(),
                    index as nat,
                )).push(StreamEventView::Usage(replay_usage())));
                Ok(out)
            },
        }
    }
}

// ---- laws -----------------------------------------------------------------

/// What a row states about a route wins over what the adapter guessed, in either
/// direction.
pub proof fn law_the_row_overrules(start: AdapterConfigView, knobs: AdapterKnobsView)
    ensures
        knobs.supports_vision matches Some(v) ==> turned(start, knobs).supports_vision == v,
        knobs.context_window matches Some(w) ==> turned(start, knobs).context_window == w,
        knobs.supports_reasoning_effort matches Some(a) ==> turned(
            start,
            knobs,
        ).supports_reasoning_effort == a,
        knobs.thinking_type is Some ==> turned(start, knobs).thinking_type == knobs.thinking_type,
{
}

/// A row that says nothing leaves the adapter as it is.
pub proof fn law_silence_changes_nothing(start: AdapterConfigView)
    ensures
        turned(start, no_knobs()) == start,
{
}

/// A scripted answer that does not fail and is not empty says its text, whole.
pub proof fn law_a_script_is_said_whole(script: Seq<ReplayStepView>, index: nat)
    ensures
        step_at(script, index).fail is None ==> text::strung(
            text::kept_pieces(step_at(script, index).text, ' '),
        ) == step_at(script, index).text,
{
    text::lemma_kept_pieces(step_at(script, index).text, ' ');
}

} // verus!
