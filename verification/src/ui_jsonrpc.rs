//! The line-delimited JSON-RPC front end: what a line asks for, and what goes back.
//!
//! One JSON object comes in per line and one goes out per line. Where a message holds
//! something another part of the harness has written, it comes here as JSON text.
use crate::data::{none_of, put, Dup};
use crate::events::{About, AboutView, ChoiceView, Question, QuestionView};
use crate::json;
use crate::json::{quote, quote_or_null, write_array, write_strings, Json, JsonView};
use crate::log;
use crate::message::{Message, MessageView, Role};
use crate::protocol::AgentStatus;
use crate::text;
use crate::text::{lit, number, same};
use crate::turn::{TurnOutcome, TurnOutcomeView};
use crate::ui::{Row, RowView};
use vstd::prelude::*;

verus! {

/// A request the client sent. The id and the parameters are JSON texts.
#[derive(Debug, PartialEq, Eq)]
pub struct Call {
    pub id: String,
    pub method: String,
    pub params: String,
}

/// What a [`Call`] holds.
#[verifier::ext_equal]
pub struct CallView {
    pub id: Seq<char>,
    pub method: Seq<char>,
    pub params: Seq<char>,
}

impl DeepView for Call {
    type V = CallView;

    open spec fn deep_view(&self) -> CallView {
        CallView {
            id: self.id.deep_view(),
            method: self.method.deep_view(),
            params: self.params.deep_view(),
        }
    }
}

impl Dup for Call {
    fn dup(&self) -> (r: Self) {
        Call {
            id: self.id.dup(),
            method: self.method.dup(),
            params: self.params.dup(),
        }
    }
}

impl Clone for Call {
    fn clone(&self) -> (r: Self)
        ensures
            r.deep_view() == self.deep_view(),
    {
        self.dup()
    }
}

/// What a call asks for.
#[derive(Debug, PartialEq, Eq)]
pub enum Request {
    Create,
    List,
    /// Queue work and drive it.
    Send { agent: Option<u64>, text: Option<String> },
    /// Queue context that wakes nobody.
    Inject { agent: Option<u64>, text: Option<String> },
    Cancel { agent: Option<u64> },
    Transcript { agent: Option<u64> },
    /// What was logged after this number.
    Events { agent: Option<u64>, after: u64 },
    Seams,
    Rows,
    /// Apply this layer to the running tree.
    Patch { layer: Option<String> },
    Audit,
    /// The other half of a question.
    Answer { id: Option<u64>, answer: Option<String> },
    Shutdown,
    Unknown(String),
}

/// What a [`Request`] holds.
#[verifier::ext_equal]
pub enum RequestView {
    Create,
    List,
    Send { agent: Option<u64>, text: Option<Seq<char>> },
    Inject { agent: Option<u64>, text: Option<Seq<char>> },
    Cancel { agent: Option<u64> },
    Transcript { agent: Option<u64> },
    Events { agent: Option<u64>, after: u64 },
    Seams,
    Rows,
    Patch { layer: Option<Seq<char>> },
    Audit,
    Answer { id: Option<u64>, answer: Option<Seq<char>> },
    Shutdown,
    Unknown(Seq<char>),
}

impl DeepView for Request {
    type V = RequestView;

    open spec fn deep_view(&self) -> RequestView {
        match self {
            Request::Create => RequestView::Create,
            Request::List => RequestView::List,
            Request::Send { agent, text } => RequestView::Send {
                agent: agent.deep_view(),
                text: text.deep_view(),
            },
            Request::Inject { agent, text } => RequestView::Inject {
                agent: agent.deep_view(),
                text: text.deep_view(),
            },
            Request::Cancel { agent } => RequestView::Cancel {
                agent: agent.deep_view(),
            },
            Request::Transcript { agent } => RequestView::Transcript {
                agent: agent.deep_view(),
            },
            Request::Events { agent, after } => RequestView::Events {
                agent: agent.deep_view(),
                after: after.deep_view(),
            },
            Request::Seams => RequestView::Seams,
            Request::Rows => RequestView::Rows,
            Request::Patch { layer } => RequestView::Patch {
                layer: layer.deep_view(),
            },
            Request::Audit => RequestView::Audit,
            Request::Answer { id, answer } => RequestView::Answer {
                id: id.deep_view(),
                answer: answer.deep_view(),
            },
            Request::Shutdown => RequestView::Shutdown,
            Request::Unknown(x) => RequestView::Unknown(x.deep_view()),
        }
    }
}

impl Dup for Request {
    fn dup(&self) -> (r: Self) {
        match self {
            Request::Create => Request::Create,
            Request::List => Request::List,
            Request::Send { agent, text } => Request::Send {
                agent: agent.dup(),
                text: text.dup(),
            },
            Request::Inject { agent, text } => Request::Inject {
                agent: agent.dup(),
                text: text.dup(),
            },
            Request::Cancel { agent } => Request::Cancel {
                agent: agent.dup(),
            },
            Request::Transcript { agent } => Request::Transcript {
                agent: agent.dup(),
            },
            Request::Events { agent, after } => Request::Events {
                agent: agent.dup(),
                after: after.dup(),
            },
            Request::Seams => Request::Seams,
            Request::Rows => Request::Rows,
            Request::Patch { layer } => Request::Patch {
                layer: layer.dup(),
            },
            Request::Audit => Request::Audit,
            Request::Answer { id, answer } => Request::Answer {
                id: id.dup(),
                answer: answer.dup(),
            },
            Request::Shutdown => Request::Shutdown,
            Request::Unknown(x) => Request::Unknown(x.dup()),
        }
    }
}

impl Clone for Request {
    fn clone(&self) -> (r: Self)
        ensures
            r.deep_view() == self.deep_view(),
    {
        self.dup()
    }
}

/// What becomes of a line.
#[derive(Debug, PartialEq, Eq)]
pub enum Incoming {
    /// It was blank.
    Skip,
    /// It was no call; this goes back.
    Refuse(String),
    /// It is a call.
    Run(Call),
}

/// What a [`Incoming`] holds.
#[verifier::ext_equal]
pub enum IncomingView {
    Skip,
    Refuse(Seq<char>),
    Run(CallView),
}

impl DeepView for Incoming {
    type V = IncomingView;

    open spec fn deep_view(&self) -> IncomingView {
        match self {
            Incoming::Skip => IncomingView::Skip,
            Incoming::Refuse(x) => IncomingView::Refuse(x.deep_view()),
            Incoming::Run(x) => IncomingView::Run(x.deep_view()),
        }
    }
}

impl Dup for Incoming {
    fn dup(&self) -> (r: Self) {
        match self {
            Incoming::Skip => Incoming::Skip,
            Incoming::Refuse(x) => Incoming::Refuse(x.dup()),
            Incoming::Run(x) => Incoming::Run(x.dup()),
        }
    }
}

impl Clone for Incoming {
    fn clone(&self) -> (r: Self)
        ensures
            r.deep_view() == self.deep_view(),
    {
        self.dup()
    }
}

/// Whom a call is for.
#[derive(Debug, PartialEq, Eq)]
pub enum Target {
    Agent(u64),
    /// Nobody is there yet: the first one is made for it.
    Create,
}

/// What a [`Target`] holds.
#[verifier::ext_equal]
pub enum TargetView {
    Agent(u64),
    Create,
}

impl DeepView for Target {
    type V = TargetView;

    open spec fn deep_view(&self) -> TargetView {
        match self {
            Target::Agent(x) => TargetView::Agent(x.deep_view()),
            Target::Create => TargetView::Create,
        }
    }
}

impl Dup for Target {
    fn dup(&self) -> (r: Self) {
        match self {
            Target::Agent(x) => Target::Agent(x.dup()),
            Target::Create => Target::Create,
        }
    }
}

impl Clone for Target {
    fn clone(&self) -> (r: Self)
        ensures
            r.deep_view() == self.deep_view(),
    {
        self.dup()
    }
}

/// An agent and what it is doing.
#[derive(Debug, PartialEq, Eq)]
pub struct Live {
    pub id: u64,
    pub status: AgentStatus,
}

/// What a [`Live`] holds.
#[verifier::ext_equal]
pub struct LiveView {
    pub id: u64,
    pub status: AgentStatus,
}

impl DeepView for Live {
    type V = LiveView;

    open spec fn deep_view(&self) -> LiveView {
        LiveView {
            id: self.id.deep_view(),
            status: self.status.deep_view(),
        }
    }
}

impl Dup for Live {
    fn dup(&self) -> (r: Self) {
        Live {
            id: self.id.dup(),
            status: self.status.dup(),
        }
    }
}

impl Clone for Live {
    fn clone(&self) -> (r: Self)
        ensures
            r.deep_view() == self.deep_view(),
    {
        self.dup()
    }
}

/// A logged event, as JSON text.
#[derive(Debug, PartialEq, Eq)]
pub struct Numbered {
    pub seq: u64,
    pub event: String,
}

/// What a [`Numbered`] holds.
#[verifier::ext_equal]
pub struct NumberedView {
    pub seq: u64,
    pub event: Seq<char>,
}

impl DeepView for Numbered {
    type V = NumberedView;

    open spec fn deep_view(&self) -> NumberedView {
        NumberedView {
            seq: self.seq.deep_view(),
            event: self.event.deep_view(),
        }
    }
}

impl Dup for Numbered {
    fn dup(&self) -> (r: Self) {
        Numbered {
            seq: self.seq.dup(),
            event: self.event.dup(),
        }
    }
}

impl Clone for Numbered {
    fn clone(&self) -> (r: Self)
        ensures
            r.deep_view() == self.deep_view(),
    {
        self.dup()
    }
}

// ---- reading --------------------------------------------------------------

/// The call a line holds.
pub open spec fn call_in(line: Seq<char>) -> Result<CallView, Seq<char>> {
    match json::parsed(line) {
        Err(e) => Err(e),
        Ok(j) => call_of(j),
    }
}

pub open spec fn call_read(r: Result<Call, String>) -> Result<CallView, Seq<char>> {
    match r {
        Ok(c) => Ok(c.deep_view()),
        Err(e) => Err(e@),
    }
}

/// The call in a JSON value that was read from a line.
pub open spec fn call_of(j: JsonView) -> Result<CallView, Seq<char>> {
    match json::text_under(j, "method"@) {
        None => Err("missing `method`"@),
        Some(method) => Ok(
            CallView {
                id: match json::member(j, "id"@) {
                    Some(id) => id,
                    None => "null"@,
                },
                method,
                params: match json::member(j, "params"@) {
                    Some(p) => p,
                    None => "{}"@,
                },
            },
        ),
    }
}

pub fn take_call(j: &Json) -> (r: Result<Call, String>)
    ensures
        call_read(r) == call_of(j.deep_view()),
{
    match j.text_at("method") {
        None => Err(lit("missing `method`")),
        Some(method) => {
            let id = match j.get("id") {
                Some(id) => id,
                None => lit("null"),
            };
            let params = match j.get("params") {
                Some(p) => p,
                None => lit("{}"),
            };
            Ok(Call { id, method, params })
        },
    }
}

/// Reads a call.
pub fn parse_call(line: &str) -> (r: Result<Call, String>)
    ensures
        call_read(r) == call_in(line@),
{
    match json::read(line) {
        Ok(j) => take_call(&j),
        Err(e) => Err(e),
    }
}

/// What becomes of a line.
pub open spec fn incoming(line: Seq<char>) -> IncomingView {
    if text::is_blank(line) {
        IncomingView::Skip
    } else {
        match call_in(line) {
            Ok(c) => IncomingView::Run(c),
            Err(e) => IncomingView::Refuse(error_text("null"@, "-32700"@, e)),
        }
    }
}

pub fn take_line(line: &str) -> (i: Incoming)
    ensures
        i.deep_view() == incoming(line@),
{
    if text::blank(line) {
        Incoming::Skip
    } else {
        match parse_call(line) {
            Ok(c) => Incoming::Run(c),
            Err(e) => Incoming::Refuse(error_response("null", "-32700", e.as_str())),
        }
    }
}

/// What a call with this method and these parameters asks for.
pub open spec fn asked(method: Seq<char>, params: JsonView) -> RequestView {
    let agent = json::whole_under(params, "agent"@);
    if method == "agent/create"@ {
        RequestView::Create
    } else if method == "agent/list"@ {
        RequestView::List
    } else if method == "agent/send"@ {
        RequestView::Send { agent, text: json::text_under(params, "text"@) }
    } else if method == "agent/inject"@ {
        RequestView::Inject { agent, text: json::text_under(params, "text"@) }
    } else if method == "agent/cancel"@ {
        RequestView::Cancel { agent }
    } else if method == "session/transcript"@ {
        RequestView::Transcript { agent }
    } else if method == "session/events"@ {
        RequestView::Events {
            agent,
            after: match json::whole_under(params, "after"@) {
                Some(n) => n,
                None => 0,
            },
        }
    } else if method == "harness/seams"@ {
        RequestView::Seams
    } else if method == "harness/rows"@ {
        RequestView::Rows
    } else if method == "harness/patch"@ {
        RequestView::Patch { layer: json::text_under(params, "patch"@) }
    } else if method == "harness/audit"@ {
        RequestView::Audit
    } else if method == "user/answer"@ {
        RequestView::Answer {
            id: json::whole_under(params, "id"@),
            answer: json::text_under(params, "answer"@),
        }
    } else if method == "shutdown"@ {
        RequestView::Shutdown
    } else {
        RequestView::Unknown(method)
    }
}

/// The parameters of a call; a text that does not read holds none.
pub open spec fn params_in(raw: Seq<char>) -> JsonView {
    match json::parsed(raw) {
        Ok(j) => j,
        Err(_) => JsonView::Null,
    }
}

/// What a call asks for.
pub fn decode(call: &Call) -> (r: Request)
    ensures
        r.deep_view() == asked(call.method@, params_in(call.params@)),
{
    let params = match json::read(call.params.as_str()) {
        Ok(j) => j,
        Err(_) => Json::Null,
    };
    request(call.method.as_str(), &params)
}

/// What a method and its parameters ask for.
pub fn request(method: &str, params: &Json) -> (r: Request)
    ensures
        r.deep_view() == asked(method@, params.deep_view()),
{
    let agent = params.whole_at("agent");
    if same(method, "agent/create") {
        Request::Create
    } else if same(method, "agent/list") {
        Request::List
    } else if same(method, "agent/send") {
        Request::Send { agent, text: params.text_at("text") }
    } else if same(method, "agent/inject") {
        Request::Inject { agent, text: params.text_at("text") }
    } else if same(method, "agent/cancel") {
        Request::Cancel { agent }
    } else if same(method, "session/transcript") {
        Request::Transcript { agent }
    } else if same(method, "session/events") {
        let after: u64 = match params.whole_at("after") {
            Some(n) => n,
            None => 0,
        };
        Request::Events { agent, after }
    } else if same(method, "harness/seams") {
        Request::Seams
    } else if same(method, "harness/rows") {
        Request::Rows
    } else if same(method, "harness/patch") {
        Request::Patch { layer: params.text_at("patch") }
    } else if same(method, "harness/audit") {
        Request::Audit
    } else if same(method, "user/answer") {
        Request::Answer { id: params.whole_at("id"), answer: params.text_at("answer") }
    } else if same(method, "shutdown") {
        Request::Shutdown
    } else {
        Request::Unknown(lit(method))
    }
}

// ---- whom it is for -------------------------------------------------------

/// The agent named; or the only one there is, or the first, yet to be made. Where
/// there are several one of them has to be named.
pub open spec fn resolved(agent: Option<u64>, live: Seq<u64>) -> Result<TargetView, Seq<char>> {
    match agent {
        Some(id) => if live.contains(id) {
            Ok(TargetView::Agent(id))
        } else {
            Err("no agent #"@ + text::decimal(id as nat))
        },
        None => if live.len() == 1 {
            Ok(TargetView::Agent(live[0]))
        } else if live.len() == 0 {
            Ok(TargetView::Create)
        } else {
            Err("several agents exist; name one with `agent`"@)
        },
    }
}

pub open spec fn target_read(r: Result<Target, String>) -> Result<TargetView, Seq<char>> {
    match r {
        Ok(t) => Ok(t.deep_view()),
        Err(e) => Err(e@),
    }
}

/// Whom a call is for.
pub fn resolve(agent: Option<u64>, live: &Vec<u64>) -> (r: Result<Target, String>)
    ensures
        target_read(r) == resolved(agent, live@),
{
    match agent {
        Some(id) => {
            let mut i: usize = 0;
            while i < live.len()
                invariant
                    i <= live.len(),
                    agent == Some(id),
                    forall|k: int| 0 <= k < i ==> live@[k] != id,
                decreases live.len() - i,
            {
                if live[i] == id {
                    return Ok(Target::Agent(id));
                }
                i = i + 1;
            }
            Err(lit("no agent #").concat(number(id).as_str()))
        },
        None => {
            if live.len() == 1 {
                Ok(Target::Agent(live[0]))
            } else if live.len() == 0 {
                Ok(Target::Create)
            } else {
                Err(lit("several agents exist; name one with `agent`"))
            }
        },
    }
}

/// What a call cannot do without.
pub open spec fn needed(value: Option<Seq<char>>, what: Seq<char>) -> Result<Seq<char>, Seq<char>> {
    match value {
        Some(v) => Ok(v),
        None => Err("missing "@ + what),
    }
}

pub open spec fn text_read(r: Result<String, String>) -> Result<Seq<char>, Seq<char>> {
    match r {
        Ok(v) => Ok(v@),
        Err(e) => Err(e@),
    }
}

fn need(value: Option<String>, what: &str) -> (r: Result<String, String>)
    ensures
        text_read(r) == needed(value.deep_view(), what@),
{
    match value {
        Some(v) => Ok(v),
        None => Err(lit("missing ").concat(what)),
    }
}

/// The text to send, once the agent is known.
pub fn need_text(value: Option<String>) -> (r: Result<String, String>)
    ensures
        text_read(r) == needed(value.deep_view(), "`text`"@),
{
    need(value, "`text`")
}

/// The layer to apply, once there is anyone to apply it.
pub fn need_layer(value: Option<String>) -> (r: Result<String, String>)
    ensures
        text_read(r) == needed(value.deep_view(), "`patch` (a TOML layer)"@),
{
    need(value, "`patch` (a TOML layer)")
}

/// The question that is answered.
pub fn need_id(value: Option<u64>) -> (r: Result<u64, String>)
    ensures
        match r {
            Ok(id) => value == Some(id),
            Err(e) => value is None && e@ == "missing `id`"@,
        },
{
    match value {
        Some(id) => Ok(id),
        None => Err(lit("missing `id`")),
    }
}

/// What is said of a method nobody knows.
pub fn unknown(method: &str) -> (r: String)
    ensures
        r@ == "unknown method `"@ + method@ + "`"@,
{
    lit("unknown method `").concat(method).concat("`")
}

// ---- answering ------------------------------------------------------------

pub open spec fn error_text(id: Seq<char>, code: Seq<char>, message: Seq<char>) -> Seq<char> {
    "{\"error\":{\"code\":"@ + code + ",\"message\":"@ + json::quoted(message) + "},\"id\":"@ + id
        + ",\"jsonrpc\":\"2.0\"}"@
}

fn error_response(id: &str, code: &str, message: &str) -> (r: String)
    ensures
        r@ == error_text(id@, code@, message@),
{
    lit("{\"error\":{\"code\":").concat(code).concat(",\"message\":").concat(
        quote(message).as_str(),
    ).concat("},\"id\":").concat(id).concat(",\"jsonrpc\":\"2.0\"}")
}

pub open spec fn result_text(id: Seq<char>, result: Seq<char>) -> Seq<char> {
    "{\"id\":"@ + id + ",\"jsonrpc\":\"2.0\",\"result\":"@ + result + "}"@
}

/// What goes back, and whether the session goes on. A call that ended well without a
/// result was the last one.
pub open spec fn answered(
    id: Seq<char>,
    outcome: Result<Option<Seq<char>>, Seq<char>>,
) -> (Seq<char>, bool) {
    match outcome {
        Ok(Some(result)) => (result_text(id, result), true),
        Ok(None) => (result_text(id, "{\"ok\":true}"@), false),
        Err(e) => (error_text(id, "-32000"@, e), true),
    }
}

pub open spec fn outcome_view(
    r: Result<Option<String>, String>,
) -> Result<Option<Seq<char>>, Seq<char>> {
    match r {
        Ok(v) => Ok(v.deep_view()),
        Err(e) => Err(e@),
    }
}

/// The answer to a call: the line that goes back, and whether to read on.
pub fn reply(id: &str, outcome: Result<Option<String>, String>) -> (r: (String, bool))
    ensures
        r.0@ == answered(id@, outcome_view(outcome)).0,
        r.1 == answered(id@, outcome_view(outcome)).1,
{
    match outcome {
        Ok(Some(result)) => (
            lit("{\"id\":").concat(id).concat(",\"jsonrpc\":\"2.0\",\"result\":").concat(
                result.as_str(),
            ).concat("}"),
            true,
        ),
        Ok(None) => (
            lit("{\"id\":").concat(id).concat(",\"jsonrpc\":\"2.0\",\"result\":").concat(
                "{\"ok\":true}",
            ).concat("}"),
            false,
        ),
        Err(e) => (error_response(id, "-32000", e.as_str()), true),
    }
}

pub open spec fn notice_text(method: Seq<char>, params: Seq<char>) -> Seq<char> {
    "{\"jsonrpc\":\"2.0\",\"method\":\""@ + method + "\",\"params\":"@ + params + "}"@
}

fn notification(method: &str, params: &str) -> (r: String)
    ensures
        r@ == notice_text(method@, params@),
{
    lit("{\"jsonrpc\":\"2.0\",\"method\":\"").concat(method).concat("\",\"params\":").concat(
        params,
    ).concat("}")
}

/// A logged event, on its way to the client.
pub fn event_notice(session: &str, seq: u64, event: &str) -> (r: String)
    ensures
        r@ == notice_text(
            "session/event"@,
            "{\"event\":"@ + event@ + ",\"seq\":"@ + text::decimal(seq as nat) + ",\"session\":"@
                + json::quoted(session@) + "}"@,
        ),
{
    let params = lit("{\"event\":").concat(event).concat(",\"seq\":").concat(
        number(seq).as_str(),
    ).concat(",\"session\":").concat(quote(session).as_str()).concat("}");
    notification("session/event", params.as_str())
}

pub open spec fn outcome_text(o: TurnOutcomeView, agent: u64) -> Seq<char> {
    "{\"agent\":"@ + text::decimal(agent as nat) + ",\"error\":"@ + json::quoted_or_null(o.error)
        + ",\"steps\":"@ + text::decimal(o.steps as nat) + ",\"stop\":"@ + json::quoted(
        log::stop_name(o.stop),
    ) + ",\"text\":"@ + json::quoted(o.text) + ",\"tool_calls\":"@ + text::decimal(
        o.tool_calls as nat,
    ) + ",\"turn\":"@ + text::decimal(o.turn as nat) + "}"@
}

/// How a turn came out.
pub fn outcome_json(o: &TurnOutcome, agent: u64) -> (r: String)
    ensures
        r@ == outcome_text(o.deep_view(), agent),
{
    lit("{\"agent\":").concat(number(agent).as_str()).concat(",\"error\":").concat(
        quote_or_null(&o.error).as_str(),
    ).concat(",\"steps\":").concat(number(o.steps as u64).as_str()).concat(",\"stop\":").concat(
        quote(o.stop.name()).as_str(),
    ).concat(",\"text\":").concat(quote(o.text.as_str()).as_str()).concat(
        ",\"tool_calls\":",
    ).concat(number(o.tool_calls as u64).as_str()).concat(",\"turn\":").concat(
        number(o.turn).as_str(),
    ).concat("}")
}

/// The turn the session was opened with is over.
pub fn turn_notice(o: &TurnOutcome, agent: u64) -> (r: String)
    ensures
        r@ == notice_text("turn/complete"@, outcome_text(o.deep_view(), agent)),
{
    notification("turn/complete", outcome_json(o, agent).as_str())
}

// ---- results --------------------------------------------------------------

pub fn created(agent: u64) -> (r: String)
    ensures
        r@ == "{\"agent\":"@ + text::decimal(agent as nat) + "}"@,
{
    lit("{\"agent\":").concat(number(agent).as_str()).concat("}")
}

pub open spec fn status_name(s: AgentStatus) -> Seq<char> {
    match s {
        AgentStatus::Idle => "Idle"@,
        AgentStatus::Working => "Working"@,
    }
}

impl AgentStatus {
    pub fn name(self) -> (r: &'static str)
        ensures
            r@ == status_name(self),
    {
        match self {
            AgentStatus::Idle => "Idle",
            AgentStatus::Working => "Working",
        }
    }
}

pub open spec fn live_text(a: LiveView) -> Seq<char> {
    "{\"id\":"@ + text::decimal(a.id as nat) + ",\"status\":"@ + json::quoted(status_name(a.status))
        + "}"@
}

pub open spec fn live_texts(list: Seq<LiveView>) -> Seq<Seq<char>> {
    Seq::new(list.len(), |i: int| live_text(list[i]))
}
/// The agents there are.
pub open spec fn list_text(list: Seq<LiveView>) -> Seq<char> {
    "{\"agents\":"@ + json::array(live_texts(list)) + "}"@
}

/// The agents there are.
pub fn listed(list: &Vec<Live>) -> (r: String)
    ensures
        r@ == list_text(list.deep_view()),
{
    let ghost all = live_texts(list.deep_view());
    let mut out: Vec<String> = none_of();
    let mut i: usize = 0;
    assert(out.deep_view() =~= all.take(0));
    while i < list.len()
        invariant
            i <= list.len(),
            all == live_texts(list.deep_view()),
            out.deep_view() == all.take(i as int),
        decreases list.len() - i,
    {
        put(
            &mut out,
            lit("{\"id\":").concat(number(list[i].id).as_str()).concat(",\"status\":").concat(
                quote(list[i].status.name()).as_str(),
            ).concat("}"),
        );
        assert(out.deep_view() =~= all.take(i + 1));
        i = i + 1;
    }
    assert(all.take(i as int) =~= all);
    lit("{\"agents\":").concat(write_array(&out).as_str()).concat("}")
}

pub fn queued() -> (r: String)
    ensures
        r@ == "{\"queued\":true}"@,
{
    lit("{\"queued\":true}")
}

pub fn cancelled() -> (r: String)
    ensures
        r@ == "{\"cancelled\":true}"@,
{
    lit("{\"cancelled\":true}")
}

pub open spec fn role_name(r: Role) -> Seq<char> {
    match r {
        Role::System => "System"@,
        Role::User => "User"@,
        Role::Assistant => "Assistant"@,
        Role::Tool => "Tool"@,
    }
}

impl Role {
    pub fn name(self) -> (r: &'static str)
        ensures
            r@ == role_name(self),
    {
        match self {
            Role::System => "System",
            Role::User => "User",
            Role::Assistant => "Assistant",
            Role::Tool => "Tool",
        }
    }
}

pub open spec fn message_text(m: MessageView) -> Seq<char> {
    "{\"role\":"@ + json::quoted(role_name(m.role)) + ",\"text\":"@ + json::quoted(m.text) + "}"@
}

pub open spec fn message_texts(list: Seq<MessageView>) -> Seq<Seq<char>> {
    Seq::new(list.len(), |i: int| message_text(list[i]))
}
/// A conversation.
pub open spec fn transcript_text(list: Seq<MessageView>) -> Seq<char> {
    "{\"messages\":"@ + json::array(message_texts(list)) + "}"@
}

/// What the model sees of a session.
pub fn transcript(list: &Vec<Message>) -> (r: String)
    ensures
        r@ == transcript_text(list.deep_view()),
{
    let ghost all = message_texts(list.deep_view());
    let mut out: Vec<String> = none_of();
    let mut i: usize = 0;
    assert(out.deep_view() =~= all.take(0));
    while i < list.len()
        invariant
            i <= list.len(),
            all == message_texts(list.deep_view()),
            out.deep_view() == all.take(i as int),
        decreases list.len() - i,
    {
        put(
            &mut out,
            lit("{\"role\":").concat(quote(list[i].role.name()).as_str()).concat(
                ",\"text\":",
            ).concat(quote(list[i].text.as_str()).as_str()).concat("}"),
        );
        assert(out.deep_view() =~= all.take(i + 1));
        i = i + 1;
    }
    assert(all.take(i as int) =~= all);
    lit("{\"messages\":").concat(write_array(&out).as_str()).concat("}")
}

/// The events with a number greater than `after`, in order.
pub open spec fn later(list: Seq<NumberedView>, after: u64) -> Seq<Seq<char>>
    decreases list.len(),
{
    if list.len() == 0 {
        Seq::empty()
    } else {
        let rest = later(list.drop_last(), after);
        if list.last().seq > after {
            rest.push(
                "{\"event\":"@ + list.last().event + ",\"seq\":"@ + text::decimal(
                    list.last().seq as nat,
                ) + "}"@,
            )
        } else {
            rest
        }
    }
}

/// What was logged after `after`.
pub fn events_since(list: &Vec<Numbered>, after: u64) -> (r: String)
    ensures
        r@ == "{\"events\":"@ + json::array(later(list.deep_view(), after)) + "}"@,
{
    let ghost all = list.deep_view();
    let mut out: Vec<String> = none_of();
    let mut i: usize = 0;
    assert(all.take(0).len() == 0);
    while i < list.len()
        invariant
            i <= list.len(),
            all == list.deep_view(),
            out.deep_view() == later(all.take(i as int), after),
        decreases list.len() - i,
    {
        assert(all.take(i + 1).drop_last() =~= all.take(i as int));
        assert(all.take(i + 1).last() == list@[i as int].deep_view());
        if list[i].seq > after {
            put(
                &mut out,
                lit("{\"event\":").concat(list[i].event.as_str()).concat(",\"seq\":").concat(
                    number(list[i].seq).as_str(),
                ).concat("}"),
            );
        }
        i = i + 1;
    }
    assert(all.take(i as int) =~= all);
    lit("{\"events\":").concat(write_array(&out).as_str()).concat("}")
}

/// The service slots that are filled.
pub fn services(names: &Vec<String>) -> (r: String)
    ensures
        r@ == "{\"services\":"@ + json::array(json::all_quoted(names.deep_view())) + "}"@,
{
    lit("{\"services\":").concat(write_strings(names).as_str()).concat("}")
}

pub open spec fn row_json(r: RowView) -> Seq<char> {
    "{\"enabled\":"@ + (if r.enabled {
        "true"@
    } else {
        "false"@
    }) + ",\"id\":"@ + json::quoted(r.id) + ",\"plugin\":"@ + json::quoted(r.plugin) + "}"@
}

pub open spec fn row_jsons(rows: Seq<RowView>) -> Seq<Seq<char>> {
    Seq::new(rows.len(), |i: int| row_json(rows[i]))
}
/// The rows of a tree.
pub open spec fn rows_text(list: Seq<RowView>) -> Seq<char> {
    "{\"rows\":"@ + json::array(row_jsons(list)) + "}"@
}

/// The rows of the configuration.
pub fn rows(list: &Vec<Row>) -> (r: String)
    ensures
        r@ == rows_text(list.deep_view()),
{
    let ghost all = row_jsons(list.deep_view());
    let mut out: Vec<String> = none_of();
    let mut i: usize = 0;
    assert(out.deep_view() =~= all.take(0));
    while i < list.len()
        invariant
            i <= list.len(),
            all == row_jsons(list.deep_view()),
            out.deep_view() == all.take(i as int),
        decreases list.len() - i,
    {
        let enabled = if list[i].enabled {
            "true"
        } else {
            "false"
        };
        put(
            &mut out,
            lit("{\"enabled\":").concat(enabled).concat(",\"id\":").concat(
                quote(list[i].id.as_str()).as_str(),
            ).concat(",\"plugin\":").concat(quote(list[i].plugin.as_str()).as_str()).concat("}"),
        );
        assert(out.deep_view() =~= all.take(i + 1));
        i = i + 1;
    }
    assert(all.take(i as int) =~= all);
    lit("{\"rows\":").concat(write_array(&out).as_str()).concat("}")
}

/// What applying a layer moved.
pub fn patched(result: &str) -> (r: String)
    ensures
        r@ == "{\"result\":"@ + json::quoted(result@) + "}"@,
{
    lit("{\"result\":").concat(quote(result).as_str()).concat("}")
}

/// What a check of the composition found.
pub fn findings(list: &Vec<String>) -> (r: String)
    ensures
        r@ == "{\"findings\":"@ + json::array(json::all_quoted(list.deep_view())) + "}"@,
{
    lit("{\"findings\":").concat(write_strings(list).as_str()).concat("}")
}

/// Whether an answer reached anyone.
pub fn delivered(yes: bool) -> (r: String)
    ensures
        r@ == "{\"delivered\":"@ + (if yes {
            "true"@
        } else {
            "false"@
        }) + "}"@,
{
    let word = if yes {
        "true"
    } else {
        "false"
    };
    lit("{\"delivered\":").concat(word).concat("}")
}

// ---- questions ------------------------------------------------------------

/// How long a question waits, in seconds.
pub const ANSWER_SECONDS: u64 = 300;

pub open spec fn about_json(a: Option<AboutView>) -> Seq<char> {
    match a {
        None => "null"@,
        Some(a) => "{\"arguments\":"@ + json::quoted(a.arguments) + ",\"grant\":"@
            + json::quoted_or_null(a.grant) + ",\"tool\":"@ + json::quoted(a.tool) + "}"@,
    }
}

fn write_about(a: &Option<About>) -> (r: String)
    ensures
        r@ == about_json(a.deep_view()),
{
    match a {
        None => lit("null"),
        Some(a) => lit("{\"arguments\":").concat(quote(a.arguments.as_str()).as_str()).concat(
            ",\"grant\":",
        ).concat(quote_or_null(&a.grant).as_str()).concat(",\"tool\":").concat(
            quote(a.tool.as_str()).as_str(),
        ).concat("}"),
    }
}

/// A question as the client gets it: the sentence, the answers, and what it is about
/// for a client that draws its own prompt.
pub open spec fn question_text(id: u64, q: QuestionView) -> Seq<char> {
    notice_text(
        "user/question"@,
        "{\"about\":"@ + about_json(q.about) + ",\"asker\":"@ + json::quoted_or_null(q.asker)
            + ",\"id\":"@ + text::decimal(id as nat) + ",\"options\":"@ + json::array(
            json::all_quoted(q.options.map_values(|c: ChoiceView| c.value)),
        ) + ",\"question\":"@ + json::quoted(q.prompt) + "}"@,
    )
}

fn write_question(id: u64, q: &Question) -> (r: String)
    ensures
        r@ == question_text(id, q.deep_view()),
{
    let params = lit("{\"about\":").concat(write_about(&q.about).as_str()).concat(
        ",\"asker\":",
    ).concat(quote_or_null(&q.asker).as_str()).concat(",\"id\":").concat(
        number(id).as_str(),
    ).concat(",\"options\":").concat(write_strings(&q.values()).as_str()).concat(
        ",\"question\":",
    ).concat(quote(q.prompt.as_str()).as_str()).concat("}");
    notification("user/question", params.as_str())
}

/// The questions the client has not answered yet.
pub struct RpcQuestions {
    next_id: u64,
    pending: Vec<u64>,
}

/// The questions that wait once this one has been put.
pub open spec fn after_ask(waiting: Set<u64>, id: u64) -> Set<u64> {
    waiting.insert(id)
}

/// The questions that wait once this one is settled, by an answer or without one.
pub open spec fn after_settle(waiting: Set<u64>, id: u64) -> Set<u64> {
    waiting.remove(id)
}

impl RpcQuestions {
    /// The number of the next question.
    pub closed spec fn next(&self) -> u64 {
        self.next_id
    }

    /// The questions that wait for an answer.
    pub closed spec fn waiting(&self) -> Set<u64> {
        Set::new(|id: u64| self.pending@.contains(id))
    }

    pub fn new() -> (q: Self)
        ensures
            q.next() == 1,
            q.waiting() == Set::<u64>::empty(),
    {
        let q = RpcQuestions { next_id: 1, pending: Vec::new() };
        assert(q.waiting() =~= Set::<u64>::empty());
        q
    }

    /// Puts a question: its number, and the line that goes out.
    pub fn ask(&mut self, q: &Question) -> (r: (u64, String))
        ensures
            r.0 == old(self).next(),
            r.1@ == question_text(old(self).next(), q.deep_view()),
            final(self).next() == (if old(self).next() == u64::MAX {
                0
            } else {
                (old(self).next() + 1) as u64
            }),
            final(self).waiting() == after_ask(old(self).waiting(), old(self).next()),
    {
        let id = self.next_id;
        self.next_id = id.wrapping_add(1);
        let ghost before = self.pending@;
        self.pending.push(id);
        proof {
            lemma_push(before, id);
            assert(self.pending@ == before.push(id));
            assert forall|x: u64| self.waiting().contains(x) == after_ask(
                old(self).waiting(),
                id,
            ).contains(x) by {
                assert(before.push(id).contains(x) == (before.contains(x) || x == id));
            }
            assert(self.waiting() =~= after_ask(old(self).waiting(), id));
        }
        (id, write_question(id, q))
    }

    /// Takes an answer, or gives a question up: whether it was still waiting.
    pub fn settle(&mut self, id: u64) -> (r: bool)
        ensures
            r == old(self).waiting().contains(id),
            final(self).waiting() == after_settle(old(self).waiting(), id),
            final(self).next() == old(self).next(),
    {
        let mut kept: Vec<u64> = Vec::new();
        let mut found = false;
        let mut i: usize = 0;
        while i < self.pending.len()
            invariant
                i <= self.pending.len(),
                *self == *old(self),
                found == self.pending@.take(i as int).contains(id),
                forall|x: u64|
                    #[trigger] kept@.contains(x) == (self.pending@.take(i as int).contains(x) && x
                        != id),
            decreases self.pending.len() - i,
        {
            let ghost before = kept@;
            let ghost head = self.pending@.take(i as int);
            let x = self.pending[i];
            assert(self.pending@.take(i + 1) =~= head.push(x));
            proof {
                lemma_push(head, x);
                lemma_push(before, x);
            }
            if x == id {
                found = true;
            } else {
                kept.push(x);
            }
            i = i + 1;
        }
        assert(self.pending@.take(i as int) =~= self.pending@);
        self.pending = kept;
        assert(self.waiting() =~= after_settle(old(self).waiting(), id));
        found
    }
}

proof fn lemma_push(s: Seq<u64>, x: u64)
    ensures
        forall|y: u64| #[trigger] s.push(x).contains(y) == (s.contains(y) || y == x),
{
    assert forall|y: u64| #[trigger] s.push(x).contains(y) == (s.contains(y) || y == x) by {
        if s.contains(y) {
            let k = choose|k: int| 0 <= k < s.len() && s[k] == y;
            assert(s.push(x)[k] == y);
        }
        if y == x {
            assert(s.push(x)[s.len() as int] == y);
        }
        if s.push(x).contains(y) {
            let k = choose|k: int| 0 <= k < s.push(x).len() && s.push(x)[k] == y;
            if k < s.len() {
                assert(s[k] == y);
            }
        }
    }
}

/// A question is answered at most once: once it is settled it waits no longer, until
/// its number is given to another, and settling it leaves the others waiting.
pub proof fn law_answered_once(waiting: Set<u64>, id: u64, other: u64)
    ensures
        after_ask(waiting, id).contains(id),
        !after_settle(waiting, id).contains(id),
        !after_settle(after_settle(waiting, id), id).contains(id),
        other != id ==> after_settle(waiting, id).contains(other) == waiting.contains(other),
        other != id ==> after_ask(waiting, id).contains(other) == waiting.contains(other),
{
}

/// Only a shutdown ends the session, and every call gets an answer that carries its id.
pub proof fn law_every_call_is_answered(
    id: Seq<char>,
    outcome: Result<Option<Seq<char>>, Seq<char>>,
)
    ensures
        !answered(id, outcome).1 <==> outcome == Ok::<Option<Seq<char>>, Seq<char>>(None),
        outcome matches Ok(Some(v)) ==> answered(id, outcome).0 == result_text(id, v),
        outcome matches Err(e) ==> answered(id, outcome).0 == error_text(id, "-32000"@, e),
{
}

/// A call that names no agent never picks one of several.
pub proof fn law_no_guessing(live: Seq<u64>)
    requires
        live.len() > 1,
    ensures
        resolved(None, live) is Err,
{
}

} // verus!
