//! Asking a person: whether a risky call may run, and anything else.
//!
//! No answer is never consent. A "yes, always" is remembered for the tool and the
//! scope it was given for, unless the call may never be remembered.
use crate::data::{none_of, one_of, put, Dup};
use crate::events::{About, AboutView, Choice, ChoiceView, Question, QuestionView};
use crate::json;
use crate::json::{quote, write_array};
use crate::protocol::{AgentEvent, AgentEventView};
use crate::table::Names;
use crate::text;
use crate::text::{lit, same};
use vstd::prelude::*;

verus! {

/// The scope of a call that may never be remembered.
pub const NEVER_GRANT: &'static str = "\u{0}never";

/// The words a person answers an approval with.
pub const ANSWER_ALLOW: &'static str = "allow";

pub const ANSWER_ALWAYS: &'static str = "allow_always";

pub const ANSWER_DENY: &'static str = "deny";

/// What a tool says of one call.
#[derive(Clone, Copy, Debug, PartialEq, Eq, Structural)]
pub enum RiskLevel {
    Safe,
    Risky,
}

impl DeepView for RiskLevel {
    type V = RiskLevel;

    open spec fn deep_view(&self) -> RiskLevel {
        *self
    }
}

impl Dup for RiskLevel {
    fn dup(&self) -> (r: Self) {
        *self
    }
}

/// How a person answered an approval.
#[derive(Clone, Copy, Debug, PartialEq, Eq, Structural)]
pub enum Permission {
    AllowOnce,
    AllowAlways,
    Deny,
}

impl DeepView for Permission {
    type V = Permission;

    open spec fn deep_view(&self) -> Permission {
        *self
    }
}

impl Dup for Permission {
    fn dup(&self) -> (r: Self) {
        *self
    }
}

/// Whether a call may run.
#[derive(Debug, PartialEq, Eq)]
pub enum Decision {
    Allow,
    /// It may not, and why.
    Deny(String),
}

/// What a [`Decision`] holds.
#[verifier::ext_equal]
pub enum DecisionView {
    Allow,
    Deny(Seq<char>),
}

impl DeepView for Decision {
    type V = DecisionView;

    open spec fn deep_view(&self) -> DecisionView {
        match self {
            Decision::Allow => DecisionView::Allow,
            Decision::Deny(x) => DecisionView::Deny(x.deep_view()),
        }
    }
}

impl Dup for Decision {
    fn dup(&self) -> (r: Self) {
        match self {
            Decision::Allow => Decision::Allow,
            Decision::Deny(x) => Decision::Deny(x.dup()),
        }
    }
}

impl Clone for Decision {
    fn clone(&self) -> (r: Self)
        ensures
            r.deep_view() == self.deep_view(),
    {
        self.dup()
    }
}

/// A call as an approval sees it.
#[derive(Debug, PartialEq, Eq)]
pub struct Gate {
    pub risk: RiskLevel,
    /// The tool's own name, which may say why it is asked about.
    pub tool: String,
    /// What an "always" would cover.
    pub scope: String,
    pub arguments: String,
    /// The member asking; none for the conversation itself.
    pub asker: Option<String>,
}

/// What a [`Gate`] holds.
#[verifier::ext_equal]
pub struct GateView {
    pub risk: RiskLevel,
    pub tool: Seq<char>,
    pub scope: Seq<char>,
    pub arguments: Seq<char>,
    pub asker: Option<Seq<char>>,
}

impl DeepView for Gate {
    type V = GateView;

    open spec fn deep_view(&self) -> GateView {
        GateView {
            risk: self.risk.deep_view(),
            tool: self.tool.deep_view(),
            scope: self.scope.deep_view(),
            arguments: self.arguments.deep_view(),
            asker: self.asker.deep_view(),
        }
    }
}

impl Dup for Gate {
    fn dup(&self) -> (r: Self) {
        Gate {
            risk: self.risk.dup(),
            tool: self.tool.dup(),
            scope: self.scope.dup(),
            arguments: self.arguments.dup(),
            asker: self.asker.dup(),
        }
    }
}

impl Clone for Gate {
    fn clone(&self) -> (r: Self)
        ensures
            r.deep_view() == self.deep_view(),
    {
        self.dup()
    }
}

/// What an approval comes to before anyone is asked.
#[derive(Debug, PartialEq, Eq)]
pub enum Weighed {
    Allow,
    Ask { question: Question, key: String, grantable: bool },
}

/// What a [`Weighed`] holds.
#[verifier::ext_equal]
pub enum WeighedView {
    Allow,
    Ask { question: QuestionView, key: Seq<char>, grantable: bool },
}

impl DeepView for Weighed {
    type V = WeighedView;

    open spec fn deep_view(&self) -> WeighedView {
        match self {
            Weighed::Allow => WeighedView::Allow,
            Weighed::Ask { question, key, grantable } => WeighedView::Ask {
                question: question.deep_view(),
                key: key.deep_view(),
                grantable: grantable.deep_view(),
            },
        }
    }
}

impl Dup for Weighed {
    fn dup(&self) -> (r: Self) {
        match self {
            Weighed::Allow => Weighed::Allow,
            Weighed::Ask { question, key, grantable } => Weighed::Ask {
                question: question.dup(),
                key: key.dup(),
                grantable: grantable.dup(),
            },
        }
    }
}

impl Clone for Weighed {
    fn clone(&self) -> (r: Self)
        ensures
            r.deep_view() == self.deep_view(),
    {
        self.dup()
    }
}

/// What kind of answer a driver should collect.
#[derive(Clone, Copy, Debug, PartialEq, Eq, Structural)]
pub enum InputMode {
    Text,
    Single,
}

impl DeepView for InputMode {
    type V = InputMode;

    open spec fn deep_view(&self) -> InputMode {
        *self
    }
}

impl Dup for InputMode {
    fn dup(&self) -> (r: Self) {
        *self
    }
}

/// One option, as a driver draws it.
#[derive(Debug, PartialEq, Eq)]
pub struct InputOption {
    /// The value: it is what comes back.
    pub label: String,
    pub description: Option<String>,
}

/// What a [`InputOption`] holds.
#[verifier::ext_equal]
pub struct InputOptionView {
    pub label: Seq<char>,
    pub description: Option<Seq<char>>,
}

impl DeepView for InputOption {
    type V = InputOptionView;

    open spec fn deep_view(&self) -> InputOptionView {
        InputOptionView {
            label: self.label.deep_view(),
            description: self.description.deep_view(),
        }
    }
}

impl Dup for InputOption {
    fn dup(&self) -> (r: Self) {
        InputOption {
            label: self.label.dup(),
            description: self.description.dup(),
        }
    }
}

impl Clone for InputOption {
    fn clone(&self) -> (r: Self)
        ensures
            r.deep_view() == self.deep_view(),
    {
        self.dup()
    }
}

/// A question, as a driver draws it.
#[derive(Debug, PartialEq, Eq)]
pub struct InputRequest {
    pub header: String,
    pub question: String,
    pub mode: InputMode,
    pub options: Vec<InputOption>,
    pub custom: bool,
}

/// What a [`InputRequest`] holds.
#[verifier::ext_equal]
pub struct InputRequestView {
    pub header: Seq<char>,
    pub question: Seq<char>,
    pub mode: InputMode,
    pub options: Seq<InputOptionView>,
    pub custom: bool,
}

impl DeepView for InputRequest {
    type V = InputRequestView;

    open spec fn deep_view(&self) -> InputRequestView {
        InputRequestView {
            header: self.header.deep_view(),
            question: self.question.deep_view(),
            mode: self.mode.deep_view(),
            options: self.options.deep_view(),
            custom: self.custom.deep_view(),
        }
    }
}

impl Dup for InputRequest {
    fn dup(&self) -> (r: Self) {
        InputRequest {
            header: self.header.dup(),
            question: self.question.dup(),
            mode: self.mode.dup(),
            options: self.options.dup(),
            custom: self.custom.dup(),
        }
    }
}

impl Clone for InputRequest {
    fn clone(&self) -> (r: Self)
        ensures
            r.deep_view() == self.deep_view(),
    {
        self.dup()
    }
}

/// What a driver collected.
#[derive(Debug, PartialEq, Eq)]
pub struct InputResponse {
    pub declined: bool,
    pub text: Option<String>,
    pub selected: Vec<String>,
}

/// What a [`InputResponse`] holds.
#[verifier::ext_equal]
pub struct InputResponseView {
    pub declined: bool,
    pub text: Option<Seq<char>>,
    pub selected: Seq<Seq<char>>,
}

impl DeepView for InputResponse {
    type V = InputResponseView;

    open spec fn deep_view(&self) -> InputResponseView {
        InputResponseView {
            declined: self.declined.deep_view(),
            text: self.text.deep_view(),
            selected: self.selected.deep_view(),
        }
    }
}

impl Dup for InputResponse {
    fn dup(&self) -> (r: Self) {
        InputResponse {
            declined: self.declined.dup(),
            text: self.text.dup(),
            selected: self.selected.dup(),
        }
    }
}

impl Clone for InputResponse {
    fn clone(&self) -> (r: Self)
        ensures
            r.deep_view() == self.deep_view(),
    {
        self.dup()
    }
}

// ---- approvals, stated ----------------------------------------------------

/// What a grant is remembered under.
pub open spec fn grant_key(tool: Seq<char>, scope: Seq<char>) -> Seq<char> {
    tool + "::"@ + scope
}

pub open spec fn is_grantable(scope: Seq<char>) -> bool {
    scope != NEVER_GRANT@
}

pub open spec fn choice(value: Seq<char>, label: Seq<char>) -> ChoiceView {
    ChoiceView { value, label }
}

/// The question an approval puts. "Always" is offered only where it would be
/// remembered.
pub open spec fn approval_question(
    tool: Seq<char>,
    arguments: Seq<char>,
    grant: Option<Seq<char>>,
    asker: Option<Seq<char>>,
) -> QuestionView {
    QuestionView {
        prompt: "Allow `"@ + tool + "` to run?"@,
        options: if grant is Some {
            seq![
                choice(ANSWER_ALLOW@, "allow once"@),
                choice(ANSWER_ALWAYS@, "always allow"@),
                choice(ANSWER_DENY@, "deny"@),
            ]
        } else {
            seq![choice(ANSWER_ALLOW@, "allow once"@), choice(ANSWER_DENY@, "deny"@)]
        },
        asker,
        about: Some(AboutView { tool, arguments, grant }),
    }
}

/// A safe call runs, a remembered one too; anything else is asked about.
pub open spec fn weighed(g: GateView, remembered: bool) -> WeighedView {
    if g.risk is Safe || (is_grantable(g.scope) && remembered) {
        WeighedView::Allow
    } else {
        WeighedView::Ask {
            question: approval_question(
                g.tool,
                g.arguments,
                if is_grantable(g.scope) {
                    Some(g.scope)
                } else {
                    None
                },
                g.asker,
            ),
            key: grant_key(g.tool, g.scope),
            grantable: is_grantable(g.scope),
        }
    }
}

/// What an answer decides.
pub open spec fn decided(p: Permission, tool: Seq<char>) -> DecisionView {
    match p {
        Permission::AllowOnce | Permission::AllowAlways => DecisionView::Allow,
        Permission::Deny => DecisionView::Deny("`"@ + tool + "` was not approved"@),
    }
}

/// Whether an answer is remembered.
pub open spec fn remembers(p: Permission, grantable: bool) -> bool {
    p is AllowAlways && grantable
}

/// No answer is a refusal.
pub open spec fn permission_of(answer: Option<Permission>) -> Permission {
    match answer {
        Some(p) => p,
        None => Permission::Deny,
    }
}

/// What is remembered once an approval was answered. `kept` says that the host
/// remembers in place of the asker.
pub open spec fn granted_after(
    grants: Set<Seq<char>>,
    g: GateView,
    answer: Option<Permission>,
    kept: bool,
) -> Set<Seq<char>> {
    if remembers(permission_of(answer), is_grantable(g.scope)) && !kept {
        grants.insert(grant_key(g.tool, g.scope))
    } else {
        grants
    }
}

/// What an asker remembers once these approvals were answered, oldest first.
pub open spec fn granted_over(
    grants: Set<Seq<char>>,
    answers: Seq<(GateView, Option<Permission>)>,
) -> Set<Seq<char>>
    decreases answers.len(),
{
    if answers.len() == 0 {
        grants
    } else {
        granted_after(
            granted_over(grants, answers.drop_last()),
            answers.last().0,
            answers.last().1,
            false,
        )
    }
}
/// What waits after a question was put, and what the driver is told, where there is one.
pub open spec fn put_question(
    connected: bool,
    waiting: Seq<u64>,
    id: u64,
    kind: Seq<char>,
    payload: Seq<char>,
) -> (Seq<u64>, Option<AgentEventView>) {
    if connected {
        (waiting.push(id), Some(AgentEventView::Request { id, kind, payload }))
    } else {
        (waiting, None)
    }
}

/// What waits after an answer came, and whether anything waited for it.
pub open spec fn settled(waiting: Seq<u64>, id: u64) -> (Seq<u64>, bool) {
    if waiting.contains(id) {
        (waiting.remove(waiting.index_of(id)), true)
    } else {
        (waiting, false)
    }
}

/// Whether an answer is to be kept where answers are kept for good.
pub open spec fn to_keep(answer: Option<Permission>, scope: Seq<char>, kept: bool) -> bool {
    remembers(permission_of(answer), is_grantable(scope)) && kept
}

/// The answer as the log keeps it.
pub open spec fn answer_word(p: Permission) -> Seq<char> {
    match p {
        Permission::AllowOnce => ANSWER_ALLOW@,
        Permission::AllowAlways => ANSWER_ALWAYS@,
        Permission::Deny => ANSWER_DENY@,
    }
}

// ---- approvals, made ------------------------------------------------------

pub fn make_key(tool: &str, scope: &str) -> (r: String)
    ensures
        r@ == grant_key(tool@, scope@),
{
    lit(tool).concat("::").concat(scope)
}

pub fn grantable(scope: &str) -> (r: bool)
    ensures
        r == is_grantable(scope@),
{
    !same(scope, NEVER_GRANT)
}

fn make_choice(value: &str, label: &str) -> (r: Choice)
    ensures
        r.deep_view() == choice(value@, label@),
{
    Choice { value: lit(value), label: lit(label) }
}

impl Question {
    /// The question an approval puts.
    pub fn approval(
        tool: &str,
        arguments: &str,
        grant: Option<String>,
        asker: Option<String>,
    ) -> (q: Self)
        ensures
            q.deep_view() == approval_question(
                tool@,
                arguments@,
                grant.deep_view(),
                asker.deep_view(),
            ),
    {
        let mut options = one_of(make_choice(ANSWER_ALLOW, "allow once"));
        if grant.is_some() {
            put(&mut options, make_choice(ANSWER_ALWAYS, "always allow"));
        }
        put(&mut options, make_choice(ANSWER_DENY, "deny"));
        assert(options.deep_view() =~= approval_question(
            tool@,
            arguments@,
            grant.deep_view(),
            asker.deep_view(),
        ).options);
        Question {
            prompt: lit("Allow `").concat(tool).concat("` to run?"),
            options,
            asker,
            about: Some(About { tool: lit(tool), arguments: lit(arguments), grant }),
        }
    }

    /// The values a person can answer with.
    pub fn values(&self) -> (out: Vec<String>)
        ensures
            out.deep_view() == self.deep_view().options.map_values(|c: ChoiceView| c.value),
    {
        let ghost all = self.deep_view().options.map_values(|c: ChoiceView| c.value);
        let mut out: Vec<String> = none_of();
        let mut i: usize = 0;
        assert(out.deep_view() =~= all.take(0));
        while i < self.options.len()
            invariant
                i <= self.options.len(),
                all == self.deep_view().options.map_values(|c: ChoiceView| c.value),
                out.deep_view() == all.take(i as int),
            decreases self.options.len() - i,
        {
            put(&mut out, self.options[i].value.clone());
            assert(out.deep_view() =~= all.take(i + 1));
            i = i + 1;
        }
        assert(all.take(i as int) =~= all);
        out
    }
}

/// What an approval comes to before anyone is asked.
pub fn weigh(g: &Gate, remembered: bool) -> (w: Weighed)
    ensures
        w.deep_view() == weighed(g.deep_view(), remembered),
{
    let may_grant = grantable(g.scope.as_str());
    if g.risk == RiskLevel::Safe || (may_grant && remembered) {
        return Weighed::Allow;
    }
    let grant = if may_grant {
        Some(g.scope.clone())
    } else {
        None
    };
    Weighed::Ask {
        question: Question::approval(
            g.tool.as_str(),
            g.arguments.as_str(),
            grant,
            g.asker.dup(),
        ),
        key: make_key(g.tool.as_str(), g.scope.as_str()),
        grantable: may_grant,
    }
}

impl Permission {
    /// The permission an answer gives; none where nobody answered.
    pub fn given(answer: Option<Permission>) -> (p: Self)
        ensures
            p == permission_of(answer),
    {
        match answer {
            Some(p) => p,
            None => Permission::Deny,
        }
    }

    /// The answer as the log keeps it.
    pub fn word(self) -> (r: &'static str)
        ensures
            r@ == answer_word(self),
    {
        match self {
            Permission::AllowOnce => ANSWER_ALLOW,
            Permission::AllowAlways => ANSWER_ALWAYS,
            Permission::Deny => ANSWER_DENY,
        }
    }
}

fn decide(p: Permission, tool: &str) -> (d: Decision)
    ensures
        d.deep_view() == crate::asking::decided(p, tool@),
{
    match p {
        Permission::AllowOnce | Permission::AllowAlways => Decision::Allow,
        Permission::Deny => Decision::Deny(lit("`").concat(tool).concat("` was not approved")),
    }
}

// ---- the asking half of a driver ------------------------------------------

/// Who holds the questions of a driver: what is waiting for an answer, and what need
/// not be asked again.
pub struct Asker {
    connected: bool,
    pending: Vec<u64>,
    next_id: u64,
    granted: Names,
}

impl Asker {
    pub closed spec fn is_connected(&self) -> bool {
        self.connected
    }

    /// The questions waiting, oldest first.
    pub closed spec fn waiting(&self) -> Seq<u64> {
        self.pending@
    }

    /// The number the next question gets.
    pub closed spec fn next(&self) -> u64 {
        self.next_id
    }

    /// The grants remembered here.
    pub closed spec fn grants(&self) -> Set<Seq<char>> {
        self.granted@
    }

    /// Every question has a number of its own, smaller than the next one.
    #[verifier::type_invariant]
    pub closed spec fn numbered(&self) -> bool {
        &&& forall|i: int| 0 <= i < self.pending@.len() ==> #[trigger] self.pending@[i]
            < self.next_id
        &&& self.pending@.no_duplicates()
    }

    pub fn new() -> (a: Self)
        ensures
            a.is_connected(),
            a.waiting() == Seq::<u64>::empty(),
            a.next() == 1,
            a.grants() == Set::<Seq<char>>::empty(),
    {
        Asker { connected: true, pending: Vec::new(), next_id: 1, granted: Names::new() }
    }

    /// Puts a question. Where the driver is gone there is nobody to ask, which is a
    /// refusal and not a wait.
    pub fn request(&mut self, kind: &str, payload: String) -> (r: Option<(u64, AgentEvent)>)
        requires
            old(self).next() < u64::MAX,
        ensures
            final(self).is_connected() == old(self).is_connected(),
            final(self).grants() == old(self).grants(),
            final(self).next() == old(self).next() + 1,
            ({
                let (waiting, event) = put_question(
                    old(self).is_connected(),
                    old(self).waiting(),
                    old(self).next(),
                    kind@,
                    payload@,
                );
                &&& final(self).waiting() == waiting
                &&& match r {
                    Some((id, e)) => id == old(self).next() && event == Some(e.deep_view()),
                    None => event is None,
                }
            }),
    {
        proof {
            use_type_invariant(&*self);
        }
        let id = self.next_id;
        self.next_id = id + 1;
        if !self.connected {
            return None;
        }
        let mut pending: Vec<u64> = Vec::new();
        std::mem::swap(&mut pending, &mut self.pending);
        pending.push(id);
        self.pending = pending;
        Some((id, AgentEvent::Request { id, kind: lit(kind), payload }))
    }

    /// Takes question `id` off the list: whether anyone was waiting for it. An
    /// answered, expired or refused question is waited for no more.
    pub fn answer(&mut self, id: u64) -> (delivered: bool)
        ensures
            final(self).is_connected() == old(self).is_connected(),
            final(self).grants() == old(self).grants(),
            final(self).next() == old(self).next(),
            (final(self).waiting(), delivered) == settled(old(self).waiting(), id),
            !final(self).waiting().contains(id),
    {
        proof {
            use_type_invariant(&*self);
        }
        let mut i: usize = 0;
        while i < self.pending.len()
            invariant
                i <= self.pending.len(),
                *self == *old(self),
                forall|k: int| 0 <= k < i ==> #[trigger] self.pending@[k] != id,
            decreases self.pending.len() - i,
        {
            if self.pending[i] == id {
                proof {
                    use_type_invariant(&*self);
                    let k = self.pending@.index_of(id);
                    assert(self.pending@.contains(id)) by {
                        assert(self.pending@[i as int] == id);
                    }
                    assert(k == i);
                }
                let mut pending: Vec<u64> = Vec::new();
                std::mem::swap(&mut pending, &mut self.pending);
                let ghost before = pending@;
                let _ = pending.remove(i);
                proof {
                    assert forall|a: int| 0 <= a < pending@.len() implies #[trigger] pending@[a]
                        < self.next_id && pending@[a] != id by {
                        let b = if a < i {
                            a
                        } else {
                            a + 1
                        };
                        assert(pending@[a] == before[b]);
                        assert(before[b] != before[i as int]);
                    }
                    assert forall|a: int, b: int|
                        0 <= a < pending@.len() && 0 <= b < pending@.len() && a != b implies pending@[a]
                        != pending@[b] by {
                        let c = if a < i {
                            a
                        } else {
                            a + 1
                        };
                        let d = if b < i {
                            b
                        } else {
                            b + 1
                        };
                        assert(pending@[a] == before[c]);
                        assert(pending@[b] == before[d]);
                    }
                }
                self.pending = pending;
                return true;
            }
            i = i + 1;
        }
        false
    }

    /// Refuses every question waiting, and says which they were.
    pub fn refuse_all(&mut self) -> (refused: Vec<u64>)
        ensures
            final(self).is_connected() == old(self).is_connected(),
            final(self).grants() == old(self).grants(),
            final(self).next() == old(self).next(),
            final(self).waiting() == Seq::<u64>::empty(),
            refused@ == old(self).waiting(),
    {
        let mut out: Vec<u64> = Vec::new();
        std::mem::swap(&mut out, &mut self.pending);
        out
    }

    /// No more questions, and every one waiting refused.
    pub fn close(&mut self) -> (refused: Vec<u64>)
        ensures
            !final(self).is_connected(),
            final(self).grants() == old(self).grants(),
            final(self).next() == old(self).next(),
            final(self).waiting() == Seq::<u64>::empty(),
            refused@ == old(self).waiting(),
    {
        proof {
            use_type_invariant(&*self);
        }
        self.connected = false;
        self.refuse_all()
    }

    /// What an approval comes to before anyone is asked. `kept` is what a host that
    /// keeps the session's grants itself says of this one.
    pub fn consider(&self, g: &Gate, kept: Option<bool>) -> (w: Weighed)
        ensures
            w.deep_view() == weighed(
                g.deep_view(),
                match kept {
                    Some(k) => k,
                    None => self.grants().contains(grant_key(g.tool@, g.scope@)),
                },
            ),
    {
        let remembered = match kept {
            Some(k) => k,
            None => {
                let key = make_key(g.tool.as_str(), g.scope.as_str());
                self.granted.contains(key.as_str())
            },
        };
        weigh(g, remembered)
    }

    /// What the answer to an approval decides, and whether the host is to remember it
    /// (`kept`) in place of this asker.
    pub fn settle(
        &mut self,
        g: &Gate,
        answer: Option<Permission>,
        kept: bool,
    ) -> (r: (Decision, bool))
        ensures
            ({
                let p = permission_of(answer);
                &&& r.0.deep_view() == decided(p, g.tool@)
                &&& r.1 == to_keep(answer, g.scope@, kept)
            }),
            final(self).grants() == granted_after(
                old(self).grants(),
                g.deep_view(),
                answer,
                kept,
            ),
            final(self).is_connected() == old(self).is_connected(),
            final(self).waiting() == old(self).waiting(),
            final(self).next() == old(self).next(),
    {
        proof {
            use_type_invariant(&*self);
        }
        let p = Permission::given(answer);
        let remember = p == Permission::AllowAlways && grantable(g.scope.as_str());
        if remember && !kept {
            let mut granted = Names::new();
            std::mem::swap(&mut granted, &mut self.granted);
            let _ = granted.insert(make_key(g.tool.as_str(), g.scope.as_str()));
            self.granted = granted;
        }
        (decide(p, g.tool.as_str()), remember && kept)
    }
}

// ---- questions ------------------------------------------------------------

/// A question as a driver draws it. The value rides as the label, because that is
/// what comes back; the wording rides along for a driver with nothing better.
pub open spec fn drawn(q: QuestionView) -> InputRequestView {
    InputRequestView {
        header: match q.asker {
            Some(who) => "Question · "@ + who,
            None => "Question"@,
        },
        question: q.prompt,
        mode: if q.options.len() == 0 {
            InputMode::Text
        } else {
            InputMode::Single
        },
        options: Seq::new(
            q.options.len(),
            |i: int|
                InputOptionView {
                    label: q.options[i].value,
                    description: Some(q.options[i].label),
                },
        ),
        custom: true,
    }
}

pub fn draw(q: &Question) -> (r: InputRequest)
    ensures
        r.deep_view() == drawn(q.deep_view()),
{
    let ghost all = drawn(q.deep_view()).options;
    let mut options: Vec<InputOption> = none_of();
    let mut i: usize = 0;
    assert(options.deep_view() =~= all.take(0));
    while i < q.options.len()
        invariant
            i <= q.options.len(),
            all == drawn(q.deep_view()).options,
            options.deep_view() == all.take(i as int),
        decreases q.options.len() - i,
    {
        put(
            &mut options,
            InputOption {
                label: q.options[i].value.clone(),
                description: Some(q.options[i].label.clone()),
            },
        );
        assert(options.deep_view() =~= all.take(i + 1));
        i = i + 1;
    }
    assert(all.take(i as int) =~= all);
    InputRequest {
        header: match &q.asker {
            Some(who) => lit("Question · ").concat(who.as_str()),
            None => lit("Question"),
        },
        question: q.prompt.clone(),
        mode: if q.options.len() == 0 {
            InputMode::Text
        } else {
            InputMode::Single
        },
        options,
        custom: true,
    }
}

/// What a person said: nothing where they declined, what they typed, else the first
/// thing they picked.
pub open spec fn said(r: Option<InputResponseView>) -> Option<Seq<char>> {
    match r {
        Some(r) => if r.declined {
            None
        } else if r.text is Some {
            r.text
        } else if r.selected.len() > 0 {
            Some(r.selected[0])
        } else {
            None
        },
        None => None,
    }
}

pub fn hear(response: Option<InputResponse>) -> (answer: Option<String>)
    ensures
        answer.deep_view() == said(response.deep_view()),
{
    match response {
        Some(r) => {
            if r.declined {
                None
            } else {
                match r.text {
                    Some(t) => Some(t),
                    None => {
                        if r.selected.len() > 0 {
                            assert(r.selected.deep_view()[0] == r.selected@[0]@);
                            Some(r.selected[0].clone())
                        } else {
                            None
                        }
                    },
                }
            }
        },
        None => None,
    }
}

pub open spec fn label_objects(options: Seq<Seq<char>>) -> Seq<Seq<char>> {
    Seq::new(
        options.len(),
        |i: int| "{\"label\":"@ + json::quoted(options[i]) + "}"@,
    )
}

/// A question as the JSON a driver is sent.
pub open spec fn payload(question: Seq<char>, options: Seq<Seq<char>>) -> Seq<char> {
    "{\"custom\":true,\"header\":\"Question\",\"mode\":"@ + (if options.len() == 0 {
        "\"text\""@
    } else {
        "\"single\""@
    }) + ",\"options\":"@ + json::array(label_objects(options)) + ",\"question\":"@ + json::quoted(
        question,
    ) + "}"@
}

/// The payload that asks a driver a question, for a caller that holds its handle.
pub fn question_payload(question: &str, options: &Vec<String>) -> (r: String)
    ensures
        r@ == payload(question@, options.deep_view()),
{
    let ghost all = label_objects(options.deep_view());
    let mut labels: Vec<String> = none_of();
    let mut i: usize = 0;
    assert(labels.deep_view() =~= all.take(0));
    while i < options.len()
        invariant
            i <= options.len(),
            all == label_objects(options.deep_view()),
            labels.deep_view() == all.take(i as int),
        decreases options.len() - i,
    {
        put(
            &mut labels,
            lit("{\"label\":").concat(quote(options[i].as_str()).as_str()).concat("}"),
        );
        assert(labels.deep_view() =~= all.take(i + 1));
        i = i + 1;
    }
    assert(all.take(i as int) =~= all);
    let mode = if options.len() == 0 {
        "\"text\""
    } else {
        "\"single\""
    };
    lit("{\"custom\":true,\"header\":\"Question\",\"mode\":").concat(mode).concat(
        ",\"options\":",
    ).concat(write_array(&labels).as_str()).concat(",\"question\":").concat(
        quote(question).as_str(),
    ).concat("}")
}

// ---- what holds of it -----------------------------------------------------

/// No answer is never consent: a call nobody answered for does not run and leaves
/// nothing remembered.
pub proof fn law_no_answer_is_no_consent(tool: Seq<char>, grantable: bool)
    ensures
        decided(permission_of(None), tool) is Deny,
        !remembers(permission_of(None), grantable),
{
}

/// A call that may never be remembered is asked about every time it is risky,
/// whatever was answered before, and no answer to it is kept.
pub proof fn law_never_granted(g: GateView, remembered: bool, p: Permission)
    requires
        g.scope == NEVER_GRANT@,
        g.risk is Risky,
    ensures
        weighed(g, remembered) is Ask,
        !remembers(p, is_grantable(g.scope)),
{
}

/// An "always" covers the tool and its scope, not the exact arguments: from then on a
/// call of that tool in that scope runs without being asked about, whatever else was
/// answered before and after. Where the scope may never be granted, the call is asked
/// about again all the same, and does not run where no answer arrives.
pub proof fn law_an_always_is_asked_once(
    grants: Set<Seq<char>>,
    answers: Seq<(GateView, Option<Permission>)>,
    i: int,
    next: GateView,
)
    requires
        0 <= i < answers.len(),
        answers[i].1 == Some(Permission::AllowAlways),
        next.tool == answers[i].0.tool,
        next.scope == answers[i].0.scope,
        next.risk is Risky,
    ensures
        ({
            let remembered = granted_over(grants, answers).contains(
                grant_key(next.tool, next.scope),
            );
            if is_grantable(next.scope) {
                weighed(next, remembered) is Allow
            } else {
                &&& weighed(next, remembered) is Ask
                &&& decided(permission_of(None), next.tool) is Deny
            }
        }),
    decreases answers.len(),
{
    if i < answers.len() - 1 {
        law_an_always_is_asked_once(grants, answers.drop_last(), i, next);
    }
}

/// A safe call is never asked about.
pub proof fn law_safe_is_never_asked(g: GateView, remembered: bool)
    requires
        g.risk is Safe,
    ensures
        weighed(g, remembered) is Allow,
{
}

} // verus!
