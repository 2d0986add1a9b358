//! Keeping the task list true while a turn runs.
//!
//! The list is held against the work, and when it has gone stale the agent is told,
//! once, in a note that is not part of the conversation.
use crate::data::{none_of, put, Dup};
use crate::events::{
    InjectionOrigin, InjectionOriginView, SessionEvent, SessionEventView, ToolCall, ToolCallView,
};
use crate::text;
use crate::text::{among, lit, number};
use vstd::prelude::*;

verus! {

/// How far a task is.
#[derive(Clone, Copy, Debug, PartialEq, Eq, Structural)]
pub enum TodoStatus {
    Pending,
    InProgress,
    Completed,
}

impl DeepView for TodoStatus {
    type V = TodoStatus;

    open spec fn deep_view(&self) -> TodoStatus {
        *self
    }
}

impl Dup for TodoStatus {
    fn dup(&self) -> (r: Self) {
        *self
    }
}

/// A task of the list.
#[derive(Debug, PartialEq, Eq)]
pub struct TodoItem {
    pub content: String,
    pub status: TodoStatus,
}

/// What a [`TodoItem`] holds.
#[verifier::ext_equal]
pub struct TodoItemView {
    pub content: Seq<char>,
    pub status: TodoStatus,
}

impl DeepView for TodoItem {
    type V = TodoItemView;

    open spec fn deep_view(&self) -> TodoItemView {
        TodoItemView {
            content: self.content.deep_view(),
            status: self.status.deep_view(),
        }
    }
}

impl Dup for TodoItem {
    fn dup(&self) -> (r: Self) {
        TodoItem {
            content: self.content.dup(),
            status: self.status.dup(),
        }
    }
}

impl Clone for TodoItem {
    fn clone(&self) -> (r: Self)
        ensures
            r.deep_view() == self.deep_view(),
    {
        self.dup()
    }
}

/// What the list still owes.
#[derive(Debug, PartialEq, Eq)]
pub enum Stale {
    /// A task has been in progress since before the silence started.
    Doing(String),
    /// So many tasks are unfinished, and none is in progress.
    Idle(usize),
}

/// What a [`Stale`] holds.
#[verifier::ext_equal]
pub enum StaleView {
    Doing(Seq<char>),
    Idle(usize),
}

impl DeepView for Stale {
    type V = StaleView;

    open spec fn deep_view(&self) -> StaleView {
        match self {
            Stale::Doing(x) => StaleView::Doing(x.deep_view()),
            Stale::Idle(x) => StaleView::Idle(x.deep_view()),
        }
    }
}

impl Dup for Stale {
    fn dup(&self) -> (r: Self) {
        match self {
            Stale::Doing(x) => Stale::Doing(x.dup()),
            Stale::Idle(x) => Stale::Idle(x.dup()),
        }
    }
}

impl Clone for Stale {
    fn clone(&self) -> (r: Self)
        ensures
            r.deep_view() == self.deep_view(),
    {
        self.dup()
    }
}

/// One agent's list, as its own facts describe it.
#[derive(Debug, PartialEq, Eq)]
pub struct Watch {
    /// The calls that wrote the list, in order.
    pub calls: Vec<ToolCall>,
    /// The calls that came back an error.
    pub failed: Vec<String>,
    /// The step the list was last touched at.
    pub touched_at: u32,
    /// The step it was last mentioned at.
    pub reminded_at: u32,
}

/// What a [`Watch`] holds.
#[verifier::ext_equal]
pub struct WatchView {
    pub calls: Seq<ToolCallView>,
    pub failed: Seq<Seq<char>>,
    pub touched_at: u32,
    pub reminded_at: u32,
}

impl DeepView for Watch {
    type V = WatchView;

    open spec fn deep_view(&self) -> WatchView {
        WatchView {
            calls: self.calls.deep_view(),
            failed: self.failed.deep_view(),
            touched_at: self.touched_at.deep_view(),
            reminded_at: self.reminded_at.deep_view(),
        }
    }
}

impl Dup for Watch {
    fn dup(&self) -> (r: Self) {
        Watch {
            calls: self.calls.dup(),
            failed: self.failed.dup(),
            touched_at: self.touched_at.dup(),
            reminded_at: self.reminded_at.dup(),
        }
    }
}

impl Clone for Watch {
    fn clone(&self) -> (r: Self)
        ensures
            r.deep_view() == self.deep_view(),
    {
        self.dup()
    }
}

/// Steps of silence before the list is treated as stale.
pub fn default_after() -> (n: u32)
    ensures
        n == 3,
{
    3
}

// ---- what the list owes ---------------------------------------------------

/// The first task in progress.
pub open spec fn doing(items: Seq<TodoItemView>) -> Option<Seq<char>>
    decreases items.len(),
{
    if items.len() == 0 {
        None
    } else if items[0].status is InProgress {
        Some(items[0].content)
    } else {
        doing(items.skip(1))
    }
}

/// How many tasks are not completed.
pub open spec fn unfinished(items: Seq<TodoItemView>) -> nat
    decreases items.len(),
{
    if items.len() == 0 {
        0
    } else {
        unfinished(items.drop_last()) + (if items.last().status is Completed {
            0nat
        } else {
            1nat
        })
    }
}

/// A list that is done, or empty, owes nothing.
pub open spec fn owed(items: Seq<TodoItemView>) -> Option<StaleView> {
    match doing(items) {
        Some(what) => Some(StaleView::Doing(what)),
        None => if unfinished(items) > 0 {
            Some(StaleView::Idle(unfinished(items) as usize))
        } else {
            None
        },
    }
}

proof fn lemma_unfinished_fits(items: Seq<TodoItemView>)
    ensures
        unfinished(items) <= items.len(),
    decreases items.len(),
{
    if items.len() > 0 {
        lemma_unfinished_fits(items.drop_last());
    }
}

pub fn stale(items: &Vec<TodoItem>) -> (r: Option<Stale>)
    ensures
        r.deep_view() == owed(items.deep_view()),
{
    let ghost all = items.deep_view();
    let mut i: usize = 0;
    assert(all.skip(0) =~= all);
    while i < items.len()
        invariant
            i <= items.len(),
            all == items.deep_view(),
            doing(all) == doing(all.skip(i as int)),
        decreases items.len() - i,
    {
        assert(all.skip(i as int)[0] == items@[i as int].deep_view());
        assert(all.skip(i as int).skip(1) =~= all.skip(i + 1));
        if items[i].status == TodoStatus::InProgress {
            return Some(Stale::Doing(items[i].content.clone()));
        }
        i = i + 1;
    }
    assert(all.skip(i as int).len() == 0);
    let mut left: usize = 0;
    let mut k: usize = 0;
    assert(all.take(0) =~= Seq::<TodoItemView>::empty());
    while k < items.len()
        invariant
            k <= items.len(),
            all == items.deep_view(),
            left == unfinished(all.take(k as int)),
            left <= k,
        decreases items.len() - k,
    {
        assert(all.take(k + 1).drop_last() =~= all.take(k as int));
        assert(all.take(k + 1).last() == items@[k as int].deep_view());
        if items[k].status != TodoStatus::Completed {
            left = left + 1;
        }
        k = k + 1;
    }
    assert(all.take(k as int) =~= all);
    if left > 0 {
        Some(Stale::Idle(left))
    } else {
        None
    }
}

// ---- the note -------------------------------------------------------------

pub open spec fn note(s: StaleView, quiet_steps: u32) -> Seq<char> {
    let steps = text::decimal(quiet_steps as nat);
    match s {
        StaleView::Doing(what) => "The task list still shows \""@ + what
            + "\" in progress, and has not been updated for "@ + steps
            + " steps. If it is done, mark it completed (`{\"action\":\"update\",\"id\":N,\"status\":\"completed\"}`); if you moved on to something else, mark that one in progress; if the plan changed, send the new list."@,
        StaleView::Idle(left) => "The task list has "@ + text::decimal(left as nat)
            + " unfinished task(s) and none of them is marked in progress, "@ + steps
            + " steps after it was last touched. Mark what you are working on (`{\"action\":\"update\",\"id\":N,\"status\":\"in_progress\"}`), or send a new list if the plan changed."@,
    }
}

pub open spec fn enveloped(body: Seq<char>) -> Seq<char> {
    "<system-reminder>"@ + body + " Do not mention this reminder to the user.</system-reminder>"@
}

/// The note for a stale list.
pub fn reminder(s: &Stale, quiet_steps: u32) -> (r: String)
    ensures
        r@ == enveloped(note(s.deep_view(), quiet_steps)),
{
    let steps = number(quiet_steps as u64);
    let body = match s {
        Stale::Doing(what) => lit("The task list still shows \"").concat(what.as_str()).concat(
            "\" in progress, and has not been updated for ",
        ).concat(steps.as_str()).concat(
            " steps. If it is done, mark it completed (`{\"action\":\"update\",\"id\":N,\"status\":\"completed\"}`); if you moved on to something else, mark that one in progress; if the plan changed, send the new list.",
        ),
        Stale::Idle(left) => lit("The task list has ").concat(number(*left as u64).as_str()).concat(
            " unfinished task(s) and none of them is marked in progress, ",
        ).concat(steps.as_str()).concat(
            " steps after it was last touched. Mark what you are working on (`{\"action\":\"update\",\"id\":N,\"status\":\"in_progress\"}`), or send a new list if the plan changed.",
        ),
    };
    lit("<system-reminder>").concat(body.as_str()).concat(
        " Do not mention this reminder to the user.</system-reminder>",
    )
}

// ---- watching -------------------------------------------------------------

pub open spec fn fresh() -> WatchView {
    WatchView { calls: Seq::empty(), failed: Seq::empty(), touched_at: 0, reminded_at: 0 }
}

pub open spec fn minus(a: u32, b: u32) -> u32 {
    if a >= b {
        (a - b) as u32
    } else {
        0
    }
}

/// The watch after one message's calls; `todo` says which of them write the list.
pub open spec fn wrote(w: WatchView, calls: Seq<ToolCallView>, todo: Seq<bool>, round: u32) -> WatchView
    decreases calls.len(),
{
    if calls.len() == 0 {
        w
    } else {
        let before = wrote(w, calls.drop_last(), todo, round);
        if todo[calls.len() - 1] {
            WatchView {
                calls: before.calls.push(calls.last()),
                touched_at: round,
                ..before
            }
        } else {
            before
        }
    }
}

/// The watch after one fact.
pub open spec fn watched(w: WatchView, e: SessionEventView, todo: Seq<bool>) -> WatchView {
    match e {
        SessionEventView::TurnStart { .. } => WatchView { touched_at: 0, reminded_at: 0, ..w },
        SessionEventView::AssistantMessage { tool_calls, round, .. } => wrote(
            w,
            tool_calls,
            todo,
            round,
        ),
        SessionEventView::ToolResultLogged { call_id, is_error, .. } => if is_error
            && !w.failed.contains(call_id) {
            WatchView { failed: w.failed.push(call_id), ..w }
        } else {
            w
        },
        _ => w,
    }
}

/// Whether the end of a step is worth a look at the list: it was quiet for long enough,
/// and so were we.
pub open spec fn due(w: WatchView, step: u32, after_steps: u32) -> bool {
    minus(step, w.touched_at) >= after_steps && minus(step, w.reminded_at) >= after_steps
}

/// The calls that made the list what it is: those that did not fail.
pub open spec fn standing_calls(calls: Seq<ToolCallView>, failed: Seq<Seq<char>>) -> Seq<ToolCallView>
    decreases calls.len(),
{
    if calls.len() == 0 {
        Seq::empty()
    } else if failed.contains(calls.last().id) {
        standing_calls(calls.drop_last(), failed)
    } else {
        standing_calls(calls.drop_last(), failed).push(calls.last())
    }
}

pub open spec fn reminder_fact(turn: u64, s: StaleView, quiet: u32) -> SessionEventView {
    SessionEventView::Injected {
        turn,
        text: enveloped(note(s, quiet)),
        origin: InjectionOriginView::Reminder,
    }
}

/// What a watch has seen after it was asked whether to remind, and what it says.
pub open spec fn reminded(
    w: WatchView,
    items: Seq<TodoItemView>,
    turn: u64,
    step: u32,
    after_steps: u32,
) -> (WatchView, Option<SessionEventView>) {
    let quiet = minus(step, w.touched_at);
    match owed(items) {
        Some(s) => if due(w, step, after_steps) {
            (WatchView { reminded_at: step, ..w }, Some(reminder_fact(turn, s, quiet)))
        } else {
            (w, None)
        },
        None => (w, None),
    }
}

impl Watch {
    pub fn new() -> (w: Self)
        ensures
            w.deep_view() == fresh(),
    {
        Watch { calls: none_of(), failed: none_of(), touched_at: 0, reminded_at: 0 }
    }

    /// Hears a fact of the agent. `todo` says, call by call, which calls of a message
    /// write the list.
    pub fn hear(&mut self, e: &SessionEvent, todo: &Vec<bool>)
        requires
            e.deep_view() matches SessionEventView::AssistantMessage { tool_calls, .. }
                ==> todo.len() == tool_calls.len(),
        ensures
            final(self).deep_view() == watched(old(self).deep_view(), e.deep_view(), todo@),
    {
        match e {
            SessionEvent::TurnStart { .. } => {
                self.touched_at = 0;
                self.reminded_at = 0;
            },
            SessionEvent::AssistantMessage { tool_calls, round, .. } => {
                let ghost all = tool_calls.deep_view();
                let ghost start = self.deep_view();
                let mut i: usize = 0;
                assert(all.take(0) =~= Seq::<ToolCallView>::empty());
                while i < tool_calls.len()
                    invariant
                        i <= tool_calls.len(),
                        todo.len() == tool_calls.len(),
                        all == tool_calls.deep_view(),
                        self.deep_view() == wrote(start, all.take(i as int), todo@, *round),
                    decreases tool_calls.len() - i,
                {
                    assert(all.take(i + 1).drop_last() =~= all.take(i as int));
                    assert(all.take(i + 1).last() == tool_calls@[i as int].deep_view());
                    if todo[i] {
                        put(&mut self.calls, tool_calls[i].clone());
                        self.touched_at = *round;
                    }
                    i = i + 1;
                }
                assert(all.take(i as int) =~= all);
            },
            SessionEvent::ToolResultLogged { call_id, is_error, .. } => {
                if *is_error && !among(&self.failed, call_id.as_str()) {
                    put(&mut self.failed, call_id.clone());
                }
            },
            _ => {},
        }
    }

    /// Whether the list is worth a look at the end of this step.
    pub fn is_due(&self, step: u32, after_steps: u32) -> (r: bool)
        ensures
            r == due(self.deep_view(), step, after_steps),
    {
        step.saturating_sub(self.touched_at) >= after_steps && step.saturating_sub(
            self.reminded_at,
        ) >= after_steps
    }

    /// The calls that made the list what it is.
    pub fn standing(&self) -> (out: Vec<ToolCall>)
        ensures
            out.deep_view() == standing_calls(
                self.deep_view().calls,
                self.deep_view().failed,
            ),
    {
        let ghost all = self.calls.deep_view();
        let mut out: Vec<ToolCall> = none_of();
        let mut i: usize = 0;
        assert(all.take(0) =~= Seq::<ToolCallView>::empty());
        while i < self.calls.len()
            invariant
                i <= self.calls.len(),
                all == self.calls.deep_view(),
                out.deep_view() == standing_calls(all.take(i as int), self.failed.deep_view()),
            decreases self.calls.len() - i,
        {
            assert(all.take(i + 1).drop_last() =~= all.take(i as int));
            assert(all.take(i + 1).last() == self.calls@[i as int].deep_view());
            if !among(&self.failed, self.calls[i].id.as_str()) {
                put(&mut out, self.calls[i].clone());
            }
            i = i + 1;
        }
        assert(all.take(i as int) =~= all);
        out
    }

    /// The reminder at the end of a step, where the list is stale. `items` is the list
    /// the standing calls come to.
    pub fn remind(&mut self, turn: u64, step: u32, after_steps: u32, items: &Vec<TodoItem>) -> (fact:
        Option<SessionEvent>)
        ensures
            (final(self).deep_view(), fact.deep_view()) == reminded(
                old(self).deep_view(),
                items.deep_view(),
                turn,
                step,
                after_steps,
            ),
    {
        if !self.is_due(step, after_steps) {
            return None;
        }
        let quiet = step.saturating_sub(self.touched_at);
        match stale(items) {
            None => None,
            Some(s) => {
                self.reminded_at = step;
                Some(
                    SessionEvent::Injected {
                        turn,
                        text: reminder(&s, quiet),
                        origin: InjectionOrigin::Reminder,
                    },
                )
            },
        }
    }
}

// ---- laws -----------------------------------------------------------------

/// A reminder that went unheeded does not repeat every step: after one, the next comes
/// no sooner than as many steps later.
pub proof fn law_reminders_keep_their_distance(w: WatchView, step: u32, next: u32, after_steps: u32)
    requires
        step <= next,
        next - step < after_steps,
    ensures
        !due(WatchView { reminded_at: step, ..w }, next, after_steps),
{
}

/// A list that is entirely done is not something to be reminded of.
pub proof fn law_a_finished_list_is_quiet(items: Seq<TodoItemView>)
    requires
        forall|i: int| 0 <= i < items.len() ==> (#[trigger] items[i]).status is Completed,
    ensures
        owed(items) is None,
{
    lemma_all_done(items);
    lemma_none_doing(items);
}

proof fn lemma_all_done(items: Seq<TodoItemView>)
    requires
        forall|i: int| 0 <= i < items.len() ==> (#[trigger] items[i]).status is Completed,
    ensures
        unfinished(items) == 0,
    decreases items.len(),
{
    if items.len() > 0 {
        let front = items.drop_last();
        assert forall|i: int| 0 <= i < front.len() implies (
        #[trigger] front[i]).status is Completed by {
            assert(front[i] == items[i]);
        }
        lemma_all_done(front);
        assert(items[items.len() - 1].status is Completed);
    }
}

proof fn lemma_none_doing(items: Seq<TodoItemView>)
    requires
        forall|i: int| 0 <= i < items.len() ==> (#[trigger] items[i]).status is Completed,
    ensures
        doing(items) is None,
    decreases items.len(),
{
    if items.len() > 0 {
        assert(items[0].status is Completed);
        let rest = items.skip(1);
        assert forall|i: int| 0 <= i < rest.len() implies (
        #[trigger] rest[i]).status is Completed by {
            assert(rest[i] == items[i + 1]);
        }
        lemma_none_doing(rest);
    }
}

/// A plan that was refused is not the plan: a call that failed is never among those
/// that make the list.
pub proof fn law_a_refused_plan_does_not_stand(
    calls: Seq<ToolCallView>,
    failed: Seq<Seq<char>>,
    i: int,
)
    requires
        0 <= i < standing_calls(calls, failed).len(),
    ensures
        !failed.contains(standing_calls(calls, failed)[i].id),
    decreases calls.len(),
{
    let front = calls.drop_last();
    if i < standing_calls(front, failed).len() {
        law_a_refused_plan_does_not_stand(front, failed, i);
    }
}

} // verus!
