//! The pump: a driver's commands, carried out around the turns they start.
//!
//! A turn runs on its own, so a cancel or a second message is taken in while the
//! model is still answering. [`Pump::woke`] decides, for everything the pump can wake
//! up for, what is to be done and in which order.
use crate::data::{none_of, one_of, put, put_all, Dup};
use crate::message::{Message, MessageView, Role};
use crate::protocol::{
    AgentCommand, AgentCommandView, AgentEvent, AgentEventView, CommandError, CompactTrigger,
    CompactTriggerView, Tagged, TaggedView,
};
use crate::text;
use crate::text::{lit, same};
use crate::turn::MessageOrigin;
use vstd::prelude::*;

verus! {

/// What the pump woke up for.
#[derive(Debug, PartialEq, Eq)]
pub enum Woke {
    /// The driver sent a command. `current_turn` is the turn the log is in.
    Command { incoming: Tagged, current_turn: u64 },
    /// The driver is gone.
    HungUp,
    /// The turn that was running has ended.
    TurnDone,
    /// The inbox was looked at; `waking` where something in it starts a turn.
    Inbox { waking: bool },
}

/// What a [`Woke`] holds.
#[verifier::ext_equal]
pub enum WokeView {
    Command { incoming: TaggedView, current_turn: u64 },
    HungUp,
    TurnDone,
    Inbox { waking: bool },
}

impl DeepView for Woke {
    type V = WokeView;

    open spec fn deep_view(&self) -> WokeView {
        match self {
            Woke::Command { incoming, current_turn } => WokeView::Command {
                incoming: incoming.deep_view(),
                current_turn: current_turn.deep_view(),
            },
            Woke::HungUp => WokeView::HungUp,
            Woke::TurnDone => WokeView::TurnDone,
            Woke::Inbox { waking } => WokeView::Inbox {
                waking: waking.deep_view(),
            },
        }
    }
}

impl Dup for Woke {
    fn dup(&self) -> (r: Self) {
        match self {
            Woke::Command { incoming, current_turn } => Woke::Command {
                incoming: incoming.dup(),
                current_turn: current_turn.dup(),
            },
            Woke::HungUp => Woke::HungUp,
            Woke::TurnDone => Woke::TurnDone,
            Woke::Inbox { waking } => Woke::Inbox {
                waking: waking.dup(),
            },
        }
    }
}

impl Clone for Woke {
    fn clone(&self) -> (r: Self)
        ensures
            r.deep_view() == self.deep_view(),
    {
        self.dup()
    }
}

/// One thing to do.
#[derive(Debug, PartialEq, Eq)]
pub enum PumpAction {
    StartTurn,
    /// Look at the inbox and report what is in it.
    Look,
    Compact { focus: Option<String> },
    SendSnapshot,
    /// Put a message in the inbox.
    Deliver { text: String, origin: MessageOrigin, images: Vec<String>, receipt: Option<String> },
    /// Put context in the inbox, logged as the harness's.
    Inject { text: String },
    /// Hand an answer to whoever waits for it, and report with [`answer_receipt`].
    Answer { id: u64, value: String, receipt: Option<String> },
    /// Stop the running turn on a person's behalf.
    Interrupt,
    /// Refuse every question still waiting.
    RefuseAll,
    /// Start a subscription, and report with [`subscribe_receipt`].
    Subscribe { session: String, from: u64, receipt: Option<String> },
    Unsubscribe { session: String },
    /// Tell the driver.
    Send { event: AgentEvent },
    CancelTurn,
    /// No more questions; refuse every one still waiting.
    CloseAsker,
    /// Wait for the turn that is still running.
    AwaitTurn,
}

/// What a [`PumpAction`] holds.
#[verifier::ext_equal]
pub enum PumpActionView {
    StartTurn,
    Look,
    Compact { focus: Option<Seq<char>> },
    SendSnapshot,
    Deliver { text: Seq<char>, origin: MessageOrigin, images: Seq<Seq<char>>, receipt: Option<Seq<char>> },
    Inject { text: Seq<char> },
    Answer { id: u64, value: Seq<char>, receipt: Option<Seq<char>> },
    Interrupt,
    RefuseAll,
    Subscribe { session: Seq<char>, from: u64, receipt: Option<Seq<char>> },
    Unsubscribe { session: Seq<char> },
    Send { event: AgentEventView },
    CancelTurn,
    CloseAsker,
    AwaitTurn,
}

impl DeepView for PumpAction {
    type V = PumpActionView;

    open spec fn deep_view(&self) -> PumpActionView {
        match self {
            PumpAction::StartTurn => PumpActionView::StartTurn,
            PumpAction::Look => PumpActionView::Look,
            PumpAction::Compact { focus } => PumpActionView::Compact {
                focus: focus.deep_view(),
            },
            PumpAction::SendSnapshot => PumpActionView::SendSnapshot,
            PumpAction::Deliver { text, origin, images, receipt } => PumpActionView::Deliver {
                text: text.deep_view(),
                origin: origin.deep_view(),
                images: images.deep_view(),
                receipt: receipt.deep_view(),
            },
            PumpAction::Inject { text } => PumpActionView::Inject {
                text: text.deep_view(),
            },
            PumpAction::Answer { id, value, receipt } => PumpActionView::Answer {
                id: id.deep_view(),
                value: value.deep_view(),
                receipt: receipt.deep_view(),
            },
            PumpAction::Interrupt => PumpActionView::Interrupt,
            PumpAction::RefuseAll => PumpActionView::RefuseAll,
            PumpAction::Subscribe { session, from, receipt } => PumpActionView::Subscribe {
                session: session.deep_view(),
                from: from.deep_view(),
                receipt: receipt.deep_view(),
            },
            PumpAction::Unsubscribe { session } => PumpActionView::Unsubscribe {
                session: session.deep_view(),
            },
            PumpAction::Send { event } => PumpActionView::Send {
                event: event.deep_view(),
            },
            PumpAction::CancelTurn => PumpActionView::CancelTurn,
            PumpAction::CloseAsker => PumpActionView::CloseAsker,
            PumpAction::AwaitTurn => PumpActionView::AwaitTurn,
        }
    }
}

impl Dup for PumpAction {
    fn dup(&self) -> (r: Self) {
        match self {
            PumpAction::StartTurn => PumpAction::StartTurn,
            PumpAction::Look => PumpAction::Look,
            PumpAction::Compact { focus } => PumpAction::Compact {
                focus: focus.dup(),
            },
            PumpAction::SendSnapshot => PumpAction::SendSnapshot,
            PumpAction::Deliver { text, origin, images, receipt } => PumpAction::Deliver {
                text: text.dup(),
                origin: origin.dup(),
                images: images.dup(),
                receipt: receipt.dup(),
            },
            PumpAction::Inject { text } => PumpAction::Inject {
                text: text.dup(),
            },
            PumpAction::Answer { id, value, receipt } => PumpAction::Answer {
                id: id.dup(),
                value: value.dup(),
                receipt: receipt.dup(),
            },
            PumpAction::Interrupt => PumpAction::Interrupt,
            PumpAction::RefuseAll => PumpAction::RefuseAll,
            PumpAction::Subscribe { session, from, receipt } => PumpAction::Subscribe {
                session: session.dup(),
                from: from.dup(),
                receipt: receipt.dup(),
            },
            PumpAction::Unsubscribe { session } => PumpAction::Unsubscribe {
                session: session.dup(),
            },
            PumpAction::Send { event } => PumpAction::Send {
                event: event.dup(),
            },
            PumpAction::CancelTurn => PumpAction::CancelTurn,
            PumpAction::CloseAsker => PumpAction::CloseAsker,
            PumpAction::AwaitTurn => PumpAction::AwaitTurn,
        }
    }
}

impl Clone for PumpAction {
    fn clone(&self) -> (r: Self)
        ensures
            r.deep_view() == self.deep_view(),
    {
        self.dup()
    }
}

/// Where the pump stands.
#[derive(Debug, PartialEq, Eq)]
pub struct Pump {
    /// A turn is in flight.
    pub running: bool,
    /// Snapshots asked for while it runs.
    pub snapshots_waiting: u64,
    /// Compactions asked for while it runs, oldest first.
    pub compactions_waiting: Vec<Option<String>>,
    pub over: bool,
}

/// What a [`Pump`] holds.
#[verifier::ext_equal]
pub struct PumpView {
    pub running: bool,
    pub snapshots_waiting: u64,
    pub compactions_waiting: Seq<Option<Seq<char>>>,
    pub over: bool,
}

impl DeepView for Pump {
    type V = PumpView;

    open spec fn deep_view(&self) -> PumpView {
        PumpView {
            running: self.running.deep_view(),
            snapshots_waiting: self.snapshots_waiting.deep_view(),
            compactions_waiting: self.compactions_waiting.deep_view(),
            over: self.over.deep_view(),
        }
    }
}

impl Dup for Pump {
    fn dup(&self) -> (r: Self) {
        Pump {
            running: self.running.dup(),
            snapshots_waiting: self.snapshots_waiting.dup(),
            compactions_waiting: self.compactions_waiting.dup(),
            over: self.over.dup(),
        }
    }
}

impl Clone for Pump {
    fn clone(&self) -> (r: Self)
        ensures
            r.deep_view() == self.deep_view(),
    {
        self.dup()
    }
}

// ---- the decisions, stated ------------------------------------------------

/// Where the pump goes, and what it does on the way.
#[verifier::ext_equal]
pub struct Pumped {
    pub pump: PumpView,
    pub actions: Seq<PumpActionView>,
}

/// The id a command's receipt carries: the tag it came with, or a catalog command's
/// own.
pub open spec fn receipt_of(t: TaggedView) -> Option<Seq<char>> {
    match t.tag {
        Some(id) => Some(id),
        None => match t.command {
            AgentCommandView::Invoke { id, .. } => Some(id),
            _ => None,
        },
    }
}

pub open spec fn accepted(receipt: Option<Seq<char>>, turn: Option<u64>) -> Seq<PumpActionView> {
    match receipt {
        Some(command) => seq![
            PumpActionView::Send {
                event: AgentEventView::Accepted { command, turn, steered: false },
            },
        ],
        None => Seq::empty(),
    }
}

pub open spec fn rejected(receipt: Option<Seq<char>>, error: CommandError) -> Seq<PumpActionView> {
    match receipt {
        Some(command) => seq![
            PumpActionView::Send { event: AgentEventView::Rejected { command, error } },
        ],
        None => Seq::empty(),
    }
}

/// The receipt of a command that came to something, or failed for the reason given.
pub open spec fn receipted(
    receipt: Option<Seq<char>>,
    done: bool,
    error: CommandError,
) -> Seq<PumpActionView> {
    if done {
        accepted(receipt, None)
    } else {
        rejected(receipt, error)
    }
}

/// Work was queued: it joins the turn already running, or starts one.
pub open spec fn with_work(p: PumpView, actions: Seq<PumpActionView>) -> Pumped {
    if p.running {
        Pumped { pump: p, actions }
    } else {
        Pumped {
            pump: PumpView { running: true, ..p },
            actions: actions.push(PumpActionView::StartTurn),
        }
    }
}

/// On the way out: stop the turn, then release whatever waits for an answer, then
/// wait for the turn. A call waiting for an approval could never see the cancel.
pub open spec fn leaving(p: PumpView, actions: Seq<PumpActionView>) -> Pumped {
    let out = actions + seq![PumpActionView::CancelTurn, PumpActionView::CloseAsker];
    Pumped {
        pump: PumpView { over: true, ..p },
        actions: if p.running {
            out.push(PumpActionView::AwaitTurn)
        } else {
            out
        },
    }
}

pub open spec fn commanded(p: PumpView, t: TaggedView, current_turn: u64) -> Pumped {
    let receipt = receipt_of(t);
    match t.command {
        AgentCommandView::SendMessage { text, images } => with_work(
            p,
            seq![
                PumpActionView::Deliver { text, origin: MessageOrigin::User, images, receipt },
            ],
        ),
        AgentCommandView::SendMessageWithContext { text, images, context } => with_work(
            p,
            seq![
                PumpActionView::Inject { text: context },
                PumpActionView::Deliver { text, origin: MessageOrigin::User, images, receipt },
            ],
        ),
        AgentCommandView::SendSyntheticMessage { text } => with_work(
            p,
            seq![
                PumpActionView::Deliver {
                    text,
                    origin: MessageOrigin::Harness,
                    images: Seq::empty(),
                    receipt,
                },
            ],
        ),
        AgentCommandView::Respond { id, value } => Pumped {
            pump: p,
            actions: seq![PumpActionView::Answer { id, value, receipt }],
        },
        AgentCommandView::Cancel => Pumped {
            pump: p,
            actions: (if p.running {
                accepted(receipt, Some(current_turn))
            } else {
                rejected(receipt, CommandError::NotRunning)
            }) + seq![PumpActionView::Interrupt, PumpActionView::RefuseAll],
        },
        AgentCommandView::Snapshot => if p.running {
            Pumped {
                pump: PumpView {
                    snapshots_waiting: (p.snapshots_waiting + 1) as u64,
                    ..p
                },
                actions: accepted(receipt, None),
            }
        } else {
            Pumped {
                pump: p,
                actions: accepted(receipt, None).push(PumpActionView::SendSnapshot),
            }
        },
        AgentCommandView::Compact { focus } => if p.running {
            Pumped {
                pump: PumpView { compactions_waiting: p.compactions_waiting.push(focus), ..p },
                actions: accepted(receipt, None),
            }
        } else {
            Pumped {
                pump: p,
                actions: accepted(receipt, None).push(PumpActionView::Compact { focus }),
            }
        },
        AgentCommandView::Subscribe { session, from } => Pumped {
            pump: p,
            actions: seq![PumpActionView::Subscribe { session, from, receipt }],
        },
        AgentCommandView::Unsubscribe { session } => Pumped {
            pump: p,
            actions: seq![PumpActionView::Unsubscribe { session }] + accepted(receipt, None),
        },
        AgentCommandView::Invoke { .. } => Pumped {
            pump: p,
            actions: rejected(receipt, CommandError::NotFound),
        },
        AgentCommandView::Shutdown => leaving(p, accepted(receipt, None)),
        AgentCommandView::Unknown => Pumped {
            pump: p,
            actions: rejected(receipt, CommandError::Unsupported),
        },
    }
}

pub open spec fn compactions(waiting: Seq<Option<Seq<char>>>) -> Seq<PumpActionView> {
    Seq::new(waiting.len(), |i: int| PumpActionView::Compact { focus: waiting[i] })
}

pub open spec fn snapshots(n: nat) -> Seq<PumpActionView> {
    Seq::new(n, |i: int| PumpActionView::SendSnapshot)
}

/// What waits behind a turn is done the moment it ends, compactions before
/// snapshots; then the inbox is looked at for work that came too late to join it.
pub open spec fn turn_done(p: PumpView) -> Pumped {
    Pumped {
        pump: PumpView {
            running: false,
            snapshots_waiting: 0,
            compactions_waiting: Seq::empty(),
            ..p
        },
        actions: (compactions(p.compactions_waiting) + snapshots(p.snapshots_waiting as nat)).push(
            PumpActionView::Look,
        ),
    }
}

pub open spec fn pumped(p: PumpView, w: WokeView) -> Pumped {
    if p.over {
        Pumped { pump: p, actions: Seq::empty() }
    } else {
        match w {
            WokeView::Command { incoming, current_turn } => commanded(p, incoming, current_turn),
            WokeView::HungUp => leaving(p, Seq::empty()),
            WokeView::TurnDone => turn_done(p),
            WokeView::Inbox { waking } => if waking {
                with_work(p, Seq::empty())
            } else {
                Pumped { pump: p, actions: Seq::empty() }
            },
        }
    }
}

// ---- the decisions, made --------------------------------------------------

fn receipt(t: &Tagged) -> (r: Option<String>)
    ensures
        r.deep_view() == receipt_of(t.deep_view()),
{
    match &t.tag {
        Some(id) => Some(id.clone()),
        None => match &t.command {
            AgentCommand::Invoke { id, .. } => Some(id.clone()),
            _ => None,
        },
    }
}

fn accept(receipt: Option<String>, turn: Option<u64>) -> (out: Vec<PumpAction>)
    ensures
        out.deep_view() == accepted(receipt.deep_view(), turn),
{
    match receipt {
        Some(command) => one_of(
            PumpAction::Send { event: AgentEvent::Accepted { command, turn, steered: false } },
        ),
        None => none_of(),
    }
}

fn reject(receipt: Option<String>, error: CommandError) -> (out: Vec<PumpAction>)
    ensures
        out.deep_view() == rejected(receipt.deep_view(), error),
{
    match receipt {
        Some(command) => one_of(
            PumpAction::Send { event: AgentEvent::Rejected { command, error } },
        ),
        None => none_of(),
    }
}

/// What the driver hears once its answer has been handed over.
pub fn answer_receipt(receipt: Option<String>, delivered: bool) -> (out: Vec<PumpAction>)
    ensures
        out.deep_view() == receipted(
            receipt.deep_view(),
            delivered,
            CommandError::StaleQuestion,
        ),
{
    if delivered {
        accept(receipt, None)
    } else {
        reject(receipt, CommandError::StaleQuestion)
    }
}

/// What the driver hears once the session it wants to follow has been looked up.
pub fn subscribe_receipt(receipt: Option<String>, found: bool) -> (out: Vec<PumpAction>)
    ensures
        out.deep_view() == receipted(receipt.deep_view(), found, CommandError::NotFound),
{
    if found {
        accept(receipt, None)
    } else {
        reject(receipt, CommandError::NotFound)
    }
}

impl Pump {
    /// A pump nothing has reached yet.
    pub fn new() -> (p: Self)
        ensures
            p.deep_view() == (PumpView {
                running: false,
                snapshots_waiting: 0,
                compactions_waiting: Seq::empty(),
                over: false,
            }),
    {
        Pump {
            running: false,
            snapshots_waiting: 0,
            compactions_waiting: none_of(),
            over: false,
        }
    }

    fn work(&mut self, actions: &mut Vec<PumpAction>)
        ensures
            ({
                let q = with_work(old(self).deep_view(), old(actions).deep_view());
                &&& final(self).deep_view() == q.pump
                &&& final(actions).deep_view() == q.actions
            }),
    {
        if !self.running {
            self.running = true;
            put(actions, PumpAction::StartTurn);
        }
    }

    fn leave(&mut self, actions: &mut Vec<PumpAction>)
        ensures
            ({
                let q = leaving(old(self).deep_view(), old(actions).deep_view());
                &&& final(self).deep_view() == q.pump
                &&& final(actions).deep_view() == q.actions
            }),
    {
        self.over = true;
        put(actions, PumpAction::CancelTurn);
        put(actions, PumpAction::CloseAsker);
        assert(actions.deep_view() =~= old(actions).deep_view() + seq![
            PumpActionView::CancelTurn,
            PumpActionView::CloseAsker,
        ]);
        if self.running {
            put(actions, PumpAction::AwaitTurn);
        }
    }

    fn command(&mut self, incoming: Tagged, current_turn: u64) -> (out: Vec<PumpAction>)
        requires
            old(self).snapshots_waiting < u64::MAX,
        ensures
            ({
                let q = commanded(old(self).deep_view(), incoming.deep_view(), current_turn);
                &&& final(self).deep_view() == q.pump
                &&& out.deep_view() == q.actions
            }),
    {
        let receipt = receipt(&incoming);
        match incoming.command {
            AgentCommand::SendMessage { text, images } => {
                let mut out = one_of(
                    PumpAction::Deliver { text, origin: MessageOrigin::User, images, receipt },
                );
                self.work(&mut out);
                out
            },
            AgentCommand::SendMessageWithContext { text, images, context } => {
                let mut out = one_of(PumpAction::Inject { text: context });
                put(
                    &mut out,
                    PumpAction::Deliver { text, origin: MessageOrigin::User, images, receipt },
                );
                assert(out.deep_view() =~= seq![out.deep_view()[0], out.deep_view()[1]]);
                self.work(&mut out);
                out
            },
            AgentCommand::SendSyntheticMessage { text } => {
                let mut out = one_of(
                    PumpAction::Deliver {
                        text,
                        origin: MessageOrigin::Harness,
                        images: none_of(),
                        receipt,
                    },
                );
                self.work(&mut out);
                out
            },
            AgentCommand::Respond { id, value } => one_of(
                PumpAction::Answer { id, value, receipt },
            ),
            AgentCommand::Cancel => {
                let mut out = if self.running {
                    accept(receipt, Some(current_turn))
                } else {
                    reject(receipt, CommandError::NotRunning)
                };
                let ghost told = out.deep_view();
                put(&mut out, PumpAction::Interrupt);
                put(&mut out, PumpAction::RefuseAll);
                assert(out.deep_view() =~= told + seq![
                    PumpActionView::Interrupt,
                    PumpActionView::RefuseAll,
                ]);
                out
            },
            AgentCommand::Snapshot => {
                let mut out = accept(receipt, None);
                if self.running {
                    self.snapshots_waiting = self.snapshots_waiting + 1;
                } else {
                    put(&mut out, PumpAction::SendSnapshot);
                }
                out
            },
            AgentCommand::Compact { focus } => {
                let mut out = accept(receipt, None);
                if self.running {
                    put(&mut self.compactions_waiting, focus);
                } else {
                    put(&mut out, PumpAction::Compact { focus });
                }
                out
            },
            AgentCommand::Subscribe { session, from } => one_of(
                PumpAction::Subscribe { session, from, receipt },
            ),
            AgentCommand::Unsubscribe { session } => {
                let mut out = one_of(PumpAction::Unsubscribe { session });
                put_all(&mut out, accept(receipt, None));
                out
            },
            AgentCommand::Invoke { .. } => reject(receipt, CommandError::NotFound),
            AgentCommand::Shutdown => {
                let mut out = accept(receipt, None);
                self.leave(&mut out);
                out
            },
            AgentCommand::Unknown => reject(receipt, CommandError::Unsupported),
        }
    }

    fn finish_turn(&mut self) -> (out: Vec<PumpAction>)
        ensures
            ({
                let q = turn_done(old(self).deep_view());
                &&& final(self).deep_view() == q.pump
                &&& out.deep_view() == q.actions
            }),
    {
        let ghost before = self.deep_view();
        self.running = false;
        let mut waiting: Vec<Option<String>> = none_of();
        std::mem::swap(&mut waiting, &mut self.compactions_waiting);
        let n = self.snapshots_waiting;
        self.snapshots_waiting = 0;
        let mut out: Vec<PumpAction> = none_of();
        let ghost all = compactions(before.compactions_waiting);
        let mut i: usize = 0;
        assert(out.deep_view() =~= all.take(0));
        while i < waiting.len()
            invariant
                i <= waiting.len(),
                waiting.deep_view() == before.compactions_waiting,
                all == compactions(before.compactions_waiting),
                out.deep_view() == all.take(i as int),
            decreases waiting.len() - i,
        {
            put(&mut out, PumpAction::Compact { focus: waiting[i].dup() });
            assert(out.deep_view() =~= all.take(i + 1));
            i = i + 1;
        }
        assert(all.take(i as int) =~= all);
        let mut k: u64 = 0;
        assert(out.deep_view() =~= all + snapshots(0));
        while k < n
            invariant
                k <= n,
                out.deep_view() == all + snapshots(k as nat),
            decreases n - k,
        {
            put(&mut out, PumpAction::SendSnapshot);
            assert(out.deep_view() =~= all + snapshots((k + 1) as nat));
            k = k + 1;
        }
        put(&mut out, PumpAction::Look);
        out
    }

    /// Takes in what the pump woke up for: what to do, in order.
    pub fn woke(&mut self, woke: Woke) -> (out: Vec<PumpAction>)
        requires
            old(self).snapshots_waiting < u64::MAX,
        ensures
            ({
                let q = pumped(old(self).deep_view(), woke.deep_view());
                &&& final(self).deep_view() == q.pump
                &&& out.deep_view() == q.actions
            }),
    {
        if self.over {
            return none_of();
        }
        match woke {
            Woke::Command { incoming, current_turn } => self.command(incoming, current_turn),
            Woke::HungUp => {
                let mut out: Vec<PumpAction> = none_of();
                self.leave(&mut out);
                out
            },
            Woke::TurnDone => self.finish_turn(),
            Woke::Inbox { waking } => {
                let mut out: Vec<PumpAction> = none_of();
                if waking {
                    self.work(&mut out);
                }
                out
            },
        }
    }
}

// ---- what holds of it -----------------------------------------------------

/// At most one turn runs: a turn is started only where none is running, and from
/// then on one is. What is queued meanwhile joins it.
pub proof fn law_one_turn_at_a_time(p: PumpView, w: WokeView)
    ensures
        ({
            let q = pumped(p, w);
            q.actions.contains(PumpActionView::StartTurn) ==> !p.running && q.pump.running
        }),
{
    let q = pumped(p, w);
    if q.actions.contains(PumpActionView::StartTurn) {
        let i = choose|i: int|
            0 <= i < q.actions.len() && q.actions[i] == PumpActionView::StartTurn;
        assert(q.actions[i] is StartTurn);
    }
}

/// No snapshot and no compaction is taken of a conversation still being written:
/// while a turn runs, neither is done.
pub proof fn law_nothing_behind_a_running_turn(p: PumpView, w: WokeView, i: int)
    requires
        p.running,
        !(w is TurnDone),
        0 <= i < pumped(p, w).actions.len(),
    ensures
        !(pumped(p, w).actions[i] is SendSnapshot),
        !(pumped(p, w).actions[i] is Compact),
{
}

/// How many snapshots a list of actions sends.
pub open spec fn sent(actions: Seq<PumpActionView>) -> nat
    decreases actions.len(),
{
    if actions.len() == 0 {
        0
    } else {
        sent(actions.drop_last()) + if actions.last() is SendSnapshot {
            1nat
        } else {
            0nat
        }
    }
}

proof fn lemma_sent_add(a: Seq<PumpActionView>, b: Seq<PumpActionView>)
    ensures
        sent(a + b) == sent(a) + sent(b),
    decreases b.len(),
{
    if b.len() == 0 {
        assert(a + b =~= a);
    } else {
        assert((a + b).drop_last() =~= a + b.drop_last());
        lemma_sent_add(a, b.drop_last());
    }
}

proof fn lemma_sent_none(a: Seq<PumpActionView>)
    requires
        forall|i: int| 0 <= i < a.len() ==> !(#[trigger] a[i] is SendSnapshot),
    ensures
        sent(a) == 0,
    decreases a.len(),
{
    if a.len() > 0 {
        assert forall|i: int| 0 <= i < a.drop_last().len() implies !(
        #[trigger] a.drop_last()[i] is SendSnapshot) by {
            assert(a.drop_last()[i] == a[i]);
        }
        lemma_sent_none(a.drop_last());
        assert(!(a[a.len() - 1] is SendSnapshot));
    }
}

proof fn lemma_sent_snapshots(n: nat)
    ensures
        sent(snapshots(n)) == n,
    decreases n,
{
    if n > 0 {
        assert(snapshots(n).drop_last() =~= snapshots((n - 1) as nat));
        lemma_sent_snapshots((n - 1) as nat);
    }
}

pub open spec fn asks_for_snapshot(p: PumpView, w: WokeView) -> bool {
    !p.over && (w matches WokeView::Command { incoming, .. } && incoming.command is Snapshot)
}

/// Every snapshot asked for is sent exactly once, now or behind the turn: whatever
/// wakes the pump, what is sent plus what waits grows by what was asked for.
pub proof fn law_snapshots_are_answered_once(p: PumpView, w: WokeView)
    requires
        p.snapshots_waiting < u64::MAX,
    ensures
        ({
            let q = pumped(p, w);
            sent(q.actions) + q.pump.snapshots_waiting == p.snapshots_waiting + if asks_for_snapshot(
                p,
                w,
            ) {
                1nat
            } else {
                0nat
            }
        }),
{
    let q = pumped(p, w);
    if p.over {
    } else if w is TurnDone {
        let a = compactions(p.compactions_waiting);
        let b = snapshots(p.snapshots_waiting as nat);
        assert forall|i: int| 0 <= i < a.len() implies !(#[trigger] a[i] is SendSnapshot) by {}
        lemma_sent_none(a);
        lemma_sent_snapshots(p.snapshots_waiting as nat);
        lemma_sent_add(a, b);
        assert(q.actions.drop_last() =~= a + b);
    } else if asks_for_snapshot(p, w) && !p.running {
        let before = q.actions.drop_last();
        assert forall|i: int| 0 <= i < before.len() implies !(
        #[trigger] before[i] is SendSnapshot) by {
            assert(before[i] == q.actions[i]);
        }
        lemma_sent_none(before);
    } else {
        assert forall|i: int| 0 <= i < q.actions.len() implies !(
        #[trigger] q.actions[i] is SendSnapshot) by {}
        lemma_sent_none(q.actions);
    }
}

/// Cancelling stops the turn and then releases whatever is parked on an answer, so
/// nothing is left waiting for one that will not come.
pub proof fn law_cancel_releases(p: PumpView, tag: Option<Seq<char>>, turn: u64)
    requires
        !p.over,
    ensures
        ({
            let q = pumped(
                p,
                (WokeView::Command {
                    incoming: TaggedView { tag, command: AgentCommandView::Cancel },
                    current_turn: turn,
                }),
            );
            let n = q.actions.len();
            &&& n >= 2
            &&& q.actions[n - 2] is Interrupt
            &&& q.actions[n - 1] is RefuseAll
        }),
{
}

/// Once the pump has left, nothing wakes it.
pub proof fn law_leaving_is_final(p: PumpView, w: WokeView)
    requires
        p.over,
    ensures
        pumped(p, w).pump == p,
        pumped(p, w).actions.len() == 0,
{
}

// ---- snapshots and compactions --------------------------------------------

/// A system message that says `text`.
pub open spec fn system_message(text: Seq<char>) -> MessageView {
    MessageView {
        role: Role::System,
        text,
        reasoning: None,
        tool_calls: Seq::empty(),
        tool_call_id: None,
        is_error: false,
        synthetic: false,
    }
}

/// The conversation as the model has it: the system prompt, where there is one, then
/// what the log says.
pub open spec fn as_sent(system: Seq<char>, derived: Seq<MessageView>) -> Seq<MessageView> {
    if system.len() == 0 {
        derived
    } else {
        seq![system_message(system)] + derived
    }
}

impl Message {
    /// A system message that says `text`.
    pub fn system(text: String) -> (m: Self)
        ensures
            m.deep_view() == system_message(text@),
    {
        Message {
            role: Role::System,
            text,
            reasoning: None,
            tool_calls: none_of(),
            tool_call_id: None,
            is_error: false,
            synthetic: false,
        }
    }
}

/// Puts together what the model sees: the system prompt and the conversation.
pub fn assemble(system: String, derived: Vec<Message>) -> (out: Vec<Message>)
    ensures
        out.deep_view() == as_sent(system@, derived.deep_view()),
{
    if system.as_str().is_empty() {
        derived
    } else {
        let mut out = one_of(Message::system(system));
        put_all(&mut out, derived);
        out
    }
}

/// How many bytes of text a conversation holds.
pub open spec fn text_bytes(messages: Seq<MessageView>) -> nat
    decreases messages.len(),
{
    if messages.len() == 0 {
        0
    } else {
        text_bytes(messages.drop_last()) + vstd::utf8::encode_utf8(messages.last().text).len()
    }
}

proof fn lemma_text_bytes_grow(messages: Seq<MessageView>, n: int)
    requires
        0 <= n <= messages.len(),
    ensures
        text_bytes(messages.take(n)) <= text_bytes(messages),
    decreases messages.len() - n,
{
    if n < messages.len() {
        assert(messages.take(n + 1).drop_last() =~= messages.take(n));
        lemma_text_bytes_grow(messages, n + 1);
    } else {
        assert(messages.take(n) =~= messages);
    }
}

fn measure(messages: &Vec<Message>) -> (n: usize)
    requires
        text_bytes(messages.deep_view()) <= usize::MAX,
    ensures
        n == text_bytes(messages.deep_view()),
{
    let ghost all = messages.deep_view();
    let mut n: usize = 0;
    let mut i: usize = 0;
    assert(all.take(0) =~= Seq::<MessageView>::empty());
    while i < messages.len()
        invariant
            i <= messages.len(),
            all == messages.deep_view(),
            text_bytes(all) <= usize::MAX,
            n == text_bytes(all.take(i as int)),
        decreases messages.len() - i,
    {
        assert(all.take(i + 1).drop_last() =~= all.take(i as int));
        assert(all.take(i + 1).last() == messages@[i as int].deep_view());
        proof {
            lemma_text_bytes_grow(all, i + 1);
        }
        n = n + messages[i].text.as_str().len();
        i = i + 1;
    }
    assert(all.take(i as int) =~= all);
    n
}

/// The report that a requested compaction was begun.
pub fn compaction_started(focus: Option<String>) -> (e: AgentEvent)
    ensures
        e.deep_view() == (AgentEventView::CompactionStarted {
            trigger: CompactTriggerView::Manual { focus: focus.deep_view() },
        }),
{
    AgentEvent::CompactionStarted { trigger: CompactTrigger::Manual { focus } }
}

/// The report that nothing is mounted that could compact: refused, not failed.
pub fn compaction_refused(focus: Option<String>) -> (e: AgentEvent)
    ensures
        e.deep_view() == (AgentEventView::Compacted {
            trigger: CompactTriggerView::Manual { focus: focus.deep_view() },
            removed: 0,
            bytes_before: 0,
            bytes_after: 0,
            committed: false,
            snapshot: None,
        }),
{
    AgentEvent::Compacted {
        trigger: CompactTrigger::Manual { focus },
        removed: 0,
        bytes_before: 0,
        bytes_after: 0,
        committed: false,
        snapshot: None,
    }
}

/// What a requested compaction came to, measured on what the model sees.
pub open spec fn compaction_report(
    focus: Option<Seq<char>>,
    before: Seq<MessageView>,
    after: Seq<MessageView>,
    committed: bool,
    system: Seq<char>,
) -> AgentEventView {
    AgentEventView::Compacted {
        trigger: CompactTriggerView::Manual { focus },
        removed: if before.len() >= after.len() {
            (before.len() - after.len()) as usize
        } else {
            0
        },
        bytes_before: text_bytes(before) as usize,
        bytes_after: text_bytes(after) as usize,
        committed,
        snapshot: if committed {
            Some(as_sent(system, after))
        } else {
            None
        },
    }
}

pub fn compaction_done(
    focus: Option<String>,
    before: &Vec<Message>,
    after: Vec<Message>,
    committed: bool,
    system: String,
) -> (e: AgentEvent)
    requires
        text_bytes(before.deep_view()) <= usize::MAX,
        text_bytes(after.deep_view()) <= usize::MAX,
    ensures
        e.deep_view() == compaction_report(
            focus.deep_view(),
            before.deep_view(),
            after.deep_view(),
            committed,
            system@,
        ),
{
    let bytes_before = measure(before);
    let bytes_after = measure(&after);
    let removed: usize = if before.len() >= after.len() {
        before.len() - after.len()
    } else {
        0
    };
    let snapshot = if committed {
        Some(assemble(system, after))
    } else {
        None
    };
    AgentEvent::Compacted {
        trigger: CompactTrigger::Manual { focus },
        removed,
        bytes_before,
        bytes_after,
        committed,
        snapshot,
    }
}

// ---- the edges of the pump ------------------------------------------------

/// How long a question waits for the driver, in seconds.
pub fn default_ask_timeout() -> (r: u64)
    ensures
        r == 300,
{
    300
}

/// What the driver hears where nothing can run a turn.
pub fn no_driver() -> (e: AgentEvent)
    ensures
        e.deep_view() == (AgentEventView::Error {
            message: "no `agent-loop` is mounted; nothing can run a turn"@,
            retryable: Some(false),
        }),
{
    AgentEvent::Error {
        message: lit("no `agent-loop` is mounted; nothing can run a turn"),
        retryable: Some(false),
    }
}

/// What is told once a turn took a message in.
pub open spec fn claimed(
    mine: bool,
    receipt: Seq<char>,
    turn: u64,
    steered: bool,
) -> Option<AgentEventView> {
    if mine {
        Some(AgentEventView::Accepted { command: receipt, turn: Some(turn), steered })
    } else {
        None
    }
}

/// What the driver of session `own` is told of a call that is under way in `session`.
pub open spec fn progressed(
    own: Seq<char>,
    session: Seq<char>,
    call_id: Seq<char>,
    message: Seq<char>,
) -> Option<AgentEventView> {
    if session == own {
        Some(AgentEventView::ToolProgress { call_id, message })
    } else {
        None
    }
}

/// The receipt for a message, once a turn of this agent has claimed it: only then is it
/// known whether it opened a turn or joined one.
pub fn claimed_receipt(mine: bool, receipt: String, turn: u64, steered: bool) -> (r: Option<
    AgentEvent,
>)
    ensures
        r.deep_view() == claimed(mine, receipt@, turn, steered),
{
    if mine {
        Some(AgentEvent::Accepted { command: receipt, turn: Some(turn), steered })
    } else {
        None
    }
}

/// What the tools of a session can reach of its driver. A child's tools reach nobody.
pub struct HandleToolDriver {
    pub session: String,
}

impl HandleToolDriver {
    /// Whether the tools of this session may put questions to the driver.
    pub fn reaches(&self, session: &str) -> (r: bool)
        ensures
            r == (session@ == self.session@),
    {
        same(session, self.session.as_str())
    }

    /// A tool's progress, on its way to the driver.
    pub fn progress(&self, session: &str, call_id: &str, message: String) -> (r: Option<AgentEvent>)
        ensures
            r.deep_view() == progressed(self.session@, session@, call_id@, message@),
    {
        if same(session, self.session.as_str()) {
            Some(AgentEvent::ToolProgress { call_id: lit(call_id), message })
        } else {
            None
        }
    }
}

} // verus!
