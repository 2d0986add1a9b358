//! A session and those it serves: every command is answered once, nothing that was asked
//! for is lost, a follower hears what it follows, and calls keep out of each other's way.
use crate::events::{CommittedView, LoggedEventView};
use crate::handle;
use crate::handle::{PumpActionView, PumpView, WokeView};
use crate::message::MessageView;
use crate::protocol::{AgentCommandView, AgentEventView, AgentStatus, CommandError, TaggedView};
use crate::subscriptions;
use crate::subscriptions::{Followed, StandingView};
use crate::tool_exec;
use crate::tool_exec::{LanesView, Start};
use crate::turn::MessageOrigin;
use vstd::prelude::*;

verus! {

// ---- a command ------------------------------------------------------------

/// Whether an action answers the command with this receipt, or takes the receipt along
/// to where it is answered.
pub open spec fn answers(a: PumpActionView, r: Seq<char>) -> bool {
    match a {
        PumpActionView::Deliver { receipt, .. } => receipt == Some(r),
        PumpActionView::Answer { receipt, .. } => receipt == Some(r),
        PumpActionView::Subscribe { receipt, .. } => receipt == Some(r),
        PumpActionView::Send { event } => match event {
            AgentEventView::Accepted { command, .. } => command == r,
            AgentEventView::Rejected { command, .. } => command == r,
            _ => false,
        },
        _ => false,
    }
}

/// A command that wants an answer gets exactly one.
pub proof fn law_every_command_is_answered(
    p: PumpView,
    t: TaggedView,
    current_turn: u64,
    r: Seq<char>,
)
    requires
        !p.over,
        t.tag == Some(r) || (t.tag is None && (t.command matches AgentCommandView::Invoke {
            id,
            ..
        } && id == r)),
    ensures
        ({
            let out = handle::pumped(
                p,
                WokeView::Command { incoming: t, current_turn },
            ).actions;
            exists|i: int|
                #![trigger out[i]]
                0 <= i < out.len() && answers(out[i], r) && forall|j: int|
                    0 <= j < out.len() && j != i ==> !answers(#[trigger] out[j], r)
        }),
{
    let out = handle::pumped(p, WokeView::Command { incoming: t, current_turn }).actions;
    assert(handle::receipt_of(t) == Some(r));
    let i: int = match t.command {
        AgentCommandView::SendMessageWithContext { .. } => 1,
        AgentCommandView::Unsubscribe { .. } => 1,
        _ => 0,
    };
    assert(0 <= i < out.len());
    assert(answers(out[i], r));
    assert forall|j: int| 0 <= j < out.len() && j != i implies !answers(
        #[trigger] out[j],
        r,
    ) by {}
}

/// A message is delivered as it was sent, as a person's or as the harness's, after the
/// context it came with; a turn is started behind it unless one is running.
pub proof fn law_a_message_is_delivered(
    p: PumpView,
    tag: Option<Seq<char>>,
    text: Seq<char>,
    images: Seq<Seq<char>>,
    context: Seq<char>,
    turn: u64,
)
    requires
        !p.over,
    ensures
        ({
            let start = if p.running {
                Seq::<PumpActionView>::empty()
            } else {
                seq![PumpActionView::StartTurn]
            };
            let as_person = PumpActionView::Deliver {
                text,
                origin: MessageOrigin::User,
                images,
                receipt: tag,
            };
            let send = |c: AgentCommandView|
                handle::pumped(
                    p,
                    WokeView::Command {
                        incoming: TaggedView { tag, command: c },
                        current_turn: turn,
                    },
                );
            let plain = send(AgentCommandView::SendMessage { text, images });
            let with = send(AgentCommandView::SendMessageWithContext { text, images, context });
            let own = send(AgentCommandView::SendSyntheticMessage { text });
            &&& plain.actions == seq![as_person] + start
            &&& with.actions == seq![PumpActionView::Inject { text: context }, as_person] + start
            &&& own.actions == seq![
                PumpActionView::Deliver {
                    text,
                    origin: MessageOrigin::Harness,
                    images: Seq::empty(),
                    receipt: tag,
                },
            ] + start
            &&& plain.pump == (PumpView { running: true, ..p })
            &&& with.pump == plain.pump && own.pump == plain.pump
        }),
{
    let send = |c: AgentCommandView|
        handle::pumped(
            p,
            WokeView::Command { incoming: TaggedView { tag, command: c }, current_turn: turn },
        );
    let start = if p.running {
        Seq::<PumpActionView>::empty()
    } else {
        seq![PumpActionView::StartTurn]
    };
    let as_person = PumpActionView::Deliver {
        text,
        origin: MessageOrigin::User,
        images,
        receipt: tag,
    };
    assert(send(AgentCommandView::SendMessage { text, images }).actions =~= seq![as_person]
        + start);
    assert(send(AgentCommandView::SendMessageWithContext { text, images, context }).actions
        =~= seq![PumpActionView::Inject { text: context }, as_person] + start);
    assert(send(AgentCommandView::SendSyntheticMessage { text }).actions =~= seq![
        PumpActionView::Deliver {
            text,
            origin: MessageOrigin::Harness,
            images: Seq::empty(),
            receipt: tag,
        },
    ] + start);
}

/// The compactions asked for, in order, by a run of commands.
pub open spec fn compactions_asked(commands: Seq<TaggedView>) -> Seq<Option<Seq<char>>> {
    commands.filter_map(
        |t: TaggedView|
            match t.command {
                AgentCommandView::Compact { focus } => Some(focus),
                _ => None,
            },
    )
}

/// The pump after a run of commands.
pub open spec fn after_commands(p: PumpView, commands: Seq<TaggedView>, turn: u64) -> PumpView
    decreases commands.len(),
{
    if commands.len() == 0 {
        p
    } else {
        handle::pumped(
            after_commands(p, commands.drop_last(), turn),
            WokeView::Command { incoming: commands.last(), current_turn: turn },
        ).pump
    }
}

/// What is asked for while a turn runs is done once it has ended, in the order it was
/// asked for; then what has come in meanwhile is looked at.
pub proof fn law_what_waits_is_done(p: PumpView, commands: Seq<TaggedView>, turn: u64)
    requires
        p.running,
        !p.over,
        p.compactions_waiting.len() == 0,
        forall|i: int|
            0 <= i < commands.len() ==> !((#[trigger] commands[i]).command is Shutdown),
    ensures
        ({
            let q = after_commands(p, commands, turn);
            let done = handle::pumped(q, WokeView::TurnDone);
            let asked = compactions_asked(commands);
            &&& q.running && !q.over
            &&& done.actions.len() == asked.len() + q.snapshots_waiting + 1
            &&& forall|i: int|
                0 <= i < asked.len() ==> (#[trigger] done.actions[i]) == (PumpActionView::Compact {
                    focus: asked[i],
                })
            &&& forall|i: int|
                asked.len() <= i < done.actions.len() - 1 ==> (#[trigger] done.actions[i])
                    is SendSnapshot
            &&& done.actions.last() is Look
            &&& done.pump == (PumpView {
                running: false,
                snapshots_waiting: 0,
                compactions_waiting: Seq::empty(),
                over: false,
            })
        }),
{
    lemma_waiting(p, commands, turn);
}

proof fn lemma_waiting(p: PumpView, commands: Seq<TaggedView>, turn: u64)
    requires
        p.running,
        !p.over,
        p.compactions_waiting.len() == 0,
        forall|i: int|
            0 <= i < commands.len() ==> !((#[trigger] commands[i]).command is Shutdown),
    ensures
        ({
            let q = after_commands(p, commands, turn);
            &&& q.running && !q.over
            &&& q.compactions_waiting == compactions_asked(commands)
        }),
    decreases commands.len(),
{
    let focus = |t: TaggedView|
        match t.command {
            AgentCommandView::Compact { focus } => Some(focus),
            _ => None,
        };
    if commands.len() == 0 {
        assert(commands.filter_map(focus) =~= Seq::empty());
        assert(p.compactions_waiting =~= Seq::empty());
    } else {
        let front = commands.drop_last();
        assert forall|i: int| 0 <= i < front.len() implies !((
        #[trigger] front[i]).command is Shutdown) by {
            assert(front[i] == commands[i]);
        }
        lemma_waiting(p, front, turn);
        assert(!(commands[commands.len() - 1].command is Shutdown));
        assert(after_commands(p, commands, turn).compactions_waiting =~= commands.filter_map(
            focus,
        ));
    }
}

/// What is asked for while nothing runs is done at once.
pub proof fn law_nothing_waits_for_nothing(
    p: PumpView,
    tag: Option<Seq<char>>,
    focus: Option<Seq<char>>,
    turn: u64,
)
    requires
        !p.over,
        !p.running,
    ensures
        ({
            let send = |c: AgentCommandView|
                handle::pumped(
                    p,
                    WokeView::Command {
                        incoming: TaggedView { tag, command: c },
                        current_turn: turn,
                    },
                );
            let compact = send(AgentCommandView::Compact { focus });
            let snapshot = send(AgentCommandView::Snapshot);
            &&& compact.actions.last() == (PumpActionView::Compact { focus })
            &&& snapshot.actions.last() is SendSnapshot
            &&& compact.pump == p && snapshot.pump == p
        }),
{
}

/// Cancelling is accepted for the turn it stops, and refused where nothing runs.
pub proof fn law_a_cancel_names_its_turn(p: PumpView, r: Seq<char>, turn: u64)
    requires
        !p.over,
    ensures
        ({
            let q = handle::pumped(
                p,
                WokeView::Command {
                    incoming: TaggedView { tag: Some(r), command: AgentCommandView::Cancel },
                    current_turn: turn,
                },
            );
            &&& q.pump == p
            &&& q.actions[0] == (PumpActionView::Send {
                event: if p.running {
                    AgentEventView::Accepted { command: r, turn: Some(turn), steered: false }
                } else {
                    AgentEventView::Rejected { command: r, error: CommandError::NotRunning }
                },
            })
        }),
{
}

/// Leaving stops the running turn, refuses what still waits for an answer, and waits for
/// the turn where there is one; whether the driver asked for it or went away.
pub proof fn law_leaving_stops_everything(p: PumpView, tag: Option<Seq<char>>, turn: u64)
    requires
        !p.over,
    ensures
        ({
            let asked = handle::pumped(
                p,
                WokeView::Command {
                    incoming: TaggedView { tag, command: AgentCommandView::Shutdown },
                    current_turn: turn,
                },
            );
            let gone = handle::pumped(p, WokeView::HungUp);
            let ends = if p.running {
                seq![
                    PumpActionView::CancelTurn,
                    PumpActionView::CloseAsker,
                    PumpActionView::AwaitTurn,
                ]
            } else {
                seq![PumpActionView::CancelTurn, PumpActionView::CloseAsker]
            };
            &&& gone.actions == ends
            &&& ends.is_suffix_of(asked.actions)
            &&& gone.pump == (PumpView { over: true, ..p }) && asked.pump == gone.pump
        }),
{
    let asked = handle::pumped(
        p,
        WokeView::Command {
            incoming: TaggedView { tag, command: AgentCommandView::Shutdown },
            current_turn: turn,
        },
    );
    let gone = handle::pumped(p, WokeView::HungUp);
    let ends = if p.running {
        seq![PumpActionView::CancelTurn, PumpActionView::CloseAsker, PumpActionView::AwaitTurn]
    } else {
        seq![PumpActionView::CancelTurn, PumpActionView::CloseAsker]
    };
    assert(gone.actions =~= ends);
    assert(ends =~= asked.actions.subrange(
        asked.actions.len() - ends.len(),
        asked.actions.len() as int,
    ));
}

/// What the session cannot do is refused for what it is, and nothing else happens; an
/// answer or a subscription goes on as it came.
pub proof fn law_commands_keep_their_kind(
    p: PumpView,
    r: Seq<char>,
    command: AgentCommandView,
    turn: u64,
)
    requires
        !p.over,
    ensures
        ({
            let q = handle::pumped(
                p,
                WokeView::Command {
                    incoming: TaggedView { tag: Some(r), command },
                    current_turn: turn,
                },
            );
            let refused = |error: CommandError|
                seq![PumpActionView::Send { event: AgentEventView::Rejected { command: r, error } }];
            match command {
                AgentCommandView::Invoke { .. } => q.pump == p && q.actions == refused(
                    CommandError::NotFound,
                ),
                AgentCommandView::Unknown => q.pump == p && q.actions == refused(
                    CommandError::Unsupported,
                ),
                AgentCommandView::Respond { id, value } => q.pump == p && q.actions == seq![
                    PumpActionView::Answer { id, value, receipt: Some(r) },
                ],
                AgentCommandView::Subscribe { session, from } => q.pump == p && q.actions == seq![
                    PumpActionView::Subscribe { session, from, receipt: Some(r) },
                ],
                AgentCommandView::Unsubscribe { session } => q.pump == p && q.actions.contains(
                    PumpActionView::Unsubscribe { session },
                ),
                _ => true,
            }
        }),
        handle::receipted(Some(r), true, CommandError::StaleQuestion) == seq![
            PumpActionView::Send {
                event: AgentEventView::Accepted { command: r, turn: None, steered: false },
            },
        ],
        handle::receipted(Some(r), false, CommandError::StaleQuestion) == seq![
            PumpActionView::Send {
                event: AgentEventView::Rejected { command: r, error: CommandError::StaleQuestion },
            },
        ],
        handle::receipted(None, true, CommandError::StaleQuestion).len() == 0,
        handle::receipted(None, false, CommandError::StaleQuestion).len() == 0,
{
    let q = handle::pumped(
        p,
        WokeView::Command { incoming: TaggedView { tag: Some(r), command }, current_turn: turn },
    );
    match command {
        AgentCommandView::Unsubscribe { session } => {
            assert(q.actions[0] == PumpActionView::Unsubscribe { session });
        },
        _ => {},
    }
}

/// A message in the inbox that wakes starts a turn unless one is running; one that does
/// not wake starts none.
pub proof fn law_only_waking_messages_wake(p: PumpView)
    requires
        !p.over,
    ensures
        ({
            let q = handle::pumped(p, WokeView::Inbox { waking: true });
            &&& q.pump.running
            &&& q.actions.len() == (if p.running {
                0nat
            } else {
                1nat
            })
            &&& !p.running ==> q.actions[0] is StartTurn
        }),
        handle::pumped(p, WokeView::Inbox { waking: false }).pump == p,
        handle::pumped(p, WokeView::Inbox { waking: false }).actions.len() == 0,
{
}

/// What is sent is the conversation, behind the instructions where there are any.
pub proof fn law_instructions_come_first(system: Seq<char>, derived: Seq<MessageView>)
    ensures
        derived.is_suffix_of(handle::as_sent(system, derived)),
        handle::as_sent(system, derived).len() == derived.len() + (if system.len() > 0 {
            1nat
        } else {
            0nat
        }),
        system.len() > 0 ==> ({
            let first = handle::as_sent(system, derived)[0];
            first.role is System && first.text == system && first.tool_calls.len() == 0
                && !first.synthetic
        }),
{
    let out = handle::as_sent(system, derived);
    assert(derived =~= out.subrange(out.len() - derived.len(), out.len() as int));
}

/// A compaction that took place is reported with what it took away and with the
/// conversation it left; one that did not, without one.
pub proof fn law_a_compaction_is_accounted_for(
    focus: Option<Seq<char>>,
    before: Seq<MessageView>,
    after: Seq<MessageView>,
    committed: bool,
    system: Seq<char>,
)
    requires
        before.len() <= usize::MAX,
        after.len() <= before.len(),
        handle::text_bytes(before) <= usize::MAX,
        handle::text_bytes(after) <= usize::MAX,
    ensures
        handle::compaction_report(focus, before, after, committed, system) matches AgentEventView::Compacted {
            removed,
            bytes_before,
            bytes_after,
            committed: did,
            snapshot,
            ..
        } && after.len() + removed == before.len() && did == committed && (snapshot is Some
            <==> committed) && (committed ==> after.is_suffix_of(snapshot->0)) && bytes_before
            == handle::text_bytes(before) && bytes_after == handle::text_bytes(after),
{
    law_instructions_come_first(system, after);
}

/// The size of a conversation is that of its texts, wherever it is cut in two.
pub proof fn law_sizes_add_up(a: Seq<MessageView>, b: Seq<MessageView>)
    ensures
        handle::text_bytes(a + b) == handle::text_bytes(a) + handle::text_bytes(b),
        b.len() == 1 ==> handle::text_bytes(b) == vstd::utf8::encode_utf8(b[0].text).len(),
    decreases b.len(),
{
    if b.len() == 0 {
        assert(a + b =~= a);
    } else {
        law_sizes_add_up(a, b.drop_last());
        assert((a + b).drop_last() =~= a + b.drop_last());
        assert((a + b).last() == b.last());
        if b.len() == 1 {
            assert(handle::text_bytes(b.drop_last()) == 0);
        }
    }
}

/// A driver is told of the message it sent, and of the calls of its own session, as they
/// are.
pub proof fn law_a_driver_hears_of_its_own(
    mine: bool,
    receipt: Seq<char>,
    turn: u64,
    steered: bool,
    own: Seq<char>,
    session: Seq<char>,
    call_id: Seq<char>,
    message: Seq<char>,
)
    ensures
        handle::claimed(mine, receipt, turn, steered) is Some <==> mine,
        handle::claimed(mine, receipt, turn, steered) matches Some(e) ==> (
        e matches AgentEventView::Accepted { command, turn: t, steered: s } && command == receipt
            && t == Some(turn) && s == steered),
        handle::progressed(own, session, call_id, message) is Some <==> session == own,
        handle::progressed(own, session, call_id, message) matches Some(e) ==> (
        e matches AgentEventView::ToolProgress { call_id: c, message: m } && c == call_id && m
            == message),
{
}

// ---- a follower -----------------------------------------------------------

/// A follower is told who the session is and what it does, then of every member, then of
/// every fact from where it asked, in order, and of nothing else.
pub proof fn law_a_follower_hears_the_history(
    session: Seq<char>,
    from: u64,
    target: StandingView,
    agents: Seq<StandingView>,
    log: Seq<LoggedEventView>,
)
    ensures
        ({
            let out = subscriptions::opening(session, from, target, agents, log);
            let facts = log.filter(|e: LoggedEventView| e.seq >= from);
            let told = facts.map_values(
                |e: LoggedEventView|
                    AgentEventView::Fact(CommittedView { session, seq: e.seq, event: e.event }),
            );
            &&& out.len() >= 2 + facts.len()
            &&& out[0] == (AgentEventView::Described { description: target.description })
            &&& out[1] == (AgentEventView::StatusChanged { session, status: target.status })
            &&& told.is_suffix_of(out)
            &&& forall|i: int|
                2 <= i < out.len() - told.len() ==> !((#[trigger] out[i]) is Fact)
        }),
{
    let out = subscriptions::opening(session, from, target, agents, log);
    let facts = log.filter(|e: LoggedEventView| e.seq >= from);
    let told = facts.map_values(
        |e: LoggedEventView|
            AgentEventView::Fact(CommittedView { session, seq: e.seq, event: e.event }),
    );
    lemma_since(log, from);
    lemma_joined_kinds(session, agents);
    assert(told =~= subscriptions::facts_of(session, subscriptions::since(log, from)));
    assert(told =~= out.subrange(out.len() - told.len(), out.len() as int));
    let mid = subscriptions::joined(session, agents).0;
    assert forall|i: int| 2 <= i < out.len() - told.len() implies !((#[trigger] out[i]) is Fact) by {
        assert(out[i] == mid[i - 2]);
    }
}

proof fn lemma_since(log: Seq<LoggedEventView>, from: u64)
    ensures
        subscriptions::since(log, from) == log.filter(|e: LoggedEventView| e.seq >= from),
    decreases log.len(),
{
    reveal(Seq::filter);
    let late = |e: LoggedEventView| e.seq >= from;
    if log.len() == 0 {
        assert(subscriptions::since(log, from) =~= log.filter(late));
    } else {
        lemma_since(log.drop_last(), from);
        assert(subscriptions::since(log, from) =~= log.filter(late));
    }
}

proof fn lemma_joined_kinds(session: Seq<char>, agents: Seq<StandingView>)
    ensures
        forall|i: int|
            0 <= i < subscriptions::joined(session, agents).0.len() ==> !((
            #[trigger] subscriptions::joined(session, agents).0[i]) is Fact),
    decreases agents.len(),
{
    if agents.len() > 0 {
        lemma_joined_kinds(session, agents.drop_last());
        let told = subscriptions::joined(session, agents).0;
        let before = subscriptions::joined(session, agents.drop_last()).0;
        assert forall|i: int| 0 <= i < told.len() implies !((#[trigger] told[i]) is Fact) by {
            if i < before.len() {
                assert(told[i] == before[i]);
            }
        }
    }
}

/// A follower is told of every member once, as it is described, and then what it does;
/// those are the members it knows.
pub proof fn law_a_follower_hears_of_every_member(
    session: Seq<char>,
    agents: Seq<StandingView>,
    k: int,
)
    requires
        0 <= k < agents.len(),
    ensures
        ({
            let (told, known) = subscriptions::joined(session, agents);
            let m = agents[k];
            let who = m.description.session;
            &&& m.description.parent == Some(session) ==> known.contains(who)
            &&& m.description.parent == Some(session) && (forall|j: int|
                0 <= j < k ==> (#[trigger] agents[j]).description.session != who) ==> exists|i: int|
                0 <= i < told.len() - 1 && #[trigger] told[i] == (AgentEventView::AgentAdded {
                    description: m.description,
                }) && told[i + 1] == (AgentEventView::StatusChanged {
                    session: who,
                    status: m.status,
                })
            &&& (forall|j: int|
                0 <= j < agents.len() && (#[trigger] agents[j]).description.session == who
                    ==> agents[j].description.parent != Some(session)) ==> !known.contains(who)
        }),
    decreases agents.len(),
{
    lemma_known(session, agents);
    let (told, known) = subscriptions::joined(session, agents);
    let front = agents.drop_last();
    let (told0, known0) = subscriptions::joined(session, front);
    let m = agents[k];
    let who = m.description.session;
    if m.description.parent == Some(session) && (forall|j: int|
        0 <= j < k ==> (#[trigger] agents[j]).description.session != who) {
        if k < front.len() {
            law_a_follower_hears_of_every_member(session, front, k);
            assert(front[k] == m);
            assert forall|j: int| 0 <= j < k implies (
            #[trigger] front[j]).description.session != who by {
                assert(front[j] == agents[j]);
            }
            let i = choose|i: int|
                0 <= i < told0.len() - 1 && #[trigger] told0[i] == (AgentEventView::AgentAdded {
                    description: m.description,
                }) && told0[i + 1] == (AgentEventView::StatusChanged {
                    session: who,
                    status: m.status,
                });
            assert(told[i] == told0[i] && told[i + 1] == told0[i + 1]);
        } else {
            lemma_known(session, front);
            if known0.contains(who) {
                let j = choose|j: int|
                    0 <= j < front.len() && (#[trigger] front[j]).description.session == who;
                assert(agents[j].description.session == who);
            }
            let i = told0.len() as int;
            assert(told[i] == (AgentEventView::AgentAdded { description: m.description }));
            assert(told[i + 1] == (AgentEventView::StatusChanged {
                session: who,
                status: m.status,
            }));
        }
    }
}

proof fn lemma_known(session: Seq<char>, agents: Seq<StandingView>)
    ensures
        forall|s: Seq<char>| #[trigger]
            subscriptions::joined(session, agents).1.contains(s) <==> exists|j: int|
                0 <= j < agents.len() && (#[trigger] agents[j]).description.session == s
                    && agents[j].description.parent == Some(session),
    decreases agents.len(),
{
    if agents.len() > 0 {
        let front = agents.drop_last();
        lemma_known(session, front);
        assert forall|s: Seq<char>| #[trigger]
            subscriptions::joined(session, agents).1.contains(s) implies exists|j: int|
            0 <= j < agents.len() && (#[trigger] agents[j]).description.session == s
                && agents[j].description.parent == Some(session) by {
            if subscriptions::joined(session, front).1.contains(s) {
                let j = choose|j: int|
                    0 <= j < front.len() && (#[trigger] front[j]).description.session == s
                        && front[j].description.parent == Some(session);
                assert(agents[j] == front[j]);
            } else {
                assert(agents[agents.len() - 1].description.session == s);
            }
        }
        assert forall|s: Seq<char>|
            (exists|j: int|
                0 <= j < agents.len() && (#[trigger] agents[j]).description.session == s
                    && agents[j].description.parent == Some(session)) implies #[trigger]
        subscriptions::joined(session, agents).1.contains(s) by {
            let j = choose|j: int|
                0 <= j < agents.len() && (#[trigger] agents[j]).description.session == s
                    && agents[j].description.parent == Some(session);
            if j < front.len() {
                assert(front[j] == agents[j]);
                assert(subscriptions::joined(session, front).1.contains(s));
            }
        }
    }
}

/// A live fact is told where its session is followed and it was not told before, once;
/// no other follower hears of it.
pub proof fn law_a_fact_is_told_once(m: Followed, fact: CommittedView, other: Seq<char>)
    ensures
        ({
            let (after, out) = subscriptions::heard(m, fact);
            &&& out.len() > 0 <==> m.dom().contains(fact.session) && fact.seq
                > m[fact.session].high
            &&& out.len() > 0 ==> out == seq![AgentEventView::Fact(fact)]
            &&& subscriptions::heard(after, fact).1.len() == 0
            &&& after.dom() == m.dom()
            &&& other != fact.session && m.dom().contains(other) ==> after[other] == m[other]
            &&& m.dom().contains(fact.session) ==> after[fact.session].members
                == m[fact.session].members
        }),
{
    let (after, out) = subscriptions::heard(m, fact);
    assert(after.dom() =~= m.dom());
}

/// A member is told of between its joining and its leaving: joining is told to who
/// follows its parent, what it does is told while it is known, leaving is told once, and
/// after that nothing.
pub proof fn law_a_member_is_told_of_while_it_is_there(
    m: Followed,
    member: StandingView,
    parent: Seq<char>,
    status: AgentStatus,
)
    requires
        member.description.parent == Some(parent),
        m.dom().contains(parent),
        !m.dom().contains(member.description.session),
        !m[parent].members.contains(member.description.session),
    ensures
        ({
            let who = member.description.session;
            let (there, joined) = subscriptions::added(m, member);
            let (gone, left) = subscriptions::removed(there, who, Some(parent));
            &&& joined == seq![
                AgentEventView::AgentAdded { description: member.description },
                AgentEventView::StatusChanged { session: who, status: member.status },
            ]
            &&& subscriptions::added(there, member).1.len() == 0
            &&& subscriptions::status_told(m, who, Some(parent), status).len() == 0
            &&& subscriptions::status_told(there, who, Some(parent), status) == seq![
                AgentEventView::StatusChanged { session: who, status },
            ]
            &&& left == seq![AgentEventView::AgentRemoved { session: who }]
            &&& subscriptions::status_told(gone, who, Some(parent), status).len() == 0
            &&& subscriptions::removed(gone, who, Some(parent)).1.len() == 0
            &&& gone == m
        }),
{
    let who = member.description.session;
    let (there, joined) = subscriptions::added(m, member);
    let (gone, left) = subscriptions::removed(there, who, Some(parent));
    assert(gone[parent].members =~= m[parent].members);
    assert(gone[parent] =~= m[parent]);
    assert(gone =~= m);
}

/// Nobody who follows nothing is told anything.
pub proof fn law_only_followers_are_told(
    m: Followed,
    fact: CommittedView,
    member: StandingView,
    session: Seq<char>,
    parent: Seq<char>,
    status: AgentStatus,
)
    requires
        !m.dom().contains(session),
        !m.dom().contains(parent),
        fact.session == session,
        member.description.parent == Some(parent),
    ensures
        subscriptions::heard(m, fact) == (m, Seq::<AgentEventView>::empty()),
        subscriptions::added(m, member) == (m, Seq::<AgentEventView>::empty()),
        subscriptions::removed(m, session, Some(parent)) == (m, Seq::<AgentEventView>::empty()),
        subscriptions::status_told(m, session, Some(parent), status).len() == 0,
        subscriptions::status_told(m, session, None, status).len() == 0,
{
}

/// A followed session's own doings are told.
pub proof fn law_a_followed_session_is_told_of(
    m: Followed,
    session: Seq<char>,
    parent: Option<Seq<char>>,
    status: AgentStatus,
)
    requires
        m.dom().contains(session),
    ensures
        subscriptions::status_told(m, session, parent, status) == seq![
            AgentEventView::StatusChanged { session, status },
        ],
{
}

/// Following a session leaves what else is followed alone, and goes on after the last
/// fact that was told, or where it was asked to begin.
pub proof fn law_following_goes_on_where_it_began(
    m: Followed,
    session: Seq<char>,
    other: Seq<char>,
    from: u64,
    agents: Seq<StandingView>,
    log: Seq<LoggedEventView>,
)
    ensures
        ({
            let after = subscriptions::subscribed(m, session, from, agents, log);
            let told = log.filter(|e: LoggedEventView| e.seq >= from);
            &&& after.dom() == m.dom().insert(session)
            &&& other != session && m.dom().contains(other) ==> after[other] == m[other]
            &&& told.len() > 0 ==> after[session].high == told.last().seq
            &&& told.len() == 0 && from > 0 ==> after[session].high == from - 1
        }),
{
    lemma_since(log, from);
    assert(subscriptions::subscribed(m, session, from, agents, log).dom() =~= m.dom().insert(
        session,
    ));
}

// ---- calls beside each other ----------------------------------------------

/// Calls keep out of each other's way: whatever starts or ends, a call that wants to be
/// alone is, and no more run beside each other than may.
pub proof fn law_calls_keep_apart(l: LanesView, cancelled: bool, parallel_safe: bool)
    requires
        tool_exec::apart(l),
        l.calls.len() <= usize::MAX,
    ensures
        tool_exec::apart(tool_exec::started(l, cancelled).0),
        parallel_safe && l.beside > 0 ==> tool_exec::apart(tool_exec::finished(l, true)),
        l.exclusive ==> tool_exec::apart(tool_exec::finished(l, false)),
        ({
            let (after, s) = tool_exec::started(l, cancelled);
            &&& s matches Start::Run(i) ==> {
                &&& i == l.next && after.next == l.next + 1
                &&& !l.exclusive && !cancelled
                &&& l.calls[l.next] ==> l.beside < l.most && after.beside == l.beside + 1
                    && !after.exclusive
                &&& !l.calls[l.next] ==> l.beside == 0 && after.exclusive && after.beside == 0
            }
            &&& s matches Start::Never(i) ==> i == l.next && after == (LanesView {
                next: l.next + 1,
                ..l
            }) && cancelled
            &&& s is Wait || s is Over ==> after == l
            &&& s is Over <==> l.next == l.calls.len()
            &&& after.calls == l.calls && after.most == l.most
        }),
{
}

/// A call that ends makes room again for what it kept out.
pub proof fn law_an_ended_call_makes_room(l: LanesView)
    requires
        tool_exec::apart(l),
        l.next < l.calls.len(),
    ensures
        l.exclusive ==> tool_exec::started(tool_exec::finished(l, false), false).1 is Run,
        !l.exclusive && l.beside > 0 && l.calls[l.next] ==> tool_exec::started(
            tool_exec::finished(l, true),
            false,
        ).1 is Run,
        !l.exclusive && l.beside == 1 ==> tool_exec::started(
            tool_exec::finished(l, true),
            false,
        ).1 is Run,
        !l.exclusive && l.beside == 0 ==> tool_exec::started(l, false).1 is Run,
{
}

/// At least one call may run and never more than the ceiling; between the two, as many as
/// was asked.
pub proof fn law_permits_are_bounded(asked: usize)
    ensures
        1 <= tool_exec::permits_of(asked) <= tool_exec::CEILING,
        1 <= asked <= tool_exec::CEILING ==> tool_exec::permits_of(asked) == asked,
        asked > tool_exec::CEILING ==> tool_exec::permits_of(asked) == tool_exec::CEILING,
{
}

} // verus!
