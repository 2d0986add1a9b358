//! Following sessions: the facts of each, and the members that come and go.
//!
//! A subscriber hears a session's history first and its live facts after it, with no
//! gap and no repeat. It hears of a member only between the member's joining and its
//! leaving, and of each joining once.
use crate::data::{none_of, one_of, put, Dup};
use crate::events::{Committed, CommittedView, LoggedEvent, LoggedEventView};
use crate::log;
use crate::protocol::{AgentEvent, AgentEventView, AgentStatus, Description, DescriptionView};
use crate::table::{Names, Table};
use crate::text::{lit, same};
use vstd::prelude::*;

verus! {

/// An agent, described, and what it is doing.
#[derive(Debug, PartialEq, Eq)]
pub struct Standing {
    pub description: Description,
    pub status: AgentStatus,
}

/// What a [`Standing`] holds.
#[verifier::ext_equal]
pub struct StandingView {
    pub description: DescriptionView,
    pub status: AgentStatus,
}

impl DeepView for Standing {
    type V = StandingView;

    open spec fn deep_view(&self) -> StandingView {
        StandingView {
            description: self.description.deep_view(),
            status: self.status.deep_view(),
        }
    }
}

impl Dup for Standing {
    fn dup(&self) -> (r: Self) {
        Standing {
            description: self.description.dup(),
            status: self.status.dup(),
        }
    }
}

impl Clone for Standing {
    fn clone(&self) -> (r: Self)
        ensures
            r.deep_view() == self.deep_view(),
    {
        self.dup()
    }
}

/// What one session's subscriber has been told.
pub struct Subscription {
    /// The last fact sent.
    pub high: u64,
    /// The members it was told joined and not yet told left.
    pub members: Names,
}

#[verifier::ext_equal]
pub struct SubscriptionView {
    pub high: u64,
    pub members: Set<Seq<char>>,
}

/// The sessions a handle follows.
pub struct Subscriptions {
    table: Table<Subscription>,
}

impl View for Subscriptions {
    type V = Map<Seq<char>, SubscriptionView>;

    closed spec fn view(&self) -> Map<Seq<char>, SubscriptionView> {
        Map::new(
            |k: Seq<char>| self.table@.dom().contains(k),
            |k: Seq<char>|
                SubscriptionView {
                    high: self.table@[k].high,
                    members: self.table@[k].members@,
                },
        )
    }
}

pub open spec fn fact_event(session: Seq<char>, e: LoggedEventView) -> AgentEventView {
    AgentEventView::Fact(CommittedView { session, seq: e.seq, event: e.event })
}

/// The entries of a log from sequence number `from` on.
pub open spec fn since(log: Seq<LoggedEventView>, from: u64) -> Seq<LoggedEventView>
    decreases log.len(),
{
    if log.len() == 0 {
        Seq::empty()
    } else {
        let before = since(log.drop_last(), from);
        if log.last().seq >= from {
            before.push(log.last())
        } else {
            before
        }
    }
}

/// The last sequence number a history from `from` on ends at.
pub open spec fn high_after(log: Seq<LoggedEventView>, from: u64) -> u64 {
    let sent = since(log, from);
    if sent.len() > 0 {
        sent.last().seq
    } else if from > 0 {
        (from - 1) as u64
    } else {
        0
    }
}

pub open spec fn facts_of(session: Seq<char>, log: Seq<LoggedEventView>) -> Seq<AgentEventView> {
    Seq::new(log.len(), |i: int| fact_event(session, log[i]))
}

/// A member is announced with its description and what it is doing, unless it was
/// before.
pub open spec fn joining(seen: Set<Seq<char>>, m: StandingView) -> Seq<AgentEventView> {
    if seen.contains(m.description.session) {
        Seq::empty()
    } else {
        seq![
            AgentEventView::AgentAdded { description: m.description },
            AgentEventView::StatusChanged { session: m.description.session, status: m.status },
        ]
    }
}

/// The members of `session` among `agents`, each announced once.
pub open spec fn joined(session: Seq<char>, agents: Seq<StandingView>) -> (
    Seq<AgentEventView>,
    Set<Seq<char>>,
)
    decreases agents.len(),
{
    if agents.len() == 0 {
        (Seq::empty(), Set::empty())
    } else {
        let (told, seen) = joined(session, agents.drop_last());
        let m = agents.last();
        if m.description.parent == Some(session) {
            (told + joining(seen, m), seen.insert(m.description.session))
        } else {
            (told, seen)
        }
    }
}

/// The picture a new subscriber starts from: the agent, its members, its history.
pub open spec fn opening(
    session: Seq<char>,
    from: u64,
    target: StandingView,
    agents: Seq<StandingView>,
    log: Seq<LoggedEventView>,
) -> Seq<AgentEventView> {
    seq![
        AgentEventView::Described { description: target.description },
        AgentEventView::StatusChanged { session, status: target.status },
    ] + joined(session, agents).0 + facts_of(session, since(log, from))
}

fn child_of(d: &Description, session: &str) -> (r: bool)
    ensures
        r == (d.deep_view().parent == Some(session@)),
{
    match &d.parent {
        Some(p) => same(p.as_str(), session),
        None => false,
    }
}

fn announce_member(seen: &mut Names, member: &Standing, out: &mut Vec<AgentEvent>)
    ensures
        final(out).deep_view() == old(out).deep_view() + joining(old(seen)@, member.deep_view()),
        final(seen)@ == old(seen)@.insert(member.description.session@),
{
    if seen.insert(member.description.session.clone()) {
        put(out, AgentEvent::AgentAdded { description: member.description.dup() });
        put(
            out,
            AgentEvent::StatusChanged {
                session: member.description.session.clone(),
                status: member.status,
            },
        );
    }
    assert(out.deep_view() =~= old(out).deep_view() + joining(old(seen)@, member.deep_view()));
}

/// What is followed, by the session it is followed in.
pub type Followed = Map<Seq<char>, SubscriptionView>;

/// What is followed once `session` is followed from `from`.
pub open spec fn subscribed(
    m: Followed,
    session: Seq<char>,
    from: u64,
    agents: Seq<StandingView>,
    log: Seq<LoggedEventView>,
) -> Followed {
    m.insert(
        session,
        SubscriptionView { high: high_after(log, from), members: joined(session, agents).1 },
    )
}

/// What is followed after a fact, and what is sent of it.
pub open spec fn heard(m: Followed, fact: CommittedView) -> (Followed, Seq<AgentEventView>) {
    let s = fact.session;
    if m.dom().contains(s) && fact.seq > m[s].high {
        (
            m.insert(s, SubscriptionView { high: fact.seq, members: m[s].members }),
            seq![AgentEventView::Fact(fact)],
        )
    } else {
        (m, Seq::empty())
    }
}

/// What is followed after an agent was created, and what is sent of it.
pub open spec fn added(m: Followed, member: StandingView) -> (Followed, Seq<AgentEventView>) {
    let d = member.description;
    match d.parent {
        Some(p) if m.dom().contains(p) => (
            m.insert(p, SubscriptionView { members: m[p].members.insert(d.session), ..m[p] }),
            joining(m[p].members, member),
        ),
        _ => (m, Seq::empty()),
    }
}

/// What is followed after an agent is gone, and what is sent of it.
pub open spec fn removed(m: Followed, session: Seq<char>, parent: Option<Seq<char>>) -> (
    Followed,
    Seq<AgentEventView>,
) {
    match parent {
        Some(p) if m.dom().contains(p) && m[p].members.contains(session) => (
            m.insert(p, SubscriptionView { members: m[p].members.remove(session), ..m[p] }),
            seq![AgentEventView::AgentRemoved { session }],
        ),
        _ => (m, Seq::empty()),
    }
}

/// What is sent of an agent that began or stopped working.
pub open spec fn status_told(
    m: Followed,
    session: Seq<char>,
    parent: Option<Seq<char>>,
    status: AgentStatus,
) -> Seq<AgentEventView> {
    if m.dom().contains(session) || (parent matches Some(p) && m.dom().contains(p)
        && m[p].members.contains(session)) {
        seq![AgentEventView::StatusChanged { session, status }]
    } else {
        Seq::empty()
    }
}

impl Subscriptions {
    pub fn new() -> (s: Self)
        ensures
            s@ == Map::<Seq<char>, SubscriptionView>::empty(),
    {
        let s = Subscriptions { table: Table::new() };
        assert(s@ =~= Map::<Seq<char>, SubscriptionView>::empty());
        s
    }

    /// Starts following `session` from sequence number `from`.
    pub fn subscribe(
        &mut self,
        session: &str,
        from: u64,
        target: &Standing,
        agents: &Vec<Standing>,
        log: &Vec<LoggedEvent>,
    ) -> (out: Vec<AgentEvent>)
        ensures
            out.deep_view() == opening(
                session@,
                from,
                target.deep_view(),
                agents.deep_view(),
                log.deep_view(),
            ),
            final(self)@ == subscribed(
                old(self)@,
                session@,
                from,
                agents.deep_view(),
                log.deep_view(),
            ),
    {
        let mut out = one_of(AgentEvent::Described { description: target.description.dup() });
        put(&mut out, AgentEvent::StatusChanged { session: lit(session), status: target.status });
        let ghost head = out.deep_view();
        assert(head =~= seq![head[0], head[1]]);
        let mut seen = Names::new();
        let ghost roster = agents.deep_view();
        let mut i: usize = 0;
        assert(roster.take(0) =~= Seq::<StandingView>::empty());
        assert(out.deep_view() =~= head + joined(session@, roster.take(0)).0);
        while i < agents.len()
            invariant
                i <= agents.len(),
                roster == agents.deep_view(),
                out.deep_view() == head + joined(session@, roster.take(i as int)).0,
                seen@ == joined(session@, roster.take(i as int)).1,
            decreases agents.len() - i,
        {
            assert(roster.take(i + 1).drop_last() =~= roster.take(i as int));
            assert(roster.take(i + 1).last() == agents@[i as int].deep_view());
            if child_of(&agents[i].description, session) {
                announce_member(&mut seen, &agents[i], &mut out);
                assert(out.deep_view() =~= head + joined(session@, roster.take(i + 1)).0);
            }
            i = i + 1;
        }
        assert(roster.take(i as int) =~= roster);
        let ghost told = out.deep_view();
        let ghost all = log.deep_view();
        let mut high: u64 = if from > 0 {
            from - 1
        } else {
            0
        };
        let mut k: usize = 0;
        assert(all.take(0) =~= Seq::<LoggedEventView>::empty());
        assert(out.deep_view() =~= told + facts_of(session@, since(all.take(0), from)));
        while k < log.len()
            invariant
                k <= log.len(),
                all == log.deep_view(),
                out.deep_view() == told + facts_of(session@, since(all.take(k as int), from)),
                high == high_after(all.take(k as int), from),
            decreases log.len() - k,
        {
            assert(all.take(k + 1).drop_last() =~= all.take(k as int));
            assert(all.take(k + 1).last() == log@[k as int].deep_view());
            let one = &log[k];
            if one.seq >= from {
                high = one.seq;
                put(
                    &mut out,
                    AgentEvent::Fact(
                        Committed {
                            session: lit(session),
                            seq: one.seq,
                            event: one.event.dup(),
                        },
                    ),
                );
                assert(out.deep_view() =~= told + facts_of(session@, since(all.take(k + 1), from)));
            }
            k = k + 1;
        }
        assert(all.take(k as int) =~= all);
        self.table.insert(lit(session), Subscription { high, members: seen });
        assert(self@ =~= old(self)@.insert(
            session@,
            SubscriptionView {
                high: high_after(log.deep_view(), from),
                members: crate::subscriptions::joined(session@, agents.deep_view()).1,
            },
        ));
        out
    }

    /// Stops following `session`.
    pub fn unsubscribe(&mut self, session: &str)
        ensures
            final(self)@ == old(self)@.remove(session@),
    {
        let _ = self.table.remove(session);
        assert(self@ =~= old(self)@.remove(session@));
    }

    /// A fact was committed somewhere: sent on where its session is followed and it
    /// was not sent before.
    pub fn on_fact(&mut self, fact: &Committed) -> (out: Vec<AgentEvent>)
        ensures
            (final(self)@, out.deep_view()) == heard(old(self)@, fact.deep_view()),
    {
        let news = match self.table.get(fact.session.as_str()) {
            Some(s) => fact.seq > s.high,
            None => false,
        };
        if news {
            match self.table.remove(fact.session.as_str()) {
                Some(s) => {
                    let members = s.members;
                    self.table.insert(
                        fact.session.clone(),
                        Subscription { high: fact.seq, members },
                    );
                },
                None => {},
            }
            assert(self@ =~= old(self)@.insert(
                fact.session@,
                SubscriptionView {
                    high: fact.seq,
                    members: old(self)@[fact.session@].members,
                },
            ));
            one_of(AgentEvent::Fact(fact.dup()))
        } else {
            none_of()
        }
    }

    /// An agent was created.
    pub fn on_added(&mut self, member: &Standing) -> (out: Vec<AgentEvent>)
        ensures
            (final(self)@, out.deep_view()) == added(old(self)@, member.deep_view()),
    {
        let mut out: Vec<AgentEvent> = none_of();
        match &member.description.parent {
            Some(p) => match self.table.remove(p.as_str()) {
                Some(s) => {
                    let mut s = s;
                    announce_member(&mut s.members, member, &mut out);
                    assert(out.deep_view() =~= joining(
                        old(self)@[p@].members,
                        member.deep_view(),
                    ));
                    self.table.insert(p.clone(), s);
                    assert(self@ =~= old(self)@.insert(
                        p@,
                        SubscriptionView {
                            members: old(self)@[p@].members.insert(member.description.session@),
                            ..old(self)@[p@]
                        },
                    ));
                },
                None => {
                    assert(self@ =~= old(self)@);
                },
            },
            None => {},
        }
        out
    }

    /// An agent is gone.
    pub fn on_removed(&mut self, session: &str, parent: &Option<String>) -> (out: Vec<AgentEvent>)
        ensures
            (final(self)@, out.deep_view()) == removed(
                old(self)@,
                session@,
                parent.deep_view(),
            ),
    {
        match parent {
            Some(p) => match self.table.remove(p.as_str()) {
                Some(s) => {
                    let mut s = s;
                    let told = s.members.remove(session);
                    self.table.insert(p.clone(), s);
                    if told {
                        assert(self@ =~= old(self)@.insert(
                            p@,
                            SubscriptionView {
                                members: old(self)@[p@].members.remove(session@),
                                ..old(self)@[p@]
                            },
                        ));
                        one_of(AgentEvent::AgentRemoved { session: lit(session) })
                    } else {
                        assert(old(self)@[p@].members.remove(session@) =~= old(
                            self,
                        )@[p@].members);
                        assert(self@ =~= old(self)@);
                        none_of()
                    }
                },
                None => {
                    assert(self@ =~= old(self)@);
                    none_of()
                },
            },
            None => none_of(),
        }
    }

    /// An agent began or stopped working. Told of a followed session, and of a
    /// member its follower knows.
    pub fn on_status(&self, session: &str, parent: &Option<String>, status: AgentStatus) -> (out:
        Vec<AgentEvent>)
        ensures
            out.deep_view() == status_told(self@, session@, parent.deep_view(), status),
    {
        let followed = self.table.contains_key(session) || (match parent {
            Some(p) => match self.table.get(p.as_str()) {
                Some(s) => s.members.contains(session),
                None => false,
            },
            None => false,
        });
        if followed {
            one_of(AgentEvent::StatusChanged { session: lit(session), status })
        } else {
            none_of()
        }
    }
}

// ---- what holds of it -----------------------------------------------------

/// The live facts a follower is sent once its history ended at `high`.
pub open spec fn followed(high: u64, live: Seq<LoggedEventView>) -> (Seq<LoggedEventView>, u64)
    decreases live.len(),
{
    if live.len() == 0 {
        (Seq::empty(), high)
    } else {
        let (sent, h) = followed(high, live.drop_last());
        if live.last().seq > h {
            (sent.push(live.last()), live.last().seq)
        } else {
            (sent, h)
        }
    }
}

proof fn lemma_in_order_front(log: Seq<LoggedEventView>)
    requires
        log::in_order(log),
        log.len() > 0,
    ensures
        log::in_order(log.drop_last()),
        forall|i: int| 0 <= i < log.len() - 1 ==> (#[trigger] log[i]).seq < log.last().seq,
{
    let f = log.drop_last();
    assert forall|i: int, j: int| 0 <= i < j < f.len() implies f[i].seq < f[j].seq by {
        assert(f[i] == log[i] && f[j] == log[j]);
    }
}

proof fn lemma_since_is_below(log: Seq<LoggedEventView>, from: u64, bound: u64)
    requires
        forall|i: int| 0 <= i < log.len() ==> (#[trigger] log[i]).seq < bound,
    ensures
        forall|i: int| 0 <= i < since(log, from).len() ==> (#[trigger] since(log, from)[i]).seq
            < bound,
    decreases log.len(),
{
    if log.len() > 0 {
        assert forall|i: int| 0 <= i < log.drop_last().len() implies (
        #[trigger] log.drop_last()[i]).seq < bound by {
            assert(log.drop_last()[i] == log[i]);
        }
        lemma_since_is_below(log.drop_last(), from, bound);
        assert(log[log.len() - 1].seq < bound);
    }
}

proof fn lemma_high(log: Seq<LoggedEventView>, live: Seq<LoggedEventView>, from: u64)
    requires
        log::in_order(log + live),
        from >= 1 || forall|i: int| 0 <= i < live.len() ==> (#[trigger] live[i]).seq >= 1,
    ensures
        since(log + live, from) == since(log, from) + followed(high_after(log, from), live).0,
        followed(high_after(log, from), live).1 == high_after(log + live, from),
    decreases live.len(),
{
    if live.len() == 0 {
        assert(log + live =~= log);
        assert(since(log, from) + Seq::<LoggedEventView>::empty() =~= since(log, from));
    } else {
        let whole = log + live;
        assert(whole.drop_last() =~= log + live.drop_last());
        assert(whole.last() == live.last());
        lemma_in_order_front(whole);
        assert forall|i: int| 0 <= i < live.drop_last().len() && from == 0 implies (
        #[trigger] live.drop_last()[i]).seq >= 1 by {
            assert(live.drop_last()[i] == live[i]);
        }
        lemma_high(log, live.drop_last(), from);
        let h = high_after(whole.drop_last(), from);
        let last = live.last();
        assert forall|i: int| 0 <= i < whole.drop_last().len() implies (
        #[trigger] whole.drop_last()[i]).seq < last.seq by {
            assert(whole.drop_last()[i] == whole[i]);
        }
        lemma_since_is_below(whole.drop_last(), from, last.seq);
        assert(live[live.len() - 1] == last);
        let sent = since(whole.drop_last(), from);
        if sent.len() > 0 {
            assert(sent[sent.len() - 1].seq < last.seq);
            lemma_since_from(whole.drop_last(), from);
            assert(sent[sent.len() - 1].seq >= from);
        }
        if last.seq >= from {
            assert(last.seq > h);
            assert(since(log, from) + followed(high_after(log, from), live.drop_last()).0.push(last)
                =~= (since(log, from) + followed(high_after(log, from), live.drop_last()).0).push(
                last,
            ));
        } else {
            assert(sent.len() == 0);
            assert(last.seq <= h);
        }
    }
}

proof fn lemma_since_from(log: Seq<LoggedEventView>, from: u64)
    ensures
        forall|i: int| 0 <= i < since(log, from).len() ==> (#[trigger] since(log, from)[i]).seq
            >= from,
    decreases log.len(),
{
    if log.len() > 0 {
        lemma_since_from(log.drop_last(), from);
    }
}

/// History and live facts meet with no gap and no repeat: what a follower is sent,
/// taken together, is exactly what the log holds from `from` on, in order, each once.
pub proof fn law_no_gap_no_repeat(
    log: Seq<LoggedEventView>,
    live: Seq<LoggedEventView>,
    from: u64,
)
    requires
        log::in_order(log + live),
        from >= 1 || forall|i: int| 0 <= i < live.len() ==> (#[trigger] live[i]).seq >= 1,
    ensures
        since(log, from) + followed(high_after(log, from), live).0 == since(log + live, from),
{
    lemma_high(log, live, from);
}

/// A member is announced once: a second time adds nothing.
pub proof fn law_member_is_announced_once(seen: Set<Seq<char>>, m: StandingView)
    ensures
        joining(seen.insert(m.description.session), m).len() == 0,
{
}

} // verus!
