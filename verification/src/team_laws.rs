//! What a team is for: work reaches the member it was given to, and what a member did
//! reaches its lead.
use crate::effort::ReasoningEffort;
use crate::events::{
    CommittedView, InjectionOriginView, LoggedEventView, SessionEventView, StopReason,
};
use crate::occurrence;
use crate::occurrence::in_order;
use crate::roles;
use crate::team;
use crate::team::{
    DelegatingView, MemberNowView, MemberSpecView, MemberView, MembersView, SeatView,
    TeamActionView, TeamArgsView, TeamToolView,
};
use crate::text;
use vstd::prelude::*;

verus! {

// ---- the words of a member ------------------------------------------------

/// A fact in which an agent says something.
pub open spec fn speaks(e: LoggedEventView) -> bool {
    e.event matches SessionEventView::AssistantMessage { text, .. } && !text::is_blank(text)
}

/// An agent's last words are those of the last message in which it said something; it
/// has none only where it never did.
pub proof fn law_last_words_are_the_last(events: Seq<LoggedEventView>)
    ensures
        match team::last_words(events) {
            Some(w) => exists|i: int|
                {
                    &&& 0 <= i < events.len()
                    &&& speaks(#[trigger] events[i])
                    &&& events[i].event matches SessionEventView::AssistantMessage { text, .. }
                        && text == w
                    &&& forall|j: int| i < j < events.len() ==> !speaks(#[trigger] events[j])
                },
            None => forall|i: int| 0 <= i < events.len() ==> !speaks(#[trigger] events[i]),
        },
    decreases events.len(),
{
    if events.len() > 0 {
        let front = events.drop_last();
        let k = events.len() - 1;
        law_last_words_are_the_last(front);
        if speaks(events[k]) {
            assert(events[k] == events.last());
        } else {
            match team::last_words(front) {
                Some(w) => {
                    let i = choose|i: int|
                        {
                            &&& 0 <= i < front.len()
                            &&& speaks(#[trigger] front[i])
                            &&& front[i].event matches SessionEventView::AssistantMessage {
                                text,
                                ..
                            } && text == w
                            &&& forall|j: int|
                                i < j < front.len() ==> !speaks(#[trigger] front[j])
                        };
                    assert(events[i] == front[i]);
                    assert forall|j: int| i < j < events.len() implies !speaks(
                        #[trigger] events[j],
                    ) by {
                        if j < k {
                            assert(front[j] == events[j]);
                        }
                    }
                },
                None => {
                    assert forall|i: int| 0 <= i < events.len() implies !speaks(
                        #[trigger] events[i],
                    ) by {
                        if i < k {
                            assert(front[i] == events[i]);
                        }
                    }
                },
            }
        }
    }
}

/// A fact that brings word of another agent into a turn.
pub open spec fn comes_from(e: LoggedEventView, turn: u64, who: Seq<char>) -> bool {
    e.event matches SessionEventView::Injected { turn: t, origin, .. } && t == turn && origin == (
    InjectionOriginView::Peer { from: who })
}

// ---- who is on a team -----------------------------------------------------

/// Who a lead has is who was last given to it, and of other leads nothing changes.
proof fn lemma_with_team(
    m: MembersView,
    lead: Seq<char>,
    members: Seq<MemberView>,
    other: Seq<char>,
)
    ensures
        ({
            let after = MembersView { teams: team::with_team(m.teams, lead, members), ..m };
            &&& team::team_of(after, lead) == Some(members)
            &&& team::team(after, lead) == members
            &&& other != lead ==> team::team_of(after, other) == team::team_of(m, other)
            &&& other != lead ==> team::team(after, other) == team::team(m, other)
        }),
{
    let after = team::with_team(m.teams, lead, members);
    let a = team::leads(m.teams);
    let b = team::leads(after);
    let k = team::index_in(a, lead) as int;
    team::lemma_index_is_first(a, lead);
    team::lemma_index_is_first(a, other);
    if k < m.teams.len() {
        assert(b =~= a);
    } else {
        assert(b =~= a.push(lead));
    }
    team::lemma_index_in(b, lead, k);
    if other != lead {
        let j = team::index_in(a, other) as int;
        if j < a.len() {
            team::lemma_index_in(b, other, j);
            assert(after[j] == m.teams[j]);
        } else {
            assert forall|i: int| 0 <= i < b.len() implies #[trigger] b[i] != other by {
                if i < a.len() {
                    assert(b[i] == a[i]);
                }
            }
            team::lemma_index_in(b, other, b.len() as int);
        }
    }
}

/// Who is found by a name has it.
pub proof fn law_a_name_finds_its_member(members: Seq<MemberView>, name: Seq<char>)
    ensures
        team::has_member(members, name) <==> exists|i: int|
            0 <= i < members.len() && (#[trigger] members[i]).name == name,
        team::has_member(members, name) ==> members[team::index_in(
            team::names(members),
            name,
        ) as int].name == name,
{
    let all = team::names(members);
    team::lemma_index_is_first(all, name);
    if team::has_member(members, name) {
        let k = team::index_in(all, name) as int;
        assert(members[k].name == all[k]);
    } else {
        assert forall|i: int| 0 <= i < members.len() implies (#[trigger] members[i]).name
            != name by {
            assert(all[i] == members[i].name);
        }
    }
}

/// A member that joins is on its lead's team under its name, and is found by its
/// session; whoever was there under another name still is, and other teams are as they
/// were.
pub proof fn law_a_member_that_joins_is_there(
    m: MembersView,
    lead: Seq<char>,
    member: MemberView,
    other: Seq<char>,
)
    ensures
        ({
            let after = team::joined_team(m, lead, member);
            &&& team::team(after, lead).contains(member)
            &&& forall|i: int|
                0 <= i < team::team(m, lead).len() && (#[trigger] team::team(m, lead)[i]).name
                    != member.name ==> team::team(after, lead).contains(team::team(m, lead)[i])
            &&& forall|i: int|
                0 <= i < team::team(after, lead).len() ==> #[trigger] team::team(after, lead)[i]
                    == member || team::team(m, lead).contains(team::team(after, lead)[i])
            &&& team::seat_of(after, member.session) == Some(
                SeatView { session: member.session, lead, name: member.name },
            )
            &&& other != lead ==> team::team(after, other) == team::team(m, other)
            &&& other != member.session ==> team::seat_of(after, other) == team::seat_of(m, other)
        }),
{
    let mine = team::team(m, lead);
    lemma_with_team(m, lead, team::seated(mine, member), other);
    let after = team::joined_team(m, lead, member);
    let half = MembersView { teams: after.teams, ..m };
    assert(team::team(after, lead) == team::team(half, lead));
    assert(team::team(after, other) == team::team(half, other));
    lemma_seated_holds(mine, member);
    let a = team::sessions(m.seats);
    let b = team::sessions(after.seats);
    let k = team::index_in(a, member.session) as int;
    team::lemma_index_is_first(a, member.session);
    team::lemma_index_is_first(a, other);
    if k < m.seats.len() {
        assert(b =~= a);
    } else {
        assert(b =~= a.push(member.session));
    }
    team::lemma_index_in(b, member.session, k);
    if other != member.session {
        let j = team::index_in(a, other) as int;
        if j < a.len() {
            team::lemma_index_in(b, other, j);
        } else {
            assert forall|i: int| 0 <= i < b.len() implies #[trigger] b[i] != other by {
                if i < a.len() {
                    assert(b[i] == a[i]);
                }
            }
            team::lemma_index_in(b, other, b.len() as int);
        }
    }
}

proof fn lemma_seated_holds(mine: Seq<MemberView>, member: MemberView)
    ensures
        ({
            let after = team::seated(mine, member);
            &&& after.contains(member)
            &&& forall|i: int|
                0 <= i < mine.len() && (#[trigger] mine[i]).name != member.name ==> after.contains(
                    mine[i],
                )
            &&& forall|i: int|
                0 <= i < after.len() ==> #[trigger] after[i] == member || mine.contains(after[i])
        }),
    decreases mine.len(),
{
    let after = team::seated(mine, member);
    if mine.len() == 0 {
        assert(after[0] == member);
    } else if mine[0].name == member.name {
        assert(after[0] == member);
        assert forall|i: int| 0 <= i < mine.len() && (#[trigger] mine[i]).name
            != member.name implies after.contains(mine[i]) by {
            assert(after[i] == mine[i]);
        }
        assert forall|i: int| 0 <= i < after.len() implies #[trigger] after[i] == member
            || mine.contains(after[i]) by {
            if i > 0 {
                assert(mine[i] == after[i]);
            }
        }
    } else if crate::order::below(member.name, mine[0].name) {
        assert(after[0] == member);
        assert forall|i: int| 0 <= i < mine.len() && (#[trigger] mine[i]).name
            != member.name implies after.contains(mine[i]) by {
            assert(after[i + 1] == mine[i]);
        }
        assert forall|i: int| 0 <= i < after.len() implies #[trigger] after[i] == member
            || mine.contains(after[i]) by {
            if i > 0 {
                assert(mine[i - 1] == after[i]);
            }
        }
    } else {
        let rest = mine.skip(1);
        let then = team::seated(rest, member);
        lemma_seated_holds(rest, member);
        let k = choose|k: int| 0 <= k < then.len() && then[k] == member;
        assert(after[k + 1] == member);
        assert forall|i: int| 0 <= i < mine.len() && (#[trigger] mine[i]).name
            != member.name implies after.contains(mine[i]) by {
            if i == 0 {
                assert(after[0] == mine[0]);
            } else {
                assert(rest[i - 1] == mine[i]);
                let j = choose|j: int| 0 <= j < then.len() && then[j] == mine[i];
                assert(after[j + 1] == mine[i]);
            }
        }
        assert forall|i: int| 0 <= i < after.len() implies #[trigger] after[i] == member
            || mine.contains(after[i]) by {
            if i == 0 {
                assert(mine[0] == after[0]);
            } else {
                assert(then[i - 1] == after[i]);
                if then[i - 1] != member {
                    let j = choose|j: int| 0 <= j < rest.len() && rest[j] == then[i - 1];
                    assert(mine[j + 1] == after[i]);
                }
            }
        }
    }
}

/// A member that was stopped is off the team, and nobody else is: where no name was
/// given, everyone is stopped, and a name nobody has stops nobody.
pub proof fn law_stopping_takes_who_was_named(
    m: MembersView,
    lead: Seq<char>,
    name: Option<Seq<char>>,
    other: Seq<char>,
)
    requires
        team::team_of(m, lead) is Some,
    ensures
        ({
            let mine = team::team(m, lead);
            let left = team::team(team::after_taking(m, lead, name), lead);
            &&& match name {
                None => team::taken(m, lead, name) == Ok::<
                    Option<Seq<MemberView>>,
                    Seq<char>,
                >(Some(mine)) && left.len() == 0,
                Some(n) => if team::has_member(mine, n) {
                    &&& team::taken(m, lead, name) matches Ok(Some(gone)) && {
                        &&& gone.len() == 1
                        &&& gone[0].name == n
                        &&& mine.contains(gone[0])
                        &&& left.len() == mine.len() - 1
                        &&& forall|i: int|
                            0 <= i < mine.len() && (#[trigger] mine[i]).name != n
                                ==> left.contains(mine[i])
                        &&& forall|i: int|
                            0 <= i < left.len() ==> mine.contains(#[trigger] left[i])
                    }
                } else {
                    &&& team::taken(m, lead, name) is Err
                    &&& left == mine
                },
            }
            &&& other != lead ==> team::team(team::after_taking(m, lead, name), other)
                == team::team(m, other)
        }),
{
    let mine = team::team(m, lead);
    let after = team::after_taking(m, lead, name);
    match name {
        None => {
            lemma_with_team(m, lead, Seq::empty(), other);
        },
        Some(n) => {
            law_a_name_finds_its_member(mine, n);
            if team::has_member(mine, n) {
                let k = team::index_in(team::names(mine), n) as int;
                let left = mine.remove(k);
                lemma_with_team(m, lead, left, other);
                assert(mine[k].name == n);
                assert forall|i: int| 0 <= i < mine.len() && (#[trigger] mine[i]).name
                    != n implies left.contains(mine[i]) by {
                    if i < k {
                        assert(left[i] == mine[i]);
                    } else {
                        assert(left[i - 1] == mine[i]);
                    }
                }
                assert forall|i: int| 0 <= i < left.len() implies mine.contains(
                    #[trigger] left[i],
                ) by {
                    if i < k {
                        assert(mine[i] == left[i]);
                    } else {
                        assert(mine[i + 1] == left[i]);
                    }
                }
            }
        },
    }
}

// ---- a lead and its members -----------------------------------------------

/// A message goes to the member it names, word for word, and to nobody else; it is
/// refused exactly where it says nothing or nobody has the name.
pub proof fn law_a_message_reaches_its_member(
    m: MembersView,
    lead: Seq<char>,
    args: TeamArgsView,
    name: Seq<char>,
    words: Seq<char>,
)
    requires
        args.name == Some(name),
        args.text == Some(words),
    ensures
        match team::telling(m, lead, args) {
            Ok((session, said)) => {
                &&& !text::is_blank(words)
                &&& said == words
                &&& exists|i: int|
                    0 <= i < team::team(m, lead).len() && (#[trigger] team::team(
                        m,
                        lead,
                    )[i]).name == name && team::team(m, lead)[i].session == session
            },
            Err(_) => text::is_blank(words) || forall|i: int|
                0 <= i < team::team(m, lead).len() ==> (#[trigger] team::team(m, lead)[i]).name
                    != name,
        },
{
    law_a_name_finds_its_member(team::team(m, lead), name);
}

/// What is noted of a member is noted of it alone.
proof fn lemma_marked(m: MembersView, lead: Seq<char>, name: Seq<char>, told: bool, other: Seq<char>)
    requires
        team::has_member(team::team(m, lead), name),
    ensures
        ({
            let after = team::marked(m, lead, name, told);
            let mine = team::team(m, lead);
            let k = team::index_in(team::names(mine), name) as int;
            &&& after.seats == m.seats
            &&& team::team(after, lead) == mine.update(k, MemberView { told, ..mine[k] })
            &&& team::index_in(team::names(team::team(after, lead)), name) == k
            &&& other != lead ==> team::team(after, other) == team::team(m, other)
        }),
{
    let mine = team::team(m, lead);
    let k = team::index_in(team::names(mine), name) as int;
    let now = team::with_told(mine, k, told);
    lemma_with_team(m, lead, now, other);
    assert(team::names(now) =~= team::names(mine));
}

/// A member that told its lead itself is not reported a second time when its turn ends,
/// and one that did not is: its lead hears that it finished, how, and its last words.
#[verifier::spinoff_prover]
#[verifier::rlimit(40)]
pub proof fn law_a_finish_is_told_once(
    m: MembersView,
    session: Seq<char>,
    turn: u64,
    stop: StopReason,
    events: Seq<LoggedEventView>,
    s: SeatView,
)
    requires
        team::seat_of(m, session) == Some(s),
        team::has_member(team::team(m, s.lead), s.name),
    ensures
        team::on_turn_end(
            team::marked(m, s.lead, s.name, true),
            session,
            turn,
            stop,
            events,
            true,
        ).1 is Nothing,
        ({
            let (after, action) = team::on_turn_end(
                team::marked(m, s.lead, s.name, false),
                session,
                turn,
                stop,
                events,
                true,
            );
            let asked = exists|i: int|
                0 <= i < events.len() && comes_from(#[trigger] events[i], turn, s.lead);
            let words = match team::last_words(events) {
                Some(w) => w,
                None => "(nothing)"@,
            };
            match action {
                TeamActionView::Message { lead, name, text } => {
                    &&& asked && !(stop is Cancelled)
                    &&& lead == s.lead && name == s.name
                    &&& in_order(text, seq![s.name, text::decimal(turn as nat), words])
                    &&& words.is_suffix_of(text)
                },
                TeamActionView::Note { lead, text, origin } => {
                    &&& !asked || stop is Cancelled
                    &&& lead == s.lead
                    &&& origin == (InjectionOriginView::TeamNote { member: s.name })
                    &&& in_order(text, seq![s.name, text::decimal(turn as nat), words])
                    &&& words.is_suffix_of(text)
                },
                _ => false,
            }
        }),
        team::on_turn_end(m, session, turn, stop, events, false).1 is Nothing,
{
    lemma_marked(m, s.lead, s.name, true, s.lead);
    lemma_marked(m, s.lead, s.name, false, s.lead);
    let words = match team::last_words(events) {
        Some(w) => w,
        None => "(nothing)"@,
    };
    let n = text::decimal(turn as nat);
    let text = team::finished_report(s.name, turn, stop, team::last_words(events));
    let none = Seq::<char>::empty();
    let tail = ": "@ + crate::log::stop_name(stop) + "]\n"@;
    occurrence::lemma_within("["@, s.name, " finished turn "@);
    occurrence::lemma_within(none, n, tail);
    assert(none + n + tail =~= n + tail);
    occurrence::lemma_within(none, words, none);
    assert(none + words + none =~= words);
    occurrence::lemma_together("["@ + s.name + " finished turn "@, seq![s.name], n + tail, seq![n]);
    occurrence::lemma_together(
        ("["@ + s.name + " finished turn "@) + (n + tail),
        seq![s.name] + seq![n],
        words,
        seq![words],
    );
    assert(seq![s.name] + seq![n] + seq![words] =~= seq![s.name, n, words]);
    assert(text =~= ("["@ + s.name + " finished turn "@) + (n + tail) + words);
    assert(text.subrange(text.len() - words.len(), text.len() as int) =~= words);
}

/// A report is due again after the turn, and whoever else is on the team is untouched.
pub proof fn law_a_new_turn_is_a_new_report(
    m: MembersView,
    session: Seq<char>,
    turn: u64,
    stop: StopReason,
    events: Seq<LoggedEventView>,
    lead_live: bool,
    s: SeatView,
    other: Seq<char>,
)
    requires
        team::seat_of(m, session) == Some(s),
        team::has_member(team::team(m, s.lead), s.name),
    ensures
        ({
            let after = team::on_turn_end(m, session, turn, stop, events, lead_live).0;
            after == team::marked(m, s.lead, s.name, false) && after.seats == m.seats && (other
                != s.lead ==> team::team(after, other) == team::team(m, other))
        }),
{
    lemma_marked(m, s.lead, s.name, false, other);
}

/// What a person tells a member directly is passed on to its lead as it was said, under
/// the member's name.
pub proof fn law_a_lead_hears_what_its_members_are_told(
    m: MembersView,
    c: CommittedView,
    events: Seq<LoggedEventView>,
    s: SeatView,
    said: Seq<char>,
)
    requires
        c.event matches SessionEventView::UserMessage { text, .. } && text == said,
        team::seat_of(m, c.session) == Some(s),
    ensures
        team::heard(m, c, events, true) == (
            m,
            (TeamActionView::Note {
                lead: s.lead,
                text: said,
                origin: InjectionOriginView::PersonToMember { member: s.name },
            }),
        ),
        team::heard(m, c, events, false) == (m, TeamActionView::Nothing),
{
}

/// A turn of the lead that is taken back takes its members with it, and only those it
/// delegated; one that is not leaves them.
pub proof fn law_a_turn_taken_back_stops_its_members(
    m: MembersView,
    c: CommittedView,
    events: Seq<LoggedEventView>,
    turn: u64,
    undone: bool,
    name: Seq<char>,
)
    requires
        c.event == (SessionEventView::Interrupted { turn, undone }),
    ensures
        match team::heard(m, c, events, true).1 {
            TeamActionView::StopMembers { lead, names } => {
                &&& undone && lead == c.session
                &&& names.contains(name) <==> exists|i: int|
                    0 <= i < team::team(m, c.session).len() && (#[trigger] team::team(
                        m,
                        c.session,
                    )[i]).name == name && team::team(m, c.session)[i].delegated_in == Some(turn)
            },
            TeamActionView::Nothing => !undone,
            _ => false,
        },
{
    team::law_an_undone_turn_takes_its_members(team::team(m, c.session), turn, name);
}

/// A member a person stopped while it owed its lead a report is reported with what it
/// had said; one that owed nothing is only noted.
pub proof fn law_a_stopped_member_is_accounted_for(
    lead: Seq<char>,
    name: Seq<char>,
    owed: bool,
    words: Option<Seq<char>>,
)
    ensures
        match team::stopped_word(lead, name, owed, words) {
            TeamActionView::Message { lead: to, name: of, text } => {
                &&& owed && to == lead && of == name
                &&& text::holds(text, name)
                &&& words matches Some(w) ==> w.is_suffix_of(text)
            },
            TeamActionView::Note { lead: to, text, origin } => {
                &&& !owed && to == lead
                &&& origin == (InjectionOriginView::TeamNote { member: name })
                &&& text::holds(text, name)
            },
            _ => false,
        },
{
    match team::stopped_word(lead, name, owed, words) {
        TeamActionView::Message { text, .. } => {
            assert(text.subrange("["@.len() as int, ("["@.len() + name.len()) as int) =~= name);
            match words {
                Some(w) => {
                    assert(text.subrange(text.len() - w.len(), text.len() as int) =~= w);
                },
                None => {},
            }
        },
        TeamActionView::Note { text, .. } => {
            let a = "[the person stopped "@;
            assert(text.subrange(a.len() as int, (a.len() + name.len()) as int) =~= name);
        },
        _ => {},
    }
}

// ---- delegating -----------------------------------------------------------

/// A delegation is let through exactly where it names a member of its own, a role there
/// is and a task, says which files it may write where it shares them, and there is room;
/// and then it is for that name, role and task.
pub proof fn law_what_may_be_delegated(
    t: TeamToolView,
    mine: Seq<MemberView>,
    args: TeamArgsView,
)
    ensures
        match team::screened(t, mine, args) {
            Ok(d) => {
                &&& args.name == Some(d.name) && !text::is_blank(d.name) && team::is_name(d.name)
                &&& args.role == Some(d.role.id) && t.roles.contains(d.role)
                &&& args.task == Some(d.task) && !text::is_blank(d.task)
                &&& d.shares_workspace == (d.role.permission is Worker && !t.worktrees)
                &&& d.shares_workspace ==> d.scope.len() > 0
                &&& args.scope is None ==> d.scope.len() == 0
                &&& mine.len() < t.max_members
                &&& forall|i: int| 0 <= i < mine.len() ==> (#[trigger] mine[i]).name != d.name
            },
            Err(_) => {
                ||| args.name is None || text::is_blank(args.name->0) || !team::is_name(
                    args.name->0,
                )
                ||| args.role is None || forall|i: int|
                    0 <= i < t.roles.len() ==> (#[trigger] t.roles[i]).id != args.role->0
                ||| args.task is None || text::is_blank(args.task->0)
                ||| team::scope_of(args).len() == 0 && !t.worktrees
                ||| mine.len() >= t.max_members
                ||| exists|i: int|
                    0 <= i < mine.len() && (#[trigger] mine[i]).name == args.name->0
            },
        },
{
    match args.name {
        Some(name) => {
            law_a_name_finds_its_member(mine, name);
        },
        None => {},
    }
    match args.role {
        Some(id) => {
            roles::lemma_place_is_first(t.roles, id);
        },
        None => {},
    }
}

/// What a new member is given is what it was delegated: a session of its own under its
/// lead, its task as the first thing it hears, the tools of its role that there are and
/// no others, its checkout to work in, and its lane to write in. One that comes back
/// goes on with what it had and is told nothing new.
#[verifier::spinoff_prover]
#[verifier::rlimit(40)]
pub proof fn law_a_member_gets_what_it_was_delegated(
    s: MemberSpecView,
    lead: Seq<char>,
    mounted: Seq<Seq<char>>,
    effort: Option<ReasoningEffort>,
    chosen: bool,
    resuming: bool,
    lead_turn: u64,
    tool: Seq<char>,
)
    ensures
        ({
            let p = team::planned(s, lead, mounted, effort, chosen, resuming, lead_turn);
            &&& p.session == lead + "/"@ + s.name
            &&& p.member.session == p.session && p.member.name == s.name && p.member.role
                == s.role.id && !p.member.told
            &&& p.first == (if resuming {
                None
            } else {
                Some(s.task)
            })
            &&& p.member.delegated_in == (if resuming {
                None
            } else {
                Some(lead_turn)
            })
            &&& p.tools.contains(tool) <==> roles::tools_of(s.role).contains(tool)
                && mounted.contains(tool)
            &&& s.worktree matches Some((dir, _)) ==> p.cwd == Some(dir)
            &&& s.worktree is None ==> p.cwd is None
            &&& p.member.worktree == s.worktree
            &&& p.lane == s.lane
            &&& effort is Some ==> p.effort == effort
            &&& effort is None ==> p.effort == s.role.effort
            &&& in_order(p.prompt, seq![s.role.persona, s.name, s.role.id])
            &&& s.worktree matches Some((dir, branch)) ==> in_order(p.prompt, seq![dir, branch])
            &&& p.header.name == s.name && p.header.role == s.role.id && p.header.task == s.task
                && p.header.model == s.named && p.header.scope == s.scope
        }),
{
    lemma_handed_down(roles::tools_of(s.role), mounted, tool);
    let p = team::member_prompt(s);
    let none = Seq::<char>::empty();
    let tail = p.skip(
        (s.role.persona.len() + "\n\nYou are `"@.len() + s.name.len() + "`, a "@.len()
            + s.role.id.len()) as int,
    );
    occurrence::lemma_within(none, s.role.persona, "\n\nYou are `"@);
    assert(none + s.role.persona + "\n\nYou are `"@ =~= s.role.persona + "\n\nYou are `"@);
    occurrence::lemma_within(none, s.name, "`, a "@);
    assert(none + s.name + "`, a "@ =~= s.name + "`, a "@);
    occurrence::lemma_within(none, s.role.id, tail);
    assert(none + s.role.id + tail =~= s.role.id + tail);
    let a = s.role.persona + "\n\nYou are `"@;
    let b = s.name + "`, a "@;
    let c = s.role.id + tail;
    occurrence::lemma_together(a, seq![s.role.persona], b, seq![s.name]);
    occurrence::lemma_together(a + b, seq![s.role.persona] + seq![s.name], c, seq![s.role.id]);
    assert(p =~= a + b + c);
    assert(seq![s.role.persona] + seq![s.name] + seq![s.role.id] =~= seq![
        s.role.persona,
        s.name,
        s.role.id,
    ]);
    match s.worktree {
        Some((dir, branch)) => {
            let mid = " on branch `"@;
            let end = "`; the lead merges it. Commit nothing — just edit."@;
            let front = p.take(
                p.len() - dir.len() - mid.len() - branch.len() - end.len(),
            );
            occurrence::lemma_within(front, dir, mid);
            occurrence::lemma_within(none, branch, end);
            assert(none + branch + end =~= branch + end);
            occurrence::lemma_together(front + dir + mid, seq![dir], branch + end, seq![branch]);
            assert(p =~= front + dir + mid + (branch + end));
            assert(seq![dir] + seq![branch] =~= seq![dir, branch]);
        },
        None => {},
    }
}

proof fn lemma_handed_down(tools: Seq<Seq<char>>, mounted: Seq<Seq<char>>, tool: Seq<char>)
    ensures
        team::handed_down(tools, mounted).contains(tool) <==> tools.contains(tool)
            && mounted.contains(tool),
    decreases tools.len(),
{
    if tools.len() > 0 {
        let front = tools.drop_last();
        let a = team::handed_down(front, mounted);
        let b = team::handed_down(tools, mounted);
        lemma_handed_down(front, mounted, tool);
        if b.contains(tool) {
            let k = choose|k: int| 0 <= k < b.len() && b[k] == tool;
            if k < a.len() {
                assert(a[k] == tool);
                let j = choose|j: int| 0 <= j < front.len() && front[j] == tool;
                assert(tools[j] == tool);
            } else {
                assert(tools[tools.len() - 1] == tool);
            }
        }
        if tools.contains(tool) && mounted.contains(tool) {
            let j = choose|j: int| 0 <= j < tools.len() && tools[j] == tool;
            if j < front.len() {
                assert(front[j] == tool);
                let k = choose|k: int| 0 <= k < a.len() && a[k] == tool;
                assert(b[k] == tool);
            } else {
                assert(b[b.len() - 1] == tool);
            }
        }
    }
}

/// The model a call names comes before the one its role names.
pub proof fn law_the_call_overrules_the_role(
    d: DelegatingView,
    model: Seq<char>,
    asked: Option<Seq<char>>,
    worktree: Option<(Seq<char>, Seq<char>)>,
)
    requires
        crate::effort::given(Some(model)) == Some(model),
    ensures
        team::specified(d, Some(model), asked, worktree).named == Some(model),
        team::specified(d, None, asked, worktree).named == d.role.model,
        ({
            let s = team::specified(d, Some(model), asked, worktree);
            s.name == d.name && s.role == d.role && s.task == d.task && s.scope == d.scope
                && s.worktree == worktree && (d.shares_workspace ==> s.lane == d.scope)
        }),
{
}

/// Only delegating to someone who can do more than read is asked about.
pub proof fn law_writing_is_asked_about(t: TeamToolView, a: TeamArgsView, k: int)
    requires
        0 <= k < t.roles.len(),
        a.role == Some(t.roles[k].id),
        forall|i: int| 0 <= i < k ==> (#[trigger] t.roles[i]).id != t.roles[k].id,
    ensures
        a.action == "delegate"@ && t.roles[k].permission is Worker ==> team::risk_of(
            t,
            Some(a),
        ) is Risky,
        a.action != "delegate"@ ==> team::risk_of(t, Some(a)) is Safe,
        team::risk_of(t, None) is Risky,
{
    roles::lemma_place_is_first(t.roles, t.roles[k].id);
}

/// The status of a member says who it is, what it does and how far it is.
#[verifier::spinoff_prover]
pub proof fn law_the_status_is_the_members(m: MemberView, now: MemberNowView)
    ensures
        in_order(
            team::member_line(m, now),
            seq![
                m.name,
                m.role,
                now.status,
                text::decimal(now.turn as nat),
                text::decimal(now.events as nat),
            ],
        ),
{
    let line = team::member_line(m, now);
    let t = text::decimal(now.turn as nat);
    let e = text::decimal(now.events as nat);
    let a = m.name + " ("@;
    let b = a + m.role + "): "@;
    let c = b + now.status + ", turn "@;
    let d = c + t + ", "@;
    let f = d + e;
    let tail = line.skip(f.len() as int);
    assert(line =~= f + tail);
    let none = Seq::<char>::empty();
    let parts = Seq::<Seq<char>>::empty();
    occurrence::lemma_none(none);
    occurrence::lemma_one_more(none, parts, m.name, " ("@);
    assert(none + m.name + " ("@ =~= a);
    occurrence::lemma_one_more(a, parts.push(m.name), m.role, "): "@);
    occurrence::lemma_one_more(b, parts.push(m.name).push(m.role), now.status, ", turn "@);
    let three = parts.push(m.name).push(m.role).push(now.status);
    occurrence::lemma_one_more(c, three, t, ", "@);
    occurrence::lemma_one_more(d, three.push(t), e, tail);
    assert(three.push(t).push(e) =~= seq![m.name, m.role, now.status, t, e]);
}

/// The status of a member says where its checkout is, or else which files it writes, and
/// that work waits for it where it does.
#[verifier::spinoff_prover]
pub proof fn law_the_status_says_where(m: MemberView, now: MemberNowView)
    ensures
        now.queued ==> text::holds(team::member_line(m, now), ", work queued"@),
        m.worktree matches Some((dir, branch)) ==> in_order(
            team::member_line(m, now),
            seq![branch, dir],
        ),
        m.worktree is None ==> in_order(team::member_line(m, now), m.scope),
{
    let line = team::member_line(m, now);
    let front = m.name + " ("@ + m.role + "): "@ + now.status + ", turn "@ + text::decimal(
        now.turn as nat,
    ) + ", "@ + text::decimal(now.events as nat) + " event(s)"@;
    let queued = if now.queued {
        ", work queued"@
    } else {
        Seq::empty()
    };
    let none = Seq::<Seq<char>>::empty();
    if now.queued {
        assert(line.subrange(front.len() as int, (front.len() + queued.len()) as int)
            =~= queued);
    }
    match m.worktree {
        Some((dir, branch)) => {
            let a = front + queued + ", branch `"@;
            occurrence::lemma_none(a);
            occurrence::lemma_one_more(a, none, branch, "` at "@);
            occurrence::lemma_one_more(a + branch + "` at "@, none.push(branch), dir, Seq::empty());
            assert(line =~= a + branch + "` at "@ + dir + Seq::<char>::empty());
            assert(none.push(branch).push(dir) =~= seq![branch, dir]);
        },
        None => {
            if m.scope.len() > 0 {
                let a = front + queued + ", writes ["@;
                let b = text::joined(m.scope, ", "@);
                occurrence::lemma_none(a);
                occurrence::lemma_joined(m.scope, ", "@);
                occurrence::lemma_together(a, none, b, m.scope);
                occurrence::lemma_none("]"@);
                occurrence::lemma_together(a + b, none + m.scope, "]"@, none);
                assert(none + m.scope + none =~= m.scope);
                assert(line =~= a + b + "]"@);
            } else {
                occurrence::lemma_none(line);
                assert(m.scope =~= none);
            }
        },
    }
}

} // verus!
