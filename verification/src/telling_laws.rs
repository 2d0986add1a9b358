//! What is told: reports, prompts and refusals name what they are about, and what is read
//! is found where it was written.
use crate::asking;
use crate::asking::{Permission, ANSWER_ALLOW, ANSWER_ALWAYS, ANSWER_DENY};
use crate::calendar;
use crate::compaction;
use crate::events::{ChoiceView, InjectionOriginView, SessionEventView, SessionLogView, StopReason};
use crate::json;
use crate::json::JsonView;
use crate::llm;
use crate::llm::EndpointView;
use crate::log;
use crate::loop_policy;
use crate::occurrence;
use crate::policy;
use crate::policy::PassageView;
use crate::policy_rows;
use crate::recovery;
use crate::roles;
use crate::roles::{RoleFileView, RoleView};
use crate::self_knowledge;
use crate::self_knowledge::SessionFactsView;
use crate::session;
use crate::session::HeaderFactsView;
use crate::session_title;
use crate::span;
use crate::subagent;
use crate::subagent::ModelInfoView;
use crate::team;
use crate::team::{Action, MemberSpecView, MemberView, RemovalView};
use crate::text;
use crate::trace;
use crate::truncation;
use crate::turn::TurnOutcomeView;
use vstd::prelude::*;

verus! {

// ---- members --------------------------------------------------------------

/// A member is told who it is: its role's persona first, then its name, its role and, where
/// it has one, its checkout.
pub proof fn law_a_member_is_told_who_it_is(s: MemberSpecView)
    ensures
        s.role.persona.is_prefix_of(team::member_prompt(s)),
        occurrence::in_order(
            team::member_prompt(s),
            seq![s.role.persona, s.name, s.role.id],
        ),
        s.worktree matches Some(w) ==> occurrence::in_order(
            team::member_prompt(s),
            seq![s.role.persona, s.name, s.role.id, w.0, w.1],
        ),
{
    let all = team::member_prompt(s);
    let none = Seq::<char>::empty();
    let p = s.role.persona;
    assert(p =~= all.take(p.len() as int));
    let a = "\n\nYou are `"@;
    let b = "`, a "@;
    let c = " on a team. The lead delegated this to you. Use `tell_parent` for questions and progress, and call it with a compact report when you are done — the lead sees nothing else you do."@;
    occurrence::lemma_within(none, p, a);
    let s1 = none + p + a;
    occurrence::lemma_one_more(s1, seq![p], s.name, b);
    let s2 = s1 + s.name + b;
    occurrence::lemma_one_more(s2, seq![p].push(s.name), s.role.id, c);
    let s3 = s2 + s.role.id + c;
    let parts = seq![p].push(s.name).push(s.role.id);
    assert(parts =~= seq![p, s.name, s.role.id]);
    match s.worktree {
        Some((dir, branch)) => {
            let d = "\nYou work in your own checkout at "@;
            let e = " on branch `"@;
            let f = "`; the lead merges it. Commit nothing — just edit."@;
            occurrence::lemma_none(d);
            occurrence::lemma_together(s3, parts, d, Seq::empty());
            assert(parts + Seq::empty() =~= parts);
            occurrence::lemma_one_more(s3 + d, parts, dir, e);
            let s4 = s3 + d + dir + e;
            occurrence::lemma_one_more(s4, parts.push(dir), branch, f);
            assert(parts.push(dir).push(branch) =~= seq![p, s.name, s.role.id, dir, branch]);
            assert(all =~= s4 + branch + f);
            let rest = all.skip(s3.len() as int);
            occurrence::lemma_wrapped(none, s3, rest, parts);
            assert(all =~= none + s3 + rest);
        },
        None => {
            assert(all =~= s3);
        },
    }
}

/// A report of a turn says whose it was, which, how it ended and what was said last.
pub proof fn law_a_finish_says_who_and_what(
    name: Seq<char>,
    turn: u64,
    stop: StopReason,
    words: Option<Seq<char>>,
)
    ensures
        ({
            let r = team::finished_report(name, turn, stop, words);
            &&& occurrence::in_order(
                r,
                seq![name, text::decimal(turn as nat), log::stop_name(stop)],
            )
            &&& words matches Some(w) ==> w.is_suffix_of(r)
        }),
{
    let r = team::finished_report(name, turn, stop, words);
    let n = text::decimal(turn as nat);
    let how = log::stop_name(stop);
    let w = match words {
        Some(w) => w,
        None => "(nothing)"@,
    };
    occurrence::lemma_within("["@, name, " finished turn "@);
    let s1 = "["@ + name + " finished turn "@;
    occurrence::lemma_one_more(s1, seq![name], n, ": "@);
    let s2 = s1 + n + ": "@;
    occurrence::lemma_one_more(s2, seq![name].push(n), how, "]\n"@ + w);
    assert(seq![name].push(n).push(how) =~= seq![name, n, how]);
    assert(r =~= s2 + how + ("]\n"@ + w));
    assert(w =~= r.subrange(r.len() - w.len(), r.len() as int));
}

/// Delegating is reported with the member's name and role, and the model it was named.
pub proof fn law_delegating_says_to_whom(s: MemberSpecView)
    ensures
        occurrence::in_order(team::delegated_report(s), seq![s.name, s.role.id]),
        s.named matches Some(model) ==> text::holds(team::delegated_report(s), model),
{
    let all = team::delegated_report(s);
    let a = "delegated to `"@;
    occurrence::lemma_within(a, s.name, "` ("@);
    let s1 = a + s.name + "` ("@;
    let rest = all.skip((s1 + s.role.id).len() as int);
    occurrence::lemma_one_more(s1, seq![s.name], s.role.id, rest);
    assert(seq![s.name].push(s.role.id) =~= seq![s.name, s.role.id]);
    assert(all =~= s1 + s.role.id + rest);
    match s.named {
        Some(model) => {
            let at = (s1 + s.role.id + " on "@).len() as int;
            assert(all.subrange(at, at + model.len()) =~= model);
        },
        None => {},
    }
}

/// The roster names every member, in order.
pub proof fn law_the_roster_names_everyone(members: Seq<MemberView>)
    requires
        members.len() > 0,
    ensures
        occurrence::in_order(
            team::rostered(members),
            members.map_values(|m: MemberView| m.name),
        ),
{
    let names = members.map_values(|m: MemberView| m.name);
    let lines = team::introduced(members);
    let none = Seq::<char>::empty();
    assert forall|i: int| 0 <= i < names.len() implies occurrence::in_order(
        #[trigger] lines[i],
        seq![names[i]],
    ) by {
        let rest = " ("@ + members[i].role + ")"@;
        occurrence::lemma_within(none, names[i], rest);
        assert(none + names[i] + rest =~= lines[i]);
    }
    occurrence::lemma_joined_within(lines, ", "@, names);
}

/// An action is what it is called; what is called otherwise is refused by that name.
pub proof fn law_an_action_is_what_it_is_called(action: Seq<char>)
    ensures
        match team::action_of(action) {
            Ok(Action::Delegate) => action == "delegate"@,
            Ok(Action::Tell) => action == "tell"@,
            Ok(Action::Status) => action == "status"@,
            Ok(Action::Stop) => action == "stop"@,
            Err(e) => text::holds(e, action) && action != "delegate"@ && action != "tell"@
                && action != "status"@ && action != "stop"@,
        },
        action == "stop"@ ==> team::action_of(action) == Ok::<Action, Seq<char>>(Action::Stop),
        action == "tell"@ ==> team::action_of(action) == Ok::<Action, Seq<char>>(Action::Tell),
        action == "status"@ ==> team::action_of(action) == Ok::<Action, Seq<char>>(
            Action::Status,
        ),
{
    assert("delegate"@.len() == 8 && "tell"@.len() == 4 && "status"@.len() == 6 && "stop"@.len()
        == 4 && "tell"@[0] == 't' && "stop"@[0] == 's') by {
        reveal_strlit("delegate");
        reveal_strlit("tell");
        reveal_strlit("status");
        reveal_strlit("stop");
    }
    let e = "unknown action `"@ + action + "`"@;
    let at = "unknown action `"@.len() as int;
    assert(e.subrange(at, at + action.len()) =~= action);
}

/// A member that was stopped is named, with the branch that was kept or with what kept its
/// checkout from being removed.
pub proof fn law_a_stop_says_what_is_left(m: MemberView, r: RemovalView)
    ensures
        m.name.is_prefix_of(team::stop_note_of(m, r)),
        m.worktree is None ==> team::stop_note_of(m, r) == m.name,
        m.worktree matches Some(w) ==> (r is Removed ==> text::holds(
            team::stop_note_of(m, r),
            w.1,
        )),
        m.worktree is Some ==> (r matches RemovalView::Failed(e) ==> text::holds(
            team::stop_note_of(m, r),
            e,
        )),
{
    let all = team::stop_note_of(m, r);
    assert(m.name =~= all.take(m.name.len() as int));
    match m.worktree {
        Some((dir, branch)) => match r {
            RemovalView::Removed => {
                let at = (m.name + " (branch `"@).len() as int;
                assert(all.subrange(at, at + branch.len()) =~= branch);
            },
            RemovalView::Failed(e) => {
                let at = (m.name + " (worktree not removed: "@).len() as int;
                assert(all.subrange(at, at + e.len()) =~= e);
            },
            _ => {},
        },
        None => {},
    }
}

/// A member's checkout is in a directory of its own name, where there is a shell to make it
/// and a repository to make it of.
pub proof fn law_a_checkout_has_its_members_name(
    shell: bool,
    repo: Option<Seq<char>>,
    base: Option<Seq<char>>,
    name: Seq<char>,
)
    ensures
        team::worktree_dir(shell, repo, base, name) is Ok <==> shell && repo is Some,
        team::worktree_dir(shell, repo, base, name) matches Ok(d) ==> name.is_suffix_of(d) && (
        base matches Some(b) ==> b.is_prefix_of(d)) && (base is None ==> repo->0.is_prefix_of(d)),
{
    match team::worktree_dir(shell, repo, base, name) {
        Ok(d) => {
            assert(name =~= d.subrange(d.len() - name.len(), d.len() as int));
            match base {
                Some(b) => {
                    assert(b =~= d.take(b.len() as int));
                },
                None => {
                    assert(repo->0 =~= d.take(repo->0.len() as int));
                },
            }
        },
        Err(_) => {},
    }
}

/// Only what was injected in that turn from that session is the lead's.
pub proof fn law_only_the_lead_speaks_as_the_lead(
    turn: u64,
    other: u64,
    text: Seq<char>,
    from: Seq<char>,
    lead: Seq<char>,
)
    ensures
        team::from_lead(
            SessionEventView::Injected {
                turn,
                text,
                origin: InjectionOriginView::Peer { from },
            },
            other,
            lead,
        ) <==> turn == other && from == lead,
        !team::from_lead(
            SessionEventView::Injected { turn, text, origin: InjectionOriginView::Reminder },
            turn,
            lead,
        ),
{
}

/// The team's tool offers every role there is, in order.
pub proof fn law_every_role_is_offered(list: Seq<Seq<char>>, when: Seq<char>)
    ensures
        occurrence::in_order(team::schema_text(list, when), json::all_quoted(list)),
{
    let all = team::schema_text(list, when);
    let values = json::all_quoted(list);
    let joined = text::joined(values, ","@);
    occurrence::lemma_joined(values, ","@);
    let tail = ",\"type\":\"string\"},\"scope\":{\"description\":\"For a role that writes: the files this member may change, as globs relative to the workspace (e.g. `src/auth/**`). Required unless members get checkouts of their own; two writers' scopes may not overlap.\",\"items\":{\"type\":\"string\"},\"type\":\"array\"},\"task\":{\"description\":\"The complete task (delegate)\",\"type\":\"string\"},\"text\":{\"description\":\"What to tell the member (tell)\",\"type\":\"string\"}},\"required\":[\"action\"],\"type\":\"object\"}"@;
    let behind = "]"@ + tail;
    let front = all.take(all.len() - behind.len() - joined.len());
    occurrence::lemma_wrapped(front, joined, behind, values);
    assert(all =~= front + joined + behind);
}

/// Who is not found is named, beside everyone who could be.
pub proof fn law_who_is_missing_is_named(members: Seq<MemberView>, name: Seq<char>)
    ensures
        occurrence::in_order(
            team::no_such_member(members, name),
            seq![name] + members.map_values(|m: MemberView| m.name),
        ),
{
    let a = "no member named `"@;
    let b = "`; live members: "@;
    let names = members.map_values(|m: MemberView| m.name);
    let roster = team::rostered(members);
    occurrence::lemma_within(a, name, b);
    if members.len() > 0 {
        law_the_roster_names_everyone(members);
    } else {
        assert(names =~= Seq::empty());
        occurrence::lemma_none(roster);
    }
    occurrence::lemma_together(a + name + b, seq![name], roster, names);
    assert(team::no_such_member(members, name) =~= a + name + b + roster);
}

// ---- permissions ----------------------------------------------------------

/// A refused call is answered under its id with an error that says why.
pub proof fn law_a_refusal_says_why(call_id: Seq<char>, why: Seq<char>)
    ensures
        policy::refusal(call_id, why) matches PassageView::Refuse { result } && result.is_error
            && result.call_id == call_id && why.is_suffix_of(result.content),
{
    let t = "Refused: "@ + why;
    assert(why =~= t.subrange(t.len() - why.len(), t.len() as int));
}

/// A person is asked about a call by its name and shown its arguments; a lasting yes is
/// offered exactly where it can be granted.
pub proof fn law_an_approval_offers_what_can_be_granted(
    tool: Seq<char>,
    arguments: Seq<char>,
    grant: Option<Seq<char>>,
    asker: Option<Seq<char>>,
)
    ensures
        ({
            let q = asking::approval_question(tool, arguments, grant, asker);
            let values = q.options.map_values(|c: ChoiceView| c.value);
            &&& text::holds(q.prompt, tool)
            &&& q.about matches Some(a) && a.tool == tool && a.arguments == arguments && a.grant
                == grant
            &&& q.asker == asker
            &&& grant is Some ==> values == seq![ANSWER_ALLOW@, ANSWER_ALWAYS@, ANSWER_DENY@]
            &&& grant is None ==> values == seq![ANSWER_ALLOW@, ANSWER_DENY@]
        }),
{
    let q = asking::approval_question(tool, arguments, grant, asker);
    let at = "Allow `"@.len() as int;
    assert(q.prompt.subrange(at, at + tool.len()) =~= tool);
    let values = q.options.map_values(|c: ChoiceView| c.value);
    if grant is Some {
        assert(values =~= seq![ANSWER_ALLOW@, ANSWER_ALWAYS@, ANSWER_DENY@]);
    } else {
        assert(values =~= seq![ANSWER_ALLOW@, ANSWER_DENY@]);
    }
}

/// A permission's own word consents exactly where it permits.
pub proof fn law_words_consent_as_they_permit(p: Permission)
    ensures
        policy_rows::consents(Some(asking::answer_word(p)), true) <==> !(p is Deny),
        policy_rows::consents(Some(asking::answer_word(p)), false) <==> p is AllowOnce,
{
    assert(ANSWER_ALLOW@ != ANSWER_DENY@ && ANSWER_ALWAYS@ != ANSWER_DENY@ && ANSWER_ALLOW@
        != ANSWER_ALWAYS@) by {
        reveal_strlit("allow");
        reveal_strlit("allow_always");
        reveal_strlit("deny");
        assert("allow"@.len() == 5 && "allow_always"@.len() == 12 && "deny"@.len() == 4);
    }
}

/// A person's answer lets a turn go on exactly where it says so.
pub proof fn law_only_a_yes_goes_on(answer: Seq<char>)
    ensures
        loop_policy::goes_on(answer) <==> (json::parsed(answer) matches Ok(j) && json::bool_under(
            j,
            "continue"@,
        ) == Some(true)),
{
}

// ---- turns ----------------------------------------------------------------

/// What is measured of a turn is that turn's: its error, its session, its tokens and its
/// number.
pub proof fn law_a_turn_is_measured_whole(
    o: TurnOutcomeView,
    session: Seq<char>,
    elapsed_ms: u64,
    tokens: Seq<char>,
)
    ensures
        occurrence::in_order(
            policy_rows::metrics(o, session, elapsed_ms, tokens),
            seq![
                text::decimal(elapsed_ms as nat),
                json::quoted_or_null(o.error),
                json::quoted(session),
                tokens,
                text::decimal(o.turn as nat),
            ],
        ),
{
    let ms = text::decimal(elapsed_ms as nat);
    let e = json::quoted_or_null(o.error);
    let s = json::quoted(session);
    let n = text::decimal(o.turn as nat);
    let a = "{\"elapsed_ms\":"@;
    let b = ",\"error\":"@;
    let c = ",\"rounds\":"@ + text::decimal(o.rounds as nat) + ",\"session\":"@;
    let d = ",\"stop\":"@ + json::quoted(log::stop_name(o.stop)) + ",\"tokens\":"@;
    let f = ",\"tool_calls\":"@ + text::decimal(o.tool_calls as nat) + ",\"turn\":"@;
    occurrence::lemma_within(a, ms, b);
    let s1 = a + ms + b;
    occurrence::lemma_one_more(s1, seq![ms], e, c);
    let s2 = s1 + e + c;
    occurrence::lemma_one_more(s2, seq![ms].push(e), s, d);
    let s3 = s2 + s + d;
    occurrence::lemma_one_more(s3, seq![ms].push(e).push(s), tokens, f);
    let s4 = s3 + tokens + f;
    occurrence::lemma_one_more(s4, seq![ms].push(e).push(s).push(tokens), n, "}\n"@);
    assert(seq![ms].push(e).push(s).push(tokens).push(n) =~= seq![ms, e, s, tokens, n]);
    assert(policy_rows::metrics(o, session, elapsed_ms, tokens) =~= s4 + n + "}\n"@);
}

/// A turn is summed up by how it ended, its rounds, its calls and its error.
pub proof fn law_a_turn_is_summed_up(o: TurnOutcomeView)
    ensures
        occurrence::in_order(
            trace::summary_of(o),
            seq![
                log::stop_name(o.stop),
                text::decimal(o.rounds as nat),
                text::decimal(o.tool_calls as nat),
            ],
        ),
        o.error matches Some(e) ==> text::holds(trace::summary_of(o), e),
{
    let all = trace::summary_of(o);
    let how = log::stop_name(o.stop);
    let r = text::decimal(o.rounds as nat);
    let c = text::decimal(o.tool_calls as nat);
    let a = "\n\u{1b}[2m— "@;
    occurrence::lemma_within(a, how, " after "@);
    let s1 = a + how + " after "@;
    occurrence::lemma_one_more(s1, seq![how], r, " round(s), "@);
    let s2 = s1 + r + " round(s), "@;
    let rest = all.skip((s2 + c).len() as int);
    occurrence::lemma_one_more(s2, seq![how].push(r), c, rest);
    assert(seq![how].push(r).push(c) =~= seq![how, r, c]);
    assert(all =~= s2 + c + rest);
    match o.error {
        Some(e) => {
            let at = (s2 + c + " tool call(s)"@ + ": "@).len() as int;
            assert(all.subrange(at, at + e.len()) =~= e);
        },
        None => {},
    }
}

/// Without a model, what has settled is folded into its list, as far as it has settled.
pub proof fn law_what_settled_is_folded(log: SessionLogView, keep_turns: u64)
    ensures
        loop_policy::tail_compacted(log, keep_turns) is Some <==> span::settled(log, keep_turns)
            is Some,
        loop_policy::tail_compacted(log, keep_turns) matches Some(d) ==> d
            == compaction::summarised(span::settled(log, keep_turns)->0, None) && d.through
            == span::settled(log, keep_turns)->0.through && d.summary == span::listed(
            span::settled(log, keep_turns)->0,
        ),
{
}

/// A title is asked for with the first prompt, as far as it is needed.
pub proof fn law_a_title_is_asked_for_with_the_prompt(first: Seq<char>)
    ensures
        ({
            let m = session_title::title_prompt(first);
            &&& m.len() == 2
            &&& m[0].role is System
            &&& m[1].role is User && m[1].text.is_prefix_of(first) && !m[1].synthetic
            &&& first.len() <= 2000 ==> m[1].text == first
        }),
{
    let t = text::leading(first, 2000);
    assert(t =~= first.take(t.len() as int));
}

/// What is said of a log's file names its place, and where its session ran or came from.
pub proof fn law_a_logs_facts_are_told(path: Seq<char>, h: HeaderFactsView)
    ensures
        ({
            let f = session::facts_of(path, Some(h));
            &&& path.is_suffix_of(f[0])
            &&& text::holds(f[1], text::decimal(h.created_at as nat))
            &&& h.cwd matches Some(cwd) ==> cwd.is_suffix_of(f[2])
            &&& h.parent matches Some(parent) ==> text::holds(f.last(), parent)
            &&& f.len() == 2 + (if h.cwd is Some {
                1nat
            } else {
                0
            }) + (if h.parent is Some {
                1nat
            } else {
                0
            })
        }),
{
    let f = session::facts_of(path, Some(h));
    let a = f[0];
    assert(path =~= a.subrange(a.len() - path.len(), a.len() as int));
    let d = text::decimal(h.created_at as nat);
    let at = "  started at: "@.len() as int;
    assert(f[1].subrange(at, at + d.len()) =~= d);
    match h.cwd {
        Some(cwd) => {
            let c = f[2];
            assert(cwd =~= c.subrange(c.len() - cwd.len(), c.len() as int));
        },
        None => {},
    }
    match h.parent {
        Some(parent) => {
            let from = "  forked from: "@.len() as int;
            assert(f.last().subrange(from, from + parent.len()) =~= parent);
        },
        None => {},
    }
}

/// A session is told of by its id, its turn, how much is logged and where.
pub proof fn law_a_session_is_told_of(f: SessionFactsView)
    ensures
        occurrence::in_order(
            self_knowledge::session_text(Some(f)),
            seq![f.id, text::decimal(f.turn as nat), text::decimal(f.events as nat)],
        ),
        f.location matches Some(l) ==> l.is_suffix_of(self_knowledge::session_text(Some(f))),
{
    let all = self_knowledge::session_text(Some(f));
    let t = text::decimal(f.turn as nat);
    let n = text::decimal(f.events as nat);
    let w = self_knowledge::where_text(f);
    let a = "session id: "@;
    let b = "\nturn: "@;
    let c = "\nevents logged so far: "@;
    let d = "\nevent log: "@ + w;
    occurrence::lemma_within(a, f.id, b);
    let s1 = a + f.id + b;
    occurrence::lemma_one_more(s1, seq![f.id], t, c);
    let s2 = s1 + t + c;
    occurrence::lemma_one_more(s2, seq![f.id].push(t), n, d);
    assert(seq![f.id].push(t).push(n) =~= seq![f.id, t, n]);
    assert(all =~= s2 + n + d);
    assert(w =~= all.subrange(all.len() - w.len(), all.len() as int));
}

/// A notice of another try says how long it waits, which try it is and of how many.
pub proof fn law_a_wait_says_how_long(message: Seq<char>, ms: u64, nth: u32, most: u32)
    requires
        most > 0,
    ensures
        occurrence::in_order(
            recovery::waiting_notice(ms, nth, most),
            seq![
                text::decimal((ms / 1000) as nat),
                text::decimal(nth as nat),
                text::decimal(most as nat),
            ],
        ),
        occurrence::in_order(
            loop_policy::retry_notice(message, ms, nth, most),
            seq![
                message,
                text::decimal((ms / 1000) as nat),
                text::decimal(nth as nat),
                text::decimal((most - 1) as nat),
            ],
        ),
        occurrence::in_order(
            recovery::overflow_notice(nth, most),
            seq![text::decimal(nth as nat), text::decimal(most as nat)],
        ),
        occurrence::in_order(
            recovery::too_long(message, ms),
            seq![message, text::decimal((ms / 1000) as nat)],
        ),
        occurrence::in_order(
            truncation::truncation_notice(nth, most),
            seq![text::decimal(nth as nat), text::decimal(most as nat)],
        ),
{
    let s = text::decimal((ms / 1000) as nat);
    let n = text::decimal(nth as nat);
    let m = text::decimal(most as nat);
    let none = Seq::<char>::empty();
    let a = "rate limited; waiting "@;
    occurrence::lemma_within(a, s, "s ("@);
    let w1 = a + s + "s ("@;
    occurrence::lemma_one_more(w1, seq![s], n, "/"@);
    let w2 = w1 + n + "/"@;
    occurrence::lemma_one_more(w2, seq![s].push(n), m, ")"@);
    assert(seq![s].push(n).push(m) =~= seq![s, n, m]);
    assert(recovery::waiting_notice(ms, nth, most) =~= w2 + m + ")"@);
    let l = text::decimal((most - 1) as nat);
    let b = "; retrying in "@;
    occurrence::lemma_within(none, message, b);
    let r1 = none + message + b;
    occurrence::lemma_one_more(r1, seq![message], s, "s ("@);
    let r2 = r1 + s + "s ("@;
    occurrence::lemma_one_more(r2, seq![message].push(s), n, "/"@);
    let r3 = r2 + n + "/"@;
    occurrence::lemma_one_more(r3, seq![message].push(s).push(n), l, ")"@);
    assert(seq![message].push(s).push(n).push(l) =~= seq![message, s, n, l]);
    assert(loop_policy::retry_notice(message, ms, nth, most) =~= r3 + l + ")"@);
    let c = "context overflow; compacted and retrying ("@;
    occurrence::lemma_within(c, n, "/"@);
    occurrence::lemma_one_more(c + n + "/"@, seq![n], m, ")"@);
    assert(seq![n].push(m) =~= seq![n, m]);
    assert(recovery::overflow_notice(nth, most) =~= c + n + "/"@ + m + ")"@);
    let d = " (resets in "@;
    let e = "s — longer than this harness waits)"@;
    occurrence::lemma_within(none, message, d);
    occurrence::lemma_one_more(none + message + d, seq![message], s, e);
    assert(seq![message].push(s) =~= seq![message, s]);
    assert(recovery::too_long(message, ms) =~= none + message + d + s + e);
    let f = "输出被截断，正在请模型接着写（第 "@;
    occurrence::lemma_within(f, n, "/"@);
    occurrence::lemma_one_more(f + n + "/"@, seq![n], m, " 次）"@);
    assert(truncation::truncation_notice(nth, most) =~= f + n + "/"@ + m + " 次）"@);
}

// ---- models ---------------------------------------------------------------

/// What is said of a model names it, where it is, and how large its window is.
pub proof fn law_a_model_is_described_by_what_it_is(
    model: Seq<char>,
    base_url: Seq<char>,
    key_var: Seq<char>,
    selection: Seq<char>,
    e: EndpointView,
    context: Seq<char>,
    window: u32,
    origin: Seq<char>,
)
    ensures
        occurrence::in_order(
            llm::compat_text(model, base_url, key_var, context),
            seq![model, base_url, key_var, context],
        ),
        occurrence::in_order(
            llm::config_text(selection, e, context),
            seq![selection, e.model, e.origin, context],
        ),
        occurrence::in_order(
            llm::context_text(window, origin),
            seq![text::decimal(window as nat), origin],
        ),
{
    let all = llm::compat_text(model, base_url, key_var, context);
    let a = "MODEL. This tree talks to `"@;
    let b = "` at `"@;
    let c = "`, through the `llm-openai-compat` row reading ATOMCODE_BASE_URL / ATOMCODE_MODEL / "@;
    occurrence::lemma_within(a, model, b);
    let s1 = a + model + b;
    occurrence::lemma_one_more(s1, seq![model], base_url, c);
    let s2 = s1 + base_url + c;
    occurrence::lemma_one_more(s2, seq![model].push(base_url), key_var, ".\n"@);
    let s3 = s2 + key_var + ".\n"@;
    let rest = all.skip((s3 + context).len() as int);
    occurrence::lemma_one_more(s3, seq![model].push(base_url).push(key_var), context, rest);
    assert(seq![model].push(base_url).push(key_var).push(context) =~= seq![
        model,
        base_url,
        key_var,
        context,
    ]);
    assert(all =~= s3 + context + rest);
    let own = llm::config_text(selection, e, context);
    let d = "MODEL. This tree uses selection `"@;
    let f = "` (model `"@;
    let g = "`) from `"@;
    let h = "`, via the `llm-atomcode-config` row.\n"@;
    occurrence::lemma_within(d, selection, f);
    let t1 = d + selection + f;
    occurrence::lemma_one_more(t1, seq![selection], e.model, g);
    let t2 = t1 + e.model + g;
    occurrence::lemma_one_more(t2, seq![selection].push(e.model), e.origin, h);
    let t3 = t2 + e.origin + h;
    let more = own.skip((t3 + context).len() as int);
    occurrence::lemma_one_more(t3, seq![selection].push(e.model).push(e.origin), context, more);
    assert(seq![selection].push(e.model).push(e.origin).push(context) =~= seq![
        selection,
        e.model,
        e.origin,
        context,
    ]);
    assert(own =~= t3 + context + more);
    let line = llm::context_text(window, origin);
    let n = text::decimal(window as nat);
    occurrence::lemma_within("Context window: "@, n, " tokens ("@);
    let u1 = "Context window: "@ + n + " tokens ("@;
    let end = line.skip((u1 + origin).len() as int);
    occurrence::lemma_one_more(u1, seq![n], origin, end);
    assert(seq![n].push(origin) =~= seq![n, origin]);
    assert(line =~= u1 + origin + end);
}

/// A model is marked as this conversation's exactly where it is, and is listed with its name
/// and its window.
pub proof fn law_a_model_is_listed_as_it_is(m: ModelInfoView, current: Option<Seq<char>>)
    ensures
        occurrence::in_order(
            subagent::model_line(m, current),
            seq![m.id, m.display_name, text::decimal(m.context_window as nat)],
        ),
        current == Some(m.id) ==> ("  "@ + m.id + " (this conversation)"@).is_prefix_of(
            subagent::model_line(m, current),
        ),
        current != Some(m.id) ==> ("  "@ + m.id + " — "@).is_prefix_of(
            subagent::model_line(m, current),
        ),
{
    let all = subagent::model_line(m, current);
    let mark = if current == Some(m.id) {
        " (this conversation)"@
    } else {
        Seq::empty()
    };
    let w = text::decimal(m.context_window as nat);
    let a = mark + " — "@;
    occurrence::lemma_within("  "@, m.id, a);
    let s1 = "  "@ + m.id + a;
    occurrence::lemma_one_more(s1, seq![m.id], m.display_name, ", ctx "@);
    let s2 = s1 + m.display_name + ", ctx "@;
    let rest = all.skip((s2 + w).len() as int);
    occurrence::lemma_one_more(s2, seq![m.id].push(m.display_name), w, rest);
    assert(seq![m.id].push(m.display_name).push(w) =~= seq![m.id, m.display_name, w]);
    assert(all =~= s2 + w + rest);
    let p = "  "@ + m.id + " (this conversation)"@;
    let q = "  "@ + m.id + " — "@;
    if current == Some(m.id) {
        assert(p =~= all.take(p.len() as int));
    } else {
        assert(q =~= all.take(q.len() as int));
    }
}

// ---- roles ----------------------------------------------------------------

/// A value ends where a comment begins, and loses the white space and the quotes around it.
pub proof fn law_a_value_is_read_without_its_comment(v: Seq<char>, comment: Seq<char>)
    requires
        !v.contains('#'),
    ensures
        roles::value_of(v + seq!['#'] + comment) == roles::value_of(v),
        ({
            let t = text::trimmed(v);
            t.len() > 0 && t[0] != '"' && t.last() != '"' ==> roles::value_of(v) == t
        }),
{
    reveal_strlit("\"");
    let quote = "\""@;
    assert(quote =~= seq!['"']);
    let s = v + seq!['#'] + comment;
    text::lemma_index_of(s, '#');
    text::lemma_index_of(v, '#');
    assert(s[v.len() as int] == '#');
    assert(text::index_of(s, '#') == v.len()) by {
        let k = text::index_of(s, '#');
        if k < v.len() {
            assert(v[k] == '#');
        }
    }
    assert(s.take(v.len() as int) =~= v);
    assert(text::pieces(s, '#')[0] == v);
    assert(text::index_of(v, '#') == v.len()) by {
        let k = text::index_of(v, '#');
        if k < v.len() {
            assert(v.contains(v[k]));
        }
    }
    assert(text::pieces(v, '#') =~= seq![v]);
    let t = text::trimmed(v);
    if t.len() > 0 && t[0] != '"' && t.last() != '"' {
        assert(!quote.contains(t[0]));
        assert(!quote.contains(t.last()));
        assert(text::bared_start(t, quote) == t);
        assert(text::bared_end(t, quote) == t);
    }
}

/// A list of tools is what stands between its commas, each without what is around it, the
/// empty ones left out.
pub proof fn law_listed_tools_are_read(parts: Seq<Seq<char>>)
    ensures
        roles::named_tools(parts) == parts.filter_map(
            |p: Seq<char>|
                {
                    let name = text::bared(text::trimmed(p), "\"'"@);
                    if name.len() == 0 {
                        None
                    } else {
                        Some(name)
                    }
                },
        ),
    decreases parts.len(),
{
    let tool = |p: Seq<char>|
        {
            let name = text::bared(text::trimmed(p), "\"'"@);
            if name.len() == 0 {
                None
            } else {
                Some(name)
            }
        };
    if parts.len() > 0 {
        law_listed_tools_are_read(parts.drop_last());
    }
    assert(roles::named_tools(parts) =~= parts.filter_map(tool));
}

/// Directories of roles are read in order onto the shipped ones: the last file of a name
/// in the last directory stands, and a role no file of it names stays as it was.
pub proof fn law_the_last_directory_stands(
    dirs: Seq<Seq<RoleFileView>>,
    files: Seq<RoleFileView>,
    k: int,
    id: Seq<char>,
)
    requires
        roles::loaded(dirs.push(files)) is Ok,
        0 <= k < files.len(),
        forall|j: int|
            k < j < files.len() ==> roles::role_of(#[trigger] files[j])->Ok_0.id
                != roles::role_of(files[k])->Ok_0.id,
        forall|j: int|
            0 <= j < files.len() ==> roles::role_of(#[trigger] files[j])->Ok_0.id != id,
    ensures
        roles::loaded(Seq::empty()) == Ok::<Seq<RoleView>, Seq<char>>(roles::shipped_roles()),
        roles::loaded(dirs) is Ok,
        ({
            let before = roles::loaded(dirs)->Ok_0;
            let all = roles::loaded(dirs.push(files))->Ok_0;
            let r = roles::role_of(files[k])->Ok_0;
            let at = roles::place(all, r.id);
            &&& at < all.len()
            &&& all[at as int] == (RoleView { from_project: dirs.len() == 0, ..r })
            &&& roles::place(before, id) < before.len() ==> roles::place(all, id) < all.len()
                && all[roles::place(all, id) as int] == before[roles::place(before, id) as int]
        }),
{
    let list = dirs.push(files);
    assert(list.drop_last() =~= dirs);
    assert(list.last() == files);
    lemma_before_is_read(roles::loaded(dirs), files, dirs.len() == 0);
    let before = roles::loaded(dirs)->Ok_0;
    crate::delegation_laws::law_the_last_file_of_a_name_stands(before, files, dirs.len() == 0, k);
    if roles::place(before, id) < before.len() {
        lemma_others_stay(before, files, dirs.len() == 0, id);
    }
}

proof fn lemma_before_is_read(
    before: Result<Seq<RoleView>, Seq<char>>,
    files: Seq<RoleFileView>,
    project: bool,
)
    requires
        roles::with_files(before, files, project) is Ok,
    ensures
        before is Ok,
    decreases files.len(),
{
    if files.len() > 0 {
        lemma_before_is_read(before, files.drop_last(), project);
    }
}

proof fn lemma_others_stay(
    before: Seq<RoleView>,
    files: Seq<RoleFileView>,
    project: bool,
    id: Seq<char>,
)
    requires
        roles::with_files(Ok(before), files, project) is Ok,
        forall|j: int|
            0 <= j < files.len() ==> roles::role_of(#[trigger] files[j])->Ok_0.id != id,
        roles::place(before, id) < before.len(),
    ensures
        ({
            let all = roles::with_files(Ok(before), files, project)->Ok_0;
            &&& roles::place(all, id) < all.len()
            &&& all[roles::place(all, id) as int] == before[roles::place(before, id) as int]
        }),
    decreases files.len(),
{
    if files.len() > 0 {
        let front = files.drop_last();
        assert forall|j: int| 0 <= j < front.len() implies roles::role_of(
            #[trigger] front[j],
        )->Ok_0.id != id by {
            assert(front[j] == files[j]);
        }
        lemma_others_stay(before, front, project, id);
        let so_far = roles::with_files(Ok(before), front, project)->Ok_0;
        let last = roles::role_of(files.last())->Ok_0;
        assert(roles::role_of(files[files.len() - 1])->Ok_0.id != id);
        crate::delegation_laws::law_adding_a_role_keeps_the_others(
            so_far,
            RoleView { from_project: project, ..last },
            id,
        );
    }
}

// ---- what is read ---------------------------------------------------------

/// A member of an object is the first under its key; what is under it is read as what it is.
pub proof fn law_a_member_is_found_by_its_key(
    o: Seq<(Seq<char>, Seq<char>)>,
    key: Seq<char>,
    k: int,
)
    requires
        0 <= k <= o.len(),
        forall|i: int| 0 <= i < k ==> (#[trigger] o[i]).0 != key,
        k < o.len() ==> o[k].0 == key,
    ensures
        ({
            let j = JsonView::Object(o);
            &&& json::member(j, key) == (if k < o.len() {
                Some(o[k].1)
            } else {
                None
            })
            &&& k < o.len() ==> (json::parsed(o[k].1) matches Ok(JsonView::Text(t))
                ==> json::text_under(j, key) == Some(t))
            &&& k < o.len() ==> (json::parsed(o[k].1) matches Ok(JsonView::Number { whole, .. })
                ==> json::whole_under(j, key) == whole)
            &&& k < o.len() ==> (json::parsed(o[k].1) matches Ok(JsonView::Bool(b))
                ==> json::bool_under(j, key) == Some(b))
            &&& k == o.len() ==> json::text_under(j, key) is None && json::whole_under(j, key)
                is None && json::bool_under(j, key) is None
        }),
{
    lemma_first_under(o, key, k);
}

proof fn lemma_first_under(o: Seq<(Seq<char>, Seq<char>)>, key: Seq<char>, k: int)
    requires
        0 <= k <= o.len(),
        forall|i: int| 0 <= i < k ==> (#[trigger] o[i]).0 != key,
        k < o.len() ==> o[k].0 == key,
    ensures
        json::first_under(o, key) == k,
    decreases o.len(),
{
    if k > 0 {
        let rest = o.skip(1);
        assert(o[0].0 != key);
        assert forall|i: int| 0 <= i < k - 1 implies (#[trigger] rest[i]).0 != key by {
            assert(rest[i] == o[i + 1]);
        }
        lemma_first_under(rest, key, k - 1);
    }
}

/// A time is shown as the day it falls on.
pub proof fn law_a_time_is_shown_as_its_day(millis: u64, y: int, m: int, d: int)
    requires
        millis > 0,
        calendar::is_date(y, m, d),
        calendar::day_number(y, m, d) == millis / 86_400_000,
    ensures
        calendar::day_of(millis) == calendar::shown((y, m, d)),
        calendar::day_of(0) == "unknown"@,
{
    let z = (millis / 1000 / 86_400) as int;
    assert(z == millis / 86_400_000);
    let c = calendar::date_of(z);
    assert(calendar::is_date(y, m, d) && calendar::day_number(y, m, d) == z);
    calendar::law_a_day_has_one_date(y, m, d, c.0, c.1, c.2);
}

} // verus!
