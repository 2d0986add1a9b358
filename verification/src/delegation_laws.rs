//! Work that is handed on: a child does what it was given to do, on what it was given, and
//! comes back with what it did; a role is what its file says; a model is what its row says.
use crate::effort;
use crate::effort::ReasoningEffort;
use crate::events::{LoggedEventView, SessionEventView, StopReason};
use crate::llm;
use crate::llm::{
    AdapterConfigView, EndpointView, OpenAiCompatRowView, ReplayStepView, UtilityRowView, WantView,
};
use crate::occurrence;
use crate::roles;
use crate::roles::{Access, Difficulty, FrontView, RoleFileView, RoleView};
use crate::subagent;
use crate::subagent::{ChildModelView, ModelInfoView};
use crate::team;
use crate::team::Chose;
use crate::text;
use crate::turn::StreamEventView;
use vstd::prelude::*;

verus! {

// ---- a child --------------------------------------------------------------

/// The calls of an answer, none where the event is no answer.
pub open spec fn calls_in(e: LoggedEventView) -> nat {
    match e.event {
        SessionEventView::AssistantMessage { tool_calls, .. } => tool_calls.len(),
        _ => 0,
    }
}

pub open spec fn calls_made(events: Seq<LoggedEventView>) -> nat
    decreases events.len(),
{
    if events.len() == 0 {
        0
    } else {
        calls_made(events.drop_last()) + calls_in(events.last())
    }
}

/// A child's outcome counts its rounds and its calls.
pub proof fn law_an_outcome_counts_what_was_done(events: Seq<LoggedEventView>)
    requires
        events.len() <= u32::MAX,
        calls_made(events) <= u32::MAX,
    ensures
        ({
            let o = subagent::outcome_of(events);
            &&& o.rounds == events.filter(|e: LoggedEventView| e.event is StepStart).len()
            &&& o.tool_calls == calls_made(events)
            &&& o.transcript_len == events.len()
        }),
    decreases events.len(),
{
    reveal(Seq::filter);
    let step = |e: LoggedEventView| e.event is StepStart;
    if events.len() > 0 {
        let front = events.drop_last();
        law_an_outcome_counts_what_was_done(front);
        lemma_no_more(front, step);
    }
}

proof fn lemma_no_more<A>(s: Seq<A>, p: spec_fn(A) -> bool)
    ensures
        s.filter(p).len() <= s.len(),
    decreases s.len(),
{
    reveal(Seq::filter);
    if s.len() > 0 {
        lemma_no_more(s.drop_last(), p);
    }
}

/// A child's outcome is the last thing it said, and the way its last turn ended.
pub proof fn law_an_outcome_is_the_last_of_it(events: Seq<LoggedEventView>, k: int)
    requires
        0 <= k < events.len(),
    ensures
        ({
            let o = subagent::outcome_of(events);
            &&& (events[k].event matches SessionEventView::AssistantMessage { text, .. }
                && text.len() > 0 && forall|j: int|
                k < j < events.len() ==> ((
                #[trigger] events[j]).event matches SessionEventView::AssistantMessage { text: t, .. }
                    ==> t.len() == 0)) ==> (
            events[k].event matches SessionEventView::AssistantMessage { text, .. } && o.text
                == text)
            &&& (events[k].event is TurnEnd && forall|j: int|
                k < j < events.len() ==> !((#[trigger] events[j]).event is TurnEnd)) ==> (
            events[k].event matches SessionEventView::TurnEnd { stop, error, .. } && o.stop == stop
                && o.error == error)
        }),
    decreases events.len(),
{
    if k < events.len() - 1 {
        let front = events.drop_last();
        law_an_outcome_is_the_last_of_it(front, k);
        assert(front[k] == events[k]);
        let n = events.len() - 1;
        if events[k].event is TurnEnd && forall|j: int|
            k < j < events.len() ==> !((#[trigger] events[j]).event is TurnEnd) {
            assert(!(events[n].event is TurnEnd));
            assert forall|j: int| k < j < front.len() implies !((
            #[trigger] front[j]).event is TurnEnd) by {
                assert(front[j] == events[j]);
            }
        }
        if (events[k].event matches SessionEventView::AssistantMessage { text, .. } && text.len()
            > 0) && forall|j: int|
            k < j < events.len() ==> ((
            #[trigger] events[j]).event matches SessionEventView::AssistantMessage { text: t, .. }
                ==> t.len() == 0) {
            assert(events[n].event matches SessionEventView::AssistantMessage { text: t, .. }
                ==> t.len() == 0);
            assert forall|j: int| k < j < front.len() implies ((
            #[trigger] front[j]).event matches SessionEventView::AssistantMessage { text: t, .. }
                ==> t.len() == 0) by {
                assert(front[j] == events[j]);
            }
        }
    }
}

/// A child begins with its task and works as it was told to: under its parent, on the
/// model it was given, with those of its tools that are there, in the order listed.
pub proof fn law_a_child_gets_its_task(
    minted: Seq<char>,
    parent: Option<Seq<char>>,
    allowed: Seq<Seq<char>>,
    mounted: Seq<Seq<char>>,
    task: Seq<char>,
    instructions: Seq<char>,
    named: Option<Seq<char>>,
    delegated: bool,
    level: Option<ReasoningEffort>,
)
    ensures
        ({
            let p = subagent::child_plan(
                minted,
                parent,
                allowed,
                mounted,
                task,
                instructions,
                named,
                delegated,
                level,
            );
            &&& p.first == task && p.instructions == instructions
            &&& p.parent == parent && p.effort == level
            &&& minted.is_suffix_of(p.session)
            &&& p.tools == allowed.filter(|t: Seq<char>| mounted.contains(t))
            &&& named is Some ==> p.model == ChildModelView::Named(named->0)
            &&& named is None && delegated ==> p.model is Delegated
            &&& named is None && !delegated ==> p.model is Inherited
        }),
{
    lemma_handed_down(allowed, mounted);
    let s = "sub-"@ + minted;
    assert(minted =~= s.subrange(s.len() - minted.len(), s.len() as int));
}

proof fn lemma_handed_down(tools: Seq<Seq<char>>, mounted: Seq<Seq<char>>)
    ensures
        team::handed_down(tools, mounted) == tools.filter(|t: Seq<char>| mounted.contains(t)),
    decreases tools.len(),
{
    reveal(Seq::filter);
    let there = |t: Seq<char>| mounted.contains(t);
    if tools.len() == 0 {
        assert(team::handed_down(tools, mounted) =~= tools.filter(there));
    } else {
        lemma_handed_down(tools.drop_last(), mounted);
        assert(team::handed_down(tools, mounted) =~= tools.filter(there));
    }
}

/// A child runs on a model only where it is offered; what is refused names the model that
/// was asked for and every one that is offered.
pub proof fn law_a_refused_model_is_named(
    model: Seq<char>,
    who: Chose,
    offered: Seq<Seq<char>>,
    k: int,
)
    requires
        !text::is_blank(model),
        !offered.contains(text::trimmed(model)),
        0 <= k < offered.len(),
    ensures
        subagent::child_model(Some(model), who, Some(offered)) matches Err(e) && text::holds(
            e,
            text::trimmed(model),
        ) && text::holds(e, offered[k]),
{
    let id = text::trimmed(model);
    let list = text::joined(offered, ", "@);
    let e = subagent::not_offered(id, who, offered);
    let head = "`"@;
    lemma_blank_is_nothing(model);
    assert(e.subrange(1, (1 + id.len()) as int) =~= id) by {
        reveal_strlit("`");
    }
    assert(head.len() == 1) by {
        reveal_strlit("`");
    }
    occurrence::lemma_joined(offered, ", "@);
    if list.len() == 0 {
        occurrence::lemma_each(list, offered, k);
        lemma_holds_nothing(e, offered[k]);
    } else {
        match who {
            Chose::Person => {
                let front = "`"@ + id + "` is not a model this host knows about; it has: "@;
                assert(e =~= front + list);
                lemma_behind(front, list, offered, k);
            },
            Chose::Model => {
                let front = "`"@ + id
                    + "` is not available to delegate to; you may use: "@;
                assert(e =~= front + list);
                lemma_behind(front, list, offered, k);
            },
        }
    }
}

proof fn lemma_holds_nothing(s: Seq<char>, t: Seq<char>)
    requires
        t.len() == 0,
    ensures
        text::holds(s, t),
{
    let i: int = 0;
    assert(s.subrange(i, i + t.len()) =~= t);
}

proof fn lemma_behind(front: Seq<char>, list: Seq<char>, parts: Seq<Seq<char>>, k: int)
    requires
        occurrence::in_order(list, parts),
        0 <= k < parts.len(),
    ensures
        text::holds(front + list, parts[k]),
{
    occurrence::lemma_none(front);
    occurrence::lemma_together(front, Seq::empty(), list, parts);
    assert(Seq::<Seq<char>>::empty() + parts =~= parts);
    occurrence::lemma_each(front + list, parts, k);
}

proof fn lemma_blank_is_nothing(s: Seq<char>)
    ensures
        text::is_blank(s) <==> text::trimmed(s).len() == 0,
{
    text::lemma_blank(s);
}

/// Delegating is safe exactly where every tool handed on only reads.
pub proof fn law_only_reading_is_safe(allowed: Seq<Seq<char>>)
    ensures
        subagent::risk_of(allowed) is Safe || subagent::risk_of(allowed) is Risky,
        subagent::risk_of(allowed) is Safe <==> allowed.all(
            |t: Seq<char>| roles::allowed(Access::Explore).contains(t),
        ),
        (exists|i: int| 0 <= i < allowed.len() && roles::writing().contains(#[trigger] allowed[i]))
            ==> subagent::risk_of(allowed) is Risky,
{
    roles::law_no_shell_for_members(Access::Explore);
    let reads = |t: Seq<char>| roles::allowed(Access::Explore).contains(t);
    if allowed.all(reads) {
        assert forall|i: int| 0 <= i < allowed.len() implies roles::reading().contains(
            #[trigger] allowed[i],
        ) by {
            assert(reads(allowed[i]));
        }
    }
    if exists|i: int| 0 <= i < allowed.len() && roles::writing().contains(#[trigger] allowed[i]) {
        let i = choose|i: int|
            0 <= i < allowed.len() && roles::writing().contains(#[trigger] allowed[i]);
        assert(!roles::reading().contains(allowed[i]));
    }
}

/// A child stops at its limit of rounds, where there is one.
pub proof fn law_a_child_stops_at_its_limit(max_steps: u32, rounds: u32)
    ensures
        subagent::capped(max_steps, rounds) is Some <==> 0 < max_steps <= rounds,
        subagent::capped(max_steps, rounds) is Some ==> subagent::capped(max_steps, rounds)
            == Some(StopReason::MaxRounds),
{
}

/// How a child ended says what went wrong: its error where it has one, else why it
/// stopped short.
pub proof fn law_an_end_says_what_went_wrong(error: Option<Seq<char>>, stop: StopReason)
    ensures
        error matches Some(e) ==> e.is_suffix_of(subagent::ended_word(error, stop)),
        error is None && !(stop is Stopped) ==> crate::log::stop_name(stop).is_suffix_of(
            subagent::ended_word(error, stop),
        ),
{
    let w = subagent::ended_word(error, stop);
    match error {
        Some(e) => {
            assert(e =~= w.subrange(w.len() - e.len(), w.len() as int));
        },
        None => {
            let n = crate::log::stop_name(stop);
            if !(stop is Stopped) {
                assert(n =~= w.subrange(w.len() - n.len(), w.len() as int));
            }
        },
    }
}

/// The catalogue names every model that can be delegated to, in order.
pub proof fn law_every_model_is_listed(offered: Seq<ModelInfoView>, current: Option<Seq<char>>)
    ensures
        occurrence::in_order(
            subagent::catalog_text(offered, current),
            Seq::new(offered.len(), |i: int| offered[i].id),
        ),
{
    let ids = Seq::new(offered.len(), |i: int| offered[i].id);
    let all = subagent::catalog_text(offered, current);
    if offered.len() == 0 {
        assert(ids =~= Seq::empty());
        occurrence::lemma_none(all);
    } else {
        let lines = subagent::model_lines(offered, current);
        assert forall|i: int| 0 <= i < ids.len() implies occurrence::in_order(
            #[trigger] lines[i],
            seq![ids[i]],
        ) by {
            let m = offered[i];
            let rest = lines[i].skip(("  "@ + m.id).len() as int);
            occurrence::lemma_within("  "@, m.id, rest);
            assert("  "@ + m.id + rest =~= lines[i]);
        }
        occurrence::lemma_joined_within(lines, "\n"@, ids);
        let j = text::joined(lines, "\n"@);
        let tail = all.skip((subagent::MODELS_HEAD@ + j).len() as int);
        occurrence::lemma_wrapped(subagent::MODELS_HEAD@, j, tail, ids);
        assert(subagent::MODELS_HEAD@ + j + tail =~= all);
    }
}

// ---- how hard to think ----------------------------------------------------

/// Every level has a name, and is read back from it, whatever white space is around it.
pub proof fn law_a_level_is_read_back(e: ReasoningEffort, s: Seq<char>)
    requires
        text::trimmed(s) == effort::level_name(e),
    ensures
        effort::configured(Some(s)) == Some(e),
        effort::level_names().contains(effort::level_name(e)),
{
    reveal_strlit("low");
    reveal_strlit("medium");
    reveal_strlit("high");
    reveal_strlit("xhigh");
    reveal_strlit("max");
    assert("low"@.len() == 3 && "medium"@.len() == 6 && "high"@.len() == 4);
    assert("xhigh"@.len() == 5 && "max"@.len() == 3);
    assert("low"@[0] != "max"@[0]);
    let n = effort::level_names();
    assert(n[0] == "low"@ && n[1] == "medium"@ && n[2] == "high"@ && n[3] == "xhigh"@ && n[4]
        == "max"@);
}

/// A level that is read is the one named, and nothing else is read as a level.
pub proof fn law_only_levels_are_read(s: Seq<char>)
    ensures
        match effort::configured(Some(s)) {
            Some(e) => effort::level_name(e) == text::trimmed(s),
            None => !effort::level_names().contains(text::trimmed(s)),
        },
{
}

/// A request's own level stands; the row's is for those without one.
pub proof fn law_the_request_decides(own: ReasoningEffort, level: ReasoningEffort)
    ensures
        effort::filled(Some(own), level) == Some(own),
        effort::filled(None, level) == Some(level),
{
}

/// The levels a model takes are those of the first offer under its id.
pub proof fn law_the_first_offer_counts(
    offers: Seq<(Seq<char>, Seq<Seq<char>>)>,
    id: Seq<char>,
    k: int,
)
    requires
        0 <= k <= offers.len(),
        forall|i: int| 0 <= i < k ==> (#[trigger] offers[i]).0 != id,
        k < offers.len() ==> offers[k].0 == id,
    ensures
        effort::accepted(offers, id) == (if k < offers.len() {
            offers[k].1
        } else {
            Seq::empty()
        }),
    decreases offers.len(),
{
    if k > 0 {
        let rest = offers.skip(1);
        assert(offers[0].0 != id);
        assert forall|i: int| 0 <= i < k - 1 implies (#[trigger] rest[i]).0 != id by {
            assert(rest[i] == offers[i + 1]);
        }
        law_the_first_offer_counts(rest, id, k - 1);
    }
}

/// A child thinks as hard as it was told to, unless that is no level, or the model it runs
/// on says it does not take it: the one named for the child, else the one in use. Either
/// refusal names what was asked for.
pub proof fn law_a_level_is_taken_or_refused(
    current: Option<Seq<char>>,
    offers: Seq<(Seq<char>, Seq<Seq<char>>)>,
    on: Option<Seq<char>>,
    asked: Seq<char>,
)
    ensures
        ({
            let r = effort::child_effort(Some((current, offers)), on, Some(asked));
            let word = text::trimmed(asked);
            let target = if on is Some && !text::is_blank(on->0) {
                Some(text::trimmed(on->0))
            } else {
                current
            };
            let levels = effort::accepted(offers, target->0);
            &&& text::is_blank(asked) ==> r == Ok::<Option<ReasoningEffort>, Seq<char>>(None)
            &&& !text::is_blank(asked) ==> match r {
                Ok(e) => e is Some && effort::level_name(e->0) == word && (target is None
                    || levels.len() == 0 || levels.contains(word)),
                Err(m) => text::holds(m, word) && (!effort::level_names().contains(word)
                    || target is Some && levels.len() > 0 && !levels.contains(word)),
            }
        }),
        effort::child_effort(None, on, Some(asked)) is Err ==> !effort::level_names().contains(
            text::trimmed(asked),
        ),
        effort::child_effort(Some((current, offers)), on, None) == Ok::<
            Option<ReasoningEffort>,
            Seq<char>,
        >(None),
{
    let word = text::trimmed(asked);
    lemma_blank_is_nothing(asked);
    if on is Some {
        lemma_blank_is_nothing(on->0);
    }
    text::lemma_trim_twice(asked);
    law_only_levels_are_read(word);
    law_only_levels_are_read(asked);
    let m = effort::no_such_level(word);
    assert("`"@.len() == 1) by {
        reveal_strlit("`");
    }
    assert(m.subrange(1, (1 + word.len()) as int) =~= word);
    assert(text::holds(m, word));
    let target = if on is Some && !text::is_blank(on->0) {
        Some(text::trimmed(on->0))
    } else {
        current
    };
    if target is Some {
        let levels = effort::accepted(offers, target->0);
        let n = effort::not_taken(target->0, word, levels);
        let at = ("`"@ + target->0 + "` does not take `"@).len() as int;
        assert(n.subrange(at, at + word.len()) =~= word);
        assert(text::holds(n, word));
    }
}

// ---- a role ---------------------------------------------------------------

/// What a line of a role file's front says under a key.
pub open spec fn says(line: Seq<char>, key: Seq<char>) -> Option<Seq<char>> {
    match text::cut(line, ':') {
        Some((k, v)) => if text::trimmed(k) == key {
            Some(roles::value_of(v))
        } else {
            None
        },
        None => None,
    }
}

pub open spec fn closes(line: Seq<char>) -> bool {
    text::trimmed(line) == "---"@
}

proof fn lemma_keys_apart()
    ensures
        "permission"@ != "difficulty"@,
        "permission"@ != "effort"@,
        "permission"@ != "when"@,
        "permission"@ != "model"@,
        "permission"@ != "tools"@,
        "difficulty"@ != "effort"@,
        "difficulty"@ != "when"@,
        "difficulty"@ != "model"@,
        "difficulty"@ != "tools"@,
        "effort"@ != "when"@,
        "effort"@ != "model"@,
        "effort"@ != "tools"@,
        "when"@ != "model"@,
        "when"@ != "tools"@,
        "model"@ != "tools"@,
        "explore"@ != "worker"@,
        "simple"@ != "hard"@,
{
    reveal_strlit("permission");
    reveal_strlit("difficulty");
    reveal_strlit("effort");
    reveal_strlit("when");
    reveal_strlit("model");
    reveal_strlit("tools");
    reveal_strlit("explore");
    reveal_strlit("worker");
    reveal_strlit("simple");
    reveal_strlit("hard");
    assert("permission"@.len() == 10 && "difficulty"@.len() == 10);
    assert("effort"@.len() == 6 && "when"@.len() == 4);
    assert("model"@.len() == 5 && "tools"@.len() == 5);
    assert("explore"@.len() == 7 && "worker"@.len() == 6);
    assert("simple"@.len() == 6 && "hard"@.len() == 4);
    assert("permission"@[0] != "difficulty"@[0]);
    assert("model"@[0] != "tools"@[0]);
}

/// While a front goes on without trouble.
pub open spec fn open_front(path: Seq<char>, lines: Seq<Seq<char>>) -> bool {
    &&& roles::lines_read(path, lines).trouble is None
    &&& forall|i: int| 0 <= i < lines.len() ==> !closes(#[trigger] lines[i])
}

proof fn lemma_front_goes_on(path: Seq<char>, lines: Seq<Seq<char>>)
    requires
        open_front(path, lines),
        lines.len() > 0,
    ensures
        open_front(path, lines.drop_last()),
        roles::lines_read(path, lines).in_front,
        roles::lines_read(path, lines.drop_last()).in_front,
    decreases lines.len(),
{
    let front = lines.drop_last();
    assert forall|i: int| 0 <= i < front.len() implies !closes(#[trigger] front[i]) by {
        assert(front[i] == lines[i]);
    }
    assert(!closes(lines[lines.len() - 1]));
    if front.len() > 0 {
        lemma_front_goes_on(path, front);
    }
}

/// In a role file's front, the last line under a key is the one that counts.
pub proof fn law_the_last_line_counts(
    path: Seq<char>,
    lines: Seq<Seq<char>>,
    key: Seq<char>,
    k: int,
)
    requires
        open_front(path, lines),
        0 <= k < lines.len(),
        says(lines[k], key) is Some,
        forall|j: int| k < j < lines.len() ==> says(#[trigger] lines[j], key) is None,
    ensures
        ({
            let f = roles::lines_read(path, lines);
            let v = says(lines[k], key)->0;
            &&& key == "permission"@ ==> (f.permission == Some(Access::Explore) && v
                == "explore"@) || (f.permission == Some(Access::Worker) && v == "worker"@)
            &&& key == "difficulty"@ ==> (f.difficulty == Some(Difficulty::Simple) && v
                == "simple"@) || (f.difficulty == Some(Difficulty::Hard) && v == "hard"@)
            &&& key == "effort"@ ==> f.effort is Some && f.effort == effort::configured(Some(v))
            &&& key == "when"@ ==> f.when == v
            &&& key == "model"@ ==> f.model == (if v.len() > 0 {
                Some(v)
            } else {
                None
            })
            &&& key == "tools"@ ==> f.tools == Some(
                roles::named_tools(text::pieces(text::bared(v, "[]"@), ',')),
            )
        }),
    decreases lines.len(),
{
    lemma_keys_apart();
    lemma_front_goes_on(path, lines);
    let front = lines.drop_last();
    assert(!closes(lines[lines.len() - 1]));
    if k < lines.len() - 1 {
        assert(says(lines[lines.len() - 1], key) is None);
        assert(front[k] == lines[k]);
        assert forall|j: int| k < j < front.len() implies says(#[trigger] front[j], key) is None by {
            assert(front[j] == lines[j]);
        }
        law_the_last_line_counts(path, front, key, k);
    }
}

/// What a front does not speak of, it leaves open.
pub proof fn law_silence_leaves_it_open(path: Seq<char>, lines: Seq<Seq<char>>, key: Seq<char>)
    requires
        open_front(path, lines),
        forall|j: int| 0 <= j < lines.len() ==> says(#[trigger] lines[j], key) is None,
    ensures
        ({
            let f = roles::lines_read(path, lines);
            &&& key == "permission"@ ==> f.permission is None
            &&& key == "difficulty"@ ==> f.difficulty is None
            &&& key == "effort"@ ==> f.effort is None
            &&& key == "when"@ ==> f.when.len() == 0
            &&& key == "model"@ ==> f.model is None
            &&& key == "tools"@ ==> f.tools is None
            &&& f.body.len() == 0
        }),
    decreases lines.len(),
{
    lemma_keys_apart();
    if lines.len() > 0 {
        lemma_front_goes_on(path, lines);
        let front = lines.drop_last();
        assert(!closes(lines[lines.len() - 1]));
        assert(says(lines[lines.len() - 1], key) is None);
        assert forall|j: int| 0 <= j < front.len() implies says(#[trigger] front[j], key) is None by {
            assert(front[j] == lines[j]);
        }
        law_silence_leaves_it_open(path, front, key);
    }
}

/// What follows the front is the persona, line for line; it changes nothing that the front
/// said.
pub proof fn law_the_persona_follows_the_front(
    path: Seq<char>,
    front: Seq<Seq<char>>,
    close: Seq<char>,
    rest: Seq<Seq<char>>,
)
    requires
        open_front(path, front),
        closes(close),
    ensures
        roles::lines_read(path, front.push(close) + rest) == (FrontView {
            in_front: false,
            body: text::strung(rest.map_values(|l: Seq<char>| l + "\n"@)),
            ..roles::lines_read(path, front)
        }),
    decreases rest.len(),
{
    let line = |l: Seq<char>| l + "\n"@;
    let all = front.push(close) + rest;
    if rest.len() == 0 {
        assert(all =~= front.push(close));
        assert(all.drop_last() =~= front);
        assert(all.last() == close);
        if front.len() > 0 {
            lemma_front_goes_on(path, front);
        }
        lemma_no_body(path, front);
        assert(rest.map_values(line) =~= Seq::empty());
        assert(text::strung(rest.map_values(line)) =~= Seq::empty());
        assert(roles::lines_read(path, front).body =~= Seq::empty());
    } else {
        law_the_persona_follows_the_front(path, front, close, rest.drop_last());
        assert(all.drop_last() =~= front.push(close) + rest.drop_last());
        assert(all.last() == rest.last());
        let m = rest.map_values(line);
        assert(m.drop_last() =~= rest.drop_last().map_values(line));
        assert(m.last() == rest.last() + "\n"@);
        let body = text::strung(rest.drop_last().map_values(line));
        assert(body + rest.last() + "\n"@ =~= body + (rest.last() + "\n"@));
    }
}

proof fn lemma_no_body(path: Seq<char>, lines: Seq<Seq<char>>)
    requires
        open_front(path, lines),
    ensures
        roles::lines_read(path, lines).body.len() == 0,
    decreases lines.len(),
{
    if lines.len() > 0 {
        lemma_front_goes_on(path, lines);
        assert(!closes(lines[lines.len() - 1]));
        lemma_no_body(path, lines.drop_last());
    }
}

/// A role is made of what its file says; it must say what the role may do and how hard its
/// work is, say who it is, and ask for no tool it may not have.
pub proof fn law_a_role_is_what_its_file_says(path: Seq<char>, id: Seq<char>, f: FrontView)
    ensures
        match roles::made(path, id, f) {
            Ok(r) => {
                &&& f.trouble is None && !f.in_front && !text::is_blank(f.body)
                &&& r.id == id && Some(r.permission) == f.permission && Some(r.difficulty)
                    == f.difficulty
                &&& r.persona == text::trimmed(f.body) && r.when == f.when
                &&& r.tools == f.tools && r.model == f.model && r.effort == f.effort
                &&& !r.from_project
                &&& f.tools matches Some(listed) ==> forall|i: int|
                    0 <= i < listed.len() ==> roles::allowed(r.permission).contains(
                        #[trigger] listed[i],
                    )
            },
            Err(_) => {
                ||| f.trouble is Some
                ||| f.in_front
                ||| text::is_blank(f.body)
                ||| f.permission is None
                ||| f.difficulty is None
                ||| f.tools is Some && exists|i: int|
                    0 <= i < f.tools->0.len() && !roles::allowed(f.permission->0).contains(
                        #[trigger] f.tools->0[i],
                    )
            },
        },
{
    lemma_blank_is_nothing(f.body);
    if f.tools is Some && f.permission is Some {
        lemma_first_extra(f.tools->0, roles::allowed(f.permission->0));
    }
}

proof fn lemma_first_extra(tools: Seq<Seq<char>>, allowed: Seq<Seq<char>>)
    ensures
        roles::first_extra(tools, allowed) is Some <==> exists|i: int|
            0 <= i < tools.len() && !allowed.contains(#[trigger] tools[i]),
    decreases tools.len(),
{
    if tools.len() > 0 {
        let front = tools.drop_last();
        lemma_first_extra(front, allowed);
        if roles::first_extra(front, allowed) is Some {
            let i = choose|i: int| 0 <= i < front.len() && !allowed.contains(#[trigger] front[i]);
            assert(tools[i] == front[i]);
        }
        if exists|i: int| 0 <= i < tools.len() && !allowed.contains(#[trigger] tools[i]) {
            let i = choose|i: int| 0 <= i < tools.len() && !allowed.contains(#[trigger] tools[i]);
            if i < front.len() {
                assert(front[i] == tools[i]);
            }
        }
        assert(tools[tools.len() - 1] == tools.last());
    }
}

/// A role file that cannot be read is named, whatever is wrong with it.
pub proof fn law_a_bad_role_file_is_named(f: RoleFileView)
    ensures
        roles::role_of(f) matches Err(e) ==> f.path.is_prefix_of(e),
{
    match roles::role_of(f) {
        Err(e) => {
            if f.stem is Some && f.content is Some {
                let all = text::lines(f.content->0);
                if all.len() > 0 && text::trimmed(all[0]) == "---"@ {
                    lemma_trouble_is_named(f.path, all.skip(1));
                }
            }
            assert(f.path =~= e.take(f.path.len() as int));
        },
        Ok(_) => {},
    }
}

proof fn lemma_trouble_is_named(path: Seq<char>, lines: Seq<Seq<char>>)
    ensures
        roles::lines_read(path, lines).trouble matches Some(t) ==> path.is_prefix_of(t),
    decreases lines.len(),
{
    if lines.len() > 0 {
        lemma_trouble_is_named(path, lines.drop_last());
        let f = roles::lines_read(path, lines);
        if f.trouble is Some && roles::lines_read(path, lines.drop_last()).trouble is None {
            assert(path =~= f.trouble->0.take(path.len() as int));
        }
    }
}

/// A role that explores may read; one that works may read and write; neither may do more.
pub proof fn law_a_worker_may_also_write(t: Seq<char>)
    ensures
        roles::allowed(Access::Explore).contains(t) <==> roles::reading().contains(t),
        roles::allowed(Access::Worker).contains(t) <==> roles::reading().contains(t)
            || roles::writing().contains(t),
{
    let r = roles::reading();
    let w = roles::writing();
    let both = roles::allowed(Access::Worker);
    if r.contains(t) {
        let i = choose|i: int| 0 <= i < r.len() && r[i] == t;
        assert(both[i] == t);
    }
    if w.contains(t) {
        let i = choose|i: int| 0 <= i < w.len() && w[i] == t;
        assert(both[r.len() + i] == t);
    }
    if both.contains(t) {
        let i = choose|i: int| 0 <= i < both.len() && both[i] == t;
        if i < r.len() {
            assert(r[i] == t);
        } else {
            assert(w[i - r.len()] == t);
        }
    }
}

/// A role that is added is found under its id, and every other role is found as before.
pub proof fn law_adding_a_role_keeps_the_others(
    all: Seq<RoleView>,
    role: RoleView,
    other: Seq<char>,
)
    requires
        other != role.id,
    ensures
        ({
            let now = roles::added(all, role);
            let a = roles::place(all, other);
            let b = roles::place(now, other);
            &&& a < all.len() <==> b < now.len()
            &&& a < all.len() ==> now[b as int] == all[a as int]
            &&& now[roles::place(now, role.id) as int] == role
        }),
{
    roles::law_a_file_replaces_its_namesake(all, role);
    let now = roles::added(all, role);
    roles::lemma_place_is_first(all, other);
    let a = roles::place(all, other) as int;
    assert forall|i: int| 0 <= i < a implies (#[trigger] now[i]).id != other by {
        assert(all[i].id != other);
    }
    roles::lemma_place_is_first(all, role.id);
    if a < all.len() {
        assert(now[a] == all[a]);
        roles::lemma_place(now, other, a);
    } else {
        assert forall|i: int| 0 <= i < now.len() implies (#[trigger] now[i]).id != other by {
            if i < all.len() {
                assert(all[i].id != other);
            }
        }
        roles::lemma_place(now, other, now.len() as int);
    }
}

/// Loading a directory fails exactly where one of its files cannot be read.
pub proof fn law_loading_fails_for_a_bad_file(
    before: Seq<RoleView>,
    files: Seq<RoleFileView>,
    project: bool,
)
    ensures
        roles::with_files(Ok(before), files, project) is Err <==> exists|i: int|
            0 <= i < files.len() && roles::role_of(#[trigger] files[i]) is Err,
    decreases files.len(),
{
    if files.len() > 0 {
        let front = files.drop_last();
        law_loading_fails_for_a_bad_file(before, front, project);
        if exists|i: int| 0 <= i < front.len() && roles::role_of(#[trigger] front[i]) is Err {
            let i = choose|i: int| 0 <= i < front.len() && roles::role_of(#[trigger] front[i]) is Err;
            assert(files[i] == front[i]);
        }
        if exists|i: int| 0 <= i < files.len() && roles::role_of(#[trigger] files[i]) is Err {
            let i = choose|i: int| 0 <= i < files.len() && roles::role_of(#[trigger] files[i]) is Err;
            if i < front.len() {
                assert(front[i] == files[i]);
            }
        }
        assert(files[files.len() - 1] == files.last());
    }
}

/// The last file of a name is the role of that name once a directory is loaded.
pub proof fn law_the_last_file_of_a_name_stands(
    before: Seq<RoleView>,
    files: Seq<RoleFileView>,
    project: bool,
    k: int,
)
    requires
        0 <= k < files.len(),
        roles::with_files(Ok(before), files, project) is Ok,
        forall|j: int|
            k < j < files.len() ==> roles::role_of(#[trigger] files[j])->Ok_0.id
                != roles::role_of(files[k])->Ok_0.id,
    ensures
        ({
            let all = roles::with_files(Ok(before), files, project)->Ok_0;
            let r = roles::role_of(files[k])->Ok_0;
            let at = roles::place(all, r.id);
            &&& roles::role_of(files[k]) is Ok
            &&& at < all.len() && all[at as int] == (RoleView { from_project: project, ..r })
        }),
    decreases files.len(),
{
    let front = files.drop_last();
    let so_far = roles::with_files(Ok(before), front, project)->Ok_0;
    let r = roles::role_of(files[k])->Ok_0;
    let last = roles::role_of(files.last())->Ok_0;
    let new = RoleView { from_project: project, ..last };
    if k == files.len() - 1 {
        roles::law_a_file_replaces_its_namesake(so_far, new);
    } else {
        assert(front[k] == files[k]);
        assert forall|j: int| k < j < front.len() implies roles::role_of(
            #[trigger] front[j],
        )->Ok_0.id != r.id by {
            assert(front[j] == files[j]);
        }
        law_the_last_file_of_a_name_stands(before, front, project, k);
        assert(roles::role_of(files[files.len() - 1])->Ok_0.id != r.id);
        law_adding_a_role_keeps_the_others(so_far, new, r.id);
    }
}

// ---- a model --------------------------------------------------------------

/// A row that says where its model is, is taken at its word; one that does not says it
/// by the environment.
pub proof fn law_a_row_says_where(r: OpenAiCompatRowView, u: UtilityRowView)
    ensures
        match llm::row_want(r) {
            WantView::Explicit { base_url, model, api_key_env } => r.base_url == Some(base_url)
                && r.model == Some(model) && api_key_env == r.api_key_env,
            WantView::Environment { api_key_env } => (r.base_url is None || r.model is None)
                && api_key_env == r.api_key_env,
            _ => false,
        },
        match llm::utility_want(u) {
            WantView::Explicit { base_url, model, api_key_env } => u.base_url == Some(base_url)
                && u.model == model && api_key_env == u.api_key_env,
            WantView::EnvironmentWithModel { api_key_env, model } => u.base_url is None && u.model
                == model && api_key_env == u.api_key_env,
            _ => false,
        },
{
}

/// What a row says of its model stands before what its endpoint says, and that before what
/// is usual; what neither speaks of stays as it was.
pub proof fn law_the_row_then_the_endpoint(
    start: AdapterConfigView,
    r: OpenAiCompatRowView,
    u: UtilityRowView,
    e: EndpointView,
)
    ensures
        ({
            let c = llm::turned(start, llm::row_knobs(r, e));
            &&& r.context_window matches Some(w) ==> c.context_window == w
            &&& r.context_window is None ==> (e.context_window matches Some(w)
                ==> c.context_window == w)
            &&& r.context_window is None && e.context_window is None ==> c.context_window
                == start.context_window
            &&& r.supports_vision matches Some(v) ==> c.supports_vision == v
            &&& r.supports_vision is None ==> (e.supports_vision matches Some(v)
                ==> c.supports_vision == v)
            &&& r.supports_vision is None && e.supports_vision is None ==> c.supports_vision
                == start.supports_vision
            &&& r.thinking_type is Some ==> c.thinking_type == r.thinking_type
            &&& r.thinking_type is None ==> c.thinking_type == start.thinking_type
            &&& r.thinking_keep is Some ==> c.thinking_keep == r.thinking_keep
            &&& r.thinking_keep is None ==> c.thinking_keep == start.thinking_keep
            &&& c.supports_reasoning_effort <==> r.supports_reasoning_effort
                || e.supports_reasoning_effort
        }),
        ({
            let c = llm::turned(start, llm::utility_knobs(u, e));
            &&& u.context_window matches Some(w) ==> c.context_window == w
            &&& u.context_window is None ==> (e.context_window matches Some(w)
                ==> c.context_window == w)
            &&& c.supports_vision == start.supports_vision
            &&& c.supports_reasoning_effort == u.supports_reasoning_effort
        }),
{
}

/// A model from a person's own configuration is taken as it is configured.
pub proof fn law_a_configured_model_is_as_configured(start: AdapterConfigView, e: EndpointView)
    ensures
        ({
            let c = llm::configured(start, e);
            &&& e.context_window matches Some(w) ==> c.context_window == w
            &&& e.context_window is None ==> c.context_window == start.context_window
            &&& e.supports_vision matches Some(v) ==> c.supports_vision == v
            &&& e.supports_vision is None ==> c.supports_vision == start.supports_vision
            &&& c.thinking_type == e.thinking_type && c.thinking_keep == e.thinking_keep
            &&& c.supports_reasoning_effort == e.supports_reasoning_effort
        }),
{
}

/// A scripted answer says its text, then makes its calls in order, then counts; a scripted
/// failure fails with its message.
pub proof fn law_a_script_is_played(script: Seq<ReplayStepView>, index: nat, k: int)
    requires
        index < script.len(),
        0 <= k < script[index as int].calls.len(),
    ensures
        ({
            let step = script[index as int];
            match llm::replayed(script, index) {
                Err(e) => step.fail == Some(e.message),
                Ok(events) => {
                    let n = events.len() - 1 - step.calls.len();
                    &&& step.fail is None
                    &&& n >= 0
                    &&& events[n + k] matches StreamEventView::ToolCall(c) && c.name
                        == step.calls[k].name && c.arguments == step.calls[k].args
                    &&& events.last() is Usage
                    &&& forall|i: int| 0 <= i < n ==> (#[trigger] events[i]) is TextDelta
                },
            }
        }),
{
}

} // verus!
