//! Asking a person: a question is put as it is meant, its answer reaches who asked, and
//! what is mounted or dumped on the way is all there.
use crate::ask;
use crate::ask::{AskArgsView, AskingView};
use crate::asking;
use crate::asking::{DecisionView, GateView, InputResponseView, Permission};
use crate::dump;
use crate::dump::DigestView;
use crate::events::{LoggedEventView, QuestionView};
use crate::json;
use crate::message::MessageView;
use crate::occurrence;
use crate::protocol::AgentEventView;
use crate::text;
use crate::tools;
use vstd::prelude::*;

verus! {

// ---- a question that waits ------------------------------------------------

/// A question waits, under its own number, until it is answered, and is answered once;
/// every other question waits on.
pub proof fn law_a_question_waits_for_its_answer(
    waiting: Seq<u64>,
    id: u64,
    other: u64,
    kind: Seq<char>,
    payload: Seq<char>,
)
    requires
        !waiting.contains(id),
        waiting.no_duplicates(),
        other != id,
    ensures
        ({
            let (now, told) = asking::put_question(true, waiting, id, kind, payload);
            let (after, answered) = asking::settled(now, id);
            &&& told == Some(AgentEventView::Request { id, kind, payload })
            &&& now.contains(id)
            &&& now.contains(other) <==> waiting.contains(other)
            &&& answered
            &&& after == waiting
            &&& !asking::settled(after, id).1
            &&& asking::settled(after, id).0 == after
        }),
        asking::put_question(false, waiting, id, kind, payload) == (
            waiting,
            None::<AgentEventView>,
        ),
        asking::settled(waiting, other).1 <==> waiting.contains(other),
        asking::settled(waiting, other).0.len() == waiting.len() - (if waiting.contains(other) {
            1int
        } else {
            0
        }),
{
    let now = waiting.push(id);
    assert(now[waiting.len() as int] == id);
    assert(now.contains(id));
    let k = now.index_of(id);
    assert(now.contains(id) ==> 0 <= k < now.len() && now[k] == id);
    assert(k == waiting.len()) by {
        if k < waiting.len() {
            assert(waiting[k] == id);
        }
    }
    assert(now.remove(k) =~= waiting);
    if waiting.contains(other) {
        let j = choose|j: int| 0 <= j < waiting.len() && waiting[j] == other;
        assert(now[j] == other);
    }
    if now.contains(other) {
        let j = choose|j: int| 0 <= j < now.len() && now[j] == other;
        assert(waiting[j] == other);
    }
}

/// A yes lets the call run and a no does not, for the reason that it was not approved; a
/// lasting yes is remembered exactly once, here or where such answers are kept.
pub proof fn law_an_answer_is_taken_at_its_word(
    grants: Set<Seq<char>>,
    g: GateView,
    answer: Option<Permission>,
    kept: bool,
)
    ensures
        ({
            let d = asking::decided(asking::permission_of(answer), g.tool);
            let now = asking::granted_after(grants, g, answer, kept);
            let key = asking::grant_key(g.tool, g.scope);
            let lasting = answer == Some(Permission::AllowAlways) && asking::is_grantable(g.scope);
            &&& d is Allow <==> answer == Some(Permission::AllowOnce) || answer == Some(
                Permission::AllowAlways,
            )
            &&& d matches DecisionView::Deny(why) ==> text::holds(why, g.tool)
            &&& asking::to_keep(answer, g.scope, kept) <==> lasting && kept
            &&& lasting && !kept ==> now == grants.insert(key)
            &&& !lasting || kept ==> now == grants
        }),
{
    let why = "`"@ + g.tool + "` was not approved"@;
    let at = "`"@.len() as int;
    assert(why.subrange(at, at + g.tool.len()) =~= g.tool);
}

// ---- a question that is shown ---------------------------------------------

/// A question is shown with its words, with every option in order under its value, and by
/// whom it is asked; without options it is answered in words.
pub proof fn law_a_question_is_shown_whole(q: QuestionView, k: int)
    ensures
        ({
            let r = asking::drawn(q);
            &&& r.question == q.prompt
            &&& r.options.len() == q.options.len()
            &&& 0 <= k < q.options.len() ==> r.options[k].label == q.options[k].value
                && r.options[k].description == Some(q.options[k].label)
            &&& q.asker matches Some(who) ==> who.is_suffix_of(r.header)
            &&& r.mode is Text <==> q.options.len() == 0
            &&& r.custom
        }),
{
    match q.asker {
        Some(who) => {
            let h = "Question · "@ + who;
            assert(who =~= h.subrange(h.len() - who.len(), h.len() as int));
        },
        None => {},
    }
}

/// What a person wrote is their answer, or else what they picked; who declined gave none.
pub proof fn law_the_answer_is_what_was_given(r: InputResponseView)
    ensures
        r.declined ==> asking::said(Some(r)) is None,
        !r.declined && r.text is Some ==> asking::said(Some(r)) == r.text,
        !r.declined && r.text is None && r.selected.len() > 0 ==> asking::said(Some(r)) == Some(
            r.selected[0],
        ),
        !r.declined && r.text is None && r.selected.len() == 0 ==> asking::said(Some(r)) is None,
        asking::said(None) is None,
{
}

/// A question that is handed on says every option in order, and then its words.
pub proof fn law_a_question_is_handed_on_whole(question: Seq<char>, options: Seq<Seq<char>>)
    ensures
        occurrence::in_order(
            asking::payload(question, options),
            options.map_values(|o: Seq<char>| json::quoted(o)).push(json::quoted(question)),
        ),
{
    let labels = options.map_values(|o: Seq<char>| json::quoted(o));
    let objects = asking::label_objects(options);
    assert forall|i: int| 0 <= i < labels.len() implies occurrence::in_order(
        #[trigger] objects[i],
        seq![labels[i]],
    ) by {
        occurrence::lemma_within("{\"label\":"@, labels[i], "}"@);
        assert(objects[i] =~= "{\"label\":"@ + labels[i] + "}"@);
    }
    occurrence::lemma_joined_within(objects, ","@, labels);
    let list = text::joined(objects, ","@);
    let front = "{\"custom\":true,\"header\":\"Question\",\"mode\":"@ + (if options.len() == 0 {
        "\"text\""@
    } else {
        "\"single\""@
    }) + ",\"options\":"@ + "["@;
    let mid = "]"@ + ",\"question\":"@;
    occurrence::lemma_wrapped(front, list, mid, labels);
    let q = json::quoted(question);
    occurrence::lemma_one_more(front + list + mid, labels, q, "}"@);
    assert(asking::payload(question, options) =~= front + list + mid + q + "}"@);
}

/// A question is put exactly where it says something and offers as many alternatives as a
/// choice needs; it then offers those that say something, in order. Else the model is told
/// what was wrong with it.
pub proof fn law_a_question_is_put_or_refused(a: AskArgsView, asker: Option<Seq<char>>)
    ensures
        ({
            let options = a.options.filter_map(
                |t: Seq<char>|
                    if text::is_blank(t) {
                        None
                    } else {
                        Some(text::trimmed(t))
                    },
            );
            match ask::posed(Ok(a), asker) {
                AskingView::Ask { question } => {
                    &&& !text::is_blank(a.question) && 2 <= options.len() <= 5
                    &&& question.prompt == text::trimmed(a.question) && question.asker == asker
                    &&& question.options.map_values(|c: crate::events::ChoiceView| c.value)
                        == options
                    &&& question.about is None
                },
                AskingView::Refuse { result } => result.is_error && (text::is_blank(a.question)
                    || options.len() < 2 || options.len() > 5),
            }
        }),
{
    let kept = |t: Seq<char>|
        if text::is_blank(t) {
            None
        } else {
            Some(text::trimmed(t))
        };
    crate::text_laws::law_what_says_something_is_kept(a.options);
    let options = a.options.filter_map(kept);
    match ask::posed(Ok(a), asker) {
        AskingView::Ask { question } => {
            assert(question.options.map_values(|c: crate::events::ChoiceView| c.value)
                =~= options);
        },
        _ => {},
    }
}

/// The model is told what the person answered; arguments it got wrong are told as wrong.
pub proof fn law_the_model_hears_the_answer(
    answer: Seq<char>,
    e: Seq<char>,
    asker: Option<Seq<char>>,
)
    ensures
        answer.is_suffix_of(ask::told(Some(answer)).content),
        !ask::told(Some(answer)).is_error,
        !ask::told(None).is_error,
        ask::posed(Err(e), asker) matches AskingView::Refuse { result } && result.is_error
            && e.is_suffix_of(result.content),
{
    let t = "The person answered: "@ + answer;
    assert(answer =~= t.subrange(t.len() - answer.len(), t.len() as int));
    let w = "invalid arguments: "@ + e;
    assert(e =~= w.subrange(w.len() - e.len(), w.len() as int));
}

// ---- tools that are mounted -----------------------------------------------

/// Tools are mounted from the first on, as far as their names are new; what is mounted is in
/// the catalogue, and so is all that was.
pub proof fn law_tools_are_mounted_while_they_are_new(
    catalog: Set<Seq<char>>,
    list: Seq<Seq<char>>,
)
    ensures
        ({
            let n = tools::room_for(catalog, list) as int;
            &&& 0 <= n <= list.len()
            &&& tools::with_tools(catalog, list, n as nat) == catalog.union(list.take(n).to_set())
            &&& forall|i: int| 0 <= i < n ==> !catalog.contains(#[trigger] list[i])
            &&& forall|i: int, j: int|
                0 <= i < j < n ==> (#[trigger] list[i]) != (#[trigger] list[j])
            &&& n < list.len() ==> catalog.contains(list[n]) || exists|i: int|
                0 <= i < n && (#[trigger] list[i]) == list[n]
        }),
{
    lemma_room(catalog, list);
    let n = tools::room_for(catalog, list);
    lemma_with_tools(catalog, list, n);
}

proof fn lemma_with_tools(catalog: Set<Seq<char>>, list: Seq<Seq<char>>, n: nat)
    requires
        n <= list.len(),
    ensures
        tools::with_tools(catalog, list, n) == catalog.union(list.take(n as int).to_set()),
    decreases n,
{
    if n == 0 {
        assert(list.take(0).to_set() =~= Set::empty());
        assert(tools::with_tools(catalog, list, n) =~= catalog.union(list.take(0).to_set()));
    } else {
        let m = (n - 1) as nat;
        lemma_with_tools(catalog, list, m);
        let t = list.take(n as int);
        assert(t =~= list.take(m as int).push(list[n - 1]));
        assert forall|x: Seq<char>| t.to_set().contains(x) <==> (list.take(m as int).to_set().contains(
            x,
        ) || x == list[n - 1]) by {
            if list.take(m as int).contains(x) {
                let i = choose|i: int| 0 <= i < m && list.take(m as int)[i] == x;
                assert(t[i] == x);
            }
            if t.contains(x) {
                let i = choose|i: int| 0 <= i < n && t[i] == x;
                if i < m {
                    assert(list.take(m as int)[i] == x);
                }
            }
            assert(t[n - 1] == list[n - 1]);
        }
        assert(tools::with_tools(catalog, list, n) =~= catalog.union(t.to_set()));
    }
}

proof fn lemma_room(catalog: Set<Seq<char>>, list: Seq<Seq<char>>)
    ensures
        ({
            let n = tools::room_for(catalog, list) as int;
            &&& 0 <= n <= list.len()
            &&& forall|i: int| 0 <= i < n ==> !catalog.contains(#[trigger] list[i])
            &&& forall|i: int, j: int|
                0 <= i < j < n ==> (#[trigger] list[i]) != (#[trigger] list[j])
            &&& n < list.len() ==> catalog.contains(list[n]) || exists|i: int|
                0 <= i < n && (#[trigger] list[i]) == list[n]
        }),
    decreases list.len(),
{
    if list.len() > 0 && !catalog.contains(list[0]) {
        let rest = list.skip(1);
        let more = catalog.insert(list[0]);
        lemma_room(more, rest);
        let n = tools::room_for(catalog, list) as int;
        assert forall|i: int| 0 <= i < n implies !catalog.contains(#[trigger] list[i]) by {
            if i > 0 {
                assert(!more.contains(rest[i - 1]));
                assert(rest[i - 1] == list[i]);
            }
        }
        assert forall|i: int, j: int| 0 <= i < j < n implies (#[trigger] list[i]) != (
        #[trigger] list[j]) by {
            assert(rest[j - 1] == list[j]);
            assert(!more.contains(rest[j - 1]));
            if i > 0 {
                assert(rest[i - 1] == list[i]);
            }
        }
        if n < list.len() {
            assert(rest[n - 1] == list[n]);
            if more.contains(rest[n - 1]) {
                if !catalog.contains(list[n]) {
                    assert(list[0] == list[n]);
                }
            } else {
                let i = choose|i: int| 0 <= i < n - 1 && (#[trigger] rest[i]) == rest[n - 1];
                assert(list[i + 1] == list[n]);
            }
        }
    }
}

// ---- a request that is dumped ---------------------------------------------

/// The highest number of a log is one of its numbers, and none is above it.
pub proof fn law_the_highest_number_is_the_highest(log: Seq<LoggedEventView>)
    ensures
        forall|i: int| 0 <= i < log.len() ==> (#[trigger] log[i]).seq <= dump::highest(log),
        log.len() > 0 ==> exists|i: int|
            0 <= i < log.len() && (#[trigger] log[i]).seq == dump::highest(log),
    decreases log.len(),
{
    if log.len() > 0 {
        let front = log.drop_last();
        law_the_highest_number_is_the_highest(front);
        assert forall|i: int| 0 <= i < log.len() implies (#[trigger] log[i]).seq
            <= dump::highest(log) by {
            if i < front.len() {
                assert(front[i] == log[i]);
            }
        }
        let n = log.len() - 1;
        assert(log[n] == log.last());
        if log.last().seq <= dump::highest(front) {
            if front.len() > 0 {
                let i = choose|i: int|
                    0 <= i < front.len() && (#[trigger] front[i]).seq == dump::highest(front);
                assert(log[i] == front[i]);
            } else {
                assert(log[0].seq == 0);
            }
        }
    }
}

/// Every message of a request is dumped, in order, with the digest of its text.
pub proof fn law_every_message_is_dumped(
    ms: u64,
    session: Seq<char>,
    log: Seq<LoggedEventView>,
    messages: Seq<MessageView>,
    digests: Seq<DigestView>,
    count: nat,
)
    requires
        digests.len() == messages.len(),
    ensures
        occurrence::in_order(
            dump::dumped(ms, session, log, messages, digests, count),
            digests.map_values(|d: DigestView| d.text),
        ),
{
    let marks = digests.map_values(|d: DigestView| d.text);
    let texts = dump::message_texts(messages, digests);
    assert forall|i: int| 0 <= i < marks.len() implies occurrence::in_order(
        #[trigger] texts[i],
        seq![marks[i]],
    ) by {
        let m = messages[i];
        let front = "{\"i\":"@ + text::decimal(i as nat) + ",\"role\":\""@
            + crate::ui_jsonrpc::role_name(m.role) + "\",\"len\":"@ + text::decimal(
            text::bytes(m.text),
        ) + ",\"h\":\""@;
        let rest = texts[i].skip((front + marks[i]).len() as int);
        occurrence::lemma_within(front, marks[i], rest);
        assert(texts[i] =~= front + marks[i] + rest);
    }
    occurrence::lemma_joined_within(texts, ","@, marks);
    let all = dump::dumped(ms, session, log, messages, digests, count);
    let list = text::joined(texts, ","@);
    let tail = "]}\n"@;
    let front = all.take(all.len() - tail.len() - list.len());
    occurrence::lemma_wrapped(front, list, tail, marks);
    assert(all =~= front + list + tail);
}

/// A dump counts what it is of: its time, the log's events and the last of them, the
/// messages, their size and the tools.
pub proof fn law_a_dump_counts_its_request(
    ms: u64,
    session: Seq<char>,
    log: Seq<LoggedEventView>,
    messages: Seq<MessageView>,
    digests: Seq<DigestView>,
    count: nat,
)
    ensures
        occurrence::in_order(
            dump::dumped(ms, session, log, messages, digests, count),
            seq![
                text::decimal(ms as nat),
                text::debugged(session),
                text::decimal(log.len()),
                text::decimal(dump::highest(log) as nat),
                text::decimal(messages.len()),
                text::decimal(dump::total(messages)),
                text::decimal(count),
            ],
        ),
        dump::total(Seq::empty()) == 0,
        messages.len() > 0 ==> dump::total(messages) == dump::total(messages.drop_last())
            + text::bytes(messages.last().text),
{
    let all = dump::dumped(ms, session, log, messages, digests, count);
    let a = text::decimal(ms as nat);
    let b = text::debugged(session);
    let c = text::decimal(log.len());
    let d = text::decimal(dump::highest(log) as nat);
    let e = text::decimal(messages.len());
    let f = text::decimal(dump::total(messages));
    let g = text::decimal(count);
    occurrence::lemma_within("{\"ts\":"@, a, ",\"session\":"@);
    let s1 = "{\"ts\":"@ + a + ",\"session\":"@;
    let p1 = seq![a];
    occurrence::lemma_one_more(s1, p1, b, ",\"events\":"@);
    let s2 = s1 + b + ",\"events\":"@;
    let p2 = p1.push(b);
    occurrence::lemma_one_more(s2, p2, c, ",\"max_seq\":"@);
    let s3 = s2 + c + ",\"max_seq\":"@;
    let p3 = p2.push(c);
    occurrence::lemma_one_more(s3, p3, d, ",\"n_msgs\":"@);
    let s4 = s3 + d + ",\"n_msgs\":"@;
    let p4 = p3.push(d);
    occurrence::lemma_one_more(s4, p4, e, ",\"total_chars\":"@);
    let s5 = s4 + e + ",\"total_chars\":"@;
    let p5 = p4.push(e);
    occurrence::lemma_one_more(s5, p5, f, ",\"tool_defs\":"@);
    let s6 = s5 + f + ",\"tool_defs\":"@;
    let p6 = p5.push(f);
    let rest = all.skip((s6 + g).len() as int);
    occurrence::lemma_one_more(s6, p6, g, rest);
    assert(p6.push(g) =~= seq![a, b, c, d, e, f, g]);
    assert(all =~= s6 + g + rest);
}

} // verus!
