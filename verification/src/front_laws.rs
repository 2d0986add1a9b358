//! What a person sees and types: a line means what it says, a screen shows what the log
//! holds, and a caller is answered about what it asked.
use crate::events::{ChoiceView, QuestionView, SessionEventView};
use crate::json;
use crate::json::JsonView;
use crate::message::MessageView;
use crate::occurrence;
use crate::protocol::AgentStatus;
use crate::text;
use crate::turn::TurnOutcomeView;
use crate::ui;
use crate::ui::{CommandView, InputView, ReplStepView, RowView};
use crate::ui_jsonrpc;
use crate::ui_jsonrpc::{IncomingView, LiveView, NumberedView, RequestView, TargetView};
use crate::ui_tui;
use crate::ui_tui::{Key, LineView, SignalView, TuiStep, TypingView};
use vstd::prelude::*;

verus! {

// ---- a line that was typed ------------------------------------------------

proof fn lemma_command_words()
    ensures
        "/exit"@.len() == 5 && "/exit"@[0] == '/' && "/exit"@[1] == 'e',
        "/quit"@.len() == 5 && "/quit"@[0] == '/' && "/quit"@[1] == 'q',
        "/help"@.len() == 5 && "/help"@[0] == '/' && "/help"@[1] == 'h',
        "/rows"@.len() == 5 && "/rows"@[0] == '/' && "/rows"@[1] == 'r',
        "/dump"@.len() == 5 && "/dump"@[0] == '/' && "/dump"@[1] == 'd',
        "/audit"@.len() == 6 && "/audit"@[0] == '/' && "/audit"@[1] == 'a',
        "/stop"@.len() == 5 && "/stop"@[0] == '/' && "/stop"@[1] == 's',
        "/agents"@.len() == 7 && "/agents"@[0] == '/' && "/agents"@[1] == 'a',
        "/seams"@.len() == 6 && "/seams"@[0] == '/' && "/seams"@[1] == 's',
        "/title"@.len() == 6 && "/title"@[0] == '/' && "/title"@[1] == 't',
        "/patch "@.len() == 7 && "/patch "@[0] == '/' && "/patch "@[1] == 'p',
{
    reveal_strlit("/exit");
    reveal_strlit("/quit");
    reveal_strlit("/help");
    reveal_strlit("/rows");
    reveal_strlit("/dump");
    reveal_strlit("/audit");
    reveal_strlit("/stop");
    reveal_strlit("/agents");
    reveal_strlit("/seams");
    reveal_strlit("/title");
    reveal_strlit("/patch ");
}

/// A line means the command it names, whatever white space is around it; a line that names
/// none and does not begin as a command is said as it is.
pub proof fn law_a_line_means_what_it_says(line: Seq<char>)
    ensures
        ({
            let t = text::trimmed(line);
            let c = ui::meant(line);
            &&& c is Nothing <==> text::is_blank(line)
            &&& c is Exit <==> t == "/exit"@ || t == "/quit"@
            &&& c is Help <==> t == "/help"@
            &&& c is Rows <==> t == "/rows"@
            &&& c is Dump <==> t == "/dump"@
            &&& c is Audit <==> t == "/audit"@
            &&& c is Stop <==> t == "/stop"@
            &&& c is Agents <==> t == "/agents"@
            &&& c is Seams <==> t == "/seams"@
            &&& c is Title <==> t == "/title"@
            &&& c is Patch <==> "/patch "@.is_prefix_of(t)
            &&& c is Say <==> t.len() > 0 && t[0] != '/'
            &&& c matches CommandView::Say(said) ==> said == t
        }),
{
    lemma_command_words();
    text::lemma_blank(line);
    let t = text::trimmed(line);
    if "/patch "@.is_prefix_of(t) {
        assert(t[0] == "/patch "@[0]);
        assert(t[1] == "/patch "@[1]);
    }
}

/// A patch names the file behind it.
pub proof fn law_a_patch_names_its_file(line: Seq<char>, path: Seq<char>)
    requires
        text::trimmed(line) == "/patch "@ + path,
        !"/patch "@.is_prefix_of(path),
    ensures
        ui::meant(line) == CommandView::Patch(text::trimmed(path)),
{
    law_a_line_means_what_it_says(line);
    let t = text::trimmed(line);
    let head = "/patch "@;
    lemma_command_words();
    assert(head =~= t.take(head.len() as int));
    assert(head.is_prefix_of(t));
    assert(t.skip(head.len() as int) =~= path);
    assert(ui::without_heads(path, head) == path);
    assert(ui::without_heads(t, head) == ui::without_heads(path, head));
}

/// What is read is a command where it begins as one, and delivered as it is where not.
pub proof fn law_a_line_is_sorted(line: Seq<char>)
    ensures
        ({
            let t = text::trimmed(line);
            match ui::sorted_out(line) {
                InputView::Nothing => text::is_blank(line),
                InputView::Command(c) => c == t && t.len() > 0 && t[0] == '/',
                InputView::Deliver(d) => d == t && t.len() > 0 && t[0] != '/',
            }
        }),
{
    text::lemma_blank(line);
}

/// A turn that is owed is driven before anything is read; a prompt is shown once for each
/// turn and each command.
pub proof fn law_a_turn_comes_before_reading(needs_prompt: bool, command: Seq<char>)
    ensures
        ui::next_step(needs_prompt, true) == (true, ReplStepView::Drive),
        ui::next_step(needs_prompt, false).1 == (ReplStepView::Read { prompt: needs_prompt }),
        !ui::next_step(needs_prompt, false).0,
        ui::heard_step(needs_prompt, None).1 == Some(ReplStepView::End),
        ui::heard_step(needs_prompt, Some(InputView::Command(command))) == (
            true,
            Some(ReplStepView::Handle(command)),
        ),
        ui::heard_step(needs_prompt, Some(InputView::Deliver(command))) == (
            needs_prompt,
            None::<ReplStepView>,
        ),
{
}

/// What is typed picks the first option that begins with it, whatever its case.
pub proof fn law_the_first_fit_is_picked(options: Seq<Seq<char>>, typed: Seq<char>, k: int)
    requires
        0 <= k <= options.len(),
        forall|i: int|
            0 <= i < k ==> !typed.is_prefix_of(text::lowered(#[trigger] options[i])),
        k < options.len() ==> typed.is_prefix_of(text::lowered(options[k])),
    ensures
        ui::picked(options, typed) == (if k < options.len() {
            Some(options[k])
        } else {
            None
        }),
    decreases options.len(),
{
    if k > 0 {
        let rest = options.skip(1);
        assert(!typed.is_prefix_of(text::lowered(options[0])));
        assert forall|i: int| 0 <= i < k - 1 implies !typed.is_prefix_of(
            text::lowered(#[trigger] rest[i]),
        ) by {
            assert(rest[i] == options[i + 1]);
        }
        law_the_first_fit_is_picked(rest, typed, k - 1);
    }
}

/// A turn that failed is shown with its error, and one that was stopped as stopped; any
/// other is not spoken of.
pub proof fn law_only_trouble_is_shown(o: TurnOutcomeView)
    ensures
        ({
            let out = ui::after_turn_lines(o);
            &&& o.error matches Some(e) ==> out.len() > 0 && text::holds(out[0], e)
            &&& o.error is None && !(o.stop is Cancelled) ==> out.len() == 0
            &&& out.len() == (if o.error is Some {
                1nat
            } else {
                0
            }) + (if o.stop is Cancelled {
                1nat
            } else {
                0
            })
        }),
{
    match o.error {
        Some(e) => {
            let out = ui::after_turn_lines(o);
            let at = "\u{1b}[31m"@.len() as int;
            assert(out[0].subrange(at, at + e.len()) =~= e);
        },
        None => {},
    }
}

/// Every row is shown, in order, by its id and its plugin, and so is every finding; without
/// findings the tree is said to be consistent.
pub proof fn law_every_row_is_shown(rows: Seq<RowView>, findings: Seq<Seq<char>>, k: int)
    ensures
        ui::rows_shown(Some(rows)).len() == rows.len(),
        0 <= k < rows.len() ==> occurrence::in_order(
            ui::rows_shown(Some(rows))[k],
            seq![rows[k].id, rows[k].plugin],
        ),
        findings.len() > 0 ==> ui::audit_shown(Some(findings)).len() == findings.len(),
        0 <= k < findings.len() ==> text::holds(ui::audit_shown(Some(findings))[k], findings[k]),
        findings.len() == 0 ==> ui::audit_shown(Some(findings)) == seq![ui::dim("consistent"@)],
        ui::rows_shown(None) == ui::audit_shown(None),
{
    if 0 <= k < rows.len() {
        let r = rows[k];
        let line = ui::rows_shown(Some(rows))[k];
        let mark = if r.enabled {
            " "@
        } else {
            "·"@
        };
        let front = "\u{1b}[2m  "@ + mark + " "@;
        let gap = text::columned(r.id, 28).skip(r.id.len() as int);
        assert(text::columned(r.id, 28) =~= r.id + gap);
        occurrence::lemma_within(front, r.id, gap + " "@);
        occurrence::lemma_one_more(
            front + r.id + (gap + " "@),
            seq![r.id],
            r.plugin,
            "\u{1b}[0m"@,
        );
        assert(front + r.id + (gap + " "@) + r.plugin + "\u{1b}[0m"@ =~= line);
        assert(seq![r.id].push(r.plugin) =~= seq![r.id, r.plugin]);
    }
    if 0 <= k < findings.len() {
        let at = "\u{1b}[33m  "@.len() as int;
        let line = ui::audit_shown(Some(findings))[k];
        assert(line.subrange(at, at + findings[k].len()) =~= findings[k]);
    }
}

// ---- a call from another program ------------------------------------------

/// A line that holds a call is run with its id, its method and its parameters; one that
/// holds none is refused, and a blank one skipped.
pub proof fn law_a_call_is_taken_as_made(line: Seq<char>)
    ensures
        match ui_jsonrpc::incoming(line) {
            IncomingView::Skip => text::is_blank(line),
            IncomingView::Run(c) => !text::is_blank(line) && (json::parsed(line) matches Ok(j)
                && Some(c.method) == json::text_under(j, "method"@) && (json::member(
                j,
                "id"@,
            ) matches Some(id) ==> c.id == id) && (json::member(j, "params"@) matches Some(p)
                ==> c.params == p)),
            IncomingView::Refuse(_) => !text::is_blank(line) && (json::parsed(line) is Err
                || json::text_under(json::parsed(line)->Ok_0, "method"@) is None),
        },
{
}

proof fn lemma_method_words()
    ensures
        "agent/create"@.len() == 12 && "agent/create"@[0] == 'a',
        "agent/list"@.len() == 10 && "agent/list"@[0] == 'a',
        "agent/list"@[6] == 'l',
        "agent/send"@.len() == 10 && "agent/send"@[0] == 'a',
        "agent/send"@[6] == 's',
        "agent/inject"@.len() == 12 && "agent/inject"@[0] == 'a',
        "agent/create"@[6] == 'c' && "agent/inject"@[6] == 'i',
        "agent/cancel"@.len() == 12 && "agent/cancel"@[6] == 'c' && "agent/cancel"@[7] == 'a',
        "agent/create"@[7] == 'r',
        "session/transcript"@.len() == 18,
        "session/events"@.len() == 14,
        "harness/seams"@.len() == 13 && "harness/seams"@[8] == 's',
        "harness/rows"@.len() == 12 && "harness/rows"@[0] == 'h',
        "agent/cancel"@[0] == 'a',
        "harness/patch"@.len() == 13 && "harness/patch"@[8] == 'p',
        "harness/audit"@.len() == 13 && "harness/audit"@[8] == 'a',
        "user/answer"@.len() == 11,
        "shutdown"@.len() == 8,
{
    reveal_strlit("agent/create");
    reveal_strlit("agent/list");
    reveal_strlit("agent/send");
    reveal_strlit("agent/inject");
    reveal_strlit("agent/cancel");
    reveal_strlit("session/transcript");
    reveal_strlit("session/events");
    reveal_strlit("harness/seams");
    reveal_strlit("harness/rows");
    reveal_strlit("harness/patch");
    reveal_strlit("harness/audit");
    reveal_strlit("user/answer");
    reveal_strlit("shutdown");
}

/// A method asks for what it is named for, with the parameters it came with; a name that
/// is no method is unknown by that name.
pub proof fn law_a_method_asks_for_what_it_says(method: Seq<char>, params: JsonView)
    ensures
        ({
            let r = ui_jsonrpc::asked(method, params);
            let agent = json::whole_under(params, "agent"@);
            let text = json::text_under(params, "text"@);
            &&& r is Create <==> method == "agent/create"@
            &&& r is List <==> method == "agent/list"@
            &&& r is Send <==> method == "agent/send"@
            &&& r is Inject <==> method == "agent/inject"@
            &&& r is Cancel <==> method == "agent/cancel"@
            &&& r is Transcript <==> method == "session/transcript"@
            &&& r is Events <==> method == "session/events"@
            &&& r is Seams <==> method == "harness/seams"@
            &&& r is Rows <==> method == "harness/rows"@
            &&& r is Patch <==> method == "harness/patch"@
            &&& r is Audit <==> method == "harness/audit"@
            &&& r is Answer <==> method == "user/answer"@
            &&& r is Shutdown <==> method == "shutdown"@
            &&& match r {
                RequestView::Send { agent: a, text: t } => a == agent && t == text,
                RequestView::Inject { agent: a, text: t } => a == agent && t == text,
                RequestView::Cancel { agent: a } => a == agent,
                RequestView::Transcript { agent: a } => a == agent,
                RequestView::Events { agent: a, after } => a == agent && (json::whole_under(
                    params,
                    "after"@,
                ) matches Some(n) ==> after == n) && (json::whole_under(params, "after"@) is None
                    ==> after == 0),
                RequestView::Patch { layer } => layer == json::text_under(params, "patch"@),
                RequestView::Answer { id, answer } => id == json::whole_under(params, "id"@)
                    && answer == json::text_under(params, "answer"@),
                RequestView::Unknown(m) => m == method,
                _ => true,
            }
        }),
{
    lemma_method_words();
}

/// A call is for the agent it names; for the only one, where it names none; and for a new
/// one, where there is none. What is not there is refused by its number.
pub proof fn law_a_call_finds_its_agent(agent: Option<u64>, live: Seq<u64>)
    ensures
        match ui_jsonrpc::resolved(agent, live) {
            Ok(TargetView::Agent(id)) => live.contains(id) && (agent is Some ==> agent == Some(id))
                && (agent is None ==> live.len() == 1),
            Ok(TargetView::Create) => agent is None && live.len() == 0,
            Err(e) => (agent matches Some(id) && !live.contains(id) && text::decimal(
                id as nat,
            ).is_suffix_of(e)) || (agent is None && live.len() > 1),
        },
{
    match agent {
        Some(id) => {
            let d = text::decimal(id as nat);
            let e = "no agent #"@ + d;
            assert(d =~= e.subrange(e.len() - d.len(), e.len() as int));
        },
        None => {
            if live.len() == 1 {
                assert(live.contains(live[0]));
            }
        },
    }
}

/// A caller's answer says what it is an answer to, and what came of it.
pub proof fn law_an_answer_says_what_it_answers(
    id: Seq<char>,
    result: Seq<char>,
    message: Seq<char>,
)
    ensures
        occurrence::in_order(
            ui_jsonrpc::answered(id, Ok(Some(result))).0,
            seq![id, result],
        ),
        occurrence::in_order(
            ui_jsonrpc::answered(id, Err(message)).0,
            seq![json::quoted(message), id],
        ),
        occurrence::in_order(ui_jsonrpc::answered(id, Ok(None)).0, seq![id]),
        ui_jsonrpc::answered(id, Ok(Some(result))).1,
        ui_jsonrpc::answered(id, Err(message)).1,
{
    let head = "{\"id\":"@;
    let mid = ",\"jsonrpc\":\"2.0\",\"result\":"@;
    occurrence::lemma_within(head, id, mid);
    occurrence::lemma_one_more(head + id + mid, seq![id], result, "}"@);
    assert(seq![id].push(result) =~= seq![id, result]);
    assert(ui_jsonrpc::result_text(id, result) =~= head + id + mid + result + "}"@);
    let yes = "{\"ok\":true}"@;
    occurrence::lemma_within(head, id, mid + yes + "}"@);
    assert(ui_jsonrpc::result_text(id, yes) =~= head + id + (mid + yes + "}"@));
    let front = "{\"error\":{\"code\":"@ + "-32000"@ + ",\"message\":"@;
    let m = json::quoted(message);
    occurrence::lemma_within(front, m, "},\"id\":"@);
    occurrence::lemma_one_more(
        front + m + "},\"id\":"@,
        seq![m],
        id,
        ",\"jsonrpc\":\"2.0\"}"@,
    );
    assert(seq![m].push(id) =~= seq![m, id]);
    assert(ui_jsonrpc::error_text(id, "-32000"@, message) =~= front + m + "},\"id\":"@ + id
        + ",\"jsonrpc\":\"2.0\"}"@);
}

/// The events told are those after the one named, in order, each with its number.
pub proof fn law_later_events_are_told(list: Seq<NumberedView>, after: u64, k: int)
    ensures
        ({
            let late = list.filter(|e: NumberedView| e.seq > after);
            let out = ui_jsonrpc::later(list, after);
            &&& out.len() == late.len()
            &&& 0 <= k < late.len() ==> occurrence::in_order(
                out[k],
                seq![late[k].event, text::decimal(late[k].seq as nat)],
            )
        }),
    decreases list.len(),
{
    reveal(Seq::filter);
    let is_late = |e: NumberedView| e.seq > after;
    if list.len() > 0 {
        let front = list.drop_last();
        law_later_events_are_told(front, after, k);
        let e = list.last();
        if e.seq > after && k == ui_jsonrpc::later(front, after).len() {
            let d = text::decimal(e.seq as nat);
            let head = "{\"event\":"@;
            let mid = ",\"seq\":"@;
            occurrence::lemma_within(head, e.event, mid);
            occurrence::lemma_one_more(head + e.event + mid, seq![e.event], d, "}"@);
            assert(seq![e.event].push(d) =~= seq![e.event, d]);
            assert(ui_jsonrpc::later(list, after)[k] =~= head + e.event + mid + d + "}"@);
        }
    }
}

/// A transcript says every message of the conversation, in order.
pub proof fn law_a_transcript_says_everything(list: Seq<MessageView>)
    ensures
        occurrence::in_order(
            ui_jsonrpc::transcript_text(list),
            list.map_values(|m: MessageView| json::quoted(m.text)),
        ),
{
    let said = list.map_values(|m: MessageView| json::quoted(m.text));
    let texts = ui_jsonrpc::message_texts(list);
    assert forall|i: int| 0 <= i < said.len() implies occurrence::in_order(
        #[trigger] texts[i],
        seq![said[i]],
    ) by {
        let m = list[i];
        let front = "{\"role\":"@ + json::quoted(ui_jsonrpc::role_name(m.role)) + ",\"text\":"@;
        occurrence::lemma_within(front, said[i], "}"@);
        assert(texts[i] =~= front + said[i] + "}"@);
    }
    occurrence::lemma_joined_within(texts, ","@, said);
    let j = text::joined(texts, ","@);
    occurrence::lemma_wrapped("{\"messages\":"@ + "["@, j, "]"@ + "}"@, said);
    assert(ui_jsonrpc::transcript_text(list) =~= "{\"messages\":"@ + "["@ + j + ("]"@ + "}"@));
}

/// A list of agents says every one, by its number.
pub proof fn law_every_agent_is_listed(list: Seq<LiveView>)
    ensures
        occurrence::in_order(
            ui_jsonrpc::list_text(list),
            list.map_values(|a: LiveView| text::decimal(a.id as nat)),
        ),
{
    let ids = list.map_values(|a: LiveView| text::decimal(a.id as nat));
    let texts = ui_jsonrpc::live_texts(list);
    assert forall|i: int| 0 <= i < ids.len() implies occurrence::in_order(
        #[trigger] texts[i],
        seq![ids[i]],
    ) by {
        let rest = ",\"status\":"@ + json::quoted(ui_jsonrpc::status_name(list[i].status)) + "}"@;
        occurrence::lemma_within("{\"id\":"@, ids[i], rest);
        assert(texts[i] =~= "{\"id\":"@ + ids[i] + rest);
    }
    occurrence::lemma_joined_within(texts, ","@, ids);
    let j = text::joined(texts, ","@);
    occurrence::lemma_wrapped("{\"agents\":"@ + "["@, j, "]"@ + "}"@, ids);
    assert(ui_jsonrpc::list_text(list) =~= "{\"agents\":"@ + "["@ + j + ("]"@ + "}"@));
}

/// A list of rows says every one, by its id.
pub proof fn law_every_row_is_listed(list: Seq<RowView>)
    ensures
        occurrence::in_order(
            ui_jsonrpc::rows_text(list),
            list.map_values(|r: RowView| json::quoted(r.id)),
        ),
{
    let ids = list.map_values(|r: RowView| json::quoted(r.id));
    let texts = ui_jsonrpc::row_jsons(list);
    assert forall|i: int| 0 <= i < ids.len() implies occurrence::in_order(
        #[trigger] texts[i],
        seq![ids[i]],
    ) by {
        let r = list[i];
        let front = "{\"enabled\":"@ + (if r.enabled {
            "true"@
        } else {
            "false"@
        }) + ",\"id\":"@;
        let rest = ",\"plugin\":"@ + json::quoted(r.plugin) + "}"@;
        occurrence::lemma_within(front, ids[i], rest);
        assert(texts[i] =~= front + ids[i] + rest);
    }
    occurrence::lemma_joined_within(texts, ","@, ids);
    let j = text::joined(texts, ","@);
    occurrence::lemma_wrapped("{\"rows\":"@ + "["@, j, "]"@ + "}"@, ids);
    assert(ui_jsonrpc::rows_text(list) =~= "{\"rows\":"@ + "["@ + j + ("]"@ + "}"@));
}

/// What is told of a turn's end says its agent, its error, what it said and its number.
pub proof fn law_an_outcome_is_told_whole(o: TurnOutcomeView, agent: u64)
    ensures
        occurrence::in_order(
            ui_jsonrpc::outcome_text(o, agent),
            seq![
                text::decimal(agent as nat),
                json::quoted_or_null(o.error),
                json::quoted(o.text),
                text::decimal(o.turn as nat),
            ],
        ),
{
    let a = text::decimal(agent as nat);
    let e = json::quoted_or_null(o.error);
    let t = json::quoted(o.text);
    let n = text::decimal(o.turn as nat);
    let head = "{\"agent\":"@;
    let to_error = ",\"error\":"@;
    let to_text = ",\"steps\":"@ + text::decimal(o.steps as nat) + ",\"stop\":"@ + json::quoted(
        crate::log::stop_name(o.stop),
    ) + ",\"text\":"@;
    let to_turn = ",\"tool_calls\":"@ + text::decimal(o.tool_calls as nat) + ",\"turn\":"@;
    occurrence::lemma_within(head, a, to_error);
    let s1 = head + a + to_error;
    occurrence::lemma_one_more(s1, seq![a], e, to_text);
    let s2 = s1 + e + to_text;
    occurrence::lemma_one_more(s2, seq![a].push(e), t, to_turn);
    let s3 = s2 + t + to_turn;
    occurrence::lemma_one_more(s3, seq![a].push(e).push(t), n, "}"@);
    assert(seq![a].push(e).push(t).push(n) =~= seq![a, e, t, n]);
    assert(ui_jsonrpc::outcome_text(o, agent) =~= s3 + n + "}"@);
}

/// A question is put with its number, every answer it offers in order, and its words.
pub proof fn law_a_question_is_put_whole(id: u64, q: QuestionView)
    ensures
        occurrence::in_order(
            ui_jsonrpc::question_text(id, q),
            seq![text::decimal(id as nat)] + json::all_quoted(
                q.options.map_values(|c: ChoiceView| c.value),
            ) + seq![json::quoted(q.prompt)],
        ),
{
    let n = text::decimal(id as nat);
    let values = json::all_quoted(q.options.map_values(|c: ChoiceView| c.value));
    let p = json::quoted(q.prompt);
    let front = "{\"jsonrpc\":\"2.0\",\"method\":\""@ + "user/question"@ + "\",\"params\":"@
        + "{\"about\":"@ + ui_jsonrpc::about_json(q.about) + ",\"asker\":"@ + json::quoted_or_null(
        q.asker,
    ) + ",\"id\":"@;
    let mid = ",\"options\":"@ + "["@;
    let list = text::joined(values, ","@);
    let end = "]"@ + ",\"question\":"@;
    occurrence::lemma_within(front, n, mid);
    occurrence::lemma_joined(values, ","@);
    occurrence::lemma_together(front + n + mid, seq![n], list, values);
    occurrence::lemma_none(end);
    occurrence::lemma_together(front + n + mid + list, seq![n] + values, end, Seq::empty());
    let parts = seq![n] + values + Seq::empty();
    occurrence::lemma_one_more(front + n + mid + list + end, parts, p, "}"@ + "}"@);
    assert(parts.push(p) =~= seq![n] + values + seq![p]);
    assert(ui_jsonrpc::question_text(id, q) =~= front + n + mid + list + end + p + ("}"@ + "}"@));
}

// ---- the screen -----------------------------------------------------------

/// What a person said, every line and every call of an answer, every result and every end
/// of a turn is on the transcript, in its own style.
pub proof fn law_everything_said_is_on_screen(e: SessionEventView, k: int)
    ensures
        ({
            let out = ui_tui::lines_for(e);
            match e {
                SessionEventView::UserMessage { text, .. } => out.len() == 1 && text.is_suffix_of(
                    out[0].text,
                ) && out[0].style is User,
                SessionEventView::Injected { text, .. } => out.len() == 1 && text::first_line(
                    text,
                ).is_suffix_of(out[0].text) && out[0].style is Meta,
                SessionEventView::AssistantMessage { text, tool_calls, .. } => {
                    let said = text::lines(text);
                    &&& out.len() == said.len() + tool_calls.len()
                    &&& 0 <= k < said.len() ==> out[k].text == said[k] && out[k].style is Assistant
                    &&& 0 <= k < tool_calls.len() ==> text::holds(
                        out[said.len() + k].text,
                        tool_calls[k].name,
                    ) && out[said.len() + k].style is Tool
                },
                SessionEventView::ToolResultLogged { content, is_error, .. } => out.len() == 1
                    && text::ellipsized(text::first_line(content), 90).is_suffix_of(out[0].text)
                    && (out[0].style is Error <==> is_error),
                SessionEventView::TurnEnd { stop, error, .. } => out.len() == 1 && text::holds(
                    out[0].text,
                    crate::log::stop_name(stop),
                ) && (error matches Some(why) ==> why.is_suffix_of(out[0].text)),
                _ => out.len() == 0,
            }
        }),
{
    let out = ui_tui::lines_for(e);
    match e {
        SessionEventView::UserMessage { text, .. } => {
            let t = out[0].text;
            assert(text =~= t.subrange(t.len() - text.len(), t.len() as int));
        },
        SessionEventView::Injected { text, .. } => {
            let t = out[0].text;
            let f = text::first_line(text);
            assert(f =~= t.subrange(t.len() - f.len(), t.len() as int));
        },
        SessionEventView::AssistantMessage { text, tool_calls, .. } => {
            let said = text::lines(text);
            if 0 <= k < tool_calls.len() {
                let t = out[said.len() + k].text;
                let at = "⚒ "@.len() as int;
                assert(t.subrange(at, at + tool_calls[k].name.len()) =~= tool_calls[k].name);
            }
        },
        SessionEventView::ToolResultLogged { content, .. } => {
            let t = out[0].text;
            let f = text::ellipsized(text::first_line(content), 90);
            assert(f =~= t.subrange(t.len() - f.len(), t.len() as int));
        },
        SessionEventView::TurnEnd { stop, error, .. } => {
            let t = out[0].text;
            let n = crate::log::stop_name(stop);
            let at = "— "@.len() as int;
            assert(t.subrange(at, at + n.len()) =~= n);
            match error {
                Some(why) => {
                    assert(why =~= t.subrange(t.len() - why.len(), t.len() as int));
                },
                None => {},
            }
        },
        _ => {},
    }
}

/// The last lines are the ones on the screen, as many as fit, in order, each as far as it
/// fits; what is being typed stands below them.
pub proof fn law_the_last_lines_are_shown(
    lines: Seq<LineView>,
    id: u64,
    status: AgentStatus,
    title: Option<Seq<char>>,
    typed: Seq<char>,
    cols: u16,
    rows: u16,
)
    requires
        rows >= 3,
    ensures
        ({
            let room = (rows - 3) as nat;
            let shown = if lines.len() > room {
                lines.skip(lines.len() - room)
            } else {
                lines
            };
            occurrence::in_order(
                ui_tui::screen(lines, id, status, title, typed, cols, rows),
                shown.map_values(|l: LineView| text::ellipsized(l.text, cols as int)).push(typed),
            )
        }),
{
    let room = (rows - 3) as nat;
    let shown = if lines.len() > room {
        lines.skip(lines.len() - room)
    } else {
        lines
    };
    let texts = shown.map_values(|l: LineView| text::ellipsized(l.text, cols as int));
    lemma_stacked(shown, cols as int);
    let stack = ui_tui::stacked(shown, cols as int);
    let body = ui_tui::body_text(lines, cols as int, room);
    if lines.len() == room {
        assert(lines.skip(0) =~= lines);
    }
    let gap = body.skip(stack.len() as int);
    assert(body =~= stack + gap);
    let front = "\u{1b}[H\u{1b}[2J"@ + ui_tui::header_text(id, status, title, cols as nat);
    let rule = "\u{1b}[2m"@ + text::repeated('─', cols as nat) + "\u{1b}[0m\r\n"@ + "› "@;
    occurrence::lemma_wrapped(front, stack, gap + rule, texts);
    let end = "\u{1b}[2m  ("@ + ui_tui::hint(status) + ")\u{1b}[0m"@;
    occurrence::lemma_one_more(front + stack + (gap + rule), texts, typed, end);
    assert(ui_tui::screen(lines, id, status, title, typed, cols, rows) =~= front + stack + (gap
        + rule) + typed + end);
}

proof fn lemma_stacked(lines: Seq<LineView>, cols: int)
    ensures
        occurrence::in_order(
            ui_tui::stacked(lines, cols),
            lines.map_values(|l: LineView| text::ellipsized(l.text, cols)),
        ),
    decreases lines.len(),
{
    let cut = |l: LineView| text::ellipsized(l.text, cols);
    if lines.len() == 0 {
        assert(lines.map_values(cut) =~= Seq::empty());
        occurrence::lemma_none(ui_tui::stacked(lines, cols));
    } else {
        let front = lines.drop_last();
        lemma_stacked(front, cols);
        let l = lines.last();
        let code = ui_tui::style_code(l.style);
        let before = ui_tui::stacked(front, cols);
        occurrence::lemma_none(code);
        occurrence::lemma_together(before, front.map_values(cut), code, Seq::empty());
        let parts = front.map_values(cut) + Seq::empty();
        occurrence::lemma_one_more(before + code, parts, cut(l), "\u{1b}[0m\r\n"@);
        assert(parts.push(cut(l)) =~= lines.map_values(cut));
        assert(ui_tui::stacked(lines, cols) =~= before + code + cut(l) + "\u{1b}[0m\r\n"@);
    }
}

/// A line is typed character by character, sent by enter and then cleared; what is blank is
/// not sent.
pub proof fn law_what_was_typed_is_sent(line: Seq<char>, c: char)
    ensures
        ui_tui::typed(line, Key::Char { c, control: false }) == line.push(c),
        ui_tui::signalled(line, Key::Char { c, control: false }) is Redraw,
        ui_tui::typed(line, Key::Enter).len() == 0,
        text::trimmed(line).len() == 0 ==> ui_tui::signalled(line, Key::Enter) is Redraw,
        text::trimmed(line) == "/quit"@ || text::trimmed(line) == "/exit"@ ==> ui_tui::signalled(
            line,
            Key::Enter,
        ) is Quit,
        text::trimmed(line).len() > 0 && text::trimmed(line) != "/quit"@ && text::trimmed(line)
            != "/exit"@ ==> ui_tui::signalled(line, Key::Enter) == SignalView::Deliver(
            text::trimmed(line),
        ),
        line.len() > 0 ==> ui_tui::typed(line, Key::Backspace) == line.drop_last(),
{
    lemma_command_words();
}

/// The keys that stop a turn stop it, the key that leaves leaves, and neither touches what
/// was typed.
pub proof fn law_stopping_keeps_what_was_typed(line: Seq<char>)
    ensures
        ui_tui::signalled(line, Key::Char { c: 'c', control: true }) is Cancel,
        ui_tui::signalled(line, Key::Char { c: 'd', control: true }) is Quit,
        ui_tui::signalled(line, Key::Esc) is Cancel,
        ui_tui::typed(line, Key::Char { c: 'c', control: true }) == line,
        ui_tui::typed(line, Key::Char { c: 'd', control: true }) == line,
        ui_tui::typed(line, Key::Esc) == line,
        ui_tui::heard_step(None) == Some(TuiStep::End),
        ui_tui::heard_step(Some(SignalView::Quit)) == Some(TuiStep::End),
        ui_tui::heard_step(Some(SignalView::Cancel)) == Some(TuiStep::Cancel),
        ui_tui::heard_step(Some(SignalView::Redraw)) is None,
        ui_tui::heard_step(Some(SignalView::Deliver(line))) is None,
{
}

/// An answer is typed the same way, and is done at enter and declined at escape.
pub proof fn law_an_answer_is_typed(line: Seq<char>, c: char, control: bool)
    ensures
        ui_tui::answered(line, Key::Char { c, control }) == (line.push(c), TypingView::More),
        ui_tui::answered(line, Key::Enter) == (line, TypingView::Done),
        ui_tui::answered(line, Key::Esc) == (line, TypingView::Declined),
        ui_tui::answered(line.push(c), Key::Backspace) == (line, TypingView::More),
{
    assert(line.push(c).drop_last() =~= line);
}

} // verus!
