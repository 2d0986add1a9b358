//! What a request looked like, on one line: enough to compare two requests, and none of
//! their text.
use crate::data::{none_of, put, Dup};
use crate::events::{LoggedEvent, LoggedEventView};
use crate::message::{Message, MessageView};
use crate::text;
use crate::text::{debug, join, lit, number, size};
use crate::ui_jsonrpc;
use vstd::prelude::*;

verus! {

/// What a message came to.
#[derive(Debug, PartialEq, Eq)]
pub struct Digest {
    /// A digest of the text.
    pub text: String,
    /// A digest of the reasoning.
    pub reasoning: String,
}

/// What a [`Digest`] holds.
#[verifier::ext_equal]
pub struct DigestView {
    pub text: Seq<char>,
    pub reasoning: Seq<char>,
}

impl DeepView for Digest {
    type V = DigestView;

    open spec fn deep_view(&self) -> DigestView {
        DigestView {
            text: self.text.deep_view(),
            reasoning: self.reasoning.deep_view(),
        }
    }
}

impl Dup for Digest {
    fn dup(&self) -> (r: Self) {
        Digest {
            text: self.text.dup(),
            reasoning: self.reasoning.dup(),
        }
    }
}

impl Clone for Digest {
    fn clone(&self) -> (r: Self)
        ensures
            r.deep_view() == self.deep_view(),
    {
        self.dup()
    }
}

/// The highest number in a log; nothing where it is empty.
pub open spec fn highest(log: Seq<LoggedEventView>) -> u64
    decreases log.len(),
{
    if log.len() == 0 {
        0
    } else if log.last().seq > highest(log.drop_last()) {
        log.last().seq
    } else {
        highest(log.drop_last())
    }
}

fn find_highest(log: &Vec<LoggedEvent>) -> (n: u64)
    ensures
        n == highest(log.deep_view()),
{
    let ghost all = log.deep_view();
    let mut n: u64 = 0;
    let mut i: usize = 0;
    assert(all.take(0).len() == 0);
    while i < log.len()
        invariant
            i <= log.len(),
            all == log.deep_view(),
            n == highest(all.take(i as int)),
        decreases log.len() - i,
    {
        assert(all.take(i + 1).drop_last() =~= all.take(i as int));
        assert(all.take(i + 1).last() == log@[i as int].deep_view());
        if log[i].seq > n {
            n = log[i].seq;
        }
        i = i + 1;
    }
    assert(all.take(i as int) =~= all);
    n
}

/// The bytes of all the texts.
pub open spec fn total(messages: Seq<MessageView>) -> nat
    decreases messages.len(),
{
    if messages.len() == 0 {
        0
    } else {
        total(messages.drop_last()) + text::bytes(messages.last().text)
    }
}

proof fn lemma_total(messages: Seq<MessageView>, k: int)
    requires
        0 <= k <= messages.len(),
    ensures
        total(messages.take(k)) <= total(messages),
    decreases messages.len(),
{
    if k < messages.len() {
        assert(messages.drop_last().take(k) =~= messages.take(k));
        lemma_total(messages.drop_last(), k);
    } else {
        assert(messages.take(k) =~= messages);
    }
}

fn add_up(messages: &Vec<Message>) -> (n: u64)
    requires
        total(messages.deep_view()) <= u64::MAX,
    ensures
        n == total(messages.deep_view()),
{
    let ghost all = messages.deep_view();
    let mut n: u64 = 0;
    let mut i: usize = 0;
    assert(all.take(0).len() == 0);
    while i < messages.len()
        invariant
            i <= messages.len(),
            all == messages.deep_view(),
            total(all) <= u64::MAX,
            n == total(all.take(i as int)),
        decreases messages.len() - i,
    {
        proof {
            lemma_total(all, i + 1);
        }
        assert(all.take(i + 1).drop_last() =~= all.take(i as int));
        assert(all.take(i + 1).last() == messages@[i as int].deep_view());
        n = n + size(messages[i].text.as_str()) as u64;
        i = i + 1;
    }
    assert(all.take(i as int) =~= all);
    n
}

pub open spec fn reasoning(m: MessageView) -> Seq<char> {
    match m.reasoning {
        Some(r) => r,
        None => ""@,
    }
}

/// One message: who spoke, how much, and what it came to.
pub open spec fn message_text(i: nat, m: MessageView, d: DigestView) -> Seq<char> {
    "{\"i\":"@ + text::decimal(i) + ",\"role\":\""@ + ui_jsonrpc::role_name(m.role) + "\",\"len\":"@
        + text::decimal(text::bytes(m.text)) + ",\"h\":\""@ + d.text + "\",\"rlen\":"@
        + text::decimal(text::bytes(reasoning(m))) + ",\"rh\":\""@ + d.reasoning
        + "\",\"calls\":"@ + text::decimal(m.tool_calls.len()) + "}"@
}

pub open spec fn message_texts(messages: Seq<MessageView>, digests: Seq<DigestView>) -> Seq<
    Seq<char>,
> {
    Seq::new(messages.len(), |i: int| message_text(i as nat, messages[i], digests[i]))
}

fn show_message(i: usize, m: &Message, d: &Digest) -> (r: String)
    ensures
        r@ == message_text(i as nat, m.deep_view(), d.deep_view()),
{
    let thought = match &m.reasoning {
        Some(r) => r.as_str(),
        None => "",
    };
    lit("{\"i\":").concat(number(i as u64).as_str()).concat(",\"role\":\"").concat(
        m.role.name(),
    ).concat("\",\"len\":").concat(number(size(m.text.as_str()) as u64).as_str()).concat(
        ",\"h\":\"",
    ).concat(d.text.as_str()).concat("\",\"rlen\":").concat(
        number(size(thought) as u64).as_str(),
    ).concat(",\"rh\":\"").concat(d.reasoning.as_str()).concat("\",\"calls\":").concat(
        number(m.tool_calls.len() as u64).as_str(),
    ).concat("}")
}

/// A request, and the log it was made from, on one line.
pub open spec fn dumped(
    ms: u64,
    session: Seq<char>,
    log: Seq<LoggedEventView>,
    messages: Seq<MessageView>,
    digests: Seq<DigestView>,
    tools: nat,
) -> Seq<char> {
    "{\"ts\":"@ + text::decimal(ms as nat) + ",\"session\":"@ + text::debugged(session)
        + ",\"events\":"@ + text::decimal(log.len()) + ",\"max_seq\":"@ + text::decimal(
        highest(log) as nat,
    ) + ",\"n_msgs\":"@ + text::decimal(messages.len()) + ",\"total_chars\":"@ + text::decimal(
        total(messages),
    ) + ",\"tool_defs\":"@ + text::decimal(tools) + ",\"msgs\":["@ + text::joined(
        message_texts(messages, digests),
        ","@,
    ) + "]}\n"@
}

/// Writes a request down. The digests of its texts are made elsewhere, one for each
/// message.
pub fn dump_request(
    ms: u64,
    session: &str,
    log: &Vec<LoggedEvent>,
    messages: &Vec<Message>,
    digests: &Vec<Digest>,
    tools: usize,
) -> (r: String)
    requires
        digests@.len() == messages@.len(),
        total(messages.deep_view()) <= u64::MAX,
    ensures
        r@ == dumped(
            ms,
            session@,
            log.deep_view(),
            messages.deep_view(),
            digests.deep_view(),
            tools as nat,
        ),
{
    let ghost all = message_texts(messages.deep_view(), digests.deep_view());
    let mut out: Vec<String> = none_of();
    let mut i: usize = 0;
    assert(out.deep_view() =~= all.take(0));
    while i < messages.len()
        invariant
            i <= messages.len(),
            digests@.len() == messages@.len(),
            all == message_texts(messages.deep_view(), digests.deep_view()),
            out.deep_view() == all.take(i as int),
        decreases messages.len() - i,
    {
        put(&mut out, show_message(i, &messages[i], &digests[i]));
        assert(out.deep_view() =~= all.take(i + 1));
        i = i + 1;
    }
    assert(all.take(i as int) =~= all);
    lit("{\"ts\":").concat(number(ms).as_str()).concat(",\"session\":").concat(
        debug(session).as_str(),
    ).concat(",\"events\":").concat(number(log.len() as u64).as_str()).concat(
        ",\"max_seq\":",
    ).concat(number(find_highest(log)).as_str()).concat(",\"n_msgs\":").concat(
        number(messages.len() as u64).as_str(),
    ).concat(",\"total_chars\":").concat(number(add_up(messages)).as_str()).concat(
        ",\"tool_defs\":",
    ).concat(number(tools as u64).as_str()).concat(",\"msgs\":[").concat(
        join(&out, ",").as_str(),
    ).concat("]}\n")
}

} // verus!
