//! A turn as it happens, a line at a time.
use crate::events::{ToolCall, ToolResult};
use crate::log;
use crate::text;
use crate::text::{first_line_of, lead, lit, number, swap};
use crate::turn::{TurnOutcome, TurnOutcomeView};
use vstd::prelude::*;

verus! {

/// The most characters of a text that a line shows.
pub const SHOWN: usize = 120;

/// The prompt a turn begins with.
pub fn prompt_line(prompt: &str) -> (r: String)
    ensures
        r@ == "\u{1b}[2m› "@ + prompt@ + "\u{1b}[0m"@,
{
    lit("\u{1b}[2m› ").concat(prompt).concat("\u{1b}[0m")
}

/// A piece of text as it streams: reasoning is dimmed.
pub fn chunk_text(text: &str, reasoning: bool) -> (r: String)
    ensures
        r@ == (if reasoning {
            "\u{1b}[2m"@ + text@ + "\u{1b}[0m"@
        } else {
            text@
        }),
{
    if reasoning {
        lit("\u{1b}[2m").concat(text).concat("\u{1b}[0m")
    } else {
        lit(text)
    }
}

/// A call, its arguments on one line.
pub fn call_line(call: &ToolCall) -> (r: String)
    ensures
        r@ == "\u{1b}[36m⚒ "@ + call.name@ + "\u{1b}[0m "@ + text::leading(
            text::swapped(call.arguments@, '\n', ' '),
            120,
        ),
{
    let args = swap(call.arguments.as_str(), '\n', ' ');
    lit("\u{1b}[36m⚒ ").concat(call.name.as_str()).concat("\u{1b}[0m ").concat(
        lead(args.as_str(), SHOWN),
    )
}

/// A result: whether it worked, and its first line.
pub fn result_line(result: &ToolResult) -> (r: String)
    ensures
        r@ == "  "@ + (if result.is_error {
            "✗"@
        } else {
            "✓"@
        }) + " "@ + text::leading(text::first_line(result.content@), 120),
{
    let mark = if result.is_error {
        "✗"
    } else {
        "✓"
    };
    let first = first_line_of(result.content.as_str());
    lit("  ").concat(mark).concat(" ").concat(lead(first.as_str(), SHOWN))
}

pub open spec fn summary_of(o: TurnOutcomeView) -> Seq<char> {
    "\n\u{1b}[2m— "@ + log::stop_name(o.stop) + " after "@ + text::decimal(o.rounds as nat)
        + " round(s), "@ + text::decimal(o.tool_calls as nat) + " tool call(s)"@ + (match o.error {
        Some(e) => ": "@ + e,
        None => Seq::empty(),
    }) + "\u{1b}[0m"@
}

/// What a turn came to.
pub fn summary_line(o: &TurnOutcome) -> (r: String)
    ensures
        r@ == summary_of(o.deep_view()),
{
    let why = match &o.error {
        Some(e) => lit(": ").concat(e.as_str()),
        None => String::new(),
    };
    lit("\n\u{1b}[2m— ").concat(o.stop.name()).concat(" after ").concat(
        number(o.rounds as u64).as_str(),
    ).concat(" round(s), ").concat(number(o.tool_calls as u64).as_str()).concat(
        " tool call(s)",
    ).concat(why.as_str()).concat("\u{1b}[0m")
}

} // verus!
