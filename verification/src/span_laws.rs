//! What is written into a listed summary can be read out of it again, so a session can
//! be folded any number of times without losing count of what was asked.
use crate::order;
use crate::span;
use crate::span::{
    CompactedSpanView, ListView, ListedView, LISTED_FOOTER, LISTED_HEADER, TOOLS_LINE,
};
use crate::text;
use vstd::prelude::*;

verus! {

// ---- where a text first stands --------------------------------------------

/// A place in a text is no later in a longer one.
proof fn lemma_place_is(s: Seq<char>, t: Seq<char>, k: int)
    requires
        0 <= k,
        k + t.len() <= s.len(),
        s.subrange(k, k + t.len()) == t,
        forall|p: int|
            0 <= p < k && p + t.len() <= s.len() ==> #[trigger] s.subrange(p, p + t.len()) != t,
    ensures
        text::place_of(s, t) == Some(k),
    decreases s.len(),
{
    if t.is_prefix_of(s) {
        assert(s.subrange(0, t.len() as int) =~= t);
        if k > 0 {
            assert(s.subrange(0, 0int + t.len()) == t);
        }
    } else {
        if k == 0 {
            assert(s.subrange(0, t.len() as int) == t);
            assert(t.is_prefix_of(s));
        }
        let r = s.skip(1);
        assert(r.subrange(k - 1, k - 1 + t.len()) =~= s.subrange(k, k + t.len()));
        assert forall|p: int| 0 <= p < k - 1 && p + t.len() <= r.len() implies #[trigger] r.subrange(
            p,
            p + t.len(),
        ) != t by {
            assert(r.subrange(p, p + t.len()) =~= s.subrange(p + 1, p + 1 + t.len()));
        }
        lemma_place_is(r, t, k - 1);
    }
}

/// Nothing stands before the first place.
proof fn lemma_nothing_before(s: Seq<char>, t: Seq<char>, p: int)
    requires
        text::place_of(s, t) is Some,
        0 <= p < text::place_of(s, t)->0,
        p + t.len() <= s.len(),
    ensures
        s.subrange(p, p + t.len()) != t,
    decreases s.len(),
{
    if !t.is_prefix_of(s) && s.len() > 0 {
        if p > 0 {
            lemma_nothing_before(s.skip(1), t, p - 1);
            assert(s.skip(1).subrange(p - 1, p - 1 + t.len()) =~= s.subrange(p, p + t.len()));
        } else {
            if s.subrange(0, 0int + t.len()) == t {
                assert(t =~= s.subrange(0, t.len() as int));
                assert(t.is_prefix_of(s));
            }
        }
    }
}

/// What is first found at the end of a text is first found there whatever follows.
proof fn lemma_found_at_once(a: Seq<char>, t: Seq<char>, b: Seq<char>)
    requires
        text::place_of(a + t, t) == Some(a.len() as int),
    ensures
        text::place_of(a + t + b, t) == Some(a.len() as int),
{
    let s = a + t + b;
    let k = a.len() as int;
    assert(s.subrange(k, k + t.len()) =~= t);
    assert forall|p: int| 0 <= p < k && p + t.len() <= s.len() implies #[trigger] s.subrange(
        p,
        p + t.len(),
    ) != t by {
        lemma_nothing_before(a + t, t, p);
        assert((a + t).subrange(p, p + t.len()) =~= s.subrange(p, p + t.len()));
    }
    lemma_place_is(s, t, k);
}

// ---- lines ----------------------------------------------------------------

/// Every line with its end.
pub open spec fn ended(lines: Seq<Seq<char>>) -> Seq<Seq<char>> {
    Seq::new(lines.len(), |i: int| lines[i] + "\n"@)
}

proof fn lemma_lines_of(list: Seq<Seq<char>>)
    requires
        forall|i: int| 0 <= i < list.len() ==> text::one_line(#[trigger] list[i]),
    ensures
        text::lines(text::strung(ended(list))) == list,
        text::strung(ended(list)).len() == 0 || text::strung(ended(list)).last() == '\n',
    decreases list.len(),
{
    if list.len() == 0 {
        assert(text::strung(ended(list)) =~= Seq::empty());
        assert(text::lines(Seq::<char>::empty()) =~= list);
    } else {
        let front = list.drop_last();
        assert forall|i: int| 0 <= i < front.len() implies text::one_line(#[trigger] front[i]) by {
            assert(front[i] == list[i]);
        }
        lemma_lines_of(front);
        assert(ended(list).drop_last() =~= ended(front));
        let a = text::strung(ended(front));
        let l = list.last();
        assert(text::one_line(list[list.len() - 1]));
        text::lemma_one_more_line(a, l);
        assert(text::strung(ended(list)) =~= a + l + "\n"@);
        assert(front.push(l) =~= list);
    }
}

proof fn lemma_strung_adds(a: Seq<Seq<char>>, b: Seq<Seq<char>>)
    ensures
        text::strung(a + b) == text::strung(a) + text::strung(b),
    decreases b.len(),
{
    if b.len() == 0 {
        assert(a + b =~= a);
        assert(text::strung(a) + text::strung(b) =~= text::strung(a));
    } else {
        assert((a + b).drop_last() =~= a + b.drop_last());
        lemma_strung_adds(a, b.drop_last());
        assert(text::strung(a) + text::strung(b) =~= text::strung(a) + text::strung(b.drop_last())
            + b.last());
    }
}

// ---- the entries ----------------------------------------------------------

/// A number reads back as itself.
pub proof fn law_a_number_reads_back(n: nat)
    requires
        n <= usize::MAX,
    ensures
        text::number_read(text::decimal(n)) == Some(n),
{
    lemma_decimal(n);
}

proof fn lemma_decimal(n: nat)
    ensures
        text::digits_value(text::decimal(n)) == Some(n),
        text::decimal(n).len() > 0,
        forall|i: int|
            0 <= i < text::decimal(n).len() ==> '0' <= #[trigger] text::decimal(n)[i] <= '9',
    decreases n,
{
    if n < 10 {
        assert(text::decimal(n) == seq![text::digit(n)]);
        assert(text::decimal(n).drop_last() =~= Seq::empty());
        assert(text::digits_value(Seq::<char>::empty()) == Some(0nat));
        assert(text::digit_value(text::digit(n)) == Some(n));
    } else {
        lemma_decimal(n / 10);
        assert(text::decimal(n).drop_last() =~= text::decimal(n / 10));
        assert(text::digit_value(text::digit(n % 10)) == Some(n % 10));
    }
}

pub open spec fn count_entry(n: nat) -> Seq<char> {
    "- ("@ + text::decimal(n) + " earlier requests not listed)"@
}

proof fn lemma_count_entry(n: nat)
    requires
        n <= usize::MAX,
    ensures
        span::count_line(count_entry(n)) == Some(n),
        text::after(count_entry(n), TOOLS_LINE@) is None,
        text::one_line(count_entry(n)),
{
    let line = count_entry(n);
    let tail = " earlier requests not listed)"@;
    reveal_strlit("- (");
    reveal_strlit(" earlier requests not listed)");
    reveal_strlit("Tools used: ");
    assert(TOOLS_LINE@ == "Tools used: "@);
    assert(TOOLS_LINE@[0] == 'T');
    lemma_decimal(n);
    law_a_number_reads_back(n);
    assert("- ("@ =~= line.subrange(0, 3));
    let rest = line.skip(3);
    assert(rest =~= text::decimal(n) + tail);
    assert(tail =~= rest.subrange(rest.len() - tail.len(), rest.len() as int));
    assert(rest.take(rest.len() - tail.len()) =~= text::decimal(n));
    assert(line[0] == '-');
    if TOOLS_LINE@.is_prefix_of(line) {
        assert(TOOLS_LINE@[0] == line.subrange(0, TOOLS_LINE@.len() as int)[0]);
    }
    lemma_tail_is_one_line();
    assert forall|i: int| 0 <= i < line.len() implies #[trigger] line[i] != '\n' && line[i]
        != '\r' by {
        if i < 3 {
            assert(line[i] == "- ("@[i]);
        } else if i < 3 + text::decimal(n).len() {
            assert(line[i] == text::decimal(n)[i - 3]);
        } else {
            assert(line[i] == tail[i - 3 - text::decimal(n).len()]);
        }
    }
}

proof fn lemma_tail_is_one_line()
    ensures
        text::one_line(" earlier requests not listed)"@),
{
    let t = " earlier requests not listed)"@;
    reveal_strlit(" earlier requests not listed)");
    assert forall|i: int| 0 <= i < t.len() implies #[trigger] t[i] != '\n' && t[i] != '\r' by {
        assert(t.len() == 29);
        if i < 10 {
            assert(i == 0 || i == 1 || i == 2 || i == 3 || i == 4 || i == 5 || i == 6 || i == 7 || i
                == 8 || i == 9);
        } else if i < 20 {
            assert(i == 10 || i == 11 || i == 12 || i == 13 || i == 14 || i == 15 || i == 16 || i
                == 17 || i == 18 || i == 19);
        } else {
            assert(i == 20 || i == 21 || i == 22 || i == 23 || i == 24 || i == 25 || i == 26 || i
                == 27 || i == 28);
        }
    }
}

/// A request that can be listed: it is one line, and does not look like the line that
/// counts those not listed.
pub open spec fn listable(request: Seq<char>) -> bool {
    text::one_line(request) && span::count_line("- "@ + request) is None
}

proof fn lemma_request_entry(p: Seq<char>)
    requires
        listable(p),
    ensures
        text::after("- "@ + p, TOOLS_LINE@) is None,
        text::after("- "@ + p, "- "@) == Some(p),
        text::one_line("- "@ + p),
{
    let line = "- "@ + p;
    reveal_strlit("- ");
    reveal_strlit("Tools used: ");
    assert(TOOLS_LINE@ == "Tools used: "@);
    assert(TOOLS_LINE@[0] == 'T');
    assert(line[0] == '-');
    if TOOLS_LINE@.is_prefix_of(line) {
        assert(TOOLS_LINE@[0] == line.subrange(0, TOOLS_LINE@.len() as int)[0]);
    }
    assert("- "@ =~= line.subrange(0, 2));
    assert(line.skip(2) =~= p);
    assert forall|i: int| 0 <= i < line.len() implies #[trigger] line[i] != '\n' && line[i]
        != '\r' by {
        if i >= 2 {
            assert(line[i] == p[i - 2]);
        } else {
            assert(line[i] == "- "@[i]);
        }
    }
}

/// A tool name that can be listed: one line, without what separates names.
pub open spec fn nameable(tool: Seq<char>) -> bool {
    text::one_line(tool) && !text::holds(tool, ", "@)
}

proof fn lemma_joined_front(a: Seq<char>, rest: Seq<Seq<char>>, sep: Seq<char>)
    requires
        rest.len() > 0,
    ensures
        text::joined(seq![a] + rest, sep) == a + sep + text::joined(rest, sep),
    decreases rest.len(),
{
    let all = seq![a] + rest;
    assert(all.last() == rest.last());
    if rest.len() == 1 {
        assert(all.drop_last() =~= seq![a]);
        assert(text::joined(seq![a], sep) == a);
        assert(text::joined(all, sep) =~= a + sep + text::joined(rest, sep));
    } else {
        assert(all.drop_last() =~= seq![a] + rest.drop_last());
        lemma_joined_front(a, rest.drop_last(), sep);
        assert(text::joined(all, sep) =~= a + sep + text::joined(rest, sep));
    }
}

/// A name ends where what separates names first stands.
proof fn lemma_a_name_ends(a: Seq<char>, b: Seq<char>)
    requires
        !text::holds(a, ", "@),
    ensures
        text::place_of(a + ", "@ + b, ", "@) == Some(a.len() as int),
{
    let sep = ", "@;
    reveal_strlit(", ");
    assert(sep.len() == 2 && sep[0] == ',' && sep[1] == ' ');
    let s = a + sep + b;
    assert(s.subrange(a.len() as int, a.len() as int + 2) =~= sep);
    assert forall|p: int| 0 <= p < a.len() && p + sep.len() <= s.len() implies #[trigger] s.subrange(
        p,
        p + sep.len(),
    ) != sep by {
        let found = s.subrange(p, p + sep.len());
        if found == sep {
            assert(found[0] == s[p] && found[1] == s[p + 1]);
            if p + 1 < a.len() {
                assert(a.subrange(p, p + sep.len()) =~= sep);
                assert(text::holds(a, sep));
            } else {
                assert(s[p + 1] == sep[0]);
            }
        }
    }
    lemma_place_is(s, sep, a.len() as int);
}

proof fn lemma_one_name(a: Seq<char>)
    requires
        !text::holds(a, ", "@),
    ensures
        text::pieces_by(a, ", "@) == seq![a],
{
    let sep = ", "@;
    text::lemma_place_of(a, sep);
    match text::place_of(a, sep) {
        Some(i) => {
            assert(a.subrange(i, i + sep.len()) == sep);
            assert(text::holds(a, sep));
        },
        None => {},
    }
}

#[verifier::spinoff_prover]
proof fn lemma_names_part(tools: Seq<Seq<char>>)
    requires
        tools.len() > 0,
        forall|i: int| 0 <= i < tools.len() ==> nameable(#[trigger] tools[i]),
    ensures
        text::pieces_by(text::joined(tools, ", "@), ", "@) == tools,
    decreases tools.len(),
{
    let sep = ", "@;
    let a = tools[0];
    assert(nameable(tools[0]));
    if tools.len() == 1 {
        assert(text::joined(tools, sep) == a);
        lemma_one_name(a);
        assert(tools =~= seq![a]);
    } else {
        let rest = tools.skip(1);
        assert(tools =~= seq![a] + rest);
        lemma_joined_front(a, rest, sep);
        let b = text::joined(rest, sep);
        let s = a + sep + b;
        assert forall|i: int| 0 <= i < rest.len() implies nameable(#[trigger] rest[i]) by {
            assert(rest[i] == tools[i + 1]);
        }
        lemma_names_part(rest);
        lemma_a_name_ends(a, b);
        assert(sep.len() == 2) by {
            reveal_strlit(", ");
        }
        assert(s.take(a.len() as int) =~= a);
        assert(s.skip(a.len() as int + sep.len()) =~= b);
        assert(text::pieces_by(s, sep) == seq![a] + text::pieces_by(b, sep));
    }
}

proof fn lemma_joined_one_line(tools: Seq<Seq<char>>)
    requires
        forall|i: int| 0 <= i < tools.len() ==> nameable(#[trigger] tools[i]),
    ensures
        text::one_line(text::joined(tools, ", "@)),
    decreases tools.len(),
{
    reveal_strlit(", ");
    if tools.len() == 1 {
        assert(nameable(tools[0]));
    } else if tools.len() > 1 {
        let front = tools.drop_last();
        assert forall|i: int| 0 <= i < front.len() implies nameable(#[trigger] front[i]) by {
            assert(front[i] == tools[i]);
        }
        lemma_joined_one_line(front);
        assert(nameable(tools[tools.len() - 1]));
        let a = text::joined(front, ", "@);
        let s = text::joined(tools, ", "@);
        assert forall|i: int| 0 <= i < s.len() implies #[trigger] s[i] != '\n' && s[i] != '\r' by {
            if i < a.len() {
                assert(s[i] == a[i]);
            } else if i < a.len() + 2 {
                assert(s[i] == ", "@[i - a.len()]);
            } else {
                assert(s[i] == tools.last()[i - a.len() - 2]);
            }
        }
    }
}

proof fn lemma_tools_entry(tools: Seq<Seq<char>>)
    requires
        tools.len() > 0,
        forall|i: int| 0 <= i < tools.len() ==> nameable(#[trigger] tools[i]),
    ensures
        text::after(TOOLS_LINE@ + text::joined(tools, ", "@), TOOLS_LINE@) == Some(
            text::joined(tools, ", "@),
        ),
        text::one_line(TOOLS_LINE@ + text::joined(tools, ", "@)),
{
    let j = text::joined(tools, ", "@);
    let line = TOOLS_LINE@ + j;
    reveal_strlit("Tools used: ");
    assert(TOOLS_LINE@ == "Tools used: "@);
    let n = TOOLS_LINE@.len() as int;
    assert(n == 12);
    assert(TOOLS_LINE@ =~= line.subrange(0, n));
    assert(line.skip(n) =~= j);
    lemma_joined_one_line(tools);
    assert forall|i: int| 0 <= i < line.len() implies #[trigger] line[i] != '\n' && line[i]
        != '\r' by {
        if i < 12 {
            assert(line[i] == TOOLS_LINE@[i]);
            assert(i == 0 || i == 1 || i == 2 || i == 3 || i == 4 || i == 5 || i == 6 || i == 7 || i
                == 8 || i == 9 || i == 10 || i == 11);
        } else {
            assert(line[i] == j[i - 12]);
        }
    }
}

// ---- the whole list -------------------------------------------------------

pub open spec fn request_entries(asked: Seq<Seq<char>>) -> Seq<Seq<char>> {
    Seq::new(asked.len(), |i: int| "- "@ + asked[i])
}

/// The lines of a list: how many are not named, the requests, and the tools.
pub open spec fn entries(omitted: nat, asked: Seq<Seq<char>>, tools: Seq<Seq<char>>) -> Seq<
    Seq<char>,
> {
    (if omitted == 0 {
        Seq::empty()
    } else {
        seq![count_entry(omitted)]
    }) + request_entries(asked) + (if tools.len() == 0 {
        Seq::empty()
    } else {
        seq![TOOLS_LINE@ + text::joined(tools, ", "@)]
    })
}

proof fn lemma_entries_read_back(omitted: nat, asked: Seq<Seq<char>>, tools: Seq<Seq<char>>)
    requires
        omitted <= usize::MAX,
        forall|i: int| 0 <= i < asked.len() ==> listable(#[trigger] asked[i]),
        forall|i: int| 0 <= i < tools.len() ==> nameable(#[trigger] tools[i]),
    ensures
        span::list_lines(entries(omitted, asked, tools)) == (ListView { asked, omitted, tools }),
        forall|i: int|
            0 <= i < entries(omitted, asked, tools).len() ==> text::one_line(
                #[trigger] entries(omitted, asked, tools)[i],
            ),
    decreases tools.len(), asked.len(),
{
    let e = entries(omitted, asked, tools);
    if tools.len() > 0 {
        let none = Seq::<Seq<char>>::empty();
        let front = entries(omitted, asked, none);
        lemma_entries_read_back(omitted, asked, none);
        lemma_tools_entry(tools);
        lemma_names_part(tools);
        assert(e.drop_last() =~= front);
        assert(e.last() == TOOLS_LINE@ + text::joined(tools, ", "@));
        assert(none + tools =~= tools);
        assert forall|i: int| 0 <= i < e.len() implies text::one_line(#[trigger] e[i]) by {
            if i < front.len() {
                assert(e[i] == front[i]);
            }
        }
    } else if asked.len() > 0 {
        let front = entries(omitted, asked.drop_last(), tools);
        assert forall|i: int| 0 <= i < asked.drop_last().len() implies listable(
            #[trigger] asked.drop_last()[i],
        ) by {
            assert(asked.drop_last()[i] == asked[i]);
        }
        lemma_entries_read_back(omitted, asked.drop_last(), tools);
        assert(listable(asked[asked.len() - 1]));
        lemma_request_entry(asked.last());
        assert(e.drop_last() =~= front);
        assert(e.last() == "- "@ + asked.last());
        assert(asked.drop_last().push(asked.last()) =~= asked);
        assert(tools =~= Seq::empty());
        assert forall|i: int| 0 <= i < e.len() implies text::one_line(#[trigger] e[i]) by {
            if i < front.len() {
                assert(e[i] == front[i]);
            }
        }
    } else {
        assert(tools =~= Seq::empty());
        assert(asked =~= Seq::empty());
        if omitted > 0 {
            lemma_count_entry(omitted);
            assert(e =~= seq![count_entry(omitted)]);
            assert(e.drop_last() =~= Seq::empty());
            assert(span::list_lines(e.drop_last()).omitted == 0);
        } else {
            assert(e =~= Seq::empty());
        }
    }
}

/// What stands above the list.
pub open spec fn above(s: CompactedSpanView) -> Seq<char> {
    text::strung(span::spaced(span::merged(s.prior).written))
}

/// The list itself.
pub open spec fn list_text(s: CompactedSpanView) -> Seq<char> {
    let l = span::accounted(s);
    span::count_note(span::capped(span::unnamed(l))) + text::strung(span::bullets(span::named(l)))
        + span::tools_line(order::catalogued(l.tools))
}

proof fn lemma_list_text(s: CompactedSpanView)
    ensures
        list_text(s) == text::strung(
            ended(
                entries(
                    span::capped(span::unnamed(span::accounted(s))) as nat,
                    span::named(span::accounted(s)),
                    order::catalogued(span::accounted(s).tools),
                ),
            ),
        ),
{
    let l = span::accounted(s);
    let n = span::capped(span::unnamed(l));
    let asked = span::named(l);
    let tools = order::catalogued(l.tools);
    let a: Seq<Seq<char>> = if n == 0 {
        Seq::empty()
    } else {
        seq![count_entry(n as nat)]
    };
    let b = request_entries(asked);
    let c: Seq<Seq<char>> = if tools.len() == 0 {
        Seq::empty()
    } else {
        seq![TOOLS_LINE@ + text::joined(tools, ", "@)]
    };
    assert(ended(a + b + c) =~= ended(a) + ended(b) + ended(c));
    lemma_strung_adds(ended(a) + ended(b), ended(c));
    lemma_strung_adds(ended(a), ended(b));
    reveal_strlit("\n");
    reveal_strlit(" earlier requests not listed)");
    reveal_strlit(" earlier requests not listed)\n");
    assert(" earlier requests not listed)\n"@ =~= " earlier requests not listed)"@ + "\n"@);
    if n == 0 {
        assert(ended(a) =~= Seq::empty());
        assert(text::strung(ended(a)) =~= span::count_note(n));
    } else {
        assert(ended(a).drop_last() =~= Seq::empty());
        assert(text::strung(ended(a).drop_last()) =~= Seq::empty());
        assert(text::strung(ended(a)) =~= span::count_note(n));
    }
    assert(ended(b) =~= span::bullets(asked));
    if tools.len() == 0 {
        assert(ended(c) =~= Seq::empty());
        assert(text::strung(ended(c)) =~= span::tools_line(tools));
    } else {
        assert(ended(c).drop_last() =~= Seq::empty());
        assert(text::strung(ended(c).drop_last()) =~= Seq::empty());
        assert(text::strung(ended(c)) =~= span::tools_line(tools));
    }
}

/// A span whose summary can be told apart again: its requests and tools can be listed,
/// and neither what was written above nor the list holds the line that ends it.
pub open spec fn tellable(s: CompactedSpanView) -> bool {
    let l = span::accounted(s);
    &&& forall|i: int| 0 <= i < span::named(l).len() ==> listable(#[trigger] span::named(l)[i])
    &&& forall|i: int|
        0 <= i < order::catalogued(l.tools).len() ==> nameable(
            #[trigger] order::catalogued(l.tools)[i],
        )
    &&& text::place_of(above(s) + LISTED_HEADER@, LISTED_HEADER@) == Some(above(s).len() as int)
    &&& text::place_of(list_text(s) + LISTED_FOOTER@, LISTED_FOOTER@) == Some(
        list_text(s).len() as int,
    )
}

/// A listed summary, taken apart, gives back what it was made of: what was written above
/// the list, every request it names, the count of those it does not, and the tools.
pub proof fn law_a_list_reads_back(s: CompactedSpanView)
    requires
        tellable(s),
    ensures
        span::taken_apart(span::listed(s)) == (ListedView {
            written: text::trimmed(above(s)),
            asked: span::named(span::accounted(s)),
            omitted: span::capped(span::unnamed(span::accounted(s))),
            tools: order::catalogued(span::accounted(s).tools),
        }),
{
    let l = span::accounted(s);
    let n = span::capped(span::unnamed(l)) as nat;
    let asked = span::named(l);
    let tools = order::catalogued(l.tools);
    let whole = span::listed(s);
    let body = list_text(s);
    assert(whole =~= above(s) + LISTED_HEADER@ + (body + LISTED_FOOTER@));
    lemma_found_at_once(above(s), LISTED_HEADER@, body + LISTED_FOOTER@);
    let at = above(s).len() as int;
    assert(whole.take(at) =~= above(s));
    assert(whole.skip(at + LISTED_HEADER@.len()) =~= body + LISTED_FOOTER@);
    assert((body + LISTED_FOOTER@).take(body.len() as int) =~= body);
    assert(span::until(body + LISTED_FOOTER@, LISTED_FOOTER@) == body);
    lemma_list_text(s);
    lemma_entries_read_back(n, asked, tools);
    lemma_lines_of(entries(n, asked, tools));
    assert(span::list_in(whole) == (ListView { asked, omitted: n, tools }));
}

/// Folding again loses nothing: a span that carries such a summary accounts for every
/// request that one named or counted, and for its own.
pub proof fn law_folding_again_loses_nothing(first: CompactedSpanView, then: CompactedSpanView)
    requires
        tellable(first),
        then.prior == seq![span::listed(first)],
    ensures
        span::accounted(then).asked == span::named(span::accounted(first)) + then.prompts,
        span::accounted(then).omitted == span::capped(span::unnamed(span::accounted(first))),
        span::unnamed(span::accounted(first)) <= usize::MAX ==> span::named(
            span::accounted(then),
        ).len() + span::unnamed(span::accounted(then)) == span::accounted(first).asked.len()
            + span::accounted(first).omitted + then.prompts.len(),
{
    law_a_list_reads_back(first);
    let p = then.prior;
    let none = p.drop_last();
    assert(none =~= Seq::empty());
    assert(p.last() == span::listed(first));
    assert(span::merged(none).list.asked =~= Seq::empty());
    assert(span::merged(none).list.tools =~= Seq::empty());
    let m = span::merged(p);
    assert(m.list.asked =~= span::named(span::accounted(first)));
    assert(m.list.omitted == span::capped(span::unnamed(span::accounted(first))));
}

// ---- plain requests and tools ---------------------------------------------

/// The line that closes a list, without its end.
pub open spec fn closing() -> Seq<char> {
    LISTED_FOOTER@.drop_last()
}

#[verifier::spinoff_prover]
proof fn lemma_closing()
    ensures
        LISTED_FOOTER@.len() > 2,
        LISTED_FOOTER@.last() == '\n',
        closing()[0] == 'A',
        closing().last() == '.',
        forall|i: int|
            0 <= i < closing().len() ==> #[trigger] closing()[i] != '\n' && closing()[i] != ','
                && closing()[i] != ':',
{
    reveal_strlit(
        "Ask again for any detail you need from before this point rather than assuming it.\n",
    );
    let f = "Ask again for any detail you need from before this point rather than assuming it.\n"@;
    assert(LISTED_FOOTER@ == f);
    assert forall|i: int| 0 <= i < closing().len() implies #[trigger] closing()[i] != '\n'
        && closing()[i] != ',' && closing()[i] != ':' by {
        assert(closing()[i] == f[i]);
    }
}

/// An ordinary request: one line that holds neither the closing line of a list nor the
/// words of the line that counts.
pub open spec fn plain_request(p: Seq<char>) -> bool {
    &&& text::one_line(p)
    &&& !text::holds(p, closing())
    &&& !text::holds(p, "earlier requests not listed"@)
}

/// An ordinary tool name: one line that holds neither the closing line of a list nor
/// what separates names.
pub open spec fn plain_tool(t: Seq<char>) -> bool {
    &&& text::one_line(t)
    &&& !text::holds(t, closing())
    &&& !text::holds(t, ", "@)
}

/// A line that may stand above the closing line.
spec fn unclosed(line: Seq<char>) -> bool {
    text::one_line(line) && !closing().is_suffix_of(line)
}

/// Where no line ends in the closing line's words, the list is closed at its end and
/// not before.
#[verifier::spinoff_prover]
proof fn lemma_not_closed_before(list: Seq<Seq<char>>, p: int)
    requires
        forall|i: int| 0 <= i < list.len() ==> unclosed(#[trigger] list[i]),
        0 <= p < text::strung(ended(list)).len(),
    ensures
        (text::strung(ended(list)) + LISTED_FOOTER@).subrange(p, p + LISTED_FOOTER@.len())
            != LISTED_FOOTER@,
    decreases list.len(),
{
    lemma_closing();
    let f = LISTED_FOOTER@;
    let n = f.len() as int;
    if list.len() == 0 {
        assert(text::strung(ended(list)) =~= Seq::<char>::empty());
    } else {
        let front = list.drop_last();
        assert forall|i: int| 0 <= i < front.len() implies unclosed(#[trigger] front[i]) by {
            assert(front[i] == list[i]);
        }
        assert forall|i: int| 0 <= i < front.len() implies text::one_line(#[trigger] front[i]) by {
            assert(unclosed(front[i]));
        }
        lemma_lines_of(front);
        assert(ended(list).drop_last() =~= ended(front));
        let a = text::strung(ended(front));
        let e = list.last();
        assert(unclosed(list[list.len() - 1]));
        let body = text::strung(ended(list));
        reveal_strlit("\n");
        assert(body =~= a + e + "\n"@);
        let t = body + f;
        let found = t.subrange(p, p + n);
        if found == f {
            assert(f[n - 1] == '\n');
            assert(found[n - 1] == t[p + n - 1]);
            if p < a.len() {
                if p + n <= a.len() {
                    lemma_not_closed_before(front, p);
                    assert((a + f).subrange(p, p + n) =~= found);
                } else {
                    let q = a.len() - 1 - p;
                    assert(found[q] == t[a.len() - 1]);
                    assert(t[a.len() - 1] == a[a.len() - 1]);
                    assert(f[q] == closing()[q]);
                }
            } else {
                let end = a.len() + e.len();
                assert(t[end as int] == '\n');
                if end < p + n - 1 {
                    assert(found[end - p] == t[end as int]);
                    assert(f[end - p] == closing()[end - p]);
                } else if end > p + n - 1 {
                    assert(t[p + n - 1] == e[p + n - 1 - a.len()]);
                } else {
                    let from = e.len() - (n - 1);
                    assert(closing() =~= e.subrange(from, e.len() as int)) by {
                        assert forall|i: int| 0 <= i < n - 1 implies closing()[i] == e.subrange(
                            from,
                            e.len() as int,
                        )[i] by {
                            assert(found[i] == t[p + i]);
                            assert(t[p + i] == e[p + i - a.len()]);
                        }
                    }
                    assert(closing().is_suffix_of(e));
                }
            }
        }
    }
}

proof fn lemma_closed_at_the_end(list: Seq<Seq<char>>)
    requires
        forall|i: int| 0 <= i < list.len() ==> unclosed(#[trigger] list[i]),
    ensures
        text::place_of(text::strung(ended(list)) + LISTED_FOOTER@, LISTED_FOOTER@) == Some(
            text::strung(ended(list)).len() as int,
        ),
{
    let body = text::strung(ended(list));
    let t = body + LISTED_FOOTER@;
    let n = LISTED_FOOTER@.len() as int;
    assert(t.subrange(body.len() as int, body.len() as int + n) =~= LISTED_FOOTER@);
    assert forall|p: int| 0 <= p < body.len() && p + n <= t.len() implies #[trigger] t.subrange(
        p,
        p + n,
    ) != LISTED_FOOTER@ by {
        lemma_not_closed_before(list, p);
    }
    lemma_place_is(t, LISTED_FOOTER@, body.len() as int);
}

proof fn lemma_plain_request(p: Seq<char>)
    requires
        plain_request(p),
    ensures
        listable(p),
        unclosed("- "@ + p),
{
    lemma_closing();
    let c = closing();
    let line = "- "@ + p;
    reveal_strlit("- ");
    reveal_strlit("- (");
    reveal_strlit(" earlier requests not listed)");
    reveal_strlit("earlier requests not listed");
    let note = " earlier requests not listed)"@;
    let core = "earlier requests not listed"@;
    assert(core =~= note.subrange(1, note.len() - 1));
    if span::count_line(line) is Some {
        let rest = line.skip(3);
        assert(note =~= rest.subrange(rest.len() - note.len(), rest.len() as int));
        let at = p.len() - note.len() + 1;
        assert(p.subrange(at, at + core.len()) =~= core) by {
            assert forall|i: int| 0 <= i < core.len() implies p.subrange(at, at + core.len())[i]
                == core[i] by {
                assert(core[i] == note[i + 1]);
                assert(note[i + 1] == rest[rest.len() - note.len() + i + 1]);
            }
        }
        assert(text::holds(p, core));
    }
    lemma_request_entry(p);
    if c.is_suffix_of(line) {
        let from = line.len() - c.len();
        assert(c == line.subrange(from, line.len() as int));
        assert(c[0] == line[from]);
        if from >= 2 {
            assert(p.subrange(from - 2, from - 2 + c.len()) =~= c);
            assert(text::holds(p, c));
        } else {
            assert(line[from] == "- "@[from]);
        }
    }
}

/// What ends in a plain tool name behind a separator does not close a list.
proof fn lemma_ends_in_a_tool(x: Seq<char>, tool: Seq<char>)
    requires
        plain_tool(tool),
        x.len() >= 2,
        x.last() == ' ',
        x[x.len() - 2] == ',' || x[x.len() - 2] == ':',
    ensures
        !closing().is_suffix_of(x + tool),
{
    lemma_closing();
    let c = closing();
    let line = x + tool;
    if c.is_suffix_of(line) {
        let from = line.len() - c.len();
        assert(c == line.subrange(from, line.len() as int));
        if from >= x.len() {
            assert(tool.subrange(from - x.len(), from - x.len() + c.len()) =~= c);
            assert(text::holds(tool, c));
        } else if from == x.len() - 1 {
            assert(c[0] == line[from]);
        } else {
            let q = x.len() - 2 - from;
            assert(c[q] == line[x.len() - 2]);
        }
    }
}

proof fn lemma_plain_tools(tools: Seq<Seq<char>>)
    requires
        tools.len() > 0,
        forall|i: int| 0 <= i < tools.len() ==> plain_tool(#[trigger] tools[i]),
    ensures
        unclosed(TOOLS_LINE@ + text::joined(tools, ", "@)),
{
    assert forall|i: int| 0 <= i < tools.len() implies nameable(#[trigger] tools[i]) by {
        assert(plain_tool(tools[i]));
    }
    lemma_tools_entry(tools);
    reveal_strlit("Tools used: ");
    reveal_strlit(", ");
    assert(TOOLS_LINE@ == "Tools used: "@);
    let last = tools[tools.len() - 1];
    if tools.len() == 1 {
        lemma_ends_in_a_tool(TOOLS_LINE@, last);
    } else {
        let x = TOOLS_LINE@ + text::joined(tools.drop_last(), ", "@) + ", "@;
        lemma_ends_in_a_tool(x, last);
        assert(TOOLS_LINE@ + text::joined(tools, ", "@) =~= x + last);
    }
}

/// Every request and tool the span accounts for is an ordinary one, and nothing was
/// written above its list.
pub open spec fn plain_span(s: CompactedSpanView) -> bool {
    let l = span::accounted(s);
    &&& span::merged(s.prior).written.len() == 0
    &&& forall|i: int| 0 <= i < l.asked.len() ==> plain_request(#[trigger] l.asked[i])
    &&& forall|i: int| 0 <= i < l.tools.len() ==> plain_tool(#[trigger] l.tools[i])
}

/// The summary of a span of ordinary requests and tools can be told apart again.
#[verifier::spinoff_prover]
pub proof fn law_plain_spans_are_tellable(s: CompactedSpanView)
    requires
        plain_span(s),
    ensures
        tellable(s),
{
    let l = span::accounted(s);
    let n = span::capped(span::unnamed(l)) as nat;
    let asked = span::named(l);
    let tools = order::catalogued(l.tools);
    assert forall|i: int| 0 <= i < asked.len() implies plain_request(#[trigger] asked[i]) by {
        let k = if l.asked.len() > span::LISTED_MAX {
            i + l.asked.len() - span::LISTED_MAX
        } else {
            i
        };
        assert(asked[i] == l.asked[k]);
    }
    assert forall|i: int| 0 <= i < asked.len() implies listable(#[trigger] asked[i]) by {
        lemma_plain_request(asked[i]);
    }
    order::law_catalogued(l.tools);
    assert forall|i: int| 0 <= i < tools.len() implies plain_tool(#[trigger] tools[i]) by {
        assert(tools.contains(tools[i]));
        assert(l.tools.contains(tools[i]));
        let k = choose|k: int| 0 <= k < l.tools.len() && l.tools[k] == tools[i];
        assert(plain_tool(l.tools[k]));
    }
    assert forall|i: int| 0 <= i < tools.len() implies nameable(#[trigger] tools[i]) by {
        assert(plain_tool(tools[i]));
    }
    let list = entries(n, asked, tools);
    assert forall|i: int| 0 <= i < list.len() implies unclosed(#[trigger] list[i]) by {
        let c: int = if n == 0 {
            0
        } else {
            1
        };
        if i < c {
            lemma_count_entry(n);
            lemma_closing();
            reveal_strlit(" earlier requests not listed)");
            assert(list[i] == count_entry(n));
            assert(count_entry(n).last() == ')');
        } else if i < c + asked.len() {
            assert(list[i] == "- "@ + asked[i - c]);
            lemma_plain_request(asked[i - c]);
        } else {
            assert(list[i] == TOOLS_LINE@ + text::joined(tools, ", "@));
            lemma_plain_tools(tools);
        }
    }
    lemma_closed_at_the_end(list);
    lemma_list_text(s);
    assert(span::merged(s.prior).written =~= Seq::empty());
    assert(span::spaced(span::merged(s.prior).written) =~= Seq::empty());
    assert(above(s) =~= Seq::empty());
    assert(above(s) + LISTED_HEADER@ =~= LISTED_HEADER@);
    assert(LISTED_HEADER@.is_prefix_of(LISTED_HEADER@)) by {
        assert(LISTED_HEADER@.subrange(0, LISTED_HEADER@.len() as int) =~= LISTED_HEADER@);
    }
}

/// A span no summary was written for yet.
pub open spec fn fresh(
    through: u64,
    prompts: Seq<Seq<char>>,
    tools: Seq<Seq<char>>,
) -> CompactedSpanView {
    CompactedSpanView { through, prior: Seq::empty(), prompts, tools }
}

pub open spec fn all_plain(prompts: Seq<Seq<char>>, tools: Seq<Seq<char>>) -> bool {
    &&& forall|i: int| 0 <= i < prompts.len() ==> plain_request(#[trigger] prompts[i])
    &&& forall|i: int| 0 <= i < tools.len() ==> plain_tool(#[trigger] tools[i])
}

proof fn lemma_fresh(through: u64, prompts: Seq<Seq<char>>, tools: Seq<Seq<char>>)
    ensures
        span::merged(fresh(through, prompts, tools).prior).written.len() == 0,
        span::accounted(fresh(through, prompts, tools)) == (ListView {
            asked: prompts,
            omitted: 0,
            tools,
        }),
{
    let s = fresh(through, prompts, tools);
    let m = span::merged(s.prior).list;
    assert(m.asked + prompts =~= prompts);
    assert(m.tools + tools =~= tools);
}

/// Taking apart undoes listing: of ordinary requests and tools, no more than are named
/// and the tools in order, the summary gives back exactly those.
pub proof fn law_taking_apart_undoes_listing(
    through: u64,
    prompts: Seq<Seq<char>>,
    tools: Seq<Seq<char>>,
)
    requires
        all_plain(prompts, tools),
        prompts.len() <= span::LISTED_MAX,
        order::increasing(tools),
    ensures
        span::taken_apart(span::listed(fresh(through, prompts, tools))) == (ListedView {
            written: Seq::empty(),
            asked: prompts,
            omitted: 0,
            tools,
        }),
{
    let s = fresh(through, prompts, tools);
    lemma_fresh(through, prompts, tools);
    law_plain_spans_are_tellable(s);
    law_a_list_reads_back(s);
    order::law_one_catalogue(tools, tools);
    assert(span::spaced(span::merged(s.prior).written) =~= Seq::empty());
    assert(above(s) =~= Seq::empty());
    assert(text::trimmed(above(s)) =~= Seq::empty());
}

/// Folding in two steps is folding at once: a summary of ordinary requests and tools,
/// folded with more of them, is the summary of all of them, word for word, however many
/// there are.
#[verifier::spinoff_prover]
pub proof fn law_two_steps_are_one(
    through: u64,
    p: Seq<Seq<char>>,
    t: Seq<Seq<char>>,
    q: Seq<Seq<char>>,
    u: Seq<Seq<char>>,
)
    requires
        all_plain(p, t),
        all_plain(q, u),
    ensures
        span::listed(
            CompactedSpanView {
                through,
                prior: seq![span::listed(fresh(through, p, t))],
                prompts: q,
                tools: u,
            },
        ) == span::listed(fresh(through, p + q, t + u)),
{
    let first = fresh(through, p, t);
    let text = span::listed(first);
    let then = CompactedSpanView { through, prior: seq![text], prompts: q, tools: u };
    let whole = fresh(through, p + q, t + u);
    lemma_fresh(through, p, t);
    lemma_fresh(through, p + q, t + u);
    law_plain_spans_are_tellable(first);
    law_a_list_reads_back(first);
    assert(span::spaced(span::merged(first.prior).written) =~= Seq::empty());
    assert(above(first) =~= Seq::empty());
    assert(text::trimmed(above(first)) =~= Seq::empty());
    let l = ListView { asked: p, omitted: 0, tools: t };
    let apart = span::taken_apart(text);
    assert(apart.written.len() == 0);
    let none = then.prior.drop_last();
    assert(none =~= Seq::empty());
    assert(then.prior.last() == text);
    let m = span::merged(then.prior);
    assert(m.written =~= Seq::empty());
    assert(m.list.asked =~= span::named(l));
    assert(m.list.tools =~= order::catalogued(t));
    let a = span::accounted(then);
    let b = span::accounted(whole);
    assert(a.asked =~= span::named(l) + q);
    assert(b.asked =~= p + q);
    assert(span::named(a) =~= span::named(b));
    assert(span::capped(span::unnamed(a)) == span::capped(span::unnamed(b)));
    order::law_catalogued(t);
    assert forall|x: Seq<char>| #[trigger] a.tools.contains(x) <==> b.tools.contains(x) by {
        lemma_either_holds(order::catalogued(t), u, x);
        lemma_either_holds(t, u, x);
        assert(order::catalogued(t).contains(x) <==> t.contains(x));
        assert(a.tools =~= order::catalogued(t) + u);
        assert(b.tools =~= t + u);
    }
    order::law_one_catalogue(a.tools, b.tools);
    assert(span::spaced(m.written) =~= span::spaced(span::merged(whole.prior).written));
}

proof fn lemma_either_holds(a: Seq<Seq<char>>, b: Seq<Seq<char>>, x: Seq<char>)
    ensures
        (a + b).contains(x) <==> a.contains(x) || b.contains(x),
{
    let c = a + b;
    if c.contains(x) {
        let i = choose|i: int| 0 <= i < c.len() && c[i] == x;
        if i < a.len() {
            assert(a[i] == x);
        } else {
            assert(b[i - a.len()] == x);
        }
    }
    if a.contains(x) {
        let i = choose|i: int| 0 <= i < a.len() && a[i] == x;
        assert(c[i] == x);
    }
    if b.contains(x) {
        let i = choose|i: int| 0 <= i < b.len() && b[i] == x;
        assert(c[a.len() + i] == x);
    }
}

} // verus!
