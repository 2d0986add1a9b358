//! A call whose arguments finished streaming is told from one that was cut off,
//! wherever the cut fell.
use crate::text;
use crate::truncation;
use crate::truncation::Scan;
use vstd::prelude::*;

verus! {

// ---- the text of a JSON value ---------------------------------------------

/// One character of a JSON string, as it is written.
pub enum Piece {
    /// A character other than a quote or a backslash.
    Plain(char),
    /// A backslash and the character behind it.
    Escaped(char),
}

/// A part of a JSON text. Every JSON text is made of such parts: its strings, its lists
/// and objects, and the characters between them (white space, commas, colons, numbers
/// and words).
pub enum Part {
    Between(char),
    Quoted(Seq<Piece>),
    List(Seq<Part>),
    Object(Seq<Part>),
}

pub open spec fn piece_text(p: Piece) -> Seq<char> {
    match p {
        Piece::Plain(c) => seq![c],
        Piece::Escaped(c) => seq!['\\', c],
    }
}

pub open spec fn pieces_text(pieces: Seq<Piece>) -> Seq<char>
    decreases pieces.len(),
{
    if pieces.len() == 0 {
        Seq::empty()
    } else {
        pieces_text(pieces.drop_last()) + piece_text(pieces.last())
    }
}

pub open spec fn part_text(p: Part) -> Seq<char>
    decreases p,
{
    match p {
        Part::Between(c) => seq![c],
        Part::Quoted(pieces) => seq!['"'] + pieces_text(pieces) + seq!['"'],
        Part::List(parts) => seq!['['] + parts_text(parts) + seq![']'],
        Part::Object(parts) => seq!['{'] + parts_text(parts) + seq!['}'],
    }
}

pub open spec fn parts_text(parts: Seq<Part>) -> Seq<char>
    decreases parts,
{
    if parts.len() == 0 {
        Seq::empty()
    } else {
        parts_text(parts.subrange(0, parts.len() - 1)) + part_text(parts[parts.len() - 1])
    }
}

pub open spec fn piece_is_sound(p: Piece) -> bool {
    p matches Piece::Plain(c) ==> c != '"' && c != '\\'
}

/// What a part may be written with.
pub open spec fn part_is_sound(p: Part) -> bool
    decreases p,
{
    match p {
        Part::Between(c) => c != '"' && c != '[' && c != ']' && c != '{' && c != '}',
        Part::Quoted(pieces) => forall|i: int|
            0 <= i < pieces.len() ==> piece_is_sound(#[trigger] pieces[i]),
        Part::List(parts) => parts_are_sound(parts),
        Part::Object(parts) => parts_are_sound(parts),
    }
}

pub open spec fn parts_are_sound(parts: Seq<Part>) -> bool
    decreases parts,
{
    parts.len() == 0 || (parts_are_sound(parts.subrange(0, parts.len() - 1)) && part_is_sound(
        parts[parts.len() - 1],
    ))
}

// ---- reading on -----------------------------------------------------------

/// Where a reader stands after one more character.
spec fn moved(p: Scan, c: char) -> Scan {
    if p.escaped {
        Scan { escaped: false, ..p }
    } else if c == '\\' && p.in_string {
        Scan { escaped: true, ..p }
    } else if c == '"' {
        Scan { in_string: !p.in_string, ..p }
    } else if (c == '{' || c == '[') && !p.in_string {
        Scan { depth: p.depth + 1, ..p }
    } else if (c == '}' || c == ']') && !p.in_string {
        Scan { depth: p.depth - 1, ..p }
    } else {
        p
    }
}

/// Where a reader who stands at `from` stands after `s`.
spec fn read_on(from: Scan, s: Seq<char>) -> Scan
    decreases s.len(),
{
    if s.len() == 0 {
        from
    } else {
        moved(read_on(from, s.drop_last()), s.last())
    }
}

proof fn lemma_scanned(s: Seq<char>)
    ensures
        truncation::scanned(s) == read_on(
            Scan { depth: 0, in_string: false, escaped: false },
            s,
        ),
    decreases s.len(),
{
    if s.len() > 0 {
        lemma_scanned(s.drop_last());
    }
}

proof fn lemma_read_on_adds(from: Scan, a: Seq<char>, b: Seq<char>)
    ensures
        read_on(from, a + b) == read_on(read_on(from, a), b),
    decreases b.len(),
{
    if b.len() == 0 {
        assert(a + b =~= a);
    } else {
        assert((a + b).drop_last() =~= a + b.drop_last());
        lemma_read_on_adds(from, a, b.drop_last());
    }
}

proof fn lemma_read_one(from: Scan, c: char)
    ensures
        read_on(from, seq![c]) == moved(from, c),
{
    assert(seq![c].drop_last() =~= Seq::<char>::empty());
    assert(read_on(from, seq![c].drop_last()) == from);
}

/// Reading `s` leads back to where it began, and never out of what was open there.
spec fn keeps(from: Scan, s: Seq<char>) -> bool {
    &&& read_on(from, s) == from
    &&& forall|k: int| 0 <= k <= s.len() ==> (#[trigger] read_on(from, s.take(k))).depth
        >= from.depth
}

proof fn lemma_keeps_adds(from: Scan, a: Seq<char>, b: Seq<char>)
    requires
        keeps(from, a),
        keeps(from, b),
    ensures
        keeps(from, a + b),
{
    let s = a + b;
    lemma_read_on_adds(from, a, b);
    assert forall|k: int| 0 <= k <= s.len() implies (#[trigger] read_on(from, s.take(k))).depth
        >= from.depth by {
        if k <= a.len() {
            assert(s.take(k) =~= a.take(k));
        } else {
            assert(s.take(k) =~= a + b.take(k - a.len()));
            lemma_read_on_adds(from, a, b.take(k - a.len()));
        }
    }
}

/// What stands between an opening and a closing character keeps within both.
proof fn lemma_keeps_wrapped(from: Scan, open: char, inner: Seq<char>, close: char)
    requires
        keeps(moved(from, open), inner),
        moved(from, open).depth >= from.depth,
        moved(moved(from, open), close) == from,
    ensures
        keeps(from, seq![open] + inner + seq![close]),
{
    let s = seq![open] + inner + seq![close];
    let inside = moved(from, open);
    lemma_read_one(from, open);
    lemma_read_on_adds(from, seq![open], inner);
    lemma_read_on_adds(from, seq![open] + inner, seq![close]);
    lemma_read_one(inside, close);
    assert forall|k: int| 0 <= k <= s.len() implies (#[trigger] read_on(from, s.take(k))).depth
        >= from.depth by {
        if k == 0 {
            assert(s.take(k) =~= Seq::<char>::empty());
        } else if k < s.len() {
            assert(s.take(k) =~= seq![open] + inner.take(k - 1));
            lemma_read_on_adds(from, seq![open], inner.take(k - 1));
        } else {
            assert(s.take(k) =~= s);
        }
    }
}

proof fn lemma_keeps_nothing(from: Scan)
    ensures
        keeps(from, Seq::empty()),
{
    let none = Seq::<char>::empty();
    assert forall|k: int| 0 <= k <= none.len() implies (#[trigger] read_on(
        from,
        none.take(k),
    )).depth >= from.depth by {
        assert(none.take(k) =~= none);
    }
}

proof fn lemma_keeps_one(from: Scan, c: char)
    requires
        moved(from, c) == from,
    ensures
        keeps(from, seq![c]),
{
    let s = seq![c];
    lemma_read_one(from, c);
    assert forall|k: int| 0 <= k <= s.len() implies (#[trigger] read_on(from, s.take(k))).depth
        >= from.depth by {
        if k == 0 {
            assert(s.take(k) =~= Seq::<char>::empty());
        } else {
            assert(s.take(k) =~= s);
        }
    }
}

proof fn lemma_pieces_keep(from: Scan, pieces: Seq<Piece>)
    requires
        from.in_string,
        !from.escaped,
        forall|i: int| 0 <= i < pieces.len() ==> piece_is_sound(#[trigger] pieces[i]),
    ensures
        keeps(from, pieces_text(pieces)),
    decreases pieces.len(),
{
    if pieces.len() == 0 {
        lemma_keeps_nothing(from);
    } else {
        let front = pieces.drop_last();
        assert forall|i: int| 0 <= i < front.len() implies piece_is_sound(#[trigger] front[i]) by {
            assert(front[i] == pieces[i]);
        }
        lemma_pieces_keep(from, front);
        assert(piece_is_sound(pieces[pieces.len() - 1]));
        match pieces.last() {
            Piece::Plain(c) => {
                lemma_keeps_one(from, c);
            },
            Piece::Escaped(c) => {
                lemma_keeps_nothing(moved(from, '\\'));
                lemma_keeps_wrapped(from, '\\', Seq::empty(), c);
                assert(seq!['\\'] + Seq::<char>::empty() + seq![c] =~= seq!['\\', c]);
            },
        }
        lemma_keeps_adds(from, pieces_text(front), piece_text(pieces.last()));
    }
}

proof fn lemma_part_keeps(from: Scan, p: Part)
    requires
        !from.in_string,
        !from.escaped,
        part_is_sound(p),
    ensures
        keeps(from, part_text(p)),
    decreases p,
{
    match p {
        Part::Between(c) => {
            lemma_keeps_one(from, c);
        },
        Part::Quoted(pieces) => {
            lemma_pieces_keep(moved(from, '"'), pieces);
            lemma_keeps_wrapped(from, '"', pieces_text(pieces), '"');
        },
        Part::List(parts) => {
            lemma_parts_keep(moved(from, '['), parts);
            lemma_keeps_wrapped(from, '[', parts_text(parts), ']');
        },
        Part::Object(parts) => {
            lemma_parts_keep(moved(from, '{'), parts);
            lemma_keeps_wrapped(from, '{', parts_text(parts), '}');
        },
    }
}

proof fn lemma_parts_keep(from: Scan, parts: Seq<Part>)
    requires
        !from.in_string,
        !from.escaped,
        parts_are_sound(parts),
    ensures
        keeps(from, parts_text(parts)),
    decreases parts,
{
    if parts.len() == 0 {
        lemma_keeps_nothing(from);
    } else {
        let front = parts.subrange(0, parts.len() - 1);
        lemma_parts_keep(from, front);
        lemma_part_keeps(from, parts[parts.len() - 1]);
        lemma_keeps_adds(from, parts_text(front), part_text(parts[parts.len() - 1]));
    }
}

// ---- the law --------------------------------------------------------------

/// The text of a JSON object.
pub open spec fn is_object_text(s: Seq<char>) -> bool {
    exists|parts: Seq<Part>|
        parts_are_sound(parts) && s == #[trigger] part_text(Part::Object(parts))
}

/// The arguments of a call are an object: whole, they look complete; cut off anywhere,
/// inside a string or behind a backslash too, they do not.
pub proof fn law_a_cut_is_noticed(s: Seq<char>, k: int)
    requires
        is_object_text(s),
    ensures
        truncation::complete(s),
        0 < k < s.len() ==> !truncation::complete(s.take(k)),
{
    let parts = choose|parts: Seq<Part>|
        parts_are_sound(parts) && s == #[trigger] part_text(Part::Object(parts));
    let start = Scan { depth: 0, in_string: false, escaped: false };
    let inside = moved(start, '{');
    let inner = parts_text(parts);
    lemma_parts_keep(inside, parts);
    lemma_keeps_wrapped(start, '{', inner, '}');
    assert(!text::is_white('{'));
    assert(!text::is_white('}'));
    text::lemma_trimmed_is_a_prefix(s);
    assert(text::trimmed(s) =~= s);
    lemma_scanned(s);
    if 0 < k < s.len() {
        let cut = s.take(k);
        text::lemma_trimmed_is_a_prefix(cut);
        let left = text::trimmed(cut);
        let n = left.len() as int;
        assert(left =~= seq!['{'] + inner.take(n - 1));
        lemma_scanned(left);
        lemma_read_one(start, '{');
        lemma_read_on_adds(start, seq!['{'], inner.take(n - 1));
        assert(read_on(inside, inner.take(n - 1)).depth >= 1);
    }
}

} // verus!
