//! What the operations on texts come to, each told by what it gives rather than by how it
//! goes about it.
use crate::calendar;
use crate::text;
use vstd::prelude::*;

verus! {

/// `s` holds nothing but characters of `set`.
pub open spec fn only(s: Seq<char>, set: spec_fn(char) -> bool) -> bool {
    forall|i: int| 0 <= i < s.len() ==> set(#[trigger] s[i])
}

// ---- around a text --------------------------------------------------------

/// Trimming takes the white space around a text and nothing else: the text is what is left
/// with white space before and behind it, and what is left begins and ends with none.
pub proof fn law_trimming_takes_white_space_alone(s: Seq<char>)
    ensures
        ({
            let t = text::trimmed(s);
            let white = |c: char| text::is_white(c);
            &&& exists|a: Seq<char>, b: Seq<char>| #[trigger]
                (a + t + b) == s && only(a, white) && only(b, white)
            &&& t.len() > 0 ==> !text::is_white(t[0]) && !text::is_white(t.last())
        }),
{
    let white = |c: char| text::is_white(c);
    let m = text::trim_start(s);
    let t = text::trimmed(s);
    lemma_trim_start(s);
    lemma_trim_end(m);
    let a = s.take(s.len() - m.len());
    let b = m.skip(t.len() as int);
    assert(m =~= t + b);
    assert(s =~= a + m);
    assert(a + t + b =~= s);
    assert forall|i: int| 0 <= i < b.len() implies white(#[trigger] b[i]) by {
        assert(b[i] == m[t.len() + i]);
    }
    assert(only(a, white));
    assert(only(b, white));
    if t.len() > 0 {
        assert(t[0] == m[0]);
    }
}

proof fn lemma_trim_start(s: Seq<char>)
    ensures
        ({
            let t = text::trim_start(s);
            &&& t.len() <= s.len()
            &&& t == s.skip(s.len() - t.len())
            &&& forall|i: int| 0 <= i < s.len() - t.len() ==> text::is_white(#[trigger] s[i])
            &&& t.len() > 0 ==> !text::is_white(t[0])
        }),
    decreases s.len(),
{
    if s.len() > 0 && text::is_white(s[0]) {
        let r = s.skip(1);
        lemma_trim_start(r);
        let t = text::trim_start(s);
        assert(t =~= s.skip(s.len() - t.len()));
        assert forall|i: int| 0 <= i < s.len() - t.len() implies text::is_white(
            #[trigger] s[i],
        ) by {
            if i > 0 {
                assert(r[i - 1] == s[i]);
            }
        }
    } else {
        assert(s =~= s.skip(0));
    }
}

proof fn lemma_trim_end(s: Seq<char>)
    ensures
        ({
            let t = text::trim_end(s);
            &&& t.len() <= s.len()
            &&& t == s.take(t.len() as int)
            &&& forall|i: int| t.len() <= i < s.len() ==> text::is_white(#[trigger] s[i])
            &&& t.len() > 0 ==> !text::is_white(t.last())
        }),
    decreases s.len(),
{
    if s.len() > 0 && text::is_white(s.last()) {
        let r = s.drop_last();
        lemma_trim_end(r);
        let t = text::trim_end(s);
        assert(t =~= s.take(t.len() as int));
        assert forall|i: int| t.len() <= i < s.len() implies text::is_white(#[trigger] s[i]) by {
            if i < r.len() {
                assert(r[i] == s[i]);
            }
        }
    } else {
        assert(s =~= s.take(s.len() as int));
    }
}

/// Baring a text takes the given characters around it and nothing else.
pub proof fn law_baring_takes_those_characters_alone(s: Seq<char>, set: Seq<char>)
    ensures
        ({
            let t = text::bared(s, set);
            let held = |c: char| set.contains(c);
            &&& exists|a: Seq<char>, b: Seq<char>| #[trigger]
                (a + t + b) == s && only(a, held) && only(b, held)
            &&& t.len() > 0 ==> !set.contains(t[0]) && !set.contains(t.last())
        }),
{
    let held = |c: char| set.contains(c);
    let m = text::bared_start(s, set);
    let t = text::bared(s, set);
    lemma_bared_start(s, set);
    lemma_bared_end(m, set);
    let a = s.take(s.len() - m.len());
    let b = m.skip(t.len() as int);
    assert(m =~= t + b);
    assert(s =~= a + m);
    assert(a + t + b =~= s);
    assert forall|i: int| 0 <= i < b.len() implies held(#[trigger] b[i]) by {
        assert(b[i] == m[t.len() + i]);
    }
    assert(only(a, held));
    assert(only(b, held));
    if t.len() > 0 {
        assert(t[0] == m[0]);
    }
}

proof fn lemma_bared_start(s: Seq<char>, set: Seq<char>)
    ensures
        ({
            let t = text::bared_start(s, set);
            &&& t.len() <= s.len()
            &&& t == s.skip(s.len() - t.len())
            &&& forall|i: int| 0 <= i < s.len() - t.len() ==> set.contains(#[trigger] s[i])
            &&& t.len() > 0 ==> !set.contains(t[0])
        }),
    decreases s.len(),
{
    if s.len() > 0 && set.contains(s[0]) {
        let r = s.skip(1);
        lemma_bared_start(r, set);
        let t = text::bared_start(s, set);
        assert(t =~= s.skip(s.len() - t.len()));
        assert forall|i: int| 0 <= i < s.len() - t.len() implies set.contains(#[trigger] s[i]) by {
            if i > 0 {
                assert(r[i - 1] == s[i]);
            }
        }
    } else {
        assert(s =~= s.skip(0));
    }
}

proof fn lemma_bared_end(s: Seq<char>, set: Seq<char>)
    ensures
        ({
            let t = text::bared_end(s, set);
            &&& t.len() <= s.len()
            &&& t == s.take(t.len() as int)
            &&& forall|i: int| t.len() <= i < s.len() ==> set.contains(#[trigger] s[i])
            &&& t.len() > 0 ==> !set.contains(t.last())
        }),
    decreases s.len(),
{
    if s.len() > 0 && set.contains(s.last()) {
        let r = s.drop_last();
        lemma_bared_end(r, set);
        let t = text::bared_end(s, set);
        assert(t =~= s.take(t.len() as int));
        assert forall|i: int| t.len() <= i < s.len() implies set.contains(#[trigger] s[i]) by {
            if i < r.len() {
                assert(r[i] == s[i]);
            }
        }
    } else {
        assert(s =~= s.take(s.len() as int));
    }
}

// ---- taking apart and putting together ------------------------------------

/// Joining puts a separator between each text and the next, from either end.
pub proof fn law_joining_goes_from_either_end(parts: Seq<Seq<char>>, p: Seq<char>, sep: Seq<char>)
    ensures
        parts.len() == 0 ==> text::joined(parts.push(p), sep) == p,
        parts.len() > 0 ==> text::joined(parts.push(p), sep) == text::joined(parts, sep) + sep + p,
        parts.len() > 0 ==> text::joined(seq![p] + parts, sep) == p + sep + text::joined(
            parts,
            sep,
        ),
        text::joined(Seq::empty(), sep).len() == 0,
    decreases parts.len(),
{
    assert(parts.push(p).drop_last() =~= parts);
    if parts.len() > 0 {
        let all = seq![p] + parts;
        let front = parts.drop_last();
        assert(all.last() == parts.last());
        assert(all.drop_last() =~= seq![p] + front);
        assert(parts =~= front.push(parts.last()));
        law_joining_goes_from_either_end(front, p, sep);
        if front.len() == 0 {
            assert(all.drop_last() =~= seq![p]);
            assert(text::joined(all.drop_last(), sep) == p);
            assert(text::joined(parts, sep) == parts[0]);
        } else {
            assert(text::joined(all, sep) =~= text::joined(all.drop_last(), sep) + sep
                + all.last());
            assert(p + sep + text::joined(front, sep) + sep + parts.last() =~= p + sep + (
            text::joined(front, sep) + sep + parts.last()));
        }
    }
}

/// Joining undoes splitting, and no piece holds what a text was split at.
pub proof fn law_joining_undoes_splitting(s: Seq<char>, c: char)
    ensures
        text::joined(text::pieces(s, c), seq![c]) == s,
        forall|i: int|
            0 <= i < text::pieces(s, c).len() ==> !(#[trigger] text::pieces(s, c)[i]).contains(c),
    decreases s.len(),
{
    text::lemma_index_of(s, c);
    let k = text::index_of(s, c);
    let p = text::pieces(s, c);
    if k >= s.len() {
        assert(p =~= seq![s]);
        assert(!s.contains(c));
    } else {
        let rest = s.skip(k + 1);
        law_joining_undoes_splitting(rest, c);
        let more = text::pieces(rest, c);
        text::lemma_some_piece(rest, c);
        law_joining_goes_from_either_end(more, s.take(k), seq![c]);
        assert(s.take(k) + seq![c] + rest =~= s);
        assert(!s.take(k).contains(c));
        assert forall|i: int| 0 <= i < p.len() implies !(#[trigger] p[i]).contains(c) by {
            if i > 0 {
                assert(p[i] == more[i - 1]);
            }
        }
    }
}

/// A text is cut at the first place where the character stands, if there is one.
pub proof fn law_a_cut_is_at_the_first(s: Seq<char>, c: char)
    ensures
        match text::cut(s, c) {
            Some((a, b)) => s == a + seq![c] + b && !a.contains(c),
            None => !s.contains(c),
        },
{
    text::lemma_index_of(s, c);
    match text::cut(s, c) {
        Some((a, b)) => {
            assert(s =~= a + seq![c] + b);
        },
        None => {},
    }
}

/// Joining undoes splitting by a text as well.
pub proof fn law_joining_undoes_splitting_by(s: Seq<char>, sep: Seq<char>)
    requires
        sep.len() > 0,
    ensures
        text::joined(text::pieces_by(s, sep), sep) == s,
        text::pieces_by(s, sep).len() > 0,
        !text::holds(s, sep) <==> text::pieces_by(s, sep).len() == 1,
    decreases s.len(),
{
    text::lemma_place_of(s, sep);
    lemma_place_is_found(s, sep);
    let p = text::pieces_by(s, sep);
    match text::place_of(s, sep) {
        Some(i) => {
            let rest = s.skip(i + sep.len());
            law_joining_undoes_splitting_by(rest, sep);
            law_joining_goes_from_either_end(text::pieces_by(rest, sep), s.take(i), sep);
            assert(s.take(i) + sep + rest =~= s) by {
                assert(s.subrange(i, i + sep.len()) == sep);
                assert(s =~= s.take(i) + s.subrange(i, i + sep.len()) + rest);
            }
        },
        None => {
            assert(p =~= seq![s]);
        },
    }
}

proof fn lemma_place_is_found(s: Seq<char>, t: Seq<char>)
    ensures
        text::place_of(s, t) is Some <==> text::holds(s, t),
    decreases s.len(),
{
    if t.is_prefix_of(s) {
        let i: int = 0;
        assert(s.subrange(i, i + t.len()) =~= t);
    } else if s.len() == 0 {
        if text::holds(s, t) {
            let i = choose|i: int|
                0 <= i <= s.len() - t.len() && #[trigger] s.subrange(i, i + t.len()) == t;
            assert(t =~= s.take(0));
        }
    } else {
        let r = s.skip(1);
        lemma_place_is_found(r, t);
        if text::holds(r, t) {
            let i = choose|i: int|
                0 <= i <= r.len() - t.len() && #[trigger] r.subrange(i, i + t.len()) == t;
            assert(s.subrange(i + 1, i + 1 + t.len()) =~= t);
        }
        if text::holds(s, t) {
            let i = choose|i: int|
                0 <= i <= s.len() - t.len() && #[trigger] s.subrange(i, i + t.len()) == t;
            if i == 0 {
                assert(t =~= s.take(t.len() as int));
            } else {
                let j = i - 1;
                assert(r.subrange(j, j + t.len()) =~= t);
            }
        }
    }
}

/// A text is found where it first stands, and only where it does.
pub proof fn law_the_first_place_is_found(s: Seq<char>, t: Seq<char>, k: int)
    ensures
        text::place_of(s, t) is Some <==> text::holds(s, t),
        text::place_of(s, t) matches Some(i) ==> s.subrange(i, i + t.len()) == t,
        (text::place_of(s, t) matches Some(i) && 0 <= k < i) ==> s.subrange(k, k + t.len()) != t,
    decreases s.len(),
{
    text::lemma_place_of(s, t);
    lemma_place_is_found(s, t);
    if !t.is_prefix_of(s) && s.len() > 0 {
        let r = s.skip(1);
        law_the_first_place_is_found(r, t, k - 1);
        text::lemma_place_of(r, t);
        match text::place_of(s, t) {
            Some(i) => {
                if 0 <= k < i {
                    if s.subrange(k, k + t.len()) == t {
                        if k == 0 {
                            assert(t =~= s.take(t.len() as int));
                        } else {
                            assert(r.subrange(k - 1, k - 1 + t.len()) =~= t);
                        }
                    }
                }
            },
            None => {},
        }
    }
}

/// What follows a beginning, and what stands before an end, is the rest of the text.
pub proof fn law_the_rest_is_the_rest(a: Seq<char>, b: Seq<char>, s: Seq<char>)
    ensures
        text::after(a + b, a) == Some(b),
        text::before(a + b, b) == Some(a),
        text::after(s, a) matches Some(r) ==> s == a + r,
        text::before(s, b) matches Some(r) ==> s == r + b,
{
    let ab = a + b;
    assert(a =~= ab.take(a.len() as int));
    assert(ab.skip(a.len() as int) =~= b);
    assert(b =~= ab.subrange(ab.len() - b.len(), ab.len() as int));
    assert(ab.take(ab.len() - b.len()) =~= a);
    if a.is_prefix_of(s) {
        assert(s =~= a + s.skip(a.len() as int));
    }
    if b.is_suffix_of(s) {
        assert(s =~= s.take(s.len() - b.len()) + b);
    }
}

// ---- lines and words ------------------------------------------------------

/// Lines that were written one to a line are read back as they were.
pub proof fn law_lines_are_read_back(list: Seq<Seq<char>>)
    requires
        forall|i: int| 0 <= i < list.len() ==> text::one_line(#[trigger] list[i]),
    ensures
        text::lines(text::strung(list.map_values(|l: Seq<char>| l + "\n"@))) == list,
{
    lemma_written(list);
}

proof fn lemma_written(list: Seq<Seq<char>>)
    requires
        forall|i: int| 0 <= i < list.len() ==> text::one_line(#[trigger] list[i]),
    ensures
        ({
            let written = text::strung(list.map_values(|l: Seq<char>| l + "\n"@));
            &&& text::lines(written) == list
            &&& written.len() == 0 || written.last() == '\n'
        }),
    decreases list.len(),
{
    let ended = |l: Seq<char>| l + "\n"@;
    let m = list.map_values(ended);
    if list.len() == 0 {
        assert(m =~= Seq::empty());
        assert(text::lines(text::strung(m)) =~= list);
    } else {
        let front = list.drop_last();
        assert forall|i: int| 0 <= i < front.len() implies text::one_line(#[trigger] front[i]) by {
            assert(front[i] == list[i]);
        }
        lemma_written(front);
        assert(m.drop_last() =~= front.map_values(ended));
        assert(m.last() == list.last() + "\n"@);
        assert(text::one_line(list[list.len() - 1]));
        let before = text::strung(front.map_values(ended));
        text::lemma_one_more_line(before, list.last());
        assert(text::strung(m) =~= before + list.last() + "\n"@);
        assert(list =~= front.push(list.last()));
    }
}

/// A last line needs no ending, and a carriage return before an ending is part of it.
pub proof fn law_a_line_ends_where_it_ends(l: Seq<char>, rest: Seq<char>)
    requires
        text::one_line(l),
    ensures
        l.len() > 0 ==> text::lines(l) == seq![l],
        text::lines(l + seq!['\n'] + rest) == seq![l] + text::lines(rest),
        text::lines(l + seq!['\r', '\n'] + rest) == seq![l] + text::lines(rest),
        text::first_line(l + seq!['\n'] + rest) == l,
        text::lines(Seq::empty()).len() == 0,
{
    lemma_index_is(l, '\n', l.len() as int);
    let s = l + seq!['\n'] + rest;
    let n = l.len() as int;
    assert forall|i: int| 0 <= i < n implies s[i] != '\n' by {
        assert(s[i] == l[i]);
    }
    lemma_index_is(s, '\n', n);
    assert(s.take(n) =~= l);
    assert(text::without_return(l) == l) by {
        if l.len() > 0 {
            assert(l[l.len() - 1] != '\r');
        }
    }
    assert(s.skip(n + 1) =~= rest);
    let r = l + seq!['\r', '\n'] + rest;
    assert forall|i: int| 0 <= i < n + 1 implies r[i] != '\n' by {
        if i < n {
            assert(r[i] == l[i]);
        }
    }
    lemma_index_is(r, '\n', n + 1);
    assert(r.take(n + 1) =~= l.push('\r'));
    assert(l.push('\r').drop_last() =~= l);
    assert(r.skip(n + 2) =~= rest);
}

proof fn lemma_index_is(s: Seq<char>, c: char, k: int)
    requires
        0 <= k <= s.len(),
        k < s.len() ==> s[k] == c,
        forall|i: int| 0 <= i < k ==> s[i] != c,
    ensures
        text::index_of(s, c) == k,
{
    text::lemma_index_of(s, c);
    let j = text::index_of(s, c);
    if j < k {
        assert(s[j] != c);
    }
}

/// The words of a text are its characters that are not white, in order; no word is empty or
/// holds white space.
pub proof fn law_words_are_all_but_the_white_space(s: Seq<char>)
    ensures
        text::strung(text::words(s)) == s.filter(|c: char| !text::is_white(c)),
        forall|i: int|
            0 <= i < text::words(s).len() ==> (#[trigger] text::words(s)[i]).len() > 0 && only(
                text::words(s)[i],
                |c: char| !text::is_white(c),
            ),
    decreases s.len(),
{
    let dark = |c: char| !text::is_white(c);
    let w = text::words(s);
    if s.len() == 0 {
        reveal(Seq::filter);
        assert(text::strung(w) =~= s.filter(dark));
    } else if text::is_white(s[0]) {
        let rest = s.skip(1);
        law_words_are_all_but_the_white_space(rest);
        assert(s =~= seq![s[0]] + rest);
        lemma_filter_parts(seq![s[0]], rest, dark);
        lemma_filter_none(seq![s[0]], dark);
        assert(s.filter(dark) =~= rest.filter(dark));
    } else {
        lemma_run_is(s);
        let n = text::run(s) as int;
        let first = s.take(n);
        let rest = s.skip(n);
        law_words_are_all_but_the_white_space(rest);
        let more = text::words(rest);
        assert(s =~= first + rest);
        lemma_filter_parts(first, rest, dark);
        lemma_filter_all(first, dark);
        lemma_strung_front(first, more);
        assert forall|i: int| 0 <= i < w.len() implies (#[trigger] w[i]).len() > 0 && only(
            w[i],
            dark,
        ) by {
            if i > 0 {
                assert(w[i] == more[i - 1]);
            } else {
                assert(w[0] == first);
            }
        }
    }
}

proof fn lemma_run_is(s: Seq<char>)
    ensures
        text::run(s) <= s.len(),
        forall|i: int| 0 <= i < text::run(s) ==> !text::is_white(#[trigger] s[i]),
        s.len() > 0 && !text::is_white(s[0]) ==> text::run(s) > 0,
    decreases s.len(),
{
    if s.len() > 0 && !text::is_white(s[0]) {
        let r = s.skip(1);
        lemma_run_is(r);
        assert forall|i: int| 0 <= i < text::run(s) implies !text::is_white(#[trigger] s[i]) by {
            if i > 0 {
                assert(r[i - 1] == s[i]);
            }
        }
    }
}

proof fn lemma_strung_front(first: Seq<char>, rest: Seq<Seq<char>>)
    ensures
        text::strung(seq![first] + rest) == first + text::strung(rest),
    decreases rest.len(),
{
    let all = seq![first] + rest;
    if rest.len() == 0 {
        assert(all =~= seq![first]);
        let none = Seq::<Seq<char>>::empty();
        assert(rest =~= none);
        assert(all.drop_last() =~= none);
        assert(text::strung(none) =~= Seq::<char>::empty());
        assert(all.last() == first);
        assert(text::strung(all) =~= first + text::strung(rest));
    } else {
        lemma_strung_front(first, rest.drop_last());
        assert(all.drop_last() =~= seq![first] + rest.drop_last());
        assert(all.last() == rest.last());
        assert(text::strung(all) =~= first + text::strung(rest));
    }
}

proof fn lemma_filter_parts(a: Seq<char>, b: Seq<char>, p: spec_fn(char) -> bool)
    ensures
        (a + b).filter(p) == a.filter(p) + b.filter(p),
    decreases b.len(),
{
    reveal(Seq::filter);
    if b.len() == 0 {
        assert(a + b =~= a);
        assert((a + b).filter(p) =~= a.filter(p) + b.filter(p));
    } else {
        lemma_filter_parts(a, b.drop_last(), p);
        assert((a + b).drop_last() =~= a + b.drop_last());
        assert((a + b).last() == b.last());
        assert((a + b).filter(p) =~= a.filter(p) + b.filter(p));
    }
}

proof fn lemma_filter_all(s: Seq<char>, p: spec_fn(char) -> bool)
    requires
        forall|i: int| 0 <= i < s.len() ==> p(#[trigger] s[i]),
    ensures
        s.filter(p) == s,
    decreases s.len(),
{
    reveal(Seq::filter);
    if s.len() > 0 {
        let front = s.drop_last();
        assert forall|i: int| 0 <= i < front.len() implies p(#[trigger] front[i]) by {
            assert(front[i] == s[i]);
        }
        lemma_filter_all(front, p);
        assert(p(s[s.len() - 1]));
        assert(s =~= front.push(s.last()));
    }
    assert(s.filter(p) =~= s);
}

proof fn lemma_filter_none(s: Seq<char>, p: spec_fn(char) -> bool)
    requires
        forall|i: int| 0 <= i < s.len() ==> !p(#[trigger] s[i]),
    ensures
        s.filter(p).len() == 0,
    decreases s.len(),
{
    reveal(Seq::filter);
    if s.len() > 0 {
        let front = s.drop_last();
        assert forall|i: int| 0 <= i < front.len() implies !p(#[trigger] front[i]) by {
            assert(front[i] == s[i]);
        }
        lemma_filter_none(front, p);
        assert(!p(s[s.len() - 1]));
    }
}

/// The texts of a list that say something are kept, trimmed, in order.
pub proof fn law_what_says_something_is_kept(list: Seq<Seq<char>>)
    ensures
        text::worded(list) == list.filter_map(
            |t: Seq<char>|
                if text::is_blank(t) {
                    None
                } else {
                    Some(text::trimmed(t))
                },
        ),
    decreases list.len(),
{
    let kept = |t: Seq<char>|
        if text::is_blank(t) {
            None
        } else {
            Some(text::trimmed(t))
        };
    if list.len() > 0 {
        law_what_says_something_is_kept(list.drop_last());
    }
    assert(text::worded(list) =~= list.filter_map(kept));
}

// ---- parts of a text ------------------------------------------------------

/// The first characters of a text are its beginning, and the last its end: as many as were
/// asked for, or all there are.
pub proof fn law_parts_are_parts(s: Seq<char>, n: int)
    requires
        n >= 0,
    ensures
        text::leading(s, n).is_prefix_of(s),
        text::trailing(s, n).is_suffix_of(s),
        text::leading(s, n).len() == (if n < s.len() {
            n as nat
        } else {
            s.len()
        }),
        text::trailing(s, n).len() == text::leading(s, n).len(),
        text::ellipsized(s, n).len() <= n + 1,
        s.len() <= n ==> text::ellipsized(s, n) == s,
        s.len() > n ==> text::ellipsized(s, n) == text::leading(s, n).push('…'),
{
    let a = text::leading(s, n);
    let b = text::trailing(s, n);
    assert(a =~= s.take(a.len() as int));
    assert(b =~= s.subrange(s.len() - b.len(), s.len() as int));
}

/// A character that is swapped stands where the other stood; nothing else changes.
pub proof fn law_swapping_swaps_that_alone(s: Seq<char>, from: char, to: char, i: int)
    requires
        0 <= i < s.len(),
    ensures
        text::swapped(s, from, to).len() == s.len(),
        s[i] == from ==> text::swapped(s, from, to)[i] == to,
        s[i] != from ==> text::swapped(s, from, to)[i] == s[i],
        to != from ==> !text::swapped(s, from, to).contains(from),
{
}

// ---- numbers and days -----------------------------------------------------

/// A number is read back from its digits, however many zeros stand before them, and takes
/// no more room than it must.
pub proof fn law_a_padded_number_reads_back(n: nat, width: nat)
    ensures
        text::digits_value(text::padded(n, width)) == Some(n),
        text::padded(n, width).len() >= width,
        text::decimal(n).len() <= width ==> text::padded(n, width).len() == width,
        text::decimal(n).is_suffix_of(text::padded(n, width)),
{
    lemma_decimal_value(n);
    let d = text::decimal(n);
    let p = text::padded(n, width);
    if d.len() < width {
        lemma_zeros((width - d.len()) as nat, d);
    }
    assert(d =~= p.subrange(p.len() - d.len(), p.len() as int));
}

proof fn lemma_decimal_value(n: nat)
    ensures
        text::digits_value(text::decimal(n)) == Some(n),
    decreases n,
{
    let d = text::decimal(n);
    if n < 10 {
        assert(d.drop_last() =~= Seq::empty());
        assert(text::digits_value(Seq::<char>::empty()) == Some(0nat));
        lemma_digit(n);
        assert(d.last() == text::digit(n));
    } else {
        lemma_decimal_value(n / 10);
        lemma_digit(n % 10);
        assert(d.drop_last() =~= text::decimal(n / 10));
        assert(d.last() == text::digit(n % 10));
        assert(10 * (n / 10) + n % 10 == n);
    }
}

proof fn lemma_digit(d: nat)
    requires
        d < 10,
    ensures
        text::digit_value(text::digit(d)) == Some(d),
{
}

proof fn lemma_zeros(k: nat, d: Seq<char>)
    requires
        d.len() > 0,
    ensures
        text::digits_value(text::zeros(k) + d) == text::digits_value(d),
    decreases d.len(),
{
    let s = text::zeros(k) + d;
    assert(s.last() == d.last());
    if d.len() == 1 {
        assert(s.drop_last() =~= text::zeros(k));
        assert(d.drop_last() =~= Seq::empty());
        lemma_all_zeros(k);
        assert(text::digits_value(Seq::<char>::empty()) == Some(0nat));
    } else {
        lemma_zeros(k, d.drop_last());
        assert(s.drop_last() =~= text::zeros(k) + d.drop_last());
    }
}

proof fn lemma_all_zeros(k: nat)
    ensures
        text::digits_value(text::zeros(k)) == Some(0nat),
    decreases k,
{
    let z = text::zeros(k);
    if k > 0 {
        lemma_all_zeros((k - 1) as nat);
        assert(z.drop_last() =~= text::zeros((k - 1) as nat));
        assert(z.last() == '0');
    }
}

/// A number is read with or without a sign, where it is one and not too large.
pub proof fn law_a_number_is_read(n: nat, most: nat, s: Seq<char>)
    ensures
        text::number_within(text::decimal(n), most) == (if n <= most {
            Some(n)
        } else {
            None
        }),
        text::number_within(seq!['+'] + text::decimal(n), most) == text::number_within(
            text::decimal(n),
            most,
        ),
        text::number_within(s, most) matches Some(v) ==> v <= most,
        s.len() == 0 ==> text::number_within(s, most) is None,
{
    lemma_decimal_value(n);
    lemma_decimal_starts(n);
    let p = seq!['+'] + text::decimal(n);
    assert(p.skip(1) =~= text::decimal(n));
}

proof fn lemma_decimal_starts(n: nat)
    ensures
        text::decimal(n).len() > 0,
        text::decimal(n)[0] != '+',
    decreases n,
{
    if n >= 10 {
        lemma_decimal_starts(n / 10);
    }
}

/// A day is shown by its year, its month and its day, each of which reads back.
pub proof fn law_a_day_is_shown_by_its_date(y: nat, m: nat, d: nat)
    requires
        calendar::is_date(y as int, m as int, d as int),
        text::decimal(y).len() <= 4,
        text::decimal(m).len() <= 2,
        text::decimal(d).len() <= 2,
    ensures
        ({
            let s = calendar::shown((y as int, m as int, d as int));
            &&& s.len() == 10 && s[4] == '-' && s[7] == '-'
            &&& text::digits_value(s.subrange(0, 4)) == Some(y)
            &&& text::digits_value(s.subrange(5, 7)) == Some(m)
            &&& text::digits_value(s.subrange(8, 10)) == Some(d)
        }),
{
    reveal_strlit("-");
    law_a_padded_number_reads_back(y, 4);
    law_a_padded_number_reads_back(m, 2);
    law_a_padded_number_reads_back(d, 2);
    let s = calendar::shown((y as int, m as int, d as int));
    assert(s.subrange(0, 4) =~= text::padded(y, 4));
    assert(s.subrange(5, 7) =~= text::padded(m, 2));
    assert(s.subrange(8, 10) =~= text::padded(d, 2));
}

} // verus!
