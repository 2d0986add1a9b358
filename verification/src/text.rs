//! Text, seen as a sequence of characters.
//!
//! Every function here is stated over `Seq<char>`: a `&str` or `String` is its
//! view, and the specification says which characters come out.
use crate::data::{none_of, put};
use vstd::prelude::*;

verus! {

/// Appending one character to a string, as `String::push` documents it.
pub assume_specification[ String::push ](s: &mut String, c: char)
    ensures
        final(s)@ == old(s)@.push(c),
;

/// The characters of `s`, in order.
pub fn chars_of(s: &str) -> (out: Vec<char>)
    ensures
        out@ == s@,
{
    let mut out: Vec<char> = Vec::new();
    for c in it: s.chars()
        invariant
            out@ == it.seq().take(it.index() as int),
            it.seq() == s@,
    {
        out.push(c);
    }
    out
}

/// A string of its own, holding what `s` holds.
pub fn lit(s: &str) -> (r: String)
    ensures
        r@ == s@,
{
    String::from_str(s)
}

/// Whether two strings hold the same characters.
pub fn same(a: &str, b: &str) -> (r: bool)
    ensures
        r == (a@ == b@),
{
    let x = chars_of(a);
    let y = chars_of(b);
    if x.len() != y.len() {
        return false;
    }
    let mut i: usize = 0;
    while i < x.len()
        invariant
            i <= x.len(),
            x.len() == y.len(),
            x@ == a@,
            y@ == b@,
            forall|k: int| 0 <= k < i ==> a@[k] == b@[k],
        decreases x.len() - i,
    {
        if x[i] != y[i] {
            assert(a@[i as int] != b@[i as int]);
            return false;
        }
        i = i + 1;
    }
    assert(a@ =~= b@);
    true
}

/// Whether `list` holds the text `s`.
pub fn among(list: &Vec<String>, s: &str) -> (r: bool)
    ensures
        r == list.deep_view().contains(s@),
{
    let mut i: usize = 0;
    while i < list.len()
        invariant
            i <= list.len(),
            forall|k: int| 0 <= k < i ==> (#[trigger] list@[k])@ != s@,
        decreases list.len() - i,
    {
        if same(list[i].as_str(), s) {
            assert(list.deep_view()[i as int] == s@);
            return true;
        }
        i = i + 1;
    }
    assert(!list.deep_view().contains(s@)) by {
        if list.deep_view().contains(s@) {
            let k = choose|k: int|
                0 <= k < list.deep_view().len() && list.deep_view()[k] == s@;
            assert(list@[k]@ == s@);
        }
    }
    false
}

// ---- white space ----------------------------------------------------------

/// Unicode's `White_Space` property.
pub open spec fn is_white(c: char) -> bool {
    let n = c as u32;
    ||| 9 <= n <= 13
    ||| n == 32
    ||| n == 0x85
    ||| n == 0xa0
    ||| n == 0x1680
    ||| 0x2000 <= n <= 0x200a
    ||| n == 0x2028
    ||| n == 0x2029
    ||| n == 0x202f
    ||| n == 0x205f
    ||| n == 0x3000
}

pub fn white(c: char) -> (r: bool)
    ensures
        r == is_white(c),
{
    let n: u32 = c as u32;
    (9 <= n && n <= 13) || n == 32 || n == 0x85 || n == 0xa0 || n == 0x1680 || (0x2000 <= n && n
        <= 0x200a) || n == 0x2028 || n == 0x2029 || n == 0x202f || n == 0x205f || n == 0x3000
}

pub open spec fn trim_start(s: Seq<char>) -> Seq<char>
    decreases s.len(),
{
    if s.len() > 0 && is_white(s[0]) {
        trim_start(s.skip(1))
    } else {
        s
    }
}

pub open spec fn trim_end(s: Seq<char>) -> Seq<char>
    decreases s.len(),
{
    if s.len() > 0 && is_white(s.last()) {
        trim_end(s.drop_last())
    } else {
        s
    }
}

/// `s` without the white space around it.
pub open spec fn trimmed(s: Seq<char>) -> Seq<char> {
    trim_end(trim_start(s))
}

/// `s` holds nothing but white space.
pub open spec fn is_blank(s: Seq<char>) -> bool {
    trimmed(s).len() == 0
}

/// Nothing but white space means every character is white.
pub proof fn lemma_blank(s: Seq<char>)
    ensures
        is_blank(s) <==> forall|i: int| 0 <= i < s.len() ==> is_white(#[trigger] s[i]),
    decreases s.len(),
{
    if s.len() == 0 {
    } else if is_white(s[0]) {
        lemma_blank(s.skip(1));
        assert forall|i: int| (forall|k: int|
            0 <= k < s.skip(1).len() ==> is_white(#[trigger] s.skip(1)[k])) && 0 <= i
            < s.len() implies is_white(#[trigger] s[i]) by {
            if i > 0 {
                assert(s.skip(1)[i - 1] == s[i]);
            }
        }
    } else {
        lemma_trim_end_keeps_first(s);
        assert(!is_white(s[0]));
    }
}

proof fn lemma_trim_end_keeps_first(s: Seq<char>)
    requires
        s.len() > 0,
        !is_white(s[0]),
    ensures
        trim_end(s).len() > 0,
    decreases s.len(),
{
    if is_white(s.last()) {
        assert(s.len() > 1);
        lemma_trim_end_keeps_first(s.drop_last());
    }
}

/// A text that begins with something keeps its beginning when it is trimmed, and all of
/// it where it ends with something.
pub proof fn lemma_trimmed_is_a_prefix(s: Seq<char>)
    requires
        s.len() > 0,
        !is_white(s[0]),
    ensures
        0 < trimmed(s).len() <= s.len(),
        trimmed(s) == s.take(trimmed(s).len() as int),
        !is_white(s.last()) ==> trimmed(s) == s,
{
    lemma_trim_end_keeps_first(s);
    lemma_trim_end_bare(s);
    assert(trim_start(s) == s);
    assert(trimmed(s) =~= s.take(trimmed(s).len() as int));
}

/// Trimming what was trimmed changes nothing.
pub proof fn lemma_trim_twice(s: Seq<char>)
    ensures
        trimmed(trimmed(s)) == trimmed(s),
{
    let a = trim_start(s);
    lemma_trim_start_bare(s);
    let t = trim_end(a);
    lemma_trim_end_bare(a);
    if t.len() > 0 {
        assert(t[0] == a[0]);
    }
    assert(trim_start(t) == t);
    assert(trim_end(t) == t);
}

proof fn lemma_trim_start_bare(s: Seq<char>)
    ensures
        trim_start(s).len() > 0 ==> !is_white(trim_start(s)[0]),
    decreases s.len(),
{
    if s.len() > 0 && is_white(s[0]) {
        lemma_trim_start_bare(s.skip(1));
    }
}

proof fn lemma_trim_end_bare(s: Seq<char>)
    ensures
        trim_end(s).len() > 0 ==> !is_white(trim_end(s).last()),
        trim_end(s).len() <= s.len(),
        forall|i: int| 0 <= i < trim_end(s).len() ==> #[trigger] trim_end(s)[i] == s[i],
    decreases s.len(),
{
    if s.len() > 0 && is_white(s.last()) {
        lemma_trim_end_bare(s.drop_last());
        assert forall|i: int| 0 <= i < trim_end(s).len() implies #[trigger] trim_end(s)[i]
            == s[i] by {
            assert(s.drop_last()[i] == s[i]);
        }
    }
}

/// The text without the white space around it.
pub fn trim<'a>(s: &'a str) -> (r: &'a str)
    ensures
        r@ == trimmed(s@),
{
    let x = chars_of(s);
    let mut lo: usize = 0;
    assert(s@.skip(0) =~= s@);
    while lo < x.len() && white(x[lo])
        invariant
            lo <= x.len(),
            x@ == s@,
            trim_start(s@) == trim_start(s@.skip(lo as int)),
        decreases x.len() - lo,
    {
        assert(s@.skip(lo as int).skip(1) =~= s@.skip(lo + 1));
        lo = lo + 1;
    }
    let ghost rest = s@.skip(lo as int);
    assert(trim_start(s@) == rest);
    let mut hi: usize = x.len();
    assert(rest.take(hi - lo) =~= rest);
    while lo < hi && white(x[hi - 1])
        invariant
            lo <= hi <= x.len(),
            x@ == s@,
            rest == s@.skip(lo as int),
            trim_end(rest) == trim_end(rest.take(hi - lo)),
        decreases hi,
    {
        assert(rest.take(hi - lo).last() == s@[hi - 1]);
        assert(rest.take(hi - lo).drop_last() =~= rest.take(hi - lo - 1));
        hi = hi - 1;
    }
    assert(hi > lo ==> rest.take(hi - lo).last() == s@[hi - 1]);
    assert(rest.take(hi - lo) =~= s@.subrange(lo as int, hi as int));
    s.substring_char(lo, hi)
}

/// Whether the text is nothing but white space.
pub fn blank(s: &str) -> (r: bool)
    ensures
        r == is_blank(s@),
{
    trim(s).is_empty()
}

/// Each text of `list` without the white space around it, the blank ones left out.
pub open spec fn worded(list: Seq<Seq<char>>) -> Seq<Seq<char>>
    decreases list.len(),
{
    if list.len() == 0 {
        Seq::empty()
    } else if is_blank(list.last()) {
        worded(list.drop_last())
    } else {
        worded(list.drop_last()).push(trimmed(list.last()))
    }
}

pub fn words_of(list: &Vec<String>) -> (out: Vec<String>)
    ensures
        out.deep_view() == worded(list.deep_view()),
{
    let ghost all = list.deep_view();
    let mut out: Vec<String> = none_of();
    let mut i: usize = 0;
    assert(all.take(0) =~= Seq::<Seq<char>>::empty());
    while i < list.len()
        invariant
            i <= list.len(),
            all == list.deep_view(),
            out.deep_view() == worded(all.take(i as int)),
        decreases list.len() - i,
    {
        assert(all.take(i + 1).drop_last() =~= all.take(i as int));
        assert(all.take(i + 1).last() == list@[i as int]@);
        let word = trim(list[i].as_str());
        if !word.is_empty() {
            put(&mut out, lit(word));
        }
        i = i + 1;
    }
    assert(all.take(i as int) =~= all);
    out
}

// ---- lines and pieces -----------------------------------------------------

/// Where `c` first stands in `s`; the length of `s` where it does not.
pub open spec fn index_of(s: Seq<char>, c: char) -> int
    decreases s.len(),
{
    if s.len() == 0 || s[0] == c {
        0
    } else {
        1 + index_of(s.skip(1), c)
    }
}

pub proof fn lemma_index_of(s: Seq<char>, c: char)
    ensures
        0 <= index_of(s, c) <= s.len(),
        index_of(s, c) < s.len() ==> s[index_of(s, c)] == c,
        forall|i: int| 0 <= i < index_of(s, c) ==> s[i] != c,
    decreases s.len(),
{
    if s.len() == 0 || s[0] == c {
    } else {
        lemma_index_of(s.skip(1), c);
        assert forall|i: int| 0 <= i < index_of(s, c) implies s[i] != c by {
            if i > 0 {
                assert(s.skip(1)[i - 1] == s[i]);
            }
        }
    }
}

proof fn lemma_index_of_is(s: Seq<char>, c: char, k: int)
    requires
        0 <= k <= s.len(),
        k < s.len() ==> s[k] == c,
        forall|i: int| 0 <= i < k ==> s[i] != c,
    ensures
        index_of(s, c) == k,
{
    lemma_index_of(s, c);
}

/// Where `c` first stands in `x` at or after `from`; the length where it does not.
fn find_from(x: &Vec<char>, c: char, from: usize) -> (k: usize)
    requires
        from <= x.len(),
    ensures
        from <= k <= x.len(),
        k - from == index_of(x@.skip(from as int), c),
{
    let mut k: usize = from;
    while k < x.len() && x[k] != c
        invariant
            from <= k <= x.len(),
            forall|i: int| from <= i < k ==> x@[i] != c,
        decreases x.len() - k,
    {
        k = k + 1;
    }
    proof {
        lemma_index_of_is(x@.skip(from as int), c, k - from);
    }
    k
}

pub open spec fn without_return(s: Seq<char>) -> Seq<char> {
    if s.len() > 0 && s.last() == '\r' {
        s.drop_last()
    } else {
        s
    }
}

/// The lines of `s`: each ends at a line feed, which is dropped together with a
/// carriage return right before it; the last line needs no ending.
pub open spec fn lines(s: Seq<char>) -> Seq<Seq<char>>
    decreases s.len(),
    via lines_decreases
{
    if s.len() == 0 {
        Seq::empty()
    } else {
        let k = index_of(s, '\n');
        if k >= s.len() {
            seq![s]
        } else {
            seq![without_return(s.take(k))] + lines(s.skip(k + 1))
        }
    }
}

#[via_fn]
proof fn lines_decreases(s: Seq<char>) {
    lemma_index_of(s, '\n');
}

/// A line put behind whole lines is the line after them.
pub proof fn lemma_one_more_line(a: Seq<char>, l: Seq<char>)
    requires
        a.len() == 0 || a.last() == '\n',
        forall|i: int| 0 <= i < l.len() ==> #[trigger] l[i] != '\n' && l[i] != '\r',
    ensures
        lines(a + l + "\n"@) == lines(a).push(l),
        (a + l + "\n"@).last() == '\n',
    decreases a.len(),
{
    reveal_strlit("\n");
    let s = a + l + "\n"@;
    if a.len() == 0 {
        assert(s =~= l + "\n"@);
        assert forall|i: int| 0 <= i < l.len() implies s[i] != '\n' by {
            assert(s[i] == l[i]);
        }
        lemma_index_of_is(s, '\n', l.len() as int);
        assert(s.take(l.len() as int) =~= l);
        assert(without_return(l) == l);
        assert(s.skip(l.len() as int + 1) =~= Seq::<char>::empty());
        assert(seq![l] + lines(Seq::<char>::empty()) =~= lines(a).push(l));
    } else {
        let k = index_of(a, '\n');
        lemma_index_of(a, '\n');
        assert(k < a.len()) by {
            assert(a[a.len() - 1] == '\n');
        }
        assert forall|i: int| 0 <= i < k implies s[i] != '\n' by {
            assert(s[i] == a[i]);
        }
        assert(s[k] == a[k]);
        lemma_index_of_is(s, '\n', k);
        let rest = a.skip(k + 1);
        assert(s.take(k) =~= a.take(k));
        assert(s.skip(k + 1) =~= rest + l + "\n"@);
        if rest.len() > 0 {
            assert(rest.last() == a.last());
        }
        lemma_one_more_line(rest, l);
        assert(seq![without_return(a.take(k))] + lines(rest).push(l) =~= (seq![
            without_return(a.take(k)),
        ] + lines(rest)).push(l));
    }
}

/// The lines of the text.
pub fn lines_of(s: &str) -> (out: Vec<String>)
    ensures
        out.deep_view() == lines(s@),
{
    let x = chars_of(s);
    let mut out: Vec<String> = none_of();
    let mut p: usize = 0;
    assert(s@.skip(0) =~= s@);
    assert(out.deep_view() + lines(s@) =~= lines(s@));
    while p < x.len()
        invariant
            p <= x.len(),
            x@ == s@,
            out.deep_view() + lines(s@.skip(p as int)) == lines(s@),
        decreases x.len() - p,
    {
        let ghost rest = s@.skip(p as int);
        let k = find_from(&x, '\n', p);
        if k >= x.len() {
            assert(rest =~= s@.subrange(p as int, k as int));
            put(&mut out, lit(s.substring_char(p, k)));
            assert(s@.skip(k as int).len() == 0);
            assert(out.deep_view() + lines(s@.skip(k as int)) =~= lines(s@));
            p = k;
        } else {
            let mut end: usize = k;
            if k > p && x[k - 1] == '\r' {
                end = k - 1;
            }
            assert(rest.take(k - p) =~= s@.subrange(p as int, k as int));
            assert(without_return(rest.take(k - p)) =~= s@.subrange(p as int, end as int));
            assert(rest.skip(k - p + 1) =~= s@.skip(k + 1));
            let ghost before = out.deep_view();
            put(&mut out, lit(s.substring_char(p, end)));
            assert(out.deep_view() + lines(s@.skip(k + 1)) =~= before + lines(rest));
            p = k + 1;
        }
    }
    assert(s@.skip(p as int).len() == 0);
    assert(out.deep_view() =~= lines(s@));
    out
}

/// A text that is one line.
pub open spec fn one_line(s: Seq<char>) -> bool {
    forall|i: int| 0 <= i < s.len() ==> #[trigger] s[i] != '\n' && s[i] != '\r'
}

/// The first line; nothing where there is no line at all.
pub open spec fn first_line(s: Seq<char>) -> Seq<char> {
    if lines(s).len() > 0 {
        lines(s)[0]
    } else {
        Seq::empty()
    }
}

pub fn first_line_of(s: &str) -> (r: String)
    ensures
        r@ == first_line(s@),
{
    let all = lines_of(s);
    if all.len() > 0 {
        assert(all.deep_view()[0] == all@[0]@);
        all[0].clone()
    } else {
        assert(all.deep_view().len() == 0);
        String::new()
    }
}

/// The pieces of `s` between the places where `c` stands.
pub open spec fn pieces(s: Seq<char>, c: char) -> Seq<Seq<char>>
    decreases s.len(),
    via pieces_decreases
{
    let k = index_of(s, c);
    if k >= s.len() {
        seq![s]
    } else {
        seq![s.take(k)] + pieces(s.skip(k + 1), c)
    }
}

#[via_fn]
proof fn pieces_decreases(s: Seq<char>, c: char) {
    lemma_index_of(s, c);
}

/// The pieces of the text between the places where `c` stands.
pub fn split(s: &str, c: char) -> (out: Vec<String>)
    ensures
        out.deep_view() == pieces(s@, c),
{
    let x = chars_of(s);
    let mut out: Vec<String> = none_of();
    let mut p: usize = 0;
    assert(s@.skip(0) =~= s@);
    assert(out.deep_view() + pieces(s@, c) =~= pieces(s@, c));
    let mut k: usize = find_from(&x, c, 0);
    while k < x.len()
        invariant
            p <= k <= x.len(),
            x@ == s@,
            k - p == index_of(s@.skip(p as int), c),
            out.deep_view() + pieces(s@.skip(p as int), c) == pieces(s@, c),
        decreases x.len() - p,
    {
        let ghost rest = s@.skip(p as int);
        let ghost before = out.deep_view();
        assert(rest.take(k - p) =~= s@.subrange(p as int, k as int));
        assert(rest.skip(k - p + 1) =~= s@.skip(k + 1));
        put(&mut out, lit(s.substring_char(p, k)));
        assert(out.deep_view() + pieces(s@.skip(k + 1), c) =~= before + pieces(rest, c));
        p = k + 1;
        k = find_from(&x, c, p);
    }
    let ghost rest = s@.skip(p as int);
    assert(rest =~= s@.subrange(p as int, x.len() as int));
    assert(pieces(rest, c) =~= seq![rest]);
    put(&mut out, lit(s.substring_char(p, x.len())));
    assert(out.deep_view() =~= pieces(s@, c));
    out
}

/// There is always a piece.
pub proof fn lemma_some_piece(s: Seq<char>, c: char)
    ensures
        pieces(s, c).len() > 0,
{
}

/// The pieces of `s`, each up to and with the next `c`.
pub open spec fn kept_pieces(s: Seq<char>, c: char) -> Seq<Seq<char>>
    decreases s.len(),
{
    let k = index_of(s, c);
    if s.len() == 0 {
        Seq::empty()
    } else if 0 <= k < s.len() {
        seq![s.take(k + 1)] + kept_pieces(s.skip(k + 1), c)
    } else {
        seq![s]
    }
}

pub fn split_keeping(s: &str, c: char) -> (out: Vec<String>)
    ensures
        out.deep_view() == kept_pieces(s@, c),
{
    let x = chars_of(s);
    let mut out: Vec<String> = none_of();
    let mut p: usize = 0;
    assert(s@.skip(0) =~= s@);
    assert(out.deep_view() + kept_pieces(s@, c) =~= kept_pieces(s@, c));
    while p < x.len()
        invariant
            p <= x.len(),
            x@ == s@,
            out.deep_view() + kept_pieces(s@.skip(p as int), c) == kept_pieces(s@, c),
        decreases x.len() - p,
    {
        let ghost rest = s@.skip(p as int);
        let ghost before = out.deep_view();
        let k = find_from(&x, c, p);
        let end: usize = if k < x.len() {
            k + 1
        } else {
            k
        };
        put(&mut out, lit(s.substring_char(p, end)));
        if k < x.len() {
            assert(rest.take(k + 1 - p) =~= s@.subrange(p as int, end as int));
            assert(rest.skip(k + 1 - p) =~= s@.skip(end as int));
        } else {
            assert(rest =~= s@.subrange(p as int, end as int));
            assert(s@.skip(end as int).len() == 0);
        }
        assert(out.deep_view() + kept_pieces(s@.skip(end as int), c) =~= before + kept_pieces(
            rest,
            c,
        ));
        p = end;
    }
    assert(s@.skip(p as int).len() == 0);
    assert(out.deep_view() =~= kept_pieces(s@, c));
    out
}

/// The kept pieces are the text.
pub proof fn lemma_kept_pieces(s: Seq<char>, c: char)
    ensures
        strung(kept_pieces(s, c)) == s,
    decreases s.len(),
{
    lemma_index_of(s, c);
    let k = index_of(s, c);
    if s.len() == 0 {
    } else if k < s.len() {
        let rest = kept_pieces(s.skip(k + 1), c);
        lemma_kept_pieces(s.skip(k + 1), c);
        lemma_strung_front(s.take(k + 1), rest);
        assert(s.take(k + 1) + s.skip(k + 1) =~= s);
    } else {
        assert(seq![s].drop_last() =~= Seq::empty());
        assert(strung(seq![s].drop_last()) =~= Seq::empty());
        assert(strung(seq![s]) =~= s);
    }
}

proof fn lemma_strung_front(first: Seq<char>, rest: Seq<Seq<char>>)
    ensures
        strung(seq![first] + rest) == first + strung(rest),
    decreases rest.len(),
{
    let all = seq![first] + rest;
    if rest.len() == 0 {
        assert(all.drop_last() =~= Seq::empty());
        assert(strung(all.drop_last()) =~= Seq::empty());
        assert(strung(all) =~= first + strung(rest));
    } else {
        assert(all.drop_last() =~= seq![first] + rest.drop_last());
        lemma_strung_front(first, rest.drop_last());
        assert(strung(all) =~= first + strung(rest));
    }
}

/// What stands before the first `c` and what stands after it.
pub open spec fn cut(s: Seq<char>, c: char) -> Option<(Seq<char>, Seq<char>)> {
    let k = index_of(s, c);
    if k >= s.len() {
        None
    } else {
        Some((s.take(k), s.skip(k + 1)))
    }
}

pub fn split_once(s: &str, c: char) -> (r: Option<(String, String)>)
    ensures
        r.deep_view() == cut(s@, c),
{
    let x = chars_of(s);
    assert(s@.skip(0) =~= s@);
    let k = find_from(&x, c, 0);
    if k >= x.len() {
        None
    } else {
        let head = lit(s.substring_char(0, k));
        let tail = lit(s.substring_char(k + 1, x.len()));
        assert(head@ =~= s@.take(k as int));
        assert(tail@ =~= s@.skip(k + 1));
        Some((head, tail))
    }
}

/// The texts of `parts`, with `sep` between each and the next.
pub open spec fn joined(parts: Seq<Seq<char>>, sep: Seq<char>) -> Seq<char>
    decreases parts.len(),
{
    if parts.len() == 0 {
        Seq::empty()
    } else if parts.len() == 1 {
        parts[0]
    } else {
        joined(parts.drop_last(), sep) + sep + parts.last()
    }
}

pub fn join(parts: &Vec<String>, sep: &str) -> (r: String)
    ensures
        r@ == joined(parts.deep_view(), sep@),
{
    let mut out = String::new();
    let mut i: usize = 0;
    let ghost all = parts.deep_view();
    assert(out@ =~= joined(all.take(0), sep@));
    while i < parts.len()
        invariant
            i <= parts.len(),
            all == parts.deep_view(),
            out@ == joined(all.take(i as int), sep@),
        decreases parts.len() - i,
    {
        assert(all.take(i + 1).drop_last() =~= all.take(i as int));
        assert(all.take(i + 1).last() == parts@[i as int]@);
        if i > 0 {
            out.append(sep);
        }
        out.append(parts[i].as_str());
        assert(out@ =~= joined(all.take(i + 1), sep@)) by {
            if i == 0 {
                assert(all.take(0) =~= Seq::<Seq<char>>::empty());
                assert(all.take(1)[0] == parts@[0]@);
            }
        }
        i = i + 1;
    }
    assert(all.take(i as int) =~= all);
    out
}

// ---- prefixes and occurrences ---------------------------------------------

/// Whether `s` begins with `head`.
pub fn starts_with(s: &str, head: &str) -> (r: bool)
    ensures
        r == head@.is_prefix_of(s@),
{
    let n = head.unicode_len();
    if n > s.unicode_len() {
        return false;
    }
    let lead = s.substring_char(0, n);
    same(lead, head)
}

/// `s` holds `t` somewhere.
pub open spec fn holds(s: Seq<char>, t: Seq<char>) -> bool {
    exists|i: int| 0 <= i <= s.len() - t.len() && #[trigger] s.subrange(i, i + t.len()) == t
}

pub fn contains(s: &str, t: &str) -> (r: bool)
    ensures
        r == holds(s@, t@),
{
    let n = s.unicode_len();
    let m = t.unicode_len();
    if m > n {
        return false;
    }
    let mut i: usize = 0;
    while i <= n - m
        invariant
            n == s@.len(),
            m == t@.len(),
            m <= n,
            i <= n - m + 1,
            forall|k: int| 0 <= k < i ==> #[trigger] s@.subrange(k, k + m) != t@,
        decreases n - m + 1 - i,
    {
        if same(s.substring_char(i, i + m), t) {
            return true;
        }
        if i == n - m {
            return false;
        }
        i = i + 1;
    }
    false
}

/// Where `t` first stands in `s`.
pub open spec fn place_of(s: Seq<char>, t: Seq<char>) -> Option<int>
    decreases s.len(),
{
    if t.is_prefix_of(s) {
        Some(0)
    } else if s.len() == 0 {
        None
    } else {
        match place_of(s.skip(1), t) {
            Some(i) => Some(i + 1),
            None => None,
        }
    }
}

pub proof fn lemma_place_of(s: Seq<char>, t: Seq<char>)
    ensures
        match place_of(s, t) {
            Some(i) => 0 <= i && i + t.len() <= s.len() && s.subrange(i, i + t.len()) == t,
            None => true,
        },
    decreases s.len(),
{
    if t.is_prefix_of(s) {
        assert(s.subrange(0, t.len() as int) =~= t);
    } else if s.len() > 0 {
        lemma_place_of(s.skip(1), t);
        match place_of(s.skip(1), t) {
            Some(i) => {
                assert(s.subrange(i + 1, i + 1 + t.len()) =~= s.skip(1).subrange(i, i + t.len()));
            },
            None => {},
        }
    }
}

/// Where `t` first stands in the text, counted in characters.
pub fn find(s: &str, t: &str) -> (r: Option<usize>)
    ensures
        match r {
            Some(i) => place_of(s@, t@) == Some(i as int) && i + t@.len() <= s@.len(),
            None => place_of(s@, t@) is None,
        },
{
    let n = s.unicode_len();
    let m = t.unicode_len();
    let mut i: usize = 0;
    assert(s@.skip(0) =~= s@);
    loop
        invariant
            n == s@.len(),
            m == t@.len(),
            i <= n,
            place_of(s@, t@) == (match place_of(s@.skip(i as int), t@) {
                Some(k) => Some(k + i),
                None => None,
            }),
        decreases n - i,
    {
        let ghost rest = s@.skip(i as int);
        if m <= n - i && same(s.substring_char(i, i + m), t) {
            assert(t@.is_prefix_of(rest)) by {
                assert(rest.subrange(0, m as int) =~= s@.subrange(i as int, i + m));
            }
            return Some(i);
        }
        assert(!t@.is_prefix_of(rest)) by {
            if t@.is_prefix_of(rest) {
                assert(rest.subrange(0, m as int) =~= s@.subrange(i as int, i + m));
            }
        }
        if i == n {
            return None;
        }
        assert(rest.skip(1) =~= s@.skip(i + 1));
        i = i + 1;
    }
}

/// The pieces of `s` between the places where `sep` stands.
pub open spec fn pieces_by(s: Seq<char>, sep: Seq<char>) -> Seq<Seq<char>>
    recommends
        sep.len() > 0,
    decreases s.len(),
    via pieces_by_decreases
{
    match place_of(s, sep) {
        Some(i) => if sep.len() == 0 {
            seq![s]
        } else {
            seq![s.take(i)] + pieces_by(s.skip(i + sep.len()), sep)
        },
        None => seq![s],
    }
}

#[via_fn]
proof fn pieces_by_decreases(s: Seq<char>, sep: Seq<char>) {
    lemma_place_of(s, sep);
}

pub fn split_by(s: &str, sep: &str) -> (out: Vec<String>)
    requires
        sep@.len() > 0,
    ensures
        out.deep_view() == pieces_by(s@, sep@),
{
    let n = s.unicode_len();
    let m = sep.unicode_len();
    let mut out: Vec<String> = none_of();
    let mut p: usize = 0;
    assert(s@.skip(0) =~= s@);
    assert(out.deep_view() + pieces_by(s@, sep@) =~= pieces_by(s@, sep@));
    loop
        invariant
            n == s@.len(),
            m == sep@.len(),
            m > 0,
            p <= n,
            out.deep_view() + pieces_by(s@.skip(p as int), sep@) == pieces_by(s@, sep@),
        decreases n - p,
    {
        let ghost rest = s@.skip(p as int);
        let ghost before = out.deep_view();
        let tail = s.substring_char(p, n);
        assert(tail@ =~= rest);
        match find(tail, sep) {
            Some(k) => {
                let piece = lit(s.substring_char(p, p + k));
                assert(piece@ =~= rest.take(k as int));
                put(&mut out, piece);
                assert(rest.skip(k + m) =~= s@.skip(p + k + m));
                assert(out.deep_view() + pieces_by(s@.skip(p + k + m), sep@) =~= before + pieces_by(
                    rest,
                    sep@,
                ));
                p = p + k + m;
            },
            None => {
                put(&mut out, lit(tail));
                assert(out.deep_view() =~= before + pieces_by(rest, sep@));
                return out;
            },
        }
    }
}

/// What follows `head`, where `s` begins with it.
pub open spec fn after(s: Seq<char>, head: Seq<char>) -> Option<Seq<char>> {
    if head.is_prefix_of(s) {
        Some(s.skip(head.len() as int))
    } else {
        None
    }
}

pub fn strip_prefix<'a>(s: &'a str, head: &str) -> (r: Option<&'a str>)
    ensures
        match r {
            Some(t) => after(s@, head@) == Some(t@),
            None => after(s@, head@) is None,
        },
{
    if starts_with(s, head) {
        let rest = s.substring_char(head.unicode_len(), s.unicode_len());
        assert(rest@ =~= s@.skip(head@.len() as int));
        Some(rest)
    } else {
        None
    }
}

/// What stands before `tail`, where `s` ends with it.
pub open spec fn before(s: Seq<char>, tail: Seq<char>) -> Option<Seq<char>> {
    if tail.is_suffix_of(s) {
        Some(s.take(s.len() - tail.len()))
    } else {
        None
    }
}

pub fn strip_suffix<'a>(s: &'a str, tail: &str) -> (r: Option<&'a str>)
    ensures
        match r {
            Some(t) => before(s@, tail@) == Some(t@),
            None => before(s@, tail@) is None,
        },
{
    let n = s.unicode_len();
    let m = tail.unicode_len();
    if m > n {
        return None;
    }
    let end = s.substring_char(n - m, n);
    if same(end, tail) {
        let head = s.substring_char(0, n - m);
        assert(head@ =~= s@.take(n - m));
        Some(head)
    } else {
        None
    }
}

/// `s` with every `from` turned into `to`.
pub open spec fn swapped(s: Seq<char>, from: char, to: char) -> Seq<char> {
    Seq::new(
        s.len(),
        |i: int|
            if s[i] == from {
                to
            } else {
                s[i]
            },
    )
}

pub fn swap(s: &str, from: char, to: char) -> (r: String)
    ensures
        r@ == swapped(s@, from, to),
{
    let x = chars_of(s);
    let mut out = String::new();
    let mut i: usize = 0;
    assert(out@ =~= swapped(s@, from, to).take(0));
    while i < x.len()
        invariant
            i <= x.len(),
            x@ == s@,
            out@ == swapped(s@, from, to).take(i as int),
        decreases x.len() - i,
    {
        if x[i] == from {
            out.push(to);
        } else {
            out.push(x[i]);
        }
        assert(out@ =~= swapped(s@, from, to).take(i + 1));
        i = i + 1;
    }
    assert(swapped(s@, from, to).take(i as int) =~= swapped(s@, from, to));
    out
}

/// The texts of `parts`, one after the other.
pub open spec fn strung(parts: Seq<Seq<char>>) -> Seq<char>
    decreases parts.len(),
{
    if parts.len() == 0 {
        Seq::empty()
    } else {
        strung(parts.drop_last()) + parts.last()
    }
}

/// The first `n` characters; all of them where there are fewer.
pub open spec fn leading(s: Seq<char>, n: int) -> Seq<char> {
    if s.len() <= n {
        s
    } else {
        s.take(n)
    }
}

pub fn lead<'a>(s: &'a str, n: usize) -> (r: &'a str)
    ensures
        r@ == leading(s@, n as int),
{
    if s.unicode_len() <= n {
        s
    } else {
        let r = s.substring_char(0, n);
        assert(r@ =~= s@.take(n as int));
        r
    }
}

/// The last `n` characters; all of them where there are fewer.
pub open spec fn trailing(s: Seq<char>, n: int) -> Seq<char> {
    if s.len() <= n {
        s
    } else {
        s.skip(s.len() - n)
    }
}

pub fn trail<'a>(s: &'a str, n: usize) -> (r: &'a str)
    ensures
        r@ == trailing(s@, n as int),
{
    let all = s.unicode_len();
    if all <= n {
        s
    } else {
        let r = s.substring_char(all - n, all);
        assert(r@ =~= s@.skip(all - n));
        r
    }
}

/// At most `max` characters, and an ellipsis where some were left out.
pub open spec fn ellipsized(s: Seq<char>, max: int) -> Seq<char> {
    if s.len() <= max {
        s
    } else {
        s.take(max).push('…')
    }
}

pub fn ellipsize(s: &str, max: usize) -> (r: String)
    ensures
        r@ == ellipsized(s@, max as int),
{
    if s.unicode_len() <= max {
        lit(s)
    } else {
        let mut r = lit(s.substring_char(0, max));
        r.push('…');
        assert(r@ =~= s@.take(max as int).push('…'));
        r
    }
}

// ---- numbers --------------------------------------------------------------

pub open spec fn digit(d: nat) -> char {
    if d == 0 {
        '0'
    } else if d == 1 {
        '1'
    } else if d == 2 {
        '2'
    } else if d == 3 {
        '3'
    } else if d == 4 {
        '4'
    } else if d == 5 {
        '5'
    } else if d == 6 {
        '6'
    } else if d == 7 {
        '7'
    } else if d == 8 {
        '8'
    } else {
        '9'
    }
}

/// `n` in decimal, without leading zeros.
pub open spec fn decimal(n: nat) -> Seq<char>
    decreases n,
{
    if n < 10 {
        seq![digit(n)]
    } else {
        decimal(n / 10).push(digit(n % 10))
    }
}

fn digit_char(d: u64) -> (c: char)
    requires
        d < 10,
    ensures
        c == digit(d as nat),
{
    match d {
        0 => '0',
        1 => '1',
        2 => '2',
        3 => '3',
        4 => '4',
        5 => '5',
        6 => '6',
        7 => '7',
        8 => '8',
        _ => '9',
    }
}

pub fn number(n: u64) -> (r: String)
    ensures
        r@ == decimal(n as nat),
    decreases n,
{
    if n < 10 {
        let mut r = String::new();
        r.push(digit_char(n));
        assert(r@ =~= seq![digit(n as nat)]);
        r
    } else {
        let mut r = number(n / 10);
        r.push(digit_char(n % 10));
        r
    }
}

/// The digit `c` stands for.
pub open spec fn digit_value(c: char) -> Option<nat> {
    if '0' <= c <= '9' {
        Some((c as int - '0' as int) as nat)
    } else {
        None
    }
}

/// The number a run of digits stands for.
pub open spec fn digits_value(s: Seq<char>) -> Option<nat>
    decreases s.len(),
{
    if s.len() == 0 {
        Some(0)
    } else {
        match (digits_value(s.drop_last()), digit_value(s.last())) {
            (Some(n), Some(d)) => Some(10 * n + d),
            _ => None,
        }
    }
}

/// A number as it is read: digits, after a plus sign at most, and no larger than
/// `most`.
pub open spec fn number_within(s: Seq<char>, most: nat) -> Option<nat> {
    let digits = if s.len() > 0 && s[0] == '+' {
        s.skip(1)
    } else {
        s
    };
    if digits.len() == 0 {
        None
    } else {
        match digits_value(digits) {
            Some(n) => if n <= most {
                Some(n)
            } else {
                None
            },
            None => None,
        }
    }
}

/// A number as it is read into a machine word.
pub open spec fn number_read(s: Seq<char>) -> Option<nat> {
    number_within(s, usize::MAX as nat)
}

fn value_of_digit(c: char) -> (r: Option<u64>)
    ensures
        match r {
            Some(d) => d < 10 && digit_value(c) == Some(d as nat),
            None => digit_value(c) is None,
        },
{
    match c {
        '0' => Some(0),
        '1' => Some(1),
        '2' => Some(2),
        '3' => Some(3),
        '4' => Some(4),
        '5' => Some(5),
        '6' => Some(6),
        '7' => Some(7),
        '8' => Some(8),
        '9' => Some(9),
        _ => None,
    }
}

proof fn lemma_digits_grow(s: Seq<char>, n: int)
    requires
        0 <= n <= s.len(),
    ensures
        digits_value(s) matches Some(v) ==> (digits_value(s.take(n)) matches Some(w) && w <= v),
    decreases s.len() - n,
{
    if n < s.len() {
        assert(s.take(n + 1).drop_last() =~= s.take(n));
        lemma_digits_grow(s, n + 1);
    } else {
        assert(s.take(n) =~= s);
    }
}

pub fn read_u64(s: &str) -> (r: Option<u64>)
    ensures
        match r {
            Some(n) => number_within(s@, u64::MAX as nat) == Some(n as nat),
            None => number_within(s@, u64::MAX as nat) is None,
        },
{
    let x = chars_of(s);
    let mut i: usize = 0;
    if x.len() > 0 && x[0] == '+' {
        i = 1;
    }
    let ghost digits = s@.skip(i as int);
    assert(i == 0 ==> digits =~= s@);
    if i == x.len() {
        return None;
    }
    let ghost start = i as int;
    let mut n: u64 = 0;
    assert(digits.take(0) =~= Seq::<char>::empty());
    while i < x.len()
        invariant
            0 <= start <= i <= x.len(),
            x@ == s@,
            digits == s@.skip(start),
            digits_value(digits.take(i - start)) == Some(n as nat),
            digits.len() > 0,
            number_within(s@, u64::MAX as nat) == (match digits_value(digits) {
                Some(v) => if v <= u64::MAX {
                    Some(v)
                } else {
                    None
                },
                None => None,
            }),
        decreases x.len() - i,
    {
        let ghost seen = digits.take(i - start + 1);
        assert(seen.drop_last() =~= digits.take(i - start));
        assert(seen.last() == s@[i as int]);
        proof {
            lemma_digits_grow(digits, i - start + 1);
        }
        let d = match value_of_digit(x[i]) {
            Some(d) => d,
            None => {
                return None;
            },
        };
        match n.checked_mul(10) {
            Some(m) => match m.checked_add(d) {
                Some(k) => {
                    n = k;
                },
                None => {
                    return None;
                },
            },
            None => {
                return None;
            },
        }
        i = i + 1;
    }
    assert(digits.take(i - start) =~= digits);
    Some(n)
}

pub fn read_number(s: &str) -> (r: Option<usize>)
    ensures
        match r {
            Some(n) => number_read(s@) == Some(n as nat),
            None => number_read(s@) is None,
        },
{
    match read_u64(s) {
        Some(n) => {
            if n <= usize::MAX as u64 {
                Some(n as usize)
            } else {
                None
            }
        },
        None => None,
    }
}

/// How many bytes a text takes.
pub open spec fn bytes(s: Seq<char>) -> nat {
    vstd::utf8::encode_utf8(s).len()
}

pub fn size(s: &str) -> (n: usize)
    ensures
        n == bytes(s@),
{
    s.as_bytes().len()
}

// ---- words ----------------------------------------------------------------

/// How many characters stand before the first white one.
pub open spec fn run(s: Seq<char>) -> nat
    decreases s.len(),
{
    if s.len() == 0 || is_white(s[0]) {
        0
    } else {
        1 + run(s.skip(1))
    }
}

pub proof fn lemma_run(s: Seq<char>, k: int)
    requires
        0 <= k <= s.len(),
        forall|i: int| 0 <= i < k ==> !is_white(#[trigger] s[i]),
        k < s.len() ==> is_white(s[k]),
    ensures
        run(s) == k,
    decreases s.len(),
{
    if k > 0 {
        assert(!is_white(s[0]));
        let rest = s.skip(1);
        assert forall|i: int| 0 <= i < k - 1 implies !is_white(#[trigger] rest[i]) by {
            assert(rest[i] == s[i + 1]);
        }
        lemma_run(rest, k - 1);
    }
}

proof fn lemma_run_fits(s: Seq<char>)
    ensures
        run(s) <= s.len(),
    decreases s.len(),
{
    if s.len() > 0 && !is_white(s[0]) {
        lemma_run_fits(s.skip(1));
    }
}

/// The words of `s`: what stands between white space.
pub open spec fn words(s: Seq<char>) -> Seq<Seq<char>>
    decreases s.len(),
    via words_decreases
{
    if s.len() == 0 {
        Seq::empty()
    } else if is_white(s[0]) {
        words(s.skip(1))
    } else {
        seq![s.take(run(s) as int)] + words(s.skip(run(s) as int))
    }
}

#[via_fn]
proof fn words_decreases(s: Seq<char>) {
    lemma_run_fits(s);
}

pub fn split_words(s: &str) -> (out: Vec<String>)
    ensures
        out.deep_view() == words(s@),
{
    let x = chars_of(s);
    let mut out: Vec<String> = none_of();
    let mut p: usize = 0;
    assert(s@.skip(0) =~= s@);
    assert(out.deep_view() + words(s@) =~= words(s@));
    while p < x.len()
        invariant
            p <= x.len(),
            x@ == s@,
            out.deep_view() + words(s@.skip(p as int)) == words(s@),
        decreases x.len() - p,
    {
        let ghost rest = s@.skip(p as int);
        assert(rest[0] == x@[p as int]);
        if white(x[p]) {
            assert(rest.skip(1) =~= s@.skip(p + 1));
            p = p + 1;
        } else {
            let mut q: usize = p;
            while q < x.len() && !white(x[q])
                invariant
                    p <= q <= x.len(),
                    x@ == s@,
                    forall|i: int| p <= i < q ==> !is_white(#[trigger] s@[i]),
                decreases x.len() - q,
            {
                q = q + 1;
            }
            proof {
                assert forall|i: int| 0 <= i < q - p implies !is_white(#[trigger] rest[i]) by {
                    assert(rest[i] == s@[p + i]);
                }
                if q < x.len() {
                    assert(rest[q - p] == s@[q as int]);
                }
                lemma_run(rest, q - p);
                assert(rest[0] == s@[p as int]);
                assert(q > p);
                assert(rest.take(q - p) =~= s@.subrange(p as int, q as int));
                assert(rest.skip(q - p) =~= s@.skip(q as int));
            }
            let ghost before = out.deep_view();
            put(&mut out, lit(s.substring_char(p, q)));
            assert(out.deep_view() + words(s@.skip(q as int)) =~= before + words(rest));
            p = q;
        }
    }
    assert(s@.skip(p as int).len() == 0);
    assert(out.deep_view() =~= words(s@));
    out
}

// ---- characters around a text ---------------------------------------------

pub open spec fn bared_start(s: Seq<char>, set: Seq<char>) -> Seq<char>
    decreases s.len(),
{
    if s.len() > 0 && set.contains(s[0]) {
        bared_start(s.skip(1), set)
    } else {
        s
    }
}

/// `s` without any of these characters at its end.
pub open spec fn bared_end(s: Seq<char>, set: Seq<char>) -> Seq<char>
    decreases s.len(),
{
    if s.len() > 0 && set.contains(s.last()) {
        bared_end(s.drop_last(), set)
    } else {
        s
    }
}

/// `s` without any of these characters around it.
pub open spec fn bared(s: Seq<char>, set: Seq<char>) -> Seq<char> {
    bared_end(bared_start(s, set), set)
}

fn is_one_of(set: &Vec<char>, c: char) -> (r: bool)
    ensures
        r == set@.contains(c),
{
    let mut i: usize = 0;
    while i < set.len()
        invariant
            i <= set.len(),
            forall|k: int| 0 <= k < i ==> #[trigger] set@[k] != c,
        decreases set.len() - i,
    {
        if set[i] == c {
            return true;
        }
        i = i + 1;
    }
    false
}

pub fn bare_end<'t>(s: &'t str, set: &str) -> (r: &'t str)
    ensures
        r@ == bared_end(s@, set@),
{
    let x = chars_of(s);
    let set_of = chars_of(set);
    let mut hi: usize = x.len();
    assert(s@.take(hi as int) =~= s@);
    while hi > 0 && is_one_of(&set_of, x[hi - 1])
        invariant
            hi <= x.len(),
            x@ == s@,
            set_of@ == set@,
            bared_end(s@, set@) == bared_end(s@.take(hi as int), set@),
        decreases hi,
    {
        assert(s@.take(hi as int).last() == s@[hi - 1]);
        assert(s@.take(hi as int).drop_last() =~= s@.take(hi - 1));
        hi = hi - 1;
    }
    assert(hi > 0 ==> s@.take(hi as int).last() == s@[hi - 1]);
    assert(s@.take(hi as int) =~= s@.subrange(0, hi as int));
    s.substring_char(0, hi)
}

pub fn bare<'t>(s: &'t str, set: &str) -> (r: &'t str)
    ensures
        r@ == bared(s@, set@),
{
    let x = chars_of(s);
    let set_of = chars_of(set);
    let mut lo: usize = 0;
    assert(s@.skip(0) =~= s@);
    while lo < x.len() && is_one_of(&set_of, x[lo])
        invariant
            lo <= x.len(),
            x@ == s@,
            set_of@ == set@,
            bared_start(s@, set@) == bared_start(s@.skip(lo as int), set@),
        decreases x.len() - lo,
    {
        assert(s@.skip(lo as int)[0] == s@[lo as int]);
        assert(s@.skip(lo as int).skip(1) =~= s@.skip(lo + 1));
        lo = lo + 1;
    }
    assert(lo < x.len() ==> s@.skip(lo as int)[0] == s@[lo as int]);
    assert(s@.skip(lo as int) =~= s@.subrange(lo as int, x.len() as int));
    bare_end(s.substring_char(lo, x.len()), set)
}

// ---- case and width -------------------------------------------------------

/// How `str::to_lowercase` writes a text.
pub uninterp spec fn lowered(s: Seq<char>) -> Seq<char>;

/// The text in lower case, as `str::to_lowercase` gives it. The mapping of each
/// character is Unicode's, named [`lowered`] and otherwise left unsaid.
#[verifier::external_body]
pub(crate) fn lower(s: &str) -> (r: String)
    ensures
        r@ == lowered(s@),
{
    s.to_lowercase()
}

/// So many zeros.
pub open spec fn zeros(n: nat) -> Seq<char> {
    Seq::new(n, |i: int| '0')
}

/// A number in at least `width` digits.
pub open spec fn padded(n: nat, width: nat) -> Seq<char> {
    let d = decimal(n);
    if d.len() >= width {
        d
    } else {
        zeros((width - d.len()) as nat) + d
    }
}

pub fn pad(n: u64, width: usize) -> (r: String)
    ensures
        r@ == padded(n as nat, width as nat),
{
    let d = number(n);
    let len = d.as_str().unicode_len();
    let mut r = String::new();
    let mut i: usize = len;
    assert(zeros(0) =~= Seq::<char>::empty());
    while i < width
        invariant
            len == d@.len(),
            d@ == decimal(n as nat),
            len <= i,
            i <= width || i == len,
            r@ == zeros((i - len) as nat),
        decreases width - i,
    {
        r.push('0');
        assert(r@ =~= zeros((i + 1 - len) as nat));
        i = i + 1;
    }
    r.concat(d.as_str())
}

/// So many spaces.
pub open spec fn spaces(n: nat) -> Seq<char> {
    Seq::new(n, |i: int| ' ')
}

/// A text with spaces behind it, at least `width` characters in all.
pub open spec fn columned(s: Seq<char>, width: nat) -> Seq<char> {
    if s.len() >= width {
        s
    } else {
        s + spaces((width - s.len()) as nat)
    }
}

pub fn column(s: &str, width: usize) -> (r: String)
    ensures
        r@ == columned(s@, width as nat),
{
    let len = s.unicode_len();
    let mut r = lit(s);
    let mut i: usize = len;
    assert(s@ + spaces(0) =~= s@);
    while i < width
        invariant
            len == s@.len(),
            len <= i,
            i <= width || i == len,
            r@ == s@ + spaces((i - len) as nat),
        decreases width - i,
    {
        r.push(' ');
        assert(r@ =~= s@ + spaces((i + 1 - len) as nat));
        i = i + 1;
    }
    assert(s@ + spaces(0) =~= s@);
    r
}

/// A character so many times.
pub open spec fn repeated(c: char, n: nat) -> Seq<char> {
    Seq::new(n, |i: int| c)
}

pub fn repeat(c: char, n: usize) -> (r: String)
    ensures
        r@ == repeated(c, n as nat),
{
    let mut r = String::new();
    let mut i: usize = 0;
    assert(r@ =~= repeated(c, 0));
    while i < n
        invariant
            i <= n,
            r@ == repeated(c, i as nat),
        decreases n - i,
    {
        r.push(c);
        assert(r@ =~= repeated(c, (i + 1) as nat));
        i = i + 1;
    }
    r
}

pub fn of_chars(x: &Vec<char>) -> (r: String)
    ensures
        r@ == x@,
{
    let mut r = String::new();
    let mut i: usize = 0;
    assert(r@ =~= x@.take(0));
    while i < x.len()
        invariant
            i <= x.len(),
            r@ == x@.take(i as int),
        decreases x.len() - i,
    {
        r.push(x[i]);
        assert(r@ =~= x@.take(i + 1));
        i = i + 1;
    }
    assert(x@.take(i as int) =~= x@);
    r
}

/// How `{:?}` writes a text: in quotes, escaped.
pub uninterp spec fn debugged(s: Seq<char>) -> Seq<char>;

/// The text as `format!` with `{:?}` writes it. Which characters that escapes, and
/// how, is named [`debugged`] and otherwise left unsaid.
#[verifier::external_body]
pub(crate) fn debug(s: &str) -> (r: String)
    ensures
        r@ == debugged(s@),
{
    format!("{:?}", s)
}

} // verus!
