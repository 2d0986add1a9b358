//! Texts in order: compared character by character, as sorted lists of them are kept.
use crate::data::{none_of, put};
use crate::text::{chars_of, same};
use vstd::prelude::*;
use vstd::relations::{sorted_by, total_ordering};

verus! {

/// `a` comes no later than `b`.
pub open spec fn below(a: Seq<char>, b: Seq<char>) -> bool
    decreases a.len(),
{
    if a.len() == 0 {
        true
    } else if b.len() == 0 {
        false
    } else if a[0] != b[0] {
        (a[0] as int) < (b[0] as int)
    } else {
        below(a.skip(1), b.skip(1))
    }
}

pub open spec fn by_text() -> spec_fn(Seq<char>, Seq<char>) -> bool {
    |a: Seq<char>, b: Seq<char>| below(a, b)
}

pub proof fn lemma_reflexive(a: Seq<char>)
    ensures
        below(a, a),
    decreases a.len(),
{
    if a.len() > 0 {
        lemma_reflexive(a.skip(1));
    }
}

pub proof fn lemma_antisymmetric(a: Seq<char>, b: Seq<char>)
    requires
        below(a, b),
        below(b, a),
    ensures
        a == b,
    decreases a.len(),
{
    if a.len() == 0 || b.len() == 0 {
        assert(a =~= b);
    } else {
        assert(a[0] == b[0]);
        lemma_antisymmetric(a.skip(1), b.skip(1));
        assert(a =~= seq![a[0]] + a.skip(1));
        assert(b =~= seq![b[0]] + b.skip(1));
    }
}

pub proof fn lemma_transitive(a: Seq<char>, b: Seq<char>, c: Seq<char>)
    requires
        below(a, b),
        below(b, c),
    ensures
        below(a, c),
    decreases a.len(),
{
    if a.len() > 0 {
        if a[0] == b[0] && b[0] == c[0] {
            lemma_transitive(a.skip(1), b.skip(1), c.skip(1));
        }
    }
}

pub proof fn lemma_total(a: Seq<char>, b: Seq<char>)
    ensures
        below(a, b) || below(b, a),
    decreases a.len(),
{
    if a.len() > 0 && b.len() > 0 && a[0] == b[0] {
        lemma_total(a.skip(1), b.skip(1));
    }
}

/// Texts are totally ordered.
pub proof fn lemma_ordered()
    ensures
        total_ordering(by_text()),
{
    let r = by_text();
    assert forall|a: Seq<char>| #[trigger] r(a, a) by {
        lemma_reflexive(a);
    }
    assert forall|a: Seq<char>, b: Seq<char>| #[trigger] r(a, b) && #[trigger] r(b, a) implies a
        == b by {
        lemma_antisymmetric(a, b);
    }
    assert forall|a: Seq<char>, b: Seq<char>, c: Seq<char>| #[trigger]
        r(a, b) && #[trigger] r(b, c) implies r(a, c) by {
        lemma_transitive(a, b, c);
    }
    assert forall|a: Seq<char>, b: Seq<char>| #[trigger] r(a, b) || #[trigger] r(b, a) by {
        lemma_total(a, b);
    }
}

/// The texts of `list` in order, repeats kept.
pub open spec fn sorted(list: Seq<Seq<char>>) -> Seq<Seq<char>> {
    list.sort_by(by_text())
}

/// Neighbours that are the same text, once each.
pub open spec fn once_each(list: Seq<Seq<char>>) -> Seq<Seq<char>>
    decreases list.len(),
{
    if list.len() <= 1 {
        list
    } else {
        let front = once_each(list.drop_last());
        if list.last() == list[list.len() - 2] {
            front
        } else {
            front.push(list.last())
        }
    }
}

/// The texts of `list` in order, each once.
pub open spec fn catalogued(list: Seq<Seq<char>>) -> Seq<Seq<char>> {
    once_each(sorted(list))
}

fn code_point(c: char) -> (n: u32)
    ensures
        n == c as int,
{
    c as u32
}

/// Whether `a` is `b` or stands before it.
pub fn not_after(a: &str, b: &str) -> (r: bool)
    ensures
        r == below(a@, b@),
{
    let x = chars_of(a);
    let y = chars_of(b);
    let mut i: usize = 0;
    assert(a@.skip(0) =~= a@);
    assert(b@.skip(0) =~= b@);
    while i < x.len() && i < y.len()
        invariant
            i <= x.len(),
            i <= y.len(),
            x@ == a@,
            y@ == b@,
            below(a@, b@) == below(a@.skip(i as int), b@.skip(i as int)),
        decreases x.len() - i,
    {
        let p: char = x[i];
        let q: char = y[i];
        if p != q {
            return code_point(p) < code_point(q);
        }
        assert(a@.skip(i as int).skip(1) =~= a@.skip(i + 1));
        assert(b@.skip(i as int).skip(1) =~= b@.skip(i + 1));
        i = i + 1;
    }
    i >= x.len()
}

proof fn lemma_insert_multiset(s: Seq<Seq<char>>, i: int, x: Seq<char>)
    requires
        0 <= i <= s.len(),
    ensures
        s.insert(i, x).to_multiset() == s.to_multiset().insert(x),
{
    broadcast use vstd::seq_lib::group_to_multiset_ensures;

    let t = s.insert(i, x);
    assert(t.remove(i) =~= s);
    assert(t[i] == x);
    assert(t.contains(x));
    assert(t.to_multiset().count(x) > 0);
    assert(t.remove(i).to_multiset() =~= t.to_multiset().remove(x));
    assert(t.to_multiset() =~= t.to_multiset().remove(x).insert(x));
}

/// Puts `x` where it belongs in a sorted list.
fn place(out: &mut Vec<String>, x: String)
    requires
        sorted_by(old(out).deep_view(), by_text()),
    ensures
        sorted_by(final(out).deep_view(), by_text()),
        final(out).deep_view().to_multiset() == old(out).deep_view().to_multiset().insert(x@),
{
    let ghost s = out.deep_view();
    let mut i: usize = 0;
    while i < out.len() && not_after(out[i].as_str(), x.as_str())
        invariant
            i <= out.len(),
            s == out.deep_view(),
            *out == *old(out),
            forall|k: int| 0 <= k < i ==> below(#[trigger] s[k], x@),
        decreases out.len() - i,
    {
        i = i + 1;
    }
    proof {
        lemma_ordered();
        if i < out.len() {
            lemma_total(s[i as int], x@);
            assert(below(x@, s[i as int]));
        }
        let t = s.insert(i as int, x@);
        let leq = by_text();
        assert forall|a: int, b: int| 0 <= a < b < t.len() implies #[trigger] leq(t[a], t[b]) by {
            if a < i && b == i {
                assert(t[a] == s[a]);
            } else if a == i && b > i {
                assert(t[b] == s[b - 1]);
                if b - 1 > i {
                    assert(leq(s[i as int], s[b - 1]));
                    lemma_transitive(x@, s[i as int], s[b - 1]);
                }
            } else if a < i && b > i {
                assert(leq(s[a], s[b - 1]));
            } else if a > i {
                assert(leq(s[a - 1], s[b - 1]));
            } else {
                assert(leq(s[a], s[b]));
            }
        }
        lemma_insert_multiset(s, i as int, x@);
    }
    out.insert(i, x);
    assert(out.deep_view() =~= s.insert(i as int, x@));
}

/// Sorts a list of texts.
pub fn sort(list: &Vec<String>) -> (out: Vec<String>)
    ensures
        out.deep_view() == sorted(list.deep_view()),
{
    let ghost all = list.deep_view();
    let mut out: Vec<String> = none_of();
    let mut i: usize = 0;
    assert(all.take(0) =~= Seq::<Seq<char>>::empty());
    while i < list.len()
        invariant
            i <= list.len(),
            all == list.deep_view(),
            sorted_by(out.deep_view(), by_text()),
            out.deep_view().to_multiset() == all.take(i as int).to_multiset(),
        decreases list.len() - i,
    {
        proof {
            broadcast use vstd::seq_lib::group_to_multiset_ensures;

            assert(all.take(i + 1) =~= all.take(i as int).push(all[i as int]));
        }
        place(&mut out, list[i].clone());
        i = i + 1;
    }
    proof {
        assert(all.take(i as int) =~= all);
        lemma_ordered();
        all.lemma_sort_by_ensures(by_text());
        vstd::seq_lib::lemma_sorted_unique(out.deep_view(), sorted(all), by_text());
    }
    out
}

/// Sorts a list of texts and drops the repeats.
pub fn sort_once(list: &Vec<String>) -> (out: Vec<String>)
    ensures
        out.deep_view() == catalogued(list.deep_view()),
{
    let all = sort(list);
    let ghost s = all.deep_view();
    let mut out: Vec<String> = none_of();
    let mut i: usize = 0;
    assert(s.take(0) =~= Seq::<Seq<char>>::empty());
    while i < all.len()
        invariant
            i <= all.len(),
            s == all.deep_view(),
            out.deep_view() == once_each(s.take(i as int)),
        decreases all.len() - i,
    {
        assert(s.take(i + 1).drop_last() =~= s.take(i as int));
        assert(s.take(i + 1).last() == all@[i as int]@);
        if i == 0 {
            put(&mut out, all[i].clone());
            assert(out.deep_view() =~= s.take(1));
        } else {
            assert(s.take(i + 1)[i - 1] == all@[i - 1]@);
            if !same(all[i].as_str(), all[i - 1].as_str()) {
                put(&mut out, all[i].clone());
            }
        }
        i = i + 1;
    }
    assert(s.take(i as int) =~= s);
    out
}

/// A sorted list has the same texts whatever order they came in.
pub proof fn law_order_does_not_matter(a: Seq<Seq<char>>, b: Seq<Seq<char>>)
    requires
        a.to_multiset() == b.to_multiset(),
    ensures
        sorted(a) == sorted(b),
{
    lemma_ordered();
    a.lemma_sort_by_ensures(by_text());
    b.lemma_sort_by_ensures(by_text());
    vstd::seq_lib::lemma_sorted_unique(sorted(a), sorted(b), by_text());
}

#[verifier::spinoff_prover]
proof fn lemma_once_each(list: Seq<Seq<char>>)
    requires
        sorted_by(list, by_text()),
    ensures
        forall|i: int, j: int|
            0 <= i < j < once_each(list).len() ==> below(
                #[trigger] once_each(list)[i],
                #[trigger] once_each(list)[j],
            ) && once_each(list)[i] != once_each(list)[j],
        forall|x: Seq<char>| #[trigger] once_each(list).contains(x) <==> list.contains(x),
        list.len() > 0 ==> once_each(list).len() > 0 && once_each(list).last() == list.last(),
    decreases list.len(),
{
    let o = once_each(list);
    if list.len() <= 1 {
    } else {
        let front = list.drop_last();
        let leq = by_text();
        assert forall|a: int, b: int| 0 <= a < b < front.len() implies #[trigger] leq(
            front[a],
            front[b],
        ) by {
            assert(leq(list[a], list[b]));
        }
        lemma_once_each(front);
        let f = once_each(front);
        let n = list.len();
        assert(leq(list[n - 2], list[n - 1]));
        assert(f.last() == list[n - 2]);
        if list.last() == list[n - 2] {
            assert forall|x: Seq<char>| #[trigger] o.contains(x) <==> list.contains(x) by {
                if list.contains(x) {
                    let k = choose|k: int| 0 <= k < list.len() && list[k] == x;
                    if k < n - 1 {
                        assert(front[k] == x);
                        assert(front.contains(x));
                    } else {
                        assert(front[n - 2] == x);
                        assert(front.contains(x));
                    }
                }
                if o.contains(x) {
                    assert(f.contains(x));
                    assert(front.contains(x));
                    let k = choose|k: int| 0 <= k < front.len() && front[k] == x;
                    assert(list[k] == x);
                }
            }
        } else {
            assert(o == f.push(list.last()));
            assert forall|i: int, j: int| 0 <= i < j < o.len() implies below(o[i], o[j]) && o[i]
                != o[j] by {
                if j == f.len() {
                    assert(o[j] == list.last());
                    assert(o[i] == f[i]);
                    if i < f.len() - 1 {
                        assert(below(f[i], f[f.len() - 1]) && f[i] != f[f.len() - 1]);
                        lemma_transitive(f[i], list[n - 2], list.last());
                        if f[i] == list.last() {
                            lemma_antisymmetric(list[n - 2], list.last());
                        }
                    } else {
                        assert(o[i] == list[n - 2]);
                        assert(leq(list[n - 2], list[n - 1]));
                        assert(below(list[n - 2], list.last()));
                    }
                } else {
                    assert(below(f[i], f[j]) && f[i] != f[j]);
                    assert(o[i] == f[i] && o[j] == f[j]);
                }
            }
            assert forall|x: Seq<char>| #[trigger] o.contains(x) <==> list.contains(x) by {
                if list.contains(x) {
                    let k = choose|k: int| 0 <= k < list.len() && list[k] == x;
                    if k < n - 1 {
                        assert(front[k] == x);
                        assert(front.contains(x));
                        assert(f.contains(x));
                        let m = choose|m: int| 0 <= m < f.len() && f[m] == x;
                        assert(o[m] == x);
                    } else {
                        assert(o[f.len() as int] == x);
                    }
                }
                if o.contains(x) {
                    let m = choose|m: int| 0 <= m < o.len() && o[m] == x;
                    if m < f.len() {
                        assert(f[m] == x);
                        assert(f.contains(x));
                        assert(front.contains(x));
                        let k = choose|k: int| 0 <= k < front.len() && front[k] == x;
                        assert(list[k] == x);
                    } else {
                        assert(list[n - 1] == x);
                    }
                }
            }
        }
    }
}

/// A catalogued list holds exactly the texts it was made from, in order, each once.
pub proof fn law_catalogued(list: Seq<Seq<char>>)
    ensures
        forall|i: int, j: int|
            0 <= i < j < catalogued(list).len() ==> below(catalogued(list)[i], catalogued(list)[j])
                && catalogued(list)[i] != catalogued(list)[j],
        forall|x: Seq<char>| #[trigger] catalogued(list).contains(x) <==> list.contains(x),
{
    broadcast use vstd::seq_lib::group_to_multiset_ensures;

    lemma_ordered();
    list.lemma_sort_by_ensures(by_text());
    lemma_once_each(sorted(list));
    assert forall|x: Seq<char>| #[trigger] catalogued(list).contains(x) <==> list.contains(x) by {
        assert(sorted(list).contains(x) <==> sorted(list).to_multiset().count(x) > 0);
        assert(list.contains(x) <==> list.to_multiset().count(x) > 0);
    }
}

/// In order, once each.
pub open spec fn increasing(list: Seq<Seq<char>>) -> bool {
    forall|i: int, j: int|
        0 <= i < j < list.len() ==> below(#[trigger] list[i], #[trigger] list[j]) && list[i]
            != list[j]
}

#[verifier::spinoff_prover]
proof fn lemma_increasing_is_unique(a: Seq<Seq<char>>, b: Seq<Seq<char>>)
    requires
        increasing(a),
        increasing(b),
        forall|x: Seq<char>| #[trigger] a.contains(x) <==> b.contains(x),
    ensures
        a == b,
    decreases a.len(),
{
    if a.len() == 0 {
        if b.len() > 0 {
            assert(b.contains(b[0]));
            assert(a.contains(b[0]));
        }
        assert(a =~= b);
    } else {
        assert(a.contains(a[a.len() - 1]));
        assert(b.contains(a.last()));
        assert(b.len() > 0);
        assert(b.contains(b[b.len() - 1]));
        assert(a.contains(b.last()));
        let i = choose|i: int| 0 <= i < b.len() && b[i] == a.last();
        let j = choose|j: int| 0 <= j < a.len() && a[j] == b.last();
        lemma_reflexive(a.last());
        if i < b.len() - 1 {
            assert(below(b[i], b[b.len() - 1]));
        }
        if j < a.len() - 1 {
            assert(below(a[j], a[a.len() - 1]));
        }
        lemma_antisymmetric(a.last(), b.last());
        let af = a.drop_last();
        let bf = b.drop_last();
        assert(increasing(af)) by {
            assert forall|p: int, q: int| 0 <= p < q < af.len() implies below(
                #[trigger] af[p],
                #[trigger] af[q],
            ) && af[p] != af[q] by {
                assert(af[p] == a[p] && af[q] == a[q]);
            }
        }
        assert(increasing(bf)) by {
            assert forall|p: int, q: int| 0 <= p < q < bf.len() implies below(
                #[trigger] bf[p],
                #[trigger] bf[q],
            ) && bf[p] != bf[q] by {
                assert(bf[p] == b[p] && bf[q] == b[q]);
            }
        }
        lemma_front_holds(a);
        lemma_front_holds(b);
        assert forall|x: Seq<char>| #[trigger] af.contains(x) <==> bf.contains(x) by {
            assert(af.contains(x) <==> a.contains(x) && x != a.last());
            assert(bf.contains(x) <==> b.contains(x) && x != b.last());
        }
        lemma_increasing_is_unique(af, bf);
        assert(a =~= af.push(a.last()));
        assert(b =~= bf.push(b.last()));
    }
}

proof fn lemma_front_holds(a: Seq<Seq<char>>)
    requires
        increasing(a),
        a.len() > 0,
    ensures
        forall|x: Seq<char>| #[trigger]
            a.drop_last().contains(x) <==> a.contains(x) && x != a.last(),
{
    let f = a.drop_last();
    assert forall|x: Seq<char>| #[trigger] f.contains(x) <==> a.contains(x) && x != a.last() by {
        if f.contains(x) {
            let i = choose|i: int| 0 <= i < f.len() && f[i] == x;
            assert(a[i] == x);
            assert(a[i] != a[a.len() - 1]);
        }
        if a.contains(x) && x != a.last() {
            let i = choose|i: int| 0 <= i < a.len() && a[i] == x;
            assert(f[i] == x);
        }
    }
}

/// What is catalogued depends on which texts there are, not on how often or in which
/// order; and a list that is in order, once each, is its own catalogue.
pub proof fn law_one_catalogue(a: Seq<Seq<char>>, b: Seq<Seq<char>>)
    requires
        forall|x: Seq<char>| #[trigger] a.contains(x) <==> b.contains(x),
    ensures
        catalogued(a) == catalogued(b),
        increasing(a) ==> catalogued(a) == a,
{
    law_catalogued(a);
    law_catalogued(b);
    assert(increasing(catalogued(a)));
    assert(increasing(catalogued(b)));
    assert forall|x: Seq<char>| #[trigger] catalogued(a).contains(x) <==> catalogued(b).contains(
        x,
    ) by {
        assert(catalogued(a).contains(x) <==> a.contains(x));
    }
    lemma_increasing_is_unique(catalogued(a), catalogued(b));
    if increasing(a) {
        lemma_increasing_is_unique(catalogued(a), a);
    }
}

} // verus!
