//! Texts within texts: that some texts stand in another, one behind the other.
use crate::text;
use vstd::prelude::*;

verus! {

/// `part` stands in `s` at `i`.
pub open spec fn stands(s: Seq<char>, part: Seq<char>, i: int) -> bool {
    0 <= i && i + part.len() <= s.len() && s.subrange(i, i + part.len()) == part
}

/// The parts stand in `s`, each behind the one before it.
pub open spec fn in_order(s: Seq<char>, parts: Seq<Seq<char>>) -> bool
    decreases parts.len(),
{
    parts.len() > 0 ==> exists|i: int| #[trigger]
        stands(s, parts.last(), i) && in_order(s.take(i), parts.drop_last())
}

pub proof fn lemma_none(s: Seq<char>)
    ensures
        in_order(s, Seq::empty()),
{
}

/// What stands in a text stands in a longer one, and what stands in two texts stands in
/// the two put together.
pub proof fn lemma_together(
    a: Seq<char>,
    ps: Seq<Seq<char>>,
    b: Seq<char>,
    qs: Seq<Seq<char>>,
)
    requires
        in_order(a, ps),
        in_order(b, qs),
    ensures
        in_order(a + b, ps + qs),
    decreases ps.len() + qs.len(),
{
    let all = ps + qs;
    if qs.len() > 0 {
        let q = qs.last();
        let i = choose|i: int| #[trigger] stands(b, q, i) && in_order(b.take(i), qs.drop_last());
        lemma_together(a, ps, b.take(i), qs.drop_last());
        assert(all.last() == q);
        assert(all.drop_last() =~= ps + qs.drop_last());
        assert((a + b).take(a.len() + i) =~= a + b.take(i));
        assert((a + b).subrange(a.len() + i, a.len() + i + q.len()) =~= b.subrange(
            i,
            i + q.len(),
        ));
        assert(stands(a + b, q, a.len() + i));
    } else {
        assert(all =~= ps);
        if ps.len() > 0 {
            let p = ps.last();
            let i = choose|i: int| #[trigger]
                stands(a, p, i) && in_order(a.take(i), ps.drop_last());
            assert((a + b).take(i) =~= a.take(i));
            assert((a + b).subrange(i, i + p.len()) =~= a.subrange(i, i + p.len()));
            assert(stands(a + b, p, i));
        }
    }
}

/// A text stands in itself, and with others around it.
pub proof fn lemma_within(a: Seq<char>, part: Seq<char>, b: Seq<char>)
    ensures
        in_order(a + part + b, seq![part]),
{
    let s = a + part + b;
    let one = seq![part];
    assert(s.subrange(a.len() as int, (a.len() + part.len()) as int) =~= part);
    assert(stands(s, part, a.len() as int));
    assert(one.last() == part);
    assert(one.drop_last() =~= Seq::<Seq<char>>::empty());
    lemma_none(s.take(a.len() as int));
}

/// One more part, and whatever follows it.
pub proof fn lemma_one_more(
    a: Seq<char>,
    parts: Seq<Seq<char>>,
    part: Seq<char>,
    b: Seq<char>,
)
    requires
        in_order(a, parts),
    ensures
        in_order(a + part + b, parts.push(part)),
{
    let none = Seq::<char>::empty();
    lemma_within(none, part, b);
    assert(none + part + b =~= part + b);
    lemma_together(a, parts, part + b, seq![part]);
    assert(a + (part + b) =~= a + part + b);
    assert(parts + seq![part] =~= parts.push(part));
}

/// Parts strung together hold what each of them holds.
pub proof fn lemma_strung(whole: Seq<Seq<char>>, parts: Seq<Seq<char>>)
    requires
        whole.len() == parts.len(),
        forall|i: int|
            0 <= i < parts.len() ==> in_order(#[trigger] whole[i], seq![parts[i]]),
    ensures
        in_order(text::strung(whole), parts),
    decreases parts.len(),
{
    if parts.len() > 0 {
        let k = parts.len() - 1;
        assert forall|i: int| 0 <= i < k implies in_order(
            #[trigger] whole.drop_last()[i],
            seq![parts.drop_last()[i]],
        ) by {
            assert(whole.drop_last()[i] == whole[i]);
        }
        lemma_strung(whole.drop_last(), parts.drop_last());
        assert(in_order(whole[k], seq![parts[k]]));
        lemma_together(
            text::strung(whole.drop_last()),
            parts.drop_last(),
            whole.last(),
            seq![parts.last()],
        );
        assert(parts.drop_last() + seq![parts.last()] =~= parts);
    }
}

/// Joined parts stand in the text they are joined to, in their order.
pub proof fn lemma_joined(parts: Seq<Seq<char>>, sep: Seq<char>)
    ensures
        in_order(text::joined(parts, sep), parts),
    decreases parts.len(),
{
    let none = Seq::<char>::empty();
    if parts.len() == 1 {
        lemma_within(none, parts[0], none);
        assert(none + parts[0] + none =~= parts[0]);
        assert(parts =~= seq![parts[0]]);
    } else if parts.len() > 1 {
        let front = parts.drop_last();
        lemma_joined(front, sep);
        lemma_none(sep);
        lemma_together(text::joined(front, sep), front, sep, Seq::empty());
        assert(front + Seq::<Seq<char>>::empty() =~= front);
        lemma_within(none, parts.last(), none);
        assert(none + parts.last() + none =~= parts.last());
        lemma_together(
            text::joined(front, sep) + sep,
            front,
            parts.last(),
            seq![parts.last()],
        );
        assert(front + seq![parts.last()] =~= parts);
    }
}

/// Parts that stand in order each stand in the text.
pub proof fn lemma_each(s: Seq<char>, parts: Seq<Seq<char>>, k: int)
    requires
        in_order(s, parts),
        0 <= k < parts.len(),
    ensures
        text::holds(s, parts[k]),
    decreases parts.len(),
{
    let last = parts.last();
    let i = choose|i: int| #[trigger] stands(s, last, i) && in_order(s.take(i), parts.drop_last());
    if k == parts.len() - 1 {
        assert(s.subrange(i, i + last.len()) == parts[k]);
    } else {
        lemma_each(s.take(i), parts.drop_last(), k);
        let j = choose|j: int|
            0 <= j <= s.take(i).len() - parts[k].len() && #[trigger] s.take(i).subrange(
                j,
                j + parts[k].len(),
            ) == parts[k];
        assert(s.subrange(j, j + parts[k].len()) =~= s.take(i).subrange(j, j + parts[k].len()));
    }
}

/// Parts that stand each in its text stand in order in the texts joined.
pub proof fn lemma_joined_within(whole: Seq<Seq<char>>, sep: Seq<char>, parts: Seq<Seq<char>>)
    requires
        whole.len() == parts.len(),
        forall|i: int|
            0 <= i < parts.len() ==> in_order(#[trigger] whole[i], seq![parts[i]]),
    ensures
        in_order(text::joined(whole, sep), parts),
    decreases parts.len(),
{
    let none = Seq::<Seq<char>>::empty();
    if parts.len() == 0 {
        assert(parts =~= none);
        lemma_none(text::joined(whole, sep));
    } else if parts.len() == 1 {
        assert(parts =~= seq![parts[0]]);
        assert(in_order(whole[0], seq![parts[0]]));
        assert(text::joined(whole, sep) =~= whole[0]);
    } else {
        let k = parts.len() - 1;
        let front = whole.drop_last();
        assert forall|i: int| 0 <= i < k implies in_order(
            #[trigger] front[i],
            seq![parts.drop_last()[i]],
        ) by {
            assert(front[i] == whole[i]);
        }
        lemma_joined_within(front, sep, parts.drop_last());
        lemma_none(sep);
        lemma_together(text::joined(front, sep), parts.drop_last(), sep, none);
        assert(in_order(whole[k], seq![parts[k]]));
        lemma_together(
            text::joined(front, sep) + sep,
            parts.drop_last() + none,
            whole.last(),
            seq![parts[k]],
        );
        assert(parts.drop_last() + none + seq![parts[k]] =~= parts);
        assert(text::joined(whole, sep) =~= text::joined(front, sep) + sep + whole.last());
    }
}

/// What stands in a text in order still does with more around it.
pub proof fn lemma_wrapped(a: Seq<char>, s: Seq<char>, b: Seq<char>, parts: Seq<Seq<char>>)
    requires
        in_order(s, parts),
    ensures
        in_order(a + s + b, parts),
{
    let none = Seq::<Seq<char>>::empty();
    lemma_none(a);
    lemma_none(b);
    lemma_together(a, none, s, parts);
    lemma_together(a + s, none + parts, b, none);
    assert(none + parts + none =~= parts);
}

} // verus!
