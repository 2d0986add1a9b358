//! The registries: which tool names a catalog admits, and what is said of one that is
//! narrowed.
use crate::data::Dup;
use crate::text;
use crate::text::{chars_of, join, lit};
use vstd::prelude::*;

verus! {

/// Which tool names a catalog admits. In a name, `*` stands for any run of characters.
#[derive(Debug, PartialEq, Eq)]
pub struct ToolPolicy {
    /// The only names admitted, where there are any.
    pub only: Vec<String>,
    /// Names never admitted, whatever else is said of them.
    pub never: Vec<String>,
}

/// What a [`ToolPolicy`] holds.
#[verifier::ext_equal]
pub struct ToolPolicyView {
    pub only: Seq<Seq<char>>,
    pub never: Seq<Seq<char>>,
}

impl DeepView for ToolPolicy {
    type V = ToolPolicyView;

    open spec fn deep_view(&self) -> ToolPolicyView {
        ToolPolicyView {
            only: self.only.deep_view(),
            never: self.never.deep_view(),
        }
    }
}

impl Dup for ToolPolicy {
    fn dup(&self) -> (r: Self) {
        ToolPolicy {
            only: self.only.dup(),
            never: self.never.dup(),
        }
    }
}

impl Clone for ToolPolicy {
    fn clone(&self) -> (r: Self)
        ensures
            r.deep_view() == self.deep_view(),
    {
        self.dup()
    }
}

/// What is said of a narrowed catalog that has kept nothing out.
pub const NOTHING_DROPPED: &'static str = "TOOL CATALOG — this tree was configured to narrow the tool catalog (`tools` row, `include` / `exclude`). Nothing has been kept out so far.";

/// Whether a name fits a pattern.
pub open spec fn fits(pattern: Seq<char>, name: Seq<char>) -> bool
    decreases pattern.len(), name.len(),
{
    if pattern.len() == 0 {
        name.len() == 0
    } else if pattern[0] == '*' {
        fits(pattern.skip(1), name) || (name.len() > 0 && fits(pattern, name.skip(1)))
    } else {
        name.len() > 0 && name[0] == pattern[0] && fits(pattern.skip(1), name.skip(1))
    }
}

/// Whether a name fits one of the patterns.
pub open spec fn fits_any(patterns: Seq<Seq<char>>, name: Seq<char>) -> bool {
    exists|i: int| 0 <= i < patterns.len() && fits(#[trigger] patterns[i], name)
}

pub open spec fn admitted(p: ToolPolicyView, name: Seq<char>) -> bool {
    !fits_any(p.never, name) && (p.only.len() == 0 || fits_any(p.only, name))
}

/// A place for every character and one more, each holding `false`.
fn blanks(n: usize) -> (row: Vec<bool>)
    requires
        n < usize::MAX,
    ensures
        row@.len() == n + 1,
        forall|k: int| 0 <= k <= n ==> !(#[trigger] row@[k]),
{
    let mut row: Vec<bool> = Vec::new();
    let mut j: usize = 0;
    while j < n + 1
        invariant
            n < usize::MAX,
            j <= n + 1,
            row@.len() == j,
            forall|k: int| 0 <= k < j ==> !(#[trigger] row@[k]),
        decreases n + 1 - j,
    {
        row.push(false);
        j = j + 1;
    }
    row
}

/// What fits a pattern with `c` in front, for what is left of the name from each place,
/// given what fits the pattern behind it.
fn step(c: char, name: &Vec<char>, below: &Vec<bool>, here: Ghost<Seq<char>>) -> (row: Vec<bool>)
    requires
        name@.len() < usize::MAX,
        below@.len() == name@.len() + 1,
        here@.len() > 0,
        here@[0] == c,
        forall|k: int|
            0 <= k <= name@.len() ==> #[trigger] below@[k] == fits(here@.skip(1), name@.skip(k)),
    ensures
        row@.len() == name@.len() + 1,
        forall|k: int|
            0 <= k <= name@.len() ==> #[trigger] row@[k] == fits(here@, name@.skip(k)),
{
    let mut row = blanks(name.len());
    let mut k: usize = name.len() + 1;
    while k > 0
        invariant
            name@.len() < usize::MAX,
            k <= name@.len() + 1,
            row@.len() == name@.len() + 1,
            below@.len() == name@.len() + 1,
            here@.len() > 0,
            here@[0] == c,
            forall|m: int|
                0 <= m <= name@.len() ==> #[trigger] below@[m] == fits(
                    here@.skip(1),
                    name@.skip(m),
                ),
            forall|m: int|
                k <= m <= name@.len() ==> #[trigger] row@[m] == fits(here@, name@.skip(m)),
        decreases k,
    {
        let at: usize = k - 1;
        let ghost left = name@.skip(at as int);
        let value = if at == name.len() {
            c == '*' && below[at]
        } else {
            assert(left[0] == name@[at as int]);
            assert(left.skip(1) =~= name@.skip(at + 1));
            if c == '*' {
                below[at] || row[at + 1]
            } else {
                name[at] == c && below[at + 1]
            }
        };
        assert(value == fits(here@, left));
        row.set(at, value);
        k = at;
    }
    row
}

/// Whether a name fits a pattern.
pub fn fit(pattern: &str, name: &str) -> (r: bool)
    requires
        name@.len() < usize::MAX,
    ensures
        r == fits(pattern@, name@),
{
    let p = chars_of(pattern);
    let n = chars_of(name);
    let mut row = blanks(n.len());
    row.set(n.len(), true);
    let mut i: usize = p.len();
    proof {
        assert forall|k: int| 0 <= k <= name@.len() implies #[trigger] row@[k] == fits(
            pattern@.skip(i as int),
            name@.skip(k),
        ) by {
            assert(pattern@.skip(i as int).len() == 0);
            assert(name@.skip(k).len() == name@.len() - k);
        }
    }
    while i > 0
        invariant
            i <= p.len(),
            p@ == pattern@,
            n@ == name@,
            name@.len() < usize::MAX,
            row@.len() == name@.len() + 1,
            forall|k: int|
                0 <= k <= name@.len() ==> #[trigger] row@[k] == fits(
                    pattern@.skip(i as int),
                    name@.skip(k),
                ),
        decreases i,
    {
        let ghost here = pattern@.skip(i - 1);
        assert(here.skip(1) =~= pattern@.skip(i as int));
        row = step(p[i - 1], &n, &row, Ghost(here));
        i = i - 1;
    }
    assert(pattern@.skip(0) =~= pattern@);
    assert(name@.skip(0) =~= name@);
    assert(row@[0] == fits(pattern@.skip(0), name@.skip(0)));
    row[0]
}

/// Whether a name fits one of the patterns.
fn fit_any(patterns: &Vec<String>, name: &str) -> (r: bool)
    requires
        name@.len() < usize::MAX,
    ensures
        r == fits_any(patterns.deep_view(), name@),
{
    let ghost all = patterns.deep_view();
    let mut i: usize = 0;
    while i < patterns.len()
        invariant
            i <= patterns.len(),
            all == patterns.deep_view(),
            name@.len() < usize::MAX,
            forall|k: int| 0 <= k < i ==> !fits(#[trigger] all[k], name@),
        decreases patterns.len() - i,
    {
        assert(all[i as int] == patterns@[i as int]@);
        if fit(patterns[i].as_str(), name) {
            return true;
        }
        i = i + 1;
    }
    false
}

impl ToolPolicy {
    pub fn new(only: Vec<String>, never: Vec<String>) -> (p: Self)
        ensures
            p.deep_view() == (ToolPolicyView {
                only: only.deep_view(),
                never: never.deep_view(),
            }),
    {
        ToolPolicy { only, never }
    }

    /// Whether it narrows nothing.
    pub fn is_open(&self) -> (r: bool)
        ensures
            r == (self.deep_view().only.len() == 0 && self.deep_view().never.len() == 0),
    {
        self.only.len() == 0 && self.never.len() == 0
    }

    /// Whether a name is admitted.
    pub fn admits(&self, name: &str) -> (r: bool)
        requires
            name@.len() < usize::MAX,
        ensures
            r == admitted(self.deep_view(), name@),
    {
        !fit_any(&self.never, name) && (self.only.len() == 0 || fit_any(&self.only, name))
    }
}

/// What is said of a narrowed catalog: the names it kept out.
pub fn catalog_note(dropped: &Vec<String>) -> (r: String)
    ensures
        r@ == (if dropped@.len() == 0 {
            NOTHING_DROPPED@
        } else {
            "TOOL CATALOG — the `tools` row was configured to keep these out of this tree, so they are not yours to call and saying you have them would be wrong: "@ + text::joined(dropped.deep_view(), ", "@) + ". The person changes that where the rows are configured, not at runtime."@
        }),
{
    if dropped.len() == 0 {
        lit(NOTHING_DROPPED)
    } else {
        lit("TOOL CATALOG — the `tools` row was configured to keep these out of this tree, so they are not yours to call and saying you have them would be wrong: ").concat(join(dropped, ", ").as_str()).concat(". The person changes that where the rows are configured, not at runtime.")
    }
}

// ---- laws -----------------------------------------------------------------

/// A name that is excluded is never admitted, whatever else is said of it; and a policy
/// that says nothing admits every name.
pub proof fn law_exclusion_wins(p: ToolPolicyView, name: Seq<char>)
    ensures
        fits_any(p.never, name) ==> !admitted(p, name),
        p.only.len() == 0 && p.never.len() == 0 ==> admitted(p, name),
{
}

/// A pattern without a star fits that name and no other.
pub proof fn law_a_plain_name_fits_itself(pattern: Seq<char>, name: Seq<char>)
    requires
        !pattern.contains('*'),
    ensures
        fits(pattern, name) <==> pattern == name,
    decreases pattern.len(),
{
    if pattern.len() == 0 {
        assert(name.len() == 0 ==> name =~= pattern);
    } else {
        assert(pattern.contains(pattern[0]));
        let rest = pattern.skip(1);
        assert forall|i: int| 0 <= i < rest.len() implies rest[i] != '*' by {
            assert(pattern.contains(pattern[i + 1]));
        }
        if name.len() > 0 {
            law_a_plain_name_fits_itself(rest, name.skip(1));
            if name[0] == pattern[0] && rest == name.skip(1) {
                assert(pattern =~= seq![pattern[0]] + rest);
                assert(name =~= seq![name[0]] + name.skip(1));
            }
        }
    }
}

/// A pattern that ends in its only star fits what begins like it.
pub proof fn law_a_star_stands_for_anything(head: Seq<char>, name: Seq<char>)
    requires
        !head.contains('*'),
    ensures
        fits(head.push('*'), name) <==> head.is_prefix_of(name),
    decreases head.len(), name.len(),
{
    let pattern = head.push('*');
    if head.len() == 0 {
        assert(pattern.skip(1).len() == 0);
        assert(head =~= name.subrange(0, 0));
        assert(fits(pattern.skip(1), name) == (name.len() == 0));
        if name.len() > 0 {
            law_a_star_stands_for_anything(head, name.skip(1));
        }
    } else {
        assert(head.contains(head[0]));
        let rest = head.skip(1);
        assert forall|i: int| 0 <= i < rest.len() implies rest[i] != '*' by {
            assert(head.contains(head[i + 1]));
        }
        assert(pattern.skip(1) =~= rest.push('*'));
        assert(pattern[0] == head[0]);
        if name.len() > 0 {
            law_a_star_stands_for_anything(rest, name.skip(1));
            if name[0] == head[0] && rest.is_prefix_of(name.skip(1)) {
                assert forall|i: int| 0 <= i < head.len() implies head[i] == name[i] by {
                    if i > 0 {
                        assert(head[i] == rest[i - 1]);
                        assert(name[i] == name.skip(1)[i - 1]);
                    }
                }
                assert(head.is_prefix_of(name));
            }
            if head.is_prefix_of(name) {
                assert forall|i: int| 0 <= i < rest.len() implies rest[i] == name.skip(1)[i] by {
                    assert(head[i + 1] == name[i + 1]);
                }
                assert(rest.is_prefix_of(name.skip(1)));
            }
        }
    }
}

} // verus!
