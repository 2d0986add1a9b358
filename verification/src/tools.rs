//! The tool catalog: mounting tools, and taking them out again.
use crate::table::Names;
use vstd::prelude::*;

verus! {

/// What the model is told about the local file tools.
pub const FS_PROMPT: &'static str = "Read a file before editing it. Prefer `edit_file` over rewriting a whole file with `write_file`, and prefer `grep`/`glob` over listing directories by hand.";

pub const BASH_PROMPT: &'static str = "Use `bash` for builds, tests, and git. Quote paths that contain spaces.";

pub const AST_GREP_PROMPT: &'static str = "Use `ast_grep` when you are looking for a code *shape* rather than a string — a call pattern, a construct, an idiom.";

pub const SEARCH_PROMPT: &'static str = "Prefer `grep`/`glob` over listing directories by hand when you are looking for something by name or content.";

/// How many tools can be mounted before one whose name is taken.
pub open spec fn room_for(catalog: Set<Seq<char>>, tools: Seq<Seq<char>>) -> nat
    decreases tools.len(),
{
    if tools.len() == 0 || catalog.contains(tools[0]) {
        0
    } else {
        1 + room_for(catalog.insert(tools[0]), tools.skip(1))
    }
}

/// The catalog with the first `n` of the tools.
pub open spec fn with_tools(catalog: Set<Seq<char>>, tools: Seq<Seq<char>>, n: nat) -> Set<Seq<char>>
    decreases n,
{
    if n == 0 {
        catalog
    } else {
        with_tools(catalog, tools, (n - 1) as nat).insert(tools[n - 1])
    }
}

proof fn lemma_room(catalog: Set<Seq<char>>, tools: Seq<Seq<char>>, n: int)
    requires
        0 <= n <= tools.len(),
        forall|i: int|
            0 <= i < n ==> !with_tools(catalog, tools, i as nat).contains(#[trigger] tools[i]),
        n < tools.len() ==> with_tools(catalog, tools, n as nat).contains(tools[n]),
    ensures
        room_for(catalog, tools) == n,
    decreases tools.len(),
{
    if n > 0 {
        assert(!with_tools(catalog, tools, 0).contains(tools[0]));
        let rest = tools.skip(1);
        let c = catalog.insert(tools[0]);
        assert forall|i: int| 0 <= i < n - 1 implies !with_tools(c, rest, i as nat).contains(
            #[trigger] rest[i],
        ) by {
            lemma_shift(catalog, tools, i as nat);
            assert(rest[i] == tools[i + 1]);
        }
        if n < tools.len() {
            lemma_shift(catalog, tools, (n - 1) as nat);
            assert(rest[n - 1] == tools[n]);
        }
        lemma_room(c, rest, n - 1);
    } else if tools.len() > 0 {
        assert(with_tools(catalog, tools, 0) == catalog);
    }
}

proof fn lemma_shift(catalog: Set<Seq<char>>, tools: Seq<Seq<char>>, i: nat)
    requires
        i + 1 <= tools.len(),
    ensures
        with_tools(catalog.insert(tools[0]), tools.skip(1), i) == with_tools(
            catalog,
            tools,
            i + 1,
        ),
    decreases i,
{
    if i == 0 {
        assert(with_tools(catalog, tools, 0) == catalog);
        reveal_with_fuel(with_tools, 2);
    } else {
        lemma_shift(catalog, tools, (i - 1) as nat);
        assert(tools.skip(1)[i - 1] == tools[i as int]);
    }
}

/// Puts tools into the catalog, in order, until one whose name is taken. How many went
/// in: all of them where every name was free.
pub fn mount(catalog: &mut Names, tools: &Vec<String>) -> (n: usize)
    ensures
        n == room_for(old(catalog)@, tools.deep_view()),
        n <= tools.len(),
        final(catalog)@ == with_tools(old(catalog)@, tools.deep_view(), n as nat),
{
    let ghost start = catalog@;
    let ghost all = tools.deep_view();
    let mut n: usize = 0;
    while n < tools.len()
        invariant
            n <= tools.len(),
            all == tools.deep_view(),
            start == old(catalog)@,
            catalog@ == with_tools(start, all, n as nat),
            forall|i: int|
                0 <= i < n ==> !with_tools(start, all, i as nat).contains(#[trigger] all[i]),
        decreases tools.len() - n,
    {
        assert(all[n as int] == tools@[n as int]@);
        if catalog.contains(tools[n].as_str()) {
            proof {
                lemma_room(start, all, n as int);
            }
            return n;
        }
        let _ = catalog.insert(tools[n].clone());
        n = n + 1;
    }
    proof {
        lemma_room(start, all, n as int);
    }
    n
}

/// [`mount`] where the catalog is optional: without one there is nothing to put tools
/// into, which is no error.
pub fn mount_optional(catalog: &mut Option<Names>, tools: &Vec<String>) -> (n: Option<usize>)
    ensures
        match *old(catalog) {
            Some(c) => {
                &&& n matches Some(k) && k == room_for(c@, tools.deep_view())
                &&& *final(catalog) matches Some(d) && d@ == with_tools(
                    c@,
                    tools.deep_view(),
                    room_for(c@, tools.deep_view()),
                )
            },
            None => n is None && *final(catalog) is None,
        },
{
    match catalog {
        Some(c) => Some(mount(c, tools)),
        None => None,
    }
}

/// Takes the first `n` of the tools out of the catalog again.
pub fn unmount(catalog: &mut Names, tools: &Vec<String>, n: usize)
    requires
        n <= tools.len(),
    ensures
        final(catalog)@ == old(catalog)@.difference(tools.deep_view().take(n as int).to_set()),
{
    let ghost start = catalog@;
    let ghost all = tools.deep_view();
    let mut i: usize = 0;
    assert(catalog@ =~= start.difference(all.take(0).to_set()));
    while i < n
        invariant
            i <= n <= tools.len(),
            all == tools.deep_view(),
            catalog@ == start.difference(all.take(i as int).to_set()),
        decreases n - i,
    {
        let ghost before = catalog@;
        let _ = catalog.remove(tools[i].as_str());
        proof {
            let was = all.take(i as int);
            let now = all.take(i + 1);
            assert forall|x: Seq<char>| now.to_set().contains(x) <==> was.to_set().contains(x) || x
                == all[i as int] by {
                if was.to_set().contains(x) {
                    let k = choose|k: int| 0 <= k < was.len() && was[k] == x;
                    assert(now[k] == x);
                }
                if x == all[i as int] {
                    assert(now[i as int] == x);
                }
                if now.to_set().contains(x) {
                    let k = choose|k: int| 0 <= k < now.len() && now[k] == x;
                    if k < i {
                        assert(was[k] == x);
                    }
                }
            }
            assert(catalog@ =~= start.difference(now.to_set()));
        }
        i = i + 1;
    }
}

/// A mount leaves nothing behind: taking out what went in gives back the catalog as it
/// was.
pub proof fn law_unmounting_undoes_mounting(catalog: Set<Seq<char>>, tools: Seq<Seq<char>>)
    ensures
        ({
            let n = room_for(catalog, tools);
            &&& n <= tools.len()
            &&& with_tools(catalog, tools, n).difference(tools.take(n as int).to_set()) == catalog
        }),
{
    let n = room_for(catalog, tools);
    lemma_room_is_free(catalog, tools);
    lemma_with_tools(catalog, tools, n);
    let taken = tools.take(n as int).to_set();
    assert forall|x: Seq<char>| catalog.contains(x) implies !taken.contains(x) by {
        if taken.contains(x) {
            let k = choose|k: int| 0 <= k < tools.take(n as int).len() && tools.take(n as int)[k] == x;
            assert(tools[k] == x);
            lemma_with_tools(catalog, tools, k as nat);
            assert(!with_tools(catalog, tools, k as nat).contains(tools[k]));
        }
    }
    assert(with_tools(catalog, tools, n).difference(taken) =~= catalog);
}

proof fn lemma_room_is_free(catalog: Set<Seq<char>>, tools: Seq<Seq<char>>)
    ensures
        room_for(catalog, tools) <= tools.len(),
        forall|i: int|
            0 <= i < room_for(catalog, tools) ==> !with_tools(catalog, tools, i as nat).contains(
                #[trigger] tools[i],
            ),
    decreases tools.len(),
{
    if tools.len() > 0 && !catalog.contains(tools[0]) {
        let rest = tools.skip(1);
        let c = catalog.insert(tools[0]);
        lemma_room_is_free(c, rest);
        assert forall|i: int| 0 <= i < room_for(catalog, tools) implies !with_tools(
            catalog,
            tools,
            i as nat,
        ).contains(#[trigger] tools[i]) by {
            if i > 0 {
                lemma_shift(catalog, tools, (i - 1) as nat);
                assert(rest[i - 1] == tools[i]);
            }
        }
    }
}

proof fn lemma_with_tools(catalog: Set<Seq<char>>, tools: Seq<Seq<char>>, n: nat)
    requires
        n <= tools.len(),
    ensures
        forall|x: Seq<char>|
            with_tools(catalog, tools, n).contains(x) <==> catalog.contains(x) || tools.take(
                n as int,
            ).to_set().contains(x),
    decreases n,
{
    if n == 0 {
        assert(tools.take(0).to_set() =~= Set::<Seq<char>>::empty());
    } else {
        lemma_with_tools(catalog, tools, (n - 1) as nat);
        let was = tools.take(n - 1);
        let now = tools.take(n as int);
        assert forall|x: Seq<char>| now.to_set().contains(x) <==> was.to_set().contains(x) || x
            == tools[n - 1] by {
            if was.to_set().contains(x) {
                let k = choose|k: int| 0 <= k < was.len() && was[k] == x;
                assert(now[k] == x);
            }
            if x == tools[n - 1] {
                assert(now[n - 1] == x);
            }
            if now.to_set().contains(x) {
                let k = choose|k: int| 0 <= k < now.len() && now[k] == x;
                if k < n - 1 {
                    assert(was[k] == x);
                }
            }
        }
    }
}

} // verus!
