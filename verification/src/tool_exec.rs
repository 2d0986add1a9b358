//! Tool scheduling: how a round's calls run against each other.
//!
//! Calls that declare themselves safe to overlap do; any other runs alone. They start,
//! and their results come back, in the order they were made.
use vstd::prelude::*;

verus! {

/// The most calls that may ever overlap.
pub const CEILING: usize = 256;

pub fn default_max() -> (n: usize)
    ensures
        n == 4,
{
    4
}

/// How many calls may overlap.
pub open spec fn permits_of(max_parallel: usize) -> usize {
    if max_parallel < 1 {
        1
    } else if max_parallel > CEILING {
        CEILING
    } else {
        max_parallel
    }
}

/// A round is only scheduled where something could overlap.
pub fn overlaps(calls: usize, max_parallel: usize) -> (r: bool)
    ensures
        r == (calls > 1 && max_parallel > 1),
{
    !(calls <= 1 || max_parallel <= 1)
}

/// What becomes of the round's next call.
#[derive(Clone, Copy, Debug, PartialEq, Eq, Structural)]
pub enum Start {
    /// It has to wait, and so does every call behind it.
    Wait,
    /// The turn was cancelled: the call at this place never starts.
    Never(usize),
    /// The call at this place starts.
    Run(usize),
    /// None is left.
    Over,
}

/// The calls of a round: which may overlap, how far they have started, and what runs.
#[derive(Debug, PartialEq, Eq)]
pub struct Lanes {
    permits: usize,
    safe: Vec<bool>,
    upcoming: usize,
    sharing: usize,
    alone: bool,
}

/// What a [`Lanes`] holds.
#[verifier::ext_equal]
pub struct LanesView {
    pub most: usize,
    pub calls: Seq<bool>,
    pub next: int,
    pub beside: int,
    pub exclusive: bool,
}

/// There is room for the next call: one that is safe to overlap waits for whoever runs
/// alone and for a lane; any other waits until nothing runs.
pub open spec fn room(l: LanesView) -> bool {
    if l.calls[l.next] {
        !l.exclusive && l.beside < l.most
    } else {
        !l.exclusive && l.beside == 0
    }
}

/// What becomes of the next call.
pub open spec fn started(l: LanesView, cancelled: bool) -> (LanesView, Start) {
    if l.next >= l.calls.len() {
        (l, Start::Over)
    } else if !room(l) {
        (l, Start::Wait)
    } else if cancelled {
        (LanesView { next: l.next + 1, ..l }, Start::Never(l.next as usize))
    } else if l.calls[l.next] {
        (
            LanesView { next: l.next + 1, beside: l.beside + 1, ..l },
            Start::Run(l.next as usize),
        )
    } else {
        (LanesView { next: l.next + 1, exclusive: true, ..l }, Start::Run(l.next as usize))
    }
}

/// A call that ran is done.
pub open spec fn finished(l: LanesView, parallel_safe: bool) -> LanesView {
    if parallel_safe {
        LanesView { beside: l.beside - 1, ..l }
    } else {
        LanesView { exclusive: false, ..l }
    }
}

/// A call that runs alone runs alone, and no more run than may.
pub open spec fn apart(l: LanesView) -> bool {
    &&& 1 <= l.most
    &&& 0 <= l.next <= l.calls.len()
    &&& 0 <= l.beside <= l.most
    &&& l.exclusive ==> l.beside == 0
}

impl Lanes {
    pub open spec fn model(&self) -> LanesView {
        LanesView {
            most: self.most(),
            calls: self.calls(),
            next: self.next() as int,
            beside: self.beside() as int,
            exclusive: self.exclusive(),
        }
    }

    pub closed spec fn most(&self) -> usize {
        self.permits
    }

    /// Which of the calls say they are safe to overlap.
    pub closed spec fn calls(&self) -> Seq<bool> {
        self.safe@
    }

    /// The place of the next call to start.
    pub closed spec fn next(&self) -> usize {
        self.upcoming
    }

    /// How many calls run side by side.
    pub closed spec fn beside(&self) -> usize {
        self.sharing
    }

    /// One call runs, and nothing else.
    pub closed spec fn exclusive(&self) -> bool {
        self.alone
    }

    /// A call that runs alone runs alone, and no more run than may.
    #[verifier::type_invariant]
    pub closed spec fn kept_apart(&self) -> bool {
        &&& 1 <= self.permits
        &&& self.upcoming <= self.safe@.len()
        &&& self.sharing <= self.permits
        &&& self.alone ==> self.sharing == 0
    }

    /// Whether there is room for the next call: one that is safe to overlap waits for
    /// whoever runs alone and for a lane; any other waits until nothing runs.
    pub open spec fn has_room(&self) -> bool {
        room(self.model())
    }

    /// A round of calls, in the order they were made.
    pub fn new(max_parallel: usize, safe: Vec<bool>) -> (l: Self)
        ensures
            l.most() == permits_of(max_parallel),
            l.calls() == safe@,
            l.next() == 0,
            l.beside() == 0,
            !l.exclusive(),
    {
        let permits = if max_parallel < 1 {
            1
        } else if max_parallel > CEILING {
            CEILING
        } else {
            max_parallel
        };
        Lanes { permits, safe, upcoming: 0, sharing: 0, alone: false }
    }

    /// What becomes of the next call. Calls start in the order they were made: none
    /// overtakes one that waits.
    pub fn start(&mut self, cancelled: bool) -> (s: Start)
        ensures
            final(self).calls() == old(self).calls(),
            (final(self).model(), s) == started(old(self).model(), cancelled),
    {
        proof {
            use_type_invariant(&*self);
        }
        let i: usize = self.upcoming;
        if i >= self.safe.len() {
            return Start::Over;
        }
        let parallel_safe = self.safe[i];
        let free = if parallel_safe {
            !self.alone && self.sharing < self.permits
        } else {
            !self.alone && self.sharing == 0
        };
        if !free {
            return Start::Wait;
        }
        self.upcoming = i + 1;
        if cancelled {
            return Start::Never(i);
        }
        if parallel_safe {
            self.sharing = self.sharing + 1;
        } else {
            self.alone = true;
        }
        Start::Run(i)
    }

    /// A call that ran is done.
    pub fn done(&mut self, parallel_safe: bool)
        requires
            parallel_safe ==> old(self).beside() > 0,
        ensures
            final(self).calls() == old(self).calls(),
            final(self).model() == finished(old(self).model(), parallel_safe),
    {
        proof {
            use_type_invariant(&*self);
        }
        if parallel_safe {
            self.sharing = self.sharing - 1;
        } else {
            self.alone = false;
        }
    }

    /// Whether a call runs alone, how many run side by side, and how many may. A call
    /// that changes something never runs while anything else does, and no more calls
    /// run side by side than may.
    pub fn running(&self) -> (r: (bool, usize, usize))
        ensures
            r == (self.exclusive(), self.beside(), self.most()),
            r.0 ==> r.1 == 0,
            r.1 <= r.2,
            1 <= r.2,
    {
        proof {
            use_type_invariant(self);
        }
        (self.alone, self.sharing, self.permits)
    }
}

/// No call starves: once whatever runs is done, the next one has room, whatever waits
/// behind it.
pub proof fn law_the_next_call_is_never_starved(l: Lanes)
    requires
        l.most() >= 1,
        l.beside() == 0,
        !l.exclusive(),
    ensures
        l.has_room(),
{
}

} // verus!
