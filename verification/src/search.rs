//! The growth step: which candidate to try next, and when to stop trying.

use crate::anchor::Reroot;
use crate::conf::{PLACEMENT_ATTEMPTS, PLACEMENT_BAILOUT_THRESHOLD};
use crate::env::Env;
use crate::random::Pivot;
use rand_pcg::Pcg32;
use vstd::prelude::*;

verus! {

/// The state of one growth step.
///
/// A step is a series of rounds. A round fixes a pivot on the anchor and
/// tries `PLACEMENT_ATTEMPTS` candidates there; when all are turned down the
/// anchor moves and the next round begins. After
/// `PLACEMENT_BAILOUT_THRESHOLD` rounds the step is given up.
#[derive(Clone, Copy, Debug, PartialEq, Eq, Structural)]
pub struct Search {
    /// Whether the triangle is to take the slot under the eviction cursor.
    pub insert_at_oldest_ix: bool,
    /// Rounds that may still be opened.
    pub bailouts_left: usize,
    /// Candidates that may still be tried in the round that is open.
    pub attempts_left: usize,
    /// The pivot of the round that is open.
    pub pivot: Pivot,
    /// Whether a round was opened since the anchor last moved.
    pub reroot_due: bool,
}

/// What the driver has to do next in a growth step.
#[derive(Clone, Copy, Debug, PartialEq, Eq, Structural)]
pub enum Request {
    /// Build one candidate at this pivot of the anchor and test it. If it is
    /// accepted, place it; if not, ask again.
    Attempt(Pivot),
    /// The chain holds no triangle to grow from: draw up a fresh initial
    /// triangle, hand it to `set_initial_triangle`, and ask again.
    Initial,
    /// The step has used up its rounds. Nothing was placed.
    GiveUp,
}

impl Search {
    /// The counters are within their budgets, and a round with attempts left
    /// is a round that was opened.
    pub open spec fn wf(&self) -> bool {
        &&& self.bailouts_left <= PLACEMENT_BAILOUT_THRESHOLD
        &&& self.attempts_left <= PLACEMENT_ATTEMPTS
        &&& self.attempts_left > 0 ==> self.reroot_due
    }

    /// The number of candidates that the step may still try.
    pub open spec fn budget(&self) -> nat {
        (self.bailouts_left * PLACEMENT_ATTEMPTS + self.attempts_left) as nat
    }

    /// A growth step that has not tried anything yet.
    pub fn new(insert_at_oldest_ix: bool) -> (search: Search)
        ensures
            search.wf(),
            search == (Search {
                insert_at_oldest_ix,
                bailouts_left: PLACEMENT_BAILOUT_THRESHOLD,
                attempts_left: 0,
                pivot: Pivot::Second,
                reroot_due: false,
            }),
    {
        Search {
            insert_at_oldest_ix,
            bailouts_left: PLACEMENT_BAILOUT_THRESHOLD,
            attempts_left: 0,
            pivot: Pivot::Second,
            reroot_due: false,
        }
    }

    /// The search after it has answered with `request`: an attempt uses up
    /// one of the attempts of the open round, or opens a round at the
    /// request's pivot and uses up its first; any other answer closes the
    /// round.
    pub open spec fn after(self, request: Request) -> Search {
        match request {
            Request::Attempt(pivot) => if self.attempts_left > 0 {
                Search { attempts_left: (self.attempts_left - 1) as usize, ..self }
            } else {
                Search {
                    bailouts_left: (self.bailouts_left - 1) as usize,
                    attempts_left: (PLACEMENT_ATTEMPTS - 1) as usize,
                    pivot,
                    reroot_due: true,
                    ..self
                }
            },
            _ => Search { reroot_due: false, ..self },
        }
    }
}

/// The search for an initial triangle: a fresh one is drawn up until one is
/// free of collisions, `PLACEMENT_BAILOUT_THRESHOLD` times at most.
#[derive(Clone, Copy, Debug, PartialEq, Eq, Structural)]
pub struct InitialSearch {
    /// Triangles that may still be drawn up.
    pub attempts_left: usize,
}

impl InitialSearch {
    /// A search that has not drawn up anything yet.
    pub fn new() -> (search: InitialSearch)
        ensures
            search.attempts_left == PLACEMENT_BAILOUT_THRESHOLD,
    {
        InitialSearch { attempts_left: PLACEMENT_BAILOUT_THRESHOLD }
    }

    /// Says whether another triangle may be drawn up, and counts it if so.
    pub fn next_try(&mut self) -> (go: bool)
        ensures
            go == (old(self).attempts_left > 0),
            final(self).attempts_left == if go {
                old(self).attempts_left - 1
            } else {
                0
            },
    {
        if self.attempts_left == 0 {
            return false;
        }
        self.attempts_left -= 1;
        true
    }
}

impl Request {
    /// Whether two requests are of one kind, whatever their pivots.
    pub open spec fn same_kind(self, other: Request) -> bool {
        match self {
            Request::Attempt(_) => other is Attempt,
            Request::Initial => other is Initial,
            Request::GiveUp => other is GiveUp,
        }
    }
}

impl<G: Copy> Env<G> {
    /// What `generate_triangle` answers with, up to the pivot of a new
    /// round. The random stream has no say in it.
    pub open spec fn next_request(&self, search: Search) -> Request {
        if search.attempts_left > 0 {
            Request::Attempt(search.pivot)
        } else if search.reroot_due && self.is_empty() {
            Request::Initial
        } else if search.bailouts_left == 0 {
            Request::GiveUp
        } else {
            Request::Attempt(search.pivot)
        }
    }

    /// Whether the anchor is to move before the search goes on: it is when a
    /// round has been used up and the chain has triangles to move to.
    pub open spec fn reroot_is_due(&self, search: Search) -> bool {
        search.attempts_left == 0 && search.reroot_due && !self.is_empty()
    }
}

/// Says what the growth step does next, after every candidate so far was
/// turned down.
///
/// While the open round has attempts left, the answer is another attempt
/// at the round's pivot. When the round is used up the anchor moves to
/// another triangle, if there is one it can move to (see
/// `set_new_last_triangle`); then, if rounds are left, a pivot is drawn
/// and a new round opens with its first attempt. The arena is never
/// touched: a step that fails leaves every triangle and every link as it
/// was.
pub fn generate_triangle<G: Copy>(
    env: &mut Env<G>,
    search: &mut Search,
    rng: &mut Pcg32,
) -> (request: Request)
    requires
        old(env).wf(),
        old(search).wf(),
    ensures
        final(env).wf(),
        final(search).wf(),
        request.same_kind(old(env).next_request(*old(search))),
        old(search).attempts_left > 0 ==> request == Request::Attempt(old(search).pivot),
        *final(search) == old(search).after(request),
        request is Attempt ==> final(search).budget() + 1 == old(search).budget(),
        if old(env).reroot_is_due(*old(search)) && old(env).can_reroot() {
            old(env).rerooted(final(env))
        } else {
            *final(env) == *old(env)
        },
{
    if search.attempts_left > 0 {
        search.attempts_left -= 1;
        return Request::Attempt(search.pivot);
    }
    if search.reroot_due {
        search.reroot_due = false;
        match env.set_new_last_triangle(rng) {
            Reroot::NeedsInitial => {
                return Request::Initial;
            },
            _ => {},
        }
    }
    if search.bailouts_left == 0 {
        return Request::GiveUp;
    }
    search.bailouts_left -= 1;
    search.pivot = Pivot::draw(rng);
    search.attempts_left = PLACEMENT_ATTEMPTS - 1;
    search.reroot_due = true;
    Request::Attempt(search.pivot)
}

} // verus!
