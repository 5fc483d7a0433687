//! The rebuild trigger: file changes are coalesced until a quiet period
//! has passed, and at most one build runs at a time.
use vstd::prelude::*;
use crate::route::{HandlerKind, RouteDecl, paths_view};

verus! {

/// The state of the rebuild trigger. Times are in milliseconds.
#[derive(PartialEq, Eq, Structural, Clone, Copy, Debug)]
pub struct Debouncer {
    /// How long the sources must stay unchanged before a build starts.
    pub window: u64,
    /// When the latest change not yet built was seen.
    pub last_change: Option<u64>,
    /// Whether a build is running.
    pub building: bool,
}

/// The trigger after a change seen at `now`.
pub open spec fn after_change(d: Debouncer, now: u64) -> Debouncer {
    Debouncer { last_change: Some(now), ..d }
}

/// Whether a build is due at `now`: none is running and the latest change
/// has been followed by a full quiet window.
pub open spec fn build_due(d: Debouncer, now: u64) -> bool {
    &&& !d.building
    &&& d.last_change matches Some(t) && t + d.window <= now
}

/// The trigger after the clock reached `now`, and whether a build starts.
pub open spec fn after_tick(d: Debouncer, now: u64) -> (Debouncer, bool) {
    if build_due(d, now) {
        (Debouncer { last_change: None, building: true, ..d }, true)
    } else {
        (d, false)
    }
}

/// The trigger once the running build has finished.
pub open spec fn after_finish(d: Debouncer) -> Debouncer {
    Debouncer { building: false, ..d }
}

impl Debouncer {
    /// An idle trigger with the given quiet window.
    pub fn new(window: u64) -> (r: Debouncer)
        ensures
            r == (Debouncer { window, last_change: None, building: false }),
    {
        Debouncer { window, last_change: None, building: false }
    }

    /// Records a change seen at `now`; a change during a build is kept for
    /// the next one.
    pub fn on_change(&mut self, now: u64)
        ensures
            *final(self) == after_change(*old(self), now),
    {
        self.last_change = Some(now);
    }

    /// Advances the clock to `now`; returns whether a build starts.
    pub fn on_tick(&mut self, now: u64) -> (r: bool)
        ensures
            (*final(self), r) == after_tick(*old(self), now),
    {
        if self.building {
            return false;
        }
        match self.last_change {
            Some(t) => {
                if now >= t && now - t >= self.window {
                    self.last_change = None;
                    self.building = true;
                    true
                } else {
                    false
                }
            },
            None => false,
        }
    }

    /// Records that the running build has finished.
    pub fn on_build_finished(&mut self)
        ensures
            *final(self) == after_finish(*old(self)),
    {
        self.building = false;
    }
}

/// The filesystem path that a declaration serves from, if any.
pub open spec fn served_path(d: RouteDecl) -> Option<Seq<char>> {
    match d.handler {
        HandlerKind::StaticDir(p) => Some(p@),
        HandlerKind::StaticFile(p) => Some(p@),
        _ => None,
    }
}

/// The paths served by the first `n` declarations, in declaration order.
pub open spec fn served_paths(decls: Seq<RouteDecl>, n: int) -> Seq<Seq<char>>
    decreases n,
{
    if n <= 0 {
        Seq::empty()
    } else {
        match served_path(decls[n - 1]) {
            Some(p) => served_paths(decls, n - 1).push(p),
            None => served_paths(decls, n - 1),
        }
    }
}

/// The static-asset paths that the routes serve from, which the watcher
/// observes besides the configuration and the templates.
pub fn asset_roots(decls: &Vec<RouteDecl>) -> (r: Vec<String>)
    ensures
        paths_view(r@) == served_paths(decls@, decls@.len() as int),
{
    let mut out: Vec<String> = Vec::new();
    let mut i: usize = 0;
    while i < decls.len()
        invariant
            i <= decls@.len(),
            paths_view(out@) == served_paths(decls@, i as int),
        decreases decls@.len() - i,
    {
        let ghost before = out@;
        match &decls[i].handler {
            HandlerKind::StaticDir(p) => {
                out.push(p.clone());
                assert(paths_view(out@) =~= paths_view(before).push(p@));
            },
            HandlerKind::StaticFile(p) => {
                out.push(p.clone());
                assert(paths_view(out@) =~= paths_view(before).push(p@));
            },
            _ => {},
        }
        i = i + 1;
    }
    out
}

/// A burst of two changes, with nothing changing after it, starts exactly
/// one build: the first tick past the quiet window starts it, and no later
/// tick starts another, whether or not the build has finished by then.
pub proof fn lemma_burst_builds_once(d: Debouncer, t1: u64, t2: u64, u1: u64, u2: u64, finished: bool)
    requires
        !d.building,
        t1 <= t2,
        t2 <= u1 <= u2,
    ensures
        ({
            let d2 = after_change(after_change(d, t1), t2);
            let (d3, b1) = after_tick(d2, u1);
            let d4 = if finished {
                after_finish(d3)
            } else {
                d3
            };
            let (_, b2) = after_tick(d4, u2);
            &&& b1 <==> t2 + d.window <= u1
            &&& !(b1 && b2)
            &&& t2 + d.window <= u2 ==> (b1 || b2)
        }),
{
}

} // verus!
