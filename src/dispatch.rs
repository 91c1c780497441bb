//! Sending actions at a limited rate: actions that change the group wait in a
//! first-in, first-out queue, and at most one of them leaves it per interval;
//! every other action goes out at once.

use std::collections::VecDeque;
use vstd::prelude::*;
use crate::session::{action_views, affects_group, Action, ActionView};

verus! {

/// The queue, the time the last window opened, and the window's length, all
/// times in milliseconds of the tick clock.
pub ghost struct DispatcherView {
    pub pending: Seq<ActionView>,
    pub last: u64,
    pub interval: u64,
}

/// Whether a new window has opened at `now`.
pub open spec fn window_open(v: DispatcherView, now: u64) -> bool {
    now >= v.last && now - v.last >= v.interval
}

/// What a drain at `now` does: the state after it and the action it lets out.
pub open spec fn drained(v: DispatcherView, now: u64) -> (DispatcherView, Option<ActionView>) {
    if !window_open(v, now) {
        (v, None)
    } else if v.pending.len() == 0 {
        (DispatcherView { last: now, ..v }, None)
    } else {
        (DispatcherView { pending: v.pending.drop_first(), last: now, ..v }, Some(v.pending[0]))
    }
}

/// Holds back the actions that change the group and lets them out one per window.
pub struct Dispatcher {
    pending: VecDeque<Action>,
    last: u64,
    interval: u64,
}

impl View for Dispatcher {
    type V = DispatcherView;

    closed spec fn view(&self) -> DispatcherView {
        DispatcherView { pending: action_views(self.pending@), last: self.last, interval: self.interval }
    }
}

impl Dispatcher {
    /// An empty queue whose first window opens at `start`.
    pub fn new(start: u64, interval: u64) -> (r: Dispatcher)
        ensures
            r@.pending.len() == 0,
            r@.last == start,
            r@.interval == interval,
    {
        proof {
            assert(action_views(Seq::<Action>::empty()) =~= Seq::<ActionView>::empty());
        }
        Dispatcher { pending: VecDeque::new(), last: start, interval }
    }

    /// Queues `a` if it changes the group; hands it back, to be sent now, if not.
    pub fn submit(&mut self, a: Action) -> (r: Option<Action>)
        ensures
            affects_group(a@) ==> r is None && final(self)@ == (DispatcherView {
                pending: old(self)@.pending.push(a@),
                ..old(self)@
            }),
            !affects_group(a@) ==> r is Some && r->Some_0@ == a@ && final(self)@ == old(self)@,
    {
        match a {
            Action::SendGroupInvite(_) | Action::RemoveFromGroup(_) => {
                let ghost before = self.pending@;
                let ghost av = a@;
                self.pending.push_back(a);
                proof {
                    assert(action_views(self.pending@) =~= action_views(before).push(av));
                }
                None
            },
            _ => Some(a),
        }
    }

    /// At `now`, if a window has opened, lets the oldest queued action out and
    /// starts the next window.
    pub fn drain(&mut self, now: u64) -> (r: Option<Action>)
        ensures
            final(self)@ == drained(old(self)@, now).0,
            match drained(old(self)@, now).1 {
                Some(x) => r is Some && r->Some_0@ == x,
                None => r is None,
            },
    {
        if !(now >= self.last && now - self.last >= self.interval) {
            return None;
        }
        self.last = now;
        let ghost before = self.pending@;
        let a = self.pending.pop_front();
        proof {
            if before.len() > 0 {
                assert(action_views(self.pending@) =~= action_views(before).drop_first());
            }
        }
        a
    }

    /// How many actions wait.
    pub fn pending_len(&self) -> (r: usize)
        ensures
            r == self@.pending.len(),
    {
        self.pending.len()
    }
}

/// With two group actions `a` and `b` queued in that order and nothing
/// before them, the first open window lets out `a` alone, no drain before the
/// next window lets out anything, and the next window lets out `b`.
pub proof fn lemma_one_per_window(
    v: DispatcherView,
    a: ActionView,
    b: ActionView,
    t1: u64,
    t2: u64,
    t3: u64,
)
    requires
        v.pending == seq![a, b],
        window_open(v, t1),
        t1 <= t2,
        t2 - t1 < v.interval,
        t3 >= t1,
        t3 - t1 >= v.interval,
    ensures
        drained(v, t1).1 == Some(a),
        drained(drained(v, t1).0, t2).1 is None,
        drained(drained(v, t1).0, t2).0 == drained(v, t1).0,
        drained(drained(drained(v, t1).0, t2).0, t3).1 == Some(b),
{
    assert(seq![a, b].drop_first() =~= seq![b]);
}

} // verus!
