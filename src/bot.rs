//! The tick driver: each tick takes what the session returned from one poll,
//! handles every event in order, lets at most one held-back action out, and
//! moves the clock on by one fixed period.

use vstd::prelude::*;
use crate::dispatch::{drained, window_open, Dispatcher, DispatcherView};
use crate::roster::{Roster, RosterView, Secrets, roster_of};
use crate::router::{route, route_outcome, Event, RouteError};
use crate::session::{action_views, affects_group, Action, ActionView, PlayerEntry, Snapshot};

verus! {

/// What one poll of the session gave.
pub enum Poll {
    /// The events since the last poll, in arrival order.
    Events(Vec<Event>),
    /// The poll failed, but the session goes on.
    Failed,
    /// The session is over.
    Ended,
}

/// A problem met in one tick; none of them stops the bot.
#[derive(PartialEq, Eq, Structural, Clone, Copy, Debug)]
pub enum TickError {
    PollFailed,
    Route(RouteError),
}

/// What one tick did: the actions to send now, in order, the problems met, and
/// whether the bot goes on.
pub struct TickReport {
    pub sends: Vec<Action>,
    pub errors: Vec<TickError>,
    pub running: bool,
}

/// The actions of `acts` that change the group, in order.
pub open spec fn held(acts: Seq<ActionView>) -> Seq<ActionView>
    decreases acts.len(),
{
    if acts.len() == 0 {
        seq![]
    } else if affects_group(acts.last()) {
        held(acts.drop_last()).push(acts.last())
    } else {
        held(acts.drop_last())
    }
}

/// The actions of `acts` that do not change the group, in order.
pub open spec fn immediate(acts: Seq<ActionView>) -> Seq<ActionView>
    decreases acts.len(),
{
    if acts.len() == 0 {
        seq![]
    } else if affects_group(acts.last()) {
        immediate(acts.drop_last())
    } else {
        immediate(acts.drop_last()).push(acts.last())
    }
}

/// The roster, the queue, the tick clock and its period, in milliseconds.
pub ghost struct BotView {
    pub roster: RosterView,
    pub queue: DispatcherView,
    pub clock: u64,
    pub period: u64,
}

/// What handling `events` in order does: the roster and queue after them, the
/// actions to send at once, and the errors, each in order. An event that
/// fails changes nothing.
pub open spec fn handle_all(
    r: RosterView,
    q: DispatcherView,
    players: Seq<PlayerEntry>,
    group: Seq<u64>,
    events: Seq<Event>,
) -> (RosterView, DispatcherView, Seq<ActionView>, Seq<RouteError>)
    decreases events.len(),
{
    if events.len() == 0 {
        (r, q, seq![], seq![])
    } else {
        let prev = handle_all(r, q, players, group, events.drop_last());
        match route_outcome(prev.0, players, group, &events.last()) {
            Ok(o) => (
                o.0,
                DispatcherView { pending: prev.1.pending + held(o.1), ..prev.1 },
                prev.2 + immediate(o.1),
                prev.3,
            ),
            Err(e) => (prev.0, prev.1, prev.2, prev.3.push(e)),
        }
    }
}

/// The errors of a tick that come from its events.
pub open spec fn route_errors(s: Seq<RouteError>) -> Seq<TickError> {
    s.map_values(|e: RouteError| TickError::Route(e))
}

/// No action, or the one there is.
pub open spec fn opt_seq(d: Option<ActionView>) -> Seq<ActionView> {
    match d {
        Some(a) => seq![a],
        None => seq![],
    }
}

/// The clock one period on, held at the largest time it can show.
pub open spec fn next_clock(v: BotView) -> u64 {
    if v.clock + v.period > u64::MAX {
        u64::MAX
    } else {
        (v.clock + v.period) as u64
    }
}

/// What a tick on the events `es` does to the bot `v`: the state after it,
/// the actions sent, in order, and the errors met.
pub open spec fn tick_outcome(
    v: BotView,
    players: Seq<PlayerEntry>,
    group: Seq<u64>,
    es: Seq<Event>,
) -> (BotView, Seq<ActionView>, Seq<TickError>) {
    let h = handle_all(v.roster, v.queue, players, group, es);
    let d = drained(h.1, v.clock);
    (
        BotView { roster: h.0, queue: d.0, clock: next_clock(v), period: v.period },
        h.2 + opt_seq(d.1),
        route_errors(h.3),
    )
}

/// A tick with no events sends at most one action, the oldest queued one, and
/// only once a window has opened; that starts the next window at the tick's
/// clock. So of actions queued in one window, one leaves per window, in the
/// order they were queued.
pub proof fn lemma_tick_one_per_window(v: BotView, players: Seq<PlayerEntry>, group: Seq<u64>)
    ensures
        ({
            let t = tick_outcome(v, players, group, seq![]);
            &&& t.1.len() <= 1
            &&& t.0.clock == next_clock(v)
            &&& t.0.roster == v.roster
            &&& !window_open(v.queue, v.clock) ==> t.1.len() == 0 && t.0.queue == v.queue
            &&& window_open(v.queue, v.clock) && v.queue.pending.len() > 0 ==> {
                &&& t.1 == seq![v.queue.pending[0]]
                &&& t.0.queue.pending == v.queue.pending.drop_first()
                &&& t.0.queue.last == v.clock
            }
        }),
{
    let h = handle_all(v.roster, v.queue, players, group, seq![]);
    assert(h.2 == Seq::<ActionView>::empty());
    let d = drained(h.1, v.clock);
    assert(h.2 + opt_seq(d.1) =~= opt_seq(d.1));
}

/// The runtime state of the bot apart from the session itself.
pub struct Bot {
    roster: Roster,
    dispatcher: Dispatcher,
    clock: u64,
    period: u64,
}

impl View for Bot {
    type V = BotView;

    closed spec fn view(&self) -> BotView {
        BotView {
            roster: self.roster@,
            queue: self.dispatcher@,
            clock: self.clock,
            period: self.period,
        }
    }
}

/// Hands each of `acts` to the dispatcher: sends what goes at once, queues the rest.
fn submit_all(d: &mut Dispatcher, acts: Vec<Action>, sends: &mut Vec<Action>)
    ensures
        final(d)@ == (DispatcherView { pending: old(d)@.pending + held(action_views(acts@)), ..old(d)@ }),
        action_views(final(sends)@) == action_views(old(sends)@) + immediate(action_views(acts@)),
{
    let ghost all = action_views(acts@);
    let ghost d0 = d@;
    let ghost s0 = action_views(sends@);
    let mut acts = acts;
    let ghost orig = acts@;
    let n = acts.len();
    let mut i: usize = 0;
    proof {
        assert(all.take(0) =~= Seq::<ActionView>::empty());
        assert(d0.pending + held(seq![]) =~= d0.pending);
        assert(s0 + immediate(seq![]) =~= s0);
    }
    while acts.len() > 0
        invariant
            i + acts@.len() == all.len() == n,
            all == action_views(orig),
            acts@ == orig.skip(i as int),
            d@ == (DispatcherView { pending: d0.pending + held(all.take(i as int)), ..d0 }),
            action_views(sends@) == s0 + immediate(all.take(i as int)),
        decreases acts@.len(),
    {
        let a = acts.remove(0);
        proof {
            assert(a@ == all[i as int]);
            assert(acts@ =~= orig.skip(i + 1));
            assert(all.take(i + 1).drop_last() =~= all.take(i as int));
            assert(all.take(i + 1).last() == a@);
        }
        let ghost av = a@;
        match d.submit(a) {
            Some(now) => {
                let ghost before = sends@;
                sends.push(now);
                proof {
                    assert(action_views(sends@) =~= action_views(before).push(av));
                }
            },
            None => {
                proof {
                    assert(d0.pending + held(all.take(i as int)).push(av) =~= (d0.pending + held(
                        all.take(i as int),
                    )).push(av));
                }
            },
        }
        i = i + 1;
    }
    proof {
        assert(all.take(i as int) =~= all);
    }
}

impl Bot {
    /// A bot with the roster that `record` holds, an empty queue whose first
    /// window opens `interval` milliseconds in, and a clock at zero that moves
    /// `period` milliseconds each tick.
    pub fn new(record: &Secrets, period: u64, interval: u64) -> (r: Bot)
        ensures
            r@.roster == roster_of(record),
            r@.queue.pending.len() == 0,
            r@.queue.last == 0,
            r@.queue.interval == interval,
            r@.clock == 0,
            r@.period == period,
    {
        Bot { roster: Roster::load(record), dispatcher: Dispatcher::new(0, interval), clock: 0, period }
    }

    /// Runs one tick on what one poll of the session gave, against the live
    /// state `snap`: handles each event in order, lets at most one queued
    /// action out if a window has opened, and moves the clock on one period.
    /// A failed poll only moves the clock on: nothing is sent and the queue
    /// waits for the next tick. When the session is over nothing else happens
    /// and the bot stops.
    pub fn tick(&mut self, poll: Poll, snap: &Snapshot) -> (r: TickReport)
        ensures
            match poll {
                Poll::Ended => !r.running && r.sends@.len() == 0 && r.errors@.len() == 0
                    && final(self)@ == old(self)@,
                Poll::Failed => {
                    &&& r.running
                    &&& r.errors@ == seq![TickError::PollFailed]
                    &&& r.sends@.len() == 0
                    &&& final(self)@ == (BotView { clock: next_clock(old(self)@), ..old(self)@ })
                },
                Poll::Events(es) => {
                    let t = tick_outcome(old(self)@, snap.players@, snap.group@, es@);
                    &&& r.running
                    &&& final(self)@ == t.0
                    &&& action_views(r.sends@) == t.1
                    &&& r.errors@ == t.2
                },
            },
    {
        let mut sends: Vec<Action> = Vec::new();
        let mut errors: Vec<TickError> = Vec::new();
        proof {
            assert(action_views(sends@) =~= Seq::<ActionView>::empty());
        }
        match poll {
            Poll::Ended => {
                return TickReport { sends, errors, running: false };
            },
            Poll::Failed => {
                errors.push(TickError::PollFailed);
                self.clock = self.clock.saturating_add(self.period);
                return TickReport { sends, errors, running: true };
            },
            Poll::Events(es) => {
                let ghost r0 = self.roster@;
                let ghost q0 = self.dispatcher@;
                let mut i: usize = 0;
                proof {
                    assert(es@.take(0) =~= Seq::<Event>::empty());
                    assert(route_errors(seq![]) =~= Seq::<TickError>::empty());
                }
                while i < es.len()
                    invariant
                        i <= es@.len(),
                        self.clock == old(self).clock,
                        self.period == old(self).period,
                        ({
                            let h = handle_all(r0, q0, snap.players@, snap.group@, es@.take(i as int));
                            &&& self.roster@ == h.0
                            &&& self.dispatcher@ == h.1
                            &&& action_views(sends@) == h.2
                            &&& errors@ == route_errors(h.3)
                        }),
                    decreases es@.len() - i,
                {
                    proof {
                        assert(es@.take(i + 1).drop_last() =~= es@.take(i as int));
                        assert(es@.take(i + 1).last() == es@[i as int]);
                    }
                    let ghost h = handle_all(r0, q0, snap.players@, snap.group@, es@.take(i as int));
                    match route(&mut self.roster, snap, &es[i]) {
                        Ok(acts) => {
                            submit_all(&mut self.dispatcher, acts, &mut sends);
                        },
                        Err(e) => {
                            errors.push(TickError::Route(e));
                            proof {
                                assert(route_errors(h.3.push(e)) =~= route_errors(h.3).push(
                                    TickError::Route(e),
                                ));
                            }
                        },
                    }
                    i = i + 1;
                }
                proof {
                    assert(es@.take(es@.len() as int) =~= es@);
                }
            },
        }
        let ghost before = action_views(sends@);
        match self.dispatcher.drain(self.clock) {
            Some(a) => {
                sends.push(a);
                proof {
                    assert(action_views(sends@) =~= before + seq![a@]);
                }
            },
            None => {
                proof {
                    assert(action_views(sends@) =~= before + Seq::<ActionView>::empty());
                }
            },
        }
        self.clock = self.clock.saturating_add(self.period);
        TickReport { sends, errors, running: true }
    }

    /// The roster.
    pub fn roster(&self) -> (r: &Roster)
        ensures
            r@ == self@.roster,
    {
        &self.roster
    }

    /// How many actions wait in the queue.
    pub fn pending_len(&self) -> (r: usize)
        ensures
            r == self@.queue.pending.len(),
    {
        self.dispatcher.pending_len()
    }

    /// `stored`, the record as the store holds it now, with the roster's two
    /// lists put in and every other field kept: what a save writes back.
    pub fn merged_record(&self, stored: Secrets) -> (r: Secrets)
        ensures
            r.username == stored.username,
            r.password == stored.password,
            r.character == stored.character,
            roster_of(&r) == self@.roster,
    {
        self.roster.store_into(stored)
    }
}

} // verus!
