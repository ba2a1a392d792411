//! Per-sandbox live-session counters backing the concurrent-session cap.

use vstd::hash_map::StringHashMap;
use vstd::prelude::*;

verus! {

/// Counts the live terminal sessions of each sandbox.
pub struct TerminalSessionTracker {
    counts: StringHashMap<usize>,
}

/// One session slot of a sandbox. It is handed out by
/// [`TerminalSessionTracker::acquire`] alone and given back, once, to
/// [`TerminalSessionTracker::release`].
#[derive(Debug)]
pub struct TerminalSessionGuard {
    sandbox_id: String,
}

impl View for TerminalSessionGuard {
    type V = Seq<char>;

    /// The sandbox that the slot belongs to.
    closed spec fn view(&self) -> Seq<char> {
        self.sandbox_id@
    }
}

impl TerminalSessionTracker {
    /// The counters as they are stored; a sandbox without one has no session.
    pub closed spec fn counters(&self) -> Map<Seq<char>, usize> {
        self.counts@
    }

    /// How many sessions the sandbox has.
    pub open spec fn live(&self, sandbox_id: Seq<char>) -> nat {
        live_in(self.counters(), sandbox_id)
    }
}

/// How many sessions `counters` records for the sandbox.
pub open spec fn live_in(counters: Map<Seq<char>, usize>, sandbox_id: Seq<char>) -> nat {
    if counters.contains_key(sandbox_id) {
        counters[sandbox_id] as nat
    } else {
        0
    }
}

/// The counters after a slot was asked for under the cap `max`.
pub open spec fn counters_acquired(
    counters: Map<Seq<char>, usize>,
    sandbox_id: Seq<char>,
    max: usize,
) -> Map<Seq<char>, usize> {
    if live_in(counters, sandbox_id) < max {
        counters.insert(sandbox_id, (live_in(counters, sandbox_id) + 1) as usize)
    } else {
        counters.insert(sandbox_id, live_in(counters, sandbox_id) as usize)
    }
}

/// The counters after a slot was given back.
pub open spec fn counters_released(
    counters: Map<Seq<char>, usize>,
    sandbox_id: Seq<char>,
) -> Map<Seq<char>, usize> {
    if live_in(counters, sandbox_id) > 1 {
        counters.insert(sandbox_id, (live_in(counters, sandbox_id) - 1) as usize)
    } else {
        counters.remove(sandbox_id)
    }
}

impl TerminalSessionTracker {
    /// A tracker without any session.
    pub fn new() -> (tracker: TerminalSessionTracker)
        ensures
            tracker.counters() == Map::<Seq<char>, usize>::empty(),
    {
        TerminalSessionTracker { counts: StringHashMap::new() }
    }

    /// How many sessions the sandbox has.
    pub fn live_sessions(&self, sandbox_id: &str) -> (count: usize)
        ensures
            count == self.live(sandbox_id@),
    {
        match self.counts.get(sandbox_id) {
            Some(count) => *count,
            None => 0,
        }
    }

    /// Take a session slot for `sandbox_id`, or return None when the sandbox
    /// already runs `max` live sessions.
    pub fn acquire(&mut self, sandbox_id: &str, max: usize) -> (slot: Option<TerminalSessionGuard>)
        ensures
            final(self).counters() == counters_acquired(old(self).counters(), sandbox_id@, max),
            slot is Some <==> old(self).live(sandbox_id@) < max,
            slot matches Some(guard) ==> guard@ == sandbox_id@,
    {
        let count = self.live_sessions(sandbox_id);
        if count >= max {
            self.counts.insert(sandbox_id.to_owned(), count);
            return None;
        }
        self.counts.insert(sandbox_id.to_owned(), count + 1);
        Some(TerminalSessionGuard { sandbox_id: sandbox_id.to_owned() })
    }

    /// Give a session slot back.
    pub fn release(&mut self, guard: TerminalSessionGuard)
        ensures
            final(self).counters() == counters_released(old(self).counters(), guard@),
    {
        let count = self.live_sessions(guard.sandbox_id.as_str());
        if count > 1 {
            self.counts.insert(guard.sandbox_id, count - 1);
        } else {
            self.counts.remove(guard.sandbox_id.as_str());
        }
    }
}

impl Default for TerminalSessionTracker {
    /// A tracker without any session.
    fn default() -> (tracker: TerminalSessionTracker)
        ensures
            tracker.counters() == Map::<Seq<char>, usize>::empty(),
    {
        TerminalSessionTracker::new()
    }
}

// ── Laws ────────────────────────────────────────────────────────────────

/// Asking for a slot changes no other sandbox's count, and its own by one
/// exactly when the slot is granted.
pub proof fn law_acquire_counts(
    counters: Map<Seq<char>, usize>,
    sandbox_id: Seq<char>,
    max: usize,
    other: Seq<char>,
)
    ensures
        live_in(counters_acquired(counters, sandbox_id, max), other) == live_in(counters, other)
            + if other == sandbox_id && live_in(counters, sandbox_id) < max {
            1nat
        } else {
            0nat
        },
{
}

/// Giving a slot back changes no other sandbox's count, and lowers its own by
/// one unless it had none.
pub proof fn law_release_counts(
    counters: Map<Seq<char>, usize>,
    sandbox_id: Seq<char>,
    other: Seq<char>,
)
    ensures
        live_in(counters_released(counters, sandbox_id), other) == live_in(counters, other)
            - if other == sandbox_id && live_in(counters, sandbox_id) > 0 {
            1int
        } else {
            0int
        },
{
}

/// No request for a slot lifts a sandbox that is within the cap above it.
pub proof fn law_cap_is_kept(
    counters: Map<Seq<char>, usize>,
    sandbox_id: Seq<char>,
    max: usize,
    other: Seq<char>,
)
    requires
        live_in(counters, other) <= max,
    ensures
        live_in(counters_acquired(counters, sandbox_id, max), other) <= max,
{
}

/// A granted slot that is given back leaves every count as it was.
pub proof fn law_release_undoes_acquire(
    counters: Map<Seq<char>, usize>,
    sandbox_id: Seq<char>,
    max: usize,
    other: Seq<char>,
)
    requires
        live_in(counters, sandbox_id) < max,
    ensures
        live_in(
            counters_released(counters_acquired(counters, sandbox_id, max), sandbox_id),
            other,
        ) == live_in(counters, other),
{
}

/// What happens to the slots of sandboxes, one after the other.
pub ghost enum SlotEvent {
    /// A slot of the sandbox is asked for.
    Acquire(Seq<char>),
    /// A slot of the sandbox that was granted is given back.
    Release(Seq<char>),
}

/// The counters after `events`, every request made under the cap `max`.
pub open spec fn counters_after(events: Seq<SlotEvent>, max: usize) -> Map<Seq<char>, usize>
    decreases events.len(),
{
    if events.len() == 0 {
        Map::empty()
    } else {
        let before = counters_after(events.drop_last(), max);
        match events.last() {
            SlotEvent::Acquire(id) => counters_acquired(before, id, max),
            SlotEvent::Release(id) => counters_released(before, id),
        }
    }
}

/// How many slots of the sandbox are out after `events`: those granted less
/// those given back.
pub open spec fn slots_out(events: Seq<SlotEvent>, max: usize, sandbox_id: Seq<char>) -> int
    decreases events.len(),
{
    if events.len() == 0 {
        0
    } else {
        let before = slots_out(events.drop_last(), max, sandbox_id);
        match events.last() {
            SlotEvent::Acquire(id) => if id == sandbox_id && live_in(
                counters_after(events.drop_last(), max),
                id,
            ) < max {
                before + 1
            } else {
                before
            },
            SlotEvent::Release(id) => if id == sandbox_id {
                before - 1
            } else {
                before
            },
        }
    }
}

/// Whether each slot given back in `events` was out at the time.
pub open spec fn releases_what_is_out(events: Seq<SlotEvent>, max: usize) -> bool {
    forall|n: int|
        0 <= n < events.len() ==> (#[trigger] events[n] matches SlotEvent::Release(id)
            ==> slots_out(events.take(n), max, id) > 0)
}

/// Over any history of slots, the count of each sandbox is the number of its
/// slots that are out, and never more than the cap.
pub proof fn law_counts_are_slots_out(events: Seq<SlotEvent>, max: usize, sandbox_id: Seq<char>)
    requires
        releases_what_is_out(events, max),
    ensures
        live_in(counters_after(events, max), sandbox_id) == slots_out(events, max, sandbox_id),
        live_in(counters_after(events, max), sandbox_id) <= max,
    decreases events.len(),
{
    if events.len() > 0 {
        let n = events.len() - 1;
        let before = events.drop_last();
        assert(before =~= events.take(n));
        assert forall|k: int|
            0 <= k < before.len() implies (#[trigger] before[k] matches SlotEvent::Release(id)
            ==> slots_out(before.take(k), max, id) > 0) by {
            assert(before[k] == events[k]);
            assert(before.take(k) =~= events.take(k));
        }
        law_counts_are_slots_out(before, max, sandbox_id);
        match events.last() {
            SlotEvent::Acquire(id) => {
                law_acquire_counts(counters_after(before, max), id, max, sandbox_id);
            },
            SlotEvent::Release(id) => {
                assert(events[n] == SlotEvent::Release(id));
                law_counts_are_slots_out(before, max, id);
                law_release_counts(counters_after(before, max), id, sandbox_id);
            },
        }
    }
}

} // verus!
