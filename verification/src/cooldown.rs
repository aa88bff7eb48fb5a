//! Cooldown tracking for the ten Invoker spells.
//!
//! Time is a monotonic clock in milliseconds that the caller reads and hands
//! in (`now`); cooldowns and cooldown totals are durations in milliseconds.
//! Mana amounts are readings of the numbers the game reports.

use vstd::prelude::*;

use crate::decimal::Reading;

verus! {

/// A remaining cooldown at or below this many milliseconds counts as ready.
pub const READY_THRESHOLD_MS: u64 = 50;

/// A cooldown that grows by more than this many milliseconds between two
/// updates was restarted, so its total is taken anew.
pub const REFRESH_DETECTION_MS: u64 = 500;

/// How many spells must turn ready at once, while still tracked as cooling
/// down, for the update to count as an external refresh.
pub const REFRESH_DETECTION_COUNT: usize = 2;

/// A client counts as connected while its last update is younger than this.
pub const CONNECTED_WINDOW_MS: u64 = 3000;

/// What one update reports of one spell, or what the overlay shows of it.
#[derive(Clone, Copy, Debug)]
pub struct SpellSnapshot {
    /// Remaining cooldown in milliseconds.
    pub cooldown_remaining: u64,
    /// Full length of the running cooldown in milliseconds (0 when unknown).
    pub cooldown_total: u64,
    /// Mana cost, when the payload states one.
    pub mana_cost: Option<u16>,
    /// Whether the spell is learned or on cooldown.
    pub known: bool,
}

/// A snapshot of a spell about which nothing is known.
pub open spec fn blank_snapshot() -> SpellSnapshot {
    SpellSnapshot { cooldown_remaining: 0, cooldown_total: 0, mana_cost: None, known: false }
}

impl Default for SpellSnapshot {
    fn default() -> (s: Self)
        ensures
            s == blank_snapshot(),
    {
        SpellSnapshot { cooldown_remaining: 0, cooldown_total: 0, mana_cost: None, known: false }
    }
}

/// One Game State Integration update, reduced to what the tracker needs.
#[derive(Clone, Debug)]
pub struct CooldownUpdate {
    pub is_invoker: bool,
    pub is_play_active: bool,
    pub is_hero_demo: bool,
    pub paused: bool,
    /// Current mana.
    pub current_mana: Option<Reading>,
    /// The spells in canonical order.
    pub spells: [SpellSnapshot; 10],
}

/// What the tracker remembers of one spell between updates.
#[derive(Clone, Copy, Debug)]
pub struct TrackedSpell {
    pub known: bool,
    pub mana_cost: Option<u16>,
    /// Clock time (ms) at which the running cooldown ends.
    pub cooldown_until: Option<u64>,
    /// Full length (ms) of the running cooldown.
    pub cooldown_total: u64,
}

/// A spell about which nothing is tracked yet.
pub open spec fn blank_tracked() -> TrackedSpell {
    TrackedSpell { known: false, mana_cost: None, cooldown_until: None, cooldown_total: 0 }
}

impl Default for TrackedSpell {
    fn default() -> (t: Self)
        ensures
            t == blank_tracked(),
    {
        TrackedSpell { known: false, mana_cost: None, cooldown_until: None, cooldown_total: 0 }
    }
}

/// The tracker's state across updates.
#[derive(Clone, Debug)]
pub struct CooldownState {
    pub is_invoker: bool,
    pub paused: bool,
    /// Clock time (ms) at which the running pause began.
    pub pause_started: Option<u64>,
    /// Current mana.
    pub current_mana: Option<Reading>,
    /// Clock time (ms) of the last update.
    pub last_update: Option<u64>,
    /// The spells in canonical order.
    pub spells: [TrackedSpell; 10],
}

/// What the overlay draws from.
#[derive(Clone, Debug)]
pub struct OverlaySnapshot {
    pub is_invoker: bool,
    pub paused: bool,
    pub connected: bool,
    /// Current mana.
    pub current_mana: Option<Reading>,
    pub spells: [SpellSnapshot; 10],
}

// ----------------------------------------------------------------------------
// The model
// ----------------------------------------------------------------------------

/// Milliseconds left on `t`'s cooldown at clock time `at`.
pub open spec fn remaining_at(t: TrackedSpell, at: u64) -> u64 {
    match t.cooldown_until {
        Some(until) => until.saturating_sub(at),
        None => 0,
    }
}

/// `t` with its cooldown end moved later by `delay` milliseconds.
pub open spec fn delayed(t: TrackedSpell, delay: u64) -> TrackedSpell {
    TrackedSpell {
        cooldown_until: match t.cooldown_until {
            Some(until) => Some(until.saturating_add(delay)),
            None => None,
        },
        ..t
    }
}

/// `t` with no running cooldown.
pub open spec fn cleared(t: TrackedSpell) -> TrackedSpell {
    TrackedSpell { cooldown_until: None, ..t }
}

/// Whether the pause flag of `s` changes from running to paused.
pub open spec fn pauses(s: CooldownState, paused: bool) -> bool {
    !s.paused && paused
}

/// Whether the pause flag of `s` changes from paused to running.
pub open spec fn resumes(s: CooldownState, paused: bool) -> bool {
    s.paused && !paused
}

/// The pause start after the pause flag is set to `paused` at `now`.
pub open spec fn pause_started_after(s: CooldownState, paused: bool, now: u64) -> Option<u64> {
    if pauses(s, paused) {
        Some(now)
    } else if resumes(s, paused) {
        None
    } else {
        s.pause_started
    }
}

/// The spells after the pause flag is set to `paused` at `now`: a resume
/// moves every running cooldown later by the length of the pause.
pub open spec fn spells_after_pause(s: CooldownState, paused: bool, now: u64) -> Seq<TrackedSpell> {
    if resumes(s, paused) && s.pause_started is Some {
        let pause = now.saturating_sub(s.pause_started->0);
        s.spells@.map_values(|t: TrackedSpell| delayed(t, pause))
    } else {
        s.spells@
    }
}

/// `new` is `old` after its pause flag was set to `paused` at `now`.
pub open spec fn pause_transition(old: CooldownState, new: CooldownState, paused: bool, now: u64) -> bool {
    &&& new.paused == paused
    &&& new.pause_started == pause_started_after(old, paused, now)
    &&& new.spells@ == spells_after_pause(old, paused, now)
    &&& new.is_invoker == old.is_invoker
    &&& new.current_mana == old.current_mana
    &&& new.last_update == old.last_update
}

/// The incoming spell is ready while its tracked cooldown has more than the
/// refresh margin left.
pub open spec fn refresh_candidate(t: TrackedSpell, incoming: SpellSnapshot, now: u64) -> bool {
    &&& incoming.known
    &&& incoming.cooldown_remaining <= READY_THRESHOLD_MS
    &&& t.cooldown_until matches Some(until) && until.saturating_sub(now) > REFRESH_DETECTION_MS
}

/// How many of the first `k` spells are refresh candidates.
pub open spec fn refresh_count(
    ts: Seq<TrackedSpell>,
    incoming: Seq<SpellSnapshot>,
    now: u64,
    k: int,
) -> nat
    decreases k,
{
    if k <= 0 {
        0
    } else {
        refresh_count(ts, incoming, now, k - 1) + if refresh_candidate(
            ts[k - 1],
            incoming[k - 1],
            now,
        ) {
            1nat
        } else {
            0nat
        }
    }
}

/// In the hero demo, at least two spells turned ready although the tracker
/// still had them cooling down: the cooldowns were refreshed from outside.
pub open spec fn refresh_detected(ts: Seq<TrackedSpell>, u: CooldownUpdate, now: u64) -> bool {
    &&& u.is_invoker
    &&& u.is_hero_demo
    &&& refresh_count(ts, u.spells@, now, 10) >= REFRESH_DETECTION_COUNT
}

/// What one known incoming spell makes of the tracked spell at `now`.
pub open spec fn apply_spell(t: TrackedSpell, incoming: SpellSnapshot, now: u64) -> TrackedSpell {
    if !incoming.known {
        t
    } else {
        let mana_cost = if incoming.mana_cost is Some {
            incoming.mana_cost
        } else {
            t.mana_cost
        };
        if incoming.cooldown_remaining > READY_THRESHOLD_MS {
            let restarted = t.cooldown_total <= READY_THRESHOLD_MS || incoming.cooldown_remaining
                > remaining_at(t, now) + REFRESH_DETECTION_MS;
            TrackedSpell {
                known: true,
                mana_cost,
                cooldown_until: Some(now.saturating_add(incoming.cooldown_remaining)),
                cooldown_total: if restarted {
                    incoming.cooldown_remaining
                } else {
                    t.cooldown_total
                },
            }
        } else {
            TrackedSpell { known: true, mana_cost, cooldown_until: None, cooldown_total: 0 }
        }
    }
}

/// The spells after an update that is not paused was taken in at `now`.
pub open spec fn applied_spells(ts: Seq<TrackedSpell>, u: CooldownUpdate, now: u64) -> Seq<
    TrackedSpell,
> {
    let refresh = refresh_detected(ts, u, now);
    Seq::new(
        10,
        |i: int|
            apply_spell(
                if refresh {
                    cleared(ts[i])
                } else {
                    ts[i]
                },
                u.spells@[i],
                now,
            ),
    )
}

/// `new` is `old` after the update `u` arrived at `now`.
pub open spec fn apply_transition(
    old: CooldownState,
    new: CooldownState,
    u: CooldownUpdate,
    now: u64,
) -> bool {
    let mid = spells_after_pause(old, u.paused, now);
    &&& new.paused == u.paused
    &&& new.pause_started == pause_started_after(old, u.paused, now)
    &&& new.is_invoker == u.is_invoker
    &&& new.last_update == Some(now)
    &&& new.current_mana == if u.paused {
        old.current_mana
    } else {
        u.current_mana
    }
    &&& new.spells@ == if u.paused {
        mid
    } else {
        applied_spells(mid, u, now)
    }
}

/// The clock that the displayed cooldowns are read at: frozen at the start
/// of a pause.
pub open spec fn display_clock(s: CooldownState, now: u64) -> u64 {
    match s.pause_started {
        Some(started) => started,
        None => now,
    }
}

/// What the overlay shows of a tracked spell at clock time `at`.
pub open spec fn shown_spell(t: TrackedSpell, at: u64) -> SpellSnapshot {
    SpellSnapshot {
        cooldown_remaining: remaining_at(t, at),
        cooldown_total: t.cooldown_total,
        mana_cost: t.mana_cost,
        known: t.known,
    }
}

/// `snap` is what the overlay shows of `s` at `now`.
pub open spec fn is_snapshot_of(snap: OverlaySnapshot, s: CooldownState, now: u64) -> bool {
    &&& snap.is_invoker == s.is_invoker
    &&& snap.paused == s.paused
    &&& snap.connected == (s.last_update matches Some(last) && now.saturating_sub(last)
        < CONNECTED_WINDOW_MS)
    &&& snap.current_mana == s.current_mana
    &&& forall|i: int| 0 <= i < 10 ==> #[trigger] snap.spells@[i] == shown_spell(s.spells@[i], display_clock(s, now))
}

/// A tracked spell is blank until it is known, and a cooldown total is
/// either unknown (0) or above the ready threshold.
pub open spec fn tracked_consistent(t: TrackedSpell) -> bool {
    &&& !t.known ==> t == blank_tracked()
    &&& t.cooldown_total == 0 || t.cooldown_total > READY_THRESHOLD_MS
}

/// What holds of every state the tracker reaches from `new` through
/// `apply` and `apply_pause_state`: a pause start is recorded exactly while
/// paused, and every spell is consistent.
pub open spec fn tracker_invariant(s: CooldownState) -> bool {
    &&& s.paused <==> s.pause_started is Some
    &&& forall|i: int| 0 <= i < 10 ==> tracked_consistent(#[trigger] s.spells@[i])
}

// ----------------------------------------------------------------------------
// The tracker
// ----------------------------------------------------------------------------

/// The executable form of `apply_spell`.
fn track_spell(t: TrackedSpell, incoming: SpellSnapshot, now: u64) -> (r: TrackedSpell)
    ensures
        r == apply_spell(t, incoming, now),
{
    if !incoming.known {
        return t;
    }
    let mana_cost = match incoming.mana_cost {
        Some(cost) => Some(cost),
        None => t.mana_cost,
    };
    if incoming.cooldown_remaining > READY_THRESHOLD_MS {
        let previous_remaining = match t.cooldown_until {
            Some(until) => until.saturating_sub(now),
            None => 0,
        };
        let restarted = t.cooldown_total <= READY_THRESHOLD_MS || (incoming.cooldown_remaining
            > REFRESH_DETECTION_MS && incoming.cooldown_remaining - REFRESH_DETECTION_MS
            > previous_remaining);
        TrackedSpell {
            known: true,
            mana_cost,
            cooldown_until: Some(now.saturating_add(incoming.cooldown_remaining)),
            cooldown_total: if restarted {
                incoming.cooldown_remaining
            } else {
                t.cooldown_total
            },
        }
    } else {
        TrackedSpell { known: true, mana_cost, cooldown_until: None, cooldown_total: 0 }
    }
}

impl CooldownState {
    /// A tracker that has seen no update.
    pub fn new() -> (s: Self)
        ensures
            !s.is_invoker,
            !s.paused,
            s.pause_started is None,
            s.current_mana is None,
            s.last_update is None,
            forall|i: int| 0 <= i < 10 ==> #[trigger] s.spells@[i] == blank_tracked(),
            tracker_invariant(s),
    {
        let blank = TrackedSpell::default();
        CooldownState {
            is_invoker: false,
            paused: false,
            pause_started: None,
            current_mana: None,
            last_update: None,
            spells: [blank; 10],
        }
    }

    /// Sets the pause flag at clock time `now`. Resuming moves every running
    /// cooldown later by the length of the pause.
    pub fn apply_pause_state(&mut self, paused: bool, now: u64)
        ensures
            pause_transition(*old(self), *final(self), paused, now),
    {
        if !self.paused && paused {
            self.paused = true;
            self.pause_started = Some(now);
            return;
        }
        if self.paused && !paused {
            match self.pause_started {
                Some(started) => {
                    let pause = now.saturating_sub(started);
                    let ghost before = self.spells@;
                    let mut i: usize = 0;
                    while i < 10
                        invariant
                            i <= 10,
                            before.len() == 10,
                            self.spells@.len() == 10,
                            forall|j: int| 0 <= j < i ==> #[trigger] self.spells@[j] == delayed(before[j], pause),
                            forall|j: int| i <= j < 10 ==> #[trigger] self.spells@[j] == before[j],
                            self.is_invoker == old(self).is_invoker,
                            self.current_mana == old(self).current_mana,
                            self.last_update == old(self).last_update,
                            self.pause_started == old(self).pause_started,
                            self.paused == old(self).paused,
                            before == old(self).spells@,
                            old(self).pause_started == Some(started),
                            pause == now.saturating_sub(started),
                        decreases 10 - i,
                    {
                        let t = self.spells[i];
                        let shifted = match t.cooldown_until {
                            Some(until) => TrackedSpell {
                                cooldown_until: Some(until.saturating_add(pause)),
                                ..t
                            },
                            None => t,
                        };
                        self.spells[i] = shifted;
                        i = i + 1;
                    }
                    assert(self.spells@ =~= before.map_values(|t: TrackedSpell| delayed(t, pause)));
                },
                None => {},
            }
            self.pause_started = None;
            self.paused = false;
        }
    }

    /// Whether `update` looks like an external refresh of the cooldowns (such
    /// as the hero demo's refresh button) against what is tracked at `now`.
    pub fn detect_external_refresh(&self, update: &CooldownUpdate, now: u64) -> (r: bool)
        ensures
            r == refresh_detected(self.spells@, *update, now),
    {
        if !(update.is_invoker && update.is_hero_demo) {
            return false;
        }
        let mut count: usize = 0;
        let mut i: usize = 0;
        while i < 10
            invariant
                i <= 10,
                count == refresh_count(self.spells@, update.spells@, now, i as int),
                count <= i,
            decreases 10 - i,
        {
            let t = self.spells[i];
            let incoming = update.spells[i];
            let candidate = incoming.known && incoming.cooldown_remaining <= READY_THRESHOLD_MS
                && match t.cooldown_until {
                Some(until) => until.saturating_sub(now) > REFRESH_DETECTION_MS,
                None => false,
            };
            if candidate {
                count = count + 1;
            }
            i = i + 1;
        }
        count >= REFRESH_DETECTION_COUNT
    }

    /// Takes in one update that arrived at clock time `now`.
    pub fn apply(&mut self, update: CooldownUpdate, now: u64)
        ensures
            apply_transition(*old(self), *final(self), update, now),
    {
        self.apply_pause_state(update.paused, now);
        self.is_invoker = update.is_invoker;
        if !self.paused {
            self.current_mana = update.current_mana;
        }
        self.last_update = Some(now);

        if !self.paused {
            let refresh = self.detect_external_refresh(&update, now);
            let ghost mid = self.spells@;
            let mut i: usize = 0;
            while i < 10
                invariant
                    i <= 10,
                    mid.len() == 10,
                    self.spells@.len() == 10,
                    refresh == refresh_detected(mid, update, now),
                    forall|j: int|
                        0 <= j < i ==> #[trigger] self.spells@[j] == applied_spells(
                            mid,
                            update,
                            now,
                        )[j],
                    forall|j: int| i <= j < 10 ==> #[trigger] self.spells@[j] == mid[j],
                    self.is_invoker == update.is_invoker,
                    self.current_mana == update.current_mana,
                    self.last_update == Some(now),
                    self.paused == update.paused,
                    !self.paused,
                    self.pause_started == pause_started_after(*old(self), update.paused, now),
                    mid == spells_after_pause(*old(self), update.paused, now),
                decreases 10 - i,
            {
                let mut t = self.spells[i];
                if refresh {
                    t.cooldown_until = None;
                }
                let next = track_spell(t, update.spells[i], now);
                self.spells[i] = next;
                i = i + 1;
            }
            assert(self.spells@ =~= applied_spells(mid, update, now));
        }
    }

    /// What the overlay shows at clock time `now`. While paused, the
    /// cooldowns are read at the start of the pause.
    pub fn snapshot(&self, now: u64) -> (snap: OverlaySnapshot)
        ensures
            is_snapshot_of(snap, *self, now),
    {
        let clock = match self.pause_started {
            Some(started) => started,
            None => now,
        };
        let mut spells = [SpellSnapshot::default(); 10];
        let mut i: usize = 0;
        while i < 10
            invariant
                i <= 10,
                spells@.len() == 10,
                clock == display_clock(*self, now),
                forall|j: int| 0 <= j < i ==> #[trigger] spells@[j] == shown_spell(self.spells@[j], clock),
            decreases 10 - i,
        {
            let t = self.spells[i];
            let remaining = match t.cooldown_until {
                Some(until) => until.saturating_sub(clock),
                None => 0,
            };
            spells[i] = SpellSnapshot {
                cooldown_remaining: remaining,
                cooldown_total: t.cooldown_total,
                mana_cost: t.mana_cost,
                known: t.known,
            };
            i = i + 1;
        }
        let connected = match self.last_update {
            Some(last) => now.saturating_sub(last) < CONNECTED_WINDOW_MS,
            None => false,
        };
        OverlaySnapshot {
            is_invoker: self.is_invoker,
            paused: self.paused,
            connected,
            current_mana: self.current_mana,
            spells,
        }
    }
}

} // verus!
