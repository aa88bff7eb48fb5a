//! Properties of the cooldown tracker that span several calls.

use vstd::prelude::*;

use crate::cooldown::{
    apply_spell, apply_transition, applied_spells, delayed, is_snapshot_of, pause_transition,
    refresh_detected, remaining_at, spells_after_pause, tracker_invariant, tracked_consistent,
    cleared, refresh_candidate, refresh_count, CooldownState, CooldownUpdate,
    OverlaySnapshot, SpellSnapshot, TrackedSpell, READY_THRESHOLD_MS, REFRESH_DETECTION_MS,
};

verus! {

/// A pause is running exactly when a pause start is recorded.
pub open spec fn pause_consistent(s: CooldownState) -> bool {
    s.pause_started is Some ==> s.paused
}

/// Setting the pause flag keeps the pause start consistent with the flag.
pub proof fn lemma_pause_transition_keeps_consistency(
    old: CooldownState,
    new: CooldownState,
    paused: bool,
    now: u64,
)
    requires
        pause_consistent(old),
        pause_transition(old, new, paused, now),
    ensures
        pause_consistent(new),
{
}

/// Taking in an update keeps the pause start consistent with the flag.
pub proof fn lemma_apply_keeps_consistency(
    old: CooldownState,
    new: CooldownState,
    u: CooldownUpdate,
    now: u64,
)
    requires
        pause_consistent(old),
        apply_transition(old, new, u, now),
    ensures
        pause_consistent(new),
{
}

/// Pausing at `t1` and resuming at `t2` moves every running cooldown later by
/// the length of the pause and leaves everything else as it was.
pub proof fn lemma_resume_extends_cooldowns_by_pause(
    s0: CooldownState,
    s1: CooldownState,
    s2: CooldownState,
    t1: u64,
    t2: u64,
)
    requires
        !s0.paused,
        pause_transition(s0, s1, true, t1),
        pause_transition(s1, s2, false, t2),
    ensures
        !s2.paused,
        s2.pause_started is None,
        s2.is_invoker == s0.is_invoker,
        s2.current_mana == s0.current_mana,
        s2.last_update == s0.last_update,
        forall|i: int|
            0 <= i < 10 ==> #[trigger] s2.spells@[i] == delayed(s0.spells@[i], t2.saturating_sub(t1)),
{
    assert forall|i: int| 0 <= i < 10 implies #[trigger] s2.spells@[i] == delayed(
        s0.spells@[i],
        t2.saturating_sub(t1),
    ) by {
        assert(s1.spells@[i] == s0.spells@[i]);
    }
}

/// The time left on a cooldown when play resumes is the time that was left
/// when the pause began.
pub proof fn lemma_resume_keeps_time_left(
    s0: CooldownState,
    s1: CooldownState,
    s2: CooldownState,
    t1: u64,
    t2: u64,
    i: int,
)
    requires
        !s0.paused,
        pause_transition(s0, s1, true, t1),
        pause_transition(s1, s2, false, t2),
        t1 <= t2,
        0 <= i < 10,
        s0.spells@[i].cooldown_until matches Some(until) && until + (t2 - t1) <= u64::MAX,
    ensures
        remaining_at(s2.spells@[i], t2) == remaining_at(s0.spells@[i], t1),
{
    lemma_resume_extends_cooldowns_by_pause(s0, s1, s2, t1, t2);
}

/// An update that arrives while the game is paused changes neither the
/// spells nor the mana.
pub proof fn lemma_paused_update_changes_no_spell(
    old: CooldownState,
    new: CooldownState,
    u: CooldownUpdate,
    now: u64,
)
    requires
        apply_transition(old, new, u, now),
        u.paused,
    ensures
        new.spells@ == old.spells@,
        new.current_mana == old.current_mana,
        new.paused,
{
}

/// While a pause is running, the overlay shows the same cooldowns whenever
/// it is drawn.
pub proof fn lemma_paused_display_is_frozen(
    s: CooldownState,
    now1: u64,
    now2: u64,
    snap1: OverlaySnapshot,
    snap2: OverlaySnapshot,
)
    requires
        s.pause_started is Some,
        is_snapshot_of(snap1, s, now1),
        is_snapshot_of(snap2, s, now2),
    ensures
        snap1.spells@ == snap2.spells@,
{
    assert(snap1.spells@ =~= snap2.spells@);
}

/// Right after an update that is not paused, the overlay shows for each
/// reported spell the cooldown that the update reported (zero when it is at
/// or below the ready threshold), and the mana cost it reported.
pub proof fn lemma_snapshot_shows_reported_cooldown(
    old: CooldownState,
    new: CooldownState,
    u: CooldownUpdate,
    now: u64,
    snap: OverlaySnapshot,
    i: int,
)
    requires
        pause_consistent(old),
        apply_transition(old, new, u, now),
        !u.paused,
        is_snapshot_of(snap, new, now),
        0 <= i < 10,
        u.spells@[i].known,
        now + u.spells@[i].cooldown_remaining <= u64::MAX,
    ensures
        snap.spells@[i].known,
        snap.spells@[i].cooldown_remaining == if u.spells@[i].cooldown_remaining
            > READY_THRESHOLD_MS {
            u.spells@[i].cooldown_remaining
        } else {
            0
        },
        u.spells@[i].mana_cost is Some ==> snap.spells@[i].mana_cost == u.spells@[i].mana_cost,
{
    assert(new.pause_started is None);
    assert(new.spells@[i] == applied_spells(spells_after_pause(old, false, now), u, now)[i]);
}

/// Outside the hero demo no update clears a cooldown of a spell that it does
/// not report.
pub proof fn lemma_no_refresh_outside_hero_demo(
    old: CooldownState,
    new: CooldownState,
    u: CooldownUpdate,
    now: u64,
)
    requires
        !old.paused,
        apply_transition(old, new, u, now),
        !u.paused,
        !u.is_hero_demo,
    ensures
        forall|i: int| 0 <= i < 10 && !u.spells@[i].known ==> #[trigger] new.spells@[i] == old.spells@[i],
{
}

/// When an external refresh is detected, every spell that the update does not
/// report loses its running cooldown.
pub proof fn lemma_refresh_clears_unreported_cooldowns(
    old: CooldownState,
    new: CooldownState,
    u: CooldownUpdate,
    now: u64,
)
    requires
        apply_transition(old, new, u, now),
        !u.paused,
        refresh_detected(spells_after_pause(old, false, now), u, now),
    ensures
        forall|i: int|
            0 <= i < 10 && !u.spells@[i].known ==> (#[trigger] new.spells@[i]).cooldown_until is None,
{
}

/// A cooldown that keeps counting down keeps its total: an update whose
/// remaining time has not grown by more than the refresh margin over the
/// time left does not restart the cooldown's total.
pub proof fn lemma_total_kept_while_counting_down(t: TrackedSpell, incoming: SpellSnapshot, now: u64)
    requires
        incoming.known,
        incoming.cooldown_remaining > READY_THRESHOLD_MS,
        t.cooldown_total > READY_THRESHOLD_MS,
        incoming.cooldown_remaining <= remaining_at(t, now) + REFRESH_DETECTION_MS,
    ensures
        apply_spell(t, incoming, now).cooldown_total == t.cooldown_total,
{
}

/// A spell once known stays known, and a mana cost once learned is kept
/// until an update reports another.
pub proof fn lemma_knowledge_is_kept(
    old: CooldownState,
    new: CooldownState,
    u: CooldownUpdate,
    now: u64,
    i: int,
)
    requires
        apply_transition(old, new, u, now),
        0 <= i < 10,
    ensures
        old.spells@[i].known ==> new.spells@[i].known,
        u.spells@[i].mana_cost is None ==> new.spells@[i].mana_cost == old.spells@[i].mana_cost,
{
    let mid = spells_after_pause(old, u.paused, now);
    assert(mid[i].known == old.spells@[i].known);
    assert(mid[i].mana_cost == old.spells@[i].mana_cost);
}

/// Setting the pause flag keeps the tracker invariant.
pub proof fn lemma_pause_transition_keeps_invariant(
    old: CooldownState,
    new: CooldownState,
    paused: bool,
    now: u64,
)
    requires
        tracker_invariant(old),
        pause_transition(old, new, paused, now),
    ensures
        tracker_invariant(new),
{
    assert forall|i: int| 0 <= i < 10 implies tracked_consistent(#[trigger] new.spells@[i]) by {
        assert(tracked_consistent(old.spells@[i]));
    }
}

/// Taking in an update keeps the tracker invariant: with `new` establishing
/// it, every state the tracker reaches satisfies it.
pub proof fn lemma_apply_keeps_invariant(
    old: CooldownState,
    new: CooldownState,
    u: CooldownUpdate,
    now: u64,
)
    requires
        tracker_invariant(old),
        apply_transition(old, new, u, now),
    ensures
        tracker_invariant(new),
{
    let mid = spells_after_pause(old, u.paused, now);
    assert forall|i: int| 0 <= i < 10 implies tracked_consistent(#[trigger] mid[i]) by {
        assert(tracked_consistent(old.spells@[i]));
    }
    assert forall|i: int| 0 <= i < 10 implies tracked_consistent(#[trigger] new.spells@[i]) by {
        assert(tracked_consistent(mid[i]));
        assert(tracked_consistent(cleared(mid[i])));
    }
}

/// After an update that is not paused, the tracker holds the update's mana,
/// whatever it held before.
pub proof fn lemma_unpaused_update_takes_its_mana(
    old: CooldownState,
    new: CooldownState,
    u: CooldownUpdate,
    now: u64,
)
    requires
        apply_transition(old, new, u, now),
        !u.paused,
    ensures
        new.current_mana == u.current_mana,
{
}

/// Milliseconds from `at` until `until`, none when it has passed.
pub open spec fn left_until(until: Option<u64>, at: u64) -> int {
    match until {
        Some(end) => if end > at {
            end - at
        } else {
            0
        },
        None => 0,
    }
}

/// While a pause that began at `started` runs, every shown remaining
/// cooldown is the time its spell had left at `started`, whatever the clock
/// reads now.
pub proof fn lemma_pause_shows_time_left_at_its_start(
    s: CooldownState,
    started: u64,
    now: u64,
    snap: OverlaySnapshot,
    i: int,
)
    requires
        s.pause_started == Some(started),
        is_snapshot_of(snap, s, now),
        0 <= i < 10,
    ensures
        snap.spells@[i].cooldown_remaining == left_until(s.spells@[i].cooldown_until, started),
{
}

/// A running tracker that a paused update reaches at `t1`, and that a second
/// paused update reaches later, shows each spell with the time it had left
/// at `t1`: paused updates after the first change nothing shown.
pub proof fn lemma_paused_updates_keep_display(
    s0: CooldownState,
    s1: CooldownState,
    s2: CooldownState,
    u1: CooldownUpdate,
    u2: CooldownUpdate,
    t1: u64,
    t2: u64,
    now: u64,
    snap: OverlaySnapshot,
    i: int,
)
    requires
        !s0.paused,
        apply_transition(s0, s1, u1, t1),
        u1.paused,
        apply_transition(s1, s2, u2, t2),
        u2.paused,
        is_snapshot_of(snap, s2, now),
        0 <= i < 10,
    ensures
        snap.spells@[i].cooldown_remaining == left_until(s0.spells@[i].cooldown_until, t1),
        snap.spells@[i].known == s0.spells@[i].known,
        snap.spells@[i].cooldown_total == s0.spells@[i].cooldown_total,
{
    assert(s1.spells@[i] == s0.spells@[i]);
    assert(s2.spells@[i] == s0.spells@[i]);
}

/// A paused report while a pause already runs leaves the pause start and
/// the spells as they were.
pub proof fn lemma_repeated_pause_changes_nothing(
    old: CooldownState,
    new: CooldownState,
    now: u64,
)
    requires
        old.paused,
        pause_transition(old, new, true, now),
    ensures
        new.pause_started == old.pause_started,
        new.spells@ == old.spells@,
        new.paused,
{
}

/// The same holds of a paused update taken in while a pause runs: the pause
/// start, the spells and the mana are left as they were.
pub proof fn lemma_repeated_paused_update_keeps_pause_start(
    old: CooldownState,
    new: CooldownState,
    u: CooldownUpdate,
    now: u64,
)
    requires
        old.paused,
        apply_transition(old, new, u, now),
        u.paused,
    ensures
        new.pause_started == old.pause_started,
        new.spells@ == old.spells@,
        new.current_mana == old.current_mana,
{
}

/// Pausing at `t1`, reporting the pause again at `t2`, and resuming at `t3`
/// moves every running cooldown later by the whole pause, `t3 - t1`.
pub proof fn lemma_resume_after_repeated_pause_extends_by_whole_pause(
    s0: CooldownState,
    s1: CooldownState,
    s2: CooldownState,
    s3: CooldownState,
    t1: u64,
    t2: u64,
    t3: u64,
    i: int,
)
    requires
        !s0.paused,
        pause_transition(s0, s1, true, t1),
        pause_transition(s1, s2, true, t2),
        pause_transition(s2, s3, false, t3),
        t1 <= t3,
        0 <= i < 10,
        s0.spells@[i].cooldown_until matches Some(until) && until + (t3 - t1) <= u64::MAX,
    ensures
        s3.spells@[i].cooldown_until == Some((s0.spells@[i].cooldown_until->0 + (t3 - t1)) as u64),
        !s3.paused,
        s3.pause_started is None,
{
    assert(s2.spells@[i] == s0.spells@[i]);
    assert(s2.pause_started == Some(t1));
}

/// The incoming report shows the spell ready (known, at most the ready
/// threshold left) while the tracker still has more than the refresh margin
/// left on it.
pub open spec fn turned_ready(t: TrackedSpell, incoming: SpellSnapshot, now: u64) -> bool {
    &&& incoming.known
    &&& incoming.cooldown_remaining <= READY_THRESHOLD_MS
    &&& t.cooldown_until matches Some(until) && until > now && until - now > REFRESH_DETECTION_MS
}

proof fn lemma_candidate_is_turned_ready(t: TrackedSpell, incoming: SpellSnapshot, now: u64)
    ensures
        refresh_candidate(t, incoming, now) == turned_ready(t, incoming, now),
{
}

proof fn lemma_count_from_two(
    ts: Seq<TrackedSpell>,
    inc: Seq<SpellSnapshot>,
    now: u64,
    k: int,
    i: int,
    j: int,
)
    requires
        0 <= i < j < k,
        refresh_candidate(ts[i], inc[i], now),
        refresh_candidate(ts[j], inc[j], now),
    ensures
        refresh_count(ts, inc, now, k) >= 2,
    decreases k,
{
    if j < k - 1 {
        lemma_count_from_two(ts, inc, now, k - 1, i, j);
    } else {
        lemma_count_from_one(ts, inc, now, k - 1, i);
    }
}

proof fn lemma_count_from_one(ts: Seq<TrackedSpell>, inc: Seq<SpellSnapshot>, now: u64, k: int, i: int)
    requires
        0 <= i < k,
        refresh_candidate(ts[i], inc[i], now),
    ensures
        refresh_count(ts, inc, now, k) >= 1,
    decreases k,
{
    if i < k - 1 {
        lemma_count_from_one(ts, inc, now, k - 1, i);
    }
}

proof fn lemma_one_from_count(ts: Seq<TrackedSpell>, inc: Seq<SpellSnapshot>, now: u64, k: int) -> (i: int)
    requires
        refresh_count(ts, inc, now, k) >= 1,
    ensures
        0 <= i < k,
        refresh_candidate(ts[i], inc[i], now),
    decreases k,
{
    if refresh_candidate(ts[k - 1], inc[k - 1], now) {
        k - 1
    } else {
        lemma_one_from_count(ts, inc, now, k - 1)
    }
}

proof fn lemma_two_from_count(ts: Seq<TrackedSpell>, inc: Seq<SpellSnapshot>, now: u64, k: int) -> (ij: (
    int,
    int,
))
    requires
        refresh_count(ts, inc, now, k) >= 2,
    ensures
        0 <= ij.0 < ij.1 < k,
        refresh_candidate(ts[ij.0], inc[ij.0], now),
        refresh_candidate(ts[ij.1], inc[ij.1], now),
    decreases k,
{
    if refresh_candidate(ts[k - 1], inc[k - 1], now) {
        let i = lemma_one_from_count(ts, inc, now, k - 1);
        (i, k - 1)
    } else {
        lemma_two_from_count(ts, inc, now, k - 1)
    }
}

/// An update is taken for an external refresh exactly when it is for
/// Invoker in the hero demo and at least two of the ten spells, at any
/// positions, turned ready while the tracker still had them cooling down.
pub proof fn lemma_refresh_is_two_spells_turned_ready(
    ts: Seq<TrackedSpell>,
    u: CooldownUpdate,
    now: u64,
)
    requires
        ts.len() == 10,
    ensures
        refresh_detected(ts, u, now) <==> (u.is_invoker && u.is_hero_demo && exists|i: int, j: int|
            0 <= i < j < 10 && #[trigger] turned_ready(ts[i], u.spells@[i], now)
                && #[trigger] turned_ready(ts[j], u.spells@[j], now)),
{
    let inc = u.spells@;
    if refresh_detected(ts, u, now) {
        let (i, j) = lemma_two_from_count(ts, inc, now, 10);
        lemma_candidate_is_turned_ready(ts[i], inc[i], now);
        lemma_candidate_is_turned_ready(ts[j], inc[j], now);
    }
    if u.is_invoker && u.is_hero_demo && exists|i: int, j: int|
        0 <= i < j < 10 && #[trigger] turned_ready(ts[i], inc[i], now) && #[trigger] turned_ready(
            ts[j],
            inc[j],
            now,
        ) {
        let (i, j) = choose|i: int, j: int|
            0 <= i < j < 10 && #[trigger] turned_ready(ts[i], inc[i], now) && #[trigger] turned_ready(
                ts[j],
                inc[j],
                now,
            );
        lemma_candidate_is_turned_ready(ts[i], inc[i], now);
        lemma_candidate_is_turned_ready(ts[j], inc[j], now);
        lemma_count_from_two(ts, inc, now, 10, i, j);
    }
}

} // verus!
