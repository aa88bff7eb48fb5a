use dota_2_gsi_invoker::decimal::Reading;
use dota_2_gsi_invoker::cooldown::{CooldownState, CooldownUpdate, SpellSnapshot};

const SECOND: u64 = 1_000;

fn update(paused: bool, hero_demo: bool) -> CooldownUpdate {
    CooldownUpdate {
        is_invoker: true,
        is_play_active: true,
        is_hero_demo: hero_demo,
        paused,
        current_mana: Some(Reading::Finite { milli: 500_000, whole: true }),
        spells: [SpellSnapshot::default(); 10],
    }
}

fn running(remaining: u64) -> SpellSnapshot {
    SpellSnapshot {
        cooldown_remaining: remaining,
        cooldown_total: 0,
        mana_cost: None,
        known: true,
    }
}

#[test]
fn snapshot_shows_reported_cooldown() {
    let now: u64 = 1_000_000;
    let mut state = CooldownState::new();
    let mut u = update(false, false);
    u.spells[3] = running(7 * SECOND);
    u.spells[3].mana_cost = Some(125);
    u.spells[4] = running(40);
    state.apply(u, now);
    let snap = state.snapshot(now);
    assert_eq!(snap.spells[3].cooldown_remaining, 7 * SECOND);
    assert_eq!(snap.spells[3].cooldown_total, 7 * SECOND);
    assert_eq!(snap.spells[3].mana_cost, Some(125));
    assert_eq!(snap.spells[4].cooldown_remaining, 0);
    assert!(snap.spells[4].known);
    assert!(snap.connected);
    assert_eq!(snap.current_mana, Some(Reading::Finite { milli: 500_000, whole: true }));
    let later = state.snapshot(now + 2 * SECOND);
    assert_eq!(later.spells[3].cooldown_remaining, 5 * SECOND);
    assert!(!state.snapshot(now + 3 * SECOND).connected);
}

#[test]
fn pause_then_resume_keeps_time_left() {
    let t0: u64 = 1_000_000;
    let mut state = CooldownState::new();
    let mut u = update(false, false);
    u.spells[0] = running(10 * SECOND);
    state.apply(u, t0);

    let mut paused = update(true, false);
    paused.current_mana = Some(Reading::Finite { milli: 1, whole: true });
    paused.spells[0] = running(1);
    state.apply(paused.clone(), t0 + 2 * SECOND);
    assert_eq!(state.current_mana, Some(Reading::Finite { milli: 500_000, whole: true }));
    assert_eq!(state.spells[0].cooldown_until, Some(t0 + 10 * SECOND));
    let frozen = state.snapshot(t0 + 30 * SECOND);
    assert_eq!(frozen.spells[0].cooldown_remaining, 8 * SECOND);
    assert_eq!(
        state.snapshot(t0 + 90 * SECOND).spells[0].cooldown_remaining,
        8 * SECOND
    );

    state.apply_pause_state(false, t0 + 7 * SECOND);
    assert_eq!(state.snapshot(t0 + 7 * SECOND).spells[0].cooldown_remaining, 8 * SECOND);
}

#[test]
fn mana_cost_and_knowledge_are_kept() {
    let now: u64 = 1_000_000;
    let mut state = CooldownState::new();
    let mut u = update(false, false);
    u.spells[2] = running(0);
    u.spells[2].mana_cost = Some(250);
    state.apply(u, now);
    let mut v = update(false, false);
    v.spells[2] = running(0);
    state.apply(v, now + SECOND);
    assert!(state.spells[2].known);
    assert_eq!(state.spells[2].mana_cost, Some(250));
    state.apply(update(false, false), now + 2 * SECOND);
    assert!(state.spells[2].known);
}

#[test]
fn restarted_cooldown_takes_new_total() {
    let now: u64 = 1_000_000;
    let mut state = CooldownState::new();
    let mut u = update(false, false);
    u.spells[1] = running(10 * SECOND);
    state.apply(u.clone(), now);
    u.spells[1] = running(30 * SECOND);
    state.apply(u, now + SECOND);
    assert_eq!(state.spells[1].cooldown_total, 30 * SECOND);
}

#[test]
fn detect_external_refresh_counts_ready_spells() {
    let now: u64 = 1_000_000;
    let mut state = CooldownState::new();
    state.spells[0].cooldown_until = Some(now + 10 * SECOND);
    state.spells[1].cooldown_until = Some(now + 400);
    let mut u = update(false, true);
    u.spells[0] = running(0);
    u.spells[1] = running(0);
    assert!(!state.detect_external_refresh(&u, now));
    state.spells[1].cooldown_until = Some(now + 600);
    assert!(state.detect_external_refresh(&u, now));
    u.is_invoker = false;
    assert!(!state.detect_external_refresh(&u, now));
}

#[test]
fn tracker_invariant_holds_after_updates() {
    let mut state = CooldownState::new();
    let mut u = update(false, false);
    u.spells[0] = running(10 * SECOND);
    u.spells[1] = running(30);
    state.apply(u, 1_000);
    state.apply(update(true, false), 2_000);
    assert!(state.paused && state.pause_started.is_some());
    state.apply(update(false, false), 3_000);
    assert!(!state.paused && state.pause_started.is_none());
    for spell in state.spells.iter() {
        assert!(spell.cooldown_total == 0 || spell.cooldown_total > 50);
        if !spell.known {
            assert!(spell.cooldown_until.is_none() && spell.mana_cost.is_none());
        }
    }
}
