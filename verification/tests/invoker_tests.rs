use dota_2_gsi_invoker::decimal::Reading;
use dota_2_gsi_invoker::cooldown::{CooldownState, CooldownUpdate, SpellSnapshot};

const SECOND: u64 = 1_000;

#[test]
fn resume_extends_cooldowns_by_pause_duration() {
    let now: u64 = 5_000_000;
    let mut state = CooldownState::new();
    state.spells[0].cooldown_until = Some(now + 10 * SECOND);
    state.paused = true;
    state.pause_started = Some(now);

    state.apply_pause_state(false, now + 4 * SECOND);

    let cooldown_until = state.spells[0].cooldown_until.unwrap();
    assert_eq!(cooldown_until.saturating_sub(now), 14 * SECOND);
    assert!(!state.paused);
    assert!(state.pause_started.is_none());
}

#[test]
fn external_refresh_clears_all_tracked_cooldowns() {
    let now: u64 = 5_000_000;
    let mut state = CooldownState::new();
    state.is_invoker = true;
    state.spells[0].known = true;
    state.spells[0].cooldown_until = Some(now + 10 * SECOND);
    state.spells[1].known = true;
    state.spells[1].cooldown_until = Some(now + 12 * SECOND);
    state.spells[2].known = true;
    state.spells[2].cooldown_until = Some(now + 14 * SECOND);

    let mut update = CooldownUpdate {
        is_invoker: true,
        is_play_active: true,
        is_hero_demo: true,
        paused: false,
        current_mana: Some(Reading::Finite { milli: 300_000, whole: true }),
        spells: [SpellSnapshot::default(); 10],
    };
    update.spells[0] = SpellSnapshot {
        cooldown_remaining: 0,
        cooldown_total: 0,
        mana_cost: None,
        known: true,
    };
    update.spells[1] = SpellSnapshot {
        cooldown_remaining: 0,
        cooldown_total: 0,
        mana_cost: None,
        known: true,
    };

    state.apply(update, now);

    assert!(state
        .spells
        .iter()
        .all(|spell| spell.cooldown_until.is_none()));
}

#[test]
fn single_ready_spell_does_not_clear_other_cooldowns() {
    let now: u64 = 5_000_000;
    let mut state = CooldownState::new();
    state.is_invoker = true;
    state.spells[0].known = true;
    state.spells[0].cooldown_until = Some(now + 10 * SECOND);
    state.spells[1].known = true;
    state.spells[1].cooldown_until = Some(now + 12 * SECOND);
    state.spells[2].known = true;
    state.spells[2].cooldown_until = Some(now + 14 * SECOND);

    let mut update = CooldownUpdate {
        is_invoker: true,
        is_play_active: true,
        is_hero_demo: true,
        paused: false,
        current_mana: Some(Reading::Finite { milli: 300_000, whole: true }),
        spells: [SpellSnapshot::default(); 10],
    };
    update.spells[0] = SpellSnapshot {
        cooldown_remaining: 0,
        cooldown_total: 0,
        mana_cost: None,
        known: true,
    };

    state.apply(update, now);

    assert!(state.spells[0].cooldown_until.is_none());
    assert!(state.spells[1].cooldown_until.is_some());
}

#[test]
fn cooldown_total_is_kept_while_counting_down() {
    let now: u64 = 5_000_000;
    let mut state = CooldownState::new();
    let mut update = CooldownUpdate {
        is_invoker: true,
        is_play_active: true,
        is_hero_demo: true,
        paused: false,
        current_mana: Some(Reading::Finite { milli: 300_000, whole: true }),
        spells: [SpellSnapshot::default(); 10],
    };
    update.spells[0] = SpellSnapshot {
        cooldown_remaining: 10 * SECOND,
        cooldown_total: 0,
        mana_cost: None,
        known: true,
    };

    state.apply(update.clone(), now);
    update.spells[0].cooldown_remaining = 8 * SECOND;
    state.apply(update, now);

    assert_eq!(state.spells[0].cooldown_total, 10 * SECOND);
}

#[test]
fn external_refresh_is_ignored_outside_hero_demo() {
    let now: u64 = 5_000_000;
    let mut state = CooldownState::new();
    state.is_invoker = true;
    state.spells[0].known = true;
    state.spells[0].cooldown_until = Some(now + 10 * SECOND);
    state.spells[1].known = true;
    state.spells[1].cooldown_until = Some(now + 12 * SECOND);
    state.spells[2].known = true;
    state.spells[2].cooldown_until = Some(now + 14 * SECOND);

    let mut update = CooldownUpdate {
        is_invoker: true,
        is_play_active: true,
        is_hero_demo: false,
        paused: false,
        current_mana: Some(Reading::Finite { milli: 300_000, whole: true }),
        spells: [SpellSnapshot::default(); 10],
    };
    update.spells[0] = SpellSnapshot {
        cooldown_remaining: 0,
        cooldown_total: 0,
        mana_cost: None,
        known: true,
    };
    update.spells[1] = SpellSnapshot {
        cooldown_remaining: 0,
        cooldown_total: 0,
        mana_cost: None,
        known: true,
    };

    state.apply(update, now);

    assert!(state.spells[0].cooldown_until.is_none());
    assert!(state.spells[1].cooldown_until.is_none());
    assert!(state.spells[2].cooldown_until.is_some());
}
