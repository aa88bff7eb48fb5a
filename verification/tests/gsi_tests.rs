use dota_2_gsi_invoker::decimal::Reading;
use dota_2_gsi_invoker::decimal::parse_decimal_milli;
use dota_2_gsi_invoker::gsi::{is_play_active_state, parse_invoker_cooldowns, GsiError};
use dota_2_gsi_invoker::spells::spell_index;

#[test]
fn parses_invoker_ability_cooldowns() {
    let payload = br#"{
        "hero": {"name": "npc_dota_hero_invoker"},
        "map": {
            "name": "hero_demo_main",
            "game_state": "DOTA_GAMERULES_STATE_GAME_IN_PROGRESS",
            "paused": true,
            "customgamename": "common/dota 2 beta/game/dota_addons/hero_demo"
        },
        "player": {"mana": 120},
        "abilities": {
            "ability0": {"name": "invoker_cold_snap", "level": 1, "cooldown": 17.5},
            "ability1": {"name": "invoker_tornado", "level": 4, "cooldown": 0, "mana_cost": 140}
        }
    }"#;

    let update = parse_invoker_cooldowns(payload).unwrap();

    assert!(update.is_invoker);
    assert!(update.is_play_active);
    assert!(update.is_hero_demo);
    assert!(update.paused);
    assert_eq!(update.current_mana, Some(Reading::Finite { milli: 120_000, whole: true }));
    assert_eq!(update.spells[0].cooldown_remaining, 17_500);
    assert_eq!(update.spells[0].cooldown_total, 0);
    let tornado = spell_index("invoker_tornado").unwrap();
    assert_eq!(update.spells[tornado].mana_cost, Some(140));
    assert!(update.spells[tornado].known);
}

#[test]
fn detects_non_demo_map() {
    let payload = br#"{
        "hero": {"name": "npc_dota_hero_invoker"},
        "map": {"name": "start", "paused": false},
        "abilities": {}
    }"#;

    let update = parse_invoker_cooldowns(payload).unwrap();

    assert!(update.is_invoker);
    assert!(!update.is_hero_demo);
}

#[test]
fn detects_pre_game_as_play_active() {
    let payload = br#"{
        "hero": {"name": "npc_dota_hero_invoker"},
        "map": {
            "name": "start",
            "game_state": "DOTA_GAMERULES_STATE_PRE_GAME",
            "paused": false
        },
        "abilities": {}
    }"#;

    let update = parse_invoker_cooldowns(payload).unwrap();

    assert!(update.is_invoker);
    assert!(update.is_play_active);
}

#[test]
fn detects_hero_selection_as_not_play_active() {
    let payload = br#"{
        "hero": {"name": "npc_dota_hero_invoker"},
        "map": {
            "name": "start",
            "game_state": "DOTA_GAMERULES_STATE_HERO_SELECTION",
            "paused": false
        },
        "abilities": {}
    }"#;

    let update = parse_invoker_cooldowns(payload).unwrap();

    assert!(update.is_invoker);
    assert!(!update.is_play_active);
}

#[test]
fn malformed_payload_is_refused() {
    match parse_invoker_cooldowns(b"{\"hero\": ") {
        Err(GsiError::MalformedJson(message)) => assert!(!message.is_empty()),
        Ok(_) => panic!("accepted malformed JSON"),
    }
}

#[test]
fn other_hero_and_missing_fields() {
    let payload = br#"{"hero": {"name": "npc_dota_hero_lina", "mana": "250.5"}, "map": {"paused": "1"}}"#;
    let update = parse_invoker_cooldowns(payload).unwrap();
    assert!(!update.is_invoker);
    assert!(!update.is_play_active);
    assert!(!update.is_hero_demo);
    assert!(update.paused);
    assert_eq!(update.current_mana, Some(Reading::Finite { milli: 250_500, whole: true }));
    assert!(update.spells.iter().all(|s| !s.known && s.mana_cost.is_none()));
}

#[test]
fn ability_fields_fall_back_and_round() {
    let payload = br#"{
        "hero": {"name": "npc_dota_hero_invoker"},
        "map": {"custom_game_name": "x/dota_addons/hero_demo/y", "paused": "no"},
        "abilities": {
            "ability0": {"name": "invoker_emp", "level": 0, "cooldown_remaining": "3.25", "manacost": 124.5},
            "ability1": {"name": "invoker_alacrity", "level": 0, "cooldown": -4, "mana": -10},
            "ability2": {"name": "invoker_quas", "level": 7, "cooldown": 1},
            "ability3": {"name": 5, "level": 7}
        }
    }"#;
    let update = parse_invoker_cooldowns(payload).unwrap();
    assert!(update.is_hero_demo);
    assert!(!update.paused);
    let emp = &update.spells[6];
    assert_eq!(emp.cooldown_remaining, 3_250);
    assert_eq!(emp.mana_cost, Some(125));
    assert!(emp.known);
    let alacrity = &update.spells[7];
    assert_eq!(alacrity.cooldown_remaining, 0);
    assert_eq!(alacrity.mana_cost, Some(0));
    assert!(!alacrity.known);
}

#[test]
fn later_ability_entry_wins() {
    let payload = br#"{
        "abilities": {
            "a": {"name": "invoker_sun_strike", "level": 1, "cooldown": 10},
            "b": {"name": "invoker_sun_strike", "level": 1, "cooldown": 20}
        }
    }"#;
    let update = parse_invoker_cooldowns(payload).unwrap();
    assert_eq!(update.spells[5].cooldown_remaining, 20_000);
}

#[test]
fn exponent_numbers_are_read() {
    let payload = br#"{
        "player": {"mana": 1.5e2},
        "abilities": {"a": {"name": "invoker_emp", "level": 1, "cooldown": 2.5e-1}}
    }"#;
    let update = parse_invoker_cooldowns(payload).unwrap();
    assert_eq!(update.current_mana, Some(Reading::Finite { milli: 150_000, whole: true }));
    assert_eq!(update.spells[6].cooldown_remaining, 250);
}

#[test]
fn escaped_ability_keys_are_read() {
    let payload = br#"{
        "abilities": {"a/b~c": {"name": "invoker_ice_wall", "level": 2, "cooldown": 3}}
    }"#;
    let update = parse_invoker_cooldowns(payload).unwrap();
    assert_eq!(update.spells[3].cooldown_remaining, 3_000);
    assert!(update.spells[3].known);
}

#[test]
fn play_active_states() {
    assert!(is_play_active_state("DOTA_GAMERULES_STATE_PRE_GAME"));
    assert!(is_play_active_state("DOTA_GAMERULES_STATE_GAME_IN_PROGRESS"));
    assert!(!is_play_active_state("DOTA_GAMERULES_STATE_POST_GAME"));
    assert!(!is_play_active_state(""));
}

#[test]
fn decimal_texts() {
    assert_eq!(parse_decimal_milli("17.5"), Some(17_500));
    assert_eq!(parse_decimal_milli("120"), Some(120_000));
    assert_eq!(parse_decimal_milli("-3"), Some(-3_000));
    assert_eq!(parse_decimal_milli("+0.0019"), Some(1));
    assert_eq!(parse_decimal_milli(".5"), Some(500));
    assert_eq!(parse_decimal_milli("5."), Some(5_000));
    assert_eq!(parse_decimal_milli("."), None);
    assert_eq!(parse_decimal_milli(""), None);
    assert_eq!(parse_decimal_milli("1e3"), Some(1_000_000));
    assert_eq!(parse_decimal_milli("1.5e-2"), Some(15));
    assert_eq!(parse_decimal_milli("2E+1"), Some(20_000));
    assert_eq!(parse_decimal_milli("-1.5e1"), Some(-15_000));
    assert_eq!(parse_decimal_milli("1e-7"), Some(0));
    assert_eq!(parse_decimal_milli("1e400"), Some(1_000_000_000_000_000));
    assert_eq!(parse_decimal_milli("0.0e400"), Some(0));
    assert_eq!(
        parse_decimal_milli("1e99999999999999999999999999"),
        Some(1_000_000_000_000_000)
    );
    assert_eq!(parse_decimal_milli("5e-99999999999999999999999999"), Some(0));
    assert_eq!(parse_decimal_milli("1e"), None);
    assert_eq!(parse_decimal_milli("e5"), None);
    assert_eq!(parse_decimal_milli("1e+"), None);
    assert_eq!(parse_decimal_milli("1.5e2.5"), None);
    assert_eq!(parse_decimal_milli("1.2.3"), None);
    assert_eq!(
        parse_decimal_milli("99999999999999999999"),
        Some(1_000_000_000_000_000)
    );
}
