use dota_2_gsi_invoker::config::DisplaySkill;
use dota_2_gsi_invoker::cooldown::{OverlaySnapshot, SpellSnapshot};
use dota_2_gsi_invoker::decimal::{read_decimal, read_number, Reading, MAX_MILLI};
use dota_2_gsi_invoker::gsi::{parse_invoker_cooldowns, GsiError};
use dota_2_gsi_invoker::tile::tile_state;

fn finite(milli: i64, whole: bool) -> Option<Reading> {
    Some(Reading::Finite { milli, whole })
}

#[test]
fn infinity_and_nan_words_are_read() {
    assert_eq!(read_number("NaN"), Some(Reading::NotANumber));
    assert_eq!(read_number("-nan"), Some(Reading::NotANumber));
    assert_eq!(read_number("inf"), Some(Reading::Infinite { negative: false }));
    assert_eq!(read_number("-INF"), Some(Reading::Infinite { negative: true }));
    assert_eq!(read_number("+Infinity"), Some(Reading::Infinite { negative: false }));
    assert_eq!(read_number("infinit"), None);
    assert_eq!(read_number("nan1"), None);
    assert_eq!(read_number(" inf"), None);
    assert_eq!(read_decimal("inf"), None);
    assert_eq!(read_number("17.5"), finite(17_500, true));
}

#[test]
fn decimals_round_down_and_tell_whole_thousandths() {
    assert_eq!(read_decimal("0.0004"), finite(0, false));
    assert_eq!(read_decimal("-0.0004"), finite(-1, false));
    assert_eq!(read_decimal("-1.5"), finite(-1_500, true));
    assert_eq!(read_decimal("2.0005"), finite(2_000, false));
    assert_eq!(read_decimal("2.0000"), finite(2_000, true));
    assert_eq!(read_decimal("4e-4"), finite(0, false));
    assert_eq!(read_decimal("1e400"), finite(MAX_MILLI, true));
    assert_eq!(read_decimal("-1e400"), finite(-MAX_MILLI, true));
    assert_eq!(read_decimal("-0"), finite(0, true));
    assert_eq!(read_decimal("x"), None);
}

#[test]
fn tiny_level_or_cooldown_marks_spell_known() {
    let payload = br#"{
        "abilities": {
            "a": {"name": "invoker_emp", "level": 0.0004},
            "b": {"name": "invoker_alacrity", "level": "0", "cooldown": "0.0004"},
            "c": {"name": "invoker_cold_snap", "level": "-0.0004"}
        }
    }"#;
    let update = parse_invoker_cooldowns(payload).unwrap();
    assert!(update.spells[6].known);
    assert!(update.spells[7].known);
    assert_eq!(update.spells[7].cooldown_remaining, 0);
    assert!(!update.spells[0].known);
}

#[test]
fn word_values_are_read_as_the_game_reader_does() {
    let payload = br#"{
        "player": {"mana": "NaN"},
        "hero": {"mana": 50},
        "abilities": {
            "a": {"name": "invoker_emp", "level": 1, "mana_cost": "NaN"},
            "b": {"name": "invoker_alacrity", "level": 1, "mana_cost": "inf", "cooldown": "infinity"},
            "c": {"name": "invoker_cold_snap", "level": "nan", "cooldown": "NAN", "manacost": "-inf"}
        }
    }"#;
    let update = parse_invoker_cooldowns(payload).unwrap();
    assert_eq!(update.current_mana, Some(Reading::NotANumber));
    assert_eq!(update.spells[6].mana_cost, Some(0));
    assert_eq!(update.spells[7].mana_cost, Some(65_535));
    assert_eq!(update.spells[7].cooldown_remaining, MAX_MILLI as u64);
    assert!(update.spells[7].known);
    assert_eq!(update.spells[0].mana_cost, Some(0));
    assert_eq!(update.spells[0].cooldown_remaining, 0);
    assert!(!update.spells[0].known);
}

fn snapshot(mana: Option<Reading>) -> OverlaySnapshot {
    OverlaySnapshot {
        is_invoker: true,
        paused: false,
        connected: true,
        current_mana: mana,
        spells: [SpellSnapshot::default(); 10],
    }
}

#[test]
fn mana_shortage_for_every_reading() {
    let free = DisplaySkill { id: "emp", asset: "EMP.webp", mana_cost: 0 };
    let dear = DisplaySkill { id: "emp", asset: "EMP.webp", mana_cost: 125 };
    let short = |mana: Option<Reading>, skill: &DisplaySkill| {
        tile_state(&snapshot(mana), skill).unwrap().missing_mana
    };
    assert!(short(Some(Reading::Infinite { negative: true }), &free));
    assert!(!short(Some(Reading::Infinite { negative: false }), &dear));
    assert!(!short(Some(Reading::NotANumber), &dear));
    assert!(!short(None, &dear));
    // -0.5005 + 0.5 < 0, while -0.5 + 0.5 is not.
    assert_eq!(read_decimal("-0.5005"), finite(-501, false));
    assert!(short(read_decimal("-0.5005"), &free));
    assert!(!short(read_decimal("-0.5"), &free));
}

#[test]
fn malformed_payload_carries_the_parser_message() {
    let payload = b"{\"hero\": ";
    let expected = serde_json::from_slice::<serde_json::Value>(payload).unwrap_err().to_string();
    match parse_invoker_cooldowns(payload) {
        Err(GsiError::MalformedJson(message)) => assert_eq!(message, expected),
        Ok(_) => panic!("accepted malformed JSON"),
    }
}
