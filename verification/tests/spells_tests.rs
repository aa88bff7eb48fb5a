use dota_2_gsi_invoker::assets::spell_image;
use dota_2_gsi_invoker::spells::{
    canonical_spells, normalize_ability_name, spell_by_id, spell_index, InvokerSpell,
};

#[test]
fn normalizes_both_prefixes() {
    assert_eq!(normalize_ability_name("invoker_cold_snap"), "cold_snap");
    assert_eq!(
        normalize_ability_name("special_bonus_unique_invoker_tornado"),
        "tornado"
    );
    assert_eq!(normalize_ability_name("quas"), "quas");
    assert_eq!(normalize_ability_name("invoker_invoker_emp"), "invoker_emp");
}

#[test]
fn spell_index_finds_canonical_positions() {
    assert_eq!(spell_index("invoker_cold_snap"), Some(0));
    assert_eq!(spell_index("invoker_tornado"), Some(9));
    assert_eq!(spell_index("sun_strike"), Some(5));
    assert_eq!(spell_index("invoker_quas"), None);
    assert_eq!(spell_index(""), None);
    for (i, spell) in canonical_spells().iter().enumerate() {
        assert_eq!(spell_index(spell.id), Some(i));
        assert_eq!(spell_index(&format!("invoker_{}", spell.id)), Some(i));
    }
}

#[test]
fn spell_by_id_needs_the_bare_identifier() {
    let spell = spell_by_id("emp").unwrap();
    assert_eq!(spell.id, "emp");
    assert_eq!(spell.asset, "EMP.webp");
    assert!(spell_by_id("invoker_emp").is_none());
}

#[test]
fn new_spell_keeps_its_fields() {
    let spell = InvokerSpell::new("alacrity", "Alacrity.webp");
    assert_eq!(spell.id, "alacrity");
    assert_eq!(spell.asset, "Alacrity.webp");
}

#[test]
fn spell_images_are_found_by_file_name() {
    assert_eq!(spell_image("Cold_Snap.webp"), Some(0));
    assert_eq!(spell_image("Tornado.webp"), Some(9));
    assert_eq!(spell_image("tornado.webp"), None);
}
