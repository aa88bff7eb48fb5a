use dota_2_gsi_invoker::config::{
    default_mana_cost, default_skill_ids, default_skill_order, resolve_config,
    resolve_skill_order, ConfigError, ConfigOverrides, ConfigSettings, ManaCostTable,
};

#[test]
fn default_config_has_ten_resolved_skills() {
    let config = ConfigSettings::default();

    assert_eq!(config.skill_order.len(), 10);
    assert_eq!(config.skill_order[0].id, "cold_snap");
}

#[test]
fn rejects_duplicate_skill_order_entries() {
    let mut skill_ids = default_skill_ids();
    skill_ids[1] = skill_ids[0].clone();

    let err = resolve_skill_order(&skill_ids, &default_mana_cost()).unwrap_err();

    assert!(err.message().contains("duplicate"));
}

#[test]
fn default_order_follows_canonical_order_with_default_costs() {
    let skills = default_skill_order(&default_mana_cost()).unwrap();
    let ids: Vec<&str> = skills.iter().map(|s| s.id).collect();
    assert_eq!(
        ids,
        vec![
            "cold_snap",
            "chaos_meteor",
            "deafening_blast",
            "ice_wall",
            "ghost_walk",
            "sun_strike",
            "emp",
            "alacrity",
            "forge_spirit",
            "tornado"
        ]
    );
    let costs: Vec<u16> = skills.iter().map(|s| s.mana_cost).collect();
    assert_eq!(costs, vec![100, 200, 250, 125, 175, 175, 125, 75, 75, 140]);
    assert_eq!(skills[1].asset, "Chaos_Meteor.webp");
}

#[test]
fn rejects_wrong_skill_count() {
    let mut skill_ids = default_skill_ids();
    skill_ids.pop();
    match resolve_skill_order(&skill_ids, &default_mana_cost()) {
        Err(ConfigError::WrongSkillCount(9)) => {}
        other => panic!("unexpected {:?}", other),
    }
    let err = resolve_skill_order(&skill_ids, &default_mana_cost()).unwrap_err();
    assert_eq!(
        err.message(),
        "skill_order must contain exactly 10 skills, found 9"
    );
}

#[test]
fn unlisted_costs_are_ignored() {
    let mut costs = default_mana_cost();
    costs.insert("quas".to_string(), 1);
    let with_extra = resolve_skill_order(&default_skill_ids(), &costs).unwrap();
    let plain = resolve_skill_order(&default_skill_ids(), &default_mana_cost()).unwrap();
    let a: Vec<(&str, u16)> = with_extra.iter().map(|s| (s.id, s.mana_cost)).collect();
    let b: Vec<(&str, u16)> = plain.iter().map(|s| (s.id, s.mana_cost)).collect();
    assert_eq!(a, b);
}

#[test]
fn rejects_unknown_skill() {
    let mut skill_ids = default_skill_ids();
    skill_ids[4] = "quas".to_string();
    match resolve_skill_order(&skill_ids, &default_mana_cost()) {
        Err(ConfigError::UnknownSkill(id)) => assert_eq!(id, "quas"),
        other => panic!("unexpected {:?}", other),
    }
}

#[test]
fn rejects_missing_mana_cost() {
    let mut costs = ManaCostTable::new();
    costs.insert("cold_snap".to_string(), 100);
    match resolve_skill_order(&default_skill_ids(), &costs) {
        Err(ConfigError::MissingManaCost(id)) => assert_eq!(id, "chaos_meteor"),
        other => panic!("unexpected {:?}", other),
    }
}

#[test]
fn first_problem_is_reported() {
    let mut skill_ids = default_skill_ids();
    skill_ids[2] = "quas".to_string();
    skill_ids[7] = skill_ids[0].clone();
    let err = resolve_skill_order(&skill_ids, &default_mana_cost()).unwrap_err();
    assert_eq!(err.message(), "unknown skill 'quas'");
}

#[test]
fn custom_order_is_kept() {
    let mut skill_ids = default_skill_ids();
    skill_ids.swap(0, 9);
    let skills = resolve_skill_order(&skill_ids, &default_mana_cost()).unwrap();
    assert_eq!(skills[0].id, "tornado");
    assert_eq!(skills[0].mana_cost, 140);
    assert_eq!(skills[9].id, "cold_snap");
}

#[test]
fn mana_cost_table_later_cost_wins() {
    let mut costs = ManaCostTable::new();
    costs.insert("emp".to_string(), 125);
    costs.insert("tornado".to_string(), 140);
    costs.insert("emp".to_string(), 90);
    assert_eq!(costs.get("emp"), Some(90));
    assert_eq!(costs.get("tornado"), Some(140));
    assert_eq!(costs.get("alacrity"), None);
}

#[test]
fn config_overrides_fall_back_to_defaults() {
    let settings = resolve_config(ConfigOverrides {
        gsi_port: Some(4000),
        debug_gsi: None,
        show_footer_row: Some(false),
        skill_mana_cost: None,
        skill_order: None,
    })
    .unwrap();
    assert_eq!(settings.gsi_port, 4000);
    assert!(!settings.debug_gsi);
    assert!(!settings.show_footer_row);
    assert_eq!(settings.skill_order.len(), 10);
    assert_eq!(settings.skill_order[9].id, "tornado");
}

#[test]
fn config_cost_table_replaces_defaults() {
    let mut costs = ManaCostTable::new();
    costs.insert("cold_snap".to_string(), 1);
    let err = resolve_config(ConfigOverrides {
        gsi_port: None,
        debug_gsi: None,
        show_footer_row: None,
        skill_mana_cost: Some(costs),
        skill_order: None,
    })
    .unwrap_err();
    assert_eq!(
        err.message(),
        "skill_mana_cost is missing value for skill 'chaos_meteor'"
    );
}
