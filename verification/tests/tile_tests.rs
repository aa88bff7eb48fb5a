use dota_2_gsi_invoker::decimal::Reading;
use dota_2_gsi_invoker::config::DisplaySkill;
use dota_2_gsi_invoker::cooldown::{OverlaySnapshot, SpellSnapshot};
use dota_2_gsi_invoker::tile::{
    cooldown_label, cooldown_sweep, overlay_height, overlay_visible, overlay_width,
    tile_grid_position, tile_state, CooldownSweep,
};

fn snapshot(mana: Option<i64>) -> OverlaySnapshot {
    OverlaySnapshot {
        is_invoker: true,
        paused: false,
        connected: true,
        current_mana: mana.map(|milli| Reading::Finite { milli, whole: true }),
        spells: [SpellSnapshot::default(); 10],
    }
}

#[test]
fn cooldown_labels_round_to_seconds() {
    assert_eq!(cooldown_label(0), None);
    assert_eq!(cooldown_label(499), None);
    assert_eq!(cooldown_label(500), Some(1));
    assert_eq!(cooldown_label(17_499), Some(17));
    assert_eq!(cooldown_label(17_500), Some(18));
}

#[test]
fn sweeps_follow_the_fraction_left() {
    assert_eq!(cooldown_sweep(5_000, 0), CooldownSweep::Full);
    assert_eq!(cooldown_sweep(9_950, 10_000), CooldownSweep::Full);
    assert_eq!(cooldown_sweep(100, 10_000), CooldownSweep::Empty);
    assert_eq!(cooldown_sweep(5_000, 10_000), CooldownSweep::Partial(24));
    assert_eq!(cooldown_sweep(101, 10_000), CooldownSweep::Partial(2));
    assert_eq!(cooldown_sweep(20_000, 10_000), CooldownSweep::Full);
}

#[test]
fn tiles_show_mana_shortage() {
    let skill = DisplaySkill { id: "emp", asset: "EMP.webp", mana_cost: 125 };
    let tile = tile_state(&snapshot(Some(124_000)), &skill).unwrap();
    assert_eq!(tile.spell, 6);
    assert_eq!(tile.mana_cost, 125);
    assert!(tile.missing_mana);
    let tile = tile_state(&snapshot(Some(124_500)), &skill).unwrap();
    assert!(!tile.missing_mana);

    let mut snap = snapshot(Some(124_000));
    snap.spells[6].mana_cost = Some(100);
    snap.spells[6].cooldown_remaining = 3_000;
    snap.spells[6].cooldown_total = 6_000;
    let tile = tile_state(&snap, &skill).unwrap();
    assert_eq!(tile.mana_cost, 100);
    assert!(!tile.missing_mana);
    assert_eq!(tile.cooldown_label, Some(3));
    assert_eq!(tile.sweep, CooldownSweep::Partial(24));

    let unknown = DisplaySkill { id: "quas", asset: "Quas.webp", mana_cost: 0 };
    assert!(tile_state(&snap, &unknown).is_none());
}

#[test]
fn overlay_needs_connected_invoker() {
    let mut snap = snapshot(None);
    assert!(overlay_visible(&snap));
    snap.connected = false;
    assert!(!overlay_visible(&snap));
}

#[test]
fn grid_positions() {
    assert_eq!(tile_grid_position(0), (0, 0));
    assert_eq!(tile_grid_position(4), (4, 0));
    assert_eq!(tile_grid_position(7), (2, 1));
}

#[test]
fn overlay_dimensions() {
    assert_eq!(overlay_width(), 266);
    assert_eq!(overlay_height(false), 113);
    assert_eq!(overlay_height(true), 164);
}
