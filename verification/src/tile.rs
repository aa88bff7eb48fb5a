//! What each tile of the overlay shows, decided from a snapshot; the drawing
//! itself is left to the window.

use vstd::prelude::*;

use crate::config::DisplaySkill;
use crate::cooldown::{OverlaySnapshot, SpellSnapshot};
use crate::decimal::Reading;
use crate::spells::{spec_spell_index, spell_index};

verus! {

/// Tiles per row.
pub const TILES_PER_ROW: usize = 5;

/// Most segments in the cooldown sweep.
pub const MAX_SWEEP_SEGMENTS: u64 = 48;

/// How the dark cooldown sweep over a tile is drawn.
#[derive(Clone, Copy, Debug, PartialEq, Eq, Structural)]
pub enum CooldownSweep {
    /// At least 99% of the cooldown is left: the whole tile is darkened.
    Full,
    /// At most 1% is left: no sweep.
    Empty,
    /// A sector covering the remaining fraction, drawn in this many segments.
    Partial(u64),
}

/// What one tile shows.
#[derive(Clone, Copy, Debug)]
pub struct TileState {
    /// Canonical position of the tile's spell.
    pub spell: usize,
    /// Mana cost shown: the one the game reports, or the configured one.
    pub mana_cost: u16,
    /// The player lacks the mana to cast the spell.
    pub missing_mana: bool,
    /// Seconds shown over a cooling-down tile.
    pub cooldown_label: Option<u32>,
    /// How the cooldown sweep is drawn.
    pub sweep: CooldownSweep,
}

/// The seconds shown for a remaining cooldown (ms): rounded half up and held
/// at `u32::MAX`; nothing once that is 0.
pub open spec fn label_for(remaining_ms: u64) -> Option<u32> {
    let seconds = (remaining_ms + 500) / 1000;
    if seconds == 0 {
        None
    } else if seconds > u32::MAX {
        Some(u32::MAX)
    } else {
        Some(seconds as u32)
    }
}

/// The sweep for `remaining` of a cooldown of length `total` (both ms). The
/// fraction left is `remaining / total`, at most 1; a cooldown of unknown
/// length counts as wholly left.
pub open spec fn sweep_for(remaining: u64, total: u64) -> CooldownSweep {
    let left: int = if remaining > total {
        total as int
    } else {
        remaining as int
    };
    if total == 0 || 100 * left >= 99 * total {
        CooldownSweep::Full
    } else if 100 * left <= total {
        CooldownSweep::Empty
    } else {
        let segments = (48 * left + total - 1) / (total as int);
        CooldownSweep::Partial(
            if segments < 2 {
                2
            } else {
                segments as u64
            },
        )
    }
}

/// The player's mana is short of `cost` by more than half a point: a finite
/// mana `m` with `m + 0.5 < cost` (which its value rounded down to
/// thousandths decides), or a negative infinity; not-a-number is short of
/// nothing.
pub open spec fn lacks_mana(current_mana: Option<Reading>, cost: u16) -> bool {
    match current_mana {
        Some(Reading::Finite { milli, .. }) => milli + 500 < cost * 1000,
        Some(Reading::Infinite { negative }) => negative,
        _ => false,
    }
}

/// The overlay draws its tiles only for a connected Invoker.
pub open spec fn overlay_shown(snapshot: OverlaySnapshot) -> bool {
    snapshot.connected && snapshot.is_invoker
}

/// What the tile for `skill` shows of `snapshot`.
pub open spec fn tile_for(snapshot: OverlaySnapshot, skill: DisplaySkill, spell: int) -> TileState {
    let state: SpellSnapshot = snapshot.spells@[spell];
    let cost = match state.mana_cost {
        Some(c) => c,
        None => skill.mana_cost,
    };
    TileState {
        spell: spell as usize,
        mana_cost: cost,
        missing_mana: overlay_shown(snapshot) && lacks_mana(snapshot.current_mana, cost),
        cooldown_label: label_for(state.cooldown_remaining),
        sweep: sweep_for(state.cooldown_remaining, state.cooldown_total),
    }
}

/// The seconds shown over a tile whose cooldown has `remaining_ms` left.
pub fn cooldown_label(remaining_ms: u64) -> (r: Option<u32>)
    ensures
        r == label_for(remaining_ms),
{
    let seconds = remaining_ms / 1000 + if remaining_ms % 1000 >= 500 {
        1
    } else {
        0
    };
    assert(seconds == (remaining_ms + 500) / 1000) by (nonlinear_arith)
        requires
            seconds == remaining_ms / 1000 + if remaining_ms % 1000 >= 500 {
                1int
            } else {
                0int
            },
    ;
    if seconds == 0 {
        None
    } else if seconds > 4294967295 {
        Some(u32::MAX)
    } else {
        Some(seconds as u32)
    }
}

/// How the cooldown sweep is drawn for `remaining` of `total` (both ms).
pub fn cooldown_sweep(remaining: u64, total: u64) -> (r: CooldownSweep)
    ensures
        r == sweep_for(remaining, total),
{
    let left: u128 = if remaining > total {
        total as u128
    } else {
        remaining as u128
    };
    let whole = total as u128;
    if total == 0 || 100 * left >= 99 * whole {
        return CooldownSweep::Full;
    }
    if 100 * left <= whole {
        return CooldownSweep::Empty;
    }
    let segments = (48 * left + whole - 1) / whole;
    assert(segments <= 48) by (nonlinear_arith)
        requires
            segments == (48 * left + whole - 1) / (whole as int),
            left <= whole,
            whole > 0,
    ;
    CooldownSweep::Partial(
        if segments < 2 {
            2
        } else {
            segments as u64
        },
    )
}

/// Whether the overlay draws its tiles for this snapshot.
pub fn overlay_visible(snapshot: &OverlaySnapshot) -> (r: bool)
    ensures
        r == overlay_shown(*snapshot),
{
    snapshot.connected && snapshot.is_invoker
}

/// The column and row of the tile at position `index` of the skill order.
pub fn tile_grid_position(index: usize) -> (r: (usize, usize))
    ensures
        r.0 == index % 5,
        r.1 == index / 5,
{
    (index % TILES_PER_ROW, index / TILES_PER_ROW)
}

/// What the tile for `skill` shows of `snapshot`; `None` when the skill is
/// none of Invoker's spells.
pub fn tile_state(snapshot: &OverlaySnapshot, skill: &DisplaySkill) -> (r: Option<TileState>)
    ensures
        match r {
            Some(tile) => spec_spell_index(skill.id@) == Some(tile.spell as int) && tile == tile_for(
                *snapshot,
                *skill,
                tile.spell as int,
            ),
            None => spec_spell_index(skill.id@) is None,
        },
{
    let spell = match spell_index(skill.id) {
        Some(i) => i,
        None => {
            return None;
        },
    };
    let state = snapshot.spells[spell];
    let cost = match state.mana_cost {
        Some(c) => c,
        None => skill.mana_cost,
    };
    let lacking = match snapshot.current_mana {
        Some(Reading::Finite { milli, .. }) => (milli as i128) + 500 < (cost as i128) * 1000,
        Some(Reading::Infinite { negative }) => negative,
        _ => false,
    };
    Some(
        TileState {
            spell,
            mana_cost: cost,
            missing_mana: snapshot.connected && snapshot.is_invoker && lacking,
            cooldown_label: cooldown_label(state.cooldown_remaining),
            sweep: cooldown_sweep(state.cooldown_remaining, state.cooldown_total),
        },
    )
}

/// Side of a tile, in points.
pub const TILE_SIZE: u32 = 46;

/// Space between tiles, in points.
pub const TILE_GAP: u32 = 5;

/// Margin around the grid, in points.
pub const PANEL_PADDING: u32 = 8;

/// Height of the overlay: two rows of tiles, and a third, empty one below
/// them when the footer row is shown.
pub fn overlay_height(show_footer_row: bool) -> (h: u32)
    ensures
        h == 2 * PANEL_PADDING + TILE_SIZE * (if show_footer_row { 3u32 } else { 2u32 }) + TILE_GAP
            * (if show_footer_row { 2u32 } else { 1u32 }),
{
    let rows: u32 = if show_footer_row {
        3
    } else {
        2
    };
    2 * PANEL_PADDING + TILE_SIZE * rows + TILE_GAP * (rows - 1)
}

/// Width of the overlay: five tiles with the gaps between them.
pub fn overlay_width() -> (w: u32)
    ensures
        w == 2 * PANEL_PADDING + TILE_SIZE * 5 + TILE_GAP * 4,
{
    2 * PANEL_PADDING + TILE_SIZE * 5 + TILE_GAP * 4
}

/// For a connected Invoker, a tile is marked short of mana exactly when the
/// current mana plus half a point is below the tile's cost: a finite mana
/// whose value in thousandths, rounded down, plus 500 is below the cost in
/// thousandths, or a negative infinity. The spell's cooldown plays no part.
pub proof fn lemma_missing_mana_is_mana_below_cost(
    snapshot: OverlaySnapshot,
    skill: DisplaySkill,
    spell: int,
)
    requires
        0 <= spell < 10,
        snapshot.connected,
        snapshot.is_invoker,
    ensures
        ({
            let tile = tile_for(snapshot, skill, spell);
            tile.missing_mana == match snapshot.current_mana {
                Some(Reading::Finite { milli, .. }) => milli + 500 < tile.mana_cost * 1000,
                Some(Reading::Infinite { negative }) => negative,
                _ => false,
            }
        }),
{
}

/// Two snapshots that differ only in a spell's remaining cooldown and total
/// mark its tile short of mana alike.
pub proof fn lemma_missing_mana_ignores_cooldown(
    a: OverlaySnapshot,
    b: OverlaySnapshot,
    skill: DisplaySkill,
    spell: int,
)
    requires
        0 <= spell < 10,
        a.connected == b.connected,
        a.is_invoker == b.is_invoker,
        a.current_mana == b.current_mana,
        a.spells@[spell].mana_cost == b.spells@[spell].mana_cost,
    ensures
        tile_for(a, skill, spell).missing_mana == tile_for(b, skill, spell).missing_mana,
        tile_for(a, skill, spell).mana_cost == tile_for(b, skill, spell).mana_cost,
{
}

} // verus!
