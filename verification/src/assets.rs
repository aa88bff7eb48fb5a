//! The spell icons that ship with the overlay.

use vstd::prelude::*;

use crate::spells::{canonical_spell, spell_asset_at, SPELL_COUNT};
use crate::text::str_eq;

verus! {

/// Which shipped icon an asset file name denotes: the canonical position of
/// the spell whose icon it is, or `None` for a name that ships with no icon.
pub fn spell_image(asset_name: &str) -> (r: Option<usize>)
    ensures
        match r {
            Some(i) => i < 10 && spell_asset_at(i as int) == asset_name@,
            None => forall|i: int| 0 <= i < 10 ==> spell_asset_at(i) != asset_name@,
        },
{
    let mut i: usize = 0;
    while i < SPELL_COUNT
        invariant
            i <= 10,
            forall|j: int| 0 <= j < i ==> spell_asset_at(j) != asset_name@,
        decreases 10 - i,
    {
        if str_eq(canonical_spell(i).asset, asset_name) {
            return Some(i);
        }
        i = i + 1;
    }
    None
}

} // verus!
