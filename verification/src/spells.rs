//! The ten Invoker spells, their canonical identifiers and image assets, and
//! the lookups that map raw Dota ability names onto them.

use vstd::prelude::*;
use vstd::string::*;

use crate::text::{has_prefix, starts_with, str_eq};

verus! {

/// How many spells Invoker has.
pub const SPELL_COUNT: usize = 10;

/// One Invoker spell: its canonical identifier and the file name of its icon.
#[derive(Clone, Copy, Debug)]
pub struct InvokerSpell {
    pub id: &'static str,
    pub asset: &'static str,
}

impl InvokerSpell {
    /// A spell with the given identifier and icon file name.
    pub fn new(id: &'static str, asset: &'static str) -> (spell: Self)
        ensures
            spell.id == id,
            spell.asset == asset,
    {
        InvokerSpell { id, asset }
    }
}

/// Identifier of the spell in canonical position `i` (0 to 9).
pub open spec fn spell_id_at(i: int) -> Seq<char> {
    if i == 0 {
        "cold_snap"@
    } else if i == 1 {
        "chaos_meteor"@
    } else if i == 2 {
        "deafening_blast"@
    } else if i == 3 {
        "ice_wall"@
    } else if i == 4 {
        "ghost_walk"@
    } else if i == 5 {
        "sun_strike"@
    } else if i == 6 {
        "emp"@
    } else if i == 7 {
        "alacrity"@
    } else if i == 8 {
        "forge_spirit"@
    } else {
        "tornado"@
    }
}

/// Icon file name of the spell in canonical position `i` (0 to 9).
pub open spec fn spell_asset_at(i: int) -> Seq<char> {
    if i == 0 {
        "Cold_Snap.webp"@
    } else if i == 1 {
        "Chaos_Meteor.webp"@
    } else if i == 2 {
        "Deafening_Blast.webp"@
    } else if i == 3 {
        "Ice_Wall.webp"@
    } else if i == 4 {
        "Ghost_Walk.webp"@
    } else if i == 5 {
        "Sun_Strike.webp"@
    } else if i == 6 {
        "EMP.webp"@
    } else if i == 7 {
        "Alacrity.webp"@
    } else if i == 8 {
        "Forge_Spirit.webp"@
    } else {
        "Tornado.webp"@
    }
}

/// The spell in canonical position `i`.
pub open spec fn is_canonical_spell(spell: InvokerSpell, i: int) -> bool {
    spell.id@ == spell_id_at(i) && spell.asset@ == spell_asset_at(i)
}

/// The spell in canonical position `i` (0 to 9): the first five form the top
/// row of the default layout, the last five the bottom row.
pub fn canonical_spell(i: usize) -> (spell: InvokerSpell)
    requires
        i < SPELL_COUNT,
    ensures
        is_canonical_spell(spell, i as int),
{
    match i {
        0 => InvokerSpell::new("cold_snap", "Cold_Snap.webp"),
        1 => InvokerSpell::new("chaos_meteor", "Chaos_Meteor.webp"),
        2 => InvokerSpell::new("deafening_blast", "Deafening_Blast.webp"),
        3 => InvokerSpell::new("ice_wall", "Ice_Wall.webp"),
        4 => InvokerSpell::new("ghost_walk", "Ghost_Walk.webp"),
        5 => InvokerSpell::new("sun_strike", "Sun_Strike.webp"),
        6 => InvokerSpell::new("emp", "EMP.webp"),
        7 => InvokerSpell::new("alacrity", "Alacrity.webp"),
        8 => InvokerSpell::new("forge_spirit", "Forge_Spirit.webp"),
        _ => InvokerSpell::new("tornado", "Tornado.webp"),
    }
}

/// All ten spells in canonical order.
pub fn canonical_spells() -> (spells: [InvokerSpell; 10])
    ensures
        forall|i: int| 0 <= i < 10 ==> is_canonical_spell(#[trigger] spells@[i], i),
{
    [
        canonical_spell(0),
        canonical_spell(1),
        canonical_spell(2),
        canonical_spell(3),
        canonical_spell(4),
        canonical_spell(5),
        canonical_spell(6),
        canonical_spell(7),
        canonical_spell(8),
        canonical_spell(9),
    ]
}

/// The raw ability name with a leading `invoker_`, or failing that a leading
/// `special_bonus_unique_invoker_`, taken off.
pub open spec fn spec_normalize(raw: Seq<char>) -> Seq<char> {
    if has_prefix(raw, "invoker_"@) {
        raw.skip("invoker_"@.len() as int)
    } else if has_prefix(raw, "special_bonus_unique_invoker_"@) {
        raw.skip("special_bonus_unique_invoker_"@.len() as int)
    } else {
        raw
    }
}

/// The first canonical position at or after `from` whose identifier is `id`.
pub open spec fn spell_position_from(id: Seq<char>, from: int) -> Option<int>
    decreases 10 - from,
{
    if from >= 10 || from < 0 {
        None
    } else if spell_id_at(from) == id {
        Some(from)
    } else {
        spell_position_from(id, from + 1)
    }
}

/// A position found by the search holds the identifier searched for.
pub proof fn lemma_position_from_found(id: Seq<char>, from: int)
    ensures
        spell_position_from(id, from) matches Some(i) ==> from <= i < 10 && spell_id_at(i) == id,
    decreases 10 - from,
{
    if 0 <= from < 10 && spell_id_at(from) != id {
        lemma_position_from_found(id, from + 1);
    }
}

/// The canonical position whose identifier is `id`, if any.
pub open spec fn spell_position(id: Seq<char>) -> Option<int> {
    spell_position_from(id, 0)
}

/// The canonical position of the spell that a raw ability name denotes.
pub open spec fn spec_spell_index(raw: Seq<char>) -> Option<int> {
    spell_position(spec_normalize(raw))
}

/// Strips the `invoker_` or `special_bonus_unique_invoker_` prefix that Dota
/// puts in front of ability names.
pub fn normalize_ability_name(raw_name: &str) -> (name: &str)
    ensures
        name@ == spec_normalize(raw_name@),
{
    let short = "invoker_";
    let long = "special_bonus_unique_invoker_";
    proof {
        reveal_strlit("invoker_");
        reveal_strlit("special_bonus_unique_invoker_");
    }
    let n = raw_name.unicode_len();
    if starts_with(raw_name, short) {
        raw_name.substring_char(8, n)
    } else if starts_with(raw_name, long) {
        raw_name.substring_char(29, n)
    } else {
        raw_name
    }
}

/// The canonical position of the spell whose identifier is `id`.
fn position_of(id: &str) -> (r: Option<usize>)
    ensures
        match r {
            Some(i) => spell_position(id@) == Some(i as int) && i < 10 && spell_id_at(i as int)
                == id@,
            None => spell_position(id@) is None,
        },
{
    proof {
        lemma_position_from_found(id@, 0);
    }
    let mut i: usize = 0;
    while i < SPELL_COUNT
        invariant
            i <= 10,
            spell_position(id@) == spell_position_from(id@, i as int),
        decreases 10 - i,
    {
        let spell = canonical_spell(i);
        if str_eq(spell.id, id) {
            return Some(i);
        }
        i = i + 1;
    }
    None
}

/// The canonical position of the spell that a raw Dota ability name (such
/// as `invoker_cold_snap`) denotes.
pub fn spell_index(raw_name: &str) -> (r: Option<usize>)
    ensures
        match r {
            Some(i) => spec_spell_index(raw_name@) == Some(i as int) && i < 10,
            None => spec_spell_index(raw_name@) is None,
        },
{
    let normalized = normalize_ability_name(raw_name);
    position_of(normalized)
}

/// The spell whose canonical identifier is exactly `id`.
pub fn spell_by_id(id: &str) -> (r: Option<InvokerSpell>)
    ensures
        match r {
            Some(spell) => spell_position(id@) matches Some(i) && is_canonical_spell(spell, i)
                && spell.id@ == id@,
            None => spell_position(id@) is None,
        },
{
    match position_of(id) {
        Some(i) => {
            let spell = canonical_spell(i);
            assert(is_canonical_spell(spell, i as int));
            Some(spell)
        },
        None => None,
    }
}

} // verus!

verus! {

/// No two canonical spells share an identifier.
pub proof fn lemma_spell_ids_distinct(i: int, j: int)
    requires
        0 <= i < 10,
        0 <= j < 10,
        i != j,
    ensures
        spell_id_at(i) != spell_id_at(j),
{
    reveal_strlit("cold_snap");
    reveal_strlit("chaos_meteor");
    reveal_strlit("deafening_blast");
    reveal_strlit("ice_wall");
    reveal_strlit("ghost_walk");
    reveal_strlit("sun_strike");
    reveal_strlit("emp");
    reveal_strlit("alacrity");
    reveal_strlit("forge_spirit");
    reveal_strlit("tornado");
    assert(spell_id_at(i)[0] != spell_id_at(j)[0] || spell_id_at(i)[1] != spell_id_at(j)[1]
        || spell_id_at(i).len() != spell_id_at(j).len());
}

/// Each canonical identifier, bare or with the `invoker_` prefix that Dota
/// uses, is found at its own canonical position.
pub proof fn lemma_spell_index_of_canonical_id(i: int)
    requires
        0 <= i < 10,
    ensures
        spec_spell_index(spell_id_at(i)) == Some(i),
        spec_spell_index("invoker_"@ + spell_id_at(i)) == Some(i),
        spell_position(spell_id_at(i)) == Some(i),
{
    reveal_strlit("cold_snap");
    reveal_strlit("chaos_meteor");
    reveal_strlit("deafening_blast");
    reveal_strlit("ice_wall");
    reveal_strlit("ghost_walk");
    reveal_strlit("sun_strike");
    reveal_strlit("emp");
    reveal_strlit("alacrity");
    reveal_strlit("forge_spirit");
    reveal_strlit("tornado");
    reveal_strlit("invoker_");
    reveal_strlit("special_bonus_unique_invoker_");
    let id = spell_id_at(i);
    assert(!has_prefix(id, "invoker_"@)) by {
        if has_prefix(id, "invoker_"@) {
            assert(id[1] == "invoker_"@[1]);
        }
    }
    assert(!has_prefix(id, "special_bonus_unique_invoker_"@)) by {
        if has_prefix(id, "special_bonus_unique_invoker_"@) {
            assert(id[1] == "special_bonus_unique_invoker_"@[1]);
        }
    }
    let prefixed = "invoker_"@ + id;
    assert(prefixed.subrange(0, 8) =~= "invoker_"@);
    assert(prefixed.skip(8) =~= id);
    lemma_position_reaches(id, 0, i);
}

/// Searching from any position at or before `i` finds `i` when no earlier
/// position holds the identifier of `i`.
proof fn lemma_position_reaches(id: Seq<char>, from: int, i: int)
    requires
        0 <= from <= i < 10,
        id == spell_id_at(i),
    ensures
        spell_position_from(id, from) == Some(i),
    decreases i - from,
{
    if from < i {
        lemma_spell_ids_distinct(from, i);
        lemma_position_reaches(id, from + 1, i);
    }
}

} // verus!
