//! Reading a Dota 2 Game State Integration payload into a `CooldownUpdate`.
//!
//! Reading happens in two steps. `read_gsi_fields` looks up, through
//! `serde_json`, the leaves that matter (the hero's name, the map's state,
//! each ability's name, cooldown, level and mana cost); its contract names
//! each leaf as a function of the payload's bytes (`payload_fields`).
//! `update_from_fields` then decides everything else, and its contract
//! states the result exactly.

use vstd::prelude::*;
use vstd::string::*;

use crate::cooldown::{blank_snapshot, CooldownUpdate, SpellSnapshot};
use crate::decimal::{
    decimal_reading, number_reading, read_decimal, read_number, reading_positive, Reading, MAX_MILLI,
};
use crate::json::{
    json_accepts, json_leaf, json_leaf_at, json_parse_error, json_member_keys,
    json_member_keys_of, json_parse, JsonDoc,
};
use crate::spells::{spec_spell_index, spell_index};
use crate::text::{contains_seq, contains_str, str_eq};

verus! {

/// A JSON leaf, as far as the reader looks at it.
#[derive(Clone, Debug)]
pub enum JsonScalar {
    Bool(bool),
    /// A number, as its decimal text.
    Number(String),
    Text(String),
    /// Null, an array or an object.
    Other,
}

/// What a leaf is, with its text as characters.
pub enum LeafView {
    Bool(bool),
    Number(Seq<char>),
    Text(Seq<char>),
    Other,
}

impl View for JsonScalar {
    type V = LeafView;

    open spec fn view(&self) -> LeafView {
        match self {
            JsonScalar::Bool(b) => LeafView::Bool(*b),
            JsonScalar::Number(t) => LeafView::Number(t@),
            JsonScalar::Text(t) => LeafView::Text(t@),
            JsonScalar::Other => LeafView::Other,
        }
    }
}

/// The view of a leaf that may be absent.
pub open spec fn leaf_view_of(s: Option<JsonScalar>) -> Option<LeafView> {
    match s {
        Some(x) => Some(x@),
        None => None,
    }
}

/// The views of a list of candidate leaves.
pub open spec fn leaves_view(c: Seq<Option<JsonScalar>>) -> Seq<Option<LeafView>> {
    c.map_values(|x: Option<JsonScalar>| leaf_view_of(x))
}

/// The leaves of one entry of the payload's `abilities` object.
#[derive(Clone, Debug)]
pub struct AbilityFields {
    /// `name`
    pub name: Option<JsonScalar>,
    /// `cooldown`, `cooldown_remaining`, `cooldown_time`, in this order.
    pub cooldown: Vec<Option<JsonScalar>>,
    /// `level`
    pub level: Option<JsonScalar>,
    /// `mana_cost`, `manacost`, `mana_cost_current`, `mana`, in this order.
    pub mana_cost: Vec<Option<JsonScalar>>,
}

/// The leaves of one ability entry, as views.
pub struct AbilityView {
    pub name: Option<LeafView>,
    pub cooldown: Seq<Option<LeafView>>,
    pub level: Option<LeafView>,
    pub mana_cost: Seq<Option<LeafView>>,
}

impl View for AbilityFields {
    type V = AbilityView;

    open spec fn view(&self) -> AbilityView {
        AbilityView {
            name: leaf_view_of(self.name),
            cooldown: leaves_view(self.cooldown@),
            level: leaf_view_of(self.level),
            mana_cost: leaves_view(self.mana_cost@),
        }
    }
}

/// The views of a list of ability entries.
pub open spec fn abilities_view(a: Seq<AbilityFields>) -> Seq<AbilityView> {
    a.map_values(|x: AbilityFields| x@)
}

/// The leaves of a payload that the tracker reads.
#[derive(Clone, Debug)]
pub struct GsiFields {
    /// `/hero/name`
    pub hero_name: Option<JsonScalar>,
    /// `/map/game_state`
    pub game_state: Option<JsonScalar>,
    /// `/map/paused`
    pub paused: Option<JsonScalar>,
    /// `/map/name`
    pub map_name: Option<JsonScalar>,
    /// `/map/customgamename`, `/map/custom_game_name`, in this order.
    pub custom_game_name: Vec<Option<JsonScalar>>,
    /// `/player/mana`, `/hero/mana`, in this order.
    pub mana: Vec<Option<JsonScalar>>,
    /// The members of `abilities`, in key order, when it is an object.
    pub abilities: Option<Vec<AbilityFields>>,
}

/// The leaves of a payload, as views.
pub struct FieldsView {
    pub hero_name: Option<LeafView>,
    pub game_state: Option<LeafView>,
    pub paused: Option<LeafView>,
    pub map_name: Option<LeafView>,
    pub custom_game_name: Seq<Option<LeafView>>,
    pub mana: Seq<Option<LeafView>>,
    pub abilities: Option<Seq<AbilityView>>,
}

impl View for GsiFields {
    type V = FieldsView;

    open spec fn view(&self) -> FieldsView {
        FieldsView {
            hero_name: leaf_view_of(self.hero_name),
            game_state: leaf_view_of(self.game_state),
            paused: leaf_view_of(self.paused),
            map_name: leaf_view_of(self.map_name),
            custom_game_name: leaves_view(self.custom_game_name@),
            mana: leaves_view(self.mana@),
            abilities: match self.abilities {
                Some(a) => Some(abilities_view(a@)),
                None => None,
            },
        }
    }
}

// ----------------------------------------------------------------------------
// Where the leaves are
// ----------------------------------------------------------------------------

/// `key` as one token of a JSON pointer: `~` written `~0`, `/` written `~1`.
pub open spec fn pointer_token(key: Seq<char>) -> Seq<char>
    decreases key.len(),
{
    if key.len() == 0 {
        Seq::empty()
    } else {
        pointer_token(key.drop_last()) + if key.last() == '~' {
            seq!['~', '0']
        } else if key.last() == '/' {
            seq!['~', '1']
        } else {
            seq![key.last()]
        }
    }
}

/// The pointer to the member `field` of the entry `key` of `abilities`.
pub open spec fn ability_pointer(key: Seq<char>, field: Seq<char>) -> Seq<char> {
    "/abilities/"@ + pointer_token(key) + "/"@ + field
}

/// The leaves of the entry `key` of `abilities` in the payload `doc`.
pub open spec fn payload_ability(doc: Seq<u8>, key: Seq<char>) -> AbilityView {
    AbilityView {
        name: json_leaf(doc, ability_pointer(key, "name"@)),
        cooldown: seq![
            json_leaf(doc, ability_pointer(key, "cooldown"@)),
            json_leaf(doc, ability_pointer(key, "cooldown_remaining"@)),
            json_leaf(doc, ability_pointer(key, "cooldown_time"@)),
        ],
        level: json_leaf(doc, ability_pointer(key, "level"@)),
        mana_cost: seq![
            json_leaf(doc, ability_pointer(key, "mana_cost"@)),
            json_leaf(doc, ability_pointer(key, "manacost"@)),
            json_leaf(doc, ability_pointer(key, "mana_cost_current"@)),
            json_leaf(doc, ability_pointer(key, "mana"@)),
        ],
    }
}

/// The leaves that the tracker reads of the payload `doc`.
pub open spec fn payload_fields(doc: Seq<u8>) -> FieldsView {
    FieldsView {
        hero_name: json_leaf(doc, "/hero/name"@),
        game_state: json_leaf(doc, "/map/game_state"@),
        paused: json_leaf(doc, "/map/paused"@),
        map_name: json_leaf(doc, "/map/name"@),
        custom_game_name: seq![
            json_leaf(doc, "/map/customgamename"@),
            json_leaf(doc, "/map/custom_game_name"@),
        ],
        mana: seq![json_leaf(doc, "/player/mana"@), json_leaf(doc, "/hero/mana"@)],
        abilities: match json_member_keys(doc, "abilities"@) {
            Some(keys) => Some(keys.map_values(|k: Seq<char>| payload_ability(doc, k))),
            None => None,
        },
    }
}

// ----------------------------------------------------------------------------
// The meaning of the leaves
// ----------------------------------------------------------------------------

/// The string, if the leaf is one.
pub open spec fn scalar_text(s: Option<LeafView>) -> Option<Seq<char>> {
    match s {
        Some(LeafView::Text(t)) => Some(t),
        _ => None,
    }
}

/// The first candidate that is a string.
pub open spec fn first_text(c: Seq<Option<LeafView>>) -> Option<Seq<char>>
    decreases c.len(),
{
    if c.len() == 0 {
        None
    } else if scalar_text(c[0]) is Some {
        scalar_text(c[0])
    } else {
        first_text(c.drop_first())
    }
}

/// The value of a number, or of a string that holds one as
/// `str::parse::<f64>` reads it.
pub open spec fn scalar_number(s: Option<LeafView>) -> Option<Reading> {
    match s {
        Some(LeafView::Number(t)) => decimal_reading(t),
        Some(LeafView::Text(t)) => number_reading(t),
        _ => None,
    }
}

/// The first candidate that has a numeric value.
pub open spec fn first_number(c: Seq<Option<LeafView>>) -> Option<Reading>
    decreases c.len(),
{
    if c.len() == 0 {
        None
    } else if scalar_number(c[0]) is Some {
        scalar_number(c[0])
    } else {
        first_number(c.drop_first())
    }
}

/// A boolean, or one of the strings `true`, `1`, `false`, `0`.
pub open spec fn scalar_flag(s: Option<LeafView>) -> Option<bool> {
    match s {
        Some(LeafView::Bool(b)) => Some(b),
        Some(LeafView::Text(t)) => if t == "true"@ || t == "1"@ {
            Some(true)
        } else if t == "false"@ || t == "0"@ {
            Some(false)
        } else {
            None
        },
        _ => None,
    }
}

/// The game states in which a match is being played.
pub open spec fn play_active(game_state: Seq<char>) -> bool {
    game_state == "DOTA_GAMERULES_STATE_PRE_GAME"@ || game_state
        == "DOTA_GAMERULES_STATE_GAME_IN_PROGRESS"@
}

/// A mana amount in thousandths, rounded half away from zero to whole
/// points, negative amounts as 0, held at `u16::MAX`.
pub open spec fn mana_points(milli: int) -> u16 {
    if milli <= 0 {
        0
    } else if (milli + 500) / 1000 > u16::MAX {
        u16::MAX
    } else {
        ((milli + 500) / 1000) as u16
    }
}

/// A mana cost as whole points: a finite value rounded half away from
/// zero, negative values and not-a-number as 0, held at `u16::MAX`.
pub open spec fn reading_mana_points(r: Reading) -> u16 {
    match r {
        Reading::Finite { milli, .. } => mana_points(milli as int),
        Reading::Infinite { negative } => if negative {
            0
        } else {
            u16::MAX
        },
        Reading::NotANumber => 0,
    }
}

/// A cooldown in ms: negative values and not-a-number as 0, an infinite one
/// held at `MAX_MILLI`.
pub open spec fn reading_cooldown(r: Reading) -> int {
    match r {
        Reading::Finite { milli, .. } => if milli < 0 {
            0
        } else {
            milli as int
        },
        Reading::Infinite { negative } => if negative {
            0
        } else {
            MAX_MILLI as int
        },
        Reading::NotANumber => 0,
    }
}

/// The canonical position of the spell an ability entry reports.
pub open spec fn ability_index(a: AbilityView) -> Option<int> {
    match scalar_text(a.name) {
        Some(name) => spec_spell_index(name),
        None => None,
    }
}

/// The remaining cooldown (ms) an ability entry reports: an absent one
/// counts as 0.
pub open spec fn ability_cooldown(a: AbilityView) -> int {
    match first_number(a.cooldown) {
        Some(r) => reading_cooldown(r),
        None => 0,
    }
}

/// The ability entry reports a level above zero, or a cooldown above zero.
pub open spec fn ability_known(a: AbilityView) -> bool {
    (scalar_number(a.level) matches Some(l) && reading_positive(l)) || (first_number(
        a.cooldown,
    ) matches Some(c) && reading_positive(c))
}

/// What an ability entry reports of its spell.
pub open spec fn ability_snapshot(a: AbilityView) -> SpellSnapshot {
    SpellSnapshot {
        cooldown_remaining: ability_cooldown(a) as u64,
        cooldown_total: 0,
        mana_cost: match first_number(a.mana_cost) {
            Some(m) => Some(reading_mana_points(m)),
            None => None,
        },
        known: ability_known(a),
    }
}

/// What the entries report of the spell in canonical position `i`: the last
/// entry for that spell wins.
pub open spec fn reported_spell(abilities: Seq<AbilityView>, i: int) -> SpellSnapshot
    decreases abilities.len(),
{
    if abilities.len() == 0 {
        blank_snapshot()
    } else if ability_index(abilities.last()) == Some(i) {
        ability_snapshot(abilities.last())
    } else {
        reported_spell(abilities.drop_last(), i)
    }
}

/// What a payload's leaves make of spell `i`.
pub open spec fn fields_spell(f: FieldsView, i: int) -> SpellSnapshot {
    match f.abilities {
        Some(abilities) => reported_spell(abilities, i),
        None => blank_snapshot(),
    }
}

/// The custom game's name marks the hero demo.
pub open spec fn demo_game_name(c: Seq<Option<LeafView>>) -> bool {
    match first_text(c) {
        Some(name) => contains_seq(name, "dota_addons/hero_demo"@),
        None => false,
    }
}

/// The update that a payload's leaves describe.
pub open spec fn describes(u: CooldownUpdate, f: FieldsView) -> bool {
    &&& u.is_invoker == (scalar_text(f.hero_name) == Some("npc_dota_hero_invoker"@))
    &&& u.is_play_active == match scalar_text(f.game_state) {
        Some(s) => play_active(s),
        None => false,
    }
    &&& u.paused == (scalar_flag(f.paused) == Some(true))
    &&& u.is_hero_demo == (scalar_text(f.map_name) == Some("hero_demo_main"@) || demo_game_name(
        f.custom_game_name,
    ))
    &&& u.current_mana == first_number(f.mana)
    &&& forall|i: int| 0 <= i < 10 ==> #[trigger] u.spells@[i] == fields_spell(f, i)
}

// ----------------------------------------------------------------------------
// Deciding
// ----------------------------------------------------------------------------

/// Whether a leaf is a string equal to `expected`.
fn text_is(s: &Option<JsonScalar>, expected: &str) -> (r: bool)
    ensures
        r == (scalar_text(leaf_view_of(*s)) == Some(expected@)),
{
    match s {
        Some(JsonScalar::Text(t)) => str_eq(t.as_str(), expected),
        _ => false,
    }
}

/// The numeric value of a leaf.
fn number_of(s: &Option<JsonScalar>) -> (r: Option<Reading>)
    ensures
        r == scalar_number(leaf_view_of(*s)),
        r matches Some(Reading::Finite { milli, .. }) ==> -MAX_MILLI <= milli <= MAX_MILLI,
{
    match s {
        Some(JsonScalar::Number(t)) => read_decimal(t.as_str()),
        Some(JsonScalar::Text(t)) => read_number(t.as_str()),
        _ => None,
    }
}

/// The first candidate with a numeric value, in thousandths.
fn first_number_of(c: &Vec<Option<JsonScalar>>) -> (r: Option<Reading>)
    ensures
        r == first_number(leaves_view(c@)),
        r matches Some(Reading::Finite { milli, .. }) ==> -MAX_MILLI <= milli <= MAX_MILLI,
{
    let mut k: usize = 0;
    let ghost v = leaves_view(c@);
    assert(v.skip(0) =~= v);
    while k < c.len()
        invariant
            k <= c@.len(),
            v == leaves_view(c@),
            first_number(v) == first_number(v.skip(k as int)),
        decreases c@.len() - k,
    {
        assert(v.skip(k as int).drop_first() =~= v.skip(k + 1));
        assert(v.skip(k as int)[0] == leaf_view_of(c@[k as int]));
        match number_of(&c[k]) {
            Some(v) => {
                return Some(v);
            },
            None => {},
        }
        k = k + 1;
    }
    None
}

/// The first candidate that is a string.
fn first_text_of(c: &Vec<Option<JsonScalar>>) -> (r: Option<&String>)
    ensures
        match r {
            Some(t) => first_text(leaves_view(c@)) == Some(t@),
            None => first_text(leaves_view(c@)) is None,
        },
{
    let mut k: usize = 0;
    let ghost v = leaves_view(c@);
    assert(v.skip(0) =~= v);
    while k < c.len()
        invariant
            k <= c@.len(),
            v == leaves_view(c@),
            first_text(v) == first_text(v.skip(k as int)),
        decreases c@.len() - k,
    {
        assert(v.skip(k as int).drop_first() =~= v.skip(k + 1));
        assert(v.skip(k as int)[0] == leaf_view_of(c@[k as int]));
        match &c[k] {
            Some(JsonScalar::Text(t)) => {
                return Some(t);
            },
            _ => {},
        }
        k = k + 1;
    }
    None
}

/// Whether a game state is one in which a match is being played: the pre-game
/// or the game itself.
pub fn is_play_active_state(game_state: &str) -> (r: bool)
    ensures
        r == play_active(game_state@),
{
    str_eq(game_state, "DOTA_GAMERULES_STATE_PRE_GAME") || str_eq(
        game_state,
        "DOTA_GAMERULES_STATE_GAME_IN_PROGRESS",
    )
}

/// A mana cost as whole points.
fn mana_points_of(r: Reading) -> (p: u16)
    requires
        r matches Reading::Finite { milli, .. } ==> -MAX_MILLI <= milli <= MAX_MILLI,
    ensures
        p == reading_mana_points(r),
{
    match r {
        Reading::Finite { milli, .. } => if milli <= 0 {
            0
        } else if (milli + 500) / 1000 > 65535 {
            65535
        } else {
            ((milli + 500) / 1000) as u16
        },
        Reading::Infinite { negative } => if negative {
            0
        } else {
            65535
        },
        Reading::NotANumber => 0,
    }
}

/// A cooldown in ms.
fn cooldown_of(r: Reading) -> (ms: u64)
    ensures
        ms == reading_cooldown(r),
{
    match r {
        Reading::Finite { milli, .. } => if milli < 0 {
            0
        } else {
            milli as u64
        },
        Reading::Infinite { negative } => if negative {
            0
        } else {
            MAX_MILLI as u64
        },
        Reading::NotANumber => 0,
    }
}

/// The reading is of a value above zero.
fn positive(r: Reading) -> (b: bool)
    ensures
        b == reading_positive(r),
{
    match r {
        Reading::Finite { milli, whole } => milli > 0 || (milli == 0 && !whole),
        Reading::Infinite { negative } => !negative,
        Reading::NotANumber => false,
    }
}

/// What an ability entry reports of its spell.
fn snapshot_of_ability(a: &AbilityFields) -> (s: SpellSnapshot)
    ensures
        s == ability_snapshot(a@),
{
    let reported_cooldown = first_number_of(&a.cooldown);
    let (cooldown, cooling): (u64, bool) = match reported_cooldown {
        Some(r) => (cooldown_of(r), positive(r)),
        None => (0, false),
    };
    let levelled = match number_of(&a.level) {
        Some(l) => positive(l),
        None => false,
    };
    let mana_cost = match first_number_of(&a.mana_cost) {
        Some(m) => Some(mana_points_of(m)),
        None => None,
    };
    SpellSnapshot {
        cooldown_remaining: cooldown,
        cooldown_total: 0,
        mana_cost,
        known: levelled || cooling,
    }
}

/// Decides the update that a payload's leaves describe.
pub fn update_from_fields(fields: &GsiFields) -> (u: CooldownUpdate)
    ensures
        describes(u, fields@),
{
    let is_invoker = text_is(&fields.hero_name, "npc_dota_hero_invoker");
    let is_play_active = match &fields.game_state {
        Some(JsonScalar::Text(state)) => is_play_active_state(state.as_str()),
        _ => false,
    };
    let paused = match &fields.paused {
        Some(JsonScalar::Bool(b)) => *b,
        Some(JsonScalar::Text(t)) => str_eq(t.as_str(), "true") || str_eq(t.as_str(), "1"),
        _ => false,
    };
    proof {
        reveal_strlit("true");
        reveal_strlit("1");
        reveal_strlit("false");
        reveal_strlit("0");
    }
    let on_demo_map = text_is(&fields.map_name, "hero_demo_main");
    let in_demo_game = match first_text_of(&fields.custom_game_name) {
        Some(name) => contains_str(name.as_str(), "dota_addons/hero_demo"),
        None => false,
    };
    let current_mana = first_number_of(&fields.mana);

    let mut spells = [SpellSnapshot::default(); 10];
    match &fields.abilities {
        Some(abilities) => {
            let mut k: usize = 0;
            while k < abilities.len()
                invariant
                    k <= abilities@.len(),
                    spells@.len() == 10,
                    forall|i: int|
                        0 <= i < 10 ==> #[trigger] spells@[i] == reported_spell(
                            abilities_view(abilities@).take(k as int),
                            i,
                        ),
                decreases abilities@.len() - k,
            {
                let a = &abilities[k];
                proof {
                    let av = abilities_view(abilities@);
                    assert(av.take(k + 1).drop_last() =~= av.take(k as int));
                    assert(av.take(k + 1).last() == a@);
                }
                let index = match &a.name {
                    Some(JsonScalar::Text(name)) => spell_index(name.as_str()),
                    _ => None,
                };
                match index {
                    Some(i) => {
                        spells[i] = snapshot_of_ability(a);
                    },
                    None => {},
                }
                k = k + 1;
            }
            assert(abilities_view(abilities@).take(abilities@.len() as int) =~= abilities_view(
                abilities@,
            ));
        },
        None => {},
    }
    CooldownUpdate {
        is_invoker,
        is_play_active,
        is_hero_demo: on_demo_map || in_demo_game,
        paused,
        current_mana,
        spells,
    }
}

// ----------------------------------------------------------------------------
// Reading
// ----------------------------------------------------------------------------

/// The leaf that a JSON pointer addresses in the document.
fn leaf_at(doc: &JsonDoc, pointer: &str) -> (r: Option<JsonScalar>)
    ensures
        leaf_view_of(r) == json_leaf(doc@, pointer@),
{
    json_leaf_at(doc, pointer)
}

/// `key` as one token of a JSON pointer.
fn escape_token(key: &str) -> (token: String)
    ensures
        token@ == pointer_token(key@),
{
    let n = key.unicode_len();
    let mut token = String::new();
    let mut i: usize = 0;
    while i < n
        invariant
            n == key@.len(),
            i <= n,
            token@ == pointer_token(key@.take(i as int)),
        decreases n - i,
    {
        let c = key.get_char(i);
        proof {
            assert(key@.take(i + 1).drop_last() =~= key@.take(i as int));
            assert(key@.take(i + 1).last() == c);
        }
        proof {
            reveal_strlit("~0");
            reveal_strlit("~1");
        }
        if c == '~' {
            token.append("~0");
            assert(token@ =~= pointer_token(key@.take(i + 1)));
        } else if c == '/' {
            token.append("~1");
            assert(token@ =~= pointer_token(key@.take(i + 1)));
        } else {
            let one = key.substring_char(i, i + 1);
            token.append(one);
            assert(one@ =~= seq![c]);
            assert(token@ =~= pointer_token(key@.take(i + 1)));
        }
        i = i + 1;
    }
    assert(key@.take(n as int) =~= key@);
    token
}

/// The leaf under `field` of the entry `key` of `abilities`.
fn member(doc: &JsonDoc, key: &str, field: &str) -> (r: Option<JsonScalar>)
    ensures
        leaf_view_of(r) == json_leaf(doc@, ability_pointer(key@, field@)),
{
    let mut pointer = String::from_str("/abilities/");
    let token = escape_token(key);
    pointer.append(token.as_str());
    pointer.append("/");
    pointer.append(field);
    assert(pointer@ =~= ability_pointer(key@, field@));
    leaf_at(doc, pointer.as_str())
}

/// The leaves of the entry `key` of `abilities`.
fn read_ability(doc: &JsonDoc, key: &str) -> (a: AbilityFields)
    ensures
        a@ == payload_ability(doc@, key@),
{
    let mut cooldown: Vec<Option<JsonScalar>> = Vec::new();
    cooldown.push(member(doc, key, "cooldown"));
    cooldown.push(member(doc, key, "cooldown_remaining"));
    cooldown.push(member(doc, key, "cooldown_time"));
    let mut mana_cost: Vec<Option<JsonScalar>> = Vec::new();
    mana_cost.push(member(doc, key, "mana_cost"));
    mana_cost.push(member(doc, key, "manacost"));
    mana_cost.push(member(doc, key, "mana_cost_current"));
    mana_cost.push(member(doc, key, "mana"));
    let a = AbilityFields {
        name: member(doc, key, "name"),
        cooldown,
        level: member(doc, key, "level"),
        mana_cost,
    };
    assert(a@.cooldown =~= payload_ability(doc@, key@).cooldown);
    assert(a@.mana_cost =~= payload_ability(doc@, key@).mana_cost);
    a
}

/// Looks up the leaves of a parsed payload that the tracker reads.
pub fn read_gsi_fields(doc: &JsonDoc) -> (f: GsiFields)
    ensures
        f@ == payload_fields(doc@),
{
    let mut custom_game_name: Vec<Option<JsonScalar>> = Vec::new();
    custom_game_name.push(leaf_at(doc, "/map/customgamename"));
    custom_game_name.push(leaf_at(doc, "/map/custom_game_name"));
    let mut mana: Vec<Option<JsonScalar>> = Vec::new();
    mana.push(leaf_at(doc, "/player/mana"));
    mana.push(leaf_at(doc, "/hero/mana"));
    let abilities = match json_member_keys_of(doc, "abilities") {
        Some(keys) => {
            let ghost key_views = keys@.map_values(|k: String| k@);
            let mut read: Vec<AbilityFields> = Vec::new();
            let mut k: usize = 0;
            while k < keys.len()
                invariant
                    k <= keys@.len(),
                    key_views == keys@.map_values(|k: String| k@),
                    read@.len() == k,
                    forall|j: int|
                        0 <= j < k ==> (#[trigger] read@[j])@ == payload_ability(doc@, key_views[j]),
                decreases keys@.len() - k,
            {
                read.push(read_ability(doc, keys[k].as_str()));
                k = k + 1;
            }
            assert(abilities_view(read@) =~= key_views.map_values(
                |key: Seq<char>| payload_ability(doc@, key),
            ));
            Some(read)
        },
        None => None,
    };
    let f = GsiFields {
        hero_name: leaf_at(doc, "/hero/name"),
        game_state: leaf_at(doc, "/map/game_state"),
        paused: leaf_at(doc, "/map/paused"),
        map_name: leaf_at(doc, "/map/name"),
        custom_game_name,
        mana,
        abilities,
    };
    assert(f@.custom_game_name =~= payload_fields(doc@).custom_game_name);
    assert(f@.mana =~= payload_fields(doc@).mana);
    f
}

/// Why a payload was not read.
#[derive(Clone, Debug)]
pub enum GsiError {
    /// The payload is not JSON; the parser's description of the error.
    MalformedJson(String),
}

/// Reads a Game State Integration payload. It is read exactly when it is a
/// JSON document, and the update is then the one that the payload's leaves
/// describe; otherwise the error carries the parser's description.
pub fn parse_invoker_cooldowns(payload: &[u8]) -> (r: Result<CooldownUpdate, GsiError>)
    ensures
        r is Ok <==> json_accepts(payload@),
        match r {
            Ok(u) => describes(u, payload_fields(payload@)),
            Err(GsiError::MalformedJson(message)) => json_parse_error(payload@) == Some(message@),
        },
{
    let doc = match json_parse(payload) {
        Ok(doc) => doc,
        Err(message) => {
            return Err(GsiError::MalformedJson(message));
        },
    };
    let fields = read_gsi_fields(&doc);
    let update = update_from_fields(&fields);
    Ok(update)
}

} // verus!
