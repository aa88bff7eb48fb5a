//! The overlay's settings: the default values, the mana cost table and the
//! check that turns a configured skill order into the skills to draw.

use vstd::prelude::*;
use vstd::string::*;

use crate::spells::{
    canonical_spell, is_canonical_spell, lemma_spell_index_of_canonical_id, spell_by_id,
    spell_id_at, spell_position, SPELL_COUNT,
};
use crate::text::str_eq;

verus! {

/// One tile of the overlay: a spell and the mana cost it shows.
#[derive(Clone, Debug)]
pub struct DisplaySkill {
    pub id: &'static str,
    pub asset: &'static str,
    pub mana_cost: u16,
}

/// The map that a list of (skill, cost) pairs describes: a later pair for the
/// same skill replaces an earlier one.
pub open spec fn pairs_map(pairs: Seq<(Seq<char>, u16)>) -> Map<Seq<char>, u16>
    decreases pairs.len(),
{
    if pairs.len() == 0 {
        Map::empty()
    } else {
        pairs_map(pairs.drop_last()).insert(pairs.last().0, pairs.last().1)
    }
}

/// Mana cost per skill identifier.
#[derive(Clone, Debug)]
pub struct ManaCostTable {
    entries: Vec<(String, u16)>,
}

impl ManaCostTable {
    /// The entries as (identifier, cost) pairs, in insertion order.
    pub closed spec fn pairs(&self) -> Seq<(Seq<char>, u16)> {
        self.entries@.map_values(|e: (String, u16)| (e.0@, e.1))
    }
}

impl View for ManaCostTable {
    type V = Map<Seq<char>, u16>;

    open spec fn view(&self) -> Map<Seq<char>, u16> {
        pairs_map(self.pairs())
    }
}

/// Looking a key up in the map of a prefix of the pairs, when no later pair
/// holds the key, gives what the map of all pairs gives.
proof fn lemma_pairs_map_skip_tail(pairs: Seq<(Seq<char>, u16)>, i: int, key: Seq<char>)
    requires
        0 <= i <= pairs.len(),
        forall|j: int| i <= j < pairs.len() ==> #[trigger] pairs[j].0 != key,
    ensures
        pairs_map(pairs.take(i)).contains_key(key) == pairs_map(pairs).contains_key(key),
        pairs_map(pairs.take(i))[key] == pairs_map(pairs)[key],
    decreases pairs.len() - i,
{
    if i < pairs.len() {
        lemma_pairs_map_skip_tail(pairs, i + 1, key);
        assert(pairs.take(i + 1).drop_last() =~= pairs.take(i));
        assert(pairs.take(i + 1).last() == pairs[i]);
    } else {
        assert(pairs.take(i) =~= pairs);
    }
}

/// A key is in the map of the pairs exactly when some pair holds it.
pub proof fn lemma_pairs_map_contains(pairs: Seq<(Seq<char>, u16)>, key: Seq<char>)
    ensures
        pairs_map(pairs).contains_key(key) <==> exists|j: int| 0 <= j < pairs.len() && #[trigger] pairs[j].0 == key,
    decreases pairs.len(),
{
    if pairs.len() > 0 {
        lemma_pairs_map_contains(pairs.drop_last(), key);
        if pairs.last().0 != key {
            assert forall|j: int| 0 <= j < pairs.len() && #[trigger] pairs[j].0 == key implies j
                < pairs.len() - 1 && pairs.drop_last()[j].0 == key by {}
        }
    }
}

impl ManaCostTable {
    /// An empty table.
    pub fn new() -> (table: Self)
        ensures
            table@ == Map::<Seq<char>, u16>::empty(),
    {
        let table = ManaCostTable { entries: Vec::new() };
        assert(table.pairs() =~= Seq::<(Seq<char>, u16)>::empty());
        table
    }

    /// Sets the cost of `skill`, replacing any earlier cost of it.
    pub fn insert(&mut self, skill: String, cost: u16)
        ensures
            final(self)@ == old(self)@.insert(skill@, cost),
    {
        let ghost before = self.pairs();
        self.entries.push((skill, cost));
        assert(self.pairs().drop_last() =~= before);
    }

    /// The cost of `skill`, if the table has one.
    pub fn get(&self, skill: &str) -> (cost: Option<u16>)
        ensures
            match cost {
                Some(c) => self@.contains_key(skill@) && self@[skill@] == c,
                None => !self@.contains_key(skill@),
            },
    {
        let ghost pairs = self.pairs();
        let mut i = self.entries.len();
        while i > 0
            invariant
                i <= pairs.len(),
                pairs == self.pairs(),
                pairs.len() == self.entries@.len(),
                forall|j: int| i <= j < pairs.len() ==> #[trigger] pairs[j].0 != skill@,
            decreases i,
        {
            let entry = &self.entries[i - 1];
            assert(pairs[i - 1].0 == entry.0@);
            if str_eq(entry.0.as_str(), skill) {
                proof {
                    lemma_pairs_map_skip_tail(pairs, i as int, skill@);
                    assert(pairs.take(i as int).drop_last() =~= pairs.take(i - 1));
                    assert(pairs.take(i as int).last() == pairs[i - 1]);
                }
                return Some(entry.1);
            }
            i = i - 1;
        }
        proof {
            lemma_pairs_map_skip_tail(pairs, 0, skill@);
            assert(pairs.take(0) =~= Seq::<(Seq<char>, u16)>::empty());
        }
        None
    }
}

/// The default mana cost of the spell in canonical position `i`.
pub open spec fn default_cost_at(i: int) -> u16 {
    if i == 0 {
        100
    } else if i == 1 {
        200
    } else if i == 2 {
        250
    } else if i == 3 {
        125
    } else if i == 4 {
        175
    } else if i == 5 {
        175
    } else if i == 6 {
        125
    } else if i == 7 {
        75
    } else if i == 8 {
        75
    } else {
        140
    }
}

/// The default table: every spell with its default cost.
pub open spec fn default_cost_pairs() -> Seq<(Seq<char>, u16)> {
    Seq::new(10, |i: int| (spell_id_at(i), default_cost_at(i)))
}

/// The default mana cost of each spell.
pub fn default_mana_cost() -> (table: ManaCostTable)
    ensures
        table@ == pairs_map(default_cost_pairs()),
{
    let mut table = ManaCostTable::new();
    let costs: [u16; 10] = [100, 200, 250, 125, 175, 175, 125, 75, 75, 140];
    let mut i: usize = 0;
    while i < SPELL_COUNT
        invariant
            i <= 10,
            costs@ == seq![100u16, 200, 250, 125, 175, 175, 125, 75, 75, 140],
            table@ == pairs_map(default_cost_pairs().take(i as int)),
        decreases 10 - i,
    {
        let spell = canonical_spell(i);
        table.insert(spell.id.to_owned(), costs[i]);
        assert(default_cost_pairs().take(i + 1).drop_last() =~= default_cost_pairs().take(
            i as int,
        ));
        i = i + 1;
    }
    assert(default_cost_pairs().take(10) =~= default_cost_pairs());
    table
}

/// The canonical identifiers in canonical order: the default skill order.
pub fn default_skill_ids() -> (ids: Vec<String>)
    ensures
        ids@.len() == 10,
        forall|i: int| 0 <= i < 10 ==> #[trigger] ids@[i]@ == spell_id_at(i),
{
    let mut ids: Vec<String> = Vec::new();
    let mut i: usize = 0;
    while i < SPELL_COUNT
        invariant
            i <= 10,
            ids@.len() == i,
            forall|j: int| 0 <= j < i ==> #[trigger] ids@[j]@ == spell_id_at(j),
        decreases 10 - i,
    {
        ids.push(canonical_spell(i).id.to_owned());
        i = i + 1;
    }
    ids
}

/// Why a configured skill order is refused.
#[derive(Clone, Debug)]
pub enum ConfigError {
    /// The order does not list exactly ten skills; the count found.
    WrongSkillCount(usize),
    /// The skill is listed twice.
    DuplicateSkill(String),
    /// The skill is not one of Invoker's spells.
    UnknownSkill(String),
    /// The mana cost table has no cost for the skill.
    MissingManaCost(String),
}

/// What is wrong with one entry of a skill order.
#[derive(Clone, Copy, Debug, PartialEq, Eq, Structural)]
pub enum SkillProblem {
    Duplicate,
    Unknown,
    MissingCost,
}

/// What is wrong with entry `i` of the order `ids`, checked in this order:
/// an earlier entry names the same skill, the skill is unknown, the table has
/// no cost for it.
pub open spec fn skill_problem(ids: Seq<Seq<char>>, costs: Map<Seq<char>, u16>, i: int) -> Option<
    SkillProblem,
> {
    if exists|j: int| 0 <= j < i && ids[j] == ids[i] {
        Some(SkillProblem::Duplicate)
    } else if spell_position(ids[i]) is None {
        Some(SkillProblem::Unknown)
    } else if !costs.contains_key(ids[i]) {
        Some(SkillProblem::MissingCost)
    } else {
        None
    }
}

/// The first entry at or after `from` that has a problem, with its problem.
pub open spec fn first_problem_from(
    ids: Seq<Seq<char>>,
    costs: Map<Seq<char>, u16>,
    from: int,
) -> Option<(int, SkillProblem)>
    decreases ids.len() - from,
{
    if from < 0 || from >= ids.len() {
        None
    } else if skill_problem(ids, costs, from) is Some {
        Some((from, skill_problem(ids, costs, from)->0))
    } else {
        first_problem_from(ids, costs, from + 1)
    }
}

/// The first entry of the order that has a problem, with its problem.
pub open spec fn first_problem(ids: Seq<Seq<char>>, costs: Map<Seq<char>, u16>) -> Option<
    (int, SkillProblem),
> {
    first_problem_from(ids, costs, 0)
}

/// The error that reports `problem` for the skill `id`.
pub open spec fn reports(e: ConfigError, problem: SkillProblem, id: Seq<char>) -> bool {
    match problem {
        SkillProblem::Duplicate => e matches ConfigError::DuplicateSkill(s) && s@ == id,
        SkillProblem::Unknown => e matches ConfigError::UnknownSkill(s) && s@ == id,
        SkillProblem::MissingCost => e matches ConfigError::MissingManaCost(s) && s@ == id,
    }
}

/// The tile for the configured skill `id`.
pub open spec fn resolves_to(skill: DisplaySkill, id: Seq<char>, costs: Map<Seq<char>, u16>) -> bool {
    &&& spell_position(id) matches Some(p)
    &&& is_canonical_spell(crate::spells::InvokerSpell { id: skill.id, asset: skill.asset }, p)
    &&& skill.mana_cost == costs[id]
}

/// The identifiers of a list of strings.
pub open spec fn ids_view(ids: Seq<String>) -> Seq<Seq<char>> {
    ids.map_values(|s: String| s@)
}

/// What checking the order `ids` against the cost table gives.
pub open spec fn resolution_holds(
    ids: Seq<Seq<char>>,
    costs: Map<Seq<char>, u16>,
    r: Result<Vec<DisplaySkill>, ConfigError>,
) -> bool {
    if ids.len() != 10 {
        r matches Err(ConfigError::WrongSkillCount(n)) && n == ids.len()
    } else {
        match first_problem(ids, costs) {
            Some((i, problem)) => r matches Err(e) && reports(e, problem, ids[i]),
            None => r matches Ok(skills) && skills@.len() == 10 && forall|i: int|
                0 <= i < 10 ==> resolves_to(#[trigger] skills@[i], ids[i], costs),
        }
    }
}

/// The search for a first problem, started at `from`, finds the first entry
/// at or after `from` that has one.
proof fn lemma_first_problem_from(
    ids: Seq<Seq<char>>,
    costs: Map<Seq<char>, u16>,
    from: int,
)
    requires
        0 <= from,
    ensures
        first_problem_from(ids, costs, from) matches Some((i, p)) ==> from <= i < ids.len()
            && skill_problem(ids, costs, i) == Some(p) && forall|j: int|
            from <= j < i ==> #[trigger] skill_problem(ids, costs, j) is None,
        first_problem_from(ids, costs, from) is None ==> forall|j: int|
            from <= j < ids.len() ==> #[trigger] skill_problem(ids, costs, j) is None,
    decreases ids.len() - from,
{
    if from < ids.len() && skill_problem(ids, costs, from) is None {
        lemma_first_problem_from(ids, costs, from + 1);
    }
}

/// Whether `ids[i]` equals one of the entries before it.
fn listed_before(ids: &[String], i: usize) -> (r: bool)
    requires
        i < ids@.len(),
    ensures
        r == exists|j: int| 0 <= j < i && ids@[j]@ == ids@[i as int]@,
{
    let mut j: usize = 0;
    while j < i
        invariant
            j <= i,
            i < ids@.len(),
            forall|k: int| 0 <= k < j ==> ids@[k]@ != ids@[i as int]@,
        decreases i - j,
    {
        if str_eq(ids[j].as_str(), ids[i].as_str()) {
            return true;
        }
        j = j + 1;
    }
    false
}

/// Checks a configured skill order: exactly ten skills, none twice, each one
/// of Invoker's spells with a cost in the table. Gives the tiles in the
/// configured order, or the first problem found.
pub fn resolve_skill_order(skill_ids: &[String], mana_cost: &ManaCostTable) -> (r: Result<
    Vec<DisplaySkill>,
    ConfigError,
>)
    ensures
        resolution_holds(ids_view(skill_ids@), mana_cost@, r),
{
    let ghost ids = ids_view(skill_ids@);
    let ghost costs = mana_cost@;
    if skill_ids.len() != SPELL_COUNT {
        return Err(ConfigError::WrongSkillCount(skill_ids.len()));
    }
    proof {
        lemma_first_problem_from(ids, costs, 0);
    }
    let mut skills: Vec<DisplaySkill> = Vec::new();
    let mut i: usize = 0;
    while i < SPELL_COUNT
        invariant
            i <= 10,
            skill_ids@.len() == 10,
            ids == ids_view(skill_ids@),
            ids.len() == 10,
            costs == mana_cost@,
            skills@.len() == i,
            forall|j: int| 0 <= j < i ==> #[trigger] skill_problem(ids, costs, j) is None,
            forall|j: int| 0 <= j < i ==> resolves_to(#[trigger] skills@[j], ids[j], costs),
            first_problem(ids, costs) == first_problem_from(ids, costs, i as int),
        decreases 10 - i,
    {
        proof {
            lemma_first_problem_from(ids, costs, i as int);
        }
        let id = &skill_ids[i];
        assert(ids[i as int] == id@);
        if listed_before(skill_ids, i) {
            proof {
                let j = choose|j: int| 0 <= j < i && skill_ids@[j]@ == skill_ids@[i as int]@;
                assert(ids[j] == skill_ids@[j]@);
            }
            assert(skill_problem(ids, costs, i as int) == Some(SkillProblem::Duplicate));
            return Err(ConfigError::DuplicateSkill(id.clone()));
        }
        let spell = match spell_by_id(id.as_str()) {
            Some(spell) => spell,
            None => {
                return Err(ConfigError::UnknownSkill(id.clone()));
            },
        };
        let cost = match mana_cost.get(spell.id) {
            Some(cost) => cost,
            None => {
                return Err(ConfigError::MissingManaCost(spell.id.to_owned()));
            },
        };
        skills.push(DisplaySkill { id: spell.id, asset: spell.asset, mana_cost: cost });
        i = i + 1;
    }
    Ok(skills)
}

/// The default skill order, checked against `mana_cost`.
pub fn default_skill_order(mana_cost: &ManaCostTable) -> (r: Result<Vec<DisplaySkill>, ConfigError>)
    ensures
        resolution_holds(
            Seq::new(10, |i: int| spell_id_at(i)),
            mana_cost@,
            r,
        ),
{
    let ids = default_skill_ids();
    assert(ids_view(ids@) =~= Seq::new(10, |i: int| spell_id_at(i)));
    resolve_skill_order(ids.as_slice(), mana_cost)
}

} // verus!

verus! {

/// The default skill order has no problem against the default costs, and
/// resolves to the ten spells in canonical order with their default costs.
pub proof fn lemma_default_order_resolves()
    ensures
        first_problem(Seq::new(10, |i: int| spell_id_at(i)), pairs_map(default_cost_pairs()))
            is None,
        forall|i: int|
            0 <= i < 10 ==> pairs_map(default_cost_pairs())[#[trigger] spell_id_at(i)]
                == default_cost_at(i),
{
    let ids = Seq::new(10, |i: int| spell_id_at(i));
    let pairs = default_cost_pairs();
    let costs = pairs_map(pairs);
    assert forall|i: int| 0 <= i < 10 implies #[trigger] skill_problem(ids, costs, i) is None by {
        assert forall|j: int| 0 <= j < i implies ids[j] != ids[i] by {
            crate::spells::lemma_spell_ids_distinct(j, i);
        }
        lemma_spell_index_of_canonical_id(i);
        lemma_pairs_map_contains(pairs, ids[i]);
        assert(pairs[i].0 == ids[i]);
    }
    lemma_no_problem_from(ids, costs, 0);
    assert forall|i: int| 0 <= i < 10 implies costs[#[trigger] spell_id_at(i)] == default_cost_at(i) by {
        lemma_default_cost_lookup(i, 10);
        assert(pairs.take(10) =~= pairs);
    }
}

/// With no problem at or after `from`, the search finds none.
proof fn lemma_no_problem_from(ids: Seq<Seq<char>>, costs: Map<Seq<char>, u16>, from: int)
    requires
        0 <= from,
        forall|j: int| from <= j < ids.len() ==> #[trigger] skill_problem(ids, costs, j) is None,
    ensures
        first_problem_from(ids, costs, from) is None,
    decreases ids.len() - from,
{
    if from < ids.len() {
        lemma_no_problem_from(ids, costs, from + 1);
    }
}

/// In the map of the first `k` default pairs, spell `i < k` has its default
/// cost.
proof fn lemma_default_cost_lookup(i: int, k: int)
    requires
        0 <= i < k <= 10,
    ensures
        pairs_map(default_cost_pairs().take(k))[spell_id_at(i)] == default_cost_at(i),
        pairs_map(default_cost_pairs().take(k)).contains_key(spell_id_at(i)),
    decreases k,
{
    let pairs = default_cost_pairs();
    assert(pairs.take(k).drop_last() =~= pairs.take(k - 1));
    if i < k - 1 {
        lemma_default_cost_lookup(i, k - 1);
        crate::spells::lemma_spell_ids_distinct(i, k - 1);
    }
    if k == 10 {
        assert(pairs.take(10) =~= pairs);
    }
}

impl ConfigError {
    /// A sentence that says what is wrong.
    pub fn message(&self) -> (text: String)
        ensures
            self matches ConfigError::DuplicateSkill(id) ==> text@ == "skill_order contains duplicate skill '"@
                + id@ + "'"@,
            self matches ConfigError::UnknownSkill(id) ==> text@ == "unknown skill '"@ + id@ + "'"@,
            self matches ConfigError::MissingManaCost(id) ==> text@
                == "skill_mana_cost is missing value for skill '"@ + id@ + "'"@,
            self matches ConfigError::WrongSkillCount(found) ==> text@
                == "skill_order must contain exactly 10 skills, found "@
                + crate::text::decimal_text(found as nat),
    {
        match self {
            ConfigError::WrongSkillCount(found) => {
                let mut text = String::from_str("skill_order must contain exactly 10 skills, found ");
                let count = crate::text::decimal_text_of(*found);
                text.append(count.as_str());
                text
            },
            ConfigError::DuplicateSkill(id) => quoted("skill_order contains duplicate skill '", id),
            ConfigError::UnknownSkill(id) => quoted("unknown skill '", id),
            ConfigError::MissingManaCost(id) => quoted(
                "skill_mana_cost is missing value for skill '",
                id,
            ),
        }
    }
}

/// `head`, then `id`, then a closing quote.
fn quoted(head: &str, id: &String) -> (text: String)
    ensures
        text@ == head@ + id@ + "'"@,
{
    let mut text = String::from_str(head);
    text.append(id.as_str());
    text.append("'");
    text
}

/// The settings the overlay runs with, apart from its window position.
#[derive(Clone, Debug)]
pub struct ConfigSettings {
    pub gsi_port: u16,
    pub debug_gsi: bool,
    pub show_footer_row: bool,
    pub skill_order: Vec<DisplaySkill>,
}

/// The port that the Game State Integration server listens on by default.
pub const DEFAULT_GSI_PORT: u16 = 53000;

/// The default settings: the canonical spells with their default costs.
pub open spec fn is_default_settings(s: ConfigSettings) -> bool {
    &&& s.gsi_port == DEFAULT_GSI_PORT
    &&& !s.debug_gsi
    &&& s.show_footer_row
    &&& s.skill_order@.len() == 10
    &&& forall|i: int|
        0 <= i < 10 ==> #[trigger] s.skill_order@[i].id@ == spell_id_at(i)
            && resolves_to(s.skill_order@[i], spell_id_at(i), pairs_map(default_cost_pairs()))
            && s.skill_order@[i].mana_cost == default_cost_at(i)
}

impl Default for ConfigSettings {
    fn default() -> (s: Self)
        ensures
            is_default_settings(s),
    {
        let costs = default_mana_cost();
        proof {
            lemma_default_order_resolves();
        }
        let order = default_skill_order(&costs);
        let skill_order = match order {
            Ok(skills) => skills,
            Err(_) => {
                assert(false);
                Vec::new()
            },
        };
        assert forall|i: int| 0 <= i < 10 implies #[trigger] skill_order@[i].id@ == spell_id_at(i) by {
            lemma_spell_index_of_canonical_id(i);
            assert(resolves_to(skill_order@[i], spell_id_at(i), costs@));
        }
        ConfigSettings {
            gsi_port: DEFAULT_GSI_PORT,
            debug_gsi: false,
            show_footer_row: true,
            skill_order,
        }
    }
}

/// What a configuration file sets; each field left out keeps its default.
#[derive(Clone, Debug)]
pub struct ConfigOverrides {
    pub gsi_port: Option<u16>,
    pub debug_gsi: Option<bool>,
    pub show_footer_row: Option<bool>,
    pub skill_mana_cost: Option<ManaCostTable>,
    pub skill_order: Option<Vec<String>>,
}

/// The value of an optional setting, or its default.
pub open spec fn or_default<T>(value: Option<T>, default: T) -> T {
    match value {
        Some(v) => v,
        None => default,
    }
}

/// The cost table that the overrides select.
pub open spec fn chosen_costs(o: ConfigOverrides) -> Map<Seq<char>, u16> {
    match o.skill_mana_cost {
        Some(table) => table@,
        None => pairs_map(default_cost_pairs()),
    }
}

/// The skill order that the overrides select.
pub open spec fn chosen_ids(o: ConfigOverrides) -> Seq<Seq<char>> {
    match o.skill_order {
        Some(ids) => ids_view(ids@),
        None => Seq::new(10, |i: int| spell_id_at(i)),
    }
}

/// Applies a configuration file's settings over the defaults. A file that
/// sets a cost table replaces the whole default table; one that sets a skill
/// order replaces the default order, which is then checked.
pub fn resolve_config(overrides: ConfigOverrides) -> (r: Result<ConfigSettings, ConfigError>)
    ensures
        resolution_holds(
            chosen_ids(overrides),
            chosen_costs(overrides),
            match r {
                Ok(s) => Ok(s.skill_order),
                Err(e) => Err(e),
            },
        ),
        r matches Ok(s) ==> s.gsi_port == or_default(overrides.gsi_port, DEFAULT_GSI_PORT)
            && s.debug_gsi == or_default(overrides.debug_gsi, false) && s.show_footer_row
            == or_default(overrides.show_footer_row, true),
{
    let ghost o = overrides;
    let costs = match overrides.skill_mana_cost {
        Some(table) => table,
        None => default_mana_cost(),
    };
    let ids = match overrides.skill_order {
        Some(ids) => ids,
        None => default_skill_ids(),
    };
    assert(ids_view(ids@) =~= chosen_ids(o));
    let skill_order = match resolve_skill_order(ids.as_slice(), &costs) {
        Ok(skills) => skills,
        Err(e) => {
            return Err(e);
        },
    };
    let gsi_port = match overrides.gsi_port {
        Some(port) => port,
        None => DEFAULT_GSI_PORT,
    };
    let debug_gsi = match overrides.debug_gsi {
        Some(flag) => flag,
        None => false,
    };
    let show_footer_row = match overrides.show_footer_row {
        Some(flag) => flag,
        None => true,
    };
    Ok(ConfigSettings { gsi_port, debug_gsi, show_footer_row, skill_order })
}

/// A skill order that resolves names no skill twice and shows each of
/// Invoker's ten spells exactly once.
pub proof fn lemma_resolved_order_covers_every_spell(ids: Seq<Seq<char>>, costs: Map<Seq<char>, u16>)
    requires
        ids.len() == 10,
        first_problem(ids, costs) is None,
    ensures
        forall|i: int, j: int| 0 <= i < j < 10 ==> ids[i] != ids[j],
        forall|i: int| 0 <= i < 10 ==> (#[trigger] spell_position(ids[i])) is Some,
        forall|p: int|
            #![trigger spell_id_at(p)]
            0 <= p < 10 ==> exists|i: int| 0 <= i < 10 && #[trigger] ids[i] == spell_id_at(p),
{
    lemma_first_problem_from(ids, costs, 0);
    assert forall|i: int, j: int| 0 <= i < j < 10 implies ids[i] != ids[j] by {
        assert(skill_problem(ids, costs, j) is None);
    }
    assert forall|i: int| 0 <= i < 10 implies (#[trigger] spell_position(ids[i])) is Some by {
        assert(skill_problem(ids, costs, i) is None);
    }
    let positions = Seq::new(10, |i: int| spell_position(ids[i])->0);
    assert forall|i: int| 0 <= i < 10 implies 0 <= #[trigger] positions[i] < 10 && spell_id_at(
        positions[i],
    ) == ids[i] by {
        assert(skill_problem(ids, costs, i) is None);
        crate::spells::lemma_position_from_found(ids[i], 0);
    }
    assert(positions.no_duplicates()) by {
        assert forall|i: int, j: int| 0 <= i < 10 && 0 <= j < 10 && i != j implies positions[i]
            != positions[j] by {
            if i < j {
                assert(ids[i] != ids[j]);
            } else {
                assert(ids[j] != ids[i]);
            }
        }
    }
    positions.unique_seq_to_set();
    let range = vstd::set_lib::set_int_range(0, 10);
    vstd::set_lib::lemma_int_range(0, 10);
    assert(positions.to_set().subset_of(range)) by {
        assert forall|p: int| positions.to_set().contains(p) implies range.contains(p) by {
            let i = choose|i: int| 0 <= i < positions.len() && positions[i] == p;
            assert(0 <= positions[i] < 10);
        }
    }
    vstd::set_lib::lemma_subset_equality(positions.to_set(), range);
    assert forall|p: int| #![trigger spell_id_at(p)] 0 <= p < 10 implies exists|i: int|
        0 <= i < 10 && #[trigger] ids[i] == spell_id_at(p) by {
        assert(range.contains(p));
        assert(positions.to_set().contains(p));
        let i = choose|i: int| 0 <= i < positions.len() && positions[i] == p;
        assert(ids[i] == spell_id_at(p));
    }
}

/// A cost set for a skill is the cost a lookup of that skill gives back;
/// the costs of other skills stay as they were.
pub proof fn lemma_cost_lookup_after_insert(
    before: ManaCostTable,
    after: ManaCostTable,
    skill: Seq<char>,
    cost: u16,
)
    requires
        after@ == before@.insert(skill, cost),
    ensures
        after@.contains_key(skill),
        after@[skill] == cost,
        forall|other: Seq<char>|
            other != skill ==> (#[trigger] after@.contains_key(other)) == before@.contains_key(other)
                && after@[other] == before@[other],
{
}

/// Two cost tables that agree on every listed skill give the same problems.
proof fn lemma_same_problems(
    ids: Seq<Seq<char>>,
    m1: Map<Seq<char>, u16>,
    m2: Map<Seq<char>, u16>,
    from: int,
)
    requires
        0 <= from,
        forall|i: int|
            0 <= i < ids.len() ==> m1.contains_key(#[trigger] ids[i]) == m2.contains_key(ids[i]),
    ensures
        first_problem_from(ids, m1, from) == first_problem_from(ids, m2, from),
    decreases ids.len() - from,
{
    if from < ids.len() {
        assert(skill_problem(ids, m1, from) == skill_problem(ids, m2, from));
        lemma_same_problems(ids, m1, m2, from + 1);
    }
}

/// Costs of skills that an order does not list do not change what checking
/// the order gives: two tables that agree on the listed skills give the same
/// outcome.
pub proof fn lemma_resolution_ignores_unlisted_costs(
    ids: Seq<Seq<char>>,
    m1: Map<Seq<char>, u16>,
    m2: Map<Seq<char>, u16>,
    r: Result<Vec<DisplaySkill>, ConfigError>,
)
    requires
        forall|i: int|
            0 <= i < ids.len() ==> m1.contains_key(#[trigger] ids[i]) == m2.contains_key(ids[i])
                && (m1.contains_key(ids[i]) ==> m1[ids[i]] == m2[ids[i]]),
    ensures
        resolution_holds(ids, m1, r) == resolution_holds(ids, m2, r),
{
    lemma_same_problems(ids, m1, m2, 0);
    lemma_first_problem_from(ids, m1, 0);
    if ids.len() == 10 && first_problem(ids, m1) is None {
        assert forall|i: int| 0 <= i < 10 implies m1.contains_key(#[trigger] ids[i]) && m1[ids[i]]
            == m2[ids[i]] by {
            assert(skill_problem(ids, m1, i) is None);
        }
        match r {
            Ok(skills) => {
                assert forall|i: int| 0 <= i < 10 implies resolves_to(
                    #[trigger] skills@[i],
                    ids[i],
                    m1,
                ) == resolves_to(skills@[i], ids[i], m2) by {
                    assert(m1[ids[i]] == m2[ids[i]]);
                }
            },
            Err(_) => {},
        }
    }
}

} // verus!
