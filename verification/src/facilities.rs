//! Facilities built in a home base, and the bonuses they grant.
use vstd::prelude::*;
use crate::rng::now_ms;
use crate::text::str_eq;

verus! {

/// Where a facility stands on the home map.
#[derive(Debug, Clone, Copy, PartialEq, Eq, Structural)]
pub struct FacilityPosition {
    pub col: u8,
    pub row: u8,
}

/// A facility built (or being built) in a home base.
#[derive(Debug)]
pub struct BuiltFacility {
    pub facility_id: String,
    pub level: u8,
    /// When construction completes (Unix ms); `None` once it is complete.
    pub build_complete_at: Option<u64>,
    pub position: Option<FacilityPosition>,
}

/// The abstract content of a built facility.
pub struct BuiltFacilityView {
    pub facility_id: Seq<char>,
    pub level: u8,
    pub build_complete_at: Option<u64>,
    pub position: Option<FacilityPosition>,
}

impl View for BuiltFacility {
    type V = BuiltFacilityView;

    open spec fn view(&self) -> BuiltFacilityView {
        BuiltFacilityView {
            facility_id: self.facility_id@,
            level: self.level,
            build_complete_at: self.build_complete_at,
            position: self.position,
        }
    }
}

impl Clone for BuiltFacility {
    fn clone(&self) -> (r: Self)
        ensures
            r@ == self@,
    {
        BuiltFacility {
            facility_id: self.facility_id.clone(),
            level: self.level,
            build_complete_at: self.build_complete_at,
            position: self.position,
        }
    }
}

/// The facilities by their abstract content.
pub open spec fn facility_views(v: Seq<BuiltFacility>) -> Seq<BuiltFacilityView> {
    v.map_values(|f: BuiltFacility| f@)
}

/// Bonuses granted by a base's facilities. The unit cost cap bonus is in thousandths.
#[derive(Debug, Clone, Copy, PartialEq, Eq, Structural)]
pub struct FacilityBonuses {
    pub monster_bonus: u32,
    pub monster_percent: u32,
    pub speed_bonus: u32,
    pub skill_power: u32,
    pub drop_rate: u32,
    pub exp_bonus: u32,
    pub storage_capacity: u32,
    pub unit_capacity: u32,
    pub market_fee_reduction: u32,
    pub defense_bonus: u32,
    pub attack_bonus: u32,
    /// Raise of the unit cost cap, in thousandths (0.15 is 150).
    pub unit_cost_cap_bonus_milli: u32,
    /// Extra stamina recovered per minute.
    pub stamina_recovery_bonus: u32,
}

/// No bonus at all.
pub open spec fn no_bonuses() -> FacilityBonuses {
    FacilityBonuses {
        monster_bonus: 0,
        monster_percent: 0,
        speed_bonus: 0,
        skill_power: 0,
        drop_rate: 0,
        exp_bonus: 0,
        storage_capacity: 0,
        unit_capacity: 0,
        market_fee_reduction: 0,
        defense_bonus: 0,
        attack_bonus: 0,
        unit_cost_cap_bonus_milli: 0,
        stamina_recovery_bonus: 0,
    }
}

/// The value for `level` in a per-level table (level 1 is the first entry); 0 off the table.
pub open spec fn by_level(values: Seq<u32>, level: u8) -> u32 {
    if 1 <= level <= values.len() {
        values[level - 1]
    } else {
        0
    }
}

/// A facility is in effect unless its construction completes after `now`.
pub open spec fn in_effect(f: BuiltFacilityView, now: u64) -> bool {
    match f.build_complete_at {
        Some(t) => t <= now,
        None => true,
    }
}

/// The bonus one facility grants at `now`.
pub open spec fn facility_effect(f: BuiltFacilityView, now: u64) -> FacilityBonuses {
    let id = f.facility_id;
    let lv = f.level;
    let z = no_bonuses();
    if !in_effect(f, now) {
        z
    } else if id == "monster_well"@ || id == "monster_barracks"@ {
        FacilityBonuses { monster_bonus: by_level(seq![5, 10, 18, 28, 40], lv), ..z }
    } else if id == "training_ground"@ || id == "training_tower"@ {
        FacilityBonuses { monster_percent: by_level(seq![10, 20, 35, 50, 70], lv), ..z }
    } else if id == "armory"@ || id == "hero_statue"@ {
        FacilityBonuses { speed_bonus: by_level(seq![2, 4, 7], lv), ..z }
    } else if id == "magic_tower"@ || id == "battle_lab"@ {
        FacilityBonuses { skill_power: by_level(seq![10, 25, 45, 70], lv), ..z }
    } else if id == "research_lab"@ || id == "library"@ {
        FacilityBonuses {
            exp_bonus: by_level(seq![20, 50, 100], lv),
            unit_cost_cap_bonus_milli: by_level(seq![150, 350, 600], lv),
            ..z
        }
    } else if id == "watchtower"@ {
        FacilityBonuses { drop_rate: by_level(seq![25, 50], lv), ..z }
    } else if id == "altar"@ || id == "guardian_shrine"@ {
        FacilityBonuses { drop_rate: by_level(seq![15, 35, 60], lv), ..z }
    } else if id == "warehouse"@ {
        FacilityBonuses { storage_capacity: by_level(seq![100, 300, 600], lv), ..z }
    } else if id == "barracks"@ || id == "stronghold"@ {
        FacilityBonuses {
            unit_capacity: by_level(seq![1, 2, 3], lv),
            stamina_recovery_bonus: by_level(seq![2, 4, 6], lv),
            ..z
        }
    } else if id == "trading_post"@ {
        FacilityBonuses { market_fee_reduction: by_level(seq![2, 4, 6, 8, 10], lv), ..z }
    } else if id == "fortress"@ {
        FacilityBonuses { defense_bonus: by_level(seq![5, 10, 15, 20, 30], lv), ..z }
    } else if id == "war_god_shrine"@ {
        FacilityBonuses { attack_bonus: by_level(seq![5, 10, 20], lv), ..z }
    } else {
        z
    }
}

/// Every field of `b` is at most `m`.
pub open spec fn bonuses_at_most(b: FacilityBonuses, m: int) -> bool {
    &&& b.monster_bonus <= m
    &&& b.monster_percent <= m
    &&& b.speed_bonus <= m
    &&& b.skill_power <= m
    &&& b.drop_rate <= m
    &&& b.exp_bonus <= m
    &&& b.storage_capacity <= m
    &&& b.unit_capacity <= m
    &&& b.market_fee_reduction <= m
    &&& b.defense_bonus <= m
    &&& b.attack_bonus <= m
    &&& b.unit_cost_cap_bonus_milli <= m
    &&& b.stamina_recovery_bonus <= m
}

/// Field-by-field sum of two bonuses (each field is assumed to fit).
pub open spec fn add_spec(a: FacilityBonuses, b: FacilityBonuses) -> FacilityBonuses {
    FacilityBonuses {
        monster_bonus: (a.monster_bonus + b.monster_bonus) as u32,
        monster_percent: (a.monster_percent + b.monster_percent) as u32,
        speed_bonus: (a.speed_bonus + b.speed_bonus) as u32,
        skill_power: (a.skill_power + b.skill_power) as u32,
        drop_rate: (a.drop_rate + b.drop_rate) as u32,
        exp_bonus: (a.exp_bonus + b.exp_bonus) as u32,
        storage_capacity: (a.storage_capacity + b.storage_capacity) as u32,
        unit_capacity: (a.unit_capacity + b.unit_capacity) as u32,
        market_fee_reduction: (a.market_fee_reduction + b.market_fee_reduction) as u32,
        defense_bonus: (a.defense_bonus + b.defense_bonus) as u32,
        attack_bonus: (a.attack_bonus + b.attack_bonus) as u32,
        unit_cost_cap_bonus_milli: (a.unit_cost_cap_bonus_milli + b.unit_cost_cap_bonus_milli) as u32,
        stamina_recovery_bonus: (a.stamina_recovery_bonus + b.stamina_recovery_bonus) as u32,
    }
}

/// The bonuses of all facilities at `now`: the sum of each one's effect.
pub open spec fn facility_bonuses_spec(fs: Seq<BuiltFacilityView>, now: u64) -> FacilityBonuses
    decreases fs.len(),
{
    if fs.len() == 0 {
        no_bonuses()
    } else {
        add_spec(facility_bonuses_spec(fs.drop_last(), now), facility_effect(fs.last(), now))
    }
}

/// Adding `b` to `a` keeps every field within `u32`.
pub open spec fn sum_fits(a: FacilityBonuses, b: FacilityBonuses) -> bool {
    &&& a.monster_bonus + b.monster_bonus <= u32::MAX
    &&& a.monster_percent + b.monster_percent <= u32::MAX
    &&& a.speed_bonus + b.speed_bonus <= u32::MAX
    &&& a.skill_power + b.skill_power <= u32::MAX
    &&& a.drop_rate + b.drop_rate <= u32::MAX
    &&& a.exp_bonus + b.exp_bonus <= u32::MAX
    &&& a.storage_capacity + b.storage_capacity <= u32::MAX
    &&& a.unit_capacity + b.unit_capacity <= u32::MAX
    &&& a.market_fee_reduction + b.market_fee_reduction <= u32::MAX
    &&& a.defense_bonus + b.defense_bonus <= u32::MAX
    &&& a.attack_bonus + b.attack_bonus <= u32::MAX
    &&& a.unit_cost_cap_bonus_milli + b.unit_cost_cap_bonus_milli <= u32::MAX
    &&& a.stamina_recovery_bonus + b.stamina_recovery_bonus <= u32::MAX
}

/// The running sums of the facilities' bonuses at `now` stay within `u32` in every field
/// (beyond that the sum cannot be held).
pub open spec fn bonuses_fit(fs: Seq<BuiltFacilityView>, now: u64) -> bool
    decreases fs.len(),
{
    fs.len() == 0 || (bonuses_fit(fs.drop_last(), now) && sum_fits(
        facility_bonuses_spec(fs.drop_last(), now),
        facility_effect(fs.last(), now),
    ))
}

/// The facilities' bonuses fit whenever they are summed (see [`bonuses_fit`]).
pub open spec fn facilities_fit(fs: Seq<BuiltFacility>) -> bool {
    forall|now: u64| #[trigger] bonuses_fit(facility_views(fs), now)
}

/// A prefix of facilities whose sums fit has sums that fit.
pub proof fn lemma_fit_prefix(fs: Seq<BuiltFacilityView>, now: u64, k: int)
    requires
        bonuses_fit(fs, now),
        0 <= k <= fs.len(),
    ensures
        bonuses_fit(fs.take(k), now),
    decreases fs.len(),
{
    if k == fs.len() {
        assert(fs.take(k) =~= fs);
    } else {
        lemma_fit_prefix(fs.drop_last(), now, k);
        assert(fs.drop_last().take(k) =~= fs.take(k));
    }
}

/// Up to 7,158,278 facilities always fit: no facility grants more than 600 in any field.
pub proof fn lemma_few_facilities_fit(fs: Seq<BuiltFacilityView>, now: u64)
    requires
        fs.len() <= 7_158_278,
    ensures
        bonuses_fit(fs, now),
    decreases fs.len(),
{
    if fs.len() > 0 {
        lemma_few_facilities_fit(fs.drop_last(), now);
        lemma_bonuses_bounded(fs.drop_last(), now);
        lemma_effect_bounded(fs.last(), now);
    }
}

/// Field `i` (0 to 12, in declaration order) of a bonus.
pub open spec fn bonus_field(b: FacilityBonuses, i: int) -> u32 {
    if i == 0 {
        b.monster_bonus
    } else if i == 1 {
        b.monster_percent
    } else if i == 2 {
        b.speed_bonus
    } else if i == 3 {
        b.skill_power
    } else if i == 4 {
        b.drop_rate
    } else if i == 5 {
        b.exp_bonus
    } else if i == 6 {
        b.storage_capacity
    } else if i == 7 {
        b.unit_capacity
    } else if i == 8 {
        b.market_fee_reduction
    } else if i == 9 {
        b.defense_bonus
    } else if i == 10 {
        b.attack_bonus
    } else if i == 11 {
        b.unit_cost_cap_bonus_milli
    } else {
        b.stamina_recovery_bonus
    }
}

/// The sum of field `i` over the effects of the facilities at `now`, without any bound.
pub open spec fn field_total(fs: Seq<BuiltFacilityView>, now: u64, i: int) -> int
    decreases fs.len(),
{
    if fs.len() == 0 {
        0
    } else {
        field_total(fs.drop_last(), now, i) + bonus_field(facility_effect(fs.last(), now), i)
    }
}

proof fn lemma_field_total_nonneg(fs: Seq<BuiltFacilityView>, now: u64, i: int)
    ensures
        field_total(fs, now, i) >= 0,
    decreases fs.len(),
{
    if fs.len() > 0 {
        lemma_field_total_nonneg(fs.drop_last(), now, i);
    }
}

/// Two bonuses with the same fields are equal.
proof fn lemma_bonus_fields_equal(x: FacilityBonuses, y: FacilityBonuses)
    requires
        forall|i: int| 0 <= i < 13 ==> #[trigger] bonus_field(x, i) == bonus_field(y, i),
    ensures
        x == y,
{
    assert(bonus_field(x, 0) == bonus_field(y, 0));
    assert(bonus_field(x, 1) == bonus_field(y, 1));
    assert(bonus_field(x, 2) == bonus_field(y, 2));
    assert(bonus_field(x, 3) == bonus_field(y, 3));
    assert(bonus_field(x, 4) == bonus_field(y, 4));
    assert(bonus_field(x, 5) == bonus_field(y, 5));
    assert(bonus_field(x, 6) == bonus_field(y, 6));
    assert(bonus_field(x, 7) == bonus_field(y, 7));
    assert(bonus_field(x, 8) == bonus_field(y, 8));
    assert(bonus_field(x, 9) == bonus_field(y, 9));
    assert(bonus_field(x, 10) == bonus_field(y, 10));
    assert(bonus_field(x, 11) == bonus_field(y, 11));
    assert(bonus_field(x, 12) == bonus_field(y, 12));
}

proof fn lemma_field_of_add(x: FacilityBonuses, y: FacilityBonuses, i: int)
    requires
        0 <= i < 13,
    ensures
        bonus_field(add_spec(x, y), i) == (bonus_field(x, i) + bonus_field(y, i)) as u32,
        sum_fits(x, y) ==> bonus_field(x, i) + bonus_field(y, i) <= u32::MAX,
{
}

/// When the running sums fit, every field of the bonuses is its exact sum, which fits.
proof fn lemma_fit_total(fs: Seq<BuiltFacilityView>, now: u64)
    requires
        bonuses_fit(fs, now),
    ensures
        forall|i: int|
            0 <= i < 13 ==> #[trigger] bonus_field(facility_bonuses_spec(fs, now), i) == field_total(fs, now, i)
                && field_total(fs, now, i) <= u32::MAX,
    decreases fs.len(),
{
    if fs.len() > 0 {
        let d = fs.drop_last();
        lemma_fit_total(d, now);
        assert forall|i: int| 0 <= i < 13 implies #[trigger] bonus_field(facility_bonuses_spec(fs, now), i) == field_total(
            fs,
            now,
            i,
        ) && field_total(fs, now, i) <= u32::MAX by {
            lemma_field_of_add(facility_bonuses_spec(d, now), facility_effect(fs.last(), now), i);
        }
    }
}

/// When every exact field sum fits, so do the running sums, and the bonuses are those sums.
proof fn lemma_total_fits(fs: Seq<BuiltFacilityView>, now: u64)
    requires
        forall|i: int| 0 <= i < 13 ==> #[trigger] field_total(fs, now, i) <= u32::MAX,
    ensures
        bonuses_fit(fs, now),
        forall|i: int|
            0 <= i < 13 ==> #[trigger] bonus_field(facility_bonuses_spec(fs, now), i) == field_total(fs, now, i),
    decreases fs.len(),
{
    if fs.len() > 0 {
        let d = fs.drop_last();
        assert forall|i: int| 0 <= i < 13 implies #[trigger] field_total(d, now, i) <= u32::MAX by {
            assert(field_total(fs, now, i) == field_total(d, now, i) + bonus_field(facility_effect(fs.last(), now), i));
        }
        lemma_total_fits(d, now);
        assert forall|i: int| 0 <= i < 13 implies #[trigger] bonus_field(facility_bonuses_spec(d, now), i) + bonus_field(
            facility_effect(fs.last(), now),
            i,
        ) <= u32::MAX by {
            assert(field_total(fs, now, i) == field_total(d, now, i) + bonus_field(facility_effect(fs.last(), now), i));
        }
        let x = facility_bonuses_spec(d, now);
        let y = facility_effect(fs.last(), now);
        assert forall|i: int| 0 <= i < 13 implies #[trigger] bonus_field(facility_bonuses_spec(fs, now), i) == field_total(
            fs,
            now,
            i,
        ) by {
            lemma_field_of_add(x, y, i);
            assert(field_total(fs, now, i) == field_total(d, now, i) + bonus_field(y, i));
        }
        assert(bonus_field(x, 0) + bonus_field(y, 0) <= u32::MAX);
        assert(bonus_field(x, 1) + bonus_field(y, 1) <= u32::MAX);
        assert(bonus_field(x, 2) + bonus_field(y, 2) <= u32::MAX);
        assert(bonus_field(x, 3) + bonus_field(y, 3) <= u32::MAX);
        assert(bonus_field(x, 4) + bonus_field(y, 4) <= u32::MAX);
        assert(bonus_field(x, 5) + bonus_field(y, 5) <= u32::MAX);
        assert(bonus_field(x, 6) + bonus_field(y, 6) <= u32::MAX);
        assert(bonus_field(x, 7) + bonus_field(y, 7) <= u32::MAX);
        assert(bonus_field(x, 8) + bonus_field(y, 8) <= u32::MAX);
        assert(bonus_field(x, 9) + bonus_field(y, 9) <= u32::MAX);
        assert(bonus_field(x, 10) + bonus_field(y, 10) <= u32::MAX);
        assert(bonus_field(x, 11) + bonus_field(y, 11) <= u32::MAX);
        assert(bonus_field(x, 12) + bonus_field(y, 12) <= u32::MAX);
        assert(sum_fits(x, y));
    }
}

proof fn lemma_field_total_concat(a: Seq<BuiltFacilityView>, b: Seq<BuiltFacilityView>, now: u64, i: int)
    ensures
        field_total(a + b, now, i) == field_total(a, now, i) + field_total(b, now, i),
    decreases b.len(),
{
    if b.len() == 0 {
        assert(a + b =~= a);
    } else {
        assert((a + b).drop_last() =~= a + b.drop_last());
        assert((a + b).last() == b.last());
        lemma_field_total_concat(a, b.drop_last(), now, i);
    }
}

/// The bonuses of two lists of facilities together are the field-by-field sum of the bonuses
/// of each list, for all lists whose running sums fit (see [`bonuses_fit`]).
pub proof fn lemma_bonuses_additive(a: Seq<BuiltFacilityView>, b: Seq<BuiltFacilityView>, now: u64)
    requires
        bonuses_fit(a + b, now),
    ensures
        facility_bonuses_spec(a + b, now) == add_spec(facility_bonuses_spec(a, now), facility_bonuses_spec(b, now)),
{
    lemma_fit_total(a + b, now);
    assert forall|i: int| 0 <= i < 13 implies #[trigger] field_total(a, now, i) <= u32::MAX by {
        assert(bonus_field(facility_bonuses_spec(a + b, now), i) == field_total(a + b, now, i));
        lemma_field_total_concat(a, b, now, i);
        lemma_field_total_nonneg(b, now, i);
    }
    assert forall|i: int| 0 <= i < 13 implies #[trigger] field_total(b, now, i) <= u32::MAX by {
        assert(bonus_field(facility_bonuses_spec(a + b, now), i) == field_total(a + b, now, i));
        lemma_field_total_concat(a, b, now, i);
        lemma_field_total_nonneg(a, now, i);
    }
    lemma_total_fits(a, now);
    lemma_total_fits(b, now);
    let x = facility_bonuses_spec(a + b, now);
    let y = add_spec(facility_bonuses_spec(a, now), facility_bonuses_spec(b, now));
    assert forall|i: int| 0 <= i < 13 implies #[trigger] bonus_field(x, i) == bonus_field(y, i) by {
        assert(bonus_field(x, i) == field_total(a + b, now, i));
        lemma_field_total_concat(a, b, now, i);
        assert(bonus_field(facility_bonuses_spec(a, now), i) == field_total(a, now, i));
        assert(bonus_field(facility_bonuses_spec(b, now), i) == field_total(b, now, i));
    }
    lemma_bonus_fields_equal(x, y);
}

/// Whether a facility is in effect at `now` (see [`in_effect`]).
pub open spec fn in_effect_at(now: u64) -> spec_fn(BuiltFacilityView) -> bool {
    |f: BuiltFacilityView| in_effect(f, now)
}

/// Facilities not in effect at `now` (still being built) add nothing: the bonuses are those
/// of the facilities in effect.
pub proof fn lemma_bonuses_skip_unbuilt(fs: Seq<BuiltFacilityView>, now: u64)
    ensures
        facility_bonuses_spec(fs, now) == facility_bonuses_spec(fs.filter(in_effect_at(now)), now),
    decreases fs.len(),
{
    reveal(Seq::filter);
    if fs.len() > 0 {
        let p = in_effect_at(now);
        lemma_bonuses_skip_unbuilt(fs.drop_last(), now);
        let rest = fs.drop_last().filter(p);
        if in_effect(fs.last(), now) {
            assert(fs.filter(p) == rest.push(fs.last()));
            assert(rest.push(fs.last()).drop_last() =~= rest);
        } else {
            assert(fs.filter(p) == rest);
            assert(facility_effect(fs.last(), now) == no_bonuses());
        }
    }
}

/// One facility grants at most 600 in any field.
pub proof fn lemma_effect_bounded(f: BuiltFacilityView, now: u64)
    ensures
        bonuses_at_most(facility_effect(f, now), 600),
{
}

/// The sum over `n` facilities is at most `600 * n` in any field.
pub proof fn lemma_bonuses_bounded(fs: Seq<BuiltFacilityView>, now: u64)
    ensures
        bonuses_at_most(facility_bonuses_spec(fs, now), 600 * fs.len() as int),
    decreases fs.len(),
{
    if fs.len() > 0 {
        lemma_bonuses_bounded(fs.drop_last(), now);
        lemma_effect_bounded(fs.last(), now);
    }
}

fn level_value(values: &[u32], level: u8) -> (r: u32)
    ensures
        r == by_level(values@, level),
{
    if 1 <= level && (level as usize) <= values.len() {
        values[(level - 1) as usize]
    } else {
        0
    }
}

fn zero_bonuses() -> (b: FacilityBonuses)
    ensures
        b == no_bonuses(),
{
    FacilityBonuses {
        monster_bonus: 0,
        monster_percent: 0,
        speed_bonus: 0,
        skill_power: 0,
        drop_rate: 0,
        exp_bonus: 0,
        storage_capacity: 0,
        unit_capacity: 0,
        market_fee_reduction: 0,
        defense_bonus: 0,
        attack_bonus: 0,
        unit_cost_cap_bonus_milli: 0,
        stamina_recovery_bonus: 0,
    }
}

/// The bonus one facility grants at `now`.
pub fn facility_effect_at(f: &BuiltFacility, now: u64) -> (b: FacilityBonuses)
    ensures
        b == facility_effect(f@, now),
{
    let z = zero_bonuses();
    let lv = f.level;
    let id = f.facility_id.as_str();
    let active = match f.build_complete_at {
        Some(t) => t <= now,
        None => true,
    };
    if !active {
        z
    } else if str_eq(id, "monster_well") || str_eq(id, "monster_barracks") {
        FacilityBonuses { monster_bonus: level_value(&[5, 10, 18, 28, 40], lv), ..z }
    } else if str_eq(id, "training_ground") || str_eq(id, "training_tower") {
        FacilityBonuses { monster_percent: level_value(&[10, 20, 35, 50, 70], lv), ..z }
    } else if str_eq(id, "armory") || str_eq(id, "hero_statue") {
        FacilityBonuses { speed_bonus: level_value(&[2, 4, 7], lv), ..z }
    } else if str_eq(id, "magic_tower") || str_eq(id, "battle_lab") {
        FacilityBonuses { skill_power: level_value(&[10, 25, 45, 70], lv), ..z }
    } else if str_eq(id, "research_lab") || str_eq(id, "library") {
        FacilityBonuses {
            exp_bonus: level_value(&[20, 50, 100], lv),
            unit_cost_cap_bonus_milli: level_value(&[150, 350, 600], lv),
            ..z
        }
    } else if str_eq(id, "watchtower") {
        FacilityBonuses { drop_rate: level_value(&[25, 50], lv), ..z }
    } else if str_eq(id, "altar") || str_eq(id, "guardian_shrine") {
        FacilityBonuses { drop_rate: level_value(&[15, 35, 60], lv), ..z }
    } else if str_eq(id, "warehouse") {
        FacilityBonuses { storage_capacity: level_value(&[100, 300, 600], lv), ..z }
    } else if str_eq(id, "barracks") || str_eq(id, "stronghold") {
        FacilityBonuses {
            unit_capacity: level_value(&[1, 2, 3], lv),
            stamina_recovery_bonus: level_value(&[2, 4, 6], lv),
            ..z
        }
    } else if str_eq(id, "trading_post") {
        FacilityBonuses { market_fee_reduction: level_value(&[2, 4, 6, 8, 10], lv), ..z }
    } else if str_eq(id, "fortress") {
        FacilityBonuses { defense_bonus: level_value(&[5, 10, 15, 20, 30], lv), ..z }
    } else if str_eq(id, "war_god_shrine") {
        FacilityBonuses { attack_bonus: level_value(&[5, 10, 20], lv), ..z }
    } else {
        z
    }
}

fn add_bonuses(a: FacilityBonuses, b: FacilityBonuses) -> (r: FacilityBonuses)
    requires
        sum_fits(a, b),
    ensures
        r == add_spec(a, b),
{
    FacilityBonuses {
        monster_bonus: a.monster_bonus + b.monster_bonus,
        monster_percent: a.monster_percent + b.monster_percent,
        speed_bonus: a.speed_bonus + b.speed_bonus,
        skill_power: a.skill_power + b.skill_power,
        drop_rate: a.drop_rate + b.drop_rate,
        exp_bonus: a.exp_bonus + b.exp_bonus,
        storage_capacity: a.storage_capacity + b.storage_capacity,
        unit_capacity: a.unit_capacity + b.unit_capacity,
        market_fee_reduction: a.market_fee_reduction + b.market_fee_reduction,
        defense_bonus: a.defense_bonus + b.defense_bonus,
        attack_bonus: a.attack_bonus + b.attack_bonus,
        unit_cost_cap_bonus_milli: a.unit_cost_cap_bonus_milli + b.unit_cost_cap_bonus_milli,
        stamina_recovery_bonus: a.stamina_recovery_bonus + b.stamina_recovery_bonus,
    }
}

/// Sums the bonuses of the facilities that are in effect at `now` (built, or with a
/// construction that completed by `now`).
pub fn calculate_facility_bonuses_at(facilities: &[BuiltFacility], now: u64) -> (b: FacilityBonuses)
    requires
        bonuses_fit(facility_views(facilities@), now),
    ensures
        b == facility_bonuses_spec(facility_views(facilities@), now),
{
    let ghost fs = facility_views(facilities@);
    let mut acc = zero_bonuses();
    let mut i: usize = 0;
    while i < facilities.len()
        invariant
            i <= facilities@.len(),
            fs == facility_views(facilities@),
            bonuses_fit(fs, now),
            acc == facility_bonuses_spec(fs.take(i as int), now),
        decreases facilities@.len() - i,
    {
        let e = facility_effect_at(&facilities[i], now);
        proof {
            lemma_fit_prefix(fs, now, i + 1);
            assert(fs.take(i + 1).drop_last() =~= fs.take(i as int));
            assert(fs.take(i + 1).last() == fs[i as int]);
        }
        acc = add_bonuses(acc, e);
        i += 1;
    }
    proof {
        assert(fs.take(facilities@.len() as int) =~= fs);
    }
    acc
}

/// Sums the bonuses of the facilities in effect now (the clock is read once).
pub fn calculate_facility_bonuses(facilities: &[BuiltFacility]) -> (b: FacilityBonuses)
    requires
        facilities_fit(facilities@),
    ensures
        exists|now: u64| b == facility_bonuses_spec(facility_views(facilities@), now),
{
    let now = now_ms();
    calculate_facility_bonuses_at(facilities, now)
}

/// Monster count with the flat bonus added and then the percent bonus applied, rounded down
/// and capped at `u32::MAX`.
pub open spec fn monster_bonus_spec(base: u32, b: FacilityBonuses) -> int {
    let v = (base + b.monster_bonus) * (100 + b.monster_percent) / 100;
    if v > u32::MAX {
        u32::MAX as int
    } else {
        v
    }
}

/// Applies the facility monster bonuses: `(base + flat) * (100 + percent) / 100`, rounded down.
pub fn apply_monster_bonus(base_monster_count: u32, bonuses: &FacilityBonuses) -> (r: u32)
    requires
        base_monster_count + bonuses.monster_bonus <= u32::MAX,
    ensures
        r == monster_bonus_spec(base_monster_count, *bonuses),
{
    let with_bonus: u128 = (base_monster_count + bonuses.monster_bonus) as u128;
    let pct: u128 = 100 + bonuses.monster_percent as u128;
    proof {
        assert(with_bonus * pct <= (u32::MAX as int) * (100 + u32::MAX)) by (nonlinear_arith)
            requires
                with_bonus <= u32::MAX,
                pct <= 100 + u32::MAX,
        ;
    }
    let v = with_bonus * pct / 100;
    if v > u32::MAX as u128 {
        u32::MAX
    } else {
        v as u32
    }
}

/// Base fee of the flea market, in percent of the price.
pub const BASE_MARKET_FEE_PERCENT: u64 = 10;

/// The market fee for `price` when trading posts reduce the base fee by `reduction` percent
/// (never below zero): `price * (10 - min(reduction, 10)) / 100`, rounded down.
pub open spec fn market_fee_spec(price: u64, reduction: u32) -> int {
    let r = if reduction > 10 { 10 } else { reduction as int };
    price * (10 - r) / 100
}

/// The flea market fee on `price` for a seller with these facilities at `now`.
pub fn calculate_market_fee_at(price: u64, facilities: &[BuiltFacility], now: u64) -> (fee: u64)
    requires
        bonuses_fit(facility_views(facilities@), now),
    ensures
        fee == market_fee_spec(
            price,
            facility_bonuses_spec(facility_views(facilities@), now).market_fee_reduction,
        ),
{
    let bonuses = calculate_facility_bonuses_at(facilities, now);
    let reduction: u64 = if bonuses.market_fee_reduction > 10 {
        10
    } else {
        bonuses.market_fee_reduction as u64
    };
    let fee_percent = BASE_MARKET_FEE_PERCENT - reduction;
    proof {
        assert(price * fee_percent <= (u64::MAX as int) * 10) by (nonlinear_arith)
            requires
                fee_percent <= 10,
        ;
    }
    let wide: u128 = (price as u128) * (fee_percent as u128);
    (wide / 100) as u64
}

/// The flea market fee on `price` for a seller with these facilities (the clock is read once).
pub fn calculate_market_fee(price: u64, facilities: &[BuiltFacility]) -> (fee: u64)
    requires
        facilities_fit(facilities@),
    ensures
        exists|now: u64|
            fee == market_fee_spec(
                price,
                #[trigger] facility_bonuses_spec(facility_views(facilities@), now).market_fee_reduction,
            ),
{
    let now = now_ms();
    calculate_market_fee_at(price, facilities, now)
}

} // verus!
