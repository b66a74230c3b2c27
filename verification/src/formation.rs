//! Formations of the computer-controlled factions: which owned monsters march together, within
//! the unit cost cap, and the standing units a faction keeps.
use vstd::prelude::*;
use crate::ai::{card_at, monsters_at};
use crate::cards::{card_spec, fallback_skills_spec, get_card, get_card_skills, CardDef, CardStats};
use crate::combos::{best_combo, best_combo_spec, is_best_combo, opt_seq};
use crate::defense::{defenders_view, formed_unit_available_at_home, resolve_territory_defenders, slot_free, territory_defenders_ok, unit_available, vec_has};
use crate::facilities::{bonuses_fit, calculate_facility_bonuses_at, facilities_fit, facility_bonuses_spec, facility_views, BuiltFacility};
use crate::ai::{formation_score_spec, formed_indices_spec, score_formation, slots_to_formed_indices};
use crate::game_log::push_str_chars;
use crate::rng::now_ms;
use crate::model::{find_player, has_player, is_player_index, views, PlayerData, PlayerView, StoredFormedUnit};
use crate::text::{decimal, push_decimal, string_from_chars};
use crate::player::{filled_slots, formation_owned_slots_in_slot_order, is_kc_unit_ready_to_deploy, locked_slots, march_locked_card_slots};
use crate::skills::{SkillData, SkillDataView};
use crate::territory::{string_seq_view, Territory};

verus! {

/// An attack expedition's formation: the owned slots that march, with each body's monsters,
/// name, speed, skills and statistics.
pub struct AttackFormation {
    pub card_indices: Vec<usize>,
    pub monster_counts: Vec<u32>,
    pub body_names: Vec<String>,
    pub speeds: Vec<u32>,
    pub skills: Vec<SkillData>,
    pub stats: Vec<CardStats>,
}

/// The abstract content of a formation.
pub struct AttackFormationView {
    pub card_indices: Seq<usize>,
    pub monster_counts: Seq<u32>,
    pub body_names: Seq<Seq<char>>,
    pub speeds: Seq<u32>,
    pub skills: Seq<SkillDataView>,
    pub stats: Seq<CardStats>,
}

impl View for AttackFormation {
    type V = AttackFormationView;

    open spec fn view(&self) -> AttackFormationView {
        AttackFormationView {
            card_indices: self.card_indices@,
            monster_counts: self.monster_counts@,
            body_names: string_seq_view(self.body_names@),
            speeds: self.speeds@,
            skills: Seq::new(self.skills@.len(), |i: int| self.skills@[i]@),
            stats: self.stats@,
        }
    }
}

/// The formation cost of owned slot `idx`, in thousandths: its card's cost, a quarter off when
/// the card is enhanced (card 0 for a slot off the list).
pub open spec fn effective_cost(p: PlayerView, idx: usize) -> u64 {
    let base: u64 = match card_spec(card_at(p, idx)) {
        Some(c) => c.stats.cost_milli as u64,
        None => 1500,
    };
    let enhanced = idx < p.card_enhanced.len() && p.card_enhanced[idx as int];
    if enhanced { (base * 3 / 4) as u64 } else { base }
}

/// The formation cost of owned slot `idx` (see [`effective_cost`]).
pub fn card_effective_cost(player: &PlayerData, idx: usize) -> (c: u64)
    ensures
        c == effective_cost(player@, idx),
{
    let card_id: u32 = if idx < player.owned_cards.len() { player.owned_cards[idx] } else { 0 };
    let enhanced: bool = if idx < player.card_enhanced.len() { player.card_enhanced[idx] } else { false };
    let base: u64 = match get_card(card_id) {
        Some(c) => c.stats.cost_milli as u64,
        None => 1500,
    };
    if enhanced { base * 3 / 4 } else { base }
}

/// The formation cost of the bodies at the owned slots `idx`.
pub open spec fn total_cost(p: PlayerView, idx: Seq<usize>) -> int
    decreases idx.len(),
{
    if idx.len() == 0 {
        0
    } else {
        total_cost(p, idx.drop_last()) + effective_cost(p, idx.last()) as int
    }
}

/// The formation cost of the bodies at the owned slots `indices` (see [`total_cost`]).
pub fn formation_total_cost(player: &PlayerData, indices: &[usize]) -> (c: u64)
    requires
        indices@.len() <= 1_000_000,
    ensures
        c == total_cost(player@, indices@),
{
    let mut total: u64 = 0;
    let mut k: usize = 0;
    while k < indices.len()
        invariant
            k <= indices@.len() <= 1_000_000,
            total == total_cost(player@, indices@.take(k as int)),
            total <= k * 0x1_0000_0000,
        decreases indices@.len() - k,
    {
        let c = card_effective_cost(player, indices[k]);
        proof {
            assert(indices@.take(k + 1).drop_last() =~= indices@.take(k as int));
        }
        total = total + c;
        k += 1;
    }
    proof {
        assert(indices@.take(indices@.len() as int) =~= indices@);
    }
    total
}

/// The species (card) of each candidate slot.
pub open spec fn species_of(p: PlayerView, cands: Seq<usize>) -> Seq<u32> {
    cands.map_values(|i: usize| p.owned_cards[i as int])
}

/// The formation cost of each candidate slot.
pub open spec fn costs_of(p: PlayerView, cands: Seq<usize>) -> Seq<u64> {
    cands.map_values(|i: usize| effective_cost(p, i))
}

/// The monsters of each candidate slot, the score of a standing unit.
pub open spec fn unit_scores_of(p: PlayerView, cands: Seq<usize>) -> Seq<i64> {
    cands.map_values(|i: usize| monsters_at(p, i) as i64)
}

/// The owned slots at the positions `c` among the candidates.
pub open spec fn at_positions(cands: Seq<usize>, c: Seq<usize>) -> Seq<usize> {
    c.map_values(|x: usize| cands[x as int])
}

/// The standing unit to form from the candidates within cost cap `cap`: the best formation
/// (see [`is_best_combo`]) scored by the bodies' monsters, as owned slots.
pub open spec fn unit_combo_spec(p: PlayerView, cands: Seq<usize>, cap: u64) -> Option<Seq<usize>> {
    match best_combo_spec(species_of(p, cands), costs_of(p, cands), unit_scores_of(p, cands), cap) {
        Some(c) => Some(at_positions(cands, c)),
        None => None,
    }
}

/// Positions back to owned slots.
fn slots_at(cands: &[usize], c: &Vec<usize>) -> (r: Vec<usize>)
    requires
        forall|k: int| 0 <= k < c@.len() ==> #[trigger] c@[k] < cands@.len(),
    ensures
        r@ == at_positions(cands@, c@),
{
    let mut out: Vec<usize> = Vec::new();
    let mut k: usize = 0;
    while k < c.len()
        invariant
            k <= c@.len(),
            forall|j: int| 0 <= j < c@.len() ==> #[trigger] c@[j] < cands@.len(),
            out@ == at_positions(cands@, c@.take(k as int)),
        decreases c@.len() - k,
    {
        out.push(cands[c[k]]);
        k += 1;
        proof {
            assert(out@ =~= at_positions(cands@, c@.take(k as int)));
        }
    }
    proof {
        assert(c@.take(c@.len() as int) =~= c@);
    }
    out
}

/// The standing unit to form from the candidate slots within cost cap `cap` (see
/// [`unit_combo_spec`]).
pub fn best_unit_combo(player: &PlayerData, candidates: &[usize], cap: u64) -> (r: Option<Vec<usize>>)
    requires
        forall|k: int| 0 <= k < candidates@.len() ==> #[trigger] candidates@[k] < player@.owned_cards.len(),
    ensures
        opt_seq(r) == unit_combo_spec(player@, candidates@, cap),
        match r {
            Some(v) => exists|c: Seq<usize>|
                is_best_combo(
                    species_of(player@, candidates@),
                    costs_of(player@, candidates@),
                    unit_scores_of(player@, candidates@),
                    cap,
                    c,
                ) && v@ == #[trigger] at_positions(candidates@, c),
            None => unit_combo_spec(player@, candidates@, cap) is None,
        },
{
    let ghost p = player@;
    let mut species: Vec<u32> = Vec::new();
    let mut costs: Vec<u64> = Vec::new();
    let mut scores: Vec<i64> = Vec::new();
    let mut k: usize = 0;
    while k < candidates.len()
        invariant
            k <= candidates@.len(),
            p == player@,
            forall|j: int| 0 <= j < candidates@.len() ==> #[trigger] candidates@[j] < p.owned_cards.len(),
            species@ == species_of(p, candidates@.take(k as int)),
            costs@ == costs_of(p, candidates@.take(k as int)),
            scores@ == unit_scores_of(p, candidates@.take(k as int)),
        decreases candidates@.len() - k,
    {
        let i = candidates[k];
        species.push(player.owned_cards[i]);
        costs.push(card_effective_cost(player, i));
        let m: u32 = if i < player.card_monster_counts.len() { player.card_monster_counts[i] } else { 1 };
        scores.push(m as i64);
        k += 1;
        proof {
            assert(species@ =~= species_of(p, candidates@.take(k as int)));
            assert(costs@ =~= costs_of(p, candidates@.take(k as int)));
            assert(scores@ =~= unit_scores_of(p, candidates@.take(k as int)));
        }
    }
    proof {
        assert(candidates@.take(candidates@.len() as int) =~= candidates@);
    }
    match best_combo(&species, &costs, &scores, cap) {
        Some(c) => {
            let r = slots_at(candidates, &c);
            Some(r)
        },
        None => None,
    }
}

/// The card of the body at owned slot `idx`, if the slot is owned and its card known.
pub open spec fn body_card(p: PlayerView, idx: usize) -> Option<CardDef> {
    if idx < p.owned_cards.len() { card_spec(p.owned_cards[idx as int]) } else { None }
}

/// The monsters a body at owned slot `idx` marches with: its count (the card's default off the
/// list), at least 1.
pub open spec fn marching_monsters(p: PlayerView, idx: usize) -> u32 {
    let c = if idx < p.card_monster_counts.len() {
        p.card_monster_counts[idx as int]
    } else {
        body_card(p, idx).unwrap().stats.monster_count
    };
    if c < 1 { 1 } else { c }
}

/// The formation marching from the owned slots `idx`: `None` when a slot is not owned or holds
/// an unknown card.
pub open spec fn formation_spec(p: PlayerView, idx: Seq<usize>) -> Option<AttackFormationView> {
    if forall|k: int| 0 <= k < idx.len() ==> (#[trigger] body_card(p, idx[k])) is Some {
        Some(
            AttackFormationView {
                card_indices: idx,
                monster_counts: idx.map_values(|i: usize| marching_monsters(p, i)),
                body_names: idx.map_values(|i: usize| body_card(p, i).unwrap().name@),
                speeds: idx.map_values(|i: usize| body_card(p, i).unwrap().stats.speed),
                skills: idx.map_values(
                    |i: usize| fallback_skills_spec(body_card(p, i).unwrap().rarity, body_card(p, i).unwrap().race),
                ),
                stats: idx.map_values(|i: usize| body_card(p, i).unwrap().stats),
            },
        )
    } else {
        None
    }
}

/// The optional view of an optional formation.
pub open spec fn opt_formation_view(o: Option<AttackFormation>) -> Option<AttackFormationView> {
    match o {
        Some(f) => Some(f@),
        None => None,
    }
}

/// The formation marching from the owned slots `indices` (see [`formation_spec`]).
pub fn build_formation_from_indices(player: &PlayerData, indices: &[usize]) -> (r: Option<AttackFormation>)
    ensures
        opt_formation_view(r) == formation_spec(player@, indices@),
{
    let ghost p = player@;
    let mut card_indices: Vec<usize> = Vec::new();
    let mut monster_counts: Vec<u32> = Vec::new();
    let mut body_names: Vec<String> = Vec::new();
    let mut speeds: Vec<u32> = Vec::new();
    let mut skills: Vec<SkillData> = Vec::new();
    let mut stats: Vec<CardStats> = Vec::new();
    let mut k: usize = 0;
    while k < indices.len()
        invariant
            k <= indices@.len(),
            p == player@,
            forall|j: int| 0 <= j < k ==> (#[trigger] body_card(p, indices@[j])) is Some,
            card_indices@ == indices@.take(k as int),
            body_names@.len() == k,
            skills@.len() == k,
            monster_counts@ == indices@.take(k as int).map_values(|i: usize| marching_monsters(p, i)),
            string_seq_view(body_names@) == indices@.take(k as int).map_values(|i: usize| body_card(p, i).unwrap().name@),
            speeds@ == indices@.take(k as int).map_values(|i: usize| body_card(p, i).unwrap().stats.speed),
            Seq::new(skills@.len(), |i: int| skills@[i]@) == indices@.take(k as int).map_values(
                |i: usize| fallback_skills_spec(body_card(p, i).unwrap().rarity, body_card(p, i).unwrap().race),
            ),
            stats@ == indices@.take(k as int).map_values(|i: usize| body_card(p, i).unwrap().stats),
        decreases indices@.len() - k,
    {
        let idx = indices[k];
        if idx >= player.owned_cards.len() {
            proof {
                assert(body_card(p, indices@[k as int]) is None);
            }
            return None;
        }
        let card_id = player.owned_cards[idx];
        let card = match get_card(card_id) {
            Some(c) => c,
            None => {
                proof {
                    assert(body_card(p, indices@[k as int]) is None);
                }
                return None;
            },
        };
        let c: u32 = if idx < player.card_monster_counts.len() {
            player.card_monster_counts[idx]
        } else {
            card.stats.monster_count
        };
        let mc = if c < 1 { 1 } else { c };
        let ghost old_names = body_names@;
        let ghost old_skills = skills@;
        let ghost t0 = indices@.take(k as int);
        card_indices.push(idx);
        monster_counts.push(mc);
        body_names.push(card.name.to_owned());
        speeds.push(card.stats.speed);
        skills.push(get_card_skills(card_id));
        stats.push(card.stats);
        k += 1;
        proof {
            let t = indices@.take(k as int);
            assert(card_indices@ =~= t);
            assert(monster_counts@ =~= t.map_values(|i: usize| marching_monsters(p, i)));
            assert forall|j: int| 0 <= j < t.len() implies #[trigger] string_seq_view(body_names@)[j] == t.map_values(
                |i: usize| body_card(p, i).unwrap().name@,
            )[j] by {
                if j < t0.len() {
                    assert(body_names@[j] == old_names[j]);
                    assert(string_seq_view(old_names)[j] == t0.map_values(|i: usize| body_card(p, i).unwrap().name@)[j]);
                    assert(t0[j] == t[j]);
                }
            }
            assert(string_seq_view(body_names@) =~= t.map_values(|i: usize| body_card(p, i).unwrap().name@));
            assert(speeds@ =~= t.map_values(|i: usize| body_card(p, i).unwrap().stats.speed));
            assert forall|j: int| 0 <= j < t.len() implies (#[trigger] skills@[j])@ == t.map_values(
                |i: usize| fallback_skills_spec(body_card(p, i).unwrap().rarity, body_card(p, i).unwrap().race),
            )[j] by {
                if j < t0.len() {
                    assert(skills@[j] == old_skills[j]);
                    assert(Seq::new(old_skills.len(), |i: int| old_skills[i]@)[j] == t0.map_values(
                        |i: usize| fallback_skills_spec(body_card(p, i).unwrap().rarity, body_card(p, i).unwrap().race),
                    )[j]);
                    assert(t0[j] == t[j]);
                }
            }
            assert(Seq::new(skills@.len(), |i: int| skills@[i]@) =~= t.map_values(
                |i: usize| fallback_skills_spec(body_card(p, i).unwrap().rarity, body_card(p, i).unwrap().race),
            ));
            assert(stats@ =~= t.map_values(|i: usize| body_card(p, i).unwrap().stats));
        }
    }
    proof {
        assert(indices@.take(indices@.len() as int) =~= indices@);
    }
    Some(AttackFormation { card_indices, monster_counts, body_names, speeds, skills, stats })
}

/// The owned slots used by the units, unit after unit.
pub open spec fn all_unit_slots(units: Seq<(Seq<char>, Seq<char>, Seq<i32>)>) -> Seq<usize>
    decreases units.len(),
{
    if units.len() == 0 {
        seq![]
    } else {
        all_unit_slots(units.drop_last()) + filled_slots(units.last().2)
    }
}

/// The standing units can stay as they are at `now`: there is at least one and at most
/// `max_units`, each has a leader, each slot they use is owned and not away on an expedition,
/// and no slot serves two units (or twice in one).
pub open spec fn units_valid(p: PlayerView, max_units: usize, now: u64) -> bool {
    let us = p.formed_units;
    &&& 0 < us.len() <= max_units
    &&& forall|k: int| 0 <= k < us.len() ==> (#[trigger] us[k]).2[2] >= 0
    &&& forall|k: int| 0 <= k < all_unit_slots(us).len() ==> slot_free(p, now, #[trigger] all_unit_slots(us)[k])
    &&& all_unit_slots(us).no_duplicates()
}

/// Whether the standing units can stay as they are (see [`units_valid`]).
pub fn ai_formed_units_valid(player: &PlayerData, max_units: usize, now: u64) -> (r: bool)
    ensures
        r == units_valid(player@, max_units, now),
{
    broadcast use vstd::std_specs::hash::group_hash_axioms;

    let ghost p = player@;
    let ghost us = p.formed_units;
    if player.formed_units.len() == 0 || player.formed_units.len() > max_units {
        return false;
    }
    let locked = march_locked_card_slots(player, now);
    let mut used: Vec<usize> = Vec::new();
    let mut i: usize = 0;
    while i < player.formed_units.len()
        invariant
            i <= us.len(),
            p == player@,
            us == p.formed_units,
            us.len() == player.formed_units@.len(),
            0 < us.len() <= max_units,
            locked@ == locked_slots(p.marches, now),
            used@ == all_unit_slots(us.take(i as int)),
            used@.no_duplicates(),
            forall|k: int| 0 <= k < i ==> (#[trigger] us[k]).2[2] >= 0,
            forall|k: int| 0 <= k < used@.len() ==> slot_free(p, now, #[trigger] used@[k]),
        decreases us.len() - i,
    {
        let unit = &player.formed_units[i];
        proof {
            assert(us[i as int] == unit@);
            assert(us.take(i + 1).drop_last() =~= us.take(i as int));
        }
        if !is_kc_unit_ready_to_deploy(&unit.indices) {
            proof {
                lemma_unit_slots_prefix(us, i as int + 1, us.len() as int);
                assert(us.take(us.len() as int) =~= us);
                assert(us.take(i + 1)[i as int] == us[i as int]);
            }
            return false;
        }
        let slots = formation_owned_slots_in_slot_order(&unit.indices);
        let ghost base = used@;
        let mut k: usize = 0;
        while k < slots.len()
            invariant
                k <= slots@.len(),
                i < us.len(),
                p == player@,
                us == p.formed_units,
                0 < us.len() <= max_units,
                locked@ == locked_slots(p.marches, now),
                slots@ == filled_slots(us[i as int].2),
                base == all_unit_slots(us.take(i as int)),
                used@ == base + slots@.take(k as int),
                used@.no_duplicates(),
                forall|j: int| 0 <= j < used@.len() ==> slot_free(p, now, #[trigger] used@[j]),
            decreases slots@.len() - k,
        {
            let slot = slots[k];
            if slot >= player.owned_cards.len() || locked.contains(&slot) || vec_has(&used, slot) {
                proof {
                    let full = all_unit_slots(us.take(i + 1));
                    assert(us.take(i + 1).drop_last() =~= us.take(i as int));
                    assert(us.take(i + 1).last() == us[i as int]);
                    assert(full == base + slots@);
                    assert(us.take(us.len() as int) =~= us);
                    assert(full[base.len() + k] == slot);
                    if vec_has_spec(used@, slot) {
                        let j = choose|j: int| 0 <= j < used@.len() && used@[j] == slot;
                        assert(full[j] == used@[j]);
                        assert(!full.no_duplicates());
                    } else {
                        assert(!slot_free(p, now, full[base.len() + k]));
                    }
                    lemma_unit_slots_prefix(us, i as int + 1, us.len() as int);
                    lemma_prefix_breaks(full, all_unit_slots(us), p, now);
                }
                return false;
            }
            used.push(slot);
            k += 1;
            proof {
                assert(used@ =~= base + slots@.take(k as int));
            }
        }
        proof {
            assert(slots@.take(slots@.len() as int) =~= slots@);
        }
        i += 1;
    }
    proof {
        assert(us.take(us.len() as int) =~= us);
    }
    true
}

pub open spec fn vec_has_spec(v: Seq<usize>, x: usize) -> bool {
    v.contains(x)
}

/// The slots of a prefix of the units begin the slots of all of them.
proof fn lemma_unit_slots_prefix(us: Seq<(Seq<char>, Seq<char>, Seq<i32>)>, a: int, b: int)
    requires
        0 <= a <= b <= us.len(),
    ensures
        all_unit_slots(us.take(a)).len() <= all_unit_slots(us.take(b)).len(),
        all_unit_slots(us.take(b)).take(all_unit_slots(us.take(a)).len() as int) == all_unit_slots(us.take(a)),
    decreases b - a,
{
    if a < b {
        lemma_unit_slots_prefix(us, a, b - 1);
        assert(us.take(b).drop_last() =~= us.take(b - 1));
        let x = all_unit_slots(us.take(a));
        let y = all_unit_slots(us.take(b - 1));
        let z = all_unit_slots(us.take(b));
        assert(z.take(x.len() as int) =~= y.take(x.len() as int));
    } else {
        assert(all_unit_slots(us.take(b)).take(all_unit_slots(us.take(a)).len() as int) =~= all_unit_slots(us.take(a)));
    }
}

/// A fault in a prefix is a fault in the whole.
proof fn lemma_prefix_breaks(pre: Seq<usize>, all: Seq<usize>, p: PlayerView, now: u64)
    requires
        pre.len() <= all.len(),
        all.take(pre.len() as int) == pre,
        !pre.no_duplicates() || exists|k: int| 0 <= k < pre.len() && !slot_free(p, now, #[trigger] pre[k]),
    ensures
        !all.no_duplicates() || exists|k: int| 0 <= k < all.len() && !slot_free(p, now, #[trigger] all[k]),
{
    if !pre.no_duplicates() {
        let (i, j) = choose|i: int, j: int| 0 <= i < pre.len() && 0 <= j < pre.len() && i != j && pre[i] == pre[j];
        assert(all[i] == pre[i] && all[j] == pre[j]);
    } else {
        let k = choose|k: int| 0 <= k < pre.len() && !slot_free(p, now, #[trigger] pre[k]);
        assert(all[k] == pre[k]);
    }
}

/// The owned slots below `m` that are not away on an expedition at `now`, in order.
pub open spec fn free_slots_below(p: PlayerView, now: u64, m: nat) -> Seq<usize>
    decreases m,
{
    if m == 0 {
        seq![]
    } else {
        let rest = free_slots_below(p, now, (m - 1) as nat);
        if locked_slots(p.marches, now).contains((m - 1) as usize) {
            rest
        } else {
            rest.push((m - 1) as usize)
        }
    }
}

/// The candidates that are not in `c`, in order.
pub open spec fn without(cands: Seq<usize>, c: Seq<usize>) -> Seq<usize>
    decreases cands.len(),
{
    if cands.len() == 0 {
        seq![]
    } else {
        let rest = without(cands.drop_last(), c);
        if c.contains(cands.last()) {
            rest
        } else {
            rest.push(cands.last())
        }
    }
}

/// The standing units to form, at most `rounds` of them: each the unit to form (see
/// [`unit_combo_spec`]) from the candidates the earlier ones left; forming stops when no
/// candidate is left or none can form a unit.
pub open spec fn unit_plan(p: PlayerView, cap: u64, cands: Seq<usize>, rounds: nat) -> Seq<Seq<usize>>
    decreases rounds,
{
    if rounds == 0 || cands.len() == 0 {
        seq![]
    } else {
        match unit_combo_spec(p, cands, cap) {
            Some(c) => seq![c] + unit_plan(p, cap, without(cands, c), (rounds - 1) as nat),
            None => seq![],
        }
    }
}

/// The standing unit made of the `k`-th formation of a plan.
pub open spec fn planned_unit(k: int, slots: Seq<usize>) -> (Seq<char>, Seq<char>, Seq<i32>) {
    ("ai-unit-"@ + decimal(k as nat), "ユニット"@ + decimal((k + 1) as nat), formed_indices_spec(slots))
}

/// The standing units a faction forms at `now` with at most `max_units` units within cost cap
/// `cap`: the plan (see [`unit_plan`]) over its free owned slots.
pub open spec fn ai_units_spec(p: PlayerView, max_units: usize, cap: u64, now: u64) -> Seq<(Seq<char>, Seq<char>, Seq<i32>)> {
    let plan = unit_plan(p, cap, free_slots_below(p, now, p.owned_cards.len()), max_units as nat);
    Seq::new(plan.len(), |k: int| planned_unit(k, plan[k]))
}

fn unit_label(prefix: &str, n: u64) -> (s: String)
    ensures
        s@ == prefix@ + decimal(n as nat),
{
    let mut v: Vec<char> = Vec::new();
    push_str_chars(&mut v, prefix);
    push_decimal(n, &mut v);
    string_from_chars(&v)
}

/// The standing units a faction forms at `now` (see [`ai_units_spec`]).
pub fn build_ai_formed_units(player: &PlayerData, max_units: usize, cap: u64, now: u64) -> (r: Vec<StoredFormedUnit>)
    ensures
        views(r@) == ai_units_spec(player@, max_units, cap, now),
{
    broadcast use vstd::std_specs::hash::group_hash_axioms;

    let ghost p = player@;
    let n = player.owned_cards.len();
    let locked = march_locked_card_slots(player, now);
    let mut cands: Vec<usize> = Vec::new();
    let mut i: usize = 0;
    while i < n
        invariant
            i <= n,
            n == p.owned_cards.len(),
            p == player@,
            locked@ == locked_slots(p.marches, now),
            cands@ == free_slots_below(p, now, i as nat),
            forall|k: int| 0 <= k < cands@.len() ==> #[trigger] cands@[k] < n,
        decreases n - i,
    {
        if !locked.contains(&i) {
            cands.push(i);
        }
        i += 1;
    }
    let ghost full = unit_plan(p, cap, cands@, max_units as nat);
    let ghost done: Seq<Seq<usize>> = seq![];
    let mut units: Vec<StoredFormedUnit> = Vec::new();
    let mut unit_idx: usize = 0;
    while unit_idx < max_units
        invariant
            unit_idx <= max_units,
            n == p.owned_cards.len(),
            p == player@,
            full == unit_plan(p, cap, free_slots_below(p, now, n as nat), max_units as nat),
            forall|k: int| 0 <= k < cands@.len() ==> #[trigger] cands@[k] < n,
            done.len() == unit_idx,
            units@.len() == unit_idx,
            full == done + unit_plan(p, cap, cands@, (max_units - unit_idx) as nat),
            views(units@) == Seq::new(done.len(), |k: int| planned_unit(k, done[k])),
        ensures
            full == done,
            views(units@) == Seq::new(done.len(), |k: int| planned_unit(k, done[k])),
        decreases max_units - unit_idx,
    {
        if cands.len() == 0 {
            proof {
                assert(full == done + unit_plan(p, cap, cands@, (max_units - unit_idx) as nat));
                assert(done + unit_plan(p, cap, cands@, (max_units - unit_idx) as nat) =~= done);
            }
            break;
        }
        let combo = match best_unit_combo(player, cands.as_slice(), cap) {
            Some(c) => c,
            None => {
                proof {
                    assert(done + unit_plan(p, cap, cands@, (max_units - unit_idx) as nat) =~= done);
                }
                break;
            },
        };
        let mut rest: Vec<usize> = Vec::new();
        let mut k: usize = 0;
        while k < cands.len()
            invariant
                k <= cands@.len(),
                forall|j: int| 0 <= j < cands@.len() ==> #[trigger] cands@[j] < n,
                forall|j: int| 0 <= j < rest@.len() ==> #[trigger] rest@[j] < n,
                rest@ == without(cands@.take(k as int), combo@),
            decreases cands@.len() - k,
        {
            let x = cands[k];
            proof {
                assert(cands@.take(k + 1).drop_last() =~= cands@.take(k as int));
            }
            if !vec_has(&combo, x) {
                rest.push(x);
            }
            k += 1;
        }
        proof {
            assert(cands@.take(cands@.len() as int) =~= cands@);
        }
        let id = unit_label("ai-unit-", unit_idx as u64);
        let name = unit_label("ユニット", unit_idx as u64 + 1);
        let indices = slots_to_formed_indices(combo.as_slice());
        let ghost old_units = views(units@);
        let ghost old_vec = units@;
        let unit = StoredFormedUnit { id, name, indices };
        proof {
            assert(unit@ == planned_unit(unit_idx as int, combo@));
        }
        units.push(unit);
        proof {
            let tail = unit_plan(p, cap, rest@, (max_units - unit_idx - 1) as nat);
            assert(unit_plan(p, cap, cands@, (max_units - unit_idx) as nat) == seq![combo@] + tail);
            let done2 = done.push(combo@);
            assert(done + (seq![combo@] + tail) =~= done2 + tail);
            assert forall|j: int| 0 <= j < done2.len() implies #[trigger] views(units@)[j] == planned_unit(j, done2[j]) by {
                if j < done.len() {
                    assert(units@[j] == old_vec[j]);
                    assert(old_units[j] == old_vec[j]@);
                    assert(old_units[j] == planned_unit(j, done[j]));
                } else {
                    assert(units@[j] == unit);
                }
            }
            assert(views(units@) =~= Seq::new(done2.len(), |k: int| planned_unit(k, done2[k])));
            done = done2;
        }
        cands = rest;
        unit_idx += 1;
    }
    units
}

/// How many standing units a faction keeps at `now`: one more than its facilities allow, at
/// least 1.
pub open spec fn ai_max_units(p: PlayerView, now: u64) -> usize {
    let m = facility_bonuses_spec(p.facilities, now).unit_capacity as int + 1;
    if m > usize::MAX { usize::MAX } else { m as usize }
}

/// The cost cap of a faction's units at `now`, in thousandths: its own and its facilities' bonus.
pub open spec fn ai_cost_cap(p: PlayerView, now: u64) -> u64 {
    (p.unit_cost_cap_milli + facility_bonuses_spec(p.facilities, now).unit_cost_cap_bonus_milli) as u64
}

/// Keeps a faction's standing units at `now`: they stay when still valid (see [`units_valid`]),
/// else they are formed anew (see [`ai_units_spec`]). Nothing else changes.
pub fn ensure_ai_formed_units(player: &mut PlayerData, now: u64)
    requires
        bonuses_fit(facility_views(old(player).facilities@), now),
    ensures
        views(final(player).formed_units@) == if units_valid(old(player)@, ai_max_units(old(player)@, now), now) {
            old(player)@.formed_units
        } else {
            ai_units_spec(old(player)@, ai_max_units(old(player)@, now), ai_cost_cap(old(player)@, now), now)
        },
        final(player)@ == (PlayerView { formed_units: final(player)@.formed_units, ..old(player)@ }),
{
    let bonuses = calculate_facility_bonuses_at(player.facilities.as_slice(), now);
    proof {
        assert(facility_views(player.facilities@) == player@.facilities);
    }
    let m: u64 = bonuses.unit_capacity as u64 + 1;
    let max_units: usize = if m > usize::MAX as u64 { usize::MAX } else { m as usize };
    let cap: u64 = player.unit_cost_cap_milli as u64 + bonuses.unit_cost_cap_bonus_milli as u64;
    if ai_formed_units_valid(player, max_units, now) {
        return;
    }
    let units = build_ai_formed_units(player, max_units, cap, now);
    player.formed_units = units;
}

/// Keeps a faction's standing units as of the current time (the clock is read once; see
/// [`ensure_ai_formed_units`]).
pub fn initialize_ai_formed_units(player: &mut PlayerData)
    requires
        facilities_fit(old(player).facilities@),
    ensures
        exists|now: u64|
            views(final(player).formed_units@) == if units_valid(old(player)@, ai_max_units(old(player)@, now), now) {
                old(player)@.formed_units
            } else {
                ai_units_spec(old(player)@, ai_max_units(old(player)@, now), #[trigger] ai_cost_cap(old(player)@, now), now)
            },
        final(player)@ == (PlayerView { formed_units: final(player)@.formed_units, ..old(player)@ }),
{
    let now = now_ms();
    ensure_ai_formed_units(player, now);
}

/// Whether a standing unit can be sent out at `now` (see [`unit_available`]).
pub fn formed_unit_available_for_dispatch(player: &PlayerData, unit: &StoredFormedUnit, now: u64) -> (r: bool)
    ensures
        r == unit_available(player@, unit@, now),
{
    formed_unit_available_at_home(player, unit, now)
}

/// The unit cost cap of player `player_id` at `now`, in thousandths: the first such player's cap
/// and facility bonus; 4 and no bonus for an unknown player.
pub open spec fn cost_cap_of(ps: Seq<PlayerData>, player_id: Seq<char>, now: u64) -> u64 {
    if has_player(ps, player_id) {
        let i = choose|i: int| is_player_index(ps, player_id, i) && forall|j: int| 0 <= j < i ==> ps[j].player_id@ != player_id;
        ai_cost_cap(ps[i]@, now)
    } else {
        (4000 + facility_bonuses_spec(seq![], now).unit_cost_cap_bonus_milli) as u64
    }
}

/// The unit cost cap of player `player_id` at `now` (see [`cost_cap_of`]).
pub fn unit_cost_cap_for(players: &Vec<PlayerData>, player_id: &str, now: u64) -> (c: u64)
    requires
        forall|i: int| 0 <= i < players@.len() ==> bonuses_fit(facility_views((#[trigger] players@[i]).facilities@), now),
    ensures
        c == cost_cap_of(players@, player_id@, now),
{
    match find_player(players, player_id) {
        Some(i) => {
            let p = &players[i];
            let b = calculate_facility_bonuses_at(p.facilities.as_slice(), now);
            proof {
                assert(facility_views(p.facilities@) == p@.facilities);
                let k = choose|k: int| is_player_index(players@, player_id@, k) && forall|j: int| 0 <= j < k ==> players@[j].player_id@ != player_id@;
                assert(k == i as int) by {
                    if k < i {
                        assert(players@[k].player_id@ != player_id@);
                    } else if k > i {
                        assert(players@[i as int].player_id@ != player_id@);
                    }
                }
            }
            p.unit_cost_cap_milli as u64 + b.unit_cost_cap_bonus_milli as u64
        },
        None => {
            let empty: Vec<BuiltFacility> = Vec::new();
            let b = calculate_facility_bonuses_at(empty.as_slice(), now);
            proof {
                assert(facility_views(empty@) =~= seq![]);
            }
            4000 + b.unit_cost_cap_bonus_milli as u64
        },
    }
}

/// The position of the first player with id `id` (meaningful when there is one).
pub open spec fn first_player_index(ps: Seq<PlayerData>, id: Seq<char>) -> int {
    choose|i: int| is_player_index(ps, id, i) && forall|j: int| 0 <= j < i ==> ps[j].player_id@ != id
}

pub proof fn lemma_first_player_index(ps: Seq<PlayerData>, id: Seq<char>, i: int)
    requires
        is_player_index(ps, id, i),
        forall|j: int| 0 <= j < i ==> ps[j].player_id@ != id,
    ensures
        first_player_index(ps, id) == i,
{
    let k = first_player_index(ps, id);
    assert(is_player_index(ps, id, k) && forall|j: int| 0 <= j < k ==> ps[j].player_id@ != id);
    if k < i {
        assert(ps[k].player_id@ != id);
    } else if k > i {
        assert(ps[i].player_id@ != id);
    }
}

/// When player `j` has id `id`, some player is the first with it.
proof fn lemma_some_first_player(ps: Seq<PlayerData>, id: Seq<char>, j: int)
    requires
        is_player_index(ps, id, j),
    ensures
        exists|i: int| is_player_index(ps, id, i) && forall|k: int| 0 <= k < i ==> ps[k].player_id@ != id,
    decreases j,
{
    if exists|k: int| 0 <= k < j && ps[k].player_id@ == id {
        let k = choose|k: int| 0 <= k < j && ps[k].player_id@ == id;
        lemma_some_first_player(ps, id, k);
    } else {
        assert(is_player_index(ps, id, j) && forall|k: int| 0 <= k < j ==> ps[k].player_id@ != id);
    }
}

/// When some player has id `id`, [`first_player_index`] is the first of them.
pub proof fn lemma_first_player_exists(ps: Seq<PlayerData>, id: Seq<char>)
    requires
        has_player(ps, id),
    ensures
        is_player_index(ps, id, first_player_index(ps, id)),
        forall|j: int| 0 <= j < first_player_index(ps, id) ==> ps[j].player_id@ != id,
{
    let w = choose|w: int| is_player_index(ps, id, w);
    lemma_some_first_player(ps, id, w);
}

/// Players with the same ids, position by position, have the same first player of each id.
pub proof fn lemma_same_ids_first_player(ps: Seq<PlayerData>, qs: Seq<PlayerData>, id: Seq<char>)
    requires
        ps.len() == qs.len(),
        forall|j: int| 0 <= j < ps.len() ==> (#[trigger] ps[j]).player_id@ == qs[j].player_id@,
    ensures
        has_player(qs, id) == has_player(ps, id),
        has_player(ps, id) ==> first_player_index(qs, id) == first_player_index(ps, id),
{
    if has_player(ps, id) {
        lemma_first_player_exists(ps, id);
        let i = first_player_index(ps, id);
        assert(is_player_index(qs, id, i));
        assert forall|j: int| 0 <= j < i implies qs[j].player_id@ != id by {
            assert(ps[j].player_id@ == qs[j].player_id@);
        }
        lemma_first_player_index(qs, id, i);
    }
    if has_player(qs, id) {
        let w = choose|w: int| is_player_index(qs, id, w);
        assert(ps[w].player_id@ == qs[w].player_id@);
        assert(is_player_index(ps, id, w));
    }
}

/// Slot `i` can join an attack at `now`: it is not resting, and it has at least `stamina_cost`
/// stamina and some monsters (none of either off the lists).
pub open spec fn attack_ready(p: PlayerView, now: u64, stamina_cost: u32, i: usize) -> bool {
    &&& !(i < p.card_rest_until.len() && p.card_rest_until[i as int] > now)
    &&& (if i < p.card_stamina.len() { p.card_stamina[i as int] } else { 0 }) >= stamina_cost
    &&& (if i < p.card_monster_counts.len() { p.card_monster_counts[i as int] } else { 0 }) != 0
}

/// The owned slots below `m` that can join an attack, in order.
pub open spec fn attack_candidates(p: PlayerView, now: u64, stamina_cost: u32, m: nat) -> Seq<usize>
    decreases m,
{
    if m == 0 {
        seq![]
    } else {
        let rest = attack_candidates(p, now, stamina_cost, (m - 1) as nat);
        if attack_ready(p, now, stamina_cost, (m - 1) as usize) {
            rest.push((m - 1) as usize)
        } else {
            rest
        }
    }
}

/// How each candidate slot alone fares against the defenders (see [`formation_score_spec`]).
pub open spec fn attack_scores_of(p: PlayerView, cands: Seq<usize>, names: Seq<Seq<char>>, counts: Seq<u32>) -> Seq<i64> {
    cands.map_values(|i: usize| formation_score_spec(p, seq![i], names, counts) as i64)
}

/// The formation to attack with: the best formation (see [`is_best_combo`]) of the slots that
/// can join an attack, within cost cap `cap`, scored against the defenders `names` and
/// `counts`; `None` when there is none or one of its cards is unknown.
pub open spec fn attack_formation_spec(
    p: PlayerView,
    now: u64,
    stamina_cost: u32,
    cap: u64,
    names: Seq<Seq<char>>,
    counts: Seq<u32>,
) -> Option<AttackFormationView> {
    let cands = attack_candidates(p, now, stamina_cost, p.owned_cards.len());
    match best_combo_spec(species_of(p, cands), costs_of(p, cands), attack_scores_of(p, cands, names, counts), cap) {
        Some(c) => formation_spec(p, at_positions(cands, c)),
        None => None,
    }
}

/// The formation faction `ai_id` attacks `target` with at `now`, an attack costing
/// `stamina_cost` stamina: see [`attack_formation_spec`], with the faction's cost cap and the
/// target's defenders; `None` for an unknown faction.
pub fn build_attack_formation(
    players: &Vec<PlayerData>,
    ai_id: &str,
    target: &Territory,
    now: u64,
    stamina_cost: u32,
) -> (r: Option<AttackFormation>)
    requires
        forall|i: int| 0 <= i < players@.len() ==> bonuses_fit(facility_views((#[trigger] players@[i]).facilities@), now),
        target.troops <= 100_000_000,
    ensures
        has_player(players@, ai_id@) ==> exists|d: (u32, Seq<u32>, Seq<Seq<char>>)|
            #[trigger] territory_defenders_ok(target@, players@, now, d) && opt_formation_view(r) == attack_formation_spec(
                players@[first_player_index(players@, ai_id@)]@,
                now,
                stamina_cost,
                cost_cap_of(players@, ai_id@, now),
                d.2,
                d.1,
            ),
        !has_player(players@, ai_id@) ==> r is None,
        r matches Some(f) ==> f.card_indices@.len() <= 3,
{
    let pi = match find_player(players, ai_id) {
        Some(i) => i,
        None => {
            return None;
        },
    };
    proof {
        lemma_first_player_index(players@, ai_id@, pi as int);
    }
    let player = &players[pi];
    let ghost p = player@;
    let cap = unit_cost_cap_for(players, ai_id, now);
    let defenders = resolve_territory_defenders(target, players, now);
    let ghost d = defenders_view(defenders);
    let names = &defenders.2;
    let counts = &defenders.1;
    proof {
        assert(views(names@) =~= string_seq_view(names@));
    }
    let n = player.owned_cards.len();
    let mut cands: Vec<usize> = Vec::new();
    let mut species: Vec<u32> = Vec::new();
    let mut costs: Vec<u64> = Vec::new();
    let mut scores: Vec<i64> = Vec::new();
    let mut i: usize = 0;
    while i < n
        invariant
            i <= n,
            n == p.owned_cards.len(),
            p == player@,
            names@.len() <= 100_000_000,
            views(names@) == d.2,
            counts@ == d.1,
            cands@ == attack_candidates(p, now, stamina_cost, i as nat),
            forall|k: int| 0 <= k < cands@.len() ==> #[trigger] cands@[k] < n,
            species@ == species_of(p, cands@),
            costs@ == costs_of(p, cands@),
            scores@ == attack_scores_of(p, cands@, d.2, d.1),
        decreases n - i,
    {
        let resting = i < player.card_rest_until.len() && player.card_rest_until[i] > now;
        let stamina: u32 = if i < player.card_stamina.len() { player.card_stamina[i] } else { 0 };
        let count: u32 = if i < player.card_monster_counts.len() { player.card_monster_counts[i] } else { 0 };
        if !resting && stamina >= stamina_cost && count != 0 {
            let one: [usize; 1] = [i];
            let sc = score_formation(one.as_slice(), player, names.as_slice(), counts.as_slice());
            proof {
                assert(one@ =~= seq![i]);
            }
            let ghost old_cands = cands@;
            cands.push(i);
            species.push(player.owned_cards[i]);
            costs.push(card_effective_cost(player, i));
            scores.push(sc);
            proof {
                assert(species@ =~= species_of(p, cands@));
                assert(costs@ =~= costs_of(p, cands@));
                assert(scores@ =~= attack_scores_of(p, cands@, d.2, d.1));
            }
        }
        i += 1;
    }
    let pos = match best_combo(&species, &costs, &scores, cap) {
        Some(c) => c,
        None => {
            return None;
        },
    };
    let slots = slots_at(cands.as_slice(), &pos);
    proof {
        assert(slots@.len() == pos@.len());
    }
    build_formation_from_indices(player, slots.as_slice())
}

} // verus!
