//! Status points that players assign to their monsters, and the resulting battle statistics.
use vstd::prelude::*;
use crate::cards::{card_spec, get_card, CardStats};
use crate::facilities::{bonuses_fit, calculate_facility_bonuses_at, facilities_fit, facility_bonuses_spec, facility_views, FacilityBonuses};
use crate::model::{PlayerData, PlayerView};
use crate::rng::now_ms;

verus! {

/// Status points assigned to one owned monster slot.
#[derive(Debug, Clone, Copy, PartialEq, Eq, Structural)]
pub struct CardStatBonuses {
    pub speed: u32,
    pub attack: u32,
    pub intelligence: u32,
    pub defense: u32,
    pub magic_defense: u32,
}

/// No points assigned.
pub open spec fn no_stat_bonuses() -> CardStatBonuses {
    CardStatBonuses { speed: 0, attack: 0, intelligence: 0, defense: 0, magic_defense: 0 }
}

impl Default for CardStatBonuses {
    fn default() -> (r: Self)
        ensures
            r == no_stat_bonuses(),
    {
        CardStatBonuses { speed: 0, attack: 0, intelligence: 0, defense: 0, magic_defense: 0 }
    }
}

/// All points of a slot together.
pub open spec fn total_spec(b: CardStatBonuses) -> int {
    b.speed + b.attack + b.intelligence + b.defense + b.magic_defense
}

/// `a + b` capped at `u32::MAX`.
pub open spec fn sat_add(a: u32, b: u32) -> u32 {
    if a + b > u32::MAX {
        u32::MAX
    } else {
        (a + b) as u32
    }
}

impl CardStatBonuses {
    /// All points of the slot together.
    pub fn total(&self) -> (t: u32)
        requires
            total_spec(*self) <= u32::MAX,
        ensures
            t == total_spec(*self),
    {
        self.speed + self.attack + self.intelligence + self.defense + self.magic_defense
    }

    /// Adds `delta` field by field, each sum capped at `u32::MAX`.
    pub fn add_assignments(&mut self, delta: &CardStatBonuses)
        ensures
            final(self).speed == sat_add(old(self).speed, delta.speed),
            final(self).attack == sat_add(old(self).attack, delta.attack),
            final(self).intelligence == sat_add(old(self).intelligence, delta.intelligence),
            final(self).defense == sat_add(old(self).defense, delta.defense),
            final(self).magic_defense == sat_add(old(self).magic_defense, delta.magic_defense),
    {
        self.speed = self.speed.saturating_add(delta.speed);
        self.attack = self.attack.saturating_add(delta.attack);
        self.intelligence = self.intelligence.saturating_add(delta.intelligence);
        self.defense = self.defense.saturating_add(delta.defense);
        self.magic_defense = self.magic_defense.saturating_add(delta.magic_defense);
    }
}

/// Law: without saturation, assigning points raises the total by the points assigned.
pub proof fn lemma_add_assignments_total(b: CardStatBonuses, delta: CardStatBonuses)
    requires
        b.speed + delta.speed <= u32::MAX,
        b.attack + delta.attack <= u32::MAX,
        b.intelligence + delta.intelligence <= u32::MAX,
        b.defense + delta.defense <= u32::MAX,
        b.magic_defense + delta.magic_defense <= u32::MAX,
    ensures
        total_spec(
            CardStatBonuses {
                speed: sat_add(b.speed, delta.speed),
                attack: sat_add(b.attack, delta.attack),
                intelligence: sat_add(b.intelligence, delta.intelligence),
                defense: sat_add(b.defense, delta.defense),
                magic_defense: sat_add(b.magic_defense, delta.magic_defense),
            },
        ) == total_spec(b) + total_spec(delta),
{
}

/// Reference intelligence for skill scaling (the fallback when a card sets none).
pub const REF_INTELLIGENCE: u32 = 5;

/// `v` raised by 10% and rounded to the nearest integer (halves up).
pub open spec fn enhance(v: u32) -> int {
    (11 * v + 5) / 10
}

/// Battle statistics of a card with assigned points, facility bonuses and the enhanced
/// star (+10% on every statistic and on the monster count).
pub open spec fn effective_stats_spec(
    card_id: u32,
    bonuses: CardStatBonuses,
    facility: FacilityBonuses,
    enhanced: bool,
) -> CardStats {
    let base = match card_spec(card_id) {
        Some(c) => c.stats,
        None => crate::cards::default_stats_spec(),
    };
    let s = CardStats {
        monster_count: base.monster_count,
        speed: sat_add(sat_add(base.speed, bonuses.speed), facility.speed_bonus),
        attack: sat_add(base.attack, bonuses.attack),
        intelligence: sat_add(base.intelligence, bonuses.intelligence),
        defense: sat_add(base.defense, bonuses.defense),
        magic_defense: sat_add(base.magic_defense, bonuses.magic_defense),
        range: base.range,
        cost_milli: base.cost_milli,
        occupation_power: base.occupation_power,
    };
    if enhanced {
        CardStats {
            speed: enhance_capped(s.speed),
            attack: enhance_capped(s.attack),
            intelligence: enhance_capped(s.intelligence),
            defense: enhance_capped(s.defense),
            magic_defense: enhance_capped(s.magic_defense),
            monster_count: enhance_capped(s.monster_count),
            ..s
        }
    } else {
        s
    }
}

/// `x` capped at `u32::MAX`.
pub open spec fn cap_u32(x: int) -> int {
    if x > u32::MAX {
        u32::MAX as int
    } else {
        x
    }
}

/// The statistics a card starts from: its own, or the default ones for an unknown card.
pub open spec fn base_stats_of(card_id: u32) -> CardStats {
    match card_spec(card_id) {
        Some(c) => c.stats,
        None => crate::cards::default_stats_spec(),
    }
}

/// Points go to their own statistic: without the enhanced star, each battle statistic is the
/// card's base statistic plus the points assigned to that same statistic (speed also gets the
/// facilities' speed bonus), capped at `u32::MAX`; the monster count, range, cost and
/// occupation power are the card's own. With the star, every raised statistic and the monster
/// count are those without it, raised by 10% and rounded (halves up), capped at `u32::MAX`.
pub proof fn lemma_points_go_to_their_statistic(
    card_id: u32,
    bonuses: CardStatBonuses,
    facility: FacilityBonuses,
)
    ensures
        ({
            let base = base_stats_of(card_id);
            let s = effective_stats_spec(card_id, bonuses, facility, false);
            &&& s.speed == cap_u32(cap_u32(base.speed + bonuses.speed) + facility.speed_bonus)
            &&& s.attack == cap_u32(base.attack + bonuses.attack)
            &&& s.intelligence == cap_u32(base.intelligence + bonuses.intelligence)
            &&& s.defense == cap_u32(base.defense + bonuses.defense)
            &&& s.magic_defense == cap_u32(base.magic_defense + bonuses.magic_defense)
            &&& s.monster_count == base.monster_count
            &&& s.range == base.range
            &&& s.cost_milli == base.cost_milli
            &&& s.occupation_power == base.occupation_power
        }),
        ({
            let s = effective_stats_spec(card_id, bonuses, facility, false);
            let e = effective_stats_spec(card_id, bonuses, facility, true);
            &&& e.speed == cap_u32((11 * s.speed + 5) / 10)
            &&& e.attack == cap_u32((11 * s.attack + 5) / 10)
            &&& e.intelligence == cap_u32((11 * s.intelligence + 5) / 10)
            &&& e.defense == cap_u32((11 * s.defense + 5) / 10)
            &&& e.magic_defense == cap_u32((11 * s.magic_defense + 5) / 10)
            &&& e.monster_count == cap_u32((11 * s.monster_count + 5) / 10)
            &&& e.range == s.range
            &&& e.cost_milli == s.cost_milli
            &&& e.occupation_power == s.occupation_power
        }),
{
}

/// `enhance(v)` capped at `u32::MAX`.
pub open spec fn enhance_capped(v: u32) -> u32 {
    if enhance(v) > u32::MAX {
        u32::MAX
    } else {
        enhance(v) as u32
    }
}

fn enhance_value(v: u32) -> (r: u32)
    ensures
        r == enhance_capped(v),
{
    let w: u64 = (11 * (v as u64) + 5) / 10;
    if w > u32::MAX as u64 {
        u32::MAX
    } else {
        w as u32
    }
}

/// Battle statistics of a card: the card's own statistics plus the assigned points (and the
/// facilities' speed bonus), each sum capped at `u32::MAX`; an enhanced card then gets +10%
/// on every statistic and on its monster count, rounded to the nearest integer. An unknown
/// card starts from the default statistics.
pub fn effective_card_stats(
    card_id: u32,
    bonuses: &CardStatBonuses,
    facility_bonuses: &FacilityBonuses,
    enhanced: bool,
) -> (s: CardStats)
    ensures
        s == effective_stats_spec(card_id, *bonuses, *facility_bonuses, enhanced),
        !enhanced ==> s.defense == cap_u32(base_stats_of(card_id).defense + bonuses.defense)
            && s.magic_defense == cap_u32(base_stats_of(card_id).magic_defense + bonuses.magic_defense)
            && s.attack == cap_u32(base_stats_of(card_id).attack + bonuses.attack)
            && s.intelligence == cap_u32(base_stats_of(card_id).intelligence + bonuses.intelligence)
            && s.speed == cap_u32(cap_u32(base_stats_of(card_id).speed + bonuses.speed) + facility_bonuses.speed_bonus),
{
    let base = match get_card(card_id) {
        Some(c) => c.stats,
        None => CardStats::default(),
    };
    let mut stats = CardStats {
        monster_count: base.monster_count,
        speed: base.speed.saturating_add(bonuses.speed).saturating_add(facility_bonuses.speed_bonus),
        attack: base.attack.saturating_add(bonuses.attack),
        intelligence: base.intelligence.saturating_add(bonuses.intelligence),
        defense: base.defense.saturating_add(bonuses.defense),
        magic_defense: base.magic_defense.saturating_add(bonuses.magic_defense),
        range: base.range,
        cost_milli: base.cost_milli,
        occupation_power: base.occupation_power,
    };
    if enhanced {
        stats.speed = enhance_value(stats.speed);
        stats.attack = enhance_value(stats.attack);
        stats.intelligence = enhance_value(stats.intelligence);
        stats.defense = enhance_value(stats.defense);
        stats.magic_defense = enhance_value(stats.magic_defense);
        stats.monster_count = enhance_value(stats.monster_count);
    }
    stats
}

/// Makes the per-slot point assignments exactly as long as the owned cards: missing slots
/// get no points, extra ones are dropped.
pub fn ensure_card_stat_bonuses(player: &mut PlayerData)
    ensures
        final(player).card_stat_bonuses@.len() == old(player).owned_cards@.len(),
        forall|i: int|
            0 <= i < final(player).card_stat_bonuses@.len() ==> final(player).card_stat_bonuses@[i]
                == if i < old(player).card_stat_bonuses@.len() {
                old(player).card_stat_bonuses@[i]
            } else {
                no_stat_bonuses()
            },
        final(player)@ == (crate::model::PlayerView {
            card_stat_bonuses: final(player).card_stat_bonuses@,
            ..old(player)@
        }),
{
    let n = player.owned_cards.len();
    while player.card_stat_bonuses.len() < n
        invariant
            n == player.owned_cards@.len(),
            player.owned_cards@ == old(player).owned_cards@,
            player@ == (crate::model::PlayerView {
                card_stat_bonuses: player.card_stat_bonuses@,
                ..old(player)@
            }),
            player.card_stat_bonuses@.len() >= old(player).card_stat_bonuses@.len(),
            forall|i: int|
                0 <= i < player.card_stat_bonuses@.len() ==> player.card_stat_bonuses@[i] == if i
                    < old(player).card_stat_bonuses@.len() {
                    old(player).card_stat_bonuses@[i]
                } else {
                    no_stat_bonuses()
                },
        decreases n - player.card_stat_bonuses@.len(),
    {
        player.card_stat_bonuses.push(CardStatBonuses::default());
    }
    player.card_stat_bonuses.truncate(n);
}

/// The battle statistics of the body at owned slot `slot`, the `body`-th of a formation, given
/// facility bonuses `facility`: its card's statistics with its allotted bonuses, the facility
/// bonuses and its enhancement (card 0, no bonuses, not enhanced off the lists), with the
/// formation's monster count for the body when one is given and not 0.
pub open spec fn body_stats_spec(p: PlayerView, facility: FacilityBonuses, slot: usize, body: int, counts: Option<Seq<u32>>) -> CardStats {
    let card_id = if slot < p.owned_cards.len() { p.owned_cards[slot as int] } else { 0 };
    let bonuses = if slot < p.card_stat_bonuses.len() { p.card_stat_bonuses[slot as int] } else { no_stat_bonuses() };
    let enhanced = slot < p.card_enhanced.len() && p.card_enhanced[slot as int];
    let s = effective_stats_spec(card_id, bonuses, facility, enhanced);
    match counts {
        Some(c) => if 0 <= body < c.len() && c[body] > 0 { CardStats { monster_count: c[body], ..s } } else { s },
        None => s,
    }
}

/// The monster counts given for a formation, if any.
pub open spec fn opt_counts(o: Option<&[u32]>) -> Option<Seq<u32>> {
    match o {
        Some(c) => Some(c@),
        None => None,
    }
}

/// The battle statistics of the bodies at the owned slots `idx` (see [`body_stats_spec`]).
pub open spec fn bodies_stats_spec(p: PlayerView, facility: FacilityBonuses, idx: Seq<usize>, counts: Option<Seq<u32>>) -> Seq<CardStats> {
    idx.map(|k: int, slot: usize| body_stats_spec(p, facility, slot, k, counts))
}

/// The battle statistics of the bodies at `owned_card_indices` at `now` (see
/// [`body_stats_spec`], with the player's facility bonuses at `now`).
pub fn resolve_authoritative_body_stats_at(
    player: &PlayerData,
    owned_card_indices: &[usize],
    monsters_per_body: Option<&[u32]>,
    now: u64,
) -> (r: Vec<CardStats>)
    requires
        bonuses_fit(facility_views(player.facilities@), now),
    ensures
        r@ == bodies_stats_spec(player@, facility_bonuses_spec(player@.facilities, now), owned_card_indices@, opt_counts(monsters_per_body)),
{
    let facility = calculate_facility_bonuses_at(player.facilities.as_slice(), now);
    proof {
        assert(facility_views(player.facilities@) == player@.facilities);
    }
    let ghost counts: Option<Seq<u32>> = match monsters_per_body {
        Some(c) => Some(c@),
        None => None,
    };
    let mut out: Vec<CardStats> = Vec::new();
    let mut k: usize = 0;
    while k < owned_card_indices.len()
        invariant
            k <= owned_card_indices@.len(),
            facility == facility_bonuses_spec(player@.facilities, now),
            counts == match monsters_per_body {
                Some(c) => Some(c@),
                None => None,
            },
            out@ == owned_card_indices@.take(k as int).map(|j: int, slot: usize| body_stats_spec(player@, facility, slot, j, counts)),
        decreases owned_card_indices@.len() - k,
    {
        let slot = owned_card_indices[k];
        let card_id: u32 = if slot < player.owned_cards.len() { player.owned_cards[slot] } else { 0 };
        let bonuses: CardStatBonuses = if slot < player.card_stat_bonuses.len() {
            player.card_stat_bonuses[slot]
        } else {
            CardStatBonuses::default()
        };
        let enhanced: bool = if slot < player.card_enhanced.len() { player.card_enhanced[slot] } else { false };
        let mut stats = effective_card_stats(card_id, &bonuses, &facility, enhanced);
        match monsters_per_body {
            Some(c) => {
                if k < c.len() && c[k] > 0 {
                    stats.monster_count = c[k];
                }
            },
            None => {},
        }
        out.push(stats);
        k += 1;
        proof {
            assert(out@ =~= owned_card_indices@.take(k as int).map(|j: int, slot: usize| body_stats_spec(player@, facility, slot, j, counts)));
        }
    }
    proof {
        assert(owned_card_indices@.take(owned_card_indices@.len() as int) =~= owned_card_indices@);
        assert(out@ =~= bodies_stats_spec(player@, facility, owned_card_indices@, counts));
    }
    out
}

/// The battle statistics of the bodies at `owned_card_indices` now (the clock is read once; see
/// [`resolve_authoritative_body_stats_at`]).
pub fn resolve_authoritative_body_stats(
    player: &PlayerData,
    owned_card_indices: &[usize],
    monsters_per_body: Option<&[u32]>,
) -> (r: Vec<CardStats>)
    requires
        facilities_fit(player.facilities@),
    ensures
        exists|now: u64|
            r@ == #[trigger] bodies_stats_spec(player@, facility_bonuses_spec(player@.facilities, now), owned_card_indices@, opt_counts(monsters_per_body)),
{
    let now = now_ms();
    resolve_authoritative_body_stats_at(player, owned_card_indices, monsters_per_body, now)
}

} // verus!
