//! A faction's attack decisions: where to attack from, whether a formation stands a chance,
//! which standing unit marches.
use vstd::prelude::*;
use crate::ai::{formation_score_spec, on_cooldown, score_formation, target_on_cooldown};
use crate::facilities::{bonuses_fit, facility_views};
use crate::defense::{defenders_of, defenders_view, lemma_defenders_of, resolve_territory_defenders, territory_defenders_ok, unit_available};
use crate::formation::{
    attack_formation_spec, build_attack_formation, build_formation_from_indices, cost_cap_of, first_player_index,
    formation_spec, formed_unit_available_for_dispatch, opt_formation_view, AttackFormation, AttackFormationView,
};
use crate::grid::{abs, coords_of, ids_adjacent, parse_territory_coords, territories_are_adjacent};
use crate::homes::{coords_small, map_coords_small};
use crate::model::{find_player, has_player, views, AiPersonality, MarchKind, PlayerData, PlayerView};
use crate::rng::random_i32;
use crate::state::{is_ai_id, is_ai_player_id};
use crate::player::{filled_slots, formation_owned_slots_in_slot_order};
use crate::territory::{get_territory_index, id_absent, is_first_id_index, string_seq_view, Territory, TerritoryView};
use crate::text::{chars_lt, lemma_chars_lt_strict, str_eq, str_lt};

verus! {

/// Faction `ai_id` (the first player with that id) has an attack under way.
pub open spec fn attack_under_way(ps: Seq<PlayerData>, ai_id: Seq<char>) -> bool {
    has_player(ps, ai_id) && exists|k: int|
        0 <= k < ps[first_player_index(ps, ai_id)]@.marches.len()
            && (#[trigger] ps[first_player_index(ps, ai_id)]@.marches[k]).kind == MarchKind::Attack
}

/// Whether faction `ai_id` has an attack under way (see [`attack_under_way`]).
pub fn has_active_attack_march(players: &Vec<PlayerData>, ai_id: &str) -> (r: bool)
    ensures
        r == attack_under_way(players@, ai_id@),
{
    match find_player(players, ai_id) {
        Some(i) => {
            proof {
                crate::formation::lemma_first_player_index(players@, ai_id@, i as int);
            }
            let p = &players[i];
            let ghost pv = p@;
            let mut k: usize = 0;
            while k < p.marches.len()
                invariant
                    k <= p.marches@.len(),
                    pv == p@,
                    has_player(players@, ai_id@),
                    pv == players@[first_player_index(players@, ai_id@)]@,
                    pv.marches.len() == p.marches@.len(),
                    forall|j: int| 0 <= j < k ==> (#[trigger] pv.marches[j]).kind != MarchKind::Attack,
                decreases p.marches@.len() - k,
            {
                proof {
                    assert(pv.marches[k as int] == p.marches@[k as int]@);
                }
                if p.marches[k].kind == MarchKind::Attack {
                    return true;
                }
                k += 1;
            }
            false
        },
        None => false,
    }
}

/// The stamina a march of `kind` costs each body: `attack` or `explore`; none for other kinds.
pub open spec fn march_stamina_cost(kind: MarchKind, attack: u32, explore: u32) -> Option<u32> {
    match kind {
        MarchKind::Attack => Some(attack),
        MarchKind::Explore => Some(explore),
        _ => None,
    }
}

/// Every body at the slots `idx` has the stamina a march of `kind` costs (a slot off the list
/// has `max_stamina`).
pub open spec fn has_march_stamina(p: PlayerView, idx: Seq<usize>, kind: MarchKind, attack: u32, explore: u32, max_stamina: u32) -> bool {
    match march_stamina_cost(kind, attack, explore) {
        Some(cost) => forall|k: int| 0 <= k < idx.len() ==> {
            let i = #[trigger] idx[k];
            (if i < p.card_stamina.len() { p.card_stamina[i as int] } else { max_stamina }) >= cost
        },
        None => true,
    }
}

/// Whether the bodies at `card_indices` can make a march of `kind` (see [`has_march_stamina`]).
pub fn formation_has_march_stamina(
    player: &PlayerData,
    card_indices: &[usize],
    kind: MarchKind,
    attack_cost: u32,
    explore_cost: u32,
    max_stamina: u32,
) -> (r: bool)
    ensures
        r == has_march_stamina(player@, card_indices@, kind, attack_cost, explore_cost, max_stamina),
{
    let cost = match kind {
        MarchKind::Attack => attack_cost,
        MarchKind::Explore => explore_cost,
        _ => {
            return true;
        },
    };
    let mut k: usize = 0;
    while k < card_indices.len()
        invariant
            k <= card_indices@.len(),
            march_stamina_cost(kind, attack_cost, explore_cost) == Some(cost),
            forall|j: int| 0 <= j < k ==> {
                let i = #[trigger] card_indices@[j];
                (if i < player@.card_stamina.len() { player@.card_stamina[i as int] } else { max_stamina }) >= cost
            },
        decreases card_indices@.len() - k,
    {
        let i = card_indices[k];
        let st: u32 = if i < player.card_stamina.len() { player.card_stamina[i] } else { max_stamina };
        if st < cost {
            return false;
        }
        k += 1;
    }
    true
}

/// The strength of a garrison: six per body's monsters (at least 1 each), at least 12.
pub open spec fn defense_power(counts: Seq<u32>) -> int
    decreases counts.len(),
{
    let s = defense_power_sum(counts);
    if s < 12 { 12 } else { s }
}

/// Six per body's monsters, at least 1 each.
pub open spec fn defense_power_sum(counts: Seq<u32>) -> int
    decreases counts.len(),
{
    if counts.len() == 0 {
        0
    } else {
        defense_power_sum(counts.drop_last()) + 6 * (if counts.last() < 1 { 1 } else { counts.last() as int })
    }
}

/// A formation stands a chance against a garrison: a hundred times its score (see
/// [`formation_score_spec`]) is at least 35 times the garrison's strength.
pub open spec fn viable_spec(p: PlayerView, idx: Seq<usize>, names: Seq<Seq<char>>, counts: Seq<u32>) -> bool {
    formation_score_spec(p, idx, names, counts) * 100 >= defense_power(counts) * 35
}

fn defense_power_of(counts: &Vec<u32>) -> (d: i128)
    ensures
        d == defense_power(counts@),
        0 <= d <= counts@.len() * 6 * 0x1_0000_0000 + 12,
{
    let mut total: i128 = 0;
    let mut k: usize = 0;
    while k < counts.len()
        invariant
            k <= counts@.len(),
            total == defense_power_sum(counts@.take(k as int)),
            0 <= total <= k * 6 * 0x1_0000_0000,
        decreases counts@.len() - k,
    {
        let c = counts[k];
        let m: i128 = if c < 1 { 1 } else { c as i128 };
        proof {
            assert(counts@.take(k + 1).drop_last() =~= counts@.take(k as int));
        }
        total = total + 6 * m;
        k += 1;
    }
    proof {
        assert(counts@.take(counts@.len() as int) =~= counts@);
    }
    if total < 12 { 12 } else { total }
}

/// Whether the bodies at `indices` stand a chance against the garrison `names`/`counts` (see
/// [`viable_spec`]).
pub fn viable_against(indices: &[usize], player: &PlayerData, names: &Vec<String>, counts: &Vec<u32>) -> (r: bool)
    requires
        indices@.len() <= 1000,
        indices@.len() * names@.len() <= 300_000_000,
    ensures
        r == viable_spec(player@, indices@, string_seq_view(names@), counts@),
{
    proof {
        assert(views(names@) =~= string_seq_view(names@));
    }
    let score = score_formation(indices, player, names.as_slice(), counts.as_slice());
    let power = defense_power_of(counts);
    let len = counts.len();
    proof {
        assert(len * 6 * 0x1_0000_0000 <= 0x1_0000_0000_0000_0000 * 6 * 0x1_0000_0000) by (nonlinear_arith)
            requires len <= 0x1_0000_0000_0000_0000;
    }
    (score as i128) * 100 >= power * 35
}

/// Whether the formation stands a chance against the defenders of `target` at `now` (see
/// [`viable_spec`]). The bounds keep the formation's `i64` score from overflowing (see
/// [`score_formation`]).
pub fn formation_viable_for_target(
    players: &Vec<PlayerData>,
    formation: &AttackFormation,
    player: &PlayerData,
    target: &Territory,
    now: u64,
) -> (r: bool)
    requires
        formation.card_indices@.len() <= 1000,
        formation.card_indices@.len() * target.troops <= 300_000_000,
    ensures
        exists|d: (u32, Seq<u32>, Seq<Seq<char>>)|
            #[trigger] territory_defenders_ok(target@, players@, now, d) && r == viable_spec(player@, formation.card_indices@, d.2, d.1),
{
    let defenders = resolve_territory_defenders(target, players, now);
    proof {
        let n = formation.card_indices@.len();
        assert(n * defenders.2@.len() <= 300_000_000) by (nonlinear_arith)
            requires
                n <= 1000,
                n * target.troops <= 300_000_000,
                defenders.2@.len() <= 3 || defenders.2@.len() == target.troops;
    }
    let r = viable_against(formation.card_indices.as_slice(), player, &defenders.2, &defenders.1);
    proof {
        assert(territory_defenders_ok(target@, players@, now, defenders_view(defenders)));
    }
    r
}

/// Standing unit `k` can march against the garrison: it is available at `now` and its
/// formation can be built.
pub open spec fn unit_candidate(p: PlayerView, now: u64, k: int) -> bool {
    unit_available(p, p.formed_units[k], now) && formation_spec(p, filled_slots(p.formed_units[k].2)) is Some
}

/// How standing unit `k` fares against the garrison (see [`formation_score_spec`]).
pub open spec fn unit_score(p: PlayerView, k: int, names: Seq<Seq<char>>, counts: Seq<u32>) -> int {
    formation_score_spec(p, filled_slots(p.formed_units[k].2), names, counts)
}

/// Standing unit `k` can march and stands a chance against the garrison.
pub open spec fn unit_good(p: PlayerView, now: u64, k: int, names: Seq<Seq<char>>, counts: Seq<u32>) -> bool {
    0 <= k < p.formed_units.len() && unit_candidate(p, now, k) && viable_spec(p, filled_slots(p.formed_units[k].2), names, counts)
}

/// Standing unit `k` is the one to march: of the units that can march and stand a chance, one
/// of greatest score, the first such one on a tie.
pub open spec fn unit_picked(p: PlayerView, now: u64, k: int, names: Seq<Seq<char>>, counts: Seq<u32>) -> bool {
    &&& unit_good(p, now, k, names, counts)
    &&& forall|j: int| #[trigger] unit_good(p, now, j, names, counts) ==> unit_score(p, j, names, counts) <= unit_score(p, k, names, counts)
    &&& forall|j: int| #[trigger] unit_good(p, now, j, names, counts) && j < k ==> unit_score(p, j, names, counts) < unit_score(p, k, names, counts)
}

/// The attack of player `p` against the garrison `d`, by standing unit (see [`unit_picked`]):
/// the unit's id and formation.
pub open spec fn unit_attack_ok(p: PlayerView, now: u64, d: (u32, Seq<u32>, Seq<Seq<char>>), r: Option<(Seq<char>, AttackFormationView)>) -> bool {
    match r {
        Some((id, f)) => exists|k: int|
            #[trigger] unit_picked(p, now, k, d.2, d.1) && id == p.formed_units[k].0 && formation_spec(p, filled_slots(p.formed_units[k].2)) == Some(f),
        None => forall|k: int| !#[trigger] unit_good(p, now, k, d.2, d.1),
    }
}

/// The optional view of an optional attack.
pub open spec fn opt_attack_view(r: Option<(String, AttackFormation)>) -> Option<(Seq<char>, AttackFormationView)> {
    match r {
        Some((id, f)) => Some((id@, f@)),
        None => None,
    }
}

/// Which standing unit of faction `ai_id` attacks `target` at `now`, with its formation (see
/// [`unit_attack_ok`]); `None` for an unknown faction.
pub fn pick_ai_attack_from_formed_units(
    players: &Vec<PlayerData>,
    ai_id: &str,
    target: &Territory,
    now: u64,
) -> (r: Option<(String, AttackFormation)>)
    requires
        target.troops <= 100_000_000,
    ensures
        has_player(players@, ai_id@) ==> exists|d: (u32, Seq<u32>, Seq<Seq<char>>)|
            #[trigger] territory_defenders_ok(target@, players@, now, d) && unit_attack_ok(
                players@[first_player_index(players@, ai_id@)]@,
                now,
                d,
                opt_attack_view(r),
            ),
        !has_player(players@, ai_id@) ==> r is None,
        r matches Some((_, f)) ==> f.card_indices@.len() <= 3,
{
    let pi = match find_player(players, ai_id) {
        Some(i) => i,
        None => {
            return None;
        },
    };
    proof {
        crate::formation::lemma_first_player_index(players@, ai_id@, pi as int);
    }
    let player = &players[pi];
    let ghost p = player@;
    let ghost us = p.formed_units;
    let defenders = resolve_territory_defenders(target, players, now);
    let ghost d = defenders_view(defenders);
    let mut best: Option<(String, AttackFormation)> = None;
    let ghost mut best_k: int = 0;
    let mut best_score: i64 = 0;
    let mut k: usize = 0;
    while k < player.formed_units.len()
        invariant
            k <= us.len(),
            p == player@,
            us == p.formed_units,
            us.len() == player.formed_units@.len(),
            d == defenders_view(defenders),
            defenders.2@.len() <= 100_000_000,
            match best {
                None => forall|j: int| 0 <= j < k ==> !#[trigger] unit_good(p, now, j, d.2, d.1),
                Some((id, f)) => {
                    &&& 0 <= best_k < k
                    &&& unit_good(p, now, best_k, d.2, d.1)
                    &&& best_score == unit_score(p, best_k, d.2, d.1)
                    &&& id@ == us[best_k].0
                    &&& formation_spec(p, filled_slots(us[best_k].2)) == Some(f@)
                    &&& f.card_indices@.len() <= 3
                    &&& forall|j: int| 0 <= j < k && #[trigger] unit_good(p, now, j, d.2, d.1) ==> unit_score(p, j, d.2, d.1) <= best_score
                    &&& forall|j: int| 0 <= j < best_k && #[trigger] unit_good(p, now, j, d.2, d.1) ==> unit_score(p, j, d.2, d.1) < best_score
                },
            },
        decreases us.len() - k,
    {
        let u = &player.formed_units[k];
        proof {
            assert(us[k as int] == u@);
        }
        if formed_unit_available_for_dispatch(player, u, now) {
            let slots = formation_owned_slots_in_slot_order(&u.indices);
            proof {
                crate::defense::lemma_filled_slots_len(u.indices@);
            }
            match build_formation_from_indices(player, slots.as_slice()) {
                Some(f) => {
                    proof {
                        assert(slots@.len() * defenders.2@.len() <= 300_000_000) by (nonlinear_arith)
                            requires slots@.len() <= 3, defenders.2@.len() <= 100_000_000;
                    }
                    let score = score_formation(slots.as_slice(), player, defenders.2.as_slice(), defenders.1.as_slice());
                    proof {
                        assert(views(defenders.2@) =~= string_seq_view(defenders.2@));
                    }
                    if viable_against(slots.as_slice(), player, &defenders.2, &defenders.1) {
                        let better = match best {
                            None => true,
                            Some(_) => score > best_score,
                        };
                        if better {
                            best = Some((u.id.clone(), f));
                            best_score = score;
                            proof {
                                best_k = k as int;
                            }
                        }
                    }
                },
                None => {},
            }
        }
        k += 1;
    }
    proof {
        if best is Some {
            assert(unit_picked(p, now, best_k, d.2, d.1));
        }
    }
    best
}

/// The coordinates of a tile id, the origin when it does not parse.
pub open spec fn coords_or_origin(id: Seq<char>) -> (int, int) {
    match coords_of(id) {
        Some(c) => (c.0 as int, c.1 as int),
        None => (0, 0),
    }
}

/// The troops on the first tile with id `id`; 0 when there is none.
pub open spec fn troops_on(ts: Seq<Territory>, id: Seq<char>) -> int {
    if exists|i: int| 0 <= i < ts.len() && #[trigger] ts[i].id@ == id {
        let i = choose|i: int| 0 <= i < ts.len() && ts[i].id@ == id && forall|j: int| 0 <= j < i ==> ts[j].id@ != id;
        ts[i].troops as int
    } else {
        0
    }
}

/// How good a tile is to attack from: ten per troop on it, less its distance to the target.
#[verifier::opaque]
pub open spec fn border_priority_spec(ts: Seq<Territory>, from: Seq<char>, target: Seq<char>) -> int {
    let f = coords_or_origin(from);
    let t = coords_or_origin(target);
    troops_on(ts, from) * 10 - (abs(f.0 - t.0) + abs(f.1 - t.1))
}

/// Every tile holds at most a hundred million troops: the border priority (ten per troop) then
/// stays within `i32`, which it leaves from 214,748,365 troops on, and a formation of three
/// slots scored against a tile's bodies stays within the `i64` bound of [`score_formation`].
pub open spec fn troops_small(ts: Seq<Territory>) -> bool {
    forall|i: int| 0 <= i < ts.len() ==> (#[trigger] ts[i]).troops <= 100_000_000
}

/// How good a tile is to attack `target_id` from (see [`border_priority_spec`]).
pub fn border_priority(territories: &Vec<Territory>, from_id: &str, target_id: &str) -> (r: i32)
    requires
        coords_small(from_id@),
        coords_small(target_id@),
        troops_small(territories@),
    ensures
        r == border_priority_spec(territories@, from_id@, target_id@),
{
    let (tc, tr) = match parse_territory_coords(target_id) {
        Some(c) => c,
        None => (0, 0),
    };
    let (fc, fr) = match parse_territory_coords(from_id) {
        Some(c) => c,
        None => (0, 0),
    };
    let dc: i32 = if fc >= tc { fc - tc } else { tc - fc };
    let dr: i32 = if fr >= tr { fr - tr } else { tr - fr };
    let dist: i32 = dc + dr;
    let mut troops: i32 = 0;
    let mut i: usize = 0;
    while i < territories.len()
        invariant_except_break
            troops == 0,
            forall|j: int| 0 <= j < i ==> territories@[j].id@ != from_id@,
        invariant
            i <= territories@.len(),
            troops_small(territories@),
        ensures
            troops == troops_on(territories@, from_id@),
            0 <= troops <= 100_000_000,
        decreases territories@.len() - i,
    {
        if str_eq(territories[i].id.as_str(), from_id) {
            troops = territories[i].troops as i32;
            proof {
                assert(territories@[i as int].troops <= 100_000_000);
                let w = choose|w: int| 0 <= w < territories@.len() && territories@[w].id@ == from_id@
                    && forall|j: int| 0 <= j < w ==> territories@[j].id@ != from_id@;
                assert(w == i as int) by {
                    if w < i {
                        assert(territories@[w].id@ != from_id@);
                    } else if w > i {
                        assert(territories@[i as int].id@ != from_id@);
                    }
                }
            }
            break;
        }
        i += 1;
    }
    proof {
        reveal(border_priority_spec);
    }
    troops * 10 - dist
}

/// Tile `k` can launch an attack on `target`: faction `ai_id` owns it and it borders the target.
pub open spec fn launch_candidate(ts: Seq<Territory>, ai_id: Seq<char>, target: Seq<char>, k: int) -> bool {
    0 <= k < ts.len() && ts[k]@.owner_id == Some(ai_id) && ids_adjacent(ts[k].id@, target)
}

/// Tile `k` is the one to attack from: a candidate of greatest priority (see
/// [`border_priority_spec`]), the last such one on a tie.
pub open spec fn launch_picked(ts: Seq<Territory>, ai_id: Seq<char>, target: Seq<char>, k: int) -> bool {
    let prio = |j: int| border_priority_spec(ts, ts[j].id@, target);
    &&& launch_candidate(ts, ai_id, target, k)
    &&& forall|j: int| #[trigger] launch_candidate(ts, ai_id, target, j) ==> prio(j) <= prio(k)
    &&& forall|j: int| #[trigger] launch_candidate(ts, ai_id, target, j) && j > k ==> prio(j) < prio(k)
}

/// The tile faction `ai_id` attacks `target_id` from (see [`launch_picked`]); `None` when it owns
/// no tile bordering the target.
pub fn select_attack_from_territory(territories: &Vec<Territory>, ai_id: &str, target_id: &str) -> (r: Option<String>)
    requires
        map_coords_small(territories@),
        coords_small(target_id@),
        troops_small(territories@),
    ensures
        match r {
            Some(id) => exists|k: int| #[trigger] launch_picked(territories@, ai_id@, target_id@, k) && id@ == territories@[k].id@,
            None => forall|k: int| !#[trigger] launch_candidate(territories@, ai_id@, target_id@, k),
        },
{
    let ghost ts = territories@;
    let mut best: Option<String> = None;
    let ghost mut best_k: int = 0;
    let mut best_prio: i32 = 0;
    let mut k: usize = 0;
    while k < territories.len()
        invariant
            k <= ts.len(),
            ts == territories@,
            map_coords_small(ts),
            coords_small(target_id@),
            troops_small(ts),
            match best {
                None => forall|j: int| 0 <= j < k ==> !#[trigger] launch_candidate(ts, ai_id@, target_id@, j),
                Some(id) => {
                    &&& 0 <= best_k < k
                    &&& launch_candidate(ts, ai_id@, target_id@, best_k)
                    &&& id@ == ts[best_k].id@
                    &&& best_prio == border_priority_spec(ts, ts[best_k].id@, target_id@)
                    &&& forall|j: int| 0 <= j < k && #[trigger] launch_candidate(ts, ai_id@, target_id@, j) ==> border_priority_spec(ts, ts[j].id@, target_id@) <= best_prio
                    &&& forall|j: int| best_k < j < k && #[trigger] launch_candidate(ts, ai_id@, target_id@, j) ==> border_priority_spec(ts, ts[j].id@, target_id@) < best_prio
                },
            },
        decreases ts.len() - k,
    {
        let t = &territories[k];
        let owned = match &t.owner_id {
            Some(o) => str_eq(o.as_str(), ai_id),
            None => false,
        };
        if owned && territories_are_adjacent(t.id.as_str(), target_id) {
            proof {
                assert(coords_small(ts[k as int].id@));
            }
            let prio = border_priority(territories, t.id.as_str(), target_id);
            let take = match best {
                None => true,
                Some(_) => prio >= best_prio,
            };
            if take {
                best = Some(t.id.clone());
                best_prio = prio;
                proof {
                    best_k = k as int;
                }
            }
        }
        k += 1;
    }
    proof {
        if best is Some {
            assert(launch_picked(ts, ai_id@, target_id@, best_k));
        }
    }
    best
}

/// What an owner's tile adds to an attack target's score, by personality.
pub open spec fn personality_bonus(personality: AiPersonality) -> int {
    match personality {
        AiPersonality::Aggressive => 30,
        AiPersonality::Balanced => 20,
        AiPersonality::Defensive => 8,
    }
}

/// Four per defending body's monsters, at least 1 each.
pub open spec fn def_power4(counts: Seq<u32>) -> int
    decreases counts.len(),
{
    if counts.len() == 0 {
        0
    } else {
        def_power4(counts.drop_last()) + 4 * (if counts.last() < 1 { 1 } else { counts.last() as int })
    }
}

/// How attractive tile `t` is as an attack target before chance: ten per level, the
/// personality's bonus when `owner` holds it, 200 less when it is the tile to avoid, less a
/// third of its defenders' strength (see [`def_power4`]).
pub open spec fn attack_base_score(
    t: TerritoryView,
    personality: AiPersonality,
    owner: Seq<char>,
    avoid: Option<Seq<char>>,
    counts: Seq<u32>,
) -> int {
    t.level * 10 + (if t.owner_id == Some(owner) { personality_bonus(personality) } else { 0 })
        - (if avoid == Some(t.id) { 200int } else { 0int }) - def_power4(counts) / 3
}

/// The defenders of every tile at `now` have a strength (see [`def_power4`]) that fits in an
/// `i32`, the type in which a target's score adds it up.
pub open spec fn garrison_powers_fit(ts: Seq<Territory>, ps: Seq<PlayerData>, now: u64) -> bool {
    forall|i: int, d: (u32, Seq<u32>, Seq<Seq<char>>)|
        0 <= i < ts.len() && #[trigger] territory_defenders_ok(ts[i]@, ps, now, d) ==> def_power4(d.1) <= i32::MAX
}

/// The strength of the first bodies of a garrison is at most that of the whole garrison.
proof fn lemma_def_power4_prefix(counts: Seq<u32>, k: int)
    requires
        0 <= k <= counts.len(),
    ensures
        0 <= def_power4(counts.take(k)) <= def_power4(counts),
    decreases counts.len(),
{
    if k == counts.len() {
        assert(counts.take(k) =~= counts);
        if counts.len() > 0 {
            lemma_def_power4_prefix(counts.drop_last(), k - 1);
        }
    } else {
        lemma_def_power4_prefix(counts.drop_last(), k);
        assert(counts.drop_last().take(k) =~= counts.take(k));
    }
}

/// The score of target `t` against garrison `d`: the base score (see [`attack_base_score`]) plus
/// a chance bonus below 18.
pub open spec fn attack_score_ok(
    t: TerritoryView,
    personality: AiPersonality,
    owner: Seq<char>,
    avoid: Option<Seq<char>>,
    d: (u32, Seq<u32>, Seq<Seq<char>>),
    r: int,
) -> bool {
    0 <= r - attack_base_score(t, personality, owner, avoid, d.1) < 18
}

/// The score of attack target `target` at `now`: see [`attack_score_ok`], with the first tile of
/// that id and its defenders; `i32::MIN` when there is no such tile.
pub open spec fn target_score_ok(
    ts: Seq<Territory>,
    ps: Seq<PlayerData>,
    target: Seq<char>,
    personality: AiPersonality,
    owner: Seq<char>,
    avoid: Option<Seq<char>>,
    now: u64,
    r: int,
) -> bool {
    &&& forall|k: int| #[trigger] is_first_id_index(ts, target, k) ==> exists|d: (u32, Seq<u32>, Seq<Seq<char>>)|
        #[trigger] territory_defenders_ok(ts[k]@, ps, now, d) && attack_score_ok(ts[k]@, personality, owner, avoid, d, r)
    &&& id_absent(ts, target) ==> r == i32::MIN
}

/// How attractive tile `target_id` is to attack at `now` (see [`target_score_ok`]).
pub fn score_attack_target(
    territories: &Vec<Territory>,
    players: &Vec<PlayerData>,
    target_id: &str,
    personality: AiPersonality,
    owner_id: &str,
    avoid_target: Option<&str>,
    now: u64,
) -> (r: i32)
    requires
        garrison_powers_fit(territories@, players@, now),
    ensures
        target_score_ok(territories@, players@, target_id@, personality, owner_id@, match avoid_target {
            Some(a) => Some(a@),
            None => None,
        }, now, r as int),
{
    let k = match get_territory_index(territories.as_slice(), target_id) {
        Some(k) => k,
        None => {
            proof {
                assert forall|k2: int| !#[trigger] is_first_id_index(territories@, target_id@, k2) by {}
            }
            return i32::MIN;
        },
    };
    let t = &territories[k];
    let mut score: i32 = t.level as i32 * 10;
    let owned = match &t.owner_id {
        Some(o) => str_eq(o.as_str(), owner_id),
        None => false,
    };
    if owned {
        score = score + match personality {
            AiPersonality::Aggressive => 30,
            AiPersonality::Balanced => 20,
            AiPersonality::Defensive => 8,
        };
    }
    let avoided = match avoid_target {
        Some(a) => str_eq(a, target_id),
        None => false,
    };
    if avoided {
        score = score - 200;
    }
    let defenders = resolve_territory_defenders(t, players, now);
    let ghost d = defenders_view(defenders);
    proof {
        assert(territories@[k as int]@ == t@);
        assert(territory_defenders_ok(territories@[k as int]@, players@, now, d));
        assert(def_power4(d.1) <= i32::MAX);
    }
    let counts = &defenders.1;
    let mut power: i32 = 0;
    let mut i: usize = 0;
    while i < counts.len()
        invariant
            i <= counts@.len(),
            counts@ == d.1,
            def_power4(d.1) <= i32::MAX,
            power == def_power4(counts@.take(i as int)),
            0 <= power,
        decreases counts@.len() - i,
    {
        let c = counts[i];
        proof {
            assert(counts@.take(i + 1).drop_last() =~= counts@.take(i as int));
            lemma_def_power4_prefix(counts@, i + 1);
        }
        let m: i32 = if c < 1 { 1 } else { c as i32 };
        power = power + m * 4;
        i += 1;
    }
    proof {
        assert(counts@.take(counts@.len() as int) =~= counts@);
    }
    score = score - power / 3;
    let roll = random_i32();
    let noise: i32 = if roll < 0 { ((0i64 - roll as i64) % 18) as i32 } else { roll % 18 };
    proof {
        assert(territories@[k as int]@ == t@);
        assert(territory_defenders_ok(territories@[k as int]@, players@, now, d));
        assert(attack_score_ok(t@, personality, owner_id@, match avoid_target {
            Some(a) => Some(a@),
            None => None,
        }, d, (score + noise) as int));
    }
    let r = score + noise;
    proof {
        let av = match avoid_target {
            Some(a) => Some(a@),
            None => None,
        };
        assert forall|k2: int| #[trigger] is_first_id_index(territories@, target_id@, k2) implies k2 == k as int by {
            if k2 < k {
                assert(territories@[k2].id@ != target_id@);
            } else if k2 > k {
                assert(territories@[k as int].id@ != target_id@);
            }
        }
        assert(!id_absent(territories@, target_id@)) by {
            assert(territories@[k as int].id@ == target_id@);
        }
        assert(attack_score_ok(territories@[k as int]@, personality, owner_id@, av, d, r as int));
        assert(target_score_ok(territories@, players@, target_id@, personality, owner_id@, av, now, r as int));
    }
    r
}

/// A scored target by its id's characters.
pub open spec fn pair_view(p: (String, i32)) -> (Seq<char>, int) {
    (p.0@, p.1 as int)
}

/// Scored targets by their ids' characters.
pub open spec fn pairs_view(v: Seq<(String, i32)>) -> Seq<(Seq<char>, int)> {
    v.map_values(|p: (String, i32)| pair_view(p))
}

/// `a` ranks before `b`: a higher score, or the same score and an id first in string order.
pub open spec fn ranks_above(a: (Seq<char>, int), b: (Seq<char>, int)) -> bool {
    a.1 > b.1 || (a.1 == b.1 && chars_lt(a.0, b.0))
}

/// No later entry ranks above an earlier one.
pub open spec fn sorted_by_rank(s: Seq<(Seq<char>, int)>) -> bool {
    forall|i: int, j: int| 0 <= i < j < s.len() ==> !ranks_above(#[trigger] s[j], #[trigger] s[i])
}

/// `sorted` is `pairs` in ranking order.
pub open spec fn is_ranking(pairs: Seq<(Seq<char>, int)>, sorted: Seq<(Seq<char>, int)>) -> bool {
    sorted.to_multiset() == pairs.to_multiset() && sorted_by_rank(sorted)
}

proof fn lemma_ranks_above_strict(a: (Seq<char>, int), b: (Seq<char>, int), c: (Seq<char>, int))
    ensures
        !ranks_above(a, a),
        ranks_above(a, b) && ranks_above(b, c) ==> ranks_above(a, c),
        !(ranks_above(a, b) && ranks_above(b, a)),
{
    lemma_chars_lt_strict(a.0, b.0, c.0);
    lemma_chars_lt_strict(a.0, b.0, a.0);
}

/// Sorts scored targets into ranking order (see [`is_ranking`]).
fn sort_by_rank(v: &Vec<(String, i32)>) -> (r: Vec<(String, i32)>)
    ensures
        is_ranking(pairs_view(v@), pairs_view(r@)),
{
    let mut out: Vec<(String, i32)> = Vec::new();
    let mut k: usize = 0;
    proof {
        assert(pairs_view(out@) =~= pairs_view(v@).take(0));
    }
    while k < v.len()
        invariant
            k <= v@.len(),
            pairs_view(out@).to_multiset() == pairs_view(v@).take(k as int).to_multiset(),
            sorted_by_rank(pairs_view(out@)),
        decreases v@.len() - k,
    {
        let x = (v[k].0.clone(), v[k].1);
        let ghost xv = pair_view(x);
        proof {
            assert(xv == pairs_view(v@)[k as int]);
        }
        let ghost s = pairs_view(out@);
        let mut pos: usize = 0;
        while pos < out.len()
            invariant
                pos <= out@.len(),
                s == pairs_view(out@),
                xv == pair_view(x),
                forall|i: int| 0 <= i < pos ==> !ranks_above(xv, #[trigger] s[i]),
            ensures
                pos <= out@.len(),
                forall|i: int| 0 <= i < pos ==> !ranks_above(xv, #[trigger] s[i]),
                pos < out@.len() ==> ranks_above(xv, s[pos as int]),
            decreases out@.len() - pos,
        {
            let above = x.1 > out[pos].1 || (x.1 == out[pos].1 && str_lt(x.0.as_str(), out[pos].0.as_str()));
            proof {
                assert(s[pos as int] == pair_view(out@[pos as int]));
            }
            if above {
                break;
            }
            pos += 1;
        }
        out.insert(pos, x);
        proof {
            let s2 = pairs_view(out@);
            assert(s2 =~= s.insert(pos as int, xv));
            assert(pairs_view(v@).take(k + 1) =~= pairs_view(v@).take(k as int).push(xv));
            vstd::seq_lib::to_multiset_insert(s, pos as int, xv);
            vstd::seq_lib::to_multiset_build(pairs_view(v@).take(k as int), xv);
            assert forall|i: int, j: int| 0 <= i < j < s2.len() implies !ranks_above(#[trigger] s2[j], #[trigger] s2[i]) by {
                if j < pos {
                } else if j == pos {
                    assert(s2[j] == xv);
                    assert(s2[i] == s[i]);
                } else if i == pos {
                    assert(s2[i] == xv);
                    assert(s2[j] == s[j - 1]);
                    lemma_ranks_above_strict(s[j - 1], xv, s[pos as int]);
                    lemma_ranks_above_strict(xv, s[pos as int], xv);
                } else if i < pos {
                    assert(s2[i] == s[i]);
                    assert(s2[j] == s[j - 1]);
                } else {
                    assert(s2[i] == s[i - 1]);
                    assert(s2[j] == s[j - 1]);
                }
            }
        }
        k += 1;
    }
    proof {
        assert(pairs_view(v@).take(v@.len() as int) =~= pairs_view(v@));
    }
    out
}

/// Tile `t` is a target faction `ai_id` may attack for owner `owner`: no ruin on it, one of
/// the faction's tiles borders it, and it is neutral, the owner's, or another faction's.
pub open spec fn attack_target_ok(ts: Seq<Territory>, ai_id: Seq<char>, owner: Seq<char>, t: Territory) -> bool {
    &&& t@.ruin is None
    &&& exists|j: int| 0 <= j < ts.len() && ts[j]@.owner_id == Some(ai_id) && #[trigger] ids_adjacent(ts[j].id@, t.id@)
    &&& match t@.owner_id {
        None => true,
        Some(o) => o == owner || (is_ai_id(o) && o != ai_id),
    }
}

/// The ids of the first `m` tiles that are attack targets (see [`attack_target_ok`]), in order.
pub open spec fn attack_targets_upto(ts: Seq<Territory>, ai_id: Seq<char>, owner: Seq<char>, m: nat) -> Seq<Seq<char>>
    decreases m,
{
    if m == 0 {
        seq![]
    } else {
        let rest = attack_targets_upto(ts, ai_id, owner, (m - 1) as nat);
        if attack_target_ok(ts, ai_id, owner, ts[m - 1]) {
            rest.push(ts[m - 1].id@)
        } else {
            rest
        }
    }
}

/// Faction `ai_id` (the first player with that id) still avoids target `id` at `now`.
pub open spec fn cooling(ps: Seq<PlayerData>, ai_id: Seq<char>, id: Seq<char>, now: u64) -> bool {
    has_player(ps, ai_id) && on_cooldown(ps[first_player_index(ps, ai_id)]@.ai_attack_cooldowns, id, now)
}

/// The targets the faction does not avoid at `now`, in order.
pub open spec fn uncooled(ps: Seq<PlayerData>, ai_id: Seq<char>, now: u64, c: Seq<Seq<char>>) -> Seq<Seq<char>>
    decreases c.len(),
{
    if c.len() == 0 {
        seq![]
    } else {
        let rest = uncooled(ps, ai_id, now, c.drop_last());
        if cooling(ps, ai_id, c.last(), now) {
            rest
        } else {
            rest.push(c.last())
        }
    }
}

/// The targets faction `ai_id` ranks: the attack targets it does not avoid, or all of them
/// when it avoids every one.
pub open spec fn rank_pool(ts: Seq<Territory>, ps: Seq<PlayerData>, ai_id: Seq<char>, owner: Seq<char>, now: u64) -> Seq<Seq<char>> {
    let c = attack_targets_upto(ts, ai_id, owner, ts.len());
    let u = uncooled(ps, ai_id, now, c);
    if u.len() > 0 { u } else { c }
}

/// The tile the faction attacked last, to avoid.
pub open spec fn last_target(ps: Seq<PlayerData>, ai_id: Seq<char>) -> Option<Seq<char>> {
    if has_player(ps, ai_id) { ps[first_player_index(ps, ai_id)]@.ai_last_attack_target } else { None }
}

/// `r` ranks the targets of faction `ai_id` at `now`: each target of the pool (see
/// [`rank_pool`]) gets a score (see [`target_score_ok`], avoiding the tile attacked last), and
/// `r` lists them in ranking order (see [`is_ranking`]).
pub open spec fn ranked_targets_ok(
    ts: Seq<Territory>,
    ps: Seq<PlayerData>,
    ai_id: Seq<char>,
    personality: AiPersonality,
    owner: Seq<char>,
    now: u64,
    r: Seq<Seq<char>>,
) -> bool {
    let pool = rank_pool(ts, ps, ai_id, owner, now);
    exists|pairs: Seq<(Seq<char>, int)>, sorted: Seq<(Seq<char>, int)>|
        #[trigger] is_ranking(pairs, sorted) && pairs.len() == pool.len() && (forall|k: int|
            0 <= k < pairs.len() ==> pairs[k].0 == pool[k] && target_score_ok(
                ts,
                ps,
                pool[k],
                personality,
                owner,
                last_target(ps, ai_id),
                now,
                #[trigger] pairs[k].1,
            )) && r == sorted.map_values(|p: (Seq<char>, int)| p.0)
}

/// The targets faction `ai_id` may attack for `owner_id` at `now`, best first (see
/// [`ranked_targets_ok`]).
pub fn rank_attack_targets(
    territories: &Vec<Territory>,
    players: &Vec<PlayerData>,
    ai_id: &str,
    personality: AiPersonality,
    owner_id: &str,
    now: u64,
) -> (r: Vec<String>)
    requires
        garrison_powers_fit(territories@, players@, now),
    ensures
        ranked_targets_ok(territories@, players@, ai_id@, personality, owner_id@, now, views(r@)),
{
    let ghost ts = territories@;
    let ghost ps = players@;
    let pi = find_player(players, ai_id);
    proof {
        if let Some(i) = pi {
            crate::formation::lemma_first_player_index(ps, ai_id@, i as int);
        }
    }
    let avoid: Option<&str> = match pi {
        Some(i) => match &players[i].ai_last_attack_target {
            Some(t) => Some(t.as_str()),
            None => None,
        },
        None => None,
    };
    let ghost avoid_v: Option<Seq<char>> = match avoid {
        Some(a) => Some(a@),
        None => None,
    };
    proof {
        assert(avoid_v == last_target(ps, ai_id@));
    }
    // The attack targets, in tile order.
    let mut cands: Vec<String> = Vec::new();
    let mut k: usize = 0;
    while k < territories.len()
        invariant
            k <= ts.len(),
            ts == territories@,
            views(cands@) == attack_targets_upto(ts, ai_id@, owner_id@, k as nat),
        decreases ts.len() - k,
    {
        let t = &territories[k];
        proof {
            assert(ts[k as int] == *t);
        }
        let mut ok = t.ruin.is_none();
        if ok {
            ok = match &t.owner_id {
                None => true,
                Some(o) => str_eq(o.as_str(), owner_id) || (is_ai_player_id(o.as_str()) && !str_eq(o.as_str(), ai_id)),
            };
        }
        if ok {
            let mut near = false;
            let mut j: usize = 0;
            while j < territories.len()
                invariant
                    j <= ts.len(),
                    ts == territories@,
                    k < ts.len(),
                    t.id@ == ts[k as int].id@,
                    near == exists|x: int| 0 <= x < j && ts[x]@.owner_id == Some(ai_id@) && #[trigger] ids_adjacent(ts[x].id@, ts[k as int].id@),
                decreases ts.len() - j,
            {
                let o = &territories[j];
                proof {
                    assert(ts[j as int] == *o);
                }
                let mine = match &o.owner_id {
                    Some(w) => str_eq(w.as_str(), ai_id),
                    None => false,
                };
                if mine && territories_are_adjacent(o.id.as_str(), t.id.as_str()) {
                    near = true;
                }
                j += 1;
            }
            ok = near;
        }
        proof {
            assert(ok == attack_target_ok(ts, ai_id@, owner_id@, ts[k as int]));
        }
        if ok {
            cands.push(t.id.clone());
            proof {
                assert(views(cands@) =~= attack_targets_upto(ts, ai_id@, owner_id@, (k + 1) as nat));
            }
        }
        k += 1;
    }
    if cands.len() == 0 {
        let none: Vec<String> = Vec::new();
        proof {
            let pool = rank_pool(ts, ps, ai_id@, owner_id@, now);
            assert(pool.len() == 0);
            let e: Seq<(Seq<char>, int)> = seq![];
            assert(is_ranking(e, e));
            assert(views(none@) =~= e.map_values(|p: (Seq<char>, int)| p.0));
        }
        return none;
    }
    // Every target scored.
    let mut scored: Vec<(String, i32)> = Vec::new();
    let mut c: usize = 0;
    while c < cands.len()
        invariant
            c <= cands@.len(),
            ts == territories@,
            ps == players@,
            garrison_powers_fit(ts, ps, now),
            avoid_v == last_target(ps, ai_id@),
            avoid_v == match avoid { Some(a) => Some(a@), None => None },
            scored@.len() == c,
            forall|x: int| 0 <= x < c ==> (#[trigger] scored@[x]).0@ == cands@[x]@ && target_score_ok(
                ts, ps, cands@[x]@, personality, owner_id@, avoid_v, now, scored@[x].1 as int),
        decreases cands@.len() - c,
    {
        let sc = score_attack_target(territories, players, cands[c].as_str(), personality, owner_id, avoid, now);
        scored.push((cands[c].clone(), sc));
        c += 1;
    }
    // Leave out the targets still avoided, unless that leaves none.
    let mut cooled: Vec<(String, i32)> = Vec::new();
    c = 0;
    while c < scored.len()
        invariant
            c <= scored@.len(),
            scored@.len() == cands@.len(),
            ps == players@,
            forall|x: int| 0 <= x < scored@.len() ==> (#[trigger] scored@[x]).0@ == cands@[x]@,
            pi matches Some(i) ==> i < ps.len() && first_player_index(ps, ai_id@) == i && has_player(ps, ai_id@),
            pi is None ==> !has_player(ps, ai_id@),
            pairs_view(cooled@).map_values(|p: (Seq<char>, int)| p.0) == uncooled(ps, ai_id@, now, views(cands@).take(c as int)),
            forall|x: int| 0 <= x < cooled@.len() ==> exists|y: int| 0 <= y < c && #[trigger] cooled@[x] == scored@[y],
        decreases scored@.len() - c,
    {
        let hot = match pi {
            Some(i) => target_on_cooldown(&players[i], scored[c].0.as_str(), now),
            None => false,
        };
        proof {
            assert(views(cands@).take(c + 1).drop_last() =~= views(cands@).take(c as int));
            assert(views(cands@).take(c + 1).last() == scored@[c as int].0@);
            assert(hot == cooling(ps, ai_id@, scored@[c as int].0@, now));
        }
        if !hot {
            let ghost before = cooled@;
            cooled.push((scored[c].0.clone(), scored[c].1));
            proof {
                assert(pairs_view(cooled@).map_values(|p: (Seq<char>, int)| p.0) =~= pairs_view(before).map_values(
                    |p: (Seq<char>, int)| p.0,
                ).push(scored@[c as int].0@));
                assert forall|x: int| 0 <= x < cooled@.len() implies exists|y: int| 0 <= y < c + 1 && #[trigger] cooled@[x] == scored@[y] by {
                    if x < before.len() {
                        assert(cooled@[x] == before[x]);
                    } else {
                        assert(cooled@[x] == scored@[c as int]);
                    }
                }
            }
        }
        c += 1;
    }
    proof {
        assert(views(cands@).take(cands@.len() as int) =~= views(cands@));
    }
    let pool = if cooled.len() > 0 { cooled } else { scored };
    let sorted = sort_by_rank(&pool);
    let mut out: Vec<String> = Vec::new();
    let mut x: usize = 0;
    while x < sorted.len()
        invariant
            x <= sorted@.len(),
            views(out@) == pairs_view(sorted@).take(x as int).map_values(|p: (Seq<char>, int)| p.0),
        decreases sorted@.len() - x,
    {
        let ghost before = views(out@);
        out.push(sorted[x].0.clone());
        proof {
            assert(views(out@) =~= before.push(sorted@[x as int].0@));
            assert(pairs_view(sorted@).take(x + 1) =~= pairs_view(sorted@).take(x as int).push(pair_view(sorted@[x as int])));
            assert(pairs_view(sorted@).take(x + 1).map_values(|p: (Seq<char>, int)| p.0) =~= pairs_view(sorted@).take(
                x as int,
            ).map_values(|p: (Seq<char>, int)| p.0).push(sorted@[x as int].0@));
        }
        x += 1;
    }
    proof {
        assert(pairs_view(sorted@).take(sorted@.len() as int) =~= pairs_view(sorted@));
        let pairs = pairs_view(pool@);
        let sv = pairs_view(sorted@);
        let rp = rank_pool(ts, ps, ai_id@, owner_id@, now);
        assert(pairs.map_values(|p: (Seq<char>, int)| p.0) == rp);
        assert forall|k2: int| 0 <= k2 < pairs.len() implies pairs[k2].0 == rp[k2] && target_score_ok(
            ts, ps, rp[k2], personality, owner_id@, last_target(ps, ai_id@), now, #[trigger] pairs[k2].1) by {
            assert(pairs.map_values(|p: (Seq<char>, int)| p.0)[k2] == pairs[k2].0);
        }
        assert(is_ranking(pairs, sv));
    }
    out
}

/// There is one tile to attack from (see [`launch_picked`]).
pub proof fn lemma_launch_picked_unique(ts: Seq<Territory>, ai_id: Seq<char>, target: Seq<char>, a: int, b: int)
    requires
        launch_picked(ts, ai_id, target, a),
        launch_picked(ts, ai_id, target, b),
    ensures
        a == b,
{
    assert(launch_candidate(ts, ai_id, target, a));
    assert(launch_candidate(ts, ai_id, target, b));
}

/// There is one standing unit to march (see [`unit_picked`]).
pub proof fn lemma_unit_picked_unique(p: PlayerView, now: u64, a: int, b: int, names: Seq<Seq<char>>, counts: Seq<u32>)
    requires
        unit_picked(p, now, a, names, counts),
        unit_picked(p, now, b, names, counts),
    ensures
        a == b,
{
    assert(unit_good(p, now, a, names, counts));
    assert(unit_good(p, now, b, names, counts));
}

/// An attack march a faction may send: from where, to which tile, with which standing unit
/// (if any) and formation.
pub struct AttackPlan {
    pub from_territory_id: String,
    pub target_id: String,
    pub formed_unit_id: Option<String>,
    pub formation: AttackFormation,
}

/// The abstract content of an attack plan.
pub struct AttackPlanView {
    pub from_territory_id: Seq<char>,
    pub target_id: Seq<char>,
    pub formed_unit_id: Option<Seq<char>>,
    pub formation: AttackFormationView,
}

impl View for AttackPlan {
    type V = AttackPlanView;

    open spec fn view(&self) -> AttackPlanView {
        AttackPlanView {
            from_territory_id: self.from_territory_id@,
            target_id: self.target_id@,
            formed_unit_id: match self.formed_unit_id {
                Some(u) => Some(u@),
                None => None,
            },
            formation: self.formation@,
        }
    }
}

/// The formation faction `p` (`ai_id`) attacks with against garrison `d`: the standing unit to
/// march (see [`unit_picked`]) with its formation, else a formation built for the attack (see
/// [`attack_formation_spec`]).
pub open spec fn attack_formation_choice(
    ps: Seq<PlayerData>,
    ai_id: Seq<char>,
    p: PlayerView,
    now: u64,
    attack_cost: u32,
    d: (u32, Seq<u32>, Seq<Seq<char>>),
) -> (Option<Seq<char>>, Option<AttackFormationView>) {
    if exists|u: int| unit_picked(p, now, u, d.2, d.1) {
        let u = choose|u: int| unit_picked(p, now, u, d.2, d.1);
        (Some(p.formed_units[u].0), formation_spec(p, filled_slots(p.formed_units[u].2)))
    } else {
        (None, attack_formation_spec(p, now, attack_cost, cost_cap_of(ps, ai_id, now), d.2, d.1))
    }
}

/// The attack march faction `ai_id` sends against tile `target` at `now`: from the tile to
/// attack from (see [`launch_picked`]) with the formation of [`attack_formation_choice`] against
/// the tile's defenders (see [`defenders_of`]), when that formation stands a chance (see
/// [`viable_spec`]) and has the stamina; `None` when the tile or the faction is unknown, or
/// any of these is missing.
pub open spec fn attack_plan_spec(
    ts: Seq<Territory>,
    ps: Seq<PlayerData>,
    ai_id: Seq<char>,
    target: Seq<char>,
    now: u64,
    attack_cost: u32,
    explore_cost: u32,
    max_stamina: u32,
) -> Option<AttackPlanView> {
    if !(exists|k: int| is_first_id_index(ts, target, k)) || !has_player(ps, ai_id) || !(exists|j: int| launch_picked(ts, ai_id, target, j)) {
        None
    } else {
        let k = choose|k: int| is_first_id_index(ts, target, k);
        let j = choose|j: int| launch_picked(ts, ai_id, target, j);
        let p = ps[first_player_index(ps, ai_id)]@;
        let d = defenders_of(ts[k]@, ps, now);
        let (unit, f) = attack_formation_choice(ps, ai_id, p, now, attack_cost, d);
        match f {
            Some(f) => if viable_spec(p, f.card_indices, d.2, d.1)
                && has_march_stamina(p, f.card_indices, MarchKind::Attack, attack_cost, explore_cost, max_stamina) {
                Some(AttackPlanView { from_territory_id: ts[j].id@, target_id: target, formed_unit_id: unit, formation: f })
            } else {
                None
            },
            None => None,
        }
    }
}

/// The optional view of an optional attack plan.
pub open spec fn opt_plan_view(o: Option<AttackPlan>) -> Option<AttackPlanView> {
    match o {
        Some(p) => Some(p@),
        None => None,
    }
}

/// The attack march faction `ai_id` sends against `target_id` at `now` (see
/// [`attack_plan_spec`]).
#[verifier::rlimit(40)]
pub fn plan_attack_on(
    territories: &Vec<Territory>,
    players: &Vec<PlayerData>,
    ai_id: &str,
    target_id: &str,
    now: u64,
    attack_cost: u32,
    explore_cost: u32,
    max_stamina: u32,
) -> (r: Option<AttackPlan>)
    requires
        troops_small(territories@),
        map_coords_small(territories@),
        forall|i: int| 0 <= i < players@.len() ==> bonuses_fit(facility_views((#[trigger] players@[i]).facilities@), now),
    ensures
        opt_plan_view(r) == attack_plan_spec(territories@, players@, ai_id@, target_id@, now, attack_cost, explore_cost, max_stamina),
{
    let ghost ts = territories@;
    let ghost ps = players@;
    let k = match get_territory_index(territories.as_slice(), target_id) {
        Some(k) => k,
        None => {
            proof {
                assert(!(exists|k2: int| is_first_id_index(ts, target_id@, k2)));
            }
            return None;
        },
    };
    proof {
        let k2 = choose|k2: int| is_first_id_index(ts, target_id@, k2);
        assert(k2 == k as int) by {
            if k2 < k {
                assert(ts[k2].id@ != target_id@);
            } else if k2 > k {
                assert(ts[k as int].id@ != target_id@);
            }
        }
        assert(coords_small(target_id@)) by {
            assert(coords_small(ts[k as int].id@));
        }
    }
    let from = match select_attack_from_territory(territories, ai_id, target_id) {
        Some(f) => f,
        None => {
            proof {
                if exists|j: int| launch_picked(ts, ai_id@, target_id@, j) {
                    let j = choose|j: int| launch_picked(ts, ai_id@, target_id@, j);
                    assert(launch_candidate(ts, ai_id@, target_id@, j));
                }
            }
            return None;
        },
    };
    let target = &territories[k];
    proof {
        assert(target.troops <= 100_000_000);
    }
    let ghost p = if has_player(ps, ai_id@) { ps[first_player_index(ps, ai_id@)]@ } else { ps[0]@ };
    let ghost d = defenders_of(ts[k as int]@, ps, now);
    let ghost kk = choose|k2: int| is_first_id_index(ts, target_id@, k2);
    proof {
        assert(kk == k as int);
        assert(target@ == ts[k as int]@);
    }
    let picked = pick_ai_attack_from_formed_units(players, ai_id, target, now);
    let ghost picked_v = opt_attack_view(picked);
    proof {
        if has_player(ps, ai_id@) {
            let d1 = choose|d1: (u32, Seq<u32>, Seq<Seq<char>>)|
                #[trigger] territory_defenders_ok(target@, ps, now, d1) && unit_attack_ok(p, now, d1, picked_v);
            lemma_defenders_of(target@, ps, now, d1);
            assert(unit_attack_ok(p, now, d, picked_v));
            match picked_v {
                Some((uid, fv)) => {
                    let u = choose|u: int| #[trigger] unit_picked(p, now, u, d.2, d.1) && uid == p.formed_units[u].0
                        && formation_spec(p, filled_slots(p.formed_units[u].2)) == Some(fv);
                    let u2 = choose|u2: int| unit_picked(p, now, u2, d.2, d.1);
                    lemma_unit_picked_unique(p, now, u, u2, d.2, d.1);
                    assert(attack_formation_choice(ps, ai_id@, p, now, attack_cost, d) == (Some(uid), Some(fv)));
                },
                None => {
                    assert(!(exists|u: int| unit_picked(p, now, u, d.2, d.1))) by {
                        if exists|u: int| unit_picked(p, now, u, d.2, d.1) {
                            let u = choose|u: int| unit_picked(p, now, u, d.2, d.1);
                            assert(unit_good(p, now, u, d.2, d.1));
                        }
                    }
                },
            }
        }
    }
    let choice: Option<(Option<String>, AttackFormation)> = match picked {
        Some((u, f)) => Some((Some(u), f)),
        None => {
            let built = build_attack_formation(players, ai_id, target, now, attack_cost);
            proof {
                if has_player(ps, ai_id@) {
                    let d2 = choose|d2: (u32, Seq<u32>, Seq<Seq<char>>)|
                        #[trigger] territory_defenders_ok(target@, ps, now, d2) && opt_formation_view(built) == attack_formation_spec(
                            p,
                            now,
                            attack_cost,
                            cost_cap_of(ps, ai_id@, now),
                            d2.2,
                            d2.1,
                        );
                    lemma_defenders_of(target@, ps, now, d2);
                    assert(attack_formation_choice(ps, ai_id@, p, now, attack_cost, d) == (None::<Seq<char>>, opt_formation_view(built)));
                }
            }
            match built {
                Some(f) => Some((None, f)),
                None => None,
            }
        },
    };
    let (unit, f) = match choice {
        Some(c) => c,
        None => {
            return None;
        },
    };
    let pi = match find_player(players, ai_id) {
        Some(i) => i,
        None => {
            return None;
        },
    };
    proof {
        crate::formation::lemma_first_player_index(ps, ai_id@, pi as int);
        assert(players@[pi as int]@ == p);
    }
    proof {
        assert(f.card_indices@.len() * target.troops <= 300_000_000) by (nonlinear_arith)
            requires f.card_indices@.len() <= 3, target.troops <= 100_000_000;
    }
    let viable = formation_viable_for_target(players, &f, &players[pi], target, now);
    proof {
        let d3 = choose|d3: (u32, Seq<u32>, Seq<Seq<char>>)|
            #[trigger] territory_defenders_ok(target@, ps, now, d3) && viable == viable_spec(p, f.card_indices@, d3.2, d3.1);
        lemma_defenders_of(target@, ps, now, d3);
    }
    let stamina = formation_has_march_stamina(&players[pi], f.card_indices.as_slice(), MarchKind::Attack, attack_cost, explore_cost, max_stamina);
    if !(viable && stamina) {
        return None;
    }
    let plan = AttackPlan { from_territory_id: from, target_id: target_id.to_owned(), formed_unit_id: unit, formation: f };
    proof {
        let j = choose|j: int| #[trigger] launch_picked(ts, ai_id@, target_id@, j) && plan.from_territory_id@ == ts[j].id@;
        let j2 = choose|j2: int| launch_picked(ts, ai_id@, target_id@, j2);
        lemma_launch_picked_unique(ts, ai_id@, target_id@, j, j2);
    }
    Some(plan)
}

/// The first of `targets`, from position `start` on, that faction `ai_id` can attack at `now`
/// (see [`attack_plan_spec`]), with its plan; `None` when there is none. A faction's turn
/// tries its ranked targets this way, going on after the one whose march could not start.
pub fn next_attack_plan(
    territories: &Vec<Territory>,
    players: &Vec<PlayerData>,
    ai_id: &str,
    targets: &Vec<String>,
    start: usize,
    now: u64,
    attack_cost: u32,
    explore_cost: u32,
    max_stamina: u32,
) -> (r: Option<(usize, AttackPlan)>)
    requires
        troops_small(territories@),
        map_coords_small(territories@),
        forall|i: int| 0 <= i < players@.len() ==> bonuses_fit(facility_views((#[trigger] players@[i]).facilities@), now),
    ensures
        match r {
            Some((k, plan)) => {
                &&& start <= k < targets@.len()
                &&& attack_plan_spec(territories@, players@, ai_id@, targets@[k as int]@, now, attack_cost, explore_cost, max_stamina)
                    == Some(plan@)
                &&& forall|j: int|
                    start <= j < k ==> (#[trigger] attack_plan_spec(
                        territories@,
                        players@,
                        ai_id@,
                        targets@[j]@,
                        now,
                        attack_cost,
                        explore_cost,
                        max_stamina,
                    )) is None
            },
            None => forall|j: int|
                start <= j < targets@.len() ==> (#[trigger] attack_plan_spec(
                    territories@,
                    players@,
                    ai_id@,
                    targets@[j]@,
                    now,
                    attack_cost,
                    explore_cost,
                    max_stamina,
                )) is None,
        },
{
    let mut k = start;
    while k < targets.len()
        invariant
            troops_small(territories@),
            map_coords_small(territories@),
            forall|i: int| 0 <= i < players@.len() ==> bonuses_fit(facility_views((#[trigger] players@[i]).facilities@), now),
            start <= k || k >= targets@.len(),
            forall|j: int|
                start <= j < k ==> (#[trigger] attack_plan_spec(
                    territories@,
                    players@,
                    ai_id@,
                    targets@[j]@,
                    now,
                    attack_cost,
                    explore_cost,
                    max_stamina,
                )) is None,
        decreases targets@.len() - k,
    {
        match plan_attack_on(territories, players, ai_id, targets[k].as_str(), now, attack_cost, explore_cost, max_stamina) {
            Some(plan) => {
                return Some((k, plan));
            },
            None => {},
        }
        k += 1;
    }
    None
}

/// Faction `ai_id` holds back from attacking at `now`: one of its attack marches is under way,
/// or it is recovering from a failed attack.
pub open spec fn attack_held_back(ps: Seq<PlayerData>, ai_id: Seq<char>, now: u64) -> bool {
    attack_under_way(ps, ai_id) || (has_player(ps, ai_id) && ps[first_player_index(ps, ai_id)].ai_recover_until > now)
}

/// The attack step of faction `ai_id`'s turn at `now`. When it holds back (see
/// [`attack_held_back`]) nothing is ranked or planned. Otherwise its targets are ranked for
/// `owner_id` (see [`ranked_targets_ok`]) and the first of them it can attack, in that order,
/// is planned (see [`attack_plan_spec`]). Returns the ranking and the plan with its position.
pub fn choose_ai_attack(
    territories: &Vec<Territory>,
    players: &Vec<PlayerData>,
    ai_id: &str,
    personality: AiPersonality,
    owner_id: &str,
    now: u64,
    attack_cost: u32,
    explore_cost: u32,
    max_stamina: u32,
) -> (r: (Vec<String>, Option<(usize, AttackPlan)>))
    requires
        garrison_powers_fit(territories@, players@, now),
        troops_small(territories@),
        map_coords_small(territories@),
        forall|i: int| 0 <= i < players@.len() ==> bonuses_fit(facility_views((#[trigger] players@[i]).facilities@), now),
    ensures
        attack_held_back(players@, ai_id@, now) ==> r.0@.len() == 0 && r.1 is None,
        !attack_held_back(players@, ai_id@, now) ==> ranked_targets_ok(
            territories@,
            players@,
            ai_id@,
            personality,
            owner_id@,
            now,
            views(r.0@),
        ),
        !attack_held_back(players@, ai_id@, now) ==> match r.1 {
            Some((k, plan)) => {
                &&& k < r.0@.len()
                &&& attack_plan_spec(territories@, players@, ai_id@, r.0@[k as int]@, now, attack_cost, explore_cost, max_stamina)
                    == Some(plan@)
                &&& forall|j: int|
                    0 <= j < k ==> (#[trigger] attack_plan_spec(
                        territories@,
                        players@,
                        ai_id@,
                        r.0@[j]@,
                        now,
                        attack_cost,
                        explore_cost,
                        max_stamina,
                    )) is None
            },
            None => forall|j: int|
                0 <= j < r.0@.len() ==> (#[trigger] attack_plan_spec(
                    territories@,
                    players@,
                    ai_id@,
                    r.0@[j]@,
                    now,
                    attack_cost,
                    explore_cost,
                    max_stamina,
                )) is None,
        },
{
    let recovering = match find_player(players, ai_id) {
        Some(i) => {
            proof {
                crate::formation::lemma_first_player_index(players@, ai_id@, i as int);
            }
            crate::ai::is_ai_recovering(&players[i], now)
        },
        None => false,
    };
    if has_active_attack_march(players, ai_id) || recovering {
        return (Vec::new(), None);
    }
    let targets = rank_attack_targets(territories, players, ai_id, personality, owner_id, now);
    let plan = next_attack_plan(territories, players, ai_id, &targets, 0, now, attack_cost, explore_cost, max_stamina);
    (targets, plan)
}

} // verus!
