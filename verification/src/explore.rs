//! A faction's exploration decisions: how many explorations it has out, which of its tiles it
//! explores next, from where, and with which monster.
use vstd::prelude::*;

use crate::formation::{first_player_index, lemma_first_player_index};
use crate::grid::{ids_adjacent, territories_are_adjacent};
use crate::cards::{card_spec, get_card};
use crate::model::{find_player, has_player, views, MarchKind, PlayerData, PlayerView};
use crate::player::{locked_slots, march_locked_card_slots};
use crate::rng::random_below_usize;
use crate::territory::Territory;
use crate::text::str_eq;

verus! {

/// The expeditions of kind `kind` in a list of expeditions.
pub open spec fn count_kind(ms: Seq<crate::model::MarchMissionView>, kind: MarchKind) -> nat
    decreases ms.len(),
{
    if ms.len() == 0 {
        0
    } else {
        count_kind(ms.drop_last(), kind) + if ms.last().kind == kind { 1nat } else { 0nat }
    }
}

/// The explorations faction `ai_id` (the first player with that id) has out; 0 for an unknown
/// faction.
pub open spec fn explore_count_spec(ps: Seq<PlayerData>, ai_id: Seq<char>) -> nat {
    if has_player(ps, ai_id) {
        count_kind(ps[first_player_index(ps, ai_id)]@.marches, MarchKind::Explore)
    } else {
        0
    }
}

/// How many explorations faction `ai_id` has out (see [`explore_count_spec`]).
pub fn active_explore_march_count(players: &Vec<PlayerData>, ai_id: &str) -> (n: usize)
    ensures
        n == explore_count_spec(players@, ai_id@),
{
    match find_player(players, ai_id) {
        Some(i) => {
            proof {
                lemma_first_player_index(players@, ai_id@, i as int);
            }
            let p = &players[i];
            let ghost ms = p@.marches;
            let mut n: usize = 0;
            let mut k: usize = 0;
            while k < p.marches.len()
                invariant
                    k <= p.marches@.len(),
                    ms == p@.marches,
                    ms.len() == p.marches@.len(),
                    n == count_kind(ms.take(k as int), MarchKind::Explore),
                    n <= k,
                decreases p.marches@.len() - k,
            {
                proof {
                    assert(ms.take(k + 1).drop_last() =~= ms.take(k as int));
                    assert(ms[k as int] == p.marches@[k as int]@);
                }
                if p.marches[k].kind == MarchKind::Explore {
                    n += 1;
                }
                k += 1;
            }
            proof {
                assert(ms.take(ms.len() as int) =~= ms);
            }
            n
        },
        None => 0,
    }
}

/// Tile `k` is a faction's own tile bordering `to` other than `to` itself.
pub open spec fn explore_origin(ts: Seq<Territory>, ai_id: Seq<char>, to: Seq<char>, k: int) -> bool {
    0 <= k < ts.len() && ts[k]@.owner_id == Some(ai_id) && ts[k].id@ != to && ids_adjacent(ts[k].id@, to)
}

/// Where faction `ai_id` explores `to` from: its home when the home borders `to`; else, of its
/// tiles bordering `to`, one with the most troops (the last such one on a tie); `None` for an
/// unknown faction or when no tile of it borders `to`.
pub open spec fn explore_from_ok(ts: Seq<Territory>, ps: Seq<PlayerData>, ai_id: Seq<char>, to: Seq<char>, r: Option<Seq<char>>) -> bool {
    if !has_player(ps, ai_id) {
        r is None
    } else {
        let home = ps[first_player_index(ps, ai_id)]@.home_territory_id;
        if ids_adjacent(home, to) {
            r == Some(home)
        } else {
            match r {
                Some(id) => exists|k: int| {
                    &&& #[trigger] explore_origin(ts, ai_id, to, k)
                    &&& id == ts[k].id@
                    &&& forall|j: int| #[trigger] explore_origin(ts, ai_id, to, j) ==> ts[j].troops <= ts[k].troops
                    &&& forall|j: int| #[trigger] explore_origin(ts, ai_id, to, j) && j > k ==> ts[j].troops < ts[k].troops
                },
                None => forall|k: int| !#[trigger] explore_origin(ts, ai_id, to, k),
            }
        }
    }
}

/// Where faction `ai_id` explores `to_id` from (see [`explore_from_ok`]).
pub fn select_explore_from_territory(
    territories: &Vec<Territory>,
    players: &Vec<PlayerData>,
    ai_id: &str,
    to_id: &str,
) -> (r: Option<String>)
    ensures
        explore_from_ok(territories@, players@, ai_id@, to_id@, match r {
            Some(s) => Some(s@),
            None => None,
        }),
{
    let pi = match find_player(players, ai_id) {
        Some(i) => i,
        None => {
            return None;
        },
    };
    proof {
        lemma_first_player_index(players@, ai_id@, pi as int);
    }
    let home = &players[pi].home_territory_id;
    if territories_are_adjacent(home.as_str(), to_id) {
        return Some(home.clone());
    }
    let ghost ts = territories@;
    let mut best: Option<String> = None;
    let ghost mut best_k: int = 0;
    let mut best_troops: u32 = 0;
    let mut k: usize = 0;
    while k < territories.len()
        invariant
            k <= ts.len(),
            ts == territories@,
            match best {
                None => forall|j: int| 0 <= j < k ==> !#[trigger] explore_origin(ts, ai_id@, to_id@, j),
                Some(id) => {
                    &&& 0 <= best_k < k
                    &&& explore_origin(ts, ai_id@, to_id@, best_k)
                    &&& id@ == ts[best_k].id@
                    &&& best_troops == ts[best_k].troops
                    &&& forall|j: int| 0 <= j < k && #[trigger] explore_origin(ts, ai_id@, to_id@, j) ==> ts[j].troops <= best_troops
                    &&& forall|j: int| best_k < j < k && #[trigger] explore_origin(ts, ai_id@, to_id@, j) ==> ts[j].troops < best_troops
                },
            },
        decreases ts.len() - k,
    {
        let t = &territories[k];
        let owned = match &t.owner_id {
            Some(o) => str_eq(o.as_str(), ai_id),
            None => false,
        };
        if owned && !str_eq(t.id.as_str(), to_id) && territories_are_adjacent(t.id.as_str(), to_id) {
            let take = match best {
                None => true,
                Some(_) => t.troops >= best_troops,
            };
            if take {
                best = Some(t.id.clone());
                best_troops = t.troops;
                proof {
                    best_k = k as int;
                }
            }
        }
        k += 1;
    }
    proof {
        if best is Some {
            assert(explore_origin(ts, ai_id@, to_id@, best_k));
        }
    }
    best
}

/// Player `p` has an exploration under way to `id`.
pub open spec fn explore_in_flight(p: PlayerView, id: Seq<char>) -> bool {
    exists|k: int| 0 <= k < p.marches.len() && (#[trigger] p.marches[k]).kind == MarchKind::Explore && p.marches[k].to_territory_id == id
}

fn in_flight(p: &PlayerData, id: &str) -> (r: bool)
    ensures
        r == explore_in_flight(p@, id@),
{
    let ghost ms = p@.marches;
    let mut k: usize = 0;
    while k < p.marches.len()
        invariant
            k <= p.marches@.len(),
            ms == p@.marches,
            ms.len() == p.marches@.len(),
            forall|j: int| 0 <= j < k ==> !((#[trigger] ms[j]).kind == MarchKind::Explore && ms[j].to_territory_id == id@),
        decreases p.marches@.len() - k,
    {
        let m = &p.marches[k];
        proof {
            assert(ms[k as int] == m@);
        }
        if m.kind == MarchKind::Explore && str_eq(m.to_territory_id.as_str(), id) {
            return true;
        }
        k += 1;
    }
    false
}

/// Faction `ai_id` can explore from somewhere to `to` (see [`explore_from_ok`]).
pub open spec fn has_explore_origin(ts: Seq<Territory>, p: PlayerView, ai_id: Seq<char>, to: Seq<char>) -> bool {
    ids_adjacent(p.home_territory_id, to) || exists|j: int| #[trigger] explore_origin(ts, ai_id, to, j)
}

/// Tile `k` is one faction `ai_id` (as player `p`) may explore: its own, not a base, without a
/// ruin, not its home, with no exploration under way to it, and reachable from one of its tiles.
pub open spec fn explore_target(ts: Seq<Territory>, p: PlayerView, ai_id: Seq<char>, k: int) -> bool {
    &&& 0 <= k < ts.len()
    &&& ts[k]@.owner_id == Some(ai_id)
    &&& !ts[k].is_base
    &&& ts[k]@.ruin is None
    &&& ts[k].id@ != p.home_territory_id
    &&& !explore_in_flight(p, ts[k].id@)
    &&& has_explore_origin(ts, p, ai_id, ts[k].id@)
}

/// A faction short of resources (food under 1200, wood or stone under 800, or iron under 500)
/// explores its lowest tiles first; otherwise its highest.
pub open spec fn low_resources(p: PlayerView) -> bool {
    p.resources.food < 1200 || p.resources.wood < 800 || p.resources.stone < 800 || p.resources.iron < 500
}

/// Tile `k` is a tile to explore: a target (see [`explore_target`]) of lowest level when the
/// faction is short of resources, else of highest level. Which of several such tiles is
/// chosen is left to chance.
pub open spec fn explore_pick_ok(ts: Seq<Territory>, p: PlayerView, ai_id: Seq<char>, k: int) -> bool {
    &&& explore_target(ts, p, ai_id, k)
    &&& forall|j: int| #[trigger] explore_target(ts, p, ai_id, j) ==> if low_resources(p) {
        ts[k].level <= ts[j].level
    } else {
        ts[k].level >= ts[j].level
    }
}

/// The tile faction `ai_id` explores next (see [`explore_pick_ok`]); `None` for an unknown
/// faction or when it has no tile to explore.
pub fn pick_exploration_territory(territories: &Vec<Territory>, players: &Vec<PlayerData>, ai_id: &str) -> (r: Option<String>)
    ensures
        match r {
            Some(id) => has_player(players@, ai_id@) && exists|k: int|
                #[trigger] explore_pick_ok(territories@, players@[first_player_index(players@, ai_id@)]@, ai_id@, k)
                    && id@ == territories@[k].id@,
            None => has_player(players@, ai_id@) ==> forall|k: int|
                !#[trigger] explore_target(territories@, players@[first_player_index(players@, ai_id@)]@, ai_id@, k),
        },
{
    let pi = match find_player(players, ai_id) {
        Some(i) => i,
        None => {
            return None;
        },
    };
    proof {
        lemma_first_player_index(players@, ai_id@, pi as int);
    }
    let player = &players[pi];
    let ghost p = player@;
    let ghost ts = territories@;
    let low = player.resources.food < 1200 || player.resources.wood < 800 || player.resources.stone < 800
        || player.resources.iron < 500;
    let mut cands: Vec<usize> = Vec::new();
    let mut k: usize = 0;
    while k < territories.len()
        invariant
            k <= ts.len(),
            ts == territories@,
            p == player@,
            has_player(players@, ai_id@),
            p == players@[first_player_index(players@, ai_id@)]@,
            forall|j: int| 0 <= j < cands@.len() ==> #[trigger] cands@[j] < k && explore_target(ts, p, ai_id@, cands@[j] as int),
            forall|j: int| 0 <= j < k && #[trigger] explore_target(ts, p, ai_id@, j) ==> cands@.contains(j as usize),
        decreases ts.len() - k,
    {
        let t = &territories[k];
        let owned = match &t.owner_id {
            Some(o) => str_eq(o.as_str(), ai_id),
            None => false,
        };
        if owned && !t.is_base && t.ruin.is_none() && !str_eq(t.id.as_str(), player.home_territory_id.as_str())
            && !in_flight(player, t.id.as_str()) {
            let from = select_explore_from_territory(territories, players, ai_id, t.id.as_str());
            proof {
                if from is None {
                    assert(!ids_adjacent(p.home_territory_id, t.id@));
                    assert(!has_explore_origin(ts, p, ai_id@, t.id@));
                }
                if from is Some && !ids_adjacent(p.home_territory_id, t.id@) {
                    let w = choose|w: int| #[trigger] explore_origin(ts, ai_id@, t.id@, w) && from.unwrap()@ == ts[w].id@
                        && (forall|j: int| #[trigger] explore_origin(ts, ai_id@, t.id@, j) ==> ts[j].troops <= ts[w].troops)
                        && (forall|j: int| #[trigger] explore_origin(ts, ai_id@, t.id@, j) && j > w ==> ts[j].troops < ts[w].troops);
                    assert(has_explore_origin(ts, p, ai_id@, t.id@));
                }
            }
            if from.is_some() {
                let ghost old_c = cands@;
                cands.push(k);
                proof {
                    assert forall|x: usize| old_c.contains(x) implies cands@.contains(x) by {
                        let j = choose|j: int| 0 <= j < old_c.len() && old_c[j] == x;
                        assert(cands@[j] == x);
                    }
                    assert(cands@[old_c.len() as int] == k);
                }
            }
        }
        k += 1;
    }
    if cands.len() == 0 {
        proof {
            assert forall|j: int| !#[trigger] explore_target(ts, p, ai_id@, j) by {
                if explore_target(ts, p, ai_id@, j) {
                    assert(cands@.contains(j as usize));
                }
            }
        }
        return None;
    }
    // The extreme level among the targets.
    let mut ext: u8 = territories[cands[0]].level;
    let mut i: usize = 1;
    while i < cands.len()
        invariant
            1 <= i <= cands@.len(),
            ts == territories@,
            forall|j: int| 0 <= j < cands@.len() ==> #[trigger] cands@[j] < ts.len(),
            exists|j: int| 0 <= j < i && ts[#[trigger] cands@[j] as int].level == ext,
            forall|j: int| 0 <= j < i ==> if low { ext <= ts[#[trigger] cands@[j] as int].level } else { ext >= ts[cands@[j] as int].level },
        decreases cands@.len() - i,
    {
        let lv = territories[cands[i]].level;
        if (low && lv < ext) || (!low && lv > ext) {
            ext = lv;
        }
        i += 1;
    }
    let mut tied: Vec<usize> = Vec::new();
    i = 0;
    while i < cands.len()
        invariant
            i <= cands@.len(),
            ts == territories@,
            forall|j: int| 0 <= j < cands@.len() ==> #[trigger] cands@[j] < ts.len(),
            forall|j: int| 0 <= j < tied@.len() ==> cands@.contains(#[trigger] tied@[j]) && ts[tied@[j] as int].level == ext,
            (exists|j: int| 0 <= j < i && ts[#[trigger] cands@[j] as int].level == ext) ==> tied@.len() > 0,
        decreases cands@.len() - i,
    {
        let c = cands[i];
        if territories[c].level == ext {
            let ghost old_t = tied@;
            tied.push(c);
            proof {
                assert(cands@[i as int] == c);
            }
        }
        i += 1;
    }
    let pick = tied[random_below_usize(tied.len())];
    proof {
        let j = choose|j: int| 0 <= j < cands@.len() && cands@[j] == pick;
        assert(explore_target(ts, p, ai_id@, pick as int));
        assert forall|x: int| #[trigger] explore_target(ts, p, ai_id@, x) implies (if low_resources(p) {
            ts[pick as int].level <= ts[x].level
        } else {
            ts[pick as int].level >= ts[x].level
        }) by {
            assert(cands@.contains(x as usize));
            let jx = choose|jx: int| 0 <= jx < cands@.len() && cands@[jx] == x as usize;
            assert(ts[cands@[jx] as int].level == ts[x].level);
        }
        assert(explore_pick_ok(ts, p, ai_id@, pick as int));
    }
    Some(territories[pick].id.clone())
}

/// The slot a faction explores with at `now`: the first, among its slots with a stamina entry,
/// not away on an expedition, with at least `explore_cost` stamina and not resting.
pub open spec fn explore_slot_ok(p: PlayerView, now: u64, explore_cost: u32, i: int) -> bool {
    &&& 0 <= i < p.card_stamina.len()
    &&& !locked_slots(p.marches, now).contains(i as usize)
    &&& p.card_stamina[i] >= explore_cost
    &&& !(i < p.card_rest_until.len() && p.card_rest_until[i] > now)
}

/// The slot faction `ai_id` explores with at `now` (see [`explore_slot_ok`]), alone; `None` for
/// an unknown faction or when no slot qualifies.
pub fn pick_exploration_cards(players: &Vec<PlayerData>, ai_id: &str, now: u64, explore_cost: u32) -> (r: Option<Vec<usize>>)
    ensures
        match r {
            Some(v) => has_player(players@, ai_id@) && exists|i: int|
                #[trigger] explore_slot_ok(players@[first_player_index(players@, ai_id@)]@, now, explore_cost, i)
                    && (forall|j: int| 0 <= j < i ==> !explore_slot_ok(players@[first_player_index(players@, ai_id@)]@, now, explore_cost, j))
                    && v@ == seq![i as usize],
            None => has_player(players@, ai_id@) ==> forall|i: int|
                !#[trigger] explore_slot_ok(players@[first_player_index(players@, ai_id@)]@, now, explore_cost, i),
        },
{
    broadcast use vstd::std_specs::hash::group_hash_axioms;

    let pi = match find_player(players, ai_id) {
        Some(i) => i,
        None => {
            return None;
        },
    };
    proof {
        lemma_first_player_index(players@, ai_id@, pi as int);
    }
    let player = &players[pi];
    let ghost p = player@;
    let locked = march_locked_card_slots(player, now);
    let mut i: usize = 0;
    while i < player.card_stamina.len()
        invariant
            i <= p.card_stamina.len(),
            p == player@,
            has_player(players@, ai_id@),
            p == players@[first_player_index(players@, ai_id@)]@,
            p.card_stamina.len() == player.card_stamina@.len(),
            locked@ == locked_slots(p.marches, now),
            forall|j: int| 0 <= j < i ==> !#[trigger] explore_slot_ok(p, now, explore_cost, j),
        decreases p.card_stamina.len() - i,
    {
        if !locked.contains(&i) && player.card_stamina[i] >= explore_cost {
            let resting = i < player.card_rest_until.len() && player.card_rest_until[i] > now;
            if !resting {
                let v = vec![i];
                proof {
                    assert(explore_slot_ok(p, now, explore_cost, i as int));
                    assert(v@ =~= seq![i]);
                }
                return Some(v);
            }
        }
        i += 1;
    }
    None
}

/// Monsters per body of an expedition of slots `idx`: each slot's monster count, 1 for a slot
/// without one.
pub open spec fn bodies_monsters(p: PlayerView, idx: Seq<usize>) -> Seq<u32> {
    idx.map_values(|i: usize| if (i as int) < p.card_monster_counts.len() { p.card_monster_counts[i as int] } else { 1u32 })
}

/// Body names of an expedition of slots `idx`: the name of each slot's card, skipping slots
/// without a known card.
pub open spec fn bodies_names(p: PlayerView, idx: Seq<usize>) -> Seq<Seq<char>>
    decreases idx.len(),
{
    if idx.len() == 0 {
        Seq::empty()
    } else {
        let rest = bodies_names(p, idx.drop_last());
        let i = idx.last() as int;
        if i < p.owned_cards.len() {
            match card_spec(p.owned_cards[i]) {
                Some(c) => rest.push(c.name@),
                None => rest,
            }
        } else {
            rest
        }
    }
}

/// Speeds of an expedition of slots `idx`: the speed of each slot's card (5 for an unknown
/// card), skipping slots without a card.
pub open spec fn bodies_speeds(p: PlayerView, idx: Seq<usize>) -> Seq<u32>
    decreases idx.len(),
{
    if idx.len() == 0 {
        Seq::empty()
    } else {
        let rest = bodies_speeds(p, idx.drop_last());
        let i = idx.last() as int;
        if i < p.owned_cards.len() {
            rest.push(
                match card_spec(p.owned_cards[i]) {
                    Some(c) => c.stats.speed,
                    None => 5u32,
                },
            )
        } else {
            rest
        }
    }
}

/// An exploration a faction sends: from where, to which tile, with which slots, and the
/// bodies' monster counts, names and speeds.
pub struct ExplorePlan {
    pub from_territory_id: String,
    pub target_id: String,
    pub card_indices: Vec<usize>,
    pub monsters_per_body: Vec<u32>,
    pub body_names: Vec<String>,
    pub speed_per_body: Vec<u32>,
}

/// The bodies of an expedition of slots `idx` of player `p` (see [`bodies_monsters`],
/// [`bodies_names`], [`bodies_speeds`]).
fn expedition_bodies(p: &PlayerData, idx: &Vec<usize>) -> (r: (Vec<u32>, Vec<String>, Vec<u32>))
    ensures
        r.0@ == bodies_monsters(p@, idx@),
        views(r.1@) == bodies_names(p@, idx@),
        r.2@ == bodies_speeds(p@, idx@),
{
    let ghost pv = p@;
    let mut monsters: Vec<u32> = Vec::new();
    let mut names: Vec<String> = Vec::new();
    let mut speeds: Vec<u32> = Vec::new();
    let mut k: usize = 0;
    while k < idx.len()
        invariant
            k <= idx@.len(),
            pv == p@,
            monsters@ == bodies_monsters(pv, idx@.take(k as int)),
            views(names@) == bodies_names(pv, idx@.take(k as int)),
            speeds@ == bodies_speeds(pv, idx@.take(k as int)),
        decreases idx@.len() - k,
    {
        let i = idx[k];
        proof {
            assert(idx@.take(k + 1).drop_last() =~= idx@.take(k as int));
            assert(idx@.take(k + 1).last() == i);
        }
        let m = if i < p.card_monster_counts.len() { p.card_monster_counts[i] } else { 1 };
        monsters.push(m);
        proof {
            assert(monsters@ =~= bodies_monsters(pv, idx@.take(k + 1)));
        }
        if i < p.owned_cards.len() {
            let cid = p.owned_cards[i];
            let card = get_card(cid);
            let ghost names0 = names@;
            match card {
                Some(c) => {
                    names.push(c.name.to_owned());
                    speeds.push(c.stats.speed);
                    proof {
                        assert(views(names@) =~= views(names0).push(c.name@));
                    }
                },
                None => {
                    speeds.push(5);
                },
            }
        }
        k += 1;
    }
    proof {
        assert(idx@.take(idx@.len() as int) =~= idx@);
    }
    (monsters, names, speeds)
}

/// The exploration faction `ai_id` sends next at `now`, with at most `max_slots` out at once:
/// a tile to explore (see [`explore_pick_ok`]; ties go to chance), where from (see
/// [`explore_from_ok`]), the slot that goes (see [`explore_slot_ok`]) and its bodies. `None`
/// for an unknown faction, when `max_slots` explorations are already out, or when there is no
/// tile to explore or no slot to send.
pub fn plan_exploration(
    territories: &Vec<Territory>,
    players: &Vec<PlayerData>,
    ai_id: &str,
    now: u64,
    explore_cost: u32,
    max_slots: usize,
) -> (r: Option<ExplorePlan>)
    ensures
        match r {
            Some(plan) => {
                let p = players@[first_player_index(players@, ai_id@)]@;
                &&& has_player(players@, ai_id@)
                &&& explore_count_spec(players@, ai_id@) < max_slots
                &&& exists|k: int|
                    #[trigger] explore_pick_ok(territories@, p, ai_id@, k) && plan.target_id@ == territories@[k].id@
                &&& explore_from_ok(territories@, players@, ai_id@, plan.target_id@, Some(plan.from_territory_id@))
                &&& exists|i: int|
                    #[trigger] explore_slot_ok(p, now, explore_cost, i) && (forall|j: int|
                        0 <= j < i ==> !explore_slot_ok(p, now, explore_cost, j)) && plan.card_indices@ == seq![i as usize]
                &&& plan.monsters_per_body@ == bodies_monsters(p, plan.card_indices@)
                &&& views(plan.body_names@) == bodies_names(p, plan.card_indices@)
                &&& plan.speed_per_body@ == bodies_speeds(p, plan.card_indices@)
            },
            None => {
                let p = players@[first_player_index(players@, ai_id@)]@;
                ||| !has_player(players@, ai_id@)
                ||| explore_count_spec(players@, ai_id@) >= max_slots
                ||| forall|k: int| !#[trigger] explore_target(territories@, p, ai_id@, k)
                ||| forall|i: int| !#[trigger] explore_slot_ok(p, now, explore_cost, i)
            },
        },
{
    if active_explore_march_count(players, ai_id) >= max_slots {
        return None;
    }
    let target = match pick_exploration_territory(territories, players, ai_id) {
        Some(t) => t,
        None => {
            return None;
        },
    };
    let from = match select_explore_from_territory(territories, players, ai_id, target.as_str()) {
        Some(f) => f,
        None => {
            proof {
                let p = players@[first_player_index(players@, ai_id@)]@;
                let k = choose|k: int|
                    #[trigger] explore_pick_ok(territories@, p, ai_id@, k) && target@ == territories@[k].id@;
                assert(explore_target(territories@, p, ai_id@, k));
                if !ids_adjacent(p.home_territory_id, target@) {
                    let j = choose|j: int| #[trigger] explore_origin(territories@, ai_id@, target@, j);
                    assert(explore_origin(territories@, ai_id@, target@, j));
                }
            }
            return None;
        },
    };
    let cards = match pick_exploration_cards(players, ai_id, now, explore_cost) {
        Some(c) => c,
        None => {
            return None;
        },
    };
    let pi = match find_player(players, ai_id) {
        Some(i) => i,
        None => {
            return None;
        },
    };
    proof {
        lemma_first_player_index(players@, ai_id@, pi as int);
    }
    let (monsters, names, speeds) = expedition_bodies(&players[pi], &cards);
    Some(ExplorePlan {
        from_territory_id: from,
        target_id: target,
        card_indices: cards,
        monsters_per_body: monsters,
        body_names: names,
        speed_per_body: speeds,
    })
}

} // verus!
