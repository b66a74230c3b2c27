//! Where new players settle: choosing a home tile far from the other homes, and joining a world.
use vstd::prelude::*;
use crate::grid::{abs, coords_of, parse_territory_id, territory_id_spec};
use crate::model::{find_player, has_player, is_player_index, player_ids_unique, starting_monster_counts, starting_resources, views, Dup, GameState, PlayerData};
use crate::player::{bootstrap_test_player, bootstrapped, default_owned_cards_spec, is_test_player, is_test_player_spec};
use crate::territory::{get_index_spec, get_territory_index, is_first_id_index, lemma_get_index_spec, Territory, TerritoryView, WorldConfig};
use crate::world::{apply_home_safe_zone_levels, can_place_home_spec, can_place_home_with_safe_zone, reset_target, safe_zone_ids, safe_zone_reset};

verus! {

/// New homes keep at least this Manhattan distance from existing ones.
pub const MIN_HOME_SEPARATION: u16 = 8;

/// Message when the map has no room for another home.
pub const NO_HOME_AVAILABLE_MSG: &'static str = "配置可能な本拠地がありません。マップが満杯です。";

/// The id's coordinates, if it has any, are within ±16383: the widest range in which the
/// 16-bit arithmetic of the distance rule neither overflows nor wraps (coordinate differences
/// stay within `i16`, and the sum of two of them within `u16`).
pub open spec fn coords_small(id: Seq<char>) -> bool {
    coords_of(id) matches Some(p) ==> -16383 <= p.0 <= 16383 && -16383 <= p.1 <= 16383
}

/// Every tile id of the map has small coordinates.
pub open spec fn map_coords_small(ts: Seq<Territory>) -> bool {
    forall|i: int| 0 <= i < ts.len() ==> coords_small(#[trigger] ts[i].id@)
}

/// Manhattan distance between two tile ids, when both parse.
pub open spec fn id_distance(a: Seq<char>, b: Seq<char>) -> Option<int> {
    match (coords_of(a), coords_of(b)) {
        (Some(p), Some(q)) => Some(abs(p.0 - q.0) + abs(p.1 - q.1)),
        _ => None,
    }
}

/// Manhattan distance between two tile ids (`None` if either does not parse).
pub fn manhattan_distance(a_id: &str, b_id: &str) -> (r: Option<u16>)
    requires
        coords_small(a_id@),
        coords_small(b_id@),
    ensures
        match r {
            Some(d) => id_distance(a_id@, b_id@) == Some(d as int),
            None => id_distance(a_id@, b_id@) is None,
        },
{
    let (ac, ar) = parse_territory_id(a_id)?;
    let (bc, br) = parse_territory_id(b_id)?;
    let dc: i32 = if ac >= bc { ac - bc } else { bc - ac };
    let dr: i32 = if ar >= br { ar - br } else { br - ar };
    Some((dc + dr) as u16)
}

/// Distance from `id` to the nearest of `homes` (homes whose id does not parse are ignored);
/// `u16::MAX` when there is none.
pub open spec fn min_dist_spec(id: Seq<char>, homes: Seq<Seq<char>>) -> int
    decreases homes.len(),
{
    if homes.len() == 0 {
        u16::MAX as int
    } else {
        let rest = min_dist_spec(id, homes.drop_last());
        match id_distance(id, homes.last()) {
            Some(d) => if d < rest {
                d
            } else {
                rest
            },
            None => rest,
        }
    }
}

/// Distance from `territory_id` to the nearest existing home (`u16::MAX` without one).
pub fn min_distance_to_homes(territory_id: &str, existing_homes: &[String]) -> (d: u16)
    requires
        coords_small(territory_id@),
        forall|i: int| 0 <= i < existing_homes@.len() ==> coords_small(#[trigger] existing_homes@[i]@),
    ensures
        d == min_dist_spec(territory_id@, views(existing_homes@)),
{
    let ghost hs = views(existing_homes@);
    let mut best: u16 = u16::MAX;
    let mut i: usize = 0;
    while i < existing_homes.len()
        invariant
            i <= existing_homes@.len(),
            hs == views(existing_homes@),
            coords_small(territory_id@),
            forall|k: int| 0 <= k < existing_homes@.len() ==> coords_small(#[trigger] existing_homes@[k]@),
            best == min_dist_spec(territory_id@, hs.take(i as int)),
        decreases existing_homes@.len() - i,
    {
        proof {
            assert(hs.take(i + 1).drop_last() =~= hs.take(i as int));
            assert(hs.take(i + 1).last() == existing_homes@[i as int]@);
        }
        if let Some(d) = manhattan_distance(territory_id, existing_homes[i].as_str()) {
            if d < best {
                best = d;
            }
        }
        i += 1;
    }
    proof {
        assert(hs.take(hs.len() as int) =~= hs);
    }
    best
}

/// The ids of the tiles that are someone's base, in map order.
pub open spec fn home_ids(ts: Seq<Territory>) -> Seq<Seq<char>>
    decreases ts.len(),
{
    if ts.len() == 0 {
        seq![]
    } else {
        let rest = home_ids(ts.drop_last());
        if ts.last().is_base && ts.last().owner_id is Some {
            rest.push(ts.last().id@)
        } else {
            rest
        }
    }
}

/// Tile `i` may become `who`'s home: neutral, no ruin, at least 8 away from every existing
/// home, and its safe zone is free of other owners.
pub open spec fn home_candidate(ts: Seq<Territory>, i: int, who: Seq<char>, world: WorldConfig) -> bool {
    &&& 0 <= i < ts.len()
    &&& ts[i].owner_id is None
    &&& ts[i].ruin is None
    &&& min_dist_spec(ts[i].id@, home_ids(ts)) >= MIN_HOME_SEPARATION
    &&& can_place_home_spec(ts, ts[i].id@, who, world)
}

/// Tile `i` is the chosen home: a candidate farthest from the existing homes, the last such
/// one in map order.
pub open spec fn chosen_home(ts: Seq<Territory>, i: int, who: Seq<char>, world: WorldConfig) -> bool {
    let d = min_dist_spec(ts[i].id@, home_ids(ts));
    &&& home_candidate(ts, i, who, world)
    &&& forall|j: int|
        #![trigger home_candidate(ts, j, who, world)]
        home_candidate(ts, j, who, world) ==> min_dist_spec(ts[j].id@, home_ids(ts)) <= d
    &&& forall|j: int|
        #![trigger home_candidate(ts, j, who, world)]
        i < j && home_candidate(ts, j, who, world) ==> min_dist_spec(ts[j].id@, home_ids(ts)) < d
}

/// The tile after `who` claims it as a home base: owner, base flag, no durability or tower,
/// no named garrison.
pub open spec fn claimed(t: TerritoryView, who: Seq<char>) -> TerritoryView {
    TerritoryView {
        owner_id: Some(who),
        is_base: true,
        durability: 0,
        max_durability: 0,
        tower_level: 0,
        body_names: None,
        ..t
    }
}

/// `after` is `before` with the safe zone around (hc, hr) reset (see `apply_home_safe_zone_levels`).
pub open spec fn zone_applied(
    before: Seq<Territory>,
    after: Seq<Territory>,
    hc: int,
    hr: int,
    world: WorldConfig,
) -> bool {
    &&& after.len() == before.len()
    &&& forall|j: int|
        0 <= j < before.len() ==> if reset_target(before, j, safe_zone_ids(hc, hr, world)) {
            safe_zone_reset(territory_id_spec(hc as nat, hr as nat), before[j]@, after[j]@)
        } else {
            after[j]@ == before[j]@
        }
}

/// `after` is `before` once the tile `id` was chosen as `who`'s home (see
/// [`chosen_home`]), claimed (the first tile with that id) and its safe zone reset.
pub open spec fn home_allocated(
    before: Seq<Territory>,
    after: Seq<Territory>,
    who: Seq<char>,
    world: WorldConfig,
    id: Seq<char>,
) -> bool {
    exists|b: int, k: int, mid: Seq<Territory>, hc: int, hr: int|
        {
            &&& chosen_home(before, b, who, world)
            &&& before[b].id@ == id
            &&& get_index_spec(before, id) == Some(k)
            &&& views(mid) == views(before).update(k, claimed(before[k]@, who))
            &&& coords_of(id) == Some((hc as i32, hr as i32))
            &&& 0 <= hc < world.cols && 0 <= hr < world.rows
            &&& zone_applied(mid, after, hc, hr, world)
        }
}

fn home_ids_of(territories: &Vec<Territory>) -> (v: Vec<String>)
    ensures
        views(v@) == home_ids(territories@),
{
    let mut out: Vec<String> = Vec::new();
    let mut i: usize = 0;
    while i < territories.len()
        invariant
            i <= territories@.len(),
            views(out@) == home_ids(territories@.take(i as int)),
        decreases territories@.len() - i,
    {
        proof {
            assert(territories@.take(i + 1).drop_last() =~= territories@.take(i as int));
        }
        let ghost before = views(out@);
        let t = &territories[i];
        if t.is_base && t.owner_id.is_some() {
            out.push(t.id.clone());
            proof {
                assert(views(out@) =~= before.push(t.id@));
            }
        }
        i += 1;
    }
    proof {
        assert(territories@.take(territories@.len() as int) =~= territories@);
    }
    out
}

/// Every home id is the id of some tile.
proof fn lemma_home_ids_from_map(ts: Seq<Territory>)
    ensures
        forall|k: int|
            0 <= k < home_ids(ts).len() ==> exists|i: int| 0 <= i < ts.len() && ts[i].id@ == #[trigger] home_ids(ts)[k],
    decreases ts.len(),
{
    if ts.len() > 0 {
        lemma_home_ids_from_map(ts.drop_last());
        assert forall|k: int|
            0 <= k < home_ids(ts).len() implies exists|i: int| 0 <= i < ts.len() && ts[i].id@ == #[trigger] home_ids(ts)[k] by {
            let rest = home_ids(ts.drop_last());
            if k < rest.len() {
                assert(home_ids(ts)[k] == rest[k]);
                let i = choose|i: int| 0 <= i < ts.drop_last().len() && ts.drop_last()[i].id@ == rest[k];
                assert(ts[i] == ts.drop_last()[i]);
            } else {
                assert(ts[ts.len() - 1].id@ == home_ids(ts)[k]);
            }
        }
    }
}

/// Picks a home for `player_id`: among the neutral, ruin-free tiles at least 8 away from every
/// existing home whose safe zone is free, the one farthest from the homes (the last in map
/// order on a tie). That tile becomes `player_id`'s base and its safe zone is reset. `None`,
/// with the map untouched, when no tile qualifies.
pub fn allocate_home_territory(
    territories: &mut Vec<Territory>,
    player_id: &str,
    world: &WorldConfig,
) -> (r: Option<String>)
    requires
        map_coords_small(old(territories)@),
    ensures
        match r {
            None => {
                &&& views(final(territories)@) == views(old(territories)@)
                &&& forall|i: int| !home_candidate(old(territories)@, i, player_id@, *world)
            },
            Some(id) => home_allocated(old(territories)@, final(territories)@, player_id@, *world, id@),
        },
{
    let homes = home_ids_of(territories);
    proof {
        lemma_home_ids_from_map(territories@);
        assert forall|k: int| 0 <= k < homes@.len() implies coords_small(#[trigger] homes@[k]@) by {
            assert(views(homes@)[k] == homes@[k]@);
            let i = choose|i: int| 0 <= i < territories@.len() && territories@[i].id@ == home_ids(territories@)[k];
            assert(coords_small(territories@[i].id@));
        }
    }
    let ghost ts = territories@;
    let ghost hs = home_ids(ts);
    let mut best: Option<usize> = None;
    let mut best_d: u16 = 0;
    let mut i: usize = 0;
    while i < territories.len()
        invariant
            i <= territories@.len(),
            territories@ == ts,
            views(homes@) == hs,
            hs == home_ids(ts),
            map_coords_small(ts),
            forall|k: int| 0 <= k < homes@.len() ==> coords_small(#[trigger] homes@[k]@),
            match best {
                None => forall|j: int| 0 <= j < i ==> !home_candidate(ts, j, player_id@, *world),
                Some(b) => {
                    &&& b < i
                    &&& home_candidate(ts, b as int, player_id@, *world)
                    &&& best_d == min_dist_spec(ts[b as int].id@, hs)
                    &&& forall|j: int|
                        0 <= j < i && home_candidate(ts, j, player_id@, *world) ==> min_dist_spec(
                            ts[j].id@,
                            hs,
                        ) <= best_d
                    &&& forall|j: int|
                        b < j < i && home_candidate(ts, j, player_id@, *world) ==> min_dist_spec(
                            ts[j].id@,
                            hs,
                        ) < best_d
                },
            },
        decreases territories@.len() - i,
    {
        let t = &territories[i];
        if t.owner_id.is_none() && t.ruin.is_none() {
            proof {
                assert(coords_small(ts[i as int].id@));
            }
            let d = min_distance_to_homes(t.id.as_str(), homes.as_slice());
            if d >= MIN_HOME_SEPARATION && can_place_home_with_safe_zone(
                territories.as_slice(),
                t.id.as_str(),
                player_id,
                world,
            ) {
                let better = match best {
                    None => true,
                    Some(_) => d >= best_d,
                };
                if better {
                    best = Some(i);
                    best_d = d;
                }
            }
        }
        i += 1;
    }
    let b = match best {
        None => return None,
        Some(b) => b,
    };
    proof {
        assert(chosen_home(ts, b as int, player_id@, *world));
    }
    let chosen_id = territories[b].id.clone();
    let k = match get_territory_index(territories.as_slice(), chosen_id.as_str()) {
        Some(k) => k,
        None => {
            proof {
                assert(ts[b as int].id@ == chosen_id@);
            }
            return None;
        },
    };
    proof {
        lemma_get_index_spec(ts, chosen_id@);
    }
    let mut t = territories[k].clone();
    t.owner_id = Some(player_id.to_owned());
    t.is_base = true;
    t.durability = 0;
    t.max_durability = 0;
    t.tower_level = 0;
    t.body_names = None;
    territories.set(k, t);
    let ghost mid = territories@;
    proof {
        assert(views(mid) =~= views(ts).update(k as int, claimed(ts[k as int]@, player_id@)));
    }
    let (col, row) = match parse_territory_id(chosen_id.as_str()) {
        Some(c) => c,
        None => {
            proof {
                assert(can_place_home_spec(ts, chosen_id@, player_id@, *world));
            }
            return None;
        },
    };
    proof {
        assert(can_place_home_spec(ts, chosen_id@, player_id@, *world));
    }
    apply_home_safe_zone_levels(territories, col as u16, row as u16, world);
    proof {
        assert(zone_applied(mid, territories@, col as int, row as int, *world));
    }
    Some(chosen_id)
}

/// The home tile after syncing it with a player's slots: one body per owned card with the
/// slot's monster count.
pub open spec fn synced(t: TerritoryView, n: nat, counts: Seq<u32>) -> TerritoryView {
    TerritoryView { troops: n as u32, body_monster_counts: Some(counts), ..t }
}

/// Makes the player's home tile (the first tile with its id) hold one body per owned card,
/// with the slots' monster counts. Nothing changes when no tile has that id.
pub fn sync_home_territory_body_counts_from_player(
    territories: &mut Vec<Territory>,
    player: &PlayerData,
)
    requires
        player.owned_cards@.len() <= u32::MAX,
    ensures
        final(territories)@.len() == old(territories)@.len(),
        views(final(territories)@) == match get_index_spec(old(territories)@, player.home_territory_id@) {
            None => views(old(territories)@),
            Some(k) => views(old(territories)@).update(
                k,
                synced(old(territories)@[k]@, player.owned_cards@.len(), player.card_monster_counts@),
            ),
        },
{
    proof {
        lemma_get_index_spec(territories@, player.home_territory_id@);
    }
    let Some(k) = get_territory_index(territories.as_slice(), player.home_territory_id.as_str()) else {
        return;
    };
    let ghost before = territories@;
    let mut t = territories[k].clone();
    t.troops = player.owned_cards.len() as u32;
    t.body_monster_counts = Some(crate::model::copy_vec(&player.card_monster_counts));
    territories.set(k, t);
    proof {
        assert(territories@.len() == before.len());
        assert(views(territories@) =~= views(before).update(
            k as int,
            synced(before[k as int]@, player.owned_cards@.len(), player.card_monster_counts@),
        ));
    }
}

/// The home tile of a test account after syncing: ten bodies at the monster cap.
pub open spec fn test_synced(t: TerritoryView) -> TerritoryView {
    synced(
        t,
        default_owned_cards_spec().len(),
        Seq::new(default_owned_cards_spec().len(), |i: int| crate::player::MAX_MONSTER_COUNT_PER_CARD_SLOT),
    )
}

/// Tile `j` is the home tile (first tile with the home id) of some test account among `ps`.
pub open spec fn test_home_tile(ts: Seq<Territory>, ps: Seq<PlayerData>, j: int) -> bool {
    exists|q: int|
        0 <= q < ps.len() && is_test_player_spec(#[trigger] ps[q].player_id@) && get_index_spec(
            ts,
            ps[q].home_territory_id@,
        ) == Some(j)
}

/// Two maps with the same ids in the same places find the same first tile for any id.
proof fn lemma_same_ids_same_index(a: Seq<Territory>, b: Seq<Territory>, id: Seq<char>)
    requires
        a.len() == b.len(),
        forall|j: int| 0 <= j < a.len() ==> a[j].id@ == b[j].id@,
    ensures
        get_index_spec(a, id) == get_index_spec(b, id),
{
    lemma_get_index_spec(a, id);
    lemma_get_index_spec(b, id);
    if let Some(i) = get_index_spec(a, id) {
        assert(is_first_id_index(b, id, i));
    } else if let Some(i) = get_index_spec(b, id) {
        assert(is_first_id_index(a, id, i));
    }
}

/// Puts every test account of the world at full strength (see `bootstrap_test_player`) and
/// syncs its home tile. Other players and tiles are left as they were.
pub fn refresh_all_test_players(state: &mut GameState, max_stamina: u32)
    ensures
        final(state).players@.len() == old(state).players@.len(),
        forall|q: int|
            0 <= q < old(state).players@.len() ==> if is_test_player_spec(
                old(state).players@[q].player_id@,
            ) {
                bootstrapped(old(state).players@[q]@, final(state).players@[q]@, max_stamina)
            } else {
                final(state).players@[q]@ == old(state).players@[q]@
            },
        final(state).territories@.len() == old(state).territories@.len(),
        forall|j: int|
            0 <= j < old(state).territories@.len() ==> final(state).territories@[j]@ == if test_home_tile(
                old(state).territories@,
                old(state).players@,
                j,
            ) {
                test_synced(old(state).territories@[j]@)
            } else {
                old(state).territories@[j]@
            },
        final(state)@ == (crate::model::GameStateView {
            players: final(state)@.players,
            territories: final(state)@.territories,
            ..old(state)@
        }),
{
    let ghost ps0 = state.players@;
    let ghost ts0 = state.territories@;
    let mut i: usize = 0;
    while i < state.players.len()
        invariant
            i <= state.players@.len() == ps0.len(),
            forall|q: int| 0 <= q < ps0.len() ==> (#[trigger] state.players@[q]).player_id@ == ps0[q].player_id@,
            forall|q: int| 0 <= q < ps0.len() ==> (#[trigger] state.players@[q]).home_territory_id@ == ps0[q].home_territory_id@,
            forall|q: int|
                0 <= q < i ==> if is_test_player_spec(ps0[q].player_id@) {
                    bootstrapped(ps0[q]@, state.players@[q]@, max_stamina)
                } else {
                    state.players@[q]@ == ps0[q]@
                },
            forall|q: int| i <= q < ps0.len() ==> state.players@[q]@ == ps0[q]@,
            state.territories@.len() == ts0.len(),
            forall|j: int| 0 <= j < ts0.len() ==> (#[trigger] state.territories@[j]).id@ == ts0[j].id@,
            forall|j: int|
                0 <= j < ts0.len() ==> state.territories@[j]@ == if test_home_tile(
                    ts0,
                    ps0.take(i as int),
                    j,
                ) {
                    test_synced(ts0[j]@)
                } else {
                    ts0[j]@
                },
            state@ == (crate::model::GameStateView {
                players: state@.players,
                territories: state@.territories,
                ..old(state)@
            }),
            ps0 == old(state).players@,
            ts0 == old(state).territories@,
        decreases ps0.len() - i,
    {
        if is_test_player(state.players[i].player_id.as_str()) {
            let mut p = state.players[i].dup();
            bootstrap_test_player(&mut p, max_stamina);
            let ghost before_ts = state.territories@;
            proof {
                lemma_same_ids_same_index(before_ts, ts0, p.home_territory_id@);
            }
            sync_home_territory_body_counts_from_player(&mut state.territories, &p);
            let ghost before_ps = state.players@;
            state.players.set(i, p);
            proof {
                assert(views(state.players@) =~= views(before_ps).update(i as int, p@));
                assert forall|j: int| 0 <= j < ts0.len() implies state.territories@[j]@ == if test_home_tile(
                    ts0,
                    ps0.take(i + 1),
                    j,
                ) {
                    test_synced(ts0[j]@)
                } else {
                    ts0[j]@
                } by {
                    assert(views(state.territories@)[j] == state.territories@[j]@);
                    assert(views(before_ts)[j] == before_ts[j]@);
                    let hk = get_index_spec(ts0, ps0[i as int].home_territory_id@);
                    if test_home_tile(ts0, ps0.take(i as int), j) {
                        let q = choose|q: int| 0 <= q < ps0.take(i as int).len() && is_test_player_spec(
                            #[trigger] ps0.take(i as int)[q].player_id@,
                        ) && get_index_spec(ts0, ps0.take(i as int)[q].home_territory_id@) == Some(j);
                        assert(ps0.take(i + 1)[q] == ps0.take(i as int)[q]);
                    }
                    if hk == Some(j) {
                        assert(ps0.take(i + 1)[i as int] == ps0[i as int]);
                        assert(test_home_tile(ts0, ps0.take(i + 1), j));
                    } else if test_home_tile(ts0, ps0.take(i + 1), j) {
                        let q = choose|q: int| 0 <= q < ps0.take(i + 1).len() && is_test_player_spec(
                            #[trigger] ps0.take(i + 1)[q].player_id@,
                        ) && get_index_spec(ts0, ps0.take(i + 1)[q].home_territory_id@) == Some(j);
                        assert(q != i);
                        assert(ps0.take(i + 1)[q] == ps0.take(i as int)[q]);
                        assert(test_home_tile(ts0, ps0.take(i as int), j));
                    }
                }
                assert(p@.owned_cards =~= default_owned_cards_spec());
            }
        } else {
            proof {
                assert forall|j: int| 0 <= j < ts0.len() implies test_home_tile(ts0, ps0.take(i + 1), j)
                    == test_home_tile(ts0, ps0.take(i as int), j) by {
                    if test_home_tile(ts0, ps0.take(i + 1), j) {
                        let q = choose|q: int| 0 <= q < ps0.take(i + 1).len() && is_test_player_spec(
                            #[trigger] ps0.take(i + 1)[q].player_id@,
                        ) && get_index_spec(ts0, ps0.take(i + 1)[q].home_territory_id@) == Some(j);
                        assert(ps0.take(i + 1)[q] == ps0.take(i as int)[q]);
                    }
                    if test_home_tile(ts0, ps0.take(i as int), j) {
                        let q = choose|q: int| 0 <= q < ps0.take(i as int).len() && is_test_player_spec(
                            #[trigger] ps0.take(i as int)[q].player_id@,
                        ) && get_index_spec(ts0, ps0.take(i as int)[q].home_territory_id@) == Some(j);
                        assert(ps0.take(i + 1)[q] == ps0.take(i as int)[q]);
                    }
                }
            }
        }
        i += 1;
    }
    proof {
        assert(ps0.take(ps0.len() as int) =~= ps0);
    }
}

/// `after` is `before` with its test accounts refreshed (see `refresh_all_test_players`).
pub open spec fn tests_refreshed(before: GameState, after: GameState, max_stamina: u32) -> bool {
    &&& after.players@.len() == before.players@.len()
    &&& forall|q: int|
        0 <= q < before.players@.len() ==> if is_test_player_spec(before.players@[q].player_id@) {
            bootstrapped(before.players@[q]@, after.players@[q]@, max_stamina)
        } else {
            after.players@[q]@ == before.players@[q]@
        }
    &&& after.territories@.len() == before.territories@.len()
    &&& forall|j: int|
        0 <= j < before.territories@.len() ==> after.territories@[j]@ == if test_home_tile(
            before.territories@,
            before.players@,
            j,
        ) {
            test_synced(before.territories@[j]@)
        } else {
            before.territories@[j]@
        }
    &&& after@ == (crate::model::GameStateView {
        players: after@.players,
        territories: after@.territories,
        ..before@
    })
}

/// The monster counts of a newly joined player's slots.
pub open spec fn joined_counts(id: Seq<char>) -> Seq<u32> {
    if is_test_player_spec(id) {
        Seq::new(default_owned_cards_spec().len(), |i: int| crate::player::MAX_MONSTER_COUNT_PER_CARD_SLOT)
    } else {
        starting_monster_counts()
    }
}

/// Makes sure `player_id` takes part in the world. A known player is left as is (test
/// accounts are refreshed to full strength). A new player gets a home (see
/// `allocate_home_territory`), starts with the default data stamped `now` (test accounts at
/// full strength), and its home tile is synced with its slots; when no tile can be its home
/// the error `NO_HOME_AVAILABLE_MSG` comes back and nothing changes. `max_stamina` is the
/// configured stamina cap.
pub fn ensure_player_in_game(
    state: &mut GameState,
    player_id: &str,
    now: u64,
    max_stamina: u32,
) -> (r: Result<(), String>)
    requires
        map_coords_small(old(state).territories@),
    ensures
        has_player(old(state).players@, player_id@) ==> {
            &&& r is Ok
            &&& if is_test_player_spec(player_id@) {
                tests_refreshed(*old(state), *final(state), max_stamina)
            } else {
                final(state)@ == old(state)@
            }
        },
        !has_player(old(state).players@, player_id@) && (forall|i: int|
            !home_candidate(old(state).territories@, i, player_id@, old(state).world)) ==> {
            &&& r matches Err(e) && e@ == NO_HOME_AVAILABLE_MSG@
            &&& final(state)@ == old(state)@
        },
        !has_player(old(state).players@, player_id@) && (exists|i: int|
            home_candidate(old(state).territories@, i, player_id@, old(state).world)) ==> {
            &&& r is Ok
            &&& final(state).players@.len() == old(state).players@.len() + 1
            &&& forall|q: int| 0 <= q < old(state).players@.len() ==> final(state).players@[q]@ == old(state).players@[q]@
            &&& exists|ts: Seq<Territory>, home: Seq<char>| {
                let p = final(state).players@.last();
                &&& #[trigger] home_allocated(old(state).territories@, ts, player_id@, old(state).world, home)
                &&& p.player_id@ == player_id@
                &&& p.home_territory_id@ == home
                &&& p.owned_cards@ == default_owned_cards_spec()
                &&& p.card_monster_counts@ == joined_counts(player_id@)
                &&& p.resources == starting_resources()
                &&& p.marches@.len() == 0
                &&& p.last_resource_tick == now
                &&& views(final(state).territories@) == match get_index_spec(ts, home) {
                    None => views(ts),
                    Some(k) => views(ts).update(
                        k,
                        synced(ts[k]@, default_owned_cards_spec().len(), joined_counts(player_id@)),
                    ),
                }
            }
            &&& final(state)@ == (crate::model::GameStateView {
                players: final(state)@.players,
                territories: final(state)@.territories,
                ..old(state)@
            })
        },
        player_ids_unique(old(state).players@) ==> player_ids_unique(final(state).players@),
{
    if let Some(_) = find_player(&state.players, player_id) {
        if is_test_player(player_id) {
            let ghost before = state.players@;
            refresh_all_test_players(state, max_stamina);
            proof {
                assert forall|q: int| 0 <= q < before.len() implies state.players@[q].player_id@
                    == before[q].player_id@ by {
                    if is_test_player_spec(before[q].player_id@) {
                        assert(bootstrapped(before[q]@, state.players@[q]@, max_stamina));
                        assert(state.players@[q]@.player_id == before[q]@.player_id);
                    } else {
                        assert(state.players@[q]@ == before[q]@);
                    }
                }
            }
        }
        return Ok(());
    }
    let world = state.world;
    let ghost ts0 = state.territories@;
    let home = match allocate_home_territory(&mut state.territories, player_id, &world) {
        Some(h) => h,
        None => {
            proof {
                assert(views(state.territories@) == views(ts0));
                assert(state@.territories == old(state)@.territories);
            }
            return Err(NO_HOME_AVAILABLE_MSG.to_owned());
        },
    };
    let ghost ts_alloc = state.territories@;
    let ghost home_v = home@;
    proof {
        assert(home_allocated(ts0, ts_alloc, player_id@, world, home_v));
    }
    let mut player = PlayerData::new_at(player_id.to_owned(), home, now);
    if is_test_player(player_id) {
        bootstrap_test_player(&mut player, max_stamina);
        proof {
            assert(player@.card_monster_counts =~= joined_counts(player_id@));
        }
    }
    sync_home_territory_body_counts_from_player(&mut state.territories, &player);
    let ghost ps0 = state.players@;
    state.players.push(player);
    proof {
        assert(views(state.players@) =~= views(ps0).push(state.players@.last()@));
        assert(state.players@.last().card_monster_counts@ == joined_counts(player_id@));
        assert(state.players@.last().home_territory_id@ == home_v);
        assert(forall|q: int| 0 <= q < ps0.len() ==> state.players@[q] == ps0[q]);
        assert(!has_player(ps0, player_id@));
        assert forall|q: int| 0 <= q < ps0.len() implies ps0[q].player_id@ != player_id@ by {
            if ps0[q].player_id@ == player_id@ {
                assert(is_player_index(ps0, player_id@, q));
            }
        }
        let p = state.players@.last();
        assert(home_allocated(old(state).territories@, ts_alloc, player_id@, old(state).world, home_v));
        assert(p.player_id@ == player_id@);
        assert(p.owned_cards@ == default_owned_cards_spec());
        assert(p.resources == starting_resources());
        assert(views(p.marches@).len() == p.marches@.len());
        assert(p.marches@.len() == 0);
        assert(p.last_resource_tick == now);
        assert(views(state.territories@) == match get_index_spec(ts_alloc, home_v) {
            None => views(ts_alloc),
            Some(k) => views(ts_alloc).update(
                k,
                synced(ts_alloc[k]@, default_owned_cards_spec().len(), joined_counts(player_id@)),
            ),
        });
    }
    Ok(())
}

} // verus!
