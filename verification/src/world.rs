//! World layout: terrain names, the safe zone around a home, home placement and map generation.
use vstd::prelude::*;
use crate::grid::{abs, coords_of, lemma_territory_id_injective, parse_territory_id, territory_id, territory_id_spec};
use crate::rng::{default_str_hash, hash_seed, seeded_coin, seeded_half_coin};
use crate::territory::{get_territory_index, is_first_id_index, Territory, TerritoryView, WorldConfig};
use crate::text::{chars_of, string_from_chars};
use crate::terrain::{grid_ok, random_level_grid, rivers_are_segments};
use crate::terrain_gen::{level_grid_spec, levels};
use crate::player::{default_monster_count_spec, default_owned_cards, default_owned_cards_spec, initial_card_monster_counts_for_owned};
use crate::rng::random_u64;

verus! {

/// Radius of the safe zone around a home.
pub const HOME_SAFE_ZONE_RADIUS: i32 = 2;

/// Display name of each terrain level.
pub open spec fn terrain_label(level: u8) -> Seq<char> {
    match level {
        1 => "平原"@,
        2 => "丘陵"@,
        3 => "森"@,
        4 => "川"@,
        5 => "山岳"@,
        6 => "山地"@,
        7 => "険境"@,
        8 => "魔境"@,
        9 => "深域"@,
        _ => "平原"@,
    }
}

/// Display name of a terrain level (plains for anything unknown).
pub fn terrain_name(level: u8) -> (r: &'static str)
    ensures
        r@ == terrain_label(level),
{
    match level {
        1 => "平原",
        2 => "丘陵",
        3 => "森",
        4 => "川",
        5 => "山岳",
        6 => "山地",
        7 => "険境",
        8 => "魔境",
        9 => "深域",
        _ => "平原",
    }
}

/// Manhattan distance from the home at `(home_col, home_row)` to `(col, row)`.
pub fn home_manhattan_distance(home_col: i32, home_row: i32, col: i32, row: i32) -> (d: i64)
    ensures
        d == abs(col - home_col) + abs(row - home_row),
{
    let dc = col as i64 - home_col as i64;
    let dr = row as i64 - home_row as i64;
    let a = if dc < 0 { -dc } else { dc };
    let b = if dr < 0 { -dr } else { dr };
    a + b
}

/// Whether `(c, r)` lies at distance 1..=2 from the home.
pub open spec fn in_safe_zone(hc: int, hr: int, c: int, r: int) -> bool {
    1 <= abs(c - hc) + abs(r - hr) <= HOME_SAFE_ZONE_RADIUS
}

/// Safe-zone cells of row `r` among its first `n` columns, left to right.
pub open spec fn zone_row(hc: int, hr: int, r: int, n: int) -> Seq<(int, int)>
    decreases n,
{
    if n <= 0 {
        Seq::empty()
    } else {
        let prev = zone_row(hc, hr, r, n - 1);
        if in_safe_zone(hc, hr, n - 1, r) {
            prev.push((n - 1, r))
        } else {
            prev
        }
    }
}

/// Safe-zone cells of the first `n` rows, in row-major order.
pub open spec fn zone_cells(hc: int, hr: int, cols: int, n: int) -> Seq<(int, int)>
    decreases n,
{
    if n <= 0 {
        Seq::empty()
    } else {
        zone_cells(hc, hr, cols, n - 1) + zone_row(hc, hr, n - 1, cols)
    }
}

/// Ids of the safe zone around a home, in row-major order.
pub open spec fn safe_zone_ids(hc: int, hr: int, world: WorldConfig) -> Seq<Seq<char>> {
    let cells = zone_cells(hc, hr, world.cols as int, world.rows as int);
    Seq::new(cells.len(), |i: int| territory_id_spec(cells[i].0 as nat, cells[i].1 as nat))
}

proof fn lemma_zone_row_facts(hc: int, hr: int, r: int, n: int)
    requires
        n >= 0,
    ensures
        forall|i: int|
            0 <= i < zone_row(hc, hr, r, n).len() ==> {
                let p = #[trigger] zone_row(hc, hr, r, n)[i];
                p.1 == r && 0 <= p.0 < n && in_safe_zone(hc, hr, p.0, p.1)
            },
        forall|i: int, j: int|
            0 <= i < j < zone_row(hc, hr, r, n).len() ==> #[trigger] zone_row(hc, hr, r, n)[i].0
                < #[trigger] zone_row(hc, hr, r, n)[j].0,
    decreases n,
{
    if n > 0 {
        lemma_zone_row_facts(hc, hr, r, n - 1);
        let prev = zone_row(hc, hr, r, n - 1);
        let s = zone_row(hc, hr, r, n);
        if in_safe_zone(hc, hr, n - 1, r) {
            assert(s == prev.push((n - 1, r)));
            assert forall|i: int| 0 <= i < s.len() implies {
                let p = #[trigger] s[i];
                p.1 == r && 0 <= p.0 < n && in_safe_zone(hc, hr, p.0, p.1)
            } by {
                if i < prev.len() {
                    assert(s[i] == prev[i]);
                }
            }
            assert forall|i: int, j: int| 0 <= i < j < s.len() implies #[trigger] s[i].0
                < #[trigger] s[j].0 by {
                assert(s[i] == prev[i]);
                if j < prev.len() {
                    assert(s[j] == prev[j]);
                }
            }
        } else {
            assert(s == prev);
        }
    }
}

proof fn lemma_zone_cells_facts(hc: int, hr: int, cols: int, n: int)
    requires
        n >= 0,
        cols >= 0,
    ensures
        forall|i: int|
            0 <= i < zone_cells(hc, hr, cols, n).len() ==> {
                let p = #[trigger] zone_cells(hc, hr, cols, n)[i];
                0 <= p.1 < n && 0 <= p.0 < cols && in_safe_zone(hc, hr, p.0, p.1)
            },
        forall|i: int, j: int|
            0 <= i < j < zone_cells(hc, hr, cols, n).len() ==> {
                let p = #[trigger] zone_cells(hc, hr, cols, n)[i];
                let q = #[trigger] zone_cells(hc, hr, cols, n)[j];
                p.1 < q.1 || (p.1 == q.1 && p.0 < q.0)
            },
    decreases n,
{
    if n > 0 {
        lemma_zone_cells_facts(hc, hr, cols, n - 1);
        lemma_zone_row_facts(hc, hr, n - 1, cols);
        let a = zone_cells(hc, hr, cols, n - 1);
        let b = zone_row(hc, hr, n - 1, cols);
        let s = zone_cells(hc, hr, cols, n);
        assert(s =~= a + b);
        assert forall|i: int| 0 <= i < s.len() implies {
            let p = #[trigger] s[i];
            0 <= p.1 < n && 0 <= p.0 < cols && in_safe_zone(hc, hr, p.0, p.1)
        } by {
            if i < a.len() {
                assert(s[i] == a[i]);
            } else {
                assert(s[i] == b[i - a.len()]);
            }
        }
        assert forall|i: int, j: int| 0 <= i < j < s.len() implies {
            let p = #[trigger] s[i];
            let q = #[trigger] s[j];
            p.1 < q.1 || (p.1 == q.1 && p.0 < q.0)
        } by {
            if j < a.len() {
                assert(s[i] == a[i] && s[j] == a[j]);
            } else if i >= a.len() {
                assert(s[i] == b[i - a.len()] && s[j] == b[j - a.len()]);
            } else {
                assert(s[i] == a[i] && s[j] == b[j - a.len()]);
            }
        }
    }
}

/// `id` names a map tile at distance 1..=2 from the home.
pub open spec fn is_zone_tile_id(id: Seq<char>, hc: int, hr: int, world: WorldConfig) -> bool {
    exists|c: int, r: int|
        0 <= c < world.cols && 0 <= r < world.rows && in_safe_zone(hc, hr, c, r) && id
            == #[trigger] territory_id_spec(c as nat, r as nat)
}

/// The safe-zone ids of a home are pairwise distinct tiles of the map, each at
/// distance 1..=2 from the home.
pub proof fn lemma_safe_zone_ids(hc: int, hr: int, world: WorldConfig)
    ensures
        forall|i: int|
            0 <= i < safe_zone_ids(hc, hr, world).len() ==> is_zone_tile_id(
                #[trigger] safe_zone_ids(hc, hr, world)[i],
                hc,
                hr,
                world,
            ),
        forall|i: int, j: int|
            0 <= i < j < safe_zone_ids(hc, hr, world).len() ==> #[trigger] safe_zone_ids(
                hc,
                hr,
                world,
            )[i] != #[trigger] safe_zone_ids(hc, hr, world)[j],
{
    let cols = world.cols as int;
    let rows = world.rows as int;
    lemma_zone_cells_facts(hc, hr, cols, rows);
    let cells = zone_cells(hc, hr, cols, rows);
    let ids = safe_zone_ids(hc, hr, world);
    assert forall|i: int| 0 <= i < ids.len() implies is_zone_tile_id(#[trigger] ids[i], hc, hr, world) by {
        let p = cells[i];
        assert(ids[i] == territory_id_spec(p.0 as nat, p.1 as nat));
        assert(0 <= p.0 < world.cols && 0 <= p.1 < world.rows && in_safe_zone(hc, hr, p.0, p.1));
    }
    assert forall|i: int, j: int| 0 <= i < j < ids.len() implies #[trigger] ids[i]
        != #[trigger] ids[j] by {
        let p = cells[i];
        let q = cells[j];
        if ids[i] == ids[j] {
            lemma_territory_id_injective(p.0 as nat, p.1 as nat, q.0 as nat, q.1 as nat);
        }
    }
}

/// Ids of the tiles at distance 1..=2 from the home (the home itself excluded),
/// in row-major order.
pub fn home_safe_zone_territory_ids(home_col: u16, home_row: u16, world: &WorldConfig) -> (ids: Vec<String>)
    ensures
        ids@.len() == safe_zone_ids(home_col as int, home_row as int, *world).len(),
        forall|i: int|
            0 <= i < ids@.len() ==> #[trigger] ids@[i]@ == safe_zone_ids(
                home_col as int,
                home_row as int,
                *world,
            )[i],
{
    let ghost hc = home_col as int;
    let ghost hr = home_row as int;
    let ghost cols = world.cols as int;
    let mut ids: Vec<String> = Vec::new();
    let mut row: u16 = 0;
    while row < world.rows
        invariant
            row <= world.rows,
            cols == world.cols,
            hc == home_col as int,
            hr == home_row as int,
            ids@.len() == zone_cells(hc, hr, cols, row as int).len(),
            forall|i: int|
                0 <= i < ids@.len() ==> #[trigger] ids@[i]@ == territory_id_spec(
                    zone_cells(hc, hr, cols, row as int)[i].0 as nat,
                    zone_cells(hc, hr, cols, row as int)[i].1 as nat,
                ),
        decreases world.rows - row,
    {
        let ghost before = zone_cells(hc, hr, cols, row as int);
        let mut col: u16 = 0;
        while col < world.cols
            invariant
                col <= world.cols,
                row < world.rows,
                cols == world.cols,
                hc == home_col as int,
                hr == home_row as int,
                before == zone_cells(hc, hr, cols, row as int),
                ids@.len() == before.len() + zone_row(hc, hr, row as int, col as int).len(),
                forall|i: int|
                    0 <= i < ids@.len() ==> #[trigger] ids@[i]@ == territory_id_spec(
                        (before + zone_row(hc, hr, row as int, col as int))[i].0 as nat,
                        (before + zone_row(hc, hr, row as int, col as int))[i].1 as nat,
                    ),
            decreases world.cols - col,
        {
            let ghost prev = before + zone_row(hc, hr, row as int, col as int);
            let dist = home_manhattan_distance(home_col as i32, home_row as i32, col as i32, row as i32);
            proof {
                assert(in_safe_zone(hc, hr, col as int, row as int) == (1 <= dist && dist <= 2));
                assert(zone_row(hc, hr, row as int, col + 1) == if in_safe_zone(hc, hr, col as int, row as int) {
                    zone_row(hc, hr, row as int, col as int).push((col as int, row as int))
                } else {
                    zone_row(hc, hr, row as int, col as int)
                });
            }
            if 1 <= dist && dist <= 2 {
                ids.push(territory_id(col as u64, row as u64));
                proof {
                    assert(before + zone_row(hc, hr, row as int, col + 1) =~= prev.push(
                        (col as int, row as int),
                    ));
                }
            } else {
                proof {
                    assert(before + zone_row(hc, hr, row as int, col + 1) =~= prev);
                }
            }
            col += 1;
        }
        proof {
            assert(zone_cells(hc, hr, cols, row + 1) =~= before + zone_row(
                hc,
                hr,
                row as int,
                cols,
            ));
        }
        row += 1;
    }
    ids
}

/// The key a safe-zone tile's level is drawn from: `"{home_id}:{tile_id}"`.
pub open spec fn safe_zone_key(home_id: Seq<char>, tile_id: Seq<char>) -> Seq<char> {
    home_id.push(':') + tile_id
}

/// The level 1 or 2 of a safe-zone tile: a fair coin from a generator seeded with the hash of
/// its key (see [`safe_zone_key`]); heads gives 1.
pub open spec fn safe_zone_level_spec(home_id: Seq<char>, tile_id: Seq<char>) -> u8 {
    if seeded_half_coin(default_str_hash(safe_zone_key(home_id, tile_id))) {
        1
    } else {
        2
    }
}

/// The level 1 or 2 a safe-zone tile gets (see [`safe_zone_level_spec`]).
pub fn safe_zone_level_for_tile(home_id: &str, tile_id: &str) -> (level: u8)
    ensures
        level == safe_zone_level_spec(home_id@, tile_id@),
{
    let mut key = chars_of(home_id);
    key.push(':');
    let ghost start = key@;
    let tile = chars_of(tile_id);
    let mut i: usize = 0;
    while i < tile.len()
        invariant
            i <= tile@.len(),
            tile@ == tile_id@,
            start == home_id@.push(':'),
            key@ == start + tile@.take(i as int),
        decreases tile.len() - i,
    {
        key.push(tile[i]);
        i += 1;
        proof {
            assert(key@ =~= start + tile@.take(i as int));
        }
    }
    proof {
        assert(tile@.take(tile@.len() as int) =~= tile@);
    }
    let key_string = string_from_chars(&key);
    if seeded_coin(hash_seed(key_string.as_str())) {
        1
    } else {
        2
    }
}

/// The tile may stay with, or go to, `who`: it is neutral or already `who`'s.
pub open spec fn owner_ok(t: Territory, who: Seq<char>) -> bool {
    match t.owner_id {
        Some(o) => o@ == who,
        None => true,
    }
}

/// A home may be placed on `home_id` for `who`: the id names a tile of the map, the first
/// territory with that id carries no ruin and is neutral, and no tile within distance 2
/// belongs to anyone else.
pub open spec fn can_place_home_spec(
    ts: Seq<Territory>,
    home_id: Seq<char>,
    who: Seq<char>,
    world: WorldConfig,
) -> bool {
    match coords_of(home_id) {
        None => false,
        Some((hc, hr)) => {
            &&& 0 <= hc < world.cols
            &&& 0 <= hr < world.rows
            &&& exists|i: int|
                is_first_id_index(ts, home_id, i) && ts[i].ruin is None && ts[i].owner_id is None
            &&& forall|j: int|
                0 <= j < ts.len() ==> (coords_of(#[trigger] ts[j].id@) matches Some(p) && abs(
                    p.0 - hc,
                ) + abs(p.1 - hr) <= 2 ==> owner_ok(ts[j], who))
        },
    }
}

/// Whether a home can be placed on `home_territory_id` for `for_owner_id`
/// (see [`can_place_home_spec`]).
pub fn can_place_home_with_safe_zone(
    territories: &[Territory],
    home_territory_id: &str,
    for_owner_id: &str,
    world: &WorldConfig,
) -> (r: bool)
    ensures
        r == can_place_home_spec(territories@, home_territory_id@, for_owner_id@, *world),
{
    let (home_col, home_row) = match parse_territory_id(home_territory_id) {
        Some(coords) => coords,
        None => return false,
    };
    if home_col < 0 || home_row < 0 || home_col >= world.cols as i32 || home_row >= world.rows as i32 {
        return false;
    }
    let Some(home_idx) = get_territory_index(territories, home_territory_id) else {
        return false;
    };
    let home = &territories[home_idx];
    if home.ruin.is_some() {
        return false;
    }
    if home.owner_id.is_some() {
        return false;
    }
    let mut j: usize = 0;
    while j < territories.len()
        invariant
            j <= territories@.len(),
            coords_of(home_territory_id@) == Some((home_col, home_row)),
            forall|k: int|
                0 <= k < j ==> (coords_of(#[trigger] territories@[k].id@) matches Some(p) && abs(
                    p.0 - home_col,
                ) + abs(p.1 - home_row) <= 2 ==> owner_ok(territories@[k], for_owner_id@)),
        decreases territories.len() - j,
    {
        let t = &territories[j];
        if let Some((col, row)) = parse_territory_id(t.id.as_str()) {
            let dist = home_manhattan_distance(home_col, home_row, col, row);
            if dist <= 2 {
                if let Some(owner) = &t.owner_id {
                    if !crate::text::str_eq(owner.as_str(), for_owner_id) {
                        return false;
                    }
                }
            }
        }
        j += 1;
    }
    true
}

/// The safe-zone reset of a tile around home `home_id`: the level its key draws (see
/// [`safe_zone_level_spec`]) with its terrain name, no garrison, everything else as before.
pub open spec fn safe_zone_reset(home_id: Seq<char>, old: TerritoryView, new: TerritoryView) -> bool {
    &&& new.level == safe_zone_level_spec(home_id, old.id)
    &&& new.name == terrain_label(new.level)
    &&& new.troops == 0
    &&& new.body_monster_counts is None
    &&& new.body_names is None
    &&& new.id == old.id
    &&& new.owner_id == old.owner_id
    &&& new.ruin == old.ruin
    &&& new.is_base == old.is_base
    &&& new.durability == old.durability
    &&& new.max_durability == old.max_durability
    &&& new.tower_level == old.tower_level
}

/// Territory `j` is the first with its id, that id is among `zone`, and the tile is neutral
/// without a ruin.
pub open spec fn reset_target(ts: Seq<Territory>, j: int, zone: Seq<Seq<char>>) -> bool {
    &&& forall|k: int| 0 <= k < j ==> ts[k].id@ != ts[j].id@
    &&& zone.contains(ts[j].id@)
    &&& ts[j].owner_id is None
    &&& ts[j].ruin is None
}

/// Overwrites the neutral, ruin-free tiles of the safe zone around a home with level 1 or 2
/// (and their terrain name), clearing their garrison. Other tiles are left as they were.
pub fn apply_home_safe_zone_levels(
    territories: &mut Vec<Territory>,
    home_col: u16,
    home_row: u16,
    world: &WorldConfig,
)
    ensures
        final(territories)@.len() == old(territories)@.len(),
        forall|j: int|
            0 <= j < old(territories)@.len() ==> if reset_target(
                old(territories)@,
                j,
                safe_zone_ids(home_col as int, home_row as int, *world),
            ) {
                safe_zone_reset(territory_id_spec(home_col as nat, home_row as nat), old(territories)@[j]@, final(territories)@[j]@)
            } else {
                final(territories)@[j]@ == old(territories)@[j]@
            },
{
    let ghost zone = safe_zone_ids(home_col as int, home_row as int, *world);
    let ghost orig = territories@;
    proof {
        lemma_safe_zone_ids(home_col as int, home_row as int, *world);
    }
    let home_id = territory_id(home_col as u64, home_row as u64);
    let tiles = home_safe_zone_territory_ids(home_col, home_row, world);
    let mut z: usize = 0;
    while z < tiles.len()
        invariant
            z <= tiles@.len(),
            home_id@ == territory_id_spec(home_col as nat, home_row as nat),
            tiles@.len() == zone.len(),
            forall|i: int| 0 <= i < tiles@.len() ==> #[trigger] tiles@[i]@ == zone[i],
            forall|a: int, b: int| 0 <= a < b < zone.len() ==> #[trigger] zone[a] != #[trigger] zone[b],
            territories@.len() == orig.len(),
            forall|j: int|
                0 <= j < orig.len() ==> {
                    &&& (#[trigger] territories@[j]).id@ == orig[j].id@
                    &&& territories@[j].owner_id is None == orig[j].owner_id is None
                    &&& territories@[j].ruin is None == orig[j].ruin is None
                },
            forall|j: int|
                0 <= j < orig.len() ==> if reset_target(orig, j, zone.take(z as int)) {
                    safe_zone_reset(territory_id_spec(home_col as nat, home_row as nat), orig[j]@, (#[trigger] territories@[j])@)
                } else {
                    territories@[j]@ == orig[j]@
                },
        decreases tiles.len() - z,
    {
        let tile_id = tiles[z].as_str();
        let ghost before = territories@;
        let found = get_territory_index(territories.as_slice(), tile_id);
        proof {
            assert forall|j: int| 0 <= j < orig.len() && j != (match found { Some(i) => i as int, None => -1 })
                implies (reset_target(orig, j, zone.take(z + 1)) == reset_target(orig, j, zone.take(z as int))) by {
                if zone.take(z + 1).contains(orig[j].id@) && !zone.take(z as int).contains(orig[j].id@) {
                    let w = choose|w: int| 0 <= w < zone.take(z + 1).len() && #[trigger] zone.take(z + 1)[w] == orig[j].id@;
                    if w < z {
                        assert(zone.take(z as int)[w] == orig[j].id@);
                    }
                    assert(orig[j].id@ == tile_id@);
                    if (forall|k: int| 0 <= k < j ==> orig[k].id@ != orig[j].id@) {
                        match found {
                            Some(i) => {
                                assert(territories@[j].id@ == tile_id@);
                                if (i as int) < j {
                                    assert(orig[i as int].id@ == orig[j].id@);
                                }
                            },
                            None => {
                                assert(territories@[j].id@ == tile_id@);
                            },
                        }
                    }
                }
                if zone.take(z as int).contains(orig[j].id@) {
                    let w = choose|w: int| 0 <= w < zone.take(z as int).len() && #[trigger] zone.take(z as int)[w] == orig[j].id@;
                    assert(zone.take(z + 1)[w] == orig[j].id@);
                }
            }
        }
        let Some(idx) = found else {
            z += 1;
            continue;
        };
        proof {
            assert(!zone.take(z as int).contains(tile_id@)) by {
                if zone.take(z as int).contains(tile_id@) {
                    let w = choose|w: int| 0 <= w < zone.take(z as int).len() && #[trigger] zone.take(z as int)[w] == tile_id@;
                    assert(zone[w] == zone[z as int]);
                }
            }
            assert(zone.take(z + 1)[z as int] == tile_id@);
            assert(zone.take(z + 1).contains(tile_id@));
            assert forall|k: int| 0 <= k < idx implies orig[k].id@ != orig[idx as int].id@ by {
                assert(territories@[k].id@ != tile_id@);
            }
            assert(!reset_target(orig, idx as int, zone.take(z as int)));
        }
        if territories[idx].owner_id.is_some() || territories[idx].ruin.is_some() {
            z += 1;
            continue;
        }
        let level = safe_zone_level_for_tile(home_id.as_str(), tile_id);
        proof {
            assert(home_id@ == territory_id_spec(home_col as nat, home_row as nat));
            assert(territories@[idx as int].id@ == tile_id@);
            assert(orig[idx as int]@.id == tile_id@);
            assert(level == safe_zone_level_spec(territory_id_spec(home_col as nat, home_row as nat), orig[idx as int]@.id));
        }
        territories[idx].level = level;
        territories[idx].name = string_from_chars(&chars_of(terrain_name(level)));
        territories[idx].troops = 0;
        territories[idx].body_monster_counts = None;
        territories[idx].body_names = None;
        proof {
            assert(reset_target(orig, idx as int, zone.take(z + 1)));
        }
        z += 1;
    }
    proof {
        assert(zone.take(zone.len() as int) =~= zone);
    }
}

/// The terrain seed to use: the explicit one, else the one configured in the environment,
/// else a random one.
pub fn resolve_terrain_seed(explicit: Option<u64>, env_seed: Option<u64>) -> (seed: u64)
    ensures
        explicit matches Some(e) ==> seed == e,
        explicit is None ==> (env_seed matches Some(e) ==> seed == e),
{
    if let Some(seed) = explicit {
        return seed;
    }
    match env_seed {
        Some(seed) => seed,
        None => random_u64(),
    }
}

/// Fresh monster counts of the starting monsters (the home garrison of a new world).
pub open spec fn home_counts_spec() -> Seq<u32> {
    Seq::new(10, |i: int| default_monster_count_spec(default_owned_cards_spec()[i]))
}

/// A freshly generated home tile owned by `owner`.
pub open spec fn generated_home(t: TerritoryView, owner: Seq<char>) -> bool {
    &&& t.level == 1
    &&& t.name == terrain_label(1)
    &&& t.owner_id == Some(owner)
    &&& t.troops == 10
    &&& t.body_monster_counts == Some(home_counts_spec())
    &&& t.body_names is None
    &&& t.ruin is None
    &&& t.is_base
    &&& t.durability == 0
    &&& t.max_durability == 0
    &&& t.tower_level == 0
}

/// A freshly generated neutral tile; inside the home's safe zone its level is 1 or 2.
pub open spec fn generated_wild(t: TerritoryView, in_zone: bool) -> bool {
    &&& 1 <= t.level <= 9
    &&& in_zone ==> (t.level == 1 || t.level == 2)
    &&& t.name == terrain_label(t.level)
    &&& t.owner_id is None
    &&& t.troops == 0
    &&& t.body_monster_counts is None
    &&& t.body_names is None
    &&& t.ruin is None
    &&& !t.is_base
    &&& t.durability == 0
    &&& t.max_durability == 0
    &&& t.tower_level == 0
}

/// What tile `k` of a generated map looks like: it sits at column `k % cols`, row
/// `k / cols`, carries that tile's id, and is the home or a neutral tile.
pub open spec fn generated_tile(t: TerritoryView, k: int, world: WorldConfig, owner: Seq<char>) -> bool {
    let cols = world.cols as int;
    let c = k % cols;
    let r = k / cols;
    &&& t.id == territory_id_spec(c as nat, r as nat)
    &&& if c == world.home_col && r == world.home_row {
        generated_home(t, owner)
    } else {
        generated_wild(t, in_safe_zone(world.home_col as int, world.home_row as int, c, r))
    }
}

proof fn lemma_index_coords(k: int, cols: int, c: int, r: int)
    requires
        cols > 0,
        0 <= c < cols,
        r >= 0,
        k == r * cols + c,
    ensures
        k % cols == c,
        k / cols == r,
{
    vstd::arithmetic::div_mod::lemma_fundamental_div_mod_converse(k, cols, r, c);
}

proof fn lemma_coords_of_index(k: int, cols: int, rows: int)
    requires
        cols > 0,
        0 <= k < rows * cols,
    ensures
        0 <= k % cols < cols,
        0 <= k / cols < rows,
        k == (k / cols) * cols + k % cols,
{
    vstd::arithmetic::div_mod::lemma_fundamental_div_mod(k, cols);
    vstd::arithmetic::div_mod::lemma_mod_bound(k, cols);
    vstd::arithmetic::div_mod::lemma_div_pos_is_pos(k, cols);
    let q = k / cols;
    assert(q * cols == cols * q) by (nonlinear_arith);
    if q >= rows {
        assert(q * cols >= rows * cols) by (nonlinear_arith)
            requires
                q >= rows,
                cols > 0,
        ;
    }
}

proof fn lemma_zone_row_complete(hc: int, hr: int, r: int, n: int, c: int)
    requires
        0 <= c < n,
        in_safe_zone(hc, hr, c, r),
    ensures
        zone_row(hc, hr, r, n).contains((c, r)),
    decreases n,
{
    if c < n - 1 {
        lemma_zone_row_complete(hc, hr, r, n - 1, c);
        let prev = zone_row(hc, hr, r, n - 1);
        let i = choose|i: int| 0 <= i < prev.len() && prev[i] == (c, r);
        if in_safe_zone(hc, hr, n - 1, r) {
            assert(zone_row(hc, hr, r, n)[i] == (c, r));
        }
    } else {
        let prev = zone_row(hc, hr, r, n - 1);
        assert(zone_row(hc, hr, r, n)[prev.len() as int] == (c, r));
    }
}

/// Every map tile at distance 1..=2 from the home is in its safe zone list.
pub proof fn lemma_zone_cells_complete(hc: int, hr: int, cols: int, n: int, c: int, r: int)
    requires
        0 <= c < cols,
        0 <= r < n,
        in_safe_zone(hc, hr, c, r),
    ensures
        zone_cells(hc, hr, cols, n).contains((c, r)),
    decreases n,
{
    let a = zone_cells(hc, hr, cols, n - 1);
    let b = zone_row(hc, hr, n - 1, cols);
    assert(zone_cells(hc, hr, cols, n) == a + b);
    if r < n - 1 {
        lemma_zone_cells_complete(hc, hr, cols, n - 1, c, r);
        let i = choose|i: int| 0 <= i < a.len() && a[i] == (c, r);
        assert((a + b)[i] == (c, r));
    } else {
        lemma_zone_row_complete(hc, hr, r, cols, c);
        let i = choose|i: int| 0 <= i < b.len() && b[i] == (c, r);
        assert((a + b)[a.len() + i] == (c, r));
    }
}

/// Generates the tiles of a new map, row by row: terrain from the level grid of the seed
/// (`world.terrain_seed`, or when it is 0 the seed resolved from `env_seed` or drawn at random),
/// the home tile at `(home_col, home_row)` owned by the override owner or `home_owner_id`
/// with the starting garrison, every other tile neutral; then the home's safe zone is
/// reset to levels 1 and 2. Outside the home and its safe zone every tile has the level of
/// its cell in the level grid of the seed ([`level_grid_spec`]), whose rivers are lone straight
/// three-cell segments; when the seed is given (see [`given_terrain_seed`]) that grid is fixed
/// by it, so equal arguments give equal maps.
pub fn generate_territories(
    world: &WorldConfig,
    home_owner_id: &str,
    home_owner_id_override: Option<&str>,
    env_seed: Option<u64>,
) -> (out: Vec<Territory>)
    ensures
        out@.len() == world.cols as int * world.rows as int,
        forall|k: int|
            0 <= k < out@.len() ==> generated_tile(
                (#[trigger] out@[k])@,
                k,
                *world,
                match home_owner_id_override {
                    Some(o) => o@,
                    None => home_owner_id@,
                },
            ),
        given_terrain_seed(*world, env_seed) matches Some(seed) ==> seeded_map_levels(out@, *world, seed),
        exists|g: Seq<Vec<u8>>|
            #[trigger] grid_ok(g, world.rows as int, world.cols as int, 1, 9) && rivers_are_segments(
                g,
                world.rows as int,
                world.cols as int,
            ) && forall|k: int|
                0 <= k < out@.len() && !(k % (world.cols as int) == world.home_col && k / (world.cols as int)
                    == world.home_row) && !in_safe_zone(
                    world.home_col as int,
                    world.home_row as int,
                    k % (world.cols as int),
                    k / (world.cols as int),
                ) ==> (#[trigger] out@[k]).level == g[k / (world.cols as int)]@[k % (world.cols as int)],
{
    let seed = if world.terrain_seed != 0 {
        world.terrain_seed
    } else {
        resolve_terrain_seed(None, env_seed)
    };
    let level_grid = random_level_grid(world.cols, world.rows, seed);
    let owner: &str = match home_owner_id_override {
        Some(o) => o,
        None => home_owner_id,
    };
    let ghost cols = world.cols as int;
    let ghost rows = world.rows as int;
    let ghost hc = world.home_col as int;
    let ghost hr = world.home_row as int;
    let mut out: Vec<Territory> = Vec::new();
    let mut row: u16 = 0;
    while row < world.rows
        invariant
            row <= world.rows,
            cols == world.cols,
            rows == world.rows,
            hc == world.home_col,
            hr == world.home_row,
            grid_ok(level_grid@, rows, cols, 1, 9),
            out@.len() == row * cols,
            forall|k: int|
                0 <= k < out@.len() ==> {
                    let t = (#[trigger] out@[k])@;
                    let c = k % cols;
                    let r = k / cols;
                    &&& t.id == territory_id_spec(c as nat, r as nat)
                    &&& if c == hc && r == hr {
                        generated_home(t, owner@)
                    } else {
                        generated_wild(t, false)
                    }
                },
            forall|k: int|
                0 <= k < out@.len() && !(k % cols == hc && k / cols == hr) ==> (#[trigger] out@[k]).level
                    == level_grid@[k / cols]@[k % cols],
        decreases world.rows - row,
    {
        let mut col: u16 = 0;
        while col < world.cols
            invariant
                col <= world.cols,
                row < world.rows,
                cols == world.cols,
                rows == world.rows,
                hc == world.home_col,
                hr == world.home_row,
                grid_ok(level_grid@, rows, cols, 1, 9),
                out@.len() == row * cols + col,
                forall|k: int|
                    0 <= k < out@.len() ==> {
                        let t = (#[trigger] out@[k])@;
                        let c = k % cols;
                        let r = k / cols;
                        &&& t.id == territory_id_spec(c as nat, r as nat)
                        &&& if c == hc && r == hr {
                            generated_home(t, owner@)
                        } else {
                            generated_wild(t, false)
                        }
                    },
                forall|k: int|
                    0 <= k < out@.len() && !(k % cols == hc && k / cols == hr) ==> (#[trigger] out@[k]).level
                        == level_grid@[k / cols]@[k % cols],
            decreases world.cols - col,
        {
            let id = territory_id(col as u64, row as u64);
            let is_home = col == world.home_col && row == world.home_row;
            let level: u8 = if is_home {
                1
            } else {
                level_grid[row as usize][col as usize]
            };
            let name = string_from_chars(&chars_of(terrain_name(level)));
            let ghost k = out@.len() as int;
            proof {
                lemma_index_coords(k, cols, col as int, row as int);
            }
            if is_home {
                let owned = default_owned_cards();
                let home_mc = initial_card_monster_counts_for_owned(owned.as_slice());
                let ntroops = owned.len() as u32;
                proof {
                    assert(home_mc@ =~= home_counts_spec());
                }
                out.push(Territory {
                    id,
                    name,
                    level,
                    owner_id: Some(string_from_chars(&chars_of(owner))),
                    troops: ntroops,
                    body_monster_counts: Some(home_mc),
                    body_names: None,
                    ruin: None,
                    is_base: true,
                    durability: 0,
                    max_durability: 0,
                    tower_level: 0,
                });
            } else {
                out.push(Territory {
                    id,
                    name,
                    level,
                    owner_id: None,
                    troops: 0,
                    body_monster_counts: None,
                    body_names: None,
                    ruin: None,
                    is_base: false,
                    durability: 0,
                    max_durability: 0,
                    tower_level: 0,
                });
            }
            col += 1;
        }
        proof {
            assert(row * cols + cols == (row + 1) * cols) by (nonlinear_arith);
        }
        row += 1;
    }
    let ghost before = out@;
    proof {
        lemma_safe_zone_ids(hc, hr, *world);
        assert(rows * cols == cols * rows) by (nonlinear_arith);
    }
    apply_home_safe_zone_levels(&mut out, world.home_col, world.home_row, world);
    proof {
        let zone = safe_zone_ids(hc, hr, *world);
        assert forall|k: int| 0 <= k < out@.len() implies generated_tile(
            (#[trigger] out@[k])@,
            k,
            *world,
            owner@,
        ) && (!(k % cols == hc && k / cols == hr) && !in_safe_zone(hc, hr, k % cols, k / cols) ==> out@[k].level
            == level_grid@[k / cols]@[k % cols]) by {
            let c = k % cols;
            let r = k / cols;
            lemma_coords_of_index(k, cols, rows);
            assert(before[k]@.id == territory_id_spec(c as nat, r as nat));
            // ids of earlier tiles differ
            assert forall|j: int| 0 <= j < k implies before[j].id@ != before[k].id@ by {
                lemma_coords_of_index(j, cols, rows);
                let cj = j % cols;
                let rj = j / cols;
                if before[j].id@ == before[k].id@ {
                    lemma_territory_id_injective(cj as nat, rj as nat, c as nat, r as nat);
                }
            }
            if c == hc && r == hr {
                if zone.contains(before[k].id@) {
                    let w = choose|w: int| 0 <= w < zone.len() && #[trigger] zone[w] == before[k].id@;
                    assert(is_zone_tile_id(zone[w], hc, hr, *world));
                    let (c2, r2) = choose|c2: int, r2: int|
                        0 <= c2 < world.cols && 0 <= r2 < world.rows && in_safe_zone(hc, hr, c2, r2)
                            && zone[w] == #[trigger] territory_id_spec(c2 as nat, r2 as nat);
                    lemma_territory_id_injective(c2 as nat, r2 as nat, c as nat, r as nat);
                }
                assert(!reset_target(before, k, zone));
            } else if in_safe_zone(hc, hr, c, r) {
                lemma_zone_cells_complete(hc, hr, cols, rows, c, r);
                let cells = zone_cells(hc, hr, cols, rows);
                let i = choose|i: int| 0 <= i < cells.len() && cells[i] == (c, r);
                assert(zone[i] == territory_id_spec(c as nat, r as nat));
                assert(zone.contains(before[k].id@));
                assert(reset_target(before, k, zone));
            } else {
                if zone.contains(before[k].id@) {
                    let w = choose|w: int| 0 <= w < zone.len() && #[trigger] zone[w] == before[k].id@;
                    assert(is_zone_tile_id(zone[w], hc, hr, *world));
                    let (c2, r2) = choose|c2: int, r2: int|
                        0 <= c2 < world.cols && 0 <= r2 < world.rows && in_safe_zone(hc, hr, c2, r2)
                            && zone[w] == #[trigger] territory_id_spec(c2 as nat, r2 as nat);
                    lemma_territory_id_injective(c2 as nat, r2 as nat, c as nat, r as nat);
                }
                assert(!reset_target(before, k, zone));
                assert(out@[k]@ == before[k]@);
            }
        }
        assert(grid_ok(level_grid@, rows, cols, 1, 9));
        if given_terrain_seed(*world, env_seed) is Some {
            assert(seed == given_terrain_seed(*world, env_seed)->Some_0);
            assert forall|k: int|
                0 <= k < out@.len() && !(k % cols == hc && k / cols == hr) && !in_safe_zone(hc, hr, k % cols, k / cols)
                    implies (#[trigger] out@[k]).level == level_grid_spec(cols, rows, seed)[k / cols][k % cols] by {
                lemma_coords_of_index(k, cols, rows);
                assert(levels(level_grid@)[k / cols] == level_grid@[k / cols]@);
            }
        }
    }
    out
}

/// Outside the home and its safe zone, tile `k` of `ts` has the level of its cell in the level
/// grid of `seed` (see [`level_grid_spec`]).
pub open spec fn seeded_map_levels(ts: Seq<Territory>, world: WorldConfig, seed: u64) -> bool {
    forall|k: int|
        0 <= k < ts.len() && !(k % (world.cols as int) == world.home_col && k / (world.cols as int) == world.home_row)
            && !in_safe_zone(world.home_col as int, world.home_row as int, k % (world.cols as int), k / (world.cols as int))
            ==> (#[trigger] ts[k]).level == level_grid_spec(world.cols as int, world.rows as int, seed)[k
            / (world.cols as int)][k % (world.cols as int)]
}

/// The terrain seed of a new map when it does not come from chance: the world's own seed, or
/// when that is 0 the one given from outside; `None` when both are missing and the seed is
/// drawn at random.
pub open spec fn given_terrain_seed(world: WorldConfig, env_seed: Option<u64>) -> Option<u64> {
    if world.terrain_seed != 0 {
        Some(world.terrain_seed)
    } else {
        env_seed
    }
}

} // verus!
