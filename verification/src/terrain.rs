//! Seeded terrain generation: base levels, clustering, mountains, rivers and deep patches.
use vstd::prelude::*;
use crate::rng::{
    below_u32_draw, rng_below_u32, rng_below_usize, rng_choose_cell, rng_ratio, rng_shuffle_cells, seeded_below_u32,
    seeded_rng, SeededRng,
};
use crate::terrain_gen::{
    base_grid, base_row, can_place_model, cluster_stepper, deep_stepper, grow_stepper, lay_river, levels,
    mountain_list, mountain_row, mountains_model, order_list, order_row, over_cells, push_open, river_options,
    river_stepper, rivers_model, same_count, seed_stepper, segment_cells, set_level, spread_list, spread_row,
    spread_stepper, sweep, sweep_row, GenState, level_grid_spec,
};

verus! {

/// River tiles.
pub const TERRAIN_LEVEL_RIVER: u8 = 4;

/// Alpine ring around mountains.
pub const TERRAIN_LEVEL_ALPINE: u8 = 5;

/// Mountain cores.
pub const TERRAIN_LEVEL_MOUNTAIN: u8 = 6;

/// Peril tiles.
pub const TERRAIN_LEVEL_PERIL: u8 = 7;

/// Demon-land tiles.
pub const TERRAIN_LEVEL_DEMON: u8 = 8;

/// Deep-land tiles (the rarest).
pub const TERRAIN_LEVEL_DEEP: u8 = 9;

/// A grid of `rows` rows of `cols` levels, every level within `lo..=hi`.
pub open spec fn grid_ok(g: Seq<Vec<u8>>, rows: int, cols: int, lo: int, hi: int) -> bool {
    &&& g.len() == rows
    &&& forall|r: int| 0 <= r < rows ==> (#[trigger] g[r])@.len() == cols
    &&& forall|r: int, c: int| 0 <= r < rows && 0 <= c < cols ==> lo <= #[trigger] g[r]@[c] <= hi
}

/// No cell holds level `v`.
pub open spec fn grid_avoids(g: Seq<Vec<u8>>, rows: int, cols: int, v: u8) -> bool {
    forall|r: int, c: int| 0 <= r < rows && 0 <= c < cols ==> #[trigger] g[r]@[c] != v
}

/// The base level a roll in `0..100` selects: plains 25%, hills 35%, forest 40%.
pub open spec fn base_level_spec(roll: u32) -> u8 {
    if roll < 25 {
        1
    } else if roll < 60 {
        2
    } else {
        3
    }
}

/// The base level a roll in `0..100` selects (cumulative weights 25 / 35 / 40).
pub fn base_level_for_roll(roll: u32) -> (level: u8)
    ensures
        level == base_level_spec(roll),
{
    let weights: [u32; 3] = [25, 35, 40];
    let mut acc: u32 = 0;
    let mut i: usize = 0;
    while i < 3
        invariant
            i <= 3,
            weights@ == seq![25u32, 35u32, 40u32],
            acc == if i == 0 { 0u32 } else if i == 1 { 25u32 } else if i == 2 { 60u32 } else { 100u32 },
            i >= 1 ==> roll >= 25,
            i >= 2 ==> roll >= 60,
        decreases 3 - i,
    {
        acc += weights[i];
        if roll < acc {
            return (i + 1) as u8;
        }
        i += 1;
    }
    3
}

/// Draws a base level 1..=3.
pub fn pick_base_level(rng: &mut SeededRng) -> (level: u8)
    ensures
        1 <= level <= 3,
        level == base_level_spec(seeded_below_u32(old(rng).seed(), old(rng).draws(), 100)),
        final(rng).seed() == old(rng).seed(),
        final(rng).draws() == old(rng).draws().push(below_u32_draw(100)),
{
    let roll = rng_below_u32(rng, 100);
    base_level_for_roll(roll)
}

/// A `rows` x `cols` grid of base levels 1..=3, drawn row by row.
pub fn fill_base_terrain(cols: usize, rows: usize, rng: &mut SeededRng) -> (g: Vec<Vec<u8>>)
    ensures
        grid_ok(g@, rows as int, cols as int, 1, 3),
        final(rng).seed() == old(rng).seed(),
        (levels(g@), final(rng).draws()) == base_grid(old(rng).seed(), old(rng).draws(), rows as int, cols as int),
{
    let ghost seed = rng.seed();
    let ghost d0 = rng.draws();
    let mut g: Vec<Vec<u8>> = Vec::new();
    let mut r: usize = 0;
    while r < rows
        invariant
            r <= rows,
            grid_ok(g@, r as int, cols as int, 1, 3),
            rng.seed() == seed,
            (levels(g@), rng.draws()) == base_grid(seed, d0, r as int, cols as int),
        decreases rows - r,
    {
        let ghost d1 = rng.draws();
        let mut line: Vec<u8> = Vec::new();
        let mut c: usize = 0;
        while c < cols
            invariant
                c <= cols,
                line@.len() == c,
                forall|k: int| 0 <= k < c ==> 1 <= #[trigger] line@[k] <= 3,
                rng.seed() == seed,
                (line@, rng.draws()) == base_row(seed, d1, c as int),
            decreases cols - c,
        {
            line.push(pick_base_level(rng));
            c += 1;
        }
        let ghost before = g@;
        g.push(line);
        proof {
            assert(levels(g@) =~= levels(before).push(line@));
        }
        r += 1;
    }
    g
}

/// The edge neighbours of `(row, col)` inside a `rows` x `cols` grid: up, down, left, right.
pub open spec fn neighbors4_spec(row: int, col: int, rows: int, cols: int) -> Seq<(usize, usize)> {
    let up = if row > 0 { seq![((row - 1) as usize, col as usize)] } else { Seq::empty() };
    let down = if row + 1 < rows { seq![((row + 1) as usize, col as usize)] } else { Seq::empty() };
    let left = if col > 0 { seq![(row as usize, (col - 1) as usize)] } else { Seq::empty() };
    let right = if col + 1 < cols { seq![(row as usize, (col + 1) as usize)] } else { Seq::empty() };
    up + down + left + right
}

/// Every neighbour lies in the grid and is an edge neighbour of the cell.
pub proof fn lemma_neighbors4_in_range(row: int, col: int, rows: int, cols: int)
    requires
        0 <= row < rows <= usize::MAX,
        0 <= col < cols <= usize::MAX,
    ensures
        forall|k: int|
            0 <= k < neighbors4_spec(row, col, rows, cols).len() ==> {
                let p = #[trigger] neighbors4_spec(row, col, rows, cols)[k];
                &&& (p.0 as int) < rows
                &&& (p.1 as int) < cols
                &&& crate::grid::abs(p.0 as int - row) + crate::grid::abs(p.1 as int - col) == 1
            },
{
    let up: Seq<(usize, usize)> = if row > 0 { seq![((row - 1) as usize, col as usize)] } else { Seq::empty() };
    let down: Seq<(usize, usize)> = if row + 1 < rows { seq![((row + 1) as usize, col as usize)] } else { Seq::empty() };
    let left: Seq<(usize, usize)> = if col > 0 { seq![(row as usize, (col - 1) as usize)] } else { Seq::empty() };
    let right: Seq<(usize, usize)> = if col + 1 < cols { seq![(row as usize, (col + 1) as usize)] } else { Seq::empty() };
    let s = neighbors4_spec(row, col, rows, cols);
    assert(s == up + down + left + right);
    assert forall|k: int| 0 <= k < s.len() implies {
        let p = #[trigger] s[k];
        &&& (p.0 as int) < rows
        &&& (p.1 as int) < cols
        &&& crate::grid::abs(p.0 as int - row) + crate::grid::abs(p.1 as int - col) == 1
    } by {
        let ud = up + down;
        let udl = ud + left;
        if k < udl.len() {
            if k < ud.len() {
                if k < up.len() {
                    assert(s[k] == up[k]);
                } else {
                    assert(s[k] == down[k - up.len()]);
                }
            } else {
                assert(s[k] == left[k - ud.len()]);
            }
        } else {
            assert(s[k] == right[k - udl.len()]);
        }
    }
}

/// The edge neighbours of `(row, col)` inside the grid, in the order up, down, left, right.
pub fn neighbors4(row: usize, col: usize, rows: usize, cols: usize) -> (out: Vec<(usize, usize)>)
    requires
        row < rows,
        col < cols,
    ensures
        out@ == neighbors4_spec(row as int, col as int, rows as int, cols as int),
        forall|k: int|
            0 <= k < out@.len() ==> (#[trigger] out@[k]).0 < rows && out@[k].1 < cols,
{
    let mut out: Vec<(usize, usize)> = Vec::new();
    if row > 0 {
        out.push((row - 1, col));
    }
    if row + 1 < rows {
        out.push((row + 1, col));
    }
    if col > 0 {
        out.push((row, col - 1));
    }
    if col + 1 < cols {
        out.push((row, col + 1));
    }
    proof {
        assert(out@ =~= neighbors4_spec(row as int, col as int, rows as int, cols as int));
        lemma_neighbors4_in_range(row as int, col as int, rows as int, cols as int);
    }
    out
}

/// Copies a grid row by row.
pub fn clone_grid(g: &Vec<Vec<u8>>) -> (out: Vec<Vec<u8>>)
    ensures
        out@.len() == g@.len(),
        forall|r: int| 0 <= r < g@.len() ==> (#[trigger] out@[r])@ == g@[r]@,
{
    let mut out: Vec<Vec<u8>> = Vec::new();
    let mut r: usize = 0;
    while r < g.len()
        invariant
            r <= g@.len(),
            out@.len() == r,
            forall|k: int| 0 <= k < r ==> (#[trigger] out@[k])@ == g@[k]@,
        decreases g.len() - r,
    {
        let line = &g[r];
        let mut copy: Vec<u8> = Vec::new();
        let mut c: usize = 0;
        while c < line.len()
            invariant
                c <= line@.len(),
                copy@ == line@.take(c as int),
            decreases line.len() - c,
        {
            copy.push(line[c]);
            c += 1;
            proof {
                assert(copy@ =~= line@.take(c as int));
            }
        }
        proof {
            assert(line@.take(line@.len() as int) =~= line@);
        }
        out.push(copy);
        r += 1;
    }
    out
}

/// Writes one cell.
pub fn set_cell(g: &mut Vec<Vec<u8>>, row: usize, col: usize, v: u8)
    requires
        row < old(g)@.len(),
        col < old(g)@[row as int]@.len(),
    ensures
        final(g)@.len() == old(g)@.len(),
        forall|r: int| 0 <= r < old(g)@.len() && r != row ==> (#[trigger] final(g)@[r])@ == old(g)@[r]@,
        final(g)@[row as int]@ == old(g)@[row as int]@.update(col as int, v),
        levels(final(g)@) == set_level(levels(old(g)@), row as int, col as int, v),
{
    g[row].set(col, v);
    proof {
        assert(levels(g@) =~= set_level(levels(old(g)@), row as int, col as int, v));
    }
}

/// Smooths the base terrain: a cell with fewer than two same-level neighbours takes, with
/// chance 25%, the level of a random neighbour (read from the unsmoothed grid).
pub fn cluster_base_terrain(grid: &Vec<Vec<u8>>, cols: usize, rows: usize, rng: &mut SeededRng) -> (next: Vec<Vec<u8>>)
    requires
        grid_ok(grid@, rows as int, cols as int, 1, 3),
    ensures
        grid_ok(next@, rows as int, cols as int, 1, 3),
        final(rng).seed() == old(rng).seed(),
        (levels(next@), final(rng).draws()) == sweep(
            (levels(grid@), old(rng).draws()),
            rows as int,
            cols as int,
            cluster_stepper(old(rng).seed(), levels(grid@), rows as int, cols as int),
        ),
{
    let ghost seed = rng.seed();
    let ghost b = levels(grid@);
    let ghost st0: GenState = (b, rng.draws());
    let ghost step = cluster_stepper(seed, b, rows as int, cols as int);
    let mut next = clone_grid(grid);
    proof {
        assert(levels(next@) =~= b);
    }
    let mut row: usize = 0;
    while row < rows
        invariant
            row <= rows,
            grid_ok(grid@, rows as int, cols as int, 1, 3),
            grid_ok(next@, rows as int, cols as int, 1, 3),
            b == levels(grid@),
            step == cluster_stepper(seed, b, rows as int, cols as int),
            rng.seed() == seed,
            (levels(next@), rng.draws()) == sweep(st0, row as int, cols as int, step),
        decreases rows - row,
    {
        let ghost row_start = sweep(st0, row as int, cols as int, step);
        let mut col: usize = 0;
        while col < cols
            invariant
                col <= cols,
                row < rows,
                grid_ok(grid@, rows as int, cols as int, 1, 3),
                grid_ok(next@, rows as int, cols as int, 1, 3),
                b == levels(grid@),
                step == cluster_stepper(seed, b, rows as int, cols as int),
                rng.seed() == seed,
                row_start == sweep(st0, row as int, cols as int, step),
                (levels(next@), rng.draws()) == sweep_row(row_start, row as int, col as int, step),
            decreases cols - col,
        {
            let ghost st: GenState = (levels(next@), rng.draws());
            let level = grid[row][col];
            let nbrs = neighbors4(row, col, rows, cols);
            let mut same: u8 = 0;
            let mut k: usize = 0;
            while k < nbrs.len()
                invariant
                    k <= nbrs@.len(),
                    nbrs@.len() <= 4,
                    same <= k,
                    forall|j: int| 0 <= j < nbrs@.len() ==> (#[trigger] nbrs@[j]).0 < rows && nbrs@[j].1 < cols,
                    grid_ok(grid@, rows as int, cols as int, 1, 3),
                    b == levels(grid@),
                    same == same_count(b, nbrs@, level, k as int),
                decreases nbrs.len() - k,
            {
                let (nr, nc) = nbrs[k];
                proof {
                    assert(b[nr as int][nc as int] == grid@[nr as int]@[nc as int]);
                }
                if grid[nr][nc] == level {
                    same += 1;
                }
                k += 1;
            }
            proof {
                assert(b[row as int][col as int] == level);
                assert(nbrs@ == neighbors4_spec(row as int, col as int, rows as int, cols as int));
            }
            if same >= 2 || !rng_ratio(rng, 25, 100) {
                col += 1;
                continue;
            }
            let neighbors = neighbors4(row, col, rows, cols);
            if let Some((nr, nc)) = rng_choose_cell(rng, &neighbors) {
                proof {
                    let k = choose|k: int| 0 <= k < neighbors@.len() && neighbors@[k] == (nr, nc);
                    assert(neighbors@[k].0 < rows && neighbors@[k].1 < cols);
                }
                let v = grid[nr][nc];
                proof {
                    assert(b[nr as int][nc as int] == v);
                }
                let ghost before = next@;
                set_cell(&mut next, row, col, v);
                proof {
                    assert forall|r: int| 0 <= r < rows implies (#[trigger] next@[r])@.len() == cols by {
                        if r != row {
                            assert(next@[r]@ == before[r]@);
                        }
                    }
                    assert forall|r: int, c: int| 0 <= r < rows && 0 <= c < cols implies 1 <= #[trigger] next@[r]@[c] <= 3 by {
                        if r != row {
                            assert(next@[r]@ == before[r]@);
                        } else if c != col {
                            assert(next@[r]@[c] == before[r]@[c]);
                        }
                    }
                }
            }
            col += 1;
        }
        row += 1;
    }
    next
}


/// Writes level `v` into one cell of a well-formed grid; every other cell keeps its level.
pub fn put_level(g: &mut Vec<Vec<u8>>, rows: usize, cols: usize, row: usize, col: usize, v: u8, lo: u8, hi: u8)
    requires
        grid_ok(old(g)@, rows as int, cols as int, lo as int, hi as int),
        row < rows,
        col < cols,
        lo <= v <= hi,
    ensures
        grid_ok(final(g)@, rows as int, cols as int, lo as int, hi as int),
        final(g)@[row as int]@[col as int] == v,
        forall|r: int, c: int|
            0 <= r < rows && 0 <= c < cols && (r != row || c != col) ==> #[trigger] final(g)@[r]@[c]
                == old(g)@[r]@[c],
        levels(final(g)@) == set_level(levels(old(g)@), row as int, col as int, v),
{
    let ghost before = g@;
    set_cell(g, row, col, v);
    proof {
        assert forall|r: int| 0 <= r < rows implies (#[trigger] g@[r])@.len() == cols by {
            if r != row {
                assert(g@[r]@ == before[r]@);
            }
        }
        assert forall|r: int, c: int| 0 <= r < rows && 0 <= c < cols && (r != row || c != col) implies #[trigger] g@[r]@[c]
            == before[r]@[c] by {
            if r != row {
                assert(g@[r]@ == before[r]@);
            }
        }
        assert forall|r: int, c: int| 0 <= r < rows && 0 <= c < cols implies lo <= #[trigger] g@[r]@[c] <= hi by {
            if r != row || c != col {
                assert(g@[r]@[c] == before[r]@[c]);
            }
        }
    }
}

/// The level is one that mountains do not grow into: mountain, alpine or river.
pub open spec fn blocks_mountain(level: u8) -> bool {
    level == TERRAIN_LEVEL_MOUNTAIN || level == TERRAIN_LEVEL_ALPINE || level == TERRAIN_LEVEL_RIVER
}

/// Levels that seed mountains: forest (and river).
pub open spec fn is_forest(level: u8) -> bool {
    level == 3 || level == 4
}

/// Cell `(r, c)` is an edge neighbour of a forest cell of `g`.
pub open spec fn near_forest(g: Seq<Vec<u8>>, rows: int, cols: int, r: int, c: int) -> bool {
    exists|r2: int, c2: int|
        0 <= r2 < rows && 0 <= c2 < cols && is_forest(g[r2]@[c2])
            && #[trigger] neighbors4_spec(r2, c2, rows, cols).contains((r as usize, c as usize))
}

/// A cell of the mountain phase, from grid `g` before it: kept, or turned alpine or mountain
/// when it is a forest cell or borders one.
pub open spec fn mountain_step(g: Seq<Vec<u8>>, rows: int, cols: int, r: int, c: int, after: u8) -> bool {
    ||| after == g[r]@[c]
    ||| (after == TERRAIN_LEVEL_ALPINE || after == TERRAIN_LEVEL_MOUNTAIN) && (is_forest(g[r]@[c]) || near_forest(
        g,
        rows,
        cols,
        r,
        c,
    ))
}

/// Every mountain of `g` stands on a forest cell of `orig`.
pub open spec fn mountains_on_forest(orig: Seq<Vec<u8>>, g: Seq<Vec<u8>>, rows: int, cols: int) -> bool {
    forall|r: int, c: int|
        0 <= r < rows && 0 <= c < cols && #[trigger] g[r]@[c] == TERRAIN_LEVEL_MOUNTAIN ==> is_forest(orig[r]@[c])
}

/// Every cell of `g` is a mountain step from `orig` (see [`mountain_step`]).
pub open spec fn mountain_steps(orig: Seq<Vec<u8>>, g: Seq<Vec<u8>>, rows: int, cols: int) -> bool {
    forall|r: int, c: int| 0 <= r < rows && 0 <= c < cols ==> mountain_step(orig, rows, cols, r, c, #[trigger] g[r]@[c])
}

/// Mountain phase: forest (and river) tiles seed mountains with chance 2%, the open neighbours
/// of mountains turn alpine with chance 45%, then each mountain grows into a random open
/// neighbour with chance 40%.
pub fn spread_mountains(grid: &mut Vec<Vec<u8>>, cols: usize, rows: usize, rng: &mut SeededRng)
    requires
        grid_ok(old(grid)@, rows as int, cols as int, 1, 3),
    ensures
        grid_ok(final(grid)@, rows as int, cols as int, 1, 6),
        grid_avoids(final(grid)@, rows as int, cols as int, TERRAIN_LEVEL_RIVER),
        forall|r: int, c: int|
            0 <= r < rows && 0 <= c < cols ==> mountain_step(
                old(grid)@,
                rows as int,
                cols as int,
                r,
                c,
                #[trigger] final(grid)@[r]@[c],
            ),
        final(rng).seed() == old(rng).seed(),
        (levels(final(grid)@), final(rng).draws()) == mountains_model(
            old(rng).seed(),
            rows as int,
            cols as int,
            (levels(old(grid)@), old(rng).draws()),
        ),
{
    let ghost orig = grid@;
    let ghost seed = rng.seed();
    let ghost st0: GenState = (levels(grid@), rng.draws());
    let ghost step1 = seed_stepper(seed);
    proof {
        assert(grid_ok(grid@, rows as int, cols as int, 1, 6));
    }
    let mut row: usize = 0;
    while row < rows
        invariant
            row <= rows,
            grid_ok(grid@, rows as int, cols as int, 1, 6),
            grid_avoids(grid@, rows as int, cols as int, TERRAIN_LEVEL_RIVER),
            grid_ok(orig, rows as int, cols as int, 1, 3),
            mountain_steps(orig, grid@, rows as int, cols as int),
            mountains_on_forest(orig, grid@, rows as int, cols as int),
            step1 == seed_stepper(seed),
            rng.seed() == seed,
            (levels(grid@), rng.draws()) == sweep(st0, row as int, cols as int, step1),
        decreases rows - row,
    {
        let ghost row_start = sweep(st0, row as int, cols as int, step1);
        let mut col: usize = 0;
        while col < cols
            invariant
                col <= cols,
                row < rows,
                grid_ok(grid@, rows as int, cols as int, 1, 6),
                grid_avoids(grid@, rows as int, cols as int, TERRAIN_LEVEL_RIVER),
                grid_ok(orig, rows as int, cols as int, 1, 3),
                mountain_steps(orig, grid@, rows as int, cols as int),
                mountains_on_forest(orig, grid@, rows as int, cols as int),
                step1 == seed_stepper(seed),
                rng.seed() == seed,
                row_start == sweep(st0, row as int, cols as int, step1),
                (levels(grid@), rng.draws()) == sweep_row(row_start, row as int, col as int, step1),
            decreases cols - col,
        {
            let level = grid[row][col];
            proof {
                assert(levels(grid@)[row as int][col as int] == level);
            }
            if (level == 3 || level == 4) && rng_ratio(rng, 20, 1000) {
                let ghost before = grid@;
                proof {
                    assert(mountain_step(orig, rows as int, cols as int, row as int, col as int, before[row as int]@[col as int]));
                    assert(is_forest(orig[row as int]@[col as int]));
                }
                put_level(grid, rows, cols, row, col, TERRAIN_LEVEL_MOUNTAIN, 1, 6);
                proof {
                    assert forall|r: int, c: int| 0 <= r < rows && 0 <= c < cols implies mountain_step(
                        orig,
                        rows as int,
                        cols as int,
                        r,
                        c,
                        #[trigger] grid@[r]@[c],
                    ) && (grid@[r]@[c] == TERRAIN_LEVEL_MOUNTAIN ==> is_forest(orig[r]@[c])) by {
                        if r != row || c != col {
                            assert(grid@[r]@[c] == before[r]@[c]);
                        }
                    }
                }
            }
            col += 1;
        }
        row += 1;
    }
    let mut to_spread: Vec<(usize, usize)> = Vec::new();
    let ghost g1 = grid@;
    let ghost st1: GenState = (levels(grid@), rng.draws());
    proof {
        assert(st1 == sweep(st0, rows as int, cols as int, step1));
    }
    let mut row: usize = 0;
    while row < rows
        invariant
            row <= rows,
            rng.seed() == seed,
            rng.draws() == st1.1,
            st1.0 == levels(g1),
            to_spread@ == spread_list(st1.0, rows as int, cols as int, row as int),
            grid_ok(grid@, rows as int, cols as int, 1, 6),
            forall|k: int| 0 <= k < to_spread@.len() ==> (#[trigger] to_spread@[k]).0 < rows && to_spread@[k].1 < cols,
            grid@ == g1,
            mountains_on_forest(orig, grid@, rows as int, cols as int),
            forall|k: int|
                0 <= k < to_spread@.len() ==> near_forest(orig, rows as int, cols as int, (#[trigger] to_spread@[k]).0 as int, to_spread@[k].1 as int),
        decreases rows - row,
    {
        let ghost list_start = spread_list(st1.0, rows as int, cols as int, row as int);
        let mut col: usize = 0;
        while col < cols
            invariant
                col <= cols,
                row < rows,
                rng.seed() == seed,
                rng.draws() == st1.1,
                st1.0 == levels(g1),
                list_start == spread_list(st1.0, rows as int, cols as int, row as int),
                to_spread@ == spread_row(st1.0, rows as int, cols as int, row as int, col as int, list_start),
                grid_ok(grid@, rows as int, cols as int, 1, 6),
                forall|k: int| 0 <= k < to_spread@.len() ==> (#[trigger] to_spread@[k]).0 < rows && to_spread@[k].1 < cols,
                grid@ == g1,
                mountains_on_forest(orig, grid@, rows as int, cols as int),
                forall|k: int|
                    0 <= k < to_spread@.len() ==> near_forest(orig, rows as int, cols as int, (#[trigger] to_spread@[k]).0 as int, to_spread@[k].1 as int),
            decreases cols - col,
        {
            proof {
                assert(st1.0[row as int][col as int] == grid@[row as int]@[col as int]);
            }
            if grid[row][col] == TERRAIN_LEVEL_MOUNTAIN {
                proof {
                    assert(is_forest(orig[row as int]@[col as int]));
                }
                let nbrs = neighbors4(row, col, rows, cols);
                let ghost acc = to_spread@;
                let mut k: usize = 0;
                while k < nbrs.len()
                    invariant
                        k <= nbrs@.len(),
                        st1.0 == levels(g1),
                        grid@ == g1,
                        to_spread@ == push_open(st1.0, nbrs@, k as int, acc),
                        forall|j: int| 0 <= j < nbrs@.len() ==> (#[trigger] nbrs@[j]).0 < rows && nbrs@[j].1 < cols,
                        grid_ok(grid@, rows as int, cols as int, 1, 6),
                        forall|j: int| 0 <= j < to_spread@.len() ==> (#[trigger] to_spread@[j]).0 < rows && to_spread@[j].1 < cols,
                        nbrs@ == neighbors4_spec(row as int, col as int, rows as int, cols as int),
                        row < rows,
                        col < cols,
                        is_forest(orig[row as int]@[col as int]),
                        forall|j: int|
                            0 <= j < to_spread@.len() ==> near_forest(orig, rows as int, cols as int, (#[trigger] to_spread@[j]).0 as int, to_spread@[j].1 as int),
                    decreases nbrs.len() - k,
                {
                    let (nr, nc) = nbrs[k];
                    let neighbor = grid[nr][nc];
                    proof {
                        assert(st1.0[nr as int][nc as int] == neighbor);
                    }
                    if neighbor != TERRAIN_LEVEL_MOUNTAIN && neighbor != TERRAIN_LEVEL_ALPINE
                        && neighbor != TERRAIN_LEVEL_RIVER {
                        proof {
                            assert(neighbors4_spec(row as int, col as int, rows as int, cols as int).contains((nr, nc))) by {
                                assert(nbrs@[k as int] == (nr, nc));
                            }
                            assert(near_forest(orig, rows as int, cols as int, nr as int, nc as int));
                        }
                        to_spread.push((nr, nc));
                    }
                    k += 1;
                }
            }
            col += 1;
        }
        row += 1;
    }
    let ghost spread_cells = to_spread@;
    let ghost step2 = spread_stepper(seed);
    proof {
        assert(spread_cells == spread_list(st1.0, rows as int, cols as int, rows as int));
    }
    let mut k: usize = 0;
    while k < to_spread.len()
        invariant
            k <= to_spread@.len(),
            spread_cells == to_spread@,
            step2 == spread_stepper(seed),
            rng.seed() == seed,
            (levels(grid@), rng.draws()) == over_cells(st1, spread_cells, k as int, step2),
            forall|j: int| 0 <= j < to_spread@.len() ==> (#[trigger] to_spread@[j]).0 < rows && to_spread@[j].1 < cols,
            grid_ok(grid@, rows as int, cols as int, 1, 6),
            grid_avoids(grid@, rows as int, cols as int, TERRAIN_LEVEL_RIVER),
            mountain_steps(orig, grid@, rows as int, cols as int),
            mountains_on_forest(orig, grid@, rows as int, cols as int),
            forall|j: int|
                0 <= j < to_spread@.len() ==> near_forest(orig, rows as int, cols as int, (#[trigger] to_spread@[j]).0 as int, to_spread@[j].1 as int),
        decreases to_spread.len() - k,
    {
        let (r, c) = to_spread[k];
        let level = grid[r][c];
        proof {
            assert(levels(grid@)[r as int][c as int] == level);
            assert(spread_cells[k as int] == (r, c));
        }
        if level != TERRAIN_LEVEL_MOUNTAIN && level != TERRAIN_LEVEL_ALPINE && level != TERRAIN_LEVEL_RIVER
            && rng_ratio(rng, 45, 100) {
            let ghost before = grid@;
            proof {
                assert(near_forest(orig, rows as int, cols as int, r as int, c as int)) by {
                    assert(to_spread@[k as int] == (r, c));
                }
            }
            put_level(grid, rows, cols, r, c, TERRAIN_LEVEL_ALPINE, 1, 6);
            proof {
                assert forall|rr: int, cc: int| 0 <= rr < rows && 0 <= cc < cols implies mountain_step(
                    orig,
                    rows as int,
                    cols as int,
                    rr,
                    cc,
                    #[trigger] grid@[rr]@[cc],
                ) && (grid@[rr]@[cc] == TERRAIN_LEVEL_MOUNTAIN ==> is_forest(orig[rr]@[cc])) by {
                    if rr != r || cc != c {
                        assert(grid@[rr]@[cc] == before[rr]@[cc]);
                    }
                }
            }
        }
        k += 1;
    }
    let mut mountains: Vec<(usize, usize)> = Vec::new();
    let ghost g2 = grid@;
    let ghost st2: GenState = (levels(grid@), rng.draws());
    proof {
        assert(st2 == over_cells(st1, spread_cells, spread_cells.len() as int, step2));
    }
    let mut row: usize = 0;
    while row < rows
        invariant
            row <= rows,
            rng.seed() == seed,
            rng.draws() == st2.1,
            st2.0 == levels(g2),
            mountains@ == mountain_list(st2.0, cols as int, row as int),
            grid_ok(grid@, rows as int, cols as int, 1, 6),
            forall|k: int| 0 <= k < mountains@.len() ==> (#[trigger] mountains@[k]).0 < rows && mountains@[k].1 < cols,
            grid@ == g2,
            mountains_on_forest(orig, grid@, rows as int, cols as int),
            forall|k: int| 0 <= k < mountains@.len() ==> is_forest(orig[(#[trigger] mountains@[k]).0 as int]@[mountains@[k].1 as int]),
        decreases rows - row,
    {
        let ghost list_start = mountain_list(st2.0, cols as int, row as int);
        let mut col: usize = 0;
        while col < cols
            invariant
                col <= cols,
                row < rows,
                rng.seed() == seed,
                rng.draws() == st2.1,
                st2.0 == levels(g2),
                list_start == mountain_list(st2.0, cols as int, row as int),
                mountains@ == mountain_row(st2.0, row as int, col as int, list_start),
                grid_ok(grid@, rows as int, cols as int, 1, 6),
                forall|k: int| 0 <= k < mountains@.len() ==> (#[trigger] mountains@[k]).0 < rows && mountains@[k].1 < cols,
                grid@ == g2,
                mountains_on_forest(orig, grid@, rows as int, cols as int),
                forall|k: int| 0 <= k < mountains@.len() ==> is_forest(orig[(#[trigger] mountains@[k]).0 as int]@[mountains@[k].1 as int]),
            decreases cols - col,
        {
            proof {
                assert(st2.0[row as int][col as int] == grid@[row as int]@[col as int]);
            }
            if grid[row][col] == TERRAIN_LEVEL_MOUNTAIN {
                mountains.push((row, col));
            }
            col += 1;
        }
        row += 1;
    }
    let ghost mountain_cells = mountains@;
    let ghost step3 = grow_stepper(seed, rows as int, cols as int);
    proof {
        assert(mountain_cells == mountain_list(st2.0, cols as int, rows as int));
    }
    let mut k: usize = 0;
    while k < mountains.len()
        invariant
            k <= mountains@.len(),
            mountain_cells == mountains@,
            step3 == grow_stepper(seed, rows as int, cols as int),
            rng.seed() == seed,
            (levels(grid@), rng.draws()) == over_cells(st2, mountain_cells, k as int, step3),
            forall|j: int| 0 <= j < mountains@.len() ==> (#[trigger] mountains@[j]).0 < rows && mountains@[j].1 < cols,
            grid_ok(grid@, rows as int, cols as int, 1, 6),
            grid_avoids(grid@, rows as int, cols as int, TERRAIN_LEVEL_RIVER),
            mountain_steps(orig, grid@, rows as int, cols as int),
            forall|j: int| 0 <= j < mountains@.len() ==> is_forest(orig[(#[trigger] mountains@[j]).0 as int]@[mountains@[j].1 as int]),
        decreases mountains.len() - k,
    {
        let (r, c) = mountains[k];
        proof {
            assert(is_forest(orig[r as int]@[c as int])) by {
                assert(mountains@[k as int] == (r, c));
            }
        }
        proof {
            assert(mountain_cells[k as int] == (r, c));
        }
        if rng_ratio(rng, 40, 100) {
            let nbrs = neighbors4(r, c, rows, cols);
            let mut candidates: Vec<(usize, usize)> = Vec::new();
            let mut j: usize = 0;
            while j < nbrs.len()
                invariant
                    j <= nbrs@.len(),
                    candidates@ == push_open(levels(grid@), nbrs@, j as int, Seq::empty()),
                    forall|i: int| 0 <= i < nbrs@.len() ==> (#[trigger] nbrs@[i]).0 < rows && nbrs@[i].1 < cols,
                    forall|i: int| 0 <= i < candidates@.len() ==> (#[trigger] candidates@[i]).0 < rows && candidates@[i].1 < cols,
                    grid_ok(grid@, rows as int, cols as int, 1, 6),
                    nbrs@ == neighbors4_spec(r as int, c as int, rows as int, cols as int),
                    r < rows,
                    c < cols,
                    is_forest(orig[r as int]@[c as int]),
                    forall|i: int|
                        0 <= i < candidates@.len() ==> near_forest(orig, rows as int, cols as int, (#[trigger] candidates@[i]).0 as int, candidates@[i].1 as int),
                decreases nbrs.len() - j,
            {
                let (nr, nc) = nbrs[j];
                let lv = grid[nr][nc];
                proof {
                    assert(levels(grid@)[nr as int][nc as int] == lv);
                }
                if lv != TERRAIN_LEVEL_MOUNTAIN && lv != TERRAIN_LEVEL_ALPINE && lv != TERRAIN_LEVEL_RIVER {
                    proof {
                        assert(neighbors4_spec(r as int, c as int, rows as int, cols as int).contains((nr, nc))) by {
                            assert(nbrs@[j as int] == (nr, nc));
                        }
                        assert(near_forest(orig, rows as int, cols as int, nr as int, nc as int));
                    }
                    candidates.push((nr, nc));
                }
                j += 1;
            }
            if let Some((nr, nc)) = rng_choose_cell(rng, &candidates) {
                proof {
                    let i = choose|i: int| 0 <= i < candidates@.len() && candidates@[i] == (nr, nc);
                    assert(candidates@[i].0 < rows && candidates@[i].1 < cols);
                    assert(near_forest(orig, rows as int, cols as int, nr as int, nc as int)) by {
                        assert(candidates@[i] == (nr, nc));
                    }
                }
                let ghost before = grid@;
                put_level(grid, rows, cols, nr, nc, TERRAIN_LEVEL_MOUNTAIN, 1, 6);
                proof {
                    assert forall|rr: int, cc: int| 0 <= rr < rows && 0 <= cc < cols implies mountain_step(
                        orig,
                        rows as int,
                        cols as int,
                        rr,
                        cc,
                        #[trigger] grid@[rr]@[cc],
                    ) by {
                        if rr != nr || cc != nc {
                            assert(grid@[rr]@[cc] == before[rr]@[cc]);
                        }
                    }
                }
            }
        }
        k += 1;
    }
}

/// The three cells of a river segment starting at `(start_col, start_row)` in direction
/// `(dc, dr)`, as `(col, row)` pairs.
pub fn river_segment_cells(start_col: usize, start_row: usize, dc: i32, dr: i32) -> (cells: [(usize, usize); 3])
    requires
        -1 <= dc <= 1,
        -1 <= dr <= 1,
        start_col < 65536,
        start_row < 65536,
        start_col + 2 * dc >= 0,
        start_row + 2 * dr >= 0,
    ensures
        cells@ == seq![
            (start_col, start_row),
            ((start_col + dc) as usize, (start_row + dr) as usize),
            ((start_col + 2 * dc) as usize, (start_row + 2 * dr) as usize),
        ],
{
    let c0 = start_col as i32;
    let r0 = start_row as i32;
    let cells = [
        (start_col, start_row),
        ((c0 + dc) as usize, (r0 + dr) as usize),
        ((c0 + dc * 2) as usize, (r0 + dr * 2) as usize),
    ];
    proof {
        assert(cells@ =~= seq![
            (start_col, start_row),
            ((start_col + dc) as usize, (start_row + dr) as usize),
            ((start_col + 2 * dc) as usize, (start_row + 2 * dr) as usize),
        ]);
    }
    cells
}

/// A river segment may go on these cells: none is mountain, alpine or river, and none
/// touches an existing river.
pub open spec fn can_place_segment_spec(g: Seq<Vec<u8>>, cells: Seq<(usize, usize)>, rows: int, cols: int) -> bool {
    forall|k: int| 0 <= k < cells.len() ==> {
        let (c, r) = #[trigger] cells[k];
        &&& !blocks_mountain(g[r as int]@[c as int])
        &&& forall|j: int| 0 <= j < neighbors4_spec(r as int, c as int, rows, cols).len() ==> {
            let (nr, nc) = #[trigger] neighbors4_spec(r as int, c as int, rows, cols)[j];
            g[nr as int]@[nc as int] != TERRAIN_LEVEL_RIVER
        }
    }
}

/// The placement test reads the same on a grid and on its levels.
proof fn lemma_can_place_levels(g: Seq<Vec<u8>>, cells: Seq<(usize, usize)>, rows: int, cols: int)
    requires
        grid_ok(g, rows, cols, 0, 255),
        rows <= usize::MAX,
        cols <= usize::MAX,
        forall|k: int| 0 <= k < cells.len() ==> (#[trigger] cells[k]).1 < rows && cells[k].0 < cols,
    ensures
        can_place_segment_spec(g, cells, rows, cols) == can_place_model(levels(g), cells, rows, cols),
{
    let lg = levels(g);
    assert forall|k: int| 0 <= k < cells.len() implies ({
        let (c, r) = #[trigger] cells[k];
        &&& !blocks_mountain(g[r as int]@[c as int])
        &&& forall|j: int| 0 <= j < neighbors4_spec(r as int, c as int, rows, cols).len() ==> {
            let (nr, nc) = #[trigger] neighbors4_spec(r as int, c as int, rows, cols)[j];
            g[nr as int]@[nc as int] != TERRAIN_LEVEL_RIVER
        }
    } <==> {
        let (c, r) = cells[k];
        &&& !blocks_mountain(lg[r as int][c as int])
        &&& forall|j: int| 0 <= j < neighbors4_spec(r as int, c as int, rows, cols).len() ==> {
            let (nr, nc) = #[trigger] neighbors4_spec(r as int, c as int, rows, cols)[j];
            lg[nr as int][nc as int] != TERRAIN_LEVEL_RIVER
        }
    }) by {
        let (c, r) = cells[k];
        lemma_neighbors4_in_range(r as int, c as int, rows, cols);
        assert(lg[r as int] == g[r as int]@);
        assert forall|j: int| 0 <= j < neighbors4_spec(r as int, c as int, rows, cols).len() implies {
            let (nr, nc) = #[trigger] neighbors4_spec(r as int, c as int, rows, cols)[j];
            lg[nr as int][nc as int] == g[nr as int]@[nc as int]
        } by {
            let (nr, nc) = neighbors4_spec(r as int, c as int, rows, cols)[j];
            assert(lg[nr as int] == g[nr as int]@);
        }
    }
}

/// Whether a river segment may be placed on `cells` (see [`can_place_segment_spec`]).
pub fn can_place_river_segment(grid: &Vec<Vec<u8>>, cells: &[(usize, usize); 3], rows: usize, cols: usize) -> (ok: bool)
    requires
        grid_ok(grid@, rows as int, cols as int, 0, 255),
        forall|k: int| 0 <= k < 3 ==> (#[trigger] cells@[k]).1 < rows && cells@[k].0 < cols,
    ensures
        ok == can_place_segment_spec(grid@, cells@, rows as int, cols as int),
{
    let mut k: usize = 0;
    while k < 3
        invariant
            k <= 3,
            grid_ok(grid@, rows as int, cols as int, 0, 255),
            forall|i: int| 0 <= i < 3 ==> (#[trigger] cells@[i]).1 < rows && cells@[i].0 < cols,
            forall|i: int| 0 <= i < k ==> {
                let (c, r) = #[trigger] cells@[i];
                &&& !blocks_mountain(grid@[r as int]@[c as int])
                &&& forall|j: int| 0 <= j < neighbors4_spec(r as int, c as int, rows as int, cols as int).len() ==> {
                    let (nr, nc) = #[trigger] neighbors4_spec(r as int, c as int, rows as int, cols as int)[j];
                    grid@[nr as int]@[nc as int] != TERRAIN_LEVEL_RIVER
                }
            },
        decreases 3 - k,
    {
        let (c, r) = cells[k];
        let lv = grid[r][c];
        if lv == TERRAIN_LEVEL_MOUNTAIN || lv == TERRAIN_LEVEL_ALPINE || lv == TERRAIN_LEVEL_RIVER {
            return false;
        }
        let nbrs = neighbors4(r, c, rows, cols);
        let mut j: usize = 0;
        while j < nbrs.len()
            invariant
                j <= nbrs@.len(),
                k < 3,
                cells@[k as int] == (c, r),
                nbrs@ == neighbors4_spec(r as int, c as int, rows as int, cols as int),
                forall|i: int| 0 <= i < nbrs@.len() ==> (#[trigger] nbrs@[i]).0 < rows && nbrs@[i].1 < cols,
                grid_ok(grid@, rows as int, cols as int, 0, 255),
                forall|i: int| 0 <= i < j ==> {
                    let (nr, nc) = #[trigger] nbrs@[i];
                    grid@[nr as int]@[nc as int] != TERRAIN_LEVEL_RIVER
                },
            decreases nbrs.len() - j,
        {
            let (nr, nc) = nbrs[j];
            if grid[nr][nc] == TERRAIN_LEVEL_RIVER {
                proof {
                    let ns = neighbors4_spec(r as int, c as int, rows as int, cols as int);
                    assert(ns[j as int] == (nr, nc));
                    assert(cells@[k as int] == (c, r));
                    assert(!(forall|jj: int| 0 <= jj < ns.len() ==> {
                        let (nr2, nc2) = #[trigger] ns[jj];
                        grid@[nr2 as int]@[nc2 as int] != TERRAIN_LEVEL_RIVER
                    }));
                }
                return false;
            }
            j += 1;
        }
        k += 1;
    }
    true
}


/// Cell `(r, c)` lies in the grid and is river.
pub open spec fn river_at(g: Seq<Vec<u8>>, rows: int, cols: int, r: int, c: int) -> bool {
    0 <= r < rows && 0 <= c < cols && g[r]@[c] == TERRAIN_LEVEL_RIVER
}

/// `(r, c)` is one of the three cells of the straight segment from `(sr, sc)` along `(dr, dc)`.
pub open spec fn on_segment(sr: int, sc: int, dr: int, dc: int, r: int, c: int) -> bool {
    ||| (r == sr && c == sc)
    ||| (r == sr + dr && c == sc + dc)
    ||| (r == sr + 2 * dr && c == sc + 2 * dc)
}

/// Two cells share an edge.
pub open spec fn edge_touch(r1: int, c1: int, r2: int, c2: int) -> bool {
    crate::grid::abs(r1 - r2) + crate::grid::abs(c1 - c2) == 1
}

/// `(r, c)` shares an edge with a cell of the segment from `(sr, sc)` along `(dr, dc)`.
pub open spec fn touches_segment(sr: int, sc: int, dr: int, dc: int, r: int, c: int) -> bool {
    ||| edge_touch(r, c, sr, sc)
    ||| edge_touch(r, c, sr + dr, sc + dc)
    ||| edge_touch(r, c, sr + 2 * dr, sc + 2 * dc)
}

/// A lone river: the three cells from `(sr, sc)` down or to the right are river, and every
/// river cell touching one of them is one of them.
pub open spec fn river_segment(g: Seq<Vec<u8>>, rows: int, cols: int, sr: int, sc: int, dr: int, dc: int) -> bool {
    &&& (dr == 0 && dc == 1) || (dr == 1 && dc == 0)
    &&& river_at(g, rows, cols, sr, sc)
    &&& river_at(g, rows, cols, sr + dr, sc + dc)
    &&& river_at(g, rows, cols, sr + 2 * dr, sc + 2 * dc)
    &&& forall|r: int, c: int|
        #[trigger] river_at(g, rows, cols, r, c) && touches_segment(sr, sc, dr, dc, r, c) ==> on_segment(sr, sc, dr, dc, r, c)
}

/// Every river cell lies on a lone straight river of three cells (see [`river_segment`]): the
/// rivers of the map are straight three-cell segments that touch no other river.
pub open spec fn rivers_are_segments(g: Seq<Vec<u8>>, rows: int, cols: int) -> bool {
    forall|r: int, c: int|
        #[trigger] river_at(g, rows, cols, r, c) ==> exists|sr: int, sc: int, dr: int, dc: int|
            #[trigger] river_segment(g, rows, cols, sr, sc, dr, dc) && on_segment(sr, sc, dr, dc, r, c)
}

/// The facts about the grids before and after laying a segment that the lemmas below share:
/// `g2` is `g` with the segment laid, on cells that were not river and touched no river.
pub open spec fn laid_segment(g: Seq<Vec<u8>>, g2: Seq<Vec<u8>>, rows: int, cols: int, sr: int, sc: int, dr: int, dc: int) -> bool {
    &&& (dr == 0 && dc == 1) || (dr == 1 && dc == 0)
    &&& 0 <= sr && sr + 2 * dr < rows && 0 <= sc && sc + 2 * dc < cols
    &&& forall|r: int, c: int|
        0 <= r < rows && 0 <= c < cols ==> #[trigger] g2[r]@[c] == if on_segment(sr, sc, dr, dc, r, c) {
            TERRAIN_LEVEL_RIVER
        } else {
            g[r]@[c]
        }
    &&& forall|r: int, c: int| on_segment(sr, sc, dr, dc, r, c) ==> !#[trigger] river_at(g, rows, cols, r, c)
    &&& forall|r: int, c: int| touches_segment(sr, sc, dr, dc, r, c) ==> !#[trigger] river_at(g, rows, cols, r, c)
}

proof fn lemma_edge_touch_symmetric(r1: int, c1: int, r2: int, c2: int)
    ensures
        edge_touch(r1, c1, r2, c2) == edge_touch(r2, c2, r1, c1),
{
}

/// The laid segment is a lone river.
proof fn lemma_new_segment(g: Seq<Vec<u8>>, g2: Seq<Vec<u8>>, rows: int, cols: int, sr: int, sc: int, dr: int, dc: int)
    requires
        laid_segment(g, g2, rows, cols, sr, sc, dr, dc),
    ensures
        river_segment(g2, rows, cols, sr, sc, dr, dc),
{
    assert forall|r2: int, c2: int| #[trigger] river_at(g2, rows, cols, r2, c2) && touches_segment(sr, sc, dr, dc, r2, c2)
        implies on_segment(sr, sc, dr, dc, r2, c2) by {
        if !on_segment(sr, sc, dr, dc, r2, c2) {
            assert(g2[r2]@[c2] == g[r2]@[c2]);
            assert(river_at(g, rows, cols, r2, c2));
        }
    }
    assert(g2[sr]@[sc] == TERRAIN_LEVEL_RIVER);
    assert(g2[sr + dr]@[sc + dc] == TERRAIN_LEVEL_RIVER);
    assert(g2[sr + 2 * dr]@[sc + 2 * dc] == TERRAIN_LEVEL_RIVER);
}

/// A cell of the laid segment touches no river cell of the grid before.
proof fn lemma_laid_cell_touches_no_river(g: Seq<Vec<u8>>, g2: Seq<Vec<u8>>, rows: int, cols: int, sr: int, sc: int, dr: int, dc: int, r2: int, c2: int, a: int, b: int)
    requires
        laid_segment(g, g2, rows, cols, sr, sc, dr, dc),
        on_segment(sr, sc, dr, dc, r2, c2),
        edge_touch(r2, c2, a, b),
    ensures
        !river_at(g, rows, cols, a, b),
{
    lemma_edge_touch_symmetric(r2, c2, a, b);
    assert(touches_segment(sr, sc, dr, dc, a, b));
}

/// A lone river of the grid before stays one after the segment is laid.
#[verifier::rlimit(30)]
proof fn lemma_old_segment(g: Seq<Vec<u8>>, g2: Seq<Vec<u8>>, rows: int, cols: int, sr: int, sc: int, dr: int, dc: int, a: int, b: int, x: int, y: int)
    requires
        laid_segment(g, g2, rows, cols, sr, sc, dr, dc),
        river_segment(g, rows, cols, a, b, x, y),
    ensures
        river_segment(g2, rows, cols, a, b, x, y),
{
    assert(!on_segment(sr, sc, dr, dc, a, b));
    assert(!on_segment(sr, sc, dr, dc, a + x, b + y));
    assert(!on_segment(sr, sc, dr, dc, a + 2 * x, b + 2 * y));
    assert(g2[a]@[b] == g[a]@[b]);
    assert(g2[a + x]@[b + y] == g[a + x]@[b + y]);
    assert(g2[a + 2 * x]@[b + 2 * y] == g[a + 2 * x]@[b + 2 * y]);
    assert forall|r2: int, c2: int| #[trigger] river_at(g2, rows, cols, r2, c2) && touches_segment(a, b, x, y, r2, c2)
        implies on_segment(a, b, x, y, r2, c2) by {
        if on_segment(sr, sc, dr, dc, r2, c2) {
            if edge_touch(r2, c2, a, b) {
                lemma_laid_cell_touches_no_river(g, g2, rows, cols, sr, sc, dr, dc, r2, c2, a, b);
            } else if edge_touch(r2, c2, a + x, b + y) {
                lemma_laid_cell_touches_no_river(g, g2, rows, cols, sr, sc, dr, dc, r2, c2, a + x, b + y);
            } else {
                lemma_laid_cell_touches_no_river(g, g2, rows, cols, sr, sc, dr, dc, r2, c2, a + 2 * x, b + 2 * y);
            }
        } else {
            assert(g2[r2]@[c2] == g[r2]@[c2]);
            assert(river_at(g, rows, cols, r2, c2));
        }
    }
}

/// Every in-grid edge neighbour of a cell is listed by [`neighbors4_spec`].
proof fn lemma_neighbor_listed(row: int, col: int, rows: int, cols: int, r2: int, c2: int)
    requires
        0 <= row < rows <= usize::MAX,
        0 <= col < cols <= usize::MAX,
        0 <= r2 < rows,
        0 <= c2 < cols,
        edge_touch(r2, c2, row, col),
    ensures
        exists|j: int|
            0 <= j < neighbors4_spec(row, col, rows, cols).len() && #[trigger] neighbors4_spec(row, col, rows, cols)[j]
                == (r2 as usize, c2 as usize),
{
    let up = if row > 0 { seq![((row - 1) as usize, col as usize)] } else { Seq::<(usize, usize)>::empty() };
    let down = if row + 1 < rows { seq![((row + 1) as usize, col as usize)] } else { Seq::<(usize, usize)>::empty() };
    let left = if col > 0 { seq![(row as usize, (col - 1) as usize)] } else { Seq::<(usize, usize)>::empty() };
    let right = if col + 1 < cols { seq![(row as usize, (col + 1) as usize)] } else { Seq::<(usize, usize)>::empty() };
    let ns = neighbors4_spec(row, col, rows, cols);
    assert(ns == up + down + left + right);
    if r2 == row - 1 {
        assert(ns[0] == (r2 as usize, c2 as usize));
    } else if r2 == row + 1 {
        assert(ns[up.len() as int] == (r2 as usize, c2 as usize));
    } else if c2 == col - 1 {
        assert(ns[(up.len() + down.len()) as int] == (r2 as usize, c2 as usize));
    } else {
        assert(ns[(up.len() + down.len() + left.len()) as int] == (r2 as usize, c2 as usize));
    }
}

/// Cells that [`can_place_segment_spec`] allows are not river and touch no river.
proof fn lemma_can_place_clear(g: Seq<Vec<u8>>, cells: Seq<(usize, usize)>, rows: int, cols: int, sr: int, sc: int, dr: int, dc: int)
    requires
        grid_ok(g, rows, cols, 0, 255),
        rows <= usize::MAX,
        cols <= usize::MAX,
        can_place_segment_spec(g, cells, rows, cols),
        cells.len() == 3,
        forall|k: int| 0 <= k < 3 ==> (#[trigger] cells[k]).1 < rows && cells[k].0 < cols,
        forall|r: int, c: int|
            #[trigger] on_segment(sr, sc, dr, dc, r, c) ==> (r == cells[0].1 && c == cells[0].0) || (r == cells[1].1 && c
                == cells[1].0) || (r == cells[2].1 && c == cells[2].0),
    ensures
        forall|r: int, c: int| on_segment(sr, sc, dr, dc, r, c) ==> !#[trigger] river_at(g, rows, cols, r, c),
        forall|r: int, c: int| touches_segment(sr, sc, dr, dc, r, c) ==> !#[trigger] river_at(g, rows, cols, r, c),
{
    assert forall|r: int, c: int| on_segment(sr, sc, dr, dc, r, c) implies !#[trigger] river_at(g, rows, cols, r, c) by {
        if r == cells[0].1 && c == cells[0].0 {
            assert(!blocks_mountain(g[r]@[c]));
        } else if r == cells[1].1 && c == cells[1].0 {
            assert(!blocks_mountain(g[r]@[c]));
        } else {
            assert(!blocks_mountain(g[r]@[c]));
        }
    }
    assert forall|r: int, c: int| touches_segment(sr, sc, dr, dc, r, c) implies !#[trigger] river_at(g, rows, cols, r, c) by {
        if river_at(g, rows, cols, r, c) {
            let k: int = if edge_touch(r, c, sr, sc) {
                if cells[0].1 == sr && cells[0].0 == sc { 0 } else if cells[1].1 == sr && cells[1].0 == sc { 1 } else { 2 }
            } else if edge_touch(r, c, sr + dr, sc + dc) {
                if cells[0].1 == sr + dr && cells[0].0 == sc + dc { 0 } else if cells[1].1 == sr + dr && cells[1].0 == sc + dc { 1 } else { 2 }
            } else {
                if cells[0].1 == sr + 2 * dr && cells[0].0 == sc + 2 * dc { 0 } else if cells[1].1 == sr + 2 * dr && cells[1].0
                    == sc + 2 * dc { 1 } else { 2 }
            };
            assert(on_segment(sr, sc, dr, dc, sr, sc));
            assert(on_segment(sr, sc, dr, dc, sr + dr, sc + dc));
            assert(on_segment(sr, sc, dr, dc, sr + 2 * dr, sc + 2 * dc));
            let (kc, kr) = cells[k];
            assert(edge_touch(r, c, kr as int, kc as int));
            lemma_neighbor_listed(kr as int, kc as int, rows, cols, r, c);
            let j = choose|j: int|
                0 <= j < neighbors4_spec(kr as int, kc as int, rows, cols).len() && #[trigger] neighbors4_spec(kr as int, kc as int, rows, cols)[j]
                    == (r as usize, c as usize);
            assert(g[r]@[c] != TERRAIN_LEVEL_RIVER);
        }
    }
}

/// Laying a segment on cells that are not river and touch no river keeps every river a lone
/// straight segment.
proof fn lemma_lay_segment(g: Seq<Vec<u8>>, g2: Seq<Vec<u8>>, rows: int, cols: int, sr: int, sc: int, dr: int, dc: int)
    requires
        rivers_are_segments(g, rows, cols),
        laid_segment(g, g2, rows, cols, sr, sc, dr, dc),
    ensures
        rivers_are_segments(g2, rows, cols),
{
    assert forall|r: int, c: int| #[trigger] river_at(g2, rows, cols, r, c) implies exists|a: int, b: int, x: int, y: int|
        #[trigger] river_segment(g2, rows, cols, a, b, x, y) && on_segment(a, b, x, y, r, c) by {
        if on_segment(sr, sc, dr, dc, r, c) {
            lemma_new_segment(g, g2, rows, cols, sr, sc, dr, dc);
        } else {
            assert(g2[r]@[c] == g[r]@[c]);
            assert(river_at(g, rows, cols, r, c));
            let (a, b, x, y) = choose|a: int, b: int, x: int, y: int|
                #[trigger] river_segment(g, rows, cols, a, b, x, y) && on_segment(a, b, x, y, r, c);
            lemma_old_segment(g, g2, rows, cols, sr, sc, dr, dc, a, b, x, y);
        }
    }
}

/// A cell of the river phase: kept, or turned river from a level other than alpine or
/// mountain.
pub open spec fn river_step(before: u8, after: u8) -> bool {
    after == before || (after == TERRAIN_LEVEL_RIVER && before != TERRAIN_LEVEL_ALPINE && before != TERRAIN_LEVEL_MOUNTAIN)
}

/// River phase: visits every cell in shuffled order; with chance 2.5% it tries a straight
/// three-cell river segment (horizontal or vertical, direction drawn among those that fit)
/// and lays it when [`can_place_river_segment`] allows.
#[verifier::rlimit(100)]
pub fn place_river_segments(grid: &mut Vec<Vec<u8>>, cols: usize, rows: usize, rng: &mut SeededRng)
    requires
        grid_ok(old(grid)@, rows as int, cols as int, 1, 6),
        rows < 65536,
        cols < 65536,
    ensures
        grid_ok(final(grid)@, rows as int, cols as int, 1, 6),
        forall|r: int, c: int|
            0 <= r < rows && 0 <= c < cols ==> river_step(old(grid)@[r]@[c], #[trigger] final(grid)@[r]@[c]),
        grid_avoids(old(grid)@, rows as int, cols as int, TERRAIN_LEVEL_RIVER) ==> rivers_are_segments(
            final(grid)@,
            rows as int,
            cols as int,
        ),
        final(rng).seed() == old(rng).seed(),
        (levels(final(grid)@), final(rng).draws()) == rivers_model(
            old(rng).seed(),
            rows as int,
            cols as int,
            (levels(old(grid)@), old(rng).draws()),
        ),
{
    let ghost orig = grid@;
    let ghost seed = rng.seed();
    let ghost d0 = rng.draws();
    proof {
        if grid_avoids(orig, rows as int, cols as int, TERRAIN_LEVEL_RIVER) {
            assert forall|r: int, c: int| #[trigger] river_at(orig, rows as int, cols as int, r, c) implies exists|
                a: int,
                b: int,
                x: int,
                y: int,
            | #[trigger] river_segment(orig, rows as int, cols as int, a, b, x, y) && on_segment(a, b, x, y, r, c) by {
                assert(orig[r]@[c] != TERRAIN_LEVEL_RIVER);
            }
        }
    }
    let mut order: Vec<(usize, usize)> = Vec::new();
    let mut row: usize = 0;
    while row < rows
        invariant
            row <= rows,
            forall|k: int| 0 <= k < order@.len() ==> (#[trigger] order@[k]).0 < cols && order@[k].1 < rows,
            order@ == order_list(cols as int, row as int),
        decreases rows - row,
    {
        let ghost list_start = order@;
        let mut col: usize = 0;
        while col < cols
            invariant
                col <= cols,
                row < rows,
                forall|k: int| 0 <= k < order@.len() ==> (#[trigger] order@[k]).0 < cols && order@[k].1 < rows,
                list_start == order_list(cols as int, row as int),
                order@ == order_row(row as int, col as int, list_start),
            decreases cols - col,
        {
            order.push((col, row));
            col += 1;
        }
        row += 1;
    }
    let ghost before = order@;
    rng_shuffle_cells(rng, &mut order);
    let ghost shuffled = order@;
    let ghost st_s: GenState = (levels(grid@), rng.draws());
    let ghost step = river_stepper(seed, rows as int, cols as int);
    proof {
        assert(grid@ == orig);
        assert forall|k: int| 0 <= k < order@.len() implies (#[trigger] order@[k]).0 < cols && order@[k].1 < rows by {
            let x = order@[k];
            assert(order@.to_multiset().count(x) > 0) by {
                order@.to_multiset_ensures();
            }
            assert(before.to_multiset().count(x) > 0);
            before.to_multiset_ensures();
            let i = choose|i: int| 0 <= i < before.len() && before[i] == x;
            assert(before[i].0 < cols && before[i].1 < rows);
        }
    }
    let mut k: usize = 0;
    while k < order.len()
        invariant
            k <= order@.len(),
            rows < 65536,
            cols < 65536,
            order@ == shuffled,
            step == river_stepper(seed, rows as int, cols as int),
            rng.seed() == seed,
            (levels(grid@), rng.draws()) == over_cells(st_s, shuffled, k as int, step),
            forall|i: int| 0 <= i < order@.len() ==> (#[trigger] order@[i]).0 < cols && order@[i].1 < rows,
            grid_ok(grid@, rows as int, cols as int, 1, 6),
            grid_ok(orig, rows as int, cols as int, 1, 6),
            forall|r: int, c: int| 0 <= r < rows && 0 <= c < cols ==> river_step(orig[r]@[c], #[trigger] grid@[r]@[c]),
            grid_avoids(orig, rows as int, cols as int, TERRAIN_LEVEL_RIVER) ==> rivers_are_segments(
                grid@,
                rows as int,
                cols as int,
            ),
        decreases order.len() - k,
    {
        let (start_col, start_row) = order[k];
        let ghost gk = levels(grid@);
        proof {
            assert(shuffled[k as int] == (start_col, start_row));
        }
        k += 1;
        if !rng_ratio(rng, 25, 1000) {
            continue;
        }
        let horizontal = rng_ratio(rng, 1, 2);
        let mut options: Vec<(i32, i32)> = Vec::new();
        if horizontal {
            if start_col + 2 < cols {
                options.push((1, 0));
            }
            if start_col >= 2 {
                options.push((-1, 0));
            }
        } else {
            if start_row + 2 < rows {
                options.push((0, 1));
            }
            if start_row >= 2 {
                options.push((0, -1));
            }
        }
        proof {
            assert forall|i: int| 0 <= i < options@.len() implies {
                let (dc, dr) = #[trigger] options@[i];
                &&& -1 <= dc <= 1
                &&& -1 <= dr <= 1
                &&& 0 <= start_col + 2 * dc < cols
                &&& 0 <= start_row + 2 * dr < rows
                &&& (dc == 0 && (dr == 1 || dr == -1)) || (dr == 0 && (dc == 1 || dc == -1))
            } by {
            }
        }
        proof {
            assert(options@ =~= river_options(horizontal, start_col as int, start_row as int, rows as int, cols as int));
        }
        if options.len() == 0 {
            continue;
        }
        let choice = rng_below_usize(rng, options.len());
        let (dc, dr) = options[choice];
        let cells = river_segment_cells(start_col, start_row, dc, dr);
        let ghost d3 = rng.draws();
        proof {
            assert(cells@ == segment_cells(start_col, start_row, dc, dr));
            assert(grid_ok(grid@, rows as int, cols as int, 0, 255));
            lemma_can_place_levels(grid@, cells@, rows as int, cols as int);
        }
        if !can_place_river_segment(grid, &cells, rows, cols) {
            continue;
        }
        let ghost g0 = grid@;
        let ghost sr0 = start_row as int;
        let ghost sc0 = start_col as int;
        let ghost (nsr, nsc, ndr, ndc) = if dc + dr < 0 {
            (sr0 + 2 * dr, sc0 + 2 * dc, -dr as int, -dc as int)
        } else {
            (sr0, sc0, dr as int, dc as int)
        };
        proof {
            assert(grid_ok(g0, rows as int, cols as int, 0, 255));
            assert forall|r: int, c: int| #[trigger] on_segment(nsr, nsc, ndr, ndc, r, c) <==> ((r == cells@[0].1 && c
                == cells@[0].0) || (r == cells@[1].1 && c == cells@[1].0) || (r == cells@[2].1 && c == cells@[2].0)) by {}
            lemma_can_place_clear(g0, cells@, rows as int, cols as int, nsr, nsc, ndr, ndc);
        }
        proof {
            assert forall|i: int| 0 <= i < 3 implies {
                let (c, r) = #[trigger] cells@[i];
                !blocks_mountain(grid@[r as int]@[c as int])
            } by {
                let (c, r) = cells@[i];
                assert(!blocks_mountain(grid@[r as int]@[c as int]));
            }
        }
        let mut j: usize = 0;
        while j < 3
            invariant
                j <= 3,
                rng.seed() == seed,
                rng.draws() == d3,
                levels(grid@) == if j == 0 {
                    gk
                } else if j == 1 {
                    set_level(gk, cells@[0].1 as int, cells@[0].0 as int, TERRAIN_LEVEL_RIVER)
                } else if j == 2 {
                    set_level(
                        set_level(gk, cells@[0].1 as int, cells@[0].0 as int, TERRAIN_LEVEL_RIVER),
                        cells@[1].1 as int,
                        cells@[1].0 as int,
                        TERRAIN_LEVEL_RIVER,
                    )
                } else {
                    lay_river(gk, cells@)
                },
                forall|i: int| 0 <= i < 3 ==> (#[trigger] cells@[i]).1 < rows && cells@[i].0 < cols,
                grid_ok(grid@, rows as int, cols as int, 1, 6),
                grid_ok(orig, rows as int, cols as int, 1, 6),
                forall|r: int, c: int| 0 <= r < rows && 0 <= c < cols ==> river_step(orig[r]@[c], #[trigger] grid@[r]@[c]),
                forall|i: int| j <= i < 3 ==> {
                    let (c, r) = #[trigger] cells@[i];
                    grid@[r as int]@[c as int] != TERRAIN_LEVEL_ALPINE && grid@[r as int]@[c as int] != TERRAIN_LEVEL_MOUNTAIN
                },
                grid_ok(g0, rows as int, cols as int, 1, 6),
                grid_avoids(orig, rows as int, cols as int, TERRAIN_LEVEL_RIVER) ==> rivers_are_segments(
                    g0,
                    rows as int,
                    cols as int,
                ),
                (ndr == 0 && ndc == 1) || (ndr == 1 && ndc == 0),
                0 <= nsr && nsr + 2 * ndr < rows && 0 <= nsc && nsc + 2 * ndc < cols,
                forall|r: int, c: int| #[trigger] on_segment(nsr, nsc, ndr, ndc, r, c) <==> ((r == cells@[0].1 && c
                    == cells@[0].0) || (r == cells@[1].1 && c == cells@[1].0) || (r == cells@[2].1 && c == cells@[2].0)),
                forall|r: int, c: int| on_segment(nsr, nsc, ndr, ndc, r, c) ==> !#[trigger] river_at(g0, rows as int, cols as int, r, c),
                forall|r: int, c: int| touches_segment(nsr, nsc, ndr, ndc, r, c) ==> !#[trigger] river_at(g0, rows as int, cols as int, r, c),
                forall|r: int, c: int|
                    0 <= r < rows && 0 <= c < cols ==> #[trigger] grid@[r]@[c] == if (j > 0 && r == cells@[0].1 && c
                        == cells@[0].0) || (j > 1 && r == cells@[1].1 && c == cells@[1].0) || (j > 2 && r == cells@[2].1
                        && c == cells@[2].0) {
                        TERRAIN_LEVEL_RIVER
                    } else {
                        g0[r]@[c]
                    },
            decreases 3 - j,
        {
            let (c, r) = cells[j];
            let ghost before = grid@;
            put_level(grid, rows, cols, r, c, TERRAIN_LEVEL_RIVER, 1, 6);
            proof {
                assert forall|rr: int, cc: int| 0 <= rr < rows && 0 <= cc < cols implies river_step(
                    orig[rr]@[cc],
                    #[trigger] grid@[rr]@[cc],
                ) by {
                    if rr != r || cc != c {
                        assert(grid@[rr]@[cc] == before[rr]@[cc]);
                    } else {
                        assert(river_step(orig[rr]@[cc], before[rr]@[cc]));
                    }
                }
                assert forall|i: int| j + 1 <= i < 3 implies {
                    let (c2, r2) = #[trigger] cells@[i];
                    grid@[r2 as int]@[c2 as int] != TERRAIN_LEVEL_ALPINE && grid@[r2 as int]@[c2 as int] != TERRAIN_LEVEL_MOUNTAIN
                } by {
                    let (c2, r2) = cells@[i];
                    if r2 != r || c2 != c {
                        assert(grid@[r2 as int]@[c2 as int] == before[r2 as int]@[c2 as int]);
                    }
                }
                assert forall|rr: int, cc: int| 0 <= rr < rows && 0 <= cc < cols implies #[trigger] grid@[rr]@[cc] == if (j
                    + 1 > 0 && rr == cells@[0].1 && cc == cells@[0].0) || (j + 1 > 1 && rr == cells@[1].1 && cc
                    == cells@[1].0) || (j + 1 > 2 && rr == cells@[2].1 && cc == cells@[2].0) {
                    TERRAIN_LEVEL_RIVER
                } else {
                    g0[rr]@[cc]
                } by {
                    if rr != r || cc != c {
                        assert(grid@[rr]@[cc] == before[rr]@[cc]);
                    }
                }
            }
            j += 1;
        }
        proof {
            assert(laid_segment(g0, grid@, rows as int, cols as int, nsr, nsc, ndr, ndc));
            if grid_avoids(orig, rows as int, cols as int, TERRAIN_LEVEL_RIVER) {
                lemma_lay_segment(g0, grid@, rows as int, cols as int, nsr, nsc, ndr, ndc);
            }
        }
    }
}

/// Grids with the same river cells have the same rivers.
pub proof fn lemma_same_rivers(g: Seq<Vec<u8>>, g2: Seq<Vec<u8>>, rows: int, cols: int)
    requires
        forall|r: int, c: int|
            0 <= r < rows && 0 <= c < cols ==> (#[trigger] g2[r]@[c] == TERRAIN_LEVEL_RIVER) == (g[r]@[c]
                == TERRAIN_LEVEL_RIVER),
        rivers_are_segments(g, rows, cols),
    ensures
        rivers_are_segments(g2, rows, cols),
{
    assert forall|r: int, c: int| #[trigger] river_at(g2, rows, cols, r, c) <==> river_at(g, rows, cols, r, c) by {
        if 0 <= r < rows && 0 <= c < cols {
            assert((g2[r]@[c] == TERRAIN_LEVEL_RIVER) == (g[r]@[c] == TERRAIN_LEVEL_RIVER));
        }
    }
    assert forall|a: int, b: int, x: int, y: int| #[trigger] river_segment(g, rows, cols, a, b, x, y) implies river_segment(
        g2,
        rows,
        cols,
        a,
        b,
        x,
        y,
    ) by {
        assert(river_at(g, rows, cols, a, b));
        assert(river_at(g, rows, cols, a + x, b + y));
        assert(river_at(g, rows, cols, a + 2 * x, b + 2 * y));
    }
    assert forall|r: int, c: int| #[trigger] river_at(g2, rows, cols, r, c) implies exists|a: int, b: int, x: int, y: int|
        #[trigger] river_segment(g2, rows, cols, a, b, x, y) && on_segment(a, b, x, y, r, c) by {
        assert(river_at(g, rows, cols, r, c));
        let (a, b, x, y) = choose|a: int, b: int, x: int, y: int|
            #[trigger] river_segment(g, rows, cols, a, b, x, y) && on_segment(a, b, x, y, r, c);
        assert(river_segment(g2, rows, cols, a, b, x, y));
    }
}

/// A cell of the deep phase: kept, or, from a level that is not river, alpine, mountain or
/// 7 and above, turned peril, demon land or deep land.
pub open spec fn deep_step(before: u8, after: u8) -> bool {
    ||| after == before
    ||| {
        &&& before != TERRAIN_LEVEL_RIVER && before != TERRAIN_LEVEL_MOUNTAIN && before != TERRAIN_LEVEL_ALPINE
        &&& before < TERRAIN_LEVEL_PERIL
        &&& (after == TERRAIN_LEVEL_PERIL || after == TERRAIN_LEVEL_DEMON || after == TERRAIN_LEVEL_DEEP)
    }
}

/// Deep phase: every tile that is not river, mountain, alpine or already 7+ becomes deep
/// land (9) with chance 0.12%, else demon land (8) with 0.35%, else peril (7) with 0.7%.
pub fn scatter_deep_terrain(grid: &mut Vec<Vec<u8>>, cols: usize, rows: usize, rng: &mut SeededRng)
    requires
        grid_ok(old(grid)@, rows as int, cols as int, 1, 6),
    ensures
        grid_ok(final(grid)@, rows as int, cols as int, 1, 9),
        forall|r: int, c: int|
            0 <= r < rows && 0 <= c < cols ==> (#[trigger] final(grid)@[r]@[c] == TERRAIN_LEVEL_RIVER)
                == (old(grid)@[r]@[c] == TERRAIN_LEVEL_RIVER),
        forall|r: int, c: int|
            0 <= r < rows && 0 <= c < cols ==> deep_step(old(grid)@[r]@[c], #[trigger] final(grid)@[r]@[c]),
        final(rng).seed() == old(rng).seed(),
        (levels(final(grid)@), final(rng).draws()) == sweep(
            (levels(old(grid)@), old(rng).draws()),
            rows as int,
            cols as int,
            deep_stepper(old(rng).seed()),
        ),
{
    let ghost orig = grid@;
    let ghost seed = rng.seed();
    let ghost st0: GenState = (levels(grid@), rng.draws());
    let ghost step = deep_stepper(seed);
    proof {
        assert(grid_ok(grid@, rows as int, cols as int, 1, 9));
    }
    let mut row: usize = 0;
    while row < rows
        invariant
            row <= rows,
            grid_ok(grid@, rows as int, cols as int, 1, 9),
            grid_ok(orig, rows as int, cols as int, 1, 6),
            forall|r: int, c: int|
                0 <= r < rows && 0 <= c < cols ==> (#[trigger] grid@[r]@[c] == TERRAIN_LEVEL_RIVER)
                    == (orig[r]@[c] == TERRAIN_LEVEL_RIVER),
            forall|r: int, c: int| 0 <= r < rows && 0 <= c < cols ==> deep_step(orig[r]@[c], #[trigger] grid@[r]@[c]),
            forall|r: int, c: int| row <= r < rows && 0 <= c < cols ==> #[trigger] grid@[r]@[c] == orig[r]@[c],
            step == deep_stepper(seed),
            rng.seed() == seed,
            (levels(grid@), rng.draws()) == sweep(st0, row as int, cols as int, step),
        decreases rows - row,
    {
        let ghost row_start = sweep(st0, row as int, cols as int, step);
        let mut col: usize = 0;
        while col < cols
            invariant
                col <= cols,
                row < rows,
                grid_ok(grid@, rows as int, cols as int, 1, 9),
                grid_ok(orig, rows as int, cols as int, 1, 6),
                forall|r: int, c: int|
                    0 <= r < rows && 0 <= c < cols ==> (#[trigger] grid@[r]@[c] == TERRAIN_LEVEL_RIVER)
                        == (orig[r]@[c] == TERRAIN_LEVEL_RIVER),
                forall|r: int, c: int| 0 <= r < rows && 0 <= c < cols ==> deep_step(orig[r]@[c], #[trigger] grid@[r]@[c]),
                forall|r: int, c: int|
                    0 <= c < cols && (row < r < rows || (r == row && col <= c)) ==> #[trigger] grid@[r]@[c] == orig[r]@[c],
                step == deep_stepper(seed),
                rng.seed() == seed,
                row_start == sweep(st0, row as int, cols as int, step),
                (levels(grid@), rng.draws()) == sweep_row(row_start, row as int, col as int, step),
            decreases cols - col,
        {
            let level = grid[row][col];
            proof {
                assert(levels(grid@)[row as int][col as int] == level);
            }
            if level == TERRAIN_LEVEL_RIVER || level == TERRAIN_LEVEL_MOUNTAIN || level == TERRAIN_LEVEL_ALPINE
                || level >= TERRAIN_LEVEL_PERIL {
                col += 1;
                continue;
            }
            if rng_ratio(rng, 12, 10000) {
                put_level(grid, rows, cols, row, col, TERRAIN_LEVEL_DEEP, 1, 9);
            } else if rng_ratio(rng, 35, 10000) {
                put_level(grid, rows, cols, row, col, TERRAIN_LEVEL_DEMON, 1, 9);
            } else if rng_ratio(rng, 70, 10000) {
                put_level(grid, rows, cols, row, col, TERRAIN_LEVEL_PERIL, 1, 9);
            }
            col += 1;
        }
        row += 1;
    }
}

/// The terrain level grid for a seed: `rows` rows of `cols` levels in 1..=9, produced by the
/// five phases (base, clustering, mountains, rivers, deep patches) from `StdRng` seeded with
/// `seed`. The grid is [`level_grid_spec`] of the arguments, so equal arguments give equal
/// grids, and its rivers are lone straight three-cell segments.
pub fn random_level_grid(cols: u16, rows: u16, seed: u64) -> (g: Vec<Vec<u8>>)
    ensures
        grid_ok(g@, rows as int, cols as int, 1, 9),
        rivers_are_segments(g@, rows as int, cols as int),
        levels(g@) == level_grid_spec(cols as int, rows as int, seed),
{
    let cols = cols as usize;
    let rows = rows as usize;
    let mut rng = seeded_rng(seed);
    let base = fill_base_terrain(cols, rows, &mut rng);
    let mut grid = cluster_base_terrain(&base, cols, rows, &mut rng);
    spread_mountains(&mut grid, cols, rows, &mut rng);
    place_river_segments(&mut grid, cols, rows, &mut rng);
    let ghost rivers = grid@;
    scatter_deep_terrain(&mut grid, cols, rows, &mut rng);
    proof {
        lemma_same_rivers(rivers, grid@, rows as int, cols as int);
    }
    grid
}

} // verus!
