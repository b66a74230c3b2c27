//! The terrain generator as a function of its seed: each phase of the level grid, stated over
//! the draws of a seeded generator (see [`crate::rng::SeededRng`]). A state is the grid of
//! levels and the draws made so far.
use vstd::prelude::*;
use crate::rng::{
    below_u32_draw, below_usize_draw, choose_draw, ratio_draw, seeded_below_u32, seeded_below_usize,
    seeded_choose_index, seeded_ratio, seeded_shuffle_cells, shuffle_draw, Draw,
};
use crate::terrain::{
    base_level_spec, blocks_mountain, is_forest, neighbors4_spec, TERRAIN_LEVEL_ALPINE, TERRAIN_LEVEL_DEEP,
    TERRAIN_LEVEL_DEMON, TERRAIN_LEVEL_MOUNTAIN, TERRAIN_LEVEL_PERIL, TERRAIN_LEVEL_RIVER,
};

verus! {

/// A grid of levels and the draws made so far.
pub type GenState = (Seq<Seq<u8>>, Seq<Draw>);

/// The levels of a grid, row by row.
pub open spec fn levels(g: Seq<Vec<u8>>) -> Seq<Seq<u8>> {
    g.map_values(|line: Vec<u8>| line@)
}

/// `g` with cell `(r, c)` set to `v`.
pub open spec fn set_level(g: Seq<Seq<u8>>, r: int, c: int, v: u8) -> Seq<Seq<u8>> {
    g.update(r, g[r].update(c, v))
}

/// `step` applied to the cells `(r, 0) .. (r, c - 1)` in order.
pub open spec fn sweep_row(st: GenState, r: int, c: int, step: spec_fn(GenState, int, int) -> GenState) -> GenState
    decreases c,
{
    if c <= 0 {
        st
    } else {
        step(sweep_row(st, r, c - 1, step), r, c - 1)
    }
}

/// `step` applied to every cell of the first `rows` rows, row by row.
pub open spec fn sweep(st: GenState, rows: int, cols: int, step: spec_fn(GenState, int, int) -> GenState) -> GenState
    decreases rows,
{
    if rows <= 0 {
        st
    } else {
        sweep_row(sweep(st, rows - 1, cols, step), rows - 1, cols, step)
    }
}

/// `step` applied to the first `k` cells of `cells` in order.
pub open spec fn over_cells(
    st: GenState,
    cells: Seq<(usize, usize)>,
    k: int,
    step: spec_fn(GenState, (usize, usize)) -> GenState,
) -> GenState
    decreases k,
{
    if k <= 0 {
        st
    } else {
        step(over_cells(st, cells, k - 1, step), cells[k - 1])
    }
}

/// A row of `c` base levels drawn after `d`, and the draws after it.
pub open spec fn base_row(seed: u64, d: Seq<Draw>, c: int) -> (Seq<u8>, Seq<Draw>)
    decreases c,
{
    if c <= 0 {
        (Seq::empty(), d)
    } else {
        let (line, d1) = base_row(seed, d, c - 1);
        (line.push(base_level_spec(seeded_below_u32(seed, d1, 100))), d1.push(below_u32_draw(100)))
    }
}

/// The first `rows` rows of base levels drawn after `d`, and the draws after them.
pub open spec fn base_grid(seed: u64, d: Seq<Draw>, rows: int, cols: int) -> GenState
    decreases rows,
{
    if rows <= 0 {
        (Seq::empty(), d)
    } else {
        let (g, d1) = base_grid(seed, d, rows - 1, cols);
        let (line, d2) = base_row(seed, d1, cols);
        (g.push(line), d2)
    }
}

/// How many of the first `k` cells of `nb` hold `level` in `b`.
pub open spec fn same_count(b: Seq<Seq<u8>>, nb: Seq<(usize, usize)>, level: u8, k: int) -> int
    decreases k,
{
    if k <= 0 {
        0
    } else {
        same_count(b, nb, level, k - 1) + if b[nb[k - 1].0 as int][nb[k - 1].1 as int] == level { 1int } else { 0 }
    }
}

/// Clustering of cell `(r, c)` of the base grid `b`: with fewer than two same-level
/// neighbours, a 25% draw; on success a neighbour is chosen and the cell takes its base level.
pub open spec fn cluster_step(seed: u64, b: Seq<Seq<u8>>, rows: int, cols: int, st: GenState, r: int, c: int) -> GenState {
    let (g, d) = st;
    let nb = neighbors4_spec(r, c, rows, cols);
    if same_count(b, nb, b[r][c], nb.len() as int) >= 2 {
        st
    } else if !seeded_ratio(seed, d, 25, 100) {
        (g, d.push(ratio_draw(25, 100)))
    } else {
        let d1 = d.push(ratio_draw(25, 100));
        if nb.len() == 0 {
            (g, d1)
        } else {
            let p = nb[seeded_choose_index(seed, d1, nb.len() as usize) as int];
            (set_level(g, r, c, b[p.0 as int][p.1 as int]), d1.push(choose_draw(nb.len() as usize)))
        }
    }
}

pub open spec fn cluster_stepper(seed: u64, b: Seq<Seq<u8>>, rows: int, cols: int) -> spec_fn(GenState, int, int) -> GenState {
    |st: GenState, r: int, c: int| cluster_step(seed, b, rows, cols, st, r, c)
}

/// Mountain seeding of cell `(r, c)`: a forest cell turns mountain on a 2% draw.
pub open spec fn seed_step(seed: u64, st: GenState, r: int, c: int) -> GenState {
    let (g, d) = st;
    if !is_forest(g[r][c]) {
        st
    } else if seeded_ratio(seed, d, 20, 1000) {
        (set_level(g, r, c, TERRAIN_LEVEL_MOUNTAIN), d.push(ratio_draw(20, 1000)))
    } else {
        (g, d.push(ratio_draw(20, 1000)))
    }
}

pub open spec fn seed_stepper(seed: u64) -> spec_fn(GenState, int, int) -> GenState {
    |st: GenState, r: int, c: int| seed_step(seed, st, r, c)
}

/// `acc` followed by those of the first `k` cells of `nb` that mountains may grow into.
pub open spec fn push_open(g: Seq<Seq<u8>>, nb: Seq<(usize, usize)>, k: int, acc: Seq<(usize, usize)>) -> Seq<(usize, usize)>
    decreases k,
{
    if k <= 0 {
        acc
    } else {
        let a = push_open(g, nb, k - 1, acc);
        let p = nb[k - 1];
        if !blocks_mountain(g[p.0 as int][p.1 as int]) {
            a.push(p)
        } else {
            a
        }
    }
}

/// `acc` followed by the open neighbours of the mountains among cells `(r, 0) .. (r, c - 1)`.
pub open spec fn spread_row(g: Seq<Seq<u8>>, rows: int, cols: int, r: int, c: int, acc: Seq<(usize, usize)>) -> Seq<(usize, usize)>
    decreases c,
{
    if c <= 0 {
        acc
    } else {
        let a = spread_row(g, rows, cols, r, c - 1, acc);
        if g[r][c - 1] == TERRAIN_LEVEL_MOUNTAIN {
            let nb = neighbors4_spec(r, c - 1, rows, cols);
            push_open(g, nb, nb.len() as int, a)
        } else {
            a
        }
    }
}

/// The open neighbours of the mountains of the first `r` rows, in scan order.
pub open spec fn spread_list(g: Seq<Seq<u8>>, rows: int, cols: int, r: int) -> Seq<(usize, usize)>
    decreases r,
{
    if r <= 0 {
        Seq::empty()
    } else {
        spread_row(g, rows, cols, r - 1, cols, spread_list(g, rows, cols, r - 1))
    }
}

/// Alpine spread onto cell `p`: an open cell turns alpine on a 45% draw.
pub open spec fn spread_step(seed: u64, st: GenState, p: (usize, usize)) -> GenState {
    let (g, d) = st;
    if blocks_mountain(g[p.0 as int][p.1 as int]) {
        st
    } else if seeded_ratio(seed, d, 45, 100) {
        (set_level(g, p.0 as int, p.1 as int, TERRAIN_LEVEL_ALPINE), d.push(ratio_draw(45, 100)))
    } else {
        (g, d.push(ratio_draw(45, 100)))
    }
}

pub open spec fn spread_stepper(seed: u64) -> spec_fn(GenState, (usize, usize)) -> GenState {
    |st: GenState, p: (usize, usize)| spread_step(seed, st, p)
}

/// `acc` followed by the mountains among cells `(r, 0) .. (r, c - 1)`.
pub open spec fn mountain_row(g: Seq<Seq<u8>>, r: int, c: int, acc: Seq<(usize, usize)>) -> Seq<(usize, usize)>
    decreases c,
{
    if c <= 0 {
        acc
    } else {
        let a = mountain_row(g, r, c - 1, acc);
        if g[r][c - 1] == TERRAIN_LEVEL_MOUNTAIN {
            a.push((r as usize, (c - 1) as usize))
        } else {
            a
        }
    }
}

/// The mountains of the first `r` rows, in scan order.
pub open spec fn mountain_list(g: Seq<Seq<u8>>, cols: int, r: int) -> Seq<(usize, usize)>
    decreases r,
{
    if r <= 0 {
        Seq::empty()
    } else {
        mountain_row(g, r - 1, cols, mountain_list(g, cols, r - 1))
    }
}

/// Mountain growth from mountain `p`: on a 40% draw, one of its open neighbours is chosen
/// and turns mountain.
pub open spec fn grow_step(seed: u64, rows: int, cols: int, st: GenState, p: (usize, usize)) -> GenState {
    let (g, d) = st;
    let d1 = d.push(ratio_draw(40, 100));
    if !seeded_ratio(seed, d, 40, 100) {
        (g, d1)
    } else {
        let nb = neighbors4_spec(p.0 as int, p.1 as int, rows, cols);
        let cands = push_open(g, nb, nb.len() as int, Seq::empty());
        if cands.len() == 0 {
            (g, d1)
        } else {
            let q = cands[seeded_choose_index(seed, d1, cands.len() as usize) as int];
            (set_level(g, q.0 as int, q.1 as int, TERRAIN_LEVEL_MOUNTAIN), d1.push(choose_draw(cands.len() as usize)))
        }
    }
}

pub open spec fn grow_stepper(seed: u64, rows: int, cols: int) -> spec_fn(GenState, (usize, usize)) -> GenState {
    |st: GenState, p: (usize, usize)| grow_step(seed, rows, cols, st, p)
}

/// The mountain phase: seeding, alpine spread, then growth.
pub open spec fn mountains_model(seed: u64, rows: int, cols: int, st: GenState) -> GenState {
    let st1 = sweep(st, rows, cols, seed_stepper(seed));
    let l = spread_list(st1.0, rows, cols, rows);
    let st2 = over_cells(st1, l, l.len() as int, spread_stepper(seed));
    let m = mountain_list(st2.0, cols, rows);
    over_cells(st2, m, m.len() as int, grow_stepper(seed, rows, cols))
}

/// `acc` followed by cells `(0, r) .. (c - 1, r)` as `(col, row)` pairs.
pub open spec fn order_row(r: int, c: int, acc: Seq<(usize, usize)>) -> Seq<(usize, usize)>
    decreases c,
{
    if c <= 0 {
        acc
    } else {
        order_row(r, c - 1, acc).push(((c - 1) as usize, r as usize))
    }
}

/// Every cell of the first `r` rows as `(col, row)`, in scan order.
pub open spec fn order_list(cols: int, r: int) -> Seq<(usize, usize)>
    decreases r,
{
    if r <= 0 {
        Seq::empty()
    } else {
        order_row(r - 1, cols, order_list(cols, r - 1))
    }
}

/// The directions a river segment from `(sc, sr)` may take: along the row when `horizontal`,
/// else along the column; forward first, each when the segment fits.
pub open spec fn river_options(horizontal: bool, sc: int, sr: int, rows: int, cols: int) -> Seq<(i32, i32)> {
    if horizontal {
        (if sc + 2 < cols { seq![(1i32, 0i32)] } else { Seq::empty() }) + (if sc >= 2 { seq![(-1i32, 0i32)] } else { Seq::empty() })
    } else {
        (if sr + 2 < rows { seq![(0i32, 1i32)] } else { Seq::empty() }) + (if sr >= 2 { seq![(0i32, -1i32)] } else { Seq::empty() })
    }
}

/// The three `(col, row)` cells of a segment from `(sc, sr)` in direction `(dc, dr)`.
pub open spec fn segment_cells(sc: usize, sr: usize, dc: i32, dr: i32) -> Seq<(usize, usize)> {
    seq![(sc, sr), ((sc + dc) as usize, (sr + dr) as usize), ((sc + 2 * dc) as usize, (sr + 2 * dr) as usize)]
}

/// A segment may go on `cells` of `g`: none is mountain, alpine or river, and none touches a
/// river.
pub open spec fn can_place_model(g: Seq<Seq<u8>>, cells: Seq<(usize, usize)>, rows: int, cols: int) -> bool {
    forall|k: int| 0 <= k < cells.len() ==> {
        let (c, r) = #[trigger] cells[k];
        &&& !blocks_mountain(g[r as int][c as int])
        &&& forall|j: int| 0 <= j < neighbors4_spec(r as int, c as int, rows, cols).len() ==> {
            let (nr, nc) = #[trigger] neighbors4_spec(r as int, c as int, rows, cols)[j];
            g[nr as int][nc as int] != TERRAIN_LEVEL_RIVER
        }
    }
}

/// `g` with the three cells laid as river, in order.
pub open spec fn lay_river(g: Seq<Seq<u8>>, cells: Seq<(usize, usize)>) -> Seq<Seq<u8>> {
    let g1 = set_level(g, cells[0].1 as int, cells[0].0 as int, TERRAIN_LEVEL_RIVER);
    let g2 = set_level(g1, cells[1].1 as int, cells[1].0 as int, TERRAIN_LEVEL_RIVER);
    set_level(g2, cells[2].1 as int, cells[2].0 as int, TERRAIN_LEVEL_RIVER)
}

/// A river try at start cell `p = (col, row)`: a 2.5% draw, then a 50% draw for the
/// orientation, a draw among the directions that fit, and the segment is laid when
/// [`can_place_model`] allows.
pub open spec fn river_try(seed: u64, rows: int, cols: int, st: GenState, p: (usize, usize)) -> GenState {
    let (g, d) = st;
    let (sc, sr) = p;
    let d1 = d.push(ratio_draw(25, 1000));
    if !seeded_ratio(seed, d, 25, 1000) {
        (g, d1)
    } else {
        let d2 = d1.push(ratio_draw(1, 2));
        let opts = river_options(seeded_ratio(seed, d1, 1, 2), sc as int, sr as int, rows, cols);
        if opts.len() == 0 {
            (g, d2)
        } else {
            let d3 = d2.push(below_usize_draw(opts.len() as usize));
            let (dc, dr) = opts[seeded_below_usize(seed, d2, opts.len() as usize) as int];
            let cells = segment_cells(sc, sr, dc, dr);
            if can_place_model(g, cells, rows, cols) {
                (lay_river(g, cells), d3)
            } else {
                (g, d3)
            }
        }
    }
}

pub open spec fn river_stepper(seed: u64, rows: int, cols: int) -> spec_fn(GenState, (usize, usize)) -> GenState {
    |st: GenState, p: (usize, usize)| river_try(seed, rows, cols, st, p)
}

/// The river phase: every cell, in shuffled order, gets a river try.
pub open spec fn rivers_model(seed: u64, rows: int, cols: int, st: GenState) -> GenState {
    let order = order_list(cols, rows);
    let shuffled = seeded_shuffle_cells(seed, st.1, order);
    over_cells((st.0, st.1.push(shuffle_draw(order.len() as usize))), shuffled, shuffled.len() as int, river_stepper(seed, rows, cols))
}

/// Deep patches at cell `(r, c)`: a cell that is not river, mountain, alpine or 7+ turns deep
/// land on a 0.12% draw, else demon land on 0.35%, else peril on 0.7%.
pub open spec fn deep_cell(seed: u64, st: GenState, r: int, c: int) -> GenState {
    let (g, d) = st;
    let level = g[r][c];
    if level == TERRAIN_LEVEL_RIVER || level == TERRAIN_LEVEL_MOUNTAIN || level == TERRAIN_LEVEL_ALPINE
        || level >= TERRAIN_LEVEL_PERIL {
        st
    } else {
        let d1 = d.push(ratio_draw(12, 10000));
        if seeded_ratio(seed, d, 12, 10000) {
            (set_level(g, r, c, TERRAIN_LEVEL_DEEP), d1)
        } else {
            let d2 = d1.push(ratio_draw(35, 10000));
            if seeded_ratio(seed, d1, 35, 10000) {
                (set_level(g, r, c, TERRAIN_LEVEL_DEMON), d2)
            } else {
                let d3 = d2.push(ratio_draw(70, 10000));
                if seeded_ratio(seed, d2, 70, 10000) {
                    (set_level(g, r, c, TERRAIN_LEVEL_PERIL), d3)
                } else {
                    (g, d3)
                }
            }
        }
    }
}

pub open spec fn deep_stepper(seed: u64) -> spec_fn(GenState, int, int) -> GenState {
    |st: GenState, r: int, c: int| deep_cell(seed, st, r, c)
}

/// The level grid of a seed: base levels, clustering, mountains, rivers and deep patches, each
/// phase drawing from one generator seeded with `seed`.
pub open spec fn level_grid_spec(cols: int, rows: int, seed: u64) -> Seq<Seq<u8>> {
    let base = base_grid(seed, Seq::empty(), rows, cols);
    let clustered = sweep(base, rows, cols, cluster_stepper(seed, base.0, rows, cols));
    let mountains = mountains_model(seed, rows, cols, clustered);
    let rivers = rivers_model(seed, rows, cols, mountains);
    sweep(rivers, rows, cols, deep_stepper(seed)).0
}

} // verus!
