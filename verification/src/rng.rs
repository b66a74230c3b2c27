//! Randomness, hashing and the clock: the outside calls the world logic is built on.
use vstd::prelude::*;
use rand::rngs::StdRng;
use rand::seq::SliceRandom;
use rand::{Rng, SeedableRng};
use std::collections::hash_map::DefaultHasher;
use std::hash::{BuildHasher, BuildHasherDefault};

verus! {

#[verifier::external_type_specification]
#[verifier::external_body]
pub struct ExStdRng(StdRng);

/// One draw made from a seeded generator: its kind and the arguments that decide how much of
/// the stream it reads (a ratio, a bound, a list length).
pub type Draw = (u8, u64, u64);

/// The draw of `gen_ratio(numerator, denominator)`.
pub open spec fn ratio_draw(numerator: u32, denominator: u32) -> Draw {
    (0u8, numerator as u64, denominator as u64)
}

/// The draw of `gen_range(0..bound)` on `u32`.
pub open spec fn below_u32_draw(bound: u32) -> Draw {
    (1u8, bound as u64, 0u64)
}

/// The draw of `gen_range(0..bound)` on `usize`.
pub open spec fn below_usize_draw(bound: usize) -> Draw {
    (2u8, bound as u64, 0u64)
}

/// The draw of `choose` on a list of `len` elements.
pub open spec fn choose_draw(len: usize) -> Draw {
    (3u8, len as u64, 0u64)
}

/// The draw of `shuffle` on a list of `len` elements.
pub open spec fn shuffle_draw(len: usize) -> Draw {
    (4u8, len as u64, 0u64)
}

/// A `StdRng` seeded from a `u64`, with a model of its state: the seed and the draws made so
/// far. `StdRng` is deterministic, so every draw is fixed by the seed, the earlier draws and
/// the draw's own arguments. The fields are private: a value is only made by [`seeded_rng`]
/// and only changed by the draws below, which keep the model in step with the generator.
pub struct SeededRng {
    rng: StdRng,
    seed: Ghost<u64>,
    draws: Ghost<Seq<Draw>>,
}

impl SeededRng {
    /// The seed the generator was made from.
    pub closed spec fn seed(&self) -> u64 {
        self.seed@
    }

    /// The draws made so far, oldest first.
    pub closed spec fn draws(&self) -> Seq<Draw> {
        self.draws@
    }
}

/// `StdRng::seed_from_u64`: the generator for `seed`.
#[verifier::external_body]
fn std_rng_from_seed(seed: u64) -> StdRng {
    StdRng::seed_from_u64(seed)
}

/// A generator seeded with `seed` that has made no draw yet.
pub fn seeded_rng(seed: u64) -> (r: SeededRng)
    ensures
        r.seed() == seed,
        r.draws() == Seq::<Draw>::empty(),
{
    SeededRng { rng: std_rng_from_seed(seed), seed: Ghost(seed), draws: Ghost(Seq::empty()) }
}

/// What `gen_ratio(numerator, denominator)` gives on the generator of `seed` after `draws`.
pub uninterp spec fn seeded_ratio(seed: u64, draws: Seq<Draw>, numerator: u32, denominator: u32) -> bool;

/// What `gen_range(0..bound)` on `u32` gives on the generator of `seed` after `draws`.
pub uninterp spec fn seeded_below_u32(seed: u64, draws: Seq<Draw>, bound: u32) -> u32;

/// What `gen_range(0..bound)` on `usize` gives on the generator of `seed` after `draws`.
pub uninterp spec fn seeded_below_usize(seed: u64, draws: Seq<Draw>, bound: usize) -> usize;

/// The position `choose` picks in a list of `len` elements on the generator of `seed` after
/// `draws`.
pub uninterp spec fn seeded_choose_index(seed: u64, draws: Seq<Draw>, len: usize) -> usize;

/// What `shuffle` makes of `cells` on the generator of `seed` after `draws`.
pub uninterp spec fn seeded_shuffle_cells(seed: u64, draws: Seq<Draw>, cells: Seq<(usize, usize)>) -> Seq<(usize, usize)>;

/// `Rng::gen_ratio`: `true` with chance `numerator / denominator`, a function of the seed,
/// the earlier draws and the ratio (see [`seeded_ratio`]). rand documents that the result is
/// always `false` when the numerator is 0 and always `true` when it equals the denominator;
/// it panics on a zero denominator or a numerator above it, which `requires` rules out.
/// (`gen_bool(0.5)` and `gen_ratio(1, 2)` build the same Bernoulli threshold.)
#[verifier::external_body]
pub fn rng_ratio(rng: &mut SeededRng, numerator: u32, denominator: u32) -> (b: bool)
    requires
        0 < denominator,
        numerator <= denominator,
    ensures
        b == seeded_ratio(old(rng).seed(), old(rng).draws(), numerator, denominator),
        final(rng).seed() == old(rng).seed() && final(rng).draws() == old(rng).draws().push(
            ratio_draw(numerator, denominator),
        ),
        numerator == 0 ==> !b,
        numerator == denominator ==> b,
{
    rng.rng.gen_ratio(numerator, denominator)
}

/// `Rng::gen_range(0..bound)` on `u32`: a value below `bound` (the range must not be empty),
/// a function of the seed, the earlier draws and the bound (see [`seeded_below_u32`]).
#[verifier::external_body]
pub fn rng_below_u32(rng: &mut SeededRng, bound: u32) -> (r: u32)
    requires
        bound > 0,
    ensures
        r == seeded_below_u32(old(rng).seed(), old(rng).draws(), bound) && r < bound,
        final(rng).seed() == old(rng).seed() && final(rng).draws() == old(rng).draws().push(below_u32_draw(bound)),
{
    rng.rng.gen_range(0..bound)
}

/// `Rng::gen_range(0..bound)` on `usize`: a value below `bound` (the range must not be empty),
/// a function of the seed, the earlier draws and the bound (see [`seeded_below_usize`]).
#[verifier::external_body]
pub fn rng_below_usize(rng: &mut SeededRng, bound: usize) -> (r: usize)
    requires
        bound > 0,
    ensures
        r == seeded_below_usize(old(rng).seed(), old(rng).draws(), bound) && r < bound,
        final(rng).seed() == old(rng).seed() && final(rng).draws() == old(rng).draws().push(below_usize_draw(bound)),
{
    rng.rng.gen_range(0..bound)
}

/// `SliceRandom::choose` on a list of grid cells: `None` for an empty list, drawing nothing;
/// otherwise the element at a position below the length that is a function of the seed, the
/// earlier draws and the length (see [`seeded_choose_index`]).
#[verifier::external_body]
pub fn rng_choose_cell(rng: &mut SeededRng, cells: &Vec<(usize, usize)>) -> (r: Option<(usize, usize)>)
    ensures
        cells@.len() == 0 ==> r is None && final(rng).draws() == old(rng).draws(),
        cells@.len() > 0 ==> seeded_choose_index(old(rng).seed(), old(rng).draws(), cells@.len() as usize) < cells@.len()
            && r == Some(cells@[seeded_choose_index(old(rng).seed(), old(rng).draws(), cells@.len() as usize) as int]),
        cells@.len() > 0 ==> final(rng).draws() == old(rng).draws().push(choose_draw(cells@.len() as usize)),
        final(rng).seed() == old(rng).seed(),
{
    cells.choose(&mut rng.rng).copied()
}

/// `SliceRandom::shuffle` on grid cells: a permutation of the same cells, a function of the
/// seed, the earlier draws and the cells (see [`seeded_shuffle_cells`]).
#[verifier::external_body]
pub fn rng_shuffle_cells(rng: &mut SeededRng, cells: &mut Vec<(usize, usize)>)
    ensures
        final(cells)@ == seeded_shuffle_cells(old(rng).seed(), old(rng).draws(), old(cells)@),
        final(cells)@.to_multiset() == old(cells)@.to_multiset(),
        final(cells)@.len() == old(cells)@.len(),
        final(rng).seed() == old(rng).seed() && final(rng).draws() == old(rng).draws().push(
            shuffle_draw(old(cells)@.len() as usize),
        ),
{
    cells.shuffle(&mut rng.rng)
}

/// `rand::thread_rng().gen::<u64>()`: any `u64`.
#[verifier::external_body]
pub fn random_u64() -> u64 {
    rand::thread_rng().gen()
}

/// `rand::random::<i32>()`: any `i32`.
#[verifier::external_body]
pub fn random_i32() -> i32 {
    rand::random()
}

/// `rand::thread_rng().gen_range(min..=max)`: a value in the closed range
/// (which must not be empty).
#[verifier::external_body]
pub fn random_u64_in(min: u64, max: u64) -> (r: u64)
    requires
        min <= max,
    ensures
        min <= r <= max,
{
    rand::thread_rng().gen_range(min..=max)
}

/// `rand::thread_rng().gen_range(0..bound)` on `usize`: a value below `bound` (the range must
/// not be empty).
#[verifier::external_body]
pub fn random_below_usize(bound: usize) -> (r: usize)
    requires
        bound > 0,
    ensures
        r < bound,
{
    rand::thread_rng().gen_range(0..bound)
}

/// `rand::thread_rng().gen_range(0..bound)` on `u32`: a value below `bound` (the range must
/// not be empty).
#[verifier::external_body]
pub fn random_below_u32(bound: u32) -> (r: u32)
    requires
        bound > 0,
    ensures
        r < bound,
{
    rand::thread_rng().gen_range(0..bound)
}

/// `rand::thread_rng().gen_range(min..=max)` on `u32`: a value in the closed range (which must
/// not be empty).
#[verifier::external_body]
pub fn random_u32_in(min: u32, max: u32) -> (r: u32)
    requires
        min <= max,
    ensures
        min <= r <= max,
{
    rand::thread_rng().gen_range(min..=max)
}

/// What shuffling `ids` gives with a generator freshly seeded by `seed`: the seeded generator
/// is deterministic, so the order depends on the seed and the ids alone.
pub uninterp spec fn seeded_shuffle(seed: u64, ids: Seq<u32>) -> Seq<u32>;

/// `SliceRandom::shuffle` of `ids` with `StdRng::seed_from_u64(seed)`: a permutation of the
/// same ids, the same one for the same seed and ids.
#[verifier::external_body]
pub fn shuffle_seeded(seed: u64, ids: &mut Vec<u32>)
    ensures
        final(ids)@ == seeded_shuffle(seed, old(ids)@),
        final(ids)@.to_multiset() == old(ids)@.to_multiset(),
        final(ids)@.len() == old(ids)@.len(),
{
    let mut rng = StdRng::seed_from_u64(seed);
    ids.shuffle(&mut rng)
}

/// What a fair coin shows as the first draw of a generator freshly seeded by `seed`: the
/// seeded generator is deterministic, so it depends on the seed alone.
pub uninterp spec fn seeded_half_coin(seed: u64) -> bool;

/// `Rng::gen_ratio(1, 2)` on `StdRng::seed_from_u64(seed)` (see [`seeded_half_coin`]); rand
/// builds the same Bernoulli threshold for it as for a one-half `gen_bool`.
#[verifier::external_body]
pub fn seeded_coin(seed: u64) -> (b: bool)
    ensures
        b == seeded_half_coin(seed),
{
    StdRng::seed_from_u64(seed).gen_ratio(1, 2)
}

/// What std's `DefaultHasher::new()` gives after hashing a string. `DefaultHasher::new`
/// starts from fixed keys, so the value depends on the string alone.
pub uninterp spec fn default_str_hash(key: Seq<char>) -> u64;

/// Hashes a string with std's `DefaultHasher` (`BuildHasher::hash_one`, which starts a fresh
/// `DefaultHasher::new()`, feeds it the string and finishes).
#[verifier::external_body]
pub fn hash_seed(key: &str) -> (h: u64)
    ensures
        h == default_str_hash(key@),
{
    BuildHasherDefault::<DefaultHasher>::default().hash_one(key)
}

/// Milliseconds since the Unix epoch (`SystemTime::now`), 0 before the epoch.
/// The clock is read, so nothing is stated of the value.
#[verifier::external_body]
pub fn now_ms() -> u64 {
    std::time::SystemTime::now()
        .duration_since(std::time::UNIX_EPOCH)
        .map(|d| d.as_millis() as u64)
        .unwrap_or(0)
}

} // verus!
