//! Expedition travel: distances between tiles and the formation's average speed, from which
//! the travel time is reckoned.
use vstd::prelude::*;
use crate::grid::{abs, coords_of, parse_territory_coords};

verus! {

/// Reference speed: at speed 5 a tile takes 2 seconds.
pub const REF_SPEED: u32 = 5;

/// Manhattan distance between two tile ids, 0 when either does not parse.
pub open spec fn distance_between(a: Seq<char>, b: Seq<char>) -> int {
    match (coords_of(a), coords_of(b)) {
        (Some(p), Some(q)) => abs(p.0 - q.0) + abs(p.1 - q.1),
        _ => 0,
    }
}

/// Manhattan distance between two tiles (0 when either id does not parse). The distance is
/// summed in `i32`, so it must fit there.
pub fn manhattan_between(a_id: &str, b_id: &str) -> (d: u32)
    requires
        distance_between(a_id@, b_id@) <= i32::MAX,
    ensures
        d == distance_between(a_id@, b_id@),
{
    let (ac, ar) = match parse_territory_coords(a_id) {
        Some(v) => v,
        None => return 0,
    };
    let (bc, br) = match parse_territory_coords(b_id) {
        Some(v) => v,
        None => return 0,
    };
    let dc: i64 = if ac >= bc { ac as i64 - bc as i64 } else { bc as i64 - ac as i64 };
    let dr: i64 = if ar >= br { ar as i64 - br as i64 } else { br as i64 - ar as i64 };
    (dc + dr) as u32
}

/// The sum of the speeds.
pub open spec fn speed_sum(s: Seq<u32>) -> int
    decreases s.len(),
{
    if s.len() == 0 { 0 } else { speed_sum(s.drop_last()) + s.last() }
}

/// Average speed of a formation: with one speed per body (`count`, at least 1), their mean
/// rounded down (at least 1); otherwise the reference speed 5.
pub open spec fn average_speed_spec(speeds: Option<Seq<u32>>, count: u32) -> int {
    let n = if count < 1 { 1 } else { count as int };
    match speeds {
        Some(s) => if s.len() == n {
            let m = speed_sum(s) / n;
            if m < 1 { 1 } else { m }
        } else {
            REF_SPEED as int
        },
        None => REF_SPEED as int,
    }
}

/// With one speed per body, the average speed is the mean of all the bodies' speeds rounded
/// down, and at least 1: when the speeds add up to at least the number of bodies `n`, it is
/// the `a` with `n * a <= sum < n * (a + 1)`; otherwise it is 1. Without one speed per body
/// it is the reference speed.
pub proof fn lemma_average_speed_is_the_mean(s: Seq<u32>, count: u32)
    ensures
        ({
            let n: int = if count < 1 { 1 } else { count as int };
            let a = average_speed_spec(Some(s), count);
            &&& s.len() == n && speed_sum(s) >= n ==> n * a <= speed_sum(s) < n * (a + 1)
            &&& s.len() == n && speed_sum(s) < n ==> a == 1
            &&& s.len() != n ==> a == REF_SPEED
            &&& average_speed_spec(None, count) == REF_SPEED
        }),
{
    let n: int = if count < 1 { 1 } else { count as int };
    if s.len() == n {
        let sum = speed_sum(s);
        lemma_speed_sum_nonneg(s);
        let q = sum / n;
        vstd::arithmetic::div_mod::lemma_fundamental_div_mod(sum, n);
        vstd::arithmetic::div_mod::lemma_mod_bound(sum, n);
        if sum >= n {
            assert(q >= 1) by {
                vstd::arithmetic::div_mod::lemma_div_is_ordered(n, sum, n);
                vstd::arithmetic::div_mod::lemma_div_basics(n);
            }
            assert(n * q <= sum < n * (q + 1)) by (nonlinear_arith)
                requires sum == n * q + sum % n, 0 <= sum % n < n;
        } else {
            assert(q == 0) by {
                vstd::arithmetic::div_mod::lemma_basic_div(sum, n);
            }
        }
    }
}

proof fn lemma_speed_sum_nonneg(s: Seq<u32>)
    ensures
        speed_sum(s) >= 0,
    decreases s.len(),
{
    if s.len() > 0 {
        lemma_speed_sum_nonneg(s.drop_last());
    }
}

/// Average speed of a formation (see [`average_speed_spec`]).
pub fn average_speed(speed_per_body: Option<&[u32]>, count: u32) -> (s: u32)
    requires
        speed_per_body matches Some(sp) ==> speed_sum(sp@) <= u32::MAX,
    ensures
        s == average_speed_spec(
            match speed_per_body {
                Some(sp) => Some(sp@),
                None => None,
            },
            count,
        ),
{
    let n: u32 = if count < 1 { 1 } else { count };
    match speed_per_body {
        Some(speeds) if speeds.len() == n as usize => {
            let mut sum: u32 = 0;
            let mut i: usize = 0;
            while i < speeds.len()
                invariant
                    i <= speeds@.len(),
                    speed_sum(speeds@) <= u32::MAX,
                    sum == speed_sum(speeds@.take(i as int)),
                decreases speeds@.len() - i,
            {
                proof {
                    assert(speeds@.take(i + 1).drop_last() =~= speeds@.take(i as int));
                    lemma_speed_sum_prefix(speeds@, i + 1);
                }
                sum = sum + speeds[i];
                i += 1;
            }
            proof {
                assert(speeds@.take(speeds@.len() as int) =~= speeds@);
            }
            let m = sum / n;
            if m < 1 { 1 } else { m }
        },
        _ => REF_SPEED,
    }
}

proof fn lemma_speed_sum_prefix(s: Seq<u32>, k: int)
    requires
        0 <= k <= s.len(),
    ensures
        speed_sum(s.take(k)) <= speed_sum(s),
    decreases s.len() - k,
{
    if k < s.len() {
        lemma_speed_sum_prefix(s, k + 1);
        assert(s.take(k + 1).drop_last() =~= s.take(k));
    } else {
        assert(s.take(k) =~= s);
    }
}

} // verus!
