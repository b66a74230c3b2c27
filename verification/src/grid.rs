//! Grid coordinates and the `c_{col}_{row}` territory ids that name them.
use vstd::prelude::*;
use crate::text::{chars_of, decimal, is_digit, lemma_decimal_digits, lemma_parse_decimal, parse_i32_chars, parse_i32_spec, push_decimal, string_from_chars};

verus! {

pub open spec fn abs(x: int) -> int {
    if x < 0 {
        -x
    } else {
        x
    }
}

/// The id of the tile at column `col`, row `row`: `c_{col}_{row}`.
pub open spec fn territory_id_spec(col: nat, row: nat) -> Seq<char> {
    seq!['c', '_'] + decimal(col) + seq!['_'] + decimal(row)
}

/// `k` is the position of the first '_' in `rest`.
pub open spec fn is_first_sep(rest: Seq<char>, k: int) -> bool {
    0 <= k < rest.len() && rest[k] == '_' && forall|j: int| 0 <= j < k ==> rest[j] != '_'
}

/// The coordinates an id names: `c_` followed by exactly two `_`-separated parts that both
/// parse as `i32`.
pub open spec fn coords_of(id: Seq<char>) -> Option<(i32, i32)> {
    let rest = id.skip(2);
    if id.len() >= 2 && id[0] == 'c' && id[1] == '_' && exists|k: int| is_first_sep(rest, k) {
        let k = choose|k: int| is_first_sep(rest, k);
        match (parse_i32_spec(rest.take(k)), parse_i32_spec(rest.skip(k + 1))) {
            (Some(c), Some(r)) => Some((c, r)),
            _ => None,
        }
    } else {
        None
    }
}

/// Four-neighbourhood: the coordinates differ by one in exactly one direction.
pub open spec fn orth_adjacent(a: (i32, i32), b: (i32, i32)) -> bool {
    abs(a.0 as int - b.0 as int) + abs(a.1 as int - b.1 as int) == 1
}

/// Two ids name tiles that share an edge.
pub open spec fn ids_adjacent(a: Seq<char>, b: Seq<char>) -> bool {
    match (coords_of(a), coords_of(b)) {
        (Some(p), Some(q)) => orth_adjacent(p, q),
        _ => false,
    }
}

pub proof fn lemma_first_sep_unique(rest: Seq<char>, k1: int, k2: int)
    requires
        is_first_sep(rest, k1),
        is_first_sep(rest, k2),
    ensures
        k1 == k2,
{
    if k1 < k2 {
        assert(rest[k1] != '_');
    } else if k2 < k1 {
        assert(rest[k2] != '_');
    }
}

/// Reading back a formatted id gives the coordinates it was made from.
pub proof fn lemma_territory_id_roundtrip(col: nat, row: nat)
    requires
        col <= i32::MAX,
        row <= i32::MAX,
    ensures
        coords_of(territory_id_spec(col, row)) == Some((col as i32, row as i32)),
{
    let id = territory_id_spec(col, row);
    let rest = id.skip(2);
    let dc = decimal(col);
    let dr = decimal(row);
    lemma_decimal_digits(col);
    lemma_decimal_digits(row);
    lemma_parse_decimal(col);
    lemma_parse_decimal(row);
    assert(rest =~= dc + seq!['_'] + dr);
    let k = dc.len() as int;
    assert forall|j: int| 0 <= j < k implies rest[j] != '_' by {
        assert(rest[j] == dc[j]);
        assert(is_digit(dc[j]));
    }
    assert(is_first_sep(rest, k));
    let kk = choose|k: int| is_first_sep(rest, k);
    lemma_first_sep_unique(rest, k, kk);
    assert(rest.take(k) =~= dc);
    assert(rest.skip(k + 1) =~= dr);
    assert(parse_i32_spec(dc) == Some(col as i32));
    assert(parse_i32_spec(dr) == Some(row as i32));
}

/// Distinct tiles have distinct ids.
pub proof fn lemma_territory_id_injective(c1: nat, r1: nat, c2: nat, r2: nat)
    requires
        c1 <= i32::MAX,
        r1 <= i32::MAX,
        c2 <= i32::MAX,
        r2 <= i32::MAX,
        territory_id_spec(c1, r1) == territory_id_spec(c2, r2),
    ensures
        c1 == c2,
        r1 == r2,
{
    lemma_territory_id_roundtrip(c1, r1);
    lemma_territory_id_roundtrip(c2, r2);
}

/// Adjacency of ids is symmetric and no tile is adjacent to itself.
pub proof fn lemma_adjacency_symmetric_irreflexive(a: Seq<char>, b: Seq<char>)
    ensures
        ids_adjacent(a, b) == ids_adjacent(b, a),
        !ids_adjacent(a, a),
{
}

/// Parses a territory id `c_{col}_{row}` into its coordinates.
pub fn parse_territory_coords(id: &str) -> (r: Option<(i32, i32)>)
    ensures
        r == coords_of(id@),
{
    let s = chars_of(id);
    coords_of_chars(&s)
}

/// Alias of [`parse_territory_coords`] kept for callers that name it so.
pub fn parse_territory_id(id: &str) -> (r: Option<(i32, i32)>)
    ensures
        r == coords_of(id@),
{
    parse_territory_coords(id)
}

pub fn coords_of_chars(s: &Vec<char>) -> (r: Option<(i32, i32)>)
    ensures
        r == coords_of(s@),
{
    let n = s.len();
    if n < 2 || s[0] != 'c' || s[1] != '_' {
        return None;
    }
    let ghost rest = s@.skip(2);
    let mut k: usize = 2;
    while k < n && s[k] != '_'
        invariant
            2 <= k <= n,
            n == s.len(),
            rest == s@.skip(2),
            forall|j: int| 0 <= j < k - 2 ==> rest[j] != '_',
        decreases n - k,
    {
        k += 1;
    }
    if k == n {
        proof {
            assert forall|kk: int| !is_first_sep(rest, kk) by {
                if 0 <= kk < rest.len() && rest[kk] == '_' {
                    assert(rest[kk] != '_');
                }
            }
        }
        return None;
    }
    proof {
        let kk = (k - 2) as int;
        assert(is_first_sep(rest, kk));
        let ch = choose|k: int| is_first_sep(rest, k);
        lemma_first_sep_unique(rest, kk, ch);
        assert(rest.take(kk) =~= s@.subrange(2, k as int));
        assert(rest.skip(kk + 1) =~= s@.subrange(k + 1, n as int));
    }
    let col = parse_i32_chars(s, 2, k);
    let row = parse_i32_chars(s, k + 1, n);
    match (col, row) {
        (Some(c), Some(r)) => Some((c, r)),
        _ => None,
    }
}

/// Formats the id `c_{col}_{row}` as characters.
pub fn territory_id_chars(col: u64, row: u64) -> (v: Vec<char>)
    ensures
        v@ == territory_id_spec(col as nat, row as nat),
{
    let mut v: Vec<char> = Vec::new();
    v.push('c');
    v.push('_');
    push_decimal(col, &mut v);
    v.push('_');
    push_decimal(row, &mut v);
    proof {
        assert(v@ =~= territory_id_spec(col as nat, row as nat));
    }
    v
}

/// Formats the id `c_{col}_{row}`.
pub fn territory_id(col: u64, row: u64) -> (s: String)
    ensures
        s@ == territory_id_spec(col as nat, row as nat),
{
    let v = territory_id_chars(col, row);
    string_from_chars(&v)
}

fn abs_i64(x: i64) -> (r: i64)
    requires
        x > i64::MIN,
    ensures
        r == abs(x as int),
{
    if x < 0 {
        -x
    } else {
        x
    }
}

/// Whether two coordinate pairs are edge neighbours.
pub fn coords_adjacent(a: (i32, i32), b: (i32, i32)) -> (r: bool)
    ensures
        r == orth_adjacent(a, b),
{
    let dc = a.0 as i64 - b.0 as i64;
    let dr = a.1 as i64 - b.1 as i64;
    abs_i64(dc) + abs_i64(dr) == 1
}

/// Whether two territory ids name tiles that share an edge.
pub fn territories_are_adjacent(a_id: &str, b_id: &str) -> (r: bool)
    ensures
        r == ids_adjacent(a_id@, b_id@),
{
    let a = match parse_territory_id(a_id) {
        Some(p) => p,
        None => return false,
    };
    let b = match parse_territory_id(b_id) {
        Some(p) => p,
        None => return false,
    };
    coords_adjacent(a, b)
}

} // verus!
