//! Choosing a formation among candidates: one to three of them, of distinct species, within a
//! cost cap, with the greatest total score; on a tie the one met first when combinations are
//! tried by size, then in lexicographic order of positions.
use vstd::prelude::*;

verus! {

/// `c` lists positions among `n` candidates: one to three of them, increasing.
pub open spec fn is_combo(n: int, c: Seq<usize>) -> bool {
    &&& 1 <= c.len() <= 3
    &&& forall|i: int| 0 <= i < c.len() ==> #[trigger] c[i] < n
    &&& forall|i: int, j: int| 0 <= i < j < c.len() ==> #[trigger] c[i] < #[trigger] c[j]
}

/// `a` comes before `b` (of the same length) in lexicographic order.
pub open spec fn lex_before(a: Seq<usize>, b: Seq<usize>) -> bool {
    ||| a[0] < b[0]
    ||| a[0] == b[0] && a.len() > 1 && a[1] < b[1]
    ||| a[0] == b[0] && a.len() > 2 && a[1] == b[1] && a[2] < b[2]
}

/// `a` is tried before `b`: it is shorter, or as long and lexicographically first.
pub open spec fn enum_before(a: Seq<usize>, b: Seq<usize>) -> bool {
    a.len() < b.len() || (a.len() == b.len() && lex_before(a, b))
}

/// The total cost of the candidates at the positions of `c` (at most three).
pub open spec fn cost_total(costs: Seq<u64>, c: Seq<usize>) -> int {
    (if c.len() > 0 { costs[c[0] as int] as int } else { 0 })
        + (if c.len() > 1 { costs[c[1] as int] as int } else { 0 })
        + (if c.len() > 2 { costs[c[2] as int] as int } else { 0 })
}

/// The total score of the candidates at the positions of `c` (at most three).
pub open spec fn score_total(scores: Seq<i64>, c: Seq<usize>) -> int {
    (if c.len() > 0 { scores[c[0] as int] as int } else { 0 })
        + (if c.len() > 1 { scores[c[1] as int] as int } else { 0 })
        + (if c.len() > 2 { scores[c[2] as int] as int } else { 0 })
}

/// A formation that may be chosen: a combination of candidates of distinct species whose total
/// cost is within `cap`.
pub open spec fn combo_ok(species: Seq<u32>, costs: Seq<u64>, cap: u64, c: Seq<usize>) -> bool {
    &&& is_combo(species.len() as int, c)
    &&& forall|i: int, j: int| 0 <= i < j < c.len() ==> species[#[trigger] c[i] as int] != species[#[trigger] c[j] as int]
    &&& cost_total(costs, c) <= cap
}

/// `d` does not beat `c`: it scores less, or as much and is tried later.
pub open spec fn no_better(scores: Seq<i64>, d: Seq<usize>, c: Seq<usize>) -> bool {
    score_total(scores, d) < score_total(scores, c) || (score_total(scores, d) == score_total(scores, c)
        && !enum_before(d, c))
}

/// `c` is the formation to choose: no other that may be chosen beats it.
pub open spec fn is_best_combo(species: Seq<u32>, costs: Seq<u64>, scores: Seq<i64>, cap: u64, c: Seq<usize>) -> bool {
    &&& combo_ok(species, costs, cap, c)
    &&& forall|d: Seq<usize>| #[trigger] combo_ok(species, costs, cap, d) ==> no_better(scores, d, c)
}

/// Of the combinations tried before `cur` (or equal to `cur` when `with_cur`), `best` is the one to
/// choose so far, of score `bs`; `None` when none of them may be chosen.
spec fn best_so_far(
    species: Seq<u32>,
    costs: Seq<u64>,
    scores: Seq<i64>,
    cap: u64,
    best: Option<Seq<usize>>,
    bs: int,
    cur: Seq<usize>,
    with_cur: bool,
) -> bool {
    match best {
        None => forall|d: Seq<usize>| #[trigger] combo_ok(species, costs, cap, d) ==> !(enum_before(d, cur) || (with_cur && d == cur)),
        Some(b) => {
            &&& combo_ok(species, costs, cap, b)
            &&& (enum_before(b, cur) || (with_cur && b == cur))
            &&& bs == score_total(scores, b)
            &&& forall|d: Seq<usize>| #[trigger] combo_ok(species, costs, cap, d) && (enum_before(d, cur) || (with_cur && d == cur)) ==> no_better(scores, d, b)
        },
    }
}

proof fn lemma_enum_strict(a: Seq<usize>, b: Seq<usize>)
    requires
        1 <= a.len() <= 3,
        1 <= b.len() <= 3,
    ensures
        !(enum_before(a, b) && enum_before(b, a)),
        !enum_before(a, a),
{
}

/// Tries `c` after every combination before it.
fn consider(
    species: &Vec<u32>,
    costs: &Vec<u64>,
    scores: &Vec<i64>,
    cap: u64,
    best: &mut Option<Vec<usize>>,
    best_score: &mut i128,
    c: Vec<usize>,
)
    requires
        species@.len() == costs@.len() == scores@.len(),
        is_combo(species@.len() as int, c@),
        best_so_far(species@, costs@, scores@, cap, opt_seq(*old(best)), *old(best_score) as int, c@, false),
    ensures
        best_so_far(species@, costs@, scores@, cap, opt_seq(*final(best)), *final(best_score) as int, c@, true),
{
    let ghost sp = species@;
    let ghost co = costs@;
    let ghost sc = scores@;
    let len = c.len();
    let mut cost: u128 = 0;
    let mut score: i128 = 0;
    let mut distinct = true;
    let mut a: usize = 0;
    while a < len
        invariant
            len == c@.len() <= 3,
            a <= len,
            is_combo(sp.len() as int, c@),
            sp == species@, co == costs@, sc == scores@,
            sp.len() == co.len() == sc.len(),
            cost == cost_total(co, c@.take(a as int)),
            score == score_total(sc, c@.take(a as int)),
            distinct <==> forall|i: int, j: int| 0 <= i < j < a ==> sp[c@[i] as int] != sp[c@[j] as int],
        decreases len - a,
    {
        let x = c[a];
        let mut b: usize = 0;
        while b < a
            invariant
                a < len == c@.len() <= 3,
                b <= a,
                is_combo(sp.len() as int, c@),
                sp == species@,
                sp.len() == co.len() == sc.len(),
                x == c@[a as int],
                distinct <==> (forall|i: int, j: int| 0 <= i < j < a ==> sp[c@[i] as int] != sp[c@[j] as int])
                    && forall|i: int| 0 <= i < b ==> sp[c@[i] as int] != sp[x as int],
            decreases a - b,
        {
            if species[c[b]] == species[x] {
                distinct = false;
            }
            b += 1;
        }
        cost = cost + costs[x] as u128;
        score = score + scores[x] as i128;
        a += 1;
    }
    proof {
        assert(c@.take(len as int) =~= c@);
    }
    if distinct && cost <= cap as u128 {
        let better = match best {
            None => true,
            Some(_) => score > *best_score,
        };
        if better {
            *best = Some(c);
            *best_score = score;
        }
    }
    proof {
        let cs = c@;
        match opt_seq(*old(best)) {
            Some(b0) => lemma_enum_strict(b0, cs),
            None => {},
        }
        assert forall|d: Seq<usize>| #[trigger] combo_ok(sp, co, cap, d) && d == cs implies combo_ok(sp, co, cap, cs) by {}
    }
}

/// The positions of an optional vector.
pub open spec fn opt_seq(o: Option<Vec<usize>>) -> Option<Seq<usize>> {
    match o {
        Some(v) => Some(v@),
        None => None,
    }
}

/// The formation to choose among the candidates, by positions (see [`is_best_combo`]); `None`
/// when no combination may be chosen.
pub fn best_combo(species: &Vec<u32>, costs: &Vec<u64>, scores: &Vec<i64>, cap: u64) -> (r: Option<Vec<usize>>)
    requires
        species@.len() == costs@.len() == scores@.len(),
    ensures
        match r {
            Some(c) => is_best_combo(species@, costs@, scores@, cap, c@),
            None => forall|d: Seq<usize>| !combo_ok(species@, costs@, cap, d),
        },
        opt_seq(r) == best_combo_spec(species@, costs@, scores@, cap),
{
    let ghost sp = species@;
    let ghost co = costs@;
    let ghost sc = scores@;
    let n = species.len();
    let mut best: Option<Vec<usize>> = None;
    let mut best_score: i128 = 0;
    let mut i: usize = 0;
    while i < n
        invariant
            n == sp.len() == co.len() == sc.len(),
            sp == species@, co == costs@, sc == scores@,
            i <= n,
            best_so_far(sp, co, sc, cap, opt_seq(best), best_score as int, seq![i], false),
        decreases n - i,
    {
        let c = vec![i];
        proof {
            assert(c@ =~= seq![i]);
        }
        consider(species, costs, scores, cap, &mut best, &mut best_score, c);
        proof {
            lemma_step(sp, co, sc, cap, opt_seq(best), best_score as int, seq![i], true, seq![(i + 1) as usize]);
        }
        i += 1;
    }
    proof {
        assert(seq![n][0] >= n);
        lemma_step(sp, co, sc, cap, opt_seq(best), best_score as int, seq![n], false, seq![0usize, 1usize]);
    }
    i = 0;
    while i < n
        invariant
            n == sp.len() == co.len() == sc.len(),
            sp == species@, co == costs@, sc == scores@,
            i <= n,
            best_so_far(sp, co, sc, cap, opt_seq(best), best_score as int, seq![i, (i + 1) as usize], false),
        decreases n - i,
    {
        let mut j: usize = i + 1;
        while j < n
            invariant
                n == sp.len() == co.len() == sc.len(),
                sp == species@, co == costs@, sc == scores@,
                i < n,
                i < j <= n,
                best_so_far(sp, co, sc, cap, opt_seq(best), best_score as int, seq![i, j], false),
            decreases n - j,
        {
            let c = vec![i, j];
            proof {
                assert(c@ =~= seq![i, j]);
            }
            consider(species, costs, scores, cap, &mut best, &mut best_score, c);
            proof {
                lemma_step(sp, co, sc, cap, opt_seq(best), best_score as int, seq![i, j], true, seq![i, (j + 1) as usize]);
            }
            j += 1;
        }
        proof {
            assert(seq![i, n][1] >= n);
            lemma_step(sp, co, sc, cap, opt_seq(best), best_score as int, seq![i, n], false, seq![(i + 1) as usize, (i + 2) as usize]);
        }
        i += 1;
    }
    proof {
        assert(seq![n, (n + 1) as usize][0] >= n);
        lemma_step(sp, co, sc, cap, opt_seq(best), best_score as int, seq![n, (n + 1) as usize], false, seq![0usize, 1usize, 2usize]);
    }
    i = 0;
    while i < n
        invariant
            n == sp.len() == co.len() == sc.len(),
            sp == species@, co == costs@, sc == scores@,
            i <= n,
            best_so_far(sp, co, sc, cap, opt_seq(best), best_score as int, seq![i, (i + 1) as usize, (i + 2) as usize], false),
        decreases n - i,
    {
        let mut j: usize = i + 1;
        while j < n
            invariant
                n == sp.len() == co.len() == sc.len(),
                sp == species@, co == costs@, sc == scores@,
                i < n,
                i < j <= n,
                best_so_far(sp, co, sc, cap, opt_seq(best), best_score as int, seq![i, j, (j + 1) as usize], false),
            decreases n - j,
        {
            let mut k: usize = j + 1;
            while k < n
                invariant
                    n == sp.len() == co.len() == sc.len(),
                    sp == species@, co == costs@, sc == scores@,
                    i < j < n,
                    j < k <= n,
                    best_so_far(sp, co, sc, cap, opt_seq(best), best_score as int, seq![i, j, k], false),
                decreases n - k,
            {
                let c = vec![i, j, k];
                proof {
                    assert(c@ =~= seq![i, j, k]);
                }
                consider(species, costs, scores, cap, &mut best, &mut best_score, c);
                proof {
                    lemma_step(sp, co, sc, cap, opt_seq(best), best_score as int, seq![i, j, k], true, seq![i, j, (k + 1) as usize]);
                }
                k += 1;
            }
            proof {
                assert(seq![i, j, n][2] >= n);
                lemma_step(sp, co, sc, cap, opt_seq(best), best_score as int, seq![i, j, n], false, seq![i, (j + 1) as usize, (j + 2) as usize]);
            }
            j += 1;
        }
        proof {
            assert(seq![i, n, (n + 1) as usize][1] >= n);
            lemma_step(sp, co, sc, cap, opt_seq(best), best_score as int, seq![i, n, (n + 1) as usize], false, seq![(i + 1) as usize, (i + 2) as usize, (i + 3) as usize]);
        }
        i += 1;
    }
    proof {
        lemma_all_tried(sp, co, sc, cap, opt_seq(best), best_score as int, seq![n, (n + 1) as usize, (n + 2) as usize]);
        match opt_seq(best) {
            Some(c) => {
                let c2 = choose|c2: Seq<usize>| is_best_combo(sp, co, sc, cap, c2);
                lemma_best_combo_unique(sp, co, sc, cap, c, c2);
            },
            None => {},
        }
    }
    best
}

/// `d` has the entries of `c` (both of at most three entries).
spec fn same_entries(d: Seq<usize>, c: Seq<usize>) -> bool {
    &&& d.len() == c.len()
    &&& d[0] == c[0]
    &&& d.len() > 1 ==> d[1] == c[1]
    &&& d.len() > 2 ==> d[2] == c[2]
}

/// Moving on from `cur` (tried when `with_cur`, else no combination) to `next`, the first
/// combination after it.
proof fn lemma_step(
    species: Seq<u32>,
    costs: Seq<u64>,
    scores: Seq<i64>,
    cap: u64,
    best: Option<Seq<usize>>,
    bs: int,
    cur: Seq<usize>,
    with_cur: bool,
    next: Seq<usize>,
)
    requires
        best_so_far(species, costs, scores, cap, best, bs, cur, with_cur),
        with_cur || exists|k: int| 0 <= k < cur.len() && #[trigger] cur[k] >= species.len(),
        1 <= cur.len() <= 3,
        forall|d: Seq<usize>| is_combo(species.len() as int, d) ==> (#[trigger] enum_before(d, next) <==> (
        enum_before(d, cur) || same_entries(d, cur))),
    ensures
        best_so_far(species, costs, scores, cap, best, bs, next, false),
{
    let n = species.len() as int;
    if !with_cur {
        assert(!is_combo(n, cur));
    }
    assert forall|d: Seq<usize>| is_combo(n, d) && enum_before(d, next) implies (enum_before(d, cur) || (with_cur
        && d == cur)) by {
        if !enum_before(d, cur) {
            assert(same_entries(d, cur));
            assert(d =~= cur);
        }
    }
    assert forall|d: Seq<usize>| is_combo(n, d) && (enum_before(d, cur) || (with_cur && d == cur)) implies enum_before(
        d,
        next,
    ) by {
        if d == cur {
            assert(same_entries(d, cur));
        }
    }
}

proof fn lemma_all_tried(
    species: Seq<u32>,
    costs: Seq<u64>,
    scores: Seq<i64>,
    cap: u64,
    best: Option<Seq<usize>>,
    bs: int,
    cur: Seq<usize>,
)
    requires
        best_so_far(species, costs, scores, cap, best, bs, cur, false),
        cur.len() == 3,
        cur[0] == species.len(),
    ensures
        match best {
            Some(c) => is_best_combo(species, costs, scores, cap, c),
            None => forall|d: Seq<usize>| !combo_ok(species, costs, cap, d),
        },
{
    assert forall|d: Seq<usize>| #[trigger] combo_ok(species, costs, cap, d) implies enum_before(d, cur) by {
        assert(d[0] < species.len());
    }
}

/// There is one formation to choose: [`is_best_combo`] determines it.
pub proof fn lemma_best_combo_unique(
    species: Seq<u32>,
    costs: Seq<u64>,
    scores: Seq<i64>,
    cap: u64,
    a: Seq<usize>,
    b: Seq<usize>,
)
    requires
        is_best_combo(species, costs, scores, cap, a),
        is_best_combo(species, costs, scores, cap, b),
    ensures
        a == b,
{
    assert(no_better(scores, a, b));
    assert(no_better(scores, b, a));
    assert(same_entries(a, b));
    assert(a =~= b);
}

/// The formation to choose, if any may be chosen.
pub open spec fn best_combo_spec(species: Seq<u32>, costs: Seq<u64>, scores: Seq<i64>, cap: u64) -> Option<Seq<usize>> {
    if exists|c: Seq<usize>| is_best_combo(species, costs, scores, cap, c) {
        Some(choose|c: Seq<usize>| is_best_combo(species, costs, scores, cap, c))
    } else {
        None
    }
}

} // verus!
