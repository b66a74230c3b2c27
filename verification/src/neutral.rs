//! Neutral enemies: level tables, deterministic garrisons, rewards and legacy-name checks.
use vstd::prelude::*;
use vstd::string::StrSliceExecFns;
use crate::cards::{card_has_illustration, card_spec, enemy_name_has_illustration, get_card, has_illustration_spec, trim_abc, card_for_name, trimmed_abc_len};
use crate::rng::{hash_seed, random_u64_in};
use crate::defense::neutral_defenders_ok;
use crate::model::{views, Dup, GameState, GameStateView};
use crate::territory::{string_seq_view, Territory, TerritoryView};
use crate::text::{chars_eq, chars_of, decimal, push_decimal, string_from_chars};

verus! {

/// Number of consecutive battles a tile of this level fights.
pub open spec fn wave_count_spec(level: u8) -> u32 {
    if 1 <= level <= 5 {
        1
    } else if 6 <= level <= 8 {
        2
    } else {
        3
    }
}

/// Number of consecutive battles a tile of this level fights (1 up to level 5, 2 for 6..=8,
/// 3 otherwise).
pub fn wave_count_for_level(level: u8) -> (n: u32)
    ensures
        n == wave_count_spec(level),
{
    match level {
        1..=5 => 1,
        6 => 2,
        7..=8 => 2,
        _ => 3,
    }
}

/// Candidate enemy cards per level (illustrated collectible monsters).
pub open spec fn neutral_pool_spec(level: u8) -> Seq<u32> {
    match level {
        1 => seq![50u32, 60, 70, 80, 90, 100, 110],
        2 => seq![51u32, 61, 71, 81, 91, 101, 111],
        3 => seq![52u32, 62, 63, 64, 72, 82, 102, 112],
        4 => seq![53u32, 54, 55, 65, 73, 92, 103, 113],
        5 => seq![56u32, 66, 74, 83, 93, 104, 114],
        6 => seq![56u32, 66, 74, 83],
        7 => seq![56u32, 74, 83, 93],
        _ => seq![83u32, 93, 104, 114],
    }
}

/// Candidate enemy cards for a tile level.
pub fn neutral_card_pool_for_level(level: u8) -> (v: Vec<u32>)
    ensures
        v@ == neutral_pool_spec(level),
{
    let v: Vec<u32> = match level {
        1 => vec![50, 60, 70, 80, 90, 100, 110],
        2 => vec![51, 61, 71, 81, 91, 101, 111],
        3 => vec![52, 62, 63, 64, 72, 82, 102, 112],
        4 => vec![53, 54, 55, 65, 73, 92, 103, 113],
        5 => vec![56, 66, 74, 83, 93, 104, 114],
        6 => vec![56, 66, 74, 83],
        7 => vec![56, 74, 83, 93],
        _ => vec![83, 93, 104, 114],
    };
    proof {
        assert(v@ =~= neutral_pool_spec(level));
    }
    v
}

/// The level's candidates that have an illustration, in pool order.
pub fn illustrated_neutral_pool(level: u8) -> (v: Vec<u32>)
    ensures
        v@ == neutral_pool_spec(level).filter(|id: u32| has_illustration_spec(id)),
{
    let pool = neutral_card_pool_for_level(level);
    let ghost p = pool@;
    let mut v: Vec<u32> = Vec::new();
    let mut i: usize = 0;
    while i < pool.len()
        invariant
            i <= pool@.len(),
            p == pool@,
            v@ == p.take(i as int).filter(|id: u32| has_illustration_spec(id)),
        decreases pool.len() - i,
    {
        let id = pool[i];
        proof {
            assert(p.take(i + 1).drop_last() =~= p.take(i as int));
            reveal_with_fuel(Seq::filter, 1);
        }
        if card_has_illustration(id) {
            v.push(id);
        }
        i += 1;
    }
    proof {
        assert(p.take(p.len() as int) =~= p);
    }
    v
}

/// Number of bodies and monsters per body of a neutral garrison of this level.
pub open spec fn neutral_enemy_stats_spec(level: u8) -> (u32, u32) {
    match level {
        1 => (1, 18),
        2 => (1, 250),
        3 => (2, 250),
        4 => (2, 500),
        5 => (3, 1500),
        6 => (3, 3500),
        7 => (2, 6000),
        8 => (3, 8500),
        _ => (3, 9000),
    }
}

/// Number of bodies and monsters per body of a neutral garrison of this level.
pub fn neutral_enemy_stats(level: u8) -> (r: (u32, u32))
    ensures
        r == neutral_enemy_stats_spec(level),
{
    match level {
        1 => (1, 18),
        2 => (1, 250),
        3 => (2, 250),
        4 => (2, 500),
        5 => (3, 1500),
        6 => (3, 3500),
        7 => (2, 6000),
        8 => (3, 8500),
        _ => (3, 9000),
    }
}

/// Conquest reward range of a level: each of the four resources in `10L+5 ..= 50L+30`.
pub open spec fn conquest_range_spec(level: u8) -> (u64, u64) {
    ((10 * level + 5) as u64, (50 * level + 30) as u64)
}

/// Conquest reward range of a level.
pub fn conquest_resource_range(level: u8) -> (r: (u64, u64))
    ensures
        r == conquest_range_spec(level),
        r.0 <= r.1,
{
    let mul = level as u64;
    (10 * mul + 5, 50 * mul + 30)
}

/// Immediate resources for conquering a tile: food, wood, stone and iron, each drawn
/// independently from the level's range.
pub fn conquest_resource_bonus(level: u8) -> (r: (u64, u64, u64, u64))
    ensures
        conquest_range_spec(level).0 <= r.0 <= conquest_range_spec(level).1,
        conquest_range_spec(level).0 <= r.1 <= conquest_range_spec(level).1,
        conquest_range_spec(level).0 <= r.2 <= conquest_range_spec(level).1,
        conquest_range_spec(level).0 <= r.3 <= conquest_range_spec(level).1,
{
    let (min, max) = conquest_resource_range(level);
    let f = random_u64_in(min, max);
    let w = random_u64_in(min, max);
    let s = random_u64_in(min, max);
    let i = random_u64_in(min, max);
    (f, w, s, i)
}

/// The exploration share of a conquest roll: 40%, rounded down.
pub fn exploration_share(rolled: (u64, u64, u64, u64)) -> (r: (u64, u64, u64, u64))
    requires
        rolled.0 <= u64::MAX / 2,
        rolled.1 <= u64::MAX / 2,
        rolled.2 <= u64::MAX / 2,
        rolled.3 <= u64::MAX / 2,
    ensures
        r == ((rolled.0 * 2 / 5) as u64, (rolled.1 * 2 / 5) as u64, (rolled.2 * 2 / 5) as u64, (rolled.3 * 2 / 5) as u64),
{
    let (f, w, s, i) = rolled;
    (f * 2 / 5, w * 2 / 5, s * 2 / 5, i * 2 / 5)
}

/// 40% of a value, rounded down.
pub open spec fn forty_percent(x: u64) -> u64 {
    (x * 2 / 5) as u64
}

/// `v` is 40% (rounded down) of some conquest roll of the level.
pub open spec fn is_exploration_share(v: u64, level: u8) -> bool {
    exists|x: u64|
        conquest_range_spec(level).0 <= x <= conquest_range_spec(level).1 && #[trigger] forty_percent(x) == v
}

/// Resources granted when an exploration arrives: 40% (rounded down) of a conquest roll.
pub fn exploration_resource_bonus(level: u8) -> (r: (u64, u64, u64, u64))
    ensures
        is_exploration_share(r.0, level),
        is_exploration_share(r.1, level),
        is_exploration_share(r.2, level),
        is_exploration_share(r.3, level),
{
    let rolled = conquest_resource_bonus(level);
    let r = exploration_share(rolled);
    proof {
        assert(forty_percent(rolled.0) == r.0);
        assert(forty_percent(rolled.1) == r.1);
        assert(forty_percent(rolled.2) == r.2);
        assert(forty_percent(rolled.3) == r.3);
    }
    r
}

/// The ids strictly increase.
pub open spec fn strictly_increasing(s: Seq<u32>) -> bool {
    forall|i: int, j: int| 0 <= i < j < s.len() ==> s[i] < s[j]
}

/// The distinct ids of `pool` in increasing order.
pub fn sorted_distinct(pool: &[u32]) -> (v: Vec<u32>)
    ensures
        strictly_increasing(v@),
        v@.to_set() == pool@.to_set(),
{
    let mut v: Vec<u32> = Vec::new();
    let mut i: usize = 0;
    while i < pool.len()
        invariant
            i <= pool@.len(),
            strictly_increasing(v@),
            v@.to_set() == pool@.take(i as int).to_set(),
        decreases pool@.len() - i,
    {
        let x = pool[i];
        let mut k: usize = 0;
        while k < v.len() && v[k] < x
            invariant
                k <= v@.len(),
                forall|j: int| 0 <= j < k ==> v@[j] < x,
            decreases v@.len() - k,
        {
            k += 1;
        }
        let ghost before = v@;
        if k == v.len() || v[k] != x {
            v.insert(k, x);
            proof {
                assert(v@ =~= before.take(k as int).push(x) + before.skip(k as int));
                assert forall|a: int, b: int| 0 <= a < b < v@.len() implies v@[a] < v@[b] by {
                    if b == k {
                    } else if a == k {
                        assert(v@[b] == before[b - 1]);
                    }
                }
                assert(v@.to_set() =~= before.to_set().insert(x)) by {
                    assert forall|y: u32| v@.to_set().contains(y) implies before.to_set().insert(x).contains(y) by {
                        let j = choose|j: int| 0 <= j < v@.len() && v@[j] == y;
                        if j < k {
                            assert(before[j] == y);
                        } else if j > k {
                            assert(before[j - 1] == y);
                        }
                    }
                    assert forall|y: u32| before.to_set().insert(x).contains(y) implies v@.to_set().contains(y) by {
                        if y == x {
                            assert(v@[k as int] == x);
                        } else {
                            let j = choose|j: int| 0 <= j < before.len() && before[j] == y;
                            if j < k {
                                assert(v@[j] == y);
                            } else {
                                assert(v@[j + 1] == y);
                            }
                        }
                    }
                }
            }
        } else {
            proof {
                assert(before.to_set().insert(x) =~= before.to_set()) by {
                    assert(before[k as int] == x);
                }
            }
        }
        proof {
            assert(pool@.take(i + 1) =~= pool@.take(i as int).push(x));
            pool@.take(i as int).lemma_push_to_set_commute(x);
        }
        i += 1;
    }
    proof {
        assert(pool@.take(pool@.len() as int) =~= pool@);
    }
    v
}

/// Picks up to `count` distinct ids of `pool`: the distinct ids in increasing order, shuffled
/// with a generator seeded by `seed`, of which the first `count` are kept.
pub open spec fn distinct_pick_spec(pool: Seq<u32>, count: usize, seed: u64, sorted: Seq<u32>) -> Seq<u32> {
    let shuffled = crate::rng::seeded_shuffle(seed, sorted);
    if count < shuffled.len() { shuffled.take(count as int) } else { shuffled }
}

/// Up to `count` distinct ids of `pool`, in an order drawn from `seed` (the same for the same
/// seed and pool).
pub fn pick_distinct_neutral_cards(pool: &[u32], count: usize, seed: u64) -> (ids: Vec<u32>)
    ensures
        ids@.no_duplicates(),
        ids@.len() == if count < pool@.to_set().len() { count as nat } else { pool@.to_set().len() },
        forall|i: int| 0 <= i < ids@.len() ==> pool@.contains(#[trigger] ids@[i]),
        exists|sorted: Seq<u32>|
            strictly_increasing(sorted) && sorted.to_set() == pool@.to_set()
                && ids@ == #[trigger] distinct_pick_spec(pool@, count, seed, sorted),
{
    let mut ids = sorted_distinct(pool);
    let ghost sorted = ids@;
    proof {
        sorted.unique_seq_to_set();
        assert(sorted.no_duplicates()) by {
            assert forall|i: int, j: int| 0 <= i < sorted.len() && 0 <= j < sorted.len() && i != j implies sorted[i] != sorted[j] by {
                if i < j {
                    assert(sorted[i] < sorted[j]);
                } else {
                    assert(sorted[j] < sorted[i]);
                }
            }
        }
    }
    crate::rng::shuffle_seeded(seed, &mut ids);
    let ghost shuffled = ids@;
    proof {
        assert(shuffled.to_multiset() == sorted.to_multiset());
        sorted.lemma_multiset_has_no_duplicates();
        shuffled.lemma_multiset_has_no_duplicates_conv();
        assert forall|i: int| 0 <= i < shuffled.len() implies pool@.contains(#[trigger] shuffled[i]) by {
            shuffled.to_multiset_ensures();
            sorted.to_multiset_ensures();
            assert(shuffled.to_multiset().count(shuffled[i]) > 0);
            assert(sorted.contains(shuffled[i]));
            assert(sorted.to_set().contains(shuffled[i]));
        }
    }
    let n = if count < ids.len() { count } else { ids.len() };
    ids.truncate(n);
    proof {
        assert(ids@ == distinct_pick_spec(pool@, count, seed, sorted));
        assert forall|i: int, j: int| 0 <= i < ids@.len() && 0 <= j < ids@.len() && i != j implies ids@[i] != ids@[j] by {
            assert(ids@[i] == shuffled[i]);
            assert(ids@[j] == shuffled[j]);
        }
        assert forall|i: int| 0 <= i < ids@.len() implies pool@.contains(#[trigger] ids@[i]) by {
            assert(ids@[i] == shuffled[i]);
        }
    }
    ids
}

/// The display name of a neutral enemy: its card's name, or "敵#<id>" for an unknown card.
pub open spec fn enemy_name_spec(id: u32) -> Seq<char> {
    match card_spec(id) {
        Some(c) => c.name@,
        None => "敵#"@ + decimal(id as nat),
    }
}

fn enemy_name(id: u32) -> (s: String)
    ensures
        s@ == enemy_name_spec(id),
{
    match get_card(id) {
        Some(c) => c.name.to_owned(),
        None => {
            let mut v: Vec<char> = Vec::new();
            crate::game_log::push_str_chars(&mut v, "敵#");
            push_decimal(id as u64, &mut v);
            string_from_chars(&v)
        },
    }
}

/// `ids` are the cards of the neutral garrison of a tile of `level` keyed by `key` (see
/// [`neutral_enemy_ids_for_territory`]).
pub open spec fn neutral_ids_spec(level: u8, key: Seq<char>, ids: Seq<u32>) -> bool {
    let pool = neutral_pool_spec(level).filter(|id: u32| has_illustration_spec(id));
    let count = neutral_enemy_stats_spec(level).0;
    if pool.len() == 0 {
        ids == seq![4u32]
    } else {
        &&& ids.no_duplicates()
        &&& ids.len() == if count < pool.to_set().len() { count as nat } else { pool.to_set().len() }
        &&& forall|i: int| 0 <= i < ids.len() ==> pool.contains(#[trigger] ids[i])
        &&& exists|sorted: Seq<u32>|
            strictly_increasing(sorted) && sorted.to_set() == pool.to_set()
                && ids == #[trigger] distinct_pick_spec(pool, count as usize, crate::rng::default_str_hash(key), sorted)
    }
}

/// Two increasing sequences with the same elements are the same sequence.
pub proof fn lemma_increasing_unique(a: Seq<u32>, b: Seq<u32>)
    requires
        strictly_increasing(a),
        strictly_increasing(b),
        a.to_set() == b.to_set(),
    ensures
        a == b,
    decreases a.len() + b.len(),
{
    if a.len() == 0 || b.len() == 0 {
        if a.len() > 0 {
            assert(a.to_set().contains(a[0]));
        }
        if b.len() > 0 {
            assert(b.to_set().contains(b[0]));
        }
        assert(a =~= b);
    } else {
        assert(a.to_set().contains(a[0]));
        assert(b.to_set().contains(b[0]));
        let ia = choose|i: int| 0 <= i < a.len() && a[i] == b[0];
        let ib = choose|i: int| 0 <= i < b.len() && b[i] == a[0];
        assert(a[0] == b[0]) by {
            if a[0] < b[0] {
                assert(b[ib] == a[0]);
                assert(ib == 0 || b[0] < b[ib]);
            } else if a[0] > b[0] {
                assert(a[ia] == b[0]);
                assert(ia == 0 || a[0] < a[ia]);
            }
        }
        let a1 = a.drop_first();
        let b1 = b.drop_first();
        assert(a1.to_set() =~= b1.to_set()) by {
            assert forall|x: u32| a1.to_set().contains(x) implies b1.to_set().contains(x) by {
                let i = choose|i: int| 0 <= i < a1.len() && a1[i] == x;
                assert(a[i + 1] == x);
                assert(b.to_set().contains(x));
                let j = choose|j: int| 0 <= j < b.len() && b[j] == x;
                assert(j != 0) by {
                    assert(a[0] < a[i + 1]);
                }
                assert(b1[j - 1] == x);
            }
            assert forall|x: u32| b1.to_set().contains(x) implies a1.to_set().contains(x) by {
                let i = choose|i: int| 0 <= i < b1.len() && b1[i] == x;
                assert(b[i + 1] == x);
                assert(a.to_set().contains(x));
                let j = choose|j: int| 0 <= j < a.len() && a[j] == x;
                assert(j != 0) by {
                    assert(b[0] < b[i + 1]);
                }
                assert(a1[j - 1] == x);
            }
        }
        lemma_increasing_unique(a1, b1);
        assert(a =~= b) by {
            assert(a =~= seq![a[0]] + a1);
            assert(b =~= seq![b[0]] + b1);
        }
    }
}

/// Law: a tile's neutral garrison is the same every time it is generated for the same
/// level and key.
pub proof fn lemma_neutral_ids_deterministic(level: u8, key: Seq<char>, a: Seq<u32>, b: Seq<u32>)
    requires
        neutral_ids_spec(level, key, a),
        neutral_ids_spec(level, key, b),
    ensures
        a == b,
{
    let pool = neutral_pool_spec(level).filter(|id: u32| has_illustration_spec(id));
    let count = neutral_enemy_stats_spec(level).0;
    if pool.len() > 0 {
        let seed = crate::rng::default_str_hash(key);
        let sa = choose|sorted: Seq<u32>|
            strictly_increasing(sorted) && sorted.to_set() == pool.to_set()
                && a == #[trigger] distinct_pick_spec(pool, count as usize, seed, sorted);
        let sb = choose|sorted: Seq<u32>|
            strictly_increasing(sorted) && sorted.to_set() == pool.to_set()
                && b == #[trigger] distinct_pick_spec(pool, count as usize, seed, sorted);
        lemma_increasing_unique(sa, sb);
    }
}

/// The card ids of the neutral garrison of a tile: distinct illustrated candidates of its
/// level, as many as the level's body count, in an order drawn from the hash of `seed_key`;
/// the golem (card 4) when the level has no illustrated candidate.
pub fn neutral_enemy_ids_for_territory(level: u8, seed_key: &str) -> (ids: Vec<u32>)
    ensures
        neutral_ids_spec(level, seed_key@, ids@),
{
    let (count, _mc) = neutral_enemy_stats(level);
    let seed = hash_seed(seed_key);
    let pool = illustrated_neutral_pool(level);
    if pool.len() == 0 {
        let v: Vec<u32> = vec![4];
        proof {
            assert(v@ =~= seq![4u32]);
        }
        v
    } else {
        pick_distinct_neutral_cards(pool.as_slice(), count as usize, seed)
    }
}

/// The neutral garrison of a tile: (bodies, monsters per body, names). The bodies are the
/// cards chosen by [`neutral_enemy_ids_for_territory`], each with the level's monster count.
pub fn generate_neutral_enemies_for_territory(level: u8, seed_key: &str) -> (r: (u32, Vec<u32>, Vec<String>))
    ensures
        exists|ids: Seq<u32>|
            {
                &&& #[trigger] ids.len() == r.1@.len()
                &&& r.0 == ids.len()
                &&& r.1@ == Seq::new(ids.len(), |i: int| neutral_enemy_stats_spec(level).1)
                &&& string_seq_view(r.2@) == ids.map_values(|id: u32| enemy_name_spec(id))
                &&& ids.len() <= 3
                &&& neutral_ids_spec(level, seed_key@, ids)
            },
{
    let (_count, mc) = neutral_enemy_stats(level);
    let ids = neutral_enemy_ids_for_territory(level, seed_key);
    proof {
        let pool = neutral_pool_spec(level).filter(|id: u32| has_illustration_spec(id));
        if pool.len() > 0 {
            assert(ids@.len() <= neutral_enemy_stats_spec(level).0);
        }
    }
    let mut counts: Vec<u32> = Vec::new();
    let mut names: Vec<String> = Vec::new();
    let mut i: usize = 0;
    while i < ids.len()
        invariant
            i <= ids@.len() <= 3,
            counts@ == Seq::new(i as nat, |k: int| mc),
            mc == neutral_enemy_stats_spec(level).1,
            names@.len() == i,
            forall|k: int| 0 <= k < i ==> names@[k]@ == enemy_name_spec(ids@[k]),
        decreases ids@.len() - i,
    {
        counts.push(mc);
        names.push(enemy_name(ids[i]));
        i += 1;
        proof {
            assert(counts@ =~= Seq::new(i as nat, |k: int| mc));
        }
    }
    proof {
        assert(string_seq_view(names@) =~= ids@.map_values(|id: u32| enemy_name_spec(id)));
    }
    (ids.len() as u32, counts, names)
}

/// The neutral garrison for a level where no tile seeds it (consecutive waves): the tile
/// rule with the key "ephemeral:<level>".
pub fn generate_neutral_enemies(level: u8) -> (r: (u32, Vec<u32>, Vec<String>))
    ensures
        r.0 as int == r.1@.len() && r.1@.len() == r.2@.len(),
        forall|i: int| 0 <= i < r.1@.len() ==> r.1@[i] == neutral_enemy_stats_spec(level).1,
        exists|ids: Seq<u32>|
            {
                &&& #[trigger] ids.len() == r.1@.len()
                &&& r.0 == ids.len()
                &&& r.1@ == Seq::new(ids.len(), |i: int| neutral_enemy_stats_spec(level).1)
                &&& string_seq_view(r.2@) == ids.map_values(|id: u32| enemy_name_spec(id))
                &&& ids.len() <= 3
                &&& neutral_ids_spec(level, "ephemeral:"@ + decimal(level as nat), ids)
            },
{
    let mut key: Vec<char> = Vec::new();
    crate::game_log::push_str_chars(&mut key, "ephemeral:");
    push_decimal(level as u64, &mut key);
    let k = string_from_chars(&key);
    proof {
        assert(k@ =~= "ephemeral:"@ + decimal(level as nat));
    }
    let r = generate_neutral_enemies_for_territory(level, k.as_str());
    proof {
        let ids = choose|ids: Seq<u32>| {
            &&& #[trigger] ids.len() == r.1@.len()
            &&& r.0 == ids.len()
            &&& r.1@ == Seq::new(ids.len(), |i: int| neutral_enemy_stats_spec(level).1)
            &&& string_seq_view(r.2@) == ids.map_values(|id: u32| enemy_name_spec(id))
            &&& ids.len() <= 3
            &&& neutral_ids_spec(level, k@, ids)
        };
        assert(string_seq_view(r.2@).len() == r.2@.len());
    }
    r
}

/// The garrison stored on a tile: its bodies, with the stored monster counts and names when
/// they match the body count, otherwise one monster per body and the names
/// "敵ユニット1", "敵ユニット2", ... (at least one of each).
pub open spec fn stored_names_default(troops: u32) -> Seq<Seq<char>> {
    let n = if troops < 1 { 1 } else { troops as int };
    Seq::new(n as nat, |i: int| "敵ユニット"@ + decimal((i + 1) as nat))
}

/// The defenders stored on a tile (see [`stored_names_default`]).
pub fn resolve_stored_garrison_defenders(territory: &Territory) -> (r: (u32, Vec<u32>, Vec<String>))
    ensures
        r.0 == territory.troops,
        r.1@ == match territory.body_monster_counts {
            Some(v) if v@.len() == territory.troops => v@,
            _ => Seq::new(if territory.troops < 1 { 1 } else { territory.troops as nat }, |i: int| 1u32),
        },
        string_seq_view(r.2@) == match territory.body_names {
            Some(v) if v@.len() == territory.troops => string_seq_view(v@),
            _ => stored_names_default(territory.troops),
        },
{
    let troops = territory.troops;
    let n: u32 = if troops < 1 { 1 } else { troops };
    let counts: Vec<u32> = match &territory.body_monster_counts {
        Some(v) if v.len() == troops as usize => crate::territory::clone_u32_vec(v),
        _ => {
            let w = crate::player::vec_fill(1u32, n as usize);
            proof {
                assert(w@ =~= Seq::new(n as nat, |i: int| 1u32));
            }
            w
        },
    };
    let names: Vec<String> = match &territory.body_names {
        Some(v) if v.len() == troops as usize => crate::territory::clone_string_vec(v),
        _ => {
            let mut out: Vec<String> = Vec::new();
            let mut i: u64 = 1;
            while i <= n as u64
                invariant
                    1 <= i <= n + 1,
                    n >= 1,
                    n == (if troops < 1 { 1 } else { troops }),
                    out@.len() == i - 1,
                    forall|k: int| 0 <= k < i - 1 ==> out@[k]@ == stored_names_default(troops)[k],
                decreases n + 1 - i,
            {
                let mut v: Vec<char> = Vec::new();
                crate::game_log::push_str_chars(&mut v, "敵ユニット");
                push_decimal(i, &mut v);
                out.push(string_from_chars(&v));
                i += 1;
            }
            proof {
                assert(string_seq_view(out@) =~= stored_names_default(troops));
            }
            out
        },
    };
    (troops, counts, names)
}

/// The species of an enemy name: the name without its trailing 'A', 'B' and 'C'.
pub fn enemy_name_species_key(name: &str) -> (r: String)
    ensures
        r@ == trim_abc(name@),
{
    let cs = chars_of(name);
    let k = trimmed_abc_len(&cs);
    let mut v: Vec<char> = Vec::new();
    let mut i: usize = 0;
    while i < k
        invariant
            i <= k <= cs@.len(),
            v@ == cs@.take(i as int),
        decreases k - i,
    {
        v.push(cs[i]);
        i += 1;
        proof {
            assert(v@ =~= cs@.take(i as int));
        }
    }
    string_from_chars(&v)
}

/// The `k`-th name of a stored neutral garrison marks it as outdated: its card has no
/// illustration, its species already appeared earlier, or it carries a single A/B/C suffix
/// (the old naming of copies of one species).
pub open spec fn outdated_name(names: Seq<Seq<char>>, k: int) -> bool {
    let name = names[k];
    ||| !(card_for_name(name) matches Some(c) && has_illustration_spec(c.id))
    ||| exists|j: int| 0 <= j < k && trim_abc(names[j]) == trim_abc(name)
    ||| trim_abc(name).len() + 1 == name.len()
}

/// Whether a stored neutral garrison must be regenerated: some name is outdated (see
/// [`outdated_name`]); never for an empty garrison.
pub fn neutral_enemy_names_need_refresh(names: &[String]) -> (r: bool)
    ensures
        r == exists|k: int| 0 <= k < names@.len() && #[trigger] outdated_name(string_seq_view(names@), k),
{
    let ghost ns = string_seq_view(names@);
    let mut species: Vec<Vec<char>> = Vec::new();
    let mut i: usize = 0;
    while i < names.len()
        invariant
            i <= names@.len(),
            ns == string_seq_view(names@),
            species@.len() == i,
            forall|j: int| 0 <= j < i ==> species@[j]@ == trim_abc(ns[j]),
            forall|k: int| 0 <= k < i ==> !outdated_name(ns, k),
        decreases names@.len() - i,
    {
        let name = names[i].as_str();
        proof {
            assert(ns[i as int] == name@);
        }
        if !enemy_name_has_illustration(name) {
            proof {
                assert(outdated_name(ns, i as int));
            }
            return true;
        }
        let cs = chars_of(name);
        let k = trimmed_abc_len(&cs);
        let mut base: Vec<char> = Vec::new();
        let mut m: usize = 0;
        while m < k
            invariant
                m <= k <= cs@.len(),
                base@ == cs@.take(m as int),
            decreases k - m,
        {
            base.push(cs[m]);
            m += 1;
            proof {
                assert(base@ =~= cs@.take(m as int));
            }
        }
        proof {
            assert(base@ == trim_abc(ns[i as int]));
        }
        let mut j: usize = 0;
        while j < species.len()
            invariant
                j <= species@.len() == i,
                i < names@.len(),
                ns == string_seq_view(names@),
                base@ == trim_abc(ns[i as int]),
                forall|q: int| 0 <= q < i ==> species@[q]@ == trim_abc(ns[q]),
                forall|q: int| 0 <= q < j ==> species@[q]@ != base@,
            decreases species@.len() - j,
        {
            if chars_eq(&species[j], &base) {
                proof {
                    assert(trim_abc(ns[j as int]) == trim_abc(ns[i as int]));
                    assert(outdated_name(ns, i as int));
                }
                return true;
            }
            j += 1;
        }
        if k < cs.len() && cs.len() - k == 1 {
            proof {
                assert(outdated_name(ns, i as int));
            }
            return true;
        }
        proof {
            assert(!outdated_name(ns, i as int)) by {
                if exists|q: int| 0 <= q < i && trim_abc(ns[q]) == trim_abc(ns[i as int]) {
                    let q = choose|q: int| 0 <= q < i && trim_abc(ns[q]) == trim_abc(ns[i as int]);
                    assert(species@[q]@ == base@);
                }
            }
        }
        species.push(base);
        i += 1;
    }
    false
}

/// A stored garrison name list that must be regenerated (see [`outdated_name`]).
pub open spec fn names_outdated(names: Seq<Seq<char>>) -> bool {
    exists|k: int| 0 <= k < names.len() && #[trigger] outdated_name(names, k)
}

/// The migration touches tile `t`: a neutral tile (no owner, base or ruin) whose kept names are
/// outdated, or that keeps troops or monster counts without names.
pub open spec fn storage_touched(t: TerritoryView) -> bool {
    &&& t.owner_id is None && !t.is_base && t.ruin is None
    &&& match t.body_names {
        Some(names) => names_outdated(names),
        None => t.troops != 0 || t.body_monster_counts is Some,
    }
}

/// What the migration makes of tile `t`: a touched tile with names gets the neutral garrison
/// of its level and id; a touched tile without names loses its troops and counts; any other
/// tile stays as it is.
pub open spec fn storage_migrated(t: TerritoryView, u: TerritoryView) -> bool {
    if !storage_touched(t) {
        u == t
    } else if t.body_names is Some {
        &&& u == (TerritoryView { troops: u.troops, body_monster_counts: u.body_monster_counts, body_names: u.body_names, ..t })
        &&& u.body_monster_counts is Some && u.body_names is Some
        &&& neutral_defenders_ok(t.level, t.id, (u.troops, u.body_monster_counts.unwrap(), u.body_names.unwrap()))
    } else {
        u == (TerritoryView { troops: 0, body_monster_counts: None, ..t })
    }
}

/// Drops the garrisons kept on untouched neutral tiles (they are generated from level and id
/// when needed) and regenerates outdated ones (see [`storage_migrated`]); true when some tile
/// was touched. Nothing but the tiles changes.
pub fn migrate_neutral_enemy_storage(state: &mut GameState) -> (r: bool)
    ensures
        final(state)@.territories.len() == old(state)@.territories.len(),
        forall|k: int| 0 <= k < old(state)@.territories.len() ==> storage_migrated(
            #[trigger] old(state)@.territories[k],
            final(state)@.territories[k],
        ),
        r == exists|k: int| 0 <= k < old(state)@.territories.len() && storage_touched(#[trigger] old(state)@.territories[k]),
        final(state)@ == (GameStateView { territories: final(state)@.territories, ..old(state)@ }),
{
    let ghost ts = old(state)@.territories;
    let mut out: Vec<Territory> = Vec::new();
    let mut touched = false;
    let mut k: usize = 0;
    while k < state.territories.len()
        invariant
            k <= ts.len(),
            ts == state@.territories,
            ts.len() == state.territories@.len(),
            state@ == old(state)@,
            out@.len() == k,
            forall|j: int| 0 <= j < k ==> storage_migrated(#[trigger] ts[j], out@[j]@),
            touched == exists|j: int| 0 <= j < k && storage_touched(#[trigger] ts[j]),
        decreases ts.len() - k,
    {
        let t = &state.territories[k];
        proof {
            assert(ts[k as int] == t@);
        }
        let mut u = t.dup();
        let neutral = t.owner_id.is_none() && !t.is_base && t.ruin.is_none();
        if neutral {
            match &t.body_names {
                Some(names) => {
                    if neutral_enemy_names_need_refresh(names.as_slice()) {
                        let g = generate_neutral_enemies_for_territory(t.level, t.id.as_str());
                        proof {
                            let ids = choose|ids: Seq<u32>|
                                {
                                    &&& #[trigger] ids.len() == g.1@.len()
                                    &&& g.0 == ids.len()
                                    &&& g.1@ == Seq::new(ids.len(), |i: int| neutral_enemy_stats_spec(t.level).1)
                                    &&& string_seq_view(g.2@) == ids.map_values(|id: u32| enemy_name_spec(id))
                                    &&& ids.len() <= 3
                                    &&& neutral_ids_spec(t.level, t.id@, ids)
                                };
                            assert(neutral_ids_spec(t.level, t.id@, ids));
                        }
                        u.troops = g.0;
                        u.body_monster_counts = Some(g.1);
                        u.body_names = Some(g.2);
                        touched = true;
                    }
                },
                None => {
                    if t.troops != 0 || t.body_monster_counts.is_some() {
                        u.troops = 0;
                        u.body_monster_counts = None;
                        touched = true;
                    }
                },
            }
        }
        proof {
            assert(storage_migrated(ts[k as int], u@));
        }
        out.push(u);
        k += 1;
    }
    state.territories = out;
    proof {
        assert(state@.territories =~= views(out@));
    }
    touched
}

/// The former name of [`migrate_neutral_enemy_storage`], with the same effect.
pub fn migrate_legacy_neutral_enemies(state: &mut GameState) -> (r: bool)
    ensures
        final(state)@.territories.len() == old(state)@.territories.len(),
        forall|k: int| 0 <= k < old(state)@.territories.len() ==> storage_migrated(
            #[trigger] old(state)@.territories[k],
            final(state)@.territories[k],
        ),
        r == exists|k: int| 0 <= k < old(state)@.territories.len() && storage_touched(#[trigger] old(state)@.territories[k]),
        final(state)@ == (GameStateView { territories: final(state)@.territories, ..old(state)@ }),
{
    migrate_neutral_enemy_storage(state)
}

} // verus!
