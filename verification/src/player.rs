//! Player-side rules: starting monsters, monster counts per slot, formations and homes.
use vstd::prelude::*;
use crate::cards::{card_spec, get_card};
use crate::items::{stacks, InventoryItem};
use crate::card_stats::{no_stat_bonuses, CardStatBonuses};

use crate::model::{views, MarchMissionView, PlayerData, PlayerView};

use std::collections::HashSet;

verus! {

/// Lower bound of the monster count of one owned slot.
pub const MIN_MONSTER_COUNT_PER_CARD_SLOT: u32 = 1;

/// Upper bound of the monster count of one owned slot.
pub const MAX_MONSTER_COUNT_PER_CARD_SLOT: u32 = 9999;

/// The starting monsters: card ids 0..=9, one slot each.
pub open spec fn default_owned_cards_spec() -> Seq<u32> {
    seq![0u32, 1u32, 2u32, 3u32, 4u32, 5u32, 6u32, 7u32, 8u32, 9u32]
}

/// The starting monsters: card ids 0..=9, one slot each.
pub fn default_owned_cards() -> (v: Vec<u32>)
    ensures
        v@ == default_owned_cards_spec(),
{
    let v: Vec<u32> = vec![0, 1, 2, 3, 4, 5, 6, 7, 8, 9];
    proof {
        assert(v@ =~= default_owned_cards_spec());
    }
    v
}

/// The monster count a fresh slot of this card gets: the card's own count (1 for unknown
/// cards or a zero count), kept within 1..=9999.
pub open spec fn default_monster_count_spec(card_id: u32) -> u32 {
    let raw: u32 = match card_spec(card_id) {
        Some(c) => if c.stats.monster_count > 0 { c.stats.monster_count } else { 1 },
        None => 1,
    };
    if raw < MIN_MONSTER_COUNT_PER_CARD_SLOT {
        MIN_MONSTER_COUNT_PER_CARD_SLOT
    } else if raw > MAX_MONSTER_COUNT_PER_CARD_SLOT {
        MAX_MONSTER_COUNT_PER_CARD_SLOT
    } else {
        raw
    }
}

/// The monster count a fresh slot of this card gets.
pub fn default_monster_count_for_card_id(card_id: u32) -> (n: u32)
    ensures
        n == default_monster_count_spec(card_id),
        MIN_MONSTER_COUNT_PER_CARD_SLOT <= n <= MAX_MONSTER_COUNT_PER_CARD_SLOT,
{
    let raw = match get_card(card_id) {
        Some(c) => if c.stats.monster_count > 0 {
            c.stats.monster_count
        } else {
            1
        },
        None => 1,
    };
    if raw < MIN_MONSTER_COUNT_PER_CARD_SLOT {
        MIN_MONSTER_COUNT_PER_CARD_SLOT
    } else if raw > MAX_MONSTER_COUNT_PER_CARD_SLOT {
        MAX_MONSTER_COUNT_PER_CARD_SLOT
    } else {
        raw
    }
}

/// Fresh monster counts for a list of owned cards, slot by slot.
pub fn initial_card_monster_counts_for_owned(owned: &[u32]) -> (counts: Vec<u32>)
    ensures
        counts@.len() == owned@.len(),
        forall|i: int| 0 <= i < owned@.len() ==> #[trigger] counts@[i] == default_monster_count_spec(owned@[i]),
{
    let mut counts: Vec<u32> = Vec::new();
    let mut i: usize = 0;
    while i < owned.len()
        invariant
            i <= owned@.len(),
            counts@.len() == i,
            forall|k: int| 0 <= k < i ==> #[trigger] counts@[k] == default_monster_count_spec(owned@[k]),
        decreases owned.len() - i,
    {
        counts.push(default_monster_count_for_card_id(owned[i]));
        i += 1;
    }
    counts
}

/// The starting inventory: building materials of every grade.
pub open spec fn dev_inventory_spec() -> Seq<(Seq<char>, u32)> {
    seq![
        ("ancient_stone"@, 500u32),
        ("rusty_gear"@, 200u32),
        ("rotten_wood"@, 300u32),
        ("broken_brick"@, 200u32),
        ("mystic_crystal"@, 100u32),
        ("magic_shard"@, 150u32),
        ("refined_iron"@, 100u32),
        ("reinforced_fiber"@, 80u32),
        ("ancient_blueprint"@, 30u32),
        ("shining_magicstone"@, 50u32),
        ("golden_gear"@, 20u32),
        ("guardian_core"@, 10u32),
        ("ancient_kings_seal"@, 5u32),
        ("dragon_scale"@, 3u32),
    ]
}

/// The starting inventory: building materials of every grade.
pub fn default_dev_inventory() -> (v: Vec<InventoryItem>)
    ensures
        stacks(v@) == dev_inventory_spec(),
{
    let mut v: Vec<InventoryItem> = Vec::new();
    v.push(InventoryItem { item_id: "ancient_stone".to_owned(), count: 500 });
    v.push(InventoryItem { item_id: "rusty_gear".to_owned(), count: 200 });
    v.push(InventoryItem { item_id: "rotten_wood".to_owned(), count: 300 });
    v.push(InventoryItem { item_id: "broken_brick".to_owned(), count: 200 });
    v.push(InventoryItem { item_id: "mystic_crystal".to_owned(), count: 100 });
    v.push(InventoryItem { item_id: "magic_shard".to_owned(), count: 150 });
    v.push(InventoryItem { item_id: "refined_iron".to_owned(), count: 100 });
    v.push(InventoryItem { item_id: "reinforced_fiber".to_owned(), count: 80 });
    v.push(InventoryItem { item_id: "ancient_blueprint".to_owned(), count: 30 });
    v.push(InventoryItem { item_id: "shining_magicstone".to_owned(), count: 50 });
    v.push(InventoryItem { item_id: "golden_gear".to_owned(), count: 20 });
    v.push(InventoryItem { item_id: "guardian_core".to_owned(), count: 10 });
    v.push(InventoryItem { item_id: "ancient_kings_seal".to_owned(), count: 5 });
    v.push(InventoryItem { item_id: "dragon_scale".to_owned(), count: 3 });
    proof {
        assert(stacks(v@) =~= dev_inventory_spec());
    }
    v
}

/// Formation slot of the leader (front 0, middle 1, leader 2).
pub const KC_LEADER_FORMATION_SLOT_INDEX: usize = 2;

/// A formed unit can march out or defend once its leader slot is filled.
pub fn is_kc_unit_ready_to_deploy(indices: &[i32; 3]) -> (r: bool)
    ensures
        r == (indices@[2] >= 0),
{
    indices[KC_LEADER_FORMATION_SLOT_INDEX] >= 0
}

/// The filled slots of a formation, in slot order (front, middle, leader).
pub open spec fn filled_slots(s: Seq<i32>) -> Seq<usize>
    decreases s.len(),
{
    if s.len() == 0 {
        seq![]
    } else {
        let rest = filled_slots(s.drop_last());
        if s.last() >= 0 {
            rest.push(s.last() as usize)
        } else {
            rest
        }
    }
}

/// The owned-card slots a formation uses, front to leader, empty slots skipped.
pub fn formation_owned_slots_in_slot_order(indices: &[i32; 3]) -> (r: Vec<usize>)
    ensures
        r@ == filled_slots(indices@),
{
    let mut out: Vec<usize> = Vec::new();
    let mut i: usize = 0;
    while i < 3
        invariant
            i <= 3,
            indices@.len() == 3,
            out@ == filled_slots(indices@.take(i as int)),
        decreases 3 - i,
    {
        proof {
            assert(indices@.take(i + 1).drop_last() =~= indices@.take(i as int));
        }
        let v = indices[i];
        if v >= 0 {
            out.push(v as usize);
        }
        i += 1;
    }
    proof {
        assert(indices@.take(3) =~= indices@);
    }
    out
}

/// The expedition carries the monster of owned slot `s`.
pub open spec fn uses_slot(m: MarchMissionView, s: usize) -> bool {
    match m.owned_card_indices {
        Some(v) => v.contains(s),
        None => false,
    }
}

/// The owned slots used by expeditions that have not yet arrived at `now` (returns included).
pub open spec fn locked_slots(marches: Seq<MarchMissionView>, now: u64) -> Set<usize> {
    Set::new(
        |s: usize|
            exists|i: int|
                0 <= i < marches.len() && (#[trigger] marches[i]).arrives_at > now
                    && uses_slot(marches[i], s),
    )
}

/// The owned slots used by expeditions still under way at `now` (returns included).
pub fn march_locked_card_slots(player: &PlayerData, now: u64) -> (r: HashSet<usize>)
    ensures
        r@ == locked_slots(player@.marches, now),
{
    broadcast use vstd::std_specs::hash::group_hash_axioms;

    let ghost ms = player@.marches;
    let mut locked: HashSet<usize> = HashSet::new();
    let mut i: usize = 0;
    while i < player.marches.len()
        invariant
            i <= player.marches@.len(),
            ms == player@.marches,
            locked@ == locked_slots(ms.take(i as int), now),
        decreases player.marches@.len() - i,
    {
        let m = &player.marches[i];
        let ghost before = locked@;
        if m.arrives_at > now {
            if let Some(oci) = &m.owned_card_indices {
                let mut k: usize = 0;
                while k < oci.len()
                    invariant
                        k <= oci@.len(),
                        locked@ == before + oci@.take(k as int).to_set(),
                    decreases oci@.len() - k,
                {
                    locked.insert(oci[k]);
                    k += 1;
                    proof {
                        assert(oci@.take(k as int).to_set() =~= oci@.take(k - 1).to_set().insert(
                            oci@[k - 1],
                        )) by {
                            assert(oci@.take(k as int) =~= oci@.take(k - 1).push(oci@[k - 1]));
                            oci@.take(k - 1).lemma_push_to_set_commute(oci@[k - 1]);
                        }
                        assert(locked@ =~= before + oci@.take(k as int).to_set());
                    }
                }
                proof {
                    assert(oci@.take(oci@.len() as int) =~= oci@);
                }
            }
        }
        proof {
            let next = ms.take(i + 1);
            assert(ms.take(i as int) =~= next.drop_last());
            assert(next[i as int] == ms[i as int]);
            assert(locked@ =~= locked_slots(next, now)) by {
                assert forall|s: usize| locked@.contains(s) implies locked_slots(next, now).contains(
                    s,
                ) by {
                    if before.contains(s) {
                        let j = choose|j: int|
                            0 <= j < i && (#[trigger] ms.take(i as int)[j]).arrives_at > now
                                && uses_slot(ms.take(i as int)[j], s);
                        assert(next[j] == ms.take(i as int)[j]);
                    } else {
                        assert(next[i as int].arrives_at > now);
                    }
                }
                assert forall|s: usize| locked_slots(next, now).contains(s) implies locked@.contains(
                    s,
                ) by {
                    let j = choose|j: int|
                        0 <= j < next.len() && (#[trigger] next[j]).arrives_at > now
                            && uses_slot(next[j], s);
                    if j < i {
                        assert(ms.take(i as int)[j] == next[j]);
                        assert(locked_slots(ms.take(i as int), now).contains(s));
                    } else {
                        let v = next[j].owned_card_indices->0;
                        let k = choose|k: int| 0 <= k < v.len() && v[k] == s;
                        assert(v.to_set().contains(s)) by {
                            assert(v[k] == s);
                        }
                    }
                }
            }
        }
        i += 1;
    }
    proof {
        assert(ms.take(ms.len() as int) =~= ms);
    }
    locked
}

/// Formed-unit ids of expeditions still under way at `now` (returns included).
pub open spec fn busy_unit_ids(marches: Seq<MarchMissionView>, now: u64) -> Set<Seq<char>> {
    Set::new(
        |id: Seq<char>|
            exists|i: int|
                0 <= i < marches.len() && (#[trigger] marches[i]).arrives_at > now
                    && marches[i].formed_unit_id == Some(id),
    )
}

/// The formed units busy with an expedition at `now` (returns included), each id once.
pub fn march_busy_formed_unit_ids(player: &PlayerData, now: u64) -> (r: Vec<String>)
    ensures
        views(r@).to_set() == busy_unit_ids(player@.marches, now),
        views(r@).no_duplicates(),
{
    let ghost ms = player@.marches;
    let mut out: Vec<String> = Vec::new();
    let mut i: usize = 0;
    while i < player.marches.len()
        invariant
            i <= player.marches@.len(),
            ms == player@.marches,
            views(out@).to_set() == busy_unit_ids(ms.take(i as int), now),
            views(out@).no_duplicates(),
        decreases player.marches@.len() - i,
    {
        let m = &player.marches[i];
        let ghost before = views(out@);
        if m.arrives_at > now {
            if let Some(fid) = &m.formed_unit_id {
                if !contains_string(&out, fid.as_str()) {
                    out.push(fid.clone());
                    proof {
                        assert(views(out@) =~= before.push(fid@));
                    }
                }
            }
        }
        proof {
            let next = ms.take(i + 1);
            assert(ms.take(i as int) =~= next.drop_last());
            assert(next[i as int] == ms[i as int]);
            assert(views(out@).to_set() =~= busy_unit_ids(next, now)) by {
                assert forall|x: Seq<char>| views(out@).to_set().contains(x) implies busy_unit_ids(
                    next,
                    now,
                ).contains(x) by {
                    if before.to_set().contains(x) {
                        let j = choose|j: int|
                            0 <= j < i && (#[trigger] ms.take(i as int)[j]).arrives_at > now
                                && ms.take(i as int)[j].formed_unit_id == Some(x);
                        assert(next[j] == ms.take(i as int)[j]);
                    } else {
                        let k = choose|k: int| 0 <= k < views(out@).len() && views(out@)[k] == x;
                        assert(next[i as int].arrives_at > now);
                    }
                }
                assert forall|x: Seq<char>| busy_unit_ids(next, now).contains(x) implies views(
                    out@,
                ).to_set().contains(x) by {
                    let j = choose|j: int|
                        0 <= j < next.len() && (#[trigger] next[j]).arrives_at > now
                            && next[j].formed_unit_id == Some(x);
                    if j < i {
                        assert(ms.take(i as int)[j] == next[j]);
                        assert(busy_unit_ids(ms.take(i as int), now).contains(x));
                        assert(before.to_set().contains(x));
                        let k = choose|k: int| 0 <= k < before.len() && before[k] == x;
                        assert(views(out@)[k] == x);
                    } else {
                        if before.to_set().contains(x) {
                            let k = choose|k: int| 0 <= k < before.len() && before[k] == x;
                            assert(views(out@)[k] == x);
                        } else {
                            assert(views(out@)[views(out@).len() - 1] == x);
                        }
                    }
                }
            }
        }
        i += 1;
    }
    proof {
        assert(ms.take(ms.len() as int) =~= ms);
    }
    out
}

/// Whether `id` is among the strings of `v`.
pub fn contains_string(v: &Vec<String>, id: &str) -> (r: bool)
    ensures
        r == views(v@).contains(id@),
{
    let mut i: usize = 0;
    while i < v.len()
        invariant
            i <= v@.len(),
            forall|k: int| 0 <= k < i ==> v@[k]@ != id@,
        decreases v@.len() - i,
    {
        if crate::text::str_eq(v[i].as_str(), id) {
            proof {
                assert(views(v@)[i as int] == id@);
            }
            return true;
        }
        i += 1;
    }
    proof {
        assert forall|k: int| 0 <= k < views(v@).len() implies views(v@)[k] != id@ by {
            assert(views(v@)[k] == v@[k]@);
        }
    }
    false
}

/// The accounts kept at full strength for development and automatic login.
pub open spec fn is_test_player_spec(id: Seq<char>) -> bool {
    id == "offline_test"@ || id == "player"@
}

/// Whether `player_id` is one of the development test accounts.
pub fn is_test_player(player_id: &str) -> (r: bool)
    ensures
        r == is_test_player_spec(player_id@),
{
    crate::text::str_eq(player_id, "offline_test") || crate::text::str_eq(player_id, "player")
}

/// The per-slot state of a test account: the ten starting cards, each at the monster cap,
/// with full stamina `max_stamina`, level 1, no experience or points, not resting, not
/// awakened, not enhanced; unit cost cap 10.0.
pub open spec fn bootstrapped(old: PlayerView, new: PlayerView, max_stamina: u32) -> bool {
    let n = default_owned_cards_spec().len();
    &&& new == PlayerView {
        owned_cards: default_owned_cards_spec(),
        card_monster_counts: Seq::new(n, |i: int| MAX_MONSTER_COUNT_PER_CARD_SLOT),
        card_stamina: Seq::new(n, |i: int| max_stamina),
        card_levels: Seq::new(n, |i: int| 1u32),
        card_exp: Seq::new(n, |i: int| 0u64),
        card_status_points: Seq::new(n, |i: int| 0u32),
        card_stat_bonuses: Seq::new(n, |i: int| no_stat_bonuses()),
        card_rest_until: Seq::new(n, |i: int| 0u64),
        card_awakened: Seq::new(n, |i: int| false),
        card_enhanced: Seq::new(n, |i: int| false),
        unit_cost_cap_milli: 10_000,
        ..old
    }
}

/// Puts a test account at full strength (see [`bootstrapped`]); `max_stamina` is the
/// configured stamina cap.
pub fn bootstrap_test_player(player: &mut PlayerData, max_stamina: u32)
    ensures
        bootstrapped(old(player)@, final(player)@, max_stamina),
{
    player.owned_cards = default_owned_cards();
    let n = player.owned_cards.len();
    player.card_monster_counts = vec_fill(MAX_MONSTER_COUNT_PER_CARD_SLOT, n);
    player.card_stamina = vec_fill(max_stamina, n);
    player.card_levels = vec_fill(1u32, n);
    player.card_exp = vec_fill(0u64, n);
    player.card_status_points = vec_fill(0u32, n);
    player.card_stat_bonuses = vec_fill(CardStatBonuses::default(), n);
    player.card_rest_until = vec_fill(0u64, n);
    player.card_awakened = vec_fill(false, n);
    player.card_enhanced = vec_fill(false, n);
    player.unit_cost_cap_milli = 10_000;
    proof {
        assert(player@.card_monster_counts =~= Seq::new(n as nat, |i: int| MAX_MONSTER_COUNT_PER_CARD_SLOT));
        assert(player@.card_stamina =~= Seq::new(n as nat, |i: int| max_stamina));
        assert(player@.card_levels =~= Seq::new(n as nat, |i: int| 1u32));
        assert(player@.card_exp =~= Seq::new(n as nat, |i: int| 0u64));
        assert(player@.card_status_points =~= Seq::new(n as nat, |i: int| 0u32));
        assert(player@.card_stat_bonuses =~= Seq::new(n as nat, |i: int| no_stat_bonuses()));
        assert(player@.card_rest_until =~= Seq::new(n as nat, |i: int| 0u64));
        assert(player@.card_awakened =~= Seq::new(n as nat, |i: int| false));
        assert(player@.card_enhanced =~= Seq::new(n as nat, |i: int| false));
    }
}

/// `n` copies of `x`.
pub fn vec_fill<T: Copy>(x: T, n: usize) -> (v: Vec<T>)
    ensures
        v@.len() == n,
        forall|i: int| 0 <= i < n ==> v@[i] == x,
{
    let mut v: Vec<T> = Vec::new();
    let mut i: usize = 0;
    while i < n
        invariant
            i <= n,
            v@.len() == i,
            forall|k: int| 0 <= k < i ==> v@[k] == x,
        decreases n - i,
    {
        v.push(x);
        i += 1;
    }
    v
}

/// `x` kept within the per-slot monster bounds.
pub open spec fn clamp_monsters(x: u32) -> u32 {
    if x < MIN_MONSTER_COUNT_PER_CARD_SLOT {
        MIN_MONSTER_COUNT_PER_CARD_SLOT
    } else if x > MAX_MONSTER_COUNT_PER_CARD_SLOT {
        MAX_MONSTER_COUNT_PER_CARD_SLOT
    } else {
        x
    }
}

/// Makes the per-slot monster counts as long as the owned cards (extra counts are dropped,
/// missing ones get the card's default) and keeps every count within the slot bounds.
pub fn ensure_card_monster_counts(player: &mut PlayerData)
    ensures
        final(player)@ == (PlayerView { card_monster_counts: final(player)@.card_monster_counts, ..old(player)@ }),
        final(player).card_monster_counts@.len() == old(player).owned_cards@.len(),
        forall|i: int|
            0 <= i < old(player).owned_cards@.len() ==> final(player).card_monster_counts@[i]
                == clamp_monsters(
                if i < old(player).card_monster_counts@.len() {
                    old(player).card_monster_counts@[i]
                } else {
                    default_monster_count_spec(old(player).owned_cards@[i])
                },
            ),
{
    let n = player.owned_cards.len();
    if player.card_monster_counts.len() > n {
        player.card_monster_counts.truncate(n);
    }
    let ghost start = player.card_monster_counts@;
    while player.card_monster_counts.len() < n
        invariant
            n == player.owned_cards@.len(),
            player@ == (PlayerView { card_monster_counts: player@.card_monster_counts, ..old(player)@ }),
            start.len() <= player.card_monster_counts@.len() <= n,
            start.len() <= old(player).card_monster_counts@.len(),
            start.len() == n || start.len() == old(player).card_monster_counts@.len(),
            forall|i: int| 0 <= i < start.len() ==> start[i] == old(player).card_monster_counts@[i],
            forall|i: int|
                0 <= i < player.card_monster_counts@.len() ==> player.card_monster_counts@[i] == if i
                    < start.len() {
                    start[i]
                } else {
                    default_monster_count_spec(player.owned_cards@[i])
                },
        decreases n - player.card_monster_counts@.len(),
    {
        let idx = player.card_monster_counts.len();
        let id = player.owned_cards[idx];
        player.card_monster_counts.push(default_monster_count_for_card_id(id));
    }
    let mut k: usize = 0;
    while k < n
        invariant
            k <= n == player.card_monster_counts@.len(),
            n == player.owned_cards@.len(),
            player@ == (PlayerView { card_monster_counts: player@.card_monster_counts, ..old(player)@ }),
            start.len() <= old(player).card_monster_counts@.len(),
            start.len() == n || start.len() == old(player).card_monster_counts@.len(),
            forall|i: int| 0 <= i < start.len() ==> start[i] == old(player).card_monster_counts@[i],
            forall|i: int|
                0 <= i < n ==> player.card_monster_counts@[i] == if i < k {
                    clamp_monsters(
                        if i < start.len() {
                            start[i]
                        } else {
                            default_monster_count_spec(player.owned_cards@[i])
                        },
                    )
                } else if i < start.len() {
                    start[i]
                } else {
                    default_monster_count_spec(player.owned_cards@[i])
                },
        decreases n - k,
    {
        let c = player.card_monster_counts[k];
        let clamped = if c < MIN_MONSTER_COUNT_PER_CARD_SLOT {
            MIN_MONSTER_COUNT_PER_CARD_SLOT
        } else if c > MAX_MONSTER_COUNT_PER_CARD_SLOT {
            MAX_MONSTER_COUNT_PER_CARD_SLOT
        } else {
            c
        };
        player.card_monster_counts.set(k, clamped);
        k += 1;
    }
}

} // verus!
