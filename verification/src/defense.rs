//! Who defends a tile: its stationed garrison, the owner's best formed unit at home, the
//! owner's strongest free monsters, or the neutral enemies of the tile.
use vstd::prelude::*;
use crate::cards::{card_spec, get_card};
use crate::model::{find_player, has_player, is_player_index, views, PlayerData, PlayerView, StoredFormedUnit};
use crate::neutral::{generate_neutral_enemies_for_territory, neutral_ids_spec, neutral_enemy_stats_spec, enemy_name_spec, resolve_stored_garrison_defenders, stored_names_default};
use crate::player::{busy_unit_ids, contains_string, filled_slots, formation_owned_slots_in_slot_order, is_kc_unit_ready_to_deploy, locked_slots, march_busy_formed_unit_ids, march_locked_card_slots};
use crate::territory::{string_seq_view, Territory, TerritoryView};
use crate::text::{decimal, push_decimal, string_from_chars};

verus! {

/// Bodies of a battle formation: front, back and leader.
pub const BATTLE_FORMATION_SLOTS: usize = 3;

/// The name of the monster of a card: the card's name, or "魔獣#<id>" for an unknown card.
pub open spec fn monster_name_spec(id: u32) -> Seq<char> {
    match card_spec(id) {
        Some(c) => c.name@,
        None => "魔獣#"@ + decimal(id as nat),
    }
}

/// The card of owned slot `i` (card 0 off the list).
pub open spec fn slot_card(p: PlayerView, i: usize) -> u32 {
    if i < p.owned_cards.len() { p.owned_cards[i as int] } else { 0 }
}

/// The monsters of owned slot `i`: its count (1 off the list), at least 1.
pub open spec fn slot_monsters(p: PlayerView, i: usize) -> u32 {
    let c = if i < p.card_monster_counts.len() { p.card_monster_counts[i as int] } else { 1 };
    if c < 1 { 1 } else { c }
}

fn monster_name(id: u32) -> (s: String)
    ensures
        s@ == monster_name_spec(id),
{
    match get_card(id) {
        Some(c) => c.name.to_owned(),
        None => {
            let mut v: Vec<char> = Vec::new();
            crate::game_log::push_str_chars(&mut v, "魔獣#");
            push_decimal(id as u64, &mut v);
            string_from_chars(&v)
        },
    }
}

/// The defenders a player fields from owned slots: one body per slot, with its monsters and
/// its card's name.
pub fn defenders_from_owned_slots(player: &PlayerData, slots: &[usize]) -> (r: (u32, Vec<u32>, Vec<String>))
    requires
        slots@.len() <= u32::MAX,
    ensures
        r.0 == slots@.len(),
        r.2@.len() == slots@.len(),
        r.1@ == slots@.map_values(|i: usize| slot_monsters(player@, i)),
        string_seq_view(r.2@) == slots@.map_values(|i: usize| monster_name_spec(slot_card(player@, i))),
{
    let mut names: Vec<String> = Vec::new();
    let mut counts: Vec<u32> = Vec::new();
    let mut k: usize = 0;
    while k < slots.len()
        invariant
            k <= slots@.len(),
            names@.len() == k,
            counts@ == slots@.take(k as int).map_values(|i: usize| slot_monsters(player@, i)),
            forall|j: int| 0 <= j < k ==> names@[j]@ == monster_name_spec(slot_card(player@, slots@[j])),
        decreases slots@.len() - k,
    {
        let i = slots[k];
        let card_id: u32 = if i < player.owned_cards.len() { player.owned_cards[i] } else { 0 };
        let c: u32 = if i < player.card_monster_counts.len() { player.card_monster_counts[i] } else { 1 };
        let mc = if c < 1 { 1 } else { c };
        names.push(monster_name(card_id));
        counts.push(mc);
        k += 1;
        proof {
            assert(counts@ =~= slots@.take(k as int).map_values(|i: usize| slot_monsters(player@, i)));
        }
    }
    proof {
        assert(slots@.take(slots@.len() as int) =~= slots@);
        assert(string_seq_view(names@) =~= slots@.map_values(|i: usize| monster_name_spec(slot_card(player@, i))));
    }
    (names.len() as u32, counts, names)
}

/// A formed unit can defend (or march) at `now`: its leader slot is filled, it is on no
/// expedition, and every slot it uses is owned and not away on an expedition.
pub open spec fn unit_available(p: PlayerView, u: (Seq<char>, Seq<char>, Seq<i32>), now: u64) -> bool {
    &&& u.2[2] >= 0
    &&& !busy_unit_ids(p.marches, now).contains(u.0)
    &&& forall|k: int| 0 <= k < filled_slots(u.2).len() ==> {
        let s = #[trigger] filled_slots(u.2)[k];
        s < p.owned_cards.len() && !locked_slots(p.marches, now).contains(s)
    }
}

/// Whether the formed unit can defend its home at `now` (see [`unit_available`]).
pub fn formed_unit_available_at_home(player: &PlayerData, unit: &StoredFormedUnit, now: u64) -> (r: bool)
    ensures
        r == unit_available(player@, unit@, now),
{
    broadcast use vstd::std_specs::hash::group_hash_axioms;

    if !is_kc_unit_ready_to_deploy(&unit.indices) {
        return false;
    }
    let busy = march_busy_formed_unit_ids(player, now);
    if contains_string(&busy, unit.id.as_str()) {
        proof {
            assert(views(busy@).to_set().contains(unit.id@));
        }
        return false;
    }
    proof {
        assert(!views(busy@).to_set().contains(unit.id@));
    }
    let locked = march_locked_card_slots(player, now);
    let slots = formation_owned_slots_in_slot_order(&unit.indices);
    let mut k: usize = 0;
    while k < slots.len()
        invariant
            k <= slots@.len(),
            slots@ == filled_slots(unit.indices@),
            locked@ == locked_slots(player@.marches, now),
            forall|j: int| 0 <= j < k ==> {
                let s = #[trigger] slots@[j];
                s < player@.owned_cards.len() && !locked_slots(player@.marches, now).contains(s)
            },
        decreases slots@.len() - k,
    {
        let s = slots[k];
        if s >= player.owned_cards.len() || locked.contains(&s) {
            return false;
        }
        k += 1;
    }
    true
}

/// The strength of a formed unit as a defender: the monsters of its filled slots (1 for a slot
/// without a count).
pub open spec fn unit_power(p: PlayerView, slots: Seq<usize>) -> int
    decreases slots.len(),
{
    if slots.len() == 0 {
        0
    } else {
        unit_power(p, slots.drop_last()) + (if slots.last() < p.card_monster_counts.len() {
            p.card_monster_counts[slots.last() as int] as int
        } else {
            1
        })
    }
}

/// The strength of a formed unit as a defender (see [`unit_power`]).
pub fn score_defense_unit_power(player: &PlayerData, unit: &StoredFormedUnit) -> (s: u64)
    ensures
        s == unit_power(player@, filled_slots(unit.indices@)),
{
    let slots = formation_owned_slots_in_slot_order(&unit.indices);
    proof {
        lemma_filled_slots_len(unit.indices@);
    }
    let mut total: u64 = 0;
    let mut k: usize = 0;
    while k < slots.len()
        invariant
            k <= slots@.len() <= 3,
            slots@ == filled_slots(unit.indices@),
            total == unit_power(player@, slots@.take(k as int)),
            total <= k * 0xffff_ffff,
        decreases slots@.len() - k,
    {
        let i = slots[k];
        let c: u64 = if i < player.card_monster_counts.len() { player.card_monster_counts[i] as u64 } else { 1 };
        proof {
            assert(slots@.take(k + 1).drop_last() =~= slots@.take(k as int));
        }
        total = total + c;
        k += 1;
    }
    proof {
        assert(slots@.take(slots@.len() as int) =~= slots@);
    }
    total
}

pub proof fn lemma_filled_slots_len(s: Seq<i32>)
    ensures
        filled_slots(s).len() <= s.len(),
    decreases s.len(),
{
    if s.len() > 0 {
        lemma_filled_slots_len(s.drop_last());
    }
}

/// `i` is the home defender among the formed units: an available one of greatest strength,
/// the last such one on a tie.
pub open spec fn is_home_defender(p: PlayerView, now: u64, i: int) -> bool {
    let us = p.formed_units;
    let power = |k: int| unit_power(p, filled_slots(us[k].2));
    &&& 0 <= i < us.len()
    &&& unit_available(p, us[i], now)
    &&& forall|k: int| 0 <= k < us.len() && #[trigger] unit_available(p, us[k], now) ==> power(k) <= power(i)
    &&& forall|k: int| i < k < us.len() && #[trigger] unit_available(p, us[k], now) ==> power(k) < power(i)
}

/// The formed unit that defends the home at `now` (see [`is_home_defender`]), by position.
pub fn pick_home_defense_unit(player: &PlayerData, now: u64) -> (r: Option<usize>)
    ensures
        match r {
            Some(i) => is_home_defender(player@, now, i as int),
            None => forall|k: int| 0 <= k < player@.formed_units.len() ==> !unit_available(player@, player@.formed_units[k], now),
        },
{
    let ghost us = player@.formed_units;
    let mut best: Option<usize> = None;
    let mut best_power: u64 = 0;
    let mut k: usize = 0;
    while k < player.formed_units.len()
        invariant
            k <= player.formed_units@.len(),
            us == player@.formed_units,
            us.len() == player.formed_units@.len(),
            match best {
                None => forall|j: int| 0 <= j < k ==> !unit_available(player@, us[j], now),
                Some(b) => {
                    &&& b < k
                    &&& unit_available(player@, us[b as int], now)
                    &&& best_power == unit_power(player@, filled_slots(us[b as int].2))
                    &&& forall|j: int| 0 <= j < k && #[trigger] unit_available(player@, us[j], now) ==> unit_power(player@, filled_slots(us[j].2)) <= best_power
                    &&& forall|j: int| b < j < k && #[trigger] unit_available(player@, us[j], now) ==> unit_power(player@, filled_slots(us[j].2)) < best_power
                },
            },
        decreases player.formed_units@.len() - k,
    {
        let u = &player.formed_units[k];
        proof {
            assert(us[k as int] == u@);
        }
        if formed_unit_available_at_home(player, u, now) {
            let p = score_defense_unit_power(player, u);
            let better = match best {
                None => true,
                Some(_) => p >= best_power,
            };
            if better {
                best = Some(k);
                best_power = p;
            }
        }
        k += 1;
    }
    best
}

/// The key by which free monsters are ranked as fallback defenders: more monsters first, then
/// lower slot first.
pub open spec fn ranks_before(p: PlayerView, a: usize, b: usize) -> bool {
    let ca = if a < p.card_monster_counts.len() { p.card_monster_counts[a as int] as int } else { 1 };
    let cb = if b < p.card_monster_counts.len() { p.card_monster_counts[b as int] as int } else { 1 };
    ca > cb || (ca == cb && a < b)
}

/// An owned slot that is not away on an expedition at `now`.
pub open spec fn slot_free(p: PlayerView, now: u64, s: usize) -> bool {
    s < p.owned_cards.len() && !locked_slots(p.marches, now).contains(s)
}

/// The fallback defenders at `now`: of the free owned slots, the (up to)
/// three with the most monsters, most first, lower slots first on a tie.
pub open spec fn fallback_ok(p: PlayerView, now: u64, r: Seq<usize>) -> bool {
    &&& r.len() <= BATTLE_FORMATION_SLOTS
    &&& forall|i: int| 0 <= i < r.len() ==> slot_free(p, now, #[trigger] r[i])
    &&& forall|i: int, j: int| 0 <= i < j < r.len() ==> ranks_before(p, #[trigger] r[i], #[trigger] r[j])
    &&& forall|s: usize| #[trigger] slot_free(p, now, s) && !r.contains(s) ==> {
        &&& r.len() == BATTLE_FORMATION_SLOTS
        &&& forall|i: int| 0 <= i < r.len() ==> ranks_before(p, #[trigger] r[i], s)
    }
}

proof fn lemma_fallback_prefix(p: PlayerView, now: u64, a: Seq<usize>, b: Seq<usize>, k: int)
    requires
        fallback_ok(p, now, a),
        fallback_ok(p, now, b),
        0 <= k <= a.len(),
        k <= b.len(),
    ensures
        forall|j: int| 0 <= j < k ==> a[j] == b[j],
    decreases k,
{
    if k > 0 {
        lemma_fallback_prefix(p, now, a, b, k - 1);
        let x = a[k - 1];
        let y = b[k - 1];
        if x != y {
            assert(slot_free(p, now, x) && slot_free(p, now, y));
            assert(ranks_before(p, x, y)) by {
                if a.contains(y) {
                    let j = choose|j: int| 0 <= j < a.len() && a[j] == y;
                    if j < k - 1 {
                        assert(b[j] == y);
                        assert(ranks_before(p, b[j], b[k - 1]));
                    } else {
                        assert(ranks_before(p, a[k - 1], a[j]));
                    }
                }
            }
            assert(ranks_before(p, y, x)) by {
                if b.contains(x) {
                    let j = choose|j: int| 0 <= j < b.len() && b[j] == x;
                    if j < k - 1 {
                        assert(a[j] == x);
                        assert(ranks_before(p, a[j], a[k - 1]));
                    } else {
                        assert(ranks_before(p, b[k - 1], b[j]));
                    }
                }
            }
        }
    }
}

proof fn lemma_fallback_longer(p: PlayerView, now: u64, a: Seq<usize>, b: Seq<usize>)
    requires
        fallback_ok(p, now, a),
        fallback_ok(p, now, b),
    ensures
        a.len() <= b.len(),
{
    if b.len() < a.len() {
        let m = b.len() as int;
        lemma_fallback_prefix(p, now, a, b, m);
        let x = a[m];
        assert(slot_free(p, now, x));
        if b.contains(x) {
            let j = choose|j: int| 0 <= j < b.len() && b[j] == x;
            assert(a[j] == x);
            assert(ranks_before(p, a[j], a[m]));
        }
    }
}

/// There is one fallback garrison: [`fallback_ok`] determines it.
pub proof fn lemma_fallback_unique(p: PlayerView, now: u64, a: Seq<usize>, b: Seq<usize>)
    requires
        fallback_ok(p, now, a),
        fallback_ok(p, now, b),
    ensures
        a == b,
{
    lemma_fallback_longer(p, now, a, b);
    lemma_fallback_longer(p, now, b, a);
    lemma_fallback_prefix(p, now, a, b, a.len() as int);
    assert(a =~= b);
}

pub(crate) fn vec_has(v: &Vec<usize>, x: usize) -> (r: bool)
    ensures
        r == v@.contains(x),
{
    let mut k: usize = 0;
    while k < v.len()
        invariant
            k <= v@.len(),
            forall|j: int| 0 <= j < k ==> v@[j] != x,
        decreases v@.len() - k,
    {
        if v[k] == x {
            return true;
        }
        k += 1;
    }
    false
}

/// The fallback defenders of the player at `now` (see [`fallback_ok`]).
pub fn fallback_defense_slots(player: &PlayerData, now: u64) -> (r: Vec<usize>)
    ensures
        fallback_ok(player@, now, r@),
{
    broadcast use vstd::std_specs::hash::group_hash_axioms;

    let locked = march_locked_card_slots(player, now);
    let n = player.owned_cards.len();
    let ghost p = player@;
    let mut r: Vec<usize> = Vec::new();
    let mut round: usize = 0;
    while round < BATTLE_FORMATION_SLOTS
        invariant
            round <= BATTLE_FORMATION_SLOTS,
            r@.len() == round,
            p == player@,
            n == p.owned_cards.len(),
            locked@ == locked_slots(p.marches, now),
            forall|i: int| 0 <= i < r@.len() ==> slot_free(p, now, #[trigger] r@[i]),
            forall|i: int, j: int| 0 <= i < j < r@.len() ==> ranks_before(p, #[trigger] r@[i], #[trigger] r@[j]),
            forall|s: usize| #[trigger] slot_free(p, now, s) && !r@.contains(s) ==> forall|i: int|
                0 <= i < r@.len() ==> ranks_before(p, #[trigger] r@[i], s),
        decreases BATTLE_FORMATION_SLOTS - round,
    {
        let mut best: Option<usize> = None;
        let mut best_count: u32 = 0;
        let mut t: usize = 0;
        while t < n
            invariant
                t <= n,
                n == p.owned_cards.len(),
                p == player@,
                locked@ == locked_slots(p.marches, now),
                match best {
                    None => forall|s: usize| s < t ==> !(slot_free(p, now, s) && !r@.contains(s)),
                    Some(b) => {
                        &&& b < t
                        &&& slot_free(p, now, b) && !r@.contains(b)
                        &&& best_count == (if b < p.card_monster_counts.len() { p.card_monster_counts[b as int] } else { 1u32 })
                        &&& forall|s: usize| s < t && s != b && slot_free(p, now, s) && !r@.contains(s) ==> ranks_before(p, b, s)
                    },
                },
            decreases n - t,
        {
            if !locked.contains(&t) && !vec_has(&r, t) {
                let c: u32 = if t < player.card_monster_counts.len() { player.card_monster_counts[t] } else { 1 };
                let take = match best {
                    None => true,
                    Some(_) => c > best_count,
                };
                if take {
                    best = Some(t);
                    best_count = c;
                }
            }
            t += 1;
        }
        match best {
            None => {
                return r;
            },
            Some(b) => {
                let ghost old_r = r@;
                r.push(b);
                proof {
                    assert forall|s: usize| #[trigger] slot_free(p, now, s) && !r@.contains(s) implies forall|i: int|
                        0 <= i < r@.len() ==> ranks_before(p, #[trigger] r@[i], s) by {
                        assert(!old_r.contains(s)) by {
                            if old_r.contains(s) {
                                let j = choose|j: int| 0 <= j < old_r.len() && old_r[j] == s;
                                assert(r@[j] == s);
                            }
                        }
                        assert(s != b) by {
                            assert(r@[old_r.len() as int] == b);
                        }
                        assert forall|i: int| 0 <= i < r@.len() implies ranks_before(p, #[trigger] r@[i], s) by {
                            if i < old_r.len() {
                                assert(r@[i] == old_r[i]);
                            }
                        }
                    }
                    assert forall|x: usize| old_r.contains(x) implies r@.contains(x) by {
                        let j = choose|j: int| 0 <= j < old_r.len() && old_r[j] == x;
                        assert(r@[j] == x);
                    }
                }
                round += 1;
            },
        }
    }
    r
}

/// A defending garrison: bodies, monsters per body, names per body.
pub type Defenders = (u32, Vec<u32>, Vec<String>);

/// The abstract content of a defending garrison.
pub open spec fn defenders_view(r: Defenders) -> (u32, Seq<u32>, Seq<Seq<char>>) {
    (r.0, r.1@, string_seq_view(r.2@))
}

/// The garrison fielded from owned slots (see [`defenders_from_owned_slots`]).
pub open spec fn slots_defenders(p: PlayerView, slots: Seq<usize>) -> (u32, Seq<u32>, Seq<Seq<char>>) {
    (
        slots.len() as u32,
        slots.map_values(|i: usize| slot_monsters(p, i)),
        slots.map_values(|i: usize| monster_name_spec(slot_card(p, i))),
    )
}

/// The tile holds a stationed garrison with a name and a monster count for each body.
pub open spec fn has_stationed_garrison(t: TerritoryView) -> bool {
    match (t.body_names, t.body_monster_counts) {
        (Some(names), Some(counts)) => names.len() > 0 && names.len() == counts.len() && t.troops == names.len(),
        _ => false,
    }
}

/// The defenders of a tile owned by `p`: its stationed garrison if it has one, else the home
/// defender unit, else the fallback defenders.
pub open spec fn owned_defenders_ok(p: PlayerView, t: TerritoryView, now: u64, r: (u32, Seq<u32>, Seq<Seq<char>>)) -> bool {
    if has_stationed_garrison(t) {
        r == (t.troops, t.body_monster_counts.unwrap(), t.body_names.unwrap())
    } else if exists|i: int| is_home_defender(p, now, i) {
        let i = choose|i: int| is_home_defender(p, now, i);
        r == slots_defenders(p, filled_slots(p.formed_units[i].2))
    } else {
        exists|fb: Seq<usize>| fallback_ok(p, now, fb) && r == #[trigger] slots_defenders(p, fb)
    }
}

proof fn lemma_home_defender_unique(p: PlayerView, now: u64, i: int, j: int)
    requires
        is_home_defender(p, now, i),
        is_home_defender(p, now, j),
    ensures
        i == j,
{
    let us = p.formed_units;
    assert(unit_available(p, us[i], now));
    assert(unit_available(p, us[j], now));
}

/// The defenders of a tile owned by `player` at `now` (see [`owned_defenders_ok`]).
pub fn resolve_owned_player_defenders(player: &PlayerData, territory: &Territory, now: u64) -> (r: Defenders)
    ensures
        owned_defenders_ok(player@, territory@, now, defenders_view(r)),
        r.1@.len() <= 3 || r.1@.len() == territory.troops,
        r.2@.len() <= 3 || r.2@.len() == territory.troops,
{
    if let (Some(names), Some(counts)) = (&territory.body_names, &territory.body_monster_counts) {
        let n = names.len();
        if n > 0 && n == counts.len() && territory.troops as usize == n {
            let c = crate::territory::clone_u32_vec(counts);
            let ns = crate::territory::clone_string_vec(names);
            return (territory.troops, c, ns);
        }
    }
    if let Some(i) = pick_home_defense_unit(player, now) {
        let slots = formation_owned_slots_in_slot_order(&player.formed_units[i].indices);
        proof {
            lemma_filled_slots_len(player.formed_units@[i as int].indices@);
        }
        let r = defenders_from_owned_slots(player, slots.as_slice());
        proof {
            let j = choose|j: int| is_home_defender(player@, now, j);
            lemma_home_defender_unique(player@, now, i as int, j);
            assert(player@.formed_units[i as int].2 == player.formed_units@[i as int].indices@);
        }
        return r;
    }
    let slots = fallback_defense_slots(player, now);
    proof {
        lemma_filled_fallback_len(player@, now, slots@);
    }
    let r = defenders_from_owned_slots(player, slots.as_slice());
    proof {
        assert(fallback_ok(player@, now, slots@) && defenders_view(r) == slots_defenders(player@, slots@));
    }
    r
}

proof fn lemma_filled_fallback_len(p: PlayerView, now: u64, s: Seq<usize>)
    requires
        fallback_ok(p, now, s),
    ensures
        s.len() <= u32::MAX,
{
}

/// The neutral garrison of a tile of `level` keyed by `key` (see
/// [`generate_neutral_enemies_for_territory`]).
pub open spec fn neutral_defenders_ok(level: u8, key: Seq<char>, r: (u32, Seq<u32>, Seq<Seq<char>>)) -> bool {
    exists|ids: Seq<u32>|
        {
            &&& #[trigger] neutral_ids_spec(level, key, ids)
            &&& ids.map_values(|id: u32| enemy_name_spec(id)) == r.2
            &&& r.0 == ids.len()
            &&& r.1 == Seq::new(ids.len(), |i: int| neutral_enemy_stats_spec(level).1)
        }
}

/// The garrison kept on a tile (see [`resolve_stored_garrison_defenders`]).
pub open spec fn stored_defenders(t: TerritoryView) -> (u32, Seq<u32>, Seq<Seq<char>>) {
    (
        t.troops,
        match t.body_monster_counts {
            Some(v) if v.len() == t.troops => v,
            _ => Seq::new(if t.troops < 1 { 1 } else { t.troops as nat }, |i: int| 1u32),
        },
        match t.body_names {
            Some(v) if v.len() == t.troops => v,
            _ => stored_names_default(t.troops),
        },
    )
}

/// The defenders of a tile: an owner's (see [`owned_defenders_ok`]; the first player with the
/// owner's id) when the owner is a known player; else the garrison kept on the tile when it has
/// a ruin, kept names or an owner; else the neutral garrison of its level and id.
pub open spec fn territory_defenders_ok(t: TerritoryView, ps: Seq<PlayerData>, now: u64, r: (u32, Seq<u32>, Seq<Seq<char>>)) -> bool {
    match t.owner_id {
        Some(o) if has_player(ps, o) => exists|i: int|
            #[trigger] is_player_index(ps, o, i) && (forall|j: int| 0 <= j < i ==> ps[j].player_id@ != o)
                && owned_defenders_ok(ps[i]@, t, now, r),
        _ => if t.ruin is Some || t.body_names is Some || t.owner_id is Some {
            r == stored_defenders(t)
        } else {
            neutral_defenders_ok(t.level, t.id, r)
        },
    }
}

/// The defenders of a tile at `now` (see [`territory_defenders_ok`]).
pub fn resolve_territory_defenders(territory: &Territory, players: &Vec<PlayerData>, now: u64) -> (r: Defenders)
    ensures
        territory_defenders_ok(territory@, players@, now, defenders_view(r)),
        r.1@.len() <= 3 || r.1@.len() == territory.troops,
        r.2@.len() <= 3 || r.2@.len() == territory.troops,
{
    if let Some(owner_id) = &territory.owner_id {
        if let Some(i) = find_player(players, owner_id.as_str()) {
            let r = resolve_owned_player_defenders(&players[i], territory, now);
            proof {
                assert(is_player_index(players@, owner_id@, i as int));
            }
            return r;
        }
    }
    if territory.ruin.is_some() || territory.body_names.is_some() || territory.owner_id.is_some() {
        let r = resolve_stored_garrison_defenders(territory);
        proof {
            assert(r.2@.len() == string_seq_view(r.2@).len());
        }
        return r;
    }
    let r = generate_neutral_enemies_for_territory(territory.level, territory.id.as_str());
    proof {
        let ids = choose|ids: Seq<u32>|
            {
                &&& #[trigger] ids.len() == r.1@.len()
                &&& r.0 == ids.len()
                &&& r.1@ == Seq::new(ids.len(), |i: int| neutral_enemy_stats_spec(territory.level).1)
                &&& string_seq_view(r.2@) == ids.map_values(|id: u32| enemy_name_spec(id))
                &&& ids.len() <= 3
                &&& neutral_ids_spec(territory.level, territory.id@, ids)
            };
        assert(ids.map_values(|id: u32| enemy_name_spec(id)) == defenders_view(r).2);
    }
    r
}

/// Every count is at most `b`.
pub open spec fn counts_at_most(s: Seq<u32>, b: int) -> bool {
    forall|k: int| 0 <= k < s.len() ==> #[trigger] s[k] <= b
}

/// The defenders of a tile have at most `b` monsters per body when the tile's kept counts and
/// every player's counts do (and `b` covers a neutral garrison).
pub proof fn lemma_defender_counts_bounded(
    t: TerritoryView,
    ps: Seq<PlayerData>,
    now: u64,
    d: (u32, Seq<u32>, Seq<Seq<char>>),
    b: int,
)
    requires
        territory_defenders_ok(t, ps, now, d),
        b >= 9000,
        t.body_monster_counts matches Some(v) ==> counts_at_most(v, b),
        forall|i: int| 0 <= i < ps.len() ==> counts_at_most((#[trigger] ps[i])@.card_monster_counts, b),
    ensures
        counts_at_most(d.1, b),
{
    match t.owner_id {
        Some(o) => {
            if has_player(ps, o) {
                let i = choose|i: int|
                    #[trigger] is_player_index(ps, o, i) && (forall|j: int| 0 <= j < i ==> ps[j].player_id@ != o)
                        && owned_defenders_ok(ps[i]@, t, now, d);
                let p = ps[i]@;
                assert(counts_at_most(p.card_monster_counts, b));
                if !has_stationed_garrison(t) {
                    if exists|k: int| is_home_defender(p, now, k) {
                        let k = choose|k: int| is_home_defender(p, now, k);
                        let sl = filled_slots(p.formed_units[k].2);
                        assert forall|x: int| 0 <= x < d.1.len() implies #[trigger] d.1[x] <= b by {
                            assert(d.1[x] == slot_monsters(p, sl[x]));
                        }
                    } else {
                        let fb = choose|fb: Seq<usize>| fallback_ok(p, now, fb) && d == #[trigger] slots_defenders(p, fb);
                        assert forall|x: int| 0 <= x < d.1.len() implies #[trigger] d.1[x] <= b by {
                            assert(d.1[x] == slot_monsters(p, fb[x]));
                        }
                    }
                }
            }
        },
        None => {
            if !(t.ruin is Some || t.body_names is Some) {
                let ids = choose|ids: Seq<u32>|
                    {
                        &&& #[trigger] neutral_ids_spec(t.level, t.id, ids)
                        &&& ids.map_values(|id: u32| enemy_name_spec(id)) == d.2
                        &&& d.0 == ids.len()
                        &&& d.1 == Seq::new(ids.len(), |i: int| neutral_enemy_stats_spec(t.level).1)
                    };
                assert(neutral_enemy_stats_spec(t.level).1 <= 9000);
            }
        },
    }
}

/// The defenders of a tile are determined by the tile, the players and the time: a tile has
/// one garrison at a time.
pub proof fn lemma_defenders_unique(
    t: TerritoryView,
    ps: Seq<PlayerData>,
    now: u64,
    d1: (u32, Seq<u32>, Seq<Seq<char>>),
    d2: (u32, Seq<u32>, Seq<Seq<char>>),
)
    requires
        territory_defenders_ok(t, ps, now, d1),
        territory_defenders_ok(t, ps, now, d2),
    ensures
        d1 == d2,
{
    match t.owner_id {
        Some(o) => {
            if has_player(ps, o) {
                let i1 = choose|i: int|
                    #[trigger] is_player_index(ps, o, i) && (forall|j: int| 0 <= j < i ==> ps[j].player_id@ != o)
                        && owned_defenders_ok(ps[i]@, t, now, d1);
                let i2 = choose|i: int|
                    #[trigger] is_player_index(ps, o, i) && (forall|j: int| 0 <= j < i ==> ps[j].player_id@ != o)
                        && owned_defenders_ok(ps[i]@, t, now, d2);
                assert(i1 == i2) by {
                    if i1 < i2 {
                        assert(ps[i1].player_id@ != o);
                    } else if i2 < i1 {
                        assert(ps[i2].player_id@ != o);
                    }
                }
                let p = ps[i1]@;
                if !has_stationed_garrison(t) && !(exists|i: int| is_home_defender(p, now, i)) {
                    let f1 = choose|fb: Seq<usize>| fallback_ok(p, now, fb) && d1 == #[trigger] slots_defenders(p, fb);
                    let f2 = choose|fb: Seq<usize>| fallback_ok(p, now, fb) && d2 == #[trigger] slots_defenders(p, fb);
                    lemma_fallback_unique(p, now, f1, f2);
                }
            }
        },
        None => {
            if !(t.ruin is Some || t.body_names is Some) {
                let a = choose|ids: Seq<u32>|
                    {
                        &&& #[trigger] neutral_ids_spec(t.level, t.id, ids)
                        &&& ids.map_values(|id: u32| enemy_name_spec(id)) == d1.2
                        &&& d1.0 == ids.len()
                        &&& d1.1 == Seq::new(ids.len(), |i: int| neutral_enemy_stats_spec(t.level).1)
                    };
                let b = choose|ids: Seq<u32>|
                    {
                        &&& #[trigger] neutral_ids_spec(t.level, t.id, ids)
                        &&& ids.map_values(|id: u32| enemy_name_spec(id)) == d2.2
                        &&& d2.0 == ids.len()
                        &&& d2.1 == Seq::new(ids.len(), |i: int| neutral_enemy_stats_spec(t.level).1)
                    };
                crate::neutral::lemma_neutral_ids_deterministic(t.level, t.id, a, b);
            }
        },
    }
}

/// The defenders of a tile (see [`territory_defenders_ok`] and [`lemma_defenders_unique`]).
pub open spec fn defenders_of(t: TerritoryView, ps: Seq<PlayerData>, now: u64) -> (u32, Seq<u32>, Seq<Seq<char>>) {
    choose|d: (u32, Seq<u32>, Seq<Seq<char>>)| territory_defenders_ok(t, ps, now, d)
}

/// Defenders that are correct for a tile are its defenders.
pub proof fn lemma_defenders_of(t: TerritoryView, ps: Seq<PlayerData>, now: u64, d: (u32, Seq<u32>, Seq<Seq<char>>))
    requires
        territory_defenders_ok(t, ps, now, d),
    ensures
        d == defenders_of(t, ps, now),
{
    lemma_defenders_unique(t, ps, now, d, defenders_of(t, ps, now));
}

} // verus!
