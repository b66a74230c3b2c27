//! Decisions of the development opponent bot: the monsters it sends from home and the tile it
//! attacks.
use vstd::prelude::*;
use crate::cards::card_spec;
use crate::cards::get_card;
use crate::formation::{build_formation_from_indices, first_player_index, formation_spec, lemma_first_player_index, opt_formation_view, AttackFormation, AttackFormationView};
use crate::grid::{abs, coords_of, ids_adjacent, territories_are_adjacent};
use crate::homes::{coords_small, map_coords_small, min_dist_spec, min_distance_to_homes};
use crate::model::{find_player, has_player, views, Action, GameState, PlayerData, PlayerView};
use crate::state::{attack_base_owner_ids, base_owner_ids_spec};
use crate::territory::{attackable_spec, is_attackable_target, owned_by_any, string_seq_view, Territory};
use crate::text::str_eq;

verus! {

/// The bot's expedition after looking at the first `m` owned slots: the slots taken so far and
/// the cards seen so far; `None` once a taken slot holds an unknown card. A slot is taken while
/// fewer than `max_bodies` are, when its card was not seen before and it has `cost` stamina (a
/// slot off the stamina list has `max_stamina`); a card counts as seen once its slot was looked
/// at, taken or not.
pub open spec fn expedition_step(p: PlayerView, max_bodies: usize, max_stamina: u32, cost: u32, m: nat) -> Option<(Seq<usize>, Seq<u32>)>
    decreases m,
{
    if m == 0 {
        Some((seq![], seq![]))
    } else {
        match expedition_step(p, max_bodies, max_stamina, cost, (m - 1) as nat) {
            None => None,
            Some((chosen, seen)) => {
                let idx = (m - 1) as usize;
                let card = p.owned_cards[m - 1];
                if chosen.len() >= max_bodies || seen.contains(card) {
                    Some((chosen, seen))
                } else {
                    let st = if idx < p.card_stamina.len() { p.card_stamina[idx as int] } else { max_stamina };
                    if st < cost {
                        Some((chosen, seen.push(card)))
                    } else if card_spec(card) is None {
                        None
                    } else {
                        Some((chosen.push(idx), seen.push(card)))
                    }
                }
            },
        }
    }
}

/// The owned slots of the bot's expedition (see [`expedition_step`]); `None` when an unknown
/// card stops it or no slot is taken.
pub open spec fn expedition_slots(p: PlayerView, max_bodies: usize, max_stamina: u32, cost: u32) -> Option<Seq<usize>> {
    match expedition_step(p, max_bodies, max_stamina, cost, p.owned_cards.len()) {
        Some((chosen, _)) => if chosen.len() > 0 { Some(chosen) } else { None },
        None => None,
    }
}

proof fn lemma_expedition_chosen(p: PlayerView, max_bodies: usize, max_stamina: u32, cost: u32, m: nat)
    requires
        m <= p.owned_cards.len(),
        p.owned_cards.len() <= usize::MAX,
    ensures
        expedition_step(p, max_bodies, max_stamina, cost, m) matches Some((c, _)) ==> c.len() <= max_bodies && forall|k: int|
            0 <= k < c.len() ==> c[k] < p.owned_cards.len() && (#[trigger] crate::formation::body_card(p, c[k])) is Some,
    decreases m,
{
    if m > 0 {
        lemma_expedition_chosen(p, max_bodies, max_stamina, cost, (m - 1) as nat);
        match expedition_step(p, max_bodies, max_stamina, cost, (m - 1) as nat) {
            Some((c0, s0)) => {
                let idx = (m - 1) as usize;
                let card = p.owned_cards[m - 1];
                if !(c0.len() >= max_bodies || s0.contains(card)) {
                    let st = if idx < p.card_stamina.len() { p.card_stamina[idx as int] } else { max_stamina };
                    if st >= cost && card_spec(card) is Some {
                        let c = c0.push(idx);
                        assert forall|k: int| 0 <= k < c.len() implies c[k] < p.owned_cards.len() && (#[trigger] crate::formation::body_card(p, c[k])) is Some by {
                            if k < c0.len() {
                                assert(c[k] == c0[k]);
                            } else {
                                assert(c[k] == idx);
                                assert(idx as int == m - 1);
                            }
                        }
                    }
                }
            },
            None => {},
        }
    }
}

proof fn lemma_expedition_full(p: PlayerView, max_bodies: usize, max_stamina: u32, cost: u32, m: nat, n: nat)
    requires
        m <= n,
        expedition_step(p, max_bodies, max_stamina, cost, m) matches Some((c, _)) && c.len() >= max_bodies,
    ensures
        expedition_step(p, max_bodies, max_stamina, cost, n) == expedition_step(p, max_bodies, max_stamina, cost, m),
    decreases n - m,
{
    if m < n {
        lemma_expedition_full(p, max_bodies, max_stamina, cost, m, (n - 1) as nat);
    }
}

fn seen_has(v: &Vec<u32>, x: u32) -> (r: bool)
    ensures
        r == v@.contains(x),
{
    let mut k: usize = 0;
    while k < v.len()
        invariant
            k <= v@.len(),
            forall|j: int| 0 <= j < k ==> v@[j] != x,
        decreases v@.len() - k,
    {
        if v[k] == x {
            return true;
        }
        k += 1;
    }
    false
}

/// The formation the bot sends from home: at most `max_bodies` bodies of distinct cards with
/// `cost` stamina (see [`expedition_slots`]).
pub fn build_home_expedition(player: &PlayerData, max_bodies: usize, max_stamina: u32, cost: u32) -> (r: Option<AttackFormation>)
    ensures
        opt_formation_view(r) == match expedition_slots(player@, max_bodies, max_stamina, cost) {
            Some(s) => formation_spec(player@, s),
            None => None,
        },
        r is None <==> expedition_slots(player@, max_bodies, max_stamina, cost) is None,
        r matches Some(f) ==> f.card_indices@.len() <= max_bodies,
{
    let ghost p = player@;
    let n = player.owned_cards.len();
    proof {
        lemma_expedition_chosen(p, max_bodies, max_stamina, cost, p.owned_cards.len());
    }
    let mut chosen: Vec<usize> = Vec::new();
    let mut seen: Vec<u32> = Vec::new();
    let mut idx: usize = 0;
    while idx < n && chosen.len() < max_bodies
        invariant
            idx <= n,
            n == p.owned_cards.len(),
            p == player@,
            expedition_step(p, max_bodies, max_stamina, cost, idx as nat) == Some((chosen@, seen@)),
        decreases n - idx,
    {
        let card = player.owned_cards[idx];
        if !seen_has(&seen, card) {
            seen.push(card);
            let st: u32 = if idx < player.card_stamina.len() { player.card_stamina[idx] } else { max_stamina };
            if st >= cost {
                if get_card(card).is_none() {
                    proof {
                        assert(expedition_step(p, max_bodies, max_stamina, cost, (idx + 1) as nat) is None);
                        lemma_expedition_none(p, max_bodies, max_stamina, cost, (idx + 1) as nat, n as nat);
                    }
                    return None;
                }
                chosen.push(idx);
            }
        }
        idx += 1;
    }
    proof {
        if idx < n {
            lemma_expedition_full(p, max_bodies, max_stamina, cost, idx as nat, n as nat);
        }
    }
    if chosen.len() == 0 {
        return None;
    }
    build_formation_from_indices(player, chosen.as_slice())
}

proof fn lemma_expedition_none(p: PlayerView, max_bodies: usize, max_stamina: u32, cost: u32, m: nat, n: nat)
    requires
        m <= n,
        expedition_step(p, max_bodies, max_stamina, cost, m) is None,
    ensures
        expedition_step(p, max_bodies, max_stamina, cost, n) is None,
    decreases n - m,
{
    if m < n {
        lemma_expedition_none(p, max_bodies, max_stamina, cost, m, (n - 1) as nat);
    }
}

/// Distance from a tile to the nearest target tile (see [`min_dist_spec`]).
pub fn min_distance_to_targets(to_id: &str, target_territory_ids: &[String]) -> (d: u16)
    requires
        coords_small(to_id@),
        forall|i: int| 0 <= i < target_territory_ids@.len() ==> coords_small(#[trigger] target_territory_ids@[i]@),
    ensures
        d == min_dist_spec(to_id@, views(target_territory_ids@)),
{
    min_distance_to_homes(to_id, target_territory_ids)
}

/// The ids of the first `m` tiles owned by `owner`, in order.
pub open spec fn owned_ids_upto(ts: Seq<Territory>, owner: Seq<char>, m: nat) -> Seq<Seq<char>>
    decreases m,
{
    if m == 0 {
        seq![]
    } else {
        let rest = owned_ids_upto(ts, owner, (m - 1) as nat);
        if ts[m - 1]@.owner_id == Some(owner) {
            rest.push(ts[m - 1].id@)
        } else {
            rest
        }
    }
}

/// How much the bot wants tile `j`: the target player's tiles first (0), then neutral ones (1),
/// then anyone else's (2); nearer the target player's tiles first within each.
pub open spec fn bot_key(ts: Seq<Territory>, target: Seq<char>, j: int) -> (int, int) {
    let prio: int = match ts[j]@.owner_id {
        Some(o) => if o == target { 0 } else { 2 },
        None => 1,
    };
    (prio, min_dist_spec(ts[j].id@, owned_ids_upto(ts, target, ts.len())))
}

/// Key `a` comes strictly before key `b`.
pub open spec fn key_lt(a: (int, int), b: (int, int)) -> bool {
    a.0 < b.0 || (a.0 == b.0 && a.1 < b.1)
}

/// Tile `target` borders a tile of one of the owners `front` (see [`attackable_spec`]).
pub open spec fn front_attackable(ts: Seq<Territory>, target: Seq<char>, front: Seq<Seq<char>>) -> bool {
    match coords_of(target) {
        Some((c, r)) => exists|i: int|
            0 <= i < ts.len() && (ts[i]@.owner_id matches Some(o) && front.contains(o)) && (coords_of(#[trigger] ts[i].id@) matches Some(
                p,
            ) && abs(p.0 - c) + abs(p.1 - r) == 1),
        None => false,
    }
}

proof fn lemma_front_attackable(ts: Seq<Territory>, target: Seq<char>, owners: Seq<String>)
    ensures
        attackable_spec(ts, target, owners) == front_attackable(ts, target, views(owners)),
{
    assert forall|i: int| 0 <= i < ts.len() implies (owned_by_any(ts[i], owners) <==> (ts[i]@.owner_id matches Some(o) && views(owners).contains(o))) by {
        if let Some(o) = ts[i].owner_id {
            if owned_by_any(ts[i], owners) {
                let k = choose|k: int| 0 <= k < owners.len() && owners[k]@ == o@;
                assert(views(owners)[k] == o@);
            }
            if views(owners).contains(o@) {
                let k = choose|k: int| 0 <= k < views(owners).len() && views(owners)[k] == o@;
                assert(owners[k]@ == o@);
            }
        }
    }
}

/// The bot may attack tile `j` from tile `i`: it owns `i`, `j` borders `i`, `j` borders its
/// front (tiles of the owners `front`) and it does not own `j`.
pub open spec fn bot_move(ts: Seq<Territory>, bot: Seq<char>, front: Seq<Seq<char>>, i: int, j: int) -> bool {
    &&& 0 <= i < ts.len() && 0 <= j < ts.len()
    &&& ts[i]@.owner_id == Some(bot)
    &&& ids_adjacent(ts[i].id@, ts[j].id@)
    &&& front_attackable(ts, ts[j].id@, front)
    &&& ts[j]@.owner_id != Some(bot)
}

/// The move the bot picks: one whose target has the least key (see [`bot_key`]), the first
/// such one when moves are listed by origin tile, then by target tile.
pub open spec fn bot_move_picked(ts: Seq<Territory>, bot: Seq<char>, base: Seq<Seq<char>>, target: Seq<char>, i: int, j: int) -> bool {
    &&& bot_move(ts, bot, base, i, j)
    &&& forall|i2: int, j2: int| #[trigger] bot_move(ts, bot, base, i2, j2) ==> !key_lt(bot_key(ts, target, j2), bot_key(ts, target, j))
    &&& forall|i2: int, j2: int| #[trigger] bot_move(ts, bot, base, i2, j2) && bot_key(ts, target, j2) == bot_key(ts, target, j) ==> (i < i2 || (i == i2 && j <= j2))
}

/// `a` is the bot's attack from `from` to `to` with formation `f`, sent as "BOTユニット1".
pub open spec fn bot_attack_action(a: Action, from: Seq<char>, to: Seq<char>, f: AttackFormationView) -> bool {
    match a {
        Action::Attack {
            from_territory_id,
            to_territory_id,
            count,
            monsters_per_body,
            body_names,
            unit_name,
            speed_per_body,
            skills_per_body,
            stats_per_body,
            owned_card_indices,
        } => {
            &&& from_territory_id@ == from
            &&& to_territory_id@ == to
            &&& count == f.card_indices.len()
            &&& monsters_per_body matches Some(v) && v@ == f.monster_counts
            &&& body_names matches Some(v) && string_seq_view(v@) == f.body_names
            &&& unit_name matches Some(u) && u@ == "BOTユニット1"@
            &&& speed_per_body matches Some(v) && v@ == f.speeds
            &&& skills_per_body matches Some(v) && Seq::new(v@.len(), |k: int| v@[k]@) == f.skills
            &&& stats_per_body matches Some(v) && v@ == f.stats
            &&& owned_card_indices matches Some(v) && v@ == f.card_indices
        },
        _ => false,
    }
}

/// `a` is the bot's planned attack: the picked move from tile `i` to tile `j` (see
/// [`bot_move_picked`], with the bot's front, see [`base_owner_ids_spec`]) and the formation of
/// its home expedition.
pub open spec fn bot_action_ok(
    ts: Seq<Territory>,
    ps: Seq<PlayerData>,
    sv: crate::model::GameStateView,
    bot: Seq<char>,
    target: Seq<char>,
    max_stamina: u32,
    cost: u32,
    i: int,
    j: int,
    a: Action,
) -> bool {
    &&& bot_move_picked(ts, bot, base_owner_ids_spec(sv, bot), target, i, j)
    &&& expedition_slots(ps[first_player_index(ps, bot)]@, 3, max_stamina, cost) matches Some(s)
    &&& formation_spec(ps[first_player_index(ps, bot)]@, s) matches Some(f)
    &&& bot_attack_action(a, ts[i].id@, ts[j].id@, f)
}

/// The bot `bot_player_id`'s attack against `target_player_id`: the picked move (see
/// [`bot_move_picked`]) with its home expedition of up to three bodies (see
/// [`expedition_slots`]); `None` for an unknown bot, without a move, or without an expedition.
#[verifier::rlimit(40)]
pub fn plan_attack(
    state: &GameState,
    bot_player_id: &str,
    target_player_id: &str,
    max_stamina: u32,
    stamina_cost: u32,
) -> (r: Option<Action>)
    requires
        map_coords_small(state.territories@),
    ensures
        match r {
            Some(a) => has_player(state.players@, bot_player_id@) && exists|i: int, j: int|
                #[trigger] bot_action_ok(state.territories@, state.players@, state@, bot_player_id@, target_player_id@, max_stamina, stamina_cost, i, j, a),
            None => !has_player(state.players@, bot_player_id@) || (forall|i: int, j: int|
                !#[trigger] bot_move(state.territories@, bot_player_id@, base_owner_ids_spec(state@, bot_player_id@), i, j))
                || expedition_slots(state.players@[first_player_index(state.players@, bot_player_id@)]@, 3, max_stamina, stamina_cost) is None,
        },
{
    let pi = match find_player(&state.players, bot_player_id) {
        Some(i) => i,
        None => {
            return None;
        },
    };
    proof {
        lemma_first_player_index(state.players@, bot_player_id@, pi as int);
    }
    let ghost ts = state.territories@;
    let ts_ref = &state.territories;
    // The target player's tiles.
    let mut targets: Vec<String> = Vec::new();
    let mut k: usize = 0;
    while k < ts_ref.len()
        invariant
            k <= ts.len(),
            ts == ts_ref@,
            map_coords_small(ts),
            views(targets@) == owned_ids_upto(ts, target_player_id@, k as nat),
            forall|x: int| 0 <= x < targets@.len() ==> coords_small(#[trigger] targets@[x]@),
        decreases ts.len() - k,
    {
        let t = &ts_ref[k];
        let owned = match &t.owner_id {
            Some(o) => str_eq(o.as_str(), target_player_id),
            None => false,
        };
        proof {
            assert(ts[k as int] == *t);
        }
        if owned {
            targets.push(t.id.clone());
            proof {
                assert(views(targets@) =~= owned_ids_upto(ts, target_player_id@, (k + 1) as nat));
            }
        }
        k += 1;
    }
    let base = attack_base_owner_ids(state, bot_player_id);
    let ghost front = views(base@);
    proof {
        assert(front == base_owner_ids_spec(state@, bot_player_id@));
    }
    let mut best: Option<(usize, usize)> = None;
    let mut best_prio: u8 = 0;
    let mut best_dist: u16 = 0;
    let mut i: usize = 0;
    while i < ts_ref.len()
        invariant
            i <= ts.len(),
            ts == ts_ref@,
            map_coords_small(ts),
            views(targets@) == owned_ids_upto(ts, target_player_id@, ts.len()),
            forall|x: int| 0 <= x < targets@.len() ==> coords_small(#[trigger] targets@[x]@),
            front == views(base@),
            match best {
                None => forall|i2: int, j2: int| 0 <= i2 < i ==> !#[trigger] bot_move(ts, bot_player_id@, front, i2, j2),
                Some((bi, bj)) => {
                    &&& bi < i
                    &&& bot_move(ts, bot_player_id@, front, bi as int, bj as int)
                    &&& bot_key(ts, target_player_id@, bj as int) == (best_prio as int, best_dist as int)
                    &&& forall|i2: int, j2: int| 0 <= i2 < i && #[trigger] bot_move(ts, bot_player_id@, front, i2, j2) ==> !key_lt(bot_key(ts, target_player_id@, j2), bot_key(ts, target_player_id@, bj as int))
                    &&& forall|i2: int, j2: int| 0 <= i2 < i && #[trigger] bot_move(ts, bot_player_id@, front, i2, j2) && bot_key(ts, target_player_id@, j2) == bot_key(ts, target_player_id@, bj as int) ==> (bi < i2 || (bi == i2 && bj <= j2))
                },
            },
        decreases ts.len() - i,
    {
        let from = &ts_ref[i];
        let mine = match &from.owner_id {
            Some(o) => str_eq(o.as_str(), bot_player_id),
            None => false,
        };
        proof {
            assert(ts[i as int] == *from);
        }
        let mut j: usize = 0;
        while j < ts_ref.len()
            invariant
                i < ts.len(),
                j <= ts.len(),
                ts == ts_ref@,
                ts[i as int] == *from,
                mine == (ts[i as int]@.owner_id == Some(bot_player_id@)),
                map_coords_small(ts),
                views(targets@) == owned_ids_upto(ts, target_player_id@, ts.len()),
                forall|x: int| 0 <= x < targets@.len() ==> coords_small(#[trigger] targets@[x]@),
                front == views(base@),
                match best {
                    None => forall|i2: int, j2: int| (0 <= i2 < i || (i2 == i && 0 <= j2 < j)) ==> !#[trigger] bot_move(ts, bot_player_id@, front, i2, j2),
                    Some((bi, bj)) => {
                        &&& (bi < i || (bi == i && bj < j))
                        &&& bot_move(ts, bot_player_id@, front, bi as int, bj as int)
                        &&& bot_key(ts, target_player_id@, bj as int) == (best_prio as int, best_dist as int)
                        &&& forall|i2: int, j2: int| (0 <= i2 < i || (i2 == i && 0 <= j2 < j)) && #[trigger] bot_move(ts, bot_player_id@, front, i2, j2) ==> !key_lt(bot_key(ts, target_player_id@, j2), bot_key(ts, target_player_id@, bj as int))
                        &&& forall|i2: int, j2: int| (0 <= i2 < i || (i2 == i && 0 <= j2 < j)) && #[trigger] bot_move(ts, bot_player_id@, front, i2, j2) && bot_key(ts, target_player_id@, j2) == bot_key(ts, target_player_id@, bj as int) ==> (bi < i2 || (bi == i2 && bj <= j2))
                    },
                },
            decreases ts.len() - j,
        {
            let to = &ts_ref[j];
            proof {
                assert(ts[j as int] == *to);
            }
            proof {
                lemma_front_attackable(ts, ts[j as int].id@, base@);
            }
            if mine && territories_are_adjacent(from.id.as_str(), to.id.as_str())
                && is_attackable_target(ts_ref.as_slice(), to.id.as_str(), base.as_slice()) {
                let theirs = match &to.owner_id {
                    Some(o) => str_eq(o.as_str(), bot_player_id),
                    None => false,
                };
                if !theirs {
                    let prio: u8 = match &to.owner_id {
                        Some(o) => if str_eq(o.as_str(), target_player_id) { 0 } else { 2 },
                        None => 1,
                    };
                    proof {
                        assert(coords_small(ts[j as int].id@));
                    }
                    let dist = min_distance_to_targets(to.id.as_str(), targets.as_slice());
                    proof {
                        assert(bot_move(ts, bot_player_id@, front, i as int, j as int));
                        assert(bot_key(ts, target_player_id@, j as int) == (prio as int, dist as int));
                    }
                    let better = match best {
                        None => true,
                        Some(_) => prio < best_prio || (prio == best_prio && dist < best_dist),
                    };
                    if better {
                        best = Some((i, j));
                        best_prio = prio;
                        best_dist = dist;
                    }
                }
            }
            j += 1;
        }
        i += 1;
    }
    let (bi, bj) = match best {
        Some(b) => b,
        None => {
            return None;
        },
    };
    let player = &state.players[pi];
    let f = match build_home_expedition(player, 3, max_stamina, stamina_cost) {
        Some(f) => f,
        None => {
            return None;
        },
    };
    let ghost fv = f@;
    let count = f.card_indices.len() as u32;
    let a = Action::Attack {
        from_territory_id: ts_ref[bi].id.clone(),
        to_territory_id: ts_ref[bj].id.clone(),
        count,
        monsters_per_body: Some(f.monster_counts),
        body_names: Some(f.body_names),
        unit_name: Some("BOTユニット1".to_owned()),
        speed_per_body: Some(f.speeds),
        skills_per_body: Some(f.skills),
        stats_per_body: Some(f.stats),
        owned_card_indices: Some(f.card_indices),
    };
    proof {
        assert(bot_move_picked(ts, bot_player_id@, front, target_player_id@, bi as int, bj as int));
        assert(state.players@[first_player_index(state.players@, bot_player_id@)]@ == player@);
        assert(bot_attack_action(a, ts[bi as int].id@, ts[bj as int].id@, fv));
        assert(bot_action_ok(ts, state.players@, state@, bot_player_id@, target_player_id@, max_stamina, stamina_cost, bi as int, bj as int, a));
    }
    Some(a)
}

} // verus!
