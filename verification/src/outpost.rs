//! Forward bases: a player fortifies one of their own tiles.
use vstd::prelude::*;
use crate::formation::{first_player_index, lemma_first_player_index};
use crate::game_log::{log_lines, push_log_at, push_str_chars};
use crate::grid::coords_of;
use crate::model::{find_player, has_player, views, Dup, GameState, GameStateView, PlayerData, PlayerView, Resources};
use crate::territory::{
    get_index_spec, get_territory_index, is_home_territory, lemma_get_index_spec, territory_name, Territory, TerritoryView,
    HOME_COL, HOME_ROW,
};
use crate::text::{str_eq, string_from_chars};

verus! {

/// Whether `r` covers a forward base: 200 food, 300 wood, 200 stone and 100 iron.
pub open spec fn can_pay_base(r: Resources) -> bool {
    r.food >= 200 && r.wood >= 300 && r.stone >= 200 && r.iron >= 100
}

/// `r` after paying for a forward base.
pub open spec fn pay_base(r: Resources) -> Resources {
    Resources {
        food: (r.food - 200) as u64,
        wood: (r.wood - 300) as u64,
        stone: (r.stone - 200) as u64,
        iron: (r.iron - 100) as u64,
        ..r
    }
}

/// A base's durability on a tile of level `level`: 400 and 120 more per level.
pub open spec fn base_durability(level: u8) -> u32 {
    (400 + 120 * level) as u32
}

/// Tile `t` once fortified: a base at full durability with a level 1 tower.
pub open spec fn fortified(t: TerritoryView) -> TerritoryView {
    TerritoryView {
        is_base: true,
        max_durability: base_durability(t.level),
        durability: base_durability(t.level),
        tower_level: 1,
        ..t
    }
}

pub open spec fn base_short_message() -> Seq<char> {
    "資源が足りません。"@
}

pub open spec fn base_built_message(name: Seq<char>) -> Seq<char> {
    name + "に前線基地を建設しました！"@
}

/// Player `pid` fortifies tile `tid`. Nothing happens unless the (first) tile with that id is
/// theirs, not yet a base, and not the default home tile; it is refused when the player cannot
/// pay (see [`can_pay_base`]). Else the player pays (an unknown player pays nothing) and the
/// tile is fortified. Gives the state after it and the lines logged.
pub open spec fn build_base_result(
    s: GameStateView,
    ts: Seq<Territory>,
    ps: Seq<PlayerData>,
    pid: Seq<char>,
    tid: Seq<char>,
) -> (GameStateView, Seq<Seq<char>>) {
    match get_index_spec(ts, tid) {
        None => (s, seq![]),
        Some(k) => {
            let t = s.territories[k];
            if t.owner_id != Some(pid) || t.is_base || coords_of(tid) == Some((HOME_COL as i32, HOME_ROW as i32)) {
                (s, seq![])
            } else if has_player(ps, pid) && !can_pay_base(s.players[first_player_index(ps, pid)].resources) {
                (s, seq![base_short_message()])
            } else {
                let players = if has_player(ps, pid) {
                    let pi = first_player_index(ps, pid);
                    s.players.update(pi, PlayerView { resources: pay_base(s.players[pi].resources), ..s.players[pi] })
                } else {
                    s.players
                };
                (
                    GameStateView { territories: s.territories.update(k, fortified(t)), players, ..s },
                    seq![base_built_message(t.name)],
                )
            }
        },
    }
}

/// Player `player_id` builds a forward base on tile `territory_id` (see
/// [`build_base_result`]); each line is logged at `now`.
pub fn apply_build_base(state: &mut GameState, log: &mut Vec<String>, player_id: &str, territory_id: &str, now: u64)
    ensures
        final(state)@ == build_base_result(old(state)@, old(state).territories@, old(state).players@, player_id@, territory_id@).0,
        views(final(log)@) == log_lines(
            views(old(log)@),
            now,
            build_base_result(old(state)@, old(state).territories@, old(state).players@, player_id@, territory_id@).1,
        ),
{
    let ghost s0 = state@;
    let ghost ts = state.territories@;
    let ghost ps = state.players@;
    proof {
        reveal_with_fuel(log_lines, 2);
        lemma_get_index_spec(ts, territory_id@);
        assert(seq![base_short_message()].drop_last() =~= Seq::<Seq<char>>::empty());
    }
    let idx = match get_territory_index(state.territories.as_slice(), territory_id) {
        Some(i) => i,
        None => {
            return;
        },
    };
    proof {
        assert(s0.territories[idx as int] == ts[idx as int]@);
    }
    let owned = match &state.territories[idx].owner_id {
        Some(o) => str_eq(o.as_str(), player_id),
        None => false,
    };
    if !owned {
        return;
    }
    if state.territories[idx].is_base || is_home_territory(territory_id) {
        return;
    }
    let ghost players1 = if has_player(ps, player_id@) {
        let pi = first_player_index(ps, player_id@);
        s0.players.update(pi, PlayerView { resources: pay_base(s0.players[pi].resources), ..s0.players[pi] })
    } else {
        s0.players
    };
    match find_player(&state.players, player_id) {
        Some(pi) => {
            proof {
                lemma_first_player_index(ps, player_id@, pi as int);
                assert(s0.players[pi as int] == ps[pi as int]@);
            }
            let r = state.players[pi].resources;
            if r.food < 200 || r.wood < 300 || r.stone < 200 || r.iron < 100 {
                push_log_at(log, "資源が足りません。", now);
                return;
            }
            let mut p = state.players[pi].dup();
            p.resources.food = r.food - 200;
            p.resources.wood = r.wood - 300;
            p.resources.stone = r.stone - 200;
            p.resources.iron = r.iron - 100;
            let ghost p1 = p@;
            state.players.set(pi, p);
            proof {
                assert(views(state.players@) =~= players1);
            }
        },
        None => {},
    }
    let mut t = state.territories[idx].dup();
    t.is_base = true;
    let lvl = t.level as u32;
    t.max_durability = 400u32.saturating_add(lvl * 120);
    t.durability = t.max_durability;
    t.tower_level = 1;
    let ghost t1 = t@;
    state.territories.set(idx, t);
    proof {
        assert(t1 == fortified(ts[idx as int]@));
        assert(views(state.territories@) =~= s0.territories.update(idx as int, t1));
        assert(state.territories@[idx as int].name@ == ts[idx as int].name@);
        assert(state.territories@[idx as int].id@ == territory_id@);
        assert forall|j: int| 0 <= j < idx implies state.territories@[j].id@ != territory_id@ by {
            assert(state.territories@[j] == ts[j]);
        }
        lemma_get_index_spec(state.territories@, territory_id@);
    }
    let name = territory_name(state.territories.as_slice(), territory_id);
    let mut m: Vec<char> = Vec::new();
    push_str_chars(&mut m, name);
    push_str_chars(&mut m, "に前線基地を建設しました！");
    let msg = string_from_chars(&m);
    push_log_at(log, msg.as_str(), now);
    proof {
        assert(seq![base_built_message(ts[idx as int]@.name)].drop_last() =~= Seq::<Seq<char>>::empty());
    }
}

} // verus!
