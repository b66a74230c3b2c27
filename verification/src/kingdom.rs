//! The AI kingdom tick: before each faction plays its turn, a faction whose home has fallen
//! leaves the world.
use vstd::prelude::*;
use crate::ai::faction_player_id;
use crate::formation::{first_player_index, lemma_first_player_index};
use crate::game_log::{keep_last, push_str_chars, push_system_event, system_event, MAX_EVENTS};
use crate::model::{find_player, has_player, views, AiFaction, GameState, GameStateView, PlayerData, PlayerView};
use crate::territory::{get_territory_index, is_first_id_index, Territory};
use crate::text::{chars_of, str_eq, string_from_chars};

verus! {

/// The line logged when faction `ai_id` falls: "【AI勢力】<ai_id> が滅亡しました。".
pub open spec fn fallen_message(ai_id: Seq<char>) -> Seq<char> {
    "【AI勢力】"@ + ai_id + " が滅亡しました。"@
}

/// Faction `ai_id` still holds its home: it is a player, and the first tile with that
/// player's home id is owned by it.
pub open spec fn faction_home_alive(ts: Seq<Territory>, ps: Seq<PlayerData>, ai_id: Seq<char>) -> bool {
    &&& has_player(ps, ai_id)
    &&& exists|k: int|
        #[trigger] is_first_id_index(ts, ps[first_player_index(ps, ai_id)].home_territory_id@, k)
            && ts[k]@.owner_id == Some(ai_id)
}

/// The world after faction `ai_id` fell: its faction entries and its player are gone, the fall
/// is logged as event `id` at `now`, and nothing else changes.
pub open spec fn faction_removed(old: GameStateView, new: GameStateView, ai_id: Seq<char>, id: u64, now: u64) -> bool {
    &&& new.ai_factions == old.ai_factions.filter(
        |f: (Seq<char>, Seq<char>, crate::model::AiPersonality, Seq<char>, u32)| faction_player_id(f.0) != ai_id,
    )
    &&& new.players == old.players.filter(|p: PlayerView| p.player_id != ai_id)
    &&& new.log == keep_last(old.log.push(system_event(id, now, None, fallen_message(ai_id))), MAX_EVENTS as nat)
    &&& new.world == old.world
    &&& new.world_owner_id == old.world_owner_id
    &&& new.territories == old.territories
    &&& new.alliances == old.alliances
    &&& new.season == old.season
    &&& new.market_listings == old.market_listings
    &&& new.visible_marches == old.visible_marches
}

/// Whether faction `ai_id` still holds its home (see [`faction_home_alive`]).
pub fn home_alive(territories: &Vec<Territory>, players: &Vec<PlayerData>, ai_id: &str) -> (r: bool)
    ensures
        r == faction_home_alive(territories@, players@, ai_id@),
{
    let pi = match find_player(players, ai_id) {
        Some(i) => i,
        None => {
            return false;
        },
    };
    proof {
        lemma_first_player_index(players@, ai_id@, pi as int);
    }
    let home = players[pi].home_territory_id.as_str();
    match get_territory_index(territories.as_slice(), home) {
        Some(k) => {
            let r = match &territories[k].owner_id {
                Some(o) => str_eq(o.as_str(), ai_id),
                None => false,
            };
            proof {
                assert forall|k2: int| #[trigger] is_first_id_index(territories@, home@, k2) implies k2 == k as int by {
                    if k2 < k {
                        assert(territories@[k2].id@ != home@);
                    } else if k2 > k {
                        assert(territories@[k as int].id@ != home@);
                    }
                }
                assert(territories@[k as int]@.owner_id == match territories@[k as int].owner_id {
                    Some(o) => Some(o@),
                    None => None::<Seq<char>>,
                });
            }
            r
        },
        None => {
            proof {
                assert forall|k2: int| !#[trigger] is_first_id_index(territories@, home@, k2) by {}
            }
            false
        },
    }
}

/// One faction's step of the AI kingdom tick. A faction with no player is skipped and one
/// that holds its home plays its turn; both leave the world unchanged. A faction whose home
/// has fallen leaves the world (see [`faction_removed`]), logged as event `event_id` at `now`.
/// Returns whether the faction plays its turn.
pub fn settle_faction(state: &mut GameState, ai_id: &str, event_id: u64, now: u64) -> (plays: bool)
    ensures
        plays == faction_home_alive(old(state).territories@, old(state).players@, ai_id@),
        has_player(old(state).players@, ai_id@) && !plays ==> faction_removed(
            old(state)@,
            final(state)@,
            ai_id@,
            event_id,
            now,
        ),
        !has_player(old(state).players@, ai_id@) || plays ==> final(state)@ == old(state)@,
        !plays ==> !has_player(final(state).players@, ai_id@),
{
    let known = find_player(&state.players, ai_id).is_some();
    let alive = home_alive(&state.territories, &state.players, ai_id);
    if !known || alive {
        return alive;
    }
    let ghost old_state = state@;
    // The factions that play as someone else stay.
    let mut factions: Vec<AiFaction> = Vec::new();
    let mut i: usize = 0;
    while i < state.ai_factions.len()
        invariant
            i <= state.ai_factions@.len(),
            old_state == state@,
            views(factions@) == views(state.ai_factions@).take(i as int).filter(
                |f: (Seq<char>, Seq<char>, crate::model::AiPersonality, Seq<char>, u32)| faction_player_id(f.0) != ai_id@,
            ),
        decreases state.ai_factions@.len() - i,
    {
        let mut pid: Vec<char> = Vec::new();
        push_str_chars(&mut pid, "ai_");
        push_str_chars(&mut pid, state.ai_factions[i].faction_id.as_str());
        let same = crate::text::chars_eq(&pid, &chars_of(ai_id));
        let ghost all = views(state.ai_factions@);
        proof {
            reveal(Seq::filter);
            assert(all.take(i + 1).drop_last() =~= all.take(i as int));
            assert(all[i as int].0 == state.ai_factions@[i as int].faction_id@);
        }
        if !same {
            factions.push(crate::model::Dup::dup(&state.ai_factions[i]));
            proof {
                assert(views(factions@) =~= views(factions@).drop_last().push(all[i as int]));
            }
        }
        i += 1;
    }
    proof {
        assert(views(state.ai_factions@).take(state.ai_factions@.len() as int) =~= views(state.ai_factions@));
    }
    // Every other player stays.
    let mut players: Vec<PlayerData> = Vec::new();
    let mut j: usize = 0;
    while j < state.players.len()
        invariant
            j <= state.players@.len(),
            old_state == state@,
            views(players@) == views(state.players@).take(j as int).filter(|p: PlayerView| p.player_id != ai_id@),
        decreases state.players@.len() - j,
    {
        let ghost all = views(state.players@);
        proof {
            reveal(Seq::filter);
            assert(all.take(j + 1).drop_last() =~= all.take(j as int));
        }
        if !str_eq(state.players[j].player_id.as_str(), ai_id) {
            players.push(crate::model::Dup::dup(&state.players[j]));
            proof {
                assert(views(players@) =~= views(players@).drop_last().push(all[j as int]));
            }
        }
        j += 1;
    }
    proof {
        assert(views(state.players@).take(state.players@.len() as int) =~= views(state.players@));
    }
    proof {
        let pred = |p: PlayerView| p.player_id != ai_id@;
        views(state.players@).filter_lemma(pred);
        assert forall|k: int| 0 <= k < players@.len() implies players@[k].player_id@ != ai_id@ by {
            assert(views(players@)[k] == players@[k]@);
            assert(pred(views(state.players@).filter(pred)[k]));
        }
    }
    state.ai_factions = factions;
    state.players = players;
    let mut msg: Vec<char> = Vec::new();
    push_str_chars(&mut msg, "【AI勢力】");
    push_str_chars(&mut msg, ai_id);
    push_str_chars(&mut msg, " が滅亡しました。");
    let text = string_from_chars(&msg);
    proof {
        assert(msg@ =~= fallen_message(ai_id@));
    }
    push_system_event(&mut state.log, text.as_str(), event_id, now);
    false
}

} // verus!
