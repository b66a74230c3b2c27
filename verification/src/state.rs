//! Operations on the whole world state: what a client sees, stamina over time, the
//! expedition schedule and the end of a season.
use vstd::prelude::*;
use crate::config::ServerMode;
use crate::facilities::{bonuses_fit, calculate_facility_bonuses_at, facility_bonuses_spec, facility_views};
use crate::game_log::{keep_last, push_system_event, system_event, MAX_EVENTS};
use crate::model::{dup_opt_string, dup_vec, find_player, is_player_index, starting_resources, views, AllianceView, Dup, GameState, GameStateView, MarchKind, MarchMissionView, PlayerData, PlayerView, Resources, SeasonInfo, VisibleMarch, VisibleMarchView};
use crate::rng::now_ms;
use crate::text::{push_decimal, string_from_chars};
use crate::world::generate_territories;
use crate::player::contains_string;

verus! {

/// The id of the default player of a fresh world.
pub const DEFAULT_PLAYER_ID: &'static str = "player";

/// Log events a PvP client receives.
pub const CLIENT_VIEW_LOG_LIMIT: usize = 200;

impl Dup for GameState {
    fn dup(&self) -> (r: Self) {
        GameState {
            world: self.world,
            world_owner_id: dup_opt_string(&self.world_owner_id),
            ai_factions: dup_vec(&self.ai_factions),
            territories: dup_vec(&self.territories),
            log: dup_vec(&self.log),
            players: dup_vec(&self.players),
            alliances: dup_vec(&self.alliances),
            season: self.season,
            market_listings: dup_vec(&self.market_listings),
            visible_marches: dup_vec(&self.visible_marches),
        }
    }
}

/// How an expedition of player `p` shows on the map.
pub open spec fn shown(p: PlayerView, m: MarchMissionView) -> VisibleMarchView {
    VisibleMarchView {
        march_id: m.march_id,
        owner_id: p.player_id,
        kind: m.kind,
        home_territory_id: p.home_territory_id,
        from_territory_id: Some(m.from_territory_id),
        to_territory_id: m.to_territory_id,
        arrives_at: m.arrives_at,
        unit_name: m.unit_name,
    }
}

/// The expeditions among `ms` of player `p` that are still under way at `now` and not a
/// return, as shown on the map, in order.
pub open spec fn visible_of(p: PlayerView, ms: Seq<MarchMissionView>, now: u64) -> Seq<VisibleMarchView>
    decreases ms.len(),
{
    if ms.len() == 0 {
        seq![]
    } else {
        let rest = visible_of(p, ms.drop_last(), now);
        let m = ms.last();
        if m.kind == MarchKind::Return || m.arrives_at <= now {
            rest
        } else {
            rest.push(shown(p, m))
        }
    }
}

/// The visible expeditions of all players, player by player.
pub open spec fn all_visible(ps: Seq<PlayerView>, now: u64) -> Seq<VisibleMarchView>
    decreases ps.len(),
{
    if ps.len() == 0 {
        seq![]
    } else {
        all_visible(ps.drop_last(), now) + visible_of(ps.last(), ps.last().marches, now)
    }
}

/// Collects the expeditions still under way at `now` (returns excluded), player by player,
/// as shown on the map.
pub fn collect_visible_marches(state: &GameState, now: u64) -> (out: Vec<VisibleMarch>)
    ensures
        views(out@) == all_visible(views(state.players@), now),
{
    let ghost ps = views(state.players@);
    let mut out: Vec<VisibleMarch> = Vec::new();
    let mut i: usize = 0;
    while i < state.players.len()
        invariant
            i <= state.players@.len(),
            ps == views(state.players@),
            views(out@) == all_visible(ps.take(i as int), now),
        decreases state.players@.len() - i,
    {
        let player = &state.players[i];
        let ghost pv = player@;
        let ghost ms = pv.marches;
        let ghost base = views(out@);
        let mut k: usize = 0;
        while k < player.marches.len()
            invariant
                k <= player.marches@.len(),
                pv == player@,
                ms == pv.marches,
                views(out@) == base + visible_of(pv, ms.take(k as int), now),
            decreases player.marches@.len() - k,
        {
            let m = &player.marches[k];
            proof {
                assert(ms.take(k + 1).drop_last() =~= ms.take(k as int));
                assert(ms.take(k + 1).last() == m@);
            }
            if !(m.kind == MarchKind::Return || m.arrives_at <= now) {
                let ghost before = views(out@);
                out.push(VisibleMarch {
                    march_id: m.march_id.clone(),
                    owner_id: player.player_id.clone(),
                    kind: m.kind,
                    home_territory_id: player.home_territory_id.clone(),
                    from_territory_id: Some(m.from_territory_id.clone()),
                    to_territory_id: m.to_territory_id.clone(),
                    arrives_at: m.arrives_at,
                    unit_name: dup_opt_string(&m.unit_name),
                });
                proof {
                    assert(views(out@) =~= before.push(shown(pv, m@)));
                }
            }
            k += 1;
        }
        proof {
            assert(ms.take(ms.len() as int) =~= ms);
            assert(ps.take(i + 1).drop_last() =~= ps.take(i as int));
            assert(ps.take(i + 1).last() == pv);
        }
        i += 1;
    }
    proof {
        assert(ps.take(ps.len() as int) =~= ps);
    }
    out
}

/// The alliances that have `viewer` among their members, in order.
pub open spec fn alliances_of(als: Seq<AllianceView>, viewer: Seq<char>) -> Seq<AllianceView>
    decreases als.len(),
{
    if als.len() == 0 {
        seq![]
    } else {
        let rest = alliances_of(als.drop_last(), viewer);
        if als.last().member_ids.contains(viewer) {
            rest.push(als.last())
        } else {
            rest
        }
    }
}

/// The players a PvP client sees: only itself (the first player with its id), if present.
pub open spec fn own_player(ps: Seq<PlayerView>, viewer: Seq<char>) -> Seq<PlayerView> {
    if exists|i: int| 0 <= i < ps.len() && ps[i].player_id == viewer {
        seq![ps[choose|i: int| 0 <= i < ps.len() && ps[i].player_id == viewer && forall|j: int| 0 <= j < i ==> ps[j].player_id != viewer]]
    } else {
        seq![]
    }
}

/// What a client is sent at time `now`. A PvE client sees the whole world; a PvP client sees
/// only its own player, its own alliances and the last 200 log events. Both get the
/// expeditions under way (see [`collect_visible_marches`]).
pub open spec fn client_view_spec(s: GameStateView, viewer: Seq<char>, mode: ServerMode, now: u64) -> GameStateView {
    let visible = all_visible(s.players, now);
    match mode {
        ServerMode::Pve => GameStateView { visible_marches: visible, ..s },
        ServerMode::Pvp => GameStateView {
            players: own_player(s.players, viewer),
            alliances: alliances_of(s.alliances, viewer),
            log: keep_last(s.log, CLIENT_VIEW_LOG_LIMIT as nat),
            visible_marches: visible,
            ..s
        },
    }
}

fn own_players(players: &Vec<PlayerData>, viewer_id: &str) -> (out: Vec<PlayerData>)
    ensures
        views(out@) == own_player(views(players@), viewer_id@),
{
    let mut out: Vec<PlayerData> = Vec::new();
    let found = find_player(players, viewer_id);
    if let Some(i) = found {
        out.push(players[i].dup());
    }
    proof {
        let ps = views(players@);
        if let Some(i) = found {
            assert(ps[i as int].player_id == viewer_id@);
            let c = choose|c: int| 0 <= c < ps.len() && ps[c].player_id == viewer_id@ && forall|j: int| 0 <= j < c ==> ps[j].player_id != viewer_id@;
            assert(c == i) by {
                if c < i {
                    assert(players@[c].player_id@ == viewer_id@);
                } else if c > i {
                    assert(ps[i as int].player_id == viewer_id@);
                }
            }
            assert(views(out@) =~= own_player(ps, viewer_id@));
        } else {
            assert forall|j: int| 0 <= j < ps.len() implies ps[j].player_id != viewer_id@ by {
                if ps[j].player_id == viewer_id@ {
                    assert(is_player_index(players@, viewer_id@, j));
                }
            }
            assert(views(out@) =~= own_player(ps, viewer_id@));
        }
    }
    out
}

fn alliances_with(alliances: &Vec<crate::model::Alliance>, viewer_id: &str) -> (out: Vec<crate::model::Alliance>)
    ensures
        views(out@) == alliances_of(views(alliances@), viewer_id@),
{
    let mut out: Vec<crate::model::Alliance> = Vec::new();
    let mut a: usize = 0;
    while a < alliances.len()
        invariant
            a <= alliances@.len(),
            views(out@) == alliances_of(views(alliances@).take(a as int), viewer_id@),
        decreases alliances@.len() - a,
    {
        let al = &alliances[a];
        proof {
            assert(views(alliances@).take(a + 1).drop_last() =~= views(alliances@).take(a as int));
            assert(views(alliances@).take(a + 1).last() == al@);
        }
        if contains_string(&al.member_ids, viewer_id) {
            let ghost before = views(out@);
            out.push(al.dup());
            proof {
                assert(views(out@) =~= before.push(al@));
            }
        }
        a += 1;
    }
    proof {
        assert(views(alliances@).take(alliances@.len() as int) =~= views(alliances@));
    }
    out
}

fn last_events(log: &Vec<crate::model::GameEvent>, limit: usize) -> (out: Vec<crate::model::GameEvent>)
    ensures
        views(out@) == keep_last(views(log@), limit as nat),
{
    let n = log.len();
    let start = if n > limit {
        n - limit
    } else {
        0
    };
    let mut out: Vec<crate::model::GameEvent> = Vec::new();
    let mut k: usize = start;
    while k < n
        invariant
            start <= k <= n == log@.len(),
            out@.len() == k - start,
            forall|j: int| 0 <= j < k - start ==> out@[j]@ == log@[start + j]@,
        decreases n - k,
    {
        out.push(log[k].dup());
        k += 1;
    }
    proof {
        assert(views(out@) =~= keep_last(views(log@), limit as nat));
    }
    out
}

/// The state a client is sent at time `now` (see [`client_view_spec`]).
pub fn client_view_state_at(state: &GameState, viewer_id: &str, mode: ServerMode, now: u64) -> (view: GameState)
    ensures
        view@ == client_view_spec(state@, viewer_id@, mode, now),
{
    let visible_marches = collect_visible_marches(state, now);
    match mode {
        ServerMode::Pve => {
            let mut view = state.dup();
            view.visible_marches = visible_marches;
            view
        },
        ServerMode::Pvp => {
            GameState {
                world: state.world,
                world_owner_id: dup_opt_string(&state.world_owner_id),
                ai_factions: dup_vec(&state.ai_factions),
                territories: dup_vec(&state.territories),
                log: last_events(&state.log, CLIENT_VIEW_LOG_LIMIT),
                players: own_players(&state.players, viewer_id),
                alliances: alliances_with(&state.alliances, viewer_id),
                season: state.season,
                market_listings: dup_vec(&state.market_listings),
                visible_marches,
            }
        },
    }
}

/// The state a client is sent now (the clock is read once).
pub fn client_view_state(state: &GameState, viewer_id: &str, mode: ServerMode) -> (view: GameState)
    ensures
        exists|now: u64| view@ == #[trigger] client_view_spec(state@, viewer_id@, mode, now),
{
    let now = now_ms();
    client_view_state_at(state, viewer_id, mode, now)
}

/// A state like `state` with new territories, log and players; everything else copied.
pub fn build_game_state(
    state: &GameState,
    territories: Vec<crate::territory::Territory>,
    log: Vec<crate::model::GameEvent>,
    players: Vec<PlayerData>,
) -> (s: GameState)
    ensures
        s@ == (GameStateView {
            territories: views(territories@),
            log: views(log@),
            players: views(players@),
            ..state@
        }),
{
    GameState {
        world: state.world,
        world_owner_id: dup_opt_string(&state.world_owner_id),
        ai_factions: dup_vec(&state.ai_factions),
        territories,
        log,
        players,
        alliances: dup_vec(&state.alliances),
        season: state.season,
        market_listings: dup_vec(&state.market_listings),
        visible_marches: dup_vec(&state.visible_marches),
    }
}

/// All expeditions of all players, player by player.
pub open spec fn all_marches(ps: Seq<PlayerView>) -> Seq<MarchMissionView>
    decreases ps.len(),
{
    if ps.len() == 0 {
        seq![]
    } else {
        all_marches(ps.drop_last()) + ps.last().marches
    }
}

/// The scheduler looks at an expedition: always with returns included, otherwise only at
/// expeditions that are not returns.
pub open spec fn scheduled(m: MarchMissionView, include_returns: bool) -> bool {
    include_returns || m.kind != MarchKind::Return
}

/// `t` is the earliest arrival of a scheduled expedition among `ms`.
pub open spec fn is_earliest(ms: Seq<MarchMissionView>, include_returns: bool, t: u64) -> bool {
    &&& exists|i: int| 0 <= i < ms.len() && scheduled(ms[i], include_returns) && ms[i].arrives_at == t
    &&& forall|j: int| 0 <= j < ms.len() && scheduled(ms[j], include_returns) ==> t <= ms[j].arrives_at
}

/// Milliseconds until the expedition scheduler must run: 0 when a scheduled expedition has
/// arrived by `now`; otherwise until the earliest scheduled arrival, plus 50 (saturating);
/// `idle_poll_ms` when nothing is scheduled.
pub open spec fn wait_spec(ms: Seq<MarchMissionView>, include_returns: bool, now: u64, idle_poll_ms: u64) -> int {
    if exists|i: int| 0 <= i < ms.len() && scheduled(ms[i], include_returns) && ms[i].arrives_at <= now {
        0
    } else if exists|i: int| 0 <= i < ms.len() && scheduled(ms[i], include_returns) {
        let t = choose|t: u64| #[trigger] is_earliest(ms, include_returns, t);
        let w = (t - now) + 50;
        if w > u64::MAX { u64::MAX as int } else { w }
    } else {
        idle_poll_ms as int
    }
}

/// Milliseconds until the expedition scheduler must run again (see [`wait_spec`]);
/// `idle_poll_ms` is the configured idle interval.
pub fn ms_until_march_processing(state: &GameState, include_returns: bool, now: u64, idle_poll_ms: u64) -> (w: u64)
    ensures
        w == wait_spec(all_marches(views(state.players@)), include_returns, now, idle_poll_ms),
{
    let ghost all = all_marches(views(state.players@));
    let mut due = false;
    let mut next: Option<u64> = None;
    let mut i: usize = 0;
    while i < state.players.len()
        invariant
            i <= state.players@.len(),
            all == all_marches(views(state.players@)),
            ({
                let seen = all_marches(views(state.players@).take(i as int));
                &&& due == exists|j: int| 0 <= j < seen.len() && scheduled(seen[j], include_returns) && seen[j].arrives_at <= now
                &&& !due ==> match next {
                    None => forall|j: int| 0 <= j < seen.len() ==> !scheduled(seen[j], include_returns),
                    Some(t) => (exists|j: int| 0 <= j < seen.len() && scheduled(seen[j], include_returns) && seen[j].arrives_at == t)
                        && forall|j: int| 0 <= j < seen.len() && scheduled(seen[j], include_returns) ==> t <= seen[j].arrives_at,
                }
            }),
        decreases state.players@.len() - i,
    {
        let player = &state.players[i];
        let ghost seen0 = all_marches(views(state.players@).take(i as int));
        let ghost pms = player@.marches;
        proof {
            assert(views(state.players@).take(i + 1).drop_last() =~= views(state.players@).take(i as int));
            assert(views(state.players@).take(i + 1).last() == player@);
            assert(all_marches(views(state.players@).take(i + 1)) == seen0 + pms);
        }
        let mut k: usize = 0;
        while k < player.marches.len()
            invariant
                k <= player.marches@.len(),
                pms == player@.marches,
                ({
                    let seen = seen0 + pms.take(k as int);
                    &&& due == exists|j: int| 0 <= j < seen.len() && scheduled(seen[j], include_returns) && seen[j].arrives_at <= now
                    &&& !due ==> match next {
                        None => forall|j: int| 0 <= j < seen.len() ==> !scheduled(seen[j], include_returns),
                        Some(t) => (exists|j: int| 0 <= j < seen.len() && scheduled(seen[j], include_returns) && seen[j].arrives_at == t)
                            && forall|j: int| 0 <= j < seen.len() && scheduled(seen[j], include_returns) ==> t <= seen[j].arrives_at,
                    }
                }),
            decreases player.marches@.len() - k,
        {
            let m = &player.marches[k];
            let ghost before = seen0 + pms.take(k as int);
            let ghost after = seen0 + pms.take(k + 1);
            proof {
                assert(after =~= before.push(m@));
                assert(views(player.marches@)[k as int] == m@);
            }
            if include_returns || m.kind != MarchKind::Return {
                if m.arrives_at <= now {
                    due = true;
                    proof {
                        assert(after[before.len() as int] == m@);
                    }
                } else if !due {
                    let better = match next {
                        None => true,
                        Some(t) => m.arrives_at < t,
                    };
                    if better {
                        next = Some(m.arrives_at);
                    }
                    proof {
                        assert(after[before.len() as int] == m@);
                        assert forall|j: int| 0 <= j < after.len() && scheduled(after[j], include_returns) implies next.unwrap() <= after[j].arrives_at by {
                            if j < before.len() {
                                assert(after[j] == before[j]);
                            }
                        }
                        if let Some(t) = next {
                            if t == m.arrives_at {
                                assert(after[before.len() as int].arrives_at == t);
                            } else {
                                let j0 = choose|j: int| 0 <= j < before.len() && scheduled(before[j], include_returns) && before[j].arrives_at == t;
                                assert(after[j0] == before[j0]);
                            }
                        }
                    }
                }
            }
            proof {
                if due {
                    if !(include_returns || m.kind != MarchKind::Return) || m.arrives_at > now {
                        let j0 = choose|j: int| 0 <= j < before.len() && scheduled(before[j], include_returns) && before[j].arrives_at <= now;
                        assert(after[j0] == before[j0]);
                    }
                } else {
                    assert forall|j: int| 0 <= j < after.len() && scheduled(after[j], include_returns) implies after[j].arrives_at > now by {
                        if j < before.len() {
                            assert(after[j] == before[j]);
                        }
                    }
                    if !(include_returns || m.kind != MarchKind::Return) {
                        assert forall|j: int| 0 <= j < after.len() && scheduled(after[j], include_returns) implies next.unwrap() <= after[j].arrives_at by {
                            if j < before.len() {
                                assert(after[j] == before[j]);
                            }
                        }
                        if let Some(t) = next {
                            let j0 = choose|j: int| 0 <= j < before.len() && scheduled(before[j], include_returns) && before[j].arrives_at == t;
                            assert(after[j0] == before[j0]);
                        } else {
                            assert forall|j: int| 0 <= j < after.len() implies !scheduled(after[j], include_returns) by {
                                if j < before.len() {
                                    assert(after[j] == before[j]);
                                }
                            }
                        }
                    }
                }
            }
            k += 1;
        }
        proof {
            assert(pms.take(pms.len() as int) =~= pms);
        }
        i += 1;
    }
    proof {
        assert(views(state.players@).take(state.players@.len() as int) =~= views(state.players@));
    }
    if due {
        return 0;
    }
    match next {
        Some(at) => {
            proof {
                assert(is_earliest(all, include_returns, at));
                let t = choose|t: u64| #[trigger] is_earliest(all, include_returns, t);
                let j0 = choose|j: int| 0 <= j < all.len() && scheduled(all[j], include_returns) && all[j].arrives_at == t;
                let j1 = choose|j: int| 0 <= j < all.len() && scheduled(all[j], include_returns) && all[j].arrives_at == at;
                assert(t == at);
            }
            at.saturating_sub(now).saturating_add(50)
        },
        None => idle_poll_ms,
    }
}

/// The scheduler's wait over several worlds: the least of the idle interval and each world's
/// wait without returns (see [`wait_spec`]).
pub open spec fn worlds_wait(ws: Seq<GameStateView>, now: u64, idle_poll_ms: u64) -> int
    decreases ws.len(),
{
    if ws.len() == 0 {
        idle_poll_ms as int
    } else {
        let rest = worlds_wait(ws.drop_last(), now, idle_poll_ms);
        let w = wait_spec(all_marches(ws.last().players), false, now, idle_poll_ms);
        if w < rest {
            w
        } else {
            rest
        }
    }
}

/// Milliseconds until the scheduler must run again over per-player worlds (see
/// [`worlds_wait`]).
pub fn next_sleep_ms_over_worlds(worlds: &Vec<GameState>, now: u64, idle_poll_ms: u64) -> (w: u64)
    ensures
        w == worlds_wait(views(worlds@), now, idle_poll_ms),
{
    let ghost wv = views(worlds@);
    let mut min_wait = idle_poll_ms;
    let mut i: usize = 0;
    while i < worlds.len()
        invariant
            i <= worlds@.len(),
            wv == views(worlds@),
            min_wait == worlds_wait(wv.take(i as int), now, idle_poll_ms),
        decreases worlds@.len() - i,
    {
        let w = ms_until_march_processing(&worlds[i], false, now, idle_poll_ms);
        proof {
            assert(wv.take(i + 1).drop_last() =~= wv.take(i as int));
            assert(wv.take(i + 1).last() == worlds@[i as int]@);
        }
        if w < min_wait {
            min_wait = w;
        }
        i += 1;
    }
    proof {
        assert(wv.take(worlds@.len() as int) =~= wv);
    }
    min_wait
}

/// Player ids of the AI factions of PvE worlds start with this.
pub const AI_PLAYER_ID_PREFIX: &'static str = "ai_faction_";

/// The player is an AI faction: its id starts with "ai_faction_".
pub open spec fn is_ai_id(id: Seq<char>) -> bool {
    id.len() >= AI_PLAYER_ID_PREFIX@.len() && id.take(AI_PLAYER_ID_PREFIX@.len() as int) == AI_PLAYER_ID_PREFIX@
}

/// Whether `player_id` belongs to an AI faction.
pub fn is_ai_player_id(player_id: &str) -> (r: bool)
    ensures
        r == is_ai_id(player_id@),
{
    crate::text::chars_start_with(&crate::text::chars_of(player_id), &crate::text::chars_of(AI_PLAYER_ID_PREFIX))
}

/// Whether `player_id` belongs to a human (any player that is not an AI faction).
pub fn is_human_player_id(player_id: &str) -> (r: bool)
    ensures
        r == !is_ai_id(player_id@),
{
    !is_ai_player_id(player_id)
}

/// `a - b`, or 0 when `b` is larger.
pub open spec fn sat_sub(a: u64, b: u64) -> u64 {
    if a >= b { (a - b) as u64 } else { 0 }
}

/// `a * b` capped at `u32::MAX`.
pub open spec fn sat_mul(a: u32, b: u32) -> u32 {
    if a * b > u32::MAX { u32::MAX } else { (a * b) as u32 }
}

/// The stamina of each slot after the minutes elapsed since the last recovery: resting slots
/// keep theirs, the others gain the recovery rate (base plus facility bonus) per minute, up to
/// `max_stamina`.
pub open spec fn recovered_stamina(p: PlayerView, now: u64, max_stamina: u32, base_rate: u32) -> Seq<u32> {
    let minutes = #[verifier::truncate] ((sat_sub(now, p.last_stamina_tick) / 60_000) as u32);
    let rate = crate::card_stats::sat_add(base_rate, facility_bonuses_spec(p.facilities, now).stamina_recovery_bonus);
    Seq::new(
        p.card_stamina.len(),
        |i: int|
            if i < p.card_rest_until.len() && p.card_rest_until[i] > now {
                p.card_stamina[i]
            } else {
                let v = crate::card_stats::sat_add(p.card_stamina[i], sat_mul(rate, minutes));
                if v > max_stamina { max_stamina } else { v }
            },
    )
}

/// Stamina recovery at `now`: a resting slot keeps its stamina; any other slot gains the
/// recovery rate (the base rate plus the facilities' bonus, capped at `u32::MAX`) for each
/// whole minute since the last recovery, and ends at the smaller of that and `max_stamina`,
/// so no recovered slot is above the maximum.
pub proof fn lemma_stamina_recovery(p: PlayerView, now: u64, max_stamina: u32, base_rate: u32, i: int)
    requires
        0 <= i < p.card_stamina.len(),
    ensures
        recovered_stamina(p, now, max_stamina, base_rate).len() == p.card_stamina.len(),
        ({
            let minutes = #[verifier::truncate] ((sat_sub(now, p.last_stamina_tick) / 60_000) as u32);
            let rate = crate::card_stats::cap_u32(
                base_rate + facility_bonuses_spec(p.facilities, now).stamina_recovery_bonus,
            );
            let gained = p.card_stamina[i] + rate * minutes;
            let r = recovered_stamina(p, now, max_stamina, base_rate)[i];
            if i < p.card_rest_until.len() && p.card_rest_until[i] > now {
                r == p.card_stamina[i]
            } else {
                &&& r <= max_stamina
                &&& r == if gained > max_stamina { max_stamina as int } else { gained }
            }
        }),
{
    let minutes = #[verifier::truncate] ((sat_sub(now, p.last_stamina_tick) / 60_000) as u32);
    let rate = crate::card_stats::sat_add(base_rate, facility_bonuses_spec(p.facilities, now).stamina_recovery_bonus);
    assert(rate * minutes >= 0) by (nonlinear_arith)
        requires rate >= 0, minutes >= 0;
    if rate * minutes > u32::MAX {
        assert(p.card_stamina[i] + rate * minutes > max_stamina);
    }
}

/// A stamina tick does nothing within a minute of the last recovery and otherwise stamps
/// the recovery `now`, keeping one stamina per slot. Under the development switch every
/// slot, and one per owned card at least, is at full stamina.
pub proof fn lemma_stamina_tick_shape(old: PlayerView, new: PlayerView, now: u64, max_stamina: u32, base_rate: u32)
    ensures
        stamina_ticked(old, new, now, max_stamina, base_rate) ==> {
            &&& sat_sub(now, old.last_stamina_tick) < 60_000 ==> new == old
            &&& sat_sub(now, old.last_stamina_tick) >= 60_000 ==> new.last_stamina_tick == now
                && new.card_stamina.len() == old.card_stamina.len() && new.owned_cards == old.owned_cards
        },
        stamina_filled(old, new, max_stamina) ==> {
            &&& new.card_stamina.len() >= old.card_stamina.len()
            &&& new.card_stamina.len() >= old.owned_cards.len()
            &&& forall|i: int| 0 <= i < new.card_stamina.len() ==> new.card_stamina[i] == max_stamina
            &&& new.owned_cards == old.owned_cards
        },
{
}

/// A player after the stamina tick at `now`: unchanged within a minute of the last recovery,
/// otherwise recovered (see [`recovered_stamina`]) and stamped `now`.
pub open spec fn stamina_ticked(old: PlayerView, new: PlayerView, now: u64, max_stamina: u32, base_rate: u32) -> bool {
    if sat_sub(now, old.last_stamina_tick) < 60_000 {
        new == old
    } else {
        new == PlayerView {
            card_stamina: recovered_stamina(old, now, max_stamina, base_rate),
            last_stamina_tick: now,
            ..old
        }
    }
}

/// A human player under the development auto-win switch: every slot at full stamina, with at
/// least one stamina entry per owned card.
pub open spec fn stamina_filled(old: PlayerView, new: PlayerView, max_stamina: u32) -> bool {
    let n = if old.card_stamina.len() >= old.owned_cards.len() {
        old.card_stamina.len()
    } else {
        old.owned_cards.len()
    };
    new == PlayerView { card_stamina: Seq::new(n, |i: int| max_stamina), ..old }
}

fn tick_player_stamina(p: &mut PlayerData, now: u64, max_stamina: u32, base_rate: u32)
    requires
        bonuses_fit(facility_views(old(p).facilities@), now),
    ensures
        stamina_ticked(old(p)@, final(p)@, now, max_stamina, base_rate),
{
    let elapsed = now.saturating_sub(p.last_stamina_tick);
    if elapsed < 60_000 {
        return;
    }
    let minutes = #[verifier::truncate] ((elapsed / 60_000) as u32);
    let bonuses = calculate_facility_bonuses_at(p.facilities.as_slice(), now);
    proof {
        assert(facility_views(p.facilities@) =~= p@.facilities);
    }
    let rate = base_rate.saturating_add(bonuses.stamina_recovery_bonus);
    proof {
        assert((rate as u64) * (minutes as u64) <= (u32::MAX as int) * (u32::MAX as int)) by (nonlinear_arith);
    }
    let wide: u64 = (rate as u64) * (minutes as u64);
    let gain: u32 = if wide > u32::MAX as u64 { u32::MAX } else { wide as u32 };
    let ghost target = recovered_stamina(p@, now, max_stamina, base_rate);
    let ghost start = p@;
    let mut i: usize = 0;
    while i < p.card_stamina.len()
        invariant
            i <= p.card_stamina@.len() == start.card_stamina.len(),
            target == recovered_stamina(start, now, max_stamina, base_rate),
            gain == sat_mul(
                crate::card_stats::sat_add(base_rate, facility_bonuses_spec(start.facilities, now).stamina_recovery_bonus),
                #[verifier::truncate] ((sat_sub(now, start.last_stamina_tick) / 60_000) as u32),
            ),
            p@ == (PlayerView { card_stamina: p@.card_stamina, ..start }),
            forall|k: int| 0 <= k < i ==> p.card_stamina@[k] == target[k],
            forall|k: int| i <= k < p.card_stamina@.len() ==> p.card_stamina@[k] == start.card_stamina[k],
        decreases p.card_stamina@.len() - i,
    {
        let resting = i < p.card_rest_until.len() && p.card_rest_until[i] > now;
        if !resting {
            let v = p.card_stamina[i].saturating_add(gain);
            let capped = if v > max_stamina { max_stamina } else { v };
            p.card_stamina.set(i, capped);
        }
        i += 1;
    }
    p.last_stamina_tick = now;
    proof {
        assert(p@.card_stamina =~= target);
    }
}

fn fill_player_stamina(p: &mut PlayerData, max_stamina: u32)
    ensures
        stamina_filled(old(p)@, final(p)@, max_stamina),
{
    while p.card_stamina.len() < p.owned_cards.len()
        invariant
            p@ == (PlayerView { card_stamina: p@.card_stamina, ..old(p)@ }),
            p.card_stamina@.len() >= old(p).card_stamina@.len(),
            p.card_stamina@.len() > old(p).card_stamina@.len() ==> p.card_stamina@.len() <= p.owned_cards@.len(),
        decreases p.owned_cards@.len() - p.card_stamina@.len(),
    {
        p.card_stamina.push(max_stamina);
    }
    let mut i: usize = 0;
    while i < p.card_stamina.len()
        invariant
            i <= p.card_stamina@.len(),
            p@ == (PlayerView { card_stamina: p@.card_stamina, ..old(p)@ }),
            p.card_stamina@.len() >= old(p).card_stamina@.len(),
            p.card_stamina@.len() >= p.owned_cards@.len(),
            p.card_stamina@.len() > old(p).card_stamina@.len() ==> p.card_stamina@.len() == p.owned_cards@.len(),
            forall|k: int| 0 <= k < i ==> p.card_stamina@[k] == max_stamina,
        decreases p.card_stamina@.len() - i,
    {
        p.card_stamina.set(i, max_stamina);
        i += 1;
    }
    proof {
        let n = if old(p)@.card_stamina.len() >= old(p)@.owned_cards.len() {
            old(p)@.card_stamina.len()
        } else {
            old(p)@.owned_cards.len()
        };
        assert(p@.card_stamina =~= Seq::new(n, |i: int| max_stamina));
    }
}

/// Stamina recovery over time at `now`. Under the development auto-win switch every human
/// player's slots are simply filled to `max_stamina` (see [`stamina_filled`]); otherwise each
/// player recovers for the whole minutes since its last recovery (see [`stamina_ticked`]).
/// `max_stamina` and `base_rate` are the configured cap and per-minute rate.
pub fn tick_stamina(state: &mut GameState, dev_auto_win: bool, now: u64, max_stamina: u32, base_rate: u32)
    requires
        forall|q: int| 0 <= q < old(state).players@.len() ==> bonuses_fit(facility_views((#[trigger] old(state).players@[q]).facilities@), now),
    ensures
        final(state).players@.len() == old(state).players@.len(),
        forall|q: int|
            0 <= q < old(state).players@.len() ==> if dev_auto_win {
                if is_ai_id(old(state).players@[q].player_id@) {
                    final(state).players@[q]@ == old(state).players@[q]@
                } else {
                    stamina_filled(old(state).players@[q]@, final(state).players@[q]@, max_stamina)
                }
            } else {
                stamina_ticked(old(state).players@[q]@, final(state).players@[q]@, now, max_stamina, base_rate)
            },
        final(state)@ == (GameStateView { players: final(state)@.players, ..old(state)@ }),
{
    let ghost ps0 = state.players@;
    let mut i: usize = 0;
    while i < state.players.len()
        invariant
            i <= state.players@.len() == ps0.len(),
            ps0 == old(state).players@,
            forall|q: int| 0 <= q < ps0.len() ==> bonuses_fit(facility_views((#[trigger] ps0[q]).facilities@), now),
            forall|q: int|
                0 <= q < i ==> if dev_auto_win {
                    if is_ai_id(ps0[q].player_id@) {
                        state.players@[q]@ == ps0[q]@
                    } else {
                        stamina_filled(ps0[q]@, state.players@[q]@, max_stamina)
                    }
                } else {
                    stamina_ticked(ps0[q]@, state.players@[q]@, now, max_stamina, base_rate)
                },
            forall|q: int| i <= q < ps0.len() ==> state.players@[q]@ == ps0[q]@,
            forall|q: int| i <= q < ps0.len() ==> state.players@[q].facilities@.len() == ps0[q].facilities@.len(),
            state@ == (GameStateView { players: state@.players, ..old(state)@ }),
        decreases ps0.len() - i,
    {
        if dev_auto_win {
            if is_human_player_id(state.players[i].player_id.as_str()) {
                let mut p = state.players[i].dup();
                fill_player_stamina(&mut p, max_stamina);
                let ghost before = state.players@;
                state.players.set(i, p);
                proof {
                    assert(views(state.players@) =~= views(before).update(i as int, p@));
                }
            }
        } else {
            let mut p = state.players[i].dup();
            proof {
                assert(p@.facilities == state.players@[i as int]@.facilities);
                assert(views(p.facilities@).len() == p.facilities@.len());
                assert(views(state.players@[i as int].facilities@).len() == state.players@[i as int].facilities@.len());
                assert(state.players@[i as int].facilities@.len() == ps0[i as int].facilities@.len());
            }
            tick_player_stamina(&mut p, now, max_stamina, base_rate);
            let ghost before = state.players@;
            state.players.set(i, p);
            proof {
                assert(views(state.players@) =~= views(before).update(i as int, p@));
            }
        }
        i += 1;
    }
}

/// The log message of a season change.
pub open spec fn season_message(old_number: u32) -> Seq<char> {
    "シーズン"@ + crate::text::decimal(old_number as nat) + "が終了しました！シーズン"@
        + crate::text::decimal((old_number + 1) as nat) + "が開始されます。"@
}

fn season_message_string(old_number: u32) -> (s: String)
    requires
        old_number < u32::MAX,
    ensures
        s@ == season_message(old_number),
{
    let mut out: Vec<char> = Vec::new();
    crate::game_log::push_str_chars(&mut out, "シーズン");
    push_decimal(old_number as u64, &mut out);
    crate::game_log::push_str_chars(&mut out, "が終了しました！シーズン");
    push_decimal((old_number + 1) as u64, &mut out);
    crate::game_log::push_str_chars(&mut out, "が開始されます。");
    proof {
        assert(out@ =~= season_message(old_number));
    }
    string_from_chars(&out)
}

/// Ends the season when its time is up at `now`: the next season starts at `now`, the map is
/// generated anew (with `env_seed`, the configured terrain seed), every player's resources
/// return to the starting amounts and its expeditions are dropped, alliances are dissolved,
/// and the change is logged (event `event_id`). Returns whether the season ended.
pub fn check_season_end(state: &mut GameState, now: u64, env_seed: Option<u64>, event_id: u64) -> (ended: bool)
    requires
        old(state).season.season_number < u32::MAX,
    ensures
        ended == (sat_sub(now, old(state).season.started_at) >= old(state).season.duration_ms),
        !ended ==> final(state)@ == old(state)@,
        ended ==> {
            &&& final(state).season == (SeasonInfo {
                season_number: (old(state).season.season_number + 1) as u32,
                started_at: now,
                duration_ms: old(state).season.duration_ms,
            })
            &&& final(state).territories@.len() == old(state).world.cols as int * old(state).world.rows as int
            &&& forall|k: int|
                0 <= k < final(state).territories@.len() ==> crate::world::generated_tile(
                    (#[trigger] final(state).territories@[k])@,
                    k,
                    old(state).world,
                    DEFAULT_PLAYER_ID@,
                )
            &&& crate::world::given_terrain_seed(old(state).world, env_seed) matches Some(seed)
                ==> crate::world::seeded_map_levels(final(state).territories@, old(state).world, seed)
            &&& final(state).players@.len() == old(state).players@.len()
            &&& forall|q: int|
                0 <= q < old(state).players@.len() ==> final(state).players@[q]@ == (PlayerView {
                    resources: starting_resources(),
                    marches: seq![],
                    ..old(state).players@[q]@
                })
            &&& final(state).alliances@.len() == 0
            &&& views(final(state).log@) == keep_last(
                views(old(state).log@).push(system_event(event_id, now, None, season_message(old(state).season.season_number))),
                MAX_EVENTS as nat,
            )
            &&& final(state).world == old(state).world
            &&& final(state)@.world_owner_id == old(state)@.world_owner_id
            &&& final(state)@.ai_factions == old(state)@.ai_factions
            &&& final(state)@.market_listings == old(state)@.market_listings
            &&& final(state)@.visible_marches == old(state)@.visible_marches
        },
{
    let elapsed = now.saturating_sub(state.season.started_at);
    if elapsed < state.season.duration_ms {
        return false;
    }
    let old_season = state.season.season_number;
    state.season = SeasonInfo {
        season_number: old_season + 1,
        started_at: now,
        duration_ms: state.season.duration_ms,
    };
    let world = state.world;
    state.territories = generate_territories(&world, DEFAULT_PLAYER_ID, None, env_seed);
    let ghost ps0 = state.players@;
    let ghost mid = *state;
    let mut i: usize = 0;
    while i < state.players.len()
        invariant
            i <= state.players@.len() == ps0.len(),
            state.season == mid.season,
            state.territories@ == mid.territories@,
            state.world == mid.world,
            state@ == (GameStateView { players: state@.players, ..mid@ }),
            forall|q: int|
                0 <= q < i ==> state.players@[q]@ == (PlayerView {
                    resources: starting_resources(),
                    marches: seq![],
                    ..ps0[q]@
                }),
            forall|q: int| i <= q < ps0.len() ==> state.players@[q]@ == ps0[q]@,
        decreases ps0.len() - i,
    {
        let mut p = state.players[i].dup();
        p.resources = Resources::default();
        p.marches.clear();
        let ghost before = state.players@;
        state.players.set(i, p);
        proof {
            assert(views(state.players@) =~= views(before).update(i as int, p@));
            assert(p@.marches =~= seq![]);
        }
        i += 1;
    }
    state.alliances.clear();
    let msg = season_message_string(old_season);
    push_system_event(&mut state.log, msg.as_str(), event_id, now);
    true
}

impl GameState {
    /// A fresh world at `now`: the default 48x48 map generated with the terrain seed (the
    /// configured `env_seed`, or a random one), the default player "player" at home on
    /// (24, 24), the first season, and nothing else.
    pub fn new_world(env_seed: Option<u64>, now: u64) -> (s: GameState)
        ensures
            s.world.cols == 48 && s.world.rows == 48,
            s.world.home_col == 24 && s.world.home_row == 24,
            env_seed matches Some(e) ==> s.world.terrain_seed == e,
            s.world_owner_id is None,
            s.ai_factions@.len() == 0,
            s.territories@.len() == 48 * 48,
            forall|k: int|
                0 <= k < s.territories@.len() ==> crate::world::generated_tile(
                    (#[trigger] s.territories@[k])@,
                    k,
                    s.world,
                    DEFAULT_PLAYER_ID@,
                ),
            s.log@.len() == 0,
            s.players@.len() == 1,
            s.players@[0].player_id@ == DEFAULT_PLAYER_ID@,
            s.players@[0].home_territory_id@ == crate::grid::territory_id_spec(24, 24),
            s.players@[0].owned_cards@ == crate::player::default_owned_cards_spec(),
            s.players@[0].resources == starting_resources(),
            s.alliances@.len() == 0,
            s.season == (SeasonInfo { season_number: 1, started_at: now, duration_ms: crate::model::SEASON_DURATION_MS }),
            s.market_listings@.len() == 0,
            s.visible_marches@.len() == 0,
            s.world.terrain_seed != 0 ==> crate::world::seeded_map_levels(s.territories@, s.world, s.world.terrain_seed),
    {
        let mut world = crate::territory::WorldConfig::default_world();
        world.terrain_seed = crate::world::resolve_terrain_seed(None, env_seed);
        let home = crate::grid::territory_id(world.home_col as u64, world.home_row as u64);
        let player = PlayerData::new_at(DEFAULT_PLAYER_ID.to_owned(), home, now);
        let mut players: Vec<PlayerData> = Vec::new();
        players.push(player);
        let territories = generate_territories(&world, DEFAULT_PLAYER_ID, None, env_seed);
        GameState {
            world,
            world_owner_id: None,
            ai_factions: Vec::new(),
            territories,
            log: Vec::new(),
            players,
            alliances: Vec::new(),
            season: SeasonInfo::first_at(now),
            market_listings: Vec::new(),
            visible_marches: Vec::new(),
        }
    }
}

impl Default for GameState {
    /// A fresh world now, with a random terrain seed (see [`GameState::new_world`]).
    fn default() -> (s: GameState)
        ensures
            s.players@.len() == 1,
            s.players@[0].player_id@ == DEFAULT_PLAYER_ID@,
            s.territories@.len() == 48 * 48,
    {
        GameState::new_world(None, now_ms())
    }
}

/// `ids` followed by the entries of `more` it lacks, each once, in order.
pub open spec fn append_new(ids: Seq<Seq<char>>, more: Seq<Seq<char>>) -> Seq<Seq<char>>
    decreases more.len(),
{
    if more.len() == 0 {
        ids
    } else {
        let prev = append_new(ids, more.drop_last());
        if prev.contains(more.last()) {
            prev
        } else {
            prev.push(more.last())
        }
    }
}

/// `ids` followed by the members of the alliances it lacks (see [`append_new`]).
pub open spec fn append_member_lists(ids: Seq<Seq<char>>, als: Seq<AllianceView>) -> Seq<Seq<char>>
    decreases als.len(),
{
    if als.len() == 0 {
        ids
    } else {
        append_new(append_member_lists(ids, als.drop_last()), als.last().member_ids)
    }
}

/// The owners whose tiles count as an attacker's front: the attacker, its allied players (of
/// the first player with its id), and the members of its alliances, each once, in that order.
pub open spec fn base_owner_ids_spec(s: GameStateView, acting: Seq<char>) -> Seq<Seq<char>> {
    let me = own_player(s.players, acting);
    let start = if me.len() > 0 { append_new(seq![acting], me[0].allied_player_ids) } else { seq![acting] };
    append_member_lists(start, alliances_of(s.alliances, acting))
}

fn append_new_ids(ids: &mut Vec<String>, more: &Vec<String>)
    ensures
        views(final(ids)@) == append_new(views(old(ids)@), views(more@)),
{
    let ghost start = views(ids@);
    let mut k: usize = 0;
    while k < more.len()
        invariant
            k <= more@.len(),
            views(ids@) == append_new(start, views(more@).take(k as int)),
        decreases more@.len() - k,
    {
        proof {
            assert(views(more@).take(k + 1).drop_last() =~= views(more@).take(k as int));
            assert(views(more@).take(k + 1).last() == more@[k as int]@);
        }
        if !contains_string(ids, more[k].as_str()) {
            ids.push(more[k].clone());
            proof {
                assert(views(ids@) =~= append_new(start, views(more@).take(k as int)).push(more@[k as int]@));
            }
        }
        k += 1;
    }
    proof {
        assert(views(more@).take(more@.len() as int) =~= views(more@));
    }
}

/// The owners whose tiles count as `acting_player_id`'s front (see [`base_owner_ids_spec`]).
#[verifier::rlimit(40)]
pub fn attack_base_owner_ids(state: &GameState, acting_player_id: &str) -> (ids: Vec<String>)
    ensures
        views(ids@) == base_owner_ids_spec(state@, acting_player_id@),
{
    let mut ids: Vec<String> = Vec::new();
    ids.push(acting_player_id.to_string());
    proof {
        assert(views(ids@) =~= seq![acting_player_id@]);
    }
    let me = own_players(&state.players, acting_player_id);
    if me.len() > 0 {
        proof {
            assert(views(me@)[0] == me@[0]@);
        }
        append_new_ids(&mut ids, &me[0].allied_player_ids);
    }
    let als = alliances_with(&state.alliances, acting_player_id);
    let ghost start = views(ids@);
    let mut a: usize = 0;
    while a < als.len()
        invariant
            a <= als@.len(),
            views(ids@) == append_member_lists(start, views(als@).take(a as int)),
        decreases als@.len() - a,
    {
        proof {
            assert(views(als@).take(a + 1).drop_last() =~= views(als@).take(a as int));
            assert(views(als@).take(a + 1).last() == als@[a as int]@);
        }
        append_new_ids(&mut ids, &als[a].member_ids);
        a += 1;
    }
    proof {
        assert(views(als@).take(als@.len() as int) =~= views(als@));
        let ghost sv = state@;
        assert(sv.players == views(state.players@));
        assert(sv.alliances == views(state.alliances@));
        let me_v = own_player(sv.players, acting_player_id@);
        assert(views(me@) == me_v);
        if me@.len() > 0 {
            assert(me_v[0] == me@[0]@);
        }
    }
    ids
}

} // verus!
