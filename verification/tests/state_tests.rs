use kingdom_server::config::ServerMode;
use kingdom_server::homes::{ensure_player_in_game, NO_HOME_AVAILABLE_MSG};
use kingdom_server::model::{GameState, MarchKind, MarchMission, PlayerData};
use kingdom_server::neutral::exploration_resource_bonus;
use kingdom_server::state::{
    check_season_end, client_view_state, collect_visible_marches, ms_until_march_processing, next_sleep_ms_over_worlds,
    tick_stamina,
};
use kingdom_server::territory::WorldConfig;
use kingdom_server::world::generate_territories;

fn march(id: &str, kind: MarchKind, arrives_at: u64) -> MarchMission {
    MarchMission {
        march_id: id.to_string(),
        kind,
        from_territory_id: "c_1_1".to_string(),
        to_territory_id: "c_3_3".to_string(),
        started_at: 0,
        arrives_at,
        count: 1,
        monsters_per_body: None,
        body_names: None,
        unit_name: None,
        speed_per_body: None,
        skills_per_body: None,
        stats_per_body: None,
        owned_card_indices: None,
        formed_unit_id: None,
    }
}

#[test]
fn exploration_bonus_is_40_percent_of_conquest_range() {
    for _ in 0..30 {
        let (f, w, s, i) = exploration_resource_bonus(2);
        assert!((10..=52).contains(&f));
        assert!((10..=52).contains(&w));
        assert!((10..=52).contains(&s));
        assert!((10..=52).contains(&i));
    }
}

#[test]
fn pvp_client_view_hides_other_players() {
    let world = WorldConfig::default();
    let mut state = GameState::default();
    state.world = world;
    state.players.push(PlayerData::new("viewer".to_string(), "c_24_24".to_string()));
    state.players.push(PlayerData::new("other".to_string(), "c_10_10".to_string()));
    let view = client_view_state(&state, "viewer", ServerMode::Pvp);
    assert_eq!(view.players.len(), 1);
    assert!(view.players.iter().any(|p| p.player_id == "viewer"));
    assert!(!view.players.iter().any(|p| p.player_id == "other"));
}

#[test]
fn pvp_client_view_includes_other_players_visible_marches() {
    let mut state = GameState::default();
    let mut other = PlayerData::new("other".to_string(), "c_10_10".to_string());
    let mut m = march("m-other-1", MarchKind::Attack, u64::MAX);
    m.from_territory_id = "c_9_10".to_string();
    m.to_territory_id = "c_11_10".to_string();
    m.unit_name = Some("敵遠征".to_string());
    other.marches.push(m);
    state.players.push(PlayerData::new("viewer".to_string(), "c_24_24".to_string()));
    state.players.push(other);
    let view = client_view_state(&state, "viewer", ServerMode::Pvp);
    assert_eq!(view.players.len(), 1);
    assert_eq!(view.visible_marches.len(), 1);
    assert_eq!(view.visible_marches[0].owner_id, "other");
    assert_eq!(view.visible_marches[0].home_territory_id, "c_10_10");
}

#[test]
fn collect_visible_marches_skips_return_and_expired() {
    let mut player = PlayerData::new("p1".to_string(), "c_1_1".to_string());
    player.marches.push(march("return", MarchKind::Return, u64::MAX));
    player.marches.push(march("attack", MarchKind::Attack, 1000));
    let mut state = GameState::default();
    state.players.push(player);
    let marches = collect_visible_marches(&state, 500);
    assert_eq!(marches.len(), 1);
    assert_eq!(marches[0].march_id, "attack");
    let expired = collect_visible_marches(&state, 1500);
    assert!(expired.is_empty());
}

#[test]
fn pve_client_view_keeps_all_players() {
    let mut state = GameState::default();
    state.world_owner_id = Some("viewer".to_string());
    state.players.clear();
    state.players.push(PlayerData::new("viewer".to_string(), "c_24_24".to_string()));
    state.players.push(PlayerData::new("ai_faction_0".to_string(), "c_5_5".to_string()));
    let view = client_view_state(&state, "viewer", ServerMode::Pve);
    assert_eq!(view.players.len(), 2);
}

#[test]
fn ensure_player_rejects_when_no_home_available() {
    let world = WorldConfig { cols: 6, rows: 6, home_col: 3, home_row: 3, terrain_seed: 1 };
    let mut state = GameState { world, ..GameState::default() };
    state.territories = generate_territories(&world, "first", None, None);
    state.players.push(PlayerData::new("first".to_string(), format!("c_{}_{}", world.home_col, world.home_row)));
    for territory in state.territories.iter_mut() {
        if territory.owner_id.is_none() {
            territory.owner_id = Some("blocker".to_string());
        }
    }
    let before_count = state.players.len();
    let home_id = format!("c_{}_{}", world.home_col, world.home_row);
    let first_home_owner = state.territories.iter().find(|t| t.id == home_id).and_then(|t| t.owner_id.clone());
    let result = ensure_player_in_game(&mut state, "second", 0, 100);
    assert!(result.is_err());
    assert_eq!(result.unwrap_err(), NO_HOME_AVAILABLE_MSG);
    assert_eq!(state.players.len(), before_count);
    assert!(!state.players.iter().any(|p| p.player_id == "second"));
    assert_eq!(state.territories.iter().find(|t| t.id == home_id).and_then(|t| t.owner_id.clone()), first_home_owner);
}

#[test]
fn new_player_gets_a_distant_home() {
    let mut state = GameState::new_world(Some(7), 1_000);
    let result = ensure_player_in_game(&mut state, "alice", 1_000, 100);
    assert!(result.is_ok());
    let alice = state.players.iter().find(|p| p.player_id == "alice").unwrap();
    let home = state.territories.iter().find(|t| t.id == alice.home_territory_id).unwrap();
    assert_eq!(home.owner_id.as_deref(), Some("alice"));
    assert!(home.is_base);
    assert_eq!(home.troops, 10);
    let again = ensure_player_in_game(&mut state, "alice", 2_000, 100);
    assert!(again.is_ok());
    assert_eq!(state.players.iter().filter(|p| p.player_id == "alice").count(), 1);
}

#[test]
fn test_accounts_are_refreshed_to_full_strength() {
    let mut state = GameState::new_world(Some(7), 1_000);
    state.players[0].card_monster_counts = vec![1; 10];
    assert!(ensure_player_in_game(&mut state, "player", 2_000, 77).is_ok());
    assert!(state.players[0].card_monster_counts.iter().all(|&c| c == 9999));
    assert!(state.players[0].card_stamina.iter().all(|&s| s == 77));
    assert_eq!(state.players[0].unit_cost_cap_milli, 10_000);
}

#[test]
fn scheduler_wait_follows_the_earliest_arrival() {
    let mut state = GameState::new_world(Some(3), 0);
    assert_eq!(ms_until_march_processing(&state, true, 1_000, 5_000), 5_000);
    state.players[0].marches.push(march("a", MarchKind::Attack, 4_000));
    state.players[0].marches.push(march("b", MarchKind::Return, 2_000));
    assert_eq!(ms_until_march_processing(&state, false, 1_000, 5_000), 3_050);
    assert_eq!(ms_until_march_processing(&state, true, 1_000, 5_000), 1_050);
    assert_eq!(ms_until_march_processing(&state, true, 2_000, 5_000), 0);
}

#[test]
fn stamina_recovers_per_whole_minute() {
    let mut state = GameState::new_world(Some(3), 0);
    state.players[0].card_stamina = vec![10, 90, 50];
    state.players[0].card_rest_until = vec![0, 0, 1_000_000];
    state.players[0].last_stamina_tick = 0;
    tick_stamina(&mut state, false, 150_000, 100, 5);
    assert_eq!(state.players[0].card_stamina, vec![20, 100, 50]);
    assert_eq!(state.players[0].last_stamina_tick, 150_000);
    tick_stamina(&mut state, false, 170_000, 100, 5);
    assert_eq!(state.players[0].last_stamina_tick, 150_000);
    tick_stamina(&mut state, true, 170_000, 100, 5);
    assert_eq!(state.players[0].card_stamina, vec![100; 10]);
}

#[test]
fn season_ends_after_its_duration() {
    let mut state = GameState::new_world(Some(3), 0);
    state.players[0].resources.food = 1;
    state.players[0].marches.push(march("a", MarchKind::Attack, 10));
    assert!(!check_season_end(&mut state, 1_000, Some(3), 1));
    let end = state.season.duration_ms;
    assert!(check_season_end(&mut state, end, Some(3), 1));
    assert_eq!(state.season.season_number, 2);
    assert_eq!(state.season.started_at, end);
    assert_eq!(state.players[0].resources.food, 500);
    assert!(state.players[0].marches.is_empty());
    assert_eq!(state.log.len(), 1);
    assert_eq!(state.log[0].message, "シーズン1が終了しました！シーズン2が開始されます。");
}

#[test]
fn scheduler_wait_over_worlds_is_the_least() {
    let mut a = GameState::new_world(Some(3), 0);
    let mut b = GameState::new_world(Some(4), 0);
    assert_eq!(next_sleep_ms_over_worlds(&vec![], 1_000, 5_000), 5_000);
    a.players[0].marches.push(march("a", MarchKind::Attack, 4_000));
    b.players[0].marches.push(march("b", MarchKind::Explore, 2_500));
    // Returns do not count here.
    b.players[0].marches.push(march("c", MarchKind::Return, 1_200));
    let worlds = vec![a, b];
    assert_eq!(next_sleep_ms_over_worlds(&worlds, 1_000, 5_000), 1_550);
    assert_eq!(next_sleep_ms_over_worlds(&worlds, 1_000, 900), 900);
}
