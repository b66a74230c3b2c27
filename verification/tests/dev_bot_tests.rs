use kingdom_server::dev_bot::{build_home_expedition, min_distance_to_targets, plan_attack};
use kingdom_server::grid::territories_are_adjacent;
use kingdom_server::homes::ensure_player_in_game;
use kingdom_server::model::{Action, GameState, PlayerData};
use kingdom_server::territory::Territory;

fn home_of(state: &GameState, id: &str) -> String {
    state.players.iter().find(|p| p.player_id == id).unwrap().home_territory_id.clone()
}

#[test]
fn plan_attack_prefers_target_player_territory() {
    let mut state = GameState::default();
    ensure_player_in_game(&mut state, "player", 0, 100).expect("first test player");
    ensure_player_in_game(&mut state, "offline_test", 0, 100).expect("second test player");
    let bot_home = home_of(&state, "player");
    let human_home = home_of(&state, "offline_test");
    if let Some(t) = state.territories.iter_mut().find(|t| t.id == human_home) {
        t.owner_id = Some("offline_test".to_string());
    }
    if let Some(t) = state.territories.iter_mut().find(|t| t.id == bot_home) {
        t.owner_id = Some("player".to_string());
    }
    let action = plan_attack(&state, "player", "offline_test", 100, 50);
    if territories_are_adjacent(&bot_home, &human_home) {
        let action = action.expect("adjacent homes should yield attack");
        if let Action::Attack { to_territory_id, .. } = action {
            assert_eq!(to_territory_id, human_home);
        } else {
            panic!("expected attack");
        }
    }
}

fn tile(id: &str, owner: Option<&str>) -> Territory {
    Territory {
        id: id.to_string(),
        name: "平原".to_string(),
        level: 1,
        owner_id: owner.map(|o| o.to_string()),
        troops: 0,
        body_monster_counts: None,
        body_names: None,
        ruin: None,
        is_base: false,
        durability: 0,
        max_durability: 0,
        tower_level: 0,
    }
}

#[test]
fn bot_attacks_toward_the_target_player() {
    let mut state = GameState::new_world(Some(1), 0);
    state.players = vec![PlayerData::new("bot".to_string(), "c_1_1".to_string())];
    state.alliances = vec![];
    state.territories = vec![
        tile("c_1_1", Some("bot")),
        tile("c_2_1", None),
        tile("c_1_2", None),
        tile("c_0_1", Some("other")),
        tile("c_5_1", Some("human")),
    ];
    // The neutral tile nearer the human's tile wins over the other's tile and the farther one.
    match plan_attack(&state, "bot", "human", 100, 50) {
        Some(Action::Attack { from_territory_id, to_territory_id, count, unit_name, owned_card_indices, .. }) => {
            assert_eq!(from_territory_id, "c_1_1");
            assert_eq!(to_territory_id, "c_2_1");
            assert_eq!(count, 3);
            assert_eq!(unit_name.as_deref(), Some("BOTユニット1"));
            assert_eq!(owned_card_indices, Some(vec![0, 1, 2]));
        },
        _ => panic!("expected an attack"),
    }
    assert!(plan_attack(&state, "nobody", "human", 100, 50).is_none());
    // Without stamina there is no expedition.
    state.players[0].card_stamina = vec![0; 10];
    assert!(plan_attack(&state, "bot", "human", 100, 50).is_none());
}

#[test]
fn home_expedition_takes_distinct_rested_cards() {
    let mut p = PlayerData::new("bot".to_string(), "c_1_1".to_string());
    p.owned_cards = vec![4, 4, 5, 6, 7];
    p.card_stamina = vec![60, 60, 10];
    let f = build_home_expedition(&p, 3, 100, 50).expect("expedition");
    // Slot 1 repeats card 4, slot 2 lacks stamina; slots off the stamina list have the maximum.
    assert_eq!(f.card_indices, vec![0, 3, 4]);
    let f = build_home_expedition(&p, 1, 100, 50).expect("expedition");
    assert_eq!(f.card_indices, vec![0]);
    p.owned_cards = vec![60_000];
    assert!(build_home_expedition(&p, 3, 100, 50).is_none());
    assert!(build_home_expedition(&p, 0, 100, 50).is_none());
}

#[test]
fn distance_to_nearest_target() {
    let targets = vec!["c_5_5".to_string(), "c_1_2".to_string(), "bad".to_string()];
    assert_eq!(min_distance_to_targets("c_1_1", &targets), 1);
    assert_eq!(min_distance_to_targets("c_1_1", &[]), u16::MAX);
}
