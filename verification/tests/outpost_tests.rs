use kingdom_server::model::{GameState, PlayerData};
use kingdom_server::outpost::apply_build_base;
use kingdom_server::territory::Territory;

fn tile(id: &str, level: u8, owner: Option<&str>) -> Territory {
    Territory {
        id: id.to_string(),
        name: "平原".to_string(),
        level,
        owner_id: owner.map(|o| o.to_string()),
        troops: 0,
        body_monster_counts: None,
        body_names: None,
        ruin: None,
        is_base: false,
        durability: 0,
        max_durability: 0,
        tower_level: 0,
    }
}

fn world() -> GameState {
    let mut state = GameState::default();
    state.players.clear();
    state.players.push(PlayerData::new_at("alice".to_string(), "c_24_24".to_string(), 0));
    state.territories = vec![
        tile("c_3_3", 2, Some("alice")),
        tile("c_4_3", 1, Some("bob")),
        tile("c_24_24", 1, Some("alice")),
    ];
    state
}

#[test]
fn building_a_base_fortifies_the_tile_and_costs_resources() {
    let mut state = world();
    let mut log = Vec::new();
    apply_build_base(&mut state, &mut log, "alice", "c_3_3", 9);
    let t = &state.territories[0];
    assert!(t.is_base);
    assert_eq!(t.max_durability, 640);
    assert_eq!(t.durability, 640);
    assert_eq!(t.tower_level, 1);
    let r = state.players[0].resources;
    assert_eq!((r.food, r.wood, r.stone, r.iron, r.gold), (300, 200, 300, 400, 1000));
    assert_eq!(log, vec!["[ts:9]平原に前線基地を建設しました！".to_string()]);
}

#[test]
fn a_base_is_built_only_on_an_own_plain_tile() {
    let mut state = world();
    let mut log = Vec::new();
    apply_build_base(&mut state, &mut log, "alice", "c_4_3", 1);
    apply_build_base(&mut state, &mut log, "alice", "c_24_24", 1);
    apply_build_base(&mut state, &mut log, "alice", "c_9_9", 1);
    assert!(log.is_empty());
    assert!(state.territories.iter().all(|t| !t.is_base));
    apply_build_base(&mut state, &mut log, "alice", "c_3_3", 1);
    apply_build_base(&mut state, &mut log, "alice", "c_3_3", 2);
    assert_eq!(log.len(), 1);
    assert_eq!(state.players[0].resources.food, 300);
}

#[test]
fn a_base_needs_all_four_resources() {
    let mut state = world();
    state.players[0].resources.wood = 299;
    let mut log = Vec::new();
    apply_build_base(&mut state, &mut log, "alice", "c_3_3", 4);
    assert_eq!(log, vec!["[ts:4]資源が足りません。".to_string()]);
    assert!(!state.territories[0].is_base);
    assert_eq!(state.players[0].resources.food, 500);
}
