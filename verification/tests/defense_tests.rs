use kingdom_server::cards::get_card;
use kingdom_server::defense::{
    fallback_defense_slots, pick_home_defense_unit, resolve_owned_player_defenders,
    resolve_territory_defenders, score_defense_unit_power,
};
use kingdom_server::model::{MarchKind, MarchMission, PlayerData, StoredFormedUnit};
use kingdom_server::player::default_owned_cards;
use kingdom_server::territory::Territory;

fn tile(id: &str, level: u8, owner: Option<&str>) -> Territory {
    Territory {
        id: id.to_string(),
        name: "丘陵".to_string(),
        level,
        owner_id: owner.map(|o| o.to_string()),
        troops: 0,
        body_monster_counts: None,
        body_names: None,
        ruin: None,
        is_base: false,
        durability: 0,
        max_durability: 0,
        tower_level: 0,
    }
}

fn unit(id: &str, indices: [i32; 3]) -> StoredFormedUnit {
    StoredFormedUnit { id: id.to_string(), name: "守備隊".to_string(), indices }
}

fn march_using(slots: Vec<usize>, unit_id: Option<&str>, arrives_at: u64) -> MarchMission {
    MarchMission {
        march_id: "m1".to_string(),
        kind: MarchKind::Attack,
        from_territory_id: "c_1_1".to_string(),
        to_territory_id: "c_2_1".to_string(),
        started_at: 0,
        arrives_at,
        count: slots.len() as u32,
        monsters_per_body: None,
        body_names: None,
        unit_name: None,
        speed_per_body: None,
        skills_per_body: None,
        stats_per_body: None,
        owned_card_indices: Some(slots),
        formed_unit_id: unit_id.map(|u| u.to_string()),
    }
}

#[test]
fn resolve_owned_home_defenders_use_formed_unit() {
    let mut player = PlayerData::new("ai_test".to_string(), "c_1_1".to_string());
    player.owned_cards = default_owned_cards();
    player.card_monster_counts = vec![100; 10];
    player.formed_units = vec![unit("unit-1", [0, 1, 2])];
    let players = vec![player];
    let mut territory = tile("c_2_2", 2, Some("ai_test"));
    territory.troops = 10;
    territory.body_monster_counts = Some(vec![100; 10]);
    territory.is_base = true;
    let (troops, _, names) = resolve_territory_defenders(&territory, &players, 1_000);
    assert_eq!(troops, 3);
    assert_eq!(names.len(), 3);
    assert!(!names[0].starts_with("敵ユニット"));
    let odin = get_card(0).map(|c| c.name).unwrap_or("");
    assert!(names.contains(&odin.to_string()));
}

#[test]
fn resolve_procedural_neutral_without_storage() {
    let territory = tile("c_3_4", 3, None);
    let (troops, _, names) = resolve_territory_defenders(&territory, &Vec::new(), 1_000);
    assert!(troops > 0);
    assert!(!names.is_empty());
}

#[test]
fn stationed_garrison_defends_its_tile() {
    let player = PlayerData::new("p".to_string(), "c_1_1".to_string());
    let mut territory = tile("c_2_2", 2, Some("p"));
    territory.troops = 2;
    territory.body_monster_counts = Some(vec![7, 8]);
    territory.body_names = Some(vec!["A".to_string(), "B".to_string()]);
    let r = resolve_owned_player_defenders(&player, &territory, 0);
    assert_eq!(r, (2, vec![7, 8], vec!["A".to_string(), "B".to_string()]));
}

#[test]
fn fallback_takes_three_strongest_free_slots() {
    let mut player = PlayerData::new("p".to_string(), "c_1_1".to_string());
    player.owned_cards = vec![0, 1, 2, 3, 4];
    player.card_monster_counts = vec![5, 9, 9, 1, 7];
    assert_eq!(fallback_defense_slots(&player, 0), vec![1, 2, 4]);
    // Slot 2 is away on an expedition until 500.
    player.marches = vec![march_using(vec![2], None, 500)];
    assert_eq!(fallback_defense_slots(&player, 100), vec![1, 4, 0]);
    assert_eq!(fallback_defense_slots(&player, 500), vec![1, 2, 4]);
    // Slots without a count have one monster.
    player.marches = vec![];
    player.card_monster_counts = vec![];
    assert_eq!(fallback_defense_slots(&player, 0), vec![0, 1, 2]);
    player.owned_cards = vec![3];
    assert_eq!(fallback_defense_slots(&player, 0), vec![0]);
}

#[test]
fn home_defender_is_strongest_available_unit() {
    let mut player = PlayerData::new("p".to_string(), "c_1_1".to_string());
    player.owned_cards = vec![0, 1, 2, 3, 4, 5];
    player.card_monster_counts = vec![10, 10, 10, 50, 1, 1];
    player.formed_units = vec![unit("a", [0, 1, 2]), unit("b", [3, -1, 4]), unit("c", [5, -1, -1])];
    assert_eq!(score_defense_unit_power(&player, &player.formed_units[0]), 30);
    assert_eq!(score_defense_unit_power(&player, &player.formed_units[1]), 51);
    assert_eq!(pick_home_defense_unit(&player, 0), Some(1));
    // Unit b is on an expedition; unit a is next.
    player.marches = vec![march_using(vec![], Some("b"), 100)];
    assert_eq!(pick_home_defense_unit(&player, 0), Some(0));
    // A unit without a leader never defends.
    player.formed_units = vec![unit("x", [0, 1, -1])];
    assert_eq!(pick_home_defense_unit(&player, 0), None);
    let r = resolve_owned_player_defenders(&player, &tile("c_1_1", 1, Some("p")), 0);
    assert_eq!(r.0, 3);
    assert_eq!(r.1, vec![50, 10, 10]);
}

#[test]
fn home_defender_tie_goes_to_last_unit() {
    let mut player = PlayerData::new("p".to_string(), "c_1_1".to_string());
    player.owned_cards = vec![0, 1];
    player.card_monster_counts = vec![4, 4];
    player.formed_units = vec![unit("a", [-1, -1, 0]), unit("b", [-1, -1, 1])];
    assert_eq!(pick_home_defense_unit(&player, 0), Some(1));
}

#[test]
fn unknown_owner_keeps_stored_garrison() {
    let mut territory = tile("c_4_4", 4, Some("gone"));
    territory.troops = 1;
    let (troops, counts, names) = resolve_territory_defenders(&territory, &Vec::new(), 0);
    assert_eq!(troops, 1);
    assert_eq!(counts, vec![1]);
    assert_eq!(names, vec!["敵ユニット1".to_string()]);
}
