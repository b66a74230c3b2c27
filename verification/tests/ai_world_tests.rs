use kingdom_server::combat::{rank_attack_targets, score_attack_target};
use kingdom_server::explore::{
    active_explore_march_count, pick_exploration_cards, pick_exploration_territory, plan_exploration,
    select_explore_from_territory,
};
use kingdom_server::model::{AiPersonality, Alliance, Dup, MarchKind, MarchMission, PlayerData};
use kingdom_server::neutral::migrate_neutral_enemy_storage;
use kingdom_server::state::attack_base_owner_ids;
use kingdom_server::territory::Territory;
use kingdom_server::text::str_lt;
use kingdom_server::model::{AiFaction, GameState};
use kingdom_server::kingdom::{home_alive, settle_faction};

fn alliance(id: &str, members: &[&str]) -> Alliance {
    Alliance {
        id: id.to_string(),
        name: "x".to_string(),
        leader_id: members[0].to_string(),
        member_ids: members.iter().map(|m| m.to_string()).collect(),
        territory_points: 0,
        level: 1,
        donated_total: 0,
        parent_alliance_id: None,
        child_alliance_ids: vec![],
    }
}

fn tile(id: &str, level: u8, owner: Option<&str>, troops: u32) -> Territory {
    Territory {
        id: id.to_string(),
        name: "平原".to_string(),
        level,
        owner_id: owner.map(|o| o.to_string()),
        troops,
        body_monster_counts: None,
        body_names: None,
        ruin: None,
        is_base: false,
        durability: 0,
        max_durability: 0,
        tower_level: 0,
    }
}

fn faction() -> PlayerData {
    PlayerData::new("ai_faction_0".to_string(), "c_5_5".to_string())
}

fn explore_march(to: &str, slot: usize, arrives_at: u64) -> MarchMission {
    MarchMission {
        march_id: "x".to_string(),
        kind: MarchKind::Explore,
        from_territory_id: "c_5_5".to_string(),
        to_territory_id: to.to_string(),
        started_at: 0,
        arrives_at,
        count: 1,
        monsters_per_body: None,
        body_names: None,
        unit_name: None,
        speed_per_body: None,
        skills_per_body: None,
        stats_per_body: None,
        owned_card_indices: Some(vec![slot]),
        formed_unit_id: None,
    }
}

fn check_rank_avoids_last_target() {
    let ai_id = "ai_faction_0";
    let ts = vec![
        tile("c_5_5", 1, Some(ai_id), 3),
        tile("c_6_5", 1, None, 0),
        tile("c_4_5", 1, None, 0),
    ];
    let mut p = faction();
    p.ai_last_attack_target = Some("c_6_5".to_string());
    let players = vec![p];
    let ranked = rank_attack_targets(&ts, &players, ai_id, AiPersonality::Balanced, "tester", 1_000);
    assert!(!ranked.is_empty());
    assert_eq!(ranked.len(), 2);
    assert_ne!(ranked[0], "c_6_5");
}

#[test]
fn ai_actions_rank_attack_targets_deprioritizes_last_target() {
    check_rank_avoids_last_target();
}

#[test]
fn mod_rank_attack_targets_deprioritizes_last_target() {
    check_rank_avoids_last_target();
}

fn check_explorable_territory() {
    let ai_id = "ai_faction_0";
    let mut home = tile("c_5_5", 1, Some(ai_id), 3);
    home.is_base = true;
    let ts = vec![home, tile("c_6_5", 2, Some(ai_id), 0), tile("c_7_5", 1, None, 0)];
    let players = vec![faction()];
    let target = pick_exploration_territory(&ts, &players, ai_id);
    assert_eq!(target.as_deref(), Some("c_6_5"));
    assert_eq!(select_explore_from_territory(&ts, &players, ai_id, "c_6_5").as_deref(), Some("c_5_5"));
}

#[test]
fn ai_actions_ai_picks_explorable_territory_without_troops() {
    check_explorable_territory();
}

#[test]
fn mod_ai_picks_explorable_territory_without_troops() {
    check_explorable_territory();
}

#[test]
fn attack_scores_follow_level_owner_and_avoidance() {
    let ts = vec![
        tile("c_5_5", 1, Some("ai_faction_0"), 3),
        tile("c_6_5", 3, Some("tester"), 0),
    ];
    let players: Vec<PlayerData> = vec![];
    // Level 3, the owner's tile (+20 when balanced), stored garrison of one body of 1 monster
    // (strength 4, a third is 1), plus chance below 18.
    for _ in 0..20 {
        let s = score_attack_target(&ts, &players, "c_6_5", AiPersonality::Balanced, "tester", None, 0);
        assert!((49..49 + 18).contains(&s));
        let s = score_attack_target(&ts, &players, "c_6_5", AiPersonality::Aggressive, "tester", Some("c_6_5"), 0);
        assert!((59 - 200..59 - 200 + 18).contains(&s));
    }
    assert_eq!(score_attack_target(&ts, &players, "c_9_9", AiPersonality::Defensive, "tester", None, 0), i32::MIN);
}

#[test]
fn ranking_prefers_higher_levels_and_skips_avoided_targets() {
    let ai_id = "ai_faction_0";
    let ts = vec![
        tile("c_5_5", 1, Some(ai_id), 3),
        tile("c_6_5", 9, None, 0),
        tile("c_4_5", 1, None, 0),
        tile("c_5_6", 1, Some("someone_else"), 0),
        tile("c_9_9", 5, None, 0),
    ];
    let mut p = faction();
    let players = vec![p.dup()];
    let ranked = rank_attack_targets(&ts, &players, ai_id, AiPersonality::Balanced, "tester", 0);
    // Human tiles of others and tiles not bordering the faction are left out.
    assert_eq!(ranked.len(), 2);
    p.ai_attack_cooldowns = vec![("c_4_5".to_string(), 10)];
    let players = vec![p.dup()];
    assert_eq!(rank_attack_targets(&ts, &players, ai_id, AiPersonality::Balanced, "tester", 0), vec!["c_6_5".to_string()]);
    // When every target is avoided, all of them are ranked.
    p.ai_attack_cooldowns.push(("c_6_5".to_string(), 10));
    let players = vec![p.dup()];
    assert_eq!(rank_attack_targets(&ts, &players, ai_id, AiPersonality::Balanced, "tester", 0).len(), 2);
    assert!(rank_attack_targets(&ts, &players, "nobody", AiPersonality::Balanced, "tester", 0).is_empty());
}

#[test]
fn exploration_counts_and_slots() {
    let mut p = faction();
    p.card_stamina = vec![3, 40, 40];
    p.card_rest_until = vec![0, 0, 900];
    p.marches = vec![explore_march("c_6_5", 1, 500)];
    let players = vec![p.dup()];
    assert_eq!(active_explore_march_count(&players, "ai_faction_0"), 1);
    assert_eq!(active_explore_march_count(&players, "nobody"), 0);
    // Slot 0 lacks stamina, slot 1 is away, slot 2 rests until 900.
    assert_eq!(pick_exploration_cards(&players, "ai_faction_0", 100, 5), None);
    assert_eq!(pick_exploration_cards(&players, "ai_faction_0", 500, 5), Some(vec![1]));
    assert_eq!(pick_exploration_cards(&players, "ai_faction_0", 1_000, 50), None);
    assert_eq!(pick_exploration_cards(&players, "ai_faction_0", 1_000, 3), Some(vec![0]));
}

#[test]
fn exploration_prefers_low_levels_when_short() {
    let ai_id = "ai_faction_0";
    let ts = vec![
        tile("c_5_5", 1, Some(ai_id), 3),
        tile("c_6_5", 4, Some(ai_id), 0),
        tile("c_4_5", 2, Some(ai_id), 0),
        tile("c_9_9", 1, Some(ai_id), 0),
    ];
    let mut p = faction();
    // The starting resources are short: the lowest reachable tile wins.
    let players = vec![p.dup()];
    assert_eq!(pick_exploration_territory(&ts, &players, ai_id).as_deref(), Some("c_4_5"));
    p.resources.food = 5000;
    p.resources.wood = 5000;
    p.resources.stone = 5000;
    p.resources.iron = 5000;
    let players = vec![p.dup()];
    assert_eq!(pick_exploration_territory(&ts, &players, ai_id).as_deref(), Some("c_6_5"));
    // A tile already being explored is skipped.
    p.marches = vec![explore_march("c_6_5", 0, 100)];
    let players = vec![p.dup()];
    assert_eq!(pick_exploration_territory(&ts, &players, ai_id).as_deref(), Some("c_4_5"));
    assert_eq!(pick_exploration_territory(&ts, &players, "nobody"), None);
    // From a tile other than the home: the bordering one with the most troops.
    let ts2 = vec![tile("c_0_0", 1, Some(ai_id), 1), tile("c_1_1", 1, Some(ai_id), 2), tile("c_0_1", 1, Some(ai_id), 5)];
    assert_eq!(select_explore_from_territory(&ts2, &players, ai_id, "c_1_0").as_deref(), Some("c_1_1"));
    assert_eq!(select_explore_from_territory(&ts2, &players, ai_id, "c_3_3"), None);
}

#[test]
fn neutral_storage_migration() {
    let mut state = GameState::new_world(Some(7), 0);
    let n = state.territories.len();
    for t in state.territories.iter_mut() {
        t.owner_id = None;
        t.is_base = false;
        t.ruin = None;
        t.troops = 0;
        t.body_monster_counts = None;
        t.body_names = None;
    }
    assert!(!migrate_neutral_enemy_storage(&mut state));
    state.territories[0].troops = 4;
    state.territories[1].body_names = Some(vec!["トロールA".to_string(), "トロールB".to_string()]);
    state.territories[2].body_names = Some(vec!["バット".to_string()]);
    state.territories[2].troops = 1;
    assert!(migrate_neutral_enemy_storage(&mut state));
    assert_eq!(state.territories.len(), n);
    assert_eq!(state.territories[0].troops, 0);
    assert!(state.territories[0].body_monster_counts.is_none());
    let names = state.territories[1].body_names.clone().expect("regenerated");
    assert!(!names.contains(&"トロールA".to_string()));
    assert_eq!(state.territories[1].troops as usize, names.len());
    assert_eq!(state.territories[2].body_names, Some(vec!["バット".to_string()]));
    assert!(!migrate_neutral_enemy_storage(&mut state));
}

#[test]
fn attack_front_owners() {
    let mut state = GameState::new_world(Some(7), 0);
    let mut p = PlayerData::new("alice".to_string(), "c_1_1".to_string());
    p.allied_player_ids = vec!["bob".to_string(), "alice".to_string(), "bob".to_string()];
    state.players = vec![p];
    state.alliances = vec![alliance("a1", &["carol", "alice", "dave"]), alliance("a2", &["erin"])];
    assert_eq!(
        attack_base_owner_ids(&state, "alice"),
        vec!["alice".to_string(), "bob".to_string(), "carol".to_string(), "dave".to_string()]
    );
    assert_eq!(attack_base_owner_ids(&state, "erin"), vec!["erin".to_string()]);
}

#[test]
fn string_order() {
    assert!(str_lt("c_1", "c_2"));
    assert!(str_lt("c_1", "c_10"));
    assert!(!str_lt("c_10", "c_1"));
    assert!(!str_lt("abc", "abc"));
    assert!(str_lt("", "a"));
    assert!(str_lt("Z", "a"));
    assert!(str_lt("あ", "い"));
}

#[test]
fn exploration_plan_names_the_bodies() {
    let ai_id = "ai_faction_0";
    let mut home = tile("c_5_5", 1, Some(ai_id), 3);
    home.is_base = true;
    let ts = vec![home, tile("c_6_5", 2, Some(ai_id), 0), tile("c_7_5", 1, None, 0)];
    let mut p = faction();
    p.owned_cards = vec![0, 1];
    p.card_stamina = vec![40, 40];
    p.card_monster_counts = vec![7, 9];
    p.card_rest_until = vec![];
    p.marches = vec![];
    let players = vec![p.dup()];
    let plan = plan_exploration(&ts, &players, ai_id, 0, 5, 1).expect("plan");
    assert_eq!(plan.target_id, "c_6_5");
    assert_eq!(plan.from_territory_id, "c_5_5");
    assert_eq!(plan.card_indices, vec![0]);
    assert_eq!(plan.monsters_per_body, vec![7]);
    assert_eq!(plan.body_names, vec!["ダイアウルフ".to_string()]);
    assert_eq!(plan.speed_per_body, vec![6]);
    // No room for another exploration, or nobody to send.
    p.marches = vec![explore_march("c_9_9", 1, 500)];
    let busy = vec![p.dup()];
    assert!(plan_exploration(&ts, &busy, ai_id, 0, 5, 1).is_none());
    assert!(plan_exploration(&ts, &players, ai_id, 0, 50, 2).is_none());
    assert!(plan_exploration(&ts, &players, "nobody", 0, 5, 2).is_none());
}

#[test]
fn a_faction_whose_home_fell_leaves_the_world() {
    let mut state = GameState::default();
    let faction = |id: &str, home: &str| AiFaction {
        faction_id: id.to_string(),
        name: format!("{id}王国"),
        personality: AiPersonality::Balanced,
        home_territory_id: home.to_string(),
        color: 0,
    };
    state.ai_factions = vec![faction("0", "c_0_0"), faction("1", "c_2_0")];
    state.territories = vec![tile("c_0_0", 1, Some("ai_0"), 3), tile("c_2_0", 1, Some("player"), 3)];
    state.players = vec![
        PlayerData::new("ai_0".to_string(), "c_0_0".to_string()),
        PlayerData::new("ai_1".to_string(), "c_2_0".to_string()),
        PlayerData::new("player".to_string(), "c_1_0".to_string()),
    ];
    assert!(home_alive(&state.territories, &state.players, "ai_0"));
    assert!(!home_alive(&state.territories, &state.players, "ai_1"));
    assert!(!home_alive(&state.territories, &state.players, "ai_9"));

    // The faction holding its home plays; nothing changes.
    assert!(settle_faction(&mut state, "ai_0", 1, 10));
    assert_eq!(state.players.len(), 3);
    assert_eq!(state.ai_factions.len(), 2);
    assert!(state.log.is_empty());

    // An unknown faction is skipped; nothing changes.
    assert!(!settle_faction(&mut state, "ai_9", 2, 10));
    assert_eq!(state.players.len(), 3);
    assert!(state.log.is_empty());

    // The faction whose home was taken falls.
    assert!(!settle_faction(&mut state, "ai_1", 3, 10));
    let ids: Vec<&str> = state.players.iter().map(|p| p.player_id.as_str()).collect();
    assert_eq!(ids, vec!["ai_0", "player"]);
    assert_eq!(state.ai_factions.len(), 1);
    assert_eq!(state.ai_factions[0].faction_id, "0");
    assert_eq!(state.log.len(), 1);
    assert_eq!(state.log[0].message, "【AI勢力】ai_1 が滅亡しました。");
    assert_eq!(state.log[0].event_type, "system");
    assert_eq!(state.log[0].id, 3);
}
