use kingdom_server::auth::{
    bearer_token, claims_for, normalize_username, validate_password, verify_token_for_mode,
    AuthClaims, PASSWORD_LENGTH_MSG, USERNAME_CHARS_MSG, USERNAME_LENGTH_MSG, WRONG_MODE_MSG,
};
use kingdom_server::card_stats::{effective_card_stats, ensure_card_stat_bonuses, CardStatBonuses};
use kingdom_server::config::{
    default_port_for_mode, default_world_area, dev_bot_interval_secs, env_bool, env_u16, env_u64,
    listen_port, ServerMode,
};
use kingdom_server::facilities::{
    apply_monster_bonus, calculate_facility_bonuses_at, calculate_market_fee_at, BuiltFacility,
};
use kingdom_server::game_log::{extract_log_ts, migrate_log_timestamps, push_actor_log_at, push_log_at};
use kingdom_server::items::{add_items_to_inventory, add_to_drops, calculate_drops, get_drop_table, normalize_enemy_type, InventoryItem};
use kingdom_server::model::PlayerData;
use kingdom_server::player::{
    bootstrap_test_player, ensure_card_monster_counts, formation_owned_slots_in_slot_order,
    is_kc_unit_ready_to_deploy, is_test_player, march_busy_formed_unit_ids, march_locked_card_slots,
};
use kingdom_server::progression::process_level_up;
use kingdom_server::travel::{average_speed, manhattan_between};
use kingdom_server::territory::WorldConfig;

fn facility(id: &str, level: u8, complete: Option<u64>) -> BuiltFacility {
    BuiltFacility { facility_id: id.to_string(), level, build_complete_at: complete, position: None }
}

#[test]
fn facility_bonuses_add_up_and_skip_unfinished() {
    let fs = vec![
        facility("monster_well", 2, None),
        facility("monster_barracks", 1, Some(100)),
        facility("library", 3, None),
        facility("stronghold", 2, Some(5_000)),
        facility("trading_post", 9, None),
    ];
    let b = calculate_facility_bonuses_at(&fs, 1_000);
    assert_eq!(b.monster_bonus, 15);
    assert_eq!(b.exp_bonus, 100);
    assert_eq!(b.unit_cost_cap_bonus_milli, 600);
    assert_eq!(b.unit_capacity, 0);
    assert_eq!(b.stamina_recovery_bonus, 0);
    assert_eq!(b.market_fee_reduction, 0);
    let later = calculate_facility_bonuses_at(&fs, 5_000);
    assert_eq!(later.unit_capacity, 2);
    assert_eq!(later.stamina_recovery_bonus, 4);
}

#[test]
fn monster_bonus_and_market_fee() {
    let fs = vec![facility("monster_well", 1, None), facility("training_ground", 2, None)];
    let b = calculate_facility_bonuses_at(&fs, 0);
    assert_eq!(apply_monster_bonus(10, &b), 18);
    assert_eq!(calculate_market_fee_at(1000, &[], 0), 100);
    let traders = vec![facility("trading_post", 3, None)];
    assert_eq!(calculate_market_fee_at(1000, &traders, 0), 40);
    let many = vec![facility("trading_post", 5, None), facility("trading_post", 5, None)];
    assert_eq!(calculate_market_fee_at(1000, &many, 0), 0);
}

#[test]
fn inventory_stacks_items() {
    let mut inv = vec![InventoryItem { item_id: "gold".to_string(), count: 5 }];
    add_items_to_inventory(&mut inv, vec![
        InventoryItem { item_id: "gold".to_string(), count: 3 },
        InventoryItem { item_id: "magic_shard".to_string(), count: 2 },
        InventoryItem { item_id: "magic_shard".to_string(), count: 1 },
    ]);
    assert_eq!(inv.len(), 2);
    assert_eq!(inv[0].count, 8);
    assert_eq!(inv[1].item_id, "magic_shard");
    assert_eq!(inv[1].count, 3);
    let mut drops = Vec::new();
    add_to_drops(&mut drops, "gold", 4);
    add_to_drops(&mut drops, "gold", 6);
    assert_eq!(drops.len(), 1);
    assert_eq!(drops[0].count, 10);
}

#[test]
fn drop_tables_follow_enemy_names() {
    assert_eq!(normalize_enemy_type("ゴーレムB"), "golem");
    assert_eq!(normalize_enemy_type("炎の精霊"), "flame_spirit");
    assert_eq!(normalize_enemy_type("謎の敵C"), "謎の敵");
    let golem = get_drop_table("ゴーレムA");
    assert_eq!(golem.len(), 6);
    assert_eq!(golem[0].item_id, "gold");
    assert_eq!(golem[0].chance_percent, 100);
    let unknown = get_drop_table("謎の敵");
    assert_eq!(unknown.len(), 4);
    assert_eq!(unknown[0].min_count, 10);
}

#[test]
fn certain_drops_always_come() {
    for _ in 0..20 {
        let drops = calculate_drops(&["ゴーレム", "ゴーレム"], 0);
        let gold = drops.iter().find(|d| d.item_id == "gold").map(|d| d.count).unwrap_or(0);
        assert!((40..=80).contains(&gold));
        let stone = drops.iter().find(|d| d.item_id == "ancient_stone").map(|d| d.count).unwrap_or(0);
        assert!((4..=8).contains(&stone));
        let mut ids: Vec<&str> = drops.iter().map(|d| d.item_id.as_str()).collect();
        ids.sort();
        ids.dedup();
        assert_eq!(ids.len(), drops.len());
    }
}

#[test]
fn stat_points_and_effective_stats() {
    let mut b = CardStatBonuses { speed: 1, attack: 2, intelligence: 3, defense: 4, magic_defense: 5 };
    assert_eq!(b.total(), 15);
    b.add_assignments(&CardStatBonuses { speed: u32::MAX, attack: 1, intelligence: 0, defense: 0, magic_defense: 0 });
    assert_eq!(b.speed, u32::MAX);
    assert_eq!(b.attack, 3);
    let none = CardStatBonuses::default();
    let fb = calculate_facility_bonuses_at(&[], 0);
    let plain = effective_card_stats(9999, &none, &fb, false);
    assert_eq!(plain.attack, 5);
    let starred = effective_card_stats(9999, &none, &fb, true);
    assert_eq!(starred.attack, 6);
    assert_eq!(starred.monster_count, 11);
    let mut p = PlayerData::new("p".to_string(), "c_0_0".to_string());
    ensure_card_stat_bonuses(&mut p);
    assert_eq!(p.card_stat_bonuses.len(), 10);
}

#[test]
fn settings_are_read_with_defaults() {
    assert_eq!(default_world_area(), 2304);
    assert_eq!(default_port_for_mode(ServerMode::Pve), 3001);
    assert_eq!(listen_port(None, ServerMode::Pvp), 3000);
    assert_eq!(listen_port(Some("8080"), ServerMode::Pvp), 8080);
    assert_eq!(listen_port(Some("70000"), ServerMode::Pvp), 3000);
    assert!(env_bool(Some("TRUE"), false));
    assert!(env_bool(Some("Yes"), false));
    assert!(!env_bool(Some("on"), true));
    assert!(env_bool(None, true));
    assert_eq!(env_u64(Some("+42"), 1), 42);
    assert_eq!(env_u64(Some("18446744073709551615"), 1), u64::MAX);
    assert_eq!(env_u64(Some("18446744073709551616"), 1), 1);
    assert_eq!(env_u16(Some("x"), 7), 7);
    assert_eq!(dev_bot_interval_secs(Some("3")), 10);
    assert_eq!(dev_bot_interval_secs(None), 45);
    let w = WorldConfig::from_env(Some("20"), None, None, Some("3"));
    assert_eq!((w.cols, w.rows, w.home_col, w.home_row, w.terrain_seed), (20, 48, 10, 3, 0));
}

#[test]
fn account_rules() {
    assert_eq!(normalize_username("  Alice_01 ").unwrap(), "alice_01");
    assert_eq!(normalize_username("ab").unwrap_err(), USERNAME_LENGTH_MSG);
    assert_eq!(normalize_username("bad name").unwrap_err(), USERNAME_CHARS_MSG);
    assert_eq!(normalize_username("ユーザー").unwrap_err(), USERNAME_CHARS_MSG);
    assert_eq!(validate_password("short").unwrap_err(), PASSWORD_LENGTH_MSG);
    assert!(validate_password("longenough").is_ok());
    assert_eq!(bearer_token("Bearer abc").as_deref(), Some("abc"));
    assert_eq!(bearer_token("Bearer   "), None);
    assert_eq!(bearer_token("Basic abc"), None);
    let c = claims_for("u1", "user1", ServerMode::Pve, 1_000);
    assert_eq!(c.mode, "pve");
    assert_eq!(c.exp, 1_000 + 604_800);
    let ok = verify_token_for_mode(Ok(c), ServerMode::Pve).unwrap();
    assert_eq!(ok.sub, "u1");
    let c2 = claims_for("u1", "user1", ServerMode::Pve, 1_000);
    assert_eq!(verify_token_for_mode(Ok(c2), ServerMode::Pvp).unwrap_err(), WRONG_MODE_MSG);
    let bad: Result<AuthClaims, String> = Err("invalid".to_string());
    assert_eq!(verify_token_for_mode(bad, ServerMode::Pvp).unwrap_err(), "invalid");
}

#[test]
fn log_lines_are_stamped_and_bounded() {
    let mut log: Vec<String> = Vec::new();
    push_log_at(&mut log, "hello", 42);
    push_actor_log_at(&mut log, "p1", "moved", 43);
    assert_eq!(log, vec!["[ts:42]hello".to_string(), "[ts:43][p:p1]moved".to_string()]);
    assert_eq!(extract_log_ts("[ts:42]hello"), Some(42));
    assert_eq!(extract_log_ts("[ts:x]hello"), None);
    assert_eq!(extract_log_ts("hello"), None);
    for i in 0..2100u64 {
        push_log_at(&mut log, "x", i);
    }
    assert_eq!(log.len(), 2000);
    assert_eq!(log[0], "[ts:100]x");
    let mut old = vec!["a".to_string(), "[ts:5]b".to_string(), "c".to_string()];
    assert_eq!(migrate_log_timestamps(&mut old, 9), 2);
    assert_eq!(old, vec!["[ts:9]a".to_string(), "[ts:5]b".to_string(), "[ts:5]c".to_string()]);
}

#[test]
fn travel_times_match_the_client_formula() {
    assert_eq!(manhattan_between("c_1_1", "c_4_5"), 7);
    assert_eq!(manhattan_between("x", "c_4_5"), 0);
    assert_eq!(manhattan_between("c_-3_2", "c_4_-5"), 14);
    assert_eq!(average_speed(Some(&[4, 6, 8]), 3), 6);
    assert_eq!(average_speed(Some(&[4, 6]), 3), 5);
    assert_eq!(average_speed(None, 0), 5);
    assert_eq!(average_speed(Some(&[0]), 0), 1);
}

#[test]
fn level_ups_spend_experience() {
    let needs: Vec<u64> = (0..=120u64).map(|l| 100 * (l + 1)).collect();
    let mut level = 0u32;
    let mut exp = 450u64;
    let mut points = 0u32;
    let mut log = Vec::new();
    assert!(process_level_up(&mut level, &mut exp, &mut points, false, "オーディン", &mut log, &needs, 7));
    assert_eq!(level, 2);
    assert_eq!(exp, 250);
    assert_eq!(points, 10);
    assert_eq!(log.len(), 1);
    assert_eq!(log[0], "[ts:7]「オーディン」がLv2にアップ！ステータスポイント+10");
    let mut level = 99u32;
    let mut exp = u64::MAX;
    assert!(!process_level_up(&mut level, &mut exp, &mut points, false, "x", &mut log, &needs, 7));
    assert_eq!(level, 99);
}

#[test]
fn formation_and_expedition_slots() {
    assert!(is_kc_unit_ready_to_deploy(&[-1, -1, 3]));
    assert!(!is_kc_unit_ready_to_deploy(&[1, 2, -1]));
    assert_eq!(formation_owned_slots_in_slot_order(&[2, -1, 5]), vec![2, 5]);
    let mut p = PlayerData::new("p".to_string(), "c_0_0".to_string());
    let mut m = kingdom_server::model::MarchMission {
        march_id: "m".to_string(),
        kind: kingdom_server::model::MarchKind::Attack,
        from_territory_id: "c_0_0".to_string(),
        to_territory_id: "c_1_0".to_string(),
        started_at: 0,
        arrives_at: 100,
        count: 2,
        monsters_per_body: None,
        body_names: None,
        unit_name: None,
        speed_per_body: None,
        skills_per_body: None,
        stats_per_body: None,
        owned_card_indices: Some(vec![1, 3]),
        formed_unit_id: Some("u1".to_string()),
    };
    p.marches.push(m);
    m = kingdom_server::model::MarchMission {
        march_id: "m2".to_string(),
        kind: kingdom_server::model::MarchKind::Explore,
        from_territory_id: "c_0_0".to_string(),
        to_territory_id: "c_1_0".to_string(),
        started_at: 0,
        arrives_at: 10,
        count: 1,
        monsters_per_body: None,
        body_names: None,
        unit_name: None,
        speed_per_body: None,
        skills_per_body: None,
        stats_per_body: None,
        owned_card_indices: Some(vec![7]),
        formed_unit_id: Some("u1".to_string()),
    };
    p.marches.push(m);
    let locked = march_locked_card_slots(&p, 50);
    assert_eq!(locked.len(), 2);
    assert!(locked.contains(&1) && locked.contains(&3));
    assert_eq!(march_busy_formed_unit_ids(&p, 50), vec!["u1".to_string()]);
    assert!(march_busy_formed_unit_ids(&p, 100).is_empty());
}

#[test]
fn test_accounts_and_monster_counts() {
    assert!(is_test_player("offline_test"));
    assert!(!is_test_player("alice"));
    let mut p = PlayerData::new("player".to_string(), "c_0_0".to_string());
    bootstrap_test_player(&mut p, 100);
    assert_eq!(p.card_monster_counts, vec![9999; 10]);
    assert_eq!(p.card_levels, vec![1; 10]);
    p.card_monster_counts = vec![0, 20000];
    ensure_card_monster_counts(&mut p);
    assert_eq!(p.card_monster_counts.len(), 10);
    assert_eq!(p.card_monster_counts[0], 1);
    assert_eq!(p.card_monster_counts[1], 9999);
}

#[test]
fn normalized_user_names_stay_normalized() {
    let once = normalize_username("  Bob-Smith_9\t").unwrap();
    assert_eq!(once, "bob-smith_9");
    assert_eq!(normalize_username(&once).unwrap(), once);
}

#[test]
fn drop_tables_are_well_formed() {
    let names = [
        "golem", "phantom", "skeleton_knight", "treasure_mimic", "dark_wizard", "slime_king", "cursed_armor",
        "shadow_assassin", "flame_spirit", "ice_elemental", "poison_spider", "stone_gargoyle", "demon_imp",
        "death_knight", "necromancer", "crystal_golem", "thunder_hawk", "earth_wyrm", "void_stalker",
        "ancient_mummy", "ruin_guardian", "dragon_zombie", "lich_lord", "titan_colossus", "スライム", "ゴブリン",
        "オーク", "骸骨戦士", "オーガ", "ワイバーン", "謎の敵",
    ];
    for name in names {
        let table = get_drop_table(name);
        assert!(!table.is_empty(), "{name}");
        for (i, a) in table.iter().enumerate() {
            assert!(a.chance_percent >= 1 && a.chance_percent <= 100, "{name}");
            assert!(1 <= a.min_count && a.min_count <= a.max_count, "{name}");
            for b in &table[i + 1..] {
                assert_ne!(a.item_id, b.item_id, "{name}");
            }
        }
    }
}

#[test]
fn drop_tables_ignore_suffixes_and_aliases() {
    let same = |x: &str, y: &str| {
        let a = get_drop_table(x);
        let b = get_drop_table(y);
        assert_eq!(a.len(), b.len(), "{x} / {y}");
        for (p, q) in a.iter().zip(b.iter()) {
            assert_eq!(p.item_id, q.item_id);
            assert_eq!((p.min_count, p.max_count, p.chance_percent), (q.min_count, q.max_count, q.chance_percent));
        }
    };
    same("ゴブリンA", "ゴブリン");
    same("オーガBC", "オーガ");
    same("ゴーレム", "golem");
    same("スライムキング", "slime_king");
    same("呪われた鎧", "cursed_armor");
    same("炎の精霊A", "flame_spirit");
    assert_eq!(normalize_enemy_type(normalize_enemy_type("毒蜘蛛C")), normalize_enemy_type("毒蜘蛛C"));
}

#[test]
fn level_ups_spend_exactly_what_they_need() {
    let needs: Vec<u64> = (0..=120u64).map(|l| 100 * (l + 1)).collect();
    let mut level = 3u32;
    let mut exp = 1_000u64;
    let mut points = 0u32;
    let mut log = Vec::new();
    assert!(process_level_up(&mut level, &mut exp, &mut points, false, "x", &mut log, &needs, 1));
    // 400 + 500 are spent for levels 3 -> 4 -> 5; the 100 left do not pay the 600 of level 5.
    assert_eq!(level, 5);
    assert_eq!(exp, 100);
    assert_eq!(exp + needs[3] + needs[4], 1_000);
    assert_eq!(points, 20);
}

#[test]
fn adding_items_keeps_the_order_of_stacks() {
    let mut inv = vec![
        InventoryItem { item_id: "b".to_string(), count: 1 },
        InventoryItem { item_id: "a".to_string(), count: 2 },
    ];
    add_items_to_inventory(&mut inv, vec![
        InventoryItem { item_id: "c".to_string(), count: 4 },
        InventoryItem { item_id: "a".to_string(), count: 3 },
        InventoryItem { item_id: "b".to_string(), count: 5 },
    ]);
    let ids: Vec<&str> = inv.iter().map(|i| i.item_id.as_str()).collect();
    assert_eq!(ids, vec!["b", "a", "c"]);
    let counts: Vec<u32> = inv.iter().map(|i| i.count).collect();
    assert_eq!(counts, vec![6, 5, 4]);
}

#[test]
fn facility_bonuses_of_two_lists_add_up() {
    let a = || vec![facility("monster_well", 2, None), facility("library", 3, None)];
    let b = || vec![facility("monster_barracks", 1, Some(100)), facility("stronghold", 2, Some(5_000))];
    let mut both = a();
    both.extend(b());
    let ba = calculate_facility_bonuses_at(&a(), 1_000);
    let bb = calculate_facility_bonuses_at(&b(), 1_000);
    let bab = calculate_facility_bonuses_at(&both, 1_000);
    assert_eq!(bab.monster_bonus, ba.monster_bonus + bb.monster_bonus);
    assert_eq!(bab.monster_bonus, 15);
    assert_eq!(bab.exp_bonus, ba.exp_bonus + bb.exp_bonus);
    assert_eq!(bab.unit_capacity, ba.unit_capacity + bb.unit_capacity);
    // The stronghold, still being built at 1000, adds nothing.
    let built = vec![
        facility("monster_well", 2, None),
        facility("library", 3, None),
        facility("monster_barracks", 1, Some(100)),
    ];
    assert_eq!(calculate_facility_bonuses_at(&built, 1_000), bab);
    assert_eq!(
        calculate_facility_bonuses_at(&[], 1_000),
        calculate_facility_bonuses_at(&[facility("stronghold", 2, Some(5_000))], 1_000)
    );
}

#[test]
fn every_drop_is_within_its_line() {
    let table = get_drop_table("ゴーレム");
    for _ in 0..50 {
        let drops = calculate_drops(&["ゴーレム"], 0);
        for d in &drops {
            let line = table.iter().find(|l| l.item_id == d.item_id).expect("on the table");
            assert!(line.min_count <= d.count && d.count <= line.max_count, "{} {}", d.item_id, d.count);
        }
    }
}
