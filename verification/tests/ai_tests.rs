use kingdom_server::ai::{ai_market_purchase_choice, ai_stat_allocations, production_step, ProductionStep};
use kingdom_server::model::{MarketItemType, MarketListing};
use kingdom_server::ai::{
    balanced_stat_delta, counter_bonus, facility_build_succeeded, faction_display_name,
    is_ai_recovering, next_facility_to_build, personality_label, prune_ai_attack_cooldowns,
    record_ai_attack_outcome, score_formation, slots_to_formed_indices, str_contains,
    target_on_cooldown, AiTurnReport,
};
use kingdom_server::facilities::BuiltFacility;
use kingdom_server::model::{AiFaction, AiPersonality, PlayerData};
use kingdom_server::neutral::{conquest_resource_bonus, generate_neutral_enemies_for_territory};

fn ai_player() -> PlayerData {
    PlayerData::new("ai_faction_0".to_string(), "c_5_5".to_string())
}

fn check_facility_priority() {
    let player = ai_player();
    assert_eq!(next_facility_to_build(&player).as_deref(), Some("field"));
}

#[test]
fn ai_actions_ai_facility_priority_starts_with_field() {
    check_facility_priority();
}

#[test]
fn mod_ai_facility_priority_starts_with_field() {
    check_facility_priority();
}

fn check_balanced_split() {
    let d = balanced_stat_delta(10);
    assert_eq!(d.speed, 2);
    assert_eq!(d.attack, 2);
    assert_eq!(d.intelligence, 2);
    assert_eq!(d.defense, 2);
    assert_eq!(d.magic_defense, 2);
    assert_eq!(d.total(), 10);

    let d7 = balanced_stat_delta(7);
    assert_eq!(d7.total(), 7);
    assert_eq!(d7.speed, 2);
    assert_eq!(d7.attack, 2);
    assert_eq!(d7.intelligence, 1);
    assert_eq!(d7.defense, 1);
    assert_eq!(d7.magic_defense, 1);
}

#[test]
fn ai_actions_balanced_stat_delta_splits_evenly() {
    check_balanced_split();
}

#[test]
fn mod_balanced_stat_delta_splits_evenly() {
    check_balanced_split();
}

fn check_attack_failure() {
    let mut player = PlayerData::new("ai_faction_0".to_string(), "c_0_0".to_string());
    let now = 1_000_000u64;
    record_ai_attack_outcome(&mut player, "c_1_0", false, now);
    assert!(is_ai_recovering(&player, now + 1));
    assert!(player.ai_attack_cooldowns.iter().any(|(id, until)| id == "c_1_0" && *until > now));
    assert_eq!(player.ai_last_attack_target.as_deref(), Some("c_1_0"));
}

#[test]
fn ai_actions_ai_attack_failure_enters_recovery_and_cooldown() {
    check_attack_failure();
}

#[test]
fn mod_ai_attack_failure_enters_recovery_and_cooldown() {
    check_attack_failure();
}

fn check_lv1_count() {
    let (_, counts, _) = generate_neutral_enemies_for_territory(1, "c_1_1");
    assert_eq!(counts, vec![18]);
}

#[test]
fn ai_actions_lv1_neutral_enemy_count_is_modest() {
    check_lv1_count();
}

#[test]
fn mod_lv1_neutral_enemy_count_is_modest() {
    check_lv1_count();
}

fn check_conquest_bonus() {
    for _ in 0..30 {
        let (f, w, s, i) = conquest_resource_bonus(1);
        assert!((15..=80).contains(&f));
        assert!((15..=80).contains(&w));
        assert!((15..=80).contains(&s));
        assert!((15..=80).contains(&i));
    }
    let (f3, _, _, _) = conquest_resource_bonus(3);
    assert!((35..=180).contains(&f3));
}

#[test]
fn ai_actions_conquest_bonus_within_level_range() {
    check_conquest_bonus();
}

#[test]
fn mod_conquest_bonus_within_level_range() {
    check_conquest_bonus();
}

#[test]
fn balanced_split_spends_everything() {
    for unspent in [0u32, 1, 4, 5, 6, 9, 13, 99, 1001] {
        let d = balanced_stat_delta(unspent);
        assert_eq!(d.total(), unspent);
        assert!(d.speed - d.magic_defense <= 1);
    }
}

#[test]
fn facility_priority_skips_built_ones() {
    let mut player = ai_player();
    for id in ["field", "lumber_mill", "quarry"] {
        player.facilities.push(BuiltFacility { facility_id: id.to_string(), level: 1, build_complete_at: None, position: None });
    }
    assert_eq!(next_facility_to_build(&player).as_deref(), Some("ironworks"));
    for id in ["ironworks", "warehouse", "stronghold"] {
        player.facilities.push(BuiltFacility { facility_id: id.to_string(), level: 1, build_complete_at: None, position: None });
    }
    assert_eq!(next_facility_to_build(&player), None);
}

#[test]
fn build_success_detects_new_and_upgraded_facilities() {
    let mut player = ai_player();
    let before: Vec<BuiltFacility> = vec![];
    assert!(!facility_build_succeeded(Some(&before), Some(&player)));
    player.facilities.push(BuiltFacility { facility_id: "field".to_string(), level: 1, build_complete_at: None, position: None });
    assert!(facility_build_succeeded(Some(&before), Some(&player)));
    let same = vec![BuiltFacility { facility_id: "field".to_string(), level: 1, build_complete_at: None, position: None }];
    assert!(!facility_build_succeeded(Some(&same), Some(&player)));
    player.facilities[0].level = 2;
    assert!(facility_build_succeeded(Some(&same), Some(&player)));
    assert!(!facility_build_succeeded(None, Some(&player)));
    assert!(!facility_build_succeeded(Some(&same), None));
}

#[test]
fn conquest_lifts_cooldown_and_expired_ones_are_pruned() {
    let mut player = ai_player();
    let now = 1_000_000u64;
    record_ai_attack_outcome(&mut player, "c_1_0", false, now);
    record_ai_attack_outcome(&mut player, "c_2_0", false, now);
    assert!(target_on_cooldown(&player, "c_1_0", now));
    record_ai_attack_outcome(&mut player, "c_1_0", true, now + 10);
    assert!(!target_on_cooldown(&player, "c_1_0", now + 10));
    assert!(target_on_cooldown(&player, "c_2_0", now + 10));
    prune_ai_attack_cooldowns(&mut player, now + 300_000);
    assert!(player.ai_attack_cooldowns.is_empty());
    assert!(!is_ai_recovering(&player, now + 180_000));
}

#[test]
fn humans_keep_no_ai_state() {
    let mut player = PlayerData::new("alice".to_string(), "c_0_0".to_string());
    record_ai_attack_outcome(&mut player, "c_1_0", false, 1000);
    assert!(player.ai_attack_cooldowns.is_empty());
    assert_eq!(player.ai_recover_until, 0);
    assert_eq!(player.ai_last_attack_target, None);
}

#[test]
fn turn_summary_lists_what_happened() {
    let mut report = AiTurnReport::default();
    assert_eq!(report.summarize(), "待機");
    report.facility_built = Some("field".to_string());
    report.monsters_produced = 12;
    report.attack = Some(("c_1_1".to_string(), "c_2_1".to_string()));
    report.market_purchase = true;
    assert_eq!(report.summarize(), "施設=field 魔獣生産+12 攻撃 c_1_1→c_2_1 市場購入");
}

#[test]
fn labels_and_display_names() {
    assert_eq!(personality_label(AiPersonality::Aggressive), "aggressive");
    assert_eq!(personality_label(AiPersonality::Defensive), "defensive");
    let factions = vec![AiFaction {
        faction_id: "north".to_string(),
        name: "北の王国".to_string(),
        personality: AiPersonality::Balanced,
        home_territory_id: "c_1_1".to_string(),
        color: 0xff0000,
    }];
    assert_eq!(faction_display_name(&factions, "ai_north"), "北の王国");
    assert_eq!(faction_display_name(&factions, "ai_south"), "ai_south");
}

#[test]
fn formation_slots_fill_leader_first() {
    assert_eq!(slots_to_formed_indices(&[4]), [-1, -1, 4]);
    assert_eq!(slots_to_formed_indices(&[4, 7]), [4, -1, 7]);
    assert_eq!(slots_to_formed_indices(&[1, 2, 3]), [1, 2, 3]);
    assert_eq!(slots_to_formed_indices(&[]), [-1, -1, -1]);
}

#[test]
fn counters_and_scores() {
    assert!(str_contains("スケルトン兵", "スケルトン"));
    assert!(!str_contains("ゴーレム", "スケルトン"));
    assert!(counter_bonus(12, "ゴブリンA"));
    assert!(!counter_bonus(11, "ゴブリンA"));
    let mut player = ai_player();
    player.card_monster_counts = vec![100; 10];
    let alone = score_formation(&[0], &player, &[], &[]);
    let twice = score_formation(&[0, 0], &player, &[], &[]);
    assert_eq!(twice, 2 * alone - 50);
}

#[test]
fn production_steps() {
    assert!(matches!(production_step(1000, 150, Some(10)), ProductionStep::Produce(25)));
    assert!(matches!(production_step(160, 150, Some(10)), ProductionStep::Produce(5)));
    assert!(matches!(production_step(151, 150, Some(10)), ProductionStep::Stop));
    assert!(matches!(production_step(100, 150, None), ProductionStep::Stop));
    assert!(matches!(production_step(1000, 150, Some(9999)), ProductionStep::Skip));
    assert!(matches!(production_step(1000, 150, Some(60_000)), ProductionStep::Skip));
    assert!(matches!(production_step(1000, 150, Some(9997)), ProductionStep::Produce(2)));
}

#[test]
fn stat_allocations_split_unspent_points() {
    let mut p = ai_player();
    p.card_status_points = vec![10, 0, 7];
    let plan = ai_stat_allocations(&p);
    assert_eq!(plan.len(), 2);
    assert_eq!(plan[0].0, 0);
    assert_eq!(plan[0].1.total(), 10);
    assert_eq!(plan[1].0, 2);
    assert_eq!(plan[1].1.speed, 2);
    assert_eq!(plan[1].1.magic_defense, 1);
}

#[test]
fn market_purchase_choice() {
    let listing = |id: &str, seller: &str, price: u64| MarketListing {
        listing_id: id.to_string(),
        seller_id: seller.to_string(),
        item: MarketItemType::Card { card_id: 1 },
        price,
        listed_at: 0,
    };
    let ls = vec![listing("a", "ai_faction_1", 10), listing("b", "human", 600), listing("c", "human", 400)];
    assert_eq!(ai_market_purchase_choice(&ls, 1000), Some("c".to_string()));
    assert_eq!(ai_market_purchase_choice(&ls, 1200), Some("b".to_string()));
    assert_eq!(ai_market_purchase_choice(&ls, 700), None);
    assert_eq!(ai_market_purchase_choice(&vec![], 700), None);
}
