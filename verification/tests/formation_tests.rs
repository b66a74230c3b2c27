use kingdom_server::combat::{
    border_priority, choose_ai_attack, formation_has_march_stamina, formation_viable_for_target, has_active_attack_march,
    next_attack_plan, pick_ai_attack_from_formed_units, plan_attack_on, select_attack_from_territory,
};
use kingdom_server::combos::best_combo;
use kingdom_server::formation::{
    ai_formed_units_valid, best_unit_combo, build_ai_formed_units, build_attack_formation,
    build_formation_from_indices, card_effective_cost, ensure_ai_formed_units, formation_total_cost,
    unit_cost_cap_for,
};
use kingdom_server::model::{AiPersonality, Dup, MarchKind, MarchMission, PlayerData, StoredFormedUnit};
use kingdom_server::territory::Territory;

fn tile(id: &str, owner: Option<&str>, troops: u32) -> Territory {
    Territory {
        id: id.to_string(),
        name: "平原".to_string(),
        level: 1,
        owner_id: owner.map(|o| o.to_string()),
        troops,
        body_monster_counts: None,
        body_names: None,
        ruin: None,
        is_base: false,
        durability: 0,
        max_durability: 0,
        tower_level: 0,
    }
}

fn ai_faction() -> PlayerData {
    let mut p = PlayerData::new("ai_faction_0".to_string(), "c_5_5".to_string());
    let n = p.owned_cards.len();
    p.card_stamina = vec![100; n];
    p
}

fn march(kind: MarchKind, slots: Vec<usize>, arrives_at: u64) -> MarchMission {
    MarchMission {
        march_id: "m".to_string(),
        kind,
        from_territory_id: "c_5_5".to_string(),
        to_territory_id: "c_6_5".to_string(),
        started_at: 0,
        arrives_at,
        count: slots.len() as u32,
        monsters_per_body: None,
        body_names: None,
        unit_name: None,
        speed_per_body: None,
        skills_per_body: None,
        stats_per_body: None,
        owned_card_indices: Some(slots),
        formed_unit_id: None,
    }
}

fn check_cost_cap() {
    let players = vec![ai_faction()];
    let ai_id = "ai_faction_0";
    let target = tile("c_10_10", None, 0);
    let formation = build_attack_formation(&players, ai_id, &target, 1_000, 50).expect("formation");
    assert!(!formation.card_indices.is_empty());
    assert!(formation.card_indices.len() <= 3);
    let player = &players[0];
    let total = formation_total_cost(player, &formation.card_indices);
    assert!(total <= unit_cost_cap_for(&players, ai_id, 1_000));
    assert_eq!(formation.stats.len(), formation.card_indices.len());
    assert_eq!(formation.monster_counts.len(), formation.card_indices.len());
}

#[test]
fn ai_actions_formation_respects_unit_cost_cap() {
    check_cost_cap();
}

#[test]
fn mod_formation_respects_unit_cost_cap() {
    check_cost_cap();
}

#[test]
fn best_combo_maximises_score_within_cap() {
    let species = vec![1, 2, 3];
    let costs = vec![1, 1, 1];
    let scores = vec![5, 5, 5];
    assert_eq!(best_combo(&species, &costs, &scores, 3), Some(vec![0, 1, 2]));
    // Two bodies at most: the first pair in order wins the tie.
    assert_eq!(best_combo(&species, &costs, &scores, 2), Some(vec![0, 1]));
    // Bodies of one species never march together.
    assert_eq!(best_combo(&vec![1, 1, 2], &costs, &scores, 3), Some(vec![0, 2]));
    // A lower score is never chosen, even with more bodies.
    assert_eq!(best_combo(&vec![1, 2], &vec![1, 1], &vec![-5, -1], 9), Some(vec![1]));
    assert_eq!(best_combo(&vec![1, 2], &vec![5, 6], &vec![1, 1], 4), None);
    assert_eq!(best_combo(&vec![], &vec![], &vec![], 4), None);
}

#[test]
fn effective_cost_is_cheaper_when_enhanced() {
    let mut p = ai_faction();
    assert_eq!(card_effective_cost(&p, 0), 1500);
    p.card_enhanced = vec![true];
    assert_eq!(card_effective_cost(&p, 0), 1125);
    assert_eq!(formation_total_cost(&p, &[0, 1]), 2625);
    // A slot off the list costs as card 0.
    assert_eq!(card_effective_cost(&p, 99), 1500);
}

#[test]
fn standing_units_take_the_strongest_pairs() {
    let mut p = ai_faction();
    p.owned_cards = vec![0, 1, 2, 3, 4];
    p.card_monster_counts = vec![10, 50, 30, 40, 20];
    assert_eq!(best_unit_combo(&p, &[0, 1, 2, 3, 4], 3000), Some(vec![1, 3]));
    let units = build_ai_formed_units(&p, 2, 3000, 0);
    assert_eq!(units.len(), 2);
    assert_eq!(units[0].id, "ai-unit-0");
    assert_eq!(units[0].name, "ユニット1");
    assert_eq!(units[0].indices, [1, -1, 3]);
    assert_eq!(units[1].id, "ai-unit-1");
    assert_eq!(units[1].name, "ユニット2");
    assert_eq!(units[1].indices, [2, -1, 4]);
    // Slots away on an expedition are left out.
    p.marches = vec![march(MarchKind::Attack, vec![1], 500)];
    let units = build_ai_formed_units(&p, 3, 3000, 0);
    assert_eq!(units.len(), 2);
    assert_eq!(units[0].indices, [2, -1, 3]);
    assert_eq!(units[1].indices, [0, -1, 4]);
}

#[test]
fn standing_units_validity() {
    let mut p = ai_faction();
    p.owned_cards = vec![0, 1, 2, 3];
    assert!(!ai_formed_units_valid(&p, 2, 0));
    p.formed_units = vec![StoredFormedUnit { id: "u".to_string(), name: "n".to_string(), indices: [0, -1, 1] }];
    assert!(ai_formed_units_valid(&p, 2, 0));
    assert!(!ai_formed_units_valid(&p, 0, 0));
    p.formed_units.push(StoredFormedUnit { id: "v".to_string(), name: "n".to_string(), indices: [1, -1, 2] });
    assert!(!ai_formed_units_valid(&p, 2, 0));
    p.formed_units[1].indices = [-1, -1, 9];
    assert!(!ai_formed_units_valid(&p, 2, 0));
    p.formed_units[1].indices = [2, -1, -1];
    assert!(!ai_formed_units_valid(&p, 2, 0));
    p.formed_units[1].indices = [2, -1, 3];
    assert!(ai_formed_units_valid(&p, 2, 0));
    p.marches = vec![march(MarchKind::Explore, vec![3], 100)];
    assert!(!ai_formed_units_valid(&p, 2, 50));
    assert!(ai_formed_units_valid(&p, 2, 100));
}

#[test]
fn ensure_units_keeps_valid_and_rebuilds_invalid() {
    let mut p = ai_faction();
    p.owned_cards = vec![0, 1, 2];
    p.card_monster_counts = vec![5, 6, 7];
    ensure_ai_formed_units(&mut p, 0);
    // One unit (no facility bonus), of two bodies within the cap of 4.
    assert_eq!(p.formed_units.len(), 1);
    assert_eq!(p.formed_units[0].indices, [1, -1, 2]);
    p.formed_units[0].indices = [0, -1, 1];
    ensure_ai_formed_units(&mut p, 0);
    assert_eq!(p.formed_units[0].indices, [0, -1, 1]);
}

#[test]
fn formation_from_slots_reads_cards() {
    let mut p = ai_faction();
    p.owned_cards = vec![0, 1, 60_000];
    p.card_monster_counts = vec![0, 7];
    let f = build_formation_from_indices(&p, &[0, 1]).expect("known cards");
    assert_eq!(f.card_indices, vec![0, 1]);
    assert_eq!(f.monster_counts, vec![1, 7]);
    assert_eq!(f.body_names, vec!["ダイアウルフ".to_string(), "ゴブリンウォリアー".to_string()]);
    assert_eq!(f.speeds, vec![6, 5]);
    assert!(build_formation_from_indices(&p, &[2]).is_none());
    assert!(build_formation_from_indices(&p, &[5]).is_none());
}

#[test]
fn attack_march_and_stamina_checks() {
    let mut p = ai_faction();
    let mut players = vec![p.dup()];
    assert!(!has_active_attack_march(&players, "ai_faction_0"));
    p.marches = vec![march(MarchKind::Attack, vec![0], 10)];
    players = vec![p.dup()];
    assert!(has_active_attack_march(&players, "ai_faction_0"));
    assert!(!has_active_attack_march(&players, "nobody"));
    p.card_stamina = vec![60, 4];
    assert!(formation_has_march_stamina(&p, &[0], MarchKind::Attack, 50, 5, 100));
    assert!(!formation_has_march_stamina(&p, &[0, 1], MarchKind::Attack, 50, 5, 100));
    assert!(!formation_has_march_stamina(&p, &[1], MarchKind::Explore, 50, 5, 100));
    assert!(formation_has_march_stamina(&p, &[1, 7], MarchKind::Return, 50, 5, 100));
    assert!(formation_has_march_stamina(&p, &[7], MarchKind::Explore, 50, 5, 100));
}

#[test]
fn attack_launches_from_strongest_bordering_tile() {
    let ts = vec![
        tile("c_5_5", Some("ai_faction_0"), 2),
        tile("c_7_6", Some("ai_faction_0"), 1),
        tile("c_6_5", None, 0),
        tile("c_6_7", Some("ai_faction_0"), 9),
        tile("c_5_6", Some("other"), 50),
    ];
    // Ten per troop, less the distance.
    assert_eq!(border_priority(&ts, "c_5_5", "c_6_6"), 18);
    assert_eq!(border_priority(&ts, "c_7_6", "c_6_6"), 9);
    assert_eq!(border_priority(&ts, "c_6_7", "c_6_6"), 89);
    assert_eq!(border_priority(&ts, "c_9_9", "c_6_6"), -6);
    assert_eq!(select_attack_from_territory(&ts, "ai_faction_0", "c_6_6"), Some("c_6_7".to_string()));
    assert_eq!(select_attack_from_territory(&ts, "ai_faction_0", "c_5_4"), Some("c_5_5".to_string()));
    assert_eq!(select_attack_from_territory(&ts, "ai_faction_0", "c_0_0"), None);
    // A tie goes to the later tile.
    let ts2 = vec![tile("c_1_0", Some("a"), 1), tile("c_0_1", Some("a"), 1)];
    assert_eq!(select_attack_from_territory(&ts2, "a", "c_0_0"), Some("c_0_1".to_string()));
}

#[test]
fn standing_unit_attack_is_strongest_viable() {
    let mut p = ai_faction();
    p.owned_cards = vec![0, 1, 2, 3];
    p.card_monster_counts = vec![100, 100, 1, 1];
    p.formed_units = vec![
        StoredFormedUnit { id: "weak".to_string(), name: "a".to_string(), indices: [-1, -1, 2] },
        StoredFormedUnit { id: "strong".to_string(), name: "b".to_string(), indices: [0, -1, 1] },
    ];
    let players = vec![p.dup()];
    let target = tile("c_6_5", None, 0);
    let (id, f) = pick_ai_attack_from_formed_units(&players, "ai_faction_0", &target, 0).expect("attack");
    assert_eq!(id, "strong");
    assert_eq!(f.card_indices, vec![0, 1]);
    assert!(formation_viable_for_target(&players, &f, &players[0], &target, 0));
    assert!(pick_ai_attack_from_formed_units(&players, "nobody", &target, 0).is_none());
    // Against a huge garrison nothing stands a chance.
    let mut fort = tile("c_6_5", Some("other"), 1);
    fort.body_monster_counts = Some(vec![1_000_000]);
    fort.body_names = Some(vec!["巨人".to_string()]);
    assert!(!formation_viable_for_target(&players, &f, &players[0], &fort, 0));
    assert!(pick_ai_attack_from_formed_units(&players, "ai_faction_0", &fort, 0).is_none());
}

#[test]
fn attack_plan_sends_the_standing_unit_from_the_border() {
    let mut p = ai_faction();
    p.owned_cards = vec![0, 1, 2, 3];
    p.card_monster_counts = vec![100, 100, 1, 1];
    p.card_stamina = vec![100; 4];
    p.formed_units = vec![
        StoredFormedUnit { id: "weak".to_string(), name: "a".to_string(), indices: [-1, -1, 2] },
        StoredFormedUnit { id: "strong".to_string(), name: "b".to_string(), indices: [0, -1, 1] },
    ];
    let players = vec![p.dup()];
    let ts = vec![tile("c_5_5", Some("ai_faction_0"), 2), tile("c_6_5", None, 0), tile("c_9_9", None, 0)];
    let plan = plan_attack_on(&ts, &players, "ai_faction_0", "c_6_5", 0, 10, 5, 100).expect("plan");
    assert_eq!(plan.from_territory_id, "c_5_5");
    assert_eq!(plan.target_id, "c_6_5");
    assert_eq!(plan.formed_unit_id, Some("strong".to_string()));
    assert_eq!(plan.formation.card_indices, vec![0, 1]);
    // No tile of the faction borders the target, the target is unknown, or the faction is.
    assert!(plan_attack_on(&ts, &players, "ai_faction_0", "c_9_9", 0, 10, 5, 100).is_none());
    assert!(plan_attack_on(&ts, &players, "ai_faction_0", "c_1_1", 0, 10, 5, 100).is_none());
    assert!(plan_attack_on(&ts, &players, "nobody", "c_6_5", 0, 10, 5, 100).is_none());
    // Too tired to march.
    let mut tired = p.dup();
    tired.card_stamina = vec![0; 4];
    let tired_players = vec![tired];
    assert!(plan_attack_on(&ts, &tired_players, "ai_faction_0", "c_6_5", 0, 10, 5, 100).is_none());
}

#[test]
fn ranked_targets_are_tried_in_order() {
    let mut p = ai_faction();
    p.owned_cards = vec![0, 1, 2, 3];
    p.card_monster_counts = vec![100, 100, 1, 1];
    p.card_stamina = vec![100; 4];
    p.formed_units = vec![StoredFormedUnit { id: "strong".to_string(), name: "b".to_string(), indices: [0, -1, 1] }];
    let players = vec![p];
    let ts = vec![tile("c_5_5", Some("ai_faction_0"), 2), tile("c_6_5", None, 0), tile("c_9_9", None, 0)];
    let targets = vec!["c_9_9".to_string(), "c_6_5".to_string(), "c_6_5".to_string()];
    let (k, plan) = next_attack_plan(&ts, &players, "ai_faction_0", &targets, 0, 0, 10, 5, 100).expect("plan");
    assert_eq!(k, 1);
    assert_eq!(plan.target_id, "c_6_5");
    let (k2, _) = next_attack_plan(&ts, &players, "ai_faction_0", &targets, 2, 0, 10, 5, 100).expect("plan");
    assert_eq!(k2, 2);
    assert!(next_attack_plan(&ts, &players, "ai_faction_0", &targets, 3, 0, 10, 5, 100).is_none());
    assert!(next_attack_plan(&ts, &players, "ai_faction_0", &targets[..1].to_vec(), 0, 0, 10, 5, 100).is_none());
}

#[test]
fn the_attack_step_holds_back_or_plans() {
    let mut p = ai_faction();
    p.owned_cards = vec![0, 1, 2, 3];
    p.card_monster_counts = vec![100, 100, 1, 1];
    p.card_stamina = vec![100; 4];
    p.formed_units = vec![StoredFormedUnit { id: "strong".to_string(), name: "b".to_string(), indices: [0, -1, 1] }];
    let ts = vec![tile("c_5_5", Some("ai_faction_0"), 2), tile("c_6_5", None, 0), tile("c_9_9", None, 0)];
    let players = vec![p.dup()];
    let (ranked, plan) = choose_ai_attack(&ts, &players, "ai_faction_0", AiPersonality::Balanced, "player", 0, 10, 5, 100);
    assert_eq!(ranked, vec!["c_6_5".to_string()]);
    let (k, plan) = plan.expect("plan");
    assert_eq!(k, 0);
    assert_eq!(plan.target_id, "c_6_5");
    assert_eq!(plan.from_territory_id, "c_5_5");
    // Recovering from a failed attack: nothing.
    let mut resting = p.dup();
    resting.ai_recover_until = 10;
    let (ranked, plan) = choose_ai_attack(&ts, &vec![resting], "ai_faction_0", AiPersonality::Balanced, "player", 0, 10, 5, 100);
    assert!(ranked.is_empty() && plan.is_none());
    // An attack already under way: nothing.
    let mut marching = p.dup();
    marching.marches.push(march(MarchKind::Attack, vec![2], 500));
    let (ranked, plan) = choose_ai_attack(&ts, &vec![marching], "ai_faction_0", AiPersonality::Balanced, "player", 0, 10, 5, 100);
    assert!(ranked.is_empty() && plan.is_none());
}
