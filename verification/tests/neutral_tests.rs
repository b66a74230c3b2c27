use kingdom_server::neutral::{
    enemy_name_species_key, generate_neutral_enemies, generate_neutral_enemies_for_territory,
    neutral_enemy_ids_for_territory, neutral_enemy_names_need_refresh, pick_distinct_neutral_cards,
    resolve_stored_garrison_defenders, sorted_distinct,
};
use kingdom_server::territory::Territory;

#[test]
fn detects_legacy_abc_neutral_names() {
    let legacy = vec!["トロールA".to_string(), "トロールB".to_string(), "トロールC".to_string()];
    assert!(neutral_enemy_names_need_refresh(&legacy));
}

#[test]
fn accepts_distinct_illustrated_neutral_names() {
    let names = vec!["バット".to_string(), "ゴブリンアーチャー".to_string(), "レッサーデーモン".to_string()];
    assert!(!neutral_enemy_names_need_refresh(&names));
}

#[test]
fn refreshes_unillustrated_neutral_names() {
    let names = vec!["コボルド".to_string()];
    assert!(neutral_enemy_names_need_refresh(&names));
}

#[test]
fn neutral_enemies_are_deterministic_per_territory() {
    let a = generate_neutral_enemies_for_territory(5, "c_2_3");
    let b = generate_neutral_enemies_for_territory(5, "c_2_3");
    assert_eq!(a, b);
    let c = generate_neutral_enemies_for_territory(5, "c_2_4");
    assert_ne!(a.2, c.2);
}

#[test]
fn empty_or_repeated_species_names() {
    let empty: Vec<String> = vec![];
    assert!(!neutral_enemy_names_need_refresh(&empty));
    let repeated = vec!["バット".to_string(), "バット".to_string()];
    assert!(neutral_enemy_names_need_refresh(&repeated));
    assert_eq!(enemy_name_species_key("トロールAB"), "トロール");
    assert_eq!(enemy_name_species_key("バット"), "バット");
}

#[test]
fn distinct_picks_are_distinct_and_bounded() {
    assert_eq!(sorted_distinct(&[5, 3, 5, 1, 3]), vec![1, 3, 5]);
    let picked = pick_distinct_neutral_cards(&[7, 7, 8, 9, 9], 2, 11);
    assert_eq!(picked.len(), 2);
    assert_ne!(picked[0], picked[1]);
    assert!(picked.iter().all(|id| [7, 8, 9].contains(id)));
    let all = pick_distinct_neutral_cards(&[7, 7, 8], 5, 11);
    assert_eq!(all.len(), 2);
    assert_eq!(pick_distinct_neutral_cards(&[7, 7, 8, 9, 9], 2, 11), picked);
}

#[test]
fn garrison_sizes_follow_the_level_table() {
    for (level, bodies, monsters) in [(1u8, 1usize, 18u32), (3, 2, 250), (5, 3, 1500), (7, 2, 6000), (9, 3, 9000)] {
        let (troops, counts, names) = generate_neutral_enemies_for_territory(level, "c_4_4");
        assert!(counts.len() <= bodies);
        assert_eq!(troops as usize, counts.len());
        assert_eq!(names.len(), counts.len());
        assert!(counts.iter().all(|&c| c == monsters));
    }
    let ids = neutral_enemy_ids_for_territory(5, "c_9_9");
    assert_eq!(ids, neutral_enemy_ids_for_territory(5, "c_9_9"));
    let (troops, counts, _) = generate_neutral_enemies(2);
    assert_eq!(troops as usize, counts.len());
}

fn tile(troops: u32, counts: Option<Vec<u32>>, names: Option<Vec<String>>) -> Territory {
    Territory {
        id: "c_1_1".to_string(),
        name: "平原".to_string(),
        level: 1,
        owner_id: None,
        troops,
        body_monster_counts: counts,
        body_names: names,
        ruin: None,
        is_base: false,
        durability: 0,
        max_durability: 0,
        tower_level: 0,
    }
}

#[test]
fn stored_garrison_uses_matching_data_or_defaults() {
    let t = tile(2, Some(vec![5, 6]), Some(vec!["A".to_string(), "B".to_string()]));
    assert_eq!(resolve_stored_garrison_defenders(&t), (2, vec![5, 6], vec!["A".to_string(), "B".to_string()]));
    let t = tile(2, Some(vec![5]), None);
    assert_eq!(resolve_stored_garrison_defenders(&t), (2, vec![1, 1], vec!["敵ユニット1".to_string(), "敵ユニット2".to_string()]));
    let t = tile(0, None, None);
    assert_eq!(resolve_stored_garrison_defenders(&t), (0, vec![1], vec!["敵ユニット1".to_string()]));
}
