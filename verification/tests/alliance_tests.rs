use kingdom_server::alliance::{
    apply_create_alliance, apply_donate_alliance, apply_join_alliance, apply_leave_alliance, member_alliance,
};
use kingdom_server::cards::{race_combat_tier, Race};
use kingdom_server::game_log::push_actor_log;
use kingdom_server::model::{GameState, PlayerData};

fn state_with(ids: &[&str]) -> GameState {
    let mut state = GameState::default();
    state.players.clear();
    for id in ids {
        state.players.push(PlayerData::new_at(id.to_string(), "c_0_0".to_string(), 0));
    }
    state
}

fn last_line(log: &[String]) -> &str {
    let line = log.last().unwrap().as_str();
    let close = line.find(']').unwrap();
    &line[close + 1..]
}

#[test]
fn founding_an_alliance_makes_the_founder_its_leader() {
    let mut state = state_with(&["alice"]);
    let mut log = Vec::new();
    apply_create_alliance(&mut state, &mut log, "alice", "北の盟", 5);
    assert_eq!(state.alliances.len(), 1);
    let a = &state.alliances[0];
    assert_eq!(a.id, "alliance_1");
    assert_eq!(a.name, "北の盟");
    assert_eq!(a.leader_id, "alice");
    assert_eq!(a.member_ids, vec!["alice".to_string()]);
    assert_eq!(a.level, 1);
    assert_eq!(a.donated_total, 0);
    assert_eq!(log, vec!["[ts:5]同盟「北の盟」を結成しました！".to_string()]);
}

#[test]
fn a_member_cannot_found_or_join_another_alliance() {
    let mut state = state_with(&["alice", "bob"]);
    let mut log = Vec::new();
    apply_create_alliance(&mut state, &mut log, "alice", "A", 1);
    apply_create_alliance(&mut state, &mut log, "bob", "B", 1);
    apply_create_alliance(&mut state, &mut log, "alice", "C", 2);
    assert_eq!(last_line(&log), "既に同盟に所属しています。");
    assert_eq!(state.alliances.len(), 2);
    assert_eq!(state.alliances[1].id, "alliance_2");
    apply_join_alliance(&mut state, &mut log, "alice", "alliance_2", 3);
    assert_eq!(last_line(&log), "既に同盟に所属しています。");
    assert_eq!(state.alliances[1].member_ids, vec!["bob".to_string()]);
}

#[test]
fn joining_an_unknown_alliance_is_reported() {
    let mut state = state_with(&["alice"]);
    let mut log = Vec::new();
    apply_join_alliance(&mut state, &mut log, "alice", "alliance_9", 4);
    assert_eq!(log, vec!["[ts:4]同盟が見つかりません。".to_string()]);
    assert!(state.alliances.is_empty());
}

#[test]
fn join_then_leave_restores_the_alliance() {
    let mut state = state_with(&["alice", "bob"]);
    let mut log = Vec::new();
    apply_create_alliance(&mut state, &mut log, "alice", "A", 1);
    apply_join_alliance(&mut state, &mut log, "bob", "alliance_1", 2);
    assert_eq!(last_line(&log), "同盟「A」に参加しました！");
    assert_eq!(state.alliances[0].member_ids, vec!["alice".to_string(), "bob".to_string()]);
    apply_leave_alliance(&mut state, &mut log, "bob", 3);
    assert_eq!(last_line(&log), "同盟「A」を脱退しました。");
    assert_eq!(state.alliances[0].member_ids, vec!["alice".to_string()]);
    assert_eq!(state.alliances[0].leader_id, "alice");
}

#[test]
fn a_leaving_leader_hands_over_to_the_next_member() {
    let mut state = state_with(&["alice", "bob"]);
    let mut log = Vec::new();
    apply_create_alliance(&mut state, &mut log, "alice", "A", 1);
    apply_join_alliance(&mut state, &mut log, "bob", "alliance_1", 2);
    apply_leave_alliance(&mut state, &mut log, "alice", 3);
    assert_eq!(state.alliances[0].leader_id, "bob");
    let n = log.len();
    assert_eq!(log[n - 2], "[ts:3]同盟「A」を脱退しました。");
    assert_eq!(log[n - 1], "[ts:3]リーダーがbobに引き継がれました。");
}

#[test]
fn the_last_member_leaving_dissolves_the_alliance() {
    let mut state = state_with(&["alice"]);
    let mut log = Vec::new();
    apply_create_alliance(&mut state, &mut log, "alice", "A", 1);
    apply_leave_alliance(&mut state, &mut log, "alice", 2);
    assert!(state.alliances.is_empty());
    assert_eq!(last_line(&log), "同盟「A」は解散しました。");
    assert_eq!(member_alliance(&state.alliances, "alice"), None);
}

#[test]
fn leaving_without_an_alliance_changes_nothing() {
    let mut state = state_with(&["alice"]);
    let mut log = Vec::new();
    apply_leave_alliance(&mut state, &mut log, "alice", 2);
    assert!(log.is_empty());
    assert!(state.alliances.is_empty());
}

#[test]
fn donating_pays_resources_and_raises_the_level() {
    let mut state = state_with(&["alice"]);
    state.players[0].resources.food = 3000;
    let mut log = Vec::new();
    apply_create_alliance(&mut state, &mut log, "alice", "A", 1);
    apply_donate_alliance(&mut state, &mut log, "alice", 2500, 100, 0, 0, 7);
    let r = state.players[0].resources;
    assert_eq!(r.food, 500);
    assert_eq!(r.wood, 400);
    assert_eq!(r.stone, 500);
    assert_eq!(state.alliances[0].donated_total, 2600);
    assert_eq!(state.alliances[0].level, 2);
    assert_eq!(last_line(&log), "同盟への寄付が実を結び、同盟レベルが 2 になった！");
}

#[test]
fn donation_refusals() {
    let mut state = state_with(&["alice"]);
    let mut log = Vec::new();
    apply_donate_alliance(&mut state, &mut log, "alice", 0, 0, 0, 0, 1);
    assert!(log.is_empty());
    apply_donate_alliance(&mut state, &mut log, "alice", 10, 0, 0, 0, 1);
    assert_eq!(last_line(&log), "同盟に所属していないため寄付できません。");
    apply_create_alliance(&mut state, &mut log, "alice", "A", 1);
    apply_donate_alliance(&mut state, &mut log, "alice", 501, 0, 0, 0, 1);
    assert_eq!(last_line(&log), "寄付する資源が足りません。");
    assert_eq!(state.players[0].resources.food, 500);
    assert_eq!(state.alliances[0].donated_total, 0);
}

#[test]
fn level_caps_at_twenty() {
    let mut state = state_with(&["alice"]);
    state.players[0].resources.iron = 100_000;
    let mut log = Vec::new();
    apply_create_alliance(&mut state, &mut log, "alice", "A", 1);
    apply_donate_alliance(&mut state, &mut log, "alice", 0, 0, 0, 100_000, 2);
    assert_eq!(state.alliances[0].level, 20);
}

#[test]
fn race_tiers_order_giants_over_demihumans_over_beasts() {
    assert_eq!(race_combat_tier(Race::Giant), 2);
    assert_eq!(race_combat_tier(Race::Demon), 2);
    assert_eq!(race_combat_tier(Race::Dragon), 2);
    assert_eq!(race_combat_tier(Race::Demihuman), 1);
    assert_eq!(race_combat_tier(Race::Undead), 1);
    assert_eq!(race_combat_tier(Race::Spirit), 1);
    assert_eq!(race_combat_tier(Race::Beast), 0);
}

#[test]
fn actor_log_lines_name_the_actor() {
    let mut log = Vec::new();
    push_actor_log(&mut log, "p1", "攻撃");
    assert!(log[0].starts_with("[ts:"));
    assert!(log[0].ends_with("][p:p1]攻撃"));
}
