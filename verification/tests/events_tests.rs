use kingdom_server::events::{
    push_alliance_event, push_battle_end_event, push_battle_start_event, push_card_drop_event,
    push_conquest_reward_event, push_defeat_event, push_enemy_roster_event, push_explore_complete_event,
    push_level_up_event, push_loot_gold_event, push_loot_item_event, push_phase_event, push_ruin_clear_event,
    push_skill_event,
};
use kingdom_server::model::GameEvent;

fn last(log: &[GameEvent]) -> &GameEvent {
    log.last().expect("an event")
}

#[test]
fn battle_events() {
    let mut log: Vec<GameEvent> = Vec::new();
    push_battle_start_event(&mut log, "p1", "森", "中立", "(3,4)", "遠征隊", 7, 1000);
    let e = last(&log);
    assert_eq!(e.id, 7);
    assert_eq!(e.timestamp, 1000);
    assert_eq!(e.actor_id.as_deref(), Some("p1"));
    assert_eq!(e.event_type, "battle_start");
    assert_eq!(e.message, "【森(3,4)侵攻戦】遠征隊が森（中立）へ侵攻開始");
    assert_eq!(e.data, r#"{"attacker_label":"遠征隊","coords":"(3,4)","defender_label":"中立","territory_name":"森"}"#);
    push_battle_end_event(&mut log, "p1", "victory", "森", 8, 1001);
    assert_eq!(last(&log).message, "森を占領しました！");
    push_battle_end_event(&mut log, "p1", "timeout", "森", 9, 1002);
    assert_eq!(last(&log).message, "8ターン経過。防衛側の勝利。");
    push_battle_end_event(&mut log, "p1", "draw", "森", 10, 1003);
    assert_eq!(last(&log).message, "draw");
    assert_eq!(last(&log).data, r#"{"result":"draw","territory_name":"森"}"#);
    push_defeat_event(&mut log, "A", "B", true, 11, 0);
    assert_eq!(last(&log).message, "AがBを撃破しました。");
    push_defeat_event(&mut log, "A", "B", false, 12, 0);
    assert_eq!(last(&log).message, "Bが撃破されました。");
    assert!(last(&log).actor_id.is_none());
    push_phase_event(&mut log, "第1ターン", 13, 0);
    assert_eq!(last(&log).message, "--- 第1ターン ---");
    push_skill_event(&mut log, "[味方]", "オーディン", "神槍", true, "T1", 14, 0);
    assert_eq!(last(&log).event_type, "skill_unique");
    assert_eq!(last(&log).message, "T1 [味方] オーディンの固有スキル「神槍」が発動！");
    push_skill_event(&mut log, "[敵]", "ゴブリン", "突撃", false, "T2", 15, 0);
    assert_eq!(last(&log).event_type, "skill_active");
    assert_eq!(last(&log).message, "T2 [敵] ゴブリンの「突撃」が発動！");
    assert_eq!(last(&log).data, r#"{"character":"ゴブリン","side":"[敵]","skill":"突撃"}"#);
    push_enemy_roster_event(&mut log, &vec![r#"{"name":"a"}"#.to_string(), "2".to_string()], 16, 0);
    assert_eq!(last(&log).data, r#"{"enemies":[{"name":"a"},2]}"#);
    push_enemy_roster_event(&mut log, &vec![], 17, 0);
    assert_eq!(last(&log).data, r#"{"enemies":[]}"#);
    assert_eq!(log.len(), 11);
}

#[test]
fn reward_events() {
    let mut log: Vec<GameEvent> = Vec::new();
    push_loot_gold_event(&mut log, "p", 120, 1, 0);
    assert_eq!(last(&log).message, "ゴールド+120 を入手！");
    assert_eq!(last(&log).data, r#"{"amount":120}"#);
    push_loot_item_event(&mut log, "p", "potion", "回復薬", 3, 2, 0);
    assert_eq!(last(&log).message, "回復薬x3 を入手！");
    assert_eq!(last(&log).data, r#"{"count":3,"item_id":"potion","item_name":"回復薬"}"#);
    push_card_drop_event(&mut log, "p", "オーク", 3, 0);
    assert_eq!(last(&log).message, "魔獣「オーク」を入手！");
    push_conquest_reward_event(&mut log, "p", 1, 2, 3, 4, 4, 0);
    assert_eq!(last(&log).message, "占領報酬: 食料+1・木+2・石+3・鉄+4");
    assert_eq!(last(&log).data, r#"{"food":1,"iron":4,"stone":3,"wood":2}"#);
    push_ruin_clear_event(&mut log, "p", 5, 0);
    assert_eq!(last(&log).data, "{}");
    push_level_up_event(&mut log, "オーク", 5, 6, 0);
    assert_eq!(last(&log).message, "オークがLv5に上がった！");
    push_explore_complete_event(&mut log, "p", "森", 10, 0, 5, 1, 7, 0);
    assert_eq!(last(&log).message, "森の探索が完了。食料+10・木+0・石+5・鉄+1");
    push_alliance_event(&mut log, "同盟結成", 8, 0);
    assert_eq!(last(&log).event_type, "alliance");
    assert_eq!(last(&log).message, "同盟結成");
}

#[test]
fn event_data_escapes_strings() {
    let mut log: Vec<GameEvent> = Vec::new();
    push_card_drop_event(&mut log, "p", "a\"b\\c\nd\u{1}", 1, 0);
    assert_eq!(last(&log).data, r#"{"card_name":"a\"b\\c\nd\u0001"}"#);
}

#[test]
fn event_log_keeps_the_last_two_thousand() {
    let mut log: Vec<GameEvent> = Vec::new();
    for i in 0..2005u64 {
        push_alliance_event(&mut log, "x", i, 0);
    }
    assert_eq!(log.len(), 2000);
    assert_eq!(log[0].id, 5);
}
