use kingdom_server::auth::{hash_password, password_check_outcome, verify_password, CORRUPT_HASH_MSG, WRONG_PASSWORD_MSG};
use kingdom_server::card_stats::{resolve_authoritative_body_stats_at, CardStatBonuses};
use kingdom_server::cards::get_card;
use kingdom_server::model::PlayerData;

#[test]
fn password_hash_roundtrip() {
    let hash = hash_password("correct horse").expect("hash");
    assert!(hash.starts_with("$argon2"));
    assert_eq!(verify_password("correct horse", &hash), Ok(()));
    assert_eq!(verify_password("wrong horse", &hash), Err(WRONG_PASSWORD_MSG.to_string()));
    assert_eq!(verify_password("correct horse", "not a hash"), Err(CORRUPT_HASH_MSG.to_string()));
    // Two hashes of one password differ by their salt.
    assert_ne!(hash_password("correct horse").expect("hash"), hash);
}

#[test]
fn password_check_outcomes() {
    assert_eq!(password_check_outcome(Some(true)), Ok(()));
    assert_eq!(password_check_outcome(Some(false)), Err(WRONG_PASSWORD_MSG.to_string()));
    assert_eq!(password_check_outcome(None), Err(CORRUPT_HASH_MSG.to_string()));
}

#[test]
fn body_stats_use_bonuses_and_formation_counts() {
    let mut p = PlayerData::new("p".to_string(), "c_1_1".to_string());
    p.card_stat_bonuses = vec![CardStatBonuses { speed: 2, attack: 3, intelligence: 0, defense: 0, magic_defense: 0 }];
    let stats = resolve_authoritative_body_stats_at(&p, &[0, 1], Some(&[7, 0]), 0);
    let c0 = get_card(p.owned_cards[0]).unwrap().stats;
    let c1 = get_card(p.owned_cards[1]).unwrap().stats;
    assert_eq!(stats.len(), 2);
    assert_eq!(stats[0].speed, c0.speed + 2);
    assert_eq!(stats[0].attack, c0.attack + 3);
    assert_eq!(stats[0].monster_count, 7);
    // A zero count keeps the card's own.
    assert_eq!(stats[1].monster_count, c1.monster_count);
    assert_eq!(stats[1].attack, c1.attack);
    let stats = resolve_authoritative_body_stats_at(&p, &[0], None, 0);
    assert_eq!(stats[0].monster_count, c0.monster_count);
}
