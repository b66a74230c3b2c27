use kingdom_server::items::InventoryItem;
use kingdom_server::market::{apply_buy_from_flea_market, apply_cancel_flea_market_listing, apply_list_on_flea_market};
use kingdom_server::model::{GameState, MarketItemType, PlayerData};

fn market() -> GameState {
    let mut state = GameState::default();
    state.players.clear();
    state.players.push(PlayerData::new_at("alice".to_string(), "c_1_1".to_string(), 0));
    state.players.push(PlayerData::new_at("bob".to_string(), "c_9_9".to_string(), 0));
    state.market_listings.clear();
    state
}

fn food(amount: u64) -> MarketItemType {
    MarketItemType::Resource { resource_type: "food".to_string(), amount }
}

#[test]
fn listing_a_resource_takes_it_and_opens_a_listing() {
    let mut state = market();
    let mut log = Vec::new();
    apply_list_on_flea_market(&mut state, &mut log, "alice", &food(100), 50, "", 7);
    assert_eq!(state.players[0].resources.food, 400);
    assert_eq!(state.market_listings.len(), 1);
    let l = &state.market_listings[0];
    assert_eq!(l.listing_id, "listing_7_0");
    assert_eq!(l.seller_id, "alice");
    assert_eq!(l.price, 50);
    assert_eq!(l.listed_at, 7);
    assert_eq!(log, vec!["[ts:7]フリマに食料x100を50Gで出品しました。".to_string()]);
}

#[test]
fn listing_refusals() {
    let mut state = market();
    let mut log = Vec::new();
    apply_list_on_flea_market(&mut state, &mut log, "alice", &food(100), 0, "", 1);
    assert_eq!(log.last().unwrap(), "[ts:1]価格は1以上に設定してください。");
    apply_list_on_flea_market(&mut state, &mut log, "alice", &food(501), 10, "", 1);
    assert_eq!(log.last().unwrap(), "[ts:1]出品する資源が足りません。");
    apply_list_on_flea_market(&mut state, &mut log, "alice", &food(0), 10, "", 1);
    assert_eq!(log.last().unwrap(), "[ts:1]出品する資源が足りません。");
    let gems = MarketItemType::Resource { resource_type: "gems".to_string(), amount: 1 };
    apply_list_on_flea_market(&mut state, &mut log, "alice", &gems, 10, "", 1);
    assert_eq!(log.last().unwrap(), "[ts:1]出品する資源が足りません。");
    apply_list_on_flea_market(&mut state, &mut log, "alice", &MarketItemType::Card { card_id: 999 }, 10, "", 1);
    assert_eq!(log.last().unwrap(), "[ts:1]出品するカードを所持していません。");
    let potion = MarketItemType::Item { item_id: "potion".to_string(), count: 1 };
    apply_list_on_flea_market(&mut state, &mut log, "alice", &potion, 10, "ポーション", 1);
    assert_eq!(log.last().unwrap(), "[ts:1]出品するアイテムが足りません。");
    apply_list_on_flea_market(&mut state, &mut log, "nobody", &food(1), 10, "", 1);
    assert_eq!(log.len(), 6);
    assert!(state.market_listings.is_empty());
    assert_eq!(state.players[0].resources.food, 500);
}

#[test]
fn listing_a_card_takes_its_first_slot() {
    let mut state = market();
    state.players[0].owned_cards = vec![10, 0, 0];
    let mut log = Vec::new();
    apply_list_on_flea_market(&mut state, &mut log, "alice", &MarketItemType::Card { card_id: 0 }, 30, "", 2);
    assert_eq!(state.players[0].owned_cards, vec![10, 0]);
    assert_eq!(log, vec!["[ts:2]フリマにダイアウルフを30Gで出品しました。".to_string()]);
}

#[test]
fn listing_items_uses_the_first_stack() {
    let mut state = market();
    state.players[0].inventory = vec![
        InventoryItem { item_id: "potion".to_string(), count: 3 },
        InventoryItem { item_id: "ore".to_string(), count: 1 },
        InventoryItem { item_id: "potion".to_string(), count: 5 },
    ];
    let mut log = Vec::new();
    let two = MarketItemType::Item { item_id: "potion".to_string(), count: 2 };
    apply_list_on_flea_market(&mut state, &mut log, "alice", &two, 20, "ポーション", 3);
    assert_eq!(state.players[0].inventory[0].count, 1);
    assert_eq!(log.last().unwrap(), "[ts:3]フリマにポーションx2を20Gで出品しました。");
    // Emptying the first stack clears every stack of the item.
    let one = MarketItemType::Item { item_id: "potion".to_string(), count: 1 };
    apply_list_on_flea_market(&mut state, &mut log, "alice", &one, 20, "ポーション", 4);
    assert_eq!(state.players[0].inventory.len(), 1);
    assert_eq!(state.players[0].inventory[0].item_id, "ore");
    assert_eq!(state.market_listings[1].listing_id, "listing_4_1");
}

#[test]
fn buying_pays_the_seller_less_the_fee() {
    let mut state = market();
    let mut log = Vec::new();
    apply_list_on_flea_market(&mut state, &mut log, "alice", &food(100), 50, "", 7);
    apply_buy_from_flea_market(&mut state, &mut log, "bob", "listing_7_0", "", 8);
    assert_eq!(state.players[1].resources.gold, 950);
    assert_eq!(state.players[1].resources.food, 600);
    assert_eq!(state.players[0].resources.gold, 1045);
    assert!(state.market_listings.is_empty());
    assert_eq!(log.last().unwrap(), "[ts:8]フリマで食料x100を50Gで購入（手数料5G）");
}

#[test]
fn bought_items_stack_and_cards_are_appended() {
    let mut state = market();
    state.players[0].owned_cards = vec![1];
    state.players[0].inventory = vec![InventoryItem { item_id: "ore".to_string(), count: 4 }];
    state.players[1].inventory = vec![InventoryItem { item_id: "ore".to_string(), count: 6 }];
    let mut log = Vec::new();
    let ore = MarketItemType::Item { item_id: "ore".to_string(), count: 4 };
    apply_list_on_flea_market(&mut state, &mut log, "alice", &ore, 100, "鉱石", 1);
    apply_list_on_flea_market(&mut state, &mut log, "alice", &MarketItemType::Card { card_id: 1 }, 200, "", 1);
    apply_buy_from_flea_market(&mut state, &mut log, "bob", "listing_1_0", "鉱石", 2);
    assert_eq!(log.last().unwrap(), "[ts:2]フリマで鉱石x4を100Gで購入（手数料10G）");
    assert_eq!(state.players[1].inventory[0].count, 10);
    apply_buy_from_flea_market(&mut state, &mut log, "bob", "listing_1_1", "", 3);
    assert_eq!(state.players[1].owned_cards.last(), Some(&1));
    assert_eq!(state.players[1].resources.gold, 700);
    assert_eq!(state.players[0].resources.gold, 1270);
}

#[test]
fn purchase_refusals() {
    let mut state = market();
    let mut log = Vec::new();
    apply_buy_from_flea_market(&mut state, &mut log, "bob", "listing_0_0", "", 1);
    assert_eq!(log.last().unwrap(), "[ts:1]出品が見つかりません。");
    apply_list_on_flea_market(&mut state, &mut log, "alice", &food(10), 5000, "", 1);
    apply_buy_from_flea_market(&mut state, &mut log, "alice", "listing_1_0", "", 2);
    assert_eq!(log.last().unwrap(), "[ts:2]自分の出品は購入できません。");
    apply_buy_from_flea_market(&mut state, &mut log, "bob", "listing_1_0", "", 3);
    assert_eq!(log.last().unwrap(), "[ts:3]ゴールドが足りません。");
    assert_eq!(state.market_listings.len(), 1);
    assert_eq!(state.players[1].resources.gold, 1000);
}

#[test]
fn list_then_cancel_restores_resources_and_market() {
    let mut state = market();
    let mut log = Vec::new();
    apply_list_on_flea_market(&mut state, &mut log, "alice", &food(100), 50, "", 7);
    apply_cancel_flea_market_listing(&mut state, &mut log, "bob", "listing_7_0", 8);
    assert_eq!(log.last().unwrap(), "[ts:8]自分の出品のみ取り消せます。");
    apply_cancel_flea_market_listing(&mut state, &mut log, "alice", "listing_7_0", 9);
    assert_eq!(log.last().unwrap(), "[ts:9]出品を取り消しました。");
    assert_eq!(state.players[0].resources.food, 500);
    assert!(state.market_listings.is_empty());
    apply_cancel_flea_market_listing(&mut state, &mut log, "alice", "listing_7_0", 10);
    assert_eq!(log.last().unwrap(), "[ts:10]出品が見つかりません。");
}
