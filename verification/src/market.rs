//! The flea market: players list cards, items and resources for gold, buy what others list,
//! and take back their own listings.
use vstd::prelude::*;
use crate::cards::{card_spec, get_card};
use crate::formation::{first_player_index, lemma_first_player_exists, lemma_first_player_index, lemma_same_ids_first_player};
use crate::game_log::{log_lines, push_log_at, push_str_chars};
use crate::facilities::{bonuses_fit, calculate_market_fee_at, facility_bonuses_spec, facility_views, market_fee_spec};
use crate::items::{add_stack, find_stack, first_stack, stacks, InventoryItem};
use crate::model::{
    find_player, has_player, views, Dup, GameState, GameStateView, MarketItemType, MarketItemView, MarketListing,
    MarketListingView, PlayerData, PlayerView, Resources,
};
use crate::text::{decimal, push_decimal, str_eq, string_from_chars};

verus! {

/// How much of resource `t` ("food", "wood", "stone" or "iron") `r` holds; `None` for any
/// other name.
pub open spec fn resource_of(r: Resources, t: Seq<char>) -> Option<u64> {
    if t == "food"@ {
        Some(r.food)
    } else if t == "wood"@ {
        Some(r.wood)
    } else if t == "stone"@ {
        Some(r.stone)
    } else if t == "iron"@ {
        Some(r.iron)
    } else {
        None
    }
}

/// `r` with resource `t` set to `v` (unchanged for an unknown name).
pub open spec fn set_resource(r: Resources, t: Seq<char>, v: u64) -> Resources {
    if t == "food"@ {
        Resources { food: v, ..r }
    } else if t == "wood"@ {
        Resources { wood: v, ..r }
    } else if t == "stone"@ {
        Resources { stone: v, ..r }
    } else if t == "iron"@ {
        Resources { iron: v, ..r }
    } else {
        r
    }
}

/// The display name of resource `t`.
pub open spec fn resource_label(t: Seq<char>) -> Seq<char> {
    if t == "food"@ {
        "食料"@
    } else if t == "wood"@ {
        "木材"@
    } else if t == "stone"@ {
        "石材"@
    } else if t == "iron"@ {
        "鉄"@
    } else {
        "不明"@
    }
}

/// The display name of card `id`: its name, or "カード#<id>" for an unknown card.
pub open spec fn card_label(id: u32) -> Seq<char> {
    match card_spec(id) {
        Some(c) => c.name@,
        None => "カード#"@ + decimal(id as nat),
    }
}

/// How a listing's goods are described, an item by `item_name` (its display name) and count.
pub open spec fn item_description(item: MarketItemView, item_name: Seq<char>) -> Seq<char> {
    match item {
        MarketItemView::Card { card_id } => card_label(card_id),
        MarketItemView::Item { item_id, count } => item_name + "x"@ + decimal(count as nat),
        MarketItemView::Resource { resource_type, amount } => resource_label(resource_type) + "x"@ + decimal(amount as nat),
    }
}

pub open spec fn price_zero_message() -> Seq<char> {
    "価格は1以上に設定してください。"@
}

pub open spec fn no_card_message() -> Seq<char> {
    "出品するカードを所持していません。"@
}

pub open spec fn no_item_message() -> Seq<char> {
    "出品するアイテムが足りません。"@
}

pub open spec fn no_resource_message() -> Seq<char> {
    "出品する資源が足りません。"@
}

pub open spec fn listed_message(desc: Seq<char>, price: u64) -> Seq<char> {
    "フリマに"@ + desc + "を"@ + decimal(price as nat) + "Gで出品しました。"@
}

/// `k` is the first slot holding card `id`.
pub open spec fn is_first_card(cards: Seq<u32>, id: u32, k: int) -> bool {
    0 <= k < cards.len() && cards[k] == id && forall|j: int| 0 <= j < k ==> cards[j] != id
}

/// `inv` without any stack of item `id`, in order.
pub open spec fn without_item(inv: Seq<(Seq<char>, u32)>, id: Seq<char>) -> Seq<(Seq<char>, u32)>
    decreases inv.len(),
{
    if inv.len() == 0 {
        inv
    } else {
        let rest = without_item(inv.drop_last(), id);
        if inv.last().0 == id {
            rest
        } else {
            rest.push(inv.last())
        }
    }
}

/// Player `p` after handing over `item` for a listing, or the line logged when they lack it:
/// a card leaves its first slot; an item is taken from its first stack (all stacks of the
/// item go once that one is empty); a resource is taken when there is a positive amount of it.
pub open spec fn take_for_listing(p: PlayerView, item: MarketItemView) -> Result<PlayerView, Seq<char>> {
    match item {
        MarketItemView::Card { card_id } => {
            if exists|k: int| is_first_card(p.owned_cards, card_id, k) {
                let k = choose|k: int| is_first_card(p.owned_cards, card_id, k);
                Ok(PlayerView { owned_cards: p.owned_cards.remove(k), ..p })
            } else {
                Err(no_card_message())
            }
        },
        MarketItemView::Item { item_id, count } => match first_stack(p.inventory, item_id) {
            Some(k) => if p.inventory[k].1 >= count {
                let left = (p.inventory[k].1 - count) as u32;
                Ok(
                    PlayerView {
                        inventory: if left == 0 {
                            without_item(p.inventory, item_id)
                        } else {
                            p.inventory.update(k, (item_id, left))
                        },
                        ..p
                    },
                )
            } else {
                Err(no_item_message())
            },
            None => Err(no_item_message()),
        },
        MarketItemView::Resource { resource_type, amount } => match resource_of(p.resources, resource_type) {
            Some(have) => if have >= amount && amount != 0 {
                Ok(PlayerView { resources: set_resource(p.resources, resource_type, (have - amount) as u64), ..p })
            } else {
                Err(no_resource_message())
            },
            None => Err(no_resource_message()),
        },
    }
}

/// The id of a listing made at `now` when `n` listings exist: "listing_<now>_<n>".
pub open spec fn listing_id_spec(now: u64, n: nat) -> Seq<char> {
    "listing_"@ + decimal(now as nat) + "_"@ + decimal(n)
}

/// Player `pid` lists `item` for `price` gold at `now`. A zero price is refused; an unknown
/// player changes nothing; the goods are taken (see [`take_for_listing`]) and a listing is
/// appended. Gives the state after it and the lines logged.
pub open spec fn list_result(
    s: GameStateView,
    ps: Seq<PlayerData>,
    pid: Seq<char>,
    item: MarketItemView,
    price: u64,
    item_name: Seq<char>,
    now: u64,
) -> (GameStateView, Seq<Seq<char>>) {
    if price == 0 {
        (s, seq![price_zero_message()])
    } else if !has_player(ps, pid) {
        (s, seq![])
    } else {
        let pi = first_player_index(ps, pid);
        match take_for_listing(s.players[pi], item) {
            Err(m) => (s, seq![m]),
            Ok(p2) => (
                GameStateView {
                    players: s.players.update(pi, p2),
                    market_listings: s.market_listings.push(
                        MarketListingView {
                            listing_id: listing_id_spec(now, s.market_listings.len()),
                            seller_id: pid,
                            item,
                            price,
                            listed_at: now,
                        },
                    ),
                    ..s
                },
                seq![listed_message(item_description(item, item_name), price)],
            ),
        }
    }
}

/// The amount of resource `t` in `r` (see [`resource_of`]).
fn resource_amount(r: &Resources, t: &str) -> (a: Option<u64>)
    ensures
        a == resource_of(*r, t@),
{
    if str_eq(t, "food") {
        Some(r.food)
    } else if str_eq(t, "wood") {
        Some(r.wood)
    } else if str_eq(t, "stone") {
        Some(r.stone)
    } else if str_eq(t, "iron") {
        Some(r.iron)
    } else {
        None
    }
}

/// `r` with resource `t` set to `v` (see [`set_resource`]).
fn with_resource(r: Resources, t: &str, v: u64) -> (out: Resources)
    ensures
        out == set_resource(r, t@, v),
{
    let mut out = r;
    if str_eq(t, "food") {
        out.food = v;
    } else if str_eq(t, "wood") {
        out.wood = v;
    } else if str_eq(t, "stone") {
        out.stone = v;
    } else if str_eq(t, "iron") {
        out.iron = v;
    }
    out
}

/// Appends the display name of resource `t` (see [`resource_label`]).
fn push_resource_label(out: &mut Vec<char>, t: &str)
    ensures
        final(out)@ == old(out)@ + resource_label(t@),
{
    if str_eq(t, "food") {
        push_str_chars(out, "食料");
    } else if str_eq(t, "wood") {
        push_str_chars(out, "木材");
    } else if str_eq(t, "stone") {
        push_str_chars(out, "石材");
    } else if str_eq(t, "iron") {
        push_str_chars(out, "鉄");
    } else {
        push_str_chars(out, "不明");
    }
}

/// Appends the description of `item` (see [`item_description`]).
fn push_description(out: &mut Vec<char>, item: &MarketItemType, item_name: &str)
    ensures
        final(out)@ == old(out)@ + item_description(item@, item_name@),
{
    match item {
        MarketItemType::Card { card_id } => match get_card(*card_id) {
            Some(c) => push_str_chars(out, c.name),
            None => {
                push_str_chars(out, "カード#");
                push_decimal(*card_id as u64, out);
            },
        },
        MarketItemType::Item { item_id, count } => {
            push_str_chars(out, item_name);
            push_str_chars(out, "x");
            push_decimal(*count as u64, out);
        },
        MarketItemType::Resource { resource_type, amount } => {
            push_resource_label(out, resource_type.as_str());
            push_str_chars(out, "x");
            push_decimal(*amount, out);
        },
    }
    proof {
        assert(final(out)@ =~= old(out)@ + item_description(item@, item_name@));
    }
}

/// The first slot holding card `id`.
fn first_card(cards: &Vec<u32>, id: u32) -> (r: Option<usize>)
    ensures
        r matches Some(k) ==> is_first_card(cards@, id, k as int),
        r is None ==> !(exists|k: int| is_first_card(cards@, id, k)),
{
    let mut i: usize = 0;
    while i < cards.len()
        invariant
            i <= cards@.len(),
            forall|j: int| 0 <= j < i ==> cards@[j] != id,
        decreases cards@.len() - i,
    {
        if cards[i] == id {
            return Some(i);
        }
        i += 1;
    }
    proof {
        if exists|k: int| is_first_card(cards@, id, k) {
            let k = choose|k: int| is_first_card(cards@, id, k);
            assert(cards@[k] != id);
        }
    }
    None
}

/// The stacks of `inv` other than those of item `id`.
fn drop_item(inv: &Vec<InventoryItem>, id: &str) -> (r: Vec<InventoryItem>)
    ensures
        stacks(r@) == without_item(stacks(inv@), id@),
{
    let ghost sv = stacks(inv@);
    let mut out: Vec<InventoryItem> = Vec::new();
    let mut i: usize = 0;
    while i < inv.len()
        invariant
            i <= inv@.len(),
            sv == stacks(inv@),
            stacks(out@) == without_item(sv.take(i as int), id@),
        decreases inv@.len() - i,
    {
        let ghost before = out@;
        proof {
            assert(sv.take(i + 1).drop_last() =~= sv.take(i as int));
            assert(sv.take(i + 1).last() == inv@[i as int]@);
        }
        if !str_eq(inv[i].item_id.as_str(), id) {
            out.push(inv[i].clone());
            proof {
                assert(stacks(out@) =~= stacks(before).push(inv@[i as int]@));
            }
        }
        i += 1;
    }
    proof {
        assert(sv.take(inv@.len() as int) =~= sv);
    }
    out
}

/// The listing id "listing_<now>_<n>".
fn listing_id(now: u64, n: usize) -> (s: String)
    ensures
        s@ == listing_id_spec(now, n as nat),
{
    let mut m: Vec<char> = Vec::new();
    push_str_chars(&mut m, "listing_");
    push_decimal(now, &mut m);
    push_str_chars(&mut m, "_");
    push_decimal(n as u64, &mut m);
    string_from_chars(&m)
}

/// Player `player_id` lists `item` for `price` gold at `now` (see [`list_result`]);
/// `item_name` is the display name used when the goods are an item. Each line is logged at
/// `now`.
pub fn apply_list_on_flea_market(
    state: &mut GameState,
    log: &mut Vec<String>,
    player_id: &str,
    item: &MarketItemType,
    price: u64,
    item_name: &str,
    now: u64,
)
    ensures
        final(state)@ == list_result(old(state)@, old(state).players@, player_id@, item@, price, item_name@, now).0,
        views(final(log)@) == log_lines(
            views(old(log)@),
            now,
            list_result(old(state)@, old(state).players@, player_id@, item@, price, item_name@, now).1,
        ),
{
    let ghost s0 = state@;
    let ghost ps = state.players@;
    proof {
        reveal_with_fuel(log_lines, 2);
        assert(seq![price_zero_message()].drop_last() =~= Seq::<Seq<char>>::empty());
        assert(seq![no_card_message()].drop_last() =~= Seq::<Seq<char>>::empty());
        assert(seq![no_item_message()].drop_last() =~= Seq::<Seq<char>>::empty());
        assert(seq![no_resource_message()].drop_last() =~= Seq::<Seq<char>>::empty());
    }
    if price == 0 {
        push_log_at(log, "価格は1以上に設定してください。", now);
        return;
    }
    let pi = match find_player(&state.players, player_id) {
        Some(i) => i,
        None => {
            return;
        },
    };
    proof {
        lemma_first_player_index(ps, player_id@, pi as int);
        assert(s0.players[pi as int] == ps[pi as int]@);
    }
    let mut p = state.players[pi].dup();
    let ghost pv = p@;
    proof {
        assert(stacks(p.inventory@) =~= pv.inventory);
    }
    match item {
        MarketItemType::Card { card_id } => match first_card(&p.owned_cards, *card_id) {
            Some(k) => {
                p.owned_cards.remove(k);
            },
            None => {
                push_log_at(log, "出品するカードを所持していません。", now);
                return;
            },
        },
        MarketItemType::Item { item_id, count } => {
            let k = match find_stack(&p.inventory, item_id.as_str()) {
                Some(k) => k,
                None => {
                    push_log_at(log, "出品するアイテムが足りません。", now);
                    return;
                },
            };
            if p.inventory[k].count < *count {
                push_log_at(log, "出品するアイテムが足りません。", now);
                return;
            }
            let left = p.inventory[k].count - *count;
            if left == 0 {
                p.inventory = drop_item(&p.inventory, item_id.as_str());
            } else {
                let ghost inv0 = p.inventory@;
                p.inventory.set(k, InventoryItem { item_id: item_id.clone(), count: left });
                proof {
                    assert(stacks(p.inventory@) =~= stacks(inv0).update(k as int, (item_id@, left)));
                }
            }
        },
        MarketItemType::Resource { resource_type, amount } => {
            let have = match resource_amount(&p.resources, resource_type.as_str()) {
                Some(h) => h,
                None => {
                    push_log_at(log, "出品する資源が足りません。", now);
                    return;
                },
            };
            if have < *amount || *amount == 0 {
                push_log_at(log, "出品する資源が足りません。", now);
                return;
            }
            p.resources = with_resource(p.resources, resource_type.as_str(), have - *amount);
        },
    }
    let ghost p1 = p@;
    proof {
        assert(take_for_listing(pv, item@) == Ok::<PlayerView, Seq<char>>(p1)) by {
            assert(views(p.inventory@) =~= stacks(p.inventory@));
            match item@ {
                MarketItemView::Card { card_id } => {
                    let k = choose|k: int| is_first_card(pv.owned_cards, card_id, k);
                    assert(p1 =~= PlayerView { owned_cards: pv.owned_cards.remove(k), ..pv });
                },
                _ => {},
            }
        }
    }
    state.players.set(pi, p);
    let n = state.market_listings.len();
    let lid = listing_id(now, n);
    let listing = MarketListing { listing_id: lid, seller_id: player_id.to_owned(), item: item.dup(), price, listed_at: now };
    let ghost ls0 = state.market_listings@;
    state.market_listings.push(listing);
    proof {
        assert(views(state.players@) =~= s0.players.update(pi as int, p1));
        assert(views(state.market_listings@) =~= views(ls0).push(listing@));
    }
    let mut m: Vec<char> = Vec::new();
    push_str_chars(&mut m, "フリマに");
    push_description(&mut m, item, item_name);
    push_str_chars(&mut m, "を");
    push_decimal(price, &mut m);
    push_str_chars(&mut m, "Gで出品しました。");
    let msg = string_from_chars(&m);
    proof {
        assert(msg@ =~= listed_message(item_description(item@, item_name@), price));
        assert(seq![listed_message(item_description(item@, item_name@), price)].drop_last() =~= Seq::<Seq<char>>::empty());
    }
    push_log_at(log, msg.as_str(), now);
}

/// Player `p` receiving `item`: a card in a new slot at the end, an item onto its first stack
/// (or as a new stack at the end), a known resource added (an unknown one is lost).
pub open spec fn receive(p: PlayerView, item: MarketItemView) -> PlayerView {
    match item {
        MarketItemView::Card { card_id } => PlayerView { owned_cards: p.owned_cards.push(card_id), ..p },
        MarketItemView::Item { item_id, count } => PlayerView { inventory: add_stack(p.inventory, item_id, count), ..p },
        MarketItemView::Resource { resource_type, amount } => match resource_of(p.resources, resource_type) {
            Some(have) => PlayerView { resources: set_resource(p.resources, resource_type, (have + amount) as u64), ..p },
            None => p,
        },
    }
}

/// Receiving `item` keeps `p`'s counters in range.
pub open spec fn can_receive(p: PlayerView, item: MarketItemView) -> bool {
    match item {
        MarketItemView::Card { .. } => true,
        MarketItemView::Item { item_id, count } => match first_stack(p.inventory, item_id) {
            Some(k) => p.inventory[k].1 + count <= u32::MAX,
            None => true,
        },
        MarketItemView::Resource { resource_type, amount } => match resource_of(p.resources, resource_type) {
            Some(have) => have + amount <= u64::MAX,
            None => true,
        },
    }
}

/// `i` is the first listing with id `id`.
pub open spec fn is_first_listing(ls: Seq<MarketListingView>, id: Seq<char>, i: int) -> bool {
    0 <= i < ls.len() && ls[i].listing_id == id && forall|j: int| 0 <= j < i ==> ls[j].listing_id != id
}

/// The first listing with id `id`, if any.
pub open spec fn first_listing(ls: Seq<MarketListingView>, id: Seq<char>) -> Option<int> {
    if exists|i: int| is_first_listing(ls, id, i) {
        Some(choose|i: int| is_first_listing(ls, id, i))
    } else {
        None
    }
}

pub open spec fn listing_missing_message() -> Seq<char> {
    "出品が見つかりません。"@
}

pub open spec fn own_listing_message() -> Seq<char> {
    "自分の出品は購入できません。"@
}

pub open spec fn no_gold_message() -> Seq<char> {
    "ゴールドが足りません。"@
}

pub open spec fn bought_message(desc: Seq<char>, price: u64, fee: int) -> Seq<char> {
    "フリマで"@ + desc + "を"@ + decimal(price as nat) + "Gで購入（手数料"@ + decimal(fee as nat) + "G）"@
}

pub open spec fn not_own_message() -> Seq<char> {
    "自分の出品のみ取り消せます。"@
}

pub open spec fn cancelled_message() -> Seq<char> {
    "出品を取り消しました。"@
}

/// The fee on `price` for buyer `b` at `now` (see [`market_fee_spec`]).
pub open spec fn buyer_fee(b: PlayerView, price: u64, now: u64) -> int {
    market_fee_spec(price, facility_bonuses_spec(b.facilities, now).market_fee_reduction)
}

/// `p` with `delta` more gold (negative for less).
pub open spec fn gold_changed(p: PlayerView, delta: int) -> PlayerView {
    PlayerView { resources: Resources { gold: (p.resources.gold + delta) as u64, ..p.resources }, ..p }
}

/// Player `pid` buys listing `id` at `now`. Refused when there is no such listing, when it is
/// the buyer's own, or when the buyer lacks the gold; an unknown buyer changes nothing. Else
/// the buyer pays the price and receives the goods (see [`receive`]), the seller (if known)
/// gets the price less the fee the buyer's facilities set (see [`buyer_fee`]), and the
/// listing goes. Gives the state after it and the lines logged.
pub open spec fn buy_result(
    s: GameStateView,
    ps: Seq<PlayerData>,
    pid: Seq<char>,
    id: Seq<char>,
    item_name: Seq<char>,
    now: u64,
) -> (GameStateView, Seq<Seq<char>>) {
    match first_listing(s.market_listings, id) {
        None => (s, seq![listing_missing_message()]),
        Some(li) => {
            let l = s.market_listings[li];
            if l.seller_id == pid {
                (s, seq![own_listing_message()])
            } else if !has_player(ps, pid) {
                (s, seq![])
            } else {
                let bi = first_player_index(ps, pid);
                let b = s.players[bi];
                if b.resources.gold < l.price {
                    (s, seq![no_gold_message()])
                } else {
                    let fee = buyer_fee(b, l.price, now);
                    let players1 = s.players.update(bi, receive(gold_changed(b, -l.price), l.item));
                    let players2 = if has_player(ps, l.seller_id) {
                        let si = first_player_index(ps, l.seller_id);
                        players1.update(si, gold_changed(players1[si], l.price - fee))
                    } else {
                        players1
                    };
                    (
                        GameStateView { players: players2, market_listings: s.market_listings.remove(li), ..s },
                        seq![bought_message(item_description(l.item, item_name), l.price, fee)],
                    )
                }
            }
        },
    }
}

/// A purchase stays within the counters' range: the buyer can take the goods and the seller
/// the proceeds.
pub open spec fn buy_fits(s: GameStateView, ps: Seq<PlayerData>, pid: Seq<char>, id: Seq<char>, now: u64) -> bool {
    match first_listing(s.market_listings, id) {
        None => true,
        Some(li) => {
            let l = s.market_listings[li];
            let bi = first_player_index(ps, pid);
            (l.seller_id != pid && has_player(ps, pid) && s.players[bi].resources.gold >= l.price) ==> {
                &&& can_receive(s.players[bi], l.item)
                &&& has_player(ps, l.seller_id) ==> s.players[first_player_index(ps, l.seller_id)].resources.gold + l.price
                    - buyer_fee(s.players[bi], l.price, now) <= u64::MAX
            }
        },
    }
}

/// Player `pid` takes back listing `id`. Refused when there is no such listing or it is not
/// theirs; an unknown player changes nothing. Else the goods come back (see [`receive`]) and
/// the listing goes. Gives the state after it and the lines logged.
pub open spec fn cancel_result(s: GameStateView, ps: Seq<PlayerData>, pid: Seq<char>, id: Seq<char>) -> (GameStateView, Seq<Seq<char>>) {
    match first_listing(s.market_listings, id) {
        None => (s, seq![listing_missing_message()]),
        Some(li) => {
            let l = s.market_listings[li];
            if l.seller_id != pid {
                (s, seq![not_own_message()])
            } else if !has_player(ps, pid) {
                (s, seq![])
            } else {
                let pi = first_player_index(ps, pid);
                (
                    GameStateView {
                        players: s.players.update(pi, receive(s.players[pi], l.item)),
                        market_listings: s.market_listings.remove(li),
                        ..s
                    },
                    seq![cancelled_message()],
                )
            }
        },
    }
}

/// Taking back a listing keeps the owner's counters in range.
pub open spec fn cancel_fits(s: GameStateView, ps: Seq<PlayerData>, pid: Seq<char>, id: Seq<char>) -> bool {
    match first_listing(s.market_listings, id) {
        None => true,
        Some(li) => has_player(ps, pid) && s.market_listings[li].seller_id == pid ==> can_receive(
            s.players[first_player_index(ps, pid)],
            s.market_listings[li].item,
        ),
    }
}

/// The first listing with id `id`.
fn find_listing(ls: &Vec<MarketListing>, id: &str) -> (r: Option<usize>)
    ensures
        r matches Some(i) ==> is_first_listing(views(ls@), id@, i as int) && first_listing(views(ls@), id@) == Some(i as int),
        r is None ==> first_listing(views(ls@), id@) is None,
{
    let ghost lv = views(ls@);
    let mut i: usize = 0;
    while i < ls.len()
        invariant
            i <= ls@.len(),
            lv == views(ls@),
            forall|j: int| 0 <= j < i ==> (#[trigger] lv[j]).listing_id != id@,
        decreases ls@.len() - i,
    {
        if str_eq(ls[i].listing_id.as_str(), id) {
            proof {
                assert(is_first_listing(lv, id@, i as int));
                let k = choose|k: int| is_first_listing(lv, id@, k);
                assert(k == i as int) by {
                    if k < i {
                        assert(lv[k].listing_id != id@);
                    } else if k > i {
                        assert(lv[i as int].listing_id != id@);
                    }
                }
            }
            return Some(i);
        }
        i += 1;
    }
    proof {
        if exists|k: int| is_first_listing(lv, id@, k) {
            let k = choose|k: int| is_first_listing(lv, id@, k);
            assert(lv[k].listing_id != id@);
        }
    }
    None
}

/// Player `p` receives `item` (see [`receive`]).
fn receive_goods(p: &mut PlayerData, item: &MarketItemType)
    requires
        can_receive(old(p)@, item@),
    ensures
        final(p)@ == receive(old(p)@, item@),
{
    let ghost pv = p@;
    proof {
        assert(stacks(p.inventory@) =~= pv.inventory);
    }
    match item {
        MarketItemType::Card { card_id } => {
            p.owned_cards.push(*card_id);
        },
        MarketItemType::Item { item_id, count } => {
            let ghost inv0 = p.inventory@;
            match find_stack(&p.inventory, item_id.as_str()) {
                Some(k) => {
                    let merged = InventoryItem { item_id: item_id.clone(), count: p.inventory[k].count + *count };
                    p.inventory.set(k, merged);
                    proof {
                        assert(stacks(p.inventory@) =~= add_stack(stacks(inv0), item_id@, *count));
                    }
                },
                None => {
                    p.inventory.push(InventoryItem { item_id: item_id.clone(), count: *count });
                    proof {
                        assert(stacks(p.inventory@) =~= add_stack(stacks(inv0), item_id@, *count));
                    }
                },
            }
            proof {
                assert(views(p.inventory@) =~= stacks(p.inventory@));
            }
        },
        MarketItemType::Resource { resource_type, amount } => {
            match resource_amount(&p.resources, resource_type.as_str()) {
                Some(have) => {
                    p.resources = with_resource(p.resources, resource_type.as_str(), have + *amount);
                },
                None => {},
            }
        },
    }
}

/// The fee never exceeds the price.
proof fn lemma_fee_within_price(price: u64, reduction: u32)
    ensures
        0 <= market_fee_spec(price, reduction) <= price,
{
    let r: int = if reduction > 10 { 10 } else { reduction as int };
    let x: int = price * (10 - r);
    assert(0 <= x <= price * 10) by (nonlinear_arith)
        requires
            0 <= r <= 10,
            price >= 0,
            x == price * (10 - r),
    ;
    assert(x / 100 <= price) by (nonlinear_arith)
        requires
            0 <= x <= price * 10,
            price >= 0,
    ;
}

/// Player `player_id` buys listing `listing_id` at `now` (see [`buy_result`]); `item_name` is
/// the display name used when the goods are an item. Each line is logged at `now`.
pub fn apply_buy_from_flea_market(
    state: &mut GameState,
    log: &mut Vec<String>,
    player_id: &str,
    listing_id: &str,
    item_name: &str,
    now: u64,
)
    requires
        buy_fits(old(state)@, old(state).players@, player_id@, listing_id@, now),
        forall|i: int| 0 <= i < old(state).players@.len() ==> bonuses_fit(facility_views((#[trigger] old(state).players@[i]).facilities@), now),
    ensures
        final(state)@ == buy_result(old(state)@, old(state).players@, player_id@, listing_id@, item_name@, now).0,
        views(final(log)@) == log_lines(
            views(old(log)@),
            now,
            buy_result(old(state)@, old(state).players@, player_id@, listing_id@, item_name@, now).1,
        ),
{
    let ghost s0 = state@;
    let ghost ps = state.players@;
    proof {
        reveal_with_fuel(log_lines, 2);
        assert(seq![listing_missing_message()].drop_last() =~= Seq::<Seq<char>>::empty());
        assert(seq![own_listing_message()].drop_last() =~= Seq::<Seq<char>>::empty());
        assert(seq![no_gold_message()].drop_last() =~= Seq::<Seq<char>>::empty());
    }
    let li = match find_listing(&state.market_listings, listing_id) {
        Some(i) => i,
        None => {
            push_log_at(log, "出品が見つかりません。", now);
            return;
        },
    };
    proof {
        assert(s0.market_listings[li as int] == state.market_listings@[li as int]@);
    }
    if str_eq(state.market_listings[li].seller_id.as_str(), player_id) {
        push_log_at(log, "自分の出品は購入できません。", now);
        return;
    }
    let bi = match find_player(&state.players, player_id) {
        Some(i) => i,
        None => {
            return;
        },
    };
    proof {
        lemma_first_player_index(ps, player_id@, bi as int);
        assert(s0.players[bi as int] == ps[bi as int]@);
    }
    let price = state.market_listings[li].price;
    if state.players[bi].resources.gold < price {
        push_log_at(log, "ゴールドが足りません。", now);
        return;
    }
    let item = state.market_listings[li].item.dup();
    let seller_id = state.market_listings[li].seller_id.clone();
    let mut b = state.players[bi].dup();
    let ghost bv = b@;
    b.resources.gold = b.resources.gold - price;
    proof {
        assert(b@ == gold_changed(bv, -price));
    }
    receive_goods(&mut b, &item);
    let fee = calculate_market_fee_at(price, b.facilities.as_slice(), now);
    proof {
        assert(facility_views(b.facilities@) =~= bv.facilities);
        lemma_fee_within_price(price, facility_bonuses_spec(bv.facilities, now).market_fee_reduction);
        assert(fee == buyer_fee(bv, price, now));
    }
    let proceeds = price - fee;
    let ghost b1 = b@;
    state.players.set(bi, b);
    proof {
        assert(views(state.players@) =~= s0.players.update(bi as int, b1));
        assert forall|j: int| 0 <= j < ps.len() implies (#[trigger] state.players@[j]).player_id@ == ps[j].player_id@ by {
            if j != bi {
                assert(state.players@[j] == ps[j]);
            }
        }
    }
    let ghost players1 = views(state.players@);
    let ghost expected = if has_player(ps, seller_id@) {
        let si = first_player_index(ps, seller_id@);
        players1.update(si, gold_changed(players1[si], price - fee))
    } else {
        players1
    };
    match find_player(&state.players, seller_id.as_str()) {
        Some(si) => {
            proof {
                assert forall|j: int| 0 <= j < si implies ps[j].player_id@ != seller_id@ by {
                    assert(state.players@[j].player_id@ != seller_id@);
                }
                lemma_first_player_index(ps, seller_id@, si as int);
                assert(si != bi);
                assert(players1[si as int] == s0.players[si as int]);
                assert(first_listing(s0.market_listings, listing_id@) == Some(li as int));
                assert(crate::model::is_player_index(ps, seller_id@, si as int));
                assert(has_player(ps, seller_id@));
                assert(s0.market_listings[li as int].seller_id == seller_id@);
                assert(s0.players[si as int].resources.gold + price - fee <= u64::MAX);
            }
            let mut sp = state.players[si].dup();
            let ghost spv = sp@;
            sp.resources.gold = sp.resources.gold + proceeds;
            proof {
                assert(sp@ == gold_changed(spv, price - fee));
            }
            let ghost sp1 = sp@;
            state.players.set(si, sp);
            proof {
                assert(views(state.players@) =~= players1.update(si as int, sp1));
                assert(views(state.players@) == expected);
            }
        },
        None => {
            proof {
                assert(!has_player(ps, seller_id@)) by {
                    if has_player(ps, seller_id@) {
                        let k = choose|k: int| crate::model::is_player_index(ps, seller_id@, k);
                        assert(state.players@[k].player_id@ == seller_id@);
                        assert(crate::model::is_player_index(state.players@, seller_id@, k));
                    }
                }
                assert(views(state.players@) == expected);
            }
        },
    }
    let mut m: Vec<char> = Vec::new();
    push_str_chars(&mut m, "フリマで");
    push_description(&mut m, &item, item_name);
    push_str_chars(&mut m, "を");
    push_decimal(price, &mut m);
    push_str_chars(&mut m, "Gで購入（手数料");
    push_decimal(fee, &mut m);
    push_str_chars(&mut m, "G）");
    let msg = string_from_chars(&m);
    let ghost ls0 = state.market_listings@;
    state.market_listings.remove(li);
    proof {
        assert(views(state.market_listings@) =~= views(ls0).remove(li as int));
        assert(msg@ =~= bought_message(item_description(item@, item_name@), price, fee as int));
        assert(seq![bought_message(item_description(item@, item_name@), price, fee as int)].drop_last() =~= Seq::<Seq<char>>::empty());
    }
    push_log_at(log, msg.as_str(), now);
}

/// Player `player_id` takes back listing `listing_id` (see [`cancel_result`]); each line is
/// logged at `now`.
pub fn apply_cancel_flea_market_listing(state: &mut GameState, log: &mut Vec<String>, player_id: &str, listing_id: &str, now: u64)
    requires
        cancel_fits(old(state)@, old(state).players@, player_id@, listing_id@),
    ensures
        final(state)@ == cancel_result(old(state)@, old(state).players@, player_id@, listing_id@).0,
        views(final(log)@) == log_lines(views(old(log)@), now, cancel_result(old(state)@, old(state).players@, player_id@, listing_id@).1),
{
    let ghost s0 = state@;
    let ghost ps = state.players@;
    proof {
        reveal_with_fuel(log_lines, 2);
        assert(seq![listing_missing_message()].drop_last() =~= Seq::<Seq<char>>::empty());
        assert(seq![not_own_message()].drop_last() =~= Seq::<Seq<char>>::empty());
        assert(seq![cancelled_message()].drop_last() =~= Seq::<Seq<char>>::empty());
    }
    let li = match find_listing(&state.market_listings, listing_id) {
        Some(i) => i,
        None => {
            push_log_at(log, "出品が見つかりません。", now);
            return;
        },
    };
    proof {
        assert(s0.market_listings[li as int] == state.market_listings@[li as int]@);
    }
    if !str_eq(state.market_listings[li].seller_id.as_str(), player_id) {
        push_log_at(log, "自分の出品のみ取り消せます。", now);
        return;
    }
    let pi = match find_player(&state.players, player_id) {
        Some(i) => i,
        None => {
            return;
        },
    };
    proof {
        lemma_first_player_index(ps, player_id@, pi as int);
        assert(s0.players[pi as int] == ps[pi as int]@);
    }
    let ghost ls0 = state.market_listings@;
    let listing = state.market_listings.remove(li);
    proof {
        assert(views(state.market_listings@) =~= views(ls0).remove(li as int));
        assert(listing@ == s0.market_listings[li as int]);
    }
    let mut p = state.players[pi].dup();
    receive_goods(&mut p, &listing.item);
    let ghost p1 = p@;
    state.players.set(pi, p);
    proof {
        assert(views(state.players@) =~= s0.players.update(pi as int, p1));
    }
    push_log_at(log, "出品を取り消しました。", now);
}

/// Listing a resource and then taking the listing back gives back the state as it was (the
/// log aside): the seller has their resources again and the market its listings. This holds
/// when the listing is accepted (a positive price, and a positive amount the seller has) and
/// no listing already bears the new listing's id; `ps1` are the players after the listing.
pub proof fn lemma_list_then_cancel_resource(
    s: GameStateView,
    ps: Seq<PlayerData>,
    ps1: Seq<PlayerData>,
    pid: Seq<char>,
    t: Seq<char>,
    amount: u64,
    price: u64,
    item_name: Seq<char>,
    now: u64,
)
    requires
        views(ps) == s.players,
        views(ps1) == list_result(s, ps, pid, MarketItemView::Resource { resource_type: t, amount }, price, item_name, now).0.players,
        price > 0,
        amount > 0,
        has_player(ps, pid),
        resource_of(s.players[first_player_index(ps, pid)].resources, t) matches Some(have) && have >= amount,
        forall|j: int|
            0 <= j < s.market_listings.len() ==> (#[trigger] s.market_listings[j]).listing_id != listing_id_spec(
                now,
                s.market_listings.len(),
            ),
    ensures
        cancel_result(
            list_result(s, ps, pid, MarketItemView::Resource { resource_type: t, amount }, price, item_name, now).0,
            ps1,
            pid,
            listing_id_spec(now, s.market_listings.len()),
        ).0 == s,
{
    let item = MarketItemView::Resource { resource_type: t, amount };
    lemma_first_player_exists(ps, pid);
    let pi = first_player_index(ps, pid);
    let p = s.players[pi];
    let have = match resource_of(p.resources, t) {
        Some(h) => h,
        None => 0,
    };
    let p2 = PlayerView { resources: set_resource(p.resources, t, (have - amount) as u64), ..p };
    assert(take_for_listing(p, item) == Ok::<PlayerView, Seq<char>>(p2));
    let n = s.market_listings.len();
    let id = listing_id_spec(now, n);
    let listing = MarketListingView { listing_id: id, seller_id: pid, item, price, listed_at: now };
    let s1 = list_result(s, ps, pid, item, price, item_name, now).0;
    assert(s1 == GameStateView {
        players: s.players.update(pi, p2),
        market_listings: s.market_listings.push(listing),
        ..s
    });
    assert(is_first_listing(s1.market_listings, id, n as int)) by {
        assert forall|j: int| 0 <= j < n implies s1.market_listings[j].listing_id != id by {
            assert(s1.market_listings[j] == s.market_listings[j]);
        }
    }
    let k = choose|k: int| is_first_listing(s1.market_listings, id, k);
    assert(k == n) by {
        if k < n {
            assert(s1.market_listings[k] == s.market_listings[k]);
        }
    }
    assert(ps1.len() == ps.len()) by {
        assert(views(ps1).len() == ps1.len());
        assert(views(ps).len() == ps.len());
    }
    assert forall|j: int| 0 <= j < ps.len() implies (#[trigger] ps[j]).player_id@ == ps1[j].player_id@ by {
        assert(views(ps)[j] == ps[j]@);
        assert(views(ps1)[j] == ps1[j]@);
    }
    lemma_same_ids_first_player(ps, ps1, pid);
    assert(receive(p2, item) == p);
    assert(s1.players.update(pi, receive(p2, item)) =~= s.players);
    assert(s1.market_listings.remove(n as int) =~= s.market_listings);
}

/// A purchase takes the price from the buyer and gives it, less the fee, to the seller: the
/// two together have exactly the fee less gold than before. This holds for a purchase that
/// goes through (a listing that is not the buyer's own, a buyer with the gold, a known seller)
/// and stays in range (see [`buy_fits`]).
pub proof fn lemma_buy_moves_gold(
    s: GameStateView,
    ps: Seq<PlayerData>,
    pid: Seq<char>,
    id: Seq<char>,
    item_name: Seq<char>,
    now: u64,
    li: int,
)
    requires
        views(ps) == s.players,
        first_listing(s.market_listings, id) == Some(li),
        s.market_listings[li].seller_id != pid,
        has_player(ps, pid),
        has_player(ps, s.market_listings[li].seller_id),
        s.players[first_player_index(ps, pid)].resources.gold >= s.market_listings[li].price,
        buy_fits(s, ps, pid, id, now),
    ensures
        ({
            let l = s.market_listings[li];
            let bi = first_player_index(ps, pid);
            let si = first_player_index(ps, l.seller_id);
            let after = buy_result(s, ps, pid, id, item_name, now).0.players;
            after[bi].resources.gold + after[si].resources.gold == s.players[bi].resources.gold
                + s.players[si].resources.gold - buyer_fee(s.players[bi], l.price, now)
        }),
{
    let l = s.market_listings[li];
    lemma_first_player_exists(ps, pid);
    lemma_first_player_exists(ps, l.seller_id);
    let bi = first_player_index(ps, pid);
    let si = first_player_index(ps, l.seller_id);
    assert(si != bi);
    let b = s.players[bi];
    let fee = buyer_fee(b, l.price, now);
    lemma_fee_within_price(l.price, facility_bonuses_spec(b.facilities, now).market_fee_reduction);
    assert(receive(gold_changed(b, -l.price), l.item).resources.gold == b.resources.gold - l.price);
}

} // verus!
