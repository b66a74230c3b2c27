//! Items: the inventory, enemy drop tables and what a battle drops.
use vstd::prelude::*;
use crate::cards::{is_abc, trim_abc, trimmed_abc_len};
use crate::text::{chars_eq, chars_of, str_eq};
use crate::rng::{random_below_u32, random_u32_in};

verus! {

/// One stack of an item in an inventory.
#[derive(Debug)]
pub struct InventoryItem {
    pub item_id: String,
    pub count: u32,
}

impl View for InventoryItem {
    type V = (Seq<char>, u32);

    open spec fn view(&self) -> (Seq<char>, u32) {
        (self.item_id@, self.count)
    }
}

impl Clone for InventoryItem {
    fn clone(&self) -> (r: Self)
        ensures
            r@ == self@,
    {
        InventoryItem { item_id: self.item_id.clone(), count: self.count }
    }
}

/// An inventory by its stacks: item id and count.
pub open spec fn stacks(v: Seq<InventoryItem>) -> Seq<(Seq<char>, u32)> {
    v.map_values(|x: InventoryItem| x@)
}

/// How many of item `id` the stacks hold in all.
pub open spec fn count_of(inv: Seq<(Seq<char>, u32)>, id: Seq<char>) -> int
    decreases inv.len(),
{
    if inv.len() == 0 {
        0
    } else {
        count_of(inv.drop_last(), id) + if inv.last().0 == id {
            inv.last().1 as int
        } else {
            0
        }
    }
}

/// No two stacks hold the same item.
pub open spec fn ids_unique(inv: Seq<(Seq<char>, u32)>) -> bool {
    forall|i: int, j: int| 0 <= i < j < inv.len() ==> inv[i].0 != inv[j].0
}

/// `i` is the first stack of item `id`.
pub open spec fn is_first_stack(inv: Seq<(Seq<char>, u32)>, id: Seq<char>, i: int) -> bool {
    0 <= i < inv.len() && inv[i].0 == id && forall|j: int| 0 <= j < i ==> inv[j].0 != id
}

/// The first stack of item `id`, if there is one.
pub open spec fn first_stack(inv: Seq<(Seq<char>, u32)>, id: Seq<char>) -> Option<int> {
    if exists|i: int| is_first_stack(inv, id, i) {
        Some(choose|i: int| is_first_stack(inv, id, i))
    } else {
        None
    }
}

/// Adding `count` of item `id`: the first stack of it grows, or a new stack goes at the end.
pub open spec fn add_stack(inv: Seq<(Seq<char>, u32)>, id: Seq<char>, count: u32) -> Seq<(Seq<char>, u32)> {
    match first_stack(inv, id) {
        Some(i) => inv.update(i, (id, (inv[i].1 + count) as u32)),
        None => inv.push((id, count)),
    }
}

/// Adding every stack of `items`, in order.
pub open spec fn add_all(inv: Seq<(Seq<char>, u32)>, items: Seq<(Seq<char>, u32)>) -> Seq<(Seq<char>, u32)>
    decreases items.len(),
{
    if items.len() == 0 {
        inv
    } else {
        let before = add_all(inv, items.drop_last());
        add_stack(before, items.last().0, items.last().1)
    }
}

pub proof fn lemma_first_stack_unique(inv: Seq<(Seq<char>, u32)>, id: Seq<char>, i: int, j: int)
    requires
        is_first_stack(inv, id, i),
        is_first_stack(inv, id, j),
    ensures
        i == j,
{
}

pub proof fn lemma_first_stack(inv: Seq<(Seq<char>, u32)>, id: Seq<char>, i: int)
    requires
        is_first_stack(inv, id, i),
    ensures
        first_stack(inv, id) == Some(i),
{
    let k = choose|k: int| is_first_stack(inv, id, k);
    lemma_first_stack_unique(inv, id, i, k);
}

pub proof fn lemma_no_stack(inv: Seq<(Seq<char>, u32)>, id: Seq<char>)
    requires
        forall|j: int| 0 <= j < inv.len() ==> inv[j].0 != id,
    ensures
        first_stack(inv, id) is None,
{
}

/// Replacing a stack of item `id` by a bigger one raises the count of `id` by the difference.
pub proof fn lemma_count_update(inv: Seq<(Seq<char>, u32)>, i: int, id: Seq<char>, c: u32, x: Seq<char>)
    requires
        0 <= i < inv.len(),
        inv[i].0 == id,
    ensures
        count_of(inv.update(i, (id, c)), x) == count_of(inv, x) + if x == id {
            c - inv[i].1
        } else {
            0
        },
    decreases inv.len(),
{
    let u = inv.update(i, (id, c));
    if i == inv.len() - 1 {
        assert(u.drop_last() =~= inv.drop_last());
    } else {
        assert(u.drop_last() =~= inv.drop_last().update(i, (id, c)));
        lemma_count_update(inv.drop_last(), i, id, c, x);
    }
}

pub proof fn lemma_count_push(inv: Seq<(Seq<char>, u32)>, e: (Seq<char>, u32), x: Seq<char>)
    ensures
        count_of(inv.push(e), x) == count_of(inv, x) + if e.0 == x {
            e.1 as int
        } else {
            0
        },
{
    assert(inv.push(e).drop_last() =~= inv);
}

pub proof fn lemma_count_nonneg(inv: Seq<(Seq<char>, u32)>, x: Seq<char>)
    ensures
        count_of(inv, x) >= 0,
    decreases inv.len(),
{
    if inv.len() > 0 {
        lemma_count_nonneg(inv.drop_last(), x);
    }
}

/// A single stack never holds more than the whole count of its item.
pub proof fn lemma_stack_le_count(inv: Seq<(Seq<char>, u32)>, i: int)
    requires
        0 <= i < inv.len(),
    ensures
        inv[i].1 <= count_of(inv, inv[i].0),
    decreases inv.len(),
{
    if i < inv.len() - 1 {
        lemma_stack_le_count(inv.drop_last(), i);
    } else {
        lemma_count_nonneg(inv.drop_last(), inv[i].0);
    }
}

/// Law of adding a stack: the count of its item grows by the amount added, other counts stay,
/// and an inventory without repeated items keeps that property.
pub proof fn lemma_add_stack(inv: Seq<(Seq<char>, u32)>, id: Seq<char>, count: u32)
    requires
        count_of(inv, id) + count <= u32::MAX,
    ensures
        forall|x: Seq<char>|
            #[trigger] count_of(add_stack(inv, id, count), x) == count_of(inv, x) + if x == id {
                count as int
            } else {
                0
            },
        ids_unique(inv) ==> ids_unique(add_stack(inv, id, count)),
{
    match first_stack(inv, id) {
        Some(i) => {
            let k = choose|k: int| is_first_stack(inv, id, k);
            assert(is_first_stack(inv, id, k));
            lemma_stack_le_count(inv, i);
            assert forall|x: Seq<char>|
                #[trigger] count_of(add_stack(inv, id, count), x) == count_of(inv, x) + if x == id {
                    count as int
                } else {
                    0
                } by {
                lemma_count_update(inv, i, id, (inv[i].1 + count) as u32, x);
            }
        },
        None => {
            assert forall|x: Seq<char>|
                #[trigger] count_of(add_stack(inv, id, count), x) == count_of(inv, x) + if x == id {
                    count as int
                } else {
                    0
                } by {
                lemma_count_push(inv, (id, count), x);
            }
            if !(exists|j: int| 0 <= j < inv.len() && inv[j].0 == id) {
            } else {
                let j0 = choose|j: int| 0 <= j < inv.len() && inv[j].0 == id;
                lemma_some_first_stack(inv, id, j0);
            }
        },
    }
}

/// Adding stacks keeps the order of the stacks already there: each keeps its place and its
/// item, and new items only go at the end.
pub proof fn lemma_add_all_keeps_order(inv: Seq<(Seq<char>, u32)>, items: Seq<(Seq<char>, u32)>)
    ensures
        add_all(inv, items).len() >= inv.len(),
        forall|i: int| 0 <= i < inv.len() ==> (#[trigger] add_all(inv, items)[i]).0 == inv[i].0,
    decreases items.len(),
{
    if items.len() > 0 {
        let rest = items.drop_last();
        let e = items.last();
        lemma_add_all_keeps_order(inv, rest);
        let before = add_all(inv, rest);
        match first_stack(before, e.0) {
            Some(i) => {
                let k = choose|k: int| is_first_stack(before, e.0, k);
                assert(is_first_stack(before, e.0, k));
                assert forall|j: int| 0 <= j < inv.len() implies (#[trigger] add_all(inv, items)[j]).0
                    == inv[j].0 by {
                    assert(add_all(inv, items)[j] == before.update(i, (e.0, (before[i].1 + e.1) as u32))[j]);
                    assert(before[j].0 == inv[j].0);
                }
            },
            None => {
                assert forall|j: int| 0 <= j < inv.len() implies (#[trigger] add_all(inv, items)[j]).0
                    == inv[j].0 by {
                    assert(add_all(inv, items)[j] == before.push((e.0, e.1))[j]);
                    assert(before[j].0 == inv[j].0);
                }
            },
        }
    }
}

pub proof fn lemma_some_first_stack(inv: Seq<(Seq<char>, u32)>, id: Seq<char>, j: int)
    requires
        0 <= j < inv.len(),
        inv[j].0 == id,
    ensures
        first_stack(inv, id) is Some,
    decreases j,
{
    if forall|k: int| 0 <= k < j ==> inv[k].0 != id {
        assert(is_first_stack(inv, id, j));
    } else {
        let k = choose|k: int| 0 <= k < j && inv[k].0 == id;
        lemma_some_first_stack(inv, id, k);
    }
}

/// Law of adding many stacks: each item's count grows by what `items` hold of it, and an
/// inventory without repeated items keeps that property.
pub proof fn lemma_add_all(inv: Seq<(Seq<char>, u32)>, items: Seq<(Seq<char>, u32)>)
    requires
        forall|x: Seq<char>| count_of(inv, x) + count_of(items, x) <= u32::MAX,
    ensures
        forall|x: Seq<char>|
            #[trigger] count_of(add_all(inv, items), x) == count_of(inv, x) + count_of(items, x),
        ids_unique(inv) ==> ids_unique(add_all(inv, items)),
    decreases items.len(),
{
    if items.len() > 0 {
        let rest = items.drop_last();
        let e = items.last();
        assert forall|x: Seq<char>| count_of(inv, x) + count_of(rest, x) <= u32::MAX by {
            lemma_count_nonneg(rest, x);
            assert(count_of(items, x) == count_of(rest, x) + if e.0 == x { e.1 as int } else { 0 });
        }
        lemma_add_all(inv, rest);
        let before = add_all(inv, rest);
        assert(count_of(items, e.0) == count_of(rest, e.0) + e.1);
        assert(count_of(before, e.0) == count_of(inv, e.0) + count_of(rest, e.0));
        lemma_add_stack(before, e.0, e.1);
        assert forall|x: Seq<char>|
            #[trigger] count_of(add_all(inv, items), x) == count_of(inv, x) + count_of(items, x) by {
            assert(count_of(items, x) == count_of(rest, x) + if e.0 == x { e.1 as int } else { 0 });
            assert(count_of(before, x) == count_of(inv, x) + count_of(rest, x));
        }
    }
}

/// Finds the first stack of item `id`.
pub(crate) fn find_stack(inv: &Vec<InventoryItem>, id: &str) -> (r: Option<usize>)
    ensures
        r matches Some(i) ==> first_stack(stacks(inv@), id@) == Some(i as int),
        r is None ==> first_stack(stacks(inv@), id@) is None,
{
    let mut i: usize = 0;
    while i < inv.len()
        invariant
            i <= inv@.len(),
            forall|j: int| 0 <= j < i ==> stacks(inv@)[j].0 != id@,
        decreases inv.len() - i,
    {
        if str_eq(inv[i].item_id.as_str(), id) {
            proof {
                lemma_first_stack(stacks(inv@), id@, i as int);
            }
            return Some(i);
        }
        i += 1;
    }
    proof {
        lemma_no_stack(stacks(inv@), id@);
    }
    None
}

/// Adds `item` to `inv`: onto the first stack of the same item, or as a new stack at the end.
fn add_stack_to(inv: &mut Vec<InventoryItem>, item: InventoryItem)
    requires
        count_of(stacks(old(inv)@), item.item_id@) + item.count <= u32::MAX,
    ensures
        stacks(final(inv)@) == add_stack(stacks(old(inv)@), item.item_id@, item.count),
{
    let ghost s = stacks(inv@);
    match find_stack(inv, item.item_id.as_str()) {
        Some(i) => {
            proof {
                lemma_stack_le_count(s, i as int);
            }
            let merged = InventoryItem { item_id: item.item_id, count: inv[i].count + item.count };
            inv.set(i, merged);
            proof {
                assert(stacks(inv@) =~= add_stack(s, item.item_id@, item.count));
            }
        },
        None => {
            inv.push(item);
            proof {
                assert(stacks(inv@) =~= add_stack(s, item.item_id@, item.count));
            }
        },
    }
}

/// Adds `count` of `item_id` to a list of drops (onto the first stack of that item, or as a
/// new stack at the end).
pub fn add_to_drops(drops: &mut Vec<InventoryItem>, item_id: &str, count: u32)
    requires
        count_of(stacks(old(drops)@), item_id@) + count <= u32::MAX,
    ensures
        stacks(final(drops)@) == add_stack(stacks(old(drops)@), item_id@, count),
{
    add_stack_to(drops, InventoryItem { item_id: item_id.to_owned(), count });
}

/// Adds every stack of `items` to `inventory`, in order, each onto the first stack of the
/// same item or as a new stack at the end.
pub fn add_items_to_inventory(inventory: &mut Vec<InventoryItem>, items: Vec<InventoryItem>)
    requires
        forall|x: Seq<char>|
            count_of(stacks(old(inventory)@), x) + count_of(stacks(items@), x) <= u32::MAX,
    ensures
        stacks(final(inventory)@) == add_all(stacks(old(inventory)@), stacks(items@)),
{
    let ghost inv0 = stacks(inventory@);
    let ghost all = stacks(items@);
    let mut k: usize = 0;
    while k < items.len()
        invariant
            k <= items@.len(),
            all == stacks(items@),
            stacks(inventory@) == add_all(inv0, all.take(k as int)),
            forall|x: Seq<char>| count_of(inv0, x) + count_of(all, x) <= u32::MAX,
        decreases items.len() - k,
    {
        proof {
            lemma_prefix_counts(inv0, all, k as int);
        }
        let it = items[k].clone();
        add_stack_to(inventory, it);
        proof {
            assert(all.take(k + 1).drop_last() =~= all.take(k as int));
            assert(all.take(k + 1).last() == all[k as int]);
        }
        k += 1;
    }
    proof {
        assert(all.take(items@.len() as int) =~= all);
    }
}

/// Before the `k`-th stack of `all` is added, its item's count still has room for it.
proof fn lemma_prefix_counts(inv0: Seq<(Seq<char>, u32)>, all: Seq<(Seq<char>, u32)>, k: int)
    requires
        0 <= k < all.len(),
        forall|x: Seq<char>| count_of(inv0, x) + count_of(all, x) <= u32::MAX,
    ensures
        count_of(add_all(inv0, all.take(k)), all[k].0) + all[k].1 <= u32::MAX,
        forall|x: Seq<char>| count_of(inv0, x) + count_of(all.take(k), x) <= u32::MAX,
{
    lemma_prefix_le(all, k + 1, all[k].0);
    assert(all.take(k + 1).drop_last() =~= all.take(k));
    assert forall|x: Seq<char>| count_of(inv0, x) + count_of(all.take(k), x) <= u32::MAX by {
        lemma_prefix_le(all, k, x);
    }
    lemma_add_all(inv0, all.take(k));
}

/// A prefix never holds more of an item than the whole sequence.
proof fn lemma_prefix_le(all: Seq<(Seq<char>, u32)>, k: int, x: Seq<char>)
    requires
        0 <= k <= all.len(),
    ensures
        count_of(all.take(k), x) <= count_of(all, x),
    decreases all.len() - k,
{
    if k < all.len() {
        lemma_prefix_le(all, k + 1, x);
        assert(all.take(k + 1).drop_last() =~= all.take(k));
    } else {
        assert(all.take(k) =~= all);
    }
}

/// One line of a drop table: an item, how many of it drop, and the chance in percent.
#[derive(Debug, Clone, Copy)]
pub struct DropEntry {
    pub item_id: &'static str,
    pub min_count: u32,
    pub max_count: u32,
    pub chance_percent: u32,
}

/// The drop table of an enemy kind, by its normalized name.
pub open spec fn drop_table_spec(key: Seq<char>) -> Seq<DropEntry> {
    if key == "golem"@ || key == "ゴーレム"@ {
        seq![
            DropEntry { item_id: "gold", min_count: 20, max_count: 40, chance_percent: 100 },
            DropEntry { item_id: "ancient_stone", min_count: 2, max_count: 4, chance_percent: 100 },
            DropEntry { item_id: "broken_brick", min_count: 1, max_count: 3, chance_percent: 50 },
            DropEntry { item_id: "refined_iron", min_count: 1, max_count: 2, chance_percent: 20 },
            DropEntry { item_id: "mystic_crystal", min_count: 1, max_count: 1, chance_percent: 10 },
            DropEntry { item_id: "card_pack_ticket", min_count: 1, max_count: 1, chance_percent: 10 },
        ]
    } else if key == "phantom"@ || key == "ファントム"@ {
        seq![
            DropEntry { item_id: "gold", min_count: 15, max_count: 35, chance_percent: 100 },
            DropEntry { item_id: "magic_shard", min_count: 2, max_count: 3, chance_percent: 100 },
            DropEntry { item_id: "mystic_crystal", min_count: 1, max_count: 2, chance_percent: 30 },
            DropEntry { item_id: "shining_magicstone", min_count: 1, max_count: 1, chance_percent: 5 },
            DropEntry { item_id: "skill_book_support", min_count: 1, max_count: 1, chance_percent: 3 },
            DropEntry { item_id: "card_pack_ticket", min_count: 1, max_count: 1, chance_percent: 8 },
        ]
    } else if key == "skeleton_knight"@ || key == "スケルトンナイト"@ {
        seq![
            DropEntry { item_id: "gold", min_count: 20, max_count: 45, chance_percent: 100 },
            DropEntry { item_id: "rusty_gear", min_count: 2, max_count: 4, chance_percent: 100 },
            DropEntry { item_id: "reinforced_fiber", min_count: 1, max_count: 2, chance_percent: 40 },
            DropEntry { item_id: "refined_iron", min_count: 1, max_count: 2, chance_percent: 30 },
            DropEntry { item_id: "ancient_blueprint", min_count: 1, max_count: 1, chance_percent: 10 },
            DropEntry { item_id: "card_pack_ticket", min_count: 1, max_count: 1, chance_percent: 10 },
        ]
    } else if key == "treasure_mimic"@ || key == "トレジャーミミック"@ {
        seq![
            DropEntry { item_id: "gold", min_count: 50, max_count: 100, chance_percent: 100 },
            DropEntry { item_id: "ancient_stone", min_count: 2, max_count: 5, chance_percent: 60 },
            DropEntry { item_id: "rusty_gear", min_count: 2, max_count: 5, chance_percent: 60 },
            DropEntry { item_id: "rotten_wood", min_count: 2, max_count: 5, chance_percent: 60 },
            DropEntry { item_id: "mystic_crystal", min_count: 1, max_count: 3, chance_percent: 50 },
            DropEntry { item_id: "magic_shard", min_count: 1, max_count: 3, chance_percent: 50 },
            DropEntry { item_id: "shining_magicstone", min_count: 1, max_count: 2, chance_percent: 20 },
            DropEntry { item_id: "golden_gear", min_count: 1, max_count: 1, chance_percent: 10 },
            DropEntry { item_id: "summon_shard", min_count: 1, max_count: 2, chance_percent: 15 },
            DropEntry { item_id: "card_pack_ticket", min_count: 1, max_count: 2, chance_percent: 30 },
        ]
    } else if key == "dark_wizard"@ || key == "ダークウィザード"@ {
        seq![
            DropEntry { item_id: "gold", min_count: 30, max_count: 60, chance_percent: 100 },
            DropEntry { item_id: "magic_shard", min_count: 3, max_count: 5, chance_percent: 100 },
            DropEntry { item_id: "mystic_crystal", min_count: 1, max_count: 2, chance_percent: 40 },
            DropEntry { item_id: "shining_magicstone", min_count: 1, max_count: 1, chance_percent: 15 },
            DropEntry { item_id: "ancient_blueprint", min_count: 1, max_count: 1, chance_percent: 10 },
            DropEntry { item_id: "skill_book_attack", min_count: 1, max_count: 1, chance_percent: 3 },
            DropEntry { item_id: "card_pack_ticket", min_count: 1, max_count: 1, chance_percent: 15 },
        ]
    } else if key == "slime_king"@ {
        seq![
            DropEntry { item_id: "magic_shard", min_count: 3, max_count: 5, chance_percent: 100 },
            DropEntry { item_id: "mystic_crystal", min_count: 2, max_count: 3, chance_percent: 50 },
            DropEntry { item_id: "summon_shard", min_count: 1, max_count: 2, chance_percent: 20 },
        ]
    } else if key == "cursed_armor"@ {
        seq![
            DropEntry { item_id: "refined_iron", min_count: 3, max_count: 5, chance_percent: 100 },
            DropEntry { item_id: "rusty_gear", min_count: 2, max_count: 4, chance_percent: 60 },
            DropEntry { item_id: "ancient_blueprint", min_count: 1, max_count: 1, chance_percent: 15 },
            DropEntry { item_id: "skill_book_defense", min_count: 1, max_count: 1, chance_percent: 5 },
        ]
    } else if key == "shadow_assassin"@ {
        seq![
            DropEntry { item_id: "reinforced_fiber", min_count: 2, max_count: 4, chance_percent: 100 },
            DropEntry { item_id: "magic_shard", min_count: 1, max_count: 2, chance_percent: 40 },
            DropEntry { item_id: "skill_book_attack", min_count: 1, max_count: 1, chance_percent: 8 },
        ]
    } else if key == "flame_spirit"@ {
        seq![
            DropEntry { item_id: "magic_shard", min_count: 2, max_count: 4, chance_percent: 100 },
            DropEntry { item_id: "shining_magicstone", min_count: 1, max_count: 1, chance_percent: 20 },
            DropEntry { item_id: "exp_crystal", min_count: 1, max_count: 2, chance_percent: 30 },
        ]
    } else if key == "ice_elemental"@ {
        seq![
            DropEntry { item_id: "mystic_crystal", min_count: 2, max_count: 4, chance_percent: 100 },
            DropEntry { item_id: "shining_magicstone", min_count: 1, max_count: 1, chance_percent: 20 },
            DropEntry { item_id: "exp_crystal", min_count: 1, max_count: 2, chance_percent: 30 },
        ]
    } else if key == "poison_spider"@ {
        seq![
            DropEntry { item_id: "reinforced_fiber", min_count: 2, max_count: 3, chance_percent: 100 },
            DropEntry { item_id: "magic_shard", min_count: 1, max_count: 2, chance_percent: 30 },
            DropEntry { item_id: "rotten_wood", min_count: 1, max_count: 3, chance_percent: 50 },
        ]
    } else if key == "stone_gargoyle"@ {
        seq![
            DropEntry { item_id: "ancient_stone", min_count: 3, max_count: 5, chance_percent: 100 },
            DropEntry { item_id: "broken_brick", min_count: 2, max_count: 4, chance_percent: 60 },
            DropEntry { item_id: "mystic_crystal", min_count: 1, max_count: 2, chance_percent: 25 },
        ]
    } else if key == "demon_imp"@ {
        seq![
            DropEntry { item_id: "magic_shard", min_count: 2, max_count: 3, chance_percent: 100 },
            DropEntry { item_id: "exp_crystal", min_count: 1, max_count: 3, chance_percent: 40 },
            DropEntry { item_id: "summon_shard", min_count: 1, max_count: 1, chance_percent: 10 },
        ]
    } else if key == "death_knight"@ {
        seq![
            DropEntry { item_id: "refined_iron", min_count: 3, max_count: 5, chance_percent: 100 },
            DropEntry { item_id: "rusty_gear", min_count: 2, max_count: 4, chance_percent: 50 },
            DropEntry { item_id: "golden_gear", min_count: 1, max_count: 1, chance_percent: 15 },
            DropEntry { item_id: "skill_book_attack", min_count: 1, max_count: 1, chance_percent: 8 },
        ]
    } else if key == "necromancer"@ {
        seq![
            DropEntry { item_id: "magic_shard", min_count: 3, max_count: 5, chance_percent: 100 },
            DropEntry { item_id: "shining_magicstone", min_count: 1, max_count: 2, chance_percent: 30 },
            DropEntry { item_id: "ancient_blueprint", min_count: 1, max_count: 1, chance_percent: 20 },
            DropEntry { item_id: "skill_book_support", min_count: 1, max_count: 1, chance_percent: 5 },
        ]
    } else if key == "crystal_golem"@ {
        seq![
            DropEntry { item_id: "mystic_crystal", min_count: 4, max_count: 6, chance_percent: 100 },
            DropEntry { item_id: "shining_magicstone", min_count: 1, max_count: 2, chance_percent: 40 },
            DropEntry { item_id: "ancient_stone", min_count: 2, max_count: 4, chance_percent: 50 },
        ]
    } else if key == "thunder_hawk"@ {
        seq![
            DropEntry { item_id: "reinforced_fiber", min_count: 2, max_count: 4, chance_percent: 100 },
            DropEntry { item_id: "magic_shard", min_count: 2, max_count: 3, chance_percent: 60 },
            DropEntry { item_id: "shining_magicstone", min_count: 1, max_count: 1, chance_percent: 15 },
        ]
    } else if key == "earth_wyrm"@ {
        seq![
            DropEntry { item_id: "ancient_stone", min_count: 4, max_count: 6, chance_percent: 100 },
            DropEntry { item_id: "refined_iron", min_count: 2, max_count: 4, chance_percent: 50 },
            DropEntry { item_id: "guardian_core", min_count: 1, max_count: 1, chance_percent: 5 },
        ]
    } else if key == "void_stalker"@ {
        seq![
            DropEntry { item_id: "magic_shard", min_count: 3, max_count: 5, chance_percent: 100 },
            DropEntry { item_id: "shining_magicstone", min_count: 1, max_count: 2, chance_percent: 30 },
            DropEntry { item_id: "skill_book_attack", min_count: 1, max_count: 1, chance_percent: 10 },
        ]
    } else if key == "ancient_mummy"@ {
        seq![
            DropEntry { item_id: "ancient_blueprint", min_count: 1, max_count: 2, chance_percent: 80 },
            DropEntry { item_id: "reinforced_fiber", min_count: 2, max_count: 4, chance_percent: 60 },
            DropEntry { item_id: "ancient_kings_seal", min_count: 1, max_count: 1, chance_percent: 5 },
        ]
    } else if key == "ruin_guardian"@ || key == "遺跡の守護者"@ {
        seq![
            DropEntry { item_id: "gold", min_count: 100, max_count: 200, chance_percent: 100 },
            DropEntry { item_id: "guardian_core", min_count: 1, max_count: 1, chance_percent: 100 },
            DropEntry { item_id: "shining_magicstone", min_count: 2, max_count: 4, chance_percent: 80 },
            DropEntry { item_id: "golden_gear", min_count: 1, max_count: 2, chance_percent: 30 },
            DropEntry { item_id: "ancient_kings_seal", min_count: 1, max_count: 1, chance_percent: 10 },
            DropEntry { item_id: "dragon_scale", min_count: 1, max_count: 1, chance_percent: 5 },
            DropEntry { item_id: "skill_book_attack", min_count: 1, max_count: 1, chance_percent: 10 },
            DropEntry { item_id: "skill_book_defense", min_count: 1, max_count: 1, chance_percent: 10 },
            DropEntry { item_id: "rare_pack_ticket", min_count: 1, max_count: 1, chance_percent: 20 },
        ]
    } else if key == "dragon_zombie"@ || key == "ドラゴンゾンビ"@ {
        seq![
            DropEntry { item_id: "gold", min_count: 150, max_count: 300, chance_percent: 100 },
            DropEntry { item_id: "guardian_core", min_count: 1, max_count: 2, chance_percent: 100 },
            DropEntry { item_id: "dragon_scale", min_count: 1, max_count: 2, chance_percent: 50 },
            DropEntry { item_id: "shining_magicstone", min_count: 3, max_count: 5, chance_percent: 80 },
            DropEntry { item_id: "ancient_kings_seal", min_count: 1, max_count: 1, chance_percent: 20 },
            DropEntry { item_id: "skill_book_attack", min_count: 1, max_count: 1, chance_percent: 15 },
            DropEntry { item_id: "rare_pack_ticket", min_count: 1, max_count: 1, chance_percent: 25 },
        ]
    } else if key == "lich_lord"@ || key == "リッチロード"@ {
        seq![
            DropEntry { item_id: "gold", min_count: 120, max_count: 250, chance_percent: 100 },
            DropEntry { item_id: "guardian_core", min_count: 1, max_count: 1, chance_percent: 100 },
            DropEntry { item_id: "shining_magicstone", min_count: 3, max_count: 6, chance_percent: 100 },
            DropEntry { item_id: "ancient_kings_seal", min_count: 1, max_count: 1, chance_percent: 25 },
            DropEntry { item_id: "skill_book_attack", min_count: 1, max_count: 1, chance_percent: 20 },
            DropEntry { item_id: "skill_book_support", min_count: 1, max_count: 1, chance_percent: 15 },
            DropEntry { item_id: "rare_pack_ticket", min_count: 1, max_count: 1, chance_percent: 20 },
        ]
    } else if key == "titan_colossus"@ || key == "タイタンコロッサス"@ {
        seq![
            DropEntry { item_id: "gold", min_count: 200, max_count: 400, chance_percent: 100 },
            DropEntry { item_id: "guardian_core", min_count: 2, max_count: 3, chance_percent: 100 },
            DropEntry { item_id: "ancient_stone", min_count: 8, max_count: 12, chance_percent: 100 },
            DropEntry { item_id: "golden_gear", min_count: 2, max_count: 3, chance_percent: 60 },
            DropEntry { item_id: "ancient_kings_seal", min_count: 1, max_count: 2, chance_percent: 30 },
            DropEntry { item_id: "dragon_scale", min_count: 1, max_count: 1, chance_percent: 15 },
            DropEntry { item_id: "skill_book_defense", min_count: 1, max_count: 1, chance_percent: 20 },
            DropEntry { item_id: "rare_pack_ticket", min_count: 1, max_count: 2, chance_percent: 30 },
        ]
    } else if key == "スライム"@ {
        seq![
            DropEntry { item_id: "gold", min_count: 5, max_count: 15, chance_percent: 100 },
            DropEntry { item_id: "ancient_stone", min_count: 1, max_count: 2, chance_percent: 30 },
            DropEntry { item_id: "rotten_wood", min_count: 1, max_count: 2, chance_percent: 20 },
            DropEntry { item_id: "card_pack_ticket", min_count: 1, max_count: 1, chance_percent: 3 },
        ]
    } else if key == "ゴブリン"@ {
        seq![
            DropEntry { item_id: "gold", min_count: 10, max_count: 25, chance_percent: 100 },
            DropEntry { item_id: "rusty_gear", min_count: 1, max_count: 2, chance_percent: 40 },
            DropEntry { item_id: "rotten_wood", min_count: 1, max_count: 3, chance_percent: 30 },
            DropEntry { item_id: "card_pack_ticket", min_count: 1, max_count: 1, chance_percent: 5 },
        ]
    } else if key == "オーク"@ {
        seq![
            DropEntry { item_id: "gold", min_count: 20, max_count: 40, chance_percent: 100 },
            DropEntry { item_id: "refined_iron", min_count: 1, max_count: 2, chance_percent: 40 },
            DropEntry { item_id: "broken_brick", min_count: 1, max_count: 3, chance_percent: 30 },
            DropEntry { item_id: "card_pack_ticket", min_count: 1, max_count: 1, chance_percent: 8 },
        ]
    } else if key == "骸骨戦士"@ {
        seq![
            DropEntry { item_id: "gold", min_count: 30, max_count: 60, chance_percent: 100 },
            DropEntry { item_id: "ancient_stone", min_count: 2, max_count: 4, chance_percent: 50 },
            DropEntry { item_id: "ancient_blueprint", min_count: 1, max_count: 1, chance_percent: 10 },
            DropEntry { item_id: "card_pack_ticket", min_count: 1, max_count: 1, chance_percent: 10 },
        ]
    } else if key == "オーガ"@ {
        seq![
            DropEntry { item_id: "gold", min_count: 50, max_count: 100, chance_percent: 100 },
            DropEntry { item_id: "refined_iron", min_count: 2, max_count: 4, chance_percent: 50 },
            DropEntry { item_id: "mystic_crystal", min_count: 1, max_count: 2, chance_percent: 30 },
            DropEntry { item_id: "card_pack_ticket", min_count: 1, max_count: 1, chance_percent: 15 },
            DropEntry { item_id: "rare_pack_ticket", min_count: 1, max_count: 1, chance_percent: 3 },
        ]
    } else if key == "ワイバーン"@ {
        seq![
            DropEntry { item_id: "gold", min_count: 80, max_count: 150, chance_percent: 100 },
            DropEntry { item_id: "shining_magicstone", min_count: 1, max_count: 2, chance_percent: 40 },
            DropEntry { item_id: "golden_gear", min_count: 1, max_count: 1, chance_percent: 15 },
            DropEntry { item_id: "dragon_scale", min_count: 1, max_count: 1, chance_percent: 5 },
            DropEntry { item_id: "card_pack_ticket", min_count: 1, max_count: 2, chance_percent: 20 },
            DropEntry { item_id: "rare_pack_ticket", min_count: 1, max_count: 1, chance_percent: 8 },
        ]
    } else {
        seq![
            DropEntry { item_id: "gold", min_count: 10, max_count: 30, chance_percent: 100 },
            DropEntry { item_id: "ancient_stone", min_count: 1, max_count: 2, chance_percent: 30 },
            DropEntry { item_id: "rotten_wood", min_count: 1, max_count: 2, chance_percent: 30 },
            DropEntry { item_id: "card_pack_ticket", min_count: 1, max_count: 1, chance_percent: 5 },
        ]
    }
}

/// The drop table of an enemy kind, by its normalized name.
pub fn drop_table_for(key: &str) -> (v: Vec<DropEntry>)
    ensures
        v@ == drop_table_spec(key@),
{
    if str_eq(key, "golem") || str_eq(key, "ゴーレム") {
        let v = vec![
                DropEntry { item_id: "gold", min_count: 20, max_count: 40, chance_percent: 100 },
                DropEntry { item_id: "ancient_stone", min_count: 2, max_count: 4, chance_percent: 100 },
                DropEntry { item_id: "broken_brick", min_count: 1, max_count: 3, chance_percent: 50 },
                DropEntry { item_id: "refined_iron", min_count: 1, max_count: 2, chance_percent: 20 },
                DropEntry { item_id: "mystic_crystal", min_count: 1, max_count: 1, chance_percent: 10 },
                DropEntry { item_id: "card_pack_ticket", min_count: 1, max_count: 1, chance_percent: 10 },
            ];
        proof { assert(v@ =~= drop_table_spec(key@)); }
        v
    } else if str_eq(key, "phantom") || str_eq(key, "ファントム") {
        let v = vec![
                DropEntry { item_id: "gold", min_count: 15, max_count: 35, chance_percent: 100 },
                DropEntry { item_id: "magic_shard", min_count: 2, max_count: 3, chance_percent: 100 },
                DropEntry { item_id: "mystic_crystal", min_count: 1, max_count: 2, chance_percent: 30 },
                DropEntry { item_id: "shining_magicstone", min_count: 1, max_count: 1, chance_percent: 5 },
                DropEntry { item_id: "skill_book_support", min_count: 1, max_count: 1, chance_percent: 3 },
                DropEntry { item_id: "card_pack_ticket", min_count: 1, max_count: 1, chance_percent: 8 },
            ];
        proof { assert(v@ =~= drop_table_spec(key@)); }
        v
    } else if str_eq(key, "skeleton_knight") || str_eq(key, "スケルトンナイト") {
        let v = vec![
                DropEntry { item_id: "gold", min_count: 20, max_count: 45, chance_percent: 100 },
                DropEntry { item_id: "rusty_gear", min_count: 2, max_count: 4, chance_percent: 100 },
                DropEntry { item_id: "reinforced_fiber", min_count: 1, max_count: 2, chance_percent: 40 },
                DropEntry { item_id: "refined_iron", min_count: 1, max_count: 2, chance_percent: 30 },
                DropEntry { item_id: "ancient_blueprint", min_count: 1, max_count: 1, chance_percent: 10 },
                DropEntry { item_id: "card_pack_ticket", min_count: 1, max_count: 1, chance_percent: 10 },
            ];
        proof { assert(v@ =~= drop_table_spec(key@)); }
        v
    } else if str_eq(key, "treasure_mimic") || str_eq(key, "トレジャーミミック") {
        let v = vec![
                DropEntry { item_id: "gold", min_count: 50, max_count: 100, chance_percent: 100 },
                DropEntry { item_id: "ancient_stone", min_count: 2, max_count: 5, chance_percent: 60 },
                DropEntry { item_id: "rusty_gear", min_count: 2, max_count: 5, chance_percent: 60 },
                DropEntry { item_id: "rotten_wood", min_count: 2, max_count: 5, chance_percent: 60 },
                DropEntry { item_id: "mystic_crystal", min_count: 1, max_count: 3, chance_percent: 50 },
                DropEntry { item_id: "magic_shard", min_count: 1, max_count: 3, chance_percent: 50 },
                DropEntry { item_id: "shining_magicstone", min_count: 1, max_count: 2, chance_percent: 20 },
                DropEntry { item_id: "golden_gear", min_count: 1, max_count: 1, chance_percent: 10 },
                DropEntry { item_id: "summon_shard", min_count: 1, max_count: 2, chance_percent: 15 },
                DropEntry { item_id: "card_pack_ticket", min_count: 1, max_count: 2, chance_percent: 30 },
            ];
        proof { assert(v@ =~= drop_table_spec(key@)); }
        v
    } else if str_eq(key, "dark_wizard") || str_eq(key, "ダークウィザード") {
        let v = vec![
                DropEntry { item_id: "gold", min_count: 30, max_count: 60, chance_percent: 100 },
                DropEntry { item_id: "magic_shard", min_count: 3, max_count: 5, chance_percent: 100 },
                DropEntry { item_id: "mystic_crystal", min_count: 1, max_count: 2, chance_percent: 40 },
                DropEntry { item_id: "shining_magicstone", min_count: 1, max_count: 1, chance_percent: 15 },
                DropEntry { item_id: "ancient_blueprint", min_count: 1, max_count: 1, chance_percent: 10 },
                DropEntry { item_id: "skill_book_attack", min_count: 1, max_count: 1, chance_percent: 3 },
                DropEntry { item_id: "card_pack_ticket", min_count: 1, max_count: 1, chance_percent: 15 },
            ];
        proof { assert(v@ =~= drop_table_spec(key@)); }
        v
    } else if str_eq(key, "slime_king") {
        let v = vec![
                DropEntry { item_id: "magic_shard", min_count: 3, max_count: 5, chance_percent: 100 },
                DropEntry { item_id: "mystic_crystal", min_count: 2, max_count: 3, chance_percent: 50 },
                DropEntry { item_id: "summon_shard", min_count: 1, max_count: 2, chance_percent: 20 },
            ];
        proof { assert(v@ =~= drop_table_spec(key@)); }
        v
    } else if str_eq(key, "cursed_armor") {
        let v = vec![
                DropEntry { item_id: "refined_iron", min_count: 3, max_count: 5, chance_percent: 100 },
                DropEntry { item_id: "rusty_gear", min_count: 2, max_count: 4, chance_percent: 60 },
                DropEntry { item_id: "ancient_blueprint", min_count: 1, max_count: 1, chance_percent: 15 },
                DropEntry { item_id: "skill_book_defense", min_count: 1, max_count: 1, chance_percent: 5 },
            ];
        proof { assert(v@ =~= drop_table_spec(key@)); }
        v
    } else if str_eq(key, "shadow_assassin") {
        let v = vec![
                DropEntry { item_id: "reinforced_fiber", min_count: 2, max_count: 4, chance_percent: 100 },
                DropEntry { item_id: "magic_shard", min_count: 1, max_count: 2, chance_percent: 40 },
                DropEntry { item_id: "skill_book_attack", min_count: 1, max_count: 1, chance_percent: 8 },
            ];
        proof { assert(v@ =~= drop_table_spec(key@)); }
        v
    } else if str_eq(key, "flame_spirit") {
        let v = vec![
                DropEntry { item_id: "magic_shard", min_count: 2, max_count: 4, chance_percent: 100 },
                DropEntry { item_id: "shining_magicstone", min_count: 1, max_count: 1, chance_percent: 20 },
                DropEntry { item_id: "exp_crystal", min_count: 1, max_count: 2, chance_percent: 30 },
            ];
        proof { assert(v@ =~= drop_table_spec(key@)); }
        v
    } else if str_eq(key, "ice_elemental") {
        let v = vec![
                DropEntry { item_id: "mystic_crystal", min_count: 2, max_count: 4, chance_percent: 100 },
                DropEntry { item_id: "shining_magicstone", min_count: 1, max_count: 1, chance_percent: 20 },
                DropEntry { item_id: "exp_crystal", min_count: 1, max_count: 2, chance_percent: 30 },
            ];
        proof { assert(v@ =~= drop_table_spec(key@)); }
        v
    } else if str_eq(key, "poison_spider") {
        let v = vec![
                DropEntry { item_id: "reinforced_fiber", min_count: 2, max_count: 3, chance_percent: 100 },
                DropEntry { item_id: "magic_shard", min_count: 1, max_count: 2, chance_percent: 30 },
                DropEntry { item_id: "rotten_wood", min_count: 1, max_count: 3, chance_percent: 50 },
            ];
        proof { assert(v@ =~= drop_table_spec(key@)); }
        v
    } else if str_eq(key, "stone_gargoyle") {
        let v = vec![
                DropEntry { item_id: "ancient_stone", min_count: 3, max_count: 5, chance_percent: 100 },
                DropEntry { item_id: "broken_brick", min_count: 2, max_count: 4, chance_percent: 60 },
                DropEntry { item_id: "mystic_crystal", min_count: 1, max_count: 2, chance_percent: 25 },
            ];
        proof { assert(v@ =~= drop_table_spec(key@)); }
        v
    } else if str_eq(key, "demon_imp") {
        let v = vec![
                DropEntry { item_id: "magic_shard", min_count: 2, max_count: 3, chance_percent: 100 },
                DropEntry { item_id: "exp_crystal", min_count: 1, max_count: 3, chance_percent: 40 },
                DropEntry { item_id: "summon_shard", min_count: 1, max_count: 1, chance_percent: 10 },
            ];
        proof { assert(v@ =~= drop_table_spec(key@)); }
        v
    } else if str_eq(key, "death_knight") {
        let v = vec![
                DropEntry { item_id: "refined_iron", min_count: 3, max_count: 5, chance_percent: 100 },
                DropEntry { item_id: "rusty_gear", min_count: 2, max_count: 4, chance_percent: 50 },
                DropEntry { item_id: "golden_gear", min_count: 1, max_count: 1, chance_percent: 15 },
                DropEntry { item_id: "skill_book_attack", min_count: 1, max_count: 1, chance_percent: 8 },
            ];
        proof { assert(v@ =~= drop_table_spec(key@)); }
        v
    } else if str_eq(key, "necromancer") {
        let v = vec![
                DropEntry { item_id: "magic_shard", min_count: 3, max_count: 5, chance_percent: 100 },
                DropEntry { item_id: "shining_magicstone", min_count: 1, max_count: 2, chance_percent: 30 },
                DropEntry { item_id: "ancient_blueprint", min_count: 1, max_count: 1, chance_percent: 20 },
                DropEntry { item_id: "skill_book_support", min_count: 1, max_count: 1, chance_percent: 5 },
            ];
        proof { assert(v@ =~= drop_table_spec(key@)); }
        v
    } else if str_eq(key, "crystal_golem") {
        let v = vec![
                DropEntry { item_id: "mystic_crystal", min_count: 4, max_count: 6, chance_percent: 100 },
                DropEntry { item_id: "shining_magicstone", min_count: 1, max_count: 2, chance_percent: 40 },
                DropEntry { item_id: "ancient_stone", min_count: 2, max_count: 4, chance_percent: 50 },
            ];
        proof { assert(v@ =~= drop_table_spec(key@)); }
        v
    } else if str_eq(key, "thunder_hawk") {
        let v = vec![
                DropEntry { item_id: "reinforced_fiber", min_count: 2, max_count: 4, chance_percent: 100 },
                DropEntry { item_id: "magic_shard", min_count: 2, max_count: 3, chance_percent: 60 },
                DropEntry { item_id: "shining_magicstone", min_count: 1, max_count: 1, chance_percent: 15 },
            ];
        proof { assert(v@ =~= drop_table_spec(key@)); }
        v
    } else if str_eq(key, "earth_wyrm") {
        let v = vec![
                DropEntry { item_id: "ancient_stone", min_count: 4, max_count: 6, chance_percent: 100 },
                DropEntry { item_id: "refined_iron", min_count: 2, max_count: 4, chance_percent: 50 },
                DropEntry { item_id: "guardian_core", min_count: 1, max_count: 1, chance_percent: 5 },
            ];
        proof { assert(v@ =~= drop_table_spec(key@)); }
        v
    } else if str_eq(key, "void_stalker") {
        let v = vec![
                DropEntry { item_id: "magic_shard", min_count: 3, max_count: 5, chance_percent: 100 },
                DropEntry { item_id: "shining_magicstone", min_count: 1, max_count: 2, chance_percent: 30 },
                DropEntry { item_id: "skill_book_attack", min_count: 1, max_count: 1, chance_percent: 10 },
            ];
        proof { assert(v@ =~= drop_table_spec(key@)); }
        v
    } else if str_eq(key, "ancient_mummy") {
        let v = vec![
                DropEntry { item_id: "ancient_blueprint", min_count: 1, max_count: 2, chance_percent: 80 },
                DropEntry { item_id: "reinforced_fiber", min_count: 2, max_count: 4, chance_percent: 60 },
                DropEntry { item_id: "ancient_kings_seal", min_count: 1, max_count: 1, chance_percent: 5 },
            ];
        proof { assert(v@ =~= drop_table_spec(key@)); }
        v
    } else if str_eq(key, "ruin_guardian") || str_eq(key, "遺跡の守護者") {
        let v = vec![
                DropEntry { item_id: "gold", min_count: 100, max_count: 200, chance_percent: 100 },
                DropEntry { item_id: "guardian_core", min_count: 1, max_count: 1, chance_percent: 100 },
                DropEntry { item_id: "shining_magicstone", min_count: 2, max_count: 4, chance_percent: 80 },
                DropEntry { item_id: "golden_gear", min_count: 1, max_count: 2, chance_percent: 30 },
                DropEntry { item_id: "ancient_kings_seal", min_count: 1, max_count: 1, chance_percent: 10 },
                DropEntry { item_id: "dragon_scale", min_count: 1, max_count: 1, chance_percent: 5 },
                DropEntry { item_id: "skill_book_attack", min_count: 1, max_count: 1, chance_percent: 10 },
                DropEntry { item_id: "skill_book_defense", min_count: 1, max_count: 1, chance_percent: 10 },
                DropEntry { item_id: "rare_pack_ticket", min_count: 1, max_count: 1, chance_percent: 20 },
            ];
        proof { assert(v@ =~= drop_table_spec(key@)); }
        v
    } else if str_eq(key, "dragon_zombie") || str_eq(key, "ドラゴンゾンビ") {
        let v = vec![
                DropEntry { item_id: "gold", min_count: 150, max_count: 300, chance_percent: 100 },
                DropEntry { item_id: "guardian_core", min_count: 1, max_count: 2, chance_percent: 100 },
                DropEntry { item_id: "dragon_scale", min_count: 1, max_count: 2, chance_percent: 50 },
                DropEntry { item_id: "shining_magicstone", min_count: 3, max_count: 5, chance_percent: 80 },
                DropEntry { item_id: "ancient_kings_seal", min_count: 1, max_count: 1, chance_percent: 20 },
                DropEntry { item_id: "skill_book_attack", min_count: 1, max_count: 1, chance_percent: 15 },
                DropEntry { item_id: "rare_pack_ticket", min_count: 1, max_count: 1, chance_percent: 25 },
            ];
        proof { assert(v@ =~= drop_table_spec(key@)); }
        v
    } else if str_eq(key, "lich_lord") || str_eq(key, "リッチロード") {
        let v = vec![
                DropEntry { item_id: "gold", min_count: 120, max_count: 250, chance_percent: 100 },
                DropEntry { item_id: "guardian_core", min_count: 1, max_count: 1, chance_percent: 100 },
                DropEntry { item_id: "shining_magicstone", min_count: 3, max_count: 6, chance_percent: 100 },
                DropEntry { item_id: "ancient_kings_seal", min_count: 1, max_count: 1, chance_percent: 25 },
                DropEntry { item_id: "skill_book_attack", min_count: 1, max_count: 1, chance_percent: 20 },
                DropEntry { item_id: "skill_book_support", min_count: 1, max_count: 1, chance_percent: 15 },
                DropEntry { item_id: "rare_pack_ticket", min_count: 1, max_count: 1, chance_percent: 20 },
            ];
        proof { assert(v@ =~= drop_table_spec(key@)); }
        v
    } else if str_eq(key, "titan_colossus") || str_eq(key, "タイタンコロッサス") {
        let v = vec![
                DropEntry { item_id: "gold", min_count: 200, max_count: 400, chance_percent: 100 },
                DropEntry { item_id: "guardian_core", min_count: 2, max_count: 3, chance_percent: 100 },
                DropEntry { item_id: "ancient_stone", min_count: 8, max_count: 12, chance_percent: 100 },
                DropEntry { item_id: "golden_gear", min_count: 2, max_count: 3, chance_percent: 60 },
                DropEntry { item_id: "ancient_kings_seal", min_count: 1, max_count: 2, chance_percent: 30 },
                DropEntry { item_id: "dragon_scale", min_count: 1, max_count: 1, chance_percent: 15 },
                DropEntry { item_id: "skill_book_defense", min_count: 1, max_count: 1, chance_percent: 20 },
                DropEntry { item_id: "rare_pack_ticket", min_count: 1, max_count: 2, chance_percent: 30 },
            ];
        proof { assert(v@ =~= drop_table_spec(key@)); }
        v
    } else if str_eq(key, "スライム") {
        let v = vec![
                DropEntry { item_id: "gold", min_count: 5, max_count: 15, chance_percent: 100 },
                DropEntry { item_id: "ancient_stone", min_count: 1, max_count: 2, chance_percent: 30 },
                DropEntry { item_id: "rotten_wood", min_count: 1, max_count: 2, chance_percent: 20 },
                DropEntry { item_id: "card_pack_ticket", min_count: 1, max_count: 1, chance_percent: 3 },
            ];
        proof { assert(v@ =~= drop_table_spec(key@)); }
        v
    } else if str_eq(key, "ゴブリン") {
        let v = vec![
                DropEntry { item_id: "gold", min_count: 10, max_count: 25, chance_percent: 100 },
                DropEntry { item_id: "rusty_gear", min_count: 1, max_count: 2, chance_percent: 40 },
                DropEntry { item_id: "rotten_wood", min_count: 1, max_count: 3, chance_percent: 30 },
                DropEntry { item_id: "card_pack_ticket", min_count: 1, max_count: 1, chance_percent: 5 },
            ];
        proof { assert(v@ =~= drop_table_spec(key@)); }
        v
    } else if str_eq(key, "オーク") {
        let v = vec![
                DropEntry { item_id: "gold", min_count: 20, max_count: 40, chance_percent: 100 },
                DropEntry { item_id: "refined_iron", min_count: 1, max_count: 2, chance_percent: 40 },
                DropEntry { item_id: "broken_brick", min_count: 1, max_count: 3, chance_percent: 30 },
                DropEntry { item_id: "card_pack_ticket", min_count: 1, max_count: 1, chance_percent: 8 },
            ];
        proof { assert(v@ =~= drop_table_spec(key@)); }
        v
    } else if str_eq(key, "骸骨戦士") {
        let v = vec![
                DropEntry { item_id: "gold", min_count: 30, max_count: 60, chance_percent: 100 },
                DropEntry { item_id: "ancient_stone", min_count: 2, max_count: 4, chance_percent: 50 },
                DropEntry { item_id: "ancient_blueprint", min_count: 1, max_count: 1, chance_percent: 10 },
                DropEntry { item_id: "card_pack_ticket", min_count: 1, max_count: 1, chance_percent: 10 },
            ];
        proof { assert(v@ =~= drop_table_spec(key@)); }
        v
    } else if str_eq(key, "オーガ") {
        let v = vec![
                DropEntry { item_id: "gold", min_count: 50, max_count: 100, chance_percent: 100 },
                DropEntry { item_id: "refined_iron", min_count: 2, max_count: 4, chance_percent: 50 },
                DropEntry { item_id: "mystic_crystal", min_count: 1, max_count: 2, chance_percent: 30 },
                DropEntry { item_id: "card_pack_ticket", min_count: 1, max_count: 1, chance_percent: 15 },
                DropEntry { item_id: "rare_pack_ticket", min_count: 1, max_count: 1, chance_percent: 3 },
            ];
        proof { assert(v@ =~= drop_table_spec(key@)); }
        v
    } else if str_eq(key, "ワイバーン") {
        let v = vec![
                DropEntry { item_id: "gold", min_count: 80, max_count: 150, chance_percent: 100 },
                DropEntry { item_id: "shining_magicstone", min_count: 1, max_count: 2, chance_percent: 40 },
                DropEntry { item_id: "golden_gear", min_count: 1, max_count: 1, chance_percent: 15 },
                DropEntry { item_id: "dragon_scale", min_count: 1, max_count: 1, chance_percent: 5 },
                DropEntry { item_id: "card_pack_ticket", min_count: 1, max_count: 2, chance_percent: 20 },
                DropEntry { item_id: "rare_pack_ticket", min_count: 1, max_count: 1, chance_percent: 8 },
            ];
        proof { assert(v@ =~= drop_table_spec(key@)); }
        v
    } else {
        let v = vec![
                DropEntry { item_id: "gold", min_count: 10, max_count: 30, chance_percent: 100 },
                DropEntry { item_id: "ancient_stone", min_count: 1, max_count: 2, chance_percent: 30 },
                DropEntry { item_id: "rotten_wood", min_count: 1, max_count: 2, chance_percent: 30 },
                DropEntry { item_id: "card_pack_ticket", min_count: 1, max_count: 1, chance_percent: 5 },
            ];
        proof { assert(v@ =~= drop_table_spec(key@)); }
        v
    }
}

/// Japanese enemy names and the drop-table key they stand for.
pub open spec fn enemy_alias(t: Seq<char>) -> Seq<char> {
    if t == "ゴーレム"@ {
        "golem"@
    } else if t == "ファントム"@ {
        "phantom"@
    } else if t == "スケルトンナイト"@ {
        "skeleton_knight"@
    } else if t == "トレジャーミミック"@ {
        "treasure_mimic"@
    } else if t == "ダークウィザード"@ {
        "dark_wizard"@
    } else if t == "スライムキング"@ {
        "slime_king"@
    } else if t == "カースドアーマー"@ || t == "呪われた鎧"@ {
        "cursed_armor"@
    } else if t == "シャドウアサシン"@ {
        "shadow_assassin"@
    } else if t == "フレイムスピリット"@ || t == "炎の精霊"@ {
        "flame_spirit"@
    } else if t == "アイスエレメンタル"@ || t == "氷の精霊"@ {
        "ice_elemental"@
    } else if t == "ポイズンスパイダー"@ || t == "毒蜘蛛"@ {
        "poison_spider"@
    } else if t == "ストーンガーゴイル"@ {
        "stone_gargoyle"@
    } else if t == "デーモンインプ"@ {
        "demon_imp"@
    } else if t == "デスナイト"@ {
        "death_knight"@
    } else if t == "ネクロマンサー"@ {
        "necromancer"@
    } else if t == "クリスタルゴーレム"@ {
        "crystal_golem"@
    } else if t == "サンダーホーク"@ {
        "thunder_hawk"@
    } else if t == "アースワーム"@ {
        "earth_wyrm"@
    } else if t == "ヴォイドストーカー"@ {
        "void_stalker"@
    } else if t == "エンシェントマミー"@ {
        "ancient_mummy"@
    } else if t == "遺跡の守護者"@ {
        "ruin_guardian"@
    } else if t == "ドラゴンゾンビ"@ {
        "dragon_zombie"@
    } else if t == "リッチロード"@ {
        "lich_lord"@
    } else if t == "タイタンコロッサス"@ {
        "titan_colossus"@
    } else {
        t
    }
}

/// The drop-table key of an enemy name: trailing A/B/C dropped, Japanese names mapped.
pub open spec fn normalize_enemy_type_spec(enemy_type: Seq<char>) -> Seq<char> {
    enemy_alias(trim_abc(enemy_type))
}

fn alias_is(t: &Vec<char>, lit: &str) -> (r: bool)
    ensures
        r == (t@ == lit@),
{
    chars_eq(t, &chars_of(lit))
}

/// The drop-table key of an enemy name: trailing A/B/C dropped, Japanese names mapped.
pub fn normalize_enemy_type(enemy_type: &str) -> (r: &str)
    ensures
        r@ == normalize_enemy_type_spec(enemy_type@),
{
    let cs = chars_of(enemy_type);
    let k = trimmed_abc_len(&cs);
    let mut tv: Vec<char> = Vec::new();
    let mut i: usize = 0;
    while i < k
        invariant
            i <= k <= cs@.len(),
            tv@ == cs@.take(i as int),
        decreases k - i,
    {
        tv.push(cs[i]);
        i += 1;
        proof {
            assert(tv@ =~= cs@.take(i as int));
        }
    }
    if alias_is(&tv, "ゴーレム") {
        "golem"
    } else if alias_is(&tv, "ファントム") {
        "phantom"
    } else if alias_is(&tv, "スケルトンナイト") {
        "skeleton_knight"
    } else if alias_is(&tv, "トレジャーミミック") {
        "treasure_mimic"
    } else if alias_is(&tv, "ダークウィザード") {
        "dark_wizard"
    } else if alias_is(&tv, "スライムキング") {
        "slime_king"
    } else if alias_is(&tv, "カースドアーマー") || alias_is(&tv, "呪われた鎧") {
        "cursed_armor"
    } else if alias_is(&tv, "シャドウアサシン") {
        "shadow_assassin"
    } else if alias_is(&tv, "フレイムスピリット") || alias_is(&tv, "炎の精霊") {
        "flame_spirit"
    } else if alias_is(&tv, "アイスエレメンタル") || alias_is(&tv, "氷の精霊") {
        "ice_elemental"
    } else if alias_is(&tv, "ポイズンスパイダー") || alias_is(&tv, "毒蜘蛛") {
        "poison_spider"
    } else if alias_is(&tv, "ストーンガーゴイル") {
        "stone_gargoyle"
    } else if alias_is(&tv, "デーモンインプ") {
        "demon_imp"
    } else if alias_is(&tv, "デスナイト") {
        "death_knight"
    } else if alias_is(&tv, "ネクロマンサー") {
        "necromancer"
    } else if alias_is(&tv, "クリスタルゴーレム") {
        "crystal_golem"
    } else if alias_is(&tv, "サンダーホーク") {
        "thunder_hawk"
    } else if alias_is(&tv, "アースワーム") {
        "earth_wyrm"
    } else if alias_is(&tv, "ヴォイドストーカー") {
        "void_stalker"
    } else if alias_is(&tv, "エンシェントマミー") {
        "ancient_mummy"
    } else if alias_is(&tv, "遺跡の守護者") {
        "ruin_guardian"
    } else if alias_is(&tv, "ドラゴンゾンビ") {
        "dragon_zombie"
    } else if alias_is(&tv, "リッチロード") {
        "lich_lord"
    } else if alias_is(&tv, "タイタンコロッサス") {
        "titan_colossus"
    } else {
        proof {
            assert(cs@ == enemy_type@);
        }
        enemy_type.substring_char(0, k)
    }
}

/// The drop table of an enemy name.
pub fn get_drop_table(enemy_type: &str) -> (v: Vec<DropEntry>)
    ensures
        v@ == drop_table_spec(normalize_enemy_type_spec(enemy_type@)),
{
    drop_table_for(normalize_enemy_type(enemy_type))
}

/// Every drop table is short, its counts are small and ordered, and its chances are percents.
pub proof fn lemma_drop_table_bounds(key: Seq<char>)
    ensures
        drop_table_spec(key).len() <= 10,
        forall|j: int|
            0 <= j < drop_table_spec(key).len() ==> {
                let d = #[trigger] drop_table_spec(key)[j];
                1 <= d.min_count <= d.max_count <= 400 && d.chance_percent <= 100
            },
{
}

/// Every drop table has at least one line, every line a chance of at least one percent,
/// and no item stands on two lines of one table.
#[verifier::rlimit(100)]
pub proof fn lemma_drop_table_shape(key: Seq<char>)
    ensures
        drop_table_spec(key).len() >= 1,
        forall|j: int| 0 <= j < drop_table_spec(key).len() ==> (#[trigger] drop_table_spec(key)[j]).chance_percent >= 1,
        forall|i: int, j: int|
            0 <= i < j < drop_table_spec(key).len() ==> (#[trigger] drop_table_spec(key)[i]).item_id@
                != (#[trigger] drop_table_spec(key)[j]).item_id@,
{
    reveal_strlit("ancient_blueprint");
    reveal_strlit("ancient_kings_seal");
    reveal_strlit("ancient_stone");
    reveal_strlit("broken_brick");
    reveal_strlit("card_pack_ticket");
    reveal_strlit("dragon_scale");
    reveal_strlit("exp_crystal");
    reveal_strlit("gold");
    reveal_strlit("golden_gear");
    reveal_strlit("guardian_core");
    reveal_strlit("magic_shard");
    reveal_strlit("mystic_crystal");
    reveal_strlit("rare_pack_ticket");
    reveal_strlit("refined_iron");
    reveal_strlit("reinforced_fiber");
    reveal_strlit("rotten_wood");
    reveal_strlit("rusty_gear");
    reveal_strlit("shining_magicstone");
    reveal_strlit("skill_book_attack");
    reveal_strlit("skill_book_defense");
    reveal_strlit("skill_book_support");
    reveal_strlit("summon_shard");
    let t = drop_table_spec(key);
    assert forall|i: int, j: int| 0 <= i < j < t.len() implies (#[trigger] t[i]).item_id@ != (#[trigger] t[j]).item_id@ by {
        let a = t[i].item_id@;
        let b = t[j].item_id@;
        if a == b {
            assert(a.len() == b.len());
            assert(a[0] == b[0]);
            assert(a[1] == b[1]);
        }
    }
}

/// An enemy name that starts with a lower-case ASCII letter is no Japanese alias.
proof fn lemma_ascii_key_not_alias(k: Seq<char>)
    requires
        k.len() > 0,
        'a' <= k[0] <= 'z',
    ensures
        enemy_alias(k) == k,
{
    reveal_strlit("アイスエレメンタル");
    reveal_strlit("アースワーム");
    reveal_strlit("エンシェントマミー");
    reveal_strlit("オーガ");
    reveal_strlit("オーク");
    reveal_strlit("カースドアーマー");
    reveal_strlit("クリスタルゴーレム");
    reveal_strlit("ゴブリン");
    reveal_strlit("ゴーレム");
    reveal_strlit("サンダーホーク");
    reveal_strlit("シャドウアサシン");
    reveal_strlit("スケルトンナイト");
    reveal_strlit("ストーンガーゴイル");
    reveal_strlit("スライム");
    reveal_strlit("スライムキング");
    reveal_strlit("タイタンコロッサス");
    reveal_strlit("ダークウィザード");
    reveal_strlit("デスナイト");
    reveal_strlit("デーモンインプ");
    reveal_strlit("トレジャーミミック");
    reveal_strlit("ドラゴンゾンビ");
    reveal_strlit("ネクロマンサー");
    reveal_strlit("ファントム");
    reveal_strlit("フレイムスピリット");
    reveal_strlit("ポイズンスパイダー");
    reveal_strlit("リッチロード");
    reveal_strlit("ワイバーン");
    reveal_strlit("ヴォイドストーカー");
    reveal_strlit("呪われた鎧");
    reveal_strlit("毒蜘蛛");
    reveal_strlit("氷の精霊");
    reveal_strlit("炎の精霊");
    reveal_strlit("遺跡の守護者");
    reveal_strlit("骸骨戦士");
}

/// A drop-table key is its own key: trailing A/B/C and the Japanese names are resolved once.
proof fn lemma_enemy_key_fixed(s: Seq<char>)
    ensures
        trim_abc(normalize_enemy_type_spec(s)) == normalize_enemy_type_spec(s),
        enemy_alias(normalize_enemy_type_spec(s)) == normalize_enemy_type_spec(s),
{
    lemma_trim_abc_fixed(s);
    let t = trim_abc(s);
    let k = enemy_alias(t);
    if k != t {
        reveal_strlit("ancient_mummy");
        reveal_strlit("crystal_golem");
        reveal_strlit("cursed_armor");
        reveal_strlit("dark_wizard");
        reveal_strlit("death_knight");
        reveal_strlit("demon_imp");
        reveal_strlit("dragon_zombie");
        reveal_strlit("earth_wyrm");
        reveal_strlit("flame_spirit");
        reveal_strlit("golem");
        reveal_strlit("ice_elemental");
        reveal_strlit("lich_lord");
        reveal_strlit("necromancer");
        reveal_strlit("phantom");
        reveal_strlit("poison_spider");
        reveal_strlit("ruin_guardian");
        reveal_strlit("shadow_assassin");
        reveal_strlit("skeleton_knight");
        reveal_strlit("slime_king");
        reveal_strlit("stone_gargoyle");
        reveal_strlit("thunder_hawk");
        reveal_strlit("titan_colossus");
        reveal_strlit("treasure_mimic");
        reveal_strlit("void_stalker");
        assert(k.len() > 0 && 'a' <= k[0] <= 'z' && !is_abc(k[k.len() - 1]));
        lemma_ascii_key_not_alias(k);
    }
}

/// Trimming the trailing A/B/C twice trims nothing more.
proof fn lemma_trim_abc_fixed(s: Seq<char>)
    ensures
        trim_abc(trim_abc(s)) == trim_abc(s),
    decreases s.len(),
{
    if s.len() > 0 && is_abc(s.last()) {
        lemma_trim_abc_fixed(s.drop_last());
    }
}

/// A name and its drop-table key have the same table: an enemy name gives the table of
/// its key, so a Japanese name gives the table of the key it stands for.
pub proof fn lemma_drop_table_of_key(s: Seq<char>)
    ensures
        normalize_enemy_type_spec(normalize_enemy_type_spec(s)) == normalize_enemy_type_spec(s),
        drop_table_spec(normalize_enemy_type_spec(normalize_enemy_type_spec(s)))
            == drop_table_spec(normalize_enemy_type_spec(s)),
{
    lemma_enemy_key_fixed(s);
}

/// Trailing A, B or C on an enemy name (as in "ゴブリンA") does not change its drop table.
pub proof fn lemma_drop_table_ignores_suffix(s: Seq<char>, c: char)
    requires
        is_abc(c),
    ensures
        normalize_enemy_type_spec(s.push(c)) == normalize_enemy_type_spec(s),
        drop_table_spec(normalize_enemy_type_spec(s.push(c))) == drop_table_spec(normalize_enemy_type_spec(s)),
{
    assert(s.push(c).drop_last() =~= s);
}

/// The table of the `e`-th enemy of a battle.
pub open spec fn enemy_table(enemy_types: Seq<&str>, e: int) -> Seq<DropEntry> {
    drop_table_spec(normalize_enemy_type_spec(enemy_types[e]@))
}

/// Item `id` is on the table of one of the first `n` enemies.
pub open spec fn on_some_table(enemy_types: Seq<&str>, n: int, id: Seq<char>) -> bool {
    exists|e: int, j: int|
        0 <= e < n && 0 <= j < enemy_table(enemy_types, e).len() && (#[trigger] enemy_table(
            enemy_types,
            e,
        )[j]).item_id@ == id
}

/// The most of item `id` a table can drop: the sum of `max_count` over its lines for `id`.
pub open spec fn table_total(t: Seq<DropEntry>, id: Seq<char>) -> int
    decreases t.len(),
{
    if t.len() == 0 {
        0
    } else {
        table_total(t.drop_last(), id) + if t.last().item_id@ == id {
            t.last().max_count as int
        } else {
            0
        }
    }
}

/// The most of item `id` the first `n` enemies can drop (see [`table_total`]).
pub open spec fn max_total(enemy_types: Seq<&str>, n: int, id: Seq<char>) -> int
    decreases n,
{
    if n <= 0 {
        0
    } else {
        max_total(enemy_types, n - 1, id) + table_total(enemy_table(enemy_types, n - 1), id)
    }
}

/// A table's total is at least that of any prefix of it.
proof fn lemma_table_total_prefix(t: Seq<DropEntry>, k: int, id: Seq<char>)
    requires
        0 <= k <= t.len(),
    ensures
        table_total(t.take(k), id) <= table_total(t, id),
    decreases t.len(),
{
    if k < t.len() {
        lemma_table_total_prefix(t.drop_last(), k, id);
        assert(t.drop_last().take(k) =~= t.take(k));
        lemma_table_total_nonneg(t.drop_last(), id);
    } else {
        assert(t.take(k) =~= t);
    }
}

proof fn lemma_table_total_nonneg(t: Seq<DropEntry>, id: Seq<char>)
    ensures
        table_total(t, id) >= 0,
    decreases t.len(),
{
    if t.len() > 0 {
        lemma_table_total_nonneg(t.drop_last(), id);
    }
}

/// More enemies can drop no less.
proof fn lemma_max_total_monotone(enemy_types: Seq<&str>, n: int, m: int, id: Seq<char>)
    requires
        0 <= n <= m,
    ensures
        max_total(enemy_types, n, id) <= max_total(enemy_types, m, id),
    decreases m - n,
{
    if n < m {
        lemma_max_total_monotone(enemy_types, n, m - 1, id);
        lemma_table_total_nonneg(enemy_table(enemy_types, m - 1), id);
    }
}

/// The chance of a table line with a drop-rate bonus of `bonus` percent, in hundredths of a
/// percent (10000 is certain), capped at certainty.
pub open spec fn boosted_chance(chance_percent: u32, bonus: u32) -> int {
    let c = chance_percent * (100 + bonus);
    if c > 10000 {
        10000
    } else {
        c
    }
}

/// One table line of a battle: with its chance raised by `bonus` percent (capped at
/// certainty), it drops a count between its bounds, stacked onto `drops`.
/// The drop chance in hundredths of a percent: a line of chance `c` percent drops with
/// chance `c` percent without a bonus, a bonus of `b` percent raises it by that share of
/// itself, a larger bonus never lowers it, a line of chance 0 never drops and a line of
/// chance 100 always does, and no chance passes certainty.
pub proof fn lemma_boosted_chance(c: u32, b1: u32, b2: u32)
    requires
        c <= 100,
    ensures
        boosted_chance(c, 0) == 100 * c,
        0 <= boosted_chance(c, b1) <= 10000,
        c == 0 ==> boosted_chance(c, b1) == 0,
        c == 100 ==> boosted_chance(c, b1) == 10000,
        c * (100 + b1) <= 10000 ==> boosted_chance(c, b1) == c * (100 + b1),
        b1 <= b2 ==> boosted_chance(c, b1) <= boosted_chance(c, b2),
{
    assert(c * (100 + b1) >= 0) by (nonlinear_arith)
        requires c >= 0, b1 >= 0;
    if b1 <= b2 {
        assert(c * (100 + b1) <= c * (100 + b2)) by (nonlinear_arith)
            requires c >= 0, b1 <= b2;
    }
    if c == 100 {
        assert(c * (100 + b1) >= 10000) by (nonlinear_arith)
            requires c == 100, b1 >= 0;
    }
}

/// Rolls one table line: a roll drawn below 10000 makes the line drop exactly when it is
/// below the line's boosted chance (see [`boosted_chance`]); a dropping line adds a count
/// between its bounds, a line that does not drop changes nothing. Returns the roll.
fn roll_line(drops: &mut Vec<InventoryItem>, entry: DropEntry, bonus: u32) -> (roll: u32)
    requires
        ids_unique(stacks(old(drops)@)),
        1 <= entry.min_count <= entry.max_count,
        entry.chance_percent <= 100,
        count_of(stacks(old(drops)@), entry.item_id@) + entry.max_count <= u32::MAX,
    ensures
        ids_unique(stacks(final(drops)@)),
        forall|x: Seq<char>|
            #[trigger] count_of(stacks(final(drops)@), x) <= count_of(stacks(old(drops)@), x) + if x == entry.item_id@ {
                entry.max_count as int
            } else {
                0
            },
        forall|x: Seq<char>| #[trigger] count_of(stacks(final(drops)@), x) >= count_of(stacks(old(drops)@), x),
        boosted_chance(entry.chance_percent, bonus) == 10000 ==> count_of(stacks(final(drops)@), entry.item_id@)
            >= count_of(stacks(old(drops)@), entry.item_id@) + entry.min_count,
        count_of(stacks(final(drops)@), entry.item_id@) == count_of(stacks(old(drops)@), entry.item_id@) || count_of(
            stacks(final(drops)@),
            entry.item_id@,
        ) >= count_of(stacks(old(drops)@), entry.item_id@) + entry.min_count,
        forall|k: int|
            0 <= k < final(drops)@.len() ==> (#[trigger] final(drops)@[k]).item_id@ == entry.item_id@ || (k < old(drops)@.len()
                && old(drops)@[k].item_id@ == final(drops)@[k].item_id@),
        roll < 10000,
        (roll as int) < boosted_chance(entry.chance_percent, bonus) ==> count_of(stacks(final(drops)@), entry.item_id@)
            >= count_of(stacks(old(drops)@), entry.item_id@) + entry.min_count,
        (roll as int) >= boosted_chance(entry.chance_percent, bonus) ==> final(drops)@ == old(drops)@,
{
    proof {
        let c = entry.chance_percent;
        assert(c * (100 + bonus) <= 100 * (100 + u32::MAX)) by (nonlinear_arith)
            requires
                c <= 100,
        ;
    }
    let chance: u64 = (entry.chance_percent as u64) * (100 + bonus as u64);
    let roll = random_below_u32(10000);
    let ghost before = stacks(drops@);
    let ghost old_drops = drops@;
    if (roll as u64) < chance {
        let count = random_u32_in(entry.min_count, entry.max_count);
        proof {
            lemma_add_stack(before, entry.item_id@, count);
            lemma_count_nonneg(before, entry.item_id@);
        }
        add_to_drops(drops, entry.item_id, count);
        proof {
            let after = stacks(drops@);
            assert forall|k: int| 0 <= k < drops@.len() implies (#[trigger] drops@[k]).item_id@ == entry.item_id@ || (k
                < old_drops.len() && old_drops[k].item_id@ == drops@[k].item_id@) by {
                assert(after[k].0 == drops@[k].item_id@);
                match first_stack(before, entry.item_id@) {
                    Some(i) => {
                        if k != i {
                            assert(after[k] == before[k]);
                            assert(before[k].0 == old_drops[k].item_id@);
                        }
                    },
                    None => {
                        if k < before.len() {
                            assert(after[k] == before[k]);
                            assert(before[k].0 == old_drops[k].item_id@);
                        }
                    },
                }
            }
        }
    } else {
        proof {
            assert(boosted_chance(entry.chance_percent, bonus) < 10000);
        }
    }
    roll
}

/// Every item the stacks hold is on a line of the tables of the first `n` enemies whose least
/// count it reaches.
pub open spec fn stacks_reach_min(enemy_types: Seq<&str>, n: int, inv: Seq<(Seq<char>, u32)>) -> bool {
    forall|x: Seq<char>|
        #[trigger] count_of(inv, x) > 0 ==> exists|e: int, j: int|
            0 <= e < n && 0 <= j < enemy_table(enemy_types, e).len() && (#[trigger] enemy_table(enemy_types, e)[j]).item_id@
                == x && count_of(inv, x) >= enemy_table(enemy_types, e)[j].min_count
}

proof fn lemma_reach_min_widen(enemy_types: Seq<&str>, n: int, m: int, inv: Seq<(Seq<char>, u32)>)
    requires
        n <= m,
        stacks_reach_min(enemy_types, n, inv),
    ensures
        stacks_reach_min(enemy_types, m, inv),
{
    assert forall|x: Seq<char>| #[trigger] count_of(inv, x) > 0 implies exists|e: int, j: int|
        0 <= e < m && 0 <= j < enemy_table(enemy_types, e).len() && (#[trigger] enemy_table(enemy_types, e)[j]).item_id@
            == x && count_of(inv, x) >= enemy_table(enemy_types, e)[j].min_count by {
        let (e, j) = choose|e: int, j: int|
            0 <= e < n && 0 <= j < enemy_table(enemy_types, e).len() && (#[trigger] enemy_table(enemy_types, e)[j]).item_id@
                == x && count_of(inv, x) >= enemy_table(enemy_types, e)[j].min_count;
        assert(enemy_table(enemy_types, e)[j].item_id@ == x);
    }
}

/// Rolling line `j` of enemy `e` keeps every held item at a line's least count.
proof fn lemma_reach_min_step(
    enemy_types: Seq<&str>,
    n: int,
    e: int,
    j: int,
    before: Seq<(Seq<char>, u32)>,
    after: Seq<(Seq<char>, u32)>,
)
    requires
        stacks_reach_min(enemy_types, n, before),
        0 <= e < n,
        0 <= j < enemy_table(enemy_types, e).len(),
        forall|x: Seq<char>|
            x != enemy_table(enemy_types, e)[j].item_id@ ==> #[trigger] count_of(after, x) == count_of(before, x),
        count_of(after, enemy_table(enemy_types, e)[j].item_id@) == count_of(before, enemy_table(enemy_types, e)[j].item_id@)
            || count_of(after, enemy_table(enemy_types, e)[j].item_id@) >= count_of(
            before,
            enemy_table(enemy_types, e)[j].item_id@,
        ) + enemy_table(enemy_types, e)[j].min_count,
        count_of(before, enemy_table(enemy_types, e)[j].item_id@) >= 0,
    ensures
        stacks_reach_min(enemy_types, n, after),
{
    let line = enemy_table(enemy_types, e)[j];
    assert forall|x: Seq<char>| #[trigger] count_of(after, x) > 0 implies exists|e2: int, j2: int|
        0 <= e2 < n && 0 <= j2 < enemy_table(enemy_types, e2).len() && (#[trigger] enemy_table(enemy_types, e2)[j2]).item_id@
            == x && count_of(after, x) >= enemy_table(enemy_types, e2)[j2].min_count by {
        if x == line.item_id@ && count_of(after, x) != count_of(before, x) {
            assert(enemy_table(enemy_types, e)[j].item_id@ == x);
        } else {
            assert(count_of(before, x) > 0);
            let (e2, j2) = choose|e2: int, j2: int|
                0 <= e2 < n && 0 <= j2 < enemy_table(enemy_types, e2).len() && (#[trigger] enemy_table(enemy_types, e2)[j2]).item_id@
                    == x && count_of(before, x) >= enemy_table(enemy_types, e2)[j2].min_count;
            assert(enemy_table(enemy_types, e2)[j2].item_id@ == x);
        }
    }
}

/// The drops of a battle against `enemy_types`: every line of every enemy's table drops with
/// its chance raised by `drop_rate_bonus` percent (capped at certainty), in a count drawn
/// between the line's bounds; equal items are stacked.
#[verifier::rlimit(60)]
pub fn calculate_drops(enemy_types: &[&str], drop_rate_bonus: u32) -> (drops: Vec<InventoryItem>)
    requires
        forall|x: Seq<char>| #[trigger] max_total(enemy_types@, enemy_types@.len() as int, x) <= u32::MAX,
    ensures
        ids_unique(stacks(drops@)),
        forall|x: Seq<char>|
            #[trigger] count_of(stacks(drops@), x) <= max_total(enemy_types@, enemy_types@.len() as int, x),
        forall|k: int|
            0 <= k < drops@.len() ==> on_some_table(
                enemy_types@,
                enemy_types@.len() as int,
                #[trigger] drops@[k].item_id@,
            ),
        forall|e: int, j: int|
            0 <= e < enemy_types@.len() && 0 <= j < enemy_table(enemy_types@, e).len()
                && boosted_chance(enemy_table(enemy_types@, e)[j].chance_percent, drop_rate_bonus)
                == 10000 ==> count_of(
                stacks(drops@),
                (#[trigger] enemy_table(enemy_types@, e)[j]).item_id@,
            ) >= enemy_table(enemy_types@, e)[j].min_count,
        stacks_reach_min(enemy_types@, enemy_types@.len() as int, stacks(drops@)),
{
    let mut drops: Vec<InventoryItem> = Vec::new();
    let mut e: usize = 0;
    while e < enemy_types.len()
        invariant
            e <= enemy_types@.len(),
            forall|x: Seq<char>| #[trigger] max_total(enemy_types@, enemy_types@.len() as int, x) <= u32::MAX,
            ids_unique(stacks(drops@)),
            stacks_reach_min(enemy_types@, e as int, stacks(drops@)),
            forall|x: Seq<char>| #[trigger] count_of(stacks(drops@), x) <= max_total(enemy_types@, e as int, x),
            forall|k: int|
                0 <= k < drops@.len() ==> on_some_table(
                    enemy_types@,
                    e as int,
                    #[trigger] drops@[k].item_id@,
                ),
            forall|e2: int, j: int|
                0 <= e2 < e && 0 <= j < enemy_table(enemy_types@, e2).len() && boosted_chance(
                    enemy_table(enemy_types@, e2)[j].chance_percent,
                    drop_rate_bonus,
                ) == 10000 ==> count_of(
                    stacks(drops@),
                    (#[trigger] enemy_table(enemy_types@, e2)[j]).item_id@,
                ) >= enemy_table(enemy_types@, e2)[j].min_count,
        decreases enemy_types@.len() - e,
    {
        let table = get_drop_table(enemy_types[e]);
        proof {
            lemma_reach_min_widen(enemy_types@, e as int, e + 1, stacks(drops@));
            lemma_drop_table_bounds(normalize_enemy_type_spec(enemy_types@[e as int]@));
            assert(table@ == enemy_table(enemy_types@, e as int));
            assert forall|k: int| 0 <= k < drops@.len() implies on_some_table(
                enemy_types@,
                e + 1,
                #[trigger] drops@[k].item_id@,
            ) by {
                assert(on_some_table(enemy_types@, e as int, drops@[k].item_id@));
                let (e2, j2) = choose|e2: int, j2: int|
                    0 <= e2 < e && 0 <= j2 < enemy_table(enemy_types@, e2).len() && (
                    #[trigger] enemy_table(enemy_types@, e2)[j2]).item_id@ == drops@[k].item_id@;
                assert(enemy_table(enemy_types@, e2)[j2].item_id@ == drops@[k].item_id@);
            }
        }
        let mut j: usize = 0;
        while j < table.len()
            invariant
                e < enemy_types@.len(),
                forall|x: Seq<char>| #[trigger] max_total(enemy_types@, enemy_types@.len() as int, x) <= u32::MAX,
                j <= table@.len() <= 10,
                table@ == enemy_table(enemy_types@, e as int),
                forall|i: int|
                    0 <= i < table@.len() ==> {
                        let d = #[trigger] table@[i];
                        1 <= d.min_count <= d.max_count <= 400 && d.chance_percent <= 100
                    },
                ids_unique(stacks(drops@)),
                stacks_reach_min(enemy_types@, e + 1, stacks(drops@)),
                forall|x: Seq<char>|
                    #[trigger] count_of(stacks(drops@), x) <= max_total(enemy_types@, e as int, x) + table_total(
                        table@.take(j as int),
                        x,
                    ),
                forall|k: int|
                    0 <= k < drops@.len() ==> on_some_table(
                        enemy_types@,
                        e + 1,
                        #[trigger] drops@[k].item_id@,
                    ),
                forall|e2: int, i: int|
                    0 <= e2 < e && 0 <= i < enemy_table(enemy_types@, e2).len() && boosted_chance(
                        enemy_table(enemy_types@, e2)[i].chance_percent,
                        drop_rate_bonus,
                    ) == 10000 ==> count_of(
                        stacks(drops@),
                        (#[trigger] enemy_table(enemy_types@, e2)[i]).item_id@,
                    ) >= enemy_table(enemy_types@, e2)[i].min_count,
                forall|i: int|
                    0 <= i < j && boosted_chance(table@[i].chance_percent, drop_rate_bonus)
                        == 10000 ==> count_of(stacks(drops@), (#[trigger] table@[i]).item_id@)
                        >= table@[i].min_count,
            decreases table@.len() - j,
        {
            let entry = table[j];
            let ghost before = drops@;
            proof {
                assert(table@[j as int] == entry);
                assert(table@.take(j + 1).drop_last() =~= table@.take(j as int));
                assert(table@.take(j + 1).last() == entry);
                lemma_table_total_prefix(table@, j + 1, entry.item_id@);
                lemma_max_total_monotone(enemy_types@, e + 1, enemy_types@.len() as int, entry.item_id@);
                assert(max_total(enemy_types@, e + 1, entry.item_id@) == max_total(enemy_types@, e as int, entry.item_id@)
                    + table_total(table@, entry.item_id@));
                assert(count_of(stacks(before), entry.item_id@) + entry.max_count <= u32::MAX);
            }
            let _ = roll_line(&mut drops, entry, drop_rate_bonus);
            proof {
                lemma_count_nonneg(stacks(before), entry.item_id@);
                assert forall|x: Seq<char>| x != enemy_table(enemy_types@, e as int)[j as int].item_id@ implies #[trigger] count_of(
                    stacks(drops@),
                    x,
                ) == count_of(stacks(before), x) by {
                    assert(count_of(stacks(drops@), x) <= count_of(stacks(before), x));
                    assert(count_of(stacks(drops@), x) >= count_of(stacks(before), x));
                }
                lemma_reach_min_step(enemy_types@, e + 1, e as int, j as int, stacks(before), stacks(drops@));
                assert forall|k: int| 0 <= k < drops@.len() implies on_some_table(
                    enemy_types@,
                    e + 1,
                    #[trigger] drops@[k].item_id@,
                ) by {
                    if drops@[k].item_id@ == entry.item_id@ {
                        assert(table@[j as int] == enemy_table(enemy_types@, e as int)[j as int]);
                    } else {
                        assert(before[k].item_id@ == drops@[k].item_id@);
                    }
                }
                assert forall|x: Seq<char>| #[trigger] count_of(stacks(drops@), x) <= max_total(enemy_types@, e as int, x)
                    + table_total(table@.take(j + 1), x) by {
                    assert(count_of(stacks(before), x) <= max_total(enemy_types@, e as int, x) + table_total(table@.take(j as int), x));
                }
                assert forall|i: int|
                    0 <= i < j + 1 && boosted_chance(table@[i].chance_percent, drop_rate_bonus) == 10000 implies count_of(
                        stacks(drops@),
                        (#[trigger] table@[i]).item_id@,
                    ) >= table@[i].min_count by {
                    if i < j {
                        assert(count_of(stacks(before), table@[i].item_id@) >= table@[i].min_count);
                        assert(count_of(stacks(drops@), table@[i].item_id@) >= count_of(stacks(before), table@[i].item_id@));
                    } else {
                        lemma_count_nonneg(stacks(before), entry.item_id@);
                    }
                }
                assert forall|e2: int, i: int|
                    0 <= e2 < e && 0 <= i < enemy_table(enemy_types@, e2).len() && boosted_chance(
                        enemy_table(enemy_types@, e2)[i].chance_percent,
                        drop_rate_bonus,
                    ) == 10000 implies count_of(
                        stacks(drops@),
                        (#[trigger] enemy_table(enemy_types@, e2)[i]).item_id@,
                    ) >= enemy_table(enemy_types@, e2)[i].min_count by {
                    let id = enemy_table(enemy_types@, e2)[i].item_id@;
                    assert(count_of(stacks(before), id) >= enemy_table(enemy_types@, e2)[i].min_count);
                    assert(count_of(stacks(drops@), id) >= count_of(stacks(before), id));
                }
            }
            j += 1;
        }
        proof {
            assert(table@.take(table@.len() as int) =~= table@);
            assert forall|x: Seq<char>| #[trigger] count_of(stacks(drops@), x) <= max_total(enemy_types@, e + 1, x) by {
                assert(max_total(enemy_types@, e + 1, x) == max_total(enemy_types@, e as int, x) + table_total(table@, x));
            }
        }
        e += 1;
    }
    drops
}

} // verus!
