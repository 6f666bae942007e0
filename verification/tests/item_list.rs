use ruins_core::item::{
    Item, ItemAttribute, ItemFlags, ItemIdx, ItemKind, ItemList, ItemMoveNum, ItemRank, WeaponKind,
};
use std::cmp::Ordering;

fn rank(base: i8, enchant: i8, damage: i8) -> ItemRank {
    ItemRank { base, enchant, damage }
}

fn item(idx: u32, kind: ItemKind) -> Item {
    Item {
        idx: ItemIdx(idx),
        kind,
        flags: ItemFlags { bits: 0 },
        rank: ItemRank::default(),
        attributes: Vec::new(),
    }
}

fn item_full(idx: u32, kind: ItemKind, r: ItemRank, attributes: Vec<ItemAttribute>) -> Item {
    Item { idx: ItemIdx(idx), kind, flags: ItemFlags { bits: 0 }, rank: r, attributes }
}

#[test]
fn append_keeps_strict_key_order() {
    let mut list = ItemList::new();
    list.append(item(3, ItemKind::Potion), 1);
    list.append(item(1, ItemKind::Special), 2);
    list.append(item(2, ItemKind::Object), 4);
    list.append(item(1, ItemKind::Potion), 1);
    // order: Object < Potion < Special; within a kind by idx
    let kinds_idx: Vec<(ItemKind, u32)> =
        list.items.iter().map(|p| (p.0.kind, p.0.idx.0)).collect();
    assert_eq!(
        kinds_idx,
        vec![
            (ItemKind::Object, 2),
            (ItemKind::Potion, 1),
            (ItemKind::Potion, 3),
            (ItemKind::Special, 1),
        ]
    );
}

#[test]
fn append_merges_equal_keys() {
    let mut list = ItemList::new();
    list.append(item(5, ItemKind::Food), 2);
    list.append(item(5, ItemKind::Food), 3);
    assert_eq!(list.items.len(), 1);
    assert_eq!(list.get_number(0), 5);
}

#[test]
fn append_merges_when_only_flags_differ() {
    // flags take no part in the item key
    let mut list = ItemList::new();
    let mut a = item(7, ItemKind::Material);
    a.flags = ItemFlags { bits: 1 };
    let mut b = item(7, ItemKind::Material);
    b.flags = ItemFlags { bits: 2 };
    list.append(a, 1);
    list.append(b, 1);
    assert_eq!(list.items.len(), 1);
    assert_eq!(list.get_number(0), 2);
    // the stored item is the first appended one
    assert_eq!(list.items[0].0.flags.bits, 1);
}

#[test]
fn rank_and_attributes_make_distinct_keys() {
    // enchanted or damaged items never stack with their base form
    let mut list = ItemList::new();
    list.append(item_full(4, ItemKind::Weapon(WeaponKind::Sword), rank(0, 0, 0), Vec::new()), 1);
    list.append(item_full(4, ItemKind::Weapon(WeaponKind::Sword), rank(0, 1, 0), Vec::new()), 1);
    list.append(
        item_full(
            4,
            ItemKind::Weapon(WeaponKind::Sword),
            rank(0, 0, 0),
            vec![ItemAttribute::ContentGen { level: 1, seed: 9 }],
        ),
        1,
    );
    assert_eq!(list.items.len(), 3);
    // base item first, then the one with an attribute, then the enchanted one
    assert_eq!(list.items[0].0.rank, rank(0, 0, 0));
    assert!(list.items[0].0.attributes.is_empty());
    assert_eq!(list.items[1].0.attributes.len(), 1);
    assert_eq!(list.items[2].0.rank, rank(0, 1, 0));
}

#[test]
fn remove_partial_and_all() {
    let mut list = ItemList::new();
    list.append(item(1, ItemKind::Food), 5);
    list.remove(0, ItemMoveNum::Partial(2));
    assert_eq!(list.get_number(0), 3);
    list.remove(0, ItemMoveNum::All);
    assert!(list.is_empty());
}

#[test]
fn remove_exact_count_deletes_entry() {
    let mut list = ItemList::new();
    list.append(item(1, ItemKind::Food), 2);
    list.append(item(2, ItemKind::Food), 1);
    list.remove(0, ItemMoveNum::Partial(2));
    assert_eq!(list.items.len(), 1);
    assert_eq!(list.items[0].0.idx, ItemIdx(2));
}

#[test]
fn remove_and_get_returns_original_item() {
    let mut list = ItemList::new();
    let it = item_full(
        9,
        ItemKind::Armor(ruins_core::item::ArmorKind::Shield),
        rank(1, 2, -1),
        vec![ItemAttribute::ContentGen { level: 3, seed: 4 }],
    );
    list.append(item(1, ItemKind::Object), 1);
    list.append(it, 2);
    let got = list.remove_and_get(1, ItemMoveNum::All);
    assert_eq!(got.idx, ItemIdx(9));
    assert_eq!(got.rank, rank(1, 2, -1));
    assert_eq!(got.attributes, vec![ItemAttribute::ContentGen { level: 3, seed: 4 }]);
    // the other entry is untouched
    assert_eq!(list.items.len(), 1);
    assert_eq!(list.items[0].0.idx, ItemIdx(1));
}

fn total_for_idx(list: &ItemList, idx: u32) -> u64 {
    list.items.iter().filter(|p| p.0.idx.0 == idx).map(|p| p.1 as u64).sum()
}

#[test]
fn move_to_preserves_total_counts() {
    let mut src = ItemList::new();
    let mut dest = ItemList::new();
    src.append(item(1, ItemKind::Food), 5);
    src.append(item(2, ItemKind::Food), 1);
    dest.append(item(1, ItemKind::Food), 4);
    let before = total_for_idx(&src, 1) + total_for_idx(&dest, 1);
    src.move_to(&mut dest, 0, ItemMoveNum::Partial(3));
    let after = total_for_idx(&src, 1) + total_for_idx(&dest, 1);
    assert_eq!(before, after);
    assert_eq!(src.get_number(0), 2);
    assert_eq!(dest.get_number(0), 7);
    // moving the rest deletes the source entry
    src.move_to(&mut dest, 0, ItemMoveNum::All);
    assert_eq!(total_for_idx(&src, 1), 0);
    assert_eq!(total_for_idx(&dest, 1), 9);
}

#[test]
fn find_returns_first_entry_with_index() {
    let mut list = ItemList::new();
    list.append(item(4, ItemKind::Object), 1);
    list.append(item(6, ItemKind::Potion), 1);
    assert_eq!(list.find(ItemIdx(6)), Some(1));
    assert_eq!(list.find(ItemIdx(5)), None);
}

#[test]
fn clear_and_iter() {
    let mut list = ItemList::new();
    list.append(item(1, ItemKind::Object), 1);
    assert_eq!(list.iter().len(), 1);
    list.clear();
    assert!(list.is_empty());
}

#[test]
fn move_num_to_u32() {
    assert_eq!(ItemMoveNum::All.to_u32(17), 17);
    assert_eq!(ItemMoveNum::Partial(4).to_u32(17), 4);
}

#[test]
fn item_cmp_follows_key_order() {
    let a = item(1, ItemKind::Object);
    let b = item(1, ItemKind::Potion);
    assert_eq!(a.cmp(&b), Ordering::Less);
    assert_eq!(b.cmp(&a), Ordering::Greater);
    // weapons order by weapon kind
    let sword = item(1, ItemKind::Weapon(WeaponKind::Sword));
    let gun = item(1, ItemKind::Weapon(WeaponKind::Gun));
    assert_eq!(sword.cmp(&gun), Ordering::Less);
    // equal keys with different flags compare equal
    let mut c = item(1, ItemKind::Object);
    c.flags = ItemFlags { bits: 3 };
    assert_eq!(a.cmp(&c), Ordering::Equal);
    // a strict prefix of the attributes precedes its extension
    let short = item_full(1, ItemKind::Object, rank(0, 0, 0), Vec::new());
    let long = item_full(
        1,
        ItemKind::Object,
        rank(0, 0, 0),
        vec![ItemAttribute::ContentGen { level: 0, seed: 0 }],
    );
    assert_eq!(short.cmp(&long), Ordering::Less);
}

#[test]
fn rank_as_int_sums_parts() {
    assert_eq!(rank(3, 2, -4).as_int(), 1);
    assert_eq!(ItemRank::default().as_int(), 0);
}

#[test]
fn flags_contains() {
    let f = ItemFlags { bits: ruins_core::item::ITEM_FLAG_EATABLE | ruins_core::item::ITEM_FLAG_DRINKABLE };
    assert!(f.contains(ItemFlags { bits: ruins_core::item::ITEM_FLAG_EATABLE }));
    assert!(!ItemFlags::empty().contains(ItemFlags { bits: ruins_core::item::ITEM_FLAG_DRINKABLE }));
}
