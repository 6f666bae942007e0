use ruins_core::equip::{EquipItemList, EquipSlotKind};
use ruins_core::item::{ArmorKind, Item, ItemFlags, ItemIdx, ItemKind, ItemRank, WeaponKind};

fn weapon(idx: u32, kind: WeaponKind) -> Item {
    Item {
        idx: ItemIdx(idx),
        kind: ItemKind::Weapon(kind),
        flags: ItemFlags { bits: 0 },
        rank: ItemRank::default(),
        attributes: Vec::new(),
    }
}

fn body_armor(idx: u32) -> Item {
    Item {
        idx: ItemIdx(idx),
        kind: ItemKind::Armor(ArmorKind::Body),
        flags: ItemFlags { bits: 0 },
        rank: ItemRank::default(),
        attributes: Vec::new(),
    }
}

fn table() -> EquipItemList {
    EquipItemList::new(&[
        (EquipSlotKind::BodyArmor, 1),
        (EquipSlotKind::MeleeWeapon, 2),
    ])
}

#[test]
fn new_table_counts_and_empty_slots() {
    let el = table();
    assert_eq!(el.n_slots(), 3);
    assert_eq!(el.slot_num(EquipSlotKind::MeleeWeapon), 2);
    assert_eq!(el.slot_num(EquipSlotKind::BodyArmor), 1);
    assert_eq!(el.slot_num(EquipSlotKind::Shield), 0);
    assert!(el.is_slot_empty(EquipSlotKind::MeleeWeapon, 0));
    assert!(el.is_slot_empty(EquipSlotKind::MeleeWeapon, 1));
    assert!(el.is_slot_empty(EquipSlotKind::BodyArmor, 0));
    // a slot that does not exist reports false
    assert!(!el.is_slot_empty(EquipSlotKind::Shield, 0));
    assert!(el.item(EquipSlotKind::MeleeWeapon, 0).is_none());
    assert!(el.list().is_empty());
}

#[test]
fn equip_then_replace_returns_displaced_item() {
    // equip(kind, ordinal, A) then equip(kind, ordinal, B) returns Some(A);
    // item(kind, ordinal) afterwards returns Some(B)
    let mut el = table();
    let a = weapon(10, WeaponKind::Sword);
    let b = weapon(11, WeaponKind::Axe);
    assert!(el.equip(EquipSlotKind::MeleeWeapon, 0, a).is_none());
    let displaced = el.equip(EquipSlotKind::MeleeWeapon, 0, b);
    assert_eq!(displaced.map(|it| it.idx), Some(ItemIdx(10)));
    assert_eq!(el.item(EquipSlotKind::MeleeWeapon, 0).map(|it| it.idx), Some(ItemIdx(11)));
    assert_eq!(el.list().items.len(), 1);
}

#[test]
fn equip_keeps_backing_list_in_table_order() {
    let mut el = table();
    // table order: melee slots come before the body-armor slot
    assert!(el.equip(EquipSlotKind::MeleeWeapon, 1, weapon(21, WeaponKind::Spear)).is_none());
    assert!(el.equip(EquipSlotKind::BodyArmor, 0, body_armor(30)).is_none());
    assert!(el.equip(EquipSlotKind::MeleeWeapon, 0, weapon(20, WeaponKind::Sword)).is_none());
    let idxs: Vec<u32> = el.list().items.iter().map(|p| p.0.idx.0).collect();
    assert_eq!(idxs, vec![20, 21, 30]);
    assert_eq!(el.item(EquipSlotKind::BodyArmor, 0).map(|it| it.idx), Some(ItemIdx(30)));
    assert_eq!(el.item(EquipSlotKind::MeleeWeapon, 0).map(|it| it.idx), Some(ItemIdx(20)));
    assert_eq!(el.item(EquipSlotKind::MeleeWeapon, 1).map(|it| it.idx), Some(ItemIdx(21)));
    assert!(!el.is_slot_empty(EquipSlotKind::MeleeWeapon, 0));
}

#[test]
fn slot_iter_and_item_iter_walk_the_table() {
    let mut el = table();
    el.equip(EquipSlotKind::MeleeWeapon, 1, weapon(40, WeaponKind::Whip));
    let slots = el.slot_iter();
    assert_eq!(slots.len(), 3);
    assert_eq!(slots[0].0, EquipSlotKind::MeleeWeapon);
    assert!(slots[0].2.is_none());
    assert_eq!(slots[2].0, EquipSlotKind::BodyArmor);
    assert_eq!(slots[2].1, 0);
    assert!(slots[2].2.is_none());
    assert_eq!(slots[1].0, EquipSlotKind::MeleeWeapon);
    assert_eq!(slots[1].1, 1);
    assert_eq!(slots[1].2.as_ref().map(|it| it.idx), Some(ItemIdx(40)));
    let items = el.item_iter();
    assert_eq!(items.len(), 1);
    assert_eq!(items[0].0, EquipSlotKind::MeleeWeapon);
    assert_eq!(items[0].1, 1);
    assert_eq!(items[0].2.idx, ItemIdx(40));
}

#[test]
fn equip_slot_kind_of_item_kinds() {
    assert_eq!(ItemKind::Weapon(WeaponKind::Sword).equip_slot_kind(), Some(EquipSlotKind::MeleeWeapon));
    assert_eq!(ItemKind::Weapon(WeaponKind::Spear).equip_slot_kind(), Some(EquipSlotKind::MeleeWeapon));
    assert_eq!(ItemKind::Weapon(WeaponKind::Axe).equip_slot_kind(), Some(EquipSlotKind::MeleeWeapon));
    assert_eq!(ItemKind::Weapon(WeaponKind::Bow).equip_slot_kind(), Some(EquipSlotKind::RangedWeapon));
    assert_eq!(ItemKind::Weapon(WeaponKind::Whip).equip_slot_kind(), Some(EquipSlotKind::RangedWeapon));
    assert_eq!(ItemKind::Armor(ArmorKind::Body).equip_slot_kind(), Some(EquipSlotKind::BodyArmor));
    assert_eq!(ItemKind::Armor(ArmorKind::Shield).equip_slot_kind(), Some(EquipSlotKind::Shield));
    assert_eq!(ItemKind::Object.equip_slot_kind(), None);
    assert_eq!(WeaponKind::Gun.equip_slot_kind(), EquipSlotKind::RangedWeapon);
    assert_eq!(ArmorKind::Shield.equip_slot_kind(), EquipSlotKind::Shield);
}
