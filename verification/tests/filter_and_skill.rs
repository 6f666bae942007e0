use ruins_core::defs::{CharaId, ItemListLocation};
use ruins_core::equip::EquipSlotKind;
use ruins_core::filter::{FilteredItemList, ItemFilter};
use ruins_core::item::{
    Item, ItemFlags, ItemIdx, ItemKind, ItemList, ItemRank, MedicalEffect, WeaponKind,
    ITEM_FLAG_DRINKABLE, ITEM_FLAG_EATABLE,
};
use ruins_core::item::ItemKindRough;
use ruins_core::skill::{SkillKind, SkillList, SkillListEx};
use ruins_core::talkscript::TalkSectionKind;

fn item(idx: u32, kind: ItemKind, bits: u64) -> Item {
    Item {
        idx: ItemIdx(idx),
        kind,
        flags: ItemFlags { bits },
        rank: ItemRank::default(),
        attributes: Vec::new(),
    }
}

#[test]
fn filter_all_keeps_everything() {
    let f = ItemFilter::all();
    assert!(f.judge(&item(1, ItemKind::Object, 0)));
    assert!(f.judge(&item(2, ItemKind::Weapon(WeaponKind::Gun), 0)));
}

#[test]
fn filter_by_slot_kind_and_flags() {
    let f = ItemFilter::new().equip_slot_kind(EquipSlotKind::MeleeWeapon);
    assert!(f.judge(&item(1, ItemKind::Weapon(WeaponKind::Sword), 0)));
    assert!(!f.judge(&item(1, ItemKind::Weapon(WeaponKind::Bow), 0)));
    assert!(!f.judge(&item(1, ItemKind::Potion, 0)));
    let f2 = ItemFilter::new().flags(ItemFlags { bits: ITEM_FLAG_EATABLE });
    assert!(f2.judge(&item(1, ItemKind::Food, ITEM_FLAG_EATABLE | ITEM_FLAG_DRINKABLE)));
    assert!(!f2.judge(&item(1, ItemKind::Food, ITEM_FLAG_DRINKABLE)));
}

#[test]
fn filtered_list_walks_matching_entries() {
    let mut list = ItemList::new();
    list.append(item(1, ItemKind::Food, ITEM_FLAG_EATABLE), 3);
    list.append(item(2, ItemKind::Potion, ITEM_FLAG_DRINKABLE), 1);
    list.append(item(3, ItemKind::Food, ITEM_FLAG_EATABLE), 2);
    let loc = ItemListLocation::Chara { cid: CharaId::Player };
    let mut cursor = FilteredItemList::new(
        loc,
        ItemFilter::new().flags(ItemFlags { bits: ITEM_FLAG_EATABLE }),
    );
    // the list sorts potions before food, so the eatable entries stand at
    // indices 1 and 2
    let first = cursor.next(&list).expect("a match expected");
    assert_eq!(first.0, (loc, 1));
    assert_eq!(first.1.idx, ItemIdx(1));
    assert_eq!(first.2, 3);
    let second = cursor.next(&list).expect("a match expected");
    assert_eq!(second.0, (loc, 2));
    assert_eq!(second.1.idx, ItemIdx(3));
    assert_eq!(second.2, 2);
    assert!(cursor.next(&list).is_none());
    // a cursor over everything sees each entry
    let mut all = FilteredItemList::all(loc);
    let mut n = 0;
    while all.next(&list).is_some() {
        n += 1;
    }
    assert_eq!(n, 3);
}

#[test]
fn skills_learn_and_level() {
    let mut sl = SkillList::new();
    // without an experience table nothing is booked
    assert_eq!(sl.add_exp(SkillKind::Endurance, 100), (false, 0));
    sl.learn_new_skill(SkillKind::Endurance);
    assert_eq!(sl.skills, vec![(SkillKind::Endurance, 1)]);
    // an unknown skill books nothing
    assert_eq!(sl.add_exp(SkillKind::Healing, 100), (false, 0));
    // booking caps at one level's worth and a full bar levels up
    assert_eq!(sl.add_exp(SkillKind::Endurance, 20000), (true, 10000));
    assert_eq!(sl.skills, vec![(SkillKind::Endurance, 2)]);
    assert_eq!(sl.exp, Some(vec![(SkillKind::Endurance, 0)]));
    // a partial bar accumulates
    assert_eq!(sl.add_exp(SkillKind::Endurance, 4000), (false, 4000));
    assert_eq!(sl.exp, Some(vec![(SkillKind::Endurance, 4000)]));
    assert_eq!(sl.add_exp(SkillKind::Endurance, 6000), (true, 6000));
    assert_eq!(sl.skills, vec![(SkillKind::Endurance, 3)]);
    // learning a known skill changes nothing
    sl.learn_new_skill(SkillKind::Endurance);
    assert_eq!(sl.skills, vec![(SkillKind::Endurance, 3)]);
    // levels can be set directly
    sl.set_skill_level(SkillKind::Weapon(WeaponKind::Sword), 5);
    assert_eq!(sl.skills, vec![(SkillKind::Endurance, 3), (SkillKind::Weapon(WeaponKind::Sword), 5)]);
}

#[test]
fn kind_taxonomies_cover_their_variants() {
    let rough = [
        ItemKindRough::Object,
        ItemKindRough::Potion,
        ItemKindRough::Food,
        ItemKindRough::Weapon,
        ItemKindRough::Armor,
        ItemKindRough::Material,
        ItemKindRough::Special,
    ];
    assert_eq!(rough.len(), 7);
    assert_ne!(TalkSectionKind::Normal, TalkSectionKind::Reaction);
    assert_ne!(TalkSectionKind::Reaction, TalkSectionKind::Special);
}

#[test]
fn defaults() {
    assert_eq!(MedicalEffect::default(), MedicalEffect::NoEffect);
    assert_eq!(ItemRank::default(), ItemRank { base: 0, enchant: 0, damage: 0 });
    let f = ItemFilter::default();
    assert!(!f.all);
    assert!(f.equip_slot_kind.is_none());
    assert_eq!(f.flags.bits, 0);
}
