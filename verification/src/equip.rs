//! Equipment slot table layered over a backing item list.
//!
//! Slots are grouped and sorted by slot kind, with 0-based ordinals within
//! each kind. An occupied slot holds an index into the backing list; in
//! table order the occupied slots hold exactly the indices `0, 1, 2, ...`,
//! so the backing list order always agrees with the slot table order.

use vstd::prelude::*;

use crate::item::{ArmorKind, Item, ItemKind, ItemList, ItemView, WeaponKind};

verus! {

pub const MAX_SLOT_NUM_PER_KIND: usize = crate::basic::MAX_EQUIP_SLOT;

#[derive(Clone, Copy, PartialEq, Eq, Structural, Debug, Hash)]
pub enum EquipSlotKind {
    MeleeWeapon,
    RangedWeapon,
    BodyArmor,
    Shield,
}

pub open spec fn esk_num(e: EquipSlotKind) -> int {
    match e {
        EquipSlotKind::MeleeWeapon => 0,
        EquipSlotKind::RangedWeapon => 1,
        EquipSlotKind::BodyArmor => 2,
        EquipSlotKind::Shield => 3,
    }
}

impl ItemKind {
    /// The slot kind this item kind is equipped to, if any.
    pub fn equip_slot_kind(self) -> (r: Option<EquipSlotKind>)
        ensures
            r == spec_item_slot_kind(self),
    {
        match self {
            ItemKind::Weapon(weapon_kind) => Some(weapon_kind.equip_slot_kind()),
            ItemKind::Armor(armor_kind) => Some(armor_kind.equip_slot_kind()),
            _ => None,
        }
    }
}

/// The slot kind an item kind is equipped to, if any.
pub open spec fn spec_item_slot_kind(k: ItemKind) -> Option<EquipSlotKind> {
    match k {
        ItemKind::Weapon(w) => Some(spec_weapon_slot_kind(w)),
        ItemKind::Armor(a) => Some(spec_armor_slot_kind(a)),
        _ => None,
    }
}

pub open spec fn spec_weapon_slot_kind(w: WeaponKind) -> EquipSlotKind {
    match w {
        WeaponKind::Axe | WeaponKind::Spear | WeaponKind::Sword => EquipSlotKind::MeleeWeapon,
        _ => EquipSlotKind::RangedWeapon,
    }
}

pub open spec fn spec_armor_slot_kind(a: ArmorKind) -> EquipSlotKind {
    match a {
        ArmorKind::Body => EquipSlotKind::BodyArmor,
        ArmorKind::Shield => EquipSlotKind::Shield,
    }
}

impl WeaponKind {
    pub fn equip_slot_kind(self) -> (r: EquipSlotKind)
        ensures
            r == spec_weapon_slot_kind(self),
    {
        match self {
            WeaponKind::Axe | WeaponKind::Spear | WeaponKind::Sword => EquipSlotKind::MeleeWeapon,
            _ => EquipSlotKind::RangedWeapon,
        }
    }
}

impl ArmorKind {
    pub fn equip_slot_kind(self) -> (r: EquipSlotKind)
        ensures
            r == spec_armor_slot_kind(self),
    {
        match self {
            ArmorKind::Body => EquipSlotKind::BodyArmor,
            ArmorKind::Shield => EquipSlotKind::Shield,
        }
    }
}

/// One slot of the table.
#[derive(Clone, Copy, PartialEq, Eq, Structural, Debug)]
pub struct SlotInfo {
    /// The kind of equipment.
    pub esk: EquipSlotKind,
    /// The 0-based ordinal within this kind.
    pub n: u8,
    /// The index at the backing item list, when the slot is occupied.
    pub list_idx: Option<u8>,
}

impl SlotInfo {
    pub fn new(esk: EquipSlotKind, n: u8) -> (r: SlotInfo)
        ensures
            r == (SlotInfo { esk, n, list_idx: None::<u8> }),
    {
        SlotInfo { esk, n, list_idx: None }
    }
}

pub open spec fn occupied(s: SlotInfo) -> bool {
    s.list_idx is Some
}

/// Number of occupied slots among the first `p`.
pub open spec fn occ_before(slots: Seq<SlotInfo>, p: int) -> int
    decreases p,
{
    if p <= 0 {
        0
    } else {
        occ_before(slots, p - 1) + if occupied(slots[p - 1]) {
            1int
        } else {
            0int
        }
    }
}

/// Number of slots of kind `esk` among the first `p`.
pub open spec fn count_esk_before(slots: Seq<SlotInfo>, p: int, esk: EquipSlotKind) -> int
    decreases p,
{
    if p <= 0 {
        0
    } else {
        count_esk_before(slots, p - 1, esk) + if slots[p - 1].esk == esk {
            1int
        } else {
            0int
        }
    }
}

/// Number of slots of kind `esk` in the whole table.
pub open spec fn slot_count(slots: Seq<SlotInfo>, esk: EquipSlotKind) -> int {
    count_esk_before(slots, slots.len() as int, esk)
}

/// First slot of kind `esk` with ordinal `n`.
pub open spec fn slot_at(slots: Seq<SlotInfo>, esk: EquipSlotKind, n: int) -> Option<int>
    decreases slots.len(),
{
    if slots.len() == 0 {
        None
    } else if slots[0].esk == esk && slots[0].n == n {
        Some(0)
    } else {
        match slot_at(slots.drop_first(), esk, n) {
            Some(p) => Some(p + 1),
            None => None,
        }
    }
}

/// Mathematical value of an [`EquipItemList`].
pub ghost struct EquipView {
    pub slots: Seq<SlotInfo>,
    pub items: Seq<(ItemView, u32)>,
}

/// The slot table invariant.
///
/// - at most 255 slots, so a backing index always fits in its `u8`;
/// - slots are grouped in kind order, ordinals 0-based and dense per kind;
/// - in table order the occupied slots hold backing indices `0, 1, 2, ...`;
/// - the backing list holds exactly one entry per occupied slot, one unit each.
pub open spec fn equip_wf(v: EquipView) -> bool {
    &&& v.slots.len() <= 255
    &&& forall|p: int, q: int|
        0 <= p < q < v.slots.len() ==> esk_num(v.slots[p].esk) <= esk_num(v.slots[q].esk)
    &&& forall|p: int|
        0 <= p < v.slots.len() ==> (#[trigger] v.slots[p]).n as int == count_esk_before(
            v.slots,
            p,
            v.slots[p].esk,
        )
    &&& forall|p: int|
        0 <= p < v.slots.len() ==> match (#[trigger] v.slots[p]).list_idx {
            Some(k) => k as int == occ_before(v.slots, p),
            None => true,
        }
    &&& v.items.len() == occ_before(v.slots, v.slots.len() as int)
    &&& forall|i: int| 0 <= i < v.items.len() ==> (#[trigger] v.items[i]).1 == 1
}

//
// Counting lemmas.
//

proof fn lemma_occ_before_le(slots: Seq<SlotInfo>, p: int, q: int)
    requires
        0 <= p <= q,
    ensures
        occ_before(slots, p) <= occ_before(slots, q),
        occ_before(slots, q) <= occ_before(slots, p) + (q - p),
    decreases q - p,
{
    if p < q {
        lemma_occ_before_le(slots, p, q - 1);
    }
}

proof fn lemma_occ_before_nonneg(slots: Seq<SlotInfo>, p: int)
    ensures
        occ_before(slots, p) >= 0,
    decreases p,
{
    if p > 0 {
        lemma_occ_before_nonneg(slots, p - 1);
    }
}


proof fn lemma_count_esk_agree(s1: Seq<SlotInfo>, s2: Seq<SlotInfo>, p: int, esk: EquipSlotKind)
    requires
        0 <= p,
        forall|j: int| 0 <= j < p ==> (#[trigger] s1[j]).esk == s2[j].esk,
    ensures
        count_esk_before(s1, p, esk) == count_esk_before(s2, p, esk),
    decreases p,
{
    if p > 0 {
        lemma_count_esk_agree(s1, s2, p - 1, esk);
    }
}


proof fn lemma_count_esk_nonneg(slots: Seq<SlotInfo>, p: int, esk: EquipSlotKind)
    ensures
        count_esk_before(slots, p, esk) >= 0,
    decreases p,
{
    if p > 0 {
        lemma_count_esk_nonneg(slots, p - 1, esk);
    }
}

/// Characterization of `slot_at`.
proof fn lemma_slot_at_char(slots: Seq<SlotInfo>, esk: EquipSlotKind, n: int)
    ensures
        match slot_at(slots, esk, n) {
            Some(p) => 0 <= p < slots.len() && slots[p].esk == esk && slots[p].n == n && forall|
                q: int,
            | 0 <= q < p ==> !((#[trigger] slots[q]).esk == esk && slots[q].n == n),
            None => forall|q: int|
                0 <= q < slots.len() ==> !((#[trigger] slots[q]).esk == esk && slots[q].n == n),
        },
    decreases slots.len(),
{
    if slots.len() > 0 && !(slots[0].esk == esk && slots[0].n == n) {
        lemma_slot_at_char(slots.drop_first(), esk, n);
        match slot_at(slots.drop_first(), esk, n) {
            Some(p) => {
                assert(slot_at(slots, esk, n) == Some(p + 1));
                assert(slots[p + 1] == slots.drop_first()[p]);
                assert forall|q: int| 0 <= q < p + 1 implies !((#[trigger] slots[q]).esk == esk
                    && slots[q].n == n) by {
                    if q > 0 {
                        assert(slots[q] == slots.drop_first()[q - 1]);
                    }
                }
            }
            None => {
                assert forall|q: int| 0 <= q < slots.len() implies !((#[trigger] slots[q]).esk
                    == esk && slots[q].n == n) by {
                    if q > 0 {
                        assert(slots[q] == slots.drop_first()[q - 1]);
                    }
                }
            }
        }
    }
}

/// What `EquipItemList::equip` does to the table's value, and the item it
/// displaces. Equipping an occupied slot replaces the backing entry's item
/// in place; equipping an empty slot inserts the item at the backing index
/// that keeps list order equal to table order, and shifts every following
/// occupied slot's index up by one.
#[verifier::opaque]
pub open spec fn equip_spec(v: EquipView, esk: EquipSlotKind, n: int, it: ItemView) -> (
    EquipView,
    Option<ItemView>,
) {
    match slot_at(v.slots, esk, n) {
        None => (v, None),
        Some(p) => match v.slots[p].list_idx {
            Some(k) => (
                EquipView {
                    slots: v.slots,
                    items: v.items.update(k as int, (it, v.items[k as int].1)),
                },
                Some(v.items[k as int].0),
            ),
            None => (
                EquipView {
                    slots: Seq::new(
                        v.slots.len(),
                        |q: int|
                            if q == p {
                                SlotInfo {
                                    esk: v.slots[q].esk,
                                    n: v.slots[q].n,
                                    list_idx: Some(occ_before(v.slots, p) as u8),
                                }
                            } else if q > p && occupied(v.slots[q]) {
                                SlotInfo {
                                    esk: v.slots[q].esk,
                                    n: v.slots[q].n,
                                    list_idx: Some((v.slots[q].list_idx->Some_0 + 1) as u8),
                                }
                            } else {
                                v.slots[q]
                            },
                    ),
                    items: v.items.insert(occ_before(v.slots, p), (it, 1)),
                },
                None,
            ),
        },
    }
}

/// The item held by the slot `(esk, n)`, if the slot exists and is occupied.
pub open spec fn item_at_slot(v: EquipView, esk: EquipSlotKind, n: int) -> Option<ItemView> {
    match slot_at(v.slots, esk, n) {
        None => None,
        Some(p) => match v.slots[p].list_idx {
            None => None,
            Some(k) => if k < v.items.len() {
                Some(v.items[k as int].0)
            } else {
                None
            },
        },
    }
}

/// If the first match is at `i`, `slot_at` is `Some(i)`; if there is no
/// match, it is `None`.
proof fn lemma_slot_at_is(slots: Seq<SlotInfo>, esk: EquipSlotKind, n: int, i: int)
    requires
        0 <= i <= slots.len(),
        forall|q: int| 0 <= q < i ==> !((#[trigger] slots[q]).esk == esk && slots[q].n == n),
        i < slots.len() ==> slots[i].esk == esk && slots[i].n == n,
    ensures
        i < slots.len() ==> slot_at(slots, esk, n) == Some(i),
        i == slots.len() ==> slot_at(slots, esk, n) is None,
    decreases slots.len(),
{
    if slots.len() > 0 && !(slots[0].esk == esk && slots[0].n == n) {
        assert forall|q: int| 0 <= q < i - 1 implies !((#[trigger] slots.drop_first()[q]).esk == esk
            && slots.drop_first()[q].n == n) by {
            assert(slots.drop_first()[q] == slots[q + 1]);
        }
        if i < slots.len() {
            assert(slots.drop_first()[i - 1] == slots[i]);
        }
        lemma_slot_at_is(slots.drop_first(), esk, n, i - 1);
    }
}

/// List of equipped items: the slot table and its backing item list.
pub struct EquipItemList {
    /// Slot information.
    slots: Vec<SlotInfo>,
    item_list: ItemList,
}

impl View for EquipItemList {
    type V = EquipView;

    closed spec fn view(&self) -> EquipView {
        EquipView { slots: self.slots@, items: self.item_list@ }
    }
}

/// Number of slots that a configuration gives to one kind (entries of that
/// kind may repeat; their counts sum).
pub open spec fn cfg_count(cfg: Seq<(EquipSlotKind, u8)>, esk: EquipSlotKind) -> int
    decreases cfg.len(),
{
    if cfg.len() == 0 {
        0
    } else {
        (if cfg[0].0 == esk {
            cfg[0].1 as int
        } else {
            0int
        }) + cfg_count(cfg.drop_first(), esk)
    }
}

/// Total number of slots a configuration asks for, over the four kinds.
pub open spec fn cfg_slot_total(cfg: Seq<(EquipSlotKind, u8)>) -> int {
    cfg_count(cfg, EquipSlotKind::MeleeWeapon) + cfg_count(cfg, EquipSlotKind::RangedWeapon)
        + cfg_count(cfg, EquipSlotKind::BodyArmor) + cfg_count(cfg, EquipSlotKind::Shield)
}

/// Kinds do not repeat in the configuration.
pub open spec fn cfg_distinct(cfg: Seq<(EquipSlotKind, u8)>) -> bool {
    forall|i: int, j: int| 0 <= i < j < cfg.len() ==> (#[trigger] cfg[i]).0 != (#[trigger] cfg[j]).0
}

proof fn lemma_cfg_count_nonneg(cfg: Seq<(EquipSlotKind, u8)>, esk: EquipSlotKind)
    ensures
        cfg_count(cfg, esk) >= 0,
    decreases cfg.len(),
{
    if cfg.len() > 0 {
        lemma_cfg_count_nonneg(cfg.drop_first(), esk);
    }
}

proof fn lemma_cfg_count_single(cfg: Seq<(EquipSlotKind, u8)>, i: int, esk: EquipSlotKind)
    requires
        cfg_distinct(cfg),
        0 <= i < cfg.len(),
        cfg[i].0 == esk,
    ensures
        cfg_count(cfg, esk) == cfg[i].1 as int,
    decreases cfg.len(),
{
    if i == 0 {
        assert forall|j: int| 0 <= j < cfg.drop_first().len() implies (
        #[trigger] cfg.drop_first()[j]).0 != esk by {
            assert(cfg.drop_first()[j] == cfg[j + 1]);
        }
        lemma_cfg_count_absent(cfg.drop_first(), esk);
    } else {
        assert(cfg.drop_first()[i - 1] == cfg[i]);
        assert forall|a: int, b: int| 0 <= a < b < cfg.drop_first().len() implies (
        #[trigger] cfg.drop_first()[a]).0 != (#[trigger] cfg.drop_first()[b]).0 by {
            assert(cfg.drop_first()[a] == cfg[a + 1]);
            assert(cfg.drop_first()[b] == cfg[b + 1]);
        }
        lemma_cfg_count_single(cfg.drop_first(), i - 1, esk);
    }
}

proof fn lemma_cfg_count_absent(cfg: Seq<(EquipSlotKind, u8)>, esk: EquipSlotKind)
    requires
        forall|i: int| 0 <= i < cfg.len() ==> (#[trigger] cfg[i]).0 != esk,
    ensures
        cfg_count(cfg, esk) == 0,
    decreases cfg.len(),
{
    if cfg.len() > 0 {
        assert forall|i: int| 0 <= i < cfg.drop_first().len() implies (
        #[trigger] cfg.drop_first()[i]).0 != esk by {
            assert(cfg.drop_first()[i] == cfg[i + 1]);
        }
        lemma_cfg_count_absent(cfg.drop_first(), esk);
    }
}

/// Counting one kind over a range of slots that are all of that kind.
proof fn lemma_count_esk_range_all(slots: Seq<SlotInfo>, a: int, p: int, esk: EquipSlotKind)
    requires
        0 <= a <= p,
        forall|j: int| a <= j < p ==> (#[trigger] slots[j]).esk == esk,
    ensures
        count_esk_before(slots, p, esk) == count_esk_before(slots, a, esk) + (p - a),
    decreases p - a,
{
    if a < p {
        lemma_count_esk_range_all(slots, a, p - 1, esk);
    }
}

/// Counting one kind over a range of slots none of which is of that kind.
proof fn lemma_count_esk_range_none(slots: Seq<SlotInfo>, a: int, p: int, esk: EquipSlotKind)
    requires
        0 <= a <= p,
        forall|j: int| a <= j < p ==> (#[trigger] slots[j]).esk != esk,
    ensures
        count_esk_before(slots, p, esk) == count_esk_before(slots, a, esk),
    decreases p - a,
{
    if a < p {
        lemma_count_esk_range_none(slots, a, p - 1, esk);
    }
}

/// Counting occupation over a range of unoccupied slots.
proof fn lemma_occ_range_none(slots: Seq<SlotInfo>, a: int, p: int)
    requires
        0 <= a <= p,
        forall|j: int| a <= j < p ==> !occupied(#[trigger] slots[j]),
    ensures
        occ_before(slots, p) == occ_before(slots, a),
    decreases p - a,
{
    if a < p {
        lemma_occ_range_none(slots, a, p - 1);
    }
}

/// Among the first `p` slots there is, for every `m` below the kind's
/// count, a slot of that kind whose kind-rank is exactly `m`.
proof fn lemma_nth_esk_exists(slots: Seq<SlotInfo>, p: int, esk: EquipSlotKind, m: int)
    requires
        0 <= p <= slots.len(),
        0 <= m < count_esk_before(slots, p, esk),
    ensures
        exists|q: int|
            0 <= q < p && (#[trigger] slots[q]).esk == esk && count_esk_before(slots, q, esk) == m,
    decreases p,
{
    lemma_count_esk_nonneg(slots, p - 1, esk);
    if m < count_esk_before(slots, p - 1, esk) {
        lemma_nth_esk_exists(slots, p - 1, esk, m);
    } else {
        assert(slots[p - 1].esk == esk && count_esk_before(slots, p - 1, esk) == m);
    }
}

/// Resolve a configuration's slot count for one kind.
fn cfg_count_ex(cfg: &[(EquipSlotKind, u8)], esk: EquipSlotKind) -> (r: u8)
    requires
        cfg_distinct(cfg@),
    ensures
        r as int == cfg_count(cfg@, esk),
{
    let mut i: usize = 0;
    while i < cfg.len()
        invariant
            i <= cfg@.len(),
            cfg_distinct(cfg@),
            forall|j: int| 0 <= j < i ==> (#[trigger] cfg@[j]).0 != esk,
        decreases cfg@.len() - i,
    {
        if cfg[i].0 == esk {
            proof {
                lemma_cfg_count_single(cfg@, i as int, esk);
            }
            return cfg[i].1;
        }
        i = i + 1;
    }
    proof {
        lemma_cfg_count_absent(cfg@, esk);
    }
    0
}

/// Append all slots of one kind that the configuration asks for, ordinals
/// 0-based, after the slots of the kinds already handled.
#[verifier::loop_isolation(false)]
fn push_kind_slots(slots: &mut Vec<SlotInfo>, cfg: &[(EquipSlotKind, u8)], esk: EquipSlotKind)
    requires
        cfg_distinct(cfg@),
        forall|p: int|
            0 <= p < old(slots)@.len() ==> esk_num((#[trigger] old(slots)@[p]).esk) < esk_num(esk),
        forall|p: int, q: int|
            0 <= p < q < old(slots)@.len() ==> esk_num(old(slots)@[p].esk) <= esk_num(
                old(slots)@[q].esk,
            ),
        forall|p: int|
            0 <= p < old(slots)@.len() ==> (#[trigger] old(slots)@[p]).n as int == count_esk_before(
                old(slots)@,
                p,
                old(slots)@[p].esk,
            ),
        forall|p: int| 0 <= p < old(slots)@.len() ==> (#[trigger] old(slots)@[p]).list_idx is None,
        old(slots)@.len() + cfg_count(cfg@, esk) <= 255,
    ensures
        final(slots)@.len() == old(slots)@.len() + cfg_count(cfg@, esk),
        forall|p: int|
            0 <= p < final(slots)@.len() ==> esk_num((#[trigger] final(slots)@[p]).esk) <= esk_num(
                esk,
            ),
        forall|p: int, q: int|
            0 <= p < q < final(slots)@.len() ==> esk_num(final(slots)@[p].esk) <= esk_num(
                final(slots)@[q].esk,
            ),
        forall|p: int|
            0 <= p < final(slots)@.len() ==> (#[trigger] final(slots)@[p]).n as int
                == count_esk_before(final(slots)@, p, final(slots)@[p].esk),
        forall|p: int|
            0 <= p < final(slots)@.len() ==> (#[trigger] final(slots)@[p]).list_idx is None,
        slot_count(final(slots)@, esk) == cfg_count(cfg@, esk),
        forall|k: EquipSlotKind|
            k != esk ==> slot_count(final(slots)@, k) == slot_count(old(slots)@, k),
{
    let ghost s0 = slots@;
    let ghost len0 = slots@.len() as int;
    let cnt = cfg_count_ex(cfg, esk);
    proof {
        assert forall|j: int| 0 <= j < len0 implies (#[trigger] s0[j]).esk != esk by {
            assert(esk_num(s0[j].esk) < esk_num(esk));
        }
    }
    let mut i: u8 = 0;
    while i < cnt
        invariant
            slots@.len() == len0 + i as int,
            i <= cnt,
            forall|j: int| 0 <= j < len0 ==> slots@[j] == s0[j],
            forall|j: int|
                len0 <= j < slots@.len() ==> #[trigger] slots@[j] == (SlotInfo {
                    esk,
                    n: (j - len0) as u8,
                    list_idx: None::<u8>,
                }),
        decreases cnt - i,
    {
        slots.push(SlotInfo { esk, n: i, list_idx: None });
        i = i + 1;
    }
    proof {
        let s1 = slots@;
        let len1 = s1.len() as int;
        // counts over the untouched prefix are unchanged
        assert forall|j: int| 0 <= j < len0 implies (#[trigger] s1[j]).esk == s0[j].esk by {}
        // kind ordering over the whole table
        assert forall|p: int, q: int| 0 <= p < q < len1 implies esk_num(s1[p].esk) <= esk_num(
            s1[q].esk,
        ) by {
            if q >= len0 && p < len0 {
                assert(esk_num(s1[p].esk) < esk_num(esk));
            }
        }
        // ordinals
        assert forall|p: int| 0 <= p < len1 implies (#[trigger] s1[p]).n as int
            == count_esk_before(s1, p, s1[p].esk) by {
            if p < len0 {
                lemma_count_esk_agree(s1, s0, p, s1[p].esk);
            } else {
                lemma_count_esk_agree(s1, s0, len0, esk);
                lemma_count_esk_absent_prefix(s0, len0, esk);
                lemma_count_esk_range_all(s1, len0, p, esk);
                assert(s1[p].n as int == p - len0);
            }
        }
        // the new kind's total
        lemma_count_esk_agree(s1, s0, len0, esk);
        lemma_count_esk_absent_prefix(s0, len0, esk);
        lemma_count_esk_range_all(s1, len0, len1, esk);
        // other kinds' totals
        assert forall|k: EquipSlotKind| k != esk implies slot_count(s1, k) == slot_count(
            s0,
            k,
        ) by {
            lemma_count_esk_agree(s1, s0, len0, k);
            lemma_count_esk_range_none(s1, len0, len1, k);
        }
    }
}

/// The first `p` slots hold no slot of kind `esk`.
proof fn lemma_count_esk_absent_prefix(slots: Seq<SlotInfo>, p: int, esk: EquipSlotKind)
    requires
        0 <= p,
        forall|j: int| 0 <= j < p ==> (#[trigger] slots[j]).esk != esk,
    ensures
        count_esk_before(slots, p, esk) == 0,
    decreases p,
{
    if p > 0 {
        lemma_count_esk_absent_prefix(slots, p - 1, esk);
    }
}

/// With dense ordinals, a kind whose count exceeds `n` has a slot with
/// ordinal `n`.
proof fn lemma_slot_exists(slots: Seq<SlotInfo>, esk: EquipSlotKind, n: int)
    requires
        forall|p: int|
            0 <= p < slots.len() ==> (#[trigger] slots[p]).n as int == count_esk_before(
                slots,
                p,
                slots[p].esk,
            ),
        0 <= n < slot_count(slots, esk),
    ensures
        slot_at(slots, esk, n) is Some,
{
    lemma_count_esk_nonneg(slots, slots.len() as int, esk);
    lemma_nth_esk_exists(slots, slots.len() as int, esk, n);
    let q = choose|q: int|
        0 <= q < slots.len() && (#[trigger] slots[q]).esk == esk && count_esk_before(slots, q, esk)
            == n;
    lemma_slot_at_char(slots, esk, n);
    if slot_at(slots, esk, n) is None {
        assert(!(slots[q].esk == esk && slots[q].n == n));
        assert(false);
    }
}

impl EquipItemList {
    /// Build the slot table from `(kind, count)` pairs; kinds must not
    /// repeat, and the slots must fit the table's index width.
    pub fn new(slots_cfg: &[(EquipSlotKind, u8)]) -> (r: EquipItemList)
        requires
            cfg_distinct(slots_cfg@),
            cfg_slot_total(slots_cfg@) <= 255,
        ensures
            equip_wf(r@),
            r@.items.len() == 0,
            forall|p: int| 0 <= p < r@.slots.len() ==> (#[trigger] r@.slots[p]).list_idx is None,
            forall|k: EquipSlotKind| #[trigger] slot_count(r@.slots, k) == cfg_count(slots_cfg@, k),
    {
        proof {
            lemma_cfg_count_nonneg(slots_cfg@, EquipSlotKind::MeleeWeapon);
            lemma_cfg_count_nonneg(slots_cfg@, EquipSlotKind::RangedWeapon);
            lemma_cfg_count_nonneg(slots_cfg@, EquipSlotKind::BodyArmor);
            lemma_cfg_count_nonneg(slots_cfg@, EquipSlotKind::Shield);
        }
        let mut slots: Vec<SlotInfo> = Vec::new();
        push_kind_slots(&mut slots, slots_cfg, EquipSlotKind::MeleeWeapon);
        push_kind_slots(&mut slots, slots_cfg, EquipSlotKind::RangedWeapon);
        push_kind_slots(&mut slots, slots_cfg, EquipSlotKind::BodyArmor);
        push_kind_slots(&mut slots, slots_cfg, EquipSlotKind::Shield);
        let r = EquipItemList { slots, item_list: ItemList::new() };
        proof {
            assert forall|p: int| 0 <= p < r@.slots.len() implies !occupied(
                #[trigger] r@.slots[p],
            ) by {}
            lemma_occ_range_none(r@.slots, 0, r@.slots.len() as int);
            assert forall|k: EquipSlotKind| #[trigger] slot_count(r@.slots, k) == cfg_count(
                slots_cfg@,
                k,
            ) by {}
        }
        r
    }

    /// Number of slots for the specified kind.
    pub fn slot_num(&self, esk: EquipSlotKind) -> (r: usize)
        ensures
            r as int == slot_count(self@.slots, esk),
    {
        let mut c: usize = 0;
        let mut i: usize = 0;
        while i < self.slots.len()
            invariant
                i <= self@.slots.len(),
                c <= i,
                c as int == count_esk_before(self@.slots, i as int, esk),
            decreases self@.slots.len() - i,
        {
            if self.slots[i].esk == esk {
                c = c + 1;
            }
            i = i + 1;
        }
        c
    }

    /// Position of the slot `(esk, n)` in the table, if it exists.
    fn slot_pos(&self, esk: EquipSlotKind, n: usize) -> (r: Option<usize>)
        ensures
            match r {
                Some(p) => slot_at(self@.slots, esk, n as int) == Some(p as int),
                None => slot_at(self@.slots, esk, n as int) is None,
            },
    {
        let mut i: usize = 0;
        while i < self.slots.len()
            invariant
                i <= self@.slots.len(),
                forall|q: int|
                    0 <= q < i ==> !((#[trigger] self@.slots[q]).esk == esk && self@.slots[q].n
                        == n),
            decreases self@.slots.len() - i,
        {
            if self.slots[i].esk == esk && self.slots[i].n as usize == n {
                proof {
                    lemma_slot_at_is(self@.slots, esk, n as int, i as int);
                }
                return Some(i);
            }
            i = i + 1;
        }
        proof {
            lemma_slot_at_is(self@.slots, esk, n as int, self@.slots.len() as int);
        }
        None
    }

    /// Backing-list index held by the slot `(esk, n)`, if the slot exists
    /// and is occupied.
    fn list_idx(&self, esk: EquipSlotKind, n: usize) -> (r: Option<usize>)
        ensures
            r == match slot_at(self@.slots, esk, n as int) {
                None => None::<usize>,
                Some(p) => match self@.slots[p].list_idx {
                    None => None::<usize>,
                    Some(k) => Some(k as usize),
                },
            },
    {
        proof {
            lemma_slot_at_char(self@.slots, esk, n as int);
        }
        match self.slot_pos(esk, n) {
            Some(p) => match self.slots[p].list_idx {
                Some(k) => Some(k as usize),
                None => None,
            },
            None => None,
        }
    }

    /// Mark the slot `(esk, n)` as holding backing index `idx`.
    fn set_list_idx(&mut self, esk: EquipSlotKind, n: usize, idx: u8)
        requires
            slot_at(old(self)@.slots, esk, n as int) is Some,
        ensures
            final(self)@.items == old(self)@.items,
            ({
                let p = slot_at(old(self)@.slots, esk, n as int)->Some_0;
                final(self)@.slots == old(self)@.slots.update(
                    p,
                    SlotInfo {
                        esk: old(self)@.slots[p].esk,
                        n: old(self)@.slots[p].n,
                        list_idx: Some(idx),
                    },
                )
            }),
    {
        proof {
            lemma_slot_at_char(old(self)@.slots, esk, n as int);
        }
        let p = match self.slot_pos(esk, n) {
            Some(p) => p,
            None => {
                proof {
                    assert(false);
                }
                0
            }
        };
        self.slots[p].list_idx = Some(idx);
        proof {
            let q = slot_at(old(self)@.slots, esk, n as int)->Some_0;
            assert(self@.slots =~= old(self)@.slots.update(
                q,
                SlotInfo {
                    esk: old(self)@.slots[q].esk,
                    n: old(self)@.slots[q].n,
                    list_idx: Some(idx),
                },
            ));
        }
    }

    /// Specified slot is empty or not.
    /// If the specified slot doesn't exist, returns false.
    pub fn is_slot_empty(&self, esk: EquipSlotKind, n: usize) -> (r: bool)
        requires
            n < MAX_SLOT_NUM_PER_KIND,
        ensures
            r == match slot_at(self@.slots, esk, n as int) {
                Some(p) => self@.slots[p].list_idx is None,
                None => false,
            },
    {
        proof {
            lemma_slot_at_char(self@.slots, esk, n as int);
        }
        match self.slot_pos(esk, n) {
            Some(p) => self.slots[p].list_idx.is_none(),
            None => false,
        }
    }

    /// Get the specified equipped item.
    pub fn item(&self, esk: EquipSlotKind, n: usize) -> (r: Option<&Item>)
        requires
            n < MAX_SLOT_NUM_PER_KIND,
            equip_wf(self@),
        ensures
            match r {
                Some(it) => item_at_slot(self@, esk, n as int) == Some(it@),
                None => item_at_slot(self@, esk, n as int) is None,
            },
    {
        proof {
            lemma_slot_at_char(self@.slots, esk, n as int);
        }
        match self.list_idx(esk, n) {
            Some(a) => {
                proof {
                    let p = slot_at(self@.slots, esk, n as int)->Some_0;
                    lemma_occ_before_le(self@.slots, p + 1, self@.slots.len() as int);
                    lemma_occ_before_nonneg(self@.slots, p);
                    assert(a as int == occ_before(self@.slots, p));
                    assert(occ_before(self@.slots, p + 1) == occ_before(self@.slots, p) + 1);
                    assert((a as int) < self@.items.len());
                }
                Some(&self.item_list.items[a].0)
            }
            None => None,
        }
    }

    /// Equip an item to the specified slot (the `n`-th slot of the given
    /// kind) and return the displaced item.
    #[verifier::rlimit(100)]
    #[verifier::spinoff_prover]
    pub fn equip(&mut self, esk: EquipSlotKind, n: usize, item: Item) -> (r: Option<Item>)
        requires
            equip_wf(old(self)@),
            (n as int) < slot_count(old(self)@.slots, esk),
        ensures
            equip_wf(final(self)@),
            final(self)@ == equip_spec(old(self)@, esk, n as int, item@).0,
            match r {
                Some(it) => equip_spec(old(self)@, esk, n as int, item@).1 == Some(it@),
                None => equip_spec(old(self)@, esk, n as int, item@).1 is None,
            },
    {
        let ghost v0 = old(self)@;
        proof {
            lemma_slot_exists(v0.slots, esk, n as int);
        }
        let p = match self.slot_pos(esk, n) {
            Some(p) => p,
            None => {
                proof {
                    assert(false);
                }
                0
            }
        };
        proof {
            lemma_slot_at_char(v0.slots, esk, n as int);
        }
        if let Some(a) = self.slots[p].list_idx {
            // Replace the existing item in place; no reindexing.
            let a = a as usize;
            proof {
                lemma_occ_before_le(v0.slots, p as int + 1, v0.slots.len() as int);
                lemma_occ_before_nonneg(v0.slots, p as int);
                assert((a as int) < v0.items.len());
            }
            let (old_item, cnt) = self.item_list.items.remove(a);
            self.item_list.items.insert(a, (item, cnt));
            proof {
                reveal(equip_spec);
                assert(self@.items =~= v0.items.update(a as int, (item@, v0.items[a as int].1)));
                assert(self@ == equip_spec(v0, esk, n as int, item@).0);
            }
            return Some(old_item);
        }
        self.equip_into_empty(esk, n, p, item);
        proof {
            reveal(equip_spec);
        }
        None
    }

    /// Equip into an empty slot: insert the item at the backing index that
    /// keeps list order equal to table order, then shift the following
    /// occupied slots' indices up by one.
    #[verifier::loop_isolation(false)]
    #[verifier::rlimit(100)]
    fn equip_into_empty(&mut self, esk: EquipSlotKind, n: usize, p: usize, item: Item)
        requires
            equip_wf(old(self)@),
            slot_at(old(self)@.slots, esk, n as int) == Some(p as int),
            old(self)@.slots[p as int].list_idx is None,
        ensures
            equip_wf(final(self)@),
            final(self)@ == equip_spec(old(self)@, esk, n as int, item@).0,
    {
        let ghost v0 = old(self)@;
        let ghost pp = p as int;
        proof {
            lemma_slot_at_char(v0.slots, esk, n as int);
        }
        let mut k: usize = 0;
        let mut q: usize = 0;
        while q < p
            invariant
                q <= p,
                k <= q,
                k as int == occ_before(v0.slots, q as int),
            decreases p - q,
        {
            if self.slots[q].list_idx.is_some() {
                k = k + 1;
            }
            q = q + 1;
        }
        proof {
            lemma_occ_before_le(v0.slots, pp, v0.slots.len() as int);
            lemma_occ_before_nonneg(v0.slots, pp);
            assert(k as int <= v0.items.len());
        }
        self.slots[p].list_idx = Some(k as u8);
        self.item_list.items.insert(k, (item, 1));
        proof {
            assert(self@.items =~= v0.items.insert(k as int, (item@, 1)));
            lemma_occ_before_le(v0.slots, 0, v0.slots.len() as int);
        }
        let mut q: usize = p + 1;
        while q < self.slots.len()
            invariant
                pp < q as int <= self@.slots.len(),
                self@.slots.len() == v0.slots.len(),
                self@.items == v0.items.insert(k as int, (item@, 1)),
                forall|j: int| 0 <= j < pp ==> self@.slots[j] == v0.slots[j],
                self@.slots[pp] == (SlotInfo {
                    esk: v0.slots[pp].esk,
                    n: v0.slots[pp].n,
                    list_idx: Some(k as u8),
                }),
                forall|j: int|
                    pp < j < q as int ==> #[trigger] self@.slots[j] == (if occupied(v0.slots[j]) {
                        SlotInfo {
                            esk: v0.slots[j].esk,
                            n: v0.slots[j].n,
                            list_idx: Some((v0.slots[j].list_idx->Some_0 + 1) as u8),
                        }
                    } else {
                        v0.slots[j]
                    }),
                forall|j: int| q as int <= j < self@.slots.len() ==> self@.slots[j] == v0.slots[j],
            decreases self@.slots.len() - q,
        {
            if let Some(idx) = self.slots[q].list_idx {
                proof {
                    assert(idx as int == occ_before(v0.slots, q as int));
                    lemma_occ_before_le(v0.slots, q as int + 1, v0.slots.len() as int);
                    lemma_occ_before_nonneg(v0.slots, q as int);
                    assert((idx as int) < v0.items.len());
                }
                self.slots[q].list_idx = Some(idx + 1);
            }
            q = q + 1;
        }
        proof {
            reveal(equip_spec);
            let target = equip_spec(v0, esk, n as int, item@).0.slots;
            assert forall|j: int| 0 <= j < self@.slots.len() implies self@.slots[j]
                == target[j] by {}
            assert(self@.slots =~= target);
            lemma_equip_insert_wf(v0, esk, n as int, item@);
        }
    }

    /// All slots in table order, each with the item it holds.
    pub fn slot_iter(&self) -> (r: Vec<(EquipSlotKind, u8, Option<Item>)>)
        requires
            equip_wf(self@),
        ensures
            r@.len() == self@.slots.len(),
            forall|p: int|
                0 <= p < r@.len() ==> (#[trigger] r@[p]).0 == self@.slots[p].esk && r@[p].1
                    == self@.slots[p].n && match self@.slots[p].list_idx {
                    Some(k) => r@[p].2 is Some && r@[p].2->Some_0@ == self@.items[k as int].0,
                    None => r@[p].2 is None,
                },
    {
        let mut r: Vec<(EquipSlotKind, u8, Option<Item>)> = Vec::new();
        let mut p: usize = 0;
        while p < self.slots.len()
            invariant
                equip_wf(self@),
                p <= self@.slots.len(),
                r@.len() == p as int,
                forall|j: int|
                    0 <= j < p as int ==> (#[trigger] r@[j]).0 == self@.slots[j].esk && r@[j].1
                        == self@.slots[j].n && match self@.slots[j].list_idx {
                        Some(k) => r@[j].2 is Some && r@[j].2->Some_0@ == self@.items[k as int].0,
                        None => r@[j].2 is None,
                    },
            decreases self@.slots.len() - p,
        {
            let slot = self.slots[p];
            match slot.list_idx {
                Some(k) => {
                    proof {
                        lemma_occ_before_le(self@.slots, p as int + 1, self@.slots.len() as int);
                        lemma_occ_before_nonneg(self@.slots, p as int);
                        assert((k as int) < self@.items.len());
                    }
                    let it = self.item_list.items[k as usize].0.clone();
                    r.push((slot.esk, slot.n, Some(it)));
                }
                None => {
                    r.push((slot.esk, slot.n, None));
                }
            }
            p = p + 1;
        }
        r
    }

    /// The equipped items in table order, each with its slot.
    pub fn item_iter(&self) -> (r: Vec<(EquipSlotKind, u8, Item)>)
        requires
            equip_wf(self@),
        ensures
            r@.len() == self@.items.len(),
            forall|j: int| 0 <= j < r@.len() ==> (#[trigger] r@[j]).2@ == self@.items[j].0,
            forall|j: int|
                0 <= j < r@.len() ==> exists|p: int|
                    0 <= p < self@.slots.len() && (#[trigger] self@.slots[p]).esk == (
                    #[trigger] r@[j]).0 && self@.slots[p].n == r@[j].1 && self@.slots[p].list_idx
                        is Some && self@.slots[p].list_idx->Some_0 as int == j,
    {
        let mut r: Vec<(EquipSlotKind, u8, Item)> = Vec::new();
        let mut p: usize = 0;
        while p < self.slots.len()
            invariant
                equip_wf(self@),
                p <= self@.slots.len(),
                r@.len() == occ_before(self@.slots, p as int),
                forall|j: int| 0 <= j < r@.len() ==> (#[trigger] r@[j]).2@ == self@.items[j].0,
                forall|j: int|
                    0 <= j < r@.len() ==> exists|q: int|
                        0 <= q < self@.slots.len() && (#[trigger] self@.slots[q]).esk == (
                        #[trigger] r@[j]).0 && self@.slots[q].n == r@[j].1
                            && self@.slots[q].list_idx is Some && self@.slots[q].list_idx->Some_0
                            as int == j,
            decreases self@.slots.len() - p,
        {
            let slot = self.slots[p];
            if let Some(k) = slot.list_idx {
                proof {
                    lemma_occ_before_le(self@.slots, p as int + 1, self@.slots.len() as int);
                    lemma_occ_before_nonneg(self@.slots, p as int);
                    assert((k as int) < self@.items.len());
                    assert(k as int == occ_before(self@.slots, p as int));
                }
                let it = self.item_list.items[k as usize].0.clone();
                r.push((slot.esk, slot.n, it));
                proof {
                    let j = r@.len() - 1;
                    assert(self@.slots[p as int].esk == r@[j].0 && self@.slots[p as int].n
                        == r@[j].1 && self@.slots[p as int].list_idx is Some
                        && self@.slots[p as int].list_idx->Some_0 as int == j);
                }
            }
            p = p + 1;
        }
        proof {
            assert(r@.len() == self@.items.len());
        }
        r
    }

    /// The backing item list.
    pub fn list(&self) -> (r: &ItemList)
        ensures
            r@ == self@.items,
    {
        &self.item_list
    }

    /// Total number of slots.
    pub fn n_slots(&self) -> (r: u32)
        requires
            self@.slots.len() <= u32::MAX,
        ensures
            r as int == self@.slots.len(),
    {
        self.slots.len() as u32
    }
}

/// Equipping an empty slot preserves the table invariant.
#[verifier::rlimit(50)]
proof fn lemma_equip_insert_wf(v: EquipView, esk: EquipSlotKind, n: int, it: ItemView)
    requires
        equip_wf(v),
        slot_at(v.slots, esk, n) is Some,
        v.slots[slot_at(v.slots, esk, n)->Some_0].list_idx is None,
    ensures
        equip_wf(equip_spec(v, esk, n, it).0),
{
    reveal(equip_spec);
    lemma_slot_at_char(v.slots, esk, n);
    let p = slot_at(v.slots, esk, n)->Some_0;
    let w = equip_spec(v, esk, n, it).0;
    let len = v.slots.len() as int;
    lemma_occ_before_nonneg(v.slots, p);
    lemma_occ_before_le(v.slots, p, len);
    lemma_occ_before_le(v.slots, 0, len);
    assert(occ_before(v.slots, len) <= len);
    assert forall|t: int| 0 <= t <= len implies occ_before(w.slots, t) == occ_before(v.slots, t)
        + if t > p {
        1int
    } else {
        0int
    } by {
        lemma_occ_shift(v.slots, w.slots, p, t);
    }
    assert forall|q: int| 0 <= q < len implies (#[trigger] w.slots[q]).n as int
        == count_esk_before(w.slots, q, w.slots[q].esk) by {
        lemma_count_esk_agree(w.slots, v.slots, q, w.slots[q].esk);
    }
    assert forall|q: int| 0 <= q < len implies match (#[trigger] w.slots[q]).list_idx {
        Some(kk) => kk as int == occ_before(w.slots, q),
        None => true,
    } by {
        lemma_occ_before_nonneg(v.slots, q);
        lemma_occ_before_le(v.slots, q, len);
        if q < p {
            assert(w.slots[q] == v.slots[q]);
            assert(occ_before(w.slots, q) == occ_before(v.slots, q));
        } else if q == p {
            assert(w.slots[q].list_idx == Some(occ_before(v.slots, p) as u8));
            assert(0 <= occ_before(v.slots, p) <= 255);
            assert(occ_before(w.slots, p) == occ_before(v.slots, p));
        } else if occupied(v.slots[q]) {
            let kk = v.slots[q].list_idx->Some_0;
            assert(kk as int == occ_before(v.slots, q));
            assert(occ_before(v.slots, q + 1) == occ_before(v.slots, q) + 1);
            lemma_occ_before_le(v.slots, q + 1, len);
            assert(occ_before(v.slots, q) + 1 <= occ_before(v.slots, len));
            assert(kk as int + 1 <= 255);
            assert(w.slots[q].list_idx == Some((kk + 1) as u8));
            assert(occ_before(w.slots, q) == occ_before(v.slots, q) + 1);
        } else {
            assert(w.slots[q] == v.slots[q]);
        }
    }
    assert(w.items.len() == occ_before(w.slots, len));
}

proof fn lemma_occ_shift(s1: Seq<SlotInfo>, s2: Seq<SlotInfo>, p: int, t: int)
    requires
        0 <= p < s1.len(),
        s2.len() == s1.len(),
        !occupied(s1[p]),
        forall|j: int|
            0 <= j < s1.len() ==> occupied(#[trigger] s2[j]) == (j == p || occupied(s1[j])),
        0 <= t <= s1.len(),
    ensures
        occ_before(s2, t) == occ_before(s1, t) + if t > p {
            1int
        } else {
            0int
        },
    decreases t,
{
    if t > 0 {
        lemma_occ_shift(s1, s2, p, t - 1);
    }
}

/// Law: equipping a slot with `a` and then with `b` displaces `a`, and the
/// slot then holds `b`.
#[verifier::rlimit(50)]
pub proof fn lemma_equip_twice(
    v: EquipView,
    esk: EquipSlotKind,
    n: int,
    a: ItemView,
    b: ItemView,
)
    requires
        equip_wf(v),
        0 <= n < slot_count(v.slots, esk),
    ensures
        ({
            let v1 = equip_spec(v, esk, n, a).0;
            let v2 = equip_spec(v1, esk, n, b).0;
            &&& equip_spec(v1, esk, n, b).1 == Some(a)
            &&& item_at_slot(v2, esk, n) == Some(b)
        }),
{
    reveal(equip_spec);
    let len = v.slots.len() as int;
    lemma_slot_exists(v.slots, esk, n);
    lemma_slot_at_char(v.slots, esk, n);
    let p = slot_at(v.slots, esk, n)->Some_0;
    let v1 = equip_spec(v, esk, n, a).0;
    match v.slots[p].list_idx {
        Some(k) => {
            lemma_occ_before_le(v.slots, p + 1, len);
            lemma_occ_before_nonneg(v.slots, p);
            assert((k as int) < v.items.len());
            assert(v1.slots == v.slots);
            assert(v1.items[k as int].0 == a);
            let v2 = equip_spec(v1, esk, n, b).0;
            assert(equip_spec(v1, esk, n, b).1 == Some(a));
            assert(item_at_slot(v2, esk, n) == Some(b));
        }
        None => {
            let k = occ_before(v.slots, p);
            lemma_occ_before_nonneg(v.slots, p);
            lemma_occ_before_le(v.slots, p, len);
            lemma_occ_before_le(v.slots, 0, len);
            assert(k <= v.items.len());
            assert(v.items.len() <= len);
            assert(k <= 255);
            // the slot keeps its kind and ordinal, so it is still the first match
            assert forall|q: int| 0 <= q < p implies !((#[trigger] v1.slots[q]).esk == esk
                && v1.slots[q].n == n) by {
                assert(v1.slots[q].esk == v.slots[q].esk && v1.slots[q].n == v.slots[q].n);
            }
            assert(v1.slots[p].esk == esk && v1.slots[p].n == n);
            lemma_slot_at_is(v1.slots, esk, n, p);
            assert(v1.slots[p].list_idx == Some(k as u8));
            assert(v1.items == v.items.insert(k, (a, 1)));
            assert(v1.items[k].0 == a);
            let v2 = equip_spec(v1, esk, n, b).0;
            assert(equip_spec(v1, esk, n, b).1 == Some(a));
            assert(v2.items == v1.items.update(k, (b, v1.items[k].1)));
            assert(item_at_slot(v2, esk, n) == Some(b));
        }
    }
}

} // verus!
