//! Item filters: which items a list view shows, and the cursor that walks
//! a list under a filter.

use vstd::prelude::*;

use crate::defs::{ItemListLocation, ItemLocation};
use crate::equip::{spec_item_slot_kind, EquipSlotKind};
use crate::item::{Item, ItemFlags, ItemList, ItemView};

verus! {

/// Used for creating filtered list and saving filtering state.
#[derive(Clone, Copy, Debug)]
pub struct ItemFilter {
    pub all: bool,
    pub equip_slot_kind: Option<EquipSlotKind>,
    pub flags: ItemFlags,
}

/// Whether the filter keeps an item: everything when `all` is set; else
/// the item's kind must equip to the asked slot kind, and the item must
/// carry all asked flags. The kind is the item's own, set from its object
/// when the item was generated.
pub open spec fn judge_spec(f: ItemFilter, item: ItemView) -> bool {
    if f.all {
        true
    } else {
        (match f.equip_slot_kind {
            Some(esk) => spec_item_slot_kind(item.kind) == Some(esk),
            None => true,
        }) && item.flags.bits & f.flags.bits == f.flags.bits
    }
}

impl ItemFilter {
    pub fn new() -> (r: ItemFilter)
        ensures
            r == (ItemFilter { all: false, equip_slot_kind: None::<EquipSlotKind>, flags: ItemFlags { bits: 0 } }),
    {
        ItemFilter::default()
    }

    /// A filter that keeps every item.
    pub fn all() -> (r: ItemFilter)
        ensures
            r == (ItemFilter { all: true, equip_slot_kind: None::<EquipSlotKind>, flags: ItemFlags { bits: 0 } }),
    {
        let mut filter = ItemFilter::default();
        filter.all = true;
        filter
    }

    /// Given item will be filtered (false) or not (true).
    pub fn judge(&self, item: &Item) -> (r: bool)
        ensures
            r == judge_spec(*self, item@),
    {
        if self.all {
            return true;
        }
        if let Some(equip_slot_kind) = self.equip_slot_kind {
            let k = item.kind.equip_slot_kind();
            let matches_slot = match k {
                Some(a) => a == equip_slot_kind,
                None => false,
            };
            if !matches_slot {
                return false;
            }
        }
        if !item.flags.contains(self.flags) {
            return false;
        }
        true
    }

    /// Ask for items equipping to one slot kind.
    pub fn equip_slot_kind(self, equip_slot_kind: EquipSlotKind) -> (r: ItemFilter)
        ensures
            r == (ItemFilter { equip_slot_kind: Some(equip_slot_kind), ..self }),
    {
        let mut f = self;
        f.equip_slot_kind = Some(equip_slot_kind);
        f
    }

    /// Ask for items carrying all the given flags.
    pub fn flags(self, flags: ItemFlags) -> (r: ItemFilter)
        ensures
            r == (ItemFilter { flags, ..self }),
    {
        let mut f = self;
        f.flags = flags;
        f
    }
}

impl Default for ItemFilter {
    fn default() -> (r: ItemFilter)
        ensures
            r == (ItemFilter { all: false, equip_slot_kind: None::<EquipSlotKind>, flags: ItemFlags { bits: 0 } }),
    {
        ItemFilter { all: false, equip_slot_kind: None, flags: ItemFlags::empty() }
    }
}

/// The first entry at or after `i` that the filter keeps.
pub open spec fn next_match(s: Seq<(ItemView, u32)>, f: ItemFilter, i: int) -> Option<int>
    decreases s.len() - i,
{
    if i < 0 || i >= s.len() {
        None
    } else if judge_spec(f, s[i].0) {
        Some(i)
    } else {
        next_match(s, f, i + 1)
    }
}

/// A cursor over one item list under a filter. The list itself is handed
/// to each step, so the cursor holds only the location, the filter and the
/// position reached.
#[derive(Clone, Copy, Debug)]
pub struct FilteredItemList {
    pub location: ItemListLocation,
    pub filter: ItemFilter,
    pub count: usize,
}

impl FilteredItemList {
    pub fn new(location: ItemListLocation, filter: ItemFilter) -> (r: FilteredItemList)
        ensures
            r == (FilteredItemList { location, filter, count: 0 }),
    {
        FilteredItemList { location, filter, count: 0 }
    }

    /// A cursor that keeps every item.
    pub fn all(location: ItemListLocation) -> (r: FilteredItemList)
        ensures
            r == (FilteredItemList {
                location,
                filter: ItemFilter { all: true, equip_slot_kind: None::<EquipSlotKind>, flags: ItemFlags { bits: 0 } },
                count: 0,
            }),
    {
        FilteredItemList { location, filter: ItemFilter::all(), count: 0 }
    }

    /// The next entry of the list that the filter keeps, with its location
    /// and unit count; the cursor moves past it.
    pub fn next(&mut self, list: &ItemList) -> (r: Option<(ItemLocation, Item, u32)>)
        requires
            list@.len() <= u32::MAX,
        ensures
            final(self).location == old(self).location,
            final(self).filter == old(self).filter,
            match next_match(list@, old(self).filter, old(self).count as int) {
                Some(j) => r is Some && {
                    let t = r->Some_0;
                    &&& t.0 == (old(self).location, j as u32)
                    &&& t.1@ == list@[j].0
                    &&& t.2 == list@[j].1
                    &&& final(self).count == j + 1
                },
                None => r is None && final(self).count as int == if old(self).count as int
                    >= list@.len() {
                    old(self).count as int
                } else {
                    list@.len() as int
                },
            },
    {
        loop
            invariant
                list@.len() <= u32::MAX,
                self.location == old(self).location,
                self.filter == old(self).filter,
                old(self).count <= self.count,
                old(self).count as int >= list@.len() ==> self.count == old(self).count,
                (old(self).count as int) < list@.len() ==> self.count as int <= list@.len(),
                next_match(list@, old(self).filter, old(self).count as int) == next_match(
                    list@,
                    self.filter,
                    self.count as int,
                ),
            decreases list@.len() - self.count,
        {
            if list.items.len() <= self.count {
                return None;
            }
            let a = &list.items[self.count];
            let prev_count = self.count;
            self.count = self.count + 1;
            if self.filter.judge(&a.0) {
                return Some(((self.location, prev_count as u32), a.0.clone(), a.1));
            }
        }
    }
}

/// Holders of item lists that can be walked under a filter.
pub trait FilteredListHolder {
    /// A cursor over the list at the given location, under the filter.
    fn get_filtered_item_list(
        &self,
        list_location: ItemListLocation,
        filter: ItemFilter,
    ) -> (r: FilteredItemList)
        ensures
            r == (FilteredItemList { location: list_location, filter, count: 0 }),
    ;
}

impl FilteredListHolder for crate::gamedata::GameData {
    fn get_filtered_item_list(
        &self,
        list_location: ItemListLocation,
        filter: ItemFilter,
    ) -> (r: FilteredItemList) {
        FilteredItemList::new(list_location, filter)
    }
}

} // verus!
