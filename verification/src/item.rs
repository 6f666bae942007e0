//! Game items and the sorted item list owned by one character or one tile.
//!
//! An item's identity for list purposes is the key `(kind, idx, rank,
//! attributes)`, compared lexicographically; flags take no part in the
//! order, so two items that differ only in flags share one list entry.

use vstd::prelude::*;

verus! {

/// Index of an item object in the object store's item table.
#[derive(Clone, Copy, PartialEq, Eq, Structural, Debug, Hash)]
pub struct ItemIdx(pub u32);

/// This is mainly used for item list sorting.
#[derive(Clone, Copy, PartialEq, Eq, Structural, Debug)]
pub enum ItemKind {
    Object,
    Potion,
    Food,
    Weapon(WeaponKind),
    Armor(ArmorKind),
    Material,
    Special,
}

/// Item kind without the weapon/armor payload.
#[derive(Clone, Copy, PartialEq, Eq, Structural, Debug)]
pub enum ItemKindRough {
    Object,
    Potion,
    Food,
    Weapon,
    Armor,
    Material,
    Special,
}

#[derive(Clone, Copy, PartialEq, Eq, Structural, Debug, Hash)]
pub enum WeaponKind {
    Sword,
    Spear,
    Axe,
    Whip,
    Bow,
    Crossbow,
    Gun,
}

#[derive(Clone, Copy, PartialEq, Eq, Structural, Debug, Hash)]
pub enum ArmorKind {
    Body,
    Shield,
}

/// Item flags, held as one bit per property.
#[derive(Clone, Copy, PartialEq, Eq, Structural, Debug)]
pub struct ItemFlags {
    pub bits: u64,
}

pub const ITEM_FLAG_EATABLE: u64 = 1;
pub const ITEM_FLAG_DRINKABLE: u64 = 2;

impl ItemFlags {
    /// No flag set.
    pub fn empty() -> (r: ItemFlags)
        ensures
            r.bits == 0,
    {
        ItemFlags { bits: 0 }
    }

    pub open spec fn spec_contains(self, other: ItemFlags) -> bool {
        self.bits & other.bits == other.bits
    }

    /// All flags of `other` are set in `self`.
    pub fn contains(&self, other: ItemFlags) -> (r: bool)
        ensures
            r == self.spec_contains(other),
    {
        self.bits & other.bits == other.bits
    }
}

/// Item rank is used to calculate the effects.
#[derive(Clone, Copy, PartialEq, Eq, Structural, Debug)]
pub struct ItemRank {
    /// Base rank of the item.
    pub base: i8,
    /// This rank will be changed by some magical effects.
    pub enchant: i8,
    /// If the item is damaged, this value will decrease.
    pub damage: i8,
}

impl Default for ItemRank {
    fn default() -> (r: ItemRank)
        ensures
            r.base == 0 && r.enchant == 0 && r.damage == 0,
    {
        ItemRank { base: 0, enchant: 0, damage: 0 }
    }
}

impl ItemRank {
    /// Return the summation of rank values.
    pub fn as_int(&self) -> (r: i32)
        ensures
            r == self.base + self.enchant + self.damage,
    {
        self.base as i32 + self.enchant as i32 + self.damage as i32
    }
}

/// Items can have zero or more attributes.
#[derive(Clone, Copy, PartialEq, Eq, Structural, Debug)]
pub enum ItemAttribute {
    /// Data to generate the contents.
    /// Used to fix generated contents when this item is opened.
    ContentGen { level: u32, seed: u32 },
}

#[derive(Clone, Copy, PartialEq, Eq, Structural, Debug)]
pub enum MedicalEffect {
    NoEffect,
    Heal,
    Sleep,
    Poison,
}

impl Default for MedicalEffect {
    fn default() -> (r: MedicalEffect)
        ensures
            r == MedicalEffect::NoEffect,
    {
        MedicalEffect::NoEffect
    }
}

/// Data to generate an item.
#[derive(PartialEq, Eq, Debug)]
pub struct ItemGen {
    pub id: String,
}

impl Clone for ItemGen {
    fn clone(&self) -> (r: Self)
        ensures
            r.id@ == self.id@,
    {
        ItemGen { id: self.id.clone() }
    }
}

/// Game item.
#[derive(PartialEq, Eq, Debug)]
pub struct Item {
    pub idx: ItemIdx,
    pub kind: ItemKind,
    pub flags: ItemFlags,
    pub rank: ItemRank,
    pub attributes: Vec<ItemAttribute>,
}

/// Mathematical value of an [`Item`]: its fields with the attribute vector
/// abstracted to a sequence.
pub ghost struct ItemView {
    pub idx: ItemIdx,
    pub kind: ItemKind,
    pub flags: ItemFlags,
    pub rank: ItemRank,
    pub attributes: Seq<ItemAttribute>,
}

impl View for Item {
    type V = ItemView;

    open spec fn view(&self) -> ItemView {
        ItemView {
            idx: self.idx,
            kind: self.kind,
            flags: self.flags,
            rank: self.rank,
            attributes: self.attributes@,
        }
    }
}

impl Clone for Item {
    fn clone(&self) -> (r: Self)
        ensures
            r@ == self@,
    {
        Item {
            idx: self.idx,
            kind: self.kind,
            flags: self.flags,
            rank: self.rank,
            attributes: clone_attributes(&self.attributes),
        }
    }
}

fn clone_attributes(v: &Vec<ItemAttribute>) -> (r: Vec<ItemAttribute>)
    ensures
        r@ == v@,
{
    let mut r: Vec<ItemAttribute> = Vec::new();
    let mut i: usize = 0;
    while i < v.len()
        invariant
            i <= v@.len(),
            r@ == v@.subrange(0, i as int),
        decreases v@.len() - i,
    {
        r.push(v[i]);
        i = i + 1;
        proof {
            assert(r@ =~= v@.subrange(0, i as int));
        }
    }
    proof {
        assert(r@ =~= v@);
    }
    r
}

//
// The total order on item keys: (kind, idx, rank, attributes), lexicographic.
//

pub open spec fn weapon_num(w: WeaponKind) -> int {
    match w {
        WeaponKind::Sword => 0,
        WeaponKind::Spear => 1,
        WeaponKind::Axe => 2,
        WeaponKind::Whip => 3,
        WeaponKind::Bow => 4,
        WeaponKind::Crossbow => 5,
        WeaponKind::Gun => 6,
    }
}

pub open spec fn armor_num(a: ArmorKind) -> int {
    match a {
        ArmorKind::Body => 0,
        ArmorKind::Shield => 1,
    }
}

pub open spec fn kind_num(k: ItemKind) -> int {
    match k {
        ItemKind::Object => 0,
        ItemKind::Potion => 1,
        ItemKind::Food => 2,
        ItemKind::Weapon(_) => 3,
        ItemKind::Armor(_) => 4,
        ItemKind::Material => 5,
        ItemKind::Special => 6,
    }
}

pub open spec fn kind_lt(a: ItemKind, b: ItemKind) -> bool {
    if kind_num(a) != kind_num(b) {
        kind_num(a) < kind_num(b)
    } else {
        match (a, b) {
            (ItemKind::Weapon(x), ItemKind::Weapon(y)) => weapon_num(x) < weapon_num(y),
            (ItemKind::Armor(x), ItemKind::Armor(y)) => armor_num(x) < armor_num(y),
            _ => false,
        }
    }
}

pub open spec fn rank_lt(a: ItemRank, b: ItemRank) -> bool {
    a.base < b.base
        || (a.base == b.base && (a.enchant < b.enchant
            || (a.enchant == b.enchant && a.damage < b.damage)))
}

pub open spec fn attr_lt(a: ItemAttribute, b: ItemAttribute) -> bool {
    match (a, b) {
        (
            ItemAttribute::ContentGen { level: la, seed: sa },
            ItemAttribute::ContentGen { level: lb, seed: sb },
        ) => la < lb || (la == lb && sa < sb),
    }
}

/// Lexicographic order on attribute sequences; a strict prefix precedes
/// its extensions.
pub open spec fn attrs_lt(a: Seq<ItemAttribute>, b: Seq<ItemAttribute>) -> bool
    decreases a.len(),
{
    if b.len() == 0 {
        false
    } else if a.len() == 0 {
        true
    } else if a[0] != b[0] {
        attr_lt(a[0], b[0])
    } else {
        attrs_lt(a.drop_first(), b.drop_first())
    }
}

/// Strict total order on item keys: `(kind, idx, rank, attributes)`,
/// lexicographic. Flags take no part.
pub open spec fn key_lt(a: ItemView, b: ItemView) -> bool {
    kind_lt(a.kind, b.kind)
        || (a.kind == b.kind && (a.idx.0 < b.idx.0
            || (a.idx.0 == b.idx.0 && (rank_lt(a.rank, b.rank)
                || (a.rank == b.rank && attrs_lt(a.attributes, b.attributes))))))
}

/// Two items fall together in the list exactly when their keys agree;
/// flags take no part.
pub open spec fn key_eq(a: ItemView, b: ItemView) -> bool {
    a.kind == b.kind && a.idx.0 == b.idx.0 && a.rank == b.rank && a.attributes == b.attributes
}

proof fn lemma_attr_trichotomy(a: ItemAttribute, b: ItemAttribute)
    ensures
        attr_lt(a, b) || a == b || attr_lt(b, a),
        attr_lt(a, b) ==> a != b && !attr_lt(b, a),
        a == b ==> !attr_lt(a, b) && !attr_lt(b, a),
{
}

proof fn lemma_attrs_trichotomy(a: Seq<ItemAttribute>, b: Seq<ItemAttribute>)
    ensures
        attrs_lt(a, b) || a == b || attrs_lt(b, a),
        attrs_lt(a, b) ==> a != b && !attrs_lt(b, a),
        a == b ==> !attrs_lt(a, b) && !attrs_lt(b, a),
    decreases a.len(),
{
    if b.len() == 0 || a.len() == 0 {
        if a.len() == 0 && b.len() == 0 {
            assert(a =~= b);
        }
    } else if a[0] != b[0] {
        lemma_attr_trichotomy(a[0], b[0]);
    } else {
        lemma_attrs_trichotomy(a.drop_first(), b.drop_first());
        if a.drop_first() == b.drop_first() {
            assert forall|i: int| 0 <= i < a.len() implies a[i] == b[i] by {
                if i > 0 {
                    assert(a[i] == a.drop_first()[i - 1]);
                    assert(b[i] == b.drop_first()[i - 1]);
                }
            }
            assert(a =~= b);
        }
        if a == b {
            assert(a.drop_first() =~= b.drop_first());
        }
    }
}

proof fn lemma_attr_lt_trans(a: ItemAttribute, b: ItemAttribute, c: ItemAttribute)
    requires
        attr_lt(a, b),
        attr_lt(b, c),
    ensures
        attr_lt(a, c),
{
}

proof fn lemma_attrs_lt_trans(a: Seq<ItemAttribute>, b: Seq<ItemAttribute>, c: Seq<ItemAttribute>)
    requires
        attrs_lt(a, b),
        attrs_lt(b, c),
    ensures
        attrs_lt(a, c),
    decreases a.len() + b.len() + c.len(),
{
    if c.len() == 0 || b.len() == 0 {
        // attrs_lt(b, c) forces c.len() > 0; attrs_lt(a, b) forces b.len() > 0.
    } else if a.len() == 0 {
    } else {
        if a[0] == b[0] && b[0] == c[0] {
            lemma_attrs_lt_trans(a.drop_first(), b.drop_first(), c.drop_first());
        } else if a[0] == b[0] {
            // order decided at the head of b vs c
        } else if b[0] == c[0] {
        } else {
            lemma_attr_lt_trans(a[0], b[0], c[0]);
        }
    }
}

/// Exactly one of `key_lt(a, b)`, `key_eq(a, b)`, `key_lt(b, a)` holds.
pub proof fn lemma_key_trichotomy(a: ItemView, b: ItemView)
    ensures
        key_lt(a, b) || key_eq(a, b) || key_lt(b, a),
        key_lt(a, b) ==> !key_eq(a, b) && !key_lt(b, a),
        key_eq(a, b) ==> !key_lt(a, b) && !key_lt(b, a),
{
    lemma_attrs_trichotomy(a.attributes, b.attributes);
}

pub proof fn lemma_key_lt_trans(a: ItemView, b: ItemView, c: ItemView)
    requires
        key_lt(a, b),
        key_lt(b, c),
    ensures
        key_lt(a, c),
{
    if a.kind == b.kind && b.kind == c.kind && a.idx.0 == b.idx.0 && b.idx.0 == c.idx.0
        && a.rank == b.rank && b.rank == c.rank {
        lemma_attrs_lt_trans(a.attributes, b.attributes, c.attributes);
    }
}


//
// Executable comparison, proved against the order above.
//

fn weapon_num_ex(w: WeaponKind) -> (r: u32)
    ensures
        r as int == weapon_num(w),
{
    match w {
        WeaponKind::Sword => 0,
        WeaponKind::Spear => 1,
        WeaponKind::Axe => 2,
        WeaponKind::Whip => 3,
        WeaponKind::Bow => 4,
        WeaponKind::Crossbow => 5,
        WeaponKind::Gun => 6,
    }
}

fn armor_num_ex(a: ArmorKind) -> (r: u32)
    ensures
        r as int == armor_num(a),
{
    match a {
        ArmorKind::Body => 0,
        ArmorKind::Shield => 1,
    }
}

fn kind_num_ex(k: ItemKind) -> (r: u32)
    ensures
        r as int == kind_num(k),
{
    match k {
        ItemKind::Object => 0,
        ItemKind::Potion => 1,
        ItemKind::Food => 2,
        ItemKind::Weapon(_) => 3,
        ItemKind::Armor(_) => 4,
        ItemKind::Material => 5,
        ItemKind::Special => 6,
    }
}

fn kind_cmp(a: ItemKind, b: ItemKind) -> (o: core::cmp::Ordering)
    ensures
        (o == core::cmp::Ordering::Less) == kind_lt(a, b),
        (o == core::cmp::Ordering::Equal) == (a == b),
        (o == core::cmp::Ordering::Greater) == kind_lt(b, a),
{
    let na = kind_num_ex(a);
    let nb = kind_num_ex(b);
    if na < nb {
        core::cmp::Ordering::Less
    } else if na > nb {
        core::cmp::Ordering::Greater
    } else {
        match (a, b) {
            (ItemKind::Weapon(x), ItemKind::Weapon(y)) => {
                let nx = weapon_num_ex(x);
                let ny = weapon_num_ex(y);
                if nx < ny {
                    core::cmp::Ordering::Less
                } else if nx > ny {
                    core::cmp::Ordering::Greater
                } else {
                    core::cmp::Ordering::Equal
                }
            }
            (ItemKind::Armor(x), ItemKind::Armor(y)) => {
                let nx = armor_num_ex(x);
                let ny = armor_num_ex(y);
                if nx < ny {
                    core::cmp::Ordering::Less
                } else if nx > ny {
                    core::cmp::Ordering::Greater
                } else {
                    core::cmp::Ordering::Equal
                }
            }
            _ => core::cmp::Ordering::Equal,
        }
    }
}

fn rank_cmp(a: ItemRank, b: ItemRank) -> (o: core::cmp::Ordering)
    ensures
        (o == core::cmp::Ordering::Less) == rank_lt(a, b),
        (o == core::cmp::Ordering::Equal) == (a == b),
        (o == core::cmp::Ordering::Greater) == rank_lt(b, a),
{
    if a.base < b.base {
        core::cmp::Ordering::Less
    } else if a.base > b.base {
        core::cmp::Ordering::Greater
    } else if a.enchant < b.enchant {
        core::cmp::Ordering::Less
    } else if a.enchant > b.enchant {
        core::cmp::Ordering::Greater
    } else if a.damage < b.damage {
        core::cmp::Ordering::Less
    } else if a.damage > b.damage {
        core::cmp::Ordering::Greater
    } else {
        core::cmp::Ordering::Equal
    }
}

fn attr_cmp(a: ItemAttribute, b: ItemAttribute) -> (o: core::cmp::Ordering)
    ensures
        (o == core::cmp::Ordering::Less) == attr_lt(a, b),
        (o == core::cmp::Ordering::Equal) == (a == b),
        (o == core::cmp::Ordering::Greater) == attr_lt(b, a),
{
    match (a, b) {
        (
            ItemAttribute::ContentGen { level: la, seed: sa },
            ItemAttribute::ContentGen { level: lb, seed: sb },
        ) => {
            if la < lb {
                core::cmp::Ordering::Less
            } else if la > lb {
                core::cmp::Ordering::Greater
            } else if sa < sb {
                core::cmp::Ordering::Less
            } else if sa > sb {
                core::cmp::Ordering::Greater
            } else {
                core::cmp::Ordering::Equal
            }
        }
    }
}

proof fn lemma_attrs_lt_skip(a: Seq<ItemAttribute>, b: Seq<ItemAttribute>, i: int)
    requires
        0 <= i <= a.len(),
        0 <= i <= b.len(),
        forall|j: int| 0 <= j < i ==> a[j] == b[j],
    ensures
        attrs_lt(a, b) == attrs_lt(a.skip(i), b.skip(i)),
        (a == b) == (a.skip(i) == b.skip(i)),
    decreases i,
{
    if i > 0 {
        assert(a[0] == b[0]);
        assert(a.drop_first() =~= a.skip(1));
        assert(b.drop_first() =~= b.skip(1));
        assert(attrs_lt(a, b) == attrs_lt(a.drop_first(), b.drop_first()));
        assert forall|j: int| 0 <= j < i - 1 implies a.skip(1)[j] == b.skip(1)[j] by {
            assert(a.skip(1)[j] == a[j + 1]);
            assert(b.skip(1)[j] == b[j + 1]);
        }
        lemma_attrs_lt_skip(a.skip(1), b.skip(1), i - 1);
        assert(a.skip(1).skip(i - 1) =~= a.skip(i));
        assert(b.skip(1).skip(i - 1) =~= b.skip(i));
        if a.skip(1) == b.skip(1) {
            assert forall|j: int| 0 <= j < a.len() implies a[j] == b[j] by {
                if j > 0 {
                    assert(a[j] == a.skip(1)[j - 1]);
                    assert(b[j] == b.skip(1)[j - 1]);
                }
            }
            assert(a =~= b);
        }
        if a == b {
            assert(a.skip(1) =~= b.skip(1));
        }
    } else {
        assert(a.skip(0) =~= a);
        assert(b.skip(0) =~= b);
    }
}

fn attrs_cmp(a: &Vec<ItemAttribute>, b: &Vec<ItemAttribute>) -> (o: core::cmp::Ordering)
    ensures
        (o == core::cmp::Ordering::Less) == attrs_lt(a@, b@),
        (o == core::cmp::Ordering::Equal) == (a@ == b@),
        (o == core::cmp::Ordering::Greater) == attrs_lt(b@, a@),
{
    let mut i: usize = 0;
    while i < a.len() && i < b.len()
        invariant
            i <= a@.len(),
            i <= b@.len(),
            forall|j: int| 0 <= j < i ==> a@[j] == b@[j],
        decreases a@.len() - i,
    {
        let o = attr_cmp(a[i], b[i]);
        match o {
            core::cmp::Ordering::Equal => {
                i = i + 1;
            }
            _ => {
                proof {
                    lemma_attrs_lt_skip(a@, b@, i as int);
                    lemma_attrs_lt_skip(b@, a@, i as int);
                    assert(a@.skip(i as int)[0] == a@[i as int]);
                    assert(b@.skip(i as int)[0] == b@[i as int]);
                    if a@ == b@ {
                        assert(a@[i as int] == b@[i as int]);
                    }
                }
                return o;
            }
        }
    }
    proof {
        lemma_attrs_lt_skip(a@, b@, i as int);
        lemma_attrs_lt_skip(b@, a@, i as int);
        if a@.len() == b@.len() {
            assert(a@.skip(i as int) =~= b@.skip(i as int));
        }
    }
    if a.len() < b.len() {
        core::cmp::Ordering::Less
    } else if a.len() > b.len() {
        core::cmp::Ordering::Greater
    } else {
        core::cmp::Ordering::Equal
    }
}

impl Item {
    /// Compare two items by the total order `(kind, idx, rank, attributes)`.
    /// `Equal` means the keys agree; the flags may still differ.
    pub fn cmp(&self, other: &Item) -> (o: core::cmp::Ordering)
        ensures
            (o == core::cmp::Ordering::Less) == key_lt(self@, other@),
            (o == core::cmp::Ordering::Equal) == key_eq(self@, other@),
            (o == core::cmp::Ordering::Greater) == key_lt(other@, self@),
    {
        proof {
            lemma_key_trichotomy(self@, other@);
        }
        let o = kind_cmp(self.kind, other.kind);
        match o {
            core::cmp::Ordering::Equal => {}
            _ => {
                return o;
            }
        }
        if self.idx.0 < other.idx.0 {
            return core::cmp::Ordering::Less;
        } else if self.idx.0 > other.idx.0 {
            return core::cmp::Ordering::Greater;
        }
        let o = rank_cmp(self.rank, other.rank);
        match o {
            core::cmp::Ordering::Equal => {}
            _ => {
                return o;
            }
        }
        attrs_cmp(&self.attributes, &other.attributes)
    }
}

//
// The sorted item list.
//

/// How many units an operation takes from an item list entry.
#[derive(Clone, Copy, PartialEq, Eq, Structural, Debug)]
pub enum ItemMoveNum {
    All,
    Partial(u32),
}

/// The number of units `n` stands for when the entry holds `all` units.
pub open spec fn resolve_num(n: ItemMoveNum, all: u32) -> u32 {
    match n {
        ItemMoveNum::All => all,
        ItemMoveNum::Partial(m) => m,
    }
}

impl ItemMoveNum {
    pub fn to_u32(self, all: u32) -> (r: u32)
        ensures
            r == resolve_num(self, all),
    {
        match self {
            ItemMoveNum::All => all,
            ItemMoveNum::Partial(n) => n,
        }
    }
}

/// Entries are strictly increasing by item key.
pub open spec fn sorted_strict(s: Seq<(ItemView, u32)>) -> bool {
    forall|i: int, j: int| 0 <= i < j < s.len() ==> key_lt(s[i].0, s[j].0)
}

/// Every entry holds at least one unit.
pub open spec fn counts_positive(s: Seq<(ItemView, u32)>) -> bool {
    forall|i: int| 0 <= i < s.len() ==> s[i].1 >= 1
}

/// The position where an item with key `k` belongs: the first entry whose
/// key is not below `k`, or the length if every key is below.
pub open spec fn ins_pos(s: Seq<(ItemView, u32)>, k: ItemView) -> int
    decreases s.len(),
{
    if s.len() == 0 {
        0
    } else if !key_lt(s[0].0, k) {
        0
    } else {
        1 + ins_pos(s.drop_first(), k)
    }
}

/// What `ItemList::append` does to the list's value: merge the count into
/// the entry with the same key, or insert a new entry at its position.
pub open spec fn merge_or_insert(s: Seq<(ItemView, u32)>, it: ItemView, n: u32) -> Seq<
    (ItemView, u32),
> {
    let p = ins_pos(s, it);
    if p < s.len() && key_eq(s[p].0, it) {
        s.update(p, (s[p].0, (s[p].1 + n) as u32))
    } else {
        s.insert(p, (it, n))
    }
}

/// What `ItemList::remove` does to the list's value: take `n` units from
/// entry `i`, deleting the entry when nothing is left.
pub open spec fn remove_spec(s: Seq<(ItemView, u32)>, i: int, n: u32) -> Seq<(ItemView, u32)> {
    if n == s[i].1 {
        s.remove(i)
    } else {
        s.update(i, (s[i].0, (s[i].1 - n) as u32))
    }
}

proof fn lemma_ins_pos_bounds(s: Seq<(ItemView, u32)>, k: ItemView)
    ensures
        0 <= ins_pos(s, k) <= s.len(),
    decreases s.len(),
{
    if s.len() > 0 && key_lt(s[0].0, k) {
        lemma_ins_pos_bounds(s.drop_first(), k);
    }
}


/// If everything before `i` is below `k` and `i` itself is not, the
/// insertion position is exactly `i`.
proof fn lemma_ins_pos_is(s: Seq<(ItemView, u32)>, k: ItemView, i: int)
    requires
        0 <= i <= s.len(),
        forall|j: int| 0 <= j < i ==> key_lt(#[trigger] s[j].0, k),
        i < s.len() ==> !key_lt(s[i].0, k),
    ensures
        ins_pos(s, k) == i,
    decreases s.len(),
{
    if s.len() > 0 && key_lt(s[0].0, k) {
        assert forall|j: int| 0 <= j < i - 1 implies key_lt(#[trigger] s.drop_first()[j].0, k) by {
            assert(s.drop_first()[j] == s[j + 1]);
        }
        if i < s.len() {
            assert(s.drop_first()[i - 1] == s[i]);
        }
        lemma_ins_pos_is(s.drop_first(), k, i - 1);
    }
}

proof fn lemma_sorted_insert(s: Seq<(ItemView, u32)>, p: int, e: (ItemView, u32))
    requires
        sorted_strict(s),
        0 <= p <= s.len(),
        forall|j: int| 0 <= j < p ==> key_lt(#[trigger] s[j].0, e.0),
        forall|j: int| p <= j < s.len() ==> key_lt(e.0, #[trigger] s[j].0),
    ensures
        sorted_strict(s.insert(p, e)),
{
    let t = s.insert(p, e);
    assert forall|i: int, j: int| 0 <= i < j < t.len() implies key_lt(t[i].0, t[j].0) by {
        if i < p {
            assert(t[i] == s[i]);
        } else if i == p {
            assert(t[i] == e);
        } else {
            assert(t[i] == s[i - 1]);
        }
        if j < p {
            assert(t[j] == s[j]);
        } else if j == p {
            assert(t[j] == e);
        } else {
            assert(t[j] == s[j - 1]);
        }
    }
}

proof fn lemma_sorted_remove(s: Seq<(ItemView, u32)>, p: int)
    requires
        sorted_strict(s),
        0 <= p < s.len(),
    ensures
        sorted_strict(s.remove(p)),
{
    let t = s.remove(p);
    assert forall|i: int, j: int| 0 <= i < j < t.len() implies key_lt(t[i].0, t[j].0) by {
        if i < p {
            assert(t[i] == s[i]);
        } else {
            assert(t[i] == s[i + 1]);
        }
        if j < p {
            assert(t[j] == s[j]);
        } else {
            assert(t[j] == s[j + 1]);
        }
    }
}

proof fn lemma_sorted_update_count(s: Seq<(ItemView, u32)>, p: int, e: (ItemView, u32))
    requires
        sorted_strict(s),
        0 <= p < s.len(),
        e.0 == s[p].0,
    ensures
        sorted_strict(s.update(p, e)),
{
    let t = s.update(p, e);
    assert forall|i: int, j: int| 0 <= i < j < t.len() implies key_lt(t[i].0, t[j].0) by {
        assert(t[i].0 == s[i].0);
        assert(t[j].0 == s[j].0);
    }
}

/// Law: in a strictly increasing list no two entries share one key.
pub proof fn lemma_sorted_no_duplicate_keys(s: Seq<(ItemView, u32)>)
    requires
        sorted_strict(s),
    ensures
        forall|i: int, j: int|
            0 <= i < j < s.len() ==> !key_eq(#[trigger] s[i].0, #[trigger] s[j].0),
{
    assert forall|i: int, j: int|
        0 <= i < j < s.len() implies !key_eq(#[trigger] s[i].0, #[trigger] s[j].0) by {
        lemma_key_trichotomy(s[i].0, s[j].0);
    }
}

/// Item list that records all items owned by one character or one tile.
#[derive(PartialEq, Eq, Debug)]
pub struct ItemList {
    pub items: Vec<(Item, u32)>,
}

impl View for ItemList {
    type V = Seq<(ItemView, u32)>;

    open spec fn view(&self) -> Seq<(ItemView, u32)> {
        self.items@.map_values(|p: (Item, u32)| (p.0@, p.1))
    }
}

impl ItemList {
    /// The list invariant: strictly increasing by item key, and every
    /// entry holds at least one unit.
    pub open spec fn wf(&self) -> bool {
        sorted_strict(self@) && counts_positive(self@)
    }

    pub fn new() -> (r: ItemList)
        ensures
            r@ == Seq::<(ItemView, u32)>::empty(),
            r.wf(),
    {
        let r = ItemList { items: Vec::new() };
        proof {
            assert(r@ =~= Seq::<(ItemView, u32)>::empty());
        }
        r
    }

    /// Get the number of item units at entry `i`.
    pub fn get_number(&self, i: u32) -> (r: u32)
        requires
            i < self@.len(),
        ensures
            r == self@[i as int].1,
    {
        self.items[i as usize].1
    }

    /// This list is empty or not.
    pub fn is_empty(&self) -> (r: bool)
        ensures
            r == (self@.len() == 0),
    {
        self.items.is_empty()
    }

    /// Append item: merge `n` units into the entry with the same key, or
    /// insert a new entry at its place in the order.
    #[verifier::loop_isolation(false)]
    pub fn append(&mut self, item: Item, n: u32)
        requires
            old(self).wf(),
            n >= 1,
            forall|j: int|
                0 <= j < old(self)@.len() && key_eq(#[trigger] old(self)@[j].0, item@)
                    ==> old(self)@[j].1 + n <= u32::MAX,
        ensures
            final(self)@ == merge_or_insert(old(self)@, item@, n),
            final(self).wf(),
    {
        let ghost s0 = self@;
        let ghost k = item@;
        let mut i: usize = 0;
        while i < self.items.len()
            invariant
                self == old(self),
                i <= s0.len(),
                forall|j: int| 0 <= j < i ==> key_lt(#[trigger] s0[j].0, k),
            decreases s0.len() - i,
        {
            let o = item.cmp(&self.items[i].0);
            match o {
                core::cmp::Ordering::Equal => {
                    // This list has the same item: increase the number.
                    proof {
                        lemma_key_trichotomy(k, s0[i as int].0);
                        lemma_ins_pos_is(s0, k, i as int);
                        assert(key_eq(s0[i as int].0, k));
                    }
                    let c = self.items[i].1;
                    self.items[i].1 = c + n;
                    proof {
                        assert(self@ =~= merge_or_insert(s0, k, n));
                        lemma_sorted_update_count(s0, i as int, (s0[i as int].0, (c + n) as u32));
                    }
                    return;
                }
                core::cmp::Ordering::Less => {
                    proof {
                        lemma_key_trichotomy(k, s0[i as int].0);
                        lemma_ins_pos_is(s0, k, i as int);
                    }
                    self.items.insert(i, (item, n));
                    proof {
                        assert(self@ =~= s0.insert(i as int, (k, n)));
                        assert forall|j: int| i <= j < s0.len() implies key_lt(
                            k,
                            #[trigger] s0[j].0,
                        ) by {
                            if j > i {
                                lemma_key_lt_trans(k, s0[i as int].0, s0[j].0);
                            }
                        }
                        lemma_sorted_insert(s0, i as int, (k, n));
                        if ins_pos(s0, k) < s0.len() {
                            lemma_key_trichotomy(s0[ins_pos(s0, k)].0, k);
                        }
                        assert(self@ =~= merge_or_insert(s0, k, n));
                    }
                    return;
                }
                core::cmp::Ordering::Greater => {
                    i = i + 1;
                }
            }
        }
        // No entry with a key at or above the new item's: append at the end.
        proof {
            lemma_ins_pos_is(s0, k, s0.len() as int);
        }
        self.items.push((item, n));
        proof {
            assert(self@ =~= s0.insert(s0.len() as int, (k, n)));
            lemma_sorted_insert(s0, s0.len() as int, (k, n));
            assert(self@ =~= merge_or_insert(s0, k, n));
        }
    }

    /// Remove `n` units from the entry at `i`. Taking the last unit
    /// deletes the entry, keeping the no-zero-count invariant.
    pub fn remove(&mut self, i: u32, n: ItemMoveNum)
        requires
            old(self).wf(),
            i < old(self)@.len(),
            1 <= resolve_num(n, old(self)@[i as int].1) <= old(self)@[i as int].1,
        ensures
            final(self)@ == remove_spec(
                old(self)@,
                i as int,
                resolve_num(n, old(self)@[i as int].1),
            ),
            final(self).wf(),
    {
        let ghost s0 = self@;
        let i = i as usize;
        let c = self.items[i].1;
        let m = n.to_u32(c);
        if m == c {
            self.items.remove(i);
            proof {
                assert(self@ =~= s0.remove(i as int));
                lemma_sorted_remove(s0, i as int);
            }
        } else {
            self.items[i].1 = c - m;
            proof {
                assert(self@ =~= s0.update(i as int, (s0[i as int].0, (s0[i as int].1 - m) as u32)));
                lemma_sorted_update_count(s0, i as int, (s0[i as int].0, (c - m) as u32));
            }
        }
    }

    /// Remove `n` units from the entry at `i` and get the item's value.
    pub fn remove_and_get(&mut self, i: u32, n: ItemMoveNum) -> (r: Item)
        requires
            old(self).wf(),
            i < old(self)@.len(),
            1 <= resolve_num(n, old(self)@[i as int].1) <= old(self)@[i as int].1,
        ensures
            r@ == old(self)@[i as int].0,
            final(self)@ == remove_spec(
                old(self)@,
                i as int,
                resolve_num(n, old(self)@[i as int].1),
            ),
            final(self).wf(),
    {
        let ghost s0 = self@;
        let i = i as usize;
        let c = self.items[i].1;
        let m = n.to_u32(c);
        if m == c {
            let (it, _) = self.items.remove(i);
            proof {
                assert(self@ =~= s0.remove(i as int));
                lemma_sorted_remove(s0, i as int);
            }
            it
        } else {
            self.items[i].1 = c - m;
            proof {
                assert(self@ =~= s0.update(i as int, (s0[i as int].0, (s0[i as int].1 - m) as u32)));
                lemma_sorted_update_count(s0, i as int, (s0[i as int].0, (c - m) as u32));
            }
            self.items[i].0.clone()
        }
    }

    /// Move `n` units of the entry at `i` to the other item list.
    /// Logically one operation: the units leave `self` and enter `dest`.
    pub fn move_to(&mut self, dest: &mut ItemList, i: usize, n: ItemMoveNum)
        requires
            old(self).wf(),
            old(dest).wf(),
            i < old(self)@.len(),
            old(self)@.len() <= u32::MAX,
            1 <= resolve_num(n, old(self)@[i as int].1) <= old(self)@[i as int].1,
            forall|j: int|
                0 <= j < old(dest)@.len() && key_eq(#[trigger] old(dest)@[j].0, old(self)@[i as int].0)
                    ==> old(dest)@[j].1 + resolve_num(n, old(self)@[i as int].1) <= u32::MAX,
        ensures
            final(self)@ == remove_spec(
                old(self)@,
                i as int,
                resolve_num(n, old(self)@[i as int].1),
            ),
            final(self).wf(),
            final(dest)@ == merge_or_insert(
                old(dest)@,
                old(self)@[i as int].0,
                resolve_num(n, old(self)@[i as int].1),
            ),
            final(dest).wf(),
    {
        let c = self.items[i].1;
        let m = n.to_u32(c);
        let item = self.remove_and_get(i as u32, ItemMoveNum::Partial(m));
        dest.append(item, m);
    }

    /// Clear all items in the list.
    pub fn clear(&mut self)
        ensures
            final(self)@ == Seq::<(ItemView, u32)>::empty(),
            final(self).wf(),
    {
        self.items.clear();
        proof {
            assert(self@ =~= Seq::<(ItemView, u32)>::empty());
        }
    }

    /// The entries, in order. Callers index into the slice; the list owns
    /// no iterator type of its own.
    pub fn iter(&self) -> (r: &Vec<(Item, u32)>)
        ensures
            r@.map_values(|p: (Item, u32)| (p.0@, p.1)) == self@,
    {
        &self.items
    }

    /// First entry holding an item with object index `idx`.
    pub fn find(&self, idx: ItemIdx) -> (r: Option<u32>)
        requires
            self@.len() <= u32::MAX,
        ensures
            match r {
                Some(i) => i < self@.len() && self@[i as int].0.idx == idx && forall|j: int|
                    0 <= j < i ==> (#[trigger] self@[j].0).idx != idx,
                None => forall|j: int| 0 <= j < self@.len() ==> (#[trigger] self@[j].0).idx != idx,
            },
    {
        let mut i: usize = 0;
        while i < self.items.len()
            invariant
                i <= self@.len(),
                self@.len() <= u32::MAX,
                forall|j: int| 0 <= j < i ==> (#[trigger] self@[j].0).idx != idx,
            decreases self@.len() - i,
        {
            if self.items[i].0.idx.0 == idx.0 {
                return Some(i as u32);
            }
            i = i + 1;
        }
        None
    }
}

//
// Laws of the item list, stated over the value-level operations that the
// methods above are proved to perform.
//

/// Merging grows the list by at most one entry.
pub proof fn lemma_merge_or_insert_len(s: Seq<(ItemView, u32)>, it: ItemView, n: u32)
    ensures
        s.len() <= merge_or_insert(s, it, n).len() <= s.len() + 1,
{
    lemma_ins_pos_bounds(s, it);
}

/// What one entry contributes to the total of key `k`.
pub open spec fn key_contrib(e: (ItemView, u32), k: ItemView) -> int {
    if key_eq(e.0, k) {
        e.1 as int
    } else {
        0
    }
}

/// Total number of units held under key `k` over the whole list.
pub open spec fn total_count(s: Seq<(ItemView, u32)>, k: ItemView) -> int
    decreases s.len(),
{
    if s.len() == 0 {
        0
    } else {
        key_contrib(s[0], k) + total_count(s.drop_first(), k)
    }
}

proof fn lemma_total_insert(s: Seq<(ItemView, u32)>, p: int, e: (ItemView, u32), k: ItemView)
    requires
        0 <= p <= s.len(),
    ensures
        total_count(s.insert(p, e), k) == total_count(s, k) + key_contrib(e, k),
    decreases s.len(),
{
    let t = s.insert(p, e);
    if p == 0 {
        assert(t.drop_first() =~= s);
    } else {
        assert(t[0] == s[0]);
        assert(t.drop_first() =~= s.drop_first().insert(p - 1, e));
        lemma_total_insert(s.drop_first(), p - 1, e, k);
    }
}

proof fn lemma_total_update(s: Seq<(ItemView, u32)>, p: int, e: (ItemView, u32), k: ItemView)
    requires
        0 <= p < s.len(),
    ensures
        total_count(s.update(p, e), k) == total_count(s, k) - key_contrib(s[p], k) + key_contrib(
            e,
            k,
        ),
    decreases s.len(),
{
    let t = s.update(p, e);
    if p == 0 {
        assert(t.drop_first() =~= s.drop_first());
        assert(t[0] == e);
    } else {
        assert(t[0] == s[0]);
        assert(t.drop_first() =~= s.drop_first().update(p - 1, e));
        lemma_total_update(s.drop_first(), p - 1, e, k);
    }
}

proof fn lemma_total_remove_at(s: Seq<(ItemView, u32)>, p: int, k: ItemView)
    requires
        0 <= p < s.len(),
    ensures
        total_count(s.remove(p), k) == total_count(s, k) - key_contrib(s[p], k),
    decreases s.len(),
{
    let t = s.remove(p);
    if p == 0 {
        assert(t =~= s.drop_first());
    } else {
        assert(t[0] == s[0]);
        assert(t.drop_first() =~= s.drop_first().remove(p - 1));
        lemma_total_remove_at(s.drop_first(), p - 1, k);
    }
}

proof fn lemma_total_merge_or_insert(s: Seq<(ItemView, u32)>, it: ItemView, n: u32, k: ItemView)
    requires
        forall|j: int|
            0 <= j < s.len() && key_eq(#[trigger] s[j].0, it) ==> s[j].1 + n <= u32::MAX,
    ensures
        total_count(merge_or_insert(s, it, n), k) == total_count(s, k) + (if key_eq(it, k) {
            n as int
        } else {
            0
        }),
{
    lemma_ins_pos_bounds(s, it);
    let p = ins_pos(s, it);
    if p < s.len() && key_eq(s[p].0, it) {
        lemma_total_update(s, p, (s[p].0, (s[p].1 + n) as u32), k);
    } else {
        lemma_total_insert(s, p, (it, n), k);
    }
}

proof fn lemma_total_remove_spec(s: Seq<(ItemView, u32)>, i: int, n: u32, k: ItemView)
    requires
        0 <= i < s.len(),
        1 <= n <= s[i].1,
    ensures
        total_count(remove_spec(s, i, n), k) == total_count(s, k) - (if key_eq(s[i].0, k) {
            n as int
        } else {
            0
        }),
{
    if n == s[i].1 {
        lemma_total_remove_at(s, i, k);
    } else {
        lemma_total_update(s, i, (s[i].0, (s[i].1 - n) as u32), k);
    }
}

/// Law: a transfer between two lists preserves, for every item key, the
/// summed unit count over source and destination. The two sequences named
/// by `move_to`'s contract sum, key by key, to what the old lists held.
pub proof fn lemma_move_to_preserves_total(
    src: Seq<(ItemView, u32)>,
    dest: Seq<(ItemView, u32)>,
    i: int,
    n: u32,
    k: ItemView,
)
    requires
        0 <= i < src.len(),
        1 <= n <= src[i].1,
        forall|j: int|
            0 <= j < dest.len() && key_eq(#[trigger] dest[j].0, src[i].0) ==> dest[j].1 + n
                <= u32::MAX,
    ensures
        total_count(remove_spec(src, i, n), k) + total_count(merge_or_insert(dest, src[i].0, n), k)
            == total_count(src, k) + total_count(dest, k),
{
    lemma_total_remove_spec(src, i, n, k);
    lemma_total_merge_or_insert(dest, src[i].0, n, k);
}

/// Law: appending an item whose key the list does not hold, then removing
/// all of it at the position it took, returns the list to its old value,
/// and the entry removed holds exactly the appended item and count.
pub proof fn lemma_append_remove_roundtrip(s: Seq<(ItemView, u32)>, it: ItemView, n: u32)
    requires
        sorted_strict(s),
        n >= 1,
        forall|j: int| 0 <= j < s.len() ==> !key_eq((#[trigger] s[j]).0, it),
    ensures
        ({
            let s2 = merge_or_insert(s, it, n);
            let p = ins_pos(s, it);
            &&& 0 <= p < s2.len()
            &&& s2[p] == (it, n)
            &&& resolve_num(ItemMoveNum::All, s2[p].1) == n
            &&& remove_spec(s2, p, n) == s
        }),
{
    lemma_ins_pos_bounds(s, it);
    let p = ins_pos(s, it);
    if p < s.len() {
        assert(!key_eq(s[p].0, it));
    }
    let s2 = s.insert(p, (it, n));
    assert(merge_or_insert(s, it, n) == s2);
    assert(s2[p] == (it, n));
    assert(remove_spec(s2, p, n) =~= s);
}

} // verus!
