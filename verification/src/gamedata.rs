//! The game state the script engine reads and mutates: the player's money
//! and items, the global named-variable table, and the dungeon-generation
//! requests of the current region.
//!
//! The object store's id table and the named-variable table are held here
//! as an explicit context object, owned by the enclosing game session and
//! torn down with it.

use vstd::prelude::*;

use crate::defs::{CharaId, ItemListLocation, ItemLocation};
use crate::item::{remove_spec, Item, ItemIdx, ItemList, ItemView};
use crate::script::{Expr, ExprView, Value};
use crate::strutil::str_eq;

verus! {

/// Mathematical value of a [`GameData`].
pub ghost struct GdView {
    /// The player's money.
    pub money: int,
    /// The global named-variable table, in insertion order.
    pub vars: Seq<(Seq<char>, Value)>,
    /// The player's item list.
    pub items: Seq<(ItemView, u32)>,
    /// The region the player is currently in.
    pub current_rid: u32,
    /// Regions for which dungeon generation has been requested, in order.
    pub dungeon_gen: Seq<u32>,
    /// The object store's item id table: `ItemIdx(i)` names `item_ids[i]`.
    pub item_ids: Seq<Seq<char>>,
}

/// The value of the first variable with the given name.
pub open spec fn lookup_var(vars: Seq<(Seq<char>, Value)>, name: Seq<char>) -> Option<Value>
    decreases vars.len(),
{
    if vars.len() == 0 {
        None
    } else if vars[0].0 == name {
        Some(vars[0].1)
    } else {
        lookup_var(vars.drop_first(), name)
    }
}

/// Position of the first variable with the given name.
pub open spec fn var_pos(vars: Seq<(Seq<char>, Value)>, name: Seq<char>) -> Option<int>
    decreases vars.len(),
{
    if vars.len() == 0 {
        None
    } else if vars[0].0 == name {
        Some(0)
    } else {
        match var_pos(vars.drop_first(), name) {
            Some(p) => Some(p + 1),
            None => None,
        }
    }
}

/// What storing a variable does to the table: overwrite the first entry
/// with that name, or append a new one.
pub open spec fn set_var_spec(
    vars: Seq<(Seq<char>, Value)>,
    name: Seq<char>,
    v: Value,
) -> Seq<(Seq<char>, Value)> {
    match var_pos(vars, name) {
        Some(p) => vars.update(p, (name, v)),
        None => vars.push((name, v)),
    }
}


/// If the first name match is at `i`, that is the variable's position.
proof fn lemma_var_pos_is(vars: Seq<(Seq<char>, Value)>, name: Seq<char>, i: int)
    requires
        0 <= i <= vars.len(),
        forall|j: int| 0 <= j < i ==> (#[trigger] vars[j]).0 != name,
        i < vars.len() ==> vars[i].0 == name,
    ensures
        i < vars.len() ==> var_pos(vars, name) == Some(i) && lookup_var(vars, name) == Some(
            vars[i].1,
        ),
        i == vars.len() ==> var_pos(vars, name) is None && lookup_var(vars, name) is None,
    decreases vars.len(),
{
    if vars.len() > 0 && vars[0].0 != name {
        assert forall|j: int| 0 <= j < i - 1 implies (#[trigger] vars.drop_first()[j]).0
            != name by {
            assert(vars.drop_first()[j] == vars[j + 1]);
        }
        if i < vars.len() {
            assert(vars.drop_first()[i - 1] == vars[i]);
        }
        lemma_var_pos_is(vars.drop_first(), name, i - 1);
    }
}

/// Position of the first id equal to `id` in the id table.
pub open spec fn lookup_id(ids: Seq<Seq<char>>, id: Seq<char>) -> Option<int>
    decreases ids.len(),
{
    if ids.len() == 0 {
        None
    } else if ids[0] == id {
        Some(0)
    } else {
        match lookup_id(ids.drop_first(), id) {
            Some(p) => Some(p + 1),
            None => None,
        }
    }
}

proof fn lemma_lookup_id_is(ids: Seq<Seq<char>>, id: Seq<char>, i: int)
    requires
        0 <= i <= ids.len(),
        forall|j: int| 0 <= j < i ==> #[trigger] ids[j] != id,
        i < ids.len() ==> ids[i] == id,
    ensures
        i < ids.len() ==> lookup_id(ids, id) == Some(i),
        i == ids.len() ==> lookup_id(ids, id) is None,
    decreases ids.len(),
{
    if ids.len() > 0 && ids[0] != id {
        assert forall|j: int| 0 <= j < i - 1 implies #[trigger] ids.drop_first()[j] != id by {
            assert(ids.drop_first()[j] == ids[j + 1]);
        }
        if i < ids.len() {
            assert(ids.drop_first()[i - 1] == ids[i]);
        }
        lemma_lookup_id_is(ids.drop_first(), id, i - 1);
    }
}

proof fn lemma_lookup_id_bounds(ids: Seq<Seq<char>>, id: Seq<char>)
    ensures
        match lookup_id(ids, id) {
            Some(p) => 0 <= p < ids.len(),
            None => true,
        },
    decreases ids.len(),
{
    if ids.len() > 0 && ids[0] != id {
        lemma_lookup_id_bounds(ids.drop_first(), id);
    }
}

/// Position of the first entry of the player's list holding an item with
/// object index `idx`.
pub open spec fn find_item(items: Seq<(ItemView, u32)>, idx: ItemIdx) -> Option<int>
    decreases items.len(),
{
    if items.len() == 0 {
        None
    } else if items[0].0.idx == idx {
        Some(0)
    } else {
        match find_item(items.drop_first(), idx) {
            Some(p) => Some(p + 1),
            None => None,
        }
    }
}

proof fn lemma_find_item_is(items: Seq<(ItemView, u32)>, idx: ItemIdx, i: int)
    requires
        0 <= i <= items.len(),
        forall|j: int| 0 <= j < i ==> (#[trigger] items[j]).0.idx != idx,
        i < items.len() ==> items[i].0.idx == idx,
    ensures
        i < items.len() ==> find_item(items, idx) == Some(i),
        i == items.len() ==> find_item(items, idx) is None,
    decreases items.len(),
{
    if items.len() > 0 && items[0].0.idx != idx {
        assert forall|j: int| 0 <= j < i - 1 implies (#[trigger] items.drop_first()[j]).0.idx
            != idx by {
            assert(items.drop_first()[j] == items[j + 1]);
        }
        if i < items.len() {
            assert(items.drop_first()[i - 1] == items[i]);
        }
        lemma_find_item_is(items.drop_first(), idx, i - 1);
    }
}

pub proof fn lemma_find_item_bounds(items: Seq<(ItemView, u32)>, idx: ItemIdx)
    ensures
        match find_item(items, idx) {
            Some(p) => 0 <= p < items.len() && items[p].0.idx == idx,
            None => true,
        },
    decreases items.len(),
{
    if items.len() > 0 && items[0].0.idx != idx {
        lemma_find_item_bounds(items.drop_first(), idx);
    }
}

/// The entry of the player's item list that the named item resolves to:
/// the id table gives the object index, the list gives the entry.
pub open spec fn player_item_pos(gd: GdView, id: Seq<char>) -> Option<int> {
    match lookup_id(gd.item_ids, id) {
        None => None,
        Some(ix) => find_item(gd.items, ItemIdx(ix as u32)),
    }
}

/// Addition on money that stops at the ends of its range instead of
/// wrapping.
pub open spec fn sat_add_i64(a: int, b: int) -> int {
    if a + b > i64::MAX {
        i64::MAX as int
    } else if a + b < i64::MIN {
        i64::MIN as int
    } else {
        a + b
    }
}

/// The game state the scripting engine works against.
pub struct GameData {
    money: i64,
    vars: Vec<(String, Value)>,
    player_items: ItemList,
    current_rid: u32,
    dungeon_gen_regions: Vec<u32>,
    item_id_table: Vec<String>,
}

impl View for GameData {
    type V = GdView;

    closed spec fn view(&self) -> GdView {
        GdView {
            money: self.money as int,
            vars: self.vars@.map_values(|p: (String, Value)| (p.0@, p.1)),
            items: self.player_items@,
            current_rid: self.current_rid,
            dungeon_gen: self.dungeon_gen_regions@,
            item_ids: self.item_id_table@.map_values(|s: String| s@),
        }
    }
}

impl GameData {
    /// The player's item list keeps the item list invariant, and the lists
    /// the engine indexes with `u32` fit that width.
    pub open spec fn wf(&self) -> bool {
        &&& crate::item::sorted_strict(self@.items)
        &&& crate::item::counts_positive(self@.items)
        &&& self@.items.len() <= u32::MAX
        &&& self@.item_ids.len() <= u32::MAX
    }

    /// Fresh game state: no money, no variables, no items.
    pub fn new(current_rid: u32, item_id_table: Vec<String>) -> (r: GameData)
        requires
            item_id_table@.len() <= u32::MAX,
        ensures
            r@.money == 0,
            r@.vars == Seq::<(Seq<char>, Value)>::empty(),
            r@.items == Seq::<(ItemView, u32)>::empty(),
            r@.current_rid == current_rid,
            r@.dungeon_gen == Seq::<u32>::empty(),
            r@.item_ids == item_id_table@.map_values(|s: String| s@),
            r.wf(),
    {
        let r = GameData {
            money: 0,
            vars: Vec::new(),
            player_items: ItemList::new(),
            current_rid,
            dungeon_gen_regions: Vec::new(),
            item_id_table,
        };
        proof {
            assert(r@.vars =~= Seq::<(Seq<char>, Value)>::empty());
            assert(r@.dungeon_gen =~= Seq::<u32>::empty());
        }
        r
    }

    pub fn money(&self) -> (r: i64)
        ensures
            r as int == self@.money,
    {
        self.money
    }

    pub fn current_rid(&self) -> (r: u32)
        ensures
            r == self@.current_rid,
    {
        self.current_rid
    }

    /// Regions whose dungeon generation was requested, in request order.
    pub fn dungeon_gen_log(&self) -> (r: &Vec<u32>)
        ensures
            r@ == self@.dungeon_gen,
    {
        &self.dungeon_gen_regions
    }

    /// The player's item list.
    pub fn player_item_list(&self) -> (r: &ItemList)
        ensures
            r@ == self@.items,
    {
        &self.player_items
    }

    /// Add to the player's money, stopping at the range's ends.
    pub fn add_money(&mut self, v: i64)
        ensures
            final(self)@ == (GdView { money: sat_add_i64(old(self)@.money, v as int), ..old(self)@ }),
    {
        if v >= 0 {
            if self.money > i64::MAX - v {
                self.money = i64::MAX;
            } else {
                self.money = self.money + v;
            }
        } else {
            if self.money < i64::MIN - v {
                self.money = i64::MIN;
            } else {
                self.money = self.money + v;
            }
        }
    }

    /// Store a value into the global named-variable table.
    pub fn set_global_var(&mut self, name: &str, v: Value)
        ensures
            final(self)@ == (GdView {
                vars: set_var_spec(old(self)@.vars, name@, v),
                ..old(self)@
            }),
    {
        let ghost vars0 = self@.vars;
        let mut i: usize = 0;
        while i < self.vars.len()
            invariant
                self == old(self),
                i <= vars0.len(),
                vars0 == self@.vars,
                forall|j: int| 0 <= j < i ==> (#[trigger] vars0[j]).0 != name@,
            decreases vars0.len() - i,
        {
            if str_eq(self.vars[i].0.as_str(), name) {
                proof {
                    lemma_var_pos_is(vars0, name@, i as int);
                }
                self.vars[i].1 = v;
                proof {
                    assert(self@.vars =~= vars0.update(i as int, (vars0[i as int].0, v)));
                    assert(vars0.update(i as int, (vars0[i as int].0, v)) =~= set_var_spec(
                        vars0,
                        name@,
                        v,
                    ));
                }
                return;
            }
            i = i + 1;
        }
        proof {
            lemma_var_pos_is(vars0, name@, vars0.len() as int);
        }
        self.vars.push((name.to_owned(), v));
        proof {
            assert(self@.vars =~= set_var_spec(vars0, name@, v));
        }
    }

    /// The value of a global variable, if it has been set.
    pub fn get_global_var(&self, name: &str) -> (r: Option<Value>)
        ensures
            r == lookup_var(self@.vars, name@),
    {
        let mut i: usize = 0;
        while i < self.vars.len()
            invariant
                i <= self@.vars.len(),
                forall|j: int| 0 <= j < i ==> (#[trigger] self@.vars[j]).0 != name@,
            decreases self@.vars.len() - i,
        {
            if str_eq(self.vars[i].0.as_str(), name) {
                proof {
                    lemma_var_pos_is(self@.vars, name@, i as int);
                }
                return Some(self.vars[i].1);
            }
            i = i + 1;
        }
        proof {
            lemma_var_pos_is(self@.vars, name@, self@.vars.len() as int);
        }
        None
    }

    /// The object index the id names, resolved through the id table.
    pub fn id_to_idx(&self, id: &str) -> (r: Option<ItemIdx>)
        requires
            self@.item_ids.len() <= u32::MAX,
        ensures
            r == match lookup_id(self@.item_ids, id@) {
                Some(p) => Some(ItemIdx(p as u32)),
                None => None::<ItemIdx>,
            },
    {
        let mut i: usize = 0;
        while i < self.item_id_table.len()
            invariant
                i <= self@.item_ids.len(),
                self@.item_ids.len() <= u32::MAX,
                forall|j: int| 0 <= j < i ==> #[trigger] self@.item_ids[j] != id@,
            decreases self@.item_ids.len() - i,
        {
            if str_eq(self.item_id_table[i].as_str(), id) {
                proof {
                    lemma_lookup_id_is(self@.item_ids, id@, i as int);
                }
                return Some(ItemIdx(i as u32));
            }
            i = i + 1;
        }
        proof {
            lemma_lookup_id_is(self@.item_ids, id@, self@.item_ids.len() as int);
        }
        None
    }

    /// The location of the named item among the player's items.
    #[verifier::loop_isolation(false)]
    pub fn player_item_location(&self, id: &str) -> (r: Option<ItemLocation>)
        requires
            self@.item_ids.len() <= u32::MAX,
            self@.items.len() <= u32::MAX,
        ensures
            r == match player_item_pos(self@, id@) {
                Some(p) => Some(
                    (ItemListLocation::Chara { cid: CharaId::Player }, p as u32),
                ),
                None => None::<ItemLocation>,
            },
    {
        let idx = match self.id_to_idx(id) {
            Some(idx) => idx,
            None => {
                return None;
            }
        };
        proof {
            lemma_lookup_id_bounds(self@.item_ids, id@);
        }
        let mut i: usize = 0;
        while i < self.player_items.items.len()
            invariant
                i <= self@.items.len(),
                self@.items.len() <= u32::MAX,
                forall|j: int| 0 <= j < i ==> (#[trigger] self@.items[j]).0.idx != idx,
            decreases self@.items.len() - i,
        {
            if self.player_items.items[i].0.idx.0 == idx.0 {
                proof {
                    lemma_find_item_is(self@.items, idx, i as int);
                }
                return Some((ItemListLocation::Chara { cid: CharaId::Player }, i as u32));
            }
            i = i + 1;
        }
        proof {
            lemma_find_item_is(self@.items, idx, self@.items.len() as int);
        }
        None
    }

    /// Remove `n` units from the player's item list at the given location.
    pub fn remove_item(&mut self, il: ItemLocation, n: u32)
        requires
            old(self).wf(),
            il.0 == (ItemListLocation::Chara { cid: CharaId::Player }),
            (il.1 as int) < old(self)@.items.len(),
            1 <= n <= old(self)@.items[il.1 as int].1,
        ensures
            final(self)@ == (GdView {
                items: remove_spec(old(self)@.items, il.1 as int, n),
                ..old(self)@
            }),
            final(self).wf(),
    {
        self.player_items.remove(il.1, crate::item::ItemMoveNum::Partial(n));
    }

    /// Append units of an item to the player's item list.
    pub fn add_player_item(&mut self, item: Item, n: u32)
        requires
            old(self).wf(),
            old(self)@.items.len() < u32::MAX,
            n >= 1,
            forall|j: int|
                0 <= j < old(self)@.items.len() && crate::item::key_eq(
                    (#[trigger] old(self)@.items[j]).0,
                    item@,
                ) ==> old(self)@.items[j].1 + n <= u32::MAX,
        ensures
            final(self)@ == (GdView {
                items: crate::item::merge_or_insert(old(self)@.items, item@, n),
                ..old(self)@
            }),
            final(self).wf(),
    {
        proof {
            crate::item::lemma_merge_or_insert_len(self@.items, item@, n);
        }
        self.player_items.append(item, n);
    }

    /// Request dungeon generation for a region; the request is recorded in
    /// order.
    pub fn trigger_dungeon_gen(&mut self, rid: u32)
        ensures
            final(self)@ == (GdView { dungeon_gen: old(self)@.dungeon_gen.push(rid), ..old(self)@ }),
    {
        self.dungeon_gen_regions.push(rid);
    }
}

/// What an expression evaluates to against the given variable table. An
/// unknown variable reference is the `RefUnknownVar` value, not an error.
pub open spec fn eval_spec(e: ExprView, vars: Seq<(Seq<char>, Value)>) -> Value
    decreases e,
{
    match e {
        ExprView::Const(v) => v,
        ExprView::GVar(name) => match lookup_var(vars, name) {
            Some(v) => v,
            None => Value::RefUnknownVar,
        },
        ExprView::Eq(a, b) => Value::Bool(eval_spec(*a, vars) == eval_spec(*b, vars)),
    }
}

impl Expr {
    /// Evaluate the expression against the game state.
    pub fn eval(&self, gd: &GameData) -> (v: Value)
        ensures
            v == eval_spec(self@, gd@.vars),
        decreases *self,
    {
        match self {
            Expr::Const(v) => *v,
            Expr::GVar(name) => match gd.get_global_var(name.as_str()) {
                Some(v) => v,
                None => Value::RefUnknownVar,
            },
            Expr::Eq(a, b) => {
                let va = a.eval(gd);
                let vb = b.eval(gd);
                Value::Bool(va == vb)
            }
        }
    }
}

} // verus!
