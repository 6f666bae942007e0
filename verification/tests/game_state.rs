use ruins_core::defs::{CharaId, ItemListLocation};
use ruins_core::gamedata::GameData;
use ruins_core::item::{Item, ItemFlags, ItemIdx, ItemKind, ItemRank};
use ruins_core::script::{Expr, Instruction, Script, ScriptPos, Value};

fn gd() -> GameData {
    GameData::new(2, vec!["apple".to_string(), "sword".to_string()])
}

fn apple() -> Item {
    Item {
        idx: ItemIdx(0),
        kind: ItemKind::Food,
        flags: ItemFlags { bits: 0 },
        rank: ItemRank::default(),
        attributes: Vec::new(),
    }
}

#[test]
fn money_saturates_at_the_ends() {
    let mut g = gd();
    g.add_money(50);
    g.add_money(-20);
    assert_eq!(g.money(), 30);
    g.add_money(i64::MAX);
    assert_eq!(g.money(), i64::MAX);
    g.add_money(i64::MIN);
    g.add_money(i64::MIN);
    assert_eq!(g.money(), i64::MIN);
}

#[test]
fn global_vars_overwrite_by_name() {
    let mut g = gd();
    assert_eq!(g.get_global_var("flag"), None);
    g.set_global_var("flag", Value::Int(1));
    g.set_global_var("other", Value::Bool(true));
    g.set_global_var("flag", Value::Int(2));
    assert_eq!(g.get_global_var("flag"), Some(Value::Int(2)));
    assert_eq!(g.get_global_var("other"), Some(Value::Bool(true)));
}

#[test]
fn player_item_location_resolves_through_the_id_table() {
    let mut g = gd();
    g.add_player_item(apple(), 2);
    assert_eq!(
        g.player_item_location("apple"),
        Some((ItemListLocation::Chara { cid: CharaId::Player }, 0))
    );
    // known id, but the player holds none
    assert_eq!(g.player_item_location("sword"), None);
    // unknown id
    assert_eq!(g.player_item_location("shield"), None);
    assert_eq!(g.id_to_idx("sword"), Some(ItemIdx(1)));
    assert_eq!(g.id_to_idx("shield"), None);
}

#[test]
fn remove_item_takes_units_from_the_player() {
    let mut g = gd();
    g.add_player_item(apple(), 3);
    let loc = g.player_item_location("apple").expect("the player holds apples");
    g.remove_item(loc, 2);
    assert_eq!(g.player_item_list().get_number(0), 1);
}

#[test]
fn expressions_evaluate_against_the_state() {
    let mut g = gd();
    g.set_global_var("n", Value::Int(4));
    assert_eq!(Expr::Const(Value::Bool(false)).eval(&g), Value::Bool(false));
    assert_eq!(Expr::GVar("n".to_string()).eval(&g), Value::Int(4));
    assert_eq!(Expr::GVar("missing".to_string()).eval(&g), Value::RefUnknownVar);
    let eq = Expr::Eq(
        Box::new(Expr::GVar("n".to_string())),
        Box::new(Expr::Const(Value::Int(4))),
    );
    assert_eq!(eq.eval(&g), Value::Bool(true));
    let ne = Expr::Eq(
        Box::new(Expr::GVar("n".to_string())),
        Box::new(Expr::Const(Value::Int(5))),
    );
    assert_eq!(ne.eval(&g), Value::Bool(false));
}

#[test]
fn cursor_moves_and_round_trips() {
    let mut pos = ScriptPos::new("start", 0);
    pos.advance();
    pos.advance();
    assert_eq!(pos.i, 2);
    pos.set_section("shop");
    assert_eq!(pos.section, "shop");
    assert_eq!(pos.i, 0);
    let copy = pos.clone();
    assert_eq!(copy, pos);
}

#[test]
fn script_lookup_by_section_and_cursor() {
    let script = Script {
        sections: vec![
            ("start".to_string(), vec![Instruction::ShopSell]),
            ("end".to_string(), vec![]),
        ],
    };
    assert!(script.get_section("start").is_some());
    assert!(script.get_section("nowhere").is_none());
    assert_eq!(script.get(&ScriptPos::new("start", 0)), Some(&Instruction::ShopSell));
    assert_eq!(script.get(&ScriptPos::new("start", 1)), None);
    assert_eq!(script.get(&ScriptPos::new("end", 0)), None);
}
