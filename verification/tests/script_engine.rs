use ruins_core::defs::CharaId;
use ruins_core::engine::{ExecResult, ScriptEngine, ScriptStore};
use ruins_core::gamedata::GameData;
use ruins_core::item::{Item, ItemFlags, ItemIdx, ItemKind, ItemRank};
use ruins_core::script::{Expr, Instruction, Script, Value};

fn script(sections: Vec<(&str, Vec<Instruction>)>) -> Script {
    Script {
        sections: sections.into_iter().map(|(n, i)| (n.to_string(), i)).collect(),
    }
}

fn store_with(s: Script) -> ScriptStore {
    let mut store = ScriptStore::new();
    store.add("test", s);
    store
}

fn gd() -> GameData {
    GameData::new(7, vec!["apple".to_string(), "pear".to_string()])
}

fn talk(text: &str, choices: Vec<(&str, &str)>) -> Instruction {
    Instruction::Talk(
        text.to_string(),
        choices.into_iter().map(|(a, d)| (a.to_string(), d.to_string())).collect(),
    )
}

const NPC: CharaId = CharaId::Npc(1);

#[test]
fn talk_then_fall_off_the_end_quits() {
    // script {start: [Talk("hello", [])]}: exec returns the text with the
    // open-dialog flag set; resuming without a choice runs off the end
    let store = store_with(script(vec![("start", vec![talk("hello", vec![])])]));
    let mut engine = ScriptEngine::new(&store, "test", Some(NPC));
    let mut gd = gd();
    match engine.exec(&mut gd) {
        ExecResult::Talk(cid, tt, reopen) => {
            assert_eq!(cid, NPC);
            assert_eq!(tt.text_id, "hello");
            assert!(tt.choices.is_none());
            assert!(reopen);
        }
        r => panic!("expected Talk, got {:?}", r),
    }
    assert_eq!(engine.continue_talk(&mut gd, None), ExecResult::Quit);
}

#[test]
fn jump_if_true_transfers_and_integer_condition_quits() {
    let store = store_with(script(vec![
        ("start", vec![Instruction::JumpIf("target".to_string(), Expr::Const(Value::Bool(true)))]),
        ("target", vec![talk("t", vec![])]),
    ]));
    let mut engine = ScriptEngine::new(&store, "test", Some(NPC));
    let mut gd1 = gd();
    match engine.exec(&mut gd1) {
        ExecResult::Talk(_, tt, _) => assert_eq!(tt.text_id, "t"),
        r => panic!("expected Talk, got {:?}", r),
    }
    // the same instruction with an integer-valued expression quits
    let store2 = store_with(script(vec![
        ("start", vec![Instruction::JumpIf("target".to_string(), Expr::Const(Value::Int(1)))]),
        ("target", vec![talk("t", vec![])]),
    ]));
    let mut engine2 = ScriptEngine::new(&store2, "test", Some(NPC));
    let mut gd2 = gd();
    assert_eq!(engine2.exec(&mut gd2), ExecResult::Quit);
}

#[test]
fn gset_then_jump_if_reads_the_global() {
    // GSet("flag", 1) followed by a JumpIf reading "flag" == 1 takes the
    // true branch
    let cond = Expr::Eq(
        Box::new(Expr::GVar("flag".to_string())),
        Box::new(Expr::Const(Value::Int(1))),
    );
    let store = store_with(script(vec![
        (
            "start",
            vec![
                Instruction::GSet("flag".to_string(), Expr::Const(Value::Int(1))),
                Instruction::JumpIf("target".to_string(), cond),
                talk("no", vec![]),
            ],
        ),
        ("target", vec![talk("yes", vec![])]),
    ]));
    let mut engine = ScriptEngine::new(&store, "test", Some(NPC));
    let mut gd = gd();
    match engine.exec(&mut gd) {
        ExecResult::Talk(_, tt, _) => assert_eq!(tt.text_id, "yes"),
        r => panic!("expected Talk, got {:?}", r),
    }
    assert_eq!(gd.get_global_var("flag"), Some(Value::Int(1)));
}

#[test]
fn unknown_global_reads_as_false() {
    let store = store_with(script(vec![
        ("start", vec![Instruction::JumpIf("target".to_string(), Expr::GVar("nothing".to_string())), talk("fell", vec![])]),
        ("target", vec![talk("jumped", vec![])]),
    ]));
    let mut engine = ScriptEngine::new(&store, "test", Some(NPC));
    let mut gd = gd();
    match engine.exec(&mut gd) {
        ExecResult::Talk(_, tt, _) => assert_eq!(tt.text_id, "fell"),
        r => panic!("expected Talk, got {:?}", r),
    }
}

#[test]
fn receive_money_adds_to_balance() {
    let store = store_with(script(vec![(
        "start",
        vec![Instruction::ReceiveMoney(Expr::Const(Value::Int(250))), talk("done", vec![])],
    )]));
    let mut engine = ScriptEngine::new(&store, "test", Some(NPC));
    let mut gd = gd();
    match engine.exec(&mut gd) {
        ExecResult::Talk(_, tt, _) => assert_eq!(tt.text_id, "done"),
        r => panic!("expected Talk, got {:?}", r),
    }
    assert_eq!(gd.money(), 250);
    // negative amounts are supported
    let store2 = store_with(script(vec![(
        "start",
        vec![Instruction::ReceiveMoney(Expr::Const(Value::Int(-100))), talk("done", vec![])],
    )]));
    let mut engine2 = ScriptEngine::new(&store2, "test", Some(NPC));
    engine2.exec(&mut gd);
    assert_eq!(gd.money(), 150);
}

#[test]
fn receive_money_with_bool_quits() {
    let store = store_with(script(vec![(
        "start",
        vec![Instruction::ReceiveMoney(Expr::Const(Value::Bool(true))), talk("done", vec![])],
    )]));
    let mut engine = ScriptEngine::new(&store, "test", Some(NPC));
    let mut gd = gd();
    assert_eq!(engine.exec(&mut gd), ExecResult::Quit);
    assert_eq!(gd.money(), 0);
}

#[test]
fn remove_item_takes_one_unit() {
    let store = store_with(script(vec![(
        "start",
        vec![Instruction::RemoveItem("apple".to_string()), talk("done", vec![])],
    )]));
    let mut engine = ScriptEngine::new(&store, "test", Some(NPC));
    let mut gd = gd();
    let apple = Item {
        idx: ItemIdx(0),
        kind: ItemKind::Food,
        flags: ItemFlags { bits: 0 },
        rank: ItemRank::default(),
        attributes: Vec::new(),
    };
    gd.add_player_item(apple, 2);
    match engine.exec(&mut gd) {
        ExecResult::Talk(_, tt, _) => assert_eq!(tt.text_id, "done"),
        r => panic!("expected Talk, got {:?}", r),
    }
    assert_eq!(gd.player_item_list().get_number(0), 1);
}

#[test]
fn remove_item_not_held_quits() {
    let store = store_with(script(vec![(
        "start",
        vec![Instruction::RemoveItem("pear".to_string()), talk("done", vec![])],
    )]));
    let mut engine = ScriptEngine::new(&store, "test", Some(NPC));
    let mut gd = gd();
    assert_eq!(engine.exec(&mut gd), ExecResult::Quit);
}

#[test]
fn shop_instructions_yield_to_the_caller() {
    let store = store_with(script(vec![("start", vec![Instruction::ShopBuy])]));
    let mut engine = ScriptEngine::new(&store, "test", Some(NPC));
    let mut gd1 = gd();
    assert_eq!(engine.exec(&mut gd1), ExecResult::ShopBuy(NPC));
    let store2 = store_with(script(vec![("start", vec![Instruction::ShopSell])]));
    let mut engine2 = ScriptEngine::new(&store2, "test", Some(NPC));
    let mut gd2 = gd();
    assert_eq!(engine2.exec(&mut gd2), ExecResult::ShopSell);
    // a shop needs a character context
    let store3 = store_with(script(vec![("start", vec![Instruction::ShopBuy])]));
    let mut engine3 = ScriptEngine::new(&store3, "test", None);
    let mut gd3 = gd();
    assert_eq!(engine3.exec(&mut gd3), ExecResult::Quit);
}

#[test]
fn talk_without_character_quits() {
    let store = store_with(script(vec![("start", vec![talk("hello", vec![])])]));
    let mut engine = ScriptEngine::new(&store, "test", None);
    let mut gd = gd();
    assert_eq!(engine.exec(&mut gd), ExecResult::Quit);
}

#[test]
fn jump_reserved_and_plain_sections() {
    let store = store_with(script(vec![
        (
            "start",
            vec![Instruction::Jump("continue".to_string()), Instruction::Jump("other".to_string())],
        ),
        ("other", vec![talk("in-other", vec![])]),
    ]));
    let mut engine = ScriptEngine::new(&store, "test", Some(NPC));
    let mut gd1 = gd();
    match engine.exec(&mut gd1) {
        ExecResult::Talk(_, tt, _) => assert_eq!(tt.text_id, "in-other"),
        r => panic!("expected Talk, got {:?}", r),
    }
    let store2 = store_with(script(vec![("start", vec![Instruction::Jump("quit".to_string())])]));
    let mut engine2 = ScriptEngine::new(&store2, "test", Some(NPC));
    let mut gd2 = gd();
    assert_eq!(engine2.exec(&mut gd2), ExecResult::Quit);
}

#[test]
fn jump_to_unknown_section_quits() {
    let store = store_with(script(vec![("start", vec![Instruction::Jump("nowhere".to_string())])]));
    let mut engine = ScriptEngine::new(&store, "test", Some(NPC));
    let mut gd = gd();
    assert_eq!(engine.exec(&mut gd), ExecResult::Quit);
}

#[test]
fn talk_choices_resume_by_index() {
    let store = store_with(script(vec![
        (
            "start",
            vec![talk("ask", vec![("yes", "agreed"), ("later", "continue"), ("no", "quit")]), talk("next", vec![])],
        ),
        ("agreed", vec![talk("thanks", vec![])]),
    ]));
    let mut gd0 = gd();
    // choice 0 jumps to its destination section; the second talk of an open
    // dialog does not ask to reopen it
    let mut engine = ScriptEngine::new(&store, "test", Some(NPC));
    match engine.exec(&mut gd0) {
        ExecResult::Talk(_, tt, reopen) => {
            assert_eq!(tt.text_id, "ask");
            let choices = tt.choices.expect("choices expected");
            assert_eq!(choices.len(), 3);
            assert_eq!(choices[0], ("yes".to_string(), "agreed".to_string()));
            assert!(reopen);
        }
        r => panic!("expected Talk, got {:?}", r),
    }
    match engine.continue_talk(&mut gd0, Some(0)) {
        ExecResult::Talk(_, tt, reopen) => {
            assert_eq!(tt.text_id, "thanks");
            assert!(!reopen);
        }
        r => panic!("expected Talk, got {:?}", r),
    }
    // the reserved destination "continue" falls through to the next talk
    let mut engine2 = ScriptEngine::new(&store, "test", Some(NPC));
    let mut gd2 = gd();
    engine2.exec(&mut gd2);
    match engine2.continue_talk(&mut gd2, Some(1)) {
        ExecResult::Talk(_, tt, _) => assert_eq!(tt.text_id, "next"),
        r => panic!("expected Talk, got {:?}", r),
    }
    // the reserved destination "quit" ends the talk at once
    let mut engine3 = ScriptEngine::new(&store, "test", Some(NPC));
    let mut gd3 = gd();
    engine3.exec(&mut gd3);
    assert_eq!(engine3.continue_talk(&mut gd3, Some(2)), ExecResult::Quit);
}

#[test]
fn dungeon_location_records_the_region() {
    let store = store_with(script(vec![(
        "start",
        vec![Instruction::GetDungeonLocation, talk("done", vec![])],
    )]));
    let mut engine = ScriptEngine::new(&store, "test", Some(NPC));
    let mut gd = gd();
    engine.exec(&mut gd);
    assert_eq!(gd.dungeon_gen_log().as_slice(), &[7]);
}

#[test]
fn empty_start_section_quits() {
    let store = store_with(script(vec![("start", vec![])]));
    let mut engine = ScriptEngine::new(&store, "test", Some(NPC));
    let mut gd = gd();
    assert_eq!(engine.exec(&mut gd), ExecResult::Quit);
}

#[test]
fn store_contains_and_lookup() {
    let store = store_with(script(vec![("start", vec![])]));
    assert!(store.contains("test"));
    assert!(!store.contains("missing"));
}
