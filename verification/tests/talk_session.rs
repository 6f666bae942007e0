use ruins_core::defs::CharaId;
use ruins_core::talk::{CharaTalk, TalkError, TalkResult, TalkScriptStore, TalkStatus};
use ruins_core::talkscript::{TalkReaction, TalkScriptObject, TalkSection};

fn normal(text: Option<&str>) -> TalkSection {
    TalkSection::Normal {
        text: text.map(|t| t.to_string()),
        answer_texts: Vec::new(),
        dest_sections: Vec::new(),
        default_dest_section: None,
    }
}

fn sample_store() -> TalkScriptStore {
    TalkScriptStore {
        objects: vec![TalkScriptObject {
            id: "innkeeper".to_string(),
            sections: vec![
                ("start".to_string(), normal(Some("welcome"))),
                ("unnamed".to_string(), normal(None)),
                (
                    "bye".to_string(),
                    TalkSection::Reaction {
                        reaction: TalkReaction::End,
                        next_section: "start".to_string(),
                    },
                ),
            ],
        }],
    }
}

fn chara_talk(section: &str) -> CharaTalk {
    CharaTalk { id: "innkeeper".to_string(), section: section.to_string() }
}

#[test]
fn section_text_uses_own_text_or_fallback() {
    let store = sample_store();
    let tso = store.get("innkeeper").expect("script expected");
    assert_eq!(tso.get_section_text("start"), Some("welcome".to_string()));
    // a section without text names itself through the script id
    assert_eq!(tso.get_section_text("unnamed"), Some("innkeeper.unnamed".to_string()));
    // a reaction section carries no display text
    assert_eq!(tso.get_section_text("bye"), None);
}

#[test]
fn unknown_talk_script_gives_no_controller() {
    let store = sample_store();
    let ct = CharaTalk { id: "nobody".to_string(), section: "start".to_string() };
    assert!(TalkStatus::new(&store, &ct, CharaId::Npc(3)).is_none());
}

#[test]
fn talk_at_text_section_displays_and_rejects_unsupported() {
    let store = sample_store();
    let ts = TalkStatus::new(&store, &chara_talk("start"), CharaId::Npc(3)).expect("talk expected");
    assert_eq!(ts.cid(), CharaId::Npc(3));
    assert_eq!(ts.get_text(), "welcome");
    // only the terminal reaction is implemented; a normal section cannot
    // be executed as an action
    let mut ts = ts;
    assert_eq!(ts.proceed(None), Err(TalkError::UnsupportedSection));
}

#[test]
fn talk_at_reaction_section_ends() {
    let store = sample_store();
    let mut ts = TalkStatus::new(&store, &chara_talk("bye"), CharaId::Player).expect("talk expected");
    assert_eq!(ts.proceed(None), Ok(TalkResult::End));
    match ts.get_current_section() {
        TalkSection::Reaction { reaction, .. } => assert_eq!(*reaction, TalkReaction::End),
        s => panic!("expected a reaction section, got {:?}", s),
    }
}
