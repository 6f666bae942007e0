//! The talk session controller: binds one conversation's talk script to one
//! character for the conversation's duration.
//!
//! Only the terminal reaction kind is implemented; resuming at any other
//! silent section is reported as an explicit not-yet-supported error
//! rather than silently ignored.

use vstd::prelude::*;

use crate::defs::CharaId;
use crate::strutil::str_eq;
use crate::talkscript::{
    clone_talk_script, lookup_talk_section, section_text_spec, TalkReaction, TalkScriptObject,
    TalkScriptView, TalkSection, TalkSectionView,
};

verus! {

/// Where a character's talk starts: the talk script id and the section to
/// resume at.
#[derive(PartialEq, Eq, Debug)]
pub struct CharaTalk {
    /// Talk script id.
    pub id: String,
    /// Section to start the talk at.
    pub section: String,
}

/// What one `proceed` call reports: more text pending, or the talk is over.
#[derive(Clone, Copy, PartialEq, Eq, Structural, Debug)]
pub enum TalkResult {
    Continue,
    End,
}

/// A talk reached a section this version does not support yet.
#[derive(Clone, Copy, PartialEq, Eq, Structural, Debug)]
pub enum TalkError {
    UnsupportedSection,
}

/// The immutable store of talk scripts, looked up by id.
pub struct TalkScriptStore {
    pub objects: Vec<TalkScriptObject>,
}

impl View for TalkScriptStore {
    type V = Seq<TalkScriptView>;

    open spec fn view(&self) -> Seq<TalkScriptView> {
        self.objects@.map_values(|o: TalkScriptObject| o@)
    }
}

/// The first talk script with the given id.
pub open spec fn lookup_talk_script(s: Seq<TalkScriptView>, id: Seq<char>) -> Option<
    TalkScriptView,
>
    decreases s.len(),
{
    if s.len() == 0 {
        None
    } else if s[0].id == id {
        Some(s[0])
    } else {
        lookup_talk_script(s.drop_first(), id)
    }
}

proof fn lemma_lookup_talk_script_is(s: Seq<TalkScriptView>, id: Seq<char>, i: int)
    requires
        0 <= i <= s.len(),
        forall|j: int| 0 <= j < i ==> (#[trigger] s[j]).id != id,
        i < s.len() ==> s[i].id == id,
    ensures
        i < s.len() ==> lookup_talk_script(s, id) == Some(s[i]),
        i == s.len() ==> lookup_talk_script(s, id) is None,
    decreases s.len(),
{
    if s.len() > 0 && s[0].id != id {
        assert forall|j: int| 0 <= j < i - 1 implies (#[trigger] s.drop_first()[j]).id != id by {
            assert(s.drop_first()[j] == s[j + 1]);
        }
        if i < s.len() {
            assert(s.drop_first()[i - 1] == s[i]);
        }
        lemma_lookup_talk_script_is(s.drop_first(), id, i - 1);
    }
}

impl TalkScriptStore {
    /// The first talk script with the given id.
    pub fn get(&self, id: &str) -> (r: Option<&TalkScriptObject>)
        ensures
            match r {
                Some(o) => lookup_talk_script(self@, id@) == Some(o@),
                None => lookup_talk_script(self@, id@) is None,
            },
    {
        let mut i: usize = 0;
        while i < self.objects.len()
            invariant
                i <= self@.len(),
                forall|j: int| 0 <= j < i ==> (#[trigger] self@[j]).id != id@,
            decreases self@.len() - i,
        {
            if str_eq(self.objects[i].id.as_str(), id) {
                proof {
                    lemma_lookup_talk_script_is(self@, id@, i as int);
                }
                return Some(&self.objects[i]);
            }
            i = i + 1;
        }
        proof {
            lemma_lookup_talk_script_is(self@, id@, self@.len() as int);
        }
        None
    }
}

/// Holds the data for one talk in progress.
pub struct TalkStatus {
    tso: TalkScriptObject,
    /// The chara that the player talks to.
    cid: CharaId,
    current_section: String,
}

/// Mathematical value of a [`TalkStatus`].
pub ghost struct TalkStatusView {
    pub tso: TalkScriptView,
    pub cid: CharaId,
    pub section: Seq<char>,
}

impl View for TalkStatus {
    type V = TalkStatusView;

    closed spec fn view(&self) -> TalkStatusView {
        TalkStatusView { tso: self.tso@, cid: self.cid, section: self.current_section@ }
    }
}

/// Whether the controller may stand at this section: it either carries
/// display text, or it is a reaction section that `proceed` can execute.
/// Other silent sections are not yet supported.
pub open spec fn startable_section(tso: TalkScriptView, section: Seq<char>) -> bool {
    &&& lookup_talk_section(tso.sections, section) is Some
    &&& (section_text_spec(tso, section) is Some || lookup_talk_section(tso.sections, section)
        matches Some(TalkSectionView::Reaction { .. }))
}

impl TalkStatus {
    /// Open a talk: resolve the talk script by id and park at the resume
    /// section. An unknown id gives no controller; the resume section must
    /// exist in the resolved script and be displayable or terminal.
    pub fn new(store: &TalkScriptStore, chara_talk: &CharaTalk, cid: CharaId) -> (r: Option<
        TalkStatus,
    >)
        requires
            lookup_talk_script(store@, chara_talk.id@) matches Some(o) ==> startable_section(
                o,
                chara_talk.section@,
            ),
        ensures
            match r {
                Some(ts) => lookup_talk_script(store@, chara_talk.id@) == Some(ts@.tso)
                    && ts@.cid == cid && ts@.section == chara_talk.section@,
                None => lookup_talk_script(store@, chara_talk.id@) is None,
            },
    {
        let tso = match store.get(chara_talk.id.as_str()) {
            Some(o) => clone_talk_script(o),
            None => {
                return None;
            }
        };
        let mut talk_status = TalkStatus {
            tso,
            cid,
            current_section: chara_talk.section.clone(),
        };
        talk_status.start();
        Some(talk_status)
    }

    /// If the first section doesn't have text, executes its action
    /// immediately; the result of that silent action is discarded.
    fn start(&mut self)
        requires
            startable_section(old(self)@.tso, old(self)@.section),
        ensures
            final(self)@ == old(self)@,
    {
        let has_text = match self.tso.get_section(self.current_section.as_str()) {
            Some(TalkSection::Normal { .. }) => true,
            _ => false,
        };
        if has_text {
            return;
        }
        let _ = self.execute_action(None);
    }

    /// The character the player talks to.
    pub fn cid(&self) -> (r: CharaId)
        ensures
            r == self@.cid,
    {
        self.cid
    }

    /// Get the display text id of the current section. It is an internal
    /// invariant of the controller's callers that the current section
    /// carries text when this is called.
    pub fn get_text(&self) -> (r: String)
        requires
            section_text_spec(self@.tso, self@.section) is Some,
        ensures
            r@ == section_text_spec(self@.tso, self@.section)->Some_0,
    {
        match self.tso.get_section_text(self.current_section.as_str()) {
            Some(t) => t,
            None => {
                proof {
                    assert(false);
                }
                String::new()
            }
        }
    }

    /// Execute the action of the current section and report how the talk
    /// goes on. Only the terminal reaction is implemented; any other
    /// section is an explicit not-yet-supported error.
    pub fn proceed(&mut self, choice: Option<usize>) -> (r: Result<TalkResult, TalkError>)
        requires
            lookup_talk_section(old(self)@.tso.sections, old(self)@.section) is Some,
        ensures
            final(self)@ == old(self)@,
            r == match lookup_talk_section(old(self)@.tso.sections, old(self)@.section)->Some_0 {
                TalkSectionView::Reaction { .. } => Ok::<TalkResult, TalkError>(TalkResult::End),
                _ => Err::<TalkResult, TalkError>(TalkError::UnsupportedSection),
            },
    {
        self.execute_action(choice)
    }

    /// Execute action of current section.
    fn execute_action(&mut self, _choice: Option<usize>) -> (r: Result<TalkResult, TalkError>)
        requires
            lookup_talk_section(old(self)@.tso.sections, old(self)@.section) is Some,
        ensures
            final(self)@ == old(self)@,
            r == match lookup_talk_section(old(self)@.tso.sections, old(self)@.section)->Some_0 {
                TalkSectionView::Reaction { .. } => Ok::<TalkResult, TalkError>(TalkResult::End),
                _ => Err::<TalkResult, TalkError>(TalkError::UnsupportedSection),
            },
    {
        match self.tso.get_section(self.current_section.as_str()) {
            Some(TalkSection::Reaction { reaction, .. }) => match reaction {
                TalkReaction::End => Ok(TalkResult::End),
            },
            Some(_) => Err(TalkError::UnsupportedSection),
            None => {
                proof {
                    assert(false);
                }
                Err(TalkError::UnsupportedSection)
            }
        }
    }

    /// The current section's data.
    pub fn get_current_section(&self) -> (r: &TalkSection)
        requires
            lookup_talk_section(self@.tso.sections, self@.section) is Some,
        ensures
            lookup_talk_section(self@.tso.sections, self@.section) == Some(r@),
    {
        match self.tso.get_section(self.current_section.as_str()) {
            Some(sec) => sec,
            None => {
                proof {
                    assert(false);
                }
                &self.tso.sections[0].1
            }
        }
    }
}

} // verus!
