//! Talk scripts: the data of one conversation, organized into named
//! sections.

use vstd::prelude::*;

use crate::strutil::str_eq;
use vstd::string::StringExecFns;

verus! {

/// One section of a talk script.
#[derive(PartialEq, Eq, Debug)]
pub enum TalkSection {
    /// A section with display text and answer choices.
    Normal {
        /// The text id; without one, the id is formed from the script id
        /// and the section name.
        text: Option<String>,
        answer_texts: Vec<String>,
        dest_sections: Vec<String>,
        default_dest_section: Option<String>,
    },
    /// A terminal reaction; carries no display text.
    Reaction { reaction: TalkReaction, next_section: String },
    /// A special scripted effect; carries no display text.
    Special { special: SpecialTalkSection, next_section: String },
}

#[derive(Clone, Copy, PartialEq, Eq, Structural, Hash, Debug)]
pub enum TalkSectionKind {
    Normal,
    Reaction,
    Special,
}

/// Reactions a talk can end in. Only the terminal kind is implemented;
/// the taxonomy is deliberately incomplete.
#[derive(Clone, Copy, PartialEq, Eq, Structural, Debug)]
pub enum TalkReaction {
    End,
}

/// This holds data to represent a special talk section.
#[derive(Clone, Copy, PartialEq, Eq, Structural, Debug)]
pub enum SpecialTalkSection {
    /// Taught new ruins and dungeons locations by the informant.
    InformantRuins,
}

/// Mathematical value of a [`TalkSection`].
pub ghost enum TalkSectionView {
    Normal {
        text: Option<Seq<char>>,
        answer_texts: Seq<Seq<char>>,
        dest_sections: Seq<Seq<char>>,
        default_dest_section: Option<Seq<char>>,
    },
    Reaction { reaction: TalkReaction, next_section: Seq<char> },
    Special { special: SpecialTalkSection, next_section: Seq<char> },
}

impl View for TalkSection {
    type V = TalkSectionView;

    open spec fn view(&self) -> TalkSectionView {
        match self {
            TalkSection::Normal { text, answer_texts, dest_sections, default_dest_section } =>
                TalkSectionView::Normal {
                    text: match text {
                        Some(t) => Some(t@),
                        None => None,
                    },
                    answer_texts: answer_texts@.map_values(|s: String| s@),
                    dest_sections: dest_sections@.map_values(|s: String| s@),
                    default_dest_section: match default_dest_section {
                        Some(t) => Some(t@),
                        None => None,
                    },
                },
            TalkSection::Reaction { reaction, next_section } => TalkSectionView::Reaction {
                reaction: *reaction,
                next_section: next_section@,
            },
            TalkSection::Special { special, next_section } => TalkSectionView::Special {
                special: *special,
                next_section: next_section@,
            },
        }
    }
}

/// Holds the data of one conversation.
#[derive(PartialEq, Eq, Debug)]
pub struct TalkScriptObject {
    pub id: String,
    pub sections: Vec<(String, TalkSection)>,
}

/// Mathematical value of a [`TalkScriptObject`].
pub ghost struct TalkScriptView {
    pub id: Seq<char>,
    pub sections: Seq<(Seq<char>, TalkSectionView)>,
}

impl View for TalkScriptObject {
    type V = TalkScriptView;

    open spec fn view(&self) -> TalkScriptView {
        TalkScriptView {
            id: self.id@,
            sections: self.sections@.map_values(
                |p: (String, TalkSection)| (p.0@, p.1@),
            ),
        }
    }
}

/// The first section with the given name.
pub open spec fn lookup_talk_section(
    s: Seq<(Seq<char>, TalkSectionView)>,
    name: Seq<char>,
) -> Option<TalkSectionView>
    decreases s.len(),
{
    if s.len() == 0 {
        None
    } else if s[0].0 == name {
        Some(s[0].1)
    } else {
        lookup_talk_section(s.drop_first(), name)
    }
}

proof fn lemma_lookup_talk_section_is(
    s: Seq<(Seq<char>, TalkSectionView)>,
    name: Seq<char>,
    i: int,
)
    requires
        0 <= i <= s.len(),
        forall|j: int| 0 <= j < i ==> (#[trigger] s[j]).0 != name,
        i < s.len() ==> s[i].0 == name,
    ensures
        i < s.len() ==> lookup_talk_section(s, name) == Some(s[i].1),
        i == s.len() ==> lookup_talk_section(s, name) is None,
    decreases s.len(),
{
    if s.len() > 0 && s[0].0 != name {
        assert forall|j: int| 0 <= j < i - 1 implies (#[trigger] s.drop_first()[j]).0 != name by {
            assert(s.drop_first()[j] == s[j + 1]);
        }
        if i < s.len() {
            assert(s.drop_first()[i - 1] == s[i]);
        }
        lemma_lookup_talk_section_is(s.drop_first(), name, i - 1);
    }
}

/// The display text id of a section: a normal section's own text, or the
/// fallback `"<script id>.<section name>"` when it names none; reaction
/// and special sections carry no display text.
pub open spec fn section_text_spec(tso: TalkScriptView, section: Seq<char>) -> Option<Seq<char>> {
    match lookup_talk_section(tso.sections, section) {
        None => None,
        Some(sec) => match sec {
            TalkSectionView::Normal { text, .. } => match text {
                Some(t) => Some(t),
                None => Some(tso.id + "."@ + section),
            },
            _ => None,
        },
    }
}

impl TalkScriptObject {
    /// The first section with the given name.
    pub fn get_section(&self, section: &str) -> (r: Option<&TalkSection>)
        ensures
            match r {
                Some(sec) => lookup_talk_section(self@.sections, section@) == Some(sec@),
                None => lookup_talk_section(self@.sections, section@) is None,
            },
    {
        let mut i: usize = 0;
        while i < self.sections.len()
            invariant
                i <= self@.sections.len(),
                forall|j: int| 0 <= j < i ==> (#[trigger] self@.sections[j]).0 != section@,
            decreases self@.sections.len() - i,
        {
            if str_eq(self.sections[i].0.as_str(), section) {
                proof {
                    lemma_lookup_talk_section_is(self@.sections, section@, i as int);
                }
                return Some(&self.sections[i].1);
            }
            i = i + 1;
        }
        proof {
            lemma_lookup_talk_section_is(self@.sections, section@, self@.sections.len() as int);
        }
        None
    }

    /// Get the text id of the given section. A section the script does not
    /// hold is a caller error.
    pub fn get_section_text(&self, section: &str) -> (r: Option<String>)
        requires
            lookup_talk_section(self@.sections, section@) is Some,
        ensures
            match r {
                Some(t) => section_text_spec(self@, section@) == Some(t@),
                None => section_text_spec(self@, section@) is None,
            },
    {
        match self.get_section(section) {
            Some(TalkSection::Normal { text, .. }) => match text {
                Some(t) => Some(t.clone()),
                None => {
                    let s = self.id.clone();
                    let s = s.concat(".");
                    let s = s.concat(section);
                    Some(s)
                }
            },
            Some(_) => None,
            None => {
                proof {
                    assert(false);
                }
                None
            }
        }
    }
}

//
// Deep copies, value-equal by view.
//

fn clone_opt_string(s: &Option<String>) -> (r: Option<String>)
    ensures
        match s {
            Some(t) => r is Some && r->Some_0@ == t@,
            None => r is None,
        },
{
    match s {
        Some(t) => Some(t.clone()),
        None => None,
    }
}

fn clone_string_vec(v: &Vec<String>) -> (r: Vec<String>)
    ensures
        r@.map_values(|s: String| s@) == v@.map_values(|s: String| s@),
{
    let mut r: Vec<String> = Vec::new();
    let mut i: usize = 0;
    while i < v.len()
        invariant
            i <= v@.len(),
            r@.len() == i,
            forall|j: int| 0 <= j < i ==> (#[trigger] r@[j])@ == v@[j]@,
        decreases v@.len() - i,
    {
        r.push(v[i].clone());
        i = i + 1;
    }
    proof {
        assert(r@.map_values(|s: String| s@) =~= v@.map_values(|s: String| s@));
    }
    r
}

pub fn clone_talk_section(sec: &TalkSection) -> (r: TalkSection)
    ensures
        r@ == sec@,
{
    match sec {
        TalkSection::Normal { text, answer_texts, dest_sections, default_dest_section } =>
            TalkSection::Normal {
                text: clone_opt_string(text),
                answer_texts: clone_string_vec(answer_texts),
                dest_sections: clone_string_vec(dest_sections),
                default_dest_section: clone_opt_string(default_dest_section),
            },
        TalkSection::Reaction { reaction, next_section } => TalkSection::Reaction {
            reaction: *reaction,
            next_section: next_section.clone(),
        },
        TalkSection::Special { special, next_section } => TalkSection::Special {
            special: *special,
            next_section: next_section.clone(),
        },
    }
}

pub fn clone_talk_script(tso: &TalkScriptObject) -> (r: TalkScriptObject)
    ensures
        r@ == tso@,
{
    let mut sections: Vec<(String, TalkSection)> = Vec::new();
    let mut i: usize = 0;
    while i < tso.sections.len()
        invariant
            i <= tso@.sections.len(),
            sections@.len() == i,
            forall|j: int|
                0 <= j < i ==> (#[trigger] sections@[j]).0@ == tso@.sections[j].0 && sections@[j].1@
                    == tso@.sections[j].1,
        decreases tso@.sections.len() - i,
    {
        sections.push((tso.sections[i].0.clone(), clone_talk_section(&tso.sections[i].1)));
        i = i + 1;
    }
    let r = TalkScriptObject { id: tso.id.clone(), sections };
    proof {
        assert(r@.sections =~= tso@.sections);
    }
    r
}

} // verus!
