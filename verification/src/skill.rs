//! Character skills: levels and experience.
//!
//! The experience a hit earns is first adjusted outside this module by a
//! level-difference coefficient (fractional, so it cannot live in verified
//! code); the adjusted amount is handed in here, capped and booked, and a
//! full bar levels the skill up.

use vstd::prelude::*;

use crate::basic::SKILL_EXP_LVUP;
use crate::item::WeaponKind;

verus! {

/// A skill a character can train.
#[derive(Clone, Copy, PartialEq, Eq, Structural, Hash, Debug)]
pub enum SkillKind {
    Endurance,
    Healing,
    Evasion,
    Weapon(WeaponKind),
}

/// Skill levels, and experience toward the next level for characters that
/// gather experience.
pub struct SkillList {
    pub skills: Vec<(SkillKind, u16)>,
    pub exp: Option<Vec<(SkillKind, u16)>>,
}

/// Mathematical value of a [`SkillList`].
pub ghost struct SkillListView {
    pub skills: Seq<(SkillKind, u16)>,
    pub exp: Option<Seq<(SkillKind, u16)>>,
}

impl View for SkillList {
    type V = SkillListView;

    open spec fn view(&self) -> SkillListView {
        SkillListView {
            skills: self.skills@,
            exp: match self.exp {
                Some(e) => Some(e@),
                None => None,
            },
        }
    }
}

/// The first entry for the given kind.
pub open spec fn sk_lookup(s: Seq<(SkillKind, u16)>, k: SkillKind) -> Option<u16>
    decreases s.len(),
{
    if s.len() == 0 {
        None
    } else if s[0].0 == k {
        Some(s[0].1)
    } else {
        sk_lookup(s.drop_first(), k)
    }
}

/// Position of the first entry for the given kind.
pub open spec fn sk_pos(s: Seq<(SkillKind, u16)>, k: SkillKind) -> Option<int>
    decreases s.len(),
{
    if s.len() == 0 {
        None
    } else if s[0].0 == k {
        Some(0)
    } else {
        match sk_pos(s.drop_first(), k) {
            Some(p) => Some(p + 1),
            None => None,
        }
    }
}

/// Overwrite the first entry for the kind, or append a new one.
pub open spec fn sk_set(s: Seq<(SkillKind, u16)>, k: SkillKind, v: u16) -> Seq<(SkillKind, u16)> {
    match sk_pos(s, k) {
        Some(p) => s.update(p, (k, v)),
        None => s.push((k, v)),
    }
}

proof fn lemma_sk_pos_char(s: Seq<(SkillKind, u16)>, k: SkillKind)
    ensures
        match sk_pos(s, k) {
            Some(p) => 0 <= p < s.len() && s[p].0 == k && sk_lookup(s, k) == Some(s[p].1),
            None => sk_lookup(s, k) is None,
        },
    decreases s.len(),
{
    if s.len() > 0 && s[0].0 != k {
        lemma_sk_pos_char(s.drop_first(), k);
    }
}

proof fn lemma_sk_pos_is(s: Seq<(SkillKind, u16)>, k: SkillKind, i: int)
    requires
        0 <= i <= s.len(),
        forall|j: int| 0 <= j < i ==> (#[trigger] s[j]).0 != k,
        i < s.len() ==> s[i].0 == k,
    ensures
        i < s.len() ==> sk_pos(s, k) == Some(i) && sk_lookup(s, k) == Some(s[i].1),
        i == s.len() ==> sk_pos(s, k) is None && sk_lookup(s, k) is None,
    decreases s.len(),
{
    if s.len() > 0 && s[0].0 != k {
        assert forall|j: int| 0 <= j < i - 1 implies (#[trigger] s.drop_first()[j]).0 != k by {
            assert(s.drop_first()[j] == s[j + 1]);
        }
        if i < s.len() {
            assert(s.drop_first()[i - 1] == s[i]);
        }
        lemma_sk_pos_is(s.drop_first(), k, i - 1);
    }
}

/// The adjusted experience actually booked: capped at one level's worth.
pub open spec fn capped_exp(add_exp: u32) -> u32 {
    if add_exp > SKILL_EXP_LVUP as u32 {
        SKILL_EXP_LVUP as u32
    } else {
        add_exp
    }
}

/// What `add_exp` returns: whether the skill levelled up, and the
/// experience actually booked. Nothing is booked when the list gathers no
/// experience or does not know the skill.
pub open spec fn add_exp_result(v: SkillListView, kind: SkillKind, add_exp: u32) -> (bool, u32) {
    match v.exp {
        None => (false, 0u32),
        Some(exp) => match sk_lookup(v.skills, kind) {
            None => (false, 0u32),
            Some(_) => match sk_lookup(exp, kind) {
                None => (false, 0u32),
                Some(e) => if e + capped_exp(add_exp) >= SKILL_EXP_LVUP as u32 {
                    (true, capped_exp(add_exp))
                } else {
                    (false, capped_exp(add_exp))
                },
            },
        },
    }
}

/// What `add_exp` does to the list: a full experience bar raises the level
/// by one and empties the bar; otherwise the bar grows by the booked
/// amount.
pub open spec fn add_exp_state(v: SkillListView, kind: SkillKind, add_exp: u32) -> SkillListView {
    match v.exp {
        None => v,
        Some(exp) => match sk_lookup(v.skills, kind) {
            None => v,
            Some(lv) => match sk_lookup(exp, kind) {
                None => v,
                Some(e) => if e + capped_exp(add_exp) >= SKILL_EXP_LVUP as u32 {
                    SkillListView {
                        skills: sk_set(v.skills, kind, (lv + 1) as u16),
                        exp: Some(sk_set(exp, kind, 0)),
                    }
                } else {
                    SkillListView {
                        skills: v.skills,
                        exp: Some(sk_set(exp, kind, (e + capped_exp(add_exp)) as u16)),
                    }
                },
            },
        },
    }
}

/// What `learn_new_skill` does: a missing skill starts at level 1, the
/// experience table is created if needed, and a missing bar starts at 0.
pub open spec fn learn_spec(v: SkillListView, kind: SkillKind) -> SkillListView {
    let skills = if sk_pos(v.skills, kind) is None {
        v.skills.push((kind, 1u16))
    } else {
        v.skills
    };
    let exp0 = match v.exp {
        None => Seq::<(SkillKind, u16)>::empty(),
        Some(e) => e,
    };
    let exp = if sk_pos(exp0, kind) is None {
        exp0.push((kind, 0u16))
    } else {
        exp0
    };
    SkillListView { skills, exp: Some(exp) }
}

/// The skill surface of a character's skill list.
pub trait SkillListEx: View<V = SkillListView> {
    /// Book already-adjusted experience for a skill; returns whether the
    /// skill levelled up and the experience actually booked.
    fn add_exp(&mut self, kind: SkillKind, add_exp: u32) -> (r: (bool, u32))
        requires
            match sk_lookup(old(self)@.skills, kind) {
                Some(lv) => lv < u16::MAX,
                None => true,
            },
        ensures
            r == add_exp_result(old(self)@, kind, add_exp),
            final(self)@ == add_exp_state(old(self)@, kind, add_exp),
    ;

    /// Insert a new skill slot.
    fn learn_new_skill(&mut self, kind: SkillKind)
        ensures
            final(self)@ == learn_spec(old(self)@, kind),
    ;

    /// Set a skill level directly. Does not add exp.
    fn set_skill_level(&mut self, kind: SkillKind, lv: u16)
        ensures
            final(self)@.skills == sk_set(old(self)@.skills, kind, lv),
            final(self)@.exp == old(self)@.exp,
    ;
}

impl SkillList {
    pub fn new() -> (r: SkillList)
        ensures
            r@.skills == Seq::<(SkillKind, u16)>::empty(),
            r@.exp is None,
    {
        let r = SkillList { skills: Vec::new(), exp: None };
        proof {
            assert(r@.skills =~= Seq::<(SkillKind, u16)>::empty());
        }
        r
    }

    fn skill_level(&self, kind: SkillKind) -> (r: Option<u16>)
        ensures
            r == sk_lookup(self@.skills, kind),
    {
        let mut i: usize = 0;
        while i < self.skills.len()
            invariant
                i <= self@.skills.len(),
                forall|j: int| 0 <= j < i ==> (#[trigger] self@.skills[j]).0 != kind,
            decreases self@.skills.len() - i,
        {
            if self.skills[i].0 == kind {
                proof {
                    lemma_sk_pos_is(self@.skills, kind, i as int);
                }
                return Some(self.skills[i].1);
            }
            i = i + 1;
        }
        proof {
            lemma_sk_pos_is(self@.skills, kind, self@.skills.len() as int);
        }
        None
    }
}

/// Overwrite the first entry for the kind, or append one; the executable
/// side of [`sk_set`].
#[verifier::loop_isolation(false)]
fn sk_set_ex(s: &mut Vec<(SkillKind, u16)>, kind: SkillKind, v: u16)
    ensures
        final(s)@ == sk_set(old(s)@, kind, v),
{
    let ghost s0 = s@;
    let mut i: usize = 0;
    while i < s.len()
        invariant
            i <= s0.len(),
            s@ == s0,
            forall|j: int| 0 <= j < i ==> (#[trigger] s0[j]).0 != kind,
        decreases s0.len() - i,
    {
        if s[i].0 == kind {
            proof {
                lemma_sk_pos_is(s0, kind, i as int);
            }
            s[i] = (kind, v);
            proof {
                assert(s@ =~= sk_set(s0, kind, v));
            }
            return;
        }
        i = i + 1;
    }
    proof {
        lemma_sk_pos_is(s0, kind, s0.len() as int);
    }
    s.push((kind, v));
    proof {
        assert(s@ =~= sk_set(s0, kind, v));
    }
}

#[verifier::loop_isolation(false)]
fn sk_lookup_ex(s: &Vec<(SkillKind, u16)>, kind: SkillKind) -> (r: Option<u16>)
    ensures
        r == sk_lookup(s@, kind),
{
    let mut i: usize = 0;
    while i < s.len()
        invariant
            i <= s@.len(),
            forall|j: int| 0 <= j < i ==> (#[trigger] s@[j]).0 != kind,
        decreases s@.len() - i,
    {
        if s[i].0 == kind {
            proof {
                lemma_sk_pos_is(s@, kind, i as int);
            }
            return Some(s[i].1);
        }
        i = i + 1;
    }
    proof {
        lemma_sk_pos_is(s@, kind, s@.len() as int);
    }
    None
}

impl SkillListEx for SkillList {
    /// Add exp to the specified skill.
    /// Returns level up result and actual added exp value.
    fn add_exp(&mut self, kind: SkillKind, add_exp: u32) -> (r: (bool, u32)) {
        if self.exp.is_none() {
            return (false, 0);
        }
        let skill_level = match self.skill_level(kind) {
            Some(lv) => lv,
            None => {
                return (false, 0);
            }
        };
        // Booked exp is limited to one level's worth per call.
        let add_exp = if add_exp > SKILL_EXP_LVUP as u32 {
            SKILL_EXP_LVUP as u32
        } else {
            add_exp
        };
        let exp = match &mut self.exp {
            Some(e) => e,
            None => {
                proof {
                    assert(false);
                }
                return (false, 0);
            }
        };
        let skill_exp = match sk_lookup_ex(exp, kind) {
            Some(e) => e,
            None => {
                return (false, 0);
            }
        };
        let sum: u32 = skill_exp as u32 + add_exp;
        if sum >= SKILL_EXP_LVUP as u32 {
            // Level up.
            sk_set_ex(exp, kind, 0);
            sk_set_ex(&mut self.skills, kind, skill_level + 1);
            (true, add_exp)
        } else {
            sk_set_ex(exp, kind, sum as u16);
            (false, add_exp)
        }
    }

    /// Insert new skill slot.
    fn learn_new_skill(&mut self, kind: SkillKind) {
        proof {
            lemma_sk_pos_char(old(self)@.skills, kind);
        }
        match self.skill_level(kind) {
            Some(_) => {}
            None => {
                self.skills.push((kind, 1));
            }
        }
        proof {
            assert(self@.skills == learn_spec(old(self)@, kind).skills);
        }
        if self.exp.is_none() {
            self.exp = Some(Vec::new());
            proof {
                assert(self@.exp->Some_0 =~= Seq::<(SkillKind, u16)>::empty());
            }
        }
        match &mut self.exp {
            Some(e) => {
                proof {
                    lemma_sk_pos_char(e@, kind);
                }
                match sk_lookup_ex(e, kind) {
                    Some(_) => {}
                    None => {
                        e.push((kind, 0));
                    }
                }
            }
            None => {
                proof {
                    assert(false);
                }
            }
        }
    }

    /// Set skill level directly. Do not add exp.
    fn set_skill_level(&mut self, kind: SkillKind, lv: u16) {
        sk_set_ex(&mut self.skills, kind, lv);
    }
}

} // verus!
