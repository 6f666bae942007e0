//! Scripts: immutable programs of instructions organized into named
//! sections, the serializable cursor into them, and the expressions their
//! conditions evaluate.
//!
//! Two section names are reserved and recognized by name rather than
//! structurally: `"quit"` ends the script, `"continue"` falls through to
//! the next instruction.

use vstd::prelude::*;

use crate::strutil::str_eq;

verus! {

/// A value an expression evaluates to. A reference to an unknown global
/// variable is a legitimate value, not an error: conditions treat it as
/// false.
#[derive(Clone, Copy, PartialEq, Eq, Structural, Debug)]
pub enum Value {
    Bool(bool),
    Int(i64),
    RefUnknownVar,
}

/// A condition or value expression, resolved against game state.
#[derive(PartialEq, Eq, Debug)]
pub enum Expr {
    Const(Value),
    GVar(String),
    Eq(Box<Expr>, Box<Expr>),
}

/// Mathematical value of an [`Expr`].
pub ghost enum ExprView {
    Const(Value),
    GVar(Seq<char>),
    Eq(Box<ExprView>, Box<ExprView>),
}

impl View for Expr {
    type V = ExprView;

    open spec fn view(&self) -> ExprView
        decreases self,
    {
        match self {
            Expr::Const(v) => ExprView::Const(*v),
            Expr::GVar(s) => ExprView::GVar(s@),
            Expr::Eq(a, b) => ExprView::Eq(Box::new((**a)@), Box::new((**b)@)),
        }
    }
}

/// One script instruction.
#[derive(PartialEq, Eq, Debug)]
pub enum Instruction {
    /// Unconditional transfer to a section.
    Jump(String),
    /// Transfer to a section when the expression is true.
    JumpIf(String, Expr),
    /// Yield dialogue text, with answer choices `(answer text, destination
    /// section)`.
    Talk(String, Vec<(String, String)>),
    /// Store the expression's value into the global variable table.
    GSet(String, Expr),
    /// Add the expression's value to the player's money.
    ReceiveMoney(Expr),
    /// Remove one unit of the named item from the player.
    RemoveItem(String),
    /// Yield a shop-buying interaction.
    ShopBuy,
    /// Yield a shop-selling interaction.
    ShopSell,
    /// Generate the dungeons of the current region.
    GetDungeonLocation,
}

/// Mathematical value of an [`Instruction`].
pub ghost enum InstrView {
    Jump(Seq<char>),
    JumpIf(Seq<char>, ExprView),
    Talk(Seq<char>, Seq<(Seq<char>, Seq<char>)>),
    GSet(Seq<char>, ExprView),
    ReceiveMoney(ExprView),
    RemoveItem(Seq<char>),
    ShopBuy,
    ShopSell,
    GetDungeonLocation,
}

impl View for Instruction {
    type V = InstrView;

    open spec fn view(&self) -> InstrView {
        match self {
            Instruction::Jump(s) => InstrView::Jump(s@),
            Instruction::JumpIf(s, e) => InstrView::JumpIf(s@, e@),
            Instruction::Talk(t, c) => InstrView::Talk(
                t@,
                c@.map_values(|p: (String, String)| (p.0@, p.1@)),
            ),
            Instruction::GSet(s, e) => InstrView::GSet(s@, e@),
            Instruction::ReceiveMoney(e) => InstrView::ReceiveMoney(e@),
            Instruction::RemoveItem(s) => InstrView::RemoveItem(s@),
            Instruction::ShopBuy => InstrView::ShopBuy,
            Instruction::ShopSell => InstrView::ShopSell,
            Instruction::GetDungeonLocation => InstrView::GetDungeonLocation,
        }
    }
}

/// Mathematical value of a [`Script`]: its sections in order.
pub type ScriptView = Seq<(Seq<char>, Seq<InstrView>)>;

/// An immutable program: named sections of instructions. Never mutated
/// after load.
#[derive(PartialEq, Eq, Debug)]
pub struct Script {
    pub sections: Vec<(String, Vec<Instruction>)>,
}

impl View for Script {
    type V = ScriptView;

    open spec fn view(&self) -> ScriptView {
        self.sections@.map_values(
            |sec: (String, Vec<Instruction>)|
                (sec.0@, sec.1@.map_values(|i: Instruction| i@)),
        )
    }
}

/// The instructions of the first section with the given name.
pub open spec fn lookup_section(s: ScriptView, name: Seq<char>) -> Option<Seq<InstrView>>
    decreases s.len(),
{
    if s.len() == 0 {
        None
    } else if s[0].0 == name {
        Some(s[0].1)
    } else {
        lookup_section(s.drop_first(), name)
    }
}

/// The instruction under the cursor, if the section exists and the index
/// is within it.
pub open spec fn script_get(s: ScriptView, section: Seq<char>, idx: int) -> Option<InstrView> {
    match lookup_section(s, section) {
        None => None,
        Some(sec) => if 0 <= idx < sec.len() {
            Some(sec[idx])
        } else {
            None
        },
    }
}

/// If the first name match is at `i`, the lookup returns that section's
/// instructions; if nothing matches, it returns nothing.
pub proof fn lemma_lookup_section_is(s: ScriptView, name: Seq<char>, i: int)
    requires
        0 <= i <= s.len(),
        forall|j: int| 0 <= j < i ==> (#[trigger] s[j]).0 != name,
        i < s.len() ==> s[i].0 == name,
    ensures
        i < s.len() ==> lookup_section(s, name) == Some(s[i].1),
        i == s.len() ==> lookup_section(s, name) is None,
    decreases s.len(),
{
    if s.len() > 0 && s[0].0 != name {
        assert forall|j: int| 0 <= j < i - 1 implies (#[trigger] s.drop_first()[j]).0 != name by {
            assert(s.drop_first()[j] == s[j + 1]);
        }
        if i < s.len() {
            assert(s.drop_first()[i - 1] == s[i]);
        }
        lemma_lookup_section_is(s.drop_first(), name, i - 1);
    }
}

impl Script {
    /// The first section with the given name.
    pub fn get_section(&self, name: &str) -> (r: Option<&Vec<Instruction>>)
        ensures
            match r {
                Some(sec) => lookup_section(self@, name@) == Some(
                    sec@.map_values(|i: Instruction| i@),
                ),
                None => lookup_section(self@, name@) is None,
            },
    {
        let mut i: usize = 0;
        while i < self.sections.len()
            invariant
                i <= self@.len(),
                forall|j: int| 0 <= j < i ==> (#[trigger] self@[j]).0 != name@,
            decreases self@.len() - i,
        {
            if str_eq(self.sections[i].0.as_str(), name) {
                proof {
                    lemma_lookup_section_is(self@, name@, i as int);
                }
                return Some(&self.sections[i].1);
            }
            i = i + 1;
        }
        proof {
            lemma_lookup_section_is(self@, name@, self@.len() as int);
        }
        None
    }

    /// The instruction under the cursor.
    pub fn get(&self, pos: &ScriptPos) -> (r: Option<&Instruction>)
        ensures
            match r {
                Some(ins) => script_get(self@, pos.section@, pos.i as int) == Some(ins@),
                None => script_get(self@, pos.section@, pos.i as int) is None,
            },
    {
        match self.get_section(pos.section.as_str()) {
            Some(sec) => {
                if pos.i < sec.len() {
                    Some(&sec[pos.i])
                } else {
                    None
                }
            }
            None => None,
        }
    }
}

/// The serializable cursor: the interpreter's suspend/resume point.
#[derive(PartialEq, Eq, Debug)]
pub struct ScriptPos {
    pub section: String,
    pub i: usize,
}

impl Clone for ScriptPos {
    fn clone(&self) -> (r: Self)
        ensures
            r.section@ == self.section@,
            r.i == self.i,
    {
        ScriptPos { section: self.section.clone(), i: self.i }
    }
}

impl ScriptPos {
    pub fn new(section: &str, i: usize) -> (r: ScriptPos)
        ensures
            r.section@ == section@,
            r.i == i,
    {
        ScriptPos { section: section.to_owned(), i }
    }

    /// Step to the next instruction of the current section. The index
    /// saturates at its greatest value, far beyond any section's length.
    pub fn advance(&mut self)
        ensures
            final(self).section@ == old(self).section@,
            final(self).i as int == if old(self).i < usize::MAX {
                old(self).i + 1
            } else {
                old(self).i as int
            },
    {
        if self.i < usize::MAX {
            self.i = self.i + 1;
        }
    }

    /// Transfer the cursor to the start of the given section.
    pub fn set_section(&mut self, section: &str)
        ensures
            final(self).section@ == section@,
            final(self).i == 0,
    {
        self.section = section.to_owned();
        self.i = 0;
    }
}

//
// Deep copies, value-equal by view.
//

pub fn clone_expr(e: &Expr) -> (r: Expr)
    ensures
        r@ == e@,
    decreases *e,
{
    match e {
        Expr::Const(v) => Expr::Const(*v),
        Expr::GVar(s) => Expr::GVar(s.clone()),
        Expr::Eq(a, b) => Expr::Eq(Box::new(clone_expr(a)), Box::new(clone_expr(b))),
    }
}

pub fn clone_choices(c: &Vec<(String, String)>) -> (r: Vec<(String, String)>)
    ensures
        r@.map_values(|p: (String, String)| (p.0@, p.1@)) == c@.map_values(
            |p: (String, String)| (p.0@, p.1@),
        ),
{
    let mut r: Vec<(String, String)> = Vec::new();
    let mut i: usize = 0;
    while i < c.len()
        invariant
            i <= c@.len(),
            r@.len() == i,
            forall|j: int|
                0 <= j < i ==> (#[trigger] r@[j]).0@ == c@[j].0@ && r@[j].1@ == c@[j].1@,
        decreases c@.len() - i,
    {
        r.push((c[i].0.clone(), c[i].1.clone()));
        i = i + 1;
    }
    proof {
        assert(r@.map_values(|p: (String, String)| (p.0@, p.1@)) =~= c@.map_values(
            |p: (String, String)| (p.0@, p.1@),
        ));
    }
    r
}

pub fn clone_instruction(ins: &Instruction) -> (r: Instruction)
    ensures
        r@ == ins@,
{
    match ins {
        Instruction::Jump(s) => Instruction::Jump(s.clone()),
        Instruction::JumpIf(s, e) => Instruction::JumpIf(s.clone(), clone_expr(e)),
        Instruction::Talk(t, c) => Instruction::Talk(t.clone(), clone_choices(c)),
        Instruction::GSet(s, e) => Instruction::GSet(s.clone(), clone_expr(e)),
        Instruction::ReceiveMoney(e) => Instruction::ReceiveMoney(clone_expr(e)),
        Instruction::RemoveItem(s) => Instruction::RemoveItem(s.clone()),
        Instruction::ShopBuy => Instruction::ShopBuy,
        Instruction::ShopSell => Instruction::ShopSell,
        Instruction::GetDungeonLocation => Instruction::GetDungeonLocation,
    }
}

pub fn clone_script(s: &Script) -> (r: Script)
    ensures
        r@ == s@,
{
    let mut sections: Vec<(String, Vec<Instruction>)> = Vec::new();
    let mut i: usize = 0;
    while i < s.sections.len()
        invariant
            i <= s@.len(),
            sections@.len() == i,
            forall|j: int|
                0 <= j < i ==> (#[trigger] sections@[j]).0@ == s@[j].0 && sections@[j].1@
                    .map_values(|ins: Instruction| ins@) == s@[j].1,
        decreases s@.len() - i,
    {
        let name = s.sections[i].0.clone();
        let src = &s.sections[i].1;
        let mut instrs: Vec<Instruction> = Vec::new();
        let mut j: usize = 0;
        while j < src.len()
            invariant
                j <= src@.len(),
                instrs@.len() == j,
                forall|k: int| 0 <= k < j ==> (#[trigger] instrs@[k])@ == src@[k]@,
            decreases src@.len() - j,
        {
            instrs.push(clone_instruction(&src[j]));
            j = j + 1;
        }
        proof {
            assert(instrs@.map_values(|ins: Instruction| ins@) =~= src@.map_values(
                |ins: Instruction| ins@,
            ));
        }
        sections.push((name, instrs));
        i = i + 1;
    }
    let r = Script { sections };
    proof {
        assert(r@ =~= s@);
    }
    r
}

} // verus!
