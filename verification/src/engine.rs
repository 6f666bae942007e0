//! The script engine: a resumable interpreter that executes instructions
//! against mutable game state until it yields an externally observable
//! event or terminates.
//!
//! The engine's behaviour is specified by a deterministic small-step
//! relation, [`step`], iterated by the fuel-indexed [`run`]. One call of
//! [`ScriptEngine::exec`] performs exactly the steps that `run` prescribes
//! from the current cursor; a script that performs [`MAX_SCRIPT_STEPS`]
//! steps without yielding is treated as a content error and degrades to
//! `Quit`, like other content errors.

use vstd::prelude::*;

use crate::defs::CharaId;
use crate::gamedata::{
    eval_spec, player_item_pos, sat_add_i64, set_var_spec, GameData, GdView,
};
use crate::item::remove_spec;
use crate::script::{
    clone_choices, clone_script, script_get, Instruction, InstrView, Script,
    ScriptPos, ScriptView, Value,
};
use crate::strutil::str_eq;

verus! {

/// Steps one `exec` call may take before the script is declared runaway.
pub const MAX_SCRIPT_STEPS: u64 = 1000000;

/// Dialogue text yielded by a `Talk` instruction: the text id and the
/// answer choices, if any.
#[derive(PartialEq, Eq, Debug)]
pub struct TalkText {
    pub text_id: String,
    pub choices: Option<Vec<(String, String)>>,
}

/// Mathematical value of a [`TalkText`].
pub ghost struct TalkTextView {
    pub text_id: Seq<char>,
    pub choices: Option<Seq<(Seq<char>, Seq<char>)>>,
}

impl View for TalkText {
    type V = TalkTextView;

    open spec fn view(&self) -> TalkTextView {
        TalkTextView {
            text_id: self.text_id@,
            choices: match self.choices {
                Some(c) => Some(c@.map_values(|p: (String, String)| (p.0@, p.1@))),
                None => None,
            },
        }
    }
}

/// What one engine invocation returns: a yield to the caller or the end
/// of the script.
#[derive(PartialEq, Eq, Debug)]
pub enum ExecResult {
    /// Dialogue to display, with the speaking character and whether a new
    /// dialog must be opened.
    Talk(CharaId, TalkText, bool),
    /// The caller owns performing a purchase from this character.
    ShopBuy(CharaId),
    /// The caller owns performing a sale.
    ShopSell,
    /// The script ended or was abandoned on a content error.
    Quit,
}

/// Mathematical value of an [`ExecResult`].
pub ghost enum ExecResultView {
    Talk(CharaId, TalkTextView, bool),
    ShopBuy(CharaId),
    ShopSell,
    Quit,
}

impl View for ExecResult {
    type V = ExecResultView;

    open spec fn view(&self) -> ExecResultView {
        match self {
            ExecResult::Talk(cid, tt, reopen) => ExecResultView::Talk(*cid, tt@, *reopen),
            ExecResult::ShopBuy(cid) => ExecResultView::ShopBuy(*cid),
            ExecResult::ShopSell => ExecResultView::ShopSell,
            ExecResult::Quit => ExecResultView::Quit,
        }
    }
}

/// The interpreter's whole configuration: the cursor, the open-dialog
/// flag, and the game state.
pub ghost struct EngCfg {
    pub section: Seq<char>,
    pub idx: int,
    pub talking: bool,
    pub gd: GdView,
}

/// One small step's outcome: yield a result to the caller, or go on.
pub ghost enum StepOut {
    Yield(ExecResultView, EngCfg),
    Next(EngCfg),
}

/// Outcome of `run`: still going after the given fuel, or done.
pub ghost enum RunOut {
    Pending(EngCfg),
    Done(ExecResultView, EngCfg),
}

/// The cursor after stepping to the next instruction; the index saturates
/// as [`ScriptPos::advance`] does.
pub open spec fn advance_cfg(c: EngCfg) -> EngCfg {
    EngCfg {
        idx: if c.idx < usize::MAX {
            c.idx + 1
        } else {
            c.idx
        },
        ..c
    }
}

/// A transfer to the named section: the reserved name `"quit"` ends the
/// script with the cursor in place; `"continue"` falls through to the next
/// instruction; any other name moves the cursor to the section's start.
pub open spec fn jump_cfg(c: EngCfg, sec: Seq<char>) -> StepOut {
    if sec == "quit"@ {
        StepOut::Yield(ExecResultView::Quit, c)
    } else if sec == "continue"@ {
        StepOut::Next(advance_cfg(c))
    } else {
        StepOut::Next(EngCfg { section: sec, idx: 0, ..c })
    }
}

/// One step of the interpreter at configuration `c`.
///
/// Running off the end of a section, a jump to `"quit"`, a wrongly typed
/// expression, a `Talk` without a character, or an item the player does
/// not hold all yield `Quit`; the other instructions mutate the state and
/// go on. Only a yield at `ShopBuy`, `ShopSell` or the end of a section
/// advances the cursor past the yielding instruction; a `Talk` leaves the
/// cursor on the instruction until a choice arrives.
pub open spec fn step(script: ScriptView, cid: Option<CharaId>, c: EngCfg) -> StepOut {
    match script_get(script, c.section, c.idx) {
        None => StepOut::Yield(ExecResultView::Quit, advance_cfg(c)),
        Some(ins) => match ins {
            InstrView::Jump(sec) => jump_cfg(c, sec),
            InstrView::JumpIf(sec, e) => match eval_spec(e, c.gd.vars) {
                Value::Bool(b) => if b {
                    jump_cfg(c, sec)
                } else {
                    StepOut::Next(advance_cfg(c))
                },
                Value::RefUnknownVar => StepOut::Next(advance_cfg(c)),
                Value::Int(_) => StepOut::Yield(ExecResultView::Quit, c),
            },
            InstrView::Talk(text, choices) => match cid {
                None => StepOut::Yield(ExecResultView::Quit, c),
                Some(cc) => StepOut::Yield(
                    ExecResultView::Talk(
                        cc,
                        TalkTextView {
                            text_id: text,
                            choices: if choices.len() == 0 {
                                None
                            } else {
                                Some(choices)
                            },
                        },
                        !c.talking,
                    ),
                    EngCfg { talking: true, ..c },
                ),
            },
            InstrView::GSet(name, e) => StepOut::Next(
                advance_cfg(
                    EngCfg {
                        gd: GdView {
                            vars: set_var_spec(c.gd.vars, name, eval_spec(e, c.gd.vars)),
                            ..c.gd
                        },
                        ..c
                    },
                ),
            ),
            InstrView::ReceiveMoney(e) => match eval_spec(e, c.gd.vars) {
                Value::Int(v) => StepOut::Next(
                    advance_cfg(
                        EngCfg {
                            gd: GdView { money: sat_add_i64(c.gd.money, v as int), ..c.gd },
                            ..c
                        },
                    ),
                ),
                _ => StepOut::Yield(ExecResultView::Quit, c),
            },
            InstrView::RemoveItem(id) => match player_item_pos(c.gd, id) {
                Some(p) => StepOut::Next(
                    advance_cfg(
                        EngCfg { gd: GdView { items: remove_spec(c.gd.items, p, 1), ..c.gd }, ..c },
                    ),
                ),
                None => StepOut::Yield(ExecResultView::Quit, c),
            },
            InstrView::ShopBuy => match cid {
                None => StepOut::Yield(ExecResultView::Quit, c),
                Some(cc) => StepOut::Yield(ExecResultView::ShopBuy(cc), advance_cfg(c)),
            },
            InstrView::ShopSell => StepOut::Yield(ExecResultView::ShopSell, advance_cfg(c)),
            InstrView::GetDungeonLocation => StepOut::Next(
                advance_cfg(
                    EngCfg {
                        gd: GdView {
                            dungeon_gen: c.gd.dungeon_gen.push(c.gd.current_rid),
                            ..c.gd
                        },
                        ..c
                    },
                ),
            ),
        },
    }
}

/// Iterate [`step`] for at most `fuel` steps.
pub open spec fn run(script: ScriptView, cid: Option<CharaId>, c: EngCfg, fuel: nat) -> RunOut
    decreases fuel,
{
    if fuel == 0 {
        RunOut::Pending(c)
    } else {
        match step(script, cid, c) {
            StepOut::Yield(r, c2) => RunOut::Done(r, c2),
            StepOut::Next(c2) => run(script, cid, c2, (fuel - 1) as nat),
        }
    }
}

/// A pending run extends by one step.
proof fn lemma_run_step(script: ScriptView, cid: Option<CharaId>, c0: EngCfg, n: nat, c: EngCfg)
    requires
        run(script, cid, c0, n) == RunOut::Pending(c),
    ensures
        match step(script, cid, c) {
            StepOut::Next(c2) => run(script, cid, c0, n + 1) == RunOut::Pending(c2),
            StepOut::Yield(r, c2) => run(script, cid, c0, n + 1) == RunOut::Done(r, c2),
        },
    decreases n,
{
    reveal_with_fuel(run, 2);
    if n == 0 {
        assert(c0 == c);
    } else {
        match step(script, cid, c0) {
            StepOut::Next(c1) => {
                lemma_run_step(script, cid, c1, (n - 1) as nat, c);
            }
            StepOut::Yield(_, _) => {
                assert(false);
            }
        }
    }
}

/// A finished run stays finished under more fuel.
proof fn lemma_run_done_sticky(script: ScriptView, cid: Option<CharaId>, c0: EngCfg, n: nat, m: nat)
    requires
        n <= m,
        run(script, cid, c0, n) is Done,
    ensures
        run(script, cid, c0, m) == run(script, cid, c0, n),
    decreases n,
{
    reveal_with_fuel(run, 2);
    if n > 0 {
        match step(script, cid, c0) {
            StepOut::Yield(_, _) => {}
            StepOut::Next(c1) => {
                lemma_run_done_sticky(script, cid, c1, (n - 1) as nat, (m - 1) as nat);
            }
        }
    }
}

/// What one engine invocation guarantees: the fuel-bounded run from `c`
/// either finishes with exactly this result and state, or is still pending
/// at the budget and the engine gave up with `Quit` in the pending state.
pub open spec fn exec_post(
    script: ScriptView,
    cid: Option<CharaId>,
    c: EngCfg,
    r: ExecResultView,
    c2: EngCfg,
) -> bool {
    match run(script, cid, c, MAX_SCRIPT_STEPS as nat) {
        RunOut::Done(rr, cc) => r == rr && c2 == cc,
        RunOut::Pending(cc) => r == ExecResultView::Quit && c2 == cc,
    }
}

/// The immutable mapping from script id to script, loaded once at startup.
pub struct ScriptStore {
    pub scripts: Vec<(String, Script)>,
}

/// Mathematical value of a [`ScriptStore`].
pub type StoreView = Seq<(Seq<char>, ScriptView)>;

impl View for ScriptStore {
    type V = StoreView;

    open spec fn view(&self) -> StoreView {
        self.scripts@.map_values(|p: (String, Script)| (p.0@, p.1@))
    }
}

/// The first script with the given id.
pub open spec fn lookup_script(s: StoreView, id: Seq<char>) -> Option<ScriptView>
    decreases s.len(),
{
    if s.len() == 0 {
        None
    } else if s[0].0 == id {
        Some(s[0].1)
    } else {
        lookup_script(s.drop_first(), id)
    }
}

proof fn lemma_lookup_script_is(s: StoreView, id: Seq<char>, i: int)
    requires
        0 <= i <= s.len(),
        forall|j: int| 0 <= j < i ==> (#[trigger] s[j]).0 != id,
        i < s.len() ==> s[i].0 == id,
    ensures
        i < s.len() ==> lookup_script(s, id) == Some(s[i].1),
        i == s.len() ==> lookup_script(s, id) is None,
    decreases s.len(),
{
    if s.len() > 0 && s[0].0 != id {
        assert forall|j: int| 0 <= j < i - 1 implies (#[trigger] s.drop_first()[j]).0 != id by {
            assert(s.drop_first()[j] == s[j + 1]);
        }
        if i < s.len() {
            assert(s.drop_first()[i - 1] == s[i]);
        }
        lemma_lookup_script_is(s.drop_first(), id, i - 1);
    }
}

impl ScriptStore {
    pub fn new() -> (r: ScriptStore)
        ensures
            r@ == Seq::<(Seq<char>, ScriptView)>::empty(),
    {
        let r = ScriptStore { scripts: Vec::new() };
        proof {
            assert(r@ =~= Seq::<(Seq<char>, ScriptView)>::empty());
        }
        r
    }

    /// Register a script under an id.
    pub fn add(&mut self, id: &str, script: Script)
        ensures
            final(self)@ == old(self)@.push((id@, script@)),
    {
        let ghost v0 = self@;
        self.scripts.push((id.to_owned(), script));
        proof {
            assert(self@ =~= v0.push((id@, script@)));
        }
    }

    /// The first script with the given id.
    pub fn get(&self, id: &str) -> (r: Option<&Script>)
        ensures
            match r {
                Some(s) => lookup_script(self@, id@) == Some(s@),
                None => lookup_script(self@, id@) is None,
            },
    {
        let mut i: usize = 0;
        while i < self.scripts.len()
            invariant
                i <= self@.len(),
                forall|j: int| 0 <= j < i ==> (#[trigger] self@[j]).0 != id@,
            decreases self@.len() - i,
        {
            if str_eq(self.scripts[i].0.as_str(), id) {
                proof {
                    lemma_lookup_script_is(self@, id@, i as int);
                }
                return Some(&self.scripts[i].1);
            }
            i = i + 1;
        }
        proof {
            lemma_lookup_script_is(self@, id@, self@.len() as int);
        }
        None
    }

    /// Whether the store holds a script with the given id.
    pub fn contains(&self, id: &str) -> (r: bool)
        ensures
            r == (lookup_script(self@, id@) is Some),
    {
        match self.get(id) {
            Some(_) => true,
            None => false,
        }
    }
}

/// A script engine bound to one interaction: the script, the cursor, the
/// character spoken to, and whether a dialog is already open.
pub struct ScriptEngine {
    script: Script,
    pos: ScriptPos,
    cid: Option<CharaId>,
    talking: bool,
}

/// Mathematical value of a [`ScriptEngine`].
pub ghost struct EngView {
    pub script: ScriptView,
    pub cid: Option<CharaId>,
    pub section: Seq<char>,
    pub idx: int,
    pub talking: bool,
}

impl View for ScriptEngine {
    type V = EngView;

    closed spec fn view(&self) -> EngView {
        EngView {
            script: self.script@,
            cid: self.cid,
            section: self.pos.section@,
            idx: self.pos.i as int,
            talking: self.talking,
        }
    }
}

/// The engine's configuration over the given game state.
pub open spec fn eng_cfg(e: EngView, gd: GdView) -> EngCfg {
    EngCfg { section: e.section, idx: e.idx, talking: e.talking, gd }
}

impl ScriptEngine {
    /// Bind a new engine to the script with the given id, with the cursor
    /// at the start. An id the store does not hold is a caller error.
    pub fn new(store: &ScriptStore, id: &str, cid: Option<CharaId>) -> (r: ScriptEngine)
        requires
            lookup_script(store@, id@) is Some,
        ensures
            r@.script == lookup_script(store@, id@)->Some_0,
            r@.cid == cid,
            r@.section == "start"@,
            r@.idx == 0,
            r@.talking == false,
    {
        let script = match store.get(id) {
            Some(s) => clone_script(s),
            None => {
                proof {
                    assert(false);
                }
                Script { sections: Vec::new() }
            }
        };
        ScriptEngine { script, pos: ScriptPos::new("start", 0), cid, talking: false }
    }

    /// Execute instructions at the cursor until the script yields an
    /// observable event or terminates. See [`exec_post`] for the exact
    /// relation between the state before and after.
    #[verifier::loop_isolation(false)]
    pub fn exec(&mut self, gd: &mut GameData) -> (r: ExecResult)
        requires
            old(gd).wf(),
        ensures
            final(gd).wf(),
            final(self)@.script == old(self)@.script,
            final(self)@.cid == old(self)@.cid,
            exec_post(
                old(self)@.script,
                old(self)@.cid,
                eng_cfg(old(self)@, old(gd)@),
                r@,
                eng_cfg(final(self)@, final(gd)@),
            ),
    {
        let ghost script0 = self@.script;
        let ghost cid0 = self@.cid;
        let ghost c0 = eng_cfg(self@, gd@);
        let mut steps: u64 = 0;
        loop
            invariant
                gd.wf(),
                self@.script == script0,
                self@.cid == cid0,
                steps <= MAX_SCRIPT_STEPS,
                run(script0, cid0, c0, steps as nat) == RunOut::Pending(eng_cfg(self@, gd@)),
            decreases MAX_SCRIPT_STEPS - steps,
        {
            if steps == MAX_SCRIPT_STEPS {
                // Runaway script: give up, as with other content errors.
                return ExecResult::Quit;
            }
            let ghost c_cur = eng_cfg(self@, gd@);
            proof {
                lemma_run_step(script0, cid0, c0, steps as nat, c_cur);
            }
            let ins = match self.script.get(&self.pos) {
                Some(ins) => ins,
                None => {
                    // The cursor ran off the end of the section.
                    self.pos.advance();
                    proof {
                        lemma_run_done_sticky(
                            script0,
                            cid0,
                            c0,
                            (steps + 1) as nat,
                            MAX_SCRIPT_STEPS as nat,
                        );
                    }
                    return ExecResult::Quit;
                }
            };
            match ins {
                Instruction::Jump(section) => {
                    if str_eq(section.as_str(), "quit") {
                        proof {
                            lemma_run_done_sticky(
                                script0,
                                cid0,
                                c0,
                                (steps + 1) as nat,
                                MAX_SCRIPT_STEPS as nat,
                            );
                        }
                        return ExecResult::Quit;
                    } else if str_eq(section.as_str(), "continue") {
                        self.pos.advance();
                    } else {
                        let sec = section.clone();
                        self.pos.set_section(sec.as_str());
                    }
                }
                Instruction::JumpIf(section, expr) => {
                    let v = expr.eval(gd);
                    match v {
                        Value::Bool(b) => {
                            if b {
                                if str_eq(section.as_str(), "quit") {
                                    proof {
                                        lemma_run_done_sticky(
                                            script0,
                                            cid0,
                                            c0,
                                            (steps + 1) as nat,
                                            MAX_SCRIPT_STEPS as nat,
                                        );
                                    }
                                    return ExecResult::Quit;
                                } else if str_eq(section.as_str(), "continue") {
                                    self.pos.advance();
                                } else {
                                    let sec = section.clone();
                                    self.pos.set_section(sec.as_str());
                                }
                            } else {
                                self.pos.advance();
                            }
                        }
                        Value::RefUnknownVar => {
                            self.pos.advance();
                        }
                        Value::Int(_) => {
                            // A condition must be boolean-like.
                            proof {
                                lemma_run_done_sticky(
                                    script0,
                                    cid0,
                                    c0,
                                    (steps + 1) as nat,
                                    MAX_SCRIPT_STEPS as nat,
                                );
                            }
                            return ExecResult::Quit;
                        }
                    }
                }
                Instruction::Talk(text_id, choices) => {
                    let cid = match self.cid {
                        Some(c) => c,
                        None => {
                            // Dialogue needs a character context.
                            proof {
                                lemma_run_done_sticky(
                                    script0,
                                    cid0,
                                    c0,
                                    (steps + 1) as nat,
                                    MAX_SCRIPT_STEPS as nat,
                                );
                            }
                            return ExecResult::Quit;
                        }
                    };
                    let need_open_talk_dialog = if self.talking {
                        false
                    } else {
                        self.talking = true;
                        true
                    };
                    let tt_choices = if choices.len() == 0 {
                        None
                    } else {
                        Some(clone_choices(choices))
                    };
                    let r = ExecResult::Talk(
                        cid,
                        TalkText { text_id: text_id.clone(), choices: tt_choices },
                        need_open_talk_dialog,
                    );
                    proof {
                        lemma_run_done_sticky(
                            script0,
                            cid0,
                            c0,
                            (steps + 1) as nat,
                            MAX_SCRIPT_STEPS as nat,
                        );
                    }
                    return r;
                }
                Instruction::GSet(name, expr) => {
                    let v = expr.eval(gd);
                    gd.set_global_var(name.as_str(), v);
                    self.pos.advance();
                }
                Instruction::ReceiveMoney(expr) => {
                    let v = expr.eval(gd);
                    match v {
                        Value::Int(amount) => {
                            gd.add_money(amount);
                            self.pos.advance();
                        }
                        _ => {
                            // The amount must be an integer.
                            proof {
                                lemma_run_done_sticky(
                                    script0,
                                    cid0,
                                    c0,
                                    (steps + 1) as nat,
                                    MAX_SCRIPT_STEPS as nat,
                                );
                            }
                            return ExecResult::Quit;
                        }
                    }
                }
                Instruction::RemoveItem(item_id) => {
                    match gd.player_item_location(item_id.as_str()) {
                        Some(il) => {
                            proof {
                                crate::gamedata::lemma_find_item_bounds(
                                    gd@.items,
                                    crate::item::ItemIdx(
                                        crate::gamedata::lookup_id(gd@.item_ids, item_id@)->Some_0
                                            as u32,
                                    ),
                                );
                            }
                            gd.remove_item(il, 1);
                            self.pos.advance();
                        }
                        None => {
                            // The player does not hold the item.
                            proof {
                                lemma_run_done_sticky(
                                    script0,
                                    cid0,
                                    c0,
                                    (steps + 1) as nat,
                                    MAX_SCRIPT_STEPS as nat,
                                );
                            }
                            return ExecResult::Quit;
                        }
                    }
                }
                Instruction::ShopBuy => {
                    let cid = match self.cid {
                        Some(c) => c,
                        None => {
                            proof {
                                lemma_run_done_sticky(
                                    script0,
                                    cid0,
                                    c0,
                                    (steps + 1) as nat,
                                    MAX_SCRIPT_STEPS as nat,
                                );
                            }
                            return ExecResult::Quit;
                        }
                    };
                    self.pos.advance();
                    proof {
                        lemma_run_done_sticky(
                            script0,
                            cid0,
                            c0,
                            (steps + 1) as nat,
                            MAX_SCRIPT_STEPS as nat,
                        );
                    }
                    return ExecResult::ShopBuy(cid);
                }
                Instruction::ShopSell => {
                    self.pos.advance();
                    proof {
                        lemma_run_done_sticky(
                            script0,
                            cid0,
                            c0,
                            (steps + 1) as nat,
                            MAX_SCRIPT_STEPS as nat,
                        );
                    }
                    return ExecResult::ShopSell;
                }
                Instruction::GetDungeonLocation => {
                    let rid = gd.current_rid();
                    gd.trigger_dungeon_gen(rid);
                    self.pos.advance();
                }
            }
            proof {
                assert(run(script0, cid0, c0, (steps + 1) as nat) == RunOut::Pending(
                    eng_cfg(self@, gd@),
                ));
            }
            steps = steps + 1;
        }
    }

    /// Resume a script parked at a `Talk` instruction with the player's
    /// choice. With a choice index, the destination section at that index
    /// decides: the reserved `"quit"` ends the script at once,
    /// `"continue"` falls through, any other name jumps. Without a choice,
    /// the `Talk` must offer none, and the cursor falls through. The
    /// engine then executes from the new cursor.
    pub fn continue_talk(&mut self, gd: &mut GameData, choice: Option<u32>) -> (r: ExecResult)
        requires
            old(gd).wf(),
            script_get(old(self)@.script, old(self)@.section, old(self)@.idx) is Some,
            script_get(old(self)@.script, old(self)@.section, old(self)@.idx)->Some_0 is Talk,
            match choice {
                Some(c) => (c as int) < script_get(
                    old(self)@.script,
                    old(self)@.section,
                    old(self)@.idx,
                )->Some_0->Talk_1.len(),
                None => script_get(
                    old(self)@.script,
                    old(self)@.section,
                    old(self)@.idx,
                )->Some_0->Talk_1.len() == 0,
            },
        ensures
            final(gd).wf(),
            final(self)@.script == old(self)@.script,
            final(self)@.cid == old(self)@.cid,
            ({
                let choices = script_get(
                    old(self)@.script,
                    old(self)@.section,
                    old(self)@.idx,
                )->Some_0->Talk_1;
                let c_old = eng_cfg(old(self)@, old(gd)@);
                match choice {
                    Some(c) => if choices[c as int].1 == "quit"@ {
                        r@ == ExecResultView::Quit && eng_cfg(final(self)@, final(gd)@) == c_old
                    } else if choices[c as int].1 == "continue"@ {
                        exec_post(
                            old(self)@.script,
                            old(self)@.cid,
                            advance_cfg(c_old),
                            r@,
                            eng_cfg(final(self)@, final(gd)@),
                        )
                    } else {
                        exec_post(
                            old(self)@.script,
                            old(self)@.cid,
                            EngCfg { section: choices[c as int].1, idx: 0, ..c_old },
                            r@,
                            eng_cfg(final(self)@, final(gd)@),
                        )
                    },
                    None => exec_post(
                        old(self)@.script,
                        old(self)@.cid,
                        advance_cfg(c_old),
                        r@,
                        eng_cfg(final(self)@, final(gd)@),
                    ),
                }
            }),
    {
        let dest: Option<String> = match self.script.get(&self.pos) {
            Some(Instruction::Talk(_, choices)) => match choice {
                Some(c) => Some(choices[c as usize].1.clone()),
                None => None,
            },
            _ => {
                proof {
                    assert(false);
                }
                None
            }
        };
        match dest {
            Some(d) => {
                if str_eq(d.as_str(), "quit") {
                    return ExecResult::Quit;
                }
                if str_eq(d.as_str(), "continue") {
                    self.pos.advance();
                } else {
                    self.pos.set_section(d.as_str());
                }
            }
            None => {
                self.pos.advance();
            }
        }
        self.exec(gd)
    }
}

} // verus!
