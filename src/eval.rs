use vstd::multiset::Multiset;
use vstd::prelude::*;

use crate::action::{action_model, actions_model, Action, ActionModel};
use crate::ast::Operation;
use crate::error::InternalError;
use crate::location::{EntryModel, LocModel, ResourceLocation, ScoreboardEntry, Separator};
use crate::text::{digits, push_unsigned};

verus! {

/// One instruction of a postfix expression stream.
#[derive(Debug)]
pub enum EvaluationInstruction {
    PushNumber(i32),
    PushBool(bool),
    PushVariable(ScoreboardEntry),
    Operation(Operation),
    /// A call of the function at the location, with its parameters' names.
    CallFunction(ResourceLocation, Vec<String>),
}

pub enum InstrModel {
    PushNumber(int),
    PushBool(bool),
    PushVariable(EntryModel),
    Operation(Operation),
    CallFunction(LocModel, Seq<Seq<char>>),
}

pub open spec fn strings_model(v: Seq<String>) -> Seq<Seq<char>> {
    v.map_values(|s: String| s@)
}

impl View for EvaluationInstruction {
    type V = InstrModel;

    open spec fn view(&self) -> InstrModel {
        match self {
            EvaluationInstruction::PushNumber(n) => InstrModel::PushNumber(*n as int),
            EvaluationInstruction::PushBool(b) => InstrModel::PushBool(*b),
            EvaluationInstruction::PushVariable(v) => InstrModel::PushVariable(v@),
            EvaluationInstruction::Operation(op) => InstrModel::Operation(*op),
            EvaluationInstruction::CallFunction(target, params) => InstrModel::CallFunction(
                target@,
                strings_model(params@),
            ),
        }
    }
}

pub open spec fn instrs_model(v: Seq<EvaluationInstruction>) -> Seq<InstrModel> {
    v.map_values(|i: EvaluationInstruction| i@)
}

impl EvaluationInstruction {
    pub fn as_operation(&self) -> (r: Option<Operation>)
        ensures
            r == (match self@ {
                InstrModel::Operation(op) => Some(op),
                _ => None,
            }),
    {
        match self {
            EvaluationInstruction::Operation(op) => Some(*op),
            _ => None,
        }
    }
}

/// `TMP<k>`.
pub open spec fn tmp_name(k: u64) -> Seq<char> {
    "TMP"@ + digits(k as nat)
}

/// The temporary register `TMP<k>` of a register namespace.
pub open spec fn tmp_entry(sb: LocModel, k: u64) -> EntryModel {
    EntryModel { scoreboard: sb, player: tmp_name(k) }
}

/// `score <entry> matches <range>`.
pub open spec fn matches_condition(e: EntryModel, range: Seq<char>) -> Seq<char> {
    "score "@ + e.text() + " matches "@ + range
}

/// The in-place primitive of an arithmetic operator, `first op= second`.
pub open spec fn arith_model(op: Operation, first: EntryModel, second: EntryModel) -> Option<
    ActionModel,
> {
    match op {
        Operation::Add => Some(ActionModel::AddVariables { first, second }),
        Operation::Subtract => Some(ActionModel::SubtractVariables { first, second }),
        Operation::Multiply => Some(ActionModel::MultiplyVariables { first, second }),
        Operation::Divide => Some(ActionModel::DivideVariables { first, second }),
        Operation::Modulo => Some(ActionModel::ModuloVariables { first, second }),
        _ => None,
    }
}

/// The range that the difference of a comparison's operands falls in when
/// the comparison holds; `None` for the other operators.
pub open spec fn comparison_range(op: Operation) -> Option<Seq<char>> {
    match op {
        Operation::GreaterThan => Some("1.."@),
        Operation::LessThan => Some("..-1"@),
        Operation::GreaterThanOrEquals => Some("0.."@),
        Operation::LessThanOrEquals => Some("..0"@),
        Operation::CheckEquals => Some("0"@),
        Operation::NotEquals => Some("0"@),
        _ => None,
    }
}

/// What a binary operator on `TMP<a>` and `TMP<b>` emits, its result left in
/// `TMP<a>`.
pub open spec fn op_actions(sb: LocModel, op: Operation, a: u64, b: u64) -> Option<
    Seq<ActionModel>,
> {
    let ta = tmp_entry(sb, a);
    let tb = tmp_entry(sb, b);
    match arith_model(op, ta, tb) {
        Some(act) => Some(seq![act]),
        None => match comparison_range(op) {
            Some(range) => {
                let set_true = Box::new(ActionModel::SetVariableToNumber { var: ta, val: 1 });
                let cond = matches_condition(ta, range);
                let guard = if op == Operation::NotEquals {
                    ActionModel::ExecuteUnless { condition: cond, then: set_true }
                } else {
                    ActionModel::ExecuteIf { condition: cond, then: set_true }
                };
                Some(seq![ActionModel::SubtractVariables { first: ta, second: tb }, guard])
            },
            None => None,
        },
    }
}

/// The state of a flush part way through its instructions.
pub struct FlushState {
    pub actions: Seq<ActionModel>,
    pub free: Seq<u64>,
    pub max: u64,
    pub working: Seq<u64>,
}

/// Takes the most recently freed temporary, or a new one above every index
/// handed out so far.
pub open spec fn reserve_model(st: FlushState) -> Result<(FlushState, u64), InternalError> {
    if st.free.len() > 0 {
        Ok((FlushState { free: st.free.drop_last(), ..st }, st.free.last()))
    } else if st.max == u64::MAX {
        Err(InternalError::CounterOverflow)
    } else {
        Ok((FlushState { max: (st.max + 1) as u64, ..st }, (st.max + 1) as u64))
    }
}

/// Reserves a temporary, emits `set` for it and pushes it on the working stack.
pub open spec fn push_fresh(
    sb: LocModel,
    st: FlushState,
    set: spec_fn(EntryModel) -> ActionModel,
) -> Result<FlushState, InternalError> {
    match reserve_model(st) {
        Err(e) => Err(e),
        Ok((s, t)) => Ok(
            FlushState {
                actions: s.actions.push(set(tmp_entry(sb, t))),
                working: s.working.push(t),
                ..s
            },
        ),
    }
}

/// `param <target's namespace> = TMP<arg>`: hands one argument to a callee.
pub open spec fn call_arg_action(sb: LocModel, slot: LocModel, param: Seq<char>, arg: u64) -> ActionModel {
    ActionModel::SetVariableToVariable {
        first: EntryModel { scoreboard: slot, player: param },
        second: tmp_entry(sb, arg),
    }
}

pub open spec fn call_arg_actions(
    sb: LocModel,
    slot: LocModel,
    params: Seq<Seq<char>>,
    args: Seq<u64>,
) -> Seq<ActionModel> {
    Seq::new(params.len(), |i: int| call_arg_action(sb, slot, params[i], args[i]))
}

/// One instruction of a flush.
pub open spec fn flush_step(sb: LocModel, st: FlushState, instr: InstrModel) -> Result<
    FlushState,
    InternalError,
> {
    match instr {
        InstrModel::PushNumber(n) => push_fresh(
            sb,
            st,
            |t: EntryModel| ActionModel::SetVariableToNumber { var: t, val: n },
        ),
        InstrModel::PushBool(b) => push_fresh(
            sb,
            st,
            |t: EntryModel|
                ActionModel::SetVariableToNumber {
                    var: t,
                    val: if b {
                        1
                    } else {
                        0
                    },
                },
        ),
        InstrModel::PushVariable(v) => push_fresh(
            sb,
            st,
            |t: EntryModel| ActionModel::SetVariableToVariable { first: t, second: v },
        ),
        InstrModel::Operation(op) => {
            if st.working.len() < 2 {
                Err(InternalError::MalformedExpression)
            } else {
                let b = st.working.last();
                let rest = st.working.drop_last();
                match op_actions(sb, op, rest.last(), b) {
                    None => Err(InternalError::UnsupportedOperation),
                    Some(acts) => Ok(
                        FlushState {
                            actions: st.actions + acts,
                            free: st.free.push(b),
                            max: st.max,
                            working: rest,
                        },
                    ),
                }
            }
        },
        InstrModel::CallFunction(target, params) => {
            if st.working.len() < params.len() {
                Err(InternalError::MalformedExpression)
            } else {
                let n = st.working.len();
                let args = st.working.subrange(n - params.len(), n as int);
                let slot = target.with_separator(Separator::Dot);
                let called = FlushState {
                    actions: st.actions + call_arg_actions(sb, slot, params, args).push(
                        ActionModel::CallFunction { target },
                    ),
                    free: st.free + args,
                    max: st.max,
                    working: st.working.subrange(0, n - params.len()),
                };
                push_fresh(
                    sb,
                    called,
                    |t: EntryModel|
                        ActionModel::SetVariableToVariable {
                            first: t,
                            second: EntryModel { scoreboard: slot, player: "RET"@ },
                        },
                )
            }
        },
    }
}

/// The instructions run in order from `st`.
pub open spec fn flush_run(sb: LocModel, st: FlushState, instrs: Seq<InstrModel>) -> Result<
    FlushState,
    InternalError,
>
    decreases instrs.len(),
{
    if instrs.len() == 0 {
        Ok(st)
    } else {
        match flush_run(sb, st, instrs.drop_last()) {
            Err(e) => Err(e),
            Ok(s) => flush_step(sb, s, instrs.last()),
        }
    }
}

/// The end of a flush: the first temporary carries the result; a second one
/// left on the working stack is copied into it; every other is freed.
pub open spec fn finish_model(sb: LocModel, st: FlushState) -> Result<
    (FlushState, u64),
    InternalError,
> {
    if st.working.len() == 0 {
        Err(InternalError::MalformedExpression)
    } else {
        let target = st.working[0];
        let actions = if st.working.len() == 2 && st.working[1] != target {
            st.actions.push(
                ActionModel::SetVariableToVariable {
                    first: tmp_entry(sb, target),
                    second: tmp_entry(sb, st.working[1]),
                },
            )
        } else {
            st.actions
        };
        Ok(
            (
                FlushState {
                    actions,
                    free: st.free + st.working.subrange(1, st.working.len() as int),
                    max: st.max,
                    working: Seq::empty(),
                },
                target,
            ),
        )
    }
}

/// A stack of pending instructions over one register namespace, with the
/// temporaries it has handed out.
pub struct EvalModel {
    pub scoreboard: LocModel,
    pub instrs: Seq<InstrModel>,
    pub actions: Seq<ActionModel>,
    pub free: Seq<u64>,
    pub max: u64,
}

/// A flush of the whole stack: the flushed stack, with no instructions left,
/// and the temporary that holds the expression's value.
pub open spec fn flush_model(e: EvalModel) -> Result<(EvalModel, u64), InternalError> {
    let start = FlushState { actions: e.actions, free: e.free, max: e.max, working: Seq::empty() };
    match flush_run(e.scoreboard, start, e.instrs) {
        Err(err) => Err(err),
        Ok(st) => match finish_model(e.scoreboard, st) {
            Err(err) => Err(err),
            Ok((fin, t)) => Ok(
                (
                    EvalModel {
                        scoreboard: e.scoreboard,
                        instrs: Seq::empty(),
                        actions: fin.actions,
                        free: fin.free,
                        max: fin.max,
                    },
                    t,
                ),
            ),
        },
    }
}

/// Once a prefix of the instructions fails, the whole run fails the same way.
pub proof fn lemma_flush_run_stays_failed(
    sb: LocModel,
    st: FlushState,
    instrs: Seq<InstrModel>,
    i: int,
)
    requires
        0 <= i <= instrs.len(),
        flush_run(sb, st, instrs.subrange(0, i)) is Err,
    ensures
        flush_run(sb, st, instrs) == flush_run(sb, st, instrs.subrange(0, i)),
    decreases instrs.len(),
{
    if i < instrs.len() {
        assert(instrs.drop_last().subrange(0, i) =~= instrs.subrange(0, i));
        lemma_flush_run_stays_failed(sb, st, instrs.drop_last(), i);
    } else {
        assert(instrs.subrange(0, i) =~= instrs);
    }
}

pub proof fn lemma_actions_model_concat(x: Seq<Action>, y: Seq<Action>)
    ensures
        actions_model(x + y) == actions_model(x) + actions_model(y),
{
    assert(actions_model(x + y) =~= actions_model(x) + actions_model(y));
}

pub proof fn lemma_actions_model_push(x: Seq<Action>, a: Action)
    ensures
        actions_model(x.push(a)) == actions_model(x).push(a@),
{
    assert(actions_model(x.push(a)) =~= actions_model(x).push(a@));
}

/// The flush in progress.
struct Flush {
    actions: Vec<Action>,
    free: Vec<u64>,
    max: u64,
    working: Vec<u64>,
}

impl View for Flush {
    type V = FlushState;

    closed spec fn view(&self) -> FlushState {
        FlushState {
            actions: actions_model(self.actions@),
            free: self.free@,
            max: self.max,
            working: self.working@,
        }
    }
}

/// The name `TMP<k>`.
pub fn tmp_player(k: u64) -> (r: String)
    ensures
        r@ == tmp_name(k),
{
    let mut s = String::from_str("TMP");
    push_unsigned(&mut s, k);
    s
}

/// The temporary register `TMP<k>` of `sb`.
pub fn tmp_entry_of(sb: &ResourceLocation, k: u64) -> (r: ScoreboardEntry)
    ensures
        r@ == tmp_entry(sb@, k),
{
    ScoreboardEntry::new(sb.duplicate(), tmp_player(k))
}

/// The condition `score <entry> matches <range>`.
pub fn matches_text(e: &ScoreboardEntry, range: &str) -> (r: String)
    ensures
        r@ == matches_condition(e@, range@),
{
    let mut s = String::from_str("score ");
    e.write_to(&mut s);
    s.append(" matches ");
    s.append(range);
    assert(s@ =~= matches_condition(e@, range@));
    s
}

/// The in-place primitive of an arithmetic operator.
pub fn arith_action(op: Operation, first: ScoreboardEntry, second: ScoreboardEntry) -> (r: Option<
    Action,
>)
    ensures
        match arith_model(op, first@, second@) {
            Some(m) => r is Some && r->0@ == m,
            None => r is None,
        },
{
    match op {
        Operation::Add => Some(Action::AddVariables { first, second }),
        Operation::Subtract => Some(Action::SubtractVariables { first, second }),
        Operation::Multiply => Some(Action::MultiplyVariables { first, second }),
        Operation::Divide => Some(Action::DivideVariables { first, second }),
        Operation::Modulo => Some(Action::ModuloVariables { first, second }),
        _ => None,
    }
}

fn comparison_range_text(op: Operation) -> (r: Option<&'static str>)
    ensures
        match comparison_range(op) {
            Some(range) => r is Some && r->0@ == range,
            None => r is None,
        },
{
    match op {
        Operation::GreaterThan => Some("1.."),
        Operation::LessThan => Some("..-1"),
        Operation::GreaterThanOrEquals => Some("0.."),
        Operation::LessThanOrEquals => Some("..0"),
        Operation::CheckEquals => Some("0"),
        Operation::NotEquals => Some("0"),
        _ => None,
    }
}

fn op_actions_of(sb: &ResourceLocation, op: Operation, a: u64, b: u64) -> (r: Option<Vec<Action>>)
    ensures
        match op_actions(sb@, op, a, b) {
            Some(m) => r is Some && actions_model(r->0@) == m,
            None => r is None,
        },
{
    match arith_action(op, tmp_entry_of(sb, a), tmp_entry_of(sb, b)) {
        Some(act) => {
            let v = vec![act];
            assert(actions_model(v@) =~= op_actions(sb@, op, a, b)->0);
            Some(v)
        },
        None => match comparison_range_text(op) {
            Some(range) => {
                let ta = tmp_entry_of(sb, a);
                let set_true = Box::new(
                    Action::SetVariableToNumber { var: tmp_entry_of(sb, a), val: 1 },
                );
                let condition = matches_text(&ta, range);
                let guard = if op == Operation::NotEquals {
                    Action::ExecuteUnless { condition, then: set_true }
                } else {
                    Action::ExecuteIf { condition, then: set_true }
                };
                let v = vec![
                    Action::SubtractVariables { first: ta, second: tmp_entry_of(sb, b) },
                    guard,
                ];
                proof {
                    reveal_with_fuel(action_model, 2);
                }
                assert(actions_model(v@) =~= op_actions(sb@, op, a, b)->0);
                Some(v)
            },
            None => None,
        },
    }
}

impl Flush {
    fn emit(&mut self, a: Action)
        ensures
            final(self)@ == (FlushState { actions: old(self)@.actions.push(a@), ..old(self)@ }),
    {
        proof {
            lemma_actions_model_push(self.actions@, a);
        }
        self.actions.push(a);
    }

    fn reserve(&mut self) -> (r: Result<u64, InternalError>)
        ensures
            match reserve_model(old(self)@) {
                Ok((s, t)) => r == Ok::<u64, InternalError>(t) && final(self)@ == s,
                Err(e) => r == Err::<u64, InternalError>(e),
            },
    {
        match self.free.pop() {
            Some(t) => Ok(t),
            None => {
                if self.max == u64::MAX {
                    Err(InternalError::CounterOverflow)
                } else {
                    self.max = self.max + 1;
                    Ok(self.max)
                }
            },
        }
    }

    fn step(&mut self, sb: &ResourceLocation, instr: &EvaluationInstruction) -> (r: Result<
        (),
        InternalError,
    >)
        ensures
            match flush_step(sb@, old(self)@, instr@) {
                Ok(s) => r is Ok && final(self)@ == s,
                Err(e) => r == Err::<(), InternalError>(e),
            },
    {
        match instr {
            EvaluationInstruction::PushNumber(n) => {
                let t = match self.reserve() {
                    Ok(t) => t,
                    Err(e) => {
                        return Err(e);
                    },
                };
                self.emit(Action::SetVariableToNumber { var: tmp_entry_of(sb, t), val: *n });
                self.working.push(t);
                Ok(())
            },
            EvaluationInstruction::PushBool(b) => {
                let t = match self.reserve() {
                    Ok(t) => t,
                    Err(e) => {
                        return Err(e);
                    },
                };
                let val: i32 = if *b {
                    1
                } else {
                    0
                };
                self.emit(Action::SetVariableToNumber { var: tmp_entry_of(sb, t), val });
                self.working.push(t);
                Ok(())
            },
            EvaluationInstruction::PushVariable(v) => {
                let t = match self.reserve() {
                    Ok(t) => t,
                    Err(e) => {
                        return Err(e);
                    },
                };
                self.emit(
                    Action::SetVariableToVariable { first: tmp_entry_of(sb, t), second: v.duplicate() },
                );
                self.working.push(t);
                Ok(())
            },
            EvaluationInstruction::Operation(op) => {
                if self.working.len() < 2 {
                    return Err(InternalError::MalformedExpression);
                }
                let b = self.working.pop().unwrap();
                let a = self.working[self.working.len() - 1];
                match op_actions_of(sb, *op, a, b) {
                    None => Err(InternalError::UnsupportedOperation),
                    Some(mut acts) => {
                        proof {
                            lemma_actions_model_concat(self.actions@, acts@);
                        }
                        self.actions.append(&mut acts);
                        self.free.push(b);
                        Ok(())
                    },
                }
            },
            EvaluationInstruction::CallFunction(target, params) => {
                let k = params.len();
                if self.working.len() < k {
                    return Err(InternalError::MalformedExpression);
                }
                let ghost pre = self@;
                let args = self.working.split_off(self.working.len() - k);
                let slot = target.with_separator(Separator::Dot);
                let ghost pm = strings_model(params@);
                let mut j: usize = 0;
                while j < k
                    invariant
                        k == params@.len(),
                        pre.working.len() >= k,
                        pm == strings_model(params@),
                        args@.len() == k,
                        slot@ == target@.with_separator(Separator::Dot),
                        self@.actions == pre.actions + Seq::new(
                            j as nat,
                            |i: int| call_arg_action(sb@, slot@, pm[i], args@[i]),
                        ),
                        self@.free == pre.free,
                        self@.max == pre.max,
                        self@.working == pre.working.subrange(0, pre.working.len() - k),
                        0 <= j <= k,
                    decreases k - j,
                {
                    let ghost before = self@.actions;
                    let param = params[j].clone();
                    assert(param@ == pm[j as int]);
                    self.emit(
                        Action::SetVariableToVariable {
                            first: ScoreboardEntry::new(slot.duplicate(), param),
                            second: tmp_entry_of(sb, args[j]),
                        },
                    );
                    assert(self@.actions == before.push(
                        call_arg_action(sb@, slot@, pm[j as int], args@[j as int]),
                    ));
                    assert(self@.actions =~= pre.actions + Seq::new(
                        (j + 1) as nat,
                        |i: int| call_arg_action(sb@, slot@, pm[i], args@[i]),
                    ));
                    j = j + 1;
                }
                self.emit(Action::CallFunction { target: target.duplicate() });
                let ghost after_call = self@;
                let mut j: usize = 0;
                while j < k
                    invariant
                        args@.len() == k,
                        self@.actions == after_call.actions,
                        self@.max == after_call.max,
                        self@.working == after_call.working,
                        self@.free == pre.free + args@.subrange(0, j as int),
                        0 <= j <= k,
                    decreases k - j,
                {
                    self.free.push(args[j]);
                    assert(self@.free =~= pre.free + args@.subrange(0, j + 1));
                    j = j + 1;
                }
                assert(args@.subrange(0, k as int) =~= args@);
                assert(Seq::new(k as nat, |i: int| call_arg_action(sb@, slot@, pm[i], args@[i]))
                    =~= call_arg_actions(sb@, slot@, pm, args@));
                let ghost called = FlushState {
                    actions: pre.actions + call_arg_actions(sb@, slot@, pm, args@).push(
                        ActionModel::CallFunction { target: target@ },
                    ),
                    free: pre.free + args@,
                    max: pre.max,
                    working: pre.working.subrange(0, pre.working.len() - k),
                };
                assert(self@.actions =~= called.actions);
                assert(self@ == called);
                let t = match self.reserve() {
                    Ok(t) => t,
                    Err(e) => {
                        return Err(e);
                    },
                };
                self.emit(
                    Action::SetVariableToVariable {
                        first: tmp_entry_of(sb, t),
                        second: ScoreboardEntry::new(slot, String::from_str("RET")),
                    },
                );
                self.working.push(t);
                Ok(())
            },
        }
    }

    fn finish(&mut self, sb: &ResourceLocation) -> (r: Result<u64, InternalError>)
        ensures
            match finish_model(sb@, old(self)@) {
                Ok((s, t)) => r == Ok::<u64, InternalError>(t) && final(self)@ == s,
                Err(e) => r == Err::<u64, InternalError>(e),
            },
    {
        let n = self.working.len();
        if n == 0 {
            return Err(InternalError::MalformedExpression);
        }
        let target = self.working[0];
        if n == 2 && self.working[1] != target {
            self.emit(
                Action::SetVariableToVariable {
                    first: tmp_entry_of(sb, target),
                    second: tmp_entry_of(sb, self.working[1]),
                },
            );
        }
        let ghost pre = self@;
        assert(pre.free =~= pre.free + pre.working.subrange(1, 1));
        let mut j: usize = 1;
        while j < n
            invariant
                n == self.working@.len(),
                self.working@ == pre.working,
                self@.actions == pre.actions,
                self@.max == pre.max,
                self@.free == pre.free + pre.working.subrange(1, j as int),
                1 <= j <= n,
            decreases n - j,
        {
            self.free.push(self.working[j]);
            assert(self@.free =~= pre.free + pre.working.subrange(1, j + 1));
            j = j + 1;
        }
        self.working.clear();
        assert(self@.working =~= Seq::<u64>::empty());
        Ok(target)
    }
}

/// A stack of pending instructions for one expression, lowered to actions
/// over temporaries `TMP<k>` of one register namespace.
pub struct EvaluationStack {
    pub instructions: Vec<EvaluationInstruction>,
    pub actions: Vec<Action>,
    pub available_tmps: Vec<u64>,
    pub max_tmps: u64,
    pub scoreboard: ResourceLocation,
}

impl View for EvaluationStack {
    type V = EvalModel;

    open spec fn view(&self) -> EvalModel {
        EvalModel {
            scoreboard: self.scoreboard@,
            instrs: instrs_model(self.instructions@),
            actions: actions_model(self.actions@),
            free: self.available_tmps@,
            max: self.max_tmps,
        }
    }
}

impl EvaluationStack {
    /// An empty stack whose temporaries start above `min_tmp`.
    pub fn new(scoreboard: ResourceLocation, min_tmp: u64) -> (r: Self)
        ensures
            r@ == (EvalModel {
                scoreboard: scoreboard@,
                instrs: Seq::empty(),
                actions: Seq::empty(),
                free: Seq::empty(),
                max: min_tmp,
            }),
    {
        let r = EvaluationStack {
            instructions: Vec::new(),
            actions: Vec::new(),
            available_tmps: Vec::new(),
            max_tmps: min_tmp,
            scoreboard,
        };
        assert(r@.instrs =~= Seq::empty());
        assert(r@.actions =~= Seq::empty());
        r
    }

    pub fn push_instruction(&mut self, instr: EvaluationInstruction)
        ensures
            final(self)@ == (EvalModel { instrs: old(self)@.instrs.push(instr@), ..old(self)@ }),
    {
        self.instructions.push(instr);
        assert(instrs_model(self.instructions@) =~= instrs_model(old(self).instructions@).push(
            instr@,
        ));
    }

    /// The temporary register `TMP<num>` of this stack's namespace.
    pub fn get_tmp(&self, num: u64) -> (r: ScoreboardEntry)
        ensures
            r@ == tmp_entry(self@.scoreboard, num),
    {
        tmp_entry_of(&self.scoreboard, num)
    }

    /// Lowers every pending instruction to actions; returns the stack, with
    /// no instruction left, and the temporary that holds the value.
    pub fn flush(self) -> (r: Result<(EvaluationStack, u64), InternalError>)
        ensures
            match flush_model(self@) {
                Ok((m, t)) => match r {
                    Ok((s, t2)) => s@ == m && t2 == t,
                    Err(_) => false,
                },
                Err(e) => r is Err && r->Err_0 == e,
            },
    {
        let ghost m = self@;
        let EvaluationStack { instructions, actions, available_tmps, max_tmps, scoreboard } = self;
        let mut fl = Flush { actions, free: available_tmps, max: max_tmps, working: Vec::new() };
        let ghost start = FlushState {
            actions: m.actions,
            free: m.free,
            max: m.max,
            working: Seq::empty(),
        };
        assert(fl@ =~= start);
        let n = instructions.len();
        let mut i: usize = 0;
        while i < n
            invariant
                n == instructions@.len(),
                m == self@,
                m.instrs == instrs_model(instructions@),
                m.scoreboard == scoreboard@,
                start == (FlushState {
                    actions: m.actions,
                    free: m.free,
                    max: m.max,
                    working: Seq::empty(),
                }),
                0 <= i <= n,
                flush_run(m.scoreboard, start, m.instrs.subrange(0, i as int)) == Ok::<
                    FlushState,
                    InternalError,
                >(fl@),
            decreases n - i,
        {
            let ghost before = fl@;
            let r = fl.step(&scoreboard, &instructions[i]);
            assert(m.instrs.subrange(0, i + 1).drop_last() =~= m.instrs.subrange(0, i as int));
            assert(m.instrs.subrange(0, i + 1).last() == instructions@[i as int]@);
            assert(flush_run(m.scoreboard, start, m.instrs.subrange(0, i + 1)) == flush_step(
                m.scoreboard,
                before,
                instructions@[i as int]@,
            ));
            match r {
                Err(e) => {
                    proof {
                        lemma_flush_run_stays_failed(m.scoreboard, start, m.instrs, i + 1);
                    }
                    return Err(e);
                },
                Ok(()) => {},
            }
            i = i + 1;
        }
        assert(m.instrs.subrange(0, n as int) =~= m.instrs);
        let t = match fl.finish(&scoreboard) {
            Ok(t) => t,
            Err(e) => {
                return Err(e);
            },
        };
        let out = EvaluationStack {
            instructions: Vec::new(),
            actions: fl.actions,
            available_tmps: fl.free,
            max_tmps: fl.max,
            scoreboard,
        };
        assert(out@.instrs =~= Seq::empty());
        Ok((out, t))
    }
}

} // verus!

verus! {

/// The temporaries of a flush in progress: those on the working stack and
/// those free, with their multiplicities.
pub open spec fn pool(st: FlushState) -> Multiset<u64> {
    st.working.to_multiset().add(st.free.to_multiset())
}

/// Each temporary above `floor` handed out so far is either on the working
/// stack or free, exactly once; no other index is.
pub open spec fn accounted(st: FlushState, floor: u64) -> bool {
    &&& floor <= st.max
    &&& forall|x: u64| #[trigger]
        pool(st).count(x) == if floor < x <= st.max {
            1nat
        } else {
            0nat
        }
}

proof fn lemma_push_fresh_accounted(
    sb: LocModel,
    st: FlushState,
    set: spec_fn(EntryModel) -> ActionModel,
    floor: u64,
)
    requires
        accounted(st, floor),
        push_fresh(sb, st, set) is Ok,
    ensures
        accounted(push_fresh(sb, st, set)->Ok_0, floor),
{
    broadcast use vstd::seq_lib::group_to_multiset_ensures, vstd::seq_lib::lemma_multiset_commutative;

    let r = push_fresh(sb, st, set)->Ok_0;
    if st.free.len() > 0 {
        let l = st.free.last();
        let fd = st.free.drop_last();
        assert(st.free =~= fd.push(l));
        assert(r.working == st.working.push(l));
        assert(pool(r) =~= pool(st));
    } else {
        let t = (st.max + 1) as u64;
        assert(r.working == st.working.push(t));
        assert(pool(r) =~= pool(st).insert(t));
        assert(pool(st).count(t) == 0);
    }
}

proof fn lemma_step_accounted(sb: LocModel, st: FlushState, instr: InstrModel, floor: u64)
    requires
        accounted(st, floor),
        flush_step(sb, st, instr) is Ok,
    ensures
        accounted(flush_step(sb, st, instr)->Ok_0, floor),
{
    broadcast use vstd::seq_lib::group_to_multiset_ensures, vstd::seq_lib::lemma_multiset_commutative;

    match instr {
        InstrModel::PushNumber(n) => {
            lemma_push_fresh_accounted(
                sb,
                st,
                |t: EntryModel| ActionModel::SetVariableToNumber { var: t, val: n },
                floor,
            );
        },
        InstrModel::PushBool(b) => {
            lemma_push_fresh_accounted(
                sb,
                st,
                |t: EntryModel|
                    ActionModel::SetVariableToNumber {
                        var: t,
                        val: if b {
                            1
                        } else {
                            0
                        },
                    },
                floor,
            );
        },
        InstrModel::PushVariable(v) => {
            lemma_push_fresh_accounted(
                sb,
                st,
                |t: EntryModel| ActionModel::SetVariableToVariable { first: t, second: v },
                floor,
            );
        },
        InstrModel::Operation(op) => {
            let r = flush_step(sb, st, instr)->Ok_0;
            let b = st.working.last();
            assert(st.working =~= st.working.drop_last().push(b));
            assert(pool(r) =~= pool(st));
        },
        InstrModel::CallFunction(target, params) => {
            let n = st.working.len();
            let k = params.len();
            let args = st.working.subrange(n - k, n as int);
            let rest = st.working.subrange(0, n - k);
            let slot = target.with_separator(Separator::Dot);
            let called = FlushState {
                actions: st.actions + call_arg_actions(sb, slot, params, args).push(
                    ActionModel::CallFunction { target },
                ),
                free: st.free + args,
                max: st.max,
                working: rest,
            };
            assert(st.working =~= rest + args);
            assert(pool(called) =~= pool(st));
            lemma_push_fresh_accounted(
                sb,
                called,
                |t: EntryModel|
                    ActionModel::SetVariableToVariable {
                        first: t,
                        second: EntryModel { scoreboard: slot, player: "RET"@ },
                    },
                floor,
            );
        },
    }
}

proof fn lemma_run_accounted(sb: LocModel, st: FlushState, instrs: Seq<InstrModel>, floor: u64)
    requires
        accounted(st, floor),
        flush_run(sb, st, instrs) is Ok,
    ensures
        accounted(flush_run(sb, st, instrs)->Ok_0, floor),
    decreases instrs.len(),
{
    if instrs.len() > 0 {
        lemma_run_accounted(sb, st, instrs.drop_last(), floor);
        lemma_step_accounted(sb, flush_run(sb, st, instrs.drop_last())->Ok_0, instrs.last(), floor);
    }
}

/// After a flush of a stack with no free temporary, the free list holds
/// each temporary that the flush handed out, once, except the one that
/// carries the value.
pub proof fn lemma_flush_frees_all_but_result(e: EvalModel)
    requires
        e.free.len() == 0,
        flush_model(e) is Ok,
    ensures
        ({
            let (m, t) = flush_model(e)->Ok_0;
            &&& e.max < t <= m.max
            &&& forall|x: u64| #[trigger]
                m.free.to_multiset().count(x) == if e.max < x <= m.max && x != t {
                    1nat
                } else {
                    0nat
                }
        }),
{
    broadcast use vstd::seq_lib::group_to_multiset_ensures, vstd::seq_lib::lemma_multiset_commutative;

    let start = FlushState { actions: e.actions, free: e.free, max: e.max, working: Seq::empty() };
    assert(pool(start) =~= Multiset::empty());
    lemma_run_accounted(e.scoreboard, start, e.instrs, e.max);
    let st = flush_run(e.scoreboard, start, e.instrs)->Ok_0;
    let t = st.working[0];
    let tail = st.working.subrange(1, st.working.len() as int);
    assert(st.working =~= seq![t] + tail);
    assert(seq![t] =~= Seq::<u64>::empty().push(t));
    let (m, t2) = flush_model(e)->Ok_0;
    assert(t2 == t);
    assert(m.free == st.free + tail);
    assert(pool(st) =~= m.free.to_multiset().insert(t));
    assert(pool(st).count(t) > 0);
    assert forall|x: u64| #[trigger]
        m.free.to_multiset().count(x) == if e.max < x <= m.max && x != t {
            1nat
        } else {
            0nat
        } by {
        assert(pool(st).count(x) == m.free.to_multiset().insert(t).count(x));
    }
}

} // verus!
