use vstd::prelude::*;

use crate::action::ActionModel;
use crate::ast::{find_signature, Operation, ParserNode, SigModel};
use crate::error::InternalError;
use crate::eval::{arith_model, flush_model, matches_condition, tmp_entry, EvalModel, InstrModel};
use crate::location::{EntryModel, LocModel, Separator};
use crate::text::digits;

verus! {

/// A target function: its register namespace and its commands so far.
pub struct FnModel {
    pub name: Seq<char>,
    pub scoreboard: LocModel,
    pub actions: Seq<ActionModel>,
    pub anonymous: bool,
    pub returns_value: bool,
    /// How many anonymous children it has had.
    pub children: u64,
}

/// The state of the lowering driver.
pub struct GenModel {
    /// Functions being built; the last one receives emitted commands.
    pub unfinished: Seq<FnModel>,
    /// Completed functions, one per name.
    pub ready: Seq<FnModel>,
    /// Open expression contexts; the last one receives instructions.
    pub stacks: Seq<EvalModel>,
    pub sigs: Seq<SigModel>,
    pub namespace: Seq<char>,
    pub loop_depth: u64,
    /// A `return` was lowered and not yet left behind by its function.
    pub prop_return: bool,
    /// A `break` was lowered and its loop is not yet closed.
    pub prop_break: bool,
}

/// `i` is the first index of a function named `name`.
pub open spec fn first_function(fs: Seq<FnModel>, name: Seq<char>, i: int) -> bool {
    &&& 0 <= i < fs.len()
    &&& fs[i].name == name
    &&& forall|j: int| 0 <= j < i ==> fs[j].name != name
}

pub open spec fn find_function(fs: Seq<FnModel>, name: Seq<char>) -> Option<int> {
    if exists|i: int| first_function(fs, name, i) {
        Some(choose|i: int| first_function(fs, name, i))
    } else {
        None
    }
}

/// Adds a completed function, in place of one of the same name.
pub open spec fn insert_ready(ready: Seq<FnModel>, f: FnModel) -> Seq<FnModel> {
    match find_function(ready, f.name) {
        Some(i) => ready.update(i, f),
        None => ready.push(f),
    }
}

pub open spec fn current(g: GenModel) -> FnModel {
    g.unfinished.last()
}

pub open spec fn with_current(g: GenModel, f: FnModel) -> GenModel {
    GenModel { unfinished: g.unfinished.drop_last().push(f), ..g }
}

/// Appends a command to the current function.
pub open spec fn emit(g: GenModel, a: ActionModel) -> GenModel {
    with_current(g, FnModel { actions: current(g).actions.push(a), ..current(g) })
}

/// A register of the current function's namespace.
pub open spec fn local(g: GenModel, name: Seq<char>) -> EntryModel {
    EntryModel { scoreboard: current(g).scoreboard, player: name }
}

pub open spec fn tmp_of(g: GenModel, t: u64) -> EntryModel {
    tmp_entry(current(g).scoreboard, t)
}

/// The location of the function at `path` in the common namespace.
pub open spec fn fn_location(g: GenModel, path: Seq<char>) -> LocModel {
    LocModel { namespace: g.namespace, path, separator: Separator::Colon }
}

/// `BREAKFLAG<loop depth>`.
pub open spec fn break_flag(g: GenModel) -> EntryModel {
    local(g, "BREAKFLAG"@ + digits(g.loop_depth as nat))
}

/// `execute if score <flag> matches 1 run return`.
pub open spec fn return_guard(flag: EntryModel) -> ActionModel {
    ActionModel::ExecuteIf {
        condition: matches_condition(flag, "1"@),
        then: Box::new(ActionModel::Return),
    }
}

/// `execute if score <flag> matches 1 run function <target>`.
pub open spec fn call_if(flag: EntryModel, target: LocModel) -> ActionModel {
    ActionModel::ExecuteIf {
        condition: matches_condition(flag, "1"@),
        then: Box::new(ActionModel::CallFunction { target }),
    }
}

/// `execute unless score <flag> matches 1 run function <target>`.
pub open spec fn call_unless(flag: EntryModel, target: LocModel) -> ActionModel {
    ActionModel::ExecuteUnless {
        condition: matches_condition(flag, "1"@),
        then: Box::new(ActionModel::CallFunction { target }),
    }
}

/// Guards that forward a pending `return` and a pending `break` to the
/// current function's caller.
pub open spec fn account_for_jumps(g: GenModel) -> GenModel {
    let g1 = if g.prop_return {
        emit(g, return_guard(local(g, "RETFLAG"@)))
    } else {
        g
    };
    if g1.prop_break {
        emit(g1, return_guard(break_flag(g1)))
    } else {
        g1
    }
}

/// Opens an expression context on the current function's namespace.
pub open spec fn begin(g: GenModel) -> GenModel {
    GenModel {
        stacks: g.stacks.push(
            EvalModel {
                scoreboard: current(g).scoreboard,
                instrs: Seq::empty(),
                actions: Seq::empty(),
                free: Seq::empty(),
                max: 0,
            },
        ),
        ..g
    }
}

/// Appends an instruction to the open expression context.
pub open spec fn push_instr(g: GenModel, i: InstrModel) -> Result<GenModel, InternalError> {
    if g.stacks.len() == 0 {
        Err(InternalError::NoOpenExpression)
    } else {
        let top = g.stacks.last();
        Ok(
            GenModel {
                stacks: g.stacks.drop_last().push(EvalModel { instrs: top.instrs.push(i), ..top }),
                ..g
            },
        )
    }
}

/// Closes the open expression context: its commands go to the current
/// function, and the temporary that holds the value comes back.
pub open spec fn end(g: GenModel) -> Result<(GenModel, u64), InternalError> {
    if g.stacks.len() == 0 {
        Err(InternalError::NoOpenExpression)
    } else {
        match flush_model(g.stacks.last()) {
            Err(e) => Err(e),
            Ok((fl, t)) => {
                let g1 = GenModel { stacks: g.stacks.drop_last(), ..g };
                Ok(
                    (
                        with_current(
                            g1,
                            FnModel { actions: current(g1).actions + fl.actions, ..current(g1) },
                        ),
                        t,
                    ),
                )
            },
        }
    }
}

/// `<parent>/<k>`: the name of a parent's `k`-th anonymous child.
pub open spec fn child_name(parent: FnModel) -> Seq<char> {
    parent.name + "/"@ + digits(parent.children as nat)
}

/// Starts a fresh anonymous child of the current function, sharing its
/// namespace.
pub open spec fn open_child(g: GenModel) -> Result<GenModel, InternalError> {
    let parent = current(g);
    if parent.children == u64::MAX {
        Err(InternalError::CounterOverflow)
    } else {
        let child = FnModel {
            name: child_name(parent),
            scoreboard: parent.scoreboard,
            actions: Seq::empty(),
            anonymous: true,
            returns_value: false,
            children: 0,
        };
        Ok(
            GenModel {
                unfinished: g.unfinished.drop_last().push(
                    FnModel { children: (parent.children + 1) as u64, ..parent },
                ).push(child),
                ..g
            },
        )
    }
}

/// Moves the current function to the completed ones.
pub open spec fn close_function(g: GenModel) -> GenModel {
    GenModel {
        unfinished: g.unfinished.drop_last(),
        ready: insert_ready(g.ready, current(g)),
        ..g
    }
}

/// Lowers `expr` in a fresh expression context; the temporary that holds
/// its value comes back.
pub open spec fn lower_expr(g: GenModel, expr: ParserNode) -> Result<(GenModel, u64), InternalError>
    decreases expr, 4int,
{
    match lower(begin(g), expr) {
        Err(e) => Err(e),
        Ok(g1) => end(g1),
    }
}

/// `x = e`, and `x op= e` where `op` is given.
pub open spec fn lower_assignment(
    g: GenModel,
    name: Seq<char>,
    expr: ParserNode,
    op: Option<Operation>,
) -> Result<GenModel, InternalError>
    decreases expr, 5int,
{
    if g.unfinished.len() == 0 {
        Err(InternalError::NoCurrentFunction)
    } else {
        match lower_expr(g, expr) {
            Err(e) => Err(e),
            Ok((g1, t)) => match op {
                None => Ok(
                    emit(
                        g1,
                        ActionModel::SetVariableToVariable {
                            first: local(g1, name),
                            second: tmp_of(g1, t),
                        },
                    ),
                ),
                Some(op) => match arith_model(op, local(g1, name), tmp_of(g1, t)) {
                    Some(a) => Ok(emit(g1, a)),
                    None => Err(InternalError::UnsupportedOperation),
                },
            },
        }
    }
}

/// Lowers the nodes in order.
pub open spec fn lower_seq(g: GenModel, nodes: Seq<ParserNode>) -> Result<GenModel, InternalError>
    decreases nodes, 0int,
{
    if nodes.len() == 0 {
        Ok(g)
    } else {
        match lower_seq(g, nodes.subrange(0, nodes.len() - 1)) {
            Err(e) => Err(e),
            Ok(g1) => lower(g1, nodes[nodes.len() - 1]),
        }
    }
}

/// A user function: a fresh function in its own namespace; the return flag
/// is cleared first where the function returns a value.
pub open spec fn lower_function(g: GenModel, name: Seq<char>, body: ParserNode) -> Result<
    GenModel,
    InternalError,
>
    decreases body, 4int,
{
    match find_signature(g.sigs, name) {
        None => Err(InternalError::UnknownFunction),
        Some(i) => {
            let f = FnModel {
                name,
                scoreboard: LocModel { namespace: g.namespace, path: name, separator: Separator::Dot },
                actions: Seq::empty(),
                anonymous: false,
                returns_value: g.sigs[i].returns_value,
                children: 0,
            };
            let g1 = GenModel { unfinished: g.unfinished.push(f), ..g };
            let g2 = if g.sigs[i].returns_value {
                emit(g1, ActionModel::SetVariableToNumber { var: local(g1, "RETFLAG"@), val: 0 })
            } else {
                g1
            };
            match lower(g2, body) {
                Err(e) => Err(e),
                Ok(g3) => Ok(
                    GenModel { prop_return: false, prop_break: false, ..close_function(g3) },
                ),
            }
        },
    }
}

/// A call: the arguments in order, then the call instruction; in statement
/// position the call gets an expression context of its own.
pub open spec fn lower_call(g: GenModel, name: Seq<char>, args: Seq<ParserNode>) -> Result<
    GenModel,
    InternalError,
>
    decreases args, 1int,
{
    let opened = g.stacks.len() == 0;
    if opened && g.unfinished.len() == 0 {
        Err(InternalError::NoCurrentFunction)
    } else {
        let g1 = if opened {
            begin(g)
        } else {
            g
        };
        match lower_seq(g1, args) {
            Err(e) => Err(e),
            Ok(g2) => match find_signature(g2.sigs, name) {
                None => Err(InternalError::UnknownFunction),
                Some(i) => match push_instr(
                    g2,
                    InstrModel::CallFunction(fn_location(g2, name), g2.sigs[i].params),
                ) {
                    Err(e) => Err(e),
                    Ok(g3) => if opened {
                        match end(g3) {
                            Err(e) => Err(e),
                            Ok((g4, _t)) => Ok(g4),
                        }
                    } else {
                        Ok(g3)
                    },
                },
            },
        }
    }
}

/// `return e;`: the value into `RET`, then `RETFLAG := 1` and `return`.
pub open spec fn lower_return(g: GenModel, expr: Option<Box<ParserNode>>) -> Result<
    GenModel,
    InternalError,
>
    decreases expr, 5int,
{
    if g.unfinished.len() == 0 {
        Err(InternalError::NoCurrentFunction)
    } else {
        let g1 = match expr {
            None => Ok(g),
            Some(e) => match lower_expr(g, *e) {
                Err(err) => Err(err),
                Ok((g0, t)) => Ok(
                    emit(
                        g0,
                        ActionModel::SetVariableToVariable {
                            first: local(g0, "RET"@),
                            second: tmp_of(g0, t),
                        },
                    ),
                ),
            },
        };
        match g1 {
            Err(err) => Err(err),
            Ok(g1) => {
                let g2 = emit(
                    g1,
                    ActionModel::SetVariableToNumber { var: local(g1, "RETFLAG"@), val: 1 },
                );
                Ok(GenModel { prop_return: true, ..emit(g2, ActionModel::Return) })
            },
        }
    }
}

/// Lowers `body` into a fresh anonymous child of the current function and
/// hands back the child's name.
pub open spec fn lower_child(g: GenModel, body: ParserNode) -> Result<
    (GenModel, Seq<char>),
    InternalError,
>
    decreases body, 4int,
{
    let name = child_name(current(g));
    match open_child(g) {
        Err(e) => Err(e),
        Ok(g1) => match lower(g1, body) {
            Err(e) => Err(e),
            Ok(g2) => Ok((close_function(g2), name)),
        },
    }
}

/// `if (c) a else b`: each arm in an anonymous child called on the value of
/// `c`, each call followed by the guards of pending jumps.
pub open spec fn lower_if(g: GenModel, node: ParserNode) -> Result<GenModel, InternalError>
    decreases node, 2int,
{
    if !(node is If) {
        Ok(g)
    } else if g.unfinished.len() == 0 {
        Err(InternalError::NoCurrentFunction)
    } else {
        let cond = *node->If_cond;
        let body = *node->If_body;
        let else_body = node->If_else_body;
        match lower_expr(g, cond) {
            Err(e) => Err(e),
            Ok((g1, t)) => match lower_child(g1, body) {
                Err(e) => Err(e),
                Ok((g2, then_name)) => {
                    let flag = tmp_of(g2, t);
                    let g3 = account_for_jumps(emit(g2, call_if(flag, fn_location(g2, then_name))));
                    match else_body {
                        None => Ok(g3),
                        Some(eb) => match lower_child(g3, *eb) {
                            Err(e) => Err(e),
                            Ok((g4, else_name)) => Ok(
                                account_for_jumps(
                                    emit(g4, call_unless(flag, fn_location(g4, else_name))),
                                ),
                            ),
                        },
                    }
                },
            },
        }
    }
}

/// The anonymous child that holds a loop: its body, its step and a test of
/// its condition that calls the child again; hands back the child's name.
pub open spec fn lower_loop_child(g: GenModel, node: ParserNode) -> Result<
    (GenModel, Seq<char>),
    InternalError,
>
    decreases node, 1int,
{
    if !(node is For) {
        Ok((g, Seq::empty()))
    } else {
        let cond = *node->For_cond;
        let step = *node->For_step;
        let body = *node->For_body;
        let name = child_name(current(g));
        match open_child(g) {
            Err(e) => Err(e),
            Ok(g1) => match lower(g1, body) {
                Err(e) => Err(e),
                Ok(g2) => match lower(g2, step) {
                    Err(e) => Err(e),
                    Ok(g3) => match lower_expr(g3, cond) {
                        Err(e) => Err(e),
                        Ok((g4, t)) => Ok(
                            (
                                close_function(
                                    emit(g4, call_if(tmp_of(g4, t), fn_location(g4, name))),
                                ),
                                name,
                            ),
                        ),
                    },
                },
            },
        }
    }
}

/// `for (init; cond; step) body`: `init`, then the loop's anonymous child,
/// then a test of `cond` in the enclosing function that calls the child once.
pub open spec fn lower_for(g: GenModel, node: ParserNode) -> Result<GenModel, InternalError>
    decreases node, 2int,
{
    if !(node is For) {
        Ok(g)
    } else if g.unfinished.len() == 0 {
        Err(InternalError::NoCurrentFunction)
    } else if g.loop_depth == u64::MAX {
        Err(InternalError::CounterOverflow)
    } else {
        let init = *node->For_init;
        let cond = *node->For_cond;
        let g1 = GenModel { loop_depth: (g.loop_depth + 1) as u64, ..g };
        match lower(g1, init) {
            Err(e) => Err(e),
            Ok(g2) => match lower_loop_child(g2, node) {
                Err(e) => Err(e),
                Ok((g3, name)) => match lower_expr(g3, cond) {
                    Err(e) => Err(e),
                    Ok((g4, t)) => {
                        let g5 = emit(g4, call_if(tmp_of(g4, t), fn_location(g4, name)));
                        let g6 = account_for_jumps(GenModel { prop_break: false, ..g5 });
                        Ok(GenModel { loop_depth: (g6.loop_depth - 1) as u64, ..g6 })
                    },
                },
            },
        }
    }
}

/// `break;`: `BREAKFLAG<depth> := 1` and `return`.
pub open spec fn lower_break(g: GenModel) -> Result<GenModel, InternalError> {
    if g.unfinished.len() == 0 {
        Err(InternalError::NoCurrentFunction)
    } else {
        let g1 = emit(g, ActionModel::SetVariableToNumber { var: break_flag(g), val: 1 });
        Ok(GenModel { prop_break: true, ..emit(g1, ActionModel::Return) })
    }
}

/// The effect of lowering one node.
pub open spec fn lower(g: GenModel, node: ParserNode) -> Result<GenModel, InternalError>
    decreases node, 3int,
{
    match node {
        ParserNode::NumberLiteral(n) => push_instr(g, InstrModel::PushNumber(n as int)),
        ParserNode::BoolLiteral(b) => push_instr(g, InstrModel::PushBool(b)),
        ParserNode::Identifier(x) => if g.unfinished.len() == 0 {
            Err(InternalError::NoCurrentFunction)
        } else {
            push_instr(g, InstrModel::PushVariable(local(g, x@)))
        },
        ParserNode::Operation(lhs, rhs, op) => match lower(g, *lhs) {
            Err(e) => Err(e),
            Ok(g1) => match lower(g1, *rhs) {
                Err(e) => Err(e),
                Ok(g2) => push_instr(g2, InstrModel::Operation(op)),
            },
        },
        ParserNode::OpEquals { name, expr, op } => lower_assignment(g, name@, *expr, Some(op)),
        ParserNode::VariableDeclaration { name, expr } => lower_assignment(g, name@, *expr, None),
        ParserNode::VariableAssignment { name, expr } => lower_assignment(g, name@, *expr, None),
        ParserNode::Program(nodes) => lower_seq(g, nodes@),
        ParserNode::Block(nodes) => lower_seq(g, nodes@),
        ParserNode::FunctionDeclaration { name, args, body } => lower_function(g, name@, *body),
        ParserNode::FunctionCall { name, args } => lower_call(g, name@, args@),
        ParserNode::Return(expr) => lower_return(g, expr),
        ParserNode::TypedIdentifier { .. } => Ok(g),
        ParserNode::StructDefinition { .. } => Ok(g),
        ParserNode::Unary(expr, op) => match op {
            Operation::Negate => match lower(g, *expr) {
                Err(e) => Err(e),
                Ok(g1) => match push_instr(g1, InstrModel::PushNumber(-1)) {
                    Err(e) => Err(e),
                    Ok(g2) => push_instr(g2, InstrModel::Operation(Operation::Multiply)),
                },
            },
            Operation::Not => match push_instr(g, InstrModel::PushNumber(1)) {
                Err(e) => Err(e),
                Ok(g1) => match lower(g1, *expr) {
                    Err(e) => Err(e),
                    Ok(g2) => push_instr(g2, InstrModel::Operation(Operation::Subtract)),
                },
            },
            _ => Err(InternalError::UnsupportedOperation),
        },
        ParserNode::If { .. } => lower_if(g, node),
        ParserNode::For { .. } => lower_for(g, node),
        ParserNode::Break => lower_break(g),
        ParserNode::CommandLiteral(command) => if g.unfinished.len() == 0 {
            Err(InternalError::NoCurrentFunction)
        } else {
            Ok(emit(g, ActionModel::Direct { command: command@ }))
        },
    }
}

} // verus!

verus! {

/// `<namespace>.<name>`: the register namespace of a function.
pub open spec fn objective_name(namespace: Seq<char>, name: Seq<char>) -> Seq<char> {
    LocModel { namespace, path: name, separator: Separator::Dot }.text()
}

/// One `CreateStorage` for each named (not anonymous) function, in order.
pub open spec fn storage_actions(ready: Seq<FnModel>, namespace: Seq<char>) -> Seq<ActionModel>
    decreases ready.len(),
{
    if ready.len() == 0 {
        Seq::empty()
    } else {
        let rest = storage_actions(ready.drop_last(), namespace);
        let f = ready.last();
        if f.anonymous {
            rest
        } else {
            rest.push(ActionModel::CreateStorage { name: objective_name(namespace, f.name) })
        }
    }
}

/// The entry function: it declares every named function's namespace and
/// then calls `main`.
pub open spec fn bootstrap(ready: Seq<FnModel>, namespace: Seq<char>) -> FnModel {
    FnModel {
        name: "_sculkmain"@,
        scoreboard: LocModel { namespace, path: "_sculkmain"@, separator: Separator::Colon },
        actions: storage_actions(ready, namespace).push(
            ActionModel::CallFunction {
                target: LocModel { namespace, path: "main"@, separator: Separator::Colon },
            },
        ),
        anonymous: false,
        returns_value: false,
        children: 0,
    }
}

pub open spec fn initial(sigs: Seq<SigModel>, namespace: Seq<char>) -> GenModel {
    GenModel {
        unfinished: Seq::empty(),
        ready: Seq::empty(),
        stacks: Seq::empty(),
        sigs,
        namespace,
        loop_depth: 0,
        prop_return: false,
        prop_break: false,
    }
}

/// The whole tree lowered, with the entry function added.
pub open spec fn compile_model(ast: ParserNode, sigs: Seq<SigModel>, namespace: Seq<char>) -> Result<
    GenModel,
    InternalError,
> {
    match lower(initial(sigs, namespace), ast) {
        Err(e) => Err(e),
        Ok(g) => Ok(GenModel { ready: insert_ready(g.ready, bootstrap(g.ready, namespace)), ..g }),
    }
}

/// The text of a function file: each command followed by `\r\n`.
pub open spec fn render_lines(actions: Seq<ActionModel>) -> Seq<char>
    decreases actions.len(),
{
    if actions.len() == 0 {
        Seq::empty()
    } else {
        render_lines(actions.drop_last()) + crate::action::render(actions.last()) + "\r\n"@
    }
}

} // verus!
