//! Laws of the code generator, stated over the models of its parts.
use vstd::prelude::*;

use crate::action::{operation_line, render, ActionModel};
use crate::ast::{Operation, ParserNode, SigModel};
use crate::error::InternalError;
use crate::eval::{arith_model, op_actions, tmp_entry};
use crate::location::{separator_char, EntryModel, LocModel, Separator};
use crate::text::{decimal, digit_char, digits};
use crate::lowering::{
    bootstrap,
    compile_model,
    current,
    emit,
    find_function,
    first_function,
    insert_ready,
    local,
    lower_assignment,
    lower_function,
    lower_return,
    objective_name,
    storage_actions,
    FnModel,
    GenModel,
};
use crate::codegen::{lemma_first_function_exists, unique_names};

verus! {

/// The operator text of an arithmetic operator's in-place primitive.
pub open spec fn operator_token(op: Operation) -> Seq<char> {
    match op {
        Operation::Add => "+="@,
        Operation::Subtract => "-="@,
        Operation::Multiply => "*="@,
        Operation::Divide => "/="@,
        Operation::Modulo => "%="@,
        _ => Seq::empty(),
    }
}

pub open spec fn is_arithmetic(op: Operation) -> bool {
    op == Operation::Add || op == Operation::Subtract || op == Operation::Multiply || op
        == Operation::Divide || op == Operation::Modulo
}

/// A binary arithmetic operation `a op b` and the compound assignment
/// `x op= e` emit the same primitive: both write
/// `scoreboard players operation <first> <op>= <second>`.
pub proof fn lemma_binary_and_compound_share_operator(
    op: Operation,
    sb: LocModel,
    a: u64,
    b: u64,
    g: GenModel,
    name: Seq<char>,
    expr: ParserNode,
    t: u64,
    g1: GenModel,
)
    requires
        is_arithmetic(op),
        crate::lowering::lower_expr(g, expr) == Ok::<(GenModel, u64), InternalError>((g1, t)),
        g.unfinished.len() > 0,
    ensures
        op_actions(sb, op, a, b) is Some,
        op_actions(sb, op, a, b)->0.len() == 1,
        render(op_actions(sb, op, a, b)->0[0]) == operation_line(
            tmp_entry(sb, a),
            operator_token(op),
            tmp_entry(sb, b),
        ),
        lower_assignment(g, name, expr, Some(op)) == Ok::<GenModel, InternalError>(
            emit(g1, arith_model(op, local(g1, name), crate::lowering::tmp_of(g1, t))->0),
        ),
        render(arith_model(op, local(g1, name), crate::lowering::tmp_of(g1, t))->0)
            == operation_line(local(g1, name), operator_token(op), crate::lowering::tmp_of(g1, t)),
{
}

/// `return;` writes no value: it emits `RETFLAG := 1` and `return`, and
/// nothing else.
pub proof fn lemma_return_without_value(g: GenModel)
    requires
        g.unfinished.len() > 0,
    ensures
        lower_return(g, None) is Ok,
        current(lower_return(g, None)->Ok_0).actions == current(g).actions + seq![
            ActionModel::SetVariableToNumber { var: local(g, "RETFLAG"@), val: 1 },
            ActionModel::Return,
        ],
        lower_return(g, None)->Ok_0.unfinished.len() == g.unfinished.len(),
        lower_return(g, None)->Ok_0.prop_return,
{
    let g1 = emit(g, ActionModel::SetVariableToNumber { var: local(g, "RETFLAG"@), val: 1 });
    assert(current(emit(g1, ActionModel::Return)).actions =~= current(g).actions + seq![
        ActionModel::SetVariableToNumber { var: local(g, "RETFLAG"@), val: 1 },
        ActionModel::Return,
    ]);
}

/// Lowering a function declaration leaves no jump pending: neither a
/// `return` nor a `break` crosses a function.
pub proof fn lemma_function_leaves_no_pending_jump(g: GenModel, name: Seq<char>, body: ParserNode)
    requires
        lower_function(g, name, body) is Ok,
    ensures
        !lower_function(g, name, body)->Ok_0.prop_return,
        !lower_function(g, name, body)->Ok_0.prop_break,
{
}

/// The entry function is among the completed functions, and its last
/// command calls `<namespace>:main`.
pub proof fn lemma_bootstrap_ends_with_main(
    ast: ParserNode,
    sigs: Seq<SigModel>,
    namespace: Seq<char>,
)
    requires
        compile_model(ast, sigs, namespace) is Ok,
    ensures
        exists|i: int|
            0 <= i < compile_model(ast, sigs, namespace)->Ok_0.ready.len() && {
                let f = #[trigger] compile_model(ast, sigs, namespace)->Ok_0.ready[i];
                &&& f.name == "_sculkmain"@
                &&& f.actions.len() > 0
                &&& f.actions.last() == ActionModel::CallFunction {
                    target: LocModel { namespace, path: "main"@, separator: Separator::Colon },
                }
            },
{
    let g = compile_model(ast, sigs, namespace)->Ok_0;
    let g0 = match crate::lowering::lower(crate::lowering::initial(sigs, namespace), ast) {
        Ok(g0) => g0,
        Err(_) => g,
    };
    let boot = bootstrap(g0.ready, namespace);
    match find_function(g0.ready, boot.name) {
        Some(i) => {
            assert(first_function(g0.ready, boot.name, i));
            assert(g.ready[i] == boot);
        },
        None => {
            assert(g.ready[g0.ready.len() as int] == boot);
        },
    }
}

} // verus!

verus! {

/// `a` stands in `actions` at exactly one index.
pub open spec fn occurs_once(actions: Seq<ActionModel>, a: ActionModel) -> bool {
    exists|k: int|
        0 <= k < actions.len() && actions[k] == a && forall|k2: int|
            0 <= k2 < actions.len() && actions[k2] == a ==> k2 == k
}

/// The entry function declares the namespace of each named function other
/// than itself exactly once.
pub open spec fn declares_each_once(ready: Seq<FnModel>, namespace: Seq<char>) -> bool {
    forall|i: int, j: int|
        0 <= i < ready.len() && 0 <= j < ready.len() && #[trigger] ready[j].name == "_sculkmain"@
            && !ready[i].anonymous && #[trigger] ready[i].name != "_sculkmain"@ ==> occurs_once(
            ready[j].actions,
            ActionModel::CreateStorage { name: objective_name(namespace, ready[i].name) },
        )
}

pub proof fn lemma_objective_name_injective(namespace: Seq<char>, a: Seq<char>, b: Seq<char>)
    requires
        objective_name(namespace, a) == objective_name(namespace, b),
    ensures
        a == b,
{
    let n: int = namespace.len() as int + 1;
    let oa = objective_name(namespace, a);
    assert(oa.subrange(n, oa.len() as int) =~= a);
    assert(objective_name(namespace, b).subrange(n, oa.len() as int) =~= b);
}

/// Each declaration among the storage actions names a function of `ready`.
proof fn lemma_storage_names(ready: Seq<FnModel>, namespace: Seq<char>, k: int)
    requires
        0 <= k < storage_actions(ready, namespace).len(),
    ensures
        exists|j: int|
            0 <= j < ready.len() && storage_actions(ready, namespace)[k] == (ActionModel::CreateStorage {
                name: objective_name(namespace, #[trigger] ready[j].name),
            }),
    decreases ready.len(),
{
    let rest = storage_actions(ready.drop_last(), namespace);
    if k < rest.len() {
        lemma_storage_names(ready.drop_last(), namespace, k);
        let j = choose|j: int|
            0 <= j < ready.drop_last().len() && rest[k] == ActionModel::CreateStorage {
                name: objective_name(namespace, #[trigger] ready.drop_last()[j].name),
            };
        assert(ready.drop_last()[j] == ready[j]);
    } else {
        assert(storage_actions(ready, namespace)[k] == ActionModel::CreateStorage {
            name: objective_name(namespace, ready[ready.len() - 1].name),
        });
    }
}

proof fn lemma_storage_once(ready: Seq<FnModel>, namespace: Seq<char>, i: int)
    requires
        unique_names(ready),
        0 <= i < ready.len(),
        !ready[i].anonymous,
    ensures
        occurs_once(
            storage_actions(ready, namespace),
            ActionModel::CreateStorage { name: objective_name(namespace, ready[i].name) },
        ),
    decreases ready.len(),
{
    let x = ActionModel::CreateStorage { name: objective_name(namespace, ready[i].name) };
    let rest = storage_actions(ready.drop_last(), namespace);
    let acts = storage_actions(ready, namespace);
    let last = ready.len() - 1;
    if i == last {
        assert(acts == rest.push(x));
        assert forall|k2: int| 0 <= k2 < rest.len() implies rest[k2] != x by {
            lemma_storage_names(ready.drop_last(), namespace, k2);
            let j = choose|j: int|
                0 <= j < ready.drop_last().len() && rest[k2] == ActionModel::CreateStorage {
                    name: objective_name(namespace, #[trigger] ready.drop_last()[j].name),
                };
            if rest[k2] == x {
                lemma_objective_name_injective(namespace, ready[j].name, ready[i].name);
                assert(ready.drop_last()[j] == ready[j]);
            }
        }
        assert(acts[rest.len() as int] == x);
    } else {
        assert(unique_names(ready.drop_last()));
        assert(ready.drop_last()[i] == ready[i]);
        lemma_storage_once(ready.drop_last(), namespace, i);
        let k = choose|k: int|
            0 <= k < rest.len() && rest[k] == x && forall|k2: int|
                0 <= k2 < rest.len() && rest[k2] == x ==> k2 == k;
        if !ready[last].anonymous {
            let y = ActionModel::CreateStorage { name: objective_name(namespace, ready[last].name) };
            if x == y {
                lemma_objective_name_injective(namespace, ready[i].name, ready[last].name);
            }
            assert(acts == rest.push(y));
            assert(acts[k] == x);
        } else {
            assert(acts == rest);
        }
    }
}

/// The entry function that compilation adds declares each named function's
/// namespace exactly once, where the functions' names are distinct.
pub proof fn lemma_bootstrap_declares_each_once(ready: Seq<FnModel>, namespace: Seq<char>)
    requires
        unique_names(ready),
    ensures
        declares_each_once(insert_ready(ready, bootstrap(ready, namespace)), namespace),
{
    let boot = bootstrap(ready, namespace);
    let out = insert_ready(ready, boot);
    assert forall|i: int, j: int|
        0 <= i < out.len() && 0 <= j < out.len() && #[trigger] out[j].name == "_sculkmain"@
            && !out[i].anonymous && #[trigger] out[i].name != "_sculkmain"@ implies occurs_once(
        out[j].actions,
        ActionModel::CreateStorage { name: objective_name(namespace, out[i].name) },
    ) by {
        let x = ActionModel::CreateStorage { name: objective_name(namespace, out[i].name) };
        match find_function(ready, boot.name) {
            Some(p) => {
                assert(first_function(ready, boot.name, p));
                assert(out == ready.update(p, boot));
                if j != p {
                    assert(out[j] == ready[j]);
                    assert(ready[j].name == ready[p].name);
                    assert(false);
                }
                assert(out[i] == ready[i]);
            },
            None => {
                assert(out == ready.push(boot));
                if j != ready.len() {
                    assert(out[j] == ready[j]);
                    lemma_first_function_exists(ready, boot.name, j);
                    assert(false);
                }
                assert(out[i] == ready[i]);
            },
        }
        lemma_storage_once(ready, namespace, i);
        let s = storage_actions(ready, namespace);
        let k = choose|k: int|
            0 <= k < s.len() && s[k] == x && forall|k2: int| 0 <= k2 < s.len() && s[k2] == x ==> k2 == k;
        assert(out[j] == boot);
        assert(boot.actions[k] == x);
    }
}

} // verus!

verus! {

/// `s` holds no line break.
pub open spec fn one_line(s: Seq<char>) -> bool {
    forall|i: int| 0 <= i < s.len() ==> #[trigger] s[i] != '\n' && s[i] != '\r'
}

pub open spec fn loc_one_line(l: LocModel) -> bool {
    one_line(l.namespace) && one_line(l.path)
}

pub open spec fn entry_one_line(e: EntryModel) -> bool {
    one_line(e.player) && loc_one_line(e.scoreboard)
}

/// Every text that an action carries is free of line breaks.
pub open spec fn action_one_line(a: ActionModel) -> bool
    decreases a,
{
    match a {
        ActionModel::CreateStorage { name } => one_line(name),
        ActionModel::SetVariableToNumber { var, val } => entry_one_line(var),
        ActionModel::AddVariables { first, second } => entry_one_line(first) && entry_one_line(
            second,
        ),
        ActionModel::SubtractVariables { first, second } => entry_one_line(first)
            && entry_one_line(second),
        ActionModel::MultiplyVariables { first, second } => entry_one_line(first)
            && entry_one_line(second),
        ActionModel::DivideVariables { first, second } => entry_one_line(first) && entry_one_line(
            second,
        ),
        ActionModel::ModuloVariables { first, second } => entry_one_line(first) && entry_one_line(
            second,
        ),
        ActionModel::SetVariableToVariable { first, second } => entry_one_line(first)
            && entry_one_line(second),
        ActionModel::CallFunction { target } => loc_one_line(target),
        ActionModel::ExecuteIf { condition, then } => one_line(condition) && action_one_line(*then),
        ActionModel::ExecuteUnless { condition, then } => one_line(condition) && action_one_line(
            *then,
        ),
        ActionModel::Direct { command } => one_line(command),
        ActionModel::Return => true,
    }
}

proof fn lemma_concat_one_line(a: Seq<char>, b: Seq<char>)
    requires
        one_line(a),
        one_line(b),
    ensures
        one_line(a + b),
{
    assert forall|i: int| 0 <= i < (a + b).len() implies #[trigger] (a + b)[i] != '\n' && (a
        + b)[i] != '\r' by {
        if i < a.len() {
            assert((a + b)[i] == a[i]);
        } else {
            assert((a + b)[i] == b[i - a.len()]);
        }
    }
}

proof fn lemma_digits_one_line(n: nat)
    ensures
        one_line(digits(n)),
    decreases n,
{
    if n >= 10 {
        lemma_digits_one_line(n / 10);
        lemma_concat_one_line(digits(n / 10), seq![digit_char(n % 10)]);
        assert(digits(n) =~= digits(n / 10) + seq![digit_char(n % 10)]);
    }
}

proof fn lemma_decimal_one_line(i: int)
    ensures
        one_line(decimal(i)),
{
    if i < 0 {
        lemma_digits_one_line((-i) as nat);
        lemma_concat_one_line(seq!['-'], digits((-i) as nat));
    } else {
        lemma_digits_one_line(i as nat);
    }
}

proof fn lemma_loc_one_line(l: LocModel)
    requires
        loc_one_line(l),
    ensures
        one_line(l.text()),
{
    lemma_concat_one_line(l.namespace, seq![separator_char(l.separator)]);
    assert(l.namespace.push(separator_char(l.separator)) =~= l.namespace + seq![
        separator_char(l.separator),
    ]);
    lemma_concat_one_line(l.namespace.push(separator_char(l.separator)), l.path);
}

proof fn lemma_entry_one_line(e: EntryModel)
    requires
        entry_one_line(e),
    ensures
        one_line(e.text()),
{
    lemma_loc_one_line(e.scoreboard);
    lemma_concat_one_line(e.player, seq![' ']);
    assert(e.player.push(' ') =~= e.player + seq![' ']);
    lemma_concat_one_line(e.player.push(' '), e.scoreboard.text());
}

proof fn lemma_operation_line_one_line(first: EntryModel, op: Seq<char>, second: EntryModel)
    requires
        entry_one_line(first),
        entry_one_line(second),
        one_line(op),
    ensures
        one_line(operation_line(first, op, second)),
{
    reveal_strlit("scoreboard players operation ");
    reveal_strlit(" ");
    lemma_entry_one_line(first);
    lemma_entry_one_line(second);
    let a = "scoreboard players operation "@;
    lemma_concat_one_line(a, first.text());
    lemma_concat_one_line(a + first.text(), " "@);
    lemma_concat_one_line(a + first.text() + " "@, op);
    lemma_concat_one_line(a + first.text() + " "@ + op, " "@);
    lemma_concat_one_line(a + first.text() + " "@ + op + " "@, second.text());
}

/// An action whose texts hold no line break is written as one line.
pub proof fn lemma_render_one_line(a: ActionModel)
    requires
        action_one_line(a),
    ensures
        one_line(render(a)),
    decreases a,
{
    reveal_strlit("scoreboard objectives add ");
    reveal_strlit(" dummy");
    reveal_strlit("scoreboard players set ");
    reveal_strlit(" ");
    reveal_strlit("+=");
    reveal_strlit("-=");
    reveal_strlit("*=");
    reveal_strlit("/=");
    reveal_strlit("%=");
    reveal_strlit("=");
    reveal_strlit("function ");
    reveal_strlit("execute if ");
    reveal_strlit("execute unless ");
    reveal_strlit(" run ");
    reveal_strlit("return");
    match a {
        ActionModel::CreateStorage { name } => {
            lemma_concat_one_line("scoreboard objectives add "@, name);
            lemma_concat_one_line("scoreboard objectives add "@ + name, " dummy"@);
        },
        ActionModel::SetVariableToNumber { var, val } => {
            lemma_entry_one_line(var);
            lemma_decimal_one_line(val);
            let p = "scoreboard players set "@;
            lemma_concat_one_line(p, var.text());
            lemma_concat_one_line(p + var.text(), " "@);
            lemma_concat_one_line(p + var.text() + " "@, decimal(val));
        },
        ActionModel::AddVariables { first, second } => {
            lemma_operation_line_one_line(first, "+="@, second);
        },
        ActionModel::SubtractVariables { first, second } => {
            lemma_operation_line_one_line(first, "-="@, second);
        },
        ActionModel::MultiplyVariables { first, second } => {
            lemma_operation_line_one_line(first, "*="@, second);
        },
        ActionModel::DivideVariables { first, second } => {
            lemma_operation_line_one_line(first, "/="@, second);
        },
        ActionModel::ModuloVariables { first, second } => {
            lemma_operation_line_one_line(first, "%="@, second);
        },
        ActionModel::SetVariableToVariable { first, second } => {
            lemma_operation_line_one_line(first, "="@, second);
        },
        ActionModel::CallFunction { target } => {
            lemma_loc_one_line(target);
            lemma_concat_one_line("function "@, target.text());
        },
        ActionModel::ExecuteIf { condition, then } => {
            lemma_render_one_line(*then);
            let p = "execute if "@;
            lemma_concat_one_line(p, condition);
            lemma_concat_one_line(p + condition, " run "@);
            lemma_concat_one_line(p + condition + " run "@, render(*then));
        },
        ActionModel::ExecuteUnless { condition, then } => {
            lemma_render_one_line(*then);
            let p = "execute unless "@;
            lemma_concat_one_line(p, condition);
            lemma_concat_one_line(p + condition, " run "@);
            lemma_concat_one_line(p + condition + " run "@, render(*then));
        },
        ActionModel::Direct { command } => {},
        ActionModel::Return => {},
    }
}

} // verus!
