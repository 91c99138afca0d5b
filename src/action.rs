use vstd::prelude::*;

use crate::location::{EntryModel, LocModel, ResourceLocation, ScoreboardEntry};
use crate::text::{decimal, push_signed};

verus! {

/// One emitted command of the target runtime.
#[derive(Debug)]
pub enum Action {
    CreateStorage { name: String },
    SetVariableToNumber { var: ScoreboardEntry, val: i32 },
    AddVariables { first: ScoreboardEntry, second: ScoreboardEntry },
    SubtractVariables { first: ScoreboardEntry, second: ScoreboardEntry },
    MultiplyVariables { first: ScoreboardEntry, second: ScoreboardEntry },
    DivideVariables { first: ScoreboardEntry, second: ScoreboardEntry },
    ModuloVariables { first: ScoreboardEntry, second: ScoreboardEntry },
    SetVariableToVariable { first: ScoreboardEntry, second: ScoreboardEntry },
    CallFunction { target: ResourceLocation },
    ExecuteIf { condition: String, then: Box<Action> },
    ExecuteUnless { condition: String, then: Box<Action> },
    Direct { command: String },
    Return,
}

pub enum ActionModel {
    CreateStorage { name: Seq<char> },
    SetVariableToNumber { var: EntryModel, val: int },
    AddVariables { first: EntryModel, second: EntryModel },
    SubtractVariables { first: EntryModel, second: EntryModel },
    MultiplyVariables { first: EntryModel, second: EntryModel },
    DivideVariables { first: EntryModel, second: EntryModel },
    ModuloVariables { first: EntryModel, second: EntryModel },
    SetVariableToVariable { first: EntryModel, second: EntryModel },
    CallFunction { target: LocModel },
    ExecuteIf { condition: Seq<char>, then: Box<ActionModel> },
    ExecuteUnless { condition: Seq<char>, then: Box<ActionModel> },
    Direct { command: Seq<char> },
    Return,
}

pub open spec fn action_model(a: Action) -> ActionModel
    decreases a,
{
    match a {
        Action::CreateStorage { name } => ActionModel::CreateStorage { name: name@ },
        Action::SetVariableToNumber { var, val } => ActionModel::SetVariableToNumber {
            var: var@,
            val: val as int,
        },
        Action::AddVariables { first, second } => ActionModel::AddVariables {
            first: first@,
            second: second@,
        },
        Action::SubtractVariables { first, second } => ActionModel::SubtractVariables {
            first: first@,
            second: second@,
        },
        Action::MultiplyVariables { first, second } => ActionModel::MultiplyVariables {
            first: first@,
            second: second@,
        },
        Action::DivideVariables { first, second } => ActionModel::DivideVariables {
            first: first@,
            second: second@,
        },
        Action::ModuloVariables { first, second } => ActionModel::ModuloVariables {
            first: first@,
            second: second@,
        },
        Action::SetVariableToVariable { first, second } => ActionModel::SetVariableToVariable {
            first: first@,
            second: second@,
        },
        Action::CallFunction { target } => ActionModel::CallFunction { target: target@ },
        Action::ExecuteIf { condition, then } => ActionModel::ExecuteIf {
            condition: condition@,
            then: Box::new(action_model(*then)),
        },
        Action::ExecuteUnless { condition, then } => ActionModel::ExecuteUnless {
            condition: condition@,
            then: Box::new(action_model(*then)),
        },
        Action::Direct { command } => ActionModel::Direct { command: command@ },
        Action::Return => ActionModel::Return,
    }
}

impl View for Action {
    type V = ActionModel;

    open spec fn view(&self) -> ActionModel {
        action_model(*self)
    }
}

/// The views of a list of actions.
pub open spec fn actions_model(v: Seq<Action>) -> Seq<ActionModel> {
    v.map_values(|a: Action| a@)
}

/// `scoreboard players operation <first> <op> <second>`.
pub open spec fn operation_line(first: EntryModel, op: Seq<char>, second: EntryModel) -> Seq<
    char,
> {
    "scoreboard players operation "@ + first.text() + " "@ + op + " "@ + second.text()
}

/// The one-line command that an action is written as.
pub open spec fn render(a: ActionModel) -> Seq<char>
    decreases a,
{
    match a {
        ActionModel::CreateStorage { name } => "scoreboard objectives add "@ + name + " dummy"@,
        ActionModel::SetVariableToNumber { var, val } => "scoreboard players set "@ + var.text()
            + " "@ + decimal(val),
        ActionModel::AddVariables { first, second } => operation_line(first, "+="@, second),
        ActionModel::SubtractVariables { first, second } => operation_line(first, "-="@, second),
        ActionModel::MultiplyVariables { first, second } => operation_line(first, "*="@, second),
        ActionModel::DivideVariables { first, second } => operation_line(first, "/="@, second),
        ActionModel::ModuloVariables { first, second } => operation_line(first, "%="@, second),
        ActionModel::SetVariableToVariable { first, second } => operation_line(
            first,
            "="@,
            second,
        ),
        ActionModel::CallFunction { target } => "function "@ + target.text(),
        ActionModel::ExecuteIf { condition, then } => "execute if "@ + condition + " run "@
            + render(*then),
        ActionModel::ExecuteUnless { condition, then } => "execute unless "@ + condition
            + " run "@ + render(*then),
        ActionModel::Direct { command } => command,
        ActionModel::Return => "return"@,
    }
}

fn write_operation(
    out: &mut String,
    first: &ScoreboardEntry,
    op: &str,
    second: &ScoreboardEntry,
)
    ensures
        final(out)@ == old(out)@ + operation_line(first@, op@, second@),
{
    out.append("scoreboard players operation ");
    first.write_to(out);
    out.append(" ");
    out.append(op);
    out.append(" ");
    second.write_to(out);
    assert(final(out)@ =~= old(out)@ + operation_line(first@, op@, second@));
}

/// Appends the command that `action` is written as.
pub fn write_action(out: &mut String, action: &Action)
    ensures
        final(out)@ == old(out)@ + render(action@),
    decreases action,
{
    match action {
        Action::CreateStorage { name } => {
            out.append("scoreboard objectives add ");
            out.append(name.as_str());
            out.append(" dummy");
        },
        Action::SetVariableToNumber { var, val } => {
            out.append("scoreboard players set ");
            var.write_to(out);
            out.append(" ");
            push_signed(out, *val);
        },
        Action::AddVariables { first, second } => write_operation(out, first, "+=", second),
        Action::SubtractVariables { first, second } => write_operation(out, first, "-=", second),
        Action::MultiplyVariables { first, second } => write_operation(out, first, "*=", second),
        Action::DivideVariables { first, second } => write_operation(out, first, "/=", second),
        Action::ModuloVariables { first, second } => write_operation(out, first, "%=", second),
        Action::SetVariableToVariable { first, second } => write_operation(
            out,
            first,
            "=",
            second,
        ),
        Action::CallFunction { target } => {
            out.append("function ");
            target.write_to(out);
        },
        Action::ExecuteIf { condition, then } => {
            out.append("execute if ");
            out.append(condition.as_str());
            out.append(" run ");
            write_action(out, then);
        },
        Action::ExecuteUnless { condition, then } => {
            out.append("execute unless ");
            out.append(condition.as_str());
            out.append(" run ");
            write_action(out, then);
        },
        Action::Direct { command } => {
            out.append(command.as_str());
        },
        Action::Return => {
            out.append("return");
        },
    }
    assert(final(out)@ =~= old(out)@ + render(action@));
}

/// The command that `action` is written as.
pub fn render_action(action: &Action) -> (r: String)
    ensures
        r@ == render(action@),
{
    let mut s = String::new();
    write_action(&mut s, action);
    assert(s@ =~= render(action@));
    s
}

} // verus!
