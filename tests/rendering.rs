use sculk::action::{render_action, Action};
use sculk::eval::{EvaluationInstruction, EvaluationStack};
use sculk::location::{ResourceLocation, ScoreboardEntry, Separator};
use sculk::ast::Operation;

fn entry(player: &str) -> ScoreboardEntry {
    ScoreboardEntry::new(ResourceLocation::scoreboard("p".to_string(), "main".to_string()), player.to_string())
}

#[test]
fn locations_use_their_separator() {
    let f = ResourceLocation::new("p".to_string(), "main/0".to_string());
    assert_eq!(f.to_string(), "p:main/0");
    assert_eq!(f.with_separator(Separator::Dot).to_string(), "p.main/0");
    assert_eq!(entry("RET").to_string(), "RET p.main");
}

#[test]
fn every_action_renders_on_one_line() {
    let cases: Vec<(Action, &str)> = vec![
        (Action::CreateStorage { name: "p.main".to_string() }, "scoreboard objectives add p.main dummy"),
        (Action::SetVariableToNumber { var: entry("x"), val: -2147483648 }, "scoreboard players set x p.main -2147483648"),
        (Action::SetVariableToNumber { var: entry("x"), val: 2147483647 }, "scoreboard players set x p.main 2147483647"),
        (Action::SetVariableToNumber { var: entry("x"), val: 0 }, "scoreboard players set x p.main 0"),
        (Action::AddVariables { first: entry("a"), second: entry("b") }, "scoreboard players operation a p.main += b p.main"),
        (Action::SubtractVariables { first: entry("a"), second: entry("b") }, "scoreboard players operation a p.main -= b p.main"),
        (Action::MultiplyVariables { first: entry("a"), second: entry("b") }, "scoreboard players operation a p.main *= b p.main"),
        (Action::DivideVariables { first: entry("a"), second: entry("b") }, "scoreboard players operation a p.main /= b p.main"),
        (Action::ModuloVariables { first: entry("a"), second: entry("b") }, "scoreboard players operation a p.main %= b p.main"),
        (Action::SetVariableToVariable { first: entry("a"), second: entry("b") }, "scoreboard players operation a p.main = b p.main"),
        (Action::CallFunction { target: ResourceLocation::new("p".to_string(), "f".to_string()) }, "function p:f"),
        (Action::Direct { command: "say hi".to_string() }, "say hi"),
        (Action::Return, "return"),
        (
            Action::ExecuteUnless {
                condition: "score a p.main matches 0".to_string(),
                then: Box::new(Action::ExecuteIf {
                    condition: "score b p.main matches 1..".to_string(),
                    then: Box::new(Action::Return),
                }),
            },
            "execute unless score a p.main matches 0 run execute if score b p.main matches 1.. run return",
        ),
    ];
    for (action, text) in cases {
        let line = render_action(&action);
        assert_eq!(line, text);
        assert!(!line.contains('\n') && !line.contains('\r'));
    }
}

#[test]
fn flush_frees_every_temporary_but_the_result() {
    let sb = ResourceLocation::scoreboard("p".to_string(), "main".to_string());
    let mut stack = EvaluationStack::new(sb, 0);
    stack.push_instruction(EvaluationInstruction::PushNumber(1));
    stack.push_instruction(EvaluationInstruction::PushNumber(2));
    stack.push_instruction(EvaluationInstruction::PushNumber(3));
    stack.push_instruction(EvaluationInstruction::Operation(Operation::Multiply));
    stack.push_instruction(EvaluationInstruction::Operation(Operation::Add));
    let (flushed, result) = stack.flush().unwrap();
    assert_eq!(result, 1);
    assert_eq!(flushed.max_tmps, 3);
    let mut free = flushed.available_tmps.clone();
    free.sort();
    assert_eq!(free, vec![2, 3]);
    assert!(flushed.instructions.is_empty());
    let text: Vec<String> = flushed.actions.iter().map(render_action).collect();
    assert_eq!(text[3], "scoreboard players operation TMP2 p.main *= TMP3 p.main");
    assert_eq!(text[4], "scoreboard players operation TMP1 p.main += TMP2 p.main");
}

#[test]
fn freed_temporaries_are_reused() {
    let sb = ResourceLocation::scoreboard("p".to_string(), "main".to_string());
    let mut stack = EvaluationStack::new(sb, 0);
    stack.push_instruction(EvaluationInstruction::PushNumber(1));
    stack.push_instruction(EvaluationInstruction::PushNumber(2));
    stack.push_instruction(EvaluationInstruction::Operation(Operation::Add));
    stack.push_instruction(EvaluationInstruction::PushBool(true));
    stack.push_instruction(EvaluationInstruction::Operation(Operation::Subtract));
    let (flushed, result) = stack.flush().unwrap();
    assert_eq!(result, 1);
    assert_eq!(flushed.max_tmps, 2);
    let text: Vec<String> = flushed.actions.iter().map(render_action).collect();
    assert_eq!(text[3], "scoreboard players set TMP2 p.main 1");
}

#[test]
fn empty_flush_is_malformed() {
    let sb = ResourceLocation::scoreboard("p".to_string(), "main".to_string());
    let stack = EvaluationStack::new(sb, 0);
    assert!(stack.flush().is_err());
}
