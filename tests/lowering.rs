use sculk::action::render_action;
use sculk::ast::{FunctionSignature, Operation, ParamDef, ParserNode};
use sculk::codegen::CodeGenerator;
use sculk::error::{CompileError, InternalError, ParseError, ValidationError};

fn num(n: i32) -> ParserNode {
    ParserNode::NumberLiteral(n)
}

fn ident(x: &str) -> ParserNode {
    ParserNode::Identifier(x.to_string())
}

fn bin(lhs: ParserNode, rhs: ParserNode, op: Operation) -> ParserNode {
    ParserNode::Operation(Box::new(lhs), Box::new(rhs), op)
}

fn declare(name: &str, expr: ParserNode) -> ParserNode {
    ParserNode::VariableDeclaration { name: name.to_string(), expr: Box::new(expr) }
}

fn assign(name: &str, expr: ParserNode) -> ParserNode {
    ParserNode::VariableAssignment { name: name.to_string(), expr: Box::new(expr) }
}

fn block(nodes: Vec<ParserNode>) -> ParserNode {
    ParserNode::Block(nodes)
}

fn func(name: &str, body: Vec<ParserNode>) -> ParserNode {
    ParserNode::FunctionDeclaration { name: name.to_string(), args: vec![], body: Box::new(block(body)) }
}

fn sig(name: &str, params: &[&str], returns_value: bool) -> FunctionSignature {
    FunctionSignature {
        name: name.to_string(),
        params: params.iter().map(|p| ParamDef { name: p.to_string() }).collect(),
        returns_value,
    }
}

fn compile(program: Vec<ParserNode>, sigs: Vec<FunctionSignature>) -> CodeGenerator {
    let ast = ParserNode::Program(program);
    match CodeGenerator::compile_src(&ast, &vec![], sigs, &vec![], "p") {
        Ok(gen) => gen,
        Err(errs) => panic!("compilation failed: {:?}", errs),
    }
}

fn compile_err(program: Vec<ParserNode>, sigs: Vec<FunctionSignature>) -> Vec<CompileError> {
    let ast = ParserNode::Program(program);
    match CodeGenerator::compile_src(&ast, &vec![], sigs, &vec![], "p") {
        Ok(_) => panic!("compilation succeeded"),
        Err(errs) => errs,
    }
}

fn lines(gen: &CodeGenerator, name: &str) -> Vec<String> {
    let f = gen.ready_function(&name.to_string()).expect("no such function");
    f.actions().iter().map(render_action).collect()
}

#[test]
fn scenario_addition_in_declaration() {
    let gen = compile(vec![func("main", vec![declare("x", bin(num(1), num(2), Operation::Add))])], vec![
        sig("main", &[], false),
    ]);
    assert_eq!(
        lines(&gen, "main"),
        vec![
            "scoreboard players set TMP1 p.main 1",
            "scoreboard players set TMP2 p.main 2",
            "scoreboard players operation TMP1 p.main += TMP2 p.main",
            "scoreboard players operation x p.main = TMP1 p.main",
        ]
    );
    assert_eq!(lines(&gen, "_sculkmain"), vec!["scoreboard objectives add p.main dummy", "function p:main"]);
}

#[test]
fn scenario_negated_comparison() {
    let cmp = bin(num(3), num(4), Operation::GreaterThan);
    let not = ParserNode::Unary(Box::new(cmp), Operation::Not);
    let gen = compile(vec![func("main", vec![declare("b", not)])], vec![sig("main", &[], false)]);
    assert_eq!(
        lines(&gen, "main"),
        vec![
            "scoreboard players set TMP1 p.main 1",
            "scoreboard players set TMP2 p.main 3",
            "scoreboard players set TMP3 p.main 4",
            "scoreboard players operation TMP2 p.main -= TMP3 p.main",
            "execute if score TMP2 p.main matches 1.. run scoreboard players set TMP2 p.main 1",
            "scoreboard players operation TMP1 p.main -= TMP2 p.main",
            "scoreboard players operation b p.main = TMP1 p.main",
        ]
    );
}

#[test]
fn scenario_call_with_return_value() {
    let f_body = vec![ParserNode::Return(Some(Box::new(bin(ident("x"), num(1), Operation::Add))))];
    let call = ParserNode::FunctionCall { name: "f".to_string(), args: vec![num(5)] };
    let gen = compile(vec![func("f", f_body), func("main", vec![declare("y", call)])], vec![
        sig("f", &["x"], true),
        sig("main", &[], false),
    ]);
    assert_eq!(
        lines(&gen, "main"),
        vec![
            "scoreboard players set TMP1 p.main 5",
            "scoreboard players operation x p.f = TMP1 p.main",
            "function p:f",
            "scoreboard players operation TMP1 p.main = RET p.f",
            "scoreboard players operation y p.main = TMP1 p.main",
        ]
    );
    assert_eq!(
        lines(&gen, "f"),
        vec![
            "scoreboard players set RETFLAG p.f 0",
            "scoreboard players operation TMP1 p.f = x p.f",
            "scoreboard players set TMP2 p.f 1",
            "scoreboard players operation TMP1 p.f += TMP2 p.f",
            "scoreboard players operation RET p.f = TMP1 p.f",
            "scoreboard players set RETFLAG p.f 1",
            "return",
        ]
    );
    let boot = lines(&gen, "_sculkmain");
    assert_eq!(boot.len(), 3);
    assert!(boot.contains(&"scoreboard objectives add p.f dummy".to_string()));
    assert!(boot.contains(&"scoreboard objectives add p.main dummy".to_string()));
    assert_eq!(boot[2], "function p:main");
}

#[test]
fn scenario_if_with_return() {
    let cond = bin(ident("a"), ident("b"), Operation::CheckEquals);
    let if_node = ParserNode::If {
        cond: Box::new(cond),
        body: Box::new(block(vec![ParserNode::Return(None)])),
        else_body: None,
    };
    let gen = compile(vec![func("main", vec![if_node, assign("c", num(1))])], vec![sig("main", &[], false)]);
    assert_eq!(
        lines(&gen, "main"),
        vec![
            "scoreboard players operation TMP1 p.main = a p.main",
            "scoreboard players operation TMP2 p.main = b p.main",
            "scoreboard players operation TMP1 p.main -= TMP2 p.main",
            "execute if score TMP1 p.main matches 0 run scoreboard players set TMP1 p.main 1",
            "execute if score TMP1 p.main matches 1 run function p:main/0",
            "execute if score RETFLAG p.main matches 1 run return",
            "scoreboard players set TMP1 p.main 1",
            "scoreboard players operation c p.main = TMP1 p.main",
        ]
    );
    assert_eq!(lines(&gen, "main/0"), vec!["scoreboard players set RETFLAG p.main 1", "return"]);
    let boot = lines(&gen, "_sculkmain");
    assert_eq!(boot, vec!["scoreboard objectives add p.main dummy", "function p:main"]);
}

fn counting_loop(body: Vec<ParserNode>) -> ParserNode {
    ParserNode::For {
        init: Box::new(declare("i", num(0))),
        cond: Box::new(bin(ident("i"), num(3), Operation::LessThan)),
        step: Box::new(assign("i", bin(ident("i"), num(1), Operation::Add))),
        body: Box::new(block(body)),
    }
}

#[test]
fn scenario_loop_with_break() {
    let if_node = ParserNode::If {
        cond: Box::new(bin(ident("i"), num(2), Operation::CheckEquals)),
        body: Box::new(block(vec![ParserNode::Break])),
        else_body: None,
    };
    let gen = compile(vec![func("main", vec![counting_loop(vec![if_node])])], vec![sig("main", &[], false)]);
    let cond_lines = vec![
        "scoreboard players operation TMP1 p.main = i p.main",
        "scoreboard players set TMP2 p.main 3",
        "scoreboard players operation TMP1 p.main -= TMP2 p.main",
        "execute if score TMP1 p.main matches ..-1 run scoreboard players set TMP1 p.main 1",
        "execute if score TMP1 p.main matches 1 run function p:main/0",
    ];
    let mut main_expected = vec![
        "scoreboard players set TMP1 p.main 0",
        "scoreboard players operation i p.main = TMP1 p.main",
    ];
    main_expected.extend(cond_lines.iter().cloned());
    assert_eq!(lines(&gen, "main"), main_expected);
    let mut body_expected = vec![
        "scoreboard players operation TMP1 p.main = i p.main",
        "scoreboard players set TMP2 p.main 2",
        "scoreboard players operation TMP1 p.main -= TMP2 p.main",
        "execute if score TMP1 p.main matches 0 run scoreboard players set TMP1 p.main 1",
        "execute if score TMP1 p.main matches 1 run function p:main/0/0",
        "execute if score BREAKFLAG1 p.main matches 1 run return",
        "scoreboard players operation TMP1 p.main = i p.main",
        "scoreboard players set TMP2 p.main 1",
        "scoreboard players operation TMP1 p.main += TMP2 p.main",
        "scoreboard players operation i p.main = TMP1 p.main",
    ];
    body_expected.extend(cond_lines.iter().cloned());
    assert_eq!(lines(&gen, "main/0"), body_expected);
    assert_eq!(lines(&gen, "main/0/0"), vec!["scoreboard players set BREAKFLAG1 p.main 1", "return"]);
}

#[test]
fn scenario_command_literal() {
    let gen = compile(vec![func("main", vec![ParserNode::CommandLiteral("say hi".to_string())])], vec![
        sig("main", &[], false),
    ]);
    assert_eq!(lines(&gen, "main"), vec!["say hi"]);
}

#[test]
fn empty_body_of_value_function_has_only_prelude() {
    let gen = compile(vec![func("f", vec![])], vec![sig("f", &[], true)]);
    assert_eq!(lines(&gen, "f"), vec!["scoreboard players set RETFLAG p.f 0"]);
}

#[test]
fn empty_body_of_void_function_is_empty() {
    let gen = compile(vec![func("main", vec![])], vec![sig("main", &[], false)]);
    assert!(lines(&gen, "main").is_empty());
}

#[test]
fn return_without_value_sets_flag_only() {
    let gen = compile(vec![func("f", vec![ParserNode::Return(None)])], vec![sig("f", &[], true)]);
    assert_eq!(
        lines(&gen, "f"),
        vec![
            "scoreboard players set RETFLAG p.f 0",
            "scoreboard players set RETFLAG p.f 1",
            "return",
        ]
    );
}

#[test]
fn return_inside_loop_is_forwarded_out_of_the_loop() {
    let if_node = ParserNode::If {
        cond: Box::new(bin(ident("i"), num(2), Operation::CheckEquals)),
        body: Box::new(block(vec![ParserNode::Return(Some(Box::new(ident("i"))))])),
        else_body: None,
    };
    let gen = compile(vec![func("f", vec![counting_loop(vec![if_node])])], vec![sig("f", &[], true)]);
    let main_lines = lines(&gen, "f");
    assert_eq!(main_lines.last().unwrap(), "execute if score RETFLAG p.f matches 1 run return");
    assert!(!main_lines.iter().any(|l| l.contains("BREAKFLAG")));
    let body = lines(&gen, "f/0");
    assert!(body.contains(&"execute if score RETFLAG p.f matches 1 run return".to_string()));
    assert_eq!(
        lines(&gen, "f/0/0"),
        vec![
            "scoreboard players operation TMP1 p.f = i p.f",
            "scoreboard players operation RET p.f = TMP1 p.f",
            "scoreboard players set RETFLAG p.f 1",
            "return",
        ]
    );
}

#[test]
fn if_else_calls_both_children() {
    let if_node = ParserNode::If {
        cond: Box::new(ParserNode::BoolLiteral(true)),
        body: Box::new(block(vec![assign("a", num(1))])),
        else_body: Some(Box::new(block(vec![assign("a", num(2))]))),
    };
    let gen = compile(vec![func("main", vec![if_node])], vec![sig("main", &[], false)]);
    assert_eq!(
        lines(&gen, "main"),
        vec![
            "scoreboard players set TMP1 p.main 1",
            "execute if score TMP1 p.main matches 1 run function p:main/0",
            "execute unless score TMP1 p.main matches 1 run function p:main/1",
        ]
    );
    assert_eq!(
        lines(&gen, "main/1"),
        vec!["scoreboard players set TMP1 p.main 2", "scoreboard players operation a p.main = TMP1 p.main"]
    );
    let boot = lines(&gen, "_sculkmain");
    assert_eq!(boot, vec!["scoreboard objectives add p.main dummy", "function p:main"]);
}

#[test]
fn compound_assignments_use_in_place_operators() {
    let ops = [
        (Operation::Add, "+="),
        (Operation::Subtract, "-="),
        (Operation::Multiply, "*="),
        (Operation::Divide, "/="),
        (Operation::Modulo, "%="),
    ];
    for (op, token) in ops {
        let stmt = ParserNode::OpEquals { name: "x".to_string(), expr: Box::new(num(7)), op };
        let gen = compile(vec![func("main", vec![stmt])], vec![sig("main", &[], false)]);
        assert_eq!(
            lines(&gen, "main"),
            vec![
                "scoreboard players set TMP1 p.main 7".to_string(),
                format!("scoreboard players operation x p.main {} TMP1 p.main", token),
            ]
        );
        let expr = bin(num(1), num(2), op);
        let gen = compile(vec![func("main", vec![declare("y", expr)])], vec![sig("main", &[], false)]);
        assert_eq!(lines(&gen, "main")[2], format!("scoreboard players operation TMP1 p.main {} TMP2 p.main", token));
    }
}

#[test]
fn comparisons_use_their_ranges() {
    let cases = [
        (Operation::LessThan, "execute if score TMP1 p.main matches ..-1"),
        (Operation::GreaterThanOrEquals, "execute if score TMP1 p.main matches 0.."),
        (Operation::LessThanOrEquals, "execute if score TMP1 p.main matches ..0"),
        (Operation::NotEquals, "execute unless score TMP1 p.main matches 0"),
    ];
    for (op, prefix) in cases {
        let gen = compile(vec![func("main", vec![declare("b", bin(num(1), num(2), op))])], vec![
            sig("main", &[], false),
        ]);
        assert_eq!(lines(&gen, "main")[3], format!("{} run scoreboard players set TMP1 p.main 1", prefix));
    }
}

#[test]
fn negation_multiplies_by_minus_one() {
    let neg = ParserNode::Unary(Box::new(ident("a")), Operation::Negate);
    let gen = compile(vec![func("main", vec![declare("n", neg)])], vec![sig("main", &[], false)]);
    assert_eq!(
        lines(&gen, "main"),
        vec![
            "scoreboard players operation TMP1 p.main = a p.main",
            "scoreboard players set TMP2 p.main -1",
            "scoreboard players operation TMP1 p.main *= TMP2 p.main",
            "scoreboard players operation n p.main = TMP1 p.main",
        ]
    );
}

#[test]
fn statement_call_opens_its_own_context() {
    let call = ParserNode::FunctionCall { name: "g".to_string(), args: vec![num(1), num(2)] };
    let gen = compile(vec![func("g", vec![]), func("main", vec![call])], vec![
        sig("g", &["a", "b"], false),
        sig("main", &[], false),
    ]);
    assert_eq!(
        lines(&gen, "main"),
        vec![
            "scoreboard players set TMP1 p.main 1",
            "scoreboard players set TMP2 p.main 2",
            "scoreboard players operation a p.g = TMP1 p.main",
            "scoreboard players operation b p.g = TMP2 p.main",
            "function p:g",
            "scoreboard players operation TMP2 p.main = RET p.g",
        ]
    );
}

#[test]
fn struct_and_typed_identifier_emit_nothing() {
    let program = vec![
        ParserNode::StructDefinition { name: "S".to_string() },
        func("main", vec![ParserNode::TypedIdentifier { name: "t".to_string() }]),
    ];
    let gen = compile(program, vec![sig("main", &[], false)]);
    assert!(lines(&gen, "main").is_empty());
    assert_eq!(gen.ready_functions().len(), 2);
}

#[test]
fn parse_and_validation_errors_stop_lowering() {
    let ast = ParserNode::Program(vec![]);
    let parse = vec![ParseError { message: "bad token".to_string() }];
    let validation = vec![ValidationError { message: "bad type".to_string() }];
    match CodeGenerator::compile_src(&ast, &parse, vec![], &validation, "p") {
        Ok(_) => panic!("compilation succeeded"),
        Err(errs) => {
            assert_eq!(errs.len(), 2);
            assert!(matches!(&errs[0], CompileError::Parse(e) if e.message == "bad token"));
            assert!(matches!(&errs[1], CompileError::Validate(e) if e.message == "bad type"));
        },
    }
}

#[test]
fn unknown_function_is_an_internal_error() {
    let errs = compile_err(vec![func("main", vec![])], vec![]);
    assert!(matches!(errs.as_slice(), [CompileError::Internal(InternalError::UnknownFunction)]));
}

#[test]
fn statement_outside_function_is_an_internal_error() {
    let errs = compile_err(vec![assign("x", num(1))], vec![]);
    assert!(matches!(errs.as_slice(), [CompileError::Internal(InternalError::NoCurrentFunction)]));
}

#[test]
fn bare_expression_statement_is_an_internal_error() {
    let errs = compile_err(vec![func("main", vec![num(1)])], vec![sig("main", &[], false)]);
    assert!(matches!(errs.as_slice(), [CompileError::Internal(InternalError::NoOpenExpression)]));
}

#[test]
fn compound_comparison_is_an_internal_error() {
    let stmt = ParserNode::OpEquals { name: "x".to_string(), expr: Box::new(num(1)), op: Operation::LessThan };
    let errs = compile_err(vec![func("main", vec![stmt])], vec![sig("main", &[], false)]);
    assert!(matches!(errs.as_slice(), [CompileError::Internal(InternalError::UnsupportedOperation)]));
}

#[test]
fn unary_operator_in_binary_position_is_an_internal_error() {
    let errs = compile_err(vec![func("main", vec![declare("x", bin(num(1), num(2), Operation::Not))])], vec![
        sig("main", &[], false),
    ]);
    assert!(matches!(errs.as_slice(), [CompileError::Internal(InternalError::UnsupportedOperation)]));
}

#[test]
fn call_with_missing_arguments_is_an_internal_error() {
    let call = ParserNode::FunctionCall { name: "g".to_string(), args: vec![] };
    let errs = compile_err(vec![func("g", vec![]), func("main", vec![declare("y", call)])], vec![
        sig("g", &["a"], true),
        sig("main", &[], false),
    ]);
    assert!(matches!(errs.as_slice(), [CompileError::Internal(InternalError::MalformedExpression)]));
}

#[test]
fn function_files_end_each_line_with_crlf() {
    let gen = compile(vec![func("main", vec![declare("x", num(4))])], vec![sig("main", &[], false)]);
    let f = gen.ready_function(&"main".to_string()).unwrap();
    assert_eq!(
        f.render(),
        "scoreboard players set TMP1 p.main 4\r\nscoreboard players operation x p.main = TMP1 p.main\r\n"
    );
    assert!(!f.is_anonymous());
    assert_eq!(f.name(), "main");
}

#[test]
fn anonymous_children_are_not_declared() {
    let if_node = ParserNode::If {
        cond: Box::new(ParserNode::BoolLiteral(false)),
        body: Box::new(block(vec![])),
        else_body: None,
    };
    let gen = compile(vec![func("main", vec![if_node])], vec![sig("main", &[], false)]);
    assert!(gen.ready_function(&"main/0".to_string()).unwrap().is_anonymous());
    assert_eq!(lines(&gen, "_sculkmain"), vec!["scoreboard objectives add p.main dummy", "function p:main"]);
}

#[test]
fn return_latch_does_not_leak_into_next_function() {
    let f_body = vec![ParserNode::Return(Some(Box::new(num(1))))];
    let if_node = ParserNode::If {
        cond: Box::new(ParserNode::BoolLiteral(true)),
        body: Box::new(block(vec![assign("a", num(1))])),
        else_body: None,
    };
    let gen = compile(vec![func("f", f_body), func("main", vec![if_node])], vec![
        sig("f", &[], true),
        sig("main", &[], false),
    ]);
    assert_eq!(
        lines(&gen, "main"),
        vec![
            "scoreboard players set TMP1 p.main 1",
            "execute if score TMP1 p.main matches 1 run function p:main/0",
        ]
    );
}

#[test]
fn break_guard_is_dropped_after_its_loop() {
    let inner_if = ParserNode::If {
        cond: Box::new(ParserNode::BoolLiteral(true)),
        body: Box::new(block(vec![ParserNode::Break])),
        else_body: None,
    };
    let gen = compile(vec![func("main", vec![counting_loop(vec![inner_if]), assign("z", num(0))])], vec![
        sig("main", &[], false),
    ]);
    let main_lines = lines(&gen, "main");
    assert!(!main_lines.iter().any(|l| l.contains("BREAKFLAG")));
    assert_eq!(main_lines.last().unwrap(), "scoreboard players operation z p.main = TMP1 p.main");
}
