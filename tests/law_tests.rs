use merx::ast::{BinaryOp, Expr, Node, Statement, TypeName, UnaryOp};
use merx::parser::{parse, AnalysisError};
use merx::runtime::eval::{eval_binary, eval_cast, eval_unary};
use merx::runtime::{
    output_of, Environment, InputReader, Interpreter, OutputWriter, RuntimeError, Stream, Value,
};

struct NoInput;

impl InputReader for NoInput {
    fn read_line(&mut self) -> Result<String, RuntimeError> {
        Err(RuntimeError::IoError {
            message: "No more input".to_string(),
        })
    }
}

struct Capture {
    stdout: Vec<String>,
    stderr: Vec<String>,
}

impl OutputWriter for Capture {
    fn write_stdout(&mut self, s: &str) {
        self.stdout.push(s.to_string());
    }

    fn write_stdout_no_newline(&mut self, s: &str) {
        self.stdout.push(s.to_string());
    }

    fn write_stderr(&mut self, s: &str) {
        self.stderr.push(s.to_string());
    }
}

fn run(source: &str) -> Result<(Vec<String>, Vec<String>), String> {
    let flowchart = parse(source).map_err(|e| e.to_string())?;
    let output = Capture {
        stdout: Vec::new(),
        stderr: Vec::new(),
    };
    let mut interpreter =
        Interpreter::with_io(flowchart, NoInput, output).map_err(|e| e.to_string())?;
    loop {
        match interpreter.run_steps(1000) {
            Ok(true) => break,
            Ok(false) => continue,
            Err(e) => return Err(e.to_string()),
        }
    }
    let out = interpreter.into_output_writer();
    Ok((out.stdout, out.stderr))
}

fn print_value(expr: &str) -> String {
    let source = format!("flowchart TD\n    Start --> A[println {}]\n    A --> End\n", expr);
    let (stdout, _) = run(&source).expect("runs");
    stdout[0].clone()
}

fn assigned_expr(expr: &str) -> Expr {
    let source = format!("flowchart TD\n    Start --> A[r = {}]\n    A --> End\n", expr);
    let flowchart = parse(&source).unwrap();
    for node in flowchart.nodes {
        if let Node::Process { statements, .. } = node {
            if let Statement::Assign { value, .. } = &statements[0] {
                return value.clone();
            }
        }
    }
    panic!("no assignment");
}

#[test]
fn law_precedence_values() {
    // Grouped as (1 + (2 * 3)) - 4.
    assert_eq!(print_value("1 + 2 * 3 - 4"), "3");
    assert_eq!(print_value("(1 + 2) * 3 - 4"), "5");
    assert_eq!(print_value("1 - 2 - 3"), "-4");
    assert_eq!(print_value("12 / 3 / 2"), "2");
    assert_eq!(print_value("1 + 2 == 3 && 2 < 3 || false"), "true");
}

#[test]
fn law_precedence_tree() {
    let e = assigned_expr("1 - 2 - 3");
    let expected = Expr::Binary {
        op: BinaryOp::Sub,
        left: Box::new(Expr::Binary {
            op: BinaryOp::Sub,
            left: Box::new(Expr::IntLit { value: 1 }),
            right: Box::new(Expr::IntLit { value: 2 }),
        }),
        right: Box::new(Expr::IntLit { value: 3 }),
    };
    assert_eq!(e, expected);
}

#[test]
fn law_unary_chaining() {
    let e = assigned_expr("--x");
    let expected = Expr::Unary {
        op: UnaryOp::Neg,
        operand: Box::new(Expr::Unary {
            op: UnaryOp::Neg,
            operand: Box::new(Expr::Variable {
                name: "x".to_string(),
            }),
        }),
    };
    assert_eq!(e, expected);
    let source = "flowchart TD\n    Start --> A[x = 5; b = true]\n    A --> B[println --x; println !!b]\n    B --> End\n";
    let (stdout, _) = run(source).unwrap();
    assert_eq!(stdout, vec!["5", "true"]);
    let n = assigned_expr("!!b");
    assert!(matches!(n, Expr::Unary { op: UnaryOp::Not, ref operand }
        if matches!(**operand, Expr::Unary { op: UnaryOp::Not, .. })));
}

#[test]
fn law_negating_least_value_wraps() {
    assert_eq!(eval_unary(UnaryOp::Neg, Value::Int(i64::MIN)).unwrap(), Value::Int(i64::MIN));
    let twice = eval_unary(UnaryOp::Neg, eval_unary(UnaryOp::Neg, Value::Int(-17)).unwrap()).unwrap();
    assert_eq!(twice, Value::Int(-17));
}

#[test]
fn law_overflow_wraps() {
    assert_eq!(
        eval_binary(BinaryOp::Add, Value::Int(i64::MAX), Value::Int(1)).unwrap(),
        Value::Int(i64::MIN)
    );
    assert_eq!(
        eval_binary(BinaryOp::Mul, Value::Int(i64::MAX), Value::Int(2)).unwrap(),
        Value::Int(-2)
    );
    assert_eq!(
        eval_binary(BinaryOp::Sub, Value::Int(i64::MIN), Value::Int(1)).unwrap(),
        Value::Int(i64::MAX)
    );
    assert_eq!(
        eval_binary(BinaryOp::Div, Value::Int(i64::MIN), Value::Int(-1)).unwrap(),
        Value::Int(i64::MIN)
    );
    assert_eq!(
        eval_binary(BinaryOp::Mod, Value::Int(i64::MIN), Value::Int(-1)).unwrap(),
        Value::Int(0)
    );
}

#[test]
fn law_division_and_modulo() {
    assert!(matches!(
        eval_binary(BinaryOp::Div, Value::Int(10), Value::Int(0)),
        Err(RuntimeError::DivisionByZero)
    ));
    assert!(matches!(
        eval_binary(BinaryOp::Mod, Value::Int(10), Value::Int(0)),
        Err(RuntimeError::DivisionByZero)
    ));
    assert_eq!(
        eval_binary(BinaryOp::Mod, Value::Int(-10), Value::Int(3)).unwrap(),
        Value::Int(-1)
    );
    assert_eq!(
        eval_binary(BinaryOp::Mod, Value::Int(10), Value::Int(-3)).unwrap(),
        Value::Int(1)
    );
    assert_eq!(
        eval_binary(BinaryOp::Div, Value::Int(-7), Value::Int(2)).unwrap(),
        Value::Int(-3)
    );
}

#[test]
fn law_casts() {
    assert_eq!(
        eval_cast(Value::Str("9223372036854775807".to_string()), TypeName::Int).unwrap(),
        Value::Int(i64::MAX)
    );
    assert_eq!(
        eval_cast(Value::Str("-9223372036854775808".to_string()), TypeName::Int).unwrap(),
        Value::Int(i64::MIN)
    );
    assert_eq!(
        eval_cast(Value::Str("+7".to_string()), TypeName::Int).unwrap(),
        Value::Int(7)
    );
    assert!(matches!(
        eval_cast(Value::Str("9223372036854775808".to_string()), TypeName::Int),
        Err(RuntimeError::CastError { .. })
    ));
    assert!(matches!(
        eval_cast(Value::Str(" 12".to_string()), TypeName::Int),
        Err(RuntimeError::CastError { .. })
    ));
    assert!(matches!(
        eval_cast(Value::Bool(true), TypeName::Int),
        Err(RuntimeError::CastError { from_type: "bool", to_type: "int", ref value }) if value == "true"
    ));
    assert_eq!(
        eval_cast(Value::Int(-42), TypeName::Str).unwrap(),
        Value::Str("-42".to_string())
    );
    assert_eq!(
        eval_cast(Value::Int(i64::MIN), TypeName::Str).unwrap(),
        Value::Str("-9223372036854775808".to_string())
    );
    assert_eq!(
        eval_cast(Value::Bool(false), TypeName::Str).unwrap(),
        Value::Str("false".to_string())
    );
    assert_eq!(
        eval_cast(Value::Str("abc".to_string()), TypeName::Str).unwrap(),
        Value::Str("abc".to_string())
    );
}

#[test]
fn law_structural_validation() {
    let two_yes = "flowchart TD\n    Start --> A{x > 0?}\n    A -->|Yes| B[println x]\n    A -->|Yes| C[println x]\n    A -->|No| End\n    B --> End\n    C --> End\n";
    let err = parse(two_yes).unwrap_err();
    assert!(matches!(err, AnalysisError::Validation(_)));
    assert!(err.to_string().contains("multiple 'Yes' edges"));

    let no_end = "flowchart TD\n    Start --> A[x = 1]\n";
    assert_eq!(
        parse(no_end).unwrap_err().to_string(),
        "Validation error: Missing 'End' node"
    );

    let from_end = "flowchart TD\n    Start --> End\n    End --> A[x = 1]\n    A --> End\n";
    assert_eq!(
        parse(from_end).unwrap_err().to_string(),
        "Validation error: End node cannot have outgoing edges"
    );

    let fan_out = "flowchart TD\n    Start --> P[x = 1]\n    P --> Q[y = 1]\n    P --> End\n    Q --> End\n";
    assert_eq!(
        parse(fan_out).unwrap_err().to_string(),
        "Validation error: Node 'P' has multiple outgoing edges (expected at most 1)"
    );

    let custom = "flowchart TD\n    Start --> A{x > 0?}\n    A -->|maybe| End\n    A -->|No| End\n";
    assert_eq!(
        parse(custom).unwrap_err().to_string(),
        "Validation error: Condition node 'A' must have 'Yes' or 'No' label, but got 'maybe'"
    );

    let unlabeled = "flowchart TD\n    Start --> A{x > 0?}\n    A --> End\n";
    assert_eq!(
        parse(unlabeled).unwrap_err().to_string(),
        "Validation error: Edge from condition node 'A' must have 'Yes' or 'No' label"
    );
}

#[test]
fn law_merge_rule() {
    let once = parse("flowchart TD\n    Start --> A[x = 1]\n    A --> End\n").unwrap();
    let twice = parse("flowchart TD\n    Start --> A[x = 1]\n    A[x = 1] --> End\n").unwrap();
    let bare = parse("flowchart TD\n    Start --> A[x = 1]\n    A --> End\n").unwrap();
    assert_eq!(once.nodes, twice.nodes);
    assert_eq!(once.nodes, bare.nodes);
    assert_eq!(once.edges, bare.edges);

    let conflict = parse("flowchart TD\n    Start --> A[x = 1]\n    A[x = 2] --> End\n");
    assert_eq!(
        conflict.unwrap_err().to_string(),
        "Validation error: Node 'A' is defined multiple times"
    );

    let ok = parse("flowchart TD\n    Start --> A{x > 0?}\n    A -->|Yes| End\n    A -->|No| B[x = 1]\n    B --> Start([\"Begin\"])\n");
    let ok = match ok {
        Ok(f) => f,
        Err(e) => panic!("{}", e.to_string()),
    };
    let start = ok.nodes.iter().find(|n| matches!(n, Node::Start { .. })).unwrap();
    assert_eq!(
        start,
        &Node::Start {
            label: Some("Begin".to_string())
        }
    );
}

#[test]
fn law_end_to_end_scenario() {
    let source = "flowchart TD\n Start --> A[x = 5]\n A --> B{x > 3}\n B -->|Yes| C[println 'big']\n B -->|No| D[println 'small']\n C --> End\n D --> End";
    // The condition shape requires its trailing question mark.
    assert!(matches!(parse(source).unwrap_err(), AnalysisError::Syntax(_)));
    let source = "flowchart TD\n Start --> A[x = 5]\n A --> B{x > 3?}\n B -->|Yes| C[println 'big']\n B -->|No| D[println 'small']\n C --> End\n D --> End";
    let (stdout, stderr) = run(source).unwrap();
    assert_eq!(stdout, vec!["big"]);
    assert!(stderr.is_empty());
}

#[test]
fn law_loop_terminates_by_condition() {
    let source = "flowchart TD\n    Start --> Init[n = 1]\n    Init --> Check{n <= 3?}\n    Check -->|Yes| Body[println n; n = n + 1]\n    Body --> Check\n    Check -->|No| End\n";
    let (stdout, _) = run(source).unwrap();
    assert_eq!(stdout, vec!["1", "2", "3"]);
}

#[test]
fn law_error_statement_is_not_fatal() {
    let source = "flowchart TD\n    Start --> A[error 'warn'; println 'after'; x = 1]\n    A --> B[println x]\n    B --> End\n";
    let (stdout, stderr) = run(source).unwrap();
    assert_eq!(stdout, vec!["after", "1"]);
    assert_eq!(stderr, vec!["warn"]);
}

#[test]
fn runtime_error_messages() {
    assert_eq!(
        RuntimeError::NoOutgoingEdge {
            node_id: "A".to_string()
        }
        .to_string(),
        "No outgoing edge from node 'A'"
    );
    assert_eq!(
        RuntimeError::NoMatchingConditionEdge {
            node_id: "C".to_string(),
            condition_result: false
        }
        .to_string(),
        "No 'No' edge from condition node 'C'"
    );
    assert_eq!(
        RuntimeError::NodeNotFound {
            node_id: "Z".to_string()
        }
        .to_string(),
        "Node 'Z' not found"
    );
    assert_eq!(RuntimeError::MissingStartNode.to_string(), "Missing 'Start' node");
    assert_eq!(RuntimeError::MissingEndNode.to_string(), "Missing 'End' node");
    assert_eq!(
        RuntimeError::IoError {
            message: "closed".to_string()
        }
        .to_string(),
        "I/O error: closed"
    );
}

#[test]
fn comments_quotes_and_arrows() {
    let source = "%% header comment\n\nflowchart LR %% trailing\n    Start ---> A[\"println '%% kept'\"] %% note\n    A -->| YES | End\n";
    let flowchart = match parse(source) {
        Ok(f) => f,
        Err(e) => panic!("{}", e.to_string()),
    };
    assert_eq!(flowchart.edges.len(), 2);
    let (stdout, _) = run(source).unwrap();
    assert_eq!(stdout, vec!["%% kept"]);
    assert!(matches!(parse("flowchart TD\n    Start -> End\n").unwrap_err(), AnalysisError::Syntax(_)));
    assert!(matches!(parse("flowchart XY\n    Start --> End\n").unwrap_err(), AnalysisError::Syntax(_)));
    assert!(matches!(parse("    Start --> End\n").unwrap_err(), AnalysisError::Syntax(_)));
}

#[test]
fn integer_literal_out_of_range_is_syntax_error() {
    let source = "flowchart TD\n    Start --> A[x = 9223372036854775808]\n    A --> End\n";
    let err = parse(source).unwrap_err();
    assert!(matches!(err, AnalysisError::Syntax(_)));
    assert_eq!(
        err.to_string(),
        "Syntax error: integer literal '9223372036854775808' is out of range"
    );
    assert_eq!(print_value("9223372036854775807"), "9223372036854775807");
}

#[test]
fn escapes_in_source() {
    let source = "flowchart TD\n    Start --> A[println 'a\\\\tb\\\\x41\\\\'c']\n    A --> End\n";
    let (stdout, _) = run(source).unwrap();
    assert_eq!(stdout, vec!["a\tbA'c"]);
}

#[test]
fn environment_clone_is_independent() {
    let mut env = Environment::new();
    env.set("x".to_string(), Value::Str("one".to_string()));
    let copy = env.clone();
    env.set("x".to_string(), Value::Int(2));
    assert_eq!(copy.get("x").unwrap(), &Value::Str("one".to_string()));
    assert_eq!(env.get("x").unwrap(), &Value::Int(2));
    assert!(matches!(copy.get("y"), Err(RuntimeError::UndefinedVariable { name }) if name == "y"));
}

#[test]
fn missing_start_at_construction() {
    let flowchart = merx::ast::Flowchart {
        direction: merx::ast::Direction::Td,
        nodes: vec![Node::End { label: None }],
        edges: vec![],
    };
    let result = Interpreter::with_io(
        flowchart,
        NoInput,
        Capture {
            stdout: vec![],
            stderr: vec![],
        },
    );
    assert!(matches!(result, Err(RuntimeError::MissingStartNode)));
}

#[test]
fn type_errors_name_operation() {
    let err = eval_binary(BinaryOp::Add, Value::Str("a".to_string()), Value::Int(1)).unwrap_err();
    assert_eq!(err.to_string(), "Type error in Add: expected int, got str");
    let err = eval_binary(BinaryOp::And, Value::Bool(true), Value::Int(1)).unwrap_err();
    assert_eq!(err.to_string(), "Type error in And: expected bool, got int");
    let err = eval_unary(UnaryOp::Not, Value::Int(1)).unwrap_err();
    assert_eq!(err.to_string(), "Type error in logical NOT: expected bool, got int");
    assert_eq!(
        eval_binary(BinaryOp::Eq, Value::Int(1), Value::Str("1".to_string())).unwrap(),
        Value::Bool(false)
    );
}

#[test]
fn law_integer_text_round_trip() {
    for n in [i64::MIN, -5, 0, 7, 123, i64::MAX] {
        let text = eval_cast(Value::Int(n), TypeName::Str).unwrap();
        assert_eq!(eval_cast(text, TypeName::Int).unwrap(), Value::Int(n));
    }
}

#[test]
fn output_goes_to_the_statement_stream() {
    let v = Value::Int(-3);
    let print = Statement::Print { expr: Expr::IntLit { value: -3 } };
    let println = Statement::Println { expr: Expr::IntLit { value: -3 } };
    let error = Statement::Error { message: Expr::IntLit { value: -3 } };
    let assign = Statement::Assign { variable: "x".to_string(), value: Expr::IntLit { value: -3 } };
    assert_eq!(output_of(&print, &v), Some((Stream::Piece, "-3".to_string())));
    assert_eq!(output_of(&println, &v), Some((Stream::Line, "-3".to_string())));
    assert_eq!(output_of(&error, &Value::Bool(true)), Some((Stream::Diagnostic, "true".to_string())));
    assert_eq!(output_of(&assign, &v), None);
}

#[test]
fn run_steps_stops_after_the_budget() {
    let source = "flowchart TD\n    Start --> A[x = 1]\n    A --> B[println x]\n    B --> End\n";
    let flowchart = parse(source).unwrap();
    let output = Capture { stdout: Vec::new(), stderr: Vec::new() };
    let mut interpreter = Interpreter::with_io(flowchart, NoInput, output).unwrap();
    assert_eq!(interpreter.run_steps(2).unwrap(), false);
    assert!(interpreter.output_writer().stdout.is_empty());
    assert_eq!(interpreter.run_steps(1).unwrap(), false);
    assert_eq!(interpreter.output_writer().stdout, vec!["1"]);
    assert_eq!(interpreter.run_steps(5).unwrap(), true);
}

#[test]
fn undefined_endpoint_message() {
    let source = "flowchart TD\n    Start --> A[x = 1]\n    A --> B\n    B --> End\n";
    assert_eq!(
        parse(source).unwrap_err().to_string(),
        "Validation error: Undefined node 'B' referenced in edge from 'A' to 'B'"
    );
}
