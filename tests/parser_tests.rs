use merx::ast::{BinaryOp, Direction, EdgeLabel, Expr, Node, Statement, TypeName, UnaryOp};
use merx::parser::lexical::unescape_string;
use merx::parser::{parse, AnalysisError};

// Helper function to parse an expression from a condition node
fn parse_condition_expr(expr_str: &str) -> Expr {
    let input = format!(
        r#"flowchart TD
    Start --> A{{{}?}}
    A -->|Yes| End
    A -->|No| End
"#,
        expr_str
    );
    let flowchart = parse(&input).unwrap();
    let condition_node = flowchart
        .nodes
        .iter()
        .find(|n| matches!(n, Node::Condition { .. }))
        .unwrap();
    match condition_node {
        Node::Condition { condition, .. } => condition.clone(),
        _ => unreachable!(),
    }
}

// Helper function to parse an expression from an assignment statement
fn parse_assign_expr(expr_str: &str) -> Expr {
    let input = format!(
        r#"flowchart TD
    Start --> A[result = {}]
    A --> End
"#,
        expr_str
    );
    let flowchart = parse(&input).unwrap();
    let process_node = flowchart
        .nodes
        .iter()
        .find(|n| matches!(n, Node::Process { .. }))
        .unwrap();
    match process_node {
        Node::Process { statements, .. } => match &statements[0] {
            Statement::Assign { value, .. } => value.clone(),
            _ => unreachable!(),
        },
        _ => unreachable!(),
    }
}

#[test]
fn test_parse_nested_parentheses() {
    // (1 + 2) * (3 - 4)
    let expr = parse_assign_expr("(1 + 2) * (3 - 4)");

    // Should be: Mul((1 + 2), (3 - 4))
    match expr {
        Expr::Binary { op, left, right } => {
            assert!(matches!(op, BinaryOp::Mul));

            // left: (1 + 2)
            match *left {
                Expr::Binary { op, left, right } => {
                    assert!(matches!(op, BinaryOp::Add));
                    assert!(matches!(*left, Expr::IntLit { value: 1 }));
                    assert!(matches!(*right, Expr::IntLit { value: 2 }));
                }
                _ => panic!("Expected Binary for left operand"),
            }

            // right: (3 - 4)
            match *right {
                Expr::Binary { op, left, right } => {
                    assert!(matches!(op, BinaryOp::Sub));
                    assert!(matches!(*left, Expr::IntLit { value: 3 }));
                    assert!(matches!(*right, Expr::IntLit { value: 4 }));
                }
                _ => panic!("Expected Binary for right operand"),
            }
        }
        _ => panic!("Expected Binary expression"),
    }
}

#[test]
fn test_parse_multiple_unary_operators_neg() {
    // --x (double negation)
    let expr = parse_assign_expr("--x");

    // Should be: Neg(Neg(x))
    match expr {
        Expr::Unary { op, operand } => {
            assert!(matches!(op, UnaryOp::Neg));
            match *operand {
                Expr::Unary { op, operand } => {
                    assert!(matches!(op, UnaryOp::Neg));
                    match *operand {
                        Expr::Variable { name } => assert_eq!(name, "x"),
                        _ => panic!("Expected Variable"),
                    }
                }
                _ => panic!("Expected Unary for inner operand"),
            }
        }
        _ => panic!("Expected Unary expression"),
    }
}

#[test]
fn test_parse_multiple_unary_operators_not() {
    // !!b (double logical NOT)
    let expr = parse_condition_expr("!!b");

    // Should be: Not(Not(b))
    match expr {
        Expr::Unary { op, operand } => {
            assert!(matches!(op, UnaryOp::Not));
            match *operand {
                Expr::Unary { op, operand } => {
                    assert!(matches!(op, UnaryOp::Not));
                    match *operand {
                        Expr::Variable { name } => assert_eq!(name, "b"),
                        _ => panic!("Expected Variable"),
                    }
                }
                _ => panic!("Expected Unary for inner operand"),
            }
        }
        _ => panic!("Expected Unary expression"),
    }
}

#[test]
fn test_parse_mixed_operators() {
    // 1 + 2 * 3 - 4
    // Should parse as: (1 + (2 * 3)) - 4 due to precedence
    // Tree: Sub(Add(1, Mul(2, 3)), 4)
    let expr = parse_assign_expr("1 + 2 * 3 - 4");

    match expr {
        Expr::Binary { op, left, right } => {
            assert!(matches!(op, BinaryOp::Sub));

            // right: 4
            assert!(matches!(*right, Expr::IntLit { value: 4 }));

            // left: 1 + (2 * 3)
            match *left {
                Expr::Binary { op, left, right } => {
                    assert!(matches!(op, BinaryOp::Add));
                    assert!(matches!(*left, Expr::IntLit { value: 1 }));

                    // right of Add: 2 * 3
                    match *right {
                        Expr::Binary { op, left, right } => {
                            assert!(matches!(op, BinaryOp::Mul));
                            assert!(matches!(*left, Expr::IntLit { value: 2 }));
                            assert!(matches!(*right, Expr::IntLit { value: 3 }));
                        }
                        _ => panic!("Expected Mul"),
                    }
                }
                _ => panic!("Expected Add"),
            }
        }
        _ => panic!("Expected Binary expression"),
    }
}

#[test]
fn test_parse_comparison_chain() {
    // x > 1 && x < 10
    // Should parse as: (x > 1) && (x < 10)
    let expr = parse_condition_expr("x > 1 && x < 10");

    match expr {
        Expr::Binary { op, left, right } => {
            assert!(matches!(op, BinaryOp::And));

            // left: x > 1
            match *left {
                Expr::Binary { op, left, right } => {
                    assert!(matches!(op, BinaryOp::Gt));
                    match *left {
                        Expr::Variable { name } => assert_eq!(name, "x"),
                        _ => panic!("Expected Variable x"),
                    }
                    assert!(matches!(*right, Expr::IntLit { value: 1 }));
                }
                _ => panic!("Expected Gt"),
            }

            // right: x < 10
            match *right {
                Expr::Binary { op, left, right } => {
                    assert!(matches!(op, BinaryOp::Lt));
                    match *left {
                        Expr::Variable { name } => assert_eq!(name, "x"),
                        _ => panic!("Expected Variable x"),
                    }
                    assert!(matches!(*right, Expr::IntLit { value: 10 }));
                }
                _ => panic!("Expected Lt"),
            }
        }
        _ => panic!("Expected Binary And expression"),
    }
}

#[test]
fn test_parse_cast_in_expression() {
    // (x as int) + 1
    let expr = parse_assign_expr("(x as int) + 1");

    match expr {
        Expr::Binary { op, left, right } => {
            assert!(matches!(op, BinaryOp::Add));

            // left: x as int
            match *left {
                Expr::Cast { expr, target_type } => {
                    assert!(matches!(target_type, TypeName::Int));
                    match *expr {
                        Expr::Variable { name } => assert_eq!(name, "x"),
                        _ => panic!("Expected Variable x"),
                    }
                }
                _ => panic!("Expected Cast"),
            }

            // right: 1
            assert!(matches!(*right, Expr::IntLit { value: 1 }));
        }
        _ => panic!("Expected Binary Add expression"),
    }
}

#[test]
fn test_end_node_cannot_have_outgoing_edges() {
    let input = r#"flowchart TD
    Start --> End
    End --> A[x = 1]
    A --> End
"#;
    let result = parse(input);
    assert!(result.is_err());
    let err = result.unwrap_err();
    assert!(matches!(err, AnalysisError::Validation(_)));
    assert_eq!(
        err.to_string(),
        "Validation error: End node cannot have outgoing edges"
    );
}

#[test]
fn test_valid_flowchart_ending_at_end() {
    let input = r#"flowchart TD
    Start --> A[x = 1]
    A --> End
"#;
    let result = parse(input);
    assert!(result.is_ok());
}

#[test]
fn test_process_node_multiple_edges_error() {
    let input = r#"flowchart TD
    Start --> A[x = 1]
    A --> B[y = 2]
    A --> C[z = 3]
    B --> End
    C --> End
"#;
    let result = parse(input);
    assert!(result.is_err());
    let err = result.unwrap_err();
    assert!(matches!(err, AnalysisError::Validation(_)));
    assert_eq!(
        err.to_string(),
        "Validation error: Node 'A' has multiple outgoing edges (expected at most 1)"
    );
}

#[test]
fn test_start_node_multiple_edges_error() {
    let input = r#"flowchart TD
    Start --> A[x = 1]
    Start --> B[y = 2]
    A --> End
    B --> End
"#;
    let result = parse(input);
    assert!(result.is_err());
    let err = result.unwrap_err();
    assert!(matches!(err, AnalysisError::Validation(_)));
    assert_eq!(
        err.to_string(),
        "Validation error: Node 'Start' has multiple outgoing edges (expected at most 1)"
    );
}

#[test]
fn test_condition_node_two_edges_allowed() {
    let input = r#"flowchart TD
    Start --> A{x > 0?}
    A -->|Yes| B[println x]
    A -->|No| End
    B --> End
"#;
    let result = parse(input);
    assert!(result.is_ok());
}

#[test]
fn test_duplicate_process_node_label() {
    let input = r#"flowchart TD
    Start --> A[print 'hello']
    A[print 'world'] --> End
"#;
    let result = parse(input);
    assert!(result.is_err());
    let err = result.unwrap_err();
    assert!(matches!(err, AnalysisError::Validation(_)));
    assert_eq!(
        err.to_string(),
        "Validation error: Node 'A' is defined multiple times"
    );
}

#[test]
fn test_duplicate_condition_node_label() {
    let input = r#"flowchart TD
    Start --> A{x > 0?}
    A{x < 0?} -->|Yes| B[println x]
    A -->|No| End
    B --> End
"#;
    let result = parse(input);
    assert!(result.is_err());
    let err = result.unwrap_err();
    assert!(matches!(err, AnalysisError::Validation(_)));
    assert_eq!(
        err.to_string(),
        "Validation error: Node 'A' is defined multiple times"
    );
}

#[test]
fn test_duplicate_start_stadium_label() {
    let input = r#"flowchart TD
    Start(["Begin"]) --> A[x = 1]
    Start(["Other"]) --> A
    A --> End
"#;
    let result = parse(input);
    assert!(result.is_err());
    let err = result.unwrap_err();
    assert!(matches!(err, AnalysisError::Validation(_)));
    assert_eq!(
        err.to_string(),
        "Validation error: Node 'Start' is defined multiple times"
    );
}

#[test]
fn test_duplicate_end_stadium_label() {
    let input = r#"flowchart TD
    Start --> A[x = 1]
    A --> End(["Done"])
    Start --> End(["Other"])
"#;
    let result = parse(input);
    assert!(result.is_err());
    let err = result.unwrap_err();
    assert!(matches!(err, AnalysisError::Validation(_)));
    assert_eq!(
        err.to_string(),
        "Validation error: Node 'End' is defined multiple times"
    );
}

#[test]
fn test_same_node_referenced_without_label_is_ok() {
    let input = r#"flowchart TD
    Start --> A{x > 0?}
    A -->|Yes| End
    A -->|No| B[x = 1]
    B --> End
"#;
    let result = parse(input);
    assert!(result.is_ok());
}

#[test]
fn test_start_label_then_bare_reference_is_ok() {
    let input = r#"flowchart TD
    Start(["Begin"]) --> A{x > 0?}
    A -->|Yes| End
    A -->|No| B[x = 1]
    B --> Start
"#;
    let result = parse(input);
    assert!(result.is_ok());
}

#[test]
fn test_bare_end_then_labeled_end_is_ok() {
    let input = r#"flowchart TD
    Start --> A{x > 0?}
    A -->|Yes| End
    A -->|No| B[x = 1]
    B --> End(["Done"])
"#;
    let result = parse(input);
    assert!(result.is_ok());
}

#[test]
fn test_identical_process_node_redefinition_is_ok() {
    let input = r#"flowchart TD
    Start --> A[x = 1]
    A[x = 1] --> End
"#;
    let result = parse(input);
    assert!(result.is_ok());
}

#[test]
fn test_cross_type_duplicate_process_and_condition() {
    let input = r#"flowchart TD
    Start --> A[x = 1]
    A{x > 0?} -->|Yes| End
    A -->|No| End
"#;
    let result = parse(input);
    assert!(result.is_err());
    let err = result.unwrap_err();
    assert!(matches!(err, AnalysisError::Validation(_)));
    assert_eq!(
        err.to_string(),
        "Validation error: Node 'A' is defined multiple times"
    );
}

#[test]
fn test_parse_direction_td() {
    let input = r#"flowchart TD
    Start --> End
"#;
    let result = parse(input).unwrap();
    assert!(matches!(result.direction, Direction::Td));
}

#[test]
fn test_parse_direction_tb() {
    let input = r#"flowchart TB
    Start --> End
"#;
    let result = parse(input).unwrap();
    assert!(matches!(result.direction, Direction::Tb));
}

#[test]
fn test_parse_direction_lr() {
    let input = r#"flowchart LR
    Start --> End
"#;
    let result = parse(input).unwrap();
    assert!(matches!(result.direction, Direction::Lr));
}

#[test]
fn test_parse_direction_rl() {
    let input = r#"flowchart RL
    Start --> End
"#;
    let result = parse(input).unwrap();
    assert!(matches!(result.direction, Direction::Rl));
}

#[test]
fn test_parse_direction_bt() {
    let input = r#"flowchart BT
    Start --> End
"#;
    let result = parse(input).unwrap();
    assert!(matches!(result.direction, Direction::Bt));
}

#[test]
fn test_parse_multiple_yes_edges() {
    // Condition node with multiple 'Yes' edges should fail
    let input = r#"flowchart TD
    Start --> A{x > 0?}
    A -->|Yes| B[println x]
    A -->|Yes| C[println y]
    A -->|No| End
    B --> End
    C --> End
"#;
    let result = parse(input);
    assert!(result.is_err());
    let err = result.unwrap_err();
    assert!(matches!(err, AnalysisError::Validation(_)));
    assert!(
        err.to_string().contains("multiple 'Yes' edges"),
        "Expected error about multiple Yes edges, got: {}",
        err.to_string()
    );
}

#[test]
fn test_parse_multiple_no_edges() {
    // Condition node with multiple 'No' edges should fail
    let input = r#"flowchart TD
    Start --> A{x > 0?}
    A -->|Yes| B[println x]
    A -->|No| C[println y]
    A -->|No| End
    B --> End
    C --> End
"#;
    let result = parse(input);
    assert!(result.is_err());
    let err = result.unwrap_err();
    assert!(matches!(err, AnalysisError::Validation(_)));
    assert!(
        err.to_string().contains("multiple 'No' edges"),
        "Expected error about multiple No edges, got: {}",
        err.to_string()
    );
}

#[test]
fn test_parse_invalid_identifier() {
    // Identifier starting with a digit should fail (pest grammar rejects this)
    let input = r#"flowchart TD
    Start --> 1abc[x = 1]
    1abc --> End
"#;
    let result = parse(input);
    assert!(result.is_err());
    assert!(matches!(result.unwrap_err(), AnalysisError::Syntax(_)));
}

#[test]
fn test_parse_empty_flowchart() {
    let input = r#"flowchart TD
"#;
    let result = parse(input);
    assert!(result.is_err());
    assert!(matches!(result.unwrap_err(), AnalysisError::Validation(_)));
}

#[test]
fn test_parse_missing_start_node() {
    let input = r#"flowchart TD
    A[x = 1] --> B[println x]
    B --> End
"#;
    let result = parse(input);
    assert!(result.is_err());
    let err = result.unwrap_err();
    assert!(matches!(err, AnalysisError::Validation(_)));
    assert!(
        err.to_string().contains("Missing 'Start' node"),
        "Error should mention missing Start node: {}",
        err.to_string()
    );
}

#[test]
fn test_parse_missing_end_node() {
    let input = r#"flowchart TD
    Start --> A[x = 1]
    A --> B[y = 2]
"#;
    let result = parse(input);
    assert!(result.is_err());
    let err = result.unwrap_err();
    assert!(matches!(err, AnalysisError::Validation(_)));
    assert!(
        err.to_string().contains("Missing 'End' node"),
        "Error should mention missing End node: {}",
        err.to_string()
    );
}

#[test]
fn test_parse_comment_at_start() {
    let input = r#"%% This is a comment
flowchart TD
    Start --> End
"#;
    let result = parse(input);
    assert!(result.is_ok(), "Should parse with comment at start");
}

#[test]
fn test_parse_multiple_comment_lines_at_start() {
    let input = r#"%% First comment
%% Second comment
%% Third comment
flowchart TD
    Start --> End
"#;
    let result = parse(input);
    assert!(result.is_ok(), "Should parse with multiple comment lines");
}

#[test]
fn test_parse_inline_comment() {
    let input = r#"flowchart TD
    Start --> A[x = 1] %% Inline comment
    A --> End
"#;
    let result = parse(input);
    assert!(result.is_ok(), "Should parse with inline comment");
    let flowchart = result.unwrap();
    assert_eq!(flowchart.edges.len(), 2);
}

#[test]
fn test_parse_comment_after_direction() {
    let input = r#"flowchart TD %% direction comment
    Start --> End
"#;
    let result = parse(input);
    assert!(result.is_ok(), "Should parse with comment after direction");
}

#[test]
fn test_parse_empty_comment() {
    let input = r#"%%
flowchart TD
    Start --> End
"#;
    let result = parse(input);
    assert!(result.is_ok(), "Should parse with empty comment");
}

#[test]
fn test_parse_comment_with_special_chars() {
    let input = r#"%% Comment with special chars: !@#$%^&*(){}[]|
flowchart TD
    Start --> End
"#;
    let result = parse(input);
    assert!(result.is_ok(), "Should parse with special chars in comment");
}

#[test]
fn test_parse_percent_in_string_not_comment() {
    // %% inside string literal should NOT be treated as comment
    let input = r#"flowchart TD
    Start --> A[println '%% not a comment']
    A --> End
"#;
    let result = parse(input);
    assert!(result.is_ok(), "Should parse with %% inside string literal");
    let flowchart = result.unwrap();
    assert_eq!(flowchart.edges.len(), 2);
}

#[test]
fn test_parse_comment_between_edges() {
    let input = r#"flowchart TD
    Start --> A[x = 1]
    %% Comment on its own line
    A --> End
"#;
    let result = parse(input);
    assert!(
        result.is_ok(),
        "Should parse with comment between edge definitions"
    );
    let flowchart = result.unwrap();
    assert_eq!(flowchart.edges.len(), 2);
}

#[test]
fn test_parse_comment_at_eof_no_trailing_newline() {
    let input = "flowchart TD\n    Start --> End\n%% Final comment with no newline";
    let result = parse(input);
    assert!(
        result.is_ok(),
        "Should parse with comment at EOF without trailing newline"
    );
}

#[test]
fn test_parse_blank_and_comment_lines_at_start() {
    let input = r#"
%% Comment after blank line

%% Another comment
flowchart TD
    Start --> End
"#;
    let result = parse(input);
    assert!(
        result.is_ok(),
        "Should parse with mixed blank and comment lines at start"
    );
}

#[test]
fn test_parse_comment_containing_double_percent() {
    let input = r#"%% This comment has %% another %% in it
flowchart TD
    Start --> End
"#;
    let result = parse(input);
    assert!(result.is_ok(), "Should parse with %% inside comment");
}

#[test]
fn test_parse_double_quoted_process_node() {
    let input = r#"flowchart TD
    Start --> A["println 'hello'"]
    A --> End
"#;
    let result = parse(input);
    assert!(result.is_ok(), "Should parse double-quoted process node");
    let flowchart = result.unwrap();
    let process = flowchart
        .nodes
        .iter()
        .find(|n| matches!(n, Node::Process { .. }))
        .unwrap();
    match process {
        Node::Process { id, statements } => {
            assert_eq!(id, "A");
            assert_eq!(statements.len(), 1);
            assert!(matches!(&statements[0], Statement::Println { .. }));
        }
        _ => unreachable!(),
    }
}

#[test]
fn test_parse_double_quoted_condition_node() {
    let input = r#"flowchart TD
    Start --> A{"x > 0?"}
    A -->|Yes| End
    A -->|No| End
"#;
    let result = parse(input);
    assert!(result.is_ok(), "Should parse double-quoted condition node");
    let flowchart = result.unwrap();
    let cond = flowchart
        .nodes
        .iter()
        .find(|n| matches!(n, Node::Condition { .. }))
        .unwrap();
    match cond {
        Node::Condition { id, condition } => {
            assert_eq!(id, "A");
            assert!(matches!(
                condition,
                Expr::Binary {
                    op: BinaryOp::Gt,
                    ..
                }
            ));
        }
        _ => unreachable!(),
    }
}

#[test]
fn test_parse_double_quoted_stadium_label() {
    let input = r#"flowchart TD
    Start(["Begin"]) --> End(["Finish"])
"#;
    let result = parse(input);
    assert!(result.is_ok(), "Should parse double-quoted stadium labels");
    let flowchart = result.unwrap();
    let start = flowchart
        .nodes
        .iter()
        .find(|n| matches!(n, Node::Start { .. }))
        .unwrap();
    match start {
        Node::Start { label } => {
            assert_eq!(label.as_deref(), Some("Begin"));
        }
        _ => unreachable!(),
    }
    let end = flowchart
        .nodes
        .iter()
        .find(|n| matches!(n, Node::End { .. }))
        .unwrap();
    match end {
        Node::End { label } => {
            assert_eq!(label.as_deref(), Some("Finish"));
        }
        _ => unreachable!(),
    }
}

#[test]
fn test_parse_double_quoted_process_node_multiple_statements() {
    let input = r#"flowchart TD
    Start --> A["x = 1; y = 2; println x + y"]
    A --> End
"#;
    let result = parse(input);
    assert!(
        result.is_ok(),
        "Should parse double-quoted process node with multiple statements"
    );
    let flowchart = result.unwrap();
    let process = flowchart
        .nodes
        .iter()
        .find(|n| matches!(n, Node::Process { .. }))
        .unwrap();
    match process {
        Node::Process { statements, .. } => {
            assert_eq!(statements.len(), 3);
            assert!(
                matches!(&statements[0], Statement::Assign { variable, .. } if variable == "x")
            );
            assert!(
                matches!(&statements[1], Statement::Assign { variable, .. } if variable == "y")
            );
            assert!(matches!(&statements[2], Statement::Println { .. }));
        }
        _ => unreachable!(),
    }
}

#[test]
fn test_parse_quoted_and_unquoted_produce_same_ast() {
    let quoted = r#"flowchart TD
    Start --> A["x = 42"]
    A --> End
"#;
    let unquoted = r#"flowchart TD
    Start --> A[x = 42]
    A --> End
"#;
    let q = parse(quoted).unwrap();
    let u = parse(unquoted).unwrap();

    let q_process = q
        .nodes
        .iter()
        .find(|n| matches!(n, Node::Process { .. }))
        .unwrap();
    let u_process = u
        .nodes
        .iter()
        .find(|n| matches!(n, Node::Process { .. }))
        .unwrap();

    assert_eq!(
        q_process, u_process,
        "Quoted and unquoted should produce the same AST"
    );
}

#[test]
fn test_parse_quoted_and_unquoted_condition_produce_same_ast() {
    let quoted = r#"flowchart TD
    Start --> A{"x > 0?"}
    A -->|Yes| End
    A -->|No| End
"#;
    let unquoted = r#"flowchart TD
    Start --> A{x > 0?}
    A -->|Yes| End
    A -->|No| End
"#;
    let q = parse(quoted).unwrap();
    let u = parse(unquoted).unwrap();

    let q_cond = q
        .nodes
        .iter()
        .find(|n| matches!(n, Node::Condition { .. }))
        .unwrap();
    let u_cond = u
        .nodes
        .iter()
        .find(|n| matches!(n, Node::Condition { .. }))
        .unwrap();

    assert_eq!(
        q_cond, u_cond,
        "Quoted and unquoted condition should produce the same AST"
    );
}

#[test]
fn test_parse_quoted_and_unquoted_stadium_label_produce_same_ast() {
    let quoted = r#"flowchart TD
    Start(["Begin"]) --> End(["Finish"])
"#;
    let unquoted = r#"flowchart TD
    Start([Begin]) --> End([Finish])
"#;
    let q = parse(quoted).unwrap();
    let u = parse(unquoted).unwrap();

    let q_start = q
        .nodes
        .iter()
        .find(|n| matches!(n, Node::Start { .. }))
        .unwrap();
    let u_start = u
        .nodes
        .iter()
        .find(|n| matches!(n, Node::Start { .. }))
        .unwrap();
    assert_eq!(
        q_start, u_start,
        "Quoted and unquoted Start stadium labels should produce the same AST"
    );

    let q_end = q
        .nodes
        .iter()
        .find(|n| matches!(n, Node::End { .. }))
        .unwrap();
    let u_end = u
        .nodes
        .iter()
        .find(|n| matches!(n, Node::End { .. }))
        .unwrap();
    assert_eq!(
        q_end, u_end,
        "Quoted and unquoted End stadium labels should produce the same AST"
    );
}

#[test]
fn test_unescape_string_empty() {
    assert_eq!(unescape_string("").unwrap(), "");
}

#[test]
fn test_unescape_string_no_escapes() {
    assert_eq!(unescape_string("hello world").unwrap(), "hello world");
}

#[test]
fn test_unescape_string_escaped_quote() {
    // \\' in raw content (2 backslashes + quote) → '
    assert_eq!(unescape_string("\\\\'").unwrap(), "'");
}

#[test]
fn test_unescape_string_escaped_backslash() {
    // \\\\ in raw content (4 backslashes) → \\ (2 backslashes)
    assert_eq!(unescape_string("\\\\\\\\").unwrap(), "\\\\");
}

#[test]
fn test_unescape_string_mixed() {
    // hello + \\' + world → hello'world
    assert_eq!(unescape_string("hello\\\\'world").unwrap(), "hello'world");
}

#[test]
fn test_unescape_string_multiple_escapes() {
    // \\' + space + \\\\ → ' + space + \\
    assert_eq!(unescape_string("\\\\' \\\\\\\\").unwrap(), "' \\\\");
}

/// Parses a flowchart and extracts the string value from the first Println statement.
fn parse_println_str(input: &str) -> String {
    let flowchart = parse(input).unwrap();
    let process = flowchart
        .nodes
        .iter()
        .find(|n| matches!(n, Node::Process { .. }))
        .unwrap();
    match process {
        Node::Process { statements, .. } => match &statements[0] {
            Statement::Println { expr } => match expr {
                Expr::StrLit { value } => value.clone(),
                _ => panic!("Expected StrLit"),
            },
            _ => panic!("Expected Println"),
        },
        _ => unreachable!(),
    }
}

#[test]
fn test_parse_string_with_escaped_quote() {
    let input = "flowchart TD\n    Start --> A[println 'it\\\\'s a test']\n    A --> End\n";
    assert_eq!(parse_println_str(input), "it's a test");
}

#[test]
fn test_parse_string_with_escaped_backslash() {
    let input = "flowchart TD\n    Start --> A[println 'backslash: \\\\\\\\']\n    A --> End\n";
    assert_eq!(parse_println_str(input), "backslash: \\\\");
}

#[test]
fn test_parse_string_with_invalid_escape() {
    // Single backslash should cause a syntax error
    let input = "flowchart TD\n    Start --> A[println 'hello\\world']\n    A --> End\n";
    let result = parse(input);
    assert!(
        result.is_err(),
        "Single backslash should cause syntax error"
    );
    assert!(matches!(result.unwrap_err(), AnalysisError::Syntax(_)));
}

#[test]
fn test_parse_string_with_invalid_escape_sequence() {
    // \\ followed by non-special char should cause a syntax error
    let input = "flowchart TD\n    Start --> A[println 'hello\\\\world']\n    A --> End\n";
    let result = parse(input);
    assert!(
        result.is_err(),
        "Invalid escape sequence should cause syntax error"
    );
    assert!(matches!(result.unwrap_err(), AnalysisError::Syntax(_)));
}

#[test]
fn test_parse_string_trailing_backslash_is_error() {
    // String ending with a lone backslash: 'hello\' should be a syntax error,
    // not interpreted as an escaped closing quote
    let input = "flowchart TD\n    Start --> A[println 'hello\\']\n    A --> End\n";
    let result = parse(input);
    assert!(
        result.is_err(),
        "Trailing lone backslash should cause syntax error"
    );
    assert!(matches!(result.unwrap_err(), AnalysisError::Syntax(_)));
}

#[test]
fn test_parse_escaped_quote_in_double_quoted_node() {
    let input =
        "flowchart TD\n    Start --> A[\"println 'it\\\\'s working'\"]\n    A --> End\n";
    assert_eq!(parse_println_str(input), "it's working");
}

#[test]
fn test_unescape_string_newline() {
    assert_eq!(unescape_string("\\\\n").unwrap(), "\n");
}

#[test]
fn test_unescape_string_tab() {
    assert_eq!(unescape_string("\\\\t").unwrap(), "\t");
}

#[test]
fn test_unescape_string_carriage_return() {
    assert_eq!(unescape_string("\\\\r").unwrap(), "\r");
}

#[test]
fn test_unescape_string_null() {
    assert_eq!(unescape_string("\\\\0").unwrap(), "\0");
}

#[test]
fn test_unescape_string_hex_uppercase() {
    // \\x41 -> 'A'
    assert_eq!(unescape_string("\\\\x41").unwrap(), "A");
}

#[test]
fn test_unescape_string_hex_lowercase() {
    // \\x0a -> newline
    assert_eq!(unescape_string("\\\\x0a").unwrap(), "\n");
}

#[test]
fn test_unescape_string_hex_mixed_case() {
    // \\x0A -> newline
    assert_eq!(unescape_string("\\\\x0A").unwrap(), "\n");
}

#[test]
fn test_unescape_string_multiple_new_escapes() {
    assert_eq!(unescape_string("hello\\\\nworld").unwrap(), "hello\nworld");
}

#[test]
fn test_unescape_string_all_escapes_combined() {
    assert_eq!(unescape_string("\\\\n\\\\t\\\\r\\\\0").unwrap(), "\n\t\r\0");
}

#[test]
fn test_unescape_string_hex_high_value() {
    // \\xFF -> U+00FF
    assert_eq!(unescape_string("\\\\xFF").unwrap(), "\u{FF}");
}

#[test]
fn test_unescape_string_hex_zero() {
    // \\x00 -> null (same as \\0)
    assert_eq!(unescape_string("\\\\x00").unwrap(), "\0");
}

#[test]
fn test_parse_string_with_invalid_hex_incomplete() {
    // \\x with only one hex digit should cause a syntax error
    let input = "flowchart TD\n    Start --> A[println 'hello\\\\x4world']\n    A --> End\n";
    let result = parse(input);
    assert!(
        result.is_err(),
        "Incomplete hex escape should cause syntax error"
    );
    assert!(matches!(result.unwrap_err(), AnalysisError::Syntax(_)));
}

#[test]
fn test_parse_long_arrow() {
    let input = r#"flowchart TD
    Start ---> A[x = 1]
    A ----------------> End
"#;
    let result = parse(input);
    assert!(result.is_ok(), "Should parse arrows of any length");
    let flowchart = result.unwrap();
    assert_eq!(flowchart.edges.len(), 2);
}

#[test]
fn test_parse_single_dash_arrow_fails() {
    let input = r#"flowchart TD
    Start -> A[x = 1]
    A -> End
"#;
    let result = parse(input);
    assert!(result.is_err(), "Single-dash arrow should be rejected");
    assert!(matches!(result.unwrap_err(), AnalysisError::Syntax(_)));
}

#[test]
fn test_parse_long_arrow_with_label() {
    let input = r#"flowchart TD
    Start --> A{x > 0?}
    A --->|Yes| B[println x]
    A ---->|No| End
    B --> End
"#;
    let result = parse(input);
    assert!(result.is_ok(), "Should parse long arrows with labels");
}

#[test]
fn test_undefined_node_in_edge_to() {
    let input = r#"flowchart TD
    Start --> A[x = 1]
    A --> B
    B --> End
"#;
    let result = parse(input);
    assert!(result.is_err());
    let err = result.unwrap_err();
    assert!(matches!(err, AnalysisError::Validation(_)));
    assert_eq!(
        err.to_string(),
        "Validation error: Undefined node 'B' referenced in edge from 'A' to 'B'"
    );
}

#[test]
fn test_undefined_node_in_edge_from() {
    let input = r#"flowchart TD
    Start --> A[x = 1]
    A --> End
    B --> End
"#;
    let result = parse(input);
    assert!(result.is_err());
    let err = result.unwrap_err();
    assert!(matches!(err, AnalysisError::Validation(_)));
    assert_eq!(
        err.to_string(),
        "Validation error: Undefined node 'B' referenced in edge from 'B' to 'End'"
    );
}

#[test]
fn test_bare_reference_to_defined_node_is_ok() {
    let input = r#"flowchart TD
    Start --> A[x = 1]
    A --> B{x > 0?}
    B -->|Yes| A
    B -->|No| End
"#;
    let result = parse(input);
    assert!(result.is_ok());
}

#[test]
fn test_undefined_node_in_condition_edge() {
    let input = r#"flowchart TD
    Start --> A{x > 0?}
    A -->|Yes| B
    A -->|No| End
"#;
    let result = parse(input);
    assert!(result.is_err());
    let err = result.unwrap_err();
    assert!(matches!(err, AnalysisError::Validation(_)));
    assert_eq!(
        err.to_string(),
        "Validation error: Undefined node 'B' referenced in edge from 'A' to 'B'"
    );
}

#[test]
fn test_parse_edge_label_with_spaces_around_yes() {
    let input = r#"flowchart TD
    Start --> A{x > 0?}
    A -->| Yes | B[println x]
    A -->| No | End
    B --> End
"#;
    let result = parse(input);
    assert!(
        result.is_ok(),
        "Should parse edge labels with spaces around Yes/No"
    );
    let flowchart = result.unwrap();
    let yes_edge = flowchart
        .edges
        .iter()
        .find(|e| e.from == "A" && e.to == "B");
    assert!(matches!(yes_edge.unwrap().label, Some(EdgeLabel::Yes)));
    let no_edge = flowchart
        .edges
        .iter()
        .find(|e| e.from == "A" && e.to == "End");
    assert!(matches!(no_edge.unwrap().label, Some(EdgeLabel::No)));
}

#[test]
fn test_parse_edge_label_with_interior_whitespace() {
    let input = r#"flowchart TD
    Start --> A[println 'hello']
    A -->|Hello World| End
"#;
    let result = parse(input);
    assert!(
        result.is_ok(),
        "Should parse edge labels with interior whitespace"
    );
    let flowchart = result.unwrap();
    let edge = flowchart
        .edges
        .iter()
        .find(|e| e.from == "A" && e.to == "End");
    assert_eq!(
        edge.unwrap().label,
        Some(EdgeLabel::Custom("Hello World".to_string()))
    );
}
