use blockvm::compile::{compile_script, parse_block, CompileError, Node, Param};
use blockvm::instruction::OpKind;
use blockvm::num::Num;
use blockvm::value::Id;

fn node(id: &str, op: &str, params: Vec<Param>, statements: Vec<Vec<Node>>) -> Node {
    Node {
        id: Id::from_str(id),
        op_name: op.to_string(),
        params,
        statements,
    }
}

fn move_x_node(id: &str, amount: i64) -> Node {
    node(id, "move_x", vec![Param::Number(Num::from_raw(amount))], vec![])
}

#[test]
fn repeat_emits_header_body_and_end_marker() {
    let tree = node(
        "r1",
        "repeat_basic",
        vec![Param::Number(Num::from_raw(3000))],
        vec![vec![move_x_node("m1", 10000)]],
    );
    let prog = parse_block(&tree).unwrap();
    assert_eq!(prog.len(), 3);
    match &prog[0].op {
        OpKind::RepeatBasic { statements_length, .. } => assert_eq!(*statements_length, 1),
        other => panic!("expected a repeat header, got {:?}", other),
    }
    match &prog[2].op {
        OpKind::RepeatBasicEnd { statements_length } => assert_eq!(*statements_length, 1),
        other => panic!("expected an end marker, got {:?}", other),
    }
    assert_eq!(prog[0].id, prog[2].id);
}

#[test]
fn jump_targets_pair_up_for_every_body_length() {
    for body_len in 0usize..4 {
        let body: Vec<Node> = (0..body_len)
            .map(|k| move_x_node(&format!("m{}", k), 1000))
            .collect();
        let tree = node(
            "r1",
            "repeat_basic",
            vec![Param::Number(Num::from_raw(2000))],
            vec![body],
        );
        let prog = parse_block(&tree).unwrap();
        let header_pos = 0usize;
        let end_pos = body_len + 1;
        match &prog[header_pos].op {
            OpKind::RepeatBasic { statements_length, .. } => {
                // the forward target on exhaustion is one past the end marker
                assert_eq!(header_pos + statements_length + 2, end_pos + 1);
            }
            other => panic!("expected a repeat header, got {:?}", other),
        }
        match &prog[end_pos].op {
            OpKind::RepeatBasicEnd { statements_length } => {
                // the backward target is the header itself
                assert_eq!(end_pos - statements_length - 1, header_pos);
            }
            other => panic!("expected an end marker, got {:?}", other),
        }
    }
}

#[test]
fn nested_expression_is_emitted_before_its_consumer() {
    let expr = node(
        "c1",
        "calc_basic",
        vec![
            Param::Number(Num::from_raw(2000)),
            Param::Text("PLUS".to_string()),
            Param::Number(Num::from_raw(3000)),
        ],
        vec![],
    );
    let tree = node("m1", "move_x", vec![Param::Block(expr)], vec![]);
    let prog = parse_block(&tree).unwrap();
    assert_eq!(prog.len(), 2);
    assert!(matches!(prog[0].op, OpKind::CalcBasic { .. }));
    match &prog[1].op {
        OpKind::MoveX { amount } => match amount {
            blockvm::value::Value::Memory(id, _) => assert_eq!(id, &prog[0].id),
            other => panic!("expected a memory reference, got {:?}", other),
        },
        other => panic!("expected a move, got {:?}", other),
    }
}

#[test]
fn literal_wrapper_is_unwrapped_not_executed() {
    let wrapper = node("w1", "number", vec![Param::Number(Num::from_raw(7000))], vec![]);
    let tree = node("m1", "move_x", vec![Param::Block(wrapper)], vec![]);
    let prog = parse_block(&tree).unwrap();
    assert_eq!(prog.len(), 1);
    match &prog[0].op {
        OpKind::MoveX { amount } => {
            assert_eq!(amount, &blockvm::value::Value::Number(Num::from_raw(7000)))
        }
        other => panic!("expected a move, got {:?}", other),
    }
}

#[test]
fn unknown_statement_is_skipped() {
    let tree = node("u1", "sing_a_song", vec![], vec![]);
    let prog = parse_block(&tree).unwrap();
    assert!(prog.is_empty());
}

#[test]
fn unknown_expression_aborts_the_script() {
    let expr = node("u1", "sing_a_song", vec![], vec![]);
    let tree = node("m1", "move_x", vec![Param::Block(expr)], vec![]);
    assert_eq!(parse_block(&tree), Err(CompileError::UnsupportedOperation));
}

#[test]
fn missing_parameter_aborts_the_script() {
    let tree = node("m1", "move_x", vec![], vec![]);
    assert_eq!(parse_block(&tree), Err(CompileError::MissingParameter));
    let tree = node("m2", "move_x", vec![Param::Null], vec![]);
    assert_eq!(parse_block(&tree), Err(CompileError::MissingParameter));
}

#[test]
fn unknown_operator_aborts_the_script() {
    let tree = node(
        "c1",
        "calc_basic",
        vec![
            Param::Number(Num::from_raw(1000)),
            Param::Text("POWER".to_string()),
            Param::Number(Num::from_raw(2000)),
        ],
        vec![],
    );
    assert_eq!(parse_block(&tree), Err(CompileError::UnsupportedOperation));
}

#[test]
fn if_emits_header_then_body_without_end_marker() {
    let tree = node(
        "i1",
        "_if",
        vec![Param::Bool(true)],
        vec![vec![move_x_node("m1", 1000), move_x_node("m2", 1000)]],
    );
    let prog = parse_block(&tree).unwrap();
    assert_eq!(prog.len(), 3);
    match &prog[0].op {
        OpKind::If { statements_length, .. } => assert_eq!(*statements_length, 2),
        other => panic!("expected a conditional header, got {:?}", other),
    }
}

#[test]
fn whole_script_compiles_in_order() {
    let script = vec![move_x_node("a", 1000), move_x_node("b", 2000)];
    let prog = compile_script(&script).unwrap();
    assert_eq!(prog.len(), 2);
    assert_eq!(prog[0].id, Id::from_str("a"));
    assert_eq!(prog[1].id, Id::from_str("b"));
}

#[test]
fn calc_operation_uses_spread_parameter_slots() {
    let tree = node(
        "c1",
        "calc_operation",
        vec![
            Param::Null,
            Param::Number(Num::from_raw(2000)),
            Param::Null,
            Param::Text("square".to_string()),
        ],
        vec![],
    );
    let prog = parse_block(&tree).unwrap();
    assert_eq!(prog.len(), 1);
    assert!(matches!(prog[0].op, OpKind::CalcOperation { .. }));
}

#[test]
fn computed_variable_name_is_refused() {
    let expr = node(
        "c1",
        "calc_basic",
        vec![
            Param::Text("a".to_string()),
            Param::Text("PLUS".to_string()),
            Param::Text("b".to_string()),
        ],
        vec![],
    );
    let tree = node(
        "s1",
        "set_variable",
        vec![Param::Block(expr), Param::Number(Num::from_raw(1000))],
        vec![],
    );
    assert_eq!(parse_block(&tree), Err(CompileError::MalformedParameter));
}

#[test]
fn numeric_operator_name_reads_as_its_text_form() {
    let tree = node(
        "c1",
        "calc_basic",
        vec![
            Param::Number(Num::from_raw(1000)),
            Param::Number(Num::from_raw(7000)),
            Param::Number(Num::from_raw(2000)),
        ],
        vec![],
    );
    // the operator slot coerces to the text "7", which names no operator
    assert_eq!(parse_block(&tree), Err(CompileError::UnsupportedOperation));
}

#[test]
fn unsupported_unary_operator_is_refused() {
    let tree = node(
        "c1",
        "calc_operation",
        vec![
            Param::Null,
            Param::Number(Num::from_raw(2000)),
            Param::Null,
            Param::Text("sin".to_string()),
        ],
        vec![],
    );
    assert_eq!(parse_block(&tree), Err(CompileError::UnsupportedOperation));
}
