use blockvm::compile::{parse_block, Node, Param};
use blockvm::engine::{execute_code, CodeRunner, Queue};
use blockvm::memory::Memory;
use blockvm::num::Num;
use blockvm::scene::Scene;
use blockvm::value::{Id, Value};

fn num(raw: i64) -> Num {
    Num::from_raw(raw)
}

fn node(id: &str, op: &str, params: Vec<Param>, statements: Vec<Vec<Node>>) -> Node {
    Node {
        id: Id::from_str(id),
        op_name: op.to_string(),
        params,
        statements,
    }
}

fn run_producer(tree: &Node) -> Option<Value> {
    let mut scene = Scene::new();
    assert!(scene.add_object(Id::from_str("obj"), num(0), num(0)));
    let owner = Id::from_str("obj");
    let mut memory = Memory::new();
    let prog = parse_block(tree).unwrap();
    let br = prog[prog.len() - 1]
        .run(0, &mut memory, &mut scene, &owner, num(16))
        .unwrap();
    br.return_value
}

#[test]
fn quotient_rounds_toward_negative_infinity() {
    let tree = node(
        "q1",
        "quotient_and_mod",
        vec![
            Param::Null,
            Param::Number(num(-7000)),
            Param::Null,
            Param::Number(num(2000)),
            Param::Null,
            Param::Text("QUOTIENT".to_string()),
        ],
        vec![],
    );
    assert_eq!(run_producer(&tree), Some(Value::Number(num(-4000))));
}

#[test]
fn remainder_keeps_the_dividend_sign() {
    let tree = node(
        "q1",
        "quotient_and_mod",
        vec![
            Param::Null,
            Param::Number(num(-7000)),
            Param::Null,
            Param::Number(num(2000)),
            Param::Null,
            Param::Text("MOD".to_string()),
        ],
        vec![],
    );
    assert_eq!(run_producer(&tree), Some(Value::Number(num(-1000))));
}

#[test]
fn unary_operations_produce_exact_results() {
    let cases = [
        ("square", 2500i64, 6250i64),
        ("floor", -3500, -4000),
        ("ceil", 3100, 4000),
        ("round", 3500, 4000),
        ("abs", -4200, 4200),
        ("factorial", 3250, 250),
    ];
    for (name, input, expected) in cases {
        let tree = node(
            "c1",
            "calc_operation",
            vec![
                Param::Null,
                Param::Number(num(input)),
                Param::Null,
                Param::Text(name.to_string()),
            ],
            vec![],
        );
        assert_eq!(
            run_producer(&tree),
            Some(Value::Number(num(expected))),
            "operator {}",
            name
        );
    }
}

#[test]
fn numeric_comparison_orders_by_value() {
    for (op, expected) in [("GREATER", false), ("LESS", true), ("NOT_EQUAL", true)] {
        let tree = node(
            "b1",
            "boolean_basic_operator",
            vec![
                Param::Number(num(2000)),
                Param::Text(op.to_string()),
                Param::Text("3".to_string()),
            ],
            vec![],
        );
        assert_eq!(run_producer(&tree), Some(Value::Boolean(expected)), "{}", op);
    }
}

#[test]
fn locate_xy_places_the_object() {
    let tree = node(
        "l1",
        "locate_xy",
        vec![Param::Number(num(7000)), Param::Number(num(-3000))],
        vec![],
    );
    let prog = parse_block(&tree).unwrap();
    let mut scene = Scene::new();
    assert!(scene.add_object(Id::from_str("obj"), num(1000), num(1000)));
    let mut queue = Queue(vec![CodeRunner::new(prog, Id::from_str("obj"))]);
    execute_code(&mut queue, &mut scene, num(16));
    let pos = scene.obj_pos(&Id::from_str("obj")).unwrap();
    assert_eq!((pos.0.raw, pos.1.raw), (7000, -3000));
}

#[test]
fn coordinate_query_reads_another_object() {
    let tree = node(
        "c1",
        "coordinate_object",
        vec![
            Param::Null,
            Param::Text("other".to_string()),
            Param::Null,
            Param::Text("y".to_string()),
        ],
        vec![],
    );
    let prog = parse_block(&tree).unwrap();
    let mut scene = Scene::new();
    assert!(scene.add_object(Id::from_str("obj"), num(0), num(0)));
    assert!(scene.add_object(Id::from_str("other"), num(500), num(800)));
    let owner = Id::from_str("obj");
    let mut memory = Memory::new();
    let br = prog[0]
        .run(0, &mut memory, &mut scene, &owner, num(16))
        .unwrap();
    assert_eq!(br.return_value, Some(Value::Number(num(800))));
}

#[test]
fn move_direction_steps_horizontally() {
    let tree = node(
        "m1",
        "move_direction",
        vec![Param::Number(num(2500))],
        vec![],
    );
    let prog = parse_block(&tree).unwrap();
    let mut scene = Scene::new();
    assert!(scene.add_object(Id::from_str("obj"), num(1000), num(4000)));
    let mut queue = Queue(vec![CodeRunner::new(prog, Id::from_str("obj"))]);
    execute_code(&mut queue, &mut scene, num(16));
    let pos = scene.obj_pos(&Id::from_str("obj")).unwrap();
    assert_eq!((pos.0.raw, pos.1.raw), (3500, 4000));
}

#[test]
fn move_y_steps_vertically() {
    let tree = node("m1", "move_y", vec![Param::Number(num(-1500))], vec![]);
    let prog = parse_block(&tree).unwrap();
    let mut scene = Scene::new();
    assert!(scene.add_object(Id::from_str("obj"), num(0), num(0)));
    let mut queue = Queue(vec![CodeRunner::new(prog, Id::from_str("obj"))]);
    execute_code(&mut queue, &mut scene, num(16));
    let pos = scene.obj_pos(&Id::from_str("obj")).unwrap();
    assert_eq!((pos.0.raw, pos.1.raw), (0, -1500));
}

#[test]
fn wait_in_a_script_delays_the_step_after_it() {
    let script_tree = vec![
        node("w1", "wait_second", vec![Param::Number(num(2000))], vec![]),
        node("m1", "move_x", vec![Param::Number(num(1000))], vec![]),
    ];
    let mut blocks = Vec::new();
    for t in &script_tree {
        blocks.extend(parse_block(t).unwrap());
    }
    let mut scene = Scene::new();
    assert!(scene.add_object(Id::from_str("obj"), num(0), num(0)));
    let mut queue = Queue(vec![CodeRunner::new(blocks, Id::from_str("obj"))]);
    execute_code(&mut queue, &mut scene, num(1500));
    assert_eq!(scene.obj_pos(&Id::from_str("obj")).unwrap().0.raw, 0);
    assert_eq!(queue.0.len(), 1);
    execute_code(&mut queue, &mut scene, num(1500));
    assert_eq!(scene.obj_pos(&Id::from_str("obj")).unwrap().0.raw, 1000);
    assert!(queue.0.is_empty());
}

#[test]
fn true_wrapper_block_is_unwrapped() {
    let wrapper = node("t1", "True", vec![Param::Bool(true)], vec![]);
    let tree = node(
        "i1",
        "_if",
        vec![Param::Block(wrapper)],
        vec![vec![node(
            "m1",
            "move_x",
            vec![Param::Number(num(1000))],
            vec![],
        )]],
    );
    let prog = parse_block(&tree).unwrap();
    let mut scene = Scene::new();
    assert!(scene.add_object(Id::from_str("obj"), num(0), num(0)));
    let mut queue = Queue(vec![CodeRunner::new(prog, Id::from_str("obj"))]);
    execute_code(&mut queue, &mut scene, num(16));
    assert_eq!(scene.obj_pos(&Id::from_str("obj")).unwrap().0.raw, 1000);
}

#[test]
fn locate_moves_onto_another_object() {
    let tree = node(
        "l1",
        "locate",
        vec![Param::Text("target".to_string())],
        vec![],
    );
    let prog = parse_block(&tree).unwrap();
    let mut scene = Scene::new();
    assert!(scene.add_object(Id::from_str("obj"), num(0), num(0)));
    assert!(scene.add_object(Id::from_str("target"), num(1234), num(-567)));
    let mut queue = Queue(vec![CodeRunner::new(prog, Id::from_str("obj"))]);
    execute_code(&mut queue, &mut scene, num(16));
    let pos = scene.obj_pos(&Id::from_str("obj")).unwrap();
    assert_eq!((pos.0.raw, pos.1.raw), (1234, -567));
}

#[test]
fn nested_comparison_decides_a_conditional() {
    let cmp = node(
        "b1",
        "boolean_basic_operator",
        vec![
            Param::Number(num(2000)),
            Param::Text("LESS".to_string()),
            Param::Number(num(3000)),
        ],
        vec![],
    );
    let tree = node(
        "i1",
        "_if",
        vec![Param::Block(cmp)],
        vec![vec![node(
            "m1",
            "move_x",
            vec![Param::Number(num(1000))],
            vec![],
        )]],
    );
    let prog = parse_block(&tree).unwrap();
    let mut scene = Scene::new();
    assert!(scene.add_object(Id::from_str("obj"), num(0), num(0)));
    let mut queue = Queue(vec![CodeRunner::new(prog, Id::from_str("obj"))]);
    execute_code(&mut queue, &mut scene, num(16));
    assert_eq!(scene.obj_pos(&Id::from_str("obj")).unwrap().0.raw, 1000);
}

#[test]
fn set_variable_then_tick_updates_the_table() {
    let tree = node(
        "s1",
        "set_variable",
        vec![
            Param::Text("score".to_string()),
            Param::Text("99".to_string()),
        ],
        vec![],
    );
    let prog = parse_block(&tree).unwrap();
    let mut scene = Scene::new();
    assert!(scene.add_object(Id::from_str("obj"), num(0), num(0)));
    assert!(scene.add_variable(Id::from_str("score"), Value::Number(num(0))));
    let mut queue = Queue(vec![CodeRunner::new(prog, Id::from_str("obj"))]);
    execute_code(&mut queue, &mut scene, num(16));
    assert_eq!(
        scene.var_get(&Id::from_str("score")),
        Some(&Value::Text("99".to_string()))
    );
}
