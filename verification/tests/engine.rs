use blockvm::compile::{parse_block, Node, Param};
use blockvm::engine::{execute_code, CodeRunner, Queue};
use blockvm::instruction::Instruction;
use blockvm::memory::{Memory, RunError};
use blockvm::num::Num;
use blockvm::scene::Scene;
use blockvm::value::{CoercionError, Id, Label, Value};

fn num(raw: i64) -> Num {
    Num::from_raw(raw)
}

fn node(id: &str, op: &str, params: Vec<Param>, statements: Vec<Vec<Node>>) -> Node {
    Node {
        id: Id::from_str(id),
        op_name: op.to_string(),
        params,
        statements,
    }
}

fn scene_with_object(id: &str, x: i64, y: i64) -> Scene {
    let mut scene = Scene::new();
    assert!(scene.add_object(Id::from_str(id), num(x), num(y)));
    scene
}

fn obj_x(scene: &Scene, id: &str) -> i64 {
    scene.obj_pos(&Id::from_str(id)).unwrap().0.raw
}

fn repeat_move_script(n_raw: i64, dx_raw: i64) -> Vec<Instruction> {
    let tree = node(
        "r1",
        "repeat_basic",
        vec![Param::Number(num(n_raw))],
        vec![vec![node(
            "m1",
            "move_x",
            vec![Param::Number(num(dx_raw))],
            vec![],
        )]],
    );
    parse_block(&tree).unwrap()
}

fn tick(queue: &mut Queue, scene: &mut Scene, delta_raw: i64) {
    execute_code(queue, scene, num(delta_raw));
}

#[test]
fn counted_repeat_moves_three_times_one_iteration_per_tick() {
    let prog = repeat_move_script(3000, 10000);
    let mut scene = scene_with_object("obj", 0, 0);
    let mut queue = Queue(vec![CodeRunner::new(prog, Id::from_str("obj"))]);
    tick(&mut queue, &mut scene, 16);
    assert_eq!(obj_x(&scene, "obj"), 10000);
    assert_eq!(queue.0.len(), 1);
    tick(&mut queue, &mut scene, 16);
    assert_eq!(obj_x(&scene, "obj"), 20000);
    tick(&mut queue, &mut scene, 16);
    assert_eq!(obj_x(&scene, "obj"), 30000);
    tick(&mut queue, &mut scene, 16);
    assert_eq!(obj_x(&scene, "obj"), 30000);
    assert!(queue.0.is_empty());
}

#[test]
fn repeat_zero_times_moves_nothing() {
    let prog = repeat_move_script(0, 10000);
    let mut scene = scene_with_object("obj", 0, 0);
    let mut queue = Queue(vec![CodeRunner::new(prog, Id::from_str("obj"))]);
    tick(&mut queue, &mut scene, 16);
    assert_eq!(obj_x(&scene, "obj"), 0);
    assert!(queue.0.is_empty());
}

#[test]
fn repeat_once_moves_once() {
    let prog = repeat_move_script(1000, 10000);
    let mut scene = scene_with_object("obj", 0, 0);
    let mut queue = Queue(vec![CodeRunner::new(prog, Id::from_str("obj"))]);
    let mut ticks = 0;
    while !queue.0.is_empty() {
        tick(&mut queue, &mut scene, 16);
        ticks += 1;
        assert!(ticks < 100);
    }
    assert_eq!(obj_x(&scene, "obj"), 10000);
}

#[test]
fn repeat_five_times_moves_five_times() {
    let prog = repeat_move_script(5000, 10000);
    let mut scene = scene_with_object("obj", 0, 0);
    let mut queue = Queue(vec![CodeRunner::new(prog, Id::from_str("obj"))]);
    let mut ticks = 0;
    while !queue.0.is_empty() {
        tick(&mut queue, &mut scene, 16);
        ticks += 1;
        assert!(ticks < 100);
    }
    assert_eq!(obj_x(&scene, "obj"), 50000);
}

#[test]
fn variable_round_trip_produces_the_written_value() {
    let mut scene = scene_with_object("obj", 0, 0);
    assert!(scene.add_variable(Id::from_str("v"), Value::Number(num(0))));
    let owner = Id::from_str("obj");
    let mut memory = Memory::new();

    let set_tree = node(
        "s1",
        "set_variable",
        vec![
            Param::Text("v".to_string()),
            Param::Number(num(5000)),
        ],
        vec![],
    );
    let get_tree = node(
        "g1",
        "get_variable",
        vec![Param::Text("v".to_string())],
        vec![],
    );
    let set_prog = parse_block(&set_tree).unwrap();
    let get_prog = parse_block(&get_tree).unwrap();

    let br = set_prog[0]
        .run(0, &mut memory, &mut scene, &owner, num(16))
        .unwrap();
    assert_eq!(br.pointer, 1);
    let br = get_prog[0]
        .run(0, &mut memory, &mut scene, &owner, num(16))
        .unwrap();
    assert_eq!(br.return_value, Some(Value::Number(num(5000))));
}

#[test]
fn string_length_counts_characters_not_bytes() {
    let mut scene = scene_with_object("obj", 0, 0);
    let owner = Id::from_str("obj");
    let mut memory = Memory::new();
    let tree = node(
        "l1",
        "length_of_string",
        vec![Param::Text("\u{c548}\u{b155}".to_string())],
        vec![],
    );
    let prog = parse_block(&tree).unwrap();
    let br = prog[0]
        .run(0, &mut memory, &mut scene, &owner, num(16))
        .unwrap();
    assert_eq!(br.return_value, Some(Value::Number(num(2000))));
}

#[test]
fn timed_move_applies_the_exact_remainder() {
    let tree = node(
        "t1",
        "move_xy_time",
        vec![
            Param::Number(num(2000)),
            Param::Number(num(10000)),
            Param::Number(num(0)),
        ],
        vec![],
    );
    let prog = parse_block(&tree).unwrap();
    let mut scene = scene_with_object("obj", 0, 0);
    let mut queue = Queue(vec![CodeRunner::new(prog, Id::from_str("obj"))]);
    tick(&mut queue, &mut scene, 1500);
    assert_eq!(obj_x(&scene, "obj"), 7500);
    assert_eq!(queue.0.len(), 1);
    tick(&mut queue, &mut scene, 1000);
    assert_eq!(obj_x(&scene, "obj"), 10000);
    assert!(queue.0.is_empty());
}

#[test]
fn wait_resumes_at_the_first_sufficient_tick_and_clears_its_keys() {
    let mut scene = scene_with_object("obj", 0, 0);
    let owner = Id::from_str("obj");
    let mut memory = Memory::new();
    let tree = node(
        "w1",
        "wait_second",
        vec![Param::Number(num(2000))],
        vec![],
    );
    let prog = parse_block(&tree).unwrap();
    let wait_id = prog[0].id.clone();

    let br = prog[0]
        .run(0, &mut memory, &mut scene, &owner, num(1500))
        .unwrap();
    assert!(br.is_continue);
    assert_eq!(br.pointer, 0);
    assert!(memory.get(&wait_id, Label::Delta).is_some());

    let br = prog[0]
        .run(0, &mut memory, &mut scene, &owner, num(1500))
        .unwrap();
    assert!(!br.is_continue);
    assert_eq!(br.pointer, 1);
    assert!(memory.get(&wait_id, Label::Delta).is_none());
    assert!(memory.get(&wait_id, Label::Time).is_none());
}

#[test]
fn plus_concatenates_non_numeric_text() {
    let mut scene = scene_with_object("obj", 0, 0);
    let owner = Id::from_str("obj");
    let mut memory = Memory::new();
    let tree = node(
        "c1",
        "calc_basic",
        vec![
            Param::Text("a".to_string()),
            Param::Text("PLUS".to_string()),
            Param::Text("b".to_string()),
        ],
        vec![],
    );
    let prog = parse_block(&tree).unwrap();
    let br = prog[0]
        .run(0, &mut memory, &mut scene, &owner, num(16))
        .unwrap();
    assert_eq!(br.return_value, Some(Value::Text("ab".to_string())));
}

#[test]
fn non_numeric_operand_is_fatal_outside_plus() {
    let mut scene = scene_with_object("obj", 0, 0);
    let owner = Id::from_str("obj");
    let mut memory = Memory::new();
    for op in ["MINUS", "MULTI", "DIVIDE"] {
        let tree = node(
            "c1",
            "calc_basic",
            vec![
                Param::Text("abc".to_string()),
                Param::Text(op.to_string()),
                Param::Number(num(3000)),
            ],
            vec![],
        );
        let prog = parse_block(&tree).unwrap();
        let r = prog[0].run(0, &mut memory, &mut scene, &owner, num(16));
        assert_eq!(
            r,
            Err(RunError::Coercion(CoercionError::NotANumber)),
            "operator {}",
            op
        );
    }
}

#[test]
fn numeric_variable_name_works_through_its_text_form() {
    let mut scene = scene_with_object("obj", 0, 0);
    assert!(scene.add_variable(Id::from_str("5"), Value::Number(num(0))));
    let owner = Id::from_str("obj");
    let mut memory = Memory::new();

    let set_tree = node(
        "s1",
        "set_variable",
        vec![Param::Number(num(5000)), Param::Number(num(7000))],
        vec![],
    );
    let get_tree = node(
        "g1",
        "get_variable",
        vec![Param::Number(num(5000))],
        vec![],
    );
    let set_prog = parse_block(&set_tree).unwrap();
    let get_prog = parse_block(&get_tree).unwrap();
    set_prog[0]
        .run(0, &mut memory, &mut scene, &owner, num(16))
        .unwrap();
    let br = get_prog[0]
        .run(0, &mut memory, &mut scene, &owner, num(16))
        .unwrap();
    assert_eq!(br.return_value, Some(Value::Number(num(7000))));
}

#[test]
fn plus_adds_numeric_text() {
    let mut scene = scene_with_object("obj", 0, 0);
    let owner = Id::from_str("obj");
    let mut memory = Memory::new();
    let tree = node(
        "c1",
        "calc_basic",
        vec![
            Param::Text("2".to_string()),
            Param::Text("PLUS".to_string()),
            Param::Number(num(3000)),
        ],
        vec![],
    );
    let prog = parse_block(&tree).unwrap();
    let br = prog[0]
        .run(0, &mut memory, &mut scene, &owner, num(16))
        .unwrap();
    assert_eq!(br.return_value, Some(Value::Number(num(5000))));
}

#[test]
fn nested_expression_feeds_its_consumer_through_memory() {
    let expr = node(
        "c1",
        "calc_basic",
        vec![
            Param::Number(num(2000)),
            Param::Text("PLUS".to_string()),
            Param::Number(num(3000)),
        ],
        vec![],
    );
    let tree = node("m1", "move_x", vec![Param::Block(expr)], vec![]);
    let prog = parse_block(&tree).unwrap();
    let mut scene = scene_with_object("obj", 0, 0);
    let mut queue = Queue(vec![CodeRunner::new(prog, Id::from_str("obj"))]);
    tick(&mut queue, &mut scene, 16);
    assert_eq!(obj_x(&scene, "obj"), 5000);
    assert!(queue.0.is_empty());
}

#[test]
fn conditional_skips_its_body_when_false() {
    let make = |cond: bool| {
        node(
            "i1",
            "_if",
            vec![Param::Bool(cond)],
            vec![vec![node(
                "m1",
                "move_x",
                vec![Param::Number(num(10000))],
                vec![],
            )]],
        )
    };
    for (cond, expected) in [(true, 10000i64), (false, 0)] {
        let prog = parse_block(&make(cond)).unwrap();
        let mut scene = scene_with_object("obj", 0, 0);
        let mut queue = Queue(vec![CodeRunner::new(prog, Id::from_str("obj"))]);
        tick(&mut queue, &mut scene, 16);
        assert_eq!(obj_x(&scene, "obj"), expected);
        assert!(queue.0.is_empty());
    }
}

#[test]
fn change_variable_adds_numbers_and_appends_text() {
    let mut scene = Scene::new();
    scene.add_object(Id::from_str("obj"), num(0), num(0));
    scene.add_variable(Id::from_str("n"), Value::Number(num(1000)));
    scene.add_variable(Id::from_str("t"), Value::Text("ab".to_string()));
    let owner = Id::from_str("obj");
    let mut memory = Memory::new();

    let add_tree = node(
        "c1",
        "change_variable",
        vec![Param::Text("n".to_string()), Param::Number(num(2000))],
        vec![],
    );
    let prog = parse_block(&add_tree).unwrap();
    prog[0].run(0, &mut memory, &mut scene, &owner, num(16)).unwrap();
    assert_eq!(
        scene.var_get(&Id::from_str("n")),
        Some(&Value::Number(num(3000)))
    );

    let append_tree = node(
        "c2",
        "change_variable",
        vec![Param::Text("t".to_string()), Param::Text("c".to_string())],
        vec![],
    );
    let prog = parse_block(&append_tree).unwrap();
    prog[0].run(0, &mut memory, &mut scene, &owner, num(16)).unwrap();
    assert_eq!(
        scene.var_get(&Id::from_str("t")),
        Some(&Value::Text("abc".to_string()))
    );
}

#[test]
fn comparisons_fall_back_to_text_only_for_equality() {
    let mut scene = scene_with_object("obj", 0, 0);
    let owner = Id::from_str("obj");
    let mut memory = Memory::new();
    let make = |op: &str| {
        node(
            "b1",
            "boolean_basic_operator",
            vec![
                Param::Text("a".to_string()),
                Param::Text(op.to_string()),
                Param::Text("a".to_string()),
            ],
            vec![],
        )
    };
    let prog = parse_block(&make("EQUAL")).unwrap();
    let br = prog[0].run(0, &mut memory, &mut scene, &owner, num(16)).unwrap();
    assert_eq!(br.return_value, Some(Value::Boolean(true)));

    let prog = parse_block(&make("GREATER")).unwrap();
    let err = prog[0].run(0, &mut memory, &mut scene, &owner, num(16));
    assert_eq!(err, Err(RunError::TypeMismatch));
}

#[test]
fn missing_variable_is_a_lookup_failure() {
    let mut scene = scene_with_object("obj", 0, 0);
    let owner = Id::from_str("obj");
    let mut memory = Memory::new();
    let tree = node(
        "g1",
        "get_variable",
        vec![Param::Text("ghostly".to_string())],
        vec![],
    );
    let prog = parse_block(&tree).unwrap();
    let r = prog[0].run(0, &mut memory, &mut scene, &owner, num(16));
    assert_eq!(r, Err(RunError::LookupFailure));
}

#[test]
fn non_boolean_condition_is_a_coercion_failure() {
    let mut scene = scene_with_object("obj", 0, 0);
    let owner = Id::from_str("obj");
    let mut memory = Memory::new();
    let tree = node(
        "i1",
        "_if",
        vec![Param::Number(num(1000))],
        vec![vec![]],
    );
    let prog = parse_block(&tree).unwrap();
    let r = prog[0].run(0, &mut memory, &mut scene, &owner, num(16));
    assert_eq!(r, Err(RunError::Coercion(CoercionError::NotABoolean)));
}

#[test]
fn erring_runner_dies_alone_and_others_continue() {
    let bad = parse_block(&node(
        "g1",
        "get_variable",
        vec![Param::Text("missing".to_string())],
        vec![],
    ))
    .unwrap();
    let good = parse_block(&node(
        "m1",
        "move_x",
        vec![Param::Number(num(1000))],
        vec![],
    ))
    .unwrap();
    let mut scene = scene_with_object("obj", 0, 0);
    let mut queue = Queue(vec![
        CodeRunner::new(bad, Id::from_str("obj")),
        CodeRunner::new(good, Id::from_str("obj")),
    ]);
    tick(&mut queue, &mut scene, 16);
    assert_eq!(obj_x(&scene, "obj"), 1000);
    assert!(queue.0.is_empty());
}

#[test]
fn locate_moves_onto_the_pointer() {
    let tree = node(
        "l1",
        "locate",
        vec![Param::Text("mouse".to_string())],
        vec![],
    );
    let prog = parse_block(&tree).unwrap();
    let mut scene = scene_with_object("obj", 0, 0);
    scene.mouse.x = num(4000);
    scene.mouse.y = num(-2000);
    let mut queue = Queue(vec![CodeRunner::new(prog, Id::from_str("obj"))]);
    tick(&mut queue, &mut scene, 16);
    let pos = scene.obj_pos(&Id::from_str("obj")).unwrap();
    assert_eq!((pos.0.raw, pos.1.raw), (4000, -2000));
}

#[test]
fn infinite_repeat_runs_one_iteration_per_tick_forever() {
    let tree = node(
        "r1",
        "repeat_inf",
        vec![],
        vec![vec![node(
            "m1",
            "move_x",
            vec![Param::Number(num(1000))],
            vec![],
        )]],
    );
    let prog = parse_block(&tree).unwrap();
    let mut scene = scene_with_object("obj", 0, 0);
    let mut queue = Queue(vec![CodeRunner::new(prog, Id::from_str("obj"))]);
    for k in 1..=5i64 {
        tick(&mut queue, &mut scene, 16);
        assert_eq!(obj_x(&scene, "obj"), k * 1000);
        assert_eq!(queue.0.len(), 1);
    }
}
