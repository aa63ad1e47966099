use blockvm::engine::{event_listener, Code, Codes, EventType, Queue};
use blockvm::memory::Memory;
use blockvm::num::Num;
use blockvm::state::{BlockState, RepeatEndState, RepeatState};
use blockvm::value::{Id, Label, Value};

#[test]
fn memory_stores_and_returns_the_previous_value() {
    let mut memory = Memory::new();
    let id = Id::from_str("b1");
    assert!(memory.get(&id, Label::Count).is_none());
    let old = memory.insert(&id, Label::Count, Value::Number(Num::from_raw(1000)));
    assert_eq!(old, None);
    assert_eq!(
        memory.get(&id, Label::Count),
        Some(&Value::Number(Num::from_raw(1000)))
    );
    let old = memory.insert(&id, Label::Count, Value::Number(Num::from_raw(2000)));
    assert_eq!(old, Some(Value::Number(Num::from_raw(1000))));
}

#[test]
fn memory_keys_are_the_pair_of_identity_and_label() {
    let mut memory = Memory::new();
    let a = Id::from_str("a");
    let b = Id::from_str("b");
    memory.insert(&a, Label::Count, Value::Boolean(true));
    memory.insert(&a, Label::Delta, Value::Boolean(false));
    assert_eq!(memory.get(&a, Label::Count), Some(&Value::Boolean(true)));
    assert_eq!(memory.get(&a, Label::Delta), Some(&Value::Boolean(false)));
    assert!(memory.get(&b, Label::Count).is_none());
}

#[test]
fn memory_remove_erases_one_key_alone() {
    let mut memory = Memory::new();
    let id = Id::from_str("b1");
    memory.insert(&id, Label::Count, Value::Number(Num::from_raw(1000)));
    memory.insert(&id, Label::IterNum, Value::Number(Num::from_raw(3000)));
    let removed = memory.remove(&id, Label::Count);
    assert_eq!(removed, Some(Value::Number(Num::from_raw(1000))));
    assert!(memory.get(&id, Label::Count).is_none());
    assert!(memory.get(&id, Label::IterNum).is_some());
    assert_eq!(memory.remove(&id, Label::Count), None);
}

#[test]
fn block_state_accessors_match_their_kind() {
    let header = BlockState::RepeatBasic(RepeatState { count: 2, length: 4 });
    assert_eq!(
        header.repeat_basic(),
        Some(RepeatState { count: 2, length: 4 })
    );
    assert_eq!(header.repeat_basic_end(), None);

    let endm = BlockState::RepeatBasicEnd(RepeatEndState { length: 4 });
    assert_eq!(endm.repeat_basic_end(), Some(RepeatEndState { length: 4 }));
    assert_eq!(endm.repeat_basic(), None);

    assert_eq!(BlockState::Inactive.repeat_basic(), None);
    assert_eq!(BlockState::Inactive.repeat_basic_end(), None);
}

#[test]
fn delivered_event_spawns_one_runner_per_matching_script() {
    let make_code = || Code {
        event: EventType::WhenRunButtonClick,
        blocks: Vec::new(),
    };
    let entries = vec![
        (Id::from_str("a"), Codes(vec![make_code(), make_code()])),
        (Id::from_str("b"), Codes(vec![make_code()])),
    ];
    let mut queue = Queue(Vec::new());
    event_listener(EventType::WhenRunButtonClick, &entries, &mut queue);
    assert_eq!(queue.0.len(), 3);
    assert_eq!(queue.0[0].owner, Id::from_str("a"));
    assert_eq!(queue.0[2].owner, Id::from_str("b"));
    assert_eq!(queue.0[0].pointer, 0);
}
