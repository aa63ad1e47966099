//! The execution engine.
//!
//! One runner is one in-flight execution of one compiled script: its
//! instruction list, a program counter, the owning object's identifier, and
//! its own scratch memory. Each tick, the scheduler drains the queue; every
//! runner executes instructions until it suspends (re-enqueued for the next
//! tick) or its counter runs past the end (discarded). A fatal error
//! discards only the offending runner.
//!
//! There is no cancellation: nothing flushes the runners of a removed
//! object or of a stopped script from the queue. A runner whose owner is
//! gone dies with a lookup failure the next time it touches its object.
//! This is a deliberate simplification, not an oversight.

use vstd::prelude::*;

use crate::instruction::{prog_wf, Instruction, MAX_PROGRAM_LEN, OpKind};
use crate::memory::{lookup, mem_insert_spec, mem_remove_spec, mem_wf, EntryV, Memory};
use crate::num::Num;
use crate::scene::{obj_lookup, scene_wf, ObjV, Scene, SceneV};
use crate::step::{lemma_step_ok, lemma_step_progress, run_safe, step_spec};
use crate::value::{Id, Label, Value};

verus! {

/// The trigger events the engine understands.
#[derive(Clone, Copy, Debug, PartialEq, Eq, Structural)]
pub enum EventType {
    WhenRunButtonClick,
}

/// One compiled script with the trigger that starts it.
#[derive(Debug)]
pub struct Code {
    pub event: EventType,
    pub blocks: Vec<Instruction>,
}

/// The scripts attached to one object.
#[derive(Debug)]
pub struct Codes(pub Vec<Code>);

/// One in-flight execution of one script.
#[derive(Debug)]
pub struct CodeRunner {
    pub code: Vec<Instruction>,
    pub pointer: usize,
    pub owner: Id,
    pub memory: Memory,
}

/// The mathematical form of a runner.
pub struct RunnerV {
    pub code: Seq<Instruction>,
    pub pointer: int,
    pub owner: Seq<char>,
    pub mem: Seq<EntryV>,
}

impl View for CodeRunner {
    type V = RunnerV;

    open spec fn view(&self) -> RunnerV {
        RunnerV {
            code: self.code@,
            pointer: self.pointer as int,
            owner: self.owner@,
            mem: self.memory@,
        }
    }
}

impl CodeRunner {
    /// A fresh runner: counter at the start, empty scratch memory.
    pub fn new(code: Vec<Instruction>, owner: Id) -> (r: CodeRunner)
        ensures
            r@.code == code@,
            r@.pointer == 0,
            r@.owner == owner@,
            r@.mem =~= Seq::<EntryV>::empty(),
            mem_wf(r@.mem),
    {
        CodeRunner { code, pointer: 0, owner, memory: Memory::new() }
    }
}

/// The runners pending execution.
#[derive(Debug)]
pub struct Queue(pub Vec<CodeRunner>);

/// The mathematical form of a runner list.
pub open spec fn qview(s: Seq<CodeRunner>) -> Seq<RunnerV> {
    s.map_values(|r: CodeRunner| r@)
}

/// Every queued runner has a sound program and well-formed scratch memory.
pub open spec fn queue_wf(qs: Seq<RunnerV>) -> bool {
    forall|i: int|
        0 <= i < qs.len() ==> prog_wf((#[trigger] qs[i]).code) && mem_wf(qs[i].mem)
}

/// What one runner does within one tick: the scene it leaves, and, when it
/// suspends, the counter and scratch memory it resumes with. A produced
/// value is stored under the executed instruction's identity before the next
/// step. A fatal error or running past the end discards the runner.
pub open spec fn run_runner_spec(
    code: Seq<Instruction>,
    pc: int,
    mem: Seq<EntryV>,
    scene: SceneV,
    owner: Seq<char>,
    delta: Num,
) -> (SceneV, Option<(int, Seq<EntryV>)>)
    decreases code.len() - pc,
    via run_runner_spec_decreases
{
    if pc < 0 || pc >= code.len() {
        (scene, None)
    } else {
        match step_spec(code[pc], pc, mem, scene, owner, delta) {
            Err(_) => (scene, None),
            Ok(o) => {
                let mem2 = match o.return_value {
                    Some(v) => mem_insert_spec(o.mem, code[pc].id@, Label::ReturnValue, v),
                    None => o.mem,
                };
                if o.is_continue {
                    (o.scene, Some((o.pointer, mem2)))
                } else if o.pointer >= code.len() {
                    (o.scene, None)
                } else {
                    run_runner_spec(code, o.pointer, mem2, o.scene, owner, delta)
                }
            },
        }
    }
}

#[via_fn]
proof fn run_runner_spec_decreases(
    code: Seq<Instruction>,
    pc: int,
    mem: Seq<EntryV>,
    scene: SceneV,
    owner: Seq<char>,
    delta: Num,
) {
    if 0 <= pc < code.len() {
        lemma_step_progress(code[pc], pc, mem, scene, owner, delta);
    }
}

/// What one tick does to a runner list: each runner in order, against the
/// scene the previous one left; the survivors keep their order.
pub open spec fn run_queue_spec(rs: Seq<RunnerV>, scene: SceneV, delta: Num) -> (
    SceneV,
    Seq<RunnerV>,
)
    decreases rs.len(),
{
    if rs.len() == 0 {
        (scene, Seq::<RunnerV>::empty())
    } else {
        let first = run_runner_spec(rs[0].code, rs[0].pointer, rs[0].mem, scene, rs[0].owner, delta);
        let rest = run_queue_spec(rs.drop_first(), first.0, delta);
        match first.1 {
            Some(p) => (
                rest.0,
                seq![RunnerV { code: rs[0].code, pointer: p.0, owner: rs[0].owner, mem: p.1 }]
                    + rest.1,
            ),
            None => rest,
        }
    }
}

/// How far a runner still is from the end of its program; zero once past it.
pub open spec fn room_left(len: int, pc: int) -> int {
    if pc <= len {
        len - pc
    } else {
        0
    }
}

/// A sound program lets every reachable instruction do its pointer
/// arithmetic within the machine's index range.
proof fn lemma_wf_run_safe(prog: Seq<Instruction>, pc: int)
    requires
        prog_wf(prog),
        0 <= pc < prog.len(),
    ensures
        run_safe(prog[pc].op, pc),
{
    assert(crate::instruction::inst_wf_at(prog, pc));
}

/// Runs one runner to its suspension, completion or death, mutating the
/// scene and, on suspension, appending the resumed runner to `new_queue`.
#[verifier::loop_isolation(false)]
fn run_one(
    code: Vec<Instruction>,
    start: usize,
    owner: Id,
    memory: Memory,
    scene: &mut Scene,
    delta: Num,
    new_queue: &mut Vec<CodeRunner>,
)
    requires
        prog_wf(code@),
        mem_wf(memory@),
        scene_wf(old(scene)@),
    ensures
        ({
            let out = run_runner_spec(
                code@,
                start as int,
                memory@,
                old(scene)@,
                owner@,
                delta,
            );
            &&& final(scene)@ == out.0
            &&& scene_wf(final(scene)@)
            &&& final(scene)@.mouse == old(scene)@.mouse
            &&& match out.1 {
                Some(p) => mem_wf(p.1) && qview(final(new_queue)@) == qview(
                    old(new_queue)@,
                ).push(RunnerV { code: code@, pointer: p.0, owner: owner@, mem: p.1 }),
                None => final(new_queue)@ == old(new_queue)@,
            }
        }),
{
    let ghost target = run_runner_spec(code@, start as int, memory@, scene@, owner@, delta);
    let mut pointer: usize = start;
    let mut memory = memory;
    while pointer < code.len()
        invariant
            prog_wf(code@),
            mem_wf(memory@),
            scene_wf(scene@),
            scene@.mouse == old(scene)@.mouse,
            new_queue@ == old(new_queue)@,
            target == run_runner_spec(code@, pointer as int, memory@, scene@, owner@, delta),
        decreases room_left(code@.len() as int, pointer as int),
    {
        proof {
            lemma_wf_run_safe(code@, pointer as int);
            lemma_step_ok(code@[pointer as int], pointer as int, memory@, scene@, owner@, delta);
        }
        let br = match (&code[pointer]).run(pointer, &mut memory, scene, &owner, delta) {
            Ok(br) => br,
            Err(_) => {
                return ;
            },
        };
        let next: usize = br.pointer;
        let cont: bool = br.is_continue;
        match br.return_value {
            Some(v) => {
                proof {
                    crate::memory::lemma_insert(memory@, code@[pointer as int].id@, Label::ReturnValue, v@);
                }
                memory.insert(&code[pointer].id, Label::ReturnValue, v);
            },
            None => {},
        }
        pointer = next;
        if cont {
            let runner = CodeRunner { code, pointer, owner, memory };
            proof {
                assert(qview(new_queue@.push(runner)) =~= qview(new_queue@).push(runner@));
            }
            new_queue.push(runner);
            return ;
        }
    }
}

/// One engine tick: drains the whole queue, runs every runner until it
/// suspends or ends, and leaves the queue holding exactly the suspended
/// runners, in order.
#[verifier::loop_isolation(false)]
pub fn execute_code(queue: &mut Queue, scene: &mut Scene, delta: Num)
    requires
        queue_wf(qview(old(queue).0@)),
        scene_wf(old(scene)@),
    ensures
        final(scene)@ == run_queue_spec(qview(old(queue).0@), old(scene)@, delta).0,
        qview(final(queue).0@) == run_queue_spec(qview(old(queue).0@), old(scene)@, delta).1,
        scene_wf(final(scene)@),
        queue_wf(qview(final(queue).0@)),
        final(scene)@.mouse == old(scene)@.mouse,
{
    let ghost target = run_queue_spec(qview(queue.0@), scene@, delta);
    let mut new_queue: Vec<CodeRunner> = Vec::new();
    while queue.0.len() > 0
        invariant
            queue_wf(qview(queue.0@)),
            queue_wf(qview(new_queue@)),
            scene_wf(scene@),
            scene@.mouse == old(scene)@.mouse,
            target.0 == run_queue_spec(qview(queue.0@), scene@, delta).0,
            target.1 == qview(new_queue@) + run_queue_spec(qview(queue.0@), scene@, delta).1,
        decreases queue.0.len(),
    {
        let ghost before = qview(queue.0@);
        let ghost sc_pre = scene@;
        let r = queue.0.remove(0);
        proof {
            assert(before[0] == r@);
            assert(qview(queue.0@) =~= before.drop_first());
        }
        let CodeRunner { code, pointer, owner, memory } = r;
        let ghost new_before = qview(new_queue@);
        run_one(code, pointer, owner, memory, scene, delta, &mut new_queue);
        proof {
            let first = run_runner_spec(
                before[0].code,
                before[0].pointer,
                before[0].mem,
                sc_pre,
                before[0].owner,
                delta,
            );
            let rest = run_queue_spec(before.drop_first(), first.0, delta);
            match first.1 {
                Some(p) => {
                    let rv = RunnerV {
                        code: before[0].code,
                        pointer: p.0,
                        owner: before[0].owner,
                        mem: p.1,
                    };
                    assert(qview(new_queue@) == new_before.push(rv));
                    assert(new_before + (seq![rv] + rest.1) =~= new_before.push(rv) + rest.1);
                    assert forall|i: int|
                        0 <= i < qview(new_queue@).len() implies prog_wf(
                        (#[trigger] qview(new_queue@)[i]).code,
                    ) && mem_wf(qview(new_queue@)[i].mem) by {
                        if i < new_before.len() {
                            assert(qview(new_queue@)[i] == new_before[i]);
                        } else {
                            assert(qview(new_queue@)[i] == rv);
                        }
                    }
                },
                None => {},
            }
        }
    }
    proof {
        assert(qview(queue.0@) =~= Seq::<RunnerV>::empty());
        assert(target.1 =~= qview(new_queue@));
    }
    queue.0 = new_queue;
}

/// The runners one object's scripts spawn for an event: one fresh runner per
/// script whose trigger matches, in script order.
pub open spec fn spawned_for_codes(owner: Seq<char>, cs: Seq<Code>, event: EventType) -> Seq<
    RunnerV,
>
    decreases cs.len(),
{
    if cs.len() == 0 {
        Seq::<RunnerV>::empty()
    } else {
        let head = if cs[0].event == event {
            seq![
                RunnerV {
                    code: cs[0].blocks@,
                    pointer: 0,
                    owner,
                    mem: Seq::<EntryV>::empty(),
                },
            ]
        } else {
            Seq::<RunnerV>::empty()
        };
        head + spawned_for_codes(owner, cs.drop_first(), event)
    }
}

/// The runners a delivered event spawns over all objects, in table order.
pub open spec fn spawned(entries: Seq<(Id, Codes)>, event: EventType) -> Seq<RunnerV>
    decreases entries.len(),
{
    if entries.len() == 0 {
        Seq::<RunnerV>::empty()
    } else {
        spawned_for_codes(entries[0].0@, entries[0].1.0@, event) + spawned(
            entries.drop_first(),
            event,
        )
    }
}

/// Copies a compiled program.
fn clone_program(code: &Vec<Instruction>) -> (r: Vec<Instruction>)
    ensures
        r@ == code@,
{
    let mut out: Vec<Instruction> = Vec::new();
    let n: usize = code.len();
    let mut i: usize = 0;
    while i < n
        invariant
            i <= n,
            n == code@.len(),
            out@ =~= code@.subrange(0, i as int),
        decreases n - i,
    {
        out.push(code[i].clone());
        proof {
            assert(out@ =~= code@.subrange(0, i + 1));
        }
        i = i + 1;
    }
    proof {
        assert(out@ =~= code@);
    }
    out
}

/// Delivers a trigger event: enqueues a fresh runner, with the counter at
/// the start and empty scratch memory, for every script whose declared
/// trigger matches, once per matching script, in table order.
#[verifier::loop_isolation(false)]
pub fn event_listener(event: EventType, entries: &Vec<(Id, Codes)>, queue: &mut Queue)
    ensures
        qview(final(queue).0@) == qview(old(queue).0@) + spawned(entries@, event),
{
    let n: usize = entries.len();
    let mut i: usize = 0;
    while i < n
        invariant
            i <= n,
            qview(queue.0@) =~= qview(old(queue).0@) + spawned(
                entries@.subrange(0, i as int),
                event,
            ),
        decreases n - i,
    {
        let entry = &entries[i];
        let m: usize = entry.1.0.len();
        let mut j: usize = 0;
        while j < m
            invariant
                j <= m,
                m == entry.1.0@.len(),
                qview(queue.0@) =~= qview(old(queue).0@) + spawned(
                    entries@.subrange(0, i as int),
                    event,
                ) + spawned_for_codes(entry.0@, entry.1.0@.subrange(0, j as int), event),
            decreases m - j,
        {
            let code = &entry.1.0[j];
            if code.event == event {
                let runner = CodeRunner::new(clone_program(&code.blocks), entry.0.clone());
                proof {
                    assert(qview(queue.0@.push(runner)) =~= qview(queue.0@).push(runner@));
                }
                queue.0.push(runner);
            }
            proof {
                lemma_spawned_codes_extend(entry.0@, entry.1.0@, event, j as int);
            }
            j = j + 1;
        }
        proof {
            assert(entry.1.0@.subrange(0, m as int) =~= entry.1.0@);
            lemma_spawned_extend(entries@, event, i as int);
        }
        i = i + 1;
    }
    proof {
        assert(entries@.subrange(0, n as int) =~= entries@);
    }
}

/// Spawning over one more script appends that script's contribution.
proof fn lemma_spawned_codes_extend(owner: Seq<char>, cs: Seq<Code>, event: EventType, j: int)
    requires
        0 <= j < cs.len(),
    ensures
        spawned_for_codes(owner, cs.subrange(0, j + 1), event) =~= spawned_for_codes(
            owner,
            cs.subrange(0, j),
            event,
        ) + (if cs[j].event == event {
            seq![
                RunnerV {
                    code: cs[j].blocks@,
                    pointer: 0,
                    owner,
                    mem: Seq::<EntryV>::empty(),
                },
            ]
        } else {
            Seq::<RunnerV>::empty()
        }),
    decreases j,
{
    if j == 0 {
        assert(cs.subrange(0, 0) =~= Seq::<Code>::empty());
        assert(cs.subrange(0, 1)[0] == cs[0]);
        assert(cs.subrange(0, 1).drop_first() =~= Seq::<Code>::empty());
    } else {
        assert(cs.subrange(0, j + 1)[0] == cs[0]);
        assert(cs.subrange(0, j + 1).drop_first() =~= cs.drop_first().subrange(0, j));
        assert(cs.subrange(0, j)[0] == cs[0]);
        assert(cs.subrange(0, j).drop_first() =~= cs.drop_first().subrange(0, j - 1));
        lemma_spawned_codes_extend(owner, cs.drop_first(), event, j - 1);
        assert(cs.drop_first()[j - 1] == cs[j]);
    }
}

/// The scene and queue after `k` whole ticks.
pub open spec fn ticks(rs: Seq<RunnerV>, scene: SceneV, delta: Num, k: nat) -> (
    SceneV,
    Seq<RunnerV>,
)
    decreases k,
{
    if k == 0 {
        (scene, rs)
    } else {
        let one = run_queue_spec(rs, scene, delta);
        ticks(one.1, one.0, delta, (k - 1) as nat)
    }
}

/// The owner's x position after `k` saturating steps of `d`: what `k`
/// passes of the loop body leave, equal to the start plus `k` times `d`
/// wherever no step saturates.
pub open spec fn move_iter(x0: Num, d: Num, k: int) -> Num
    decreases (if k <= 0 {
        0int
    } else {
        k
    }),
{
    if k <= 0 {
        x0
    } else {
        move_iter(x0, d, k - 1).s_add(d)
    }
}

/// Where no step saturates, the iterate is plain: the start plus `k` times
/// the step.
pub proof fn lemma_move_iter_linear(x0: Num, d: Num, k: int)
    requires
        0 <= k,
        forall|i: int| 0 <= i <= k ==> i64::MIN <= x0.raw + #[trigger] (i * d.raw) <= i64::MAX,
    ensures
        move_iter(x0, d, k) == (Num { raw: (x0.raw + k * d.raw) as i64 }),
    decreases k,
{
    assert(0 * d.raw == 0) by (nonlinear_arith);
    if k > 0 {
        lemma_move_iter_linear(x0, d, k - 1);
        assert(k * d.raw == (k - 1) * d.raw + d.raw) by (nonlinear_arith);
    }
}

/// The compiled form of a bounded repeat whose body is one horizontal
/// step: header, movement, end marker.
pub open spec fn repeat_prog(rid: Id, mid: Id, bound: Num, d: Num) -> Seq<Instruction> {
    seq![
        Instruction {
            id: rid,
            op: OpKind::RepeatBasic {
                iter_num: Value::Number(bound),
                statements_length: 1,
            },
        },
        Instruction { id: mid, op: OpKind::MoveX { amount: Value::Number(d) } },
        Instruction { id: rid, op: OpKind::RepeatBasicEnd { statements_length: 1 } },
    ]
}

/// The scratch keys a loop runner holds after `j` completed passes: the
/// cached bound and the counter, both absent before the first pass.
pub open spec fn repeat_mem_state(mem: Seq<EntryV>, rid: Id, n: int, j: int) -> bool {
    &&& mem_wf(mem)
    &&& lookup(mem, rid@, Label::IterNum) == if j == 0 {
        None::<crate::value::Val>
    } else {
        Some(crate::value::Val::Number(Num { raw: (n * 1000) as i64 }))
    }
    &&& lookup(mem, rid@, Label::Count) == if j == 0 {
        None::<crate::value::Val>
    } else {
        Some(crate::value::Val::Number(Num { raw: (j * 1000) as i64 }))
    }
}

/// The scene a loop runner sees after `j` completed passes: the owner at
/// the `j`-fold iterate of the step, everything else as at the start.
pub open spec fn repeat_scene_state(
    scene0: SceneV,
    sc: SceneV,
    owner: Seq<char>,
    d: Num,
    j: int,
) -> bool {
    &&& crate::scene::scene_wf(sc)
    &&& obj_lookup(sc.objects, owner) == Some(
        ObjV {
            id: obj_lookup(scene0.objects, owner)->Some_0.id,
            x: move_iter(obj_lookup(scene0.objects, owner)->Some_0.x, d, j),
            y: obj_lookup(scene0.objects, owner)->Some_0.y,
        },
    )
    &&& forall|k: Seq<char>|
        k != owner ==> #[trigger] obj_lookup(sc.objects, k) == obj_lookup(scene0.objects, k)
    &&& sc.variables == scene0.variables
    &&& sc.mouse == scene0.mouse
}

/// One loop pass is one tick: from the state after `j` completed passes,
/// with another pass admitted, one tick runs the header, the movement and
/// the end marker, steps the owner by exactly `d`, and re-enqueues the
/// runner at the start of the loop with the counter stepped once.
#[verifier::rlimit(100)]
#[verifier::spinoff_prover]
pub proof fn lemma_repeat_tick(
    rid: Id,
    mid: Id,
    n: int,
    d: Num,
    scene0: SceneV,
    sc: SceneV,
    mem: Seq<EntryV>,
    owner: Seq<char>,
    delta: Num,
    j: int,
)
    requires
        0 <= j < n,
        n * 1000 <= i64::MAX,
        crate::scene::scene_wf(scene0),
        obj_lookup(scene0.objects, owner) is Some,
        repeat_scene_state(scene0, sc, owner, d, j),
        repeat_mem_state(mem, rid, n, j),
    ensures
        ({
            let one = run_queue_spec(
                seq![
                    RunnerV {
                        code: repeat_prog(rid, mid, Num { raw: (n * 1000) as i64 }, d),
                        pointer: 0,
                        owner,
                        mem,
                    },
                ],
                sc,
                delta,
            );
            &&& repeat_scene_state(scene0, one.0, owner, d, j + 1)
            &&& one.1.len() == 1
            &&& one.1[0].code == repeat_prog(rid, mid, Num { raw: (n * 1000) as i64 }, d)
            &&& one.1[0].pointer == 0
            &&& one.1[0].owner == owner
            &&& repeat_mem_state(one.1[0].mem, rid, n, j + 1)
        }),
{
    reveal(crate::step::sp_repeat_basic);
    reveal(crate::step::sp_move);
    reveal_with_fuel(run_runner_spec, 4);
    reveal_with_fuel(run_queue_spec, 2);
    let bound = Num { raw: (n * 1000) as i64 };
    let prog = repeat_prog(rid, mid, bound, d);
    let runner = RunnerV { code: prog, pointer: 0, owner, mem };
    let o0 = obj_lookup(scene0.objects, owner)->Some_0;
    assert(0 * 1000 == 0) by (nonlinear_arith);
    assert(j * 1000 < n * 1000 && 0 <= j * 1000 && (j + 1) * 1000 == j * 1000 + 1000)
        by (nonlinear_arith)
        requires
            0 <= j < n,
    ;
    // the header's view of its scratch keys, after caching the bound
    crate::memory::lemma_insert(mem, rid@, Label::IterNum, crate::value::Val::Number(bound));
    let mem1 = if j == 0 {
        crate::memory::mem_insert_spec(mem, rid@, Label::IterNum, crate::value::Val::Number(bound))
    } else {
        mem
    };
    // the header admits another pass and steps the counter
    let c = Num { raw: (j * 1000) as i64 };
    let c2 = c.s_add(Num { raw: 1000 });
    assert(c2.raw == (j + 1) * 1000);
    crate::memory::lemma_insert(mem1, rid@, Label::Count, crate::value::Val::Number(c2));
    let mem2 = crate::memory::mem_insert_spec(
        mem1,
        rid@,
        Label::Count,
        crate::value::Val::Number(c2),
    );
    // the movement applies one step
    let nx = move_iter(o0.x, d, j + 1);
    crate::scene::lemma_objs_set_pos(
        sc.objects,
        owner,
        obj_lookup(sc.objects, owner)->Some_0.x.s_add(d),
        obj_lookup(sc.objects, owner)->Some_0.y.s_add(Num { raw: 0 }),
    );
    let sc1 = SceneV {
        objects: crate::scene::objs_set_pos(
            sc.objects,
            owner,
            obj_lookup(sc.objects, owner)->Some_0.x.s_add(d),
            obj_lookup(sc.objects, owner)->Some_0.y.s_add(Num { raw: 0 }),
        ),
        ..sc
    };
    assert(obj_lookup(sc.objects, owner)->Some_0.x.s_add(d) == nx);
    let one = run_queue_spec(seq![runner], sc, delta);
    assert(seq![runner].drop_first() =~= Seq::<RunnerV>::empty());
    assert(one.0 == sc1 && one.1 =~= seq![
        RunnerV { code: prog, pointer: 0, owner, mem: mem2 },
    ]);
}

/// From the state after `j` completed passes, the remaining ticks finish
/// the loop: one pass per tick until the `n`-th, then the closing tick
/// exhausts the header, clears both scratch keys and discards the runner.
#[verifier::rlimit(100)]
#[verifier::spinoff_prover]
pub proof fn lemma_repeat_from(
    rid: Id,
    mid: Id,
    n: int,
    d: Num,
    scene0: SceneV,
    sc: SceneV,
    mem: Seq<EntryV>,
    owner: Seq<char>,
    delta: Num,
    j: int,
)
    requires
        0 <= j <= n,
        n * 1000 <= i64::MAX,
        crate::scene::scene_wf(scene0),
        obj_lookup(scene0.objects, owner) is Some,
        repeat_scene_state(scene0, sc, owner, d, j),
        repeat_mem_state(mem, rid, n, j),
    ensures
        ({
            let out = ticks(
                seq![
                    RunnerV {
                        code: repeat_prog(rid, mid, Num { raw: (n * 1000) as i64 }, d),
                        pointer: 0,
                        owner,
                        mem,
                    },
                ],
                sc,
                delta,
                (n - j + 1) as nat,
            );
            &&& out.1 =~= Seq::<RunnerV>::empty()
            &&& repeat_scene_state(scene0, out.0, owner, d, n)
        }),
    decreases n - j,
{
    let bound = Num { raw: (n * 1000) as i64 };
    let prog = repeat_prog(rid, mid, bound, d);
    let runner = RunnerV { code: prog, pointer: 0, owner, mem };
    if j < n {
        lemma_repeat_tick(rid, mid, n, d, scene0, sc, mem, owner, delta, j);
        let one = run_queue_spec(seq![runner], sc, delta);
        assert(one.1 =~= seq![one.1[0]]);
        lemma_repeat_from(
            rid,
            mid,
            n,
            d,
            scene0,
            one.0,
            one.1[0].mem,
            owner,
            delta,
            j + 1,
        );
        assert(ticks(seq![runner], sc, delta, (n - j + 1) as nat) == ticks(
            one.1,
            one.0,
            delta,
            (n - j) as nat,
        ));
        assert(ticks(one.1, one.0, delta, (n - j) as nat) == ticks(
            seq![one.1[0]],
            one.0,
            delta,
            (n - j) as nat,
        ));
    } else {
        reveal(crate::step::sp_repeat_basic);
        reveal(crate::step::sp_move);
        reveal_with_fuel(run_runner_spec, 4);
        reveal_with_fuel(run_queue_spec, 2);
        assert(0 * 1000 == 0) by (nonlinear_arith);
        assert(j * 1000 == n * 1000 && 0 <= j * 1000) by (nonlinear_arith)
            requires
                0 <= j,
                j == n,
        ;
        crate::memory::lemma_insert(mem, rid@, Label::IterNum, crate::value::Val::Number(bound));
        let mem1 = if j == 0 {
            crate::memory::mem_insert_spec(
                mem,
                rid@,
                Label::IterNum,
                crate::value::Val::Number(bound),
            )
        } else {
            mem
        };
        // the header exhausts, clears its keys, and the runner ends
        crate::memory::lemma_remove(mem1, rid@, Label::Count);
        let m1 = crate::memory::mem_remove_spec(mem1, rid@, Label::Count);
        crate::memory::lemma_remove(m1, rid@, Label::IterNum);
        let one = run_queue_spec(seq![runner], sc, delta);
        assert(seq![runner].drop_first() =~= Seq::<RunnerV>::empty());
        assert(one.0 == sc && one.1 =~= Seq::<RunnerV>::empty());
        assert(ticks(seq![runner], sc, delta, 1nat) == ticks(one.1, one.0, delta, 0nat));
    }
}

/// A compiled bounded repeat of `n` passes over a single horizontal step,
/// run from a fresh runner to completion, steps its object exactly `n`
/// times — one pass per tick, plus the closing tick, leaving x at the
/// `n`-fold iterate of the step, which is the start plus `n` times the step
/// wherever nothing saturates — and changes nothing else in the scene.
pub proof fn lemma_counted_repeat(
    rid: Id,
    mid: Id,
    n: int,
    d: Num,
    scene: SceneV,
    owner: Seq<char>,
    delta: Num,
)
    requires
        0 <= n,
        n * 1000 <= i64::MAX,
        crate::scene::scene_wf(scene),
        obj_lookup(scene.objects, owner) is Some,
    ensures
        ({
            let out = ticks(
                seq![
                    RunnerV {
                        code: repeat_prog(rid, mid, Num { raw: (n * 1000) as i64 }, d),
                        pointer: 0,
                        owner,
                        mem: Seq::<EntryV>::empty(),
                    },
                ],
                scene,
                delta,
                (n + 1) as nat,
            );
            &&& out.1 =~= Seq::<RunnerV>::empty()
            &&& obj_lookup(out.0.objects, owner) == Some(
                ObjV {
                    id: obj_lookup(scene.objects, owner)->Some_0.id,
                    x: move_iter(obj_lookup(scene.objects, owner)->Some_0.x, d, n),
                    y: obj_lookup(scene.objects, owner)->Some_0.y,
                },
            )
            &&& forall|k: Seq<char>|
                k != owner ==> #[trigger] obj_lookup(out.0.objects, k) == obj_lookup(
                    scene.objects,
                    k,
                )
            &&& out.0.variables == scene.variables
            &&& out.0.mouse == scene.mouse
        }),
{
    crate::memory::lemma_lookup_found(Seq::<EntryV>::empty(), rid@, Label::IterNum);
    crate::memory::lemma_lookup_found(Seq::<EntryV>::empty(), rid@, Label::Count);
    lemma_repeat_from(
        rid,
        mid,
        n,
        d,
        scene,
        scene,
        Seq::<EntryV>::empty(),
        owner,
        delta,
        0,
    );
}

/// Spawning over one more object appends that object's contribution.
proof fn lemma_spawned_extend(entries: Seq<(Id, Codes)>, event: EventType, i: int)
    requires
        0 <= i < entries.len(),
    ensures
        spawned(entries.subrange(0, i + 1), event) =~= spawned(entries.subrange(0, i), event)
            + spawned_for_codes(entries[i].0@, entries[i].1.0@, event),
    decreases i,
{
    if i == 0 {
        assert(entries.subrange(0, 0) =~= Seq::<(Id, Codes)>::empty());
        assert(entries.subrange(0, 1)[0] == entries[0]);
        assert(entries.subrange(0, 1).drop_first() =~= Seq::<(Id, Codes)>::empty());
    } else {
        assert(entries.subrange(0, i + 1)[0] == entries[0]);
        assert(entries.subrange(0, i + 1).drop_first() =~= entries.drop_first().subrange(0, i));
        assert(entries.subrange(0, i)[0] == entries[0]);
        assert(entries.subrange(0, i).drop_first() =~= entries.drop_first().subrange(0, i - 1));
        lemma_spawned_extend(entries.drop_first(), event, i - 1);
        assert(entries.drop_first()[i - 1] == entries[i]);
    }
}

} // verus!
