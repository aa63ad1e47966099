//! One interpreter step.
//!
//! Running the instruction at the program counter yields where to continue,
//! whether to yield the tick, a produced value for a consumer, and the new
//! scratch memory and scene. The whole outcome is a function of the
//! instruction, the counter, the stores, the runner's owner and the tick's
//! elapsed time; `step_spec` is that function, one case per operation, and
//! `Instruction::run` computes it.

use vstd::prelude::*;

use crate::instruction::{BlockReturn, BoolOp, CalcOp, Coord, Instruction, OpKind, QuotOp, UnaryOp};
use crate::memory::{
    cache_spec, lookup, mem_insert_spec, mem_remove_spec, resolve_spec, EntryV, Memory, RunError,
};
use crate::num::Num;
use crate::scene::{obj_lookup, objs_set_pos, var_lookup, vars_set, Scene, SceneV};
use crate::value::{CoercionError, Id, Label, Val, Value};

verus! {

/// An operand resolved and coerced to a number.
pub open spec fn resolve_number(v: Val, mem: Seq<EntryV>) -> Result<Num, RunError> {
    match resolve_spec(v, mem) {
        Ok(w) => match w.as_number() {
            Ok(n) => Ok(n),
            Err(ce) => Err(RunError::Coercion(ce)),
        },
        Err(e) => Err(e),
    }
}

/// An operand resolved and coerced to text.
pub open spec fn resolve_text(v: Val, mem: Seq<EntryV>) -> Result<Seq<char>, RunError> {
    match resolve_spec(v, mem) {
        Ok(w) => match w.as_text() {
            Ok(t) => Ok(t),
            Err(ce) => Err(RunError::Coercion(ce)),
        },
        Err(e) => Err(e),
    }
}

/// An operand resolved and required to be a boolean.
pub open spec fn resolve_boolean(v: Val, mem: Seq<EntryV>) -> Result<bool, RunError> {
    match resolve_spec(v, mem) {
        Ok(w) => match w.as_boolean() {
            Some(b) => Ok(b),
            None => Err(RunError::Coercion(CoercionError::NotABoolean)),
        },
        Err(e) => Err(e),
    }
}

/// A cached operand coerced to a number, with the store after caching.
pub open spec fn cache_number(mem: Seq<EntryV>, id: Seq<char>, label: Label, v: Val) -> Result<
    (Num, Seq<EntryV>),
    RunError,
> {
    match cache_spec(mem, id, label, v) {
        Ok(p) => match p.0.as_number() {
            Ok(n) => Ok((n, p.1)),
            Err(ce) => Err(RunError::Coercion(ce)),
        },
        Err(e) => Err(e),
    }
}

/// A stored counter's number, or zero where the key is still absent.
pub open spec fn counter_value(mem: Seq<EntryV>, id: Seq<char>, label: Label) -> Result<
    Num,
    RunError,
> {
    match lookup(mem, id, label) {
        Some(w) => match w.as_number() {
            Ok(n) => Ok(n),
            Err(ce) => Err(RunError::Coercion(ce)),
        },
        None => Ok(Num { raw: 0 }),
    }
}

/// The scene with the owner displaced by (dx, dy).
pub open spec fn move_owner(scene: SceneV, owner: Seq<char>, dx: Num, dy: Num) -> Result<
    SceneV,
    RunError,
> {
    match obj_lookup(scene.objects, owner) {
        Some(o) => Ok(
            SceneV {
                objects: objs_set_pos(scene.objects, owner, o.x.s_add(dx), o.y.s_add(dy)),
                ..scene
            },
        ),
        None => Err(RunError::LookupFailure),
    }
}

/// The scene with the owner placed at (x, y).
pub open spec fn place_owner(scene: SceneV, owner: Seq<char>, x: Num, y: Num) -> Result<
    SceneV,
    RunError,
> {
    match obj_lookup(scene.objects, owner) {
        Some(_) => Ok(SceneV { objects: objs_set_pos(scene.objects, owner, x, y), ..scene }),
        None => Err(RunError::LookupFailure),
    }
}

/// What one step yields: where to continue, whether to yield the tick, a
/// produced value, and the stores after the step.
pub struct StepOut {
    pub pointer: int,
    pub is_continue: bool,
    pub return_value: Option<Val>,
    pub mem: Seq<EntryV>,
    pub scene: SceneV,
}

/// A step that only moves the counter: nothing produced, no suspension.
pub open spec fn out_plain(pointer: int, mem: Seq<EntryV>, scene: SceneV) -> StepOut {
    StepOut { pointer, is_continue: false, return_value: None, mem, scene }
}

/// A step that produces a value for its consumer and advances.
pub open spec fn out_value(pointer: int, v: Val, mem: Seq<EntryV>, scene: SceneV) -> StepOut {
    StepOut { pointer, is_continue: false, return_value: Some(v), mem, scene }
}

/// A step that yields the tick.
pub open spec fn out_suspend(pointer: int, mem: Seq<EntryV>, scene: SceneV) -> StepOut {
    StepOut { pointer, is_continue: true, return_value: None, mem, scene }
}

/// The boolean a comparison yields on two numbers.
pub open spec fn compare_nums(op: BoolOp, a: Num, b: Num) -> bool {
    match op {
        BoolOp::Equal => a.raw == b.raw,
        BoolOp::NotEqual => a.raw != b.raw,
        BoolOp::Greater => a.raw > b.raw,
        BoolOp::Less => a.raw < b.raw,
        BoolOp::GreaterOrEqual => a.raw >= b.raw,
        BoolOp::LessOrEqual => a.raw <= b.raw,
    }
}

/// The number an arithmetic operator yields.
pub open spec fn combine_nums(op: CalcOp, a: Num, b: Num) -> Num {
    match op {
        CalcOp::Plus => a.s_add(b),
        CalcOp::Minus => a.s_sub(b),
        CalcOp::Multi => a.s_mul(b),
        CalcOp::Divide => a.s_div(b),
    }
}

/// The number a unary operator yields.
pub open spec fn unary_num(op: UnaryOp, n: Num) -> Num {
    match op {
        UnaryOp::Square => n.s_square(),
        UnaryOp::Floor => n.s_floor(),
        UnaryOp::Ceil => n.s_ceil(),
        UnaryOp::Round => n.s_round(),
        UnaryOp::Abs => n.s_abs(),
        UnaryOp::Factorial => n.s_fract(),
        UnaryOp::Unnatural => n.s_unnatural(),
    }
}

/// Moving the owner along one axis by a resolved amount.
#[verifier::opaque]
pub open spec fn sp_move(
    amount: Val,
    horizontal: bool,
    pc: int,
    mem: Seq<EntryV>,
    scene: SceneV,
    owner: Seq<char>,
) -> Result<StepOut, RunError> {
    match resolve_number(amount, mem) {
        Ok(a) => {
            let dx = if horizontal {
                a
            } else {
                Num { raw: 0 }
            };
            let dy = if horizontal {
                Num { raw: 0 }
            } else {
                a
            };
            match move_owner(scene, owner, dx, dy) {
                Ok(sc) => Ok(out_plain(pc + 1, mem, sc)),
                Err(e) => Err(e),
            }
        },
        Err(e) => Err(e),
    }
}

/// A timed move: duration and displacement cached once, a share of the way
/// each tick, the exact remainder on the final tick.
#[verifier::opaque]
pub open spec fn sp_move_xy_time(
    id: Seq<char>,
    time: Val,
    x: Val,
    y: Val,
    pc: int,
    mem: Seq<EntryV>,
    scene: SceneV,
    owner: Seq<char>,
    delta: Num,
) -> Result<StepOut, RunError> {
    match cache_number(mem, id, Label::Time, time) {
        Ok((t, mem1)) => match cache_number(mem1, id, Label::X, x) {
            Ok((xv, mem2)) => match cache_number(mem2, id, Label::Y, y) {
                Ok((yv, mem3)) => match counter_value(mem3, id, Label::Delta) {
                    Ok(sofar) => {
                        let this_delta = delta.s_div(t).s_min(Num { raw: 1000 });
                        let new_delta = sofar.s_add(this_delta);
                        if new_delta.raw < 1000 {
                            match move_owner(scene, owner, this_delta.s_mul(xv), this_delta.s_mul(yv)) {
                                Ok(sc) => Ok(
                                    out_suspend(
                                        pc,
                                        mem_insert_spec(mem3, id, Label::Delta, Val::Number(new_delta)),
                                        sc,
                                    ),
                                ),
                                Err(e) => Err(e),
                            }
                        } else {
                            let rest = Num { raw: 1000 }.s_sub(sofar);
                            match move_owner(scene, owner, rest.s_mul(xv), rest.s_mul(yv)) {
                                Ok(sc) => Ok(
                                    out_plain(
                                        pc + 1,
                                        mem_remove_spec(
                                            mem_remove_spec(
                                                mem_remove_spec(
                                                    mem_remove_spec(mem3, id, Label::Delta),
                                                    id,
                                                    Label::Time,
                                                ),
                                                id,
                                                Label::X,
                                            ),
                                            id,
                                            Label::Y,
                                        ),
                                        sc,
                                    ),
                                ),
                                Err(e) => Err(e),
                            }
                        }
                    },
                    Err(e) => Err(e),
                },
                Err(e) => Err(e),
            },
            Err(e) => Err(e),
        },
        Err(e) => Err(e),
    }
}

/// A timed wait: the target cached once, tick time accumulated, the scratch
/// keys cleared on resumption.
#[verifier::opaque]
pub open spec fn sp_wait(
    id: Seq<char>,
    second: Val,
    pc: int,
    mem: Seq<EntryV>,
    scene: SceneV,
    delta: Num,
) -> Result<StepOut, RunError> {
    match cache_number(mem, id, Label::Time, second) {
        Ok((sec, mem1)) => match counter_value(mem1, id, Label::Delta) {
            Ok(sofar) => {
                let new_delta = sofar.s_add(delta);
                if new_delta.raw >= sec.raw {
                    Ok(
                        out_plain(
                            pc + 1,
                            mem_remove_spec(
                                mem_remove_spec(mem1, id, Label::Delta),
                                id,
                                Label::Time,
                            ),
                            scene,
                        ),
                    )
                } else {
                    Ok(
                        out_suspend(
                            pc,
                            mem_insert_spec(mem1, id, Label::Delta, Val::Number(new_delta)),
                            scene,
                        ),
                    )
                }
            },
            Err(e) => Err(e),
        },
        Err(e) => Err(e),
    }
}

/// A bounded repeat's header: bound cached once, counter stepped while below
/// it, both keys cleared and the body skipped when exhausted.
#[verifier::opaque]
pub open spec fn sp_repeat_basic(
    id: Seq<char>,
    iter_num: Val,
    l: int,
    pc: int,
    mem: Seq<EntryV>,
    scene: SceneV,
) -> Result<StepOut, RunError> {
    match cache_number(mem, id, Label::IterNum, iter_num) {
        Ok((bound, mem1)) => match counter_value(mem1, id, Label::Count) {
            Ok(c) => if c.raw < bound.raw {
                Ok(
                    out_plain(
                        pc + 1,
                        mem_insert_spec(
                            mem1,
                            id,
                            Label::Count,
                            Val::Number(c.s_add(Num { raw: 1000 })),
                        ),
                        scene,
                    ),
                )
            } else {
                Ok(
                    out_plain(
                        pc + l + 2,
                        mem_remove_spec(mem_remove_spec(mem1, id, Label::Count), id, Label::IterNum),
                        scene,
                    ),
                )
            },
            Err(e) => Err(e),
        },
        Err(e) => Err(e),
    }
}

/// A conditional: falls into the body or skips it and its room.
#[verifier::opaque]
pub open spec fn sp_if(
    condition: Val,
    l: int,
    pc: int,
    mem: Seq<EntryV>,
    scene: SceneV,
) -> Result<StepOut, RunError> {
    match resolve_boolean(condition, mem) {
        Ok(b) => Ok(
            out_plain(
                if b {
                    pc + 1
                } else {
                    pc + l + 1
                },
                mem,
                scene,
            ),
        ),
        Err(e) => Err(e),
    }
}

/// The character count of a resolved text.
#[verifier::opaque]
pub open spec fn sp_length(value: Val, pc: int, mem: Seq<EntryV>, scene: SceneV) -> Result<
    StepOut,
    RunError,
> {
    match resolve_text(value, mem) {
        Ok(t) => Ok(out_value(pc + 1, Val::Number(Num::s_of_count(t.len() as int)), mem, scene)),
        Err(e) => Err(e),
    }
}

/// Writing a resolved value to an existing variable, named by a literal's
/// text form.
#[verifier::opaque]
pub open spec fn sp_set_variable(
    variable_id: Val,
    value: Val,
    pc: int,
    mem: Seq<EntryV>,
    scene: SceneV,
) -> Result<StepOut, RunError> {
    match variable_id.as_text() {
        Err(ce) => Err(RunError::Coercion(ce)),
        Ok(name) => match resolve_spec(value, mem) {
            Ok(w) => if var_lookup(scene.variables, name) is Some {
                Ok(
                    out_plain(
                        pc + 1,
                        mem,
                        SceneV { variables: vars_set(scene.variables, name, w), ..scene },
                    ),
                )
            } else {
                Err(RunError::LookupFailure)
            },
            Err(e) => Err(e),
        },
    }
}

/// Producing the current value of a variable named by a literal's text
/// form.
#[verifier::opaque]
pub open spec fn sp_get_variable(
    variable_id: Val,
    pc: int,
    mem: Seq<EntryV>,
    scene: SceneV,
) -> Result<StepOut, RunError> {
    match variable_id.as_text() {
        Err(ce) => Err(RunError::Coercion(ce)),
        Ok(name) => match var_lookup(scene.variables, name) {
            Some(v) => Ok(out_value(pc + 1, v, mem, scene)),
            None => Err(RunError::LookupFailure),
        },
    }
}

/// Adding to a variable numerically when both sides are numbers, otherwise
/// appending the texts.
#[verifier::opaque]
pub open spec fn sp_change_variable(
    variable_id: Val,
    value: Val,
    pc: int,
    mem: Seq<EntryV>,
    scene: SceneV,
) -> Result<StepOut, RunError> {
    match variable_id.as_text() {
        Err(ce) => Err(RunError::Coercion(ce)),
        Ok(name) => match resolve_spec(value, mem) {
            Ok(w) => match var_lookup(scene.variables, name) {
                Some(cur) => {
                    let combined = match (cur.as_number(), w.as_number()) {
                        (Ok(c), Ok(d)) => Ok(Val::Number(c.s_add(d))),
                        _ => match cur.as_text() {
                            Ok(a) => match w.as_text() {
                                Ok(b) => Ok(Val::Text(a + b)),
                                Err(ce) => Err(RunError::Coercion(ce)),
                            },
                            Err(ce) => Err(RunError::Coercion(ce)),
                        },
                    };
                    match combined {
                        Ok(nv) => Ok(
                            out_plain(
                                pc + 1,
                                mem,
                                SceneV {
                                    variables: vars_set(scene.variables, name, nv),
                                    ..scene
                                },
                            ),
                        ),
                        Err(e) => Err(e),
                    }
                },
                None => Err(RunError::LookupFailure),
            },
            Err(e) => Err(e),
        },
    }
}

/// A comparison: numeric when both sides coerce to numbers; equality and
/// inequality fall back to text; other orderings of non-numbers are a type
/// mismatch.
#[verifier::opaque]
pub open spec fn sp_bool_op(
    left: Val,
    op: BoolOp,
    right: Val,
    pc: int,
    mem: Seq<EntryV>,
    scene: SceneV,
) -> Result<StepOut, RunError> {
    match resolve_spec(left, mem) {
        Ok(l) => match resolve_spec(right, mem) {
            Ok(r) => match (l.as_number(), r.as_number()) {
                (Ok(a), Ok(b)) => Ok(
                    out_value(pc + 1, Val::Boolean(compare_nums(op, a, b)), mem, scene),
                ),
                _ => if op == BoolOp::Equal || op == BoolOp::NotEqual {
                    match l.as_text() {
                        Ok(a) => match r.as_text() {
                            Ok(b) => Ok(
                                out_value(
                                    pc + 1,
                                    Val::Boolean(
                                        if op == BoolOp::Equal {
                                            a == b
                                        } else {
                                            a != b
                                        },
                                    ),
                                    mem,
                                    scene,
                                ),
                            ),
                            Err(ce) => Err(RunError::Coercion(ce)),
                        },
                        Err(ce) => Err(RunError::Coercion(ce)),
                    }
                } else {
                    Err(RunError::TypeMismatch)
                },
            },
            Err(e) => Err(e),
        },
        Err(e) => Err(e),
    }
}

/// Arithmetic on two resolved values: numeric when both coerce to numbers,
/// and a plus of non-numeric text concatenates. For every other operator, a
/// side that fails to coerce is a fatal coercion error: the step never
/// substitutes a number that was not there.
#[verifier::opaque]
pub open spec fn sp_calc_basic(
    left: Val,
    op: CalcOp,
    right: Val,
    pc: int,
    mem: Seq<EntryV>,
    scene: SceneV,
) -> Result<StepOut, RunError> {
    match resolve_spec(left, mem) {
        Ok(l) => match resolve_spec(right, mem) {
            Ok(r) => match (l.as_number(), r.as_number()) {
                (Ok(a), Ok(b)) => Ok(
                    out_value(pc + 1, Val::Number(combine_nums(op, a, b)), mem, scene),
                ),
                _ => if op == CalcOp::Plus {
                    match l.as_text() {
                        Ok(a) => match r.as_text() {
                            Ok(b) => Ok(out_value(pc + 1, Val::Text(a + b), mem, scene)),
                            Err(ce) => Err(RunError::Coercion(ce)),
                        },
                        Err(ce) => Err(RunError::Coercion(ce)),
                    }
                } else if l.as_number() is Err {
                    Err(RunError::Coercion(l.as_number()->Err_0))
                } else {
                    Err(RunError::Coercion(r.as_number()->Err_0))
                },
            },
            Err(e) => Err(e),
        },
        Err(e) => Err(e),
    }
}

/// A unary numeric function of a resolved number.
#[verifier::opaque]
pub open spec fn sp_calc_operation(
    value: Val,
    operator: UnaryOp,
    pc: int,
    mem: Seq<EntryV>,
    scene: SceneV,
) -> Result<StepOut, RunError> {
    match resolve_number(value, mem) {
        Ok(n) => Ok(out_value(pc + 1, Val::Number(unary_num(operator, n)), mem, scene)),
        Err(e) => Err(e),
    }
}

/// The whole quotient or the remainder of two resolved numbers.
#[verifier::opaque]
pub open spec fn sp_quot_mod(
    left: Val,
    right: Val,
    operator: QuotOp,
    pc: int,
    mem: Seq<EntryV>,
    scene: SceneV,
) -> Result<StepOut, RunError> {
    match resolve_number(left, mem) {
        Ok(a) => match resolve_number(right, mem) {
            Ok(b) => Ok(
                out_value(
                    pc + 1,
                    Val::Number(
                        match operator {
                            QuotOp::Quotient => a.s_quotient(b),
                            QuotOp::Mod => a.s_rem(b),
                        },
                    ),
                    mem,
                    scene,
                ),
            ),
            Err(e) => Err(e),
        },
        Err(e) => Err(e),
    }
}

/// Moving the owner onto the pointer or another object; the target is a
/// literal read through its text form, with the pointer's name reserved.
#[verifier::opaque]
pub open spec fn sp_locate(
    target: Val,
    pc: int,
    mem: Seq<EntryV>,
    scene: SceneV,
    owner: Seq<char>,
) -> Result<StepOut, RunError> {
    match target.as_text() {
        Err(ce) => Err(RunError::Coercion(ce)),
        Ok(name) => {
            let pos = if name == "mouse"@ {
                Ok((scene.mouse.x, scene.mouse.y))
            } else {
                match obj_lookup(scene.objects, name) {
                    Some(o) => Ok((o.x, o.y)),
                    None => Err(RunError::LookupFailure),
                }
            };
            match pos {
                Ok(p) => match place_owner(scene, owner, p.0, p.1) {
                    Ok(sc) => Ok(out_plain(pc + 1, mem, sc)),
                    Err(e) => Err(e),
                },
                Err(e) => Err(e),
            }
        },
    }
}

/// Moving the owner to a resolved position.
#[verifier::opaque]
pub open spec fn sp_locate_xy(
    x: Val,
    y: Val,
    pc: int,
    mem: Seq<EntryV>,
    scene: SceneV,
    owner: Seq<char>,
) -> Result<StepOut, RunError> {
    match resolve_number(x, mem) {
        Ok(xv) => match resolve_number(y, mem) {
            Ok(yv) => match place_owner(scene, owner, xv, yv) {
                Ok(sc) => Ok(out_plain(pc + 1, mem, sc)),
                Err(e) => Err(e),
            },
            Err(e) => Err(e),
        },
        Err(e) => Err(e),
    }
}

/// Producing a coordinate of the owner or of a named object; the target is
/// a literal read through its text form, with the owner's name reserved.
#[verifier::opaque]
pub open spec fn sp_coordinate(
    target: Val,
    coordinate: Coord,
    pc: int,
    mem: Seq<EntryV>,
    scene: SceneV,
    owner: Seq<char>,
) -> Result<StepOut, RunError> {
    match target.as_text() {
        Err(ce) => Err(RunError::Coercion(ce)),
        Ok(name) => {
            let oid = if name == "self"@ {
                owner
            } else {
                name
            };
            match obj_lookup(scene.objects, oid) {
                Some(o) => Ok(
                    out_value(
                        pc + 1,
                        Val::Number(
                            if coordinate == Coord::X {
                                o.x
                            } else {
                                o.y
                            },
                        ),
                        mem,
                        scene,
                    ),
                ),
                None => Err(RunError::LookupFailure),
            }
        },
    }
}

/// What running `inst` at `pc` does, as a function of the stores, the
/// runner's owner, and the tick's elapsed time.
pub open spec fn step_spec(
    inst: Instruction,
    pc: int,
    mem: Seq<EntryV>,
    scene: SceneV,
    owner: Seq<char>,
    delta: Num,
) -> Result<StepOut, RunError> {
    let id = inst.id@;
    match inst.op {
        OpKind::MoveDirection { amount } => sp_move(amount@, true, pc, mem, scene, owner),
        OpKind::MoveX { amount } => sp_move(amount@, true, pc, mem, scene, owner),
        OpKind::MoveY { amount } => sp_move(amount@, false, pc, mem, scene, owner),
        OpKind::MoveXyTime { time, x, y } => sp_move_xy_time(
            id,
            time@,
            x@,
            y@,
            pc,
            mem,
            scene,
            owner,
            delta,
        ),
        OpKind::WaitSecond { second } => sp_wait(id, second@, pc, mem, scene, delta),
        OpKind::RepeatBasic { iter_num, statements_length } => sp_repeat_basic(
            id,
            iter_num@,
            statements_length as int,
            pc,
            mem,
            scene,
        ),
        OpKind::RepeatBasicEnd { statements_length } => Ok(
            out_suspend(pc - statements_length - 1, mem, scene),
        ),
        OpKind::RepeatInf => Ok(out_plain(pc + 1, mem, scene)),
        OpKind::If { condition, statements_length } => sp_if(
            condition@,
            statements_length as int,
            pc,
            mem,
            scene,
        ),
        OpKind::LengthOfString { value } => sp_length(value@, pc, mem, scene),
        OpKind::SetVariable { variable_id, value } => sp_set_variable(
            variable_id@,
            value@,
            pc,
            mem,
            scene,
        ),
        OpKind::GetVariable { variable_id } => sp_get_variable(variable_id@, pc, mem, scene),
        OpKind::ChangeVariable { variable_id, value } => sp_change_variable(
            variable_id@,
            value@,
            pc,
            mem,
            scene,
        ),
        OpKind::BooleanBasicOperator { left, op, right } => sp_bool_op(
            left@,
            op,
            right@,
            pc,
            mem,
            scene,
        ),
        OpKind::CalcBasic { left, op, right } => sp_calc_basic(left@, op, right@, pc, mem, scene),
        OpKind::CalcOperation { value, operator } => sp_calc_operation(
            value@,
            operator,
            pc,
            mem,
            scene,
        ),
        OpKind::QuotientAndMod { left, right, operator } => sp_quot_mod(
            left@,
            right@,
            operator,
            pc,
            mem,
            scene,
        ),
        OpKind::Locate { target } => sp_locate(target@, pc, mem, scene, owner),
        OpKind::LocateXy { x, y } => sp_locate_xy(x@, y@, pc, mem, scene, owner),
        OpKind::CoordinateObject { target, coordinate } => sp_coordinate(
            target@,
            coordinate,
            pc,
            mem,
            scene,
            owner,
        ),
    }
}

/// The pointer arithmetic an instruction may do at a position without
/// leaving the machine's index range.
pub open spec fn run_safe(op: OpKind, pc: int) -> bool {
    &&& pc + 1 <= usize::MAX
    &&& match op {
        OpKind::RepeatBasic { statements_length: l, .. } => pc + l + 2 <= usize::MAX,
        OpKind::If { statements_length: l, .. } => pc + l + 1 <= usize::MAX,
        OpKind::RepeatBasicEnd { statements_length: l } => pc >= l + 1,
        _ => true,
    }
}

/// How one exec step relates to its specified outcome.
pub open spec fn run_matches(
    r: Result<BlockReturn, RunError>,
    sp: Result<StepOut, RunError>,
    mem: Seq<EntryV>,
    scene: SceneV,
) -> bool {
    match r {
        Ok(br) => {
            &&& sp matches Ok(o)
            &&& br.pointer as int == o.pointer
            &&& br.is_continue == o.is_continue
            &&& match (br.return_value, o.return_value) {
                (Some(v), Some(w)) => v@ == w,
                (None, None) => true,
                _ => false,
            }
            &&& mem == o.mem
            &&& scene == o.scene
        },
        Err(e) => sp == Err::<StepOut, RunError>(e),
    }
}

/// A value looked up in a well-formed store is not a reference.
proof fn lemma_lookup_no_ref(mem: Seq<EntryV>, id: Seq<char>, label: Label)
    requires
        crate::memory::mem_no_refs(mem),
    ensures
        lookup(mem, id, label) matches Some(w) ==> !w.is_ref(),
    decreases mem.len(),
{
    if mem.len() > 0 && !crate::memory::key_is(mem[0], id, label) {
        assert(crate::memory::mem_no_refs(mem.drop_first()));
        lemma_lookup_no_ref(mem.drop_first(), id, label);
    }
}

/// A variable's value in a well-formed table is not a reference.
proof fn lemma_var_no_ref(vars: Seq<crate::scene::VarV>, id: Seq<char>)
    requires
        crate::scene::vars_wf(vars),
    ensures
        var_lookup(vars, id) matches Some(w) ==> !w.is_ref(),
    decreases vars.len(),
{
    if vars.len() > 0 && vars[0].id != id {
        assert(crate::scene::vars_wf(vars.drop_first()));
        lemma_var_no_ref(vars.drop_first(), id);
    }
}

/// A resolved operand against a well-formed store is not a reference.
proof fn lemma_resolve_no_ref(v: Val, mem: Seq<EntryV>)
    requires
        crate::memory::mem_no_refs(mem),
    ensures
        resolve_spec(v, mem) matches Ok(w) ==> !w.is_ref(),
{
    if v is Memory {
        lemma_lookup_no_ref(mem, v->Memory_0, v->Memory_1);
    }
}

/// Caching preserves well-formedness and yields no reference.
proof fn lemma_cache_wf(mem: Seq<EntryV>, id: Seq<char>, label: Label, v: Val)
    requires
        crate::memory::mem_wf(mem),
    ensures
        cache_spec(mem, id, label, v) matches Ok(p) ==> !p.0.is_ref() && crate::memory::mem_wf(
            p.1,
        ),
{
    lemma_lookup_no_ref(mem, id, label);
    lemma_resolve_no_ref(v, mem);
    if lookup(mem, id, label) is None && resolve_spec(v, mem) is Ok {
        crate::memory::lemma_insert(mem, id, label, resolve_spec(v, mem)->Ok_0);
    }
}

/// One step out of well-formed stores leaves well-formed stores, keeps the
/// pointer device where it was, produces no reference, and, when it does not
/// yield the tick, advances the program counter.
pub proof fn lemma_step_ok(
    inst: Instruction,
    pc: int,
    mem: Seq<EntryV>,
    scene: SceneV,
    owner: Seq<char>,
    delta: Num,
)
    requires
        crate::memory::mem_wf(mem),
        crate::scene::scene_wf(scene),
    ensures
        step_spec(inst, pc, mem, scene, owner, delta) matches Ok(o) ==> {
            &&& crate::memory::mem_wf(o.mem)
            &&& crate::scene::scene_wf(o.scene)
            &&& o.scene.mouse == scene.mouse
            &&& (o.return_value matches Some(v) ==> !v.is_ref())
            &&& (!o.is_continue ==> o.pointer > pc)
            &&& (o.is_continue ==> o.pointer <= pc)
        },
{
    reveal(sp_move);
    reveal(sp_move_xy_time);
    reveal(sp_wait);
    reveal(sp_repeat_basic);
    reveal(sp_if);
    reveal(sp_length);
    reveal(sp_set_variable);
    reveal(sp_get_variable);
    reveal(sp_change_variable);
    reveal(sp_bool_op);
    reveal(sp_calc_basic);
    reveal(sp_calc_operation);
    reveal(sp_quot_mod);
    reveal(sp_locate);
    reveal(sp_locate_xy);
    reveal(sp_coordinate);
    let id = inst.id@;
    match inst.op {
        OpKind::MoveDirection { amount } => {
            lemma_objs_set_wf(scene, owner);
        },
        OpKind::MoveX { amount } => {
            lemma_objs_set_wf(scene, owner);
        },
        OpKind::MoveY { amount } => {
            lemma_objs_set_wf(scene, owner);
        },
        OpKind::MoveXyTime { time, x, y } => {
            lemma_cache_wf(mem, id, Label::Time, time@);
            match cache_spec(mem, id, Label::Time, time@) {
                Ok(p1) => {
                    let mem1 = p1.1;
                    lemma_cache_wf(mem1, id, Label::X, x@);
                    match cache_spec(mem1, id, Label::X, x@) {
                        Ok(p2) => {
                            let mem2 = p2.1;
                            lemma_cache_wf(mem2, id, Label::Y, y@);
                            match cache_spec(mem2, id, Label::Y, y@) {
                                Ok(p3) => {
                                    let mem3 = p3.1;
                                    lemma_objs_set_wf(scene, owner);
                                    match counter_value(mem3, id, Label::Delta) {
                                        Ok(sofar) => {
                                            assert forall|nv: Num|
                                                crate::memory::mem_wf(
                                                    #[trigger] mem_insert_spec(
                                                        mem3,
                                                        id,
                                                        Label::Delta,
                                                        Val::Number(nv),
                                                    ),
                                                ) by {
                                                crate::memory::lemma_insert(
                                                    mem3,
                                                    id,
                                                    Label::Delta,
                                                    Val::Number(nv),
                                                );
                                            }
                                            crate::memory::lemma_remove(mem3, id, Label::Delta);
                                            let m1 = mem_remove_spec(mem3, id, Label::Delta);
                                            crate::memory::lemma_remove(m1, id, Label::Time);
                                            let m2 = mem_remove_spec(m1, id, Label::Time);
                                            crate::memory::lemma_remove(m2, id, Label::X);
                                            let m3 = mem_remove_spec(m2, id, Label::X);
                                            crate::memory::lemma_remove(m3, id, Label::Y);
                                        },
                                        Err(_) => {},
                                    }
                                },
                                Err(_) => {},
                            }
                        },
                        Err(_) => {},
                    }
                },
                Err(_) => {},
            }
        },
        OpKind::WaitSecond { second } => {
            lemma_cache_wf(mem, id, Label::Time, second@);
            match cache_spec(mem, id, Label::Time, second@) {
                Ok(p1) => {
                    let mem1 = p1.1;
                    match counter_value(mem1, id, Label::Delta) {
                        Ok(sofar) => {
                            crate::memory::lemma_insert(
                                mem1,
                                id,
                                Label::Delta,
                                Val::Number(sofar.s_add(delta)),
                            );
                            crate::memory::lemma_remove(mem1, id, Label::Delta);
                            let m1 = mem_remove_spec(mem1, id, Label::Delta);
                            crate::memory::lemma_remove(m1, id, Label::Time);
                        },
                        Err(_) => {},
                    }
                },
                Err(_) => {},
            }
        },
        OpKind::RepeatBasic { iter_num, statements_length } => {
            lemma_cache_wf(mem, id, Label::IterNum, iter_num@);
            match cache_spec(mem, id, Label::IterNum, iter_num@) {
                Ok(p1) => {
                    let mem1 = p1.1;
                    match counter_value(mem1, id, Label::Count) {
                        Ok(c) => {
                            crate::memory::lemma_insert(
                                mem1,
                                id,
                                Label::Count,
                                Val::Number(c.s_add(Num { raw: 1000 })),
                            );
                            crate::memory::lemma_remove(mem1, id, Label::Count);
                            let m1 = mem_remove_spec(mem1, id, Label::Count);
                            crate::memory::lemma_remove(m1, id, Label::IterNum);
                        },
                        Err(_) => {},
                    }
                },
                Err(_) => {},
            }
        },
        OpKind::RepeatBasicEnd { statements_length } => {},
        OpKind::RepeatInf => {},
        OpKind::If { condition, statements_length } => {},
        OpKind::LengthOfString { value } => {},
        OpKind::SetVariable { variable_id, value } => {
            lemma_resolve_no_ref(value@, mem);
            match (variable_id@.as_text(), resolve_spec(value@, mem)) {
                (Ok(name), Ok(w)) => {
                    crate::scene::lemma_vars_set(scene.variables, name, w);
                },
                _ => {},
            }
        },
        OpKind::GetVariable { variable_id } => {
            match variable_id@.as_text() {
                Ok(name) => {
                    lemma_var_no_ref(scene.variables, name);
                },
                Err(_) => {},
            }
        },
        OpKind::ChangeVariable { variable_id, value } => {
            lemma_resolve_no_ref(value@, mem);
            match (variable_id@.as_text(), resolve_spec(value@, mem)) {
                (Ok(name), Ok(w)) => {
                    match var_lookup(scene.variables, name) {
                        Some(cur) => {
                            let combined = match (cur.as_number(), w.as_number()) {
                                (Ok(c), Ok(d)) => Val::Number(c.s_add(d)),
                                _ => match (cur.as_text(), w.as_text()) {
                                    (Ok(a), Ok(b)) => Val::Text(a + b),
                                    _ => Val::Number(Num { raw: 0 }),
                                },
                            };
                            crate::scene::lemma_vars_set(scene.variables, name, combined);
                        },
                        None => {},
                    }
                },
                _ => {},
            }
        },
        OpKind::BooleanBasicOperator { left, op, right } => {},
        OpKind::CalcBasic { left, op, right } => {},
        OpKind::CalcOperation { value, operator } => {},
        OpKind::QuotientAndMod { left, right, operator } => {},
        OpKind::Locate { target } => {
            lemma_objs_set_wf(scene, owner);
        },
        OpKind::LocateXy { x, y } => {
            lemma_objs_set_wf(scene, owner);
        },
        OpKind::CoordinateObject { target, coordinate } => {},
    }
}

/// A step that does not yield the tick strictly advances the program
/// counter: the only backward jump, a loop's end marker, always yields.
pub proof fn lemma_step_progress(
    inst: Instruction,
    pc: int,
    mem: Seq<EntryV>,
    scene: SceneV,
    owner: Seq<char>,
    delta: Num,
)
    ensures
        step_spec(inst, pc, mem, scene, owner, delta) matches Ok(o) ==> (!o.is_continue
            ==> o.pointer > pc),
{
    reveal(sp_move);
    reveal(sp_move_xy_time);
    reveal(sp_wait);
    reveal(sp_repeat_basic);
    reveal(sp_if);
    reveal(sp_length);
    reveal(sp_set_variable);
    reveal(sp_get_variable);
    reveal(sp_change_variable);
    reveal(sp_bool_op);
    reveal(sp_calc_basic);
    reveal(sp_calc_operation);
    reveal(sp_quot_mod);
    reveal(sp_locate);
    reveal(sp_locate_xy);
    reveal(sp_coordinate);
}

/// The wait's target, as a tick sees it: already cached under the timer
/// key, or still to be read from a literal operand.
pub open spec fn wait_target_is(mem: Seq<EntryV>, id: Seq<char>, second: Val, t: Num) -> bool {
    match lookup(mem, id, Label::Time) {
        Some(w) => w == Val::Number(t),
        None => second == Val::Number(t),
    }
}

/// A timed wait still short of its target suspends in place: the counter
/// stays, the accumulated time grows by exactly one tick, and the cached
/// target is kept for the next tick. The accumulated time after `j` ticks
/// of the same delta is `j` times the delta.
pub proof fn lemma_wait_suspends(
    id: Seq<char>,
    second: Val,
    t: Num,
    pc: int,
    mem: Seq<EntryV>,
    scene: SceneV,
    delta: Num,
    j: int,
)
    requires
        crate::memory::mem_wf(mem),
        0 <= t.raw,
        1 <= delta.raw,
        t.raw + delta.raw <= i64::MAX,
        j >= 0,
        (j + 1) * delta.raw < t.raw,
        wait_target_is(mem, id, second, t),
        lookup(mem, id, Label::Delta) == if j == 0 {
            None::<Val>
        } else {
            Some(Val::Number(Num { raw: (j * delta.raw) as i64 }))
        },
    ensures
        sp_wait(id, second, pc, mem, scene, delta) matches Ok(o) && {
            &&& o.is_continue
            &&& o.pointer == pc
            &&& o.scene == scene
            &&& lookup(o.mem, id, Label::Delta) == Some(
                Val::Number(Num { raw: ((j + 1) * delta.raw) as i64 }),
            )
            &&& wait_target_is(o.mem, id, second, t)
            &&& crate::memory::mem_wf(o.mem)
        },
{
    reveal(sp_wait);
    assert(j * delta.raw >= 0 && (j + 1) * delta.raw == j * delta.raw + delta.raw)
        by (nonlinear_arith)
        requires
            j >= 0,
            delta.raw >= 1,
    ;
    let acc = if j == 0 {
        Num { raw: 0 }
    } else {
        Num { raw: (j * delta.raw) as i64 }
    };
    match cache_spec(mem, id, Label::Time, second) {
        Ok(p) => {
            crate::memory::lemma_insert(mem, id, Label::Time, Val::Number(t));
            let mem1 = p.1;
            let nd = acc.s_add(delta);
            assert(nd.raw == (j + 1) * delta.raw);
            crate::memory::lemma_insert(mem1, id, Label::Delta, Val::Number(nd));
        },
        Err(_) => {
            assert(false);
        },
    }
}

/// A timed wait whose accumulated time reaches its target this tick resumes
/// exactly now: it advances past itself without yielding, and both its
/// scratch keys — the accumulated time and the cached target — are absent
/// afterwards.
pub proof fn lemma_wait_resumes(
    id: Seq<char>,
    second: Val,
    t: Num,
    pc: int,
    mem: Seq<EntryV>,
    scene: SceneV,
    delta: Num,
    j: int,
)
    requires
        crate::memory::mem_wf(mem),
        0 <= t.raw,
        1 <= delta.raw,
        t.raw + delta.raw <= i64::MAX,
        j >= 0,
        (j + 1) * delta.raw >= t.raw,
        j * delta.raw < t.raw,
        wait_target_is(mem, id, second, t),
        lookup(mem, id, Label::Delta) == if j == 0 {
            None::<Val>
        } else {
            Some(Val::Number(Num { raw: (j * delta.raw) as i64 }))
        },
    ensures
        sp_wait(id, second, pc, mem, scene, delta) matches Ok(o) && {
            &&& !o.is_continue
            &&& o.pointer == pc + 1
            &&& o.scene == scene
            &&& lookup(o.mem, id, Label::Delta) is None
            &&& lookup(o.mem, id, Label::Time) is None
        },
{
    reveal(sp_wait);
    assert(j * delta.raw >= 0 && (j + 1) * delta.raw == j * delta.raw + delta.raw)
        by (nonlinear_arith)
        requires
            j >= 0,
            delta.raw >= 1,
    ;
    match cache_spec(mem, id, Label::Time, second) {
        Ok(p) => {
            crate::memory::lemma_insert(mem, id, Label::Time, Val::Number(t));
            let mem1 = p.1;
            crate::memory::lemma_remove(mem1, id, Label::Delta);
            let m1 = mem_remove_spec(mem1, id, Label::Delta);
            crate::memory::lemma_remove(m1, id, Label::Time);
        },
        Err(_) => {
            assert(false);
        },
    }
}

/// The variable round trip: after writing a resolved value to a variable,
/// reading that variable in the same script produces exactly the written
/// value.
pub proof fn lemma_variable_round_trip(
    variable_id: Val,
    name: Seq<char>,
    value: Val,
    w: Val,
    pc: int,
    pc2: int,
    mem: Seq<EntryV>,
    scene: SceneV,
)
    requires
        crate::scene::vars_wf(scene.variables),
        variable_id.as_text() == Ok::<Seq<char>, CoercionError>(name),
        var_lookup(scene.variables, name) is Some,
        resolve_spec(value, mem) == Ok::<Val, RunError>(w),
    ensures
        sp_set_variable(variable_id, value, pc, mem, scene) matches Ok(o) && sp_get_variable(
            variable_id,
            pc2,
            o.mem,
            o.scene,
        ) == Ok::<StepOut, RunError>(out_value(pc2 + 1, w, o.mem, o.scene)),
{
    reveal(sp_set_variable);
    reveal(sp_get_variable);
    crate::scene::lemma_vars_set(scene.variables, name, w);
}

/// A plus whose operands do not both denote numbers concatenates their
/// texts: the produced value is the left text followed by the right text.
pub proof fn lemma_plus_concatenates(
    left: Val,
    right: Val,
    pc: int,
    mem: Seq<EntryV>,
    scene: SceneV,
    l: Val,
    r: Val,
    a: Seq<char>,
    b: Seq<char>,
)
    requires
        resolve_spec(left, mem) == Ok::<Val, RunError>(l),
        resolve_spec(right, mem) == Ok::<Val, RunError>(r),
        l.as_number() is Err || r.as_number() is Err,
        l.as_text() == Ok::<Seq<char>, CoercionError>(a),
        r.as_text() == Ok::<Seq<char>, CoercionError>(b),
    ensures
        sp_calc_basic(left, CalcOp::Plus, right, pc, mem, scene) matches Ok(o) && o.return_value
            == Some(Val::Text(a + b)) && o.pointer == pc + 1 && !o.is_continue,
{
    reveal(sp_calc_basic);
}

/// Moving or placing an object keeps the scene well-formed.
proof fn lemma_objs_set_wf(scene: SceneV, owner: Seq<char>)
    requires
        crate::scene::scene_wf(scene),
    ensures
        forall|x: Num, y: Num|
            crate::scene::objs_unique(#[trigger] objs_set_pos(scene.objects, owner, x, y)),
{
    assert forall|x: Num, y: Num|
        crate::scene::objs_unique(#[trigger] objs_set_pos(scene.objects, owner, x, y)) by {
        crate::scene::lemma_objs_set_pos(scene.objects, owner, x, y);
    }
}

/// An operand resolved and coerced to a number.
fn resolve_number_exec(v: &Value, memory: &Memory) -> (r: Result<Num, RunError>)
    ensures
        r == resolve_number(v@, memory@),
{
    match v.to_raw_value(memory) {
        Ok(w) => match w.as_number() {
            Ok(n) => Ok(n),
            Err(ce) => Err(RunError::Coercion(ce)),
        },
        Err(e) => Err(e),
    }
}

/// An operand resolved and coerced to text.
fn resolve_text_exec(v: &Value, memory: &Memory) -> (r: Result<String, RunError>)
    ensures
        match r {
            Ok(s) => resolve_text(v@, memory@) == Ok::<Seq<char>, RunError>(s@),
            Err(e) => resolve_text(v@, memory@) == Err::<Seq<char>, RunError>(e),
        },
{
    match v.to_raw_value(memory) {
        Ok(w) => match w.as_string() {
            Ok(t) => Ok(t),
            Err(ce) => Err(RunError::Coercion(ce)),
        },
        Err(e) => Err(e),
    }
}

/// An operand resolved and required to be a boolean.
fn resolve_boolean_exec(v: &Value, memory: &Memory) -> (r: Result<bool, RunError>)
    ensures
        r == resolve_boolean(v@, memory@),
{
    match v.to_raw_value(memory) {
        Ok(w) => match w.as_bool() {
            Some(b) => Ok(b),
            None => Err(RunError::Coercion(CoercionError::NotABoolean)),
        },
        Err(e) => Err(e),
    }
}

/// A cached operand coerced to a number.
fn cache_number_exec(memory: &mut Memory, id: &Id, label: Label, v: &Value) -> (r: Result<
    Num,
    RunError,
>)
    ensures
        match r {
            Ok(n) => cache_number(old(memory)@, id@, label, v@) matches Ok(p) && p.0 == n && p.1
                == final(memory)@,
            Err(e) => cache_number(old(memory)@, id@, label, v@) == Err::<
                (Num, Seq<EntryV>),
                RunError,
            >(e),
        },
{
    match memory.cache(id, label, v) {
        Ok(w) => match w.as_number() {
            Ok(n) => Ok(n),
            Err(ce) => Err(RunError::Coercion(ce)),
        },
        Err(e) => Err(e),
    }
}

/// A stored counter's number, or zero where the key is still absent.
fn counter_value_exec(memory: &Memory, id: &Id, label: Label) -> (r: Result<Num, RunError>)
    ensures
        r == counter_value(memory@, id@, label),
{
    match memory.get(id, label) {
        Some(w) => match w.as_number() {
            Ok(n) => Ok(n),
            Err(ce) => Err(RunError::Coercion(ce)),
        },
        None => Ok(Num { raw: 0 }),
    }
}

/// The owner displaced by (dx, dy); reports a missing owner.
fn move_owner_exec(scene: &mut Scene, owner: &Id, dx: Num, dy: Num) -> (r: Result<(), RunError>)
    ensures
        match r {
            Ok(()) => move_owner(old(scene)@, owner@, dx, dy) == Ok::<SceneV, RunError>(
                final(scene)@,
            ),
            Err(e) => move_owner(old(scene)@, owner@, dx, dy) == Err::<SceneV, RunError>(e) && old(
                scene,
            )@ == final(scene)@,
        },
{
    match scene.obj_pos(owner) {
        Some((x, y)) => {
            scene.set_obj_pos(owner, x.add(dx), y.add(dy));
            Ok(())
        },
        None => Err(RunError::LookupFailure),
    }
}

/// The owner placed at (x, y); reports a missing owner.
fn place_owner_exec(scene: &mut Scene, owner: &Id, x: Num, y: Num) -> (r: Result<(), RunError>)
    ensures
        match r {
            Ok(()) => place_owner(old(scene)@, owner@, x, y) == Ok::<SceneV, RunError>(
                final(scene)@,
            ),
            Err(e) => place_owner(old(scene)@, owner@, x, y) == Err::<SceneV, RunError>(e) && old(
                scene,
            )@ == final(scene)@,
        },
{
    match scene.obj_pos(owner) {
        Some(_) => {
            scene.set_obj_pos(owner, x, y);
            Ok(())
        },
        None => Err(RunError::LookupFailure),
    }
}

/// Runs a movement along one axis.
fn run_move(
    amount: &Value,
    horizontal: bool,
    pointer: usize,
    memory: &Memory,
    scene: &mut Scene,
    owner: &Id,
) -> (r: Result<BlockReturn, RunError>)
    requires
        pointer < usize::MAX,
    ensures
        run_matches(
            r,
            sp_move(amount@, horizontal, pointer as int, memory@, old(scene)@, owner@),
            memory@,
            final(scene)@,
        ),
        r is Err ==> final(scene)@ == old(scene)@,
{
    proof {
        reveal(sp_move);
    }
    let a = match resolve_number_exec(amount, memory) {
        Ok(a) => a,
        Err(e) => {
            return Err(e);
        },
    };
    let dx = if horizontal {
        a
    } else {
        Num { raw: 0 }
    };
    let dy = if horizontal {
        Num { raw: 0 }
    } else {
        a
    };
    match move_owner_exec(scene, owner, dx, dy) {
        Ok(()) => Ok(BlockReturn::basic(pointer)),
        Err(e) => Err(e),
    }
}

/// Runs a timed move.
fn run_move_xy_time(
    id: &Id,
    time: &Value,
    x: &Value,
    y: &Value,
    pointer: usize,
    memory: &mut Memory,
    scene: &mut Scene,
    owner: &Id,
    delta: Num,
) -> (r: Result<BlockReturn, RunError>)
    requires
        pointer < usize::MAX,
    ensures
        run_matches(
            r,
            sp_move_xy_time(
                id@,
                time@,
                x@,
                y@,
                pointer as int,
                old(memory)@,
                old(scene)@,
                owner@,
                delta,
            ),
            final(memory)@,
            final(scene)@,
        ),
        r is Err ==> final(scene)@ == old(scene)@,
{
    proof {
        reveal(sp_move_xy_time);
    }
    let t = match cache_number_exec(memory, id, Label::Time, time) {
        Ok(t) => t,
        Err(e) => {
            return Err(e);
        },
    };
    let xv = match cache_number_exec(memory, id, Label::X, x) {
        Ok(v) => v,
        Err(e) => {
            return Err(e);
        },
    };
    let yv = match cache_number_exec(memory, id, Label::Y, y) {
        Ok(v) => v,
        Err(e) => {
            return Err(e);
        },
    };
    let sofar = match counter_value_exec(memory, id, Label::Delta) {
        Ok(v) => v,
        Err(e) => {
            return Err(e);
        },
    };
    let this_delta = delta.div(t).min_num(Num { raw: 1000 });
    let new_delta = sofar.add(this_delta);
    if new_delta.raw < 1000 {
        match move_owner_exec(scene, owner, this_delta.mul(xv), this_delta.mul(yv)) {
            Ok(()) => {
                memory.insert(id, Label::Delta, Value::Number(new_delta));
                Ok(BlockReturn { pointer, is_continue: true, return_value: None })
            },
            Err(e) => Err(e),
        }
    } else {
        let rest = Num { raw: 1000 }.sub(sofar);
        match move_owner_exec(scene, owner, rest.mul(xv), rest.mul(yv)) {
            Ok(()) => {
                memory.remove(id, Label::Delta);
                memory.remove(id, Label::Time);
                memory.remove(id, Label::X);
                memory.remove(id, Label::Y);
                Ok(BlockReturn::basic(pointer))
            },
            Err(e) => Err(e),
        }
    }
}

/// Runs a timed wait.
fn run_wait(
    id: &Id,
    second: &Value,
    pointer: usize,
    memory: &mut Memory,
    ghost_scene: Ghost<SceneV>,
    delta: Num,
) -> (r: Result<BlockReturn, RunError>)
    requires
        pointer < usize::MAX,
    ensures
        run_matches(
            r,
            sp_wait(id@, second@, pointer as int, old(memory)@, ghost_scene@, delta),
            final(memory)@,
            ghost_scene@,
        ),
{
    proof {
        reveal(sp_wait);
    }
    let sec = match cache_number_exec(memory, id, Label::Time, second) {
        Ok(v) => v,
        Err(e) => {
            return Err(e);
        },
    };
    let sofar = match counter_value_exec(memory, id, Label::Delta) {
        Ok(v) => v,
        Err(e) => {
            return Err(e);
        },
    };
    let new_delta = sofar.add(delta);
    if new_delta.raw >= sec.raw {
        memory.remove(id, Label::Delta);
        memory.remove(id, Label::Time);
        Ok(BlockReturn::basic(pointer))
    } else {
        memory.insert(id, Label::Delta, Value::Number(new_delta));
        Ok(BlockReturn { pointer, is_continue: true, return_value: None })
    }
}

/// Runs a bounded repeat's header.
fn run_repeat_basic(
    id: &Id,
    iter_num: &Value,
    statements_length: usize,
    pointer: usize,
    memory: &mut Memory,
    ghost_scene: Ghost<SceneV>,
) -> (r: Result<BlockReturn, RunError>)
    requires
        pointer + statements_length + 2 <= usize::MAX,
    ensures
        run_matches(
            r,
            sp_repeat_basic(
                id@,
                iter_num@,
                statements_length as int,
                pointer as int,
                old(memory)@,
                ghost_scene@,
            ),
            final(memory)@,
            ghost_scene@,
        ),
{
    proof {
        reveal(sp_repeat_basic);
    }
    let bound = match cache_number_exec(memory, id, Label::IterNum, iter_num) {
        Ok(v) => v,
        Err(e) => {
            return Err(e);
        },
    };
    let c = match counter_value_exec(memory, id, Label::Count) {
        Ok(v) => v,
        Err(e) => {
            return Err(e);
        },
    };
    if c.raw < bound.raw {
        memory.insert(id, Label::Count, Value::Number(c.add(Num { raw: 1000 })));
        Ok(BlockReturn::basic(pointer))
    } else {
        memory.remove(id, Label::Count);
        memory.remove(id, Label::IterNum);
        Ok(
            BlockReturn {
                pointer: pointer + statements_length + 2,
                is_continue: false,
                return_value: None,
            },
        )
    }
}

/// Runs a comparison.
fn run_bool_op(
    left: &Value,
    op: BoolOp,
    right: &Value,
    pointer: usize,
    memory: &Memory,
    ghost_scene: Ghost<SceneV>,
) -> (r: Result<BlockReturn, RunError>)
    requires
        pointer < usize::MAX,
    ensures
        run_matches(
            r,
            sp_bool_op(left@, op, right@, pointer as int, memory@, ghost_scene@),
            memory@,
            ghost_scene@,
        ),
{
    proof {
        reveal(sp_bool_op);
    }
    let l = match left.to_raw_value(memory) {
        Ok(v) => v,
        Err(e) => {
            return Err(e);
        },
    };
    let r = match right.to_raw_value(memory) {
        Ok(v) => v,
        Err(e) => {
            return Err(e);
        },
    };
    let ln = l.as_number();
    let rn = r.as_number();
    let produced: bool;
    if ln.is_ok() && rn.is_ok() {
        let a = match ln {
            Ok(a) => a,
            Err(_) => Num { raw: 0 },
        };
        let b = match rn {
            Ok(b) => b,
            Err(_) => Num { raw: 0 },
        };
        produced = match op {
            BoolOp::Equal => a.raw == b.raw,
            BoolOp::NotEqual => a.raw != b.raw,
            BoolOp::Greater => a.raw > b.raw,
            BoolOp::Less => a.raw < b.raw,
            BoolOp::GreaterOrEqual => a.raw >= b.raw,
            BoolOp::LessOrEqual => a.raw <= b.raw,
        };
    } else if op == BoolOp::Equal || op == BoolOp::NotEqual {
        let a = match l.as_string() {
            Ok(a) => a,
            Err(ce) => {
                return Err(RunError::Coercion(ce));
            },
        };
        let b = match r.as_string() {
            Ok(b) => b,
            Err(ce) => {
                return Err(RunError::Coercion(ce));
            },
        };
        produced = if op == BoolOp::Equal {
            a == b
        } else {
            !(a == b)
        };
    } else {
        return Err(RunError::TypeMismatch);
    }
    Ok(
        BlockReturn {
            pointer: pointer + 1,
            is_continue: false,
            return_value: Some(Value::Boolean(produced)),
        },
    )
}

/// Runs an arithmetic combination.
fn run_calc_basic(
    left: &Value,
    op: CalcOp,
    right: &Value,
    pointer: usize,
    memory: &Memory,
    ghost_scene: Ghost<SceneV>,
) -> (r: Result<BlockReturn, RunError>)
    requires
        pointer < usize::MAX,
    ensures
        run_matches(
            r,
            sp_calc_basic(left@, op, right@, pointer as int, memory@, ghost_scene@),
            memory@,
            ghost_scene@,
        ),
{
    proof {
        reveal(sp_calc_basic);
    }
    let l = match left.to_raw_value(memory) {
        Ok(v) => v,
        Err(e) => {
            return Err(e);
        },
    };
    let r = match right.to_raw_value(memory) {
        Ok(v) => v,
        Err(e) => {
            return Err(e);
        },
    };
    let ln = l.as_number();
    let rn = r.as_number();
    match (ln, rn) {
        (Ok(a), Ok(b)) => {
            let n = match op {
                CalcOp::Plus => a.add(b),
                CalcOp::Minus => a.sub(b),
                CalcOp::Multi => a.mul(b),
                CalcOp::Divide => a.div(b),
            };
            Ok(
                BlockReturn {
                    pointer: pointer + 1,
                    is_continue: false,
                    return_value: Some(Value::Number(n)),
                },
            )
        },
        (la, ra) => {
            if op == CalcOp::Plus {
                let a = match l.as_string() {
                    Ok(a) => a,
                    Err(ce) => {
                        return Err(RunError::Coercion(ce));
                    },
                };
                let b = match r.as_string() {
                    Ok(b) => b,
                    Err(ce) => {
                        return Err(RunError::Coercion(ce));
                    },
                };
                Ok(
                    BlockReturn {
                        pointer: pointer + 1,
                        is_continue: false,
                        return_value: Some(Value::Text(a.concat(b.as_str()))),
                    },
                )
            } else {
                match la {
                    Err(ce) => Err(RunError::Coercion(ce)),
                    Ok(_) => match ra {
                        Err(ce) => Err(RunError::Coercion(ce)),
                        Ok(_) => {
                            proof {
                                assert(false);
                            }
                            Err(RunError::TypeMismatch)
                        },
                    },
                }
            }
        },
    }
}

/// Runs a change of a variable.
fn run_change_variable(
    variable_id: &Value,
    value: &Value,
    pointer: usize,
    memory: &Memory,
    scene: &mut Scene,
) -> (r: Result<BlockReturn, RunError>)
    requires
        pointer < usize::MAX,
    ensures
        run_matches(
            r,
            sp_change_variable(variable_id@, value@, pointer as int, memory@, old(scene)@),
            memory@,
            final(scene)@,
        ),
        r is Err ==> final(scene)@ == old(scene)@,
{
    proof {
        reveal(sp_change_variable);
    }
    let name = match variable_id.as_string() {
        Ok(s) => s,
        Err(ce) => {
            return Err(RunError::Coercion(ce));
        },
    };
    let vid = Id(name);
    let w = match value.to_raw_value(memory) {
        Ok(v) => v,
        Err(e) => {
            return Err(e);
        },
    };
    let cur = match scene.var_get(&vid) {
        Some(v) => v.clone(),
        None => {
            return Err(RunError::LookupFailure);
        },
    };
    let cn = cur.as_number();
    let wn = w.as_number();
    let combined = if cn.is_ok() && wn.is_ok() {
        let c = match cn {
            Ok(c) => c,
            Err(_) => Num { raw: 0 },
        };
        let d = match wn {
            Ok(d) => d,
            Err(_) => Num { raw: 0 },
        };
        Value::Number(c.add(d))
    } else {
        let a = match cur.as_string() {
            Ok(a) => a,
            Err(ce) => {
                return Err(RunError::Coercion(ce));
            },
        };
        let b = match w.as_string() {
            Ok(b) => b,
            Err(ce) => {
                return Err(RunError::Coercion(ce));
            },
        };
        Value::Text(a.concat(b.as_str()))
    };
    proof {
        crate::scene::lemma_var_lookup_found(scene@.variables, vid@);
    }
    scene.var_set(&vid, combined);
    Ok(BlockReturn::basic(pointer))
}

/// Runs a conditional.
fn run_if(
    condition: &Value,
    statements_length: usize,
    pointer: usize,
    memory: &Memory,
    ghost_scene: Ghost<SceneV>,
) -> (r: Result<BlockReturn, RunError>)
    requires
        pointer + statements_length + 1 <= usize::MAX,
    ensures
        run_matches(
            r,
            sp_if(condition@, statements_length as int, pointer as int, memory@, ghost_scene@),
            memory@,
            ghost_scene@,
        ),
{
    proof {
        reveal(sp_if);
    }
    let b = match resolve_boolean_exec(condition, memory) {
        Ok(v) => v,
        Err(e) => {
            return Err(e);
        },
    };
    Ok(
        BlockReturn {
            pointer: if b {
                pointer + 1
            } else {
                pointer + statements_length + 1
            },
            is_continue: false,
            return_value: None,
        },
    )
}

/// Runs a character count.
fn run_length(value: &Value, pointer: usize, memory: &Memory, ghost_scene: Ghost<SceneV>) -> (r:
    Result<BlockReturn, RunError>)
    requires
        pointer < usize::MAX,
    ensures
        run_matches(
            r,
            sp_length(value@, pointer as int, memory@, ghost_scene@),
            memory@,
            ghost_scene@,
        ),
{
    proof {
        reveal(sp_length);
    }
    let t = match resolve_text_exec(value, memory) {
        Ok(v) => v,
        Err(e) => {
            return Err(e);
        },
    };
    let n: usize = t.as_str().unicode_len();
    Ok(
        BlockReturn {
            pointer: pointer + 1,
            is_continue: false,
            return_value: Some(Value::Number(Num::from_count(n))),
        },
    )
}

/// Runs a write to a variable.
fn run_set_variable(
    variable_id: &Value,
    value: &Value,
    pointer: usize,
    memory: &Memory,
    scene: &mut Scene,
) -> (r: Result<BlockReturn, RunError>)
    requires
        pointer < usize::MAX,
    ensures
        run_matches(
            r,
            sp_set_variable(variable_id@, value@, pointer as int, memory@, old(scene)@),
            memory@,
            final(scene)@,
        ),
        r is Err ==> final(scene)@ == old(scene)@,
{
    proof {
        reveal(sp_set_variable);
    }
    let name = match variable_id.as_string() {
        Ok(s) => s,
        Err(ce) => {
            return Err(RunError::Coercion(ce));
        },
    };
    let vid = Id(name);
    let w = match value.to_raw_value(memory) {
        Ok(v) => v,
        Err(e) => {
            return Err(e);
        },
    };
    proof {
        crate::scene::lemma_var_lookup_found(scene@.variables, vid@);
    }
    let found = scene.var_set(&vid, w);
    if found {
        Ok(BlockReturn::basic(pointer))
    } else {
        Err(RunError::LookupFailure)
    }
}

/// Runs a read of a variable.
fn run_get_variable(
    variable_id: &Value,
    pointer: usize,
    ghost_mem: Ghost<Seq<EntryV>>,
    scene: &Scene,
) -> (r: Result<BlockReturn, RunError>)
    requires
        pointer < usize::MAX,
    ensures
        run_matches(
            r,
            sp_get_variable(variable_id@, pointer as int, ghost_mem@, scene@),
            ghost_mem@,
            scene@,
        ),
{
    proof {
        reveal(sp_get_variable);
    }
    let name = match variable_id.as_string() {
        Ok(s) => s,
        Err(ce) => {
            return Err(RunError::Coercion(ce));
        },
    };
    let vid = Id(name);
    match scene.var_get(&vid) {
        Some(v) => {
            let produced = v.clone();
            Ok(
                BlockReturn {
                    pointer: pointer + 1,
                    is_continue: false,
                    return_value: Some(produced),
                },
            )
        },
        None => Err(RunError::LookupFailure),
    }
}

/// Runs a unary numeric function.
fn run_calc_operation(
    value: &Value,
    operator: UnaryOp,
    pointer: usize,
    memory: &Memory,
    ghost_scene: Ghost<SceneV>,
) -> (r: Result<BlockReturn, RunError>)
    requires
        pointer < usize::MAX,
    ensures
        run_matches(
            r,
            sp_calc_operation(value@, operator, pointer as int, memory@, ghost_scene@),
            memory@,
            ghost_scene@,
        ),
{
    proof {
        reveal(sp_calc_operation);
    }
    let n = match resolve_number_exec(value, memory) {
        Ok(v) => v,
        Err(e) => {
            return Err(e);
        },
    };
    let m = match operator {
        UnaryOp::Square => n.square(),
        UnaryOp::Floor => n.floor(),
        UnaryOp::Ceil => n.ceil(),
        UnaryOp::Round => n.round(),
        UnaryOp::Abs => n.abs(),
        UnaryOp::Factorial => n.fract(),
        UnaryOp::Unnatural => n.unnatural(),
    };
    Ok(
        BlockReturn {
            pointer: pointer + 1,
            is_continue: false,
            return_value: Some(Value::Number(m)),
        },
    )
}

/// Runs a whole quotient or remainder.
fn run_quot_mod(
    left: &Value,
    right: &Value,
    operator: QuotOp,
    pointer: usize,
    memory: &Memory,
    ghost_scene: Ghost<SceneV>,
) -> (r: Result<BlockReturn, RunError>)
    requires
        pointer < usize::MAX,
    ensures
        run_matches(
            r,
            sp_quot_mod(left@, right@, operator, pointer as int, memory@, ghost_scene@),
            memory@,
            ghost_scene@,
        ),
{
    proof {
        reveal(sp_quot_mod);
    }
    let a = match resolve_number_exec(left, memory) {
        Ok(v) => v,
        Err(e) => {
            return Err(e);
        },
    };
    let b = match resolve_number_exec(right, memory) {
        Ok(v) => v,
        Err(e) => {
            return Err(e);
        },
    };
    let n = match operator {
        QuotOp::Quotient => a.quotient(b),
        QuotOp::Mod => a.rem(b),
    };
    Ok(
        BlockReturn {
            pointer: pointer + 1,
            is_continue: false,
            return_value: Some(Value::Number(n)),
        },
    )
}

/// Runs a locate onto the pointer or another object.
fn run_locate(
    target: &Value,
    pointer: usize,
    ghost_mem: Ghost<Seq<EntryV>>,
    scene: &mut Scene,
    owner: &Id,
) -> (r: Result<BlockReturn, RunError>)
    requires
        pointer < usize::MAX,
    ensures
        run_matches(
            r,
            sp_locate(target@, pointer as int, ghost_mem@, old(scene)@, owner@),
            ghost_mem@,
            final(scene)@,
        ),
        r is Err ==> final(scene)@ == old(scene)@,
{
    proof {
        reveal(sp_locate);
    }
    let name = match target.as_string() {
        Ok(s) => s,
        Err(ce) => {
            return Err(RunError::Coercion(ce));
        },
    };
    let tid = Id(name);
    let pos: (Num, Num) = if tid.id_eq(&Id::from_str("mouse")) {
        (scene.mouse.x, scene.mouse.y)
    } else {
        match scene.obj_pos(&tid) {
            Some(p) => p,
            None => {
                return Err(RunError::LookupFailure);
            },
        }
    };
    match place_owner_exec(scene, owner, pos.0, pos.1) {
        Ok(()) => Ok(BlockReturn::basic(pointer)),
        Err(e) => Err(e),
    }
}

/// Runs a move to a resolved position.
fn run_locate_xy(
    x: &Value,
    y: &Value,
    pointer: usize,
    memory: &Memory,
    scene: &mut Scene,
    owner: &Id,
) -> (r: Result<BlockReturn, RunError>)
    requires
        pointer < usize::MAX,
    ensures
        run_matches(
            r,
            sp_locate_xy(x@, y@, pointer as int, memory@, old(scene)@, owner@),
            memory@,
            final(scene)@,
        ),
        r is Err ==> final(scene)@ == old(scene)@,
{
    proof {
        reveal(sp_locate_xy);
    }
    let xv = match resolve_number_exec(x, memory) {
        Ok(v) => v,
        Err(e) => {
            return Err(e);
        },
    };
    let yv = match resolve_number_exec(y, memory) {
        Ok(v) => v,
        Err(e) => {
            return Err(e);
        },
    };
    match place_owner_exec(scene, owner, xv, yv) {
        Ok(()) => Ok(BlockReturn::basic(pointer)),
        Err(e) => Err(e),
    }
}

/// Runs a coordinate query.
fn run_coordinate(
    target: &Value,
    coordinate: Coord,
    pointer: usize,
    ghost_mem: Ghost<Seq<EntryV>>,
    scene: &Scene,
    owner: &Id,
) -> (r: Result<BlockReturn, RunError>)
    requires
        pointer < usize::MAX,
    ensures
        run_matches(
            r,
            sp_coordinate(target@, coordinate, pointer as int, ghost_mem@, scene@, owner@),
            ghost_mem@,
            scene@,
        ),
{
    proof {
        reveal(sp_coordinate);
    }
    let name = match target.as_string() {
        Ok(s) => s,
        Err(ce) => {
            return Err(RunError::Coercion(ce));
        },
    };
    let tid = Id(name);
    let pos = if tid.id_eq(&Id::from_str("self")) {
        scene.obj_pos(owner)
    } else {
        scene.obj_pos(&tid)
    };
    match pos {
        Some(p) => Ok(
            BlockReturn {
                pointer: pointer + 1,
                is_continue: false,
                return_value: Some(
                    Value::Number(
                        if coordinate == Coord::X {
                            p.0
                        } else {
                            p.1
                        },
                    ),
                ),
            },
        ),
        None => Err(RunError::LookupFailure),
    }
}

impl Instruction {
    /// Runs this instruction at the program counter against the stores,
    /// computing exactly what `step_spec` says: the follow-on counter,
    /// whether to yield the tick, the produced value, and the new stores. On
    /// a fatal error the scene is untouched and the runner is to be
    /// discarded.
    #[verifier::rlimit(100)]
    #[verifier::spinoff_prover]
    pub fn run(&self, pointer: usize, memory: &mut Memory, scene: &mut Scene, owner: &Id, delta:
        Num) -> (r: Result<BlockReturn, RunError>)
        requires
            run_safe(self.op, pointer as int),
        ensures
            run_matches(
                r,
                step_spec(*self, pointer as int, old(memory)@, old(scene)@, owner@, delta),
                final(memory)@,
                final(scene)@,
            ),
            r is Err ==> final(scene)@ == old(scene)@,
    {
        match &self.op {
            OpKind::MoveDirection { amount } => run_move(
                amount,
                true,
                pointer,
                memory,
                scene,
                owner,
            ),
            OpKind::MoveX { amount } => run_move(amount, true, pointer, memory, scene, owner),
            OpKind::MoveY { amount } => run_move(amount, false, pointer, memory, scene, owner),
            OpKind::MoveXyTime { time, x, y } => run_move_xy_time(
                &self.id,
                time,
                x,
                y,
                pointer,
                memory,
                scene,
                owner,
                delta,
            ),
            OpKind::WaitSecond { second } => run_wait(
                &self.id,
                second,
                pointer,
                memory,
                Ghost(scene@),
                delta,
            ),
            OpKind::RepeatBasic { iter_num, statements_length } => run_repeat_basic(
                &self.id,
                iter_num,
                *statements_length,
                pointer,
                memory,
                Ghost(scene@),
            ),
            OpKind::RepeatBasicEnd { statements_length } => Ok(
                BlockReturn {
                    pointer: pointer - *statements_length - 1,
                    is_continue: true,
                    return_value: None,
                },
            ),
            OpKind::RepeatInf => Ok(BlockReturn::basic(pointer)),
            OpKind::If { condition, statements_length } => run_if(
                condition,
                *statements_length,
                pointer,
                memory,
                Ghost(scene@),
            ),
            OpKind::LengthOfString { value } => run_length(value, pointer, memory, Ghost(scene@)),
            OpKind::SetVariable { variable_id, value } => run_set_variable(
                variable_id,
                value,
                pointer,
                memory,
                scene,
            ),
            OpKind::GetVariable { variable_id } => run_get_variable(
                variable_id,
                pointer,
                Ghost(memory@),
                scene,
            ),
            OpKind::ChangeVariable { variable_id, value } => run_change_variable(
                variable_id,
                value,
                pointer,
                memory,
                scene,
            ),
            OpKind::BooleanBasicOperator { left, op, right } => run_bool_op(
                left,
                *op,
                right,
                pointer,
                memory,
                Ghost(scene@),
            ),
            OpKind::CalcBasic { left, op, right } => run_calc_basic(
                left,
                *op,
                right,
                pointer,
                memory,
                Ghost(scene@),
            ),
            OpKind::CalcOperation { value, operator } => run_calc_operation(
                value,
                *operator,
                pointer,
                memory,
                Ghost(scene@),
            ),
            OpKind::QuotientAndMod { left, right, operator } => run_quot_mod(
                left,
                right,
                *operator,
                pointer,
                memory,
                Ghost(scene@),
            ),
            OpKind::Locate { target } => run_locate(target, pointer, Ghost(memory@), scene, owner),
            OpKind::LocateXy { x, y } => run_locate_xy(x, y, pointer, memory, scene, owner),
            OpKind::CoordinateObject { target, coordinate } => run_coordinate(
                target,
                *coordinate,
                pointer,
                Ghost(memory@),
                scene,
                owner,
            ),
        }
    }
}

} // verus!
