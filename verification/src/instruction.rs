//! The instruction set.
//!
//! A compiled program is a flat, ordered, immutable list of instructions.
//! Control-flow instructions carry the length of their body, computed at
//! compile time: a conditional skips `statements_length + 1` when false, a
//! bounded repeat skips `statements_length + 2` when exhausted, and the
//! paired end marker jumps back by `statements_length + 1` to the header.

use vstd::prelude::*;

use crate::value::{Id, Value};

verus! {

/// Binary comparison operators.
#[derive(Clone, Copy, Debug, PartialEq, Eq, Structural)]
pub enum BoolOp {
    Equal,
    NotEqual,
    Greater,
    Less,
    GreaterOrEqual,
    LessOrEqual,
}

/// Basic arithmetic operators.
#[derive(Clone, Copy, Debug, PartialEq, Eq, Structural)]
pub enum CalcOp {
    Plus,
    Minus,
    Multi,
    Divide,
}

/// Unary numeric operators with exact fixed-point meaning.
#[derive(Clone, Copy, Debug, PartialEq, Eq, Structural)]
pub enum UnaryOp {
    Square,
    Floor,
    Ceil,
    Round,
    Abs,
    /// The fractional part. The source block catalogue lists this behavior
    /// under the name "factorial"; the observed behavior is kept under the
    /// observed name.
    Factorial,
    /// The distance below the nearest whole number; below zero, one minus
    /// that distance.
    Unnatural,
}

/// Whole-quotient and remainder operators.
#[derive(Clone, Copy, Debug, PartialEq, Eq, Structural)]
pub enum QuotOp {
    Quotient,
    Mod,
}

/// Which coordinate a coordinate query reads.
#[derive(Clone, Copy, Debug, PartialEq, Eq, Structural)]
pub enum Coord {
    X,
    Y,
}

/// One runnable operation, with its compiled operands.
#[derive(Debug, PartialEq)]
pub enum OpKind {
    /// Moves the owner along x by an amount.
    MoveDirection { amount: Value },
    /// Moves the owner along x by an amount.
    MoveX { amount: Value },
    /// Moves the owner along y by an amount.
    MoveY { amount: Value },
    /// Moves the owner by (x, y) spread over a duration, a share per tick.
    MoveXyTime { time: Value, x: Value, y: Value },
    /// Suspends until the accumulated tick time reaches a duration.
    WaitSecond { second: Value },
    /// A bounded loop's header.
    RepeatBasic { iter_num: Value, statements_length: usize },
    /// A loop's end marker: jumps back to the header and yields the tick.
    RepeatBasicEnd { statements_length: usize },
    /// An unbounded loop's header.
    RepeatInf,
    /// A conditional: falls into its body or skips it.
    If { condition: Value, statements_length: usize },
    /// Produces the character count of a text.
    LengthOfString { value: Value },
    /// Writes a variable; the name is a literal read through its text form.
    SetVariable { variable_id: Value, value: Value },
    /// Produces a variable's current value.
    GetVariable { variable_id: Value },
    /// Adds to a variable numerically, or appends as text.
    ChangeVariable { variable_id: Value, value: Value },
    /// Produces a boolean comparison of two values.
    BooleanBasicOperator { left: Value, op: BoolOp, right: Value },
    /// Produces an arithmetic combination of two values.
    CalcBasic { left: Value, op: CalcOp, right: Value },
    /// Produces a unary numeric function of a value.
    CalcOperation { value: Value, operator: UnaryOp },
    /// Produces the whole quotient or the remainder of two values.
    QuotientAndMod { left: Value, right: Value, operator: QuotOp },
    /// Moves the owner onto a named target: the pointer device, or another
    /// object by identifier.
    Locate { target: Value },
    /// Moves the owner to a position.
    LocateXy { x: Value, y: Value },
    /// Produces a coordinate of the owner or of a named object.
    CoordinateObject { target: Value, coordinate: Coord },
}

/// One compiled, runnable step, with the identity of its source block.
#[derive(Debug, PartialEq)]
pub struct Instruction {
    pub id: Id,
    pub op: OpKind,
}

impl Clone for OpKind {
    fn clone(&self) -> (r: OpKind)
        ensures
            r == self,
    {
        match self {
            OpKind::MoveDirection { amount } => OpKind::MoveDirection { amount: amount.clone() },
            OpKind::MoveX { amount } => OpKind::MoveX { amount: amount.clone() },
            OpKind::MoveY { amount } => OpKind::MoveY { amount: amount.clone() },
            OpKind::MoveXyTime { time, x, y } => OpKind::MoveXyTime {
                time: time.clone(),
                x: x.clone(),
                y: y.clone(),
            },
            OpKind::WaitSecond { second } => OpKind::WaitSecond { second: second.clone() },
            OpKind::RepeatBasic { iter_num, statements_length } => OpKind::RepeatBasic {
                iter_num: iter_num.clone(),
                statements_length: *statements_length,
            },
            OpKind::RepeatBasicEnd { statements_length } => OpKind::RepeatBasicEnd {
                statements_length: *statements_length,
            },
            OpKind::RepeatInf => OpKind::RepeatInf,
            OpKind::If { condition, statements_length } => OpKind::If {
                condition: condition.clone(),
                statements_length: *statements_length,
            },
            OpKind::LengthOfString { value } => OpKind::LengthOfString { value: value.clone() },
            OpKind::SetVariable { variable_id, value } => OpKind::SetVariable {
                variable_id: variable_id.clone(),
                value: value.clone(),
            },
            OpKind::GetVariable { variable_id } => OpKind::GetVariable {
                variable_id: variable_id.clone(),
            },
            OpKind::ChangeVariable { variable_id, value } => OpKind::ChangeVariable {
                variable_id: variable_id.clone(),
                value: value.clone(),
            },
            OpKind::BooleanBasicOperator { left, op, right } => OpKind::BooleanBasicOperator {
                left: left.clone(),
                op: *op,
                right: right.clone(),
            },
            OpKind::CalcBasic { left, op, right } => OpKind::CalcBasic {
                left: left.clone(),
                op: *op,
                right: right.clone(),
            },
            OpKind::CalcOperation { value, operator } => OpKind::CalcOperation {
                value: value.clone(),
                operator: *operator,
            },
            OpKind::QuotientAndMod { left, right, operator } => OpKind::QuotientAndMod {
                left: left.clone(),
                right: right.clone(),
                operator: *operator,
            },
            OpKind::Locate { target } => OpKind::Locate { target: target.clone() },
            OpKind::LocateXy { x, y } => OpKind::LocateXy { x: x.clone(), y: y.clone() },
            OpKind::CoordinateObject { target, coordinate } => OpKind::CoordinateObject {
                target: target.clone(),
                coordinate: *coordinate,
            },
        }
    }
}

impl Clone for Instruction {
    fn clone(&self) -> (r: Instruction)
        ensures
            r == self,
    {
        Instruction { id: self.id.clone(), op: self.op.clone() }
    }
}

/// The largest program the engine accepts: jump arithmetic then stays far
/// within the machine's index range.
pub const MAX_PROGRAM_LEN: usize = 0x1000_0000;

/// The jump arithmetic an instruction relies on, at its position: a bounded
/// repeat's end marker stands one past its body with the same length, an end
/// marker has a header's room behind it, and body lengths are bounded.
pub open spec fn inst_wf_at(prog: Seq<Instruction>, i: int) -> bool {
    match prog[i].op {
        OpKind::RepeatBasic { statements_length: l, .. } => {
            &&& l <= prog.len()
            &&& i + l + 1 < prog.len()
            &&& prog[i + l + 1].op matches OpKind::RepeatBasicEnd { statements_length: l2 } && l2
                == l
            &&& prog[i + l + 1].id == prog[i].id
        },
        OpKind::RepeatBasicEnd { statements_length: l } => i >= l + 1,
        OpKind::If { statements_length: l, .. } => l <= prog.len(),
        _ => true,
    }
}

/// A segment whose jump arithmetic is sound at every position. The
/// conditions survive embedding: a sound segment stays sound inside any
/// concatenation.
pub open spec fn seg_wf(s: Seq<Instruction>) -> bool {
    forall|i: int| 0 <= i < s.len() ==> inst_wf_at(s, i)
}

/// A program whose jump arithmetic is sound everywhere.
pub open spec fn prog_wf(prog: Seq<Instruction>) -> bool {
    &&& prog.len() <= MAX_PROGRAM_LEN
    &&& seg_wf(prog)
}

/// Sound segments concatenate to a sound segment.
pub proof fn lemma_seg_concat(a: Seq<Instruction>, b: Seq<Instruction>)
    requires
        seg_wf(a),
        seg_wf(b),
    ensures
        seg_wf(a + b),
{
    let c = a + b;
    assert forall|i: int| 0 <= i < c.len() implies inst_wf_at(c, i) by {
        if i < a.len() {
            assert(inst_wf_at(a, i));
            assert(c[i] == a[i]);
            match a[i].op {
                OpKind::RepeatBasic { statements_length: l, .. } => {
                    assert(c[i + l + 1] == a[i + l + 1]);
                },
                _ => {},
            }
        } else {
            let j = i - a.len();
            assert(inst_wf_at(b, j));
            assert(c[i] == b[j]);
            match b[j].op {
                OpKind::RepeatBasic { statements_length: l, .. } => {
                    assert(c[i + l + 1] == b[j + l + 1]);
                },
                _ => {},
            }
        }
    }
}

/// An instruction with no jump arithmetic is a sound segment by itself.
pub proof fn lemma_seg_single(inst: Instruction)
    requires
        !(inst.op is RepeatBasic),
        !(inst.op is RepeatBasicEnd),
        !(inst.op is If),
    ensures
        seg_wf(seq![inst]),
{
}

/// An operation with no jump arithmetic.
pub open spec fn no_jumps(op: OpKind) -> bool {
    !(op is RepeatBasic) && !(op is RepeatBasicEnd) && !(op is If)
}

/// Appending a jump-free instruction to a sound segment keeps it sound.
pub proof fn lemma_seg_push(a: Seq<Instruction>, inst: Instruction)
    requires
        seg_wf(a),
        no_jumps(inst.op),
    ensures
        seg_wf(a.push(inst)),
{
    lemma_seg_single(inst);
    lemma_seg_concat(a, seq![inst]);
    assert(a.push(inst) =~= a + seq![inst]);
}

/// Two sound segments and a closing jump-free instruction are sound.
pub proof fn lemma_seg_pair_push(a: Seq<Instruction>, b: Seq<Instruction>, inst: Instruction)
    requires
        seg_wf(a),
        seg_wf(b),
        no_jumps(inst.op),
    ensures
        seg_wf(a + b + seq![inst]),
{
    lemma_seg_concat(a, b);
    lemma_seg_single(inst);
    lemma_seg_concat(a + b, seq![inst]);
}

/// A loop's shape is a sound segment: a header, the body, and the end
/// marker one past the body, carrying the body's length.
pub proof fn lemma_seg_loop(header: Instruction, body: Seq<Instruction>, endm: Instruction, l: usize)
    requires
        seg_wf(body),
        l == body.len(),
        endm.op matches OpKind::RepeatBasicEnd { statements_length: l2 } && l2 == l,
        match header.op {
            OpKind::RepeatBasic { statements_length: l3, .. } => l3 == l && endm.id == header.id,
            OpKind::RepeatInf => true,
            _ => false,
        },
    ensures
        seg_wf(seq![header] + body + seq![endm]),
{
    let s = seq![header] + body + seq![endm];
    assert(s.len() == l + 2);
    assert(s[0] == header);
    assert(s[l + 1] == endm);
    assert forall|i: int| 0 <= i < s.len() implies inst_wf_at(s, i) by {
        if i == 0 {
        } else if i == l + 1 {
        } else {
            assert(s[i] == body[i - 1]);
            assert(inst_wf_at(body, i - 1));
            match body[i - 1].op {
                OpKind::RepeatBasic { statements_length: lb, .. } => {
                    assert(s[i + lb + 1] == body[i - 1 + lb + 1]);
                },
                _ => {},
            }
        }
    }
}

/// A conditional's shape is a sound segment: the header then its body.
pub proof fn lemma_seg_if(header: Instruction, body: Seq<Instruction>, l: usize)
    requires
        seg_wf(body),
        l == body.len(),
        header.op matches OpKind::If { statements_length: l2, .. } && l2 == l,
    ensures
        seg_wf(seq![header] + body),
{
    let s = seq![header] + body;
    assert(s[0] == header);
    assert forall|i: int| 0 <= i < s.len() implies inst_wf_at(s, i) by {
        if i > 0 {
            assert(s[i] == body[i - 1]);
            assert(inst_wf_at(body, i - 1));
            match body[i - 1].op {
                OpKind::RepeatBasic { statements_length: lb, .. } => {
                    assert(s[i + lb + 1] == body[i - 1 + lb + 1]);
                },
                _ => {},
            }
        }
    }
}

/// What one step hands the scheduler: where to continue, whether to yield
/// the tick, and a produced value to store for a consumer.
#[derive(Debug, PartialEq)]
pub struct BlockReturn {
    pub pointer: usize,
    pub is_continue: bool,
    pub return_value: Option<Value>,
}

impl BlockReturn {
    /// Plain advance: the next instruction, no suspension, nothing produced.
    pub fn basic(pointer: usize) -> (r: BlockReturn)
        requires
            pointer < usize::MAX,
        ensures
            r.pointer == pointer + 1,
            !r.is_continue,
            r.return_value is None,
    {
        BlockReturn { pointer: pointer + 1, is_continue: false, return_value: None }
    }
}

} // verus!
