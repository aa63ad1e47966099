//! The block compiler.
//!
//! A parsed script is a tree of nested blocks: an identifier, an operation
//! name, ordered parameters (literals, nested expression blocks, or literal
//! wrappers to unwrap at compile time), and body statement lists. Compiling
//! flattens the tree into one instruction list: a nested expression is
//! emitted before its consumer, which receives a memory reference to the
//! expression's produced value; a block with a body emits a header carrying
//! the body's length, the body, and — for loops — an end marker carrying
//! the same length. Unknown operation names at statement level produce no
//! instructions and compilation continues; a malformed or unsupported
//! parameter aborts that script alone.

use vstd::prelude::*;

use crate::instruction::{BoolOp, CalcOp, Coord, Instruction, OpKind, QuotOp, UnaryOp};
use crate::num::Num;
use crate::text::num_text;
use crate::value::{Id, Label, Value};

verus! {

/// A parameter of a source block.
#[derive(Debug)]
pub enum Param {
    /// A nested block: an expression to compile, or a literal wrapper.
    Block(Node),
    Number(Num),
    Text(String),
    Bool(bool),
    /// An absent parameter slot.
    Null,
}

/// One source block.
#[derive(Debug)]
pub struct Node {
    pub id: Id,
    pub op_name: String,
    pub params: Vec<Param>,
    pub statements: Vec<Vec<Node>>,
}

/// Why a script cannot be compiled. Such an error aborts loading that
/// script only.
#[derive(Clone, Copy, Debug, PartialEq, Eq, Structural)]
pub enum CompileError {
    /// A required parameter slot is absent.
    MissingParameter,
    /// A parameter holds something the operation cannot take, such as a
    /// computed operator or variable name.
    MalformedParameter,
    /// A block with a body has no statement list.
    MissingBody,
    /// An expression block or operator that the catalogue does not know.
    UnsupportedOperation,
    /// The flattened program would exceed the engine's size bound.
    ProgramTooLong,
}

/// The operation catalogue, by block name.
#[derive(Clone, Copy, Debug, PartialEq, Eq, Structural)]
pub enum BlockType {
    MoveDirection,
    WaitSecond,
    RepeatBasic,
    RepeatInf,
    LengthOfString,
    SetVariable,
    GetVariable,
    ChangeVariable,
    If,
    BooleanBasicOperator,
    MoveX,
    MoveY,
    CalcBasic,
    CalcOperation,
    QuotientAndMod,
    MoveXyTime,
    Locate,
    LocateXy,
    CoordinateObject,
}

/// The block names that only wrap a literal and are unwrapped at compile
/// time, never executed.
pub open spec fn is_literal_wrapper(name: Seq<char>) -> bool {
    name == "number"@ || name == "text"@ || name == "True"@
}

/// The operation a block name denotes, if any.
pub open spec fn block_type_of(name: Seq<char>) -> Option<BlockType> {
    if name == "move_direction"@ {
        Some(BlockType::MoveDirection)
    } else if name == "wait_second"@ {
        Some(BlockType::WaitSecond)
    } else if name == "repeat_basic"@ {
        Some(BlockType::RepeatBasic)
    } else if name == "repeat_inf"@ {
        Some(BlockType::RepeatInf)
    } else if name == "length_of_string"@ {
        Some(BlockType::LengthOfString)
    } else if name == "set_variable"@ {
        Some(BlockType::SetVariable)
    } else if name == "get_variable"@ {
        Some(BlockType::GetVariable)
    } else if name == "change_variable"@ {
        Some(BlockType::ChangeVariable)
    } else if name == "_if"@ {
        Some(BlockType::If)
    } else if name == "boolean_basic_operator"@ {
        Some(BlockType::BooleanBasicOperator)
    } else if name == "move_x"@ {
        Some(BlockType::MoveX)
    } else if name == "move_y"@ {
        Some(BlockType::MoveY)
    } else if name == "calc_basic"@ {
        Some(BlockType::CalcBasic)
    } else if name == "calc_operation"@ {
        Some(BlockType::CalcOperation)
    } else if name == "quotient_and_mod"@ {
        Some(BlockType::QuotientAndMod)
    } else if name == "move_xy_time"@ {
        Some(BlockType::MoveXyTime)
    } else if name == "locate"@ {
        Some(BlockType::Locate)
    } else if name == "locate_xy"@ {
        Some(BlockType::LocateXy)
    } else if name == "coordinate_object"@ {
        Some(BlockType::CoordinateObject)
    } else {
        None
    }
}

/// Whether a string holds exactly the given text.
fn name_is(s: &String, lit: &str) -> (r: bool)
    ensures
        r == (s@ == lit@),
{
    *s == String::from_str(lit)
}

impl BlockType {
    /// Reads a block name; nothing for names outside the catalogue.
    pub fn from_str(name: &String) -> (r: Option<BlockType>)
        ensures
            r == block_type_of(name@),
    {
        if name_is(name, "move_direction") {
            Some(BlockType::MoveDirection)
        } else if name_is(name, "wait_second") {
            Some(BlockType::WaitSecond)
        } else if name_is(name, "repeat_basic") {
            Some(BlockType::RepeatBasic)
        } else if name_is(name, "repeat_inf") {
            Some(BlockType::RepeatInf)
        } else if name_is(name, "length_of_string") {
            Some(BlockType::LengthOfString)
        } else if name_is(name, "set_variable") {
            Some(BlockType::SetVariable)
        } else if name_is(name, "get_variable") {
            Some(BlockType::GetVariable)
        } else if name_is(name, "change_variable") {
            Some(BlockType::ChangeVariable)
        } else if name_is(name, "_if") {
            Some(BlockType::If)
        } else if name_is(name, "boolean_basic_operator") {
            Some(BlockType::BooleanBasicOperator)
        } else if name_is(name, "move_x") {
            Some(BlockType::MoveX)
        } else if name_is(name, "move_y") {
            Some(BlockType::MoveY)
        } else if name_is(name, "calc_basic") {
            Some(BlockType::CalcBasic)
        } else if name_is(name, "calc_operation") {
            Some(BlockType::CalcOperation)
        } else if name_is(name, "quotient_and_mod") {
            Some(BlockType::QuotientAndMod)
        } else if name_is(name, "move_xy_time") {
            Some(BlockType::MoveXyTime)
        } else if name_is(name, "locate") {
            Some(BlockType::Locate)
        } else if name_is(name, "locate_xy") {
            Some(BlockType::LocateXy)
        } else if name_is(name, "coordinate_object") {
            Some(BlockType::CoordinateObject)
        } else {
            None
        }
    }
}

/// The comparison operator a name denotes.
pub open spec fn bool_op_of(name: Seq<char>) -> Option<BoolOp> {
    if name == "EQUAL"@ {
        Some(BoolOp::Equal)
    } else if name == "NOT_EQUAL"@ {
        Some(BoolOp::NotEqual)
    } else if name == "GREATER"@ {
        Some(BoolOp::Greater)
    } else if name == "LESS"@ {
        Some(BoolOp::Less)
    } else if name == "GREATER_OR_EQUAL"@ {
        Some(BoolOp::GreaterOrEqual)
    } else if name == "LESS_OR_EQUAL"@ {
        Some(BoolOp::LessOrEqual)
    } else {
        None
    }
}

/// The arithmetic operator a name denotes.
pub open spec fn calc_op_of(name: Seq<char>) -> Option<CalcOp> {
    if name == "PLUS"@ {
        Some(CalcOp::Plus)
    } else if name == "MINUS"@ {
        Some(CalcOp::Minus)
    } else if name == "MULTI"@ {
        Some(CalcOp::Multi)
    } else if name == "DIVIDE"@ {
        Some(CalcOp::Divide)
    } else {
        None
    }
}

/// The unary operator a name denotes. Names with no exact fixed-point
/// meaning are outside the catalogue.
pub open spec fn unary_op_of(name: Seq<char>) -> Option<UnaryOp> {
    if name == "square"@ {
        Some(UnaryOp::Square)
    } else if name == "floor"@ {
        Some(UnaryOp::Floor)
    } else if name == "ceil"@ {
        Some(UnaryOp::Ceil)
    } else if name == "round"@ {
        Some(UnaryOp::Round)
    } else if name == "abs"@ {
        Some(UnaryOp::Abs)
    } else if name == "factorial"@ {
        Some(UnaryOp::Factorial)
    } else if name == "unnatural"@ {
        Some(UnaryOp::Unnatural)
    } else {
        None
    }
}

/// The quotient-or-remainder operator a name denotes.
pub open spec fn quot_op_of(name: Seq<char>) -> Option<QuotOp> {
    if name == "QUOTIENT"@ {
        Some(QuotOp::Quotient)
    } else if name == "MOD"@ {
        Some(QuotOp::Mod)
    } else {
        None
    }
}

/// The coordinate a name denotes.
pub open spec fn coord_of(name: Seq<char>) -> Option<Coord> {
    if name == "x"@ {
        Some(Coord::X)
    } else if name == "y"@ {
        Some(Coord::Y)
    } else {
        None
    }
}

/// Reads a comparison operator name.
fn bool_op_from(name: &String) -> (r: Option<BoolOp>)
    ensures
        r == bool_op_of(name@),
{
    if name_is(name, "EQUAL") {
        Some(BoolOp::Equal)
    } else if name_is(name, "NOT_EQUAL") {
        Some(BoolOp::NotEqual)
    } else if name_is(name, "GREATER") {
        Some(BoolOp::Greater)
    } else if name_is(name, "LESS") {
        Some(BoolOp::Less)
    } else if name_is(name, "GREATER_OR_EQUAL") {
        Some(BoolOp::GreaterOrEqual)
    } else if name_is(name, "LESS_OR_EQUAL") {
        Some(BoolOp::LessOrEqual)
    } else {
        None
    }
}

/// Reads an arithmetic operator name.
fn calc_op_from(name: &String) -> (r: Option<CalcOp>)
    ensures
        r == calc_op_of(name@),
{
    if name_is(name, "PLUS") {
        Some(CalcOp::Plus)
    } else if name_is(name, "MINUS") {
        Some(CalcOp::Minus)
    } else if name_is(name, "MULTI") {
        Some(CalcOp::Multi)
    } else if name_is(name, "DIVIDE") {
        Some(CalcOp::Divide)
    } else {
        None
    }
}

/// Reads a unary operator name.
fn unary_op_from(name: &String) -> (r: Option<UnaryOp>)
    ensures
        r == unary_op_of(name@),
{
    if name_is(name, "square") {
        Some(UnaryOp::Square)
    } else if name_is(name, "floor") {
        Some(UnaryOp::Floor)
    } else if name_is(name, "ceil") {
        Some(UnaryOp::Ceil)
    } else if name_is(name, "round") {
        Some(UnaryOp::Round)
    } else if name_is(name, "abs") {
        Some(UnaryOp::Abs)
    } else if name_is(name, "factorial") {
        Some(UnaryOp::Factorial)
    } else if name_is(name, "unnatural") {
        Some(UnaryOp::Unnatural)
    } else {
        None
    }
}

/// Reads a quotient-or-remainder operator name.
fn quot_op_from(name: &String) -> (r: Option<QuotOp>)
    ensures
        r == quot_op_of(name@),
{
    if name_is(name, "QUOTIENT") {
        Some(QuotOp::Quotient)
    } else if name_is(name, "MOD") {
        Some(QuotOp::Mod)
    } else {
        None
    }
}

/// Reads a coordinate name.
fn coord_from(name: &String) -> (r: Option<Coord>)
    ensures
        r == coord_of(name@),
{
    if name_is(name, "x") {
        Some(Coord::X)
    } else if name_is(name, "y") {
        Some(Coord::Y)
    } else {
        None
    }
}

/// What compiling one parameter yields: the operand value and the
/// instructions to emit before the consumer; nothing for an absent slot. A
/// nested expression compiles to its instructions and a memory reference to
/// the last one's produced value; a literal wrapper is unwrapped.
pub open spec fn compile_param_spec(p: Param) -> Result<
    Option<(Value, Seq<Instruction>)>,
    CompileError,
>
    decreases p, 0int,
{
    match p {
        Param::Block(node) => match block_type_of(node.op_name@) {
            Some(bt) => match build_spec(bt, node) {
                Ok(insts) => if insts.len() == 0 {
                    Err(CompileError::UnsupportedOperation)
                } else {
                    Ok(
                        Some(
                            (
                                Value::Memory(insts.last().id, Label::ReturnValue),
                                insts,
                            ),
                        ),
                    )
                },
                Err(e) => Err(e),
            },
            None => if is_literal_wrapper(node.op_name@) {
                if node.params@.len() == 0 {
                    Err(CompileError::MissingParameter)
                } else {
                    compile_param_spec(node.params@[0])
                }
            } else {
                Err(CompileError::UnsupportedOperation)
            },
        },
        Param::Number(v) => Ok(Some((Value::Number(v), Seq::<Instruction>::empty()))),
        Param::Text(s) => Ok(Some((Value::Text(s), Seq::<Instruction>::empty()))),
        Param::Bool(b) => Ok(Some((Value::Boolean(b), Seq::<Instruction>::empty()))),
        Param::Null => Ok(None),
    }
}

/// A required parameter: compiled, and present.
pub open spec fn req_param(n: Node, i: int) -> Result<(Value, Seq<Instruction>), CompileError>
    decreases n, 0int,
{
    if i < 0 || i >= n.params@.len() {
        Err(CompileError::MissingParameter)
    } else {
        match compile_param_spec(n.params@[i]) {
            Ok(Some(pr)) => Ok(pr),
            Ok(None) => Err(CompileError::MissingParameter),
            Err(e) => Err(e),
        }
    }
}

/// The text form of a literal parameter: text itself, a number in decimal
/// form, a boolean as its name.
pub open spec fn lit_text(p: Param) -> Option<Seq<char>> {
    match p {
        Param::Text(s) => Some(s@),
        Param::Number(v) => Some(num_text(v.raw as int)),
        Param::Bool(b) => Some(
            if b {
                "true"@
            } else {
                "false"@
            },
        ),
        _ => None,
    }
}

/// A parameter read at compile time through its text form: an operator name
/// or a coordinate name. Any literal serves; a nested block does not.
pub open spec fn text_param(n: Node, i: int) -> Result<Seq<char>, CompileError> {
    if i < 0 || i >= n.params@.len() {
        Err(CompileError::MissingParameter)
    } else if n.params@[i] is Null {
        Err(CompileError::MissingParameter)
    } else {
        match lit_text(n.params@[i]) {
            Some(t) => Ok(t),
            None => Err(CompileError::MalformedParameter),
        }
    }
}

/// A parameter that must be a literal, kept whole: a variable identifier or
/// a named target, read through its text form when the instruction runs.
pub open spec fn lit_param(n: Node, i: int) -> Result<Value, CompileError> {
    if i < 0 || i >= n.params@.len() {
        Err(CompileError::MissingParameter)
    } else {
        match n.params@[i] {
            Param::Text(s) => Ok(Value::Text(s)),
            Param::Number(v) => Ok(Value::Number(v)),
            Param::Bool(b) => Ok(Value::Boolean(b)),
            Param::Null => Err(CompileError::MissingParameter),
            Param::Block(_) => Err(CompileError::MalformedParameter),
        }
    }
}

/// The first body statement list of a block that has one.
pub open spec fn body_stmts(n: Node) -> Result<Seq<Node>, CompileError> {
    if n.statements@.len() == 0 {
        Err(CompileError::MissingBody)
    } else {
        Ok(n.statements@[0]@)
    }
}

/// What compiling one known block emits.
pub open spec fn build_spec(bt: BlockType, n: Node) -> Result<Seq<Instruction>, CompileError>
    decreases n, 1int,
{
    match bt {
        BlockType::MoveDirection => match req_param(n, 0) {
            Ok((v, pre)) => Ok(
                pre.push(Instruction { id: n.id, op: OpKind::MoveDirection { amount: v } }),
            ),
            Err(e) => Err(e),
        },
        BlockType::MoveX => match req_param(n, 0) {
            Ok((v, pre)) => Ok(
                pre.push(Instruction { id: n.id, op: OpKind::MoveX { amount: v } }),
            ),
            Err(e) => Err(e),
        },
        BlockType::MoveY => match req_param(n, 0) {
            Ok((v, pre)) => Ok(
                pre.push(Instruction { id: n.id, op: OpKind::MoveY { amount: v } }),
            ),
            Err(e) => Err(e),
        },
        BlockType::WaitSecond => match req_param(n, 0) {
            Ok((v, pre)) => Ok(
                pre.push(Instruction { id: n.id, op: OpKind::WaitSecond { second: v } }),
            ),
            Err(e) => Err(e),
        },
        BlockType::LengthOfString => match req_param(n, 0) {
            Ok((v, pre)) => Ok(
                pre.push(Instruction { id: n.id, op: OpKind::LengthOfString { value: v } }),
            ),
            Err(e) => Err(e),
        },
        BlockType::MoveXyTime => match req_param(n, 0) {
            Ok((t, pre_t)) => match req_param(n, 1) {
                Ok((x, pre_x)) => match req_param(n, 2) {
                    Ok((y, pre_y)) => Ok(
                        pre_t + pre_x + pre_y + seq![
                            Instruction { id: n.id, op: OpKind::MoveXyTime { time: t, x, y } },
                        ],
                    ),
                    Err(e) => Err(e),
                },
                Err(e) => Err(e),
            },
            Err(e) => Err(e),
        },
        BlockType::RepeatBasic => match req_param(n, 0) {
            Ok((v, pre)) => match body_stmts(n) {
                Ok(body_nodes) => match compile_stmts_spec(body_nodes) {
                    Ok(body) => if body.len() > crate::instruction::MAX_PROGRAM_LEN {
                        Err(CompileError::ProgramTooLong)
                    } else {
                        let l = body.len() as usize;
                        Ok(
                            pre + seq![
                                Instruction {
                                    id: n.id,
                                    op: OpKind::RepeatBasic {
                                        iter_num: v,
                                        statements_length: l,
                                    },
                                },
                            ] + body + seq![
                                Instruction {
                                    id: n.id,
                                    op: OpKind::RepeatBasicEnd { statements_length: l },
                                },
                            ],
                        )
                    },
                    Err(e) => Err(e),
                },
                Err(e) => Err(e),
            },
            Err(e) => Err(e),
        },
        BlockType::RepeatInf => match body_stmts(n) {
            Ok(body_nodes) => match compile_stmts_spec(body_nodes) {
                Ok(body) => if body.len() > crate::instruction::MAX_PROGRAM_LEN {
                    Err(CompileError::ProgramTooLong)
                } else {
                    let l = body.len() as usize;
                    Ok(
                        seq![Instruction { id: n.id, op: OpKind::RepeatInf }] + body + seq![
                            Instruction {
                                id: n.id,
                                op: OpKind::RepeatBasicEnd { statements_length: l },
                            },
                        ],
                    )
                },
                Err(e) => Err(e),
            },
            Err(e) => Err(e),
        },
        BlockType::If => match req_param(n, 0) {
            Ok((v, pre)) => match body_stmts(n) {
                Ok(body_nodes) => match compile_stmts_spec(body_nodes) {
                    Ok(body) => if body.len() > crate::instruction::MAX_PROGRAM_LEN {
                        Err(CompileError::ProgramTooLong)
                    } else {
                        let l = body.len() as usize;
                        Ok(
                            pre + seq![
                                Instruction {
                                    id: n.id,
                                    op: OpKind::If { condition: v, statements_length: l },
                                },
                            ] + body,
                        )
                    },
                    Err(e) => Err(e),
                },
                Err(e) => Err(e),
            },
            Err(e) => Err(e),
        },
        BlockType::SetVariable => match lit_param(n, 0) {
            Ok(s) => match req_param(n, 1) {
                Ok((v, pre)) => Ok(
                    pre.push(
                        Instruction {
                            id: n.id,
                            op: OpKind::SetVariable { variable_id: s, value: v },
                        },
                    ),
                ),
                Err(e) => Err(e),
            },
            Err(e) => Err(e),
        },
        BlockType::GetVariable => match lit_param(n, 0) {
            Ok(s) => Ok(
                seq![
                    Instruction { id: n.id, op: OpKind::GetVariable { variable_id: s } },
                ],
            ),
            Err(e) => Err(e),
        },
        BlockType::ChangeVariable => match lit_param(n, 0) {
            Ok(s) => match req_param(n, 1) {
                Ok((v, pre)) => Ok(
                    pre.push(
                        Instruction {
                            id: n.id,
                            op: OpKind::ChangeVariable { variable_id: s, value: v },
                        },
                    ),
                ),
                Err(e) => Err(e),
            },
            Err(e) => Err(e),
        },
        BlockType::BooleanBasicOperator => match req_param(n, 0) {
            Ok((l, pre_l)) => match text_param(n, 1) {
                Ok(s) => match bool_op_of(s) {
                    Some(op) => match req_param(n, 2) {
                        Ok((r, pre_r)) => Ok(
                            pre_l + pre_r + seq![
                                Instruction {
                                    id: n.id,
                                    op: OpKind::BooleanBasicOperator { left: l, op, right: r },
                                },
                            ],
                        ),
                        Err(e) => Err(e),
                    },
                    None => Err(CompileError::UnsupportedOperation),
                },
                Err(e) => Err(e),
            },
            Err(e) => Err(e),
        },
        BlockType::CalcBasic => match req_param(n, 0) {
            Ok((l, pre_l)) => match text_param(n, 1) {
                Ok(s) => match calc_op_of(s) {
                    Some(op) => match req_param(n, 2) {
                        Ok((r, pre_r)) => Ok(
                            pre_l + pre_r + seq![
                                Instruction {
                                    id: n.id,
                                    op: OpKind::CalcBasic { left: l, op, right: r },
                                },
                            ],
                        ),
                        Err(e) => Err(e),
                    },
                    None => Err(CompileError::UnsupportedOperation),
                },
                Err(e) => Err(e),
            },
            Err(e) => Err(e),
        },
        BlockType::CalcOperation => match req_param(n, 1) {
            Ok((v, pre)) => match text_param(n, 3) {
                Ok(s) => match unary_op_of(s) {
                    Some(operator) => Ok(
                        pre.push(
                            Instruction {
                                id: n.id,
                                op: OpKind::CalcOperation { value: v, operator },
                            },
                        ),
                    ),
                    None => Err(CompileError::UnsupportedOperation),
                },
                Err(e) => Err(e),
            },
            Err(e) => Err(e),
        },
        BlockType::QuotientAndMod => match req_param(n, 1) {
            Ok((l, pre_l)) => match req_param(n, 3) {
                Ok((r, pre_r)) => match text_param(n, 5) {
                    Ok(s) => match quot_op_of(s) {
                        Some(operator) => Ok(
                            pre_l + pre_r + seq![
                                Instruction {
                                    id: n.id,
                                    op: OpKind::QuotientAndMod { left: l, right: r, operator },
                                },
                            ],
                        ),
                        None => Err(CompileError::UnsupportedOperation),
                    },
                    Err(e) => Err(e),
                },
                Err(e) => Err(e),
            },
            Err(e) => Err(e),
        },
        BlockType::Locate => match lit_param(n, 0) {
            Ok(s) => Ok(
                seq![Instruction { id: n.id, op: OpKind::Locate { target: s } }],
            ),
            Err(e) => Err(e),
        },
        BlockType::LocateXy => match req_param(n, 0) {
            Ok((x, pre_x)) => match req_param(n, 1) {
                Ok((y, pre_y)) => Ok(
                    pre_x + pre_y + seq![
                        Instruction { id: n.id, op: OpKind::LocateXy { x, y } },
                    ],
                ),
                Err(e) => Err(e),
            },
            Err(e) => Err(e),
        },
        BlockType::CoordinateObject => match lit_param(n, 1) {
            Ok(s) => match text_param(n, 3) {
                Ok(c) => match coord_of(c) {
                    Some(coordinate) => Ok(
                        seq![
                            Instruction {
                                id: n.id,
                                op: OpKind::CoordinateObject { target: s, coordinate },
                            },
                        ],
                    ),
                    None => Err(CompileError::UnsupportedOperation),
                },
                Err(e) => Err(e),
            },
            Err(e) => Err(e),
        },
    }
}

/// What compiling one statement block emits: a known block builds, an
/// unknown name is skipped with no instructions.
pub open spec fn parse_block_spec(n: Node) -> Result<Seq<Instruction>, CompileError>
    decreases n, 2int,
{
    match block_type_of(n.op_name@) {
        Some(bt) => build_spec(bt, n),
        None => Ok(Seq::<Instruction>::empty()),
    }
}

/// What compiling a statement list emits: each block's instructions in
/// order.
pub open spec fn compile_stmts_spec(ns: Seq<Node>) -> Result<Seq<Instruction>, CompileError>
    decreases ns, 3int,
{
    if ns.len() == 0 {
        Ok(Seq::<Instruction>::empty())
    } else {
        match parse_block_spec(ns[0]) {
            Ok(first) => match compile_stmts_spec(ns.drop_first()) {
                Ok(rest) => Ok(first + rest),
                Err(e) => Err(e),
            },
            Err(e) => Err(e),
        }
    }
}

/// What compiling a whole script yields: the flattened instruction list,
/// bounded by the engine's size limit.
pub open spec fn compile_script_spec(ns: Seq<Node>) -> Result<Seq<Instruction>, CompileError> {
    match compile_stmts_spec(ns) {
        Ok(s) => if s.len() > crate::instruction::MAX_PROGRAM_LEN {
            Err(CompileError::ProgramTooLong)
        } else {
            Ok(s)
        },
        Err(e) => Err(e),
    }
}

/// Compiles one parameter.
fn compile_param(p: &Param) -> (r: Result<Option<(Value, Vec<Instruction>)>, CompileError>)
    ensures
        ({
            let sp = compile_param_spec(*p);
            match r {
                Ok(Some(pr)) => sp matches Ok(q) && q matches Some(qq) && qq.0 == pr.0 && qq.1
                    == pr.1@,
                Ok(None) => sp == Ok::<Option<(Value, Seq<Instruction>)>, CompileError>(None),
                Err(e) => sp == Err::<Option<(Value, Seq<Instruction>)>, CompileError>(e),
            }
        }),
    decreases *p, 0int,
{
    match p {
        Param::Block(node) => match BlockType::from_str(&node.op_name) {
            Some(bt) => match build(bt, node) {
                Ok(insts) => if insts.len() == 0 {
                    Err(CompileError::UnsupportedOperation)
                } else {
                    let last_id = insts[insts.len() - 1].id.clone();
                    Ok(Some((Value::Memory(last_id, Label::ReturnValue), insts)))
                },
                Err(e) => Err(e),
            },
            None => if name_is(&node.op_name, "number") || name_is(&node.op_name, "text")
                || name_is(&node.op_name, "True") {
                if node.params.len() == 0 {
                    Err(CompileError::MissingParameter)
                } else {
                    compile_param(&node.params[0])
                }
            } else {
                Err(CompileError::UnsupportedOperation)
            },
        },
        Param::Number(v) => Ok(Some((Value::Number(*v), Vec::new()))),
        Param::Text(s) => Ok(Some((Value::Text(s.clone()), Vec::new()))),
        Param::Bool(b) => Ok(Some((Value::Boolean(*b), Vec::new()))),
        Param::Null => Ok(None),
    }
}

/// A required parameter: compiled, and present.
fn get_req_param(n: &Node, i: usize) -> (r: Result<(Value, Vec<Instruction>), CompileError>)
    ensures
        ({
            let sp = req_param(*n, i as int);
            match r {
                Ok(pr) => sp matches Ok(q) && q.0 == pr.0 && q.1 == pr.1@,
                Err(e) => sp == Err::<(Value, Seq<Instruction>), CompileError>(e),
            }
        }),
    decreases *n, 0int,
{
    if i >= n.params.len() {
        Err(CompileError::MissingParameter)
    } else {
        match compile_param(&n.params[i]) {
            Ok(Some(pr)) => Ok(pr),
            Ok(None) => Err(CompileError::MissingParameter),
            Err(e) => Err(e),
        }
    }
}

/// A parameter read through its text form at compile time.
fn get_text_param(n: &Node, i: usize) -> (r: Result<String, CompileError>)
    ensures
        ({
            let sp = text_param(*n, i as int);
            match r {
                Ok(s) => sp == Ok::<Seq<char>, CompileError>(s@),
                Err(e) => sp == Err::<Seq<char>, CompileError>(e),
            }
        }),
{
    if i >= n.params.len() {
        Err(CompileError::MissingParameter)
    } else {
        match &n.params[i] {
            Param::Text(s) => Ok(s.clone()),
            Param::Number(v) => Ok(v.to_text()),
            Param::Bool(b) => Ok(
                if *b {
                    String::from_str("true")
                } else {
                    String::from_str("false")
                },
            ),
            Param::Null => Err(CompileError::MissingParameter),
            Param::Block(_) => Err(CompileError::MalformedParameter),
        }
    }
}

/// A literal parameter kept whole, to be read through its text form when
/// the instruction runs.
fn get_lit_param(n: &Node, i: usize) -> (r: Result<Value, CompileError>)
    ensures
        ({
            let sp = lit_param(*n, i as int);
            match r {
                Ok(v) => sp == Ok::<Value, CompileError>(v),
                Err(e) => sp == Err::<Value, CompileError>(e),
            }
        }),
{
    if i >= n.params.len() {
        Err(CompileError::MissingParameter)
    } else {
        match &n.params[i] {
            Param::Text(s) => Ok(Value::Text(s.clone())),
            Param::Number(v) => Ok(Value::Number(*v)),
            Param::Bool(b) => Ok(Value::Boolean(*b)),
            Param::Null => Err(CompileError::MissingParameter),
            Param::Block(_) => Err(CompileError::MalformedParameter),
        }
    }
}

/// Compiles a directional step: one operand, one instruction.
fn build_move_direction(n: &Node) -> (r: Result<Vec<Instruction>, CompileError>)
    ensures
        ({
            let sp = build_spec(BlockType::MoveDirection, *n);
            match r {
                Ok(v) => sp == Ok::<Seq<Instruction>, CompileError>(v@),
                Err(e) => sp == Err::<Seq<Instruction>, CompileError>(e),
            }
        }),
    decreases *n, 1int,
{
    let (v, mut pre) = match get_req_param(n, 0) {
        Ok(p) => p,
        Err(e) => {
            return Err(e);
        },
    };
    pre.push(Instruction { id: n.id.clone(), op: OpKind::MoveDirection { amount: v } });
    Ok(pre)
}

/// Compiles a horizontal step: one operand, one instruction.
fn build_move_x(n: &Node) -> (r: Result<Vec<Instruction>, CompileError>)
    ensures
        ({
            let sp = build_spec(BlockType::MoveX, *n);
            match r {
                Ok(v) => sp == Ok::<Seq<Instruction>, CompileError>(v@),
                Err(e) => sp == Err::<Seq<Instruction>, CompileError>(e),
            }
        }),
    decreases *n, 1int,
{
    let (v, mut pre) = match get_req_param(n, 0) {
        Ok(p) => p,
        Err(e) => {
            return Err(e);
        },
    };
    pre.push(Instruction { id: n.id.clone(), op: OpKind::MoveX { amount: v } });
    Ok(pre)
}

/// Compiles a vertical step: one operand, one instruction.
fn build_move_y(n: &Node) -> (r: Result<Vec<Instruction>, CompileError>)
    ensures
        ({
            let sp = build_spec(BlockType::MoveY, *n);
            match r {
                Ok(v) => sp == Ok::<Seq<Instruction>, CompileError>(v@),
                Err(e) => sp == Err::<Seq<Instruction>, CompileError>(e),
            }
        }),
    decreases *n, 1int,
{
    let (v, mut pre) = match get_req_param(n, 0) {
        Ok(p) => p,
        Err(e) => {
            return Err(e);
        },
    };
    pre.push(Instruction { id: n.id.clone(), op: OpKind::MoveY { amount: v } });
    Ok(pre)
}

/// Compiles a timed wait: one operand, one instruction.
fn build_wait_second(n: &Node) -> (r: Result<Vec<Instruction>, CompileError>)
    ensures
        ({
            let sp = build_spec(BlockType::WaitSecond, *n);
            match r {
                Ok(v) => sp == Ok::<Seq<Instruction>, CompileError>(v@),
                Err(e) => sp == Err::<Seq<Instruction>, CompileError>(e),
            }
        }),
    decreases *n, 1int,
{
    let (v, mut pre) = match get_req_param(n, 0) {
        Ok(p) => p,
        Err(e) => {
            return Err(e);
        },
    };
    pre.push(Instruction { id: n.id.clone(), op: OpKind::WaitSecond { second: v } });
    Ok(pre)
}

/// Compiles a character count: one operand, one instruction.
fn build_length_of_string(n: &Node) -> (r: Result<Vec<Instruction>, CompileError>)
    ensures
        ({
            let sp = build_spec(BlockType::LengthOfString, *n);
            match r {
                Ok(v) => sp == Ok::<Seq<Instruction>, CompileError>(v@),
                Err(e) => sp == Err::<Seq<Instruction>, CompileError>(e),
            }
        }),
    decreases *n, 1int,
{
    let (v, mut pre) = match get_req_param(n, 0) {
        Ok(p) => p,
        Err(e) => {
            return Err(e);
        },
    };
    pre.push(Instruction { id: n.id.clone(), op: OpKind::LengthOfString { value: v } });
    Ok(pre)
}

/// Compiles a timed move: three operands, then the instruction.
fn build_move_xy_time(n: &Node) -> (r: Result<Vec<Instruction>, CompileError>)
    ensures
        ({
            let sp = build_spec(BlockType::MoveXyTime, *n);
            match r {
                Ok(v) => sp == Ok::<Seq<Instruction>, CompileError>(v@),
                Err(e) => sp == Err::<Seq<Instruction>, CompileError>(e),
            }
        }),
    decreases *n, 1int,
{
    let (t, mut pre) = match get_req_param(n, 0) {
        Ok(p) => p,
        Err(e) => {
            return Err(e);
        },
    };
    let (x, mut pre_x) = match get_req_param(n, 1) {
        Ok(p) => p,
        Err(e) => {
            return Err(e);
        },
    };
    let (y, mut pre_y) = match get_req_param(n, 2) {
        Ok(p) => p,
        Err(e) => {
            return Err(e);
        },
    };
    pre.append(&mut pre_x);
    pre.append(&mut pre_y);
    pre.push(Instruction { id: n.id.clone(), op: OpKind::MoveXyTime { time: t, x, y } });
    proof {
        assert(pre@ =~= build_spec(BlockType::MoveXyTime, *n)->Ok_0);
    }
    Ok(pre)
}

/// Compiles a bounded loop: the bound, the header, the body, the end marker.
fn build_repeat_basic(n: &Node) -> (r: Result<Vec<Instruction>, CompileError>)
    ensures
        ({
            let sp = build_spec(BlockType::RepeatBasic, *n);
            match r {
                Ok(v) => sp == Ok::<Seq<Instruction>, CompileError>(v@),
                Err(e) => sp == Err::<Seq<Instruction>, CompileError>(e),
            }
        }),
    decreases *n, 1int,
{
    let (v, mut pre) = match get_req_param(n, 0) {
        Ok(p) => p,
        Err(e) => {
            return Err(e);
        },
    };
    if n.statements.len() == 0 {
        return Err(CompileError::MissingBody);
    }
    let mut body = match parse_statements(&n.statements[0]) {
        Ok(b) => b,
        Err(e) => {
            return Err(e);
        },
    };
    if body.len() > crate::instruction::MAX_PROGRAM_LEN {
        return Err(CompileError::ProgramTooLong);
    }
    let l: usize = body.len();
    pre.push(
        Instruction {
            id: n.id.clone(),
            op: OpKind::RepeatBasic { iter_num: v, statements_length: l },
        },
    );
    pre.append(&mut body);
    pre.push(
        Instruction {
            id: n.id.clone(),
            op: OpKind::RepeatBasicEnd { statements_length: l },
        },
    );
    proof {
        assert(pre@ =~= build_spec(BlockType::RepeatBasic, *n)->Ok_0);
    }
    Ok(pre)
}

/// Compiles an unbounded loop: the header, the body, the end marker.
fn build_repeat_inf(n: &Node) -> (r: Result<Vec<Instruction>, CompileError>)
    ensures
        ({
            let sp = build_spec(BlockType::RepeatInf, *n);
            match r {
                Ok(v) => sp == Ok::<Seq<Instruction>, CompileError>(v@),
                Err(e) => sp == Err::<Seq<Instruction>, CompileError>(e),
            }
        }),
    decreases *n, 1int,
{
    if n.statements.len() == 0 {
        return Err(CompileError::MissingBody);
    }
    let mut body = match parse_statements(&n.statements[0]) {
        Ok(b) => b,
        Err(e) => {
            return Err(e);
        },
    };
    if body.len() > crate::instruction::MAX_PROGRAM_LEN {
        return Err(CompileError::ProgramTooLong);
    }
    let l: usize = body.len();
    let mut out: Vec<Instruction> = Vec::new();
    out.push(Instruction { id: n.id.clone(), op: OpKind::RepeatInf });
    out.append(&mut body);
    out.push(
        Instruction {
            id: n.id.clone(),
            op: OpKind::RepeatBasicEnd { statements_length: l },
        },
    );
    proof {
        assert(out@ =~= build_spec(BlockType::RepeatInf, *n)->Ok_0);
    }
    Ok(out)
}

/// Compiles a conditional: the condition, the header, the body.
fn build_if(n: &Node) -> (r: Result<Vec<Instruction>, CompileError>)
    ensures
        ({
            let sp = build_spec(BlockType::If, *n);
            match r {
                Ok(v) => sp == Ok::<Seq<Instruction>, CompileError>(v@),
                Err(e) => sp == Err::<Seq<Instruction>, CompileError>(e),
            }
        }),
    decreases *n, 1int,
{
    let (v, mut pre) = match get_req_param(n, 0) {
        Ok(p) => p,
        Err(e) => {
            return Err(e);
        },
    };
    if n.statements.len() == 0 {
        return Err(CompileError::MissingBody);
    }
    let mut body = match parse_statements(&n.statements[0]) {
        Ok(b) => b,
        Err(e) => {
            return Err(e);
        },
    };
    if body.len() > crate::instruction::MAX_PROGRAM_LEN {
        return Err(CompileError::ProgramTooLong);
    }
    let l: usize = body.len();
    pre.push(
        Instruction {
            id: n.id.clone(),
            op: OpKind::If { condition: v, statements_length: l },
        },
    );
    pre.append(&mut body);
    proof {
        assert(pre@ =~= build_spec(BlockType::If, *n)->Ok_0);
    }
    Ok(pre)
}

/// Compiles a variable write: the name literal and the value operand.
fn build_set_variable(n: &Node) -> (r: Result<Vec<Instruction>, CompileError>)
    ensures
        ({
            let sp = build_spec(BlockType::SetVariable, *n);
            match r {
                Ok(v) => sp == Ok::<Seq<Instruction>, CompileError>(v@),
                Err(e) => sp == Err::<Seq<Instruction>, CompileError>(e),
            }
        }),
    decreases *n, 1int,
{
    let s = match get_lit_param(n, 0) {
        Ok(s) => s,
        Err(e) => {
            return Err(e);
        },
    };
    let (v, mut pre) = match get_req_param(n, 1) {
        Ok(p) => p,
        Err(e) => {
            return Err(e);
        },
    };
    pre.push(
        Instruction {
            id: n.id.clone(),
            op: OpKind::SetVariable { variable_id: s, value: v },
        },
    );
    Ok(pre)
}

/// Compiles a variable read: the name literal alone.
fn build_get_variable(n: &Node) -> (r: Result<Vec<Instruction>, CompileError>)
    ensures
        ({
            let sp = build_spec(BlockType::GetVariable, *n);
            match r {
                Ok(v) => sp == Ok::<Seq<Instruction>, CompileError>(v@),
                Err(e) => sp == Err::<Seq<Instruction>, CompileError>(e),
            }
        }),
    decreases *n, 1int,
{
    let s = match get_lit_param(n, 0) {
        Ok(s) => s,
        Err(e) => {
            return Err(e);
        },
    };
    let mut out: Vec<Instruction> = Vec::new();
    out.push(
        Instruction { id: n.id.clone(), op: OpKind::GetVariable { variable_id: s } },
    );
    proof {
        assert(out@ =~= build_spec(BlockType::GetVariable, *n)->Ok_0);
    }
    Ok(out)
}

/// Compiles a variable change: the name literal and the delta operand.
fn build_change_variable(n: &Node) -> (r: Result<Vec<Instruction>, CompileError>)
    ensures
        ({
            let sp = build_spec(BlockType::ChangeVariable, *n);
            match r {
                Ok(v) => sp == Ok::<Seq<Instruction>, CompileError>(v@),
                Err(e) => sp == Err::<Seq<Instruction>, CompileError>(e),
            }
        }),
    decreases *n, 1int,
{
    let s = match get_lit_param(n, 0) {
        Ok(s) => s,
        Err(e) => {
            return Err(e);
        },
    };
    let (v, mut pre) = match get_req_param(n, 1) {
        Ok(p) => p,
        Err(e) => {
            return Err(e);
        },
    };
    pre.push(
        Instruction {
            id: n.id.clone(),
            op: OpKind::ChangeVariable { variable_id: s, value: v },
        },
    );
    Ok(pre)
}

/// Compiles a comparison: both operands and the operator literal.
fn build_boolean_basic_operator(n: &Node) -> (r: Result<Vec<Instruction>, CompileError>)
    ensures
        ({
            let sp = build_spec(BlockType::BooleanBasicOperator, *n);
            match r {
                Ok(v) => sp == Ok::<Seq<Instruction>, CompileError>(v@),
                Err(e) => sp == Err::<Seq<Instruction>, CompileError>(e),
            }
        }),
    decreases *n, 1int,
{
    let (l, mut pre) = match get_req_param(n, 0) {
        Ok(p) => p,
        Err(e) => {
            return Err(e);
        },
    };
    let s = match get_text_param(n, 1) {
        Ok(s) => s,
        Err(e) => {
            return Err(e);
        },
    };
    let op = match bool_op_from(&s) {
        Some(op) => op,
        None => {
            return Err(CompileError::UnsupportedOperation);
        },
    };
    let (rr, mut pre_r) = match get_req_param(n, 2) {
        Ok(p) => p,
        Err(e) => {
            return Err(e);
        },
    };
    pre.append(&mut pre_r);
    pre.push(
        Instruction {
            id: n.id.clone(),
            op: OpKind::BooleanBasicOperator { left: l, op, right: rr },
        },
    );
    proof {
        assert(pre@ =~= build_spec(BlockType::BooleanBasicOperator, *n)->Ok_0);
    }
    Ok(pre)
}

/// Compiles an arithmetic combination: both operands and the operator literal.
fn build_calc_basic(n: &Node) -> (r: Result<Vec<Instruction>, CompileError>)
    ensures
        ({
            let sp = build_spec(BlockType::CalcBasic, *n);
            match r {
                Ok(v) => sp == Ok::<Seq<Instruction>, CompileError>(v@),
                Err(e) => sp == Err::<Seq<Instruction>, CompileError>(e),
            }
        }),
    decreases *n, 1int,
{
    let (l, mut pre) = match get_req_param(n, 0) {
        Ok(p) => p,
        Err(e) => {
            return Err(e);
        },
    };
    let s = match get_text_param(n, 1) {
        Ok(s) => s,
        Err(e) => {
            return Err(e);
        },
    };
    let op = match calc_op_from(&s) {
        Some(op) => op,
        None => {
            return Err(CompileError::UnsupportedOperation);
        },
    };
    let (rr, mut pre_r) = match get_req_param(n, 2) {
        Ok(p) => p,
        Err(e) => {
            return Err(e);
        },
    };
    pre.append(&mut pre_r);
    pre.push(
        Instruction {
            id: n.id.clone(),
            op: OpKind::CalcBasic { left: l, op, right: rr },
        },
    );
    proof {
        assert(pre@ =~= build_spec(BlockType::CalcBasic, *n)->Ok_0);
    }
    Ok(pre)
}

/// Compiles a unary numeric function from its spread parameter slots.
fn build_calc_operation(n: &Node) -> (r: Result<Vec<Instruction>, CompileError>)
    ensures
        ({
            let sp = build_spec(BlockType::CalcOperation, *n);
            match r {
                Ok(v) => sp == Ok::<Seq<Instruction>, CompileError>(v@),
                Err(e) => sp == Err::<Seq<Instruction>, CompileError>(e),
            }
        }),
    decreases *n, 1int,
{
    let (v, mut pre) = match get_req_param(n, 1) {
        Ok(p) => p,
        Err(e) => {
            return Err(e);
        },
    };
    let s = match get_text_param(n, 3) {
        Ok(s) => s,
        Err(e) => {
            return Err(e);
        },
    };
    let operator = match unary_op_from(&s) {
        Some(op) => op,
        None => {
            return Err(CompileError::UnsupportedOperation);
        },
    };
    pre.push(
        Instruction { id: n.id.clone(), op: OpKind::CalcOperation { value: v, operator } },
    );
    Ok(pre)
}

/// Compiles a whole quotient or remainder from its spread parameter slots.
fn build_quotient_and_mod(n: &Node) -> (r: Result<Vec<Instruction>, CompileError>)
    ensures
        ({
            let sp = build_spec(BlockType::QuotientAndMod, *n);
            match r {
                Ok(v) => sp == Ok::<Seq<Instruction>, CompileError>(v@),
                Err(e) => sp == Err::<Seq<Instruction>, CompileError>(e),
            }
        }),
    decreases *n, 1int,
{
    let (l, mut pre) = match get_req_param(n, 1) {
        Ok(p) => p,
        Err(e) => {
            return Err(e);
        },
    };
    let (rr, mut pre_r) = match get_req_param(n, 3) {
        Ok(p) => p,
        Err(e) => {
            return Err(e);
        },
    };
    let s = match get_text_param(n, 5) {
        Ok(s) => s,
        Err(e) => {
            return Err(e);
        },
    };
    let operator = match quot_op_from(&s) {
        Some(op) => op,
        None => {
            return Err(CompileError::UnsupportedOperation);
        },
    };
    pre.append(&mut pre_r);
    pre.push(
        Instruction {
            id: n.id.clone(),
            op: OpKind::QuotientAndMod { left: l, right: rr, operator },
        },
    );
    proof {
        assert(pre@ =~= build_spec(BlockType::QuotientAndMod, *n)->Ok_0);
    }
    Ok(pre)
}

/// Compiles a locate onto the pointer or a named object.
fn build_locate(n: &Node) -> (r: Result<Vec<Instruction>, CompileError>)
    ensures
        ({
            let sp = build_spec(BlockType::Locate, *n);
            match r {
                Ok(v) => sp == Ok::<Seq<Instruction>, CompileError>(v@),
                Err(e) => sp == Err::<Seq<Instruction>, CompileError>(e),
            }
        }),
    decreases *n, 1int,
{
    let s = match get_lit_param(n, 0) {
        Ok(s) => s,
        Err(e) => {
            return Err(e);
        },
    };
    let mut out: Vec<Instruction> = Vec::new();
    out.push(Instruction { id: n.id.clone(), op: OpKind::Locate { target: s } });
    proof {
        assert(out@ =~= build_spec(BlockType::Locate, *n)->Ok_0);
    }
    Ok(out)
}

/// Compiles a move to a fixed position: two operands.
fn build_locate_xy(n: &Node) -> (r: Result<Vec<Instruction>, CompileError>)
    ensures
        ({
            let sp = build_spec(BlockType::LocateXy, *n);
            match r {
                Ok(v) => sp == Ok::<Seq<Instruction>, CompileError>(v@),
                Err(e) => sp == Err::<Seq<Instruction>, CompileError>(e),
            }
        }),
    decreases *n, 1int,
{
    let (x, mut pre) = match get_req_param(n, 0) {
        Ok(p) => p,
        Err(e) => {
            return Err(e);
        },
    };
    let (y, mut pre_y) = match get_req_param(n, 1) {
        Ok(p) => p,
        Err(e) => {
            return Err(e);
        },
    };
    pre.append(&mut pre_y);
    pre.push(Instruction { id: n.id.clone(), op: OpKind::LocateXy { x, y } });
    proof {
        assert(pre@ =~= build_spec(BlockType::LocateXy, *n)->Ok_0);
    }
    Ok(pre)
}

/// Compiles a coordinate query from its spread parameter slots.
fn build_coordinate_object(n: &Node) -> (r: Result<Vec<Instruction>, CompileError>)
    ensures
        ({
            let sp = build_spec(BlockType::CoordinateObject, *n);
            match r {
                Ok(v) => sp == Ok::<Seq<Instruction>, CompileError>(v@),
                Err(e) => sp == Err::<Seq<Instruction>, CompileError>(e),
            }
        }),
    decreases *n, 1int,
{
    let s = match get_lit_param(n, 1) {
        Ok(s) => s,
        Err(e) => {
            return Err(e);
        },
    };
    let c = match get_text_param(n, 3) {
        Ok(c) => c,
        Err(e) => {
            return Err(e);
        },
    };
    let coordinate = match coord_from(&c) {
        Some(c) => c,
        None => {
            return Err(CompileError::UnsupportedOperation);
        },
    };
    let mut out: Vec<Instruction> = Vec::new();
    out.push(
        Instruction { id: n.id.clone(), op: OpKind::CoordinateObject { target: s, coordinate } },
    );
    proof {
        assert(out@ =~= build_spec(BlockType::CoordinateObject, *n)->Ok_0);
    }
    Ok(out)
}

/// Compiles one known block.
fn build(bt: BlockType, n: &Node) -> (r: Result<Vec<Instruction>, CompileError>)
    ensures
        ({
            let sp = build_spec(bt, *n);
            match r {
                Ok(v) => sp == Ok::<Seq<Instruction>, CompileError>(v@),
                Err(e) => sp == Err::<Seq<Instruction>, CompileError>(e),
            }
        }),
    decreases *n, 2int,
{
    match bt {
        BlockType::MoveDirection => build_move_direction(n),
        BlockType::MoveX => build_move_x(n),
        BlockType::MoveY => build_move_y(n),
        BlockType::WaitSecond => build_wait_second(n),
        BlockType::LengthOfString => build_length_of_string(n),
        BlockType::MoveXyTime => build_move_xy_time(n),
        BlockType::RepeatBasic => build_repeat_basic(n),
        BlockType::RepeatInf => build_repeat_inf(n),
        BlockType::If => build_if(n),
        BlockType::SetVariable => build_set_variable(n),
        BlockType::GetVariable => build_get_variable(n),
        BlockType::ChangeVariable => build_change_variable(n),
        BlockType::BooleanBasicOperator => build_boolean_basic_operator(n),
        BlockType::CalcBasic => build_calc_basic(n),
        BlockType::CalcOperation => build_calc_operation(n),
        BlockType::QuotientAndMod => build_quotient_and_mod(n),
        BlockType::Locate => build_locate(n),
        BlockType::LocateXy => build_locate_xy(n),
        BlockType::CoordinateObject => build_coordinate_object(n),
    }
}

/// Compiles one statement block: a known block builds its instructions, an
/// unknown name is skipped.
pub fn parse_block(n: &Node) -> (r: Result<Vec<Instruction>, CompileError>)
    ensures
        ({
            let sp = parse_block_spec(*n);
            match r {
                Ok(v) => sp == Ok::<Seq<Instruction>, CompileError>(v@),
                Err(e) => sp == Err::<Seq<Instruction>, CompileError>(e),
            }
        }),
    decreases *n, 3int,
{
    match BlockType::from_str(&n.op_name) {
        Some(bt) => build(bt, n),
        None => Ok(Vec::new()),
    }
}

/// Compiles a statement list: each block's instructions in order.
pub fn parse_statements(nodes: &Vec<Node>) -> (r: Result<Vec<Instruction>, CompileError>)
    ensures
        ({
            let sp = compile_stmts_spec(nodes@);
            match r {
                Ok(v) => sp == Ok::<Seq<Instruction>, CompileError>(v@),
                Err(e) => sp == Err::<Seq<Instruction>, CompileError>(e),
            }
        }),
    decreases nodes@, 4int,
{
    let mut out: Vec<Instruction> = Vec::new();
    let m: usize = nodes.len();
    let mut j: usize = 0;
    proof {
        assert(nodes@.subrange(0, m as int) =~= nodes@);
        match compile_stmts_spec(nodes@) {
            Ok(rest) => {
                assert(Seq::<Instruction>::empty() + rest =~= rest);
            },
            Err(_) => {},
        }
    }
    while j < m
        invariant
            j <= m,
            m == nodes@.len(),
            match compile_stmts_spec(nodes@.subrange(j as int, m as int)) {
                Ok(rest) => compile_stmts_spec(nodes@) == Ok::<Seq<Instruction>, CompileError>(
                    out@ + rest,
                ),
                Err(e) => compile_stmts_spec(nodes@) == Err::<Seq<Instruction>, CompileError>(e),
            },
        decreases m - j,
    {
        proof {
            assert(decreases_to!(nodes@, 4int => nodes@[j as int], 3int));
        }
        let ghost pre_suffix = nodes@.subrange(j as int, m as int);
        let ghost pre_out = out@;
        match parse_block(&nodes[j]) {
            Ok(mut first) => {
                proof {
                    assert(pre_suffix[0] == nodes@[j as int]);
                    assert(pre_suffix.drop_first() =~= nodes@.subrange(j + 1, m as int));
                }
                let ghost first_v = first@;
                out.append(&mut first);
                proof {
                    match compile_stmts_spec(nodes@.subrange(j + 1, m as int)) {
                        Ok(rest) => {
                            assert(pre_out + (first_v + rest) =~= (pre_out + first_v) + rest);
                        },
                        Err(_) => {},
                    }
                }
            },
            Err(e) => {
                proof {
                    assert(pre_suffix[0] == nodes@[j as int]);
                    assert(pre_suffix.drop_first() =~= nodes@.subrange(j + 1, m as int));
                }
                return Err(e);
            },
        }
        j = j + 1;
    }
    proof {
        assert(nodes@.subrange(m as int, m as int) =~= Seq::<Node>::empty());
        assert(out@ + Seq::<Instruction>::empty() =~= out@);
    }
    Ok(out)
}

/// A compiled parameter's emitted instructions are a sound segment.
proof fn lemma_param_wf(p: Param)
    ensures
        match compile_param_spec(p) {
            Ok(Some(pr)) => crate::instruction::seg_wf(pr.1),
            _ => true,
        },
    decreases p, 0int,
{
    match p {
        Param::Block(node) => match block_type_of(node.op_name@) {
            Some(bt) => {
                lemma_build_wf(bt, node);
            },
            None => {
                if is_literal_wrapper(node.op_name@) && node.params@.len() > 0 {
                    lemma_param_wf(node.params@[0]);
                }
            },
        },
        _ => {
            assert(crate::instruction::seg_wf(Seq::<Instruction>::empty()));
        },
    }
}

/// A required parameter's emitted instructions are a sound segment.
proof fn lemma_req_param_wf(n: Node, i: int)
    ensures
        req_param(n, i) matches Ok(pr) ==> crate::instruction::seg_wf(pr.1),
    decreases n, 1int,
{
    if 0 <= i < n.params@.len() {
        lemma_param_wf(n.params@[i]);
    }
}

/// What one known block emits is a sound segment: the jump arithmetic of
/// every header and end marker it contains points where it should.
#[verifier::rlimit(100)]
#[verifier::spinoff_prover]
proof fn lemma_build_wf(bt: BlockType, n: Node)
    ensures
        build_spec(bt, n) matches Ok(s) ==> crate::instruction::seg_wf(s),
    decreases n, 3int,
{
    lemma_req_param_wf(n, 0);
    lemma_req_param_wf(n, 1);
    lemma_req_param_wf(n, 2);
    lemma_req_param_wf(n, 3);
    match bt {
        BlockType::RepeatBasic => {
            match req_param(n, 0) {
                Ok(pr) => match body_stmts(n) {
                    Ok(body_nodes) => match compile_stmts_spec(body_nodes) {
                        Ok(body) => {
                            if body.len() <= crate::instruction::MAX_PROGRAM_LEN {
                                lemma_stmts_wf(body_nodes);
                                let l = body.len() as usize;
                                let header = Instruction {
                                    id: n.id,
                                    op: OpKind::RepeatBasic {
                                        iter_num: pr.0,
                                        statements_length: l,
                                    },
                                };
                                let endm = Instruction {
                                    id: n.id,
                                    op: OpKind::RepeatBasicEnd { statements_length: l },
                                };
                                crate::instruction::lemma_seg_loop(header, body, endm, l);
                                crate::instruction::lemma_seg_concat(
                                    pr.1,
                                    seq![header] + body + seq![endm],
                                );
                                assert(pr.1 + seq![header] + body + seq![endm] =~= pr.1 + (
                                seq![header] + body + seq![endm]));
                            }
                        },
                        Err(_) => {},
                    },
                    Err(_) => {},
                },
                Err(_) => {},
            }
        },
        BlockType::RepeatInf => {
            match body_stmts(n) {
                Ok(body_nodes) => match compile_stmts_spec(body_nodes) {
                    Ok(body) => {
                        if body.len() <= crate::instruction::MAX_PROGRAM_LEN {
                            lemma_stmts_wf(body_nodes);
                            let l = body.len() as usize;
                            let header = Instruction { id: n.id, op: OpKind::RepeatInf };
                            let endm = Instruction {
                                id: n.id,
                                op: OpKind::RepeatBasicEnd { statements_length: l },
                            };
                            crate::instruction::lemma_seg_loop(header, body, endm, l);
                        }
                    },
                    Err(_) => {},
                },
                Err(_) => {},
            }
        },
        BlockType::If => {
            match req_param(n, 0) {
                Ok(pr) => match body_stmts(n) {
                    Ok(body_nodes) => match compile_stmts_spec(body_nodes) {
                        Ok(body) => {
                            if body.len() <= crate::instruction::MAX_PROGRAM_LEN {
                                lemma_stmts_wf(body_nodes);
                                let l = body.len() as usize;
                                let header = Instruction {
                                    id: n.id,
                                    op: OpKind::If { condition: pr.0, statements_length: l },
                                };
                                crate::instruction::lemma_seg_if(header, body, l);
                                crate::instruction::lemma_seg_concat(pr.1, seq![header] + body);
                                assert(pr.1 + seq![header] + body =~= pr.1 + (seq![header]
                                    + body));
                            }
                        },
                        Err(_) => {},
                    },
                    Err(_) => {},
                },
                Err(_) => {},
            }
        },
        _ => {
            lemma_req_param_wf(n, 5);
            match build_spec(bt, n) {
                Ok(s) => {
                    assert(crate::instruction::seg_wf(s)) by {
                        lemma_build_plain(bt, n);
                    }
                },
                Err(_) => {},
            }
        },
    }
}

/// The blocks without a body emit a sound segment: operand segments
/// followed by one instruction with no jump arithmetic.
#[verifier::rlimit(100)]
#[verifier::spinoff_prover]
proof fn lemma_build_plain(bt: BlockType, n: Node)
    requires
        !(bt is RepeatBasic),
        !(bt is RepeatInf),
        !(bt is If),
    ensures
        build_spec(bt, n) matches Ok(s) ==> crate::instruction::seg_wf(s),
    decreases n, 2int,
{
    lemma_req_param_wf(n, 0);
    lemma_req_param_wf(n, 1);
    lemma_req_param_wf(n, 2);
    lemma_req_param_wf(n, 3);
    match build_spec(bt, n) {
        Ok(s) => {
            match bt {
                BlockType::MoveDirection | BlockType::MoveX | BlockType::MoveY
                    | BlockType::WaitSecond | BlockType::LengthOfString => {
                    let pr = req_param(n, 0)->Ok_0;
                    assert(s == pr.1.push(s.last()));
                    crate::instruction::lemma_seg_push(pr.1, s.last());
                },
                BlockType::MoveXyTime => {
                    let a = req_param(n, 0)->Ok_0.1;
                    let b = req_param(n, 1)->Ok_0.1;
                    let c = req_param(n, 2)->Ok_0.1;
                    crate::instruction::lemma_seg_concat(a, b);
                    crate::instruction::lemma_seg_pair_push(a + b, c, s.last());
                    assert(s =~= (a + b) + c + seq![s.last()]);
                },
                BlockType::SetVariable | BlockType::ChangeVariable => {
                    let pr = req_param(n, 1)->Ok_0;
                    assert(s == pr.1.push(s.last()));
                    crate::instruction::lemma_seg_push(pr.1, s.last());
                },
                BlockType::GetVariable | BlockType::Locate | BlockType::CoordinateObject => {
                    crate::instruction::lemma_seg_single(s.last());
                    assert(s =~= seq![s.last()]);
                },
                BlockType::BooleanBasicOperator | BlockType::CalcBasic => {
                    let a = req_param(n, 0)->Ok_0.1;
                    let b = req_param(n, 2)->Ok_0.1;
                    crate::instruction::lemma_seg_pair_push(a, b, s.last());
                    assert(s =~= a + b + seq![s.last()]);
                },
                BlockType::CalcOperation => {
                    let pr = req_param(n, 1)->Ok_0;
                    assert(s == pr.1.push(s.last()));
                    crate::instruction::lemma_seg_push(pr.1, s.last());
                },
                BlockType::QuotientAndMod => {
                    lemma_req_param_wf(n, 5);
                    let a = req_param(n, 1)->Ok_0.1;
                    let b = req_param(n, 3)->Ok_0.1;
                    crate::instruction::lemma_seg_pair_push(a, b, s.last());
                    assert(s =~= a + b + seq![s.last()]);
                },
                BlockType::LocateXy => {
                    let a = req_param(n, 0)->Ok_0.1;
                    let b = req_param(n, 1)->Ok_0.1;
                    crate::instruction::lemma_seg_pair_push(a, b, s.last());
                    assert(s =~= a + b + seq![s.last()]);
                },
                _ => {},
            }
        },
        Err(_) => {},
    }
}

/// What one statement block emits is a sound segment.
pub proof fn lemma_block_wf(n: Node)
    ensures
        parse_block_spec(n) matches Ok(s) ==> crate::instruction::seg_wf(s),
    decreases n, 4int,
{
    match block_type_of(n.op_name@) {
        Some(bt) => {
            lemma_build_wf(bt, n);
        },
        None => {},
    }
}

/// What a statement list emits is a sound segment.
pub proof fn lemma_stmts_wf(ns: Seq<Node>)
    ensures
        compile_stmts_spec(ns) matches Ok(s) ==> crate::instruction::seg_wf(s),
    decreases ns, 5int,
{
    if ns.len() > 0 {
        lemma_block_wf(ns[0]);
        lemma_stmts_wf(ns.drop_first());
        match parse_block_spec(ns[0]) {
            Ok(first) => match compile_stmts_spec(ns.drop_first()) {
                Ok(rest) => {
                    crate::instruction::lemma_seg_concat(first, rest);
                },
                Err(_) => {},
            },
            Err(_) => {},
        }
    }
}

/// Compiles a whole script into one flat program, sound for the engine:
/// its jump arithmetic holds everywhere and its length is within bounds.
pub fn compile_script(nodes: &Vec<Node>) -> (r: Result<Vec<Instruction>, CompileError>)
    ensures
        ({
            let sp = compile_script_spec(nodes@);
            match r {
                Ok(v) => sp == Ok::<Seq<Instruction>, CompileError>(v@)
                    && crate::instruction::prog_wf(v@),
                Err(e) => sp == Err::<Seq<Instruction>, CompileError>(e),
            }
        }),
{
    match parse_statements(nodes) {
        Ok(v) => {
            if v.len() > crate::instruction::MAX_PROGRAM_LEN {
                Err(CompileError::ProgramTooLong)
            } else {
                proof {
                    lemma_stmts_wf(nodes@);
                }
                Ok(v)
            }
        },
        Err(e) => Err(e),
    }
}

/// A script of one bounded repeat around one horizontal step compiles to
/// exactly the engine's loop shape: header, movement, end marker. Together
/// with the engine's counted-repeat law, the round trip holds: compiling
/// and running such a script applies the movement exactly as many times as
/// the bound says.
pub proof fn lemma_repeat_script_compiles(script: Seq<Node>, rid: Id, mid: Id, bound: Num, d: Num)
    requires
        script.len() == 1,
        script[0].id == rid,
        script[0].op_name@ == "repeat_basic"@,
        script[0].params@ =~= seq![Param::Number(bound)],
        script[0].statements@.len() == 1,
        script[0].statements@[0]@.len() == 1,
        ({
            let inner = script[0].statements@[0]@[0];
            &&& inner.id == mid
            &&& inner.op_name@ == "move_x"@
            &&& inner.params@ =~= seq![Param::Number(d)]
        }),
    ensures
        compile_script_spec(script) == Ok::<Seq<Instruction>, CompileError>(
            crate::engine::repeat_prog(rid, mid, bound, d),
        ),
{
    reveal_strlit("move_direction");
    reveal_strlit("wait_second");
    reveal_strlit("repeat_basic");
    reveal_strlit("repeat_inf");
    reveal_strlit("length_of_string");
    reveal_strlit("set_variable");
    reveal_strlit("get_variable");
    reveal_strlit("change_variable");
    reveal_strlit("_if");
    reveal_strlit("boolean_basic_operator");
    reveal_strlit("move_x");
    assert("move_direction"@.len() == 14);
    assert("wait_second"@.len() == 11);
    assert("repeat_basic"@.len() == 12);
    assert("repeat_inf"@.len() == 10);
    assert("length_of_string"@.len() == 16);
    assert("set_variable"@.len() == 12);
    assert("get_variable"@.len() == 12);
    assert("change_variable"@.len() == 15);
    assert("_if"@.len() == 3);
    assert("boolean_basic_operator"@.len() == 22);
    assert("move_x"@.len() == 6);
    assert("repeat_basic"@[0] == 'r' && "set_variable"@[0] == 's' && "get_variable"@[0] == 'g');
    let rnode = script[0];
    let inner = rnode.statements@[0]@[0];
    assert(block_type_of(rnode.op_name@) == Some(BlockType::RepeatBasic));
    assert(block_type_of(inner.op_name@) == Some(BlockType::MoveX));
    assert(req_param(rnode, 0) == Ok::<(Value, Seq<Instruction>), CompileError>(
        (Value::Number(bound), Seq::<Instruction>::empty()),
    ));
    assert(req_param(inner, 0) == Ok::<(Value, Seq<Instruction>), CompileError>(
        (Value::Number(d), Seq::<Instruction>::empty()),
    ));
    let minst = Instruction { id: mid, op: OpKind::MoveX { amount: Value::Number(d) } };
    assert(Seq::<Instruction>::empty().push(minst) =~= seq![minst]);
    assert(build_spec(BlockType::MoveX, inner) == Ok::<Seq<Instruction>, CompileError>(
        seq![minst],
    ));
    reveal_with_fuel(compile_stmts_spec, 3);
    assert(rnode.statements@[0]@.drop_first() =~= Seq::<Node>::empty());
    assert(seq![minst] + Seq::<Instruction>::empty() =~= seq![minst]);
    assert(compile_stmts_spec(rnode.statements@[0]@) == Ok::<Seq<Instruction>, CompileError>(
        seq![minst],
    ));
    let header = Instruction {
        id: rid,
        op: OpKind::RepeatBasic { iter_num: Value::Number(bound), statements_length: 1 },
    };
    let endm = Instruction { id: rid, op: OpKind::RepeatBasicEnd { statements_length: 1 } };
    assert(Seq::<Instruction>::empty() + seq![header] + seq![minst] + seq![endm]
        =~= crate::engine::repeat_prog(rid, mid, bound, d));
    assert(build_spec(BlockType::RepeatBasic, rnode) == Ok::<Seq<Instruction>, CompileError>(
        crate::engine::repeat_prog(rid, mid, bound, d),
    ));
    assert(script.drop_first() =~= Seq::<Node>::empty());
    assert(crate::engine::repeat_prog(rid, mid, bound, d) + Seq::<Instruction>::empty()
        =~= crate::engine::repeat_prog(rid, mid, bound, d));
    assert(compile_stmts_spec(script) == Ok::<Seq<Instruction>, CompileError>(
        crate::engine::repeat_prog(rid, mid, bound, d),
    ));
}

/// The jump arithmetic of a compiled conditional, for every body length: a
/// compiled `_if` emits the condition's instructions, a header carrying the
/// body's length, then the body — no end marker — and the header's
/// false-branch target, its position plus the length plus one, is exactly
/// one past the emitted body.
pub proof fn lemma_if_jump_arithmetic(n: Node)
    requires
        block_type_of(n.op_name@) == Some(BlockType::If),
    ensures
        parse_block_spec(n) matches Ok(s) ==> ({
            let pre = req_param(n, 0)->Ok_0.1;
            let body = compile_stmts_spec(body_stmts(n)->Ok_0)->Ok_0;
            let hdr = pre.len() as int;
            &&& s.len() == pre.len() + 1 + body.len()
            &&& s[hdr].op matches OpKind::If { statements_length: l, .. } && l == body.len()
            &&& forall|k: int| 0 <= k < pre.len() ==> s[k] == pre[k]
            &&& forall|k: int| 0 <= k < body.len() ==> s[hdr + 1 + k] == body[k]
            &&& hdr + (s[hdr].op->If_statements_length) + 1 == s.len()
        }),
{
    match req_param(n, 0) {
        Ok(pr) => match body_stmts(n) {
            Ok(bn) => match compile_stmts_spec(bn) {
                Ok(body) => {
                    if body.len() <= crate::instruction::MAX_PROGRAM_LEN {
                        let l = body.len() as usize;
                        let header = Instruction {
                            id: n.id,
                            op: OpKind::If { condition: pr.0, statements_length: l },
                        };
                        assert((pr.1 + seq![header] + body)[pr.1.len() as int] == header);
                    }
                },
                Err(_) => {},
            },
            Err(_) => {},
        },
        Err(_) => {},
    }
}

/// The shape of a compiled bounded repeat, for every body length: the
/// bound's instructions, a header, the body, and an end marker; header and
/// end marker carry the body's length and the source block's identity, the
/// header's exhausted target is one past the end marker, and the end
/// marker's backward target is the header itself.
pub proof fn lemma_repeat_shape_arithmetic(n: Node)
    requires
        block_type_of(n.op_name@) == Some(BlockType::RepeatBasic),
    ensures
        parse_block_spec(n) matches Ok(s) ==> ({
            let pre = req_param(n, 0)->Ok_0.1;
            let body = compile_stmts_spec(body_stmts(n)->Ok_0)->Ok_0;
            let hdr = pre.len() as int;
            let endm = hdr + body.len() + 1;
            &&& s.len() == pre.len() + 1 + body.len() + 1
            &&& s[hdr].op matches OpKind::RepeatBasic { statements_length: l, .. } && l
                == body.len()
            &&& s[endm].op matches OpKind::RepeatBasicEnd { statements_length: l2 } && l2
                == body.len()
            &&& s[endm].id == s[hdr].id && s[hdr].id == n.id
            &&& forall|k: int| 0 <= k < body.len() ==> s[hdr + 1 + k] == body[k]
            &&& hdr + (s[hdr].op->RepeatBasic_statements_length) + 2 == endm + 1
            &&& endm - (s[endm].op->RepeatBasicEnd_statements_length) - 1 == hdr
        }),
{
    match req_param(n, 0) {
        Ok(pr) => match body_stmts(n) {
            Ok(bn) => match compile_stmts_spec(bn) {
                Ok(body) => {
                    if body.len() <= crate::instruction::MAX_PROGRAM_LEN {
                        let l = body.len() as usize;
                        let header = Instruction {
                            id: n.id,
                            op: OpKind::RepeatBasic { iter_num: pr.0, statements_length: l },
                        };
                        let endm = Instruction {
                            id: n.id,
                            op: OpKind::RepeatBasicEnd { statements_length: l },
                        };
                        let s = pr.1 + seq![header] + body + seq![endm];
                        assert(s[pr.1.len() as int] == header);
                        assert(s[pr.1.len() as int + body.len() as int + 1] == endm);
                    }
                },
                Err(_) => {},
            },
            Err(_) => {},
        },
        Err(_) => {},
    }
}

/// The jump arithmetic of a compiled bounded repeat: its end marker stands
/// one past the body with the same length and identity, the header's
/// forward target on exhaustion is one past the end marker, and the end
/// marker's backward target is the header itself.
pub proof fn lemma_jump_arithmetic(prog: Seq<Instruction>, i: int)
    requires
        crate::instruction::prog_wf(prog),
        0 <= i < prog.len(),
        prog[i].op is RepeatBasic,
    ensures
        ({
            let l = prog[i].op->RepeatBasic_statements_length;
            &&& i + l + 1 < prog.len()
            &&& prog[i + l + 1].op matches OpKind::RepeatBasicEnd { statements_length: l2 } && l2
                == l
            &&& prog[i + l + 1].id == prog[i].id
            &&& (i + l + 2) == (i + l + 1) + 1
            &&& ((i + l + 1) - l - 1) == i
        }),
{
    assert(crate::instruction::inst_wf_at(prog, i));
}

} // verus!
