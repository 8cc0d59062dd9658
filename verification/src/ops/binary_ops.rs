//! The uniform binary-operator family.
//!
//! Every arithmetic, bitwise, relational and equality opcode shares one
//! execution shape: read the output register and two operands, resolve both
//! operand values, apply the operator's pure value-level function, and
//! store the result into the output register. [`binary_operation`] is that
//! shared routine; each opcode family wraps it with its own value function
//! selected by opcode.

use vstd::prelude::*;
use crate::error::{ErrorKind, JsError, JsResult};
use crate::opcode::Opcode;
use crate::ops::Operation;
use crate::value::{
    add_model, as_number_model, compare_model, div_model, i32_val, loose_eq_model, mul_model,
    pow_model, rem_model, strict_eq_model, sub_model, to_uint32_model, JsValue, ValueModel,
};
use crate::vm::{resolve_operand, stack_model, CallFrame, CompletionType, Context, InstructionOperand};
use crate::codec::OperandWidth;

verus! {

/// Whether an opcode belongs to the uniform binary family.
pub open spec fn uniform_binary(op: Opcode) -> bool {
    op == Opcode::Add || op == Opcode::Sub || op == Opcode::Mul || op == Opcode::Div || op
        == Opcode::Pow || op == Opcode::Mod || op == Opcode::BitAnd || op == Opcode::BitOr || op
        == Opcode::BitXor || op == Opcode::ShiftLeft || op == Opcode::ShiftRight || op
        == Opcode::UnsignedShiftRight || op == Opcode::Eq || op == Opcode::NotEq || op
        == Opcode::StrictEq || op == Opcode::StrictNotEq || op == Opcode::GreaterThan || op
        == Opcode::GreaterThanOrEq || op == Opcode::LessThan || op == Opcode::LessThanOrEq
}

/// The value-level result of a uniform binary opcode on two operand
/// models.
#[verifier::opaque]
pub open spec fn binary_result_model(op: Opcode, a: ValueModel, b: ValueModel) -> Result<
    ValueModel,
    ErrorKind,
> {
    match op {
        Opcode::Add => add_model(a, b),
        Opcode::Sub => sub_model(a, b),
        Opcode::Mul => mul_model(a, b),
        Opcode::Div => div_model(a, b),
        Opcode::Pow => pow_model(a, b),
        Opcode::Mod => rem_model(a, b),
        Opcode::BitAnd => match (as_number_model(a), as_number_model(b)) {
            (Some(x), Some(y)) => Ok(
                ValueModel::Int(i32_val(to_uint32_model(x) & to_uint32_model(y))),
            ),
            _ => Err(ErrorKind::Type),
        },
        Opcode::BitOr => match (as_number_model(a), as_number_model(b)) {
            (Some(x), Some(y)) => Ok(
                ValueModel::Int(i32_val(to_uint32_model(x) | to_uint32_model(y))),
            ),
            _ => Err(ErrorKind::Type),
        },
        Opcode::BitXor => match (as_number_model(a), as_number_model(b)) {
            (Some(x), Some(y)) => Ok(
                ValueModel::Int(i32_val(to_uint32_model(x) ^ to_uint32_model(y))),
            ),
            _ => Err(ErrorKind::Type),
        },
        Opcode::ShiftLeft => match (as_number_model(a), as_number_model(b)) {
            (Some(x), Some(y)) => Ok(
                ValueModel::Int(
                    i32_val(to_uint32_model(x) << (to_uint32_model(y) & 31)),
                ),
            ),
            _ => Err(ErrorKind::Type),
        },
        Opcode::ShiftRight => match (as_number_model(a), as_number_model(b)) {
            (Some(x), Some(y)) => Ok(
                ValueModel::Int(
                    i32_val(to_uint32_model(x)) / vstd::arithmetic::power2::pow2(
                        (to_uint32_model(y) & 31) as nat,
                    ) as int,
                ),
            ),
            _ => Err(ErrorKind::Type),
        },
        Opcode::UnsignedShiftRight => match (as_number_model(a), as_number_model(b)) {
            (Some(x), Some(y)) => Ok(
                ValueModel::Int((to_uint32_model(x) >> (to_uint32_model(y) & 31)) as int),
            ),
            _ => Err(ErrorKind::Type),
        },
        Opcode::Eq => match loose_eq_model(a, b) {
            Some(v) => Ok(ValueModel::Bool(v)),
            None => Err(ErrorKind::Type),
        },
        Opcode::NotEq => match loose_eq_model(a, b) {
            Some(v) => Ok(ValueModel::Bool(!v)),
            None => Err(ErrorKind::Type),
        },
        Opcode::StrictEq => Ok(ValueModel::Bool(strict_eq_model(a, b))),
        Opcode::StrictNotEq => Ok(ValueModel::Bool(!strict_eq_model(a, b))),
        Opcode::GreaterThan => match compare_model(a, b) {
            Some(c) => Ok(ValueModel::Bool(c > 0)),
            None => Err(ErrorKind::Type),
        },
        Opcode::GreaterThanOrEq => match compare_model(a, b) {
            Some(c) => Ok(ValueModel::Bool(c >= 0)),
            None => Err(ErrorKind::Type),
        },
        Opcode::LessThan => match compare_model(a, b) {
            Some(c) => Ok(ValueModel::Bool(c < 0)),
            None => Err(ErrorKind::Type),
        },
        Opcode::LessThanOrEq => match compare_model(a, b) {
            Some(c) => Ok(ValueModel::Bool(c <= 0)),
            None => Err(ErrorKind::Type),
        },
        _ => Err(ErrorKind::Type),
    }
}

/// Applies a uniform binary opcode's value function to two values.
#[verifier::rlimit(100)]
pub fn apply_binary(op: Opcode, a: &JsValue, b: &JsValue) -> (r: JsResult<JsValue>)
    requires
        uniform_binary(op),
        a.valid(),
        b.valid(),
    ensures
        match r {
            Ok(v) => binary_result_model(op, a@, b@) == Ok::<ValueModel, ErrorKind>(v@)
                && v.valid() && !(v@ is Obj),
            Err(e) => binary_result_model(op, a@, b@) == Err::<ValueModel, ErrorKind>(
                e.kind_spec(),
            ),
        },
{
    proof {
        reveal(binary_result_model);
    }
    match op {
        Opcode::Add => a.add(b),
        Opcode::Sub => a.sub(b),
        Opcode::Mul => a.mul(b),
        Opcode::Div => a.div(b),
        Opcode::Pow => a.pow(b),
        Opcode::Mod => a.rem(b),
        Opcode::BitAnd => a.bitand(b),
        Opcode::BitOr => a.bitor(b),
        Opcode::BitXor => a.bitxor(b),
        Opcode::ShiftLeft => a.shl(b),
        Opcode::ShiftRight => a.shr(b),
        Opcode::UnsignedShiftRight => a.ushr(b),
        Opcode::Eq => match a.equals(b) {
            Ok(v) => Ok(JsValue::Boolean(v)),
            Err(e) => Err(e),
        },
        Opcode::NotEq => match a.equals(b) {
            Ok(v) => Ok(JsValue::Boolean(!v)),
            Err(e) => Err(e),
        },
        Opcode::StrictEq => Ok(JsValue::Boolean(a.strict_equals(b))),
        Opcode::StrictNotEq => Ok(JsValue::Boolean(!a.strict_equals(b))),
        Opcode::GreaterThan => match a.gt(b) {
            Ok(v) => Ok(JsValue::Boolean(v)),
            Err(e) => Err(e),
        },
        Opcode::GreaterThanOrEq => match a.ge(b) {
            Ok(v) => Ok(JsValue::Boolean(v)),
            Err(e) => Err(e),
        },
        Opcode::LessThan => match a.lt(b) {
            Ok(v) => Ok(JsValue::Boolean(v)),
            Err(e) => Err(e),
        },
        _ => match a.le(b) {
            Ok(v) => Ok(JsValue::Boolean(v)),
            Err(e) => Err(e),
        },
    }
}

/// The shared execution routine of the uniform binary family: resolve both
/// operands, apply the opcode's value function, and store the result into
/// the output register.
///
/// A malformed instruction (an operand or the output register out of
/// bounds) raises an internal error and leaves the machine unchanged; the
/// compiler never emits one.
#[verifier::rlimit(100)]
#[verifier::spinoff_prover]
pub fn binary_operation(
    op: Opcode,
    output: u32,
    lhs: InstructionOperand,
    rhs: InstructionOperand,
    context: &mut Context,
) -> (r: JsResult<CompletionType>)
    requires
        old(context).wf(),
        old(context).vm.has_frame(),
        uniform_binary(op),
    ensures
        final(context).wf(),
        final(context).vm.has_frame(),
        final(context).vm.frames == old(context).vm.frames,
        final(context).vm.heap == old(context).vm.heap,
        final(context).object_prototype_spec() == old(context).object_prototype_spec(),
        r is Ok ==> r->Ok_0 == CompletionType::Normal,
        ({
            let dst = old(context).vm.frame_spec().rp + output;
            match (
                resolve_operand(&old(context).vm, lhs),
                resolve_operand(&old(context).vm, rhs),
            ) {
                (Some(a), Some(b)) => match binary_result_model(op, a, b) {
                    Ok(m) => if dst < old(context).vm.stack@.len() {
                        r is Ok && stack_model(final(context).vm.stack@) == stack_model(
                            old(context).vm.stack@,
                        ).update(dst, m)
                    } else {
                        r is Err && final(context).vm.stack == old(context).vm.stack
                            && r->Err_0.kind_spec() == ErrorKind::Internal
                    },
                    Err(k) => r is Err && r->Err_0.kind_spec() == k && final(context).vm.stack
                        == old(context).vm.stack,
                },
                _ => {
                    r is Err && r->Err_0.kind_spec() == ErrorKind::Internal
                        && final(context).vm.stack == old(context).vm.stack
                },
            }
        }),
{
    let rp = context.vm.frame().rp;
    let lhs_value = match lhs.to_value(&context.vm) {
        Some(v) => v,
        None => {
            return Err(JsError::internal_error("binary operand out of bounds"));
        }
    };
    let rhs_value = match rhs.to_value(&context.vm) {
        Some(v) => v,
        None => {
            return Err(JsError::internal_error("binary operand out of bounds"));
        }
    };
    let value = match apply_binary(op, &lhs_value, &rhs_value) {
        Ok(v) => v,
        Err(e) => {
            return Err(e);
        }
    };
    let dst: u64 = (rp as u64) + (output as u64);
    let n = context.vm.stack.len();
    if dst >= n as u64 {
        return Err(JsError::internal_error("binary output register out of bounds"));
    }
    context.vm.stack_set(dst as usize, value);
    Ok(CompletionType::Normal)
}

/// Reads the three operand fields of a uniform binary instruction at the
/// given width: the output register, then the packed left and right
/// operands.
///
/// When three fields lie within the unit's bytes at the frame's offset,
/// the values read are exactly those fields' little-endian values, and
/// the offset steps past them; otherwise the instruction is truncated and
/// nothing is handed back.
#[verifier::rlimit(100)]
#[verifier::spinoff_prover]
pub fn read_binary_operands(context: &mut Context, w: OperandWidth) -> (r: Option<
    (u32, InstructionOperand, InstructionOperand),
>)
    requires
        old(context).wf(),
        old(context).vm.has_frame(),
    ensures
        final(context).wf(),
        final(context).vm.has_frame(),
        final(context).vm.stack == old(context).vm.stack,
        final(context).vm.heap == old(context).vm.heap,
        final(context).object_prototype_spec() == old(context).object_prototype_spec(),
        ({
            let f0 = old(context).vm.frame_spec();
            let f1 = final(context).vm.frame_spec();
            f1.rp == f0.rp && f1.argument_count == f0.argument_count && f1.code == f0.code
        }),
        ({
            let f = old(context).vm.frame_spec();
            let fb = w.field_bytes() as int;
            let b = f.code.bytes@;
            if f.pc + 3 * fb <= b.len() {
                match r {
                    Some(t) => {
                        &&& t.0 == crate::codec::field_value(b.subrange(f.pc as int, f.pc + fb))
                        &&& t.1 == crate::vm::unpack_operand(
                            crate::codec::field_value(
                                b.subrange(f.pc + fb, f.pc + 2 * fb),
                            ) as u32,
                        )
                        &&& t.2 == crate::vm::unpack_operand(
                            crate::codec::field_value(
                                b.subrange(f.pc + 2 * fb, f.pc + 3 * fb),
                            ) as u32,
                        )
                        &&& final(context).vm.frames@ == old(context).vm.frames@.update(
                            old(context).vm.frames@.len() - 1,
                            CallFrame { pc: (f.pc + 3 * fb) as usize, ..f },
                        )
                    },
                    None => false,
                }
            } else {
                r is None
            }
        }),
{
    let ghost f = old(context).vm.frame_spec();
    let ghost fb = w.field_bytes() as int;
    let output = match context.vm.read_operand(w) {
        Some(v) => v,
        None => {
            return None;
        }
    };
    let lhs = match context.vm.read_operand(w) {
        Some(v) => v,
        None => {
            return None;
        }
    };
    let rhs = match context.vm.read_operand(w) {
        Some(v) => v,
        None => {
            return None;
        }
    };
    proof {
        assert(final(context).vm.frames@ =~= old(context).vm.frames@.update(
            old(context).vm.frames@.len() - 1,
            CallFrame { pc: (f.pc + 3 * fb) as usize, ..f },
        ));
    }
    Some((output, InstructionOperand::from_packed(lhs), InstructionOperand::from_packed(rhs)))
}

/// The shared fetch-and-execute entry of the uniform binary family at one
/// width: decode the three operand fields at the frame's offset, then run
/// the opcode's operation on them.
///
/// The three widths behave identically: each decodes its own field size
/// losslessly and hands the same operand values to the same operation;
/// only the bytes consumed differ.
#[verifier::rlimit(100)]
#[verifier::spinoff_prover]
pub fn execute_binary(op: Opcode, context: &mut Context, w: OperandWidth) -> (r: JsResult<
    CompletionType,
>)
    requires
        old(context).wf(),
        old(context).vm.has_frame(),
        uniform_binary(op),
    ensures
        final(context).wf(),
        final(context).vm.has_frame(),
        final(context).vm.heap == old(context).vm.heap,
        r is Ok ==> r->Ok_0 == CompletionType::Normal,
        ({
            let f = old(context).vm.frame_spec();
            let fb = w.field_bytes() as int;
            let b = f.code.bytes@;
            if f.pc + 3 * fb <= b.len() {
                let output = crate::codec::field_value(
                    b.subrange(f.pc as int, f.pc + fb),
                ) as u32;
                let lhs = crate::vm::unpack_operand(
                    crate::codec::field_value(b.subrange(f.pc + fb, f.pc + 2 * fb)) as u32,
                );
                let rhs = crate::vm::unpack_operand(
                    crate::codec::field_value(b.subrange(f.pc + 2 * fb, f.pc + 3 * fb)) as u32,
                );
                let dst = f.rp + output;
                &&& final(context).vm.frames@ == old(context).vm.frames@.update(
                    old(context).vm.frames@.len() - 1,
                    CallFrame { pc: (f.pc + 3 * fb) as usize, ..f },
                )
                &&& match (
                    resolve_operand(&old(context).vm, lhs),
                    resolve_operand(&old(context).vm, rhs),
                ) {
                    (Some(a), Some(bv)) => match binary_result_model(op, a, bv) {
                        Ok(m) => if dst < old(context).vm.stack@.len() {
                            r is Ok && stack_model(final(context).vm.stack@) == stack_model(
                                old(context).vm.stack@,
                            ).update(dst, m)
                        } else {
                            r is Err && final(context).vm.stack == old(context).vm.stack
                        },
                        Err(k) => {
                            r is Err && r->Err_0.kind_spec() == k
                                && final(context).vm.stack == old(context).vm.stack
                        },
                    },
                    _ => r is Err && final(context).vm.stack == old(context).vm.stack,
                }
            } else {
                r is Err && r->Err_0.kind_spec() == ErrorKind::Internal
                    && final(context).vm.stack == old(context).vm.stack
            }
        }),
{
    let ghost pre = *old(context);
    match read_binary_operands(context, w) {
        Some((output, lhs, rhs)) => {
            let ghost mid = *context;
            let r = binary_operation(op, output, lhs, rhs, context);
            proof {
                assert(mid.vm.frame_spec().rp == pre.vm.frame_spec().rp);
                assert(mid.vm.frame_spec().code == pre.vm.frame_spec().code);
                assert(resolve_operand(&mid.vm, lhs) == resolve_operand(&pre.vm, lhs));
                assert(resolve_operand(&mid.vm, rhs) == resolve_operand(&pre.vm, rhs));
            }
            r
        }
        None => Err(JsError::internal_error("truncated binary instruction")),
    }
}

/// `Add` implements the opcode operation for `Opcode::Add`.
///
/// Operation:
///  - Binary `+` operator.
#[derive(Debug, Clone, Copy)]
pub struct Add;

impl Add {
    /// The family's semantic step: see [`binary_operation`].
    #[verifier::rlimit(100)]
    #[verifier::spinoff_prover]
    pub fn operation(
        output: u32,
        lhs: InstructionOperand,
        rhs: InstructionOperand,
        context: &mut Context,
    ) -> (r: JsResult<CompletionType>)
        requires
            old(context).wf(),
            old(context).vm.has_frame(),
        ensures
            final(context).wf(),
            final(context).vm.has_frame(),
            final(context).vm.frames == old(context).vm.frames,
            final(context).vm.heap == old(context).vm.heap,
            r is Ok ==> r->Ok_0 == CompletionType::Normal,
            ({
                let dst = old(context).vm.frame_spec().rp + output;
                match (
                    resolve_operand(&old(context).vm, lhs),
                    resolve_operand(&old(context).vm, rhs),
                ) {
                    (Some(a), Some(b)) => match binary_result_model(Opcode::Add, a, b) {
                        Ok(m) => if dst < old(context).vm.stack@.len() {
                            r is Ok && stack_model(final(context).vm.stack@) == stack_model(
                                old(context).vm.stack@,
                            ).update(dst, m)
                        } else {
                            r is Err && final(context).vm.stack == old(context).vm.stack
                        },
                        Err(k) => {
                            r is Err && r->Err_0.kind_spec() == k
                                && final(context).vm.stack == old(context).vm.stack
                        },
                    },
                    _ => r is Err && final(context).vm.stack == old(context).vm.stack,
                }
            }),
    {
        binary_operation(Opcode::Add, output, lhs, rhs, context)
    }
}

impl Operation for Add {
    fn name() -> &'static str {
        "Add"
    }

    fn cost() -> u8 {
        2
    }

    fn execute(context: &mut Context) -> (r: JsResult<CompletionType>) {
        execute_binary(Opcode::Add, context, OperandWidth::Narrow)
    }

    fn execute_with_u16_operands(context: &mut Context) -> (r: JsResult<CompletionType>) {
        execute_binary(Opcode::Add, context, OperandWidth::Medium)
    }

    fn execute_with_u32_operands(context: &mut Context) -> (r: JsResult<CompletionType>) {
        execute_binary(Opcode::Add, context, OperandWidth::Wide)
    }
}

/// `Sub` implements the opcode operation for `Opcode::Sub`.
///
/// Operation:
///  - Binary `-` operator.
#[derive(Debug, Clone, Copy)]
pub struct Sub;

impl Sub {
    /// The family's semantic step: see [`binary_operation`].
    #[verifier::rlimit(100)]
    #[verifier::spinoff_prover]
    pub fn operation(
        output: u32,
        lhs: InstructionOperand,
        rhs: InstructionOperand,
        context: &mut Context,
    ) -> (r: JsResult<CompletionType>)
        requires
            old(context).wf(),
            old(context).vm.has_frame(),
        ensures
            final(context).wf(),
            final(context).vm.has_frame(),
            final(context).vm.frames == old(context).vm.frames,
            final(context).vm.heap == old(context).vm.heap,
            r is Ok ==> r->Ok_0 == CompletionType::Normal,
            ({
                let dst = old(context).vm.frame_spec().rp + output;
                match (
                    resolve_operand(&old(context).vm, lhs),
                    resolve_operand(&old(context).vm, rhs),
                ) {
                    (Some(a), Some(b)) => match binary_result_model(Opcode::Sub, a, b) {
                        Ok(m) => if dst < old(context).vm.stack@.len() {
                            r is Ok && stack_model(final(context).vm.stack@) == stack_model(
                                old(context).vm.stack@,
                            ).update(dst, m)
                        } else {
                            r is Err && final(context).vm.stack == old(context).vm.stack
                        },
                        Err(k) => {
                            r is Err && r->Err_0.kind_spec() == k
                                && final(context).vm.stack == old(context).vm.stack
                        },
                    },
                    _ => r is Err && final(context).vm.stack == old(context).vm.stack,
                }
            }),
    {
        binary_operation(Opcode::Sub, output, lhs, rhs, context)
    }
}

impl Operation for Sub {
    fn name() -> &'static str {
        "Sub"
    }

    fn cost() -> u8 {
        2
    }

    fn execute(context: &mut Context) -> (r: JsResult<CompletionType>) {
        execute_binary(Opcode::Sub, context, OperandWidth::Narrow)
    }

    fn execute_with_u16_operands(context: &mut Context) -> (r: JsResult<CompletionType>) {
        execute_binary(Opcode::Sub, context, OperandWidth::Medium)
    }

    fn execute_with_u32_operands(context: &mut Context) -> (r: JsResult<CompletionType>) {
        execute_binary(Opcode::Sub, context, OperandWidth::Wide)
    }
}

/// `Mul` implements the opcode operation for `Opcode::Mul`.
///
/// Operation:
///  - Binary `*` operator.
#[derive(Debug, Clone, Copy)]
pub struct Mul;

impl Mul {
    /// The family's semantic step: see [`binary_operation`].
    #[verifier::rlimit(100)]
    #[verifier::spinoff_prover]
    pub fn operation(
        output: u32,
        lhs: InstructionOperand,
        rhs: InstructionOperand,
        context: &mut Context,
    ) -> (r: JsResult<CompletionType>)
        requires
            old(context).wf(),
            old(context).vm.has_frame(),
        ensures
            final(context).wf(),
            final(context).vm.has_frame(),
            final(context).vm.frames == old(context).vm.frames,
            final(context).vm.heap == old(context).vm.heap,
            r is Ok ==> r->Ok_0 == CompletionType::Normal,
            ({
                let dst = old(context).vm.frame_spec().rp + output;
                match (
                    resolve_operand(&old(context).vm, lhs),
                    resolve_operand(&old(context).vm, rhs),
                ) {
                    (Some(a), Some(b)) => match binary_result_model(Opcode::Mul, a, b) {
                        Ok(m) => if dst < old(context).vm.stack@.len() {
                            r is Ok && stack_model(final(context).vm.stack@) == stack_model(
                                old(context).vm.stack@,
                            ).update(dst, m)
                        } else {
                            r is Err && final(context).vm.stack == old(context).vm.stack
                        },
                        Err(k) => {
                            r is Err && r->Err_0.kind_spec() == k
                                && final(context).vm.stack == old(context).vm.stack
                        },
                    },
                    _ => r is Err && final(context).vm.stack == old(context).vm.stack,
                }
            }),
    {
        binary_operation(Opcode::Mul, output, lhs, rhs, context)
    }
}

impl Operation for Mul {
    fn name() -> &'static str {
        "Mul"
    }

    fn cost() -> u8 {
        2
    }

    fn execute(context: &mut Context) -> (r: JsResult<CompletionType>) {
        execute_binary(Opcode::Mul, context, OperandWidth::Narrow)
    }

    fn execute_with_u16_operands(context: &mut Context) -> (r: JsResult<CompletionType>) {
        execute_binary(Opcode::Mul, context, OperandWidth::Medium)
    }

    fn execute_with_u32_operands(context: &mut Context) -> (r: JsResult<CompletionType>) {
        execute_binary(Opcode::Mul, context, OperandWidth::Wide)
    }
}

/// `Div` implements the opcode operation for `Opcode::Div`.
///
/// Operation:
///  - Binary `/` operator.
#[derive(Debug, Clone, Copy)]
pub struct Div;

impl Div {
    /// The family's semantic step: see [`binary_operation`].
    #[verifier::rlimit(100)]
    #[verifier::spinoff_prover]
    pub fn operation(
        output: u32,
        lhs: InstructionOperand,
        rhs: InstructionOperand,
        context: &mut Context,
    ) -> (r: JsResult<CompletionType>)
        requires
            old(context).wf(),
            old(context).vm.has_frame(),
        ensures
            final(context).wf(),
            final(context).vm.has_frame(),
            final(context).vm.frames == old(context).vm.frames,
            final(context).vm.heap == old(context).vm.heap,
            r is Ok ==> r->Ok_0 == CompletionType::Normal,
            ({
                let dst = old(context).vm.frame_spec().rp + output;
                match (
                    resolve_operand(&old(context).vm, lhs),
                    resolve_operand(&old(context).vm, rhs),
                ) {
                    (Some(a), Some(b)) => match binary_result_model(Opcode::Div, a, b) {
                        Ok(m) => if dst < old(context).vm.stack@.len() {
                            r is Ok && stack_model(final(context).vm.stack@) == stack_model(
                                old(context).vm.stack@,
                            ).update(dst, m)
                        } else {
                            r is Err && final(context).vm.stack == old(context).vm.stack
                        },
                        Err(k) => {
                            r is Err && r->Err_0.kind_spec() == k
                                && final(context).vm.stack == old(context).vm.stack
                        },
                    },
                    _ => r is Err && final(context).vm.stack == old(context).vm.stack,
                }
            }),
    {
        binary_operation(Opcode::Div, output, lhs, rhs, context)
    }
}

impl Operation for Div {
    fn name() -> &'static str {
        "Div"
    }

    fn cost() -> u8 {
        2
    }

    fn execute(context: &mut Context) -> (r: JsResult<CompletionType>) {
        execute_binary(Opcode::Div, context, OperandWidth::Narrow)
    }

    fn execute_with_u16_operands(context: &mut Context) -> (r: JsResult<CompletionType>) {
        execute_binary(Opcode::Div, context, OperandWidth::Medium)
    }

    fn execute_with_u32_operands(context: &mut Context) -> (r: JsResult<CompletionType>) {
        execute_binary(Opcode::Div, context, OperandWidth::Wide)
    }
}

/// `Pow` implements the opcode operation for `Opcode::Pow`.
///
/// Operation:
///  - Binary `**` operator.
#[derive(Debug, Clone, Copy)]
pub struct Pow;

impl Pow {
    /// The family's semantic step: see [`binary_operation`].
    #[verifier::rlimit(100)]
    #[verifier::spinoff_prover]
    pub fn operation(
        output: u32,
        lhs: InstructionOperand,
        rhs: InstructionOperand,
        context: &mut Context,
    ) -> (r: JsResult<CompletionType>)
        requires
            old(context).wf(),
            old(context).vm.has_frame(),
        ensures
            final(context).wf(),
            final(context).vm.has_frame(),
            final(context).vm.frames == old(context).vm.frames,
            final(context).vm.heap == old(context).vm.heap,
            r is Ok ==> r->Ok_0 == CompletionType::Normal,
            ({
                let dst = old(context).vm.frame_spec().rp + output;
                match (
                    resolve_operand(&old(context).vm, lhs),
                    resolve_operand(&old(context).vm, rhs),
                ) {
                    (Some(a), Some(b)) => match binary_result_model(Opcode::Pow, a, b) {
                        Ok(m) => if dst < old(context).vm.stack@.len() {
                            r is Ok && stack_model(final(context).vm.stack@) == stack_model(
                                old(context).vm.stack@,
                            ).update(dst, m)
                        } else {
                            r is Err && final(context).vm.stack == old(context).vm.stack
                        },
                        Err(k) => {
                            r is Err && r->Err_0.kind_spec() == k
                                && final(context).vm.stack == old(context).vm.stack
                        },
                    },
                    _ => r is Err && final(context).vm.stack == old(context).vm.stack,
                }
            }),
    {
        binary_operation(Opcode::Pow, output, lhs, rhs, context)
    }
}

impl Operation for Pow {
    fn name() -> &'static str {
        "Pow"
    }

    fn cost() -> u8 {
        2
    }

    fn execute(context: &mut Context) -> (r: JsResult<CompletionType>) {
        execute_binary(Opcode::Pow, context, OperandWidth::Narrow)
    }

    fn execute_with_u16_operands(context: &mut Context) -> (r: JsResult<CompletionType>) {
        execute_binary(Opcode::Pow, context, OperandWidth::Medium)
    }

    fn execute_with_u32_operands(context: &mut Context) -> (r: JsResult<CompletionType>) {
        execute_binary(Opcode::Pow, context, OperandWidth::Wide)
    }
}

/// `Mod` implements the opcode operation for `Opcode::Mod`.
///
/// Operation:
///  - Binary `%` operator.
#[derive(Debug, Clone, Copy)]
pub struct Mod;

impl Mod {
    /// The family's semantic step: see [`binary_operation`].
    #[verifier::rlimit(100)]
    #[verifier::spinoff_prover]
    pub fn operation(
        output: u32,
        lhs: InstructionOperand,
        rhs: InstructionOperand,
        context: &mut Context,
    ) -> (r: JsResult<CompletionType>)
        requires
            old(context).wf(),
            old(context).vm.has_frame(),
        ensures
            final(context).wf(),
            final(context).vm.has_frame(),
            final(context).vm.frames == old(context).vm.frames,
            final(context).vm.heap == old(context).vm.heap,
            r is Ok ==> r->Ok_0 == CompletionType::Normal,
            ({
                let dst = old(context).vm.frame_spec().rp + output;
                match (
                    resolve_operand(&old(context).vm, lhs),
                    resolve_operand(&old(context).vm, rhs),
                ) {
                    (Some(a), Some(b)) => match binary_result_model(Opcode::Mod, a, b) {
                        Ok(m) => if dst < old(context).vm.stack@.len() {
                            r is Ok && stack_model(final(context).vm.stack@) == stack_model(
                                old(context).vm.stack@,
                            ).update(dst, m)
                        } else {
                            r is Err && final(context).vm.stack == old(context).vm.stack
                        },
                        Err(k) => {
                            r is Err && r->Err_0.kind_spec() == k
                                && final(context).vm.stack == old(context).vm.stack
                        },
                    },
                    _ => r is Err && final(context).vm.stack == old(context).vm.stack,
                }
            }),
    {
        binary_operation(Opcode::Mod, output, lhs, rhs, context)
    }
}

impl Operation for Mod {
    fn name() -> &'static str {
        "Mod"
    }

    fn cost() -> u8 {
        2
    }

    fn execute(context: &mut Context) -> (r: JsResult<CompletionType>) {
        execute_binary(Opcode::Mod, context, OperandWidth::Narrow)
    }

    fn execute_with_u16_operands(context: &mut Context) -> (r: JsResult<CompletionType>) {
        execute_binary(Opcode::Mod, context, OperandWidth::Medium)
    }

    fn execute_with_u32_operands(context: &mut Context) -> (r: JsResult<CompletionType>) {
        execute_binary(Opcode::Mod, context, OperandWidth::Wide)
    }
}

/// `BitAnd` implements the opcode operation for `Opcode::BitAnd`.
///
/// Operation:
///  - Binary `&` operator.
#[derive(Debug, Clone, Copy)]
pub struct BitAnd;

impl BitAnd {
    /// The family's semantic step: see [`binary_operation`].
    #[verifier::rlimit(100)]
    #[verifier::spinoff_prover]
    pub fn operation(
        output: u32,
        lhs: InstructionOperand,
        rhs: InstructionOperand,
        context: &mut Context,
    ) -> (r: JsResult<CompletionType>)
        requires
            old(context).wf(),
            old(context).vm.has_frame(),
        ensures
            final(context).wf(),
            final(context).vm.has_frame(),
            final(context).vm.frames == old(context).vm.frames,
            final(context).vm.heap == old(context).vm.heap,
            r is Ok ==> r->Ok_0 == CompletionType::Normal,
            ({
                let dst = old(context).vm.frame_spec().rp + output;
                match (
                    resolve_operand(&old(context).vm, lhs),
                    resolve_operand(&old(context).vm, rhs),
                ) {
                    (Some(a), Some(b)) => match binary_result_model(Opcode::BitAnd, a, b) {
                        Ok(m) => if dst < old(context).vm.stack@.len() {
                            r is Ok && stack_model(final(context).vm.stack@) == stack_model(
                                old(context).vm.stack@,
                            ).update(dst, m)
                        } else {
                            r is Err && final(context).vm.stack == old(context).vm.stack
                        },
                        Err(k) => {
                            r is Err && r->Err_0.kind_spec() == k
                                && final(context).vm.stack == old(context).vm.stack
                        },
                    },
                    _ => r is Err && final(context).vm.stack == old(context).vm.stack,
                }
            }),
    {
        binary_operation(Opcode::BitAnd, output, lhs, rhs, context)
    }
}

impl Operation for BitAnd {
    fn name() -> &'static str {
        "BitAnd"
    }

    fn cost() -> u8 {
        2
    }

    fn execute(context: &mut Context) -> (r: JsResult<CompletionType>) {
        execute_binary(Opcode::BitAnd, context, OperandWidth::Narrow)
    }

    fn execute_with_u16_operands(context: &mut Context) -> (r: JsResult<CompletionType>) {
        execute_binary(Opcode::BitAnd, context, OperandWidth::Medium)
    }

    fn execute_with_u32_operands(context: &mut Context) -> (r: JsResult<CompletionType>) {
        execute_binary(Opcode::BitAnd, context, OperandWidth::Wide)
    }
}

/// `BitOr` implements the opcode operation for `Opcode::BitOr`.
///
/// Operation:
///  - Binary `|` operator.
#[derive(Debug, Clone, Copy)]
pub struct BitOr;

impl BitOr {
    /// The family's semantic step: see [`binary_operation`].
    #[verifier::rlimit(100)]
    #[verifier::spinoff_prover]
    pub fn operation(
        output: u32,
        lhs: InstructionOperand,
        rhs: InstructionOperand,
        context: &mut Context,
    ) -> (r: JsResult<CompletionType>)
        requires
            old(context).wf(),
            old(context).vm.has_frame(),
        ensures
            final(context).wf(),
            final(context).vm.has_frame(),
            final(context).vm.frames == old(context).vm.frames,
            final(context).vm.heap == old(context).vm.heap,
            r is Ok ==> r->Ok_0 == CompletionType::Normal,
            ({
                let dst = old(context).vm.frame_spec().rp + output;
                match (
                    resolve_operand(&old(context).vm, lhs),
                    resolve_operand(&old(context).vm, rhs),
                ) {
                    (Some(a), Some(b)) => match binary_result_model(Opcode::BitOr, a, b) {
                        Ok(m) => if dst < old(context).vm.stack@.len() {
                            r is Ok && stack_model(final(context).vm.stack@) == stack_model(
                                old(context).vm.stack@,
                            ).update(dst, m)
                        } else {
                            r is Err && final(context).vm.stack == old(context).vm.stack
                        },
                        Err(k) => {
                            r is Err && r->Err_0.kind_spec() == k
                                && final(context).vm.stack == old(context).vm.stack
                        },
                    },
                    _ => r is Err && final(context).vm.stack == old(context).vm.stack,
                }
            }),
    {
        binary_operation(Opcode::BitOr, output, lhs, rhs, context)
    }
}

impl Operation for BitOr {
    fn name() -> &'static str {
        "BitOr"
    }

    fn cost() -> u8 {
        2
    }

    fn execute(context: &mut Context) -> (r: JsResult<CompletionType>) {
        execute_binary(Opcode::BitOr, context, OperandWidth::Narrow)
    }

    fn execute_with_u16_operands(context: &mut Context) -> (r: JsResult<CompletionType>) {
        execute_binary(Opcode::BitOr, context, OperandWidth::Medium)
    }

    fn execute_with_u32_operands(context: &mut Context) -> (r: JsResult<CompletionType>) {
        execute_binary(Opcode::BitOr, context, OperandWidth::Wide)
    }
}

/// `BitXor` implements the opcode operation for `Opcode::BitXor`.
///
/// Operation:
///  - Binary `^` operator.
#[derive(Debug, Clone, Copy)]
pub struct BitXor;

impl BitXor {
    /// The family's semantic step: see [`binary_operation`].
    #[verifier::rlimit(100)]
    #[verifier::spinoff_prover]
    pub fn operation(
        output: u32,
        lhs: InstructionOperand,
        rhs: InstructionOperand,
        context: &mut Context,
    ) -> (r: JsResult<CompletionType>)
        requires
            old(context).wf(),
            old(context).vm.has_frame(),
        ensures
            final(context).wf(),
            final(context).vm.has_frame(),
            final(context).vm.frames == old(context).vm.frames,
            final(context).vm.heap == old(context).vm.heap,
            r is Ok ==> r->Ok_0 == CompletionType::Normal,
            ({
                let dst = old(context).vm.frame_spec().rp + output;
                match (
                    resolve_operand(&old(context).vm, lhs),
                    resolve_operand(&old(context).vm, rhs),
                ) {
                    (Some(a), Some(b)) => match binary_result_model(Opcode::BitXor, a, b) {
                        Ok(m) => if dst < old(context).vm.stack@.len() {
                            r is Ok && stack_model(final(context).vm.stack@) == stack_model(
                                old(context).vm.stack@,
                            ).update(dst, m)
                        } else {
                            r is Err && final(context).vm.stack == old(context).vm.stack
                        },
                        Err(k) => {
                            r is Err && r->Err_0.kind_spec() == k
                                && final(context).vm.stack == old(context).vm.stack
                        },
                    },
                    _ => r is Err && final(context).vm.stack == old(context).vm.stack,
                }
            }),
    {
        binary_operation(Opcode::BitXor, output, lhs, rhs, context)
    }
}

impl Operation for BitXor {
    fn name() -> &'static str {
        "BitXor"
    }

    fn cost() -> u8 {
        2
    }

    fn execute(context: &mut Context) -> (r: JsResult<CompletionType>) {
        execute_binary(Opcode::BitXor, context, OperandWidth::Narrow)
    }

    fn execute_with_u16_operands(context: &mut Context) -> (r: JsResult<CompletionType>) {
        execute_binary(Opcode::BitXor, context, OperandWidth::Medium)
    }

    fn execute_with_u32_operands(context: &mut Context) -> (r: JsResult<CompletionType>) {
        execute_binary(Opcode::BitXor, context, OperandWidth::Wide)
    }
}

/// `ShiftLeft` implements the opcode operation for `Opcode::ShiftLeft`.
///
/// Operation:
///  - Binary `<<` operator.
#[derive(Debug, Clone, Copy)]
pub struct ShiftLeft;

impl ShiftLeft {
    /// The family's semantic step: see [`binary_operation`].
    #[verifier::rlimit(100)]
    #[verifier::spinoff_prover]
    pub fn operation(
        output: u32,
        lhs: InstructionOperand,
        rhs: InstructionOperand,
        context: &mut Context,
    ) -> (r: JsResult<CompletionType>)
        requires
            old(context).wf(),
            old(context).vm.has_frame(),
        ensures
            final(context).wf(),
            final(context).vm.has_frame(),
            final(context).vm.frames == old(context).vm.frames,
            final(context).vm.heap == old(context).vm.heap,
            r is Ok ==> r->Ok_0 == CompletionType::Normal,
            ({
                let dst = old(context).vm.frame_spec().rp + output;
                match (
                    resolve_operand(&old(context).vm, lhs),
                    resolve_operand(&old(context).vm, rhs),
                ) {
                    (Some(a), Some(b)) => match binary_result_model(Opcode::ShiftLeft, a, b) {
                        Ok(m) => if dst < old(context).vm.stack@.len() {
                            r is Ok && stack_model(final(context).vm.stack@) == stack_model(
                                old(context).vm.stack@,
                            ).update(dst, m)
                        } else {
                            r is Err && final(context).vm.stack == old(context).vm.stack
                        },
                        Err(k) => {
                            r is Err && r->Err_0.kind_spec() == k
                                && final(context).vm.stack == old(context).vm.stack
                        },
                    },
                    _ => r is Err && final(context).vm.stack == old(context).vm.stack,
                }
            }),
    {
        binary_operation(Opcode::ShiftLeft, output, lhs, rhs, context)
    }
}

impl Operation for ShiftLeft {
    fn name() -> &'static str {
        "ShiftLeft"
    }

    fn cost() -> u8 {
        2
    }

    fn execute(context: &mut Context) -> (r: JsResult<CompletionType>) {
        execute_binary(Opcode::ShiftLeft, context, OperandWidth::Narrow)
    }

    fn execute_with_u16_operands(context: &mut Context) -> (r: JsResult<CompletionType>) {
        execute_binary(Opcode::ShiftLeft, context, OperandWidth::Medium)
    }

    fn execute_with_u32_operands(context: &mut Context) -> (r: JsResult<CompletionType>) {
        execute_binary(Opcode::ShiftLeft, context, OperandWidth::Wide)
    }
}

/// `ShiftRight` implements the opcode operation for `Opcode::ShiftRight`.
///
/// Operation:
///  - Binary `>>` operator.
#[derive(Debug, Clone, Copy)]
pub struct ShiftRight;

impl ShiftRight {
    /// The family's semantic step: see [`binary_operation`].
    #[verifier::rlimit(100)]
    #[verifier::spinoff_prover]
    pub fn operation(
        output: u32,
        lhs: InstructionOperand,
        rhs: InstructionOperand,
        context: &mut Context,
    ) -> (r: JsResult<CompletionType>)
        requires
            old(context).wf(),
            old(context).vm.has_frame(),
        ensures
            final(context).wf(),
            final(context).vm.has_frame(),
            final(context).vm.frames == old(context).vm.frames,
            final(context).vm.heap == old(context).vm.heap,
            r is Ok ==> r->Ok_0 == CompletionType::Normal,
            ({
                let dst = old(context).vm.frame_spec().rp + output;
                match (
                    resolve_operand(&old(context).vm, lhs),
                    resolve_operand(&old(context).vm, rhs),
                ) {
                    (Some(a), Some(b)) => match binary_result_model(Opcode::ShiftRight, a, b) {
                        Ok(m) => if dst < old(context).vm.stack@.len() {
                            r is Ok && stack_model(final(context).vm.stack@) == stack_model(
                                old(context).vm.stack@,
                            ).update(dst, m)
                        } else {
                            r is Err && final(context).vm.stack == old(context).vm.stack
                        },
                        Err(k) => {
                            r is Err && r->Err_0.kind_spec() == k
                                && final(context).vm.stack == old(context).vm.stack
                        },
                    },
                    _ => r is Err && final(context).vm.stack == old(context).vm.stack,
                }
            }),
    {
        binary_operation(Opcode::ShiftRight, output, lhs, rhs, context)
    }
}

impl Operation for ShiftRight {
    fn name() -> &'static str {
        "ShiftRight"
    }

    fn cost() -> u8 {
        2
    }

    fn execute(context: &mut Context) -> (r: JsResult<CompletionType>) {
        execute_binary(Opcode::ShiftRight, context, OperandWidth::Narrow)
    }

    fn execute_with_u16_operands(context: &mut Context) -> (r: JsResult<CompletionType>) {
        execute_binary(Opcode::ShiftRight, context, OperandWidth::Medium)
    }

    fn execute_with_u32_operands(context: &mut Context) -> (r: JsResult<CompletionType>) {
        execute_binary(Opcode::ShiftRight, context, OperandWidth::Wide)
    }
}

/// `UnsignedShiftRight` implements the opcode operation for `Opcode::UnsignedShiftRight`.
///
/// Operation:
///  - Binary `>>>` operator.
#[derive(Debug, Clone, Copy)]
pub struct UnsignedShiftRight;

impl UnsignedShiftRight {
    /// The family's semantic step: see [`binary_operation`].
    #[verifier::rlimit(100)]
    #[verifier::spinoff_prover]
    pub fn operation(
        output: u32,
        lhs: InstructionOperand,
        rhs: InstructionOperand,
        context: &mut Context,
    ) -> (r: JsResult<CompletionType>)
        requires
            old(context).wf(),
            old(context).vm.has_frame(),
        ensures
            final(context).wf(),
            final(context).vm.has_frame(),
            final(context).vm.frames == old(context).vm.frames,
            final(context).vm.heap == old(context).vm.heap,
            r is Ok ==> r->Ok_0 == CompletionType::Normal,
            ({
                let dst = old(context).vm.frame_spec().rp + output;
                match (
                    resolve_operand(&old(context).vm, lhs),
                    resolve_operand(&old(context).vm, rhs),
                ) {
                    (Some(a), Some(b)) => match binary_result_model(Opcode::UnsignedShiftRight, a, b) {
                        Ok(m) => if dst < old(context).vm.stack@.len() {
                            r is Ok && stack_model(final(context).vm.stack@) == stack_model(
                                old(context).vm.stack@,
                            ).update(dst, m)
                        } else {
                            r is Err && final(context).vm.stack == old(context).vm.stack
                        },
                        Err(k) => {
                            r is Err && r->Err_0.kind_spec() == k
                                && final(context).vm.stack == old(context).vm.stack
                        },
                    },
                    _ => r is Err && final(context).vm.stack == old(context).vm.stack,
                }
            }),
    {
        binary_operation(Opcode::UnsignedShiftRight, output, lhs, rhs, context)
    }
}

impl Operation for UnsignedShiftRight {
    fn name() -> &'static str {
        "UnsignedShiftRight"
    }

    fn cost() -> u8 {
        2
    }

    fn execute(context: &mut Context) -> (r: JsResult<CompletionType>) {
        execute_binary(Opcode::UnsignedShiftRight, context, OperandWidth::Narrow)
    }

    fn execute_with_u16_operands(context: &mut Context) -> (r: JsResult<CompletionType>) {
        execute_binary(Opcode::UnsignedShiftRight, context, OperandWidth::Medium)
    }

    fn execute_with_u32_operands(context: &mut Context) -> (r: JsResult<CompletionType>) {
        execute_binary(Opcode::UnsignedShiftRight, context, OperandWidth::Wide)
    }
}

/// `Eq` implements the opcode operation for `Opcode::Eq`.
///
/// Operation:
///  - Binary loose `==` operator.
#[derive(Debug, Clone, Copy)]
pub struct Eq;

impl Eq {
    /// The family's semantic step: see [`binary_operation`].
    #[verifier::rlimit(100)]
    #[verifier::spinoff_prover]
    pub fn operation(
        output: u32,
        lhs: InstructionOperand,
        rhs: InstructionOperand,
        context: &mut Context,
    ) -> (r: JsResult<CompletionType>)
        requires
            old(context).wf(),
            old(context).vm.has_frame(),
        ensures
            final(context).wf(),
            final(context).vm.has_frame(),
            final(context).vm.frames == old(context).vm.frames,
            final(context).vm.heap == old(context).vm.heap,
            r is Ok ==> r->Ok_0 == CompletionType::Normal,
            ({
                let dst = old(context).vm.frame_spec().rp + output;
                match (
                    resolve_operand(&old(context).vm, lhs),
                    resolve_operand(&old(context).vm, rhs),
                ) {
                    (Some(a), Some(b)) => match binary_result_model(Opcode::Eq, a, b) {
                        Ok(m) => if dst < old(context).vm.stack@.len() {
                            r is Ok && stack_model(final(context).vm.stack@) == stack_model(
                                old(context).vm.stack@,
                            ).update(dst, m)
                        } else {
                            r is Err && final(context).vm.stack == old(context).vm.stack
                        },
                        Err(k) => {
                            r is Err && r->Err_0.kind_spec() == k
                                && final(context).vm.stack == old(context).vm.stack
                        },
                    },
                    _ => r is Err && final(context).vm.stack == old(context).vm.stack,
                }
            }),
    {
        binary_operation(Opcode::Eq, output, lhs, rhs, context)
    }
}

impl Operation for Eq {
    fn name() -> &'static str {
        "Eq"
    }

    fn cost() -> u8 {
        2
    }

    fn execute(context: &mut Context) -> (r: JsResult<CompletionType>) {
        execute_binary(Opcode::Eq, context, OperandWidth::Narrow)
    }

    fn execute_with_u16_operands(context: &mut Context) -> (r: JsResult<CompletionType>) {
        execute_binary(Opcode::Eq, context, OperandWidth::Medium)
    }

    fn execute_with_u32_operands(context: &mut Context) -> (r: JsResult<CompletionType>) {
        execute_binary(Opcode::Eq, context, OperandWidth::Wide)
    }
}

/// `NotEq` implements the opcode operation for `Opcode::NotEq`.
///
/// Operation:
///  - Binary loose `!=` operator.
#[derive(Debug, Clone, Copy)]
pub struct NotEq;

impl NotEq {
    /// The family's semantic step: see [`binary_operation`].
    #[verifier::rlimit(100)]
    #[verifier::spinoff_prover]
    pub fn operation(
        output: u32,
        lhs: InstructionOperand,
        rhs: InstructionOperand,
        context: &mut Context,
    ) -> (r: JsResult<CompletionType>)
        requires
            old(context).wf(),
            old(context).vm.has_frame(),
        ensures
            final(context).wf(),
            final(context).vm.has_frame(),
            final(context).vm.frames == old(context).vm.frames,
            final(context).vm.heap == old(context).vm.heap,
            r is Ok ==> r->Ok_0 == CompletionType::Normal,
            ({
                let dst = old(context).vm.frame_spec().rp + output;
                match (
                    resolve_operand(&old(context).vm, lhs),
                    resolve_operand(&old(context).vm, rhs),
                ) {
                    (Some(a), Some(b)) => match binary_result_model(Opcode::NotEq, a, b) {
                        Ok(m) => if dst < old(context).vm.stack@.len() {
                            r is Ok && stack_model(final(context).vm.stack@) == stack_model(
                                old(context).vm.stack@,
                            ).update(dst, m)
                        } else {
                            r is Err && final(context).vm.stack == old(context).vm.stack
                        },
                        Err(k) => {
                            r is Err && r->Err_0.kind_spec() == k
                                && final(context).vm.stack == old(context).vm.stack
                        },
                    },
                    _ => r is Err && final(context).vm.stack == old(context).vm.stack,
                }
            }),
    {
        binary_operation(Opcode::NotEq, output, lhs, rhs, context)
    }
}

impl Operation for NotEq {
    fn name() -> &'static str {
        "NotEq"
    }

    fn cost() -> u8 {
        2
    }

    fn execute(context: &mut Context) -> (r: JsResult<CompletionType>) {
        execute_binary(Opcode::NotEq, context, OperandWidth::Narrow)
    }

    fn execute_with_u16_operands(context: &mut Context) -> (r: JsResult<CompletionType>) {
        execute_binary(Opcode::NotEq, context, OperandWidth::Medium)
    }

    fn execute_with_u32_operands(context: &mut Context) -> (r: JsResult<CompletionType>) {
        execute_binary(Opcode::NotEq, context, OperandWidth::Wide)
    }
}

/// `StrictEq` implements the opcode operation for `Opcode::StrictEq`.
///
/// Operation:
///  - Binary `===` operator.
#[derive(Debug, Clone, Copy)]
pub struct StrictEq;

impl StrictEq {
    /// The family's semantic step: see [`binary_operation`].
    #[verifier::rlimit(100)]
    #[verifier::spinoff_prover]
    pub fn operation(
        output: u32,
        lhs: InstructionOperand,
        rhs: InstructionOperand,
        context: &mut Context,
    ) -> (r: JsResult<CompletionType>)
        requires
            old(context).wf(),
            old(context).vm.has_frame(),
        ensures
            final(context).wf(),
            final(context).vm.has_frame(),
            final(context).vm.frames == old(context).vm.frames,
            final(context).vm.heap == old(context).vm.heap,
            r is Ok ==> r->Ok_0 == CompletionType::Normal,
            ({
                let dst = old(context).vm.frame_spec().rp + output;
                match (
                    resolve_operand(&old(context).vm, lhs),
                    resolve_operand(&old(context).vm, rhs),
                ) {
                    (Some(a), Some(b)) => match binary_result_model(Opcode::StrictEq, a, b) {
                        Ok(m) => if dst < old(context).vm.stack@.len() {
                            r is Ok && stack_model(final(context).vm.stack@) == stack_model(
                                old(context).vm.stack@,
                            ).update(dst, m)
                        } else {
                            r is Err && final(context).vm.stack == old(context).vm.stack
                        },
                        Err(k) => {
                            r is Err && r->Err_0.kind_spec() == k
                                && final(context).vm.stack == old(context).vm.stack
                        },
                    },
                    _ => r is Err && final(context).vm.stack == old(context).vm.stack,
                }
            }),
    {
        binary_operation(Opcode::StrictEq, output, lhs, rhs, context)
    }
}

impl Operation for StrictEq {
    fn name() -> &'static str {
        "StrictEq"
    }

    fn cost() -> u8 {
        2
    }

    fn execute(context: &mut Context) -> (r: JsResult<CompletionType>) {
        execute_binary(Opcode::StrictEq, context, OperandWidth::Narrow)
    }

    fn execute_with_u16_operands(context: &mut Context) -> (r: JsResult<CompletionType>) {
        execute_binary(Opcode::StrictEq, context, OperandWidth::Medium)
    }

    fn execute_with_u32_operands(context: &mut Context) -> (r: JsResult<CompletionType>) {
        execute_binary(Opcode::StrictEq, context, OperandWidth::Wide)
    }
}

/// `StrictNotEq` implements the opcode operation for `Opcode::StrictNotEq`.
///
/// Operation:
///  - Binary `!==` operator.
#[derive(Debug, Clone, Copy)]
pub struct StrictNotEq;

impl StrictNotEq {
    /// The family's semantic step: see [`binary_operation`].
    #[verifier::rlimit(100)]
    #[verifier::spinoff_prover]
    pub fn operation(
        output: u32,
        lhs: InstructionOperand,
        rhs: InstructionOperand,
        context: &mut Context,
    ) -> (r: JsResult<CompletionType>)
        requires
            old(context).wf(),
            old(context).vm.has_frame(),
        ensures
            final(context).wf(),
            final(context).vm.has_frame(),
            final(context).vm.frames == old(context).vm.frames,
            final(context).vm.heap == old(context).vm.heap,
            r is Ok ==> r->Ok_0 == CompletionType::Normal,
            ({
                let dst = old(context).vm.frame_spec().rp + output;
                match (
                    resolve_operand(&old(context).vm, lhs),
                    resolve_operand(&old(context).vm, rhs),
                ) {
                    (Some(a), Some(b)) => match binary_result_model(Opcode::StrictNotEq, a, b) {
                        Ok(m) => if dst < old(context).vm.stack@.len() {
                            r is Ok && stack_model(final(context).vm.stack@) == stack_model(
                                old(context).vm.stack@,
                            ).update(dst, m)
                        } else {
                            r is Err && final(context).vm.stack == old(context).vm.stack
                        },
                        Err(k) => {
                            r is Err && r->Err_0.kind_spec() == k
                                && final(context).vm.stack == old(context).vm.stack
                        },
                    },
                    _ => r is Err && final(context).vm.stack == old(context).vm.stack,
                }
            }),
    {
        binary_operation(Opcode::StrictNotEq, output, lhs, rhs, context)
    }
}

impl Operation for StrictNotEq {
    fn name() -> &'static str {
        "StrictNotEq"
    }

    fn cost() -> u8 {
        2
    }

    fn execute(context: &mut Context) -> (r: JsResult<CompletionType>) {
        execute_binary(Opcode::StrictNotEq, context, OperandWidth::Narrow)
    }

    fn execute_with_u16_operands(context: &mut Context) -> (r: JsResult<CompletionType>) {
        execute_binary(Opcode::StrictNotEq, context, OperandWidth::Medium)
    }

    fn execute_with_u32_operands(context: &mut Context) -> (r: JsResult<CompletionType>) {
        execute_binary(Opcode::StrictNotEq, context, OperandWidth::Wide)
    }
}

/// `GreaterThan` implements the opcode operation for `Opcode::GreaterThan`.
///
/// Operation:
///  - Binary `>` operator.
#[derive(Debug, Clone, Copy)]
pub struct GreaterThan;

impl GreaterThan {
    /// The family's semantic step: see [`binary_operation`].
    #[verifier::rlimit(100)]
    #[verifier::spinoff_prover]
    pub fn operation(
        output: u32,
        lhs: InstructionOperand,
        rhs: InstructionOperand,
        context: &mut Context,
    ) -> (r: JsResult<CompletionType>)
        requires
            old(context).wf(),
            old(context).vm.has_frame(),
        ensures
            final(context).wf(),
            final(context).vm.has_frame(),
            final(context).vm.frames == old(context).vm.frames,
            final(context).vm.heap == old(context).vm.heap,
            r is Ok ==> r->Ok_0 == CompletionType::Normal,
            ({
                let dst = old(context).vm.frame_spec().rp + output;
                match (
                    resolve_operand(&old(context).vm, lhs),
                    resolve_operand(&old(context).vm, rhs),
                ) {
                    (Some(a), Some(b)) => match binary_result_model(Opcode::GreaterThan, a, b) {
                        Ok(m) => if dst < old(context).vm.stack@.len() {
                            r is Ok && stack_model(final(context).vm.stack@) == stack_model(
                                old(context).vm.stack@,
                            ).update(dst, m)
                        } else {
                            r is Err && final(context).vm.stack == old(context).vm.stack
                        },
                        Err(k) => {
                            r is Err && r->Err_0.kind_spec() == k
                                && final(context).vm.stack == old(context).vm.stack
                        },
                    },
                    _ => r is Err && final(context).vm.stack == old(context).vm.stack,
                }
            }),
    {
        binary_operation(Opcode::GreaterThan, output, lhs, rhs, context)
    }
}

impl Operation for GreaterThan {
    fn name() -> &'static str {
        "GreaterThan"
    }

    fn cost() -> u8 {
        2
    }

    fn execute(context: &mut Context) -> (r: JsResult<CompletionType>) {
        execute_binary(Opcode::GreaterThan, context, OperandWidth::Narrow)
    }

    fn execute_with_u16_operands(context: &mut Context) -> (r: JsResult<CompletionType>) {
        execute_binary(Opcode::GreaterThan, context, OperandWidth::Medium)
    }

    fn execute_with_u32_operands(context: &mut Context) -> (r: JsResult<CompletionType>) {
        execute_binary(Opcode::GreaterThan, context, OperandWidth::Wide)
    }
}

/// `GreaterThanOrEq` implements the opcode operation for `Opcode::GreaterThanOrEq`.
///
/// Operation:
///  - Binary `>=` operator.
#[derive(Debug, Clone, Copy)]
pub struct GreaterThanOrEq;

impl GreaterThanOrEq {
    /// The family's semantic step: see [`binary_operation`].
    #[verifier::rlimit(100)]
    #[verifier::spinoff_prover]
    pub fn operation(
        output: u32,
        lhs: InstructionOperand,
        rhs: InstructionOperand,
        context: &mut Context,
    ) -> (r: JsResult<CompletionType>)
        requires
            old(context).wf(),
            old(context).vm.has_frame(),
        ensures
            final(context).wf(),
            final(context).vm.has_frame(),
            final(context).vm.frames == old(context).vm.frames,
            final(context).vm.heap == old(context).vm.heap,
            r is Ok ==> r->Ok_0 == CompletionType::Normal,
            ({
                let dst = old(context).vm.frame_spec().rp + output;
                match (
                    resolve_operand(&old(context).vm, lhs),
                    resolve_operand(&old(context).vm, rhs),
                ) {
                    (Some(a), Some(b)) => match binary_result_model(Opcode::GreaterThanOrEq, a, b) {
                        Ok(m) => if dst < old(context).vm.stack@.len() {
                            r is Ok && stack_model(final(context).vm.stack@) == stack_model(
                                old(context).vm.stack@,
                            ).update(dst, m)
                        } else {
                            r is Err && final(context).vm.stack == old(context).vm.stack
                        },
                        Err(k) => {
                            r is Err && r->Err_0.kind_spec() == k
                                && final(context).vm.stack == old(context).vm.stack
                        },
                    },
                    _ => r is Err && final(context).vm.stack == old(context).vm.stack,
                }
            }),
    {
        binary_operation(Opcode::GreaterThanOrEq, output, lhs, rhs, context)
    }
}

impl Operation for GreaterThanOrEq {
    fn name() -> &'static str {
        "GreaterThanOrEq"
    }

    fn cost() -> u8 {
        2
    }

    fn execute(context: &mut Context) -> (r: JsResult<CompletionType>) {
        execute_binary(Opcode::GreaterThanOrEq, context, OperandWidth::Narrow)
    }

    fn execute_with_u16_operands(context: &mut Context) -> (r: JsResult<CompletionType>) {
        execute_binary(Opcode::GreaterThanOrEq, context, OperandWidth::Medium)
    }

    fn execute_with_u32_operands(context: &mut Context) -> (r: JsResult<CompletionType>) {
        execute_binary(Opcode::GreaterThanOrEq, context, OperandWidth::Wide)
    }
}

/// `LessThan` implements the opcode operation for `Opcode::LessThan`.
///
/// Operation:
///  - Binary `<` operator.
#[derive(Debug, Clone, Copy)]
pub struct LessThan;

impl LessThan {
    /// The family's semantic step: see [`binary_operation`].
    #[verifier::rlimit(100)]
    #[verifier::spinoff_prover]
    pub fn operation(
        output: u32,
        lhs: InstructionOperand,
        rhs: InstructionOperand,
        context: &mut Context,
    ) -> (r: JsResult<CompletionType>)
        requires
            old(context).wf(),
            old(context).vm.has_frame(),
        ensures
            final(context).wf(),
            final(context).vm.has_frame(),
            final(context).vm.frames == old(context).vm.frames,
            final(context).vm.heap == old(context).vm.heap,
            r is Ok ==> r->Ok_0 == CompletionType::Normal,
            ({
                let dst = old(context).vm.frame_spec().rp + output;
                match (
                    resolve_operand(&old(context).vm, lhs),
                    resolve_operand(&old(context).vm, rhs),
                ) {
                    (Some(a), Some(b)) => match binary_result_model(Opcode::LessThan, a, b) {
                        Ok(m) => if dst < old(context).vm.stack@.len() {
                            r is Ok && stack_model(final(context).vm.stack@) == stack_model(
                                old(context).vm.stack@,
                            ).update(dst, m)
                        } else {
                            r is Err && final(context).vm.stack == old(context).vm.stack
                        },
                        Err(k) => {
                            r is Err && r->Err_0.kind_spec() == k
                                && final(context).vm.stack == old(context).vm.stack
                        },
                    },
                    _ => r is Err && final(context).vm.stack == old(context).vm.stack,
                }
            }),
    {
        binary_operation(Opcode::LessThan, output, lhs, rhs, context)
    }
}

impl Operation for LessThan {
    fn name() -> &'static str {
        "LessThan"
    }

    fn cost() -> u8 {
        2
    }

    fn execute(context: &mut Context) -> (r: JsResult<CompletionType>) {
        execute_binary(Opcode::LessThan, context, OperandWidth::Narrow)
    }

    fn execute_with_u16_operands(context: &mut Context) -> (r: JsResult<CompletionType>) {
        execute_binary(Opcode::LessThan, context, OperandWidth::Medium)
    }

    fn execute_with_u32_operands(context: &mut Context) -> (r: JsResult<CompletionType>) {
        execute_binary(Opcode::LessThan, context, OperandWidth::Wide)
    }
}

/// `LessThanOrEq` implements the opcode operation for `Opcode::LessThanOrEq`.
///
/// Operation:
///  - Binary `<=` operator.
#[derive(Debug, Clone, Copy)]
pub struct LessThanOrEq;

impl LessThanOrEq {
    /// The family's semantic step: see [`binary_operation`].
    #[verifier::rlimit(100)]
    #[verifier::spinoff_prover]
    pub fn operation(
        output: u32,
        lhs: InstructionOperand,
        rhs: InstructionOperand,
        context: &mut Context,
    ) -> (r: JsResult<CompletionType>)
        requires
            old(context).wf(),
            old(context).vm.has_frame(),
        ensures
            final(context).wf(),
            final(context).vm.has_frame(),
            final(context).vm.frames == old(context).vm.frames,
            final(context).vm.heap == old(context).vm.heap,
            r is Ok ==> r->Ok_0 == CompletionType::Normal,
            ({
                let dst = old(context).vm.frame_spec().rp + output;
                match (
                    resolve_operand(&old(context).vm, lhs),
                    resolve_operand(&old(context).vm, rhs),
                ) {
                    (Some(a), Some(b)) => match binary_result_model(Opcode::LessThanOrEq, a, b) {
                        Ok(m) => if dst < old(context).vm.stack@.len() {
                            r is Ok && stack_model(final(context).vm.stack@) == stack_model(
                                old(context).vm.stack@,
                            ).update(dst, m)
                        } else {
                            r is Err && final(context).vm.stack == old(context).vm.stack
                        },
                        Err(k) => {
                            r is Err && r->Err_0.kind_spec() == k
                                && final(context).vm.stack == old(context).vm.stack
                        },
                    },
                    _ => r is Err && final(context).vm.stack == old(context).vm.stack,
                }
            }),
    {
        binary_operation(Opcode::LessThanOrEq, output, lhs, rhs, context)
    }
}

impl Operation for LessThanOrEq {
    fn name() -> &'static str {
        "LessThanOrEq"
    }

    fn cost() -> u8 {
        2
    }

    fn execute(context: &mut Context) -> (r: JsResult<CompletionType>) {
        execute_binary(Opcode::LessThanOrEq, context, OperandWidth::Narrow)
    }

    fn execute_with_u16_operands(context: &mut Context) -> (r: JsResult<CompletionType>) {
        execute_binary(Opcode::LessThanOrEq, context, OperandWidth::Medium)
    }

    fn execute_with_u32_operands(context: &mut Context) -> (r: JsResult<CompletionType>) {
        execute_binary(Opcode::LessThanOrEq, context, OperandWidth::Wide)
    }
}


/// The relational `instanceof` result on two value models against a heap:
/// the right operand must be a function object whose `prototype` property
/// holds an object; the result says whether that object lies on the left
/// operand's prototype chain.
pub open spec fn instanceof_model(heap: &crate::object::Heap, a: ValueModel, b: ValueModel)
    -> Result<bool, ErrorKind> {
    match b {
        ValueModel::Obj(hb) => if !heap.valid_handle(hb) || !heap.obj(hb).function {
            Err(ErrorKind::Type)
        } else {
            match heap.chain_lookup(
                hb,
                crate::object::KeyModel::Str(crate::string::utf16_of("prototype"@)),
            ) {
                Some(d) => match d.value {
                    ValueModel::Obj(p) => match a {
                        ValueModel::Obj(ha) => Ok(
                            crate::object::in_proto_chain(heap, ha, p),
                        ),
                        _ => Ok(false),
                    },
                    _ => Err(ErrorKind::Type),
                },
                None => Err(ErrorKind::Type),
            }
        },
        _ => Err(ErrorKind::Type),
    }
}

/// `In` implements the opcode operation for `Opcode::In`.
///
/// Operation:
///  - Binary `in` operation.
#[derive(Debug, Clone, Copy)]
pub struct In;

impl In {
    /// Tests whether a property key is present on an object or its
    /// prototype chain.
    ///
    /// The right operand is checked first: when it is not an object, the
    /// type error is raised before any conversion of the left operand, so
    /// left-operand coercion effects never run for an invalid right
    /// operand.
    #[verifier::rlimit(100)]
    #[verifier::spinoff_prover]
    pub fn operation(
        output: u32,
        lhs: InstructionOperand,
        rhs: InstructionOperand,
        context: &mut Context,
    ) -> (r: JsResult<CompletionType>)
        requires
            old(context).wf(),
            old(context).vm.has_frame(),
        ensures
            final(context).wf(),
            final(context).vm.has_frame(),
            final(context).vm.frames == old(context).vm.frames,
            final(context).vm.heap == old(context).vm.heap,
            r is Ok ==> r->Ok_0 == CompletionType::Normal,
            ({
                let dst = old(context).vm.frame_spec().rp + output;
                match resolve_operand(&old(context).vm, rhs) {
                    None => {
                        r is Err && r->Err_0.kind_spec() == ErrorKind::Internal
                            && final(context).vm.stack == old(context).vm.stack
                    },
                    Some(b) => if !(b is Obj) {
                        r is Err && r->Err_0.kind_spec() == ErrorKind::Type
                            && r->Err_0.message_spec()
                            == "right-hand side of 'in' should be an object, got `"@
                            + crate::value::type_name_model(b) + "`"@
                            && final(context).vm.stack == old(context).vm.stack
                    } else {
                        match resolve_operand(&old(context).vm, lhs) {
                            None => {
                                r is Err && r->Err_0.kind_spec() == ErrorKind::Internal
                                    && final(context).vm.stack == old(context).vm.stack
                            },
                            Some(a) => match crate::object::to_property_key_model(a) {
                                Err(k) => {
                                    r is Err && r->Err_0.kind_spec() == k
                                        && final(context).vm.stack == old(context).vm.stack
                                },
                                Ok(key) => if dst < old(context).vm.stack@.len() {
                                    r is Ok && stack_model(final(context).vm.stack@)
                                        == stack_model(old(context).vm.stack@).update(
                                        dst,
                                        ValueModel::Bool(
                                            old(context).vm.heap.chain_has(b->Obj_0, key),
                                        ),
                                    )
                                } else {
                                    r is Err && r->Err_0.kind_spec() == ErrorKind::Internal
                                        && final(context).vm.stack == old(context).vm.stack
                                },
                            },
                        }
                    },
                }
            }),
    {
        let rp = context.vm.frame().rp;
        let rhs_value = match rhs.to_value(&context.vm) {
            Some(v) => v,
            None => {
                return Err(JsError::internal_error("binary operand out of bounds"));
            }
        };
        let target = match rhs_value {
            JsValue::Object(o) => o,
            _ => {
                return Err(
                    JsError::type_error3(
                        "right-hand side of 'in' should be an object, got `",
                        rhs_value.type_of(),
                        "`",
                    ),
                );
            }
        };
        let lhs_value = match lhs.to_value(&context.vm) {
            Some(v) => v,
            None => {
                return Err(JsError::internal_error("binary operand out of bounds"));
            }
        };
        let key = match crate::object::to_property_key(&lhs_value) {
            Ok(k) => k,
            Err(e) => {
                return Err(e);
            }
        };
        let dst: u64 = (rp as u64) + (output as u64);
        let n = context.vm.stack.len();
        if dst >= n as u64 {
            return Err(JsError::internal_error("binary output register out of bounds"));
        }
        let present = context.vm.heap.has_property(target.handle, &key);
        context.vm.stack_set(dst as usize, JsValue::Boolean(present));
        Ok(CompletionType::Normal)
    }
}

impl Operation for In {
    fn name() -> &'static str {
        "In"
    }

    fn cost() -> u8 {
        3
    }

    fn execute(context: &mut Context) -> (r: JsResult<CompletionType>) {
        match read_binary_operands(context, OperandWidth::Narrow) {
            Some((output, lhs, rhs)) => Self::operation(output, lhs, rhs, context),
            None => Err(JsError::internal_error("truncated binary instruction")),
        }
    }

    fn execute_with_u16_operands(context: &mut Context) -> (r: JsResult<CompletionType>) {
        match read_binary_operands(context, OperandWidth::Medium) {
            Some((output, lhs, rhs)) => Self::operation(output, lhs, rhs, context),
            None => Err(JsError::internal_error("truncated binary instruction")),
        }
    }

    fn execute_with_u32_operands(context: &mut Context) -> (r: JsResult<CompletionType>) {
        match read_binary_operands(context, OperandWidth::Wide) {
            Some((output, lhs, rhs)) => Self::operation(output, lhs, rhs, context),
            None => Err(JsError::internal_error("truncated binary instruction")),
        }
    }
}

/// `InstanceOf` implements the opcode operation for `Opcode::InstanceOf`.
///
/// Operation:
///  - Binary `instanceof` operation.
#[derive(Debug, Clone, Copy)]
pub struct InstanceOf;

impl InstanceOf {
    /// Tests whether the right operand's `prototype` object lies on the
    /// left operand's prototype chain.
    #[verifier::rlimit(100)]
    #[verifier::spinoff_prover]
    pub fn operation(
        output: u32,
        lhs: InstructionOperand,
        rhs: InstructionOperand,
        context: &mut Context,
    ) -> (r: JsResult<CompletionType>)
        requires
            old(context).wf(),
            old(context).vm.has_frame(),
        ensures
            final(context).wf(),
            final(context).vm.has_frame(),
            final(context).vm.frames == old(context).vm.frames,
            final(context).vm.heap == old(context).vm.heap,
            r is Ok ==> r->Ok_0 == CompletionType::Normal,
            ({
                let dst = old(context).vm.frame_spec().rp + output;
                match (
                    resolve_operand(&old(context).vm, lhs),
                    resolve_operand(&old(context).vm, rhs),
                ) {
                    (Some(a), Some(b)) => match instanceof_model(&old(context).vm.heap, a, b) {
                        Ok(v) => if dst < old(context).vm.stack@.len() {
                            r is Ok && stack_model(final(context).vm.stack@) == stack_model(
                                old(context).vm.stack@,
                            ).update(dst, ValueModel::Bool(v))
                        } else {
                            r is Err && r->Err_0.kind_spec() == ErrorKind::Internal
                                && final(context).vm.stack == old(context).vm.stack
                        },
                        Err(k) => {
                            r is Err && r->Err_0.kind_spec() == k
                                && final(context).vm.stack == old(context).vm.stack
                        },
                    },
                    _ => {
                        r is Err && r->Err_0.kind_spec() == ErrorKind::Internal
                            && final(context).vm.stack == old(context).vm.stack
                    },
                }
            }),
    {
        let rp = context.vm.frame().rp;
        let lhs_value = match lhs.to_value(&context.vm) {
            Some(v) => v,
            None => {
                return Err(JsError::internal_error("binary operand out of bounds"));
            }
        };
        let rhs_value = match rhs.to_value(&context.vm) {
            Some(v) => v,
            None => {
                return Err(JsError::internal_error("binary operand out of bounds"));
            }
        };
        let target = match rhs_value {
            JsValue::Object(o) => o,
            _ => {
                return Err(
                    JsError::type_error("right-hand side of 'instanceof' is not an object"),
                );
            }
        };
        if !context.vm.heap.is_function(target.handle) {
            return Err(JsError::type_error("right-hand side of 'instanceof' is not callable"));
        }
        let key = crate::object::PropertyKey::Str(crate::string::utf16_from_str("prototype"));
        let proto_value = match context.vm.heap.get_property(target.handle, &key) {
            Some(d) => d.value,
            None => {
                return Err(
                    JsError::type_error("right-hand side of 'instanceof' has no prototype object"),
                );
            }
        };
        let proto = match proto_value {
            JsValue::Object(o) => o,
            _ => {
                return Err(
                    JsError::type_error("right-hand side of 'instanceof' has no prototype object"),
                );
            }
        };
        let result = match lhs_value {
            JsValue::Object(o) => {
                proof {
                    context.vm.heap.lemma_chain_lookup_ok(target.handle as int, key@);
                }
                context.vm.heap.proto_chain_contains(o.handle, proto.handle)
            }
            _ => false,
        };
        let dst: u64 = (rp as u64) + (output as u64);
        let n = context.vm.stack.len();
        if dst >= n as u64 {
            return Err(JsError::internal_error("binary output register out of bounds"));
        }
        context.vm.stack_set(dst as usize, JsValue::Boolean(result));
        Ok(CompletionType::Normal)
    }
}

impl Operation for InstanceOf {
    fn name() -> &'static str {
        "InstanceOf"
    }

    fn cost() -> u8 {
        3
    }

    fn execute(context: &mut Context) -> (r: JsResult<CompletionType>) {
        match read_binary_operands(context, OperandWidth::Narrow) {
            Some((output, lhs, rhs)) => Self::operation(output, lhs, rhs, context),
            None => Err(JsError::internal_error("truncated binary instruction")),
        }
    }

    fn execute_with_u16_operands(context: &mut Context) -> (r: JsResult<CompletionType>) {
        match read_binary_operands(context, OperandWidth::Medium) {
            Some((output, lhs, rhs)) => Self::operation(output, lhs, rhs, context),
            None => Err(JsError::internal_error("truncated binary instruction")),
        }
    }

    fn execute_with_u32_operands(context: &mut Context) -> (r: JsResult<CompletionType>) {
        match read_binary_operands(context, OperandWidth::Wide) {
            Some((output, lhs, rhs)) => Self::operation(output, lhs, rhs, context),
            None => Err(JsError::internal_error("truncated binary instruction")),
        }
    }
}


/// `InPrivate` implements the opcode operation for `Opcode::InPrivate`.
///
/// Operation:
///  - Binary `in` operation for private names.
#[derive(Debug, Clone, Copy)]
pub struct InPrivate;

impl InPrivate {
    /// Tests whether the private name at a pool index is installed on the
    /// object popped from the evaluation stack.
    ///
    /// The name must be bound in the private environment; an unbound name
    /// or a missing pool entry is an internal defect.
    #[verifier::rlimit(100)]
    #[verifier::spinoff_prover]
    pub fn operation(context: &mut Context, index: usize) -> (r: JsResult<CompletionType>)
        requires
            old(context).wf(),
            old(context).vm.has_frame(),
        ensures
            final(context).wf(),
            final(context).vm.has_frame(),
            final(context).vm.frames == old(context).vm.frames,
            final(context).vm.heap == old(context).vm.heap,
            r is Ok ==> r->Ok_0 == CompletionType::Normal,
            ({
                let f = old(context).vm.frame_spec();
                let s0 = stack_model(old(context).vm.stack@);
                if index >= f.code.names@.len() || old(context).vm.stack@.len()
                    <= crate::vm::window_end(f) {
                    r is Err && r->Err_0.kind_spec() == ErrorKind::Internal
                        && final(context).vm.stack == old(context).vm.stack
                } else {
                    let name = f.code.names@[index as int]@;
                    match s0.last() {
                        ValueModel::Obj(h) => match crate::vm::resolve_private_model(
                            old(context).private_environment@,
                            name,
                        ) {
                            Some(id) => {
                                r is Ok && stack_model(final(context).vm.stack@) == s0.update(
                                    s0.len() - 1,
                                    ValueModel::Bool(
                                        old(context).vm.heap.obj(h).private_names.contains(id),
                                    ),
                                )
                            },
                            None => {
                                r is Err && r->Err_0.kind_spec() == ErrorKind::Internal
                                    && stack_model(final(context).vm.stack@) == s0.drop_last()
                            },
                        },
                        _ => {
                            r is Err && r->Err_0.kind_spec() == ErrorKind::Type
                                && r->Err_0.message_spec()
                                == "right-hand side of 'in' should be an object, got `"@
                                + crate::value::type_name_model(s0.last()) + "`"@
                                && stack_model(final(context).vm.stack@) == s0.drop_last()
                        },
                    }
                }
            }),
    {
        let name = {
            let f = context.vm.frame();
            match f.code.constant_string(index) {
                Some(n) => n,
                None => {
                    return Err(JsError::internal_error("private name index out of bounds"));
                }
            }
        };
        let we = {
            let f = context.vm.frame();
            let rc: u64 = f.code.register_count as u64;
            (f.rp as u64) + rc
        };
        if context.vm.stack.len() as u64 <= we {
            return Err(JsError::internal_error("evaluation stack is empty"));
        }
        let rhs = context.vm.pop();
        let target = match rhs {
            JsValue::Object(o) => o,
            _ => {
                return Err(
                    JsError::type_error3(
                        "right-hand side of 'in' should be an object, got `",
                        rhs.type_of(),
                        "`",
                    ),
                );
            }
        };
        let id = match context.resolve_private_identifier(&name) {
            Some(id) => id,
            None => {
                return Err(JsError::internal_error("private name must be in environment"));
            }
        };
        let present = context.vm.heap.has_private_name(target.handle, id);
        context.vm.push(JsValue::Boolean(present));
        proof {
            let s0 = stack_model(old(context).vm.stack@);
            assert(stack_model(final(context).vm.stack@) =~= s0.update(
                s0.len() - 1,
                ValueModel::Bool(present),
            ));
        }
        Ok(CompletionType::Normal)
    }
}

impl Operation for InPrivate {
    fn name() -> &'static str {
        "InPrivate"
    }

    fn cost() -> u8 {
        4
    }

    fn execute(context: &mut Context) -> (r: JsResult<CompletionType>) {
        match context.vm.read_operand(OperandWidth::Narrow) {
            Some(index) => Self::operation(context, index as usize),
            None => Err(JsError::internal_error("truncated instruction")),
        }
    }

    fn execute_with_u16_operands(context: &mut Context) -> (r: JsResult<CompletionType>) {
        match context.vm.read_operand(OperandWidth::Medium) {
            Some(index) => Self::operation(context, index as usize),
            None => Err(JsError::internal_error("truncated instruction")),
        }
    }

    fn execute_with_u32_operands(context: &mut Context) -> (r: JsResult<CompletionType>) {
        match context.vm.read_operand(OperandWidth::Wide) {
            Some(index) => Self::operation(context, index as usize),
            None => Err(JsError::internal_error("truncated instruction")),
        }
    }
}

} // verus!
