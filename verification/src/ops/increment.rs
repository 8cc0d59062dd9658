//! The numeric-coercion and increment family.
//!
//! `Inc` must always run after a `ToNumeric` step on the same register: the
//! coercion may observe side effects exactly once, while the increment
//! itself takes the integer fast path below the safe bound or exact
//! arbitrary-precision addition, never losing precision.

use vstd::prelude::*;
use crate::codec::OperandWidth;
use crate::error::{ErrorKind, JsError, JsResult};
use crate::ops::Operation;
use crate::value::{max_safe_integer, to_numeric_model, JsValue, Numeric, ValueModel};
use crate::vm::{stack_model, window_end, CompletionType, Context};

verus! {

/// The value `Inc` writes for a numeric input: the successor, with the
/// integer fast path confined below the safe bound and big integers exact
/// at any size. A non-numeric input marks a compiler defect, since a
/// `ToNumeric` step always runs first.
pub open spec fn inc_model(m: ValueModel) -> Result<ValueModel, ErrorKind> {
    match m {
        ValueModel::Int(n) => if n < max_safe_integer() {
            Ok(ValueModel::Int(n + 1))
        } else {
            Err(ErrorKind::Range)
        },
        ValueModel::Big(n) => Ok(ValueModel::Big(n + 1)),
        _ => Err(ErrorKind::Internal),
    }
}

/// `ToNumeric` implements the opcode operation for `Opcode::ToNumeric`.
///
/// Operation:
///  - Coerce a register's value to a numeric value.
#[derive(Debug, Clone, Copy)]
pub struct ToNumeric;

impl ToNumeric {
    /// Coerces the source register's value to a numeric value and stores
    /// it in the destination register.
    #[verifier::rlimit(100)]
    #[verifier::spinoff_prover]
    pub fn operation(src: u32, dst: u32, context: &mut Context) -> (r: JsResult<CompletionType>)
        requires
            old(context).wf(),
            old(context).vm.has_frame(),
        ensures
            final(context).wf(),
            final(context).vm.has_frame(),
            final(context).vm.frames == old(context).vm.frames,
            final(context).vm.heap == old(context).vm.heap,
            r is Ok ==> r->Ok_0 == CompletionType::Normal,
            ({
                let rp = old(context).vm.frame_spec().rp;
                let s0 = stack_model(old(context).vm.stack@);
                if rp + src >= s0.len() {
                    r is Err && r->Err_0.kind_spec() == ErrorKind::Internal
                        && final(context).vm.stack == old(context).vm.stack
                } else {
                    match to_numeric_model(s0[rp + src]) {
                        Ok(m) => if rp + dst < s0.len() {
                            r is Ok && stack_model(final(context).vm.stack@) == s0.update(
                                rp + dst,
                                m,
                            )
                        } else {
                            r is Err && r->Err_0.kind_spec() == ErrorKind::Internal
                                && final(context).vm.stack == old(context).vm.stack
                        },
                        Err(k) => r is Err && r->Err_0.kind_spec() == k
                            && final(context).vm.stack == old(context).vm.stack,
                    }
                }
            }),
    {
        let rp = context.vm.frame().rp;
        let si: u64 = (rp as u64) + (src as u64);
        let di: u64 = (rp as u64) + (dst as u64);
        let n = context.vm.stack.len();
        if si >= n as u64 {
            return Err(JsError::internal_error("source register out of bounds"));
        }
        let value = context.vm.stack_at(si as usize);
        let numeric = match value.to_numeric() {
            Ok(v) => v,
            Err(e) => {
                return Err(e);
            }
        };
        if di >= n as u64 {
            return Err(JsError::internal_error("destination register out of bounds"));
        }
        let stored = match numeric {
            Numeric::Number(v) => JsValue::Integer(v),
            Numeric::BigInt(b) => JsValue::BigInt(b),
        };
        context.vm.stack_set(di as usize, stored);
        Ok(CompletionType::Normal)
    }
}

impl Operation for ToNumeric {
    fn name() -> &'static str {
        "ToNumeric"
    }

    fn cost() -> u8 {
        3
    }

    fn execute(context: &mut Context) -> (r: JsResult<CompletionType>) {
        let dst = match context.vm.read_operand(OperandWidth::Narrow) {
            Some(v) => v,
            None => {
                return Err(JsError::internal_error("truncated instruction"));
            }
        };
        let src = match context.vm.read_operand(OperandWidth::Narrow) {
            Some(v) => v,
            None => {
                return Err(JsError::internal_error("truncated instruction"));
            }
        };
        Self::operation(src, dst, context)
    }

    fn execute_with_u16_operands(context: &mut Context) -> (r: JsResult<CompletionType>) {
        let dst = match context.vm.read_operand(OperandWidth::Medium) {
            Some(v) => v,
            None => {
                return Err(JsError::internal_error("truncated instruction"));
            }
        };
        let src = match context.vm.read_operand(OperandWidth::Medium) {
            Some(v) => v,
            None => {
                return Err(JsError::internal_error("truncated instruction"));
            }
        };
        Self::operation(src, dst, context)
    }

    fn execute_with_u32_operands(context: &mut Context) -> (r: JsResult<CompletionType>) {
        let dst = match context.vm.read_operand(OperandWidth::Wide) {
            Some(v) => v,
            None => {
                return Err(JsError::internal_error("truncated instruction"));
            }
        };
        let src = match context.vm.read_operand(OperandWidth::Wide) {
            Some(v) => v,
            None => {
                return Err(JsError::internal_error("truncated instruction"));
            }
        };
        Self::operation(src, dst, context)
    }
}

/// `Inc` implements the opcode operation for `Opcode::Inc`.
///
/// Operation:
///  - Unary `++` operator.
#[derive(Debug, Clone, Copy)]
pub struct Inc;

impl Inc {
    /// Increments the numeric value in the source register into the
    /// destination register.
    ///
    /// The compiler always emits a `ToNumeric` step first, so the source
    /// holds a numeric value; anything else is an internal defect.
    #[verifier::rlimit(100)]
    #[verifier::spinoff_prover]
    pub fn operation(src: u32, dst: u32, context: &mut Context) -> (r: JsResult<CompletionType>)
        requires
            old(context).wf(),
            old(context).vm.has_frame(),
        ensures
            final(context).wf(),
            final(context).vm.has_frame(),
            final(context).vm.frames == old(context).vm.frames,
            final(context).vm.heap == old(context).vm.heap,
            r is Ok ==> r->Ok_0 == CompletionType::Normal,
            ({
                let rp = old(context).vm.frame_spec().rp;
                let s0 = stack_model(old(context).vm.stack@);
                if rp + src >= s0.len() {
                    r is Err && r->Err_0.kind_spec() == ErrorKind::Internal
                        && final(context).vm.stack == old(context).vm.stack
                } else {
                    match inc_model(s0[rp + src]) {
                        Ok(m) => if rp + dst < s0.len() {
                            r is Ok && stack_model(final(context).vm.stack@) == s0.update(
                                rp + dst,
                                m,
                            )
                        } else {
                            r is Err && r->Err_0.kind_spec() == ErrorKind::Internal
                                && final(context).vm.stack == old(context).vm.stack
                        },
                        Err(k) => r is Err && r->Err_0.kind_spec() == k
                            && final(context).vm.stack == old(context).vm.stack,
                    }
                }
            }),
    {
        let rp = context.vm.frame().rp;
        let si: u64 = (rp as u64) + (src as u64);
        let di: u64 = (rp as u64) + (dst as u64);
        let n = context.vm.stack.len();
        if si >= n as u64 {
            return Err(JsError::internal_error("source register out of bounds"));
        }
        let value = context.vm.stack_at(si as usize);
        let incremented = match value {
            JsValue::Integer(number) => {
                if number < 9007199254740991 {
                    JsValue::Integer(number + 1)
                } else {
                    return Err(
                        JsError::range_error("number increment left the safe integer range"),
                    );
                }
            }
            JsValue::BigInt(ref bigint) => {
                let one = crate::bigint::JsBigInt::one();
                JsValue::BigInt(crate::bigint::JsBigInt::add(bigint, &one))
            }
            _ => {
                return Err(
                    JsError::internal_error("there is always a ToNumeric step before Inc"),
                );
            }
        };
        if di >= n as u64 {
            return Err(JsError::internal_error("destination register out of bounds"));
        }
        context.vm.stack_set(di as usize, incremented);
        Ok(CompletionType::Normal)
    }
}

impl Operation for Inc {
    fn name() -> &'static str {
        "Inc"
    }

    fn cost() -> u8 {
        3
    }

    fn execute(context: &mut Context) -> (r: JsResult<CompletionType>) {
        let dst = match context.vm.read_operand(OperandWidth::Narrow) {
            Some(v) => v,
            None => {
                return Err(JsError::internal_error("truncated instruction"));
            }
        };
        let src = match context.vm.read_operand(OperandWidth::Narrow) {
            Some(v) => v,
            None => {
                return Err(JsError::internal_error("truncated instruction"));
            }
        };
        Self::operation(src, dst, context)
    }

    fn execute_with_u16_operands(context: &mut Context) -> (r: JsResult<CompletionType>) {
        let dst = match context.vm.read_operand(OperandWidth::Medium) {
            Some(v) => v,
            None => {
                return Err(JsError::internal_error("truncated instruction"));
            }
        };
        let src = match context.vm.read_operand(OperandWidth::Medium) {
            Some(v) => v,
            None => {
                return Err(JsError::internal_error("truncated instruction"));
            }
        };
        Self::operation(src, dst, context)
    }

    fn execute_with_u32_operands(context: &mut Context) -> (r: JsResult<CompletionType>) {
        let dst = match context.vm.read_operand(OperandWidth::Wide) {
            Some(v) => v,
            None => {
                return Err(JsError::internal_error("truncated instruction"));
            }
        };
        let src = match context.vm.read_operand(OperandWidth::Wide) {
            Some(v) => v,
            None => {
                return Err(JsError::internal_error("truncated instruction"));
            }
        };
        Self::operation(src, dst, context)
    }
}

/// `IncPost` implements the opcode operation for `Opcode::IncPost`.
///
/// Operation:
///  - Unary postfix `++` operator.
#[derive(Debug, Clone, Copy)]
pub struct IncPost;

impl IncPost {
    /// Pops a value, then pushes its incremented successor and, on top of
    /// it, the original numeric value.
    ///
    /// The original value stays on top as the expression's immediate
    /// result, while the incremented value sits beneath it for the store
    /// back to the binding.
    #[verifier::rlimit(100)]
    pub fn step(context: &mut Context) -> (r: JsResult<CompletionType>)
        requires
            old(context).wf(),
            old(context).vm.has_frame(),
        ensures
            final(context).wf(),
            final(context).vm.has_frame(),
            final(context).vm.frames == old(context).vm.frames,
            final(context).vm.heap == old(context).vm.heap,
            r is Ok ==> r->Ok_0 == CompletionType::Normal,
            ({
                let f = old(context).vm.frame_spec();
                let s0 = stack_model(old(context).vm.stack@);
                if s0.len() <= window_end(f) {
                    r is Err && r->Err_0.kind_spec() == ErrorKind::Internal
                        && final(context).vm.stack == old(context).vm.stack
                } else {
                    match to_numeric_model(s0.last()) {
                        Err(k) => r is Err && r->Err_0.kind_spec() == k && stack_model(
                            final(context).vm.stack@,
                        ) == s0.drop_last(),
                        Ok(m) => match m {
                            ValueModel::Int(n) => if n < max_safe_integer() {
                                r is Ok && stack_model(final(context).vm.stack@)
                                    == s0.drop_last().push(ValueModel::Int(n + 1)).push(
                                    ValueModel::Int(n),
                                )
                            } else {
                                r is Err && r->Err_0.kind_spec() == ErrorKind::Range
                                    && stack_model(final(context).vm.stack@) == s0.drop_last()
                            },
                            ValueModel::Big(b) => r is Ok && stack_model(
                                final(context).vm.stack@,
                            ) == s0.drop_last().push(ValueModel::Big(b + 1)).push(
                                ValueModel::Big(b),
                            ),
                            _ => false,
                        },
                    }
                }
            }),
    {
        let we = {
            let f = context.vm.frame();
            let rc: u64 = f.code.register_count as u64;
            (f.rp as u64) + rc
        };
        if context.vm.stack.len() as u64 <= we {
            return Err(JsError::internal_error("evaluation stack is empty"));
        }
        let value = context.vm.pop();
        match value {
            JsValue::Integer(number) => {
                if number < 9007199254740991 {
                    context.vm.push(JsValue::Integer(number + 1));
                    context.vm.push(JsValue::Integer(number));
                    Ok(CompletionType::Normal)
                } else {
                    Err(JsError::range_error("number increment left the safe integer range"))
                }
            }
            _ => {
                let numeric = match value.to_numeric() {
                    Ok(v) => v,
                    Err(e) => {
                        return Err(e);
                    }
                };
                match numeric {
                    Numeric::Number(number) => {
                        if number < 9007199254740991 {
                            context.vm.push(JsValue::Integer(number + 1));
                            context.vm.push(JsValue::Integer(number));
                            Ok(CompletionType::Normal)
                        } else {
                            Err(
                                JsError::range_error(
                                    "number increment left the safe integer range",
                                ),
                            )
                        }
                    }
                    Numeric::BigInt(ref bigint) => {
                        let one = crate::bigint::JsBigInt::one();
                        context.vm.push(JsValue::BigInt(crate::bigint::JsBigInt::add(bigint, &one)));
                        context.vm.push(JsValue::BigInt(bigint.clone()));
                        Ok(CompletionType::Normal)
                    }
                }
            }
        }
    }
}

impl Operation for IncPost {
    fn name() -> &'static str {
        "IncPost"
    }

    fn cost() -> u8 {
        3
    }

    fn execute(context: &mut Context) -> (r: JsResult<CompletionType>) {
        Self::step(context)
    }

    fn execute_with_u16_operands(context: &mut Context) -> (r: JsResult<CompletionType>) {
        Self::step(context)
    }

    fn execute_with_u32_operands(context: &mut Context) -> (r: JsResult<CompletionType>) {
        Self::step(context)
    }
}

} // verus!
