//! The opcode operations: one module per family.

pub mod binary_ops;
pub mod class_prototype;
pub mod increment;
pub mod rest_parameter;

use vstd::prelude::*;
use crate::error::JsResult;
use crate::vm::{CompletionType, Context};

verus! {

/// The contract every opcode family implements: a display name, a relative
/// execution cost for cooperative step budgeting, and one execute entry
/// point per operand width, bit-identical in behavior.
pub trait Operation {
    /// The family's display name, for diagnostics and profiling.
    fn name() -> &'static str;

    /// The family's relative execution cost.
    fn cost() -> u8;

    /// Executes one instruction with narrow (one-byte) operand fields.
    fn execute(context: &mut Context) -> (r: JsResult<CompletionType>)
        requires
            old(context).wf(),
            old(context).vm.has_frame(),
        ensures
            final(context).wf(),
            final(context).vm.has_frame(),
    ;

    /// Executes one instruction with medium (two-byte) operand fields.
    fn execute_with_u16_operands(context: &mut Context) -> (r: JsResult<CompletionType>)
        requires
            old(context).wf(),
            old(context).vm.has_frame(),
        ensures
            final(context).wf(),
            final(context).vm.has_frame(),
    ;

    /// Executes one instruction with wide (four-byte) operand fields.
    fn execute_with_u32_operands(context: &mut Context) -> (r: JsResult<CompletionType>)
        requires
            old(context).wf(),
            old(context).vm.has_frame(),
        ensures
            final(context).wf(),
            final(context).vm.has_frame(),
    ;
}

} // verus!
