//! Rest-parameter materialization.
//!
//! Arguments and registers share one contiguous stack region per frame, so
//! collecting the trailing arguments into an array must remove their slots
//! and shift the register window down without disturbing any register's
//! contents.

use vstd::prelude::*;
use crate::error::{JsError, JsResult};
use crate::object::array_props;
use crate::ops::Operation;
use crate::value::{JsValue, ValueModel};
use crate::vm::{stack_model, CallFrame, CompletionType, Context};

verus! {

/// What a completed rest-parameter materialization leaves behind: with
/// enough arguments, the trailing span is collected into a fresh
/// array-like object, its slots leave the stack, the frame's register
/// pointer and argument count drop by the span, and the array ends on
/// top; with too few arguments, a fresh empty array is pushed and the
/// frame stands still.
pub open spec fn rest_parameter_post(pre: &Context, post: &Context) -> bool {
    let f = pre.vm.frame_spec();
    let s0 = stack_model(pre.vm.stack@);
    let argc = f.argument_count as int;
    let pcount = f.code.param_count as int;
    let h = pre.vm.heap.len_spec();
    &&& pcount >= 1
    &&& post.vm.heap.len_spec() == h + 1
    &&& forall|j: int|
        pre.vm.heap.valid_handle(j) ==> #[trigger] post.vm.heap.obj(j) == pre.vm.heap.obj(j)
    &&& if argc >= pcount {
        let rest = argc - pcount + 1;
        &&& post.vm.heap.obj(h).props == array_props(s0.subrange(f.rp - rest, f.rp as int))
        &&& post.vm.heap.obj(h).proto == Some(pre.object_prototype_spec())
        &&& !post.vm.heap.obj(h).function
        &&& stack_model(post.vm.stack@) == s0.subrange(0, f.rp - rest) + s0.subrange(
            f.rp as int,
            s0.len() as int,
        ) + seq![ValueModel::Obj(h)]
        &&& post.vm.frame_spec() == (CallFrame {
            rp: (f.rp - rest) as u32,
            argument_count: (f.argument_count - rest) as u32,
            ..f
        })
    } else {
        &&& post.vm.heap.obj(h).props == array_props(Seq::<ValueModel>::empty())
        &&& post.vm.heap.obj(h).proto == Some(pre.object_prototype_spec())
        &&& stack_model(post.vm.stack@) == s0.push(ValueModel::Obj(h))
        &&& post.vm.frame_spec() == f
    }
}

/// `RestParameterInit` implements the opcode operation for
/// `Opcode::RestParameterInit`.
///
/// Operation:
///  - Initialize the rest parameter value of a function from the remaining
///    arguments.
#[derive(Debug, Clone, Copy)]
pub struct RestParameterInit;

impl RestParameterInit {
    /// Collects the actual arguments beyond the non-rest parameters into a
    /// fresh array-like object, removes their slots from the shared stack,
    /// adjusts the frame's bookkeeping to the removed span, and pushes the
    /// array.
    ///
    /// When fewer arguments were supplied than parameters declared, an
    /// empty array is pushed and no slots move: the remaining register
    /// slots are never disturbed either way.
    ///
    /// The collected slots are removed from the stack outright and the
    /// array is pushed once, on top: the stack ends one longer than the
    /// removed span left it. Success is owed whenever the unit declares at
    /// least one parameter — the rest parameter itself counts — which
    /// every unit carrying this instruction does.
    #[verifier::rlimit(100)]
    #[verifier::spinoff_prover]
    pub fn step(context: &mut Context) -> (r: JsResult<CompletionType>)
        requires
            old(context).wf(),
            old(context).vm.has_frame(),
        ensures
            final(context).wf(),
            final(context).vm.has_frame(),
            old(context).vm.frame_spec().code.param_count >= 1 ==> r is Ok,
            r is Ok ==> r->Ok_0 == CompletionType::Normal,
            r is Ok ==> rest_parameter_post(old(context), final(context)),
            r is Err ==> final(context).vm.heap == old(context).vm.heap
                && final(context).vm.stack == old(context).vm.stack
                && final(context).vm.frames == old(context).vm.frames,
    {
        let (argc, pcount, rp) = {
            let f = context.vm.frame();
            (f.argument_count, f.code.param_count, f.rp)
        };
        let proto = context.object_prototype();
        if pcount == 0 {
            return Err(
                JsError::internal_error("a unit without parameters declares no rest parameter"),
            );
        }
        if argc >= pcount {
            let rest_count = argc - pcount + 1;
            let start = (rp - rest_count) as usize;
            let mut elements: Vec<JsValue> = Vec::new();
            let ghost s0 = stack_model(context.vm.stack@);
            let mut i: u32 = 0;
            while i < rest_count
                invariant
                    i <= rest_count,
                    context.wf(),
                    context.vm.has_frame(),
                    context == old(context),
                    s0 == stack_model(old(context).vm.stack@),
                    rest_count <= argc <= rp,
                    argc == old(context).vm.frame_spec().argument_count,
                    rp == old(context).vm.frame_spec().rp,
                    start == rp - rest_count,
                    rp <= old(context).vm.stack@.len(),
                    elements@.len() == i,
                    stack_model(elements@) =~= s0.subrange(start as int, start + i),
                    forall|k: int|
                        0 <= k < elements@.len() ==> (#[trigger] elements@[k]).valid()
                            && crate::value::handle_ok(
                            elements@[k]@,
                            old(context).vm.heap.len_spec(),
                        ),
                decreases rest_count - i,
            {
                let v = context.vm.stack_at(start + i as usize);
                elements.push(v);
                proof {
                    assert(stack_model(elements@) =~= s0.subrange(start as int, start + i + 1));
                }
                i = i + 1;
            }
            let ghost elems = stack_model(elements@);
            let h = context.vm.heap.create_array_from_list(proto, elements);
            context.vm.splice_out_arguments(rest_count);
            context.vm.push(JsValue::Object(crate::value::JsObject { handle: h }));
            proof {
                assert(stack_model(final(context).vm.stack@) =~= s0.subrange(
                    0,
                    rp - rest_count,
                ) + s0.subrange(rp as int, s0.len() as int) + seq![
                    ValueModel::Obj(h as int),
                ]);
                assert(elems =~= s0.subrange(rp - rest_count, rp as int));
            }
            Ok(CompletionType::Normal)
        } else {
            let elements: Vec<JsValue> = Vec::new();
            proof {
                assert(stack_model(elements@) =~= Seq::<ValueModel>::empty());
            }
            let h = context.vm.heap.create_array_from_list(proto, elements);
            context.vm.push(JsValue::Object(crate::value::JsObject { handle: h }));
            proof {
                assert(stack_model(final(context).vm.stack@) =~= stack_model(
                    old(context).vm.stack@,
                ).push(ValueModel::Obj(h as int)));
            }
            Ok(CompletionType::Normal)
        }
    }
}

impl Operation for RestParameterInit {
    fn name() -> &'static str {
        "RestParameterInit"
    }

    fn cost() -> u8 {
        6
    }

    fn execute(context: &mut Context) -> (r: JsResult<CompletionType>) {
        Self::step(context)
    }

    fn execute_with_u16_operands(context: &mut Context) -> (r: JsResult<CompletionType>) {
        Self::step(context)
    }

    fn execute_with_u32_operands(context: &mut Context) -> (r: JsResult<CompletionType>) {
        Self::step(context)
    }
}

} // verus!
