//! Class-prototype wiring.
//!
//! Given a constructed class and a resolved parent prototype, a fresh plain
//! object becomes the class's prototype: the class gains a non-writable,
//! non-enumerable, non-configurable `prototype` slot holding it, records it
//! as its home object, and the new prototype points back at the class
//! through a writable, non-enumerable, configurable `constructor` slot.

use vstd::prelude::*;
use crate::codec::OperandWidth;
use crate::error::{JsError, JsResult};
use crate::object::{DescModel, KeyModel, ObjModel, PropertyDescriptor, PropertyKey};
use crate::ops::Operation;
use crate::string::utf16_of;
use crate::value::{JsObject, JsValue, ValueModel};
use crate::vm::{stack_model, CompletionType, Context};

verus! {

/// When class wiring is owed to succeed: the three registers lie in the
/// frame's stack, the parent-prototype register holds an object, `null`
/// or the `undefined` sentinel, the class register holds a function
/// object, and the ordinary semantics allow defining its `prototype`
/// slot — which they always do for a freshly constructed class, whose
/// slot is still absent.
pub open spec fn class_wiring_allowed(pre: &Context, dst: u32, prototype: u32, class: u32)
    -> bool {
    let rp = pre.vm.frame_spec().rp;
    let s0 = stack_model(pre.vm.stack@);
    &&& rp + prototype < s0.len()
    &&& rp + class < s0.len()
    &&& rp + dst < s0.len()
    &&& (s0[rp + prototype] is Obj || s0[rp + prototype] is Null || s0[rp + prototype]
        is Undefined)
    &&& s0[rp + class] is Obj
    &&& pre.vm.heap.obj(s0[rp + class]->Obj_0).function
    &&& crate::object::define_allowed(
        pre.vm.heap.obj(s0[rp + class]->Obj_0),
        KeyModel::Str(utf16_of("prototype"@)),
        DescModel {
            value: ValueModel::Obj(pre.vm.heap.len_spec()),
            writable: false,
            enumerable: false,
            configurable: false,
        },
    )
}

/// What completed class wiring leaves behind: a fresh prototype object
/// whose parent the prototype register named (`undefined` standing for
/// the base object prototype), holding only a writable, non-enumerable,
/// configurable `constructor` slot that points back at the class; the
/// class gains a non-writable, non-enumerable, non-configurable
/// `prototype` slot holding the new object and records it as its home
/// object; the new object's handle lands in the output register.
pub open spec fn class_wiring_post(
    pre: &Context,
    post: &Context,
    dst: u32,
    prototype: u32,
    class: u32,
) -> bool {
    let rp = pre.vm.frame_spec().rp;
    let s0 = stack_model(pre.vm.stack@);
    let hp = pre.vm.heap;
    let new_h = hp.len_spec();
    &&& rp + prototype < s0.len()
    &&& rp + class < s0.len()
    &&& rp + dst < s0.len()
    &&& s0[rp + class] is Obj
    &&& (s0[rp + prototype] is Obj || s0[rp + prototype] is Null || s0[rp + prototype]
        is Undefined)
    &&& ({
        let ch = s0[rp + class]->Obj_0;
        &&& hp.obj(ch).function
        &&& post.vm.heap.len_spec() == new_h + 1
        &&& forall|j: int|
            hp.valid_handle(j) && j != ch ==> #[trigger] post.vm.heap.obj(j) == hp.obj(j)
        &&& post.vm.heap.obj(new_h) == (ObjModel {
            proto: match s0[rp + prototype] {
                ValueModel::Obj(q) => Some(q),
                ValueModel::Null => None,
                _ => Some(pre.object_prototype_spec()),
            },
            props: Map::<KeyModel, DescModel>::empty().insert(
                KeyModel::Str(utf16_of("constructor"@)),
                DescModel {
                    value: ValueModel::Obj(ch),
                    writable: true,
                    enumerable: false,
                    configurable: true,
                },
            ),
            extensible: true,
            function: false,
            home_object: None,
            private_names: Set::<u32>::empty(),
        })
        &&& post.vm.heap.obj(ch) == (ObjModel {
            props: hp.obj(ch).props.insert(
                KeyModel::Str(utf16_of("prototype"@)),
                DescModel {
                    value: ValueModel::Obj(new_h),
                    writable: false,
                    enumerable: false,
                    configurable: false,
                },
            ),
            home_object: Some(new_h),
            ..hp.obj(ch)
        })
        &&& stack_model(post.vm.stack@) == s0.update(rp + dst, ValueModel::Obj(new_h))
    })
}

/// `SetClassPrototype` implements the opcode operation for
/// `Opcode::SetClassPrototype`.
///
/// Operation:
///  - Set the prototype of a class object.
#[derive(Debug, Clone, Copy)]
pub struct SetClassPrototype;

impl SetClassPrototype {
    /// Wires a freshly constructed class to a new prototype object.
    ///
    /// The parent-prototype register may hold an object, `null` for no
    /// parent, or `undefined` as the sentinel for the base object
    /// prototype; the class register must hold a function object. Anything
    /// else marks a compiler defect.
    #[verifier::rlimit(100)]
    #[verifier::spinoff_prover]
    pub fn operation(dst: u32, prototype: u32, class: u32, context: &mut Context) -> (r: JsResult<
        CompletionType,
    >)
        requires
            old(context).wf(),
            old(context).vm.has_frame(),
        ensures
            final(context).wf(),
            final(context).vm.has_frame(),
            final(context).vm.frames == old(context).vm.frames,
            final(context).object_prototype_spec() == old(context).object_prototype_spec(),
            r is Ok ==> r->Ok_0 == CompletionType::Normal,
            r is Err ==> final(context).vm.stack == old(context).vm.stack && forall|j: int|
                old(context).vm.heap.valid_handle(j) ==> #[trigger] final(context).vm.heap.obj(j)
                    == old(context).vm.heap.obj(j),
            class_wiring_allowed(old(context), dst, prototype, class) ==> r is Ok,
            r is Ok ==> class_wiring_post(old(context), final(context), dst, prototype, class),
    {
        let rp = context.vm.frame().rp;
        let n = context.vm.stack.len();
        let pi: u64 = (rp as u64) + (prototype as u64);
        let ci: u64 = (rp as u64) + (class as u64);
        let di: u64 = (rp as u64) + (dst as u64);
        if pi >= n as u64 || ci >= n as u64 || di >= n as u64 {
            return Err(JsError::internal_error("class wiring register out of bounds"));
        }
        let prototype_value = context.vm.stack_at(pi as usize);
        let parent: Option<usize> = match prototype_value {
            JsValue::Object(o) => Some(o.handle),
            JsValue::Null => None,
            JsValue::Undefined => Some(context.object_prototype()),
            _ => {
                return Err(
                    JsError::internal_error("class parent prototype is not an object, null or undefined"),
                );
            }
        };
        let class_value = context.vm.stack_at(ci as usize);
        let class_object = match class_value {
            JsValue::Object(o) => o,
            _ => {
                return Err(JsError::internal_error("class must be object"));
            }
        };
        if !context.vm.heap.is_function(class_object.handle) {
            return Err(JsError::internal_error("class must be function object"));
        }
        let proto = context.vm.heap.create_object(parent, false);
        let prototype_key = PropertyKey::Str(crate::string::utf16_from_str("prototype"));
        let prototype_desc = PropertyDescriptor {
            value: JsValue::Object(JsObject { handle: proto }),
            writable: false,
            enumerable: false,
            configurable: false,
        };
        let allowed = context.vm.heap.define_own_property(
            class_object.handle,
            prototype_key,
            prototype_desc,
        );
        if !allowed {
            return Err(JsError::internal_error("cannot redefine the class prototype slot"));
        }
        context.vm.heap.set_home_object(class_object.handle, proto);
        let constructor_key = PropertyKey::Str(crate::string::utf16_from_str("constructor"));
        let constructor_desc = PropertyDescriptor {
            value: JsValue::Object(class_object),
            writable: true,
            enumerable: false,
            configurable: true,
        };
        let allowed2 = context.vm.heap.define_own_property(proto, constructor_key, constructor_desc);
        proof {
            assert(allowed2);
        }
        context.vm.stack_set(di as usize, JsValue::Object(JsObject { handle: proto }));
        proof {
            assert(final(context).vm.heap.obj(proto as int).props =~= Map::<
                KeyModel,
                DescModel,
            >::empty().insert(
                KeyModel::Str(utf16_of("constructor"@)),
                DescModel {
                    value: ValueModel::Obj(class_object.handle as int),
                    writable: true,
                    enumerable: false,
                    configurable: true,
                },
            ));
        }
        Ok(CompletionType::Normal)
    }
}

impl Operation for SetClassPrototype {
    fn name() -> &'static str {
        "SetClassPrototype"
    }

    fn cost() -> u8 {
        6
    }

    fn execute(context: &mut Context) -> (r: JsResult<CompletionType>) {
        let dst = match context.vm.read_operand(OperandWidth::Narrow) {
            Some(v) => v,
            None => {
                return Err(JsError::internal_error("truncated instruction"));
            }
        };
        let prototype = match context.vm.read_operand(OperandWidth::Narrow) {
            Some(v) => v,
            None => {
                return Err(JsError::internal_error("truncated instruction"));
            }
        };
        let class = match context.vm.read_operand(OperandWidth::Narrow) {
            Some(v) => v,
            None => {
                return Err(JsError::internal_error("truncated instruction"));
            }
        };
        Self::operation(dst, prototype, class, context)
    }

    fn execute_with_u16_operands(context: &mut Context) -> (r: JsResult<CompletionType>) {
        let dst = match context.vm.read_operand(OperandWidth::Medium) {
            Some(v) => v,
            None => {
                return Err(JsError::internal_error("truncated instruction"));
            }
        };
        let prototype = match context.vm.read_operand(OperandWidth::Medium) {
            Some(v) => v,
            None => {
                return Err(JsError::internal_error("truncated instruction"));
            }
        };
        let class = match context.vm.read_operand(OperandWidth::Medium) {
            Some(v) => v,
            None => {
                return Err(JsError::internal_error("truncated instruction"));
            }
        };
        Self::operation(dst, prototype, class, context)
    }

    fn execute_with_u32_operands(context: &mut Context) -> (r: JsResult<CompletionType>) {
        let dst = match context.vm.read_operand(OperandWidth::Wide) {
            Some(v) => v,
            None => {
                return Err(JsError::internal_error("truncated instruction"));
            }
        };
        let prototype = match context.vm.read_operand(OperandWidth::Wide) {
            Some(v) => v,
            None => {
                return Err(JsError::internal_error("truncated instruction"));
            }
        };
        let class = match context.vm.read_operand(OperandWidth::Wide) {
            Some(v) => v,
            None => {
                return Err(JsError::internal_error("truncated instruction"));
            }
        };
        Self::operation(dst, prototype, class, context)
    }
}

} // verus!
