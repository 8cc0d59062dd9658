//! The virtual machine's runtime structures.
//!
//! A [`Vm`] holds one shared value stack, a call-frame stack and the heap.
//! Each [`CallFrame`] windows onto the value stack: the frame's arguments
//! lie just below its register pointer `rp`, its registers occupy
//! `rp .. rp + register_count`, and the evaluation stack grows above them.
//! A [`CodeBlock`] is the immutable compiled artifact one or more frames
//! execute.

use vstd::prelude::*;
use std::rc::Rc;
use crate::codec::OperandWidth;
use crate::object::Heap;
use crate::value::{handle_ok, JsValue, ValueModel};

verus! {

/// The outcome of one executed instruction.
#[derive(Clone, Copy, Debug, PartialEq, Eq, Structural)]
pub enum CompletionType {
    /// Execution continues with the next instruction.
    Normal,
    /// The invocation returns.
    Return,
}

/// An immutable compiled code unit: the serialized instruction buffer with
/// its committed operand width, the constant pool, the private-name pool,
/// and the frame shape it needs.
#[derive(Debug)]
pub struct CodeBlock {
    /// The serialized instructions.
    pub bytes: Vec<u8>,
    /// The operand width the whole unit is committed to.
    pub width: OperandWidth,
    /// The constant pool.
    pub constants: Vec<JsValue>,
    /// The private-name pool.
    pub names: Vec<Vec<u16>>,
    /// How many registers a frame of this unit needs.
    pub register_count: u32,
    /// How many parameters the unit declares, the rest parameter included.
    pub param_count: u32,
}

impl CodeBlock {
    /// Constants are primitives: valid and free of heap handles.
    pub open spec fn wf(&self) -> bool {
        forall|i: int|
            0 <= i < self.constants@.len() ==> (#[trigger] self.constants@[i]).valid() && !(
            self.constants@[i]@ is Obj)
    }

    /// A copy of the constant-pool entry at an index.
    pub fn constant(&self, index: usize) -> (r: Option<JsValue>)
        requires
            self.wf(),
        ensures
            match r {
                Some(v) => index < self.constants@.len() && v@ == self.constants@[index as int]@
                    && v.valid() && !(v@ is Obj),
                None => index >= self.constants@.len(),
            },
    {
        if index < self.constants.len() {
            Some(self.constants[index].clone())
        } else {
            None
        }
    }

    /// A copy of the private-name-pool entry at an index.
    pub fn constant_string(&self, index: usize) -> (r: Option<Vec<u16>>)
        ensures
            match r {
                Some(v) => index < self.names@.len() && v@ == self.names@[index as int]@,
                None => index >= self.names@.len(),
            },
    {
        if index < self.names.len() {
            let name = &self.names[index];
            let mut v: Vec<u16> = Vec::new();
            let mut i: usize = 0;
            while i < name.len()
                invariant
                    i <= name@.len(),
                    v@ == name@.take(i as int),
                decreases name@.len() - i,
            {
                v.push(name[i]);
                assert(v@ =~= name@.take(i + 1));
                i = i + 1;
            }
            assert(name@.take(name@.len() as int) =~= name@);
            Some(v)
        } else {
            None
        }
    }
}

/// One active invocation, windowed onto the shared value stack.
#[derive(Debug)]
pub struct CallFrame {
    /// The code unit this frame executes.
    pub code: Rc<CodeBlock>,
    /// The offset of the next instruction in the code unit's bytes.
    pub pc: usize,
    /// The register pointer: the stack index of register zero. The frame's
    /// arguments lie directly below it.
    pub rp: u32,
    /// How many arguments the frame currently holds below `rp`.
    pub argument_count: u32,
}

/// The virtual machine: the shared value stack, the frame stack and the
/// heap.
#[derive(Debug)]
pub struct Vm {
    /// The shared value stack all frames window onto.
    pub stack: Vec<JsValue>,
    /// The call stack, innermost frame last.
    pub frames: Vec<CallFrame>,
    /// The object heap.
    pub heap: Heap,
}

/// The models of a run of stack values.
pub open spec fn stack_model(s: Seq<JsValue>) -> Seq<ValueModel> {
    s.map_values(|v: JsValue| v@)
}

/// The stack index one past a frame's register window.
pub open spec fn window_end(f: CallFrame) -> int {
    f.rp + f.code.register_count
}

/// The stack index where a frame's argument run begins.
pub open spec fn frame_base(f: CallFrame) -> int {
    f.rp - f.argument_count
}

impl Vm {
    /// There is an active frame.
    pub open spec fn has_frame(&self) -> bool {
        self.frames@.len() > 0
    }

    /// The active frame.
    pub open spec fn frame_spec(&self) -> CallFrame
        recommends
            self.has_frame(),
    {
        self.frames@.last()
    }

    /// The machine invariant: every stack value is valid and points into
    /// the heap; every frame's argument run and register window lie within
    /// the stack; frames window disjoint, increasing stack regions; every
    /// code unit is well formed.
    pub open spec fn wf(&self) -> bool {
        &&& self.heap.wf()
        &&& forall|i: int|
            0 <= i < self.stack@.len() ==> (#[trigger] self.stack@[i]).valid() && handle_ok(
                self.stack@[i]@,
                self.heap.len_spec(),
            )
        &&& forall|i: int|
            0 <= i < self.frames@.len() ==> {
                let f = #[trigger] self.frames@[i];
                f.argument_count <= f.rp && window_end(f) <= self.stack@.len() && f.code.wf()
            }
        &&& forall|i: int|
            0 <= i < self.frames@.len() - 1 ==> window_end(#[trigger] self.frames@[i])
                <= frame_base(self.frames@[i + 1])
    }

    /// Every earlier frame's window ends at or below a later frame's
    /// argument base.
    pub proof fn lemma_window_chain(&self, i: int, j: int)
        requires
            self.wf(),
            0 <= i < j < self.frames@.len(),
        ensures
            window_end(self.frames@[i]) <= frame_base(self.frames@[j]),
        decreases j - i,
    {
        if i + 1 < j {
            self.lemma_window_chain(i + 1, j);
        }
    }

    /// The active frame.
    pub fn frame(&self) -> (f: &CallFrame)
        requires
            self.has_frame(),
        ensures
            *f == self.frame_spec(),
    {
        let n = self.frames.len();
        &self.frames[n - 1]
    }

    /// Reads the value at an absolute stack index.
    pub fn stack_at(&self, i: usize) -> (r: JsValue)
        requires
            self.wf(),
            i < self.stack@.len(),
        ensures
            r@ == stack_model(self.stack@)[i as int],
            r.valid(),
            handle_ok(r@, self.heap.len_spec()),
    {
        self.stack[i].clone()
    }

    /// Writes the value at an absolute stack index.
    pub fn stack_set(&mut self, i: usize, v: JsValue)
        requires
            old(self).wf(),
            i < old(self).stack@.len(),
            v.valid(),
            handle_ok(v@, old(self).heap.len_spec()),
        ensures
            final(self).wf(),
            final(self).stack@.len() == old(self).stack@.len(),
            stack_model(final(self).stack@) == stack_model(old(self).stack@).update(
                i as int,
                v@,
            ),
            final(self).frames == old(self).frames,
            final(self).heap == old(self).heap,
    {
        let removed = self.stack.remove(i);
        let _ = removed;
        self.stack.insert(i, v);
        proof {
            assert(self.stack@ =~= old(self).stack@.update(i as int, self.stack@[i as int]));
            assert(stack_model(self.stack@) =~= stack_model(old(self).stack@).update(
                i as int,
                self.stack@[i as int]@,
            ));
        }
    }

    /// Pushes a value onto the evaluation stack.
    pub fn push(&mut self, v: JsValue)
        requires
            old(self).wf(),
            v.valid(),
            handle_ok(v@, old(self).heap.len_spec()),
        ensures
            final(self).wf(),
            final(self).stack@.len() == old(self).stack@.len() + 1,
            stack_model(final(self).stack@) == stack_model(old(self).stack@).push(v@),
            final(self).frames == old(self).frames,
            final(self).heap == old(self).heap,
    {
        self.stack.push(v);
        proof {
            assert(stack_model(self.stack@) =~= stack_model(old(self).stack@).push(
                self.stack@.last()@,
            ));
        }
    }

    /// Pops the top of the evaluation stack.
    ///
    /// The popped slot lies above the active frame's register window, so
    /// every frame's window survives.
    pub fn pop(&mut self) -> (r: JsValue)
        requires
            old(self).wf(),
            old(self).has_frame(),
            old(self).stack@.len() > window_end(old(self).frame_spec()),
        ensures
            final(self).wf(),
            r@ == stack_model(old(self).stack@).last(),
            r.valid(),
            handle_ok(r@, final(self).heap.len_spec()),
            stack_model(final(self).stack@) == stack_model(old(self).stack@).drop_last(),
            final(self).frames == old(self).frames,
            final(self).heap == old(self).heap,
    {
        proof {
            assert forall|i: int| 0 <= i < self.frames@.len() implies window_end(
                #[trigger] self.frames@[i],
            ) <= old(self).stack@.len() - 1 by {
                if i < self.frames@.len() - 1 {
                    self.lemma_window_chain(i, self.frames@.len() - 1);
                }
            }
        }
        let r = match self.stack.pop() {
            Some(v) => v,
            None => JsValue::Undefined,
        };
        proof {
            assert(stack_model(self.stack@) =~= stack_model(old(self).stack@).drop_last());
        }
        r
    }
}


impl Vm {
    /// Replaces the active frame.
    ///
    /// The new frame must keep the same windowing obligations the old one
    /// met.
    pub fn replace_frame(&mut self, f: CallFrame)
        requires
            old(self).wf(),
            old(self).has_frame(),
            f.argument_count <= f.rp,
            window_end(f) <= old(self).stack@.len(),
            f.code.wf(),
            old(self).frames@.len() > 1 ==> window_end(
                old(self).frames@[old(self).frames@.len() - 2],
            ) <= frame_base(f),
        ensures
            final(self).wf(),
            final(self).stack == old(self).stack,
            final(self).heap == old(self).heap,
            final(self).frames@ == old(self).frames@.update(old(self).frames@.len() - 1, f),
            final(self).has_frame(),
            final(self).frame_spec() == f,
    {
        let n = self.frames.len();
        let _ = self.frames.remove(n - 1);
        self.frames.push(f);
        proof {
            assert(self.frames@ =~= old(self).frames@.update(old(self).frames@.len() - 1, f));
        }
    }

    /// Moves the active frame's next-instruction offset.
    pub fn set_pc(&mut self, pc: usize)
        requires
            old(self).wf(),
            old(self).has_frame(),
        ensures
            final(self).wf(),
            final(self).stack == old(self).stack,
            final(self).heap == old(self).heap,
            final(self).has_frame(),
            final(self).frame_spec() == (CallFrame { pc, ..old(self).frame_spec() }),
            final(self).frames@ == old(self).frames@.update(
                old(self).frames@.len() - 1,
                CallFrame { pc, ..old(self).frame_spec() },
            ),
    {
        let n = self.frames.len();
        let mut f = self.frames.remove(n - 1);
        f.pc = pc;
        self.frames.push(f);
        proof {
            assert(self.frames@ =~= old(self).frames@.update(
                old(self).frames@.len() - 1,
                self.frames@.last(),
            ));
        }
    }

    /// Pushes a fresh frame for a new invocation.
    pub fn push_frame(&mut self, f: CallFrame)
        requires
            old(self).wf(),
            f.argument_count <= f.rp,
            window_end(f) <= old(self).stack@.len(),
            f.code.wf(),
            old(self).has_frame() ==> window_end(old(self).frame_spec()) <= frame_base(f),
        ensures
            final(self).wf(),
            final(self).stack == old(self).stack,
            final(self).heap == old(self).heap,
            final(self).frames@ == old(self).frames@.push(f),
            final(self).has_frame(),
            final(self).frame_spec() == f,
    {
        self.frames.push(f);
    }

    /// Pops the active frame when its invocation ends.
    pub fn pop_frame(&mut self)
        requires
            old(self).wf(),
            old(self).has_frame(),
        ensures
            final(self).wf(),
            final(self).stack == old(self).stack,
            final(self).heap == old(self).heap,
            final(self).frames@ == old(self).frames@.drop_last(),
    {
        let n = self.frames.len();
        let _ = self.frames.remove(n - 1);
        proof {
            assert(self.frames@ =~= old(self).frames@.drop_last());
        }
    }

    /// Reads one operand field of the given width at the active frame's
    /// next-instruction offset, and steps past it.
    pub fn read_operand(&mut self, w: OperandWidth) -> (r: Option<u32>)
        requires
            old(self).wf(),
            old(self).has_frame(),
        ensures
            final(self).wf(),
            final(self).stack == old(self).stack,
            final(self).heap == old(self).heap,
            final(self).has_frame(),
            match r {
                Some(v) => {
                    let f = old(self).frame_spec();
                    &&& f.pc + w.field_bytes() <= f.code.bytes@.len()
                    &&& f.pc + w.field_bytes() <= usize::MAX
                    &&& v == crate::codec::field_value(
                        f.code.bytes@.subrange(f.pc as int, f.pc + w.field_bytes()),
                    )
                    &&& final(self).frame_spec() == (CallFrame {
                        pc: (f.pc + w.field_bytes()) as usize,
                        ..f
                    })
                    &&& final(self).frames@ == old(self).frames@.update(
                        old(self).frames@.len() - 1,
                        final(self).frame_spec(),
                    )
                },
                None => {
                    let f = old(self).frame_spec();
                    &&& f.pc + w.field_bytes() > f.code.bytes@.len()
                    &&& *final(self) == *old(self)
                },
            },
    {
        let n = self.frames.len();
        let f = &self.frames[n - 1];
        let fb = w.exec_field_bytes();
        let len = f.code.bytes.len();
        if f.pc > len || len - f.pc < fb {
            return None;
        }
        let pos = f.pc;
        let v = crate::codec::read_field(&f.code.bytes, pos, w);
        let new_pc = pos + fb;
        proof {
            lemma_field_value_bound_u32(f.code.bytes@.subrange(pos as int, pos + w.field_bytes()));
        }
        self.set_pc(new_pc);
        Some(v)
    }
}

/// A field of at most four bytes fits a `u32`.
proof fn lemma_field_value_bound_u32(s: Seq<u8>)
    requires
        s.len() <= 4,
    ensures
        0 <= crate::codec::field_value(s) < 0x100000000,
{
    crate::codec::lemma_field_value_bound(s);
    vstd::arithmetic::power::lemma_pow_increases(256, s.len(), 4);
    assert(vstd::arithmetic::power::pow(256, 4) == 0x100000000) by {
        vstd::arithmetic::power::lemma_pow1(256);
        vstd::arithmetic::power::lemma_pow_adds(256, 1, 1);
        vstd::arithmetic::power::lemma_pow_adds(256, 2, 1);
        vstd::arithmetic::power::lemma_pow_adds(256, 3, 1);
    }
}

/// The execution context: the machine together with the realm state the
/// core needs, namely the base object prototype.
#[derive(Debug)]
pub struct Context {
    /// The virtual machine.
    pub vm: Vm,
    /// The base object prototype's handle.
    pub object_prototype: usize,
    /// The lexical private-name environment, outermost first: each entry
    /// binds a private name's spelling to its internal identifier.
    pub private_environment: Vec<(Vec<u16>, u32)>,
}

/// Whether two unit vectors hold the same units.
fn units_eq(a: &Vec<u16>, b: &Vec<u16>) -> (r: bool)
    ensures
        r == (a@ == b@),
{
    if a.len() != b.len() {
        proof {
            assert(a@.len() != b@.len());
        }
        return false;
    }
    let mut i: usize = 0;
    while i < a.len()
        invariant
            i <= a@.len(),
            a@.len() == b@.len(),
            forall|j: int| 0 <= j < i ==> a@[j] == b@[j],
        decreases a@.len() - i,
    {
        if a[i] != b[i] {
            assert(a@[i as int] != b@[i as int]);
            return false;
        }
        i = i + 1;
    }
    proof {
        assert(a@ =~= b@);
    }
    true
}

/// The innermost binding of a private name's spelling, if any.
pub open spec fn resolve_private_model(env: Seq<(Vec<u16>, u32)>, name: Seq<u16>) -> Option<u32>
    decreases env.len(),
{
    if env.len() == 0 {
        None
    } else if env.last().0@ == name {
        Some(env.last().1)
    } else {
        resolve_private_model(env.drop_last(), name)
    }
}

impl Context {
    /// The context invariant.
    pub open spec fn wf(&self) -> bool {
        self.vm.wf() && self.vm.heap.valid_handle(self.object_prototype_spec())
    }

    /// The base object prototype's handle.
    pub open spec fn object_prototype_spec(&self) -> int {
        self.object_prototype as int
    }

    /// A fresh context whose heap holds the base object prototype.
    pub fn new() -> (r: Context)
        ensures
            r.wf(),
            !r.vm.has_frame(),
            r.vm.stack@.len() == 0,
            r.vm.heap.len_spec() == 1,
    {
        let mut heap = Heap::new();
        let proto = heap.create_object(None, false);
        Context {
            vm: Vm { stack: Vec::new(), frames: Vec::new(), heap },
            object_prototype: proto,
            private_environment: Vec::new(),
        }
    }

    /// Binds a private name's spelling to an internal identifier in the
    /// innermost scope.
    pub fn push_private_binding(&mut self, name: Vec<u16>, id: u32)
        requires
            old(self).wf(),
        ensures
            final(self).wf(),
            final(self).vm == old(self).vm,
            final(self).object_prototype_spec() == old(self).object_prototype_spec(),
            final(self).private_environment@ == old(self).private_environment@.push((name, id)),
    {
        self.private_environment.push((name, id));
    }

    /// Resolves a private name's spelling to its innermost internal
    /// identifier.
    pub fn resolve_private_identifier(&self, name: &Vec<u16>) -> (r: Option<u32>)
        ensures
            r == resolve_private_model(self.private_environment@, name@),
    {
        let n = self.private_environment.len();
        let mut k: usize = n;
        proof {
            assert(self.private_environment@.take(n as int) =~= self.private_environment@);
        }
        while k > 0
            invariant
                k <= n,
                n == self.private_environment@.len(),
                resolve_private_model(self.private_environment@, name@)
                    == resolve_private_model(self.private_environment@.take(k as int), name@),
            decreases k,
        {
            let i = k - 1;
            let entry = &self.private_environment[i];
            proof {
                assert(self.private_environment@.take(k as int).last()
                    == self.private_environment@[i as int]);
                assert(self.private_environment@.take(k as int).drop_last()
                    =~= self.private_environment@.take(i as int));
            }
            let equal = units_eq(&entry.0, name);
            if equal {
                return Some(entry.1);
            }
            k = i;
        }
        proof {
            assert(self.private_environment@.take(0) =~= Seq::<(Vec<u16>, u32)>::empty());
        }
        None
    }

    /// The base object prototype's handle.
    pub fn object_prototype(&self) -> (r: usize)
        ensures
            r == self.object_prototype_spec(),
    {
        self.object_prototype
    }
}


/// An instruction operand: a register of the active frame or a
/// constant-pool slot, packed into one operand field with its tag in the
/// low bit.
#[derive(Clone, Copy, Debug, PartialEq, Eq, Structural)]
pub enum InstructionOperand {
    /// A register index.
    Register(u32),
    /// A constant-pool index.
    Constant(u32),
}

/// The operand a packed field stands for.
pub open spec fn unpack_operand(v: u32) -> InstructionOperand {
    if v % 2 == 0 {
        InstructionOperand::Register(v / 2)
    } else {
        InstructionOperand::Constant(v / 2)
    }
}

/// The packed field of an operand.
pub open spec fn pack_operand(op: InstructionOperand) -> u32
    recommends
        operand_packable(op),
{
    match op {
        InstructionOperand::Register(r) => (r * 2) as u32,
        InstructionOperand::Constant(c) => (c * 2 + 1) as u32,
    }
}

/// Whether an operand's index fits the packed form.
pub open spec fn operand_packable(op: InstructionOperand) -> bool {
    match op {
        InstructionOperand::Register(r) => r <= 0x7FFFFFFF,
        InstructionOperand::Constant(c) => c <= 0x7FFFFFFE,
    }
}

/// The value a resolved operand stands for in a machine state, if it
/// resolves: the register slot's model, or the constant's.
pub open spec fn resolve_operand(vm: &Vm, op: InstructionOperand) -> Option<ValueModel>
    recommends
        vm.has_frame(),
{
    let f = vm.frame_spec();
    match op {
        InstructionOperand::Register(r) => if f.rp + r < vm.stack@.len() {
            Some(stack_model(vm.stack@)[f.rp + r])
        } else {
            None
        },
        InstructionOperand::Constant(c) => if c < f.code.constants@.len() {
            Some(f.code.constants@[c as int]@)
        } else {
            None
        },
    }
}

impl InstructionOperand {
    /// Reads the operand a packed field stands for.
    pub fn from_packed(v: u32) -> (r: InstructionOperand)
        ensures
            r == unpack_operand(v),
    {
        if v % 2 == 0 {
            InstructionOperand::Register(v / 2)
        } else {
            InstructionOperand::Constant(v / 2)
        }
    }

    /// Resolves the operand against the machine, if it is in bounds.
    pub fn to_value(&self, vm: &Vm) -> (r: Option<JsValue>)
        requires
            vm.wf(),
            vm.has_frame(),
        ensures
            match r {
                Some(v) => resolve_operand(vm, *self) == Some(v@) && v.valid() && handle_ok(
                    v@,
                    vm.heap.len_spec(),
                ),
                None => resolve_operand(vm, *self) is None,
            },
    {
        let f = vm.frame();
        match *self {
            InstructionOperand::Register(r) => {
                let idx: u64 = (f.rp as u64) + (r as u64);
                let n = vm.stack.len();
                if idx < n as u64 {
                    Some(vm.stack_at(idx as usize))
                } else {
                    None
                }
            }
            InstructionOperand::Constant(c) => {
                proof {
                    assert(f.code.wf());
                }
                match f.code.constant(c as usize) {
                    Some(v) => Some(v),
                    None => None,
                }
            }
        }
    }
}


impl Vm {
    /// Removes the top `count` argument slots of the active frame from the
    /// shared stack, shifting the register window and everything above it
    /// down, and adjusts the frame's register pointer and argument count to
    /// the removed span.
    #[verifier::rlimit(100)]
    #[verifier::spinoff_prover]
    pub fn splice_out_arguments(&mut self, count: u32)
        requires
            old(self).wf(),
            old(self).has_frame(),
            count <= old(self).frame_spec().argument_count,
        ensures
            final(self).wf(),
            final(self).has_frame(),
            final(self).heap == old(self).heap,
            final(self).frames@ == old(self).frames@.update(
                old(self).frames@.len() - 1,
                final(self).frame_spec(),
            ),
            final(self).frame_spec() == (CallFrame {
                rp: (old(self).frame_spec().rp - count) as u32,
                argument_count: (old(self).frame_spec().argument_count - count) as u32,
                ..old(self).frame_spec()
            }),
            stack_model(final(self).stack@) == stack_model(old(self).stack@).subrange(
                0,
                old(self).frame_spec().rp - count,
            ) + stack_model(old(self).stack@).subrange(
                old(self).frame_spec().rp as int,
                old(self).stack@.len() as int,
            ),
    {
        let ghost s0 = self.stack@;
        let f = self.frame();
        let rp = f.rp;
        let argc = f.argument_count;
        let new_frame = CallFrame {
            code: rc_clone_code(&f.code),
            pc: f.pc,
            rp: rp - count,
            argument_count: argc - count,
        };
        proof {
            assert(new_frame.code == old(self).frame_spec().code);
        }
        self.replace_frame(new_frame);
        proof {
            assert forall|i: int| 0 <= i < self.frames@.len() - 1 implies window_end(
                #[trigger] self.frames@[i],
            ) <= rp - argc by {
                self.lemma_window_chain(i, self.frames@.len() - 1);
            }
        }
        let start = (rp - count) as usize;
        let mut j: u32 = 0;
        while j < count
            invariant
                j <= count,
                self.heap == old(self).heap,
                old(self).frames@.len() > 0,
                self.frames@.len() == old(self).frames@.len(),
                self.frames@ == old(self).frames@.update(
                    old(self).frames@.len() - 1,
                    new_frame,
                ),
                self.frames@[self.frames@.len() - 1] == new_frame,
                new_frame.rp == rp - count,
                new_frame.argument_count == argc - count,
                new_frame.code == old(self).frame_spec().code,
                new_frame.pc == old(self).frame_spec().pc,
                count <= argc <= rp,
                start == rp - count,
                rp + new_frame.code.register_count <= s0.len(),
                s0 == old(self).stack@,
                self.stack@.len() == s0.len() - j,
                self.stack@ =~= s0.subrange(0, start as int) + s0.subrange(
                    start + j,
                    s0.len() as int,
                ),
                forall|i: int|
                    0 <= i < self.frames@.len() - 1 ==> window_end(#[trigger] self.frames@[i])
                        <= rp - argc,
                self.wf(),
            decreases count - j,
    {
            let ghost before = self.stack@;
            let _ = self.stack.remove(start);
            proof {
                assert(self.stack@ =~= before.remove(start as int));
                assert(self.stack@ =~= s0.subrange(0, start as int) + s0.subrange(
                    start + j + 1,
                    s0.len() as int,
                ));
                assert forall|k: int|
                    0 <= k < self.stack@.len() implies (#[trigger] self.stack@[k]).valid()
                    && handle_ok(self.stack@[k]@, self.heap.len_spec()) by {
                    if k < start {
                        assert(self.stack@[k] == s0[k]);
                    } else {
                        assert(self.stack@[k] == s0[k + j + 1]);
                    }
                }
                assert forall|i: int| 0 <= i < self.frames@.len() implies {
                    let f2 = #[trigger] self.frames@[i];
                    f2.argument_count <= f2.rp && window_end(f2) <= self.stack@.len()
                        && f2.code.wf()
                } by {
                    if i == self.frames@.len() - 1 {
                        assert(self.frames@[i] == new_frame);
                        assert(window_end(new_frame) == rp - count
                            + new_frame.code.register_count);
                    } else {
                        assert(window_end(self.frames@[i]) <= rp - argc);
                    }
                }
            }
            j = j + 1;
        }
        proof {
            assert(stack_model(self.stack@) =~= stack_model(s0).subrange(0, start as int)
                + stack_model(s0).subrange(rp as int, s0.len() as int));
        }
    }
}

/// Shares a code unit for a rebuilt frame.
fn rc_clone_code(code: &Rc<CodeBlock>) -> (r: Rc<CodeBlock>)
    ensures
        r == *code,
{
    rc_clone_block(code)
}

/// Relies on `Rc::clone`: the returned handle shares the allocation and so
/// holds the same value.
#[verifier::external_body]
fn rc_clone_block(code: &Rc<CodeBlock>) -> (r: Rc<CodeBlock>)
    ensures
        r == *code,
{
    Rc::clone(code)
}

} // verus!
