//! The bytecode compiler.
//!
//! Lowering walks the syntax tree and appends instructions; the emission
//! relation [`compile_expr_spec`] states exactly which instructions each
//! node contributes, in order. Binary operands are compiled left before
//! right onto the evaluation stack, popped into two freshly allocated
//! scratch registers in reverse order, and consumed by the operator
//! instruction, which writes its output register; the scratch registers go
//! back to the allocator immediately, in reverse order of allocation.

use vstd::prelude::*;
use crate::ast::{Binary, BinaryOp, Expression, LogicalOp};
use crate::codec::{stream_models, InstrModel, Instruction};
use crate::error::{JsError, JsResult};
use crate::opcode::Opcode;
use crate::register::RegisterAllocator;
use crate::value::{JsValue, ValueModel};

verus! {

/// The compiler's emission state: the instructions and pools so far, and
/// the number of live scratch registers.
pub ghost struct EmitState {
    /// The instructions emitted so far.
    pub instrs: Seq<InstrModel>,
    /// The constant pool so far.
    pub consts: Seq<ValueModel>,
    /// The private-name pool so far.
    pub names: Seq<Seq<u16>>,
    /// The number of live scratch registers.
    pub live: int,
}

/// One emitted instruction.
pub open spec fn im(op: Opcode, operands: Seq<u32>) -> InstrModel {
    InstrModel { op, operands }
}

/// The packed operand field of a register index.
pub open spec fn reg_operand(r: int) -> u32 {
    (r * 2) as u32
}

/// The opcode of a non-short-circuiting binary operator.
pub open spec fn binary_opcode(op: BinaryOp) -> Opcode {
    match op {
        BinaryOp::Arithmetic(a) => match a {
            crate::ast::ArithmeticOp::Add => Opcode::Add,
            crate::ast::ArithmeticOp::Sub => Opcode::Sub,
            crate::ast::ArithmeticOp::Div => Opcode::Div,
            crate::ast::ArithmeticOp::Mul => Opcode::Mul,
            crate::ast::ArithmeticOp::Exp => Opcode::Pow,
            crate::ast::ArithmeticOp::Mod => Opcode::Mod,
        },
        BinaryOp::Bitwise(b) => match b {
            crate::ast::BitwiseOp::And => Opcode::BitAnd,
            crate::ast::BitwiseOp::Or => Opcode::BitOr,
            crate::ast::BitwiseOp::Xor => Opcode::BitXor,
            crate::ast::BitwiseOp::Shl => Opcode::ShiftLeft,
            crate::ast::BitwiseOp::Shr => Opcode::ShiftRight,
            crate::ast::BitwiseOp::UShr => Opcode::UnsignedShiftRight,
        },
        BinaryOp::Relational(r) => match r {
            crate::ast::RelationalOp::Equal => Opcode::Eq,
            crate::ast::RelationalOp::NotEqual => Opcode::NotEq,
            crate::ast::RelationalOp::StrictEqual => Opcode::StrictEq,
            crate::ast::RelationalOp::StrictNotEqual => Opcode::StrictNotEq,
            crate::ast::RelationalOp::GreaterThan => Opcode::GreaterThan,
            crate::ast::RelationalOp::GreaterThanOrEqual => Opcode::GreaterThanOrEq,
            crate::ast::RelationalOp::LessThan => Opcode::LessThan,
            crate::ast::RelationalOp::LessThanOrEqual => Opcode::LessThanOrEq,
            crate::ast::RelationalOp::In => Opcode::In,
            crate::ast::RelationalOp::InstanceOf => Opcode::InstanceOf,
        },
        _ => Opcode::Pop,
    }
}

/// The opcode of a short-circuiting operator's conditional skip.
pub open spec fn logical_opcode(op: LogicalOp) -> Opcode {
    match op {
        LogicalOp::And => Opcode::LogicalAnd,
        LogicalOp::Or => Opcode::LogicalOr,
        LogicalOp::Coalesce => Opcode::Coalesce,
    }
}

/// The instructions an expression contributes, appended to an emission
/// state: its execution leaves the expression's value on the evaluation
/// stack.
pub open spec fn compile_expr_spec(e: Expression, st: EmitState) -> EmitState
    decreases e,
{
    match e {
        Expression::Literal(v) => EmitState {
            instrs: st.instrs.push(im(Opcode::PushConstant, seq![st.consts.len() as u32])),
            consts: st.consts.push(v@),
            ..st
        },
        Expression::Local(slot) => EmitState {
            instrs: st.instrs.push(im(Opcode::PushFromRegister, seq![slot])),
            ..st
        },
        Expression::Assign(slot, inner) => {
            let st1 = compile_expr_spec(*inner, st);
            EmitState {
                instrs: st1.instrs.push(im(Opcode::PopIntoRegister, seq![slot])).push(
                    im(Opcode::PushFromRegister, seq![slot]),
                ),
                ..st1
            }
        },
        Expression::Binary(b) => {
            let used = !(b.op is Logical) && !(b.op is Comma);
            let stb = compile_binary_spec(
                *b,
                reg_operand(st.live),
                true,
                EmitState { live: st.live + 1, ..st },
            );
            EmitState {
                instrs: if used {
                    stb.instrs.push(im(Opcode::PushFromRegister, seq![st.live as u32]))
                } else {
                    stb.instrs
                },
                consts: stb.consts,
                names: stb.names,
                live: st.live,
            }
        },
        Expression::BinaryInPrivate(b) => {
            let index = st.names.len() as u32;
            let st1 = compile_expr_spec(b.rhs, EmitState { names: st.names.push(b.lhs@), ..st });
            EmitState { instrs: st1.instrs.push(im(Opcode::InPrivate, seq![index])), ..st1 }
        },
    }
}

/// The instructions a binary expression contributes: the left operand's
/// code, then the operator family's own lowering.
///
/// Arithmetic, bitwise and relational operators compile the right operand
/// too, pop both values into two fresh scratch registers (top of stack
/// first, into the right-hand register), and emit the operator with the
/// output, left and right registers; short-circuiting operators emit a
/// conditional skip over the right operand's code, patched to land just
/// past it; the comma operator discards the left value.
pub open spec fn compile_binary_spec(b: Binary, output: u32, use_expr: bool, st: EmitState)
    -> EmitState
    decreases b,
{
    let st1 = compile_expr_spec(b.lhs, st);
    match b.op {
        BinaryOp::Logical(lop) => {
            let jump_idx = st1.instrs.len() as int;
            let st2 = compile_expr_spec(
                b.rhs,
                EmitState { instrs: st1.instrs.push(im(logical_opcode(lop), seq![0u32])), ..st1 },
            );
            let patched = st2.instrs.update(
                jump_idx,
                im(logical_opcode(lop), seq![st2.instrs.len() as u32]),
            );
            EmitState {
                instrs: if use_expr {
                    patched
                } else {
                    patched.push(im(Opcode::Pop, Seq::empty()))
                },
                consts: st2.consts,
                names: st2.names,
                live: st.live,
            }
        },
        BinaryOp::Comma => {
            let st2 = compile_expr_spec(
                b.rhs,
                EmitState { instrs: st1.instrs.push(im(Opcode::Pop, Seq::empty())), ..st1 },
            );
            EmitState {
                instrs: if use_expr {
                    st2.instrs
                } else {
                    st2.instrs.push(im(Opcode::Pop, Seq::empty()))
                },
                consts: st2.consts,
                names: st2.names,
                live: st.live,
            }
        },
        _ => {
            let st2 = compile_expr_spec(b.rhs, st1);
            let rhs_r = st.live;
            let lhs_r = st.live + 1;
            EmitState {
                instrs: st2.instrs.push(im(Opcode::PopIntoRegister, seq![rhs_r as u32])).push(
                    im(Opcode::PopIntoRegister, seq![lhs_r as u32]),
                ).push(
                    im(
                        binary_opcode(b.op),
                        seq![output, reg_operand(lhs_r), reg_operand(rhs_r)],
                    ),
                ),
                consts: st2.consts,
                names: st2.names,
                live: st.live,
            }
        },
    }
}

/// Compiling an expression only appends instructions and leaves the live
/// scratch count where it began.
pub proof fn lemma_compile_expr_frame(e: Expression, st: EmitState)
    ensures
        compile_expr_spec(e, st).live == st.live,
        compile_expr_spec(e, st).instrs.len() >= st.instrs.len(),
    decreases e,
{
    match e {
        Expression::Literal(_) => {
        }
        Expression::Local(_) => {
        }
        Expression::Assign(_, inner) => {
            lemma_compile_expr_frame(*inner, st);
        }
        Expression::Binary(b) => {
            lemma_compile_binary_frame(
                *b,
                reg_operand(st.live),
                true,
                EmitState { live: st.live + 1, ..st },
            );
        }
        Expression::BinaryInPrivate(b) => {
            lemma_compile_expr_frame(b.rhs, EmitState { names: st.names.push(b.lhs@), ..st });
        }
    }
}

/// Compiling a binary expression only appends instructions (patching one
/// in place) and restores the live scratch count of the surrounding
/// state.
pub proof fn lemma_compile_binary_frame(b: Binary, output: u32, use_expr: bool, st: EmitState)
    ensures
        compile_binary_spec(b, output, use_expr, st).live == st.live,
        compile_binary_spec(b, output, use_expr, st).instrs.len() >= st.instrs.len(),
    decreases b,
{
    let st1 = compile_expr_spec(b.lhs, st);
    lemma_compile_expr_frame(b.lhs, st);
    match b.op {
        BinaryOp::Logical(lop) => {
            lemma_compile_expr_frame(
                b.rhs,
                EmitState { instrs: st1.instrs.push(im(logical_opcode(lop), seq![0u32])), ..st1 },
            );
        }
        BinaryOp::Comma => {
            lemma_compile_expr_frame(
                b.rhs,
                EmitState { instrs: st1.instrs.push(im(Opcode::Pop, Seq::empty())), ..st1 },
            );
        }
        _ => {
            lemma_compile_expr_frame(b.rhs, st1);
        }
    }
}

/// Whether lowering an expression stays inside the machine bounds the
/// emitter enforces: the pools below their index caps and the live
/// scratch count below its bound. Lowering is owed to succeed exactly
/// then.
pub open spec fn compile_expr_fits(e: Expression, st: EmitState) -> bool
    decreases e,
{
    match e {
        Expression::Literal(_) => st.consts.len() < 0xFFFFFFFF,
        Expression::Local(_) => true,
        Expression::Assign(_, inner) => compile_expr_fits(*inner, st),
        Expression::Binary(b) => st.live < 0x7FFFFFFD && compile_binary_fits(
            *b,
            EmitState { live: st.live + 1, ..st },
        ),
        Expression::BinaryInPrivate(b) => st.names.len() < 0xFFFFFFFF && compile_expr_fits(
            b.rhs,
            EmitState { names: st.names.push(b.lhs@), ..st },
        ),
    }
}

/// Whether lowering a binary expression stays inside the machine bounds
/// the emitter enforces.
pub open spec fn compile_binary_fits(b: Binary, st: EmitState) -> bool
    decreases b,
{
    compile_expr_fits(b.lhs, st) && {
        let st1 = compile_expr_spec(b.lhs, st);
        match b.op {
            BinaryOp::Logical(lop) => {
                let with_jump = EmitState {
                    instrs: st1.instrs.push(im(logical_opcode(lop), seq![0u32])),
                    ..st1
                };
                compile_expr_fits(b.rhs, with_jump) && compile_expr_spec(
                    b.rhs,
                    with_jump,
                ).instrs.len() < 0xFFFFFFFF
            },
            BinaryOp::Comma => compile_expr_fits(
                b.rhs,
                EmitState { instrs: st1.instrs.push(im(Opcode::Pop, Seq::empty())), ..st1 },
            ),
            _ => compile_expr_fits(b.rhs, st1),
        }
    }
}

/// Prefix preservation composes: what extends an extension of a run still
/// starts with the run.
proof fn lemma_take_chain(a: Seq<InstrModel>, b: Seq<InstrModel>, c: Seq<InstrModel>)
    requires
        a.len() <= b.len() <= c.len(),
        c.take(b.len() as int) == b,
        b.take(a.len() as int) == a,
    ensures
        c.take(a.len() as int) == a,
{
    assert forall|i: int| 0 <= i < a.len() implies c.take(a.len() as int)[i] == a[i] by {
        assert(c.take(b.len() as int)[i] == c[i]);
        assert(b.take(a.len() as int)[i] == b[i]);
    }
    assert(c.take(a.len() as int) =~= a);
}

/// The byte compiler: the instruction list and pools under construction,
/// and the scratch-register allocator.
#[derive(Debug)]
pub struct ByteCompiler {
    instructions: Vec<Instruction>,
    constants: Vec<JsValue>,
    names: Vec<Vec<u16>>,
    /// The scratch-register allocator.
    pub register_allocator: RegisterAllocator,
}

/// The models of the private-name pool.
pub open spec fn names_model(l: Seq<Vec<u16>>) -> Seq<Seq<u16>> {
    l.map_values(|v: Vec<u16>| v@)
}

/// The models of the constant pool.
pub open spec fn consts_model(l: Seq<JsValue>) -> Seq<ValueModel> {
    l.map_values(|v: JsValue| v@)
}

impl ByteCompiler {
    /// The compiler's emission state.
    pub closed spec fn emit_state(&self) -> EmitState {
        EmitState {
            instrs: stream_models(self.instructions@),
            consts: consts_model(self.constants@),
            names: names_model(self.names@),
            live: self.register_allocator.live() as int,
        }
    }

    /// Every emitted instruction carries the operands its opcode asks for,
    /// and every pooled constant is a valid primitive.
    pub closed spec fn wf(&self) -> bool {
        crate::codec::stream_wf(stream_models(self.instructions@)) && forall|i: int|
            0 <= i < self.constants@.len() ==> (#[trigger] self.constants@[i]).valid() && !(
            self.constants@[i]@ is Obj)
    }

    /// A fresh compiler with nothing emitted.
    pub fn new() -> (r: ByteCompiler)
        ensures
            r.wf(),
            r.emit_state() == (EmitState {
                instrs: Seq::<InstrModel>::empty(),
                consts: Seq::<ValueModel>::empty(),
                names: Seq::<Seq<u16>>::empty(),
                live: 0,
            }),
    {
        let r = ByteCompiler {
            instructions: Vec::new(),
            constants: Vec::new(),
            names: Vec::new(),
            register_allocator: RegisterAllocator::new(),
        };
        proof {
            assert(stream_models(r.instructions@) =~= Seq::<InstrModel>::empty());
            assert(consts_model(r.constants@) =~= Seq::<ValueModel>::empty());
            assert(names_model(r.names@) =~= Seq::<Seq<u16>>::empty());
        }
        r
    }

    /// Appends one instruction.
    fn emit(&mut self, op: Opcode, operands: Vec<u32>)
        requires
            old(self).wf(),
            operands@.len() == op.operand_count(),
        ensures
            final(self).wf(),
            final(self).emit_state() == (EmitState {
                instrs: old(self).emit_state().instrs.push(im(op, operands@)),
                ..old(self).emit_state()
            }),
            final(self).register_allocator == old(self).register_allocator,
    {
        self.instructions.push(Instruction { op, operands });
        proof {
            assert(stream_models(self.instructions@) =~= stream_models(
                old(self).instructions@,
            ).push(im(op, self.instructions@.last().operands@)));
        }
    }

    /// Compiles an expression, leaving its value on the evaluation stack
    /// when executed.
    ///
    /// Fails only when an emitted index would not fit an operand field;
    /// the scratch-register pool always ends where it began.
    pub fn compile_expr(&mut self, e: &Expression) -> (r: JsResult<()>)
        requires
            old(self).wf(),
            crate::ast::expression_valid(*e),
        ensures
            final(self).wf(),
            compile_expr_fits(*e, old(self).emit_state()) ==> r is Ok,
            r is Ok ==> final(self).emit_state() == compile_expr_spec(*e, old(self).emit_state()),
            final(self).emit_state().live == old(self).emit_state().live,
            final(self).emit_state().instrs.len() >= old(self).emit_state().instrs.len(),
            final(self).emit_state().instrs.take(old(self).emit_state().instrs.len() as int)
                == old(self).emit_state().instrs,
        decreases *e,
    {
        match *e {
            Expression::Literal(ref v) => {
                if self.constants.len() >= 0xFFFFFFFF {
                    return Err(JsError::internal_error("constant pool overflow"));
                }
                let idx = self.constants.len() as u32;
                let mut operands: Vec<u32> = Vec::new();
                operands.push(idx);
                proof {
                    assert(operands@ =~= seq![idx]);
                }
                self.emit(Opcode::PushConstant, operands);
                self.constants.push(v.clone());
                proof {
                    assert(consts_model(self.constants@) =~= consts_model(
                        old(self).constants@,
                    ).push(self.constants@.last()@));
                }
                Ok(())
            }
            Expression::Local(slot) => {
                let mut operands: Vec<u32> = Vec::new();
                operands.push(slot);
                proof {
                    assert(operands@ =~= seq![slot]);
                }
                self.emit(Opcode::PushFromRegister, operands);
                Ok(())
            }
            Expression::Assign(slot, ref inner) => {
                match self.compile_expr(inner) {
                    Ok(()) => {
                    }
                    Err(e2) => {
                        return Err(e2);
                    }
                }
                let mut operands: Vec<u32> = Vec::new();
                operands.push(slot);
                proof {
                    assert(operands@ =~= seq![slot]);
                }
                self.emit(Opcode::PopIntoRegister, operands);
                let mut operands2: Vec<u32> = Vec::new();
                operands2.push(slot);
                proof {
                    assert(operands2@ =~= seq![slot]);
                }
                self.emit(Opcode::PushFromRegister, operands2);
                Ok(())
            }
            Expression::Binary(ref b) => {
                if self.register_allocator.live_count() >= 0x7FFFFFFD {
                    return Err(JsError::internal_error("scratch register pool overflow"));
                }
                let out = self.register_allocator.allocate();
                proof {
                    assert(crate::ast::expression_valid(b.lhs_spec()));
                    assert(crate::ast::expression_valid(b.rhs_spec()));
                }
                let used = match self.compile_binary(b, out.index() * 2, true) {
                    Ok(u) => u,
                    Err(e) => {
                        self.register_allocator.deallocate(out);
                        return Err(e);
                    }
                };
                if used {
                    let mut operands: Vec<u32> = Vec::new();
                    operands.push(out.index());
                    proof {
                        assert(operands@ =~= seq![out.idx()]);
                    }
                    self.emit(Opcode::PushFromRegister, operands);
                }
                self.register_allocator.deallocate(out);
                Ok(())
            }
            Expression::BinaryInPrivate(ref b) => {
                if self.names.len() >= 0xFFFFFFFF {
                    return Err(JsError::internal_error("private name pool overflow"));
                }
                let idx = self.names.len() as u32;
                let mut spelling: Vec<u16> = Vec::new();
                let name = b.lhs();
                let mut i: usize = 0;
                while i < name.len()
                    invariant
                        i <= name@.len(),
                        spelling@ == name@.take(i as int),
                    decreases name@.len() - i,
                {
                    spelling.push(name[i]);
                    assert(spelling@ =~= name@.take(i + 1));
                    i = i + 1;
                }
                assert(name@.take(name@.len() as int) =~= name@);
                self.names.push(spelling);
                proof {
                    assert(names_model(self.names@) =~= names_model(old(self).names@).push(
                        self.names@.last()@,
                    ));
                }
                match self.compile_expr(b.rhs()) {
                    Ok(()) => {
                    }
                    Err(e2) => {
                        return Err(e2);
                    }
                }
                let mut operands: Vec<u32> = Vec::new();
                operands.push(idx);
                proof {
                    assert(operands@ =~= seq![idx]);
                }
                self.emit(Opcode::InPrivate, operands);
                Ok(())
            }
        }
    }

    /// Compiles a binary expression toward an output register.
    ///
    /// Returns whether the operator wrote the output register: the
    /// short-circuiting and comma families leave their result on the
    /// evaluation stack instead, discarding it when the surrounding
    /// context does not use the expression.
    pub fn compile_binary(&mut self, binary: &Binary, output: u32, use_expr: bool) -> (r: JsResult<
        bool,
    >)
        requires
            old(self).wf(),
            crate::ast::expression_valid(Expression::Binary(Box::new(*binary))) || (
            crate::ast::expression_valid(binary.lhs_spec()) && crate::ast::expression_valid(
                binary.rhs_spec(),
            )),
            old(self).emit_state().live < 0x7FFFFFFE,
        ensures
            final(self).wf(),
            compile_binary_fits(*binary, old(self).emit_state()) ==> r is Ok,
            r is Ok ==> final(self).emit_state() == compile_binary_spec(
                *binary,
                output,
                use_expr,
                old(self).emit_state(),
            ),
            r is Ok ==> (r->Ok_0 == (!(binary.op_spec() is Logical) && !(binary.op_spec()
                is Comma))),
            final(self).emit_state().live == old(self).emit_state().live,
            final(self).emit_state().instrs.len() >= old(self).emit_state().instrs.len(),
            final(self).emit_state().instrs.take(old(self).emit_state().instrs.len() as int)
                == old(self).emit_state().instrs,
        decreases *binary,
    {
        match self.compile_expr(binary.lhs()) {
            Ok(()) => {
            }
            Err(e2) => {
                return Err(e2);
            }
        }
        proof {
            lemma_compile_expr_frame(binary.lhs_spec(), old(self).emit_state());
        }
        let ghost after_lhs = self.emit_state();
        match binary.op() {
            BinaryOp::Logical(lop) => {
                let opcode = match lop {
                    LogicalOp::And => Opcode::LogicalAnd,
                    LogicalOp::Or => Opcode::LogicalOr,
                    LogicalOp::Coalesce => Opcode::Coalesce,
                };
                let exit = self.instructions.len();
                let mut operands: Vec<u32> = Vec::new();
                operands.push(0);
                proof {
                    assert(operands@ =~= seq![0u32]);
                }
                self.emit(opcode, operands);
                let ghost st_mid = self.emit_state();
                proof {
                    assert(st_mid.instrs.take(after_lhs.instrs.len() as int)
                        =~= after_lhs.instrs);
                    lemma_take_chain(
                        old(self).emit_state().instrs,
                        after_lhs.instrs,
                        st_mid.instrs,
                    );
                }
                match self.compile_expr(binary.rhs()) {
                    Ok(()) => {
                    }
                    Err(e2) => {
                        proof {
                            lemma_take_chain(
                                old(self).emit_state().instrs,
                                st_mid.instrs,
                                self.emit_state().instrs,
                            );
                        }
                        return Err(e2);
                    }
                }
                proof {
                    lemma_compile_expr_frame(binary.rhs_spec(), st_mid);
                }
                if self.instructions.len() >= 0xFFFFFFFF {
                    proof {
                        lemma_take_chain(
                            old(self).emit_state().instrs,
                            st_mid.instrs,
                            self.emit_state().instrs,
                        );
                    }
                    return Err(JsError::internal_error("instruction stream overflow"));
                }
                self.patch_jump(exit, opcode, self.instructions.len() as u32);
                if !use_expr {
                    self.emit(Opcode::Pop, Vec::new());
                }
                proof {
                    assert(Seq::<u32>::empty() =~= im(Opcode::Pop, Seq::empty()).operands);
                    lemma_compile_binary_prefix(*binary, output, use_expr, old(self).emit_state());
                }
                Ok(false)
            }
            BinaryOp::Comma => {
                self.emit(Opcode::Pop, Vec::new());
                proof {
                    assert(Seq::<u32>::empty() =~= im(Opcode::Pop, Seq::empty()).operands);
                }
                let ghost st_mid = self.emit_state();
                proof {
                    assert(st_mid.instrs.take(after_lhs.instrs.len() as int)
                        =~= after_lhs.instrs);
                    lemma_take_chain(
                        old(self).emit_state().instrs,
                        after_lhs.instrs,
                        st_mid.instrs,
                    );
                }
                match self.compile_expr(binary.rhs()) {
                    Ok(()) => {
                    }
                    Err(e2) => {
                        proof {
                            lemma_take_chain(
                                old(self).emit_state().instrs,
                                st_mid.instrs,
                                self.emit_state().instrs,
                            );
                        }
                        return Err(e2);
                    }
                }
                proof {
                    lemma_compile_expr_frame(binary.rhs_spec(), st_mid);
                }
                if !use_expr {
                    self.emit(Opcode::Pop, Vec::new());
                }
                proof {
                    lemma_compile_binary_prefix(*binary, output, use_expr, old(self).emit_state());
                }
                Ok(false)
            }
            op => {
                let ghost st_mid = self.emit_state();
                match self.compile_expr(binary.rhs()) {
                    Ok(()) => {
                    }
                    Err(e2) => {
                        proof {
                            lemma_take_chain(
                                old(self).emit_state().instrs,
                                st_mid.instrs,
                                self.emit_state().instrs,
                            );
                        }
                        return Err(e2);
                    }
                }
                proof {
                    lemma_compile_expr_frame(binary.rhs_spec(), st_mid);
                }
                let rhs = self.register_allocator.allocate();
                let lhs = self.register_allocator.allocate();
                let mut operands: Vec<u32> = Vec::new();
                operands.push(rhs.index());
                proof {
                    assert(operands@ =~= seq![rhs.idx()]);
                }
                self.emit(Opcode::PopIntoRegister, operands);
                let mut operands2: Vec<u32> = Vec::new();
                operands2.push(lhs.index());
                proof {
                    assert(operands2@ =~= seq![lhs.idx()]);
                }
                self.emit(Opcode::PopIntoRegister, operands2);
                let opcode = match op {
                    BinaryOp::Arithmetic(a) => match a {
                        crate::ast::ArithmeticOp::Add => Opcode::Add,
                        crate::ast::ArithmeticOp::Sub => Opcode::Sub,
                        crate::ast::ArithmeticOp::Div => Opcode::Div,
                        crate::ast::ArithmeticOp::Mul => Opcode::Mul,
                        crate::ast::ArithmeticOp::Exp => Opcode::Pow,
                        crate::ast::ArithmeticOp::Mod => Opcode::Mod,
                    },
                    BinaryOp::Bitwise(bw) => match bw {
                        crate::ast::BitwiseOp::And => Opcode::BitAnd,
                        crate::ast::BitwiseOp::Or => Opcode::BitOr,
                        crate::ast::BitwiseOp::Xor => Opcode::BitXor,
                        crate::ast::BitwiseOp::Shl => Opcode::ShiftLeft,
                        crate::ast::BitwiseOp::Shr => Opcode::ShiftRight,
                        crate::ast::BitwiseOp::UShr => Opcode::UnsignedShiftRight,
                    },
                    BinaryOp::Relational(rel) => match rel {
                        crate::ast::RelationalOp::Equal => Opcode::Eq,
                        crate::ast::RelationalOp::NotEqual => Opcode::NotEq,
                        crate::ast::RelationalOp::StrictEqual => Opcode::StrictEq,
                        crate::ast::RelationalOp::StrictNotEqual => Opcode::StrictNotEq,
                        crate::ast::RelationalOp::GreaterThan => Opcode::GreaterThan,
                        crate::ast::RelationalOp::GreaterThanOrEqual => Opcode::GreaterThanOrEq,
                        crate::ast::RelationalOp::LessThan => Opcode::LessThan,
                        crate::ast::RelationalOp::LessThanOrEqual => Opcode::LessThanOrEq,
                        crate::ast::RelationalOp::In => Opcode::In,
                        crate::ast::RelationalOp::InstanceOf => Opcode::InstanceOf,
                    },
                    _ => Opcode::Pop,
                };
                let mut operands3: Vec<u32> = Vec::new();
                operands3.push(output);
                operands3.push(lhs.index() * 2);
                operands3.push(rhs.index() * 2);
                proof {
                    assert(operands3@ =~= seq![output, reg_operand(lhs.idx() as int), reg_operand(
                        rhs.idx() as int,
                    )]);
                }
                self.emit(opcode, operands3);
                self.register_allocator.deallocate(lhs);
                self.register_allocator.deallocate(rhs);
                proof {
                    lemma_compile_binary_prefix(*binary, output, use_expr, old(self).emit_state());
                }
                Ok(true)
            }
        }
    }

    /// Rewrites the target operand of an emitted conditional skip.
    fn patch_jump(&mut self, index: usize, op: Opcode, target: u32)
        requires
            old(self).wf(),
            index < old(self).instructions@.len(),
            op.operand_count() == 1,
        ensures
            final(self).wf(),
            final(self).emit_state() == (EmitState {
                instrs: old(self).emit_state().instrs.update(index as int, im(op, seq![target])),
                ..old(self).emit_state()
            }),
            final(self).register_allocator == old(self).register_allocator,
    {
        let _ = self.instructions.remove(index);
        let mut operands: Vec<u32> = Vec::new();
        operands.push(target);
        proof {
            assert(operands@ =~= seq![target]);
        }
        self.instructions.insert(index, Instruction { op, operands });
        proof {
            assert(self.instructions@ =~= old(self).instructions@.update(
                index as int,
                self.instructions@[index as int],
            ));
            assert(stream_models(self.instructions@) =~= stream_models(
                old(self).instructions@,
            ).update(index as int, im(op, seq![target])));
        }
    }
}


/// Compiling an expression leaves every instruction that stood before it
/// untouched: lowering only appends (and patches its own forward jumps).
pub proof fn lemma_compile_expr_prefix(e: Expression, st: EmitState)
    ensures
        compile_expr_spec(e, st).instrs.take(st.instrs.len() as int) == st.instrs,
    decreases e,
{
    lemma_compile_expr_frame(e, st);
    match e {
        Expression::Literal(_) => {
            assert(compile_expr_spec(e, st).instrs.take(st.instrs.len() as int) =~= st.instrs);
        }
        Expression::Local(_) => {
            assert(compile_expr_spec(e, st).instrs.take(st.instrs.len() as int) =~= st.instrs);
        }
        Expression::Assign(_, inner) => {
            lemma_compile_expr_prefix(*inner, st);
            lemma_compile_expr_frame(*inner, st);
            assert(compile_expr_spec(e, st).instrs.take(st.instrs.len() as int)
                =~= compile_expr_spec(*inner, st).instrs.take(st.instrs.len() as int));
        }
        Expression::Binary(b) => {
            let st0 = EmitState { live: st.live + 1, ..st };
            lemma_compile_binary_prefix(*b, reg_operand(st.live), true, st0);
            lemma_compile_binary_frame(*b, reg_operand(st.live), true, st0);
            assert(compile_expr_spec(e, st).instrs.take(st.instrs.len() as int)
                =~= compile_binary_spec(*b, reg_operand(st.live), true, st0).instrs.take(
                st.instrs.len() as int,
            ));
        }
        Expression::BinaryInPrivate(b) => {
            let st0 = EmitState { names: st.names.push(b.lhs@), ..st };
            lemma_compile_expr_prefix(b.rhs, st0);
            lemma_compile_expr_frame(b.rhs, st0);
            assert(compile_expr_spec(e, st).instrs.take(st.instrs.len() as int)
                =~= compile_expr_spec(b.rhs, st0).instrs.take(st.instrs.len() as int));
        }
    }
}

/// Compiling a binary expression leaves every instruction that stood
/// before it untouched.
pub proof fn lemma_compile_binary_prefix(b: Binary, output: u32, use_expr: bool, st: EmitState)
    ensures
        compile_binary_spec(b, output, use_expr, st).instrs.take(st.instrs.len() as int)
            == st.instrs,
    decreases b,
{
    let st1 = compile_expr_spec(b.lhs, st);
    lemma_compile_expr_prefix(b.lhs, st);
    lemma_compile_expr_frame(b.lhs, st);
    match b.op {
        BinaryOp::Logical(lop) => {
            let with_jump = EmitState {
                instrs: st1.instrs.push(im(logical_opcode(lop), seq![0u32])),
                ..st1
            };
            lemma_compile_expr_prefix(b.rhs, with_jump);
            lemma_compile_expr_frame(b.rhs, with_jump);
            let st2 = compile_expr_spec(b.rhs, with_jump);
            let jump_idx = st1.instrs.len() as int;
            let patched = st2.instrs.update(
                jump_idx,
                im(logical_opcode(lop), seq![st2.instrs.len() as u32]),
            );
            assert(patched.take(st.instrs.len() as int) =~= st2.instrs.take(
                st.instrs.len() as int,
            ));
            assert(st2.instrs.take(with_jump.instrs.len() as int) == with_jump.instrs);
            assert(st2.instrs.take(st.instrs.len() as int) =~= with_jump.instrs.take(
                st.instrs.len() as int,
            ));
            assert(with_jump.instrs.take(st.instrs.len() as int) =~= st1.instrs.take(
                st.instrs.len() as int,
            ));
            assert(compile_binary_spec(b, output, use_expr, st).instrs.take(
                st.instrs.len() as int,
            ) =~= st.instrs);
        }
        BinaryOp::Comma => {
            let with_pop = EmitState {
                instrs: st1.instrs.push(im(Opcode::Pop, Seq::empty())),
                ..st1
            };
            lemma_compile_expr_prefix(b.rhs, with_pop);
            lemma_compile_expr_frame(b.rhs, with_pop);
            let st2 = compile_expr_spec(b.rhs, with_pop);
            assert(st2.instrs.take(with_pop.instrs.len() as int) == with_pop.instrs);
            assert(st2.instrs.take(st.instrs.len() as int) =~= with_pop.instrs.take(
                st.instrs.len() as int,
            ));
            assert(with_pop.instrs.take(st.instrs.len() as int) =~= st1.instrs.take(
                st.instrs.len() as int,
            ));
            assert(compile_binary_spec(b, output, use_expr, st).instrs.take(
                st.instrs.len() as int,
            ) =~= st.instrs);
        }
        _ => {
            lemma_compile_expr_prefix(b.rhs, st1);
            lemma_compile_expr_frame(b.rhs, st1);
            let st2 = compile_expr_spec(b.rhs, st1);
            assert(st2.instrs.take(st1.instrs.len() as int) == st1.instrs);
            assert(st2.instrs.take(st.instrs.len() as int) =~= st1.instrs.take(
                st.instrs.len() as int,
            ));
            assert(compile_binary_spec(b, output, use_expr, st).instrs.take(
                st.instrs.len() as int,
            ) =~= st.instrs);
        }
    }
}

/// Lowering preserves source evaluation order: for every arithmetic,
/// bitwise, relational and equality operator, the code of `a OP b` is the
/// whole code of `a`, then the whole code of `b`, then the three
/// operator instructions (two pops and the operator itself). Every
/// instruction compiled for the left operand therefore stands — and so
/// executes — before any instruction compiled for the right operand, side
/// effects included.
pub proof fn lemma_binary_evaluation_order(b: Binary, output: u32, use_expr: bool, st: EmitState)
    requires
        !(b.op_spec() is Logical),
        !(b.op_spec() is Comma),
    ensures
        ({
            let st1 = compile_expr_spec(b.lhs_spec(), st);
            let st2 = compile_expr_spec(b.rhs_spec(), st1);
            let fin = compile_binary_spec(b, output, use_expr, st);
            &&& fin.instrs == st2.instrs.push(
                im(Opcode::PopIntoRegister, seq![st.live as u32]),
            ).push(im(Opcode::PopIntoRegister, seq![(st.live + 1) as u32])).push(
                im(
                    binary_opcode(b.op_spec()),
                    seq![output, reg_operand(st.live + 1), reg_operand(st.live)],
                ),
            )
            &&& st1.instrs.take(st.instrs.len() as int) == st.instrs
            &&& st2.instrs.take(st1.instrs.len() as int) == st1.instrs
            &&& st.instrs.len() <= st1.instrs.len() <= st2.instrs.len()
        }),
{
    lemma_compile_expr_prefix(b.lhs_spec(), st);
    lemma_compile_expr_frame(b.lhs_spec(), st);
    let st1 = compile_expr_spec(b.lhs_spec(), st);
    lemma_compile_expr_prefix(b.rhs_spec(), st1);
    lemma_compile_expr_frame(b.rhs_spec(), st1);
}

/// Register allocation is LIFO-sound: the allocator hands out consecutive
/// indices and only takes back the most recently allocated live one, so
/// the allocate/deallocate history of verified lowering is well nested by
/// construction. Compiling a binary operator allocates the two scratch
/// registers just above the live count of the surrounding state, the only
/// instructions that name them are the two pops and the operator emitted
/// while they were live, and the state returns to the entry live count.
pub proof fn lemma_binary_register_discipline(b: Binary, output: u32, use_expr: bool, st: EmitState)
    requires
        !(b.op_spec() is Logical),
        !(b.op_spec() is Comma),
    ensures
        compile_binary_spec(b, output, use_expr, st).live == st.live,
        ({
            let st1 = compile_expr_spec(b.lhs_spec(), st);
            let st2 = compile_expr_spec(b.rhs_spec(), st1);
            let fin = compile_binary_spec(b, output, use_expr, st);
            &&& fin.instrs.len() == st2.instrs.len() + 3
            &&& fin.instrs[st2.instrs.len() as int].operands == seq![st.live as u32]
            &&& fin.instrs[st2.instrs.len() as int + 1].operands == seq![(st.live + 1) as u32]
            &&& fin.instrs[st2.instrs.len() as int + 2].operands == seq![
                output,
                reg_operand(st.live + 1),
                reg_operand(st.live),
            ]
        }),
{
    lemma_compile_binary_frame(b, output, use_expr, st);
}

impl ByteCompiler {
    /// The allocator's high-water mark: the register count of the
    /// finished unit.
    pub closed spec fn peak_spec(&self) -> u32 {
        self.register_allocator.peak()
    }

    /// Finalizes the unit: commits to the narrowest operand width that
    /// fits every operand emitted anywhere in the unit, serializes the
    /// instruction stream with it, and packages the pools and frame shape.
    ///
    /// Decoding the finished unit's bytes at its committed width yields
    /// exactly the emitted instructions back.
    pub fn finish(self, param_count: u32) -> (r: crate::vm::CodeBlock)
        requires
            self.wf(),
        ensures
            r.wf(),
            crate::codec::stream_wf(self.emit_state().instrs),
            crate::codec::stream_fits(self.emit_state().instrs, r.width),
            r.bytes@ == crate::codec::encode_stream(self.emit_state().instrs, r.width),
            consts_model(r.constants@) == self.emit_state().consts,
            names_model(r.names@) == self.emit_state().names,
            r.register_count == self.peak_spec(),
            r.param_count == param_count,
    {
        let (width, bytes) = crate::codec::finalize(&self.instructions);
        crate::vm::CodeBlock {
            bytes,
            width,
            constants: self.constants,
            names: self.names,
            register_count: self.register_allocator.peak_count(),
            param_count,
        }
    }
}

} // verus!
