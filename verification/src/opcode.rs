//! The instruction catalog.
//!
//! Each opcode identifies one operation of the virtual machine together with
//! a fixed number of operands. Opcodes are stored as a single byte in the
//! instruction buffer; [`Opcode::to_byte`] and [`Opcode::from_byte`] convert
//! between the enum and its byte form, and round-trip exactly.

use vstd::prelude::*;

verus! {

/// Identifier of one VM operation.
#[derive(Clone, Copy, Debug, PartialEq, Eq, Structural)]
pub enum Opcode {
    /// Push a constant-pool entry onto the evaluation stack.
    PushConstant,
    /// Push the value held by a register onto the evaluation stack.
    PushFromRegister,
    /// Pop the top of the evaluation stack into a register.
    PopIntoRegister,
    /// Discard the top of the evaluation stack.
    Pop,
    /// Binary `+` operator.
    Add,
    /// Binary `-` operator.
    Sub,
    /// Binary `*` operator.
    Mul,
    /// Binary `/` operator.
    Div,
    /// Binary `**` operator.
    Pow,
    /// Binary `%` operator.
    Mod,
    /// Binary `&` operator.
    BitAnd,
    /// Binary `|` operator.
    BitOr,
    /// Binary `^` operator.
    BitXor,
    /// Binary `<<` operator.
    ShiftLeft,
    /// Binary `>>` operator.
    ShiftRight,
    /// Binary `>>>` operator.
    UnsignedShiftRight,
    /// Binary loose `==` operator.
    Eq,
    /// Binary loose `!=` operator.
    NotEq,
    /// Binary `===` operator.
    StrictEq,
    /// Binary `!==` operator.
    StrictNotEq,
    /// Binary `>` operator.
    GreaterThan,
    /// Binary `>=` operator.
    GreaterThanOrEq,
    /// Binary `<` operator.
    LessThan,
    /// Binary `<=` operator.
    LessThanOrEq,
    /// Binary `in` operator.
    In,
    /// Binary `instanceof` operator.
    InstanceOf,
    /// Private-name `in` operator.
    InPrivate,
    /// Short-circuiting `&&`: skip to the operand target if the top of the
    /// stack is falsy, else pop it and fall through.
    LogicalAnd,
    /// Short-circuiting `||`: skip to the operand target if the top of the
    /// stack is truthy, else pop it and fall through.
    LogicalOr,
    /// Short-circuiting `??`: skip to the operand target if the top of the
    /// stack is neither `null` nor `undefined`, else pop it and fall through.
    Coalesce,
    /// Coerce a register's value to a numeric value.
    ToNumeric,
    /// Unary prefix `++` operator.
    Inc,
    /// Unary postfix `++` operator.
    IncPost,
    /// Materialize the rest parameter from the trailing arguments.
    RestParameterInit,
    /// Wire a freshly constructed class to a new prototype object.
    SetClassPrototype,
}

impl Opcode {
    /// How many operand fields an instruction with this opcode carries.
    pub open spec fn operand_count(self) -> nat {
        match self {
            Opcode::PushConstant => 1,
            Opcode::PushFromRegister => 1,
            Opcode::PopIntoRegister => 1,
            Opcode::Pop => 0,
            Opcode::Add => 3,
            Opcode::Sub => 3,
            Opcode::Mul => 3,
            Opcode::Div => 3,
            Opcode::Pow => 3,
            Opcode::Mod => 3,
            Opcode::BitAnd => 3,
            Opcode::BitOr => 3,
            Opcode::BitXor => 3,
            Opcode::ShiftLeft => 3,
            Opcode::ShiftRight => 3,
            Opcode::UnsignedShiftRight => 3,
            Opcode::Eq => 3,
            Opcode::NotEq => 3,
            Opcode::StrictEq => 3,
            Opcode::StrictNotEq => 3,
            Opcode::GreaterThan => 3,
            Opcode::GreaterThanOrEq => 3,
            Opcode::LessThan => 3,
            Opcode::LessThanOrEq => 3,
            Opcode::In => 3,
            Opcode::InstanceOf => 3,
            Opcode::InPrivate => 1,
            Opcode::LogicalAnd => 1,
            Opcode::LogicalOr => 1,
            Opcode::Coalesce => 1,
            Opcode::ToNumeric => 2,
            Opcode::Inc => 2,
            Opcode::IncPost => 0,
            Opcode::RestParameterInit => 0,
            Opcode::SetClassPrototype => 3,
        }
    }

    /// Executable form of [`Opcode::operand_count`].
    pub fn exec_operand_count(self) -> (n: usize)
        ensures
            n == self.operand_count(),
    {
        match self {
            Opcode::Pop | Opcode::IncPost | Opcode::RestParameterInit => 0,
            Opcode::PushConstant
            | Opcode::PushFromRegister
            | Opcode::PopIntoRegister
            | Opcode::InPrivate
            | Opcode::LogicalAnd
            | Opcode::LogicalOr
            | Opcode::Coalesce => 1,
            Opcode::ToNumeric | Opcode::Inc => 2,
            _ => 3,
        }
    }

    /// The byte under which this opcode is stored in the instruction buffer.
    pub open spec fn byte(self) -> u8 {
        match self {
            Opcode::PushConstant => 0,
            Opcode::PushFromRegister => 1,
            Opcode::PopIntoRegister => 2,
            Opcode::Pop => 3,
            Opcode::Add => 4,
            Opcode::Sub => 5,
            Opcode::Mul => 6,
            Opcode::Div => 7,
            Opcode::Pow => 8,
            Opcode::Mod => 9,
            Opcode::BitAnd => 10,
            Opcode::BitOr => 11,
            Opcode::BitXor => 12,
            Opcode::ShiftLeft => 13,
            Opcode::ShiftRight => 14,
            Opcode::UnsignedShiftRight => 15,
            Opcode::Eq => 16,
            Opcode::NotEq => 17,
            Opcode::StrictEq => 18,
            Opcode::StrictNotEq => 19,
            Opcode::GreaterThan => 20,
            Opcode::GreaterThanOrEq => 21,
            Opcode::LessThan => 22,
            Opcode::LessThanOrEq => 23,
            Opcode::In => 24,
            Opcode::InstanceOf => 25,
            Opcode::InPrivate => 26,
            Opcode::LogicalAnd => 27,
            Opcode::LogicalOr => 28,
            Opcode::Coalesce => 29,
            Opcode::ToNumeric => 30,
            Opcode::Inc => 31,
            Opcode::IncPost => 32,
            Opcode::RestParameterInit => 33,
            Opcode::SetClassPrototype => 34,
        }
    }

    /// The opcode stored under a byte, if the byte is in the catalog.
    pub open spec fn spec_from_byte(b: u8) -> Option<Opcode> {
        if b == 0 { Some(Opcode::PushConstant) }
        else if b == 1 { Some(Opcode::PushFromRegister) }
        else if b == 2 { Some(Opcode::PopIntoRegister) }
        else if b == 3 { Some(Opcode::Pop) }
        else if b == 4 { Some(Opcode::Add) }
        else if b == 5 { Some(Opcode::Sub) }
        else if b == 6 { Some(Opcode::Mul) }
        else if b == 7 { Some(Opcode::Div) }
        else if b == 8 { Some(Opcode::Pow) }
        else if b == 9 { Some(Opcode::Mod) }
        else if b == 10 { Some(Opcode::BitAnd) }
        else if b == 11 { Some(Opcode::BitOr) }
        else if b == 12 { Some(Opcode::BitXor) }
        else if b == 13 { Some(Opcode::ShiftLeft) }
        else if b == 14 { Some(Opcode::ShiftRight) }
        else if b == 15 { Some(Opcode::UnsignedShiftRight) }
        else if b == 16 { Some(Opcode::Eq) }
        else if b == 17 { Some(Opcode::NotEq) }
        else if b == 18 { Some(Opcode::StrictEq) }
        else if b == 19 { Some(Opcode::StrictNotEq) }
        else if b == 20 { Some(Opcode::GreaterThan) }
        else if b == 21 { Some(Opcode::GreaterThanOrEq) }
        else if b == 22 { Some(Opcode::LessThan) }
        else if b == 23 { Some(Opcode::LessThanOrEq) }
        else if b == 24 { Some(Opcode::In) }
        else if b == 25 { Some(Opcode::InstanceOf) }
        else if b == 26 { Some(Opcode::InPrivate) }
        else if b == 27 { Some(Opcode::LogicalAnd) }
        else if b == 28 { Some(Opcode::LogicalOr) }
        else if b == 29 { Some(Opcode::Coalesce) }
        else if b == 30 { Some(Opcode::ToNumeric) }
        else if b == 31 { Some(Opcode::Inc) }
        else if b == 32 { Some(Opcode::IncPost) }
        else if b == 33 { Some(Opcode::RestParameterInit) }
        else if b == 34 { Some(Opcode::SetClassPrototype) }
        else { None }
    }

    /// Serializes the opcode to its instruction-buffer byte.
    pub fn to_byte(self) -> (b: u8)
        ensures
            b == self.byte(),
    {
        match self {
            Opcode::PushConstant => 0,
            Opcode::PushFromRegister => 1,
            Opcode::PopIntoRegister => 2,
            Opcode::Pop => 3,
            Opcode::Add => 4,
            Opcode::Sub => 5,
            Opcode::Mul => 6,
            Opcode::Div => 7,
            Opcode::Pow => 8,
            Opcode::Mod => 9,
            Opcode::BitAnd => 10,
            Opcode::BitOr => 11,
            Opcode::BitXor => 12,
            Opcode::ShiftLeft => 13,
            Opcode::ShiftRight => 14,
            Opcode::UnsignedShiftRight => 15,
            Opcode::Eq => 16,
            Opcode::NotEq => 17,
            Opcode::StrictEq => 18,
            Opcode::StrictNotEq => 19,
            Opcode::GreaterThan => 20,
            Opcode::GreaterThanOrEq => 21,
            Opcode::LessThan => 22,
            Opcode::LessThanOrEq => 23,
            Opcode::In => 24,
            Opcode::InstanceOf => 25,
            Opcode::InPrivate => 26,
            Opcode::LogicalAnd => 27,
            Opcode::LogicalOr => 28,
            Opcode::Coalesce => 29,
            Opcode::ToNumeric => 30,
            Opcode::Inc => 31,
            Opcode::IncPost => 32,
            Opcode::RestParameterInit => 33,
            Opcode::SetClassPrototype => 34,
        }
    }

    /// Parses an instruction-buffer byte back into its opcode.
    pub fn from_byte(b: u8) -> (r: Option<Opcode>)
        ensures
            r == Opcode::spec_from_byte(b),
    {
        match b {
            0 => Some(Opcode::PushConstant),
            1 => Some(Opcode::PushFromRegister),
            2 => Some(Opcode::PopIntoRegister),
            3 => Some(Opcode::Pop),
            4 => Some(Opcode::Add),
            5 => Some(Opcode::Sub),
            6 => Some(Opcode::Mul),
            7 => Some(Opcode::Div),
            8 => Some(Opcode::Pow),
            9 => Some(Opcode::Mod),
            10 => Some(Opcode::BitAnd),
            11 => Some(Opcode::BitOr),
            12 => Some(Opcode::BitXor),
            13 => Some(Opcode::ShiftLeft),
            14 => Some(Opcode::ShiftRight),
            15 => Some(Opcode::UnsignedShiftRight),
            16 => Some(Opcode::Eq),
            17 => Some(Opcode::NotEq),
            18 => Some(Opcode::StrictEq),
            19 => Some(Opcode::StrictNotEq),
            20 => Some(Opcode::GreaterThan),
            21 => Some(Opcode::GreaterThanOrEq),
            22 => Some(Opcode::LessThan),
            23 => Some(Opcode::LessThanOrEq),
            24 => Some(Opcode::In),
            25 => Some(Opcode::InstanceOf),
            26 => Some(Opcode::InPrivate),
            27 => Some(Opcode::LogicalAnd),
            28 => Some(Opcode::LogicalOr),
            29 => Some(Opcode::Coalesce),
            30 => Some(Opcode::ToNumeric),
            31 => Some(Opcode::Inc),
            32 => Some(Opcode::IncPost),
            33 => Some(Opcode::RestParameterInit),
            34 => Some(Opcode::SetClassPrototype),
            _ => None,
        }
    }
}

/// Serializing an opcode and parsing the byte back yields the opcode again.
pub proof fn lemma_opcode_byte_round_trip(op: Opcode)
    ensures
        Opcode::spec_from_byte(op.byte()) == Some(op),
{
}

} // verus!
