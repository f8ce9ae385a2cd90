//! The stack-machine instruction set.
//!
//! Each instruction is one opcode byte followed by zero or more
//! little-endian immediate operands.

use vstd::prelude::*;

verus! {

#[derive(Debug, Clone, Copy, PartialEq, Eq, Structural)]
pub enum Op {
    /// Push 32-bit signed integer.  Imm: i32 (4 B)
    PushI32,
    /// Push 64-bit signed integer.  Imm: i64 (8 B)
    PushI64,
    /// Push 64-bit float.  Imm: f64 bit pattern (8 B)
    PushF64,
    /// Push boolean.  Imm: u8  (0 = false, 1 = true)
    PushBool,
    /// Push interned string.  Imm: u16 index into the constant pool.
    PushStr,
    /// Push the `None` sentinel.
    PushNone,
    /// Push unit (`void`).
    PushUnit,
    /// Load a local variable onto the stack.  Imm: u16
    LoadLocal,
    /// Pop the top of stack into a local variable.  Imm: u16
    StoreLocal,
    /// Load a global / function reference.  Imm: u16 (string pool)
    LoadGlobal,
    /// Store into a global.  Imm: u16 (string pool)
    StoreGlobal,
    /// Discard the top of stack.
    Pop,
    /// Duplicate the top of stack.
    Dup,
    /// Swap the top two values.
    Swap,
    Add,
    Sub,
    Mul,
    Div,
    Rem,
    Neg,
    BitAnd,
    BitOr,
    BitXor,
    Shl,
    Shr,
    Eq,
    Ne,
    Lt,
    Le,
    Gt,
    Ge,
    And,
    Or,
    Not,
    /// Unconditional jump.  Imm: i32 offset relative to the next instruction.
    Jump,
    /// Jump if TOS is true.  Imm: i32 relative offset.
    JumpT,
    /// Jump if TOS is false.  Imm: i32 relative offset.
    JumpF,
    /// Call the function on TOS.  Imm: u8 argument count.
    Call,
    /// Call a native (JS-side) function.  Imm: u16 native index + u8 arg count.
    CallNative,
    /// Return TOS to the caller.
    Return,
    /// Return unit to the caller.
    ReturnVoid,
    /// Allocate a struct.  Imm: u16 name index, u16 field count.
    NewStruct,
    /// Get a field.  Imm: u16 name index.
    GetField,
    /// Set a field.  Imm: u16 name index.
    SetField,
    /// Allocate array.  Imm: u16 element count.
    NewArray,
    /// Index into array.  Stack: array, idx → value
    ArrayGet,
    /// Set array element.  Stack: array, idx, value → (side effect)
    ArraySet,
    /// Push array length.  Stack: array → length (i32)
    ArrayLen,
    /// Wrap TOS in `Some(...)`.
    WrapSome,
    /// Wrap TOS in `Ok(...)`.
    WrapOk,
    /// Wrap TOS in `Err(...)`.
    WrapErr,
    /// Push `true` if TOS is `None`.
    IsNone,
    /// Push `true` if TOS is `Err`.
    IsErr,
    /// Unwrap `Some`/`Ok`; traps on `None`/`Err`.
    Unwrap,
    /// Create a closure.  Imm: u16 function index, u8 capture count.
    MakeClosure,
    /// No-op.
    Nop,
}

impl Op {
    /// The opcode byte.
    pub open spec fn byte(self) -> u8 {
        match self {
            Op::PushI32 => 0x01,
            Op::PushI64 => 0x02,
            Op::PushF64 => 0x03,
            Op::PushBool => 0x04,
            Op::PushStr => 0x05,
            Op::PushNone => 0x06,
            Op::PushUnit => 0x07,
            Op::LoadLocal => 0x10,
            Op::StoreLocal => 0x11,
            Op::LoadGlobal => 0x12,
            Op::StoreGlobal => 0x13,
            Op::Pop => 0x20,
            Op::Dup => 0x21,
            Op::Swap => 0x22,
            Op::Add => 0x30,
            Op::Sub => 0x31,
            Op::Mul => 0x32,
            Op::Div => 0x33,
            Op::Rem => 0x34,
            Op::Neg => 0x35,
            Op::BitAnd => 0x38,
            Op::BitOr => 0x39,
            Op::BitXor => 0x3A,
            Op::Shl => 0x3B,
            Op::Shr => 0x3C,
            Op::Eq => 0x40,
            Op::Ne => 0x41,
            Op::Lt => 0x42,
            Op::Le => 0x43,
            Op::Gt => 0x44,
            Op::Ge => 0x45,
            Op::And => 0x48,
            Op::Or => 0x49,
            Op::Not => 0x4A,
            Op::Jump => 0x50,
            Op::JumpT => 0x51,
            Op::JumpF => 0x52,
            Op::Call => 0x60,
            Op::CallNative => 0x61,
            Op::Return => 0x62,
            Op::ReturnVoid => 0x63,
            Op::NewStruct => 0x70,
            Op::GetField => 0x71,
            Op::SetField => 0x72,
            Op::NewArray => 0x78,
            Op::ArrayGet => 0x79,
            Op::ArraySet => 0x7A,
            Op::ArrayLen => 0x7B,
            Op::WrapSome => 0x80,
            Op::WrapOk => 0x81,
            Op::WrapErr => 0x82,
            Op::IsNone => 0x83,
            Op::IsErr => 0x84,
            Op::Unwrap => 0x85,
            Op::MakeClosure => 0x90,
            Op::Nop => 0xFF,
        }
    }

    /// Number of immediate bytes the opcode carries.
    pub open spec fn imm_len(self) -> nat {
        match self {
            Op::PushI32 => 4,
            Op::PushI64 => 8,
            Op::PushF64 => 8,
            Op::PushBool => 1,
            Op::PushStr => 2,
            Op::PushNone => 0,
            Op::PushUnit => 0,
            Op::LoadLocal => 2,
            Op::StoreLocal => 2,
            Op::LoadGlobal => 2,
            Op::StoreGlobal => 2,
            Op::Pop => 0,
            Op::Dup => 0,
            Op::Swap => 0,
            Op::Add => 0,
            Op::Sub => 0,
            Op::Mul => 0,
            Op::Div => 0,
            Op::Rem => 0,
            Op::Neg => 0,
            Op::BitAnd => 0,
            Op::BitOr => 0,
            Op::BitXor => 0,
            Op::Shl => 0,
            Op::Shr => 0,
            Op::Eq => 0,
            Op::Ne => 0,
            Op::Lt => 0,
            Op::Le => 0,
            Op::Gt => 0,
            Op::Ge => 0,
            Op::And => 0,
            Op::Or => 0,
            Op::Not => 0,
            Op::Jump => 4,
            Op::JumpT => 4,
            Op::JumpF => 4,
            Op::Call => 1,
            Op::CallNative => 3,
            Op::Return => 0,
            Op::ReturnVoid => 0,
            Op::NewStruct => 4,
            Op::GetField => 2,
            Op::SetField => 2,
            Op::NewArray => 2,
            Op::ArrayGet => 0,
            Op::ArraySet => 0,
            Op::ArrayLen => 0,
            Op::WrapSome => 0,
            Op::WrapOk => 0,
            Op::WrapErr => 0,
            Op::IsNone => 0,
            Op::IsErr => 0,
            Op::Unwrap => 0,
            Op::MakeClosure => 3,
            Op::Nop => 0,
        }
    }

    /// The opcode byte.
    pub fn to_u8(self) -> (b: u8)
        ensures
            b == self.byte(),
    {
        match self {
            Op::PushI32 => 0x01,
            Op::PushI64 => 0x02,
            Op::PushF64 => 0x03,
            Op::PushBool => 0x04,
            Op::PushStr => 0x05,
            Op::PushNone => 0x06,
            Op::PushUnit => 0x07,
            Op::LoadLocal => 0x10,
            Op::StoreLocal => 0x11,
            Op::LoadGlobal => 0x12,
            Op::StoreGlobal => 0x13,
            Op::Pop => 0x20,
            Op::Dup => 0x21,
            Op::Swap => 0x22,
            Op::Add => 0x30,
            Op::Sub => 0x31,
            Op::Mul => 0x32,
            Op::Div => 0x33,
            Op::Rem => 0x34,
            Op::Neg => 0x35,
            Op::BitAnd => 0x38,
            Op::BitOr => 0x39,
            Op::BitXor => 0x3A,
            Op::Shl => 0x3B,
            Op::Shr => 0x3C,
            Op::Eq => 0x40,
            Op::Ne => 0x41,
            Op::Lt => 0x42,
            Op::Le => 0x43,
            Op::Gt => 0x44,
            Op::Ge => 0x45,
            Op::And => 0x48,
            Op::Or => 0x49,
            Op::Not => 0x4A,
            Op::Jump => 0x50,
            Op::JumpT => 0x51,
            Op::JumpF => 0x52,
            Op::Call => 0x60,
            Op::CallNative => 0x61,
            Op::Return => 0x62,
            Op::ReturnVoid => 0x63,
            Op::NewStruct => 0x70,
            Op::GetField => 0x71,
            Op::SetField => 0x72,
            Op::NewArray => 0x78,
            Op::ArrayGet => 0x79,
            Op::ArraySet => 0x7A,
            Op::ArrayLen => 0x7B,
            Op::WrapSome => 0x80,
            Op::WrapOk => 0x81,
            Op::WrapErr => 0x82,
            Op::IsNone => 0x83,
            Op::IsErr => 0x84,
            Op::Unwrap => 0x85,
            Op::MakeClosure => 0x90,
            Op::Nop => 0xFF,
        }
    }

    /// Number of immediate bytes this opcode carries.
    pub fn imm_bytes(self) -> (n: usize)
        ensures
            n == self.imm_len(),
    {
        match self {
            Op::PushI32 => 4,
            Op::PushI64 => 8,
            Op::PushF64 => 8,
            Op::PushBool => 1,
            Op::PushStr => 2,
            Op::PushNone => 0,
            Op::PushUnit => 0,
            Op::LoadLocal => 2,
            Op::StoreLocal => 2,
            Op::LoadGlobal => 2,
            Op::StoreGlobal => 2,
            Op::Pop => 0,
            Op::Dup => 0,
            Op::Swap => 0,
            Op::Add => 0,
            Op::Sub => 0,
            Op::Mul => 0,
            Op::Div => 0,
            Op::Rem => 0,
            Op::Neg => 0,
            Op::BitAnd => 0,
            Op::BitOr => 0,
            Op::BitXor => 0,
            Op::Shl => 0,
            Op::Shr => 0,
            Op::Eq => 0,
            Op::Ne => 0,
            Op::Lt => 0,
            Op::Le => 0,
            Op::Gt => 0,
            Op::Ge => 0,
            Op::And => 0,
            Op::Or => 0,
            Op::Not => 0,
            Op::Jump => 4,
            Op::JumpT => 4,
            Op::JumpF => 4,
            Op::Call => 1,
            Op::CallNative => 3,
            Op::Return => 0,
            Op::ReturnVoid => 0,
            Op::NewStruct => 4,
            Op::GetField => 2,
            Op::SetField => 2,
            Op::NewArray => 2,
            Op::ArrayGet => 0,
            Op::ArraySet => 0,
            Op::ArrayLen => 0,
            Op::WrapSome => 0,
            Op::WrapOk => 0,
            Op::WrapErr => 0,
            Op::IsNone => 0,
            Op::IsErr => 0,
            Op::Unwrap => 0,
            Op::MakeClosure => 3,
            Op::Nop => 0,
        }
    }

    /// The opcode whose byte is `v`, if any.
    pub open spec fn from_byte(v: u8) -> Option<Op> {
        match v {
            0x01 => Some(Op::PushI32),
            0x02 => Some(Op::PushI64),
            0x03 => Some(Op::PushF64),
            0x04 => Some(Op::PushBool),
            0x05 => Some(Op::PushStr),
            0x06 => Some(Op::PushNone),
            0x07 => Some(Op::PushUnit),
            0x10 => Some(Op::LoadLocal),
            0x11 => Some(Op::StoreLocal),
            0x12 => Some(Op::LoadGlobal),
            0x13 => Some(Op::StoreGlobal),
            0x20 => Some(Op::Pop),
            0x21 => Some(Op::Dup),
            0x22 => Some(Op::Swap),
            0x30 => Some(Op::Add),
            0x31 => Some(Op::Sub),
            0x32 => Some(Op::Mul),
            0x33 => Some(Op::Div),
            0x34 => Some(Op::Rem),
            0x35 => Some(Op::Neg),
            0x38 => Some(Op::BitAnd),
            0x39 => Some(Op::BitOr),
            0x3A => Some(Op::BitXor),
            0x3B => Some(Op::Shl),
            0x3C => Some(Op::Shr),
            0x40 => Some(Op::Eq),
            0x41 => Some(Op::Ne),
            0x42 => Some(Op::Lt),
            0x43 => Some(Op::Le),
            0x44 => Some(Op::Gt),
            0x45 => Some(Op::Ge),
            0x48 => Some(Op::And),
            0x49 => Some(Op::Or),
            0x4A => Some(Op::Not),
            0x50 => Some(Op::Jump),
            0x51 => Some(Op::JumpT),
            0x52 => Some(Op::JumpF),
            0x60 => Some(Op::Call),
            0x61 => Some(Op::CallNative),
            0x62 => Some(Op::Return),
            0x63 => Some(Op::ReturnVoid),
            0x70 => Some(Op::NewStruct),
            0x71 => Some(Op::GetField),
            0x72 => Some(Op::SetField),
            0x78 => Some(Op::NewArray),
            0x79 => Some(Op::ArrayGet),
            0x7A => Some(Op::ArraySet),
            0x7B => Some(Op::ArrayLen),
            0x80 => Some(Op::WrapSome),
            0x81 => Some(Op::WrapOk),
            0x82 => Some(Op::WrapErr),
            0x83 => Some(Op::IsNone),
            0x84 => Some(Op::IsErr),
            0x85 => Some(Op::Unwrap),
            0x90 => Some(Op::MakeClosure),
            0xFF => Some(Op::Nop),
            _ => None,
        }
    }

    /// The opcode whose byte is `v`, if any.
    pub fn from_u8(v: u8) -> (r: Option<Op>)
        ensures
            r == Op::from_byte(v),
    {
        match v {
            0x01 => Some(Op::PushI32),
            0x02 => Some(Op::PushI64),
            0x03 => Some(Op::PushF64),
            0x04 => Some(Op::PushBool),
            0x05 => Some(Op::PushStr),
            0x06 => Some(Op::PushNone),
            0x07 => Some(Op::PushUnit),
            0x10 => Some(Op::LoadLocal),
            0x11 => Some(Op::StoreLocal),
            0x12 => Some(Op::LoadGlobal),
            0x13 => Some(Op::StoreGlobal),
            0x20 => Some(Op::Pop),
            0x21 => Some(Op::Dup),
            0x22 => Some(Op::Swap),
            0x30 => Some(Op::Add),
            0x31 => Some(Op::Sub),
            0x32 => Some(Op::Mul),
            0x33 => Some(Op::Div),
            0x34 => Some(Op::Rem),
            0x35 => Some(Op::Neg),
            0x38 => Some(Op::BitAnd),
            0x39 => Some(Op::BitOr),
            0x3A => Some(Op::BitXor),
            0x3B => Some(Op::Shl),
            0x3C => Some(Op::Shr),
            0x40 => Some(Op::Eq),
            0x41 => Some(Op::Ne),
            0x42 => Some(Op::Lt),
            0x43 => Some(Op::Le),
            0x44 => Some(Op::Gt),
            0x45 => Some(Op::Ge),
            0x48 => Some(Op::And),
            0x49 => Some(Op::Or),
            0x4A => Some(Op::Not),
            0x50 => Some(Op::Jump),
            0x51 => Some(Op::JumpT),
            0x52 => Some(Op::JumpF),
            0x60 => Some(Op::Call),
            0x61 => Some(Op::CallNative),
            0x62 => Some(Op::Return),
            0x63 => Some(Op::ReturnVoid),
            0x70 => Some(Op::NewStruct),
            0x71 => Some(Op::GetField),
            0x72 => Some(Op::SetField),
            0x78 => Some(Op::NewArray),
            0x79 => Some(Op::ArrayGet),
            0x7A => Some(Op::ArraySet),
            0x7B => Some(Op::ArrayLen),
            0x80 => Some(Op::WrapSome),
            0x81 => Some(Op::WrapOk),
            0x82 => Some(Op::WrapErr),
            0x83 => Some(Op::IsNone),
            0x84 => Some(Op::IsErr),
            0x85 => Some(Op::Unwrap),
            0x90 => Some(Op::MakeClosure),
            0xFF => Some(Op::Nop),
            _ => None,
        }
    }
}

/// Decoding an opcode's byte gives the opcode back, and a byte decodes
/// only to the opcode it is the byte of.
pub proof fn lemma_byte_roundtrip(op: Op, v: u8)
    ensures
        Op::from_byte(op.byte()) == Some(op),
        Op::from_byte(v) == Some(op) ==> op.byte() == v,
{
}

} // verus!
