//! The types of IR values, as for MIR values.

use vstd::prelude::*;

verus! {

#[derive(Debug, Clone, Copy, PartialEq, Eq, Structural)]
pub enum IrType {
    Nil,
    Int, I8, I16, I32, I64,
    UInt, U8, U16, U32, U64,
    Float, F32, F64,
}

impl IrType {
    pub open spec fn name(self) -> Seq<char> {
        match self {
            IrType::Nil => "nil"@,
            IrType::Int => "int"@,
            IrType::I8 => "i8"@,
            IrType::I16 => "i16"@,
            IrType::I32 => "i32"@,
            IrType::I64 => "i64"@,
            IrType::UInt => "uint"@,
            IrType::U8 => "u8"@,
            IrType::U16 => "u16"@,
            IrType::U32 => "u32"@,
            IrType::U64 => "u64"@,
            IrType::Float => "float"@,
            IrType::F32 => "f32"@,
            IrType::F64 => "f64"@,
        }
    }

    /// The type as the IR text writes it.
    pub fn fmt(&self) -> (r: &'static str)
        ensures
            r@ == self.name(),
    {
        match self {
            IrType::Nil => "nil",
            IrType::Int => "int",
            IrType::I8 => "i8",
            IrType::I16 => "i16",
            IrType::I32 => "i32",
            IrType::I64 => "i64",
            IrType::UInt => "uint",
            IrType::U8 => "u8",
            IrType::U16 => "u16",
            IrType::U32 => "u32",
            IrType::U64 => "u64",
            IrType::Float => "float",
            IrType::F32 => "f32",
            IrType::F64 => "f64",
        }
    }
}

} // verus!
