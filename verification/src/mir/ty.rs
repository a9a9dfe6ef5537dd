//! The types of MIR values.

use vstd::prelude::*;

verus! {

#[derive(Debug, Clone, Copy, PartialEq, Eq, Structural)]
pub enum MirType {
    Nil,
    Int, I8, I16, I32, I64,
    UInt, U8, U16, U32, U64,
    Float, F32, F64,
}

impl MirType {
    pub open spec fn name(self) -> Seq<char> {
        match self {
            MirType::Nil => "nil"@,
            MirType::Int => "int"@,
            MirType::I8 => "i8"@,
            MirType::I16 => "i16"@,
            MirType::I32 => "i32"@,
            MirType::I64 => "i64"@,
            MirType::UInt => "uint"@,
            MirType::U8 => "u8"@,
            MirType::U16 => "u16"@,
            MirType::U32 => "u32"@,
            MirType::U64 => "u64"@,
            MirType::Float => "float"@,
            MirType::F32 => "f32"@,
            MirType::F64 => "f64"@,
        }
    }

    /// The type as the MIR text writes it.
    pub fn fmt(&self) -> (r: &'static str)
        ensures
            r@ == self.name(),
    {
        match self {
            MirType::Nil => "nil",
            MirType::Int => "int",
            MirType::I8 => "i8",
            MirType::I16 => "i16",
            MirType::I32 => "i32",
            MirType::I64 => "i64",
            MirType::UInt => "uint",
            MirType::U8 => "u8",
            MirType::U16 => "u16",
            MirType::U32 => "u32",
            MirType::U64 => "u64",
            MirType::Float => "float",
            MirType::F32 => "f32",
            MirType::F64 => "f64",
        }
    }
}

} // verus!
