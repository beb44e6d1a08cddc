//! The instruction set. Operands that configure an instruction (counts, depths, offsets) are
//! pushed by the instruction before it and popped by the instruction itself.
use vstd::prelude::*;

use crate::value::FunctionValue;

verus! {

/// One instruction. Stack effects are written `(before -- after)`, top of stack rightmost.
#[derive(Clone, Copy, Debug, PartialEq, Eq, Structural)]
pub enum Op {
    /// ( -- ): does nothing.
    Noop,
    /// ( -- ): stops the machine.
    Halt,
    /// (unit -- ): removes the top unit: one value, or a struct with its fields.
    Pop,
    /// (a b -- b a): exchanges the top two units.
    Swap,
    /// (unit -- unit unit): duplicates the top unit.
    Copy,
    /// (depth -- unit): duplicates the unit whose last slot lies `depth` slots below the top.
    CopyFrom,
    /// (offset -- unit): duplicates the unit whose last slot is frame slot `offset`.
    Load,
    /// (value offset -- ): moves a single value into frame slot `offset`.
    Store,
    /// (args.. ret_count arg_count function -- args..): enters a function; the arguments become
    /// the first slots of its frame.
    Call,
    /// ( -- ): resumes the caller with its frame.
    Return,
    /// (table query -- cursor): searches a table with the struct on top.
    Query,
    /// (cursor -- cursor found): asks whether the cursor stands on a matching record.
    Found,
    /// (cursor -- record cursor): pushes the record at the cursor.
    Read,
    /// (cursor record -- cursor): adds a record after the cursor.
    Insert,
    /// (cursor record -- cursor): replaces the record at the cursor.
    Update,
    /// (cursor -- cursor): deletes the record at the cursor.
    Delete,
    /// (cursor -- cursor more): moves the cursor to the next matching record and tells whether
    /// there is one.
    Advance,
    /// (cursor -- table): closes the cursor.
    Close,
    /// ( -- Nil)
    Nil,
    /// ( -- function): pushes a function reference.
    Fn(FunctionValue),
    /// ( -- I32)
    I32(i32),
    /// ( -- I64)
    I64(i64),
    /// ( -- U32)
    U32(u32),
    /// ( -- U64)
    U64(u64),
    /// ( -- Usize)
    Usize(usize),
    /// ( -- Bool)
    Bool(bool),
    /// (fields.. count -- fields.. header): closes the top `count` slots into a struct.
    Struct,
    /// (fields.. header index -- fields.. header field): duplicates a field of the top struct.
    StructRead,
    /// (a b -- a+b): adds two numbers of one kind.
    Add,
    /// (U32 U32 -- U32)
    AddU32,
    /// (U64 U64 -- U64)
    AddU64,
    /// (I32 I32 -- I32)
    AddI32,
    /// (I64 I64 -- I64)
    AddI64,
}

} // verus!
