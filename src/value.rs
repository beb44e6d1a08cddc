//! The tagged runtime value and the rules for copying and comparing it.
use vstd::prelude::*;

use crate::table::{CursorTypes, TableTypes};

verus! {

/// A function reference: where the function starts, how many arguments it declares and how many
/// frame slots (arguments plus locals) it uses.
#[derive(Clone, Copy, Debug, PartialEq, Eq, Structural)]
pub struct FunctionValue {
    pub offset: usize,
    pub args: usize,
    pub frame_size: usize,
}

/// The kind of a value, as seen by code that inspects values without reading them.
#[derive(Clone, Copy, Debug, PartialEq, Eq, Structural)]
pub enum Type {
    Nil,
    /// A binding whose kind the code generator does not track.
    Unknown,
    Usize,
    U32,
    U64,
    I32,
    I64,
    StringRef,
    Bool,
    /// A struct header with the given number of field slots beneath it.
    Struct(usize),
    Table,
    Cursor,
    /// A function reference with the given number of declared arguments.
    Function(usize),
}

/// A runtime value: one slot of the machine's stack.
///
/// A struct of `n` fields occupies `n + 1` adjacent slots: the fields in declaration order and
/// then a `Struct` header that records `n`. Tables and cursors are resources: they are moved,
/// never copied or compared; string references are neither copied nor compared either.
#[derive(Debug)]
pub enum Value {
    Nil,
    Usize(usize),
    U32(u32),
    U64(u64),
    I32(i32),
    I64(i64),
    StringRef { index: usize },
    Bool(bool),
    Struct { field_count: usize },
    Table(TableTypes),
    Cursor(CursorTypes),
    Function(FunctionValue),
}

/// Errors raised while executing a module.
#[derive(Debug, PartialEq, Eq, Structural)]
pub enum VmError {
    /// An operand has the wrong kind of value, or a resource handle was copied or compared.
    InvalidOperation,
    /// The operands of an addition are not both of the opcode's numeric kind.
    TypeCheck,
    /// The stack holds fewer slots than the operation consumes.
    StackUnderflow,
    /// A frame offset, a copy depth or a field index points outside the stack or the struct.
    OutOfBounds,
    /// The instruction pointer left the code.
    InvalidInstruction,
    /// An addition overflowed its numeric kind.
    Overflow,
    /// The table behind a cursor does not support the requested operation.
    Unsupported,
    /// `run` executed its maximum number of steps without reaching `Halt`.
    StepLimit,
}

/// Whether a value may be duplicated: every kind but string references, tables and cursors.
pub open spec fn copyable(v: Value) -> bool {
    !(v is StringRef || v is Table || v is Cursor)
}

/// Whether two values are of the same kind (a struct header of any width counts as one kind).
pub open spec fn same_kind(a: Value, b: Value) -> bool {
    match (a, b) {
        (Value::Nil, Value::Nil) => true,
        (Value::Usize(_), Value::Usize(_)) => true,
        (Value::U32(_), Value::U32(_)) => true,
        (Value::U64(_), Value::U64(_)) => true,
        (Value::I32(_), Value::I32(_)) => true,
        (Value::I64(_), Value::I64(_)) => true,
        (Value::StringRef { .. }, Value::StringRef { .. }) => true,
        (Value::Bool(_), Value::Bool(_)) => true,
        (Value::Struct { .. }, Value::Struct { .. }) => true,
        (Value::Table(_), Value::Table(_)) => true,
        (Value::Cursor(_), Value::Cursor(_)) => true,
        (Value::Function(_), Value::Function(_)) => true,
        _ => false,
    }
}

/// The outcome of copying a value.
pub open spec fn copy_of(v: Value) -> Result<Value, VmError> {
    if copyable(v) {
        Ok(v)
    } else {
        Err(VmError::InvalidOperation)
    }
}

/// The outcome of comparing two values. Values of one copyable kind compare by content; a struct
/// header compares by its recorded field count only, since its fields are separate slots.
pub open spec fn equality_of(a: Value, b: Value) -> Result<bool, VmError> {
    if copyable(a) && copyable(b) && same_kind(a, b) {
        Ok(a == b)
    } else {
        Err(VmError::InvalidOperation)
    }
}

/// The kind of a value.
pub open spec fn type_of(v: Value) -> Type {
    match v {
        Value::Nil => Type::Nil,
        Value::Usize(_) => Type::Usize,
        Value::U32(_) => Type::U32,
        Value::U64(_) => Type::U64,
        Value::I32(_) => Type::I32,
        Value::I64(_) => Type::I64,
        Value::StringRef { .. } => Type::StringRef,
        Value::Bool(_) => Type::Bool,
        Value::Struct { field_count } => Type::Struct(field_count),
        Value::Table(_) => Type::Table,
        Value::Cursor(_) => Type::Cursor,
        Value::Function(f) => Type::Function(f.args),
    }
}

impl Value {
    /// Duplicates a copyable value; string references, tables and cursors cannot be copied.
    pub fn copy_value(&self) -> (r: Result<Value, VmError>)
        ensures
            r == copy_of(*self),
    {
        match self {
            Value::Nil => Ok(Value::Nil),
            Value::Usize(v) => Ok(Value::Usize(*v)),
            Value::U32(v) => Ok(Value::U32(*v)),
            Value::U64(v) => Ok(Value::U64(*v)),
            Value::I32(v) => Ok(Value::I32(*v)),
            Value::I64(v) => Ok(Value::I64(*v)),
            Value::Bool(v) => Ok(Value::Bool(*v)),
            Value::Struct { field_count } => Ok(Value::Struct { field_count: *field_count }),
            Value::Function(f) => Ok(Value::Function(*f)),
            Value::StringRef { .. } | Value::Table(_) | Value::Cursor(_) => Err(
                VmError::InvalidOperation,
            ),
        }
    }

    /// Compares two values of one copyable kind; any other pair is an invalid operation.
    pub fn eq_value(a: &Value, b: &Value) -> (r: Result<bool, VmError>)
        ensures
            r == equality_of(*a, *b),
    {
        match (a, b) {
            (Value::Nil, Value::Nil) => Ok(true),
            (Value::Usize(x), Value::Usize(y)) => Ok(*x == *y),
            (Value::U32(x), Value::U32(y)) => Ok(*x == *y),
            (Value::U64(x), Value::U64(y)) => Ok(*x == *y),
            (Value::I32(x), Value::I32(y)) => Ok(*x == *y),
            (Value::I64(x), Value::I64(y)) => Ok(*x == *y),
            (Value::Bool(x), Value::Bool(y)) => Ok(*x == *y),
            (Value::Struct { field_count: x }, Value::Struct { field_count: y }) => Ok(*x == *y),
            (Value::Function(x), Value::Function(y)) => Ok(*x == *y),
            _ => Err(VmError::InvalidOperation),
        }
    }

    /// The kind of this value.
    pub fn value_type(&self) -> (r: Type)
        ensures
            r == type_of(*self),
    {
        match self {
            Value::Nil => Type::Nil,
            Value::Usize(_) => Type::Usize,
            Value::U32(_) => Type::U32,
            Value::U64(_) => Type::U64,
            Value::I32(_) => Type::I32,
            Value::I64(_) => Type::I64,
            Value::StringRef { .. } => Type::StringRef,
            Value::Bool(_) => Type::Bool,
            Value::Struct { field_count } => Type::Struct(*field_count),
            Value::Table(_) => Type::Table,
            Value::Cursor(_) => Type::Cursor,
            Value::Function(f) => Type::Function(f.args),
        }
    }
}

} // verus!
