//! A small stack-based virtual machine with struct-aware stack operations, a frame-relative call
//! convention, a function lookup table exposed through a table/cursor protocol, and a code
//! generator that lowers a syntax tree into the machine's instruction stream.
pub mod compile;
pub mod laws;
pub mod op;
pub mod table;
pub mod value;
pub mod vm;

pub use compile::{
    compile, compile_parsed, Expr, FunctionDef, LangError, ModuleBuilder, Program, Statement,
    VarValue,
};
pub use op::Op;
pub use table::{Cursor, CursorTypes, FnCursor, FnTable, Function, Table, TableTypes};
pub use value::{FunctionValue, Type, Value, VmError};
pub use vm::{Module, RetInfo, Vm, STEP_LIMIT};
