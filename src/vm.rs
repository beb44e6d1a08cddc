//! The interpreter: a fetch-execute loop over one shared stack that holds operands and the
//! current call frame, and a separate stack of return records.
//!
//! The meaning of each instruction is given by [`next`], a function from machine state to the
//! outcome of one step; [`Vm::step`] and [`Vm::run`] are proved to follow it.
use vstd::prelude::*;

use crate::op::Op;
use crate::table::{query_result, Cursor, FnTable, Table, TableTypes};
use crate::value::{copyable, type_of, Type, Value, VmError};

verus! {

/// The most steps that [`Vm::run`] executes before it gives up.
pub const STEP_LIMIT: u64 = 0xffff_ffff_ffff_ffff;

/// What `Call` records so that `Return` can resume the caller.
#[derive(Clone, Copy, Debug, PartialEq, Eq, Structural)]
pub struct RetInfo {
    pub instruction_pointer: usize,
    pub frame_ptr: usize,
    pub ret_count: usize,
}

/// A compiled program: where to start, the instructions, the function table, and the field
/// kinds of each struct type by id.
#[derive(Debug)]
pub struct Module {
    pub start: usize,
    pub code: Vec<Op>,
    pub functions: FnTable,
    pub types: Vec<(u32, Vec<Type>)>,
}

/// The state of the machine apart from its code.
pub struct MachineState {
    pub ip: usize,
    pub fp: usize,
    pub stack: Seq<Value>,
    pub calls: Seq<RetInfo>,
}

/// The outcome of one step.
pub enum Step {
    Halted,
    Next(MachineState),
    Failed(VmError),
}

/// The number of slots of the unit whose last slot is `st[i]`.
pub open spec fn unit_width(st: Seq<Value>, i: int) -> int {
    match st[i] {
        Value::Struct { field_count } => field_count + 1,
        _ => 1,
    }
}

/// Whether `st[i]` exists and the unit it ends has all its slots on the stack.
pub open spec fn unit_fits(st: Seq<Value>, i: int) -> bool {
    0 <= i < st.len() && unit_width(st, i) <= i + 1
}

/// The slots of the unit whose last slot is `st[i]`.
pub open spec fn unit_at(st: Seq<Value>, i: int) -> Seq<Value> {
    st.subrange(i + 1 - unit_width(st, i), i + 1)
}

pub open spec fn all_copyable(u: Seq<Value>) -> bool {
    forall|k: int| 0 <= k < u.len() ==> copyable(#[trigger] u[k])
}

/// The stack without its top unit.
pub open spec fn popped_unit(st: Seq<Value>) -> Result<Seq<Value>, VmError> {
    if !unit_fits(st, st.len() - 1) {
        Err(VmError::StackUnderflow)
    } else {
        Ok(st.subrange(0, st.len() - unit_width(st, st.len() - 1)))
    }
}

/// The stack with its top two units exchanged.
pub open spec fn swapped_units(st: Seq<Value>) -> Result<Seq<Value>, VmError> {
    let top = st.len() - 1;
    if !unit_fits(st, top) {
        Err(VmError::StackUnderflow)
    } else {
        let rest = st.len() - unit_width(st, top);
        if !unit_fits(st, rest - 1) {
            Err(VmError::StackUnderflow)
        } else {
            let low = rest - unit_width(st, rest - 1);
            Ok(st.subrange(0, low) + st.subrange(rest, st.len() as int) + st.subrange(low, rest))
        }
    }
}

/// The stack with a copy of the unit that ends at `st[i]` pushed on top.
pub open spec fn copied_unit(st: Seq<Value>, i: int) -> Result<Seq<Value>, VmError> {
    if !unit_fits(st, i) {
        Err(VmError::StackUnderflow)
    } else if !all_copyable(unit_at(st, i)) {
        Err(VmError::InvalidOperation)
    } else {
        Ok(st + unit_at(st, i))
    }
}

/// The `Usize` operand on top of the stack, and the stack without it.
pub open spec fn popped_usize(st: Seq<Value>) -> Result<(usize, Seq<Value>), VmError> {
    if st.len() == 0 {
        Err(VmError::StackUnderflow)
    } else {
        match st.last() {
            Value::Usize(n) => Ok((n, st.drop_last())),
            _ => Err(VmError::InvalidOperation),
        }
    }
}

/// The sum of two numbers of one kind.
pub open spec fn sum_of(a: Value, b: Value) -> Result<Value, VmError> {
    match (a, b) {
        (Value::U32(x), Value::U32(y)) => if x + y <= u32::MAX {
            Ok(Value::U32((x + y) as u32))
        } else {
            Err(VmError::Overflow)
        },
        (Value::U64(x), Value::U64(y)) => if x + y <= u64::MAX {
            Ok(Value::U64((x + y) as u64))
        } else {
            Err(VmError::Overflow)
        },
        (Value::I32(x), Value::I32(y)) => if i32::MIN <= x + y <= i32::MAX {
            Ok(Value::I32((x + y) as i32))
        } else {
            Err(VmError::Overflow)
        },
        (Value::I64(x), Value::I64(y)) => if i64::MIN <= x + y <= i64::MAX {
            Ok(Value::I64((x + y) as i64))
        } else {
            Err(VmError::Overflow)
        },
        _ => Err(VmError::TypeCheck),
    }
}

/// The sum computed by an addition opcode bound to one numeric kind.
pub open spec fn typed_sum_of(kind: Type, a: Value, b: Value) -> Result<Value, VmError> {
    if type_of(a) == kind && type_of(b) == kind {
        sum_of(a, b)
    } else {
        Err(VmError::TypeCheck)
    }
}

pub open spec fn with_stack(s: MachineState, st: Seq<Value>) -> MachineState {
    MachineState { ip: s.ip, fp: s.fp, stack: st, calls: s.calls }
}

pub open spec fn stack_step(s: MachineState, r: Result<Seq<Value>, VmError>) -> Step {
    match r {
        Ok(st) => Step::Next(with_stack(s, st)),
        Err(e) => Step::Failed(e),
    }
}

pub open spec fn push_step(s: MachineState, v: Value) -> Step {
    Step::Next(with_stack(s, s.stack.push(v)))
}

/// Replaces the two operands on top of the stack by the result of an addition.
pub open spec fn add_step(s: MachineState, r: Result<Value, VmError>) -> Step {
    match r {
        Ok(v) => Step::Next(with_stack(s, s.stack.subrange(0, s.stack.len() - 2).push(v))),
        Err(e) => Step::Failed(e),
    }
}

/// `Found`, `Delete` or `Advance`: no kind of cursor supports them yet.
pub open spec fn cursor_step(s: MachineState) -> Step {
    if s.stack.len() == 0 {
        Step::Failed(VmError::StackUnderflow)
    } else if s.stack.last() is Cursor {
        Step::Failed(VmError::Unsupported)
    } else {
        Step::Failed(VmError::InvalidOperation)
    }
}

/// `Insert` or `Update`, which hand a cursor the record above it: no kind of cursor supports
/// them yet.
pub open spec fn cursor_record_step(s: MachineState) -> Step {
    let st = s.stack;
    let top = st.len() - 1;
    if !unit_fits(st, top) {
        Step::Failed(VmError::StackUnderflow)
    } else if !(st[top] is Struct) {
        Step::Failed(VmError::InvalidOperation)
    } else {
        let rest = st.len() - unit_width(st, top);
        if rest == 0 {
            Step::Failed(VmError::StackUnderflow)
        } else if st[rest - 1] is Cursor {
            Step::Failed(VmError::Unsupported)
        } else {
            Step::Failed(VmError::InvalidOperation)
        }
    }
}

/// `Query`: the struct on top is the query, the value beneath it the table.
pub open spec fn query_step(s: MachineState) -> Step {
    let st = s.stack;
    if st.len() == 0 {
        Step::Failed(VmError::StackUnderflow)
    } else {
        match st.last() {
            Value::Struct { field_count } => if field_count >= st.len() {
                Step::Failed(VmError::StackUnderflow)
            } else {
                let low = st.len() - 1 - field_count;
                let fields = st.subrange(low, st.len() - 1);
                if low == 0 {
                    Step::Failed(VmError::StackUnderflow)
                } else {
                    match st[low - 1] {
                        Value::Table(t) => Step::Next(
                            with_stack(
                                s,
                                st.subrange(0, low - 1).push(Value::Cursor(query_result(t, fields))),
                            ),
                        ),
                        _ => Step::Failed(VmError::InvalidOperation),
                    }
                }
            },
            _ => Step::Failed(VmError::InvalidOperation),
        }
    }
}

/// `Read` and `Close`: act on the cursor on top of the stack.
pub open spec fn read_step(s: MachineState, close: bool) -> Step {
    if s.stack.len() == 0 {
        Step::Failed(VmError::StackUnderflow)
    } else {
        match s.stack.last() {
            Value::Cursor(c) => if close {
                Step::Next(with_stack(s, s.stack.drop_last().push(Value::Table(c.table()))))
            } else {
                Step::Next(
                    with_stack(s, s.stack.drop_last().push(c.record()).push(Value::Cursor(c))),
                )
            },
            _ => Step::Failed(VmError::InvalidOperation),
        }
    }
}

/// `Call`: the function reference on top, then the argument count, then the return count.
pub open spec fn call_step(s: MachineState, resume: usize) -> Step {
    if s.stack.len() == 0 {
        Step::Failed(VmError::StackUnderflow)
    } else {
        match s.stack.last() {
            Value::Function(f) => match popped_usize(s.stack.drop_last()) {
                Err(e) => Step::Failed(e),
                Ok((arg_count, st1)) => match popped_usize(st1) {
                    Err(e) => Step::Failed(e),
                    Ok((ret_count, st2)) => if arg_count > st2.len() {
                        Step::Failed(VmError::StackUnderflow)
                    } else {
                        Step::Next(
                            MachineState {
                                ip: f.offset,
                                fp: (st2.len() - arg_count) as usize,
                                stack: st2,
                                calls: s.calls.push(
                                    RetInfo {
                                        instruction_pointer: resume,
                                        frame_ptr: s.fp,
                                        ret_count,
                                    },
                                ),
                            },
                        )
                    },
                },
            },
            _ => Step::Failed(VmError::InvalidOperation),
        }
    }
}

/// `Return`: resume at the record on top of the call stack.
pub open spec fn return_step(s: MachineState) -> Step {
    if s.calls.len() == 0 {
        Step::Failed(VmError::InvalidOperation)
    } else {
        let r = s.calls.last();
        Step::Next(
            MachineState {
                ip: r.instruction_pointer,
                fp: r.frame_ptr,
                stack: s.stack,
                calls: s.calls.drop_last(),
            },
        )
    }
}

/// `Store`: move the value under the offset into frame slot `offset`.
pub open spec fn store_step(s: MachineState) -> Step {
    match popped_usize(s.stack) {
        Err(e) => Step::Failed(e),
        Ok((offset, st)) => if st.len() == 0 {
            Step::Failed(VmError::StackUnderflow)
        } else if st.last() is Struct {
            Step::Failed(VmError::InvalidOperation)
        } else if s.fp + offset >= st.len() - 1 {
            Step::Failed(VmError::OutOfBounds)
        } else {
            Step::Next(with_stack(s, st.drop_last().update(s.fp + offset, st.last())))
        },
    }
}

/// `CopyFrom` (from the top, by depth) and `Load` (from the frame, by offset).
pub open spec fn copy_from_step(s: MachineState, from_frame: bool) -> Step {
    match popped_usize(s.stack) {
        Err(e) => Step::Failed(e),
        Ok((n, st)) => {
            let i = if from_frame {
                s.fp + n
            } else {
                st.len() - n
            };
            if (from_frame && i >= st.len()) || (!from_frame && (n < 1 || n > st.len())) {
                Step::Failed(VmError::OutOfBounds)
            } else {
                stack_step(s, copied_unit(st, i))
            }
        },
    }
}

/// `Struct`: put a header over the top `count` slots.
pub open spec fn struct_step(s: MachineState) -> Step {
    match popped_usize(s.stack) {
        Err(e) => Step::Failed(e),
        Ok((count, st)) => if count > st.len() {
            Step::Failed(VmError::StackUnderflow)
        } else {
            Step::Next(with_stack(s, st.push(Value::Struct { field_count: count })))
        },
    }
}

/// `StructRead`: copy field `index` of the struct on top.
pub open spec fn struct_read_step(s: MachineState) -> Step {
    match popped_usize(s.stack) {
        Err(e) => Step::Failed(e),
        Ok((index, st)) => if st.len() == 0 {
            Step::Failed(VmError::StackUnderflow)
        } else {
            match st.last() {
                Value::Struct { field_count } => if field_count >= st.len() {
                    Step::Failed(VmError::StackUnderflow)
                } else if index >= field_count {
                    Step::Failed(VmError::OutOfBounds)
                } else {
                    let v = st[st.len() - 1 - field_count + index];
                    if v is Struct || !copyable(v) {
                        Step::Failed(VmError::InvalidOperation)
                    } else {
                        Step::Next(with_stack(s, st.push(v)))
                    }
                },
                _ => Step::Failed(VmError::InvalidOperation),
            }
        },
    }
}

/// The outcome of executing the instruction at `s.ip`.
pub open spec fn next(code: Seq<Op>, s: MachineState) -> Step {
    if s.ip >= code.len() {
        Step::Failed(VmError::InvalidInstruction)
    } else {
        let t = MachineState { ip: (s.ip + 1) as usize, fp: s.fp, stack: s.stack, calls: s.calls };
        let st = s.stack;
        let n = st.len();
        match code[s.ip as int] {
            Op::Noop => Step::Next(t),
            Op::Halt => Step::Halted,
            Op::Pop => stack_step(t, popped_unit(st)),
            Op::Swap => stack_step(t, swapped_units(st)),
            Op::Copy => stack_step(t, copied_unit(st, n - 1)),
            Op::CopyFrom => copy_from_step(t, false),
            Op::Load => copy_from_step(t, true),
            Op::Store => store_step(t),
            Op::Call => call_step(t, t.ip),
            Op::Return => return_step(t),
            Op::Query => query_step(t),
            Op::Found => cursor_step(t),
            Op::Read => read_step(t, false),
            Op::Insert => cursor_record_step(t),
            Op::Update => cursor_record_step(t),
            Op::Delete => cursor_step(t),
            Op::Advance => cursor_step(t),
            Op::Close => read_step(t, true),
            Op::Nil => push_step(t, Value::Nil),
            Op::Fn(f) => push_step(t, Value::Function(f)),
            Op::I32(v) => push_step(t, Value::I32(v)),
            Op::I64(v) => push_step(t, Value::I64(v)),
            Op::U32(v) => push_step(t, Value::U32(v)),
            Op::U64(v) => push_step(t, Value::U64(v)),
            Op::Usize(v) => push_step(t, Value::Usize(v)),
            Op::Bool(v) => push_step(t, Value::Bool(v)),
            Op::Struct => struct_step(t),
            Op::StructRead => struct_read_step(t),
            Op::Add => if n < 2 {
                Step::Failed(VmError::StackUnderflow)
            } else {
                add_step(t, sum_of(st[n - 1], st[n - 2]))
            },
            Op::AddU32 => if n < 2 {
                Step::Failed(VmError::StackUnderflow)
            } else {
                add_step(t, typed_sum_of(Type::U32, st[n - 1], st[n - 2]))
            },
            Op::AddU64 => if n < 2 {
                Step::Failed(VmError::StackUnderflow)
            } else {
                add_step(t, typed_sum_of(Type::U64, st[n - 1], st[n - 2]))
            },
            Op::AddI32 => if n < 2 {
                Step::Failed(VmError::StackUnderflow)
            } else {
                add_step(t, typed_sum_of(Type::I32, st[n - 1], st[n - 2]))
            },
            Op::AddI64 => if n < 2 {
                Step::Failed(VmError::StackUnderflow)
            } else {
                add_step(t, typed_sum_of(Type::I64, st[n - 1], st[n - 2]))
            },
        }
    }
}

/// The outcome of running from `s` for at most `fuel` steps: the state in which `Halt` was
/// reached, or the error that stopped the machine.
pub open spec fn run_from(code: Seq<Op>, s: MachineState, fuel: nat) -> Result<MachineState, VmError>
    decreases fuel,
{
    if fuel == 0 {
        Err(VmError::StepLimit)
    } else {
        match next(code, s) {
            Step::Halted => Ok(s),
            Step::Failed(e) => Err(e),
            Step::Next(t) => run_from(code, t, (fuel - 1) as nat),
        }
    }
}

/// The outcome of executing `n` steps from `s`, stopping early at `Halt` or an error.
pub open spec fn steps(code: Seq<Op>, s: MachineState, n: nat) -> Step
    decreases n,
{
    if n == 0 {
        Step::Next(s)
    } else {
        match next(code, s) {
            Step::Next(t) => steps(code, t, (n - 1) as nat),
            other => other,
        }
    }
}

/// Whether `r` reports the outcome `expected` of an operation on a stack now holding `now`.
pub open spec fn reports(r: Result<(), VmError>, now: Seq<Value>, expected: Result<Seq<Value>, VmError>) -> bool {
    match expected {
        Ok(st) => r is Ok && now == st,
        Err(e) => r == Err::<(), VmError>(e),
    }
}

/// The width of the unit that ends at `stack[i]`, where all its slots are on the stack.
fn width_at(stack: &Vec<Value>, i: usize) -> (r: Option<usize>)
    requires
        i < stack@.len(),
    ensures
        match r {
            Some(w) => unit_fits(stack@, i as int) && w == unit_width(stack@, i as int),
            None => !unit_fits(stack@, i as int),
        },
{
    let len = stack.len();
    assert(i < len);
    match &stack[i] {
        Value::Struct { field_count } => if *field_count <= i {
            Some(*field_count + 1)
        } else {
            None
        },
        _ => Some(1),
    }
}

/// Removes the top unit.
fn pop_unit(stack: &mut Vec<Value>) -> (r: Result<(), VmError>)
    ensures
        reports(r, final(stack)@, popped_unit(old(stack)@)),
{
    let len = stack.len();
    if len == 0 {
        return Err(VmError::StackUnderflow);
    }
    match width_at(stack, len - 1) {
        Some(w) => {
            stack.truncate(len - w);
            Ok(())
        },
        None => Err(VmError::StackUnderflow),
    }
}

/// Exchanges the top two units.
fn swap_units(stack: &mut Vec<Value>) -> (r: Result<(), VmError>)
    ensures
        reports(r, final(stack)@, swapped_units(old(stack)@)),
{
    let len = stack.len();
    if len == 0 {
        return Err(VmError::StackUnderflow);
    }
    let top_width = match width_at(stack, len - 1) {
        Some(w) => w,
        None => return Err(VmError::StackUnderflow),
    };
    let rest = len - top_width;
    if rest == 0 {
        return Err(VmError::StackUnderflow);
    }
    let low_width = match width_at(stack, rest - 1) {
        Some(w) => w,
        None => return Err(VmError::StackUnderflow),
    };
    let ghost st = stack@;
    let mut top = stack.split_off(rest);
    let mut low = stack.split_off(rest - low_width);
    stack.append(&mut top);
    stack.append(&mut low);
    proof {
        let lo = rest - low_width;
        assert(stack@ =~= st.subrange(0, lo as int) + st.subrange(rest as int, len as int)
            + st.subrange(lo as int, rest as int));
    }
    Ok(())
}

/// Pushes a copy of the unit that ends at `stack[i]`.
fn copy_unit(stack: &mut Vec<Value>, i: usize) -> (r: Result<(), VmError>)
    requires
        i < old(stack)@.len(),
    ensures
        reports(r, final(stack)@, copied_unit(old(stack)@, i as int)),
{
    let len = stack.len();
    let w = match width_at(stack, i) {
        Some(w) => w,
        None => return Err(VmError::StackUnderflow),
    };
    let ghost st = stack@;
    let ghost u = unit_at(st, i as int);
    let start = i + 1 - w;
    let mut k = start;
    while k <= i
        invariant
            w == unit_width(st, i as int),
            unit_fits(st, i as int),
            st == old(stack)@,
            i < len,
            start == i + 1 - w,
            start <= k <= i + 1,
            i < st.len(),
            u == unit_at(st, i as int),
            stack@ == st + st.subrange(start as int, k as int),
            forall|j: int| 0 <= j < k - start ==> copyable(#[trigger] u[j]),
        decreases i + 1 - k,
    {
        assert(stack@[k as int] == st[k as int]);
        match stack[k].copy_value() {
            Ok(v) => {
                stack.push(v);
                proof {
                    assert(stack@ =~= st + st.subrange(start as int, k + 1));
                    assert(u[k - start] == st[k as int]);
                }
            },
            Err(e) => {
                proof {
                    assert(u[k - start] == st[k as int]);
                    assert(!copyable(u[k - start]));
                    assert(!all_copyable(u));
                    assert(e == VmError::InvalidOperation);
                }
                return Err(e);
            },
        }
        k = k + 1;
    }
    proof {
        assert(st.subrange(start as int, k as int) =~= u);
    }
    Ok(())
}

/// Pops the `Usize` operand on top of the stack.
fn pop_usize(stack: &mut Vec<Value>) -> (r: Result<usize, VmError>)
    ensures
        match popped_usize(old(stack)@) {
            Ok((n, rest)) => r == Ok::<usize, VmError>(n) && final(stack)@ == rest,
            Err(e) => r == Err::<usize, VmError>(e),
        },
{
    let len = stack.len();
    if len == 0 {
        return Err(VmError::StackUnderflow);
    }
    let n = match &stack[len - 1] {
        Value::Usize(n) => *n,
        _ => return Err(VmError::InvalidOperation),
    };
    stack.pop();
    Ok(n)
}

/// Adds two numbers of one kind.
fn add_values(a: &Value, b: &Value) -> (r: Result<Value, VmError>)
    ensures
        r == sum_of(*a, *b),
{
    match (a, b) {
        (Value::U32(x), Value::U32(y)) => match x.checked_add(*y) {
            Some(v) => Ok(Value::U32(v)),
            None => Err(VmError::Overflow),
        },
        (Value::U64(x), Value::U64(y)) => match x.checked_add(*y) {
            Some(v) => Ok(Value::U64(v)),
            None => Err(VmError::Overflow),
        },
        (Value::I32(x), Value::I32(y)) => match x.checked_add(*y) {
            Some(v) => Ok(Value::I32(v)),
            None => Err(VmError::Overflow),
        },
        (Value::I64(x), Value::I64(y)) => match x.checked_add(*y) {
            Some(v) => Ok(Value::I64(v)),
            None => Err(VmError::Overflow),
        },
        _ => Err(VmError::TypeCheck),
    }
}

/// Whether a step that returned `r` and left the machine in `after` did what `expected` says.
pub open spec fn follows(r: Result<bool, VmError>, after: MachineState, expected: Step) -> bool {
    match expected {
        Step::Halted => r == Ok::<bool, VmError>(true),
        Step::Next(s) => r == Ok::<bool, VmError>(false) && after == s,
        Step::Failed(e) => r == Err::<bool, VmError>(e),
    }
}

/// The state a machine starts in: the function table alone on the stack, the first frame just
/// above it, and a return record that resumes at instruction 0.
pub open spec fn initial_state(start: usize, functions: FnTable) -> MachineState {
    MachineState {
        ip: start,
        fp: 1,
        stack: seq![Value::Table(TableTypes::Fn(functions))],
        calls: seq![RetInfo { instruction_pointer: 0, frame_ptr: 0, ret_count: 0 }],
    }
}

/// A running machine: it owns one module's code, its stack and its call stack.
pub struct Vm {
    frame_ptr: usize,
    instruction_pointer: usize,
    stack: Vec<Value>,
    types: Vec<(u32, Vec<Type>)>,
    call_stack: Vec<RetInfo>,
    code: Vec<Op>,
}

impl Vm {
    pub closed spec fn state(&self) -> MachineState {
        MachineState {
            ip: self.instruction_pointer,
            fp: self.frame_ptr,
            stack: self.stack@,
            calls: self.call_stack@,
        }
    }

    pub closed spec fn program(&self) -> Seq<Op> {
        self.code@
    }

    /// The field kinds of each struct type, by id.
    pub closed spec fn type_table(&self) -> Seq<(u32, Vec<Type>)> {
        self.types@
    }

    /// A machine about to run `module` from its start.
    pub fn new(module: Module) -> (vm: Vm)
        ensures
            vm.program() == module.code@,
            vm.type_table() == module.types@,
            vm.state() == initial_state(module.start, module.functions),
    {
        let ghost table = module.functions;
        let stack = vec![Value::Table(TableTypes::Fn(module.functions))];
        let bottom = RetInfo { instruction_pointer: 0, frame_ptr: 0, ret_count: 0 };
        let call_stack = vec![bottom];
        assert(stack@ =~= seq![Value::Table(TableTypes::Fn(table))]);
        assert(call_stack@ =~= seq![bottom]);
        Vm {
            frame_ptr: 1,
            instruction_pointer: module.start,
            stack,
            types: module.types,
            call_stack,
            code: module.code,
        }
    }

    pub fn stack_len(&self) -> (n: usize)
        ensures
            n == self.state().stack.len(),
    {
        self.stack.len()
    }

    pub fn stack(&self) -> (r: &Vec<Value>)
        ensures
            r@ == self.state().stack,
    {
        &self.stack
    }

    pub fn code(&self) -> (r: &Vec<Op>)
        ensures
            r@ == self.program(),
    {
        &self.code
    }

    pub fn types(&self) -> (r: &Vec<(u32, Vec<Type>)>)
        ensures
            r@ == self.type_table(),
    {
        &self.types
    }

    pub fn instruction_pointer(&self) -> (ip: usize)
        ensures
            ip == self.state().ip,
    {
        self.instruction_pointer
    }

    pub fn frame_ptr(&self) -> (fp: usize)
        ensures
            fp == self.state().fp,
    {
        self.frame_ptr
    }

    /// The number of return records: one more than the number of unreturned calls.
    pub fn call_depth(&self) -> (n: usize)
        ensures
            n == self.state().calls.len(),
    {
        self.call_stack.len()
    }

    pub fn stack_get(&self, index: usize) -> (r: Option<&Value>)
        ensures
            match r {
                Some(v) => index < self.state().stack.len() && *v == self.state().stack[index as int],
                None => index >= self.state().stack.len(),
            },
    {
        if index < self.stack.len() {
            Some(&self.stack[index])
        } else {
            None
        }
    }

    /// `Store`, on a machine whose instruction pointer has moved on.
    fn exec_store(&mut self) -> (r: Result<bool, VmError>)
        ensures
            final(self).code@ == old(self).code@,
            final(self).types == old(self).types,
            follows(r, final(self).state(), store_step(old(self).state())),
    {
        let offset = match pop_usize(&mut self.stack) {
            Ok(n) => n,
            Err(e) => return Err(e),
        };
        let len = self.stack.len();
        if len == 0 {
            return Err(VmError::StackUnderflow);
        }
        if let Value::Struct { .. } = &self.stack[len - 1] {
            return Err(VmError::InvalidOperation);
        }
        let fp = self.frame_ptr;
        if fp >= len - 1 || offset >= len - 1 - fp {
            return Err(VmError::OutOfBounds);
        }
        let ghost st = self.stack@;
        match self.stack.pop() {
            Some(v) => {
                self.stack.set(fp + offset, v);
                assert(self.stack@ =~= st.drop_last().update(fp + offset, st.last()));
                Ok(false)
            },
            None => Err(VmError::StackUnderflow),
        }
    }

    /// `CopyFrom` or `Load`, on a machine whose instruction pointer has moved on.
    fn exec_copy_from(&mut self, from_frame: bool) -> (r: Result<bool, VmError>)
        ensures
            final(self).code@ == old(self).code@,
            final(self).types == old(self).types,
            follows(r, final(self).state(), copy_from_step(old(self).state(), from_frame)),
    {
        let n = match pop_usize(&mut self.stack) {
            Ok(n) => n,
            Err(e) => return Err(e),
        };
        let len = self.stack.len();
        let fp = self.frame_ptr;
        let i = if from_frame {
            if fp >= len || n >= len - fp {
                return Err(VmError::OutOfBounds);
            }
            fp + n
        } else {
            if n < 1 || n > len {
                return Err(VmError::OutOfBounds);
            }
            len - n
        };
        match copy_unit(&mut self.stack, i) {
            Ok(()) => Ok(false),
            Err(e) => Err(e),
        }
    }

    /// `Call`, on a machine whose instruction pointer has moved on.
    fn exec_call(&mut self) -> (r: Result<bool, VmError>)
        ensures
            final(self).code@ == old(self).code@,
            final(self).types == old(self).types,
            follows(r, final(self).state(), call_step(old(self).state(), old(self).state().ip)),
    {
        let f = match self.stack.pop() {
            Some(Value::Function(f)) => f,
            Some(_) => return Err(VmError::InvalidOperation),
            None => return Err(VmError::StackUnderflow),
        };
        let arg_count = match pop_usize(&mut self.stack) {
            Ok(n) => n,
            Err(e) => return Err(e),
        };
        let ret_count = match pop_usize(&mut self.stack) {
            Ok(n) => n,
            Err(e) => return Err(e),
        };
        let len = self.stack.len();
        if arg_count > len {
            return Err(VmError::StackUnderflow);
        }
        self.call_stack.push(
            RetInfo { instruction_pointer: self.instruction_pointer, frame_ptr: self.frame_ptr, ret_count },
        );
        self.frame_ptr = len - arg_count;
        self.instruction_pointer = f.offset;
        Ok(false)
    }

    /// `Query`, on a machine whose instruction pointer has moved on.
    fn exec_query(&mut self) -> (r: Result<bool, VmError>)
        ensures
            final(self).code@ == old(self).code@,
            final(self).types == old(self).types,
            follows(r, final(self).state(), query_step(old(self).state())),
    {
        let len = self.stack.len();
        if len == 0 {
            return Err(VmError::StackUnderflow);
        }
        let n = match &self.stack[len - 1] {
            Value::Struct { field_count } => *field_count,
            _ => return Err(VmError::InvalidOperation),
        };
        if n >= len {
            return Err(VmError::StackUnderflow);
        }
        let low = len - 1 - n;
        if low == 0 {
            return Err(VmError::StackUnderflow);
        }
        if let Value::Table(_) = &self.stack[low - 1] {
        } else {
            return Err(VmError::InvalidOperation);
        }
        let ghost st = self.stack@;
        self.stack.pop();
        let fields = self.stack.split_off(low);
        assert(fields@ =~= st.subrange(low as int, len - 1));
        match self.stack.pop() {
            Some(Value::Table(t)) => {
                let c = t.find(&fields);
                self.stack.push(Value::Cursor(c));
                assert(self.stack@ =~= st.subrange(0, low - 1).push(Value::Cursor(c)));
                Ok(false)
            },
            _ => Err(VmError::InvalidOperation),
        }
    }

    /// `Read` or `Close`, on a machine whose instruction pointer has moved on.
    fn exec_read(&mut self, close: bool) -> (r: Result<bool, VmError>)
        ensures
            final(self).code@ == old(self).code@,
            final(self).types == old(self).types,
            follows(r, final(self).state(), read_step(old(self).state(), close)),
    {
        match self.stack.pop() {
            Some(Value::Cursor(c)) => {
                if close {
                    let t = c.close();
                    self.stack.push(Value::Table(t));
                } else {
                    match c.read(&mut self.stack) {
                        Ok(()) => {},
                        Err(e) => return Err(e),
                    }
                    self.stack.push(Value::Cursor(c));
                }
                Ok(false)
            },
            Some(_) => Err(VmError::InvalidOperation),
            None => Err(VmError::StackUnderflow),
        }
    }

    /// `Found`, `Delete` or `Advance`, on a machine whose instruction pointer has moved on.
    fn exec_cursor(&mut self, op: Op) -> (r: Result<bool, VmError>)
        requires
            op == Op::Found || op == Op::Delete || op == Op::Advance,
        ensures
            final(self).code@ == old(self).code@,
            final(self).types == old(self).types,
            follows(r, final(self).state(), cursor_step(old(self).state())),
    {
        match self.stack.pop() {
            Some(Value::Cursor(c)) => {
                let mut c = c;
                match op {
                    Op::Found => match c.found() {
                        Ok(found) => {
                            self.stack.push(Value::Cursor(c));
                            self.stack.push(Value::Bool(found));
                            Ok(false)
                        },
                        Err(e) => Err(e),
                    },
                    Op::Delete => match c.delete() {
                        Ok(()) => {
                            self.stack.push(Value::Cursor(c));
                            Ok(false)
                        },
                        Err(e) => Err(e),
                    },
                    _ => match c.advance() {
                        Ok(more) => {
                            self.stack.push(Value::Cursor(c));
                            self.stack.push(Value::Bool(more));
                            Ok(false)
                        },
                        Err(e) => Err(e),
                    },
                }
            },
            Some(_) => Err(VmError::InvalidOperation),
            None => Err(VmError::StackUnderflow),
        }
    }

    /// `Insert` or `Update`, on a machine whose instruction pointer has moved on.
    fn exec_cursor_record(&mut self, update: bool) -> (r: Result<bool, VmError>)
        ensures
            final(self).code@ == old(self).code@,
            final(self).types == old(self).types,
            follows(r, final(self).state(), cursor_record_step(old(self).state())),
    {
        let len = self.stack.len();
        if len == 0 {
            return Err(VmError::StackUnderflow);
        }
        let w = match width_at(&self.stack, len - 1) {
            Some(w) => w,
            None => return Err(VmError::StackUnderflow),
        };
        if let Value::Struct { .. } = &self.stack[len - 1] {
        } else {
            return Err(VmError::InvalidOperation);
        }
        let rest = len - w;
        if rest == 0 {
            return Err(VmError::StackUnderflow);
        }
        let mut record = self.stack.split_off(rest);
        match self.stack.pop() {
            Some(Value::Cursor(c)) => {
                let mut c = c;
                let r = if update {
                    c.update(&mut record)
                } else {
                    c.insert(&mut record)
                };
                match r {
                    Ok(()) => {
                        self.stack.push(Value::Cursor(c));
                        Ok(false)
                    },
                    Err(e) => Err(e),
                }
            },
            _ => Err(VmError::InvalidOperation),
        }
    }

    /// `Struct` or `StructRead`, on a machine whose instruction pointer has moved on.
    fn exec_struct(&mut self, read: bool) -> (r: Result<bool, VmError>)
        ensures
            final(self).code@ == old(self).code@,
            final(self).types == old(self).types,
            follows(
                r,
                final(self).state(),
                if read {
                    struct_read_step(old(self).state())
                } else {
                    struct_step(old(self).state())
                },
            ),
    {
        let n = match pop_usize(&mut self.stack) {
            Ok(n) => n,
            Err(e) => return Err(e),
        };
        let len = self.stack.len();
        if !read {
            if n > len {
                return Err(VmError::StackUnderflow);
            }
            self.stack.push(Value::Struct { field_count: n });
            return Ok(false);
        }
        if len == 0 {
            return Err(VmError::StackUnderflow);
        }
        let field_count = match &self.stack[len - 1] {
            Value::Struct { field_count } => *field_count,
            _ => return Err(VmError::InvalidOperation),
        };
        if field_count >= len {
            return Err(VmError::StackUnderflow);
        }
        if n >= field_count {
            return Err(VmError::OutOfBounds);
        }
        let i = len - 1 - field_count + n;
        if let Value::Struct { .. } = &self.stack[i] {
            return Err(VmError::InvalidOperation);
        }
        match self.stack[i].copy_value() {
            Ok(v) => {
                self.stack.push(v);
                Ok(false)
            },
            Err(e) => Err(e),
        }
    }

    /// An addition, on a machine whose instruction pointer has moved on.
    fn exec_add(&mut self, op: Op) -> (r: Result<bool, VmError>)
        requires
            op == Op::Add || op == Op::AddU32 || op == Op::AddU64 || op == Op::AddI32 || op
                == Op::AddI64,
        ensures
            final(self).code@ == old(self).code@,
            final(self).types == old(self).types,
            ({
                let st = old(self).state().stack;
                let n = st.len();
                if n < 2 {
                    r == Err::<bool, VmError>(VmError::StackUnderflow)
                } else {
                    follows(
                        r,
                        final(self).state(),
                        add_step(
                            old(self).state(),
                            match op {
                                Op::AddU32 => typed_sum_of(Type::U32, st[n - 1], st[n - 2]),
                                Op::AddU64 => typed_sum_of(Type::U64, st[n - 1], st[n - 2]),
                                Op::AddI32 => typed_sum_of(Type::I32, st[n - 1], st[n - 2]),
                                Op::AddI64 => typed_sum_of(Type::I64, st[n - 1], st[n - 2]),
                                _ => sum_of(st[n - 1], st[n - 2]),
                            },
                        ),
                    )
                }
            }),
    {
        let len = self.stack.len();
        if len < 2 {
            return Err(VmError::StackUnderflow);
        }
        let kinds_match = match (op, &self.stack[len - 1], &self.stack[len - 2]) {
            (Op::AddU32, Value::U32(_), Value::U32(_)) => true,
            (Op::AddU64, Value::U64(_), Value::U64(_)) => true,
            (Op::AddI32, Value::I32(_), Value::I32(_)) => true,
            (Op::AddI64, Value::I64(_), Value::I64(_)) => true,
            (Op::Add, _, _) => true,
            _ => false,
        };
        if !kinds_match {
            return Err(VmError::TypeCheck);
        }
        match add_values(&self.stack[len - 1], &self.stack[len - 2]) {
            Ok(v) => {
                self.stack.truncate(len - 2);
                self.stack.push(v);
                Ok(false)
            },
            Err(e) => Err(e),
        }
    }

    /// Executes the instruction at the instruction pointer; tells whether it was `Halt`.
    pub fn step(&mut self) -> (r: Result<bool, VmError>)
        ensures
            final(self).program() == old(self).program(),
            final(self).type_table() == old(self).type_table(),
            follows(r, final(self).state(), next(old(self).program(), old(self).state())),
            r == Ok::<bool, VmError>(true) ==> final(self).state() == old(self).state(),
    {
        let ip = self.instruction_pointer;
        if ip >= self.code.len() {
            return Err(VmError::InvalidInstruction);
        }
        let op = self.code[ip];
        if let Op::Halt = op {
            return Ok(true);
        }
        self.instruction_pointer = ip + 1;
        match op {
            Op::Noop => Ok(false),
            Op::Halt => Ok(true),
            Op::Pop => match pop_unit(&mut self.stack) {
                Ok(()) => Ok(false),
                Err(e) => Err(e),
            },
            Op::Swap => match swap_units(&mut self.stack) {
                Ok(()) => Ok(false),
                Err(e) => Err(e),
            },
            Op::Copy => {
                let len = self.stack.len();
                if len == 0 {
                    return Err(VmError::StackUnderflow);
                }
                match copy_unit(&mut self.stack, len - 1) {
                    Ok(()) => Ok(false),
                    Err(e) => Err(e),
                }
            },
            Op::CopyFrom => self.exec_copy_from(false),
            Op::Load => self.exec_copy_from(true),
            Op::Store => self.exec_store(),
            Op::Call => self.exec_call(),
            Op::Return => match self.call_stack.pop() {
                Some(ret) => {
                    self.instruction_pointer = ret.instruction_pointer;
                    self.frame_ptr = ret.frame_ptr;
                    Ok(false)
                },
                None => Err(VmError::InvalidOperation),
            },
            Op::Query => self.exec_query(),
            Op::Read => self.exec_read(false),
            Op::Close => self.exec_read(true),
            Op::Found | Op::Delete | Op::Advance => self.exec_cursor(op),
            Op::Insert => self.exec_cursor_record(false),
            Op::Update => self.exec_cursor_record(true),
            Op::Struct => self.exec_struct(false),
            Op::StructRead => self.exec_struct(true),
            Op::Add | Op::AddU32 | Op::AddU64 | Op::AddI32 | Op::AddI64 => self.exec_add(op),
            Op::Nil => {
                self.stack.push(Value::Nil);
                Ok(false)
            },
            Op::Fn(f) => {
                self.stack.push(Value::Function(f));
                Ok(false)
            },
            Op::I32(v) => {
                self.stack.push(Value::I32(v));
                Ok(false)
            },
            Op::I64(v) => {
                self.stack.push(Value::I64(v));
                Ok(false)
            },
            Op::U32(v) => {
                self.stack.push(Value::U32(v));
                Ok(false)
            },
            Op::U64(v) => {
                self.stack.push(Value::U64(v));
                Ok(false)
            },
            Op::Usize(v) => {
                self.stack.push(Value::Usize(v));
                Ok(false)
            },
            Op::Bool(v) => {
                self.stack.push(Value::Bool(v));
                Ok(false)
            },
        }
    }

    /// Steps the machine until it executes `Halt` or an instruction fails, for at most
    /// [`STEP_LIMIT`] steps.
    pub fn run(&mut self) -> (r: Result<(), VmError>)
        ensures
            final(self).program() == old(self).program(),
            final(self).type_table() == old(self).type_table(),
            match run_from(old(self).program(), old(self).state(), STEP_LIMIT as nat) {
                Ok(s) => r is Ok && final(self).state() == s,
                Err(e) => r == Err::<(), VmError>(e),
            },
    {
        let mut fuel: u64 = STEP_LIMIT;
        while fuel > 0
            invariant
                self.program() == old(self).program(),
                self.type_table() == old(self).type_table(),
                run_from(old(self).program(), old(self).state(), STEP_LIMIT as nat) == run_from(
                    self.program(),
                    self.state(),
                    fuel as nat,
                ),
            decreases fuel,
        {
            match self.step() {
                Ok(true) => return Ok(()),
                Ok(false) => {},
                Err(e) => return Err(e),
            }
            fuel = fuel - 1;
        }
        Err(VmError::StepLimit)
    }
}

} // verus!
