use colang::{FnTable, FunctionValue, Module, Op, TableTypes, Type, Value, Vm, VmError};

fn module(start: usize, code: Vec<Op>, functions: FnTable) -> Module {
    Module { start, code, functions, types: Vec::new() }
}

fn top_u32(vm: &Vm, index: usize) -> Option<u32> {
    match vm.stack_get(index) {
        Some(Value::U32(v)) => Some(*v),
        _ => None,
    }
}

#[test]
fn mod_struct_pop() -> Result<(), VmError> {
    let code = vec![
        Op::U32(1),
        Op::U32(5),
        Op::U32(7),
        Op::Usize(3),
        Op::Struct,
        Op::Pop,
        Op::Halt,
    ];
    let mut vm = Vm::new(module(0, code, FnTable::new()));
    vm.run()?;
    assert!(vm.stack_len() == 1);
    Ok(())
}

#[test]
fn mod_struct_swap1() -> Result<(), VmError> {
    let code = vec![
        Op::U32(1),
        Op::U32(5),
        Op::U32(7),
        Op::Usize(3),
        Op::Struct,
        Op::U32(11),
        Op::Swap,
        Op::Pop,
        Op::Halt,
    ];
    let mut vm = Vm::new(module(0, code, FnTable::new()));
    vm.run()?;
    assert!(vm.stack_len() == 2);
    let value = match &vm.stack()[1] {
        Value::U32(v) => Some(*v),
        _ => None,
    };
    assert!(value == Some(11));
    Ok(())
}

#[test]
fn mod_struct_swap2() -> Result<(), VmError> {
    let code = vec![
        Op::U32(11),
        Op::U32(13),
        Op::U32(17),
        Op::Usize(2),
        Op::Struct,
        Op::Swap,
        Op::Halt,
    ];
    let mut vm = Vm::new(module(0, code, FnTable::new()));
    vm.run()?;
    assert!(vm.stack_len() == 5);
    let value = match vm.stack().last() {
        Some(Value::U32(v)) => Some(*v),
        _ => None,
    };
    assert!(value == Some(11));
    Ok(())
}

#[test]
fn mod_struct_swap3() -> Result<(), VmError> {
    let code = vec![
        Op::U32(1),
        Op::U32(5),
        Op::U32(7),
        Op::Usize(3),
        Op::Struct,
        Op::U32(13),
        Op::U32(17),
        Op::Usize(2),
        Op::Struct,
        Op::Swap,
        Op::Pop,
        Op::Halt,
    ];
    let mut vm = Vm::new(module(0, code, FnTable::new()));
    vm.run()?;
    assert!(vm.stack_len() == 4);
    let value = match &vm.stack()[1] {
        Value::U32(v) => Some(*v),
        _ => None,
    };
    assert!(value == Some(13));
    Ok(())
}

#[test]
fn mod_main_test() -> Result<(), VmError> {
    let code = vec![Op::U32(5), Op::U32(7), Op::AddU32, Op::Halt];
    let mut vm = Vm::new(module(0, code, FnTable::new()));
    vm.run()?;
    assert!(vm.stack_len() == 2);
    let value = match &vm.stack()[1] {
        Value::U32(v) => Some(*v),
        _ => None,
    };
    assert!(value == Some(12));
    Ok(())
}

#[test]
fn mod_main_call() -> Result<(), VmError> {
    let code = vec![
        // the function with id 0
        Op::AddU32,
        Op::Return,
        // start
        Op::Nil,      // query value
        Op::U32(0),   // query key
        Op::Usize(2), // struct size
        Op::Struct,   // build the query struct
        Op::Query,    // run the query
        Op::Read,     // read the function value
        Op::U32(5),   // first argument
        Op::U32(7),   // second argument
        Op::Usize(1), // return count
        Op::Usize(2), // argument count
        Op::Usize(6), // function depth
        Op::CopyFrom,
        Op::Call,
        Op::Halt,
    ];
    let mut functions = FnTable::new();
    functions.add_fn("add".to_string(), FunctionValue { offset: 0, args: 2, frame_size: 2 });
    let mut vm = Vm::new(module(2, code, functions));
    vm.run()?;
    assert!(vm.stack_len() == 3);
    let value = match &vm.stack()[2] {
        Value::U32(v) => Some(*v),
        _ => None,
    };
    assert!(value == Some(12));
    Ok(())
}

#[test]
fn struct_round_trip_restores_stack() {
    let code = vec![
        Op::I64(-4),
        Op::U32(1),
        Op::U32(5),
        Op::U32(7),
        Op::Usize(3),
        Op::Struct,
        Op::Pop,
        Op::Halt,
    ];
    let mut vm = Vm::new(module(0, code, FnTable::new()));
    assert_eq!(vm.run(), Ok(()));
    assert_eq!(vm.stack_len(), 2);
    assert!(matches!(vm.stack_get(0), Some(Value::Table(_))));
    assert!(matches!(vm.stack_get(1), Some(Value::I64(-4))));
}

#[test]
fn empty_struct_is_a_header_alone() {
    let code = vec![Op::U32(3), Op::Usize(0), Op::Struct, Op::Copy, Op::Pop, Op::Pop, Op::Halt];
    let mut vm = Vm::new(module(0, code, FnTable::new()));
    assert_eq!(vm.run(), Ok(()));
    assert_eq!(vm.stack_len(), 2);
    assert_eq!(top_u32(&vm, 1), Some(3));
}

#[test]
fn copy_of_scalar_is_equal() {
    let code = vec![Op::U32(11), Op::Copy, Op::Halt];
    let mut vm = Vm::new(module(0, code, FnTable::new()));
    assert_eq!(vm.run(), Ok(()));
    assert_eq!(vm.stack_len(), 3);
    assert_eq!(top_u32(&vm, 2), Some(11));
    assert_eq!(Value::eq_value(&vm.stack()[1], &vm.stack()[2]), Ok(true));
}

#[test]
fn copy_of_struct_copies_fields_and_header() {
    let code = vec![
        Op::U32(1),
        Op::U32(5),
        Op::U32(7),
        Op::Usize(3),
        Op::Struct,
        Op::Copy,
        Op::Halt,
    ];
    let mut vm = Vm::new(module(0, code, FnTable::new()));
    assert_eq!(vm.run(), Ok(()));
    assert_eq!(vm.stack_len(), 9);
    assert_eq!(top_u32(&vm, 5), Some(1));
    assert_eq!(top_u32(&vm, 6), Some(5));
    assert_eq!(top_u32(&vm, 7), Some(7));
    assert!(matches!(vm.stack_get(8), Some(Value::Struct { field_count: 3 })));
}

#[test]
fn swapped_structs_keep_their_fields() {
    let code = vec![
        Op::U32(1),
        Op::U32(5),
        Op::U32(7),
        Op::Usize(3),
        Op::Struct,
        Op::U32(13),
        Op::U32(17),
        Op::Usize(2),
        Op::Struct,
        Op::Swap,
        Op::Usize(2),
        Op::StructRead,
        Op::Halt,
    ];
    let mut vm = Vm::new(module(0, code, FnTable::new()));
    assert_eq!(vm.run(), Ok(()));
    // the three-field struct is now on top, the two-field one beneath it
    assert_eq!(vm.stack_len(), 9);
    assert_eq!(top_u32(&vm, 1), Some(13));
    assert_eq!(top_u32(&vm, 2), Some(17));
    assert!(matches!(vm.stack_get(3), Some(Value::Struct { field_count: 2 })));
    assert!(matches!(vm.stack_get(7), Some(Value::Struct { field_count: 3 })));
    assert_eq!(top_u32(&vm, 8), Some(7));
}

#[test]
fn struct_read_after_swap_and_pop() {
    let code = vec![
        Op::U32(1),
        Op::U32(5),
        Op::U32(7),
        Op::Usize(3),
        Op::Struct,
        Op::U32(13),
        Op::U32(17),
        Op::Usize(2),
        Op::Struct,
        Op::Swap,
        Op::Pop,
        Op::Usize(0),
        Op::StructRead,
        Op::Halt,
    ];
    let mut vm = Vm::new(module(0, code, FnTable::new()));
    assert_eq!(vm.run(), Ok(()));
    assert_eq!(vm.stack_len(), 5);
    assert!(matches!(vm.stack_get(3), Some(Value::Struct { field_count: 2 })));
    assert_eq!(top_u32(&vm, 4), Some(13));
}

#[test]
fn call_and_return_restore_the_caller() {
    let code = vec![
        Op::AddU32,
        Op::Return,
        Op::U32(5),
        Op::U32(7),
        Op::Usize(1),
        Op::Usize(2),
        Op::Fn(FunctionValue { offset: 0, args: 2, frame_size: 2 }),
        Op::Call,
        Op::Halt,
    ];
    let mut vm = Vm::new(module(2, code, FnTable::new()));
    let depth = vm.call_depth();
    let fp = vm.frame_ptr();
    for _ in 0..5 {
        assert_eq!(vm.step(), Ok(false));
    }
    assert_eq!(vm.call_depth(), depth);
    // Call: the arguments start the callee's frame
    assert_eq!(vm.step(), Ok(false));
    assert_eq!(vm.instruction_pointer(), 0);
    assert_eq!(vm.call_depth(), depth + 1);
    assert_eq!(vm.frame_ptr(), 1);
    // AddU32, then Return
    assert_eq!(vm.step(), Ok(false));
    assert_eq!(vm.step(), Ok(false));
    assert_eq!(vm.instruction_pointer(), 8);
    assert_eq!(vm.call_depth(), depth);
    assert_eq!(vm.frame_ptr(), fp);
    assert_eq!(vm.step(), Ok(true));
    assert_eq!(vm.stack_len(), 2);
    assert_eq!(top_u32(&vm, 1), Some(12));
}

#[test]
fn load_and_store_address_the_frame() {
    // a function of one argument with one local: local = arg + arg; return local
    let code = vec![
        Op::Halt,
        Op::Nil,
        Op::Usize(0),
        Op::Load,
        Op::Usize(0),
        Op::Load,
        Op::AddU64,
        Op::Usize(1),
        Op::Store,
        Op::Usize(1),
        Op::Load,
        Op::Return,
        // start
        Op::U64(21),
        Op::Usize(1),
        Op::Usize(1),
        Op::Fn(FunctionValue { offset: 1, args: 1, frame_size: 2 }),
        Op::Call,
        Op::Halt,
    ];
    let mut vm = Vm::new(module(12, code, FnTable::new()));
    assert_eq!(vm.run(), Ok(()));
    assert_eq!(vm.stack_len(), 4);
    assert!(matches!(vm.stack_get(1), Some(Value::U64(21))));
    assert!(matches!(vm.stack_get(2), Some(Value::U64(42))));
    assert!(matches!(vm.stack_get(3), Some(Value::U64(42))));
}

#[test]
fn generic_add_matches_kinds() {
    let code = vec![Op::I32(-5), Op::I32(7), Op::Add, Op::Halt];
    let mut vm = Vm::new(module(0, code, FnTable::new()));
    assert_eq!(vm.run(), Ok(()));
    assert!(matches!(vm.stack_get(1), Some(Value::I32(2))));
}

#[test]
fn add_of_mixed_kinds_is_a_type_error() {
    let code = vec![Op::U32(5), Op::U64(7), Op::Add, Op::Halt];
    let mut vm = Vm::new(module(0, code, FnTable::new()));
    assert_eq!(vm.run(), Err(VmError::TypeCheck));
}

#[test]
fn typed_add_rejects_other_kind() {
    let code = vec![Op::I64(5), Op::I64(7), Op::AddU32, Op::Halt];
    let mut vm = Vm::new(module(0, code, FnTable::new()));
    assert_eq!(vm.run(), Err(VmError::TypeCheck));
}

#[test]
fn add_overflow_is_reported() {
    let code = vec![Op::U32(u32::MAX), Op::U32(1), Op::AddU32, Op::Halt];
    let mut vm = Vm::new(module(0, code, FnTable::new()));
    assert_eq!(vm.run(), Err(VmError::Overflow));
}

#[test]
fn pop_of_empty_stack_underflows() {
    let code = vec![Op::Pop, Op::Pop, Op::Halt];
    let mut vm = Vm::new(module(0, code, FnTable::new()));
    assert_eq!(vm.run(), Err(VmError::StackUnderflow));
}

#[test]
fn struct_wider_than_stack_underflows() {
    let code = vec![Op::U32(1), Op::Usize(5), Op::Struct, Op::Halt];
    let mut vm = Vm::new(module(0, code, FnTable::new()));
    assert_eq!(vm.run(), Err(VmError::StackUnderflow));
}

#[test]
fn load_outside_stack_is_out_of_bounds() {
    let code = vec![Op::Usize(4), Op::Load, Op::Halt];
    let mut vm = Vm::new(module(0, code, FnTable::new()));
    assert_eq!(vm.run(), Err(VmError::OutOfBounds));
}

#[test]
fn running_off_the_code_is_an_error() {
    let code = vec![Op::Noop];
    let mut vm = Vm::new(module(0, code, FnTable::new()));
    assert_eq!(vm.run(), Err(VmError::InvalidInstruction));
}

#[test]
fn copying_the_table_is_invalid() {
    let code = vec![Op::Copy, Op::Halt];
    let mut vm = Vm::new(module(0, code, FnTable::new()));
    assert_eq!(vm.run(), Err(VmError::InvalidOperation));
}

#[test]
fn return_without_caller_is_invalid() {
    let code = vec![Op::Return, Op::Return];
    let mut vm = Vm::new(module(1, code, FnTable::new()));
    assert_eq!(vm.run(), Err(VmError::InvalidOperation));
}

#[test]
fn cursor_reports_unsupported_operations() {
    for op in [Op::Found, Op::Advance, Op::Delete] {
        let code = vec![Op::Nil, Op::Nil, Op::Usize(2), Op::Struct, Op::Query, op, Op::Halt];
        let mut vm = Vm::new(module(0, code, FnTable::new()));
        assert_eq!(vm.run(), Err(VmError::Unsupported));
    }
    for op in [Op::Insert, Op::Update] {
        let code = vec![
            Op::Nil,
            Op::Nil,
            Op::Usize(2),
            Op::Struct,
            Op::Query,
            Op::U32(1),
            Op::Usize(1),
            Op::Struct,
            op,
            Op::Halt,
        ];
        let mut vm = Vm::new(module(0, code, FnTable::new()));
        assert_eq!(vm.run(), Err(VmError::Unsupported));
    }
}

#[test]
fn query_without_match_reads_nil_and_close_returns_table() {
    let code = vec![
        Op::Nil,
        Op::U32(3),
        Op::Usize(2),
        Op::Struct,
        Op::Query,
        Op::Read,
        Op::Close,
        Op::Halt,
    ];
    let mut functions = FnTable::new();
    functions.add_fn("f".to_string(), FunctionValue { offset: 0, args: 0, frame_size: 0 });
    let mut vm = Vm::new(module(0, code, functions));
    assert_eq!(vm.run(), Ok(()));
    assert_eq!(vm.stack_len(), 2);
    assert!(matches!(vm.stack_get(0), Some(Value::Nil)));
    match vm.stack_get(1) {
        Some(Value::Table(TableTypes::Fn(t))) => assert_eq!(t.len(), 1),
        _ => panic!("expected the table"),
    }
}

#[test]
fn query_by_value_finds_the_function() {
    let g = FunctionValue { offset: 4, args: 1, frame_size: 3 };
    let code = vec![Op::Fn(g), Op::Nil, Op::Usize(2), Op::Struct, Op::Query, Op::Read, Op::Halt];
    let mut functions = FnTable::new();
    functions.add_fn("f".to_string(), FunctionValue { offset: 0, args: 0, frame_size: 0 });
    functions.add_fn("g".to_string(), g);
    let mut vm = Vm::new(module(0, code, functions));
    assert_eq!(vm.run(), Ok(()));
    assert!(matches!(vm.stack_get(0), Some(Value::Function(f)) if *f == g));
    assert!(matches!(vm.stack_get(1), Some(Value::Cursor(_))));
}

#[test]
fn values_compare_by_kind() {
    assert_eq!(Value::eq_value(&Value::Nil, &Value::Nil), Ok(true));
    assert_eq!(Value::eq_value(&Value::U32(1), &Value::U32(2)), Ok(false));
    assert_eq!(
        Value::eq_value(&Value::U32(1), &Value::U64(1)),
        Err(VmError::InvalidOperation)
    );
    assert_eq!(
        Value::eq_value(&Value::StringRef { index: 0 }, &Value::StringRef { index: 0 }),
        Err(VmError::InvalidOperation)
    );
    assert!(matches!(Value::StringRef { index: 2 }.copy_value(), Err(VmError::InvalidOperation)));
    assert!(matches!(Value::Bool(true).copy_value(), Ok(Value::Bool(true))));
}

#[test]
fn function_table_replaces_by_name() {
    let mut t = FnTable::new();
    let a = FunctionValue { offset: 1, args: 0, frame_size: 0 };
    let b = FunctionValue { offset: 9, args: 2, frame_size: 4 };
    assert_eq!(t.add_fn("f".to_string(), a), 0);
    assert_eq!(t.add_fn("g".to_string(), a), 1);
    assert_eq!(t.add_fn("f".to_string(), b), 0);
    assert_eq!(t.len(), 2);
    assert_eq!(t.get(&"f".to_string()), Some(b));
    assert_eq!(t.get(&"h".to_string()), None);
}

#[test]
fn values_report_their_kind() {
    let f = FunctionValue { offset: 3, args: 2, frame_size: 5 };
    assert_eq!(Value::U32(1).value_type(), Type::U32);
    assert_eq!(Value::Nil.value_type(), Type::Nil);
    assert_eq!(Value::Struct { field_count: 2 }.value_type(), Type::Struct(2));
    assert_eq!(Value::Function(f).value_type(), Type::Function(2));
    assert_eq!(Value::Table(TableTypes::Fn(FnTable::new())).value_type(), Type::Table);
}

#[test]
fn machine_keeps_the_type_table() {
    let types = vec![(7u32, vec![Type::U32, Type::Bool])];
    let module = Module { start: 0, code: vec![Op::Halt], functions: FnTable::new(), types };
    let mut vm = Vm::new(module);
    assert_eq!(vm.run(), Ok(()));
    assert_eq!(vm.types().len(), 1);
    assert_eq!(vm.types()[0].0, 7);
    assert_eq!(vm.types()[0].1, vec![Type::U32, Type::Bool]);
    assert_eq!(vm.code(), &vec![Op::Halt]);
}
