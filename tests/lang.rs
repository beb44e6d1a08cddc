use colang::{
    compile, compile_parsed, Expr, FunctionDef, LangError, Module, ModuleBuilder, Op, Program,
    Statement, Value, Vm,
};

fn name(s: &str) -> String {
    s.to_string()
}

fn function(fn_name: &str, args: &[&str], body: Vec<Statement>) -> FunctionDef {
    FunctionDef {
        name: name(fn_name),
        args: args.iter().map(|a| name(a)).collect(),
        body,
    }
}

fn var(s: &str) -> Expr {
    Expr::Var(name(s))
}

fn add(a: Expr, b: Expr) -> Expr {
    Expr::Add(Box::new(a), Box::new(b))
}

fn failure_of(functions: Vec<FunctionDef>) -> LangError {
    match compile(&Program { functions }) {
        Err(e) => e,
        Ok(m) => panic!("expected an error, got {:?}", m),
    }
}

fn run(module: Module) -> Vm {
    let mut vm = Vm::new(module);
    assert_eq!(vm.run(), Ok(()));
    vm
}

#[test]
fn main_adding_literals_runs_to_sum() {
    let program = Program {
        functions: vec![function(
            "main",
            &[],
            vec![Statement::Return(vec![add(Expr::I64(5), Expr::I64(7))])],
        )],
    };
    let module = compile(&program).unwrap();
    assert_eq!(module.start, 1);
    assert_eq!(
        module.code,
        vec![Op::Halt, Op::I64(5), Op::I64(7), Op::Add, Op::Return, Op::Return]
    );
    let vm = run(module);
    assert!(vm.stack_len() == 2);
    let value = match vm.stack_get(1) {
        Some(Value::I64(v)) => Some(*v),
        _ => None,
    };
    assert!(value == Some(12));
}

#[test]
fn main_adding_locals_runs_to_sum() {
    let program = Program {
        functions: vec![function(
            "main",
            &[],
            vec![
                Statement::Declaration(name("a"), Expr::I64(5)),
                Statement::Declaration(name("b"), Expr::I64(7)),
                Statement::Return(vec![add(var("a"), var("b"))]),
            ],
        )],
    };
    let vm = run(compile(&program).unwrap());
    assert!(vm.stack_len() == 4);
    let value = match vm.stack_get(3) {
        Some(Value::I64(v)) => Some(*v),
        _ => None,
    };
    assert!(value == Some(12));
}

#[test]
fn unsigned_sum_keeps_its_kind() {
    let program = Program {
        functions: vec![function(
            "main",
            &[],
            vec![Statement::Return(vec![add(Expr::U32(5), Expr::U32(7))])],
        )],
    };
    let vm = run(compile(&program).unwrap());
    assert!(matches!(vm.stack_get(1), Some(Value::U32(12))));
}

#[test]
fn locals_get_placeholders_before_the_body() {
    let program = Program {
        functions: vec![function(
            "main",
            &["x"],
            vec![
                Statement::Declaration(name("y"), Expr::U64(1)),
                Statement::Declaration(name("z"), var("x")),
            ],
        )],
    };
    let module = compile(&program).unwrap();
    let main = module.functions.get(&name("main")).unwrap();
    assert_eq!(main.offset, 1);
    assert_eq!(main.args, 1);
    assert_eq!(main.frame_size, 3);
    assert_eq!(
        module.code,
        vec![
            Op::Halt,
            Op::Nil,
            Op::Nil,
            Op::U64(1),
            Op::Usize(1),
            Op::Store,
            Op::Usize(0),
            Op::Load,
            Op::Usize(2),
            Op::Store,
            Op::Return,
        ]
    );
}

#[test]
fn third_binding_uses_offset_two_at_any_depth() {
    let third = function(
        "third",
        &["a", "b"],
        vec![
            Statement::Declaration(name("c"), add(var("a"), var("b"))),
            Statement::Return(vec![var("c")]),
        ],
    );
    let outer = function(
        "outer",
        &["x"],
        vec![Statement::Return(vec![Expr::Call(name("third"), vec![var("x"), var("x")])])],
    );
    let main = function(
        "main",
        &[],
        vec![
            Statement::Declaration(
                name("r"),
                Expr::Call(name("third"), vec![Expr::U32(2), Expr::U32(3)]),
            ),
            Statement::Declaration(name("q"), Expr::Call(name("outer"), vec![Expr::U32(4)])),
            Statement::Return(vec![add(var("r"), var("q"))]),
        ],
    );
    let module = compile(&Program { functions: vec![third, outer, main] }).unwrap();
    let f = module.functions.get(&name("third")).unwrap();
    assert_eq!(f.frame_size, 3);
    let at = f.offset + 6;
    assert_eq!(module.code[at..at + 4], [Op::Usize(2), Op::Store, Op::Usize(2), Op::Load]);
    let vm = run(module);
    // third(2, 3) runs one call deep, third(4, 4) two calls deep
    assert!(matches!(vm.stack().last(), Some(Value::U32(13))));
}

#[test]
fn missing_main_is_reported() {
    let e = failure_of(vec![function("f", &[], vec![Statement::Return(vec![Expr::U32(1)])])]);
    assert_eq!(e, LangError::NoMain);
}

#[test]
fn unknown_variable_is_reported() {
    let e = failure_of(vec![function("main", &["y"], vec![Statement::Return(vec![var("x")])])]);
    assert_eq!(e, LangError::UnknownVar(name("x")));
}

#[test]
fn redeclared_variable_is_reported() {
    let e = failure_of(vec![function(
        "main",
        &[],
        vec![
            Statement::Declaration(name("a"), Expr::U32(1)),
            Statement::Declaration(name("a"), Expr::U32(2)),
        ],
    )]);
    assert_eq!(e, LangError::VarAlreadyDeclared(name("a")));
}

#[test]
fn declaring_an_argument_again_is_reported() {
    let e = failure_of(vec![function(
        "main",
        &["a"],
        vec![Statement::Declaration(name("a"), Expr::U32(2))],
    )]);
    assert_eq!(e, LangError::VarAlreadyDeclared(name("a")));
    let e = failure_of(vec![function("main", &["a", "a"], vec![])]);
    assert_eq!(e, LangError::VarAlreadyDeclared(name("a")));
}

#[test]
fn unknown_function_is_reported() {
    let e = failure_of(vec![
        function("main", &[], vec![Statement::Expression(Expr::Call(name("later"), vec![]))]),
        function("later", &[], vec![]),
    ]);
    assert_eq!(e, LangError::UnknownFunction(name("later")));
}

#[test]
fn first_failing_function_decides_the_error() {
    let e = failure_of(vec![
        function("f", &[], vec![Statement::Expression(var("u"))]),
        function("main", &[], vec![Statement::Expression(var("v"))]),
    ]);
    assert_eq!(e, LangError::UnknownVar(name("u")));
}

#[test]
fn parse_failure_is_wrapped() {
    match compile_parsed(Err(name("expected expression at 1:5"))) {
        Err(e) => assert_eq!(e, LangError::ParserError(name("expected expression at 1:5"))),
        Ok(_) => panic!("expected a parse error"),
    }
    let parsed = Ok(Program { functions: vec![function("main", &[], vec![])] });
    assert!(compile_parsed(parsed).is_ok());
}

#[test]
fn builder_without_functions_has_no_main() {
    let mut b = ModuleBuilder::new();
    b.new_frame();
    b.compile_function(&function("helper", &[], vec![])).unwrap();
    assert_eq!(b.into_module().unwrap_err(), LangError::NoMain);
}
