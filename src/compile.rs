//! The code generator: lowers a syntax tree into instructions, placing each argument and local
//! variable in a frame slot of its own.
//!
//! Each function's code starts with one `Nil` per local variable, so that every frame slot exists
//! before the body runs; arguments take the first slots, locals the following ones, in the order
//! of their declarations. The meaning of compilation is given by [`program_code`];
//! [`compile`] is proved to follow it.
use vstd::prelude::*;

use crate::op::Op;
use crate::table::{lookup, registered, FnTable, Function};
use crate::value::{FunctionValue, Type};
use crate::vm::Module;

verus! {

/// An expression of the source language.
#[derive(Debug)]
pub enum Expr {
    I32(i32),
    I64(i64),
    U32(u32),
    U64(u64),
    /// A reference to an argument or a local variable.
    Var(String),
    Add(Box<Expr>, Box<Expr>),
    /// A call of an earlier function with the given arguments.
    Call(String, Vec<Expr>),
}

/// A statement of the source language.
#[derive(Debug)]
pub enum Statement {
    /// `let name = expr;`
    Declaration(String, Expr),
    /// Evaluates the expressions and returns to the caller.
    Return(Vec<Expr>),
    /// Evaluates an expression and leaves its value on the stack.
    Expression(Expr),
}

/// A function definition.
#[derive(Debug)]
pub struct FunctionDef {
    pub name: String,
    pub args: Vec<String>,
    pub body: Vec<Statement>,
}

/// A parsed source file: its functions in order.
#[derive(Debug)]
pub struct Program {
    pub functions: Vec<FunctionDef>,
}

/// Errors raised while compiling.
#[derive(Debug, PartialEq, Eq)]
pub enum LangError {
    /// No function is named `main`.
    NoMain,
    /// The parser rejected the source; its message.
    ParserError(String),
    UnknownVar(String),
    UnknownFunction(String),
    /// A name was bound twice in one function.
    VarAlreadyDeclared(String),
}

/// A variable bound in the current function, with its frame offset.
#[derive(Debug)]
pub struct VarValue {
    pub name: String,
    pub index: usize,
    pub var_type: Type,
}

/// The position of the variable named `name` in the scope, if it is bound.
pub open spec fn var_position(scope: Seq<VarValue>, name: Seq<char>) -> Option<int> {
    if exists|i: int| 0 <= i < scope.len() && scope[i].name@ == name {
        Some(choose|i: int| 0 <= i < scope.len() && scope[i].name@ == name)
    } else {
        None
    }
}

/// Whether each variable's offset is its position in the scope and no name is bound twice.
pub open spec fn scope_wf(scope: Seq<VarValue>) -> bool {
    &&& forall|i: int| 0 <= i < scope.len() ==> (#[trigger] scope[i]).index == i
    &&& forall|i: int, j: int|
        #![trigger scope[i], scope[j]]
        0 <= i < scope.len() && 0 <= j < scope.len() && scope[i].name@ == scope[j].name@ ==> i
            == j
}

/// The scope after binding `name` to the next frame slot.
pub open spec fn bound(scope: Seq<VarValue>, name: String) -> Seq<VarValue> {
    scope.push(VarValue { name, index: scope.len() as usize, var_type: Type::Unknown })
}

/// The code of an expression, in the scope `scope` and with the functions `fs` defined.
pub open spec fn expr_code(scope: Seq<VarValue>, fs: Seq<Function>, e: Expr) -> Result<
    Seq<Op>,
    LangError,
>
    decreases e,
{
    match e {
        Expr::I32(v) => Ok(seq![Op::I32(v)]),
        Expr::I64(v) => Ok(seq![Op::I64(v)]),
        Expr::U32(v) => Ok(seq![Op::U32(v)]),
        Expr::U64(v) => Ok(seq![Op::U64(v)]),
        Expr::Var(name) => match var_position(scope, name@) {
            Some(i) => Ok(seq![Op::Usize(i as usize), Op::Load]),
            None => Err(LangError::UnknownVar(name)),
        },
        Expr::Add(a, b) => match expr_code(scope, fs, *a) {
            Err(err) => Err(err),
            Ok(ca) => match expr_code(scope, fs, *b) {
                Err(err) => Err(err),
                Ok(cb) => Ok(ca + cb + seq![Op::Add]),
            },
        },
        Expr::Call(name, args) => match exprs_code(scope, fs, args@) {
            Err(err) => Err(err),
            Ok(c) => match lookup(fs, name@) {
                Some(f) => Ok(c + seq![Op::Usize(1), Op::Usize(f.args), Op::Fn(f), Op::Call]),
                None => Err(LangError::UnknownFunction(name)),
            },
        },
    }
}

/// The code of a sequence of expressions, evaluated in order.
pub open spec fn exprs_code(scope: Seq<VarValue>, fs: Seq<Function>, es: Seq<Expr>) -> Result<
    Seq<Op>,
    LangError,
>
    decreases es,
{
    if es.len() == 0 {
        Ok(seq![])
    } else {
        match exprs_code(scope, fs, es.drop_last()) {
            Err(err) => Err(err),
            Ok(c) => match expr_code(scope, fs, es.last()) {
                Err(err) => Err(err),
                Ok(ce) => Ok(c + ce),
            },
        }
    }
}

/// The code of a statement and the scope after it.
pub open spec fn stmt_code(scope: Seq<VarValue>, fs: Seq<Function>, s: Statement) -> Result<
    (Seq<Op>, Seq<VarValue>),
    LangError,
> {
    match s {
        Statement::Declaration(name, e) => match expr_code(scope, fs, e) {
            Err(err) => Err(err),
            Ok(c) => if var_position(scope, name@) is Some {
                Err(LangError::VarAlreadyDeclared(name))
            } else {
                Ok((c + seq![Op::Usize(scope.len() as usize), Op::Store], bound(scope, name)))
            },
        },
        Statement::Return(es) => match exprs_code(scope, fs, es@) {
            Err(err) => Err(err),
            Ok(c) => Ok((c + seq![Op::Return], scope)),
        },
        Statement::Expression(e) => match expr_code(scope, fs, e) {
            Err(err) => Err(err),
            Ok(c) => Ok((c, scope)),
        },
    }
}

/// The code of a sequence of statements and the scope after them.
pub open spec fn body_code(scope: Seq<VarValue>, fs: Seq<Function>, body: Seq<Statement>) -> Result<
    (Seq<Op>, Seq<VarValue>),
    LangError,
>
    decreases body.len(),
{
    if body.len() == 0 {
        Ok((seq![], scope))
    } else {
        match body_code(scope, fs, body.drop_last()) {
            Err(err) => Err(err),
            Ok((c, sc)) => match stmt_code(sc, fs, body.last()) {
                Err(err) => Err(err),
                Ok((cs, sc2)) => Ok((c + cs, sc2)),
            },
        }
    }
}

/// The scope that binds the arguments, in order, to the first frame slots.
pub open spec fn args_scope(args: Seq<String>) -> Result<Seq<VarValue>, LangError>
    decreases args.len(),
{
    if args.len() == 0 {
        Ok(seq![])
    } else {
        match args_scope(args.drop_last()) {
            Err(err) => Err(err),
            Ok(sc) => if var_position(sc, args.last()@) is Some {
                Err(LangError::VarAlreadyDeclared(args.last()))
            } else {
                Ok(bound(sc, args.last()))
            },
        }
    }
}

/// The code of a function placed at `entry`, and the reference to it.
pub open spec fn function_code(fs: Seq<Function>, entry: int, f: FunctionDef) -> Result<
    (Seq<Op>, FunctionValue),
    LangError,
> {
    match args_scope(f.args@) {
        Err(err) => Err(err),
        Ok(sc) => match body_code(sc, fs, f.body@) {
            Err(err) => Err(err),
            Ok((body, frame)) => {
                let locals = frame.len() - f.args@.len();
                Ok(
                    (
                        Seq::new(locals as nat, |i: int| Op::Nil) + body + seq![Op::Return],
                        FunctionValue {
                            offset: entry as usize,
                            args: f.args@.len() as usize,
                            frame_size: frame.len() as usize,
                        },
                    ),
                )
            },
        }
    }
}

/// The code and the function table of a program: a `Halt` at offset 0, to which the outermost
/// `Return` comes back, then each function in order.
pub open spec fn program_code(fns: Seq<FunctionDef>) -> Result<(Seq<Op>, Seq<Function>), LangError>
    decreases fns.len(),
{
    if fns.len() == 0 {
        Ok((seq![Op::Halt], seq![]))
    } else {
        match program_code(fns.drop_last()) {
            Err(err) => Err(err),
            Ok((code, fs)) => match function_code(fs, code.len() as int, fns.last()) {
                Err(err) => Err(err),
                Ok((c, fv)) => Ok((code + c, registered(fs, fns.last().name, fv))),
            },
        }
    }
}

pub open spec fn main_name() -> Seq<char> {
    seq!['m', 'a', 'i', 'n']
}

proof fn lemma_exprs_prefix_err(scope: Seq<VarValue>, fs: Seq<Function>, es: Seq<Expr>, i: int)
    requires
        0 <= i <= es.len(),
        exprs_code(scope, fs, es.subrange(0, i)) is Err,
    ensures
        exprs_code(scope, fs, es) == exprs_code(scope, fs, es.subrange(0, i)),
    decreases es.len() - i,
{
    if i < es.len() {
        assert(es.subrange(0, i + 1).drop_last() =~= es.subrange(0, i));
        lemma_exprs_prefix_err(scope, fs, es, i + 1);
    } else {
        assert(es.subrange(0, i) =~= es);
    }
}

proof fn lemma_body_prefix_err(scope: Seq<VarValue>, fs: Seq<Function>, body: Seq<Statement>, i: int)
    requires
        0 <= i <= body.len(),
        body_code(scope, fs, body.subrange(0, i)) is Err,
    ensures
        body_code(scope, fs, body) == body_code(scope, fs, body.subrange(0, i)),
    decreases body.len() - i,
{
    if i < body.len() {
        assert(body.subrange(0, i + 1).drop_last() =~= body.subrange(0, i));
        lemma_body_prefix_err(scope, fs, body, i + 1);
    } else {
        assert(body.subrange(0, i) =~= body);
    }
}

proof fn lemma_args_prefix_err(args: Seq<String>, i: int)
    requires
        0 <= i <= args.len(),
        args_scope(args.subrange(0, i)) is Err,
    ensures
        args_scope(args) == args_scope(args.subrange(0, i)),
    decreases args.len() - i,
{
    if i < args.len() {
        assert(args.subrange(0, i + 1).drop_last() =~= args.subrange(0, i));
        lemma_args_prefix_err(args, i + 1);
    } else {
        assert(args.subrange(0, i) =~= args);
    }
}

proof fn lemma_program_prefix_err(fns: Seq<FunctionDef>, i: int)
    requires
        0 <= i <= fns.len(),
        program_code(fns.subrange(0, i)) is Err,
    ensures
        program_code(fns) == program_code(fns.subrange(0, i)),
    decreases fns.len() - i,
{
    if i < fns.len() {
        assert(fns.subrange(0, i + 1).drop_last() =~= fns.subrange(0, i));
        lemma_program_prefix_err(fns, i + 1);
    } else {
        assert(fns.subrange(0, i) =~= fns);
    }
}

/// The state of code generation: the code so far, the functions defined so far, and the
/// variables of the function being compiled.
#[derive(Debug)]
pub struct ModuleBuilder {
    code: Vec<Op>,
    functions: FnTable,
    scope: Vec<VarValue>,
    arg_count: usize,
    function_start: usize,
}

impl ModuleBuilder {
    pub closed spec fn code_view(&self) -> Seq<Op> {
        self.code@
    }

    pub closed spec fn functions_view(&self) -> Seq<Function> {
        self.functions.entries()
    }

    pub closed spec fn scope_view(&self) -> Seq<VarValue> {
        self.scope@
    }

    /// Where the function being compiled starts.
    pub closed spec fn start_view(&self) -> usize {
        self.function_start
    }

    /// How many arguments the function being compiled declares.
    pub closed spec fn arg_count_view(&self) -> usize {
        self.arg_count
    }

    pub closed spec fn wf(&self) -> bool {
        &&& self.functions.wf()
        &&& scope_wf(self.scope@)
    }

    /// A builder whose code is a single `Halt`, which the outermost `Return` comes back to.
    pub fn new() -> (b: ModuleBuilder)
        ensures
            b.wf(),
            b.code_view() == seq![Op::Halt],
            b.functions_view() == Seq::<Function>::empty(),
            b.scope_view() == Seq::<VarValue>::empty(),
    {
        let b = ModuleBuilder {
            code: vec![Op::Halt],
            functions: FnTable::new(),
            scope: Vec::new(),
            arg_count: 0,
            function_start: 0,
        };
        assert(b.code@ =~= seq![Op::Halt]);
        b
    }

    /// Starts a function at the end of the code, with no variables bound.
    pub fn new_frame(&mut self)
        requires
            old(self).wf(),
        ensures
            final(self).wf(),
            final(self).code_view() == old(self).code_view(),
            final(self).functions_view() == old(self).functions_view(),
            final(self).scope_view() == Seq::<VarValue>::empty(),
            final(self).start_view() == old(self).code_view().len(),
            final(self).arg_count_view() == 0,
    {
        self.scope = Vec::new();
        self.arg_count = 0;
        self.function_start = self.code.len();
    }

    /// The finished module; its execution starts at `main`.
    pub fn into_module(self) -> (r: Result<Module, LangError>)
        requires
            self.wf(),
        ensures
            match lookup(self.functions_view(), main_name()) {
                Some(f) => {
                    &&& r is Ok
                    &&& r->Ok_0.start == f.offset
                    &&& r->Ok_0.code@ == self.code_view()
                    &&& r->Ok_0.functions.entries() == self.functions_view()
                    &&& r->Ok_0.functions.wf()
                    &&& r->Ok_0.types@.len() == 0
                },
                None => r is Err && r->Err_0 == LangError::NoMain,
            },
    {
        let main = "main".to_owned();
        proof {
            reveal_strlit("main");
            assert(main@ =~= main_name());
        }
        match self.functions.get(&main) {
            Some(f) => Ok(
                Module { start: f.offset, code: self.code, functions: self.functions, types: Vec::new() },
            ),
            None => Err(LangError::NoMain),
        }
    }

    /// Registers the function being compiled under `name`.
    fn new_function(&mut self, name: String)
        requires
            old(self).wf(),
        ensures
            final(self).wf(),
            final(self).code_view() == old(self).code_view(),
            final(self).scope_view() == old(self).scope_view(),
            final(self).functions_view() == registered(
                old(self).functions_view(),
                name,
                FunctionValue {
                    offset: old(self).function_start,
                    args: old(self).arg_count,
                    frame_size: old(self).scope_view().len() as usize,
                },
            ),
    {
        let value = FunctionValue {
            offset: self.function_start,
            args: self.arg_count,
            frame_size: self.scope.len(),
        };
        self.functions.add_fn(name, value);
    }

    fn add_op(&mut self, op: Op)
        ensures
            final(self).code_view() == old(self).code_view().push(op),
            final(self).functions == old(self).functions,
            final(self).scope == old(self).scope,
            final(self).arg_count == old(self).arg_count,
            final(self).function_start == old(self).function_start,
    {
        self.code.push(op);
    }

    /// The frame offset of the variable named `name`.
    fn get_var(&self, name: &String) -> (r: Result<usize, LangError>)
        requires
            self.wf(),
        ensures
            match var_position(self.scope_view(), name@) {
                Some(i) => r == Ok::<usize, LangError>(i as usize),
                None => r == Err::<usize, LangError>(LangError::UnknownVar(*name)),
            },
    {
        let mut i: usize = 0;
        while i < self.scope.len()
            invariant
                self.wf(),
                i <= self.scope@.len(),
                forall|j: int| 0 <= j < i ==> self.scope@[j].name@ != name@,
            decreases self.scope@.len() - i,
        {
            if self.scope[i].name == *name {
                let ghost sc = self.scope@;
                proof {
                    let k = choose|k: int| 0 <= k < sc.len() && sc[k].name@ == name@;
                    assert(sc[k].name@ == sc[i as int].name@);
                    assert(k == i as int);
                }
                return Ok(i);
            }
            i = i + 1;
        }
        Err(LangError::UnknownVar(name.clone()))
    }

    /// Binds `name` to the next frame slot and returns that slot's offset.
    fn new_var(&mut self, name: &String) -> (r: Result<usize, LangError>)
        requires
            old(self).wf(),
        ensures
            final(self).wf(),
            final(self).code_view() == old(self).code_view(),
            final(self).functions == old(self).functions,
            final(self).arg_count == old(self).arg_count,
            final(self).function_start == old(self).function_start,
            match var_position(old(self).scope_view(), name@) {
                Some(_) => r == Err::<usize, LangError>(LangError::VarAlreadyDeclared(*name)),
                None => {
                    &&& r == Ok::<usize, LangError>(old(self).scope_view().len() as usize)
                    &&& final(self).scope_view() == bound(old(self).scope_view(), *name)
                },
            },
    {
        match self.get_var(name) {
            Ok(_) => Err(LangError::VarAlreadyDeclared(name.clone())),
            Err(_) => {
                let index = self.scope.len();
                let ghost before = self.scope@;
                self.scope.push(VarValue { name: name.clone(), index, var_type: Type::Unknown });
                proof {
                    let sc = self.scope@;
                    assert(sc == bound(before, *name));
                    assert forall|i: int, j: int|
                        0 <= i < sc.len() && 0 <= j < sc.len() && sc[i].name@ == sc[j].name@
                        implies i == j by {
                        if i < index && j < index {
                            assert(sc[i] == before[i] && sc[j] == before[j]);
                        } else if i < index {
                            assert(before[i].name@ == name@);
                        } else if j < index {
                            assert(before[j].name@ == name@);
                        }
                    }
                    assert forall|i: int| 0 <= i < sc.len() implies (#[trigger] sc[i]).index == i by {
                        if i < index {
                            assert(sc[i] == before[i]);
                        }
                    }
                }
                Ok(index)
            },
        }
    }

    /// Emits the code of an expression.
    fn compile_expr(&mut self, e: &Expr) -> (r: Result<(), LangError>)
        requires
            old(self).wf(),
        ensures
            final(self).wf(),
            final(self).functions == old(self).functions,
            final(self).scope == old(self).scope,
            final(self).arg_count == old(self).arg_count,
            final(self).function_start == old(self).function_start,
            match expr_code(old(self).scope_view(), old(self).functions_view(), *e) {
                Ok(c) => r is Ok && final(self).code_view() == old(self).code_view() + c,
                Err(err) => r == Err::<(), LangError>(err),
            },
        decreases e,
    {
        let ghost c0 = self.code@;
        match e {
            Expr::I32(v) => self.add_op(Op::I32(*v)),
            Expr::I64(v) => self.add_op(Op::I64(*v)),
            Expr::U32(v) => self.add_op(Op::U32(*v)),
            Expr::U64(v) => self.add_op(Op::U64(*v)),
            Expr::Var(name) => {
                let index = match self.get_var(name) {
                    Ok(i) => i,
                    Err(err) => return Err(err),
                };
                self.add_op(Op::Usize(index));
                self.add_op(Op::Load);
            },
            Expr::Add(a, b) => {
                match self.compile_expr(a) {
                    Ok(()) => {},
                    Err(err) => return Err(err),
                }
                match self.compile_expr(b) {
                    Ok(()) => {},
                    Err(err) => return Err(err),
                }
                self.add_op(Op::Add);
            },
            Expr::Call(name, args) => {
                match self.compile_exprs(args) {
                    Ok(()) => {},
                    Err(err) => return Err(err),
                }
                let f = match self.functions.get(name) {
                    Some(f) => f,
                    None => return Err(LangError::UnknownFunction(name.clone())),
                };
                self.add_op(Op::Usize(1));
                self.add_op(Op::Usize(f.args));
                self.add_op(Op::Fn(f));
                self.add_op(Op::Call);
            },
        }
        assert(self.code@ =~= c0 + expr_code(self.scope@, self.functions.entries(), *e)->Ok_0);
        Ok(())
    }

    /// Emits the code of a sequence of expressions, in order.
    fn compile_exprs(&mut self, es: &Vec<Expr>) -> (r: Result<(), LangError>)
        requires
            old(self).wf(),
        ensures
            final(self).wf(),
            final(self).functions == old(self).functions,
            final(self).scope == old(self).scope,
            final(self).arg_count == old(self).arg_count,
            final(self).function_start == old(self).function_start,
            match exprs_code(old(self).scope_view(), old(self).functions_view(), es@) {
                Ok(c) => r is Ok && final(self).code_view() == old(self).code_view() + c,
                Err(err) => r == Err::<(), LangError>(err),
            },
        decreases es,
    {
        let ghost c0 = self.code@;
        let ghost sc = self.scope@;
        let ghost fs = self.functions.entries();
        let mut i: usize = 0;
        assert(es@.subrange(0, 0) =~= Seq::<Expr>::empty());
        while i < es.len()
            invariant
                self.wf(),
                i <= es@.len(),
                self.functions == old(self).functions,
                self.scope == old(self).scope,
                self.arg_count == old(self).arg_count,
                self.function_start == old(self).function_start,
                c0 == old(self).code@,
                sc == self.scope@,
                fs == self.functions.entries(),
                exprs_code(sc, fs, es@.subrange(0, i as int)) is Ok,
                self.code@ == c0 + exprs_code(sc, fs, es@.subrange(0, i as int))->Ok_0,
            decreases es@.len() - i,
        {
            let ghost before = self.code@;
            let ghost prefix = es@.subrange(0, i as int);
            let ghost longer = es@.subrange(0, i + 1);
            assert(longer.drop_last() =~= prefix);
            assert(longer.last() == es@[i as int]);
            match self.compile_expr(&es[i]) {
                Ok(()) => {},
                Err(err) => {
                    proof {
                        lemma_exprs_prefix_err(sc, fs, es@, i + 1);
                    }
                    return Err(err);
                },
            }
            proof {
                let ce = expr_code(sc, fs, es@[i as int])->Ok_0;
                assert(self.code@ =~= c0 + (exprs_code(sc, fs, prefix)->Ok_0 + ce));
            }
            i = i + 1;
        }
        assert(es@.subrange(0, i as int) =~= es@);
        Ok(())
    }

    /// Emits the code of a statement; a declaration binds its name.
    fn compile_statement(&mut self, s: &Statement) -> (r: Result<(), LangError>)
        requires
            old(self).wf(),
        ensures
            final(self).wf(),
            final(self).functions == old(self).functions,
            final(self).arg_count == old(self).arg_count,
            final(self).function_start == old(self).function_start,
            match stmt_code(old(self).scope_view(), old(self).functions_view(), *s) {
                Ok((c, sc)) => {
                    &&& r is Ok
                    &&& final(self).code_view() == old(self).code_view() + c
                    &&& final(self).scope_view() == sc
                },
                Err(err) => r == Err::<(), LangError>(err),
            },
    {
        let ghost c0 = self.code@;
        match s {
            Statement::Declaration(name, e) => {
                match self.compile_expr(e) {
                    Ok(()) => {},
                    Err(err) => return Err(err),
                }
                let index = match self.new_var(name) {
                    Ok(i) => i,
                    Err(err) => return Err(err),
                };
                self.add_op(Op::Usize(index));
                self.add_op(Op::Store);
            },
            Statement::Return(es) => {
                match self.compile_exprs(es) {
                    Ok(()) => {},
                    Err(err) => return Err(err),
                }
                self.add_op(Op::Return);
            },
            Statement::Expression(e) => {
                match self.compile_expr(e) {
                    Ok(()) => {},
                    Err(err) => return Err(err),
                }
            },
        }
        assert(self.code@ =~= c0 + stmt_code(old(self).scope@, self.functions.entries(), *s)->Ok_0.0);
        Ok(())
    }

    /// Compiles a function definition at the end of the code and registers it.
    pub fn compile_function(&mut self, f: &FunctionDef) -> (r: Result<(), LangError>)
        requires
            old(self).wf(),
        ensures
            final(self).wf(),
            match function_code(old(self).functions_view(), old(self).code_view().len() as int, *f) {
                Ok((c, fv)) => {
                    &&& r is Ok
                    &&& final(self).code_view() == old(self).code_view() + c
                    &&& final(self).functions_view() == registered(
                        old(self).functions_view(),
                        f.name,
                        fv,
                    )
                },
                Err(err) => r == Err::<(), LangError>(err),
            },
    {
        let ghost c0 = self.code@;
        let ghost fs = self.functions.entries();
        self.new_frame();
        let mut i: usize = 0;
        assert(f.args@.subrange(0, 0) =~= Seq::<String>::empty());
        while i < f.args.len()
            invariant
                self.wf(),
                c0 == old(self).code@,
                fs == old(self).functions.entries(),
                i <= f.args@.len(),
                self.code@ == c0,
                self.functions.entries() == fs,
                self.function_start == c0.len(),
                args_scope(f.args@.subrange(0, i as int)) == Ok::<Seq<VarValue>, LangError>(
                    self.scope@,
                ),
                self.scope@.len() == i,
            decreases f.args@.len() - i,
        {
            let ghost longer = f.args@.subrange(0, i + 1);
            assert(longer.drop_last() =~= f.args@.subrange(0, i as int));
            assert(longer.last() == f.args@[i as int]);
            match self.new_var(&f.args[i]) {
                Ok(_) => {},
                Err(err) => {
                    proof {
                        lemma_args_prefix_err(f.args@, i + 1);
                    }
                    return Err(err);
                },
            }
            i = i + 1;
        }
        assert(f.args@.subrange(0, i as int) =~= f.args@);
        self.arg_count = f.args.len();
        let ghost sc0 = self.scope@;
        let mut k: usize = 0;
        assert(f.body@.subrange(0, 0) =~= Seq::<Statement>::empty());
        assert(c0 + Seq::<Op>::empty() =~= c0);
        while k < f.body.len()
            invariant
                self.wf(),
                c0 == old(self).code@,
                fs == old(self).functions.entries(),
                k <= f.body@.len(),
                self.functions.entries() == fs,
                self.function_start == c0.len(),
                self.arg_count == f.args@.len(),
                args_scope(f.args@) == Ok::<Seq<VarValue>, LangError>(sc0),
                sc0.len() == f.args@.len(),
                self.scope@.len() >= sc0.len(),
                body_code(sc0, fs, f.body@.subrange(0, k as int)) is Ok,
                self.code@ == c0 + body_code(sc0, fs, f.body@.subrange(0, k as int))->Ok_0.0,
                self.scope@ == body_code(sc0, fs, f.body@.subrange(0, k as int))->Ok_0.1,
            decreases f.body@.len() - k,
        {
            let ghost prefix = f.body@.subrange(0, k as int);
            let ghost longer = f.body@.subrange(0, k + 1);
            assert(longer.drop_last() =~= prefix);
            assert(longer.last() == f.body@[k as int]);
            match self.compile_statement(&f.body[k]) {
                Ok(()) => {},
                Err(err) => {
                    proof {
                        lemma_body_prefix_err(sc0, fs, f.body@, k + 1);
                    }
                    return Err(err);
                },
            }
            proof {
                let cs = stmt_code(body_code(sc0, fs, prefix)->Ok_0.1, fs, f.body@[k as int])->Ok_0.0;
                assert(self.code@ =~= c0 + (body_code(sc0, fs, prefix)->Ok_0.0 + cs));
            }
            k = k + 1;
        }
        assert(f.body@.subrange(0, k as int) =~= f.body@);
        let ghost body_ops = self.code@.subrange(c0.len() as int, self.code@.len() as int);
        assert(body_ops == body_code(sc0, fs, f.body@)->Ok_0.0);
        self.add_op(Op::Return);
        let locals = self.scope.len() - self.arg_count;
        let mut body = self.code.split_off(self.function_start);
        assert(self.code@ =~= c0);
        assert(body@ =~= body_ops.push(Op::Return));
        let mut j: usize = 0;
        while j < locals
            invariant
                self.wf(),
                c0 == old(self).code@,
                fs == old(self).functions.entries(),
                self.functions.entries() == fs,
                self.arg_count == f.args@.len(),
                self.function_start == c0.len(),
                locals == self.scope@.len() - self.arg_count,
                self.scope@ == body_code(sc0, fs, f.body@)->Ok_0.1,
                j <= locals,
                self.code@ == c0 + Seq::new(j as nat, |n: int| Op::Nil),
            decreases locals - j,
        {
            self.code.push(Op::Nil);
            j = j + 1;
            assert(self.code@ =~= c0 + Seq::new(j as nat, |n: int| Op::Nil));
        }
        self.code.append(&mut body);
        proof {
            assert(self.code@ =~= c0 + (Seq::new(locals as nat, |n: int| Op::Nil) + body_ops
                + seq![Op::Return]));
        }
        self.new_function(f.name.clone());
        Ok(())
    }
}

/// Whether `r` is the outcome of compiling the functions `fns`: the first error met, `NoMain`
/// where no function is named `main`, or else the module whose code and function table
/// [`program_code`] gives, starting at `main`.
pub open spec fn compiled(fns: Seq<FunctionDef>, r: Result<Module, LangError>) -> bool {
    match program_code(fns) {
        Err(err) => r is Err && r->Err_0 == err,
        Ok((code, fs)) => match lookup(fs, main_name()) {
            None => r is Err && r->Err_0 == LangError::NoMain,
            Some(f) => {
                &&& r is Ok
                &&& r->Ok_0.start == f.offset
                &&& r->Ok_0.code@ == code
                &&& r->Ok_0.functions.entries() == fs
                &&& r->Ok_0.functions.wf()
            },
        },
    }
}

/// Compiles a program; the module starts at its function `main`.
pub fn compile(program: &Program) -> (r: Result<Module, LangError>)
    ensures
        compiled(program.functions@, r),
{
    let mut b = ModuleBuilder::new();
    let ghost fns = program.functions@;
    let mut i: usize = 0;
    assert(fns.subrange(0, 0) =~= Seq::<FunctionDef>::empty());
    while i < program.functions.len()
        invariant
            b.wf(),
            fns == program.functions@,
            i <= fns.len(),
            program_code(fns.subrange(0, i as int)) == Ok::<(Seq<Op>, Seq<Function>), LangError>(
                (b.code_view(), b.functions_view()),
            ),
        decreases fns.len() - i,
    {
        let ghost longer = fns.subrange(0, i + 1);
        assert(longer.drop_last() =~= fns.subrange(0, i as int));
        assert(longer.last() == fns[i as int]);
        match b.compile_function(&program.functions[i]) {
            Ok(()) => {},
            Err(err) => {
                proof {
                    lemma_program_prefix_err(fns, i + 1);
                }
                return Err(err);
            },
        }
        i = i + 1;
    }
    assert(fns.subrange(0, i as int) =~= fns);
    b.into_module()
}

/// Compiles what the parser produced: a parse failure is reported with its message.
pub fn compile_parsed(parsed: Result<Program, String>) -> (r: Result<Module, LangError>)
    ensures
        match parsed {
            Err(message) => r is Err && r->Err_0 == LangError::ParserError(message),
            Ok(program) => compiled(program.functions@, r),
        },
{
    match parsed {
        Err(message) => Err(LangError::ParserError(message)),
        Ok(program) => compile(&program),
    }
}

/// Binding the arguments gives the `k`-th argument frame offset `k`, and no argument name twice.
pub proof fn lemma_args_offsets(args: Seq<String>)
    requires
        args.len() <= usize::MAX,
        args_scope(args) is Ok,
    ensures
        scope_wf(args_scope(args)->Ok_0),
        args_scope(args)->Ok_0.len() == args.len(),
        forall|k: int| 0 <= k < args.len() ==> (#[trigger] args_scope(args)->Ok_0[k]).name == args[k],
    decreases args.len(),
{
    if args.len() > 0 {
        lemma_args_offsets(args.drop_last());
        let sc = args_scope(args.drop_last())->Ok_0;
        let sc2 = bound(sc, args.last());
        assert forall|i: int, j: int|
            0 <= i < sc2.len() && 0 <= j < sc2.len() && sc2[i].name@ == sc2[j].name@ implies i == j by {
            if i < sc.len() && j == sc.len() {
                assert(sc[i].name@ == args.last()@);
            } else if j < sc.len() && i == sc.len() {
                assert(sc[j].name@ == args.last()@);
            }
        }
        assert forall|k: int| 0 <= k < args.len() implies (#[trigger] sc2[k]).name == args[k] by {
            if k < sc.len() {
                assert(sc2[k] == sc[k]);
                assert(args.drop_last()[k] == args[k]);
            }
        }
    }
}

/// A statement keeps every earlier binding at its offset; a declaration binds its name to the
/// next offset.
pub proof fn lemma_stmt_keeps_offsets(scope: Seq<VarValue>, fs: Seq<Function>, s: Statement)
    requires
        scope_wf(scope),
        scope.len() < usize::MAX,
        stmt_code(scope, fs, s) is Ok,
    ensures
        scope_wf(stmt_code(scope, fs, s)->Ok_0.1),
        stmt_code(scope, fs, s)->Ok_0.1.len() >= scope.len(),
        stmt_code(scope, fs, s)->Ok_0.1.subrange(0, scope.len() as int) == scope,
        s is Declaration ==> stmt_code(scope, fs, s)->Ok_0.1 == bound(scope, s->Declaration_0),
{
    let sc2 = stmt_code(scope, fs, s)->Ok_0.1;
    if let Statement::Declaration(name, e) = s {
        assert(var_position(scope, name@) is None);
        assert forall|i: int, j: int|
            0 <= i < sc2.len() && 0 <= j < sc2.len() && sc2[i].name@ == sc2[j].name@ implies i == j by {
            if i < scope.len() && j == scope.len() {
                assert(scope[i].name@ == name@);
            } else if j < scope.len() && i == scope.len() {
                assert(scope[j].name@ == name@);
            }
        }
        assert forall|i: int| 0 <= i < sc2.len() implies (#[trigger] sc2[i]).index == i by {
            if i < scope.len() {
                assert(sc2[i] == scope[i]);
            }
        }
    }
    assert(sc2.subrange(0, scope.len() as int) =~= scope);
}

/// The variable at position `k` of a scope is read from frame slot `k`: a local declared as a
/// function's third binding is always loaded with offset 2.
pub proof fn lemma_var_offset(scope: Seq<VarValue>, fs: Seq<Function>, k: int)
    requires
        scope_wf(scope),
        0 <= k < scope.len(),
        scope.len() <= usize::MAX,
    ensures
        expr_code(scope, fs, Expr::Var(scope[k].name)) == Ok::<Seq<Op>, LangError>(
            seq![Op::Usize(k as usize), Op::Load],
        ),
{
    let name = scope[k].name@;
    let i = choose|i: int| 0 <= i < scope.len() && scope[i].name@ == name;
    assert(scope[i].name@ == scope[k].name@);
    assert(i == k);
}

/// A reference to a name that is bound neither as an argument nor as a local fails with
/// `UnknownVar`.
pub proof fn lemma_unknown_var(scope: Seq<VarValue>, fs: Seq<Function>, name: String)
    requires
        forall|i: int| 0 <= i < scope.len() ==> (#[trigger] scope[i]).name@ != name@,
    ensures
        expr_code(scope, fs, Expr::Var(name)) == Err::<Seq<Op>, LangError>(LangError::UnknownVar(name)),
{
}

/// Declaring a name that is already bound in the function fails with `VarAlreadyDeclared`, once
/// the initialising expression compiles.
pub proof fn lemma_redeclared(scope: Seq<VarValue>, fs: Seq<Function>, k: int, e: Expr)
    requires
        0 <= k < scope.len(),
        expr_code(scope, fs, e) is Ok,
    ensures
        stmt_code(scope, fs, Statement::Declaration(scope[k].name, e)) == Err::<
            (Seq<Op>, Seq<VarValue>),
            LangError,
        >(LangError::VarAlreadyDeclared(scope[k].name)),
{
    assert(scope[k].name@ == scope[k].name@);
}

/// Compilation stops at the first function that fails: the program fails with that function's
/// error.
pub proof fn lemma_first_error(fns: Seq<FunctionDef>, i: int)
    requires
        0 <= i < fns.len(),
        program_code(fns.subrange(0, i)) is Ok,
        function_code(
            program_code(fns.subrange(0, i))->Ok_0.1,
            program_code(fns.subrange(0, i))->Ok_0.0.len() as int,
            fns[i],
        ) is Err,
    ensures
        program_code(fns) == Err::<(Seq<Op>, Seq<Function>), LangError>(
            function_code(
                program_code(fns.subrange(0, i))->Ok_0.1,
                program_code(fns.subrange(0, i))->Ok_0.0.len() as int,
                fns[i],
            )->Err_0,
        ),
{
    assert(fns.subrange(0, i + 1).drop_last() =~= fns.subrange(0, i));
    lemma_program_prefix_err(fns, i + 1);
}

/// A program without a function named `main` does not compile: it fails with `NoMain` where no
/// function fails first.
pub proof fn lemma_no_main(fns: Seq<FunctionDef>, r: Result<Module, LangError>)
    requires
        forall|i: int| 0 <= i < fns.len() ==> (#[trigger] fns[i]).name@ != main_name(),
        compiled(fns, r),
    ensures
        r is Err,
        program_code(fns) is Ok ==> r->Err_0 == LangError::NoMain,
{
    if program_code(fns) is Ok {
        lemma_program_names(fns);
    }
}

/// Every function in the table of a compiled program is named after one of its definitions.
proof fn lemma_program_names(fns: Seq<FunctionDef>)
    requires
        program_code(fns) is Ok,
    ensures
        forall|j: int|
            0 <= j < program_code(fns)->Ok_0.1.len() ==> exists|i: int|
                0 <= i < fns.len() && (#[trigger] program_code(fns)->Ok_0.1[j]).name@ == fns[i].name@,
    decreases fns.len(),
{
    if fns.len() > 0 {
        let init = fns.drop_last();
        lemma_program_names(init);
        let fs = program_code(init)->Ok_0.1;
        let fv = function_code(fs, program_code(init)->Ok_0.0.len() as int, fns.last())->Ok_0.1;
        let fs2 = registered(fs, fns.last().name, fv);
        assert forall|j: int| 0 <= j < fs2.len() implies exists|i: int|
            0 <= i < fns.len() && (#[trigger] fs2[j]).name@ == fns[i].name@ by {
            if j < fs.len() {
                let i = choose|i: int| 0 <= i < init.len() && fs[j].name@ == init[i].name@;
                assert(fs2[j].name@ == fs[j].name@);
                assert(init[i] == fns[i]);
            } else {
                assert(fs2[j].name@ == fns[fns.len() - 1].name@);
            }
        }
    }
}

} // verus!
