//! Properties of the machine that relate several instructions or several states.
use vstd::prelude::*;

use crate::op::Op;
use crate::value::{copyable, equality_of, Value, VmError};
use crate::vm::{next, steps, MachineState, Step};

verus! {

/// The value an instruction pushes, where it is a literal push.
pub open spec fn literal(op: Op) -> Option<Value> {
    match op {
        Op::Nil => Some(Value::Nil),
        Op::Fn(f) => Some(Value::Function(f)),
        Op::I32(v) => Some(Value::I32(v)),
        Op::I64(v) => Some(Value::I64(v)),
        Op::U32(v) => Some(Value::U32(v)),
        Op::U64(v) => Some(Value::U64(v)),
        Op::Usize(v) => Some(Value::Usize(v)),
        Op::Bool(v) => Some(Value::Bool(v)),
        _ => None,
    }
}

/// Whether the `n` instructions from `from` on are literal pushes.
pub open spec fn all_literals(code: Seq<Op>, from: int, n: int) -> bool {
    forall|j: int| 0 <= j < n ==> (#[trigger] literal(code[from + j])) is Some
}

/// The values that the `n` literal pushes from `from` on push, in order.
pub open spec fn literal_values(code: Seq<Op>, from: int, n: int) -> Seq<Value> {
    Seq::new(n as nat, |j: int| literal(code[from + j])->Some_0)
}

/// Running `a + b` steps is running `a` steps and then `b` more.
pub proof fn lemma_steps_split(code: Seq<Op>, s: MachineState, a: nat, b: nat)
    requires
        steps(code, s, a) is Next,
    ensures
        steps(code, s, a + b) == steps(code, steps(code, s, a)->Next_0, b),
    decreases a,
{
    if a > 0 {
        let t = next(code, s)->Next_0;
        assert((a + b - 1) as nat == (a - 1) as nat + b);
        lemma_steps_split(code, t, (a - 1) as nat, b);
    }
}

/// `n` literal pushes push their values in order and touch nothing else.
pub proof fn lemma_literal_pushes(code: Seq<Op>, s: MachineState, n: nat)
    requires
        code.len() <= usize::MAX,
        s.ip + n <= code.len(),
        all_literals(code, s.ip as int, n as int),
    ensures
        steps(code, s, n) == Step::Next(
            MachineState {
                ip: (s.ip + n) as usize,
                fp: s.fp,
                stack: s.stack + literal_values(code, s.ip as int, n as int),
                calls: s.calls,
            },
        ),
    decreases n,
{
    if n == 0 {
        assert(s.stack + literal_values(code, s.ip as int, 0) =~= s.stack);
    } else {
        assert(literal(code[s.ip + 0]) is Some);
        let v = literal(code[s.ip as int])->Some_0;
        let t = MachineState {
            ip: (s.ip + 1) as usize,
            fp: s.fp,
            stack: s.stack.push(v),
            calls: s.calls,
        };
        assert(next(code, s) == Step::Next(t));
        assert forall|j: int| 0 <= j < n - 1 implies (#[trigger] literal(code[t.ip + j])) is Some by {
            assert(literal(code[s.ip + (j + 1)]) is Some);
        }
        lemma_literal_pushes(code, t, (n - 1) as nat);
        assert(t.stack + literal_values(code, t.ip as int, n - 1) =~= s.stack + literal_values(
            code,
            s.ip as int,
            n as int,
        ));
    }
}

/// Pushing `n` literals, building a struct of them and popping it at once restores the stack as
/// it was before the pushes.
pub proof fn lemma_push_struct_pop(code: Seq<Op>, s: MachineState, n: nat)
    requires
        code.len() <= usize::MAX,
        s.ip + n + 3 <= code.len(),
        all_literals(code, s.ip as int, n as int),
        code[s.ip + n] == Op::Usize(n as usize),
        code[s.ip + n + 1] == Op::Struct,
        code[s.ip + n + 2] == Op::Pop,
    ensures
        steps(code, s, n + 3) == Step::Next(
            MachineState { ip: (s.ip + n + 3) as usize, fp: s.fp, stack: s.stack, calls: s.calls },
        ),
{
    lemma_literal_pushes(code, s, n);
    let t = steps(code, s, n)->Next_0;
    lemma_steps_split(code, s, n, 3);
    lemma_struct_round_trip(code, t, s.stack, literal_values(code, s.ip as int, n as int));
}

/// Building a struct over the `n` values on top of the stack and popping it at once leaves the
/// stack exactly as it was before those `n` values were pushed.
pub proof fn lemma_struct_round_trip(
    code: Seq<Op>,
    s: MachineState,
    base: Seq<Value>,
    fields: Seq<Value>,
)
    requires
        code.len() <= usize::MAX,
        s.ip + 3 <= code.len(),
        fields.len() <= usize::MAX,
        code[s.ip as int] == Op::Usize(fields.len() as usize),
        code[s.ip + 1] == Op::Struct,
        code[s.ip + 2] == Op::Pop,
        s.stack == base + fields,
    ensures
        steps(code, s, 3) == Step::Next(
            MachineState { ip: (s.ip + 3) as usize, fp: s.fp, stack: base, calls: s.calls },
        ),
{
    let n = fields.len() as usize;
    let s1 = MachineState {
        ip: (s.ip + 1) as usize,
        fp: s.fp,
        stack: s.stack.push(Value::Usize(n)),
        calls: s.calls,
    };
    assert(next(code, s) == Step::Next(s1));
    let header = Value::Struct { field_count: n };
    let s2 = MachineState {
        ip: (s.ip + 2) as usize,
        fp: s.fp,
        stack: s.stack.push(header),
        calls: s.calls,
    };
    assert(s1.stack.drop_last() =~= s.stack);
    assert(next(code, s1) == Step::Next(s2));
    let s3 = MachineState { ip: (s.ip + 3) as usize, fp: s.fp, stack: base, calls: s.calls };
    assert(s2.stack.subrange(0, s2.stack.len() - (n + 1)) =~= base);
    assert(next(code, s2) == Step::Next(s3));
    assert(steps(code, s3, 0) == Step::Next(s3));
    assert(steps(code, s2, 1) == Step::Next(s3));
    assert(steps(code, s1, 2) == Step::Next(s3));
}

/// `Copy` on a single copyable value pushes a value equal to it.
pub proof fn lemma_copy_value(code: Seq<Op>, s: MachineState)
    requires
        code.len() <= usize::MAX,
        s.ip < code.len(),
        code[s.ip as int] == Op::Copy,
        s.stack.len() > 0,
        copyable(s.stack.last()),
        !(s.stack.last() is Struct),
    ensures
        next(code, s) == Step::Next(
            MachineState {
                ip: (s.ip + 1) as usize,
                fp: s.fp,
                stack: s.stack.push(s.stack.last()),
                calls: s.calls,
            },
        ),
        equality_of(s.stack.last(), s.stack.push(s.stack.last()).last()) == Ok::<bool, VmError>(true),
{
    let st = s.stack;
    let u = st.subrange(st.len() - 1, st.len() as int);
    assert(u =~= seq![st.last()]);
    assert(st + u =~= st.push(st.last()));
}

/// `Swap` on two structs exchanges them whole: each header stays with its fields.
pub proof fn lemma_struct_swap(
    code: Seq<Op>,
    s: MachineState,
    base: Seq<Value>,
    first: Seq<Value>,
    second: Seq<Value>,
)
    requires
        code.len() <= usize::MAX,
        s.ip < code.len(),
        code[s.ip as int] == Op::Swap,
        first.len() <= usize::MAX,
        second.len() <= usize::MAX,
        s.stack == base + first.push(Value::Struct { field_count: first.len() as usize })
            + second.push(Value::Struct { field_count: second.len() as usize }),
    ensures
        next(code, s) == Step::Next(
            MachineState {
                ip: (s.ip + 1) as usize,
                fp: s.fp,
                stack: base + second.push(Value::Struct { field_count: second.len() as usize })
                    + first.push(Value::Struct { field_count: first.len() as usize }),
                calls: s.calls,
            },
        ),
{
    let st = s.stack;
    let a = first.push(Value::Struct { field_count: first.len() as usize });
    let b = second.push(Value::Struct { field_count: second.len() as usize });
    let rest = st.len() - b.len();
    let low = rest - a.len();
    assert(st[st.len() - 1] == Value::Struct { field_count: second.len() as usize });
    assert(st[rest - 1] == Value::Struct { field_count: first.len() as usize });
    assert(st.subrange(0, low) =~= base);
    assert(st.subrange(rest, st.len() as int) =~= b);
    assert(st.subrange(low, rest) =~= a);
}

/// A `Return` executed while the call stack is as a `Call` left it resumes the caller: at the
/// instruction after the `Call`, with the caller's frame and call stack.
pub proof fn lemma_call_return(code: Seq<Op>, s: MachineState, callee: MachineState)
    requires
        code.len() <= usize::MAX,
        s.ip < code.len(),
        code[s.ip as int] == Op::Call,
        next(code, s) is Next,
        callee.calls == next(code, s)->Next_0.calls,
        callee.ip < code.len(),
        code[callee.ip as int] == Op::Return,
    ensures
        next(code, callee) == Step::Next(
            MachineState {
                ip: (s.ip + 1) as usize,
                fp: s.fp,
                stack: callee.stack,
                calls: s.calls,
            },
        ),
        next(code, s)->Next_0.calls.len() == s.calls.len() + 1,
{
    assert(callee.calls.drop_last() =~= s.calls);
}

/// `Load` addresses the frame relative to the frame pointer: two machines whose frames hold the
/// same value at `offset` load the same value, whatever their call depths.
pub proof fn lemma_load_frame_relative(
    code1: Seq<Op>,
    s1: MachineState,
    code2: Seq<Op>,
    s2: MachineState,
    offset: usize,
)
    requires
        code1.len() <= usize::MAX,
        code2.len() <= usize::MAX,
        s1.ip < code1.len(),
        s2.ip < code2.len(),
        code1[s1.ip as int] == Op::Load,
        code2[s2.ip as int] == Op::Load,
        s1.stack.len() > 0,
        s2.stack.len() > 0,
        s1.stack.last() == Value::Usize(offset),
        s2.stack.last() == Value::Usize(offset),
        s1.fp + offset < s1.stack.len() - 1,
        s2.fp + offset < s2.stack.len() - 1,
        s1.stack[s1.fp + offset] == s2.stack[s2.fp + offset],
        copyable(s1.stack[s1.fp + offset]),
        !(s1.stack[s1.fp + offset] is Struct),
    ensures
        next(code1, s1) is Next,
        next(code2, s2) is Next,
        next(code1, s1)->Next_0.stack.last() == s1.stack[s1.fp + offset],
        next(code2, s2)->Next_0.stack.last() == s2.stack[s2.fp + offset],
        next(code1, s1)->Next_0.calls == s1.calls,
        next(code2, s2)->Next_0.calls == s2.calls,
{
    let v = s1.stack[s1.fp + offset];
    let t1 = s1.stack.drop_last();
    let t2 = s2.stack.drop_last();
    let i1 = s1.fp + offset;
    let i2 = s2.fp + offset;
    assert(t1[i1] == v);
    assert(t2[i2] == v);
    assert(t1.subrange(i1, i1 + 1) =~= seq![v]);
    assert(t2.subrange(i2, i2 + 1) =~= seq![v]);
    assert((t1 + seq![v]).last() == v);
    assert((t2 + seq![v]).last() == v);
}

} // verus!
