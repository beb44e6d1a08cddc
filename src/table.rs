//! The table/cursor protocol, the closed set of table kinds the machine knows, and the one kind
//! it has so far: the function table.
//!
//! A table is queried with the fields of a struct; a field holding `Nil` is free, any other
//! value must match the record. A query yields a cursor, which reads the record it stands on and
//! gives the table back when closed. A further kind of table is a further variant of
//! [`TableTypes`] and [`CursorTypes`]; the machine reaches every kind through the traits.
use vstd::prelude::*;

use crate::value::{FunctionValue, Value, VmError};

verus! {

/// A keyed store that can be searched with a partially specified record.
pub trait Table: Sized {
    type Cursor;

    /// Searches the table for the first record that matches the query's fields.
    fn find(self, query: &Vec<Value>) -> Self::Cursor;
}

/// A position in a table, produced by a query.
pub trait Cursor: Sized {
    type Table;

    /// Whether the cursor stands on a record that matches its query.
    fn found(&self) -> Result<bool, VmError>;

    /// Pushes the record at the cursor, or `Nil` where there is none.
    fn read(&self, stack: &mut Vec<Value>) -> Result<(), VmError>;

    /// Consumes a record from the stack and adds it after the cursor.
    fn insert(&mut self, stack: &mut Vec<Value>) -> Result<(), VmError>;

    /// Consumes a record from the stack and puts it in place of the record at the cursor.
    fn update(&mut self, stack: &mut Vec<Value>) -> Result<(), VmError>;

    /// Deletes the record at the cursor and moves to the next matching record.
    fn delete(&mut self) -> Result<(), VmError>;

    /// Moves to the next matching record; tells whether there is one.
    fn advance(&mut self) -> Result<bool, VmError>;

    /// Closes the cursor and gives back the table.
    fn close(self) -> Self::Table;
}

/// A named function: one record of the function table.
#[derive(Debug)]
pub struct Function {
    pub name: String,
    pub value: FunctionValue,
}

/// The function table: functions by name for the code generator, and by numeric id for running
/// code. A function's id is its position in the table, and the names are distinct.
#[derive(Debug)]
pub struct FnTable {
    functions: Vec<Function>,
}

/// A cursor over the function table.
#[derive(Debug)]
pub struct FnCursor {
    table: FnTable,
    position: usize,
}

/// The position of the function named `name`, if there is one.
pub open spec fn position_of(fs: Seq<Function>, name: Seq<char>) -> Option<int> {
    if exists|i: int| 0 <= i < fs.len() && fs[i].name@ == name {
        Some(choose|i: int| 0 <= i < fs.len() && fs[i].name@ == name)
    } else {
        None
    }
}

/// The function named `name`, if there is one.
pub open spec fn lookup(fs: Seq<Function>, name: Seq<char>) -> Option<FunctionValue> {
    match position_of(fs, name) {
        Some(i) => Some(fs[i].value),
        None => None,
    }
}

/// The table after registering `value` under `name`: an earlier function of that name is
/// replaced in place, otherwise the function is added at the end.
pub open spec fn registered(fs: Seq<Function>, name: String, value: FunctionValue) -> Seq<Function> {
    match position_of(fs, name@) {
        Some(i) => fs.update(i, Function { name: fs[i].name, value }),
        None => fs.push(Function { name, value }),
    }
}

/// Whether no two functions share a name.
pub open spec fn distinct_names(fs: Seq<Function>) -> bool {
    forall|i: int, j: int|
        #![trigger fs[i], fs[j]]
        0 <= i < fs.len() && 0 <= j < fs.len() && fs[i].name@ == fs[j].name@ ==> i == j
}

/// Whether a query field leaves the record's field free or holds exactly its value.
pub open spec fn field_matches(q: Value, v: Value) -> bool {
    q is Nil || q == v
}

/// Whether a query field leaves the id free or holds it as a `U32`.
pub open spec fn key_matches(q: Value, id: int) -> bool {
    match q {
        Value::Nil => true,
        Value::U32(k) => k as int == id,
        _ => false,
    }
}

/// Whether the function record with id `id` matches a query of the form (function, id).
pub open spec fn record_matches(query: Seq<Value>, id: int, f: FunctionValue) -> bool {
    &&& query.len() == 2
    &&& field_matches(query[0], Value::Function(f))
    &&& key_matches(query[1], id)
}

/// The position of the first record at or after `from` that matches the query, or the table's
/// length where none does.
pub open spec fn first_match(fs: Seq<Function>, query: Seq<Value>, from: int) -> int
    decreases fs.len() - from,
{
    if from < 0 || from >= fs.len() {
        fs.len() as int
    } else if record_matches(query, from, fs[from].value) {
        from
    } else {
        first_match(fs, query, from + 1)
    }
}

/// The cursor that searching `t` with `query` yields.
pub closed spec fn search(t: FnTable, query: Seq<Value>) -> FnCursor {
    FnCursor { table: t, position: first_match(t.entries(), query, 0) as usize }
}

impl FnTable {
    /// The functions, in id order.
    pub closed spec fn entries(&self) -> Seq<Function> {
        self.functions@
    }

    pub open spec fn wf(&self) -> bool {
        distinct_names(self.entries())
    }

    /// An empty table.
    pub fn new() -> (t: FnTable)
        ensures
            t.entries() == Seq::<Function>::empty(),
            t.wf(),
    {
        FnTable { functions: Vec::new() }
    }

    /// The number of functions.
    pub fn len(&self) -> (n: usize)
        ensures
            n == self.entries().len(),
    {
        self.functions.len()
    }

    /// The position of the function named `name`.
    fn index_of(&self, name: &String) -> (r: Option<usize>)
        requires
            self.wf(),
        ensures
            match r {
                Some(i) => position_of(self.entries(), name@) == Some(i as int),
                None => position_of(self.entries(), name@) is None,
            },
    {
        let mut i: usize = 0;
        while i < self.functions.len()
            invariant
                self.wf(),
                i <= self.functions@.len(),
                forall|j: int| 0 <= j < i ==> self.functions@[j].name@ != name@,
            decreases self.functions@.len() - i,
        {
            if self.functions[i].name == *name {
                let ghost fs = self.functions@;
                proof {
                    assert(fs[i as int].name@ == name@);
                    let k = choose|k: int| 0 <= k < fs.len() && fs[k].name@ == name@;
                    assert(fs[k].name@ == fs[i as int].name@);
                    assert(self.entries() == fs);
                    assert(k == i as int);
                }
                return Some(i);
            }
            i = i + 1;
        }
        None
    }

    /// The function named `name`.
    pub fn get(&self, name: &String) -> (r: Option<FunctionValue>)
        requires
            self.wf(),
        ensures
            r == lookup(self.entries(), name@),
    {
        match self.index_of(name) {
            Some(i) => Some(self.functions[i].value),
            None => None,
        }
    }

    /// Registers `value` under `name`, replacing an earlier function of that name in place;
    /// returns the function's id.
    pub fn add_fn(&mut self, name: String, value: FunctionValue) -> (id: usize)
        requires
            old(self).wf(),
        ensures
            final(self).wf(),
            final(self).entries() == registered(old(self).entries(), name, value),
            match position_of(old(self).entries(), name@) {
                Some(i) => id == i,
                None => id == old(self).entries().len(),
            },
            lookup(final(self).entries(), name@) == Some(value),
    {
        match self.index_of(&name) {
            Some(i) => {
                let ghost before = self.functions@;
                self.functions[i].value = value;
                proof {
                    let fs = self.functions@;
                    assert(fs =~= before.update(
                        i as int,
                        Function { name: before[i as int].name, value },
                    ));
                    assert(fs[i as int].name@ == name@);
                }
                i
            },
            None => {
                let ghost before = self.functions@;
                let ghost n = name@;
                let id = self.functions.len();
                self.functions.push(Function { name, value });
                proof {
                    let fs = self.functions@;
                    assert(fs[id as int].name@ == n);
                    assert forall|i: int, j: int|
                        0 <= i < fs.len() && 0 <= j < fs.len() && fs[i].name@ == fs[j].name@
                        implies i == j by {
                        if i < id && j < id {
                            assert(fs[i] == before[i] && fs[j] == before[j]);
                        } else if i < id {
                            assert(before[i].name@ == n);
                        } else if j < id {
                            assert(before[j].name@ == n);
                        }
                    }
                    assert(position_of(fs, n) == Some(id as int));
                }
                id
            },
        }
    }
}

impl FnCursor {
    /// The table the cursor was made on.
    pub closed spec fn table(&self) -> FnTable {
        self.table
    }

    /// The position of the cursor: a record's id, or the table's length past the last record.
    pub closed spec fn position(&self) -> int {
        self.position as int
    }

    /// What `read` pushes for a cursor.
    pub open spec fn record(&self) -> Value {
        if 0 <= self.position() < self.table().entries().len() {
            Value::Function(self.table().entries()[self.position()].value)
        } else {
            Value::Nil
        }
    }
}

/// Whether a query field holds the given function reference or leaves it free.
fn function_field_matches(q: &Value, f: FunctionValue) -> (r: bool)
    ensures
        r == field_matches(*q, Value::Function(f)),
{
    match q {
        Value::Nil => true,
        Value::Function(g) => *g == f,
        _ => false,
    }
}

/// Whether a query field holds the given id as a `U32` or leaves it free.
fn key_field_matches(q: &Value, id: usize) -> (r: bool)
    ensures
        r == key_matches(*q, id as int),
{
    match q {
        Value::Nil => true,
        Value::U32(k) => *k as usize == id,
        _ => false,
    }
}

impl Table for FnTable {
    type Cursor = FnCursor;

    fn find(self, query: &Vec<Value>) -> (c: FnCursor)
        ensures
            c == search(self, query@),
            c.table() == self,
            c.position() == first_match(self.entries(), query@, 0),
    {
        let mut i: usize = 0;
        let n = self.functions.len();
        while i < n
            invariant
                n == self.functions@.len(),
                i <= n,
                first_match(self.entries(), query@, 0) == first_match(self.entries(), query@, i as int),
            decreases n - i,
        {
            let f = self.functions[i].value;
            if query.len() == 2 && function_field_matches(&query[0], f) && key_field_matches(
                &query[1],
                i,
            ) {
                return FnCursor { table: self, position: i };
            }
            i = i + 1;
        }
        FnCursor { table: self, position: i }
    }
}

impl Cursor for FnCursor {
    type Table = FnTable;

    /// Not supported by the function table.
    fn found(&self) -> (r: Result<bool, VmError>)
        ensures
            r == Err::<bool, VmError>(VmError::Unsupported),
    {
        Err(VmError::Unsupported)
    }

    fn read(&self, stack: &mut Vec<Value>) -> (r: Result<(), VmError>)
        ensures
            r is Ok,
            final(stack)@ == old(stack)@.push(self.record()),
    {
        if self.position < self.table.functions.len() {
            stack.push(Value::Function(self.table.functions[self.position].value));
        } else {
            stack.push(Value::Nil);
        }
        Ok(())
    }

    /// Not supported by the function table.
    fn insert(&mut self, stack: &mut Vec<Value>) -> (r: Result<(), VmError>)
        ensures
            r == Err::<(), VmError>(VmError::Unsupported),
            *final(self) == *old(self),
            final(stack)@ == old(stack)@,
    {
        Err(VmError::Unsupported)
    }

    /// Not supported by the function table.
    fn update(&mut self, stack: &mut Vec<Value>) -> (r: Result<(), VmError>)
        ensures
            r == Err::<(), VmError>(VmError::Unsupported),
            *final(self) == *old(self),
            final(stack)@ == old(stack)@,
    {
        Err(VmError::Unsupported)
    }

    /// Not supported by the function table.
    fn delete(&mut self) -> (r: Result<(), VmError>)
        ensures
            r == Err::<(), VmError>(VmError::Unsupported),
            *final(self) == *old(self),
    {
        Err(VmError::Unsupported)
    }

    /// Not supported by the function table.
    fn advance(&mut self) -> (r: Result<bool, VmError>)
        ensures
            r == Err::<bool, VmError>(VmError::Unsupported),
            *final(self) == *old(self),
    {
        Err(VmError::Unsupported)
    }

    fn close(self) -> (t: FnTable)
        ensures
            t == self.table(),
    {
        self.table
    }
}

/// The kinds of table a value can hold.
#[derive(Debug)]
pub enum TableTypes {
    Fn(FnTable),
}

/// The kinds of cursor a value can hold, one for each kind of table.
#[derive(Debug)]
pub enum CursorTypes {
    Fn(FnCursor),
}

/// The cursor that searching `t` with `query` yields.
pub open spec fn query_result(t: TableTypes, query: Seq<Value>) -> CursorTypes {
    match t {
        TableTypes::Fn(f) => CursorTypes::Fn(search(f, query)),
    }
}

impl CursorTypes {
    /// What `read` pushes for the cursor.
    pub open spec fn record(&self) -> Value {
        match self {
            CursorTypes::Fn(c) => c.record(),
        }
    }

    /// The table that `close` gives back.
    pub open spec fn table(&self) -> TableTypes {
        match self {
            CursorTypes::Fn(c) => TableTypes::Fn(c.table()),
        }
    }
}

impl Table for TableTypes {
    type Cursor = CursorTypes;

    fn find(self, query: &Vec<Value>) -> (c: CursorTypes)
        ensures
            c == query_result(self, query@),
    {
        match self {
            TableTypes::Fn(t) => CursorTypes::Fn(t.find(query)),
        }
    }
}

/// No kind of cursor supports `found`, `insert`, `update`, `delete` or `advance` yet.
impl Cursor for CursorTypes {
    type Table = TableTypes;

    fn found(&self) -> (r: Result<bool, VmError>)
        ensures
            r == Err::<bool, VmError>(VmError::Unsupported),
    {
        match self {
            CursorTypes::Fn(c) => c.found(),
        }
    }

    fn read(&self, stack: &mut Vec<Value>) -> (r: Result<(), VmError>)
        ensures
            r is Ok,
            final(stack)@ == old(stack)@.push(self.record()),
    {
        match self {
            CursorTypes::Fn(c) => c.read(stack),
        }
    }

    fn insert(&mut self, stack: &mut Vec<Value>) -> (r: Result<(), VmError>)
        ensures
            r == Err::<(), VmError>(VmError::Unsupported),
    {
        match self {
            CursorTypes::Fn(c) => c.insert(stack),
        }
    }

    fn update(&mut self, stack: &mut Vec<Value>) -> (r: Result<(), VmError>)
        ensures
            r == Err::<(), VmError>(VmError::Unsupported),
    {
        match self {
            CursorTypes::Fn(c) => c.update(stack),
        }
    }

    fn delete(&mut self) -> (r: Result<(), VmError>)
        ensures
            r == Err::<(), VmError>(VmError::Unsupported),
    {
        match self {
            CursorTypes::Fn(c) => c.delete(),
        }
    }

    fn advance(&mut self) -> (r: Result<bool, VmError>)
        ensures
            r == Err::<bool, VmError>(VmError::Unsupported),
    {
        match self {
            CursorTypes::Fn(c) => c.advance(),
        }
    }

    fn close(self) -> (t: TableTypes)
        ensures
            t == self.table(),
    {
        match self {
            CursorTypes::Fn(c) => TableTypes::Fn(c.close()),
        }
    }
}

} // verus!
