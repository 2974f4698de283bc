use vstd::prelude::*;

verus! {

#[derive(Debug, Clone, Copy, PartialEq, Eq, Structural)]
pub enum Scope {
    Global,
    Local,
    Free,
    Function,
}

#[derive(Debug)]
pub struct Symbol {
    name: String,
    scope: Scope,
    pub index: usize,
}

/// A symbol as a value.
pub struct SymbolV {
    pub name: Seq<char>,
    pub scope: Scope,
    pub index: usize,
}

impl View for Symbol {
    type V = SymbolV;

    closed spec fn view(&self) -> SymbolV {
        SymbolV { name: self.name@, scope: self.scope, index: self.index }
    }
}

impl Clone for Symbol {
    fn clone(&self) -> (res: Self)
        ensures
            res@ == self@,
    {
        Symbol { name: self.name.clone(), scope: self.scope, index: self.index }
    }
}

impl Symbol {
    pub fn is_global(&self) -> (res: bool)
        ensures
            res == (self@.scope == Scope::Global),
    {
        self.scope == Scope::Global
    }

    /// Index of the symbol in its scope.
    pub fn index(&self) -> (res: usize)
        ensures
            res == self@.index,
    {
        self.index
    }

    pub fn scope(&self) -> (res: &Scope)
        ensures
            *res == self@.scope,
    {
        &self.scope
    }
}

/// A symbol table as a value: its definitions in the order they were made
/// (a later definition of a name hides earlier ones), the count of local
/// symbols, the enclosing table and the captured (free) symbols.
pub struct TableV {
    pub defs: Seq<SymbolV>,
    pub len: usize,
    pub outer: Option<Box<TableV>>,
    pub free: Seq<SymbolV>,
}

/// The latest definition of `name` in `defs`.
pub open spec fn lookup(defs: Seq<SymbolV>, name: Seq<char>) -> Option<SymbolV>
    decreases defs.len(),
{
    if defs.len() == 0 {
        None
    } else if defs.last().name == name {
        Some(defs.last())
    } else {
        lookup(defs.drop_last(), name)
    }
}

/// Resolve `name` in `t`: its own definition, else a global of an enclosing
/// table, else a local of an enclosing table, which becomes a free symbol
/// of `t`. Returns the table after resolution (enclosing tables may have
/// gained free symbols too) and the symbol.
pub open spec fn resolve(t: TableV, name: Seq<char>) -> (TableV, Option<SymbolV>)
    decreases t,
{
    match lookup(t.defs, name) {
        Some(sym) => (t, Some(sym)),
        None => match t.outer {
            None => (t, None),
            Some(outer) => {
                let (new_outer, res) = resolve(*outer, name);
                let t1 = TableV { outer: Some(Box::new(new_outer)), ..t };
                match res {
                    None => (t1, None),
                    Some(sym) => if sym.scope == Scope::Global {
                        (t1, Some(sym))
                    } else {
                        let free_sym = SymbolV { name: sym.name, scope: Scope::Free, index: t1.free.len() as usize };
                        (TableV { free: t1.free.push(sym), defs: t1.defs.push(free_sym), ..t1 }, Some(free_sym))
                    },
                }
            },
        },
    }
}

/// An operation on a symbol table.
pub enum TableOp {
    Define(Seq<char>),
    DefineFunctionName(Seq<char>),
    Resolve(Seq<char>),
}

/// The table after `define(name)`: the name becomes the next local (or, in
/// the outermost table, global) symbol.
pub open spec fn define_spec(t: TableV, name: Seq<char>) -> TableV {
    TableV {
        defs: t.defs.push(
            SymbolV { name, scope: if t.outer is None { Scope::Global } else { Scope::Local }, index: t.len },
        ),
        len: (t.len + 1) as usize,
        ..t
    }
}

/// The table after one operation.
pub open spec fn apply_op(t: TableV, op: TableOp) -> TableV {
    match op {
        TableOp::Define(name) => define_spec(t, name),
        TableOp::DefineFunctionName(name) => TableV {
            defs: t.defs.push(SymbolV { name, scope: Scope::Function, index: 0 }),
            ..t
        },
        TableOp::Resolve(name) => resolve(t, name).0,
    }
}

/// The table after the operations, in order.
pub open spec fn apply_ops(t: TableV, ops: Seq<TableOp>) -> TableV
    decreases ops.len(),
{
    if ops.len() == 0 {
        t
    } else {
        apply_ops(apply_op(t, ops[0]), ops.drop_first())
    }
}

/// Depth of nesting: 0 for a table without an enclosing one.
pub open spec fn depth(t: TableV) -> nat
    decreases t,
{
    match t.outer {
        None => 0,
        Some(o) => 1 + depth(*o),
    }
}

#[derive(Debug)]
pub struct SymbolTable {
    table: Vec<Symbol>,
    // length of local symbol
    pub len: usize,
    outer: Option<Box<SymbolTable>>,
    free: Vec<Symbol>,
}

pub open spec fn symbols_view(s: Seq<Symbol>) -> Seq<SymbolV> {
    Seq::new(s.len(), |i: int| s[i]@)
}

pub closed spec fn table_view(t: SymbolTable) -> TableV
    decreases t,
{
    TableV {
        defs: symbols_view(t.table@),
        len: t.len,
        outer: match t.outer {
            Some(o) => Some(Box::new(table_view(*o))),
            None => None,
        },
        free: symbols_view(t.free@),
    }
}

impl View for SymbolTable {
    type V = TableV;

    closed spec fn view(&self) -> TableV {
        table_view(*self)
    }
}

fn clone_symbols(v: &Vec<Symbol>) -> (res: Vec<Symbol>)
    ensures
        symbols_view(res@) == symbols_view(v@),
{
    let mut res: Vec<Symbol> = Vec::new();
    let mut i: usize = 0;
    while i < v.len()
        invariant
            i <= v@.len(),
            res@.len() == i,
            forall|j: int| 0 <= j < i ==> (#[trigger] res@[j])@ == v@[j]@,
        decreases v@.len() - i,
    {
        res.push(v[i].clone());
        i = i + 1;
    }
    assert(symbols_view(res@) =~= symbols_view(v@));
    res
}

impl SymbolTable {
    pub fn new() -> (res: Self)
        ensures
            res@ == (TableV { defs: Seq::empty(), len: 0, outer: None, free: Seq::empty() }),
    {
        let t = Self { table: Vec::new(), len: 0, outer: None, free: Vec::new() };
        assert(symbols_view(t.table@) =~= Seq::empty());
        t
    }

    pub fn enclose(outer: Self) -> (res: Self)
        ensures
            res@ == (TableV { defs: Seq::empty(), len: 0, outer: Some(Box::new(outer@)), free: Seq::empty() }),
    {
        let t = Self { table: Vec::new(), len: 0, outer: Some(Box::new(outer)), free: Vec::new() };
        assert(symbols_view(t.table@) =~= Seq::empty());
        t
    }

    pub fn get_outer(&mut self) -> (res: Self)
        requires
            old(self)@.outer is Some,
        ensures
            res@ == *old(self)@.outer->0,
            final(self)@ == (TableV { outer: None, ..old(self)@ }),
    {
        let o = self.outer.take();
        match o {
            Some(b) => *b,
            None => {
                proof {
                    assert(false);
                }
                SymbolTable::new()
            },
        }
    }

    /// Count of the table's own (local or global) symbols.
    pub fn len(&self) -> (res: usize)
        ensures
            res == self@.len,
    {
        self.len
    }

    pub fn is_global(&self) -> (res: bool)
        ensures
            res == (self@.outer is None),
    {
        self.outer.is_none()
    }

    fn insert(&mut self, sym: Symbol)
        ensures
            final(self)@ == (TableV { defs: old(self)@.defs.push(sym@), ..old(self)@ }),
    {
        let ghost s = sym@;
        self.table.push(sym);
        assert(symbols_view(self.table@) =~= old(self)@.defs.push(s));
    }

    /// Define `name` as the next local (or, in the outermost table, global)
    /// symbol and return its index.
    pub fn define(&mut self, name: &str) -> (res: usize)
        requires
            old(self)@.len < usize::MAX,
        ensures
            res == old(self)@.len,
            final(self)@ == apply_op(old(self)@, TableOp::Define(name@)),
            final(self)@ == (TableV {
                defs: old(self)@.defs.push(SymbolV {
                    name: name@,
                    scope: if old(self)@.outer is None { Scope::Global } else { Scope::Local },
                    index: old(self)@.len,
                }),
                len: (old(self)@.len + 1) as usize,
                ..old(self)@
            }),
    {
        let scope = if self.is_global() {
            Scope::Global
        } else {
            Scope::Local
        };
        self.insert(Symbol { name: name.to_string(), scope, index: self.len });
        let len = self.len;
        self.len += 1;
        len
    }

    fn define_free(&mut self, sym: &Symbol) -> (res: Symbol)
        ensures
            res@ == (SymbolV { name: sym@.name, scope: Scope::Free, index: old(self)@.free.len() as usize }),
            final(self)@ == (TableV {
                free: old(self)@.free.push(sym@),
                defs: old(self)@.defs.push(res@),
                ..old(self)@
            }),
    {
        let ghost s = sym@;
        self.free.push(sym.clone());
        assert(symbols_view(self.free@) =~= old(self)@.free.push(s));
        let symbol = Symbol { name: sym.name.clone(), scope: Scope::Free, index: self.free.len() - 1 };
        self.insert(symbol.clone());
        symbol
    }

    pub fn define_function_name(&mut self, name: &str) -> (res: Symbol)
        ensures
            res@ == (SymbolV { name: name@, scope: Scope::Function, index: 0 }),
            final(self)@ == (TableV { defs: old(self)@.defs.push(res@), ..old(self)@ }),
            final(self)@ == apply_op(old(self)@, TableOp::DefineFunctionName(name@)),
    {
        let func_sym = Symbol { name: name.to_string(), scope: Scope::Function, index: 0 };
        self.insert(func_sym.clone());
        func_sym
    }

    pub fn get_free(&self) -> (res: Vec<Symbol>)
        ensures
            symbols_view(res@) == self@.free,
    {
        clone_symbols(&self.free)
    }

    fn get_local(&self, name: &String) -> (res: Option<Symbol>)
        ensures
            match res {
                Some(s) => lookup(self@.defs, name@) == Some(s@),
                None => lookup(self@.defs, name@) is None,
            },
    {
        let mut i = self.table.len();
        assert(self@.defs.subrange(0, i as int) =~= self@.defs);
        while i > 0
            invariant
                i <= self.table@.len(),
                lookup(self@.defs, name@) == lookup(self@.defs.subrange(0, i as int), name@),
            decreases i,
        {
            if self.table[i - 1].name == *name {
                return Some(self.table[i - 1].clone());
            }
            assert(self@.defs.subrange(0, i as int).drop_last() =~= self@.defs.subrange(0, i - 1));
            i = i - 1;
        }
        None
    }

    /// Find the symbol for `name`, capturing a local of an enclosing
    /// function as a free symbol.
    pub fn resolve(&mut self, name: &String) -> (res: Option<Symbol>)
        ensures
            final(self)@ == resolve(old(self)@, name@).0,
            final(self)@ == apply_op(old(self)@, TableOp::Resolve(name@)),
            match res {
                Some(s) => resolve(old(self)@, name@).1 == Some(s@),
                None => resolve(old(self)@, name@).1 is None,
            },
        decreases old(self)@,
    {
        if let Some(sym) = self.get_local(name) {
            return Some(sym);
        } else if self.outer.is_some() {
            // find symbol in self.outer
            let mut outer = self.outer.take().unwrap();
            let outer_rst = outer.resolve(name);
            self.outer = Some(outer);
            if outer_rst.is_some() {
                let found = outer_rst.unwrap();
                if found.scope == Scope::Global {
                    return Some(found);
                } else {
                    // outer local symbol means it's a free variable
                    let free = self.define_free(&found);
                    return Some(free);
                }
            }
        }
        None
    }
}

/// Resolving a name keeps the nesting depth of the table.
pub proof fn lemma_resolve_depth(t: TableV, name: Seq<char>)
    ensures
        depth(resolve(t, name).0) == depth(t),
    decreases t,
{
    if lookup(t.defs, name) is None {
        if let Some(o) = t.outer {
            lemma_resolve_depth(*o, name);
        }
    }
}

/// A name resolves to its latest definition in the table: after defining
/// `name`, resolving it gives the new symbol and changes nothing.
pub proof fn law_resolve_after_define(t: TableV, name: Seq<char>, scope: Scope)
    ensures
        ({
            let d = TableV {
                defs: t.defs.push(SymbolV { name, scope, index: t.len }),
                len: (t.len + 1) as usize,
                ..t
            };
            resolve(d, name) == (d, Some(SymbolV { name, scope, index: t.len }))
        }),
{
    let d = TableV { defs: t.defs.push(SymbolV { name, scope, index: t.len }), len: (t.len + 1) as usize, ..t };
    assert(d.defs.last() == SymbolV { name, scope, index: t.len });
}

/// Defining `name` changes what no other name resolves to.
pub proof fn law_define_keeps_others(t: TableV, name: Seq<char>, scope: Scope, other: Seq<char>)
    requires
        other != name,
    ensures
        ({
            let d = TableV {
                defs: t.defs.push(SymbolV { name, scope, index: t.len }),
                len: (t.len + 1) as usize,
                ..t
            };
            resolve(d, other).1 == resolve(t, other).1
        }),
{
    let d = TableV { defs: t.defs.push(SymbolV { name, scope, index: t.len }), len: (t.len + 1) as usize, ..t };
    assert(d.defs.drop_last() =~= t.defs);
    assert(lookup(d.defs, other) == lookup(t.defs, other));
}

/// Resolving in a table enclosed by the global table leaves that global
/// table as it was, so `get_outer` gives it back unchanged.
pub proof fn law_resolve_keeps_global_outer(t: TableV, name: Seq<char>)
    requires
        t.outer matches Some(o) && o.outer is None,
    ensures
        resolve(t, name).0.outer == t.outer,
{
    let o = *t.outer->0;
    assert(resolve(o, name).0 == o);
}

/// Whatever a table enclosed by the global table is asked to define or
/// resolve, its enclosing table stays the global table it was, so
/// `get_outer` gives that table back after any sequence of operations.
pub proof fn law_ops_keep_global_outer(t: TableV, ops: Seq<TableOp>)
    requires
        t.outer matches Some(o) && o.outer is None,
    ensures
        apply_ops(t, ops).outer == t.outer,
    decreases ops.len(),
{
    if ops.len() > 0 {
        match ops[0] {
            TableOp::Resolve(name) => law_resolve_keeps_global_outer(t, name),
            _ => {},
        }
        law_ops_keep_global_outer(apply_op(t, ops[0]), ops.drop_first());
    }
}

/// Resolving a name adds to the free symbols at most the one symbol it
/// captures, at the end: a local of an enclosing table, found under no
/// definition of the table itself, which the name then resolves to as the
/// free symbol with the next index. So the free symbols stand in the order
/// in which their names were first resolved.
pub proof fn law_resolve_appends_free(t: TableV, name: Seq<char>)
    ensures
        ({
            let (t1, r) = resolve(t, name);
            ||| t1.free == t.free && t1.defs == t.defs
            ||| (exists|s: SymbolV|
                s.name == name && s.scope != Scope::Global && t1.free == t.free.push(s) && r == Some(
                    SymbolV { name, scope: Scope::Free, index: t.free.len() as usize },
                )) && lookup(t.defs, name) is None
        }),
{
    if lookup(t.defs, name) is None {
        if let Some(o) = t.outer {
            let (o1, r) = resolve(*o, name);
            if let Some(sym) = r {
                if sym.scope != Scope::Global {
                    lemma_resolve_finds_name(*o, name);
                    assert(t.free.push(sym) == resolve(t, name).0.free);
                }
            }
        }
    }
}

/// A symbol that resolution finds carries the name asked for.
pub proof fn lemma_resolve_finds_name(t: TableV, name: Seq<char>)
    ensures
        resolve(t, name).1 matches Some(s) ==> s.name == name,
    decreases t,
{
    lemma_lookup_finds_name(t.defs, name);
    if lookup(t.defs, name) is None {
        if let Some(o) = t.outer {
            lemma_resolve_finds_name(*o, name);
        }
    }
}

/// A definition that lookup finds carries the name asked for.
pub proof fn lemma_lookup_finds_name(defs: Seq<SymbolV>, name: Seq<char>)
    ensures
        lookup(defs, name) matches Some(s) ==> s.name == name,
    decreases defs.len(),
{
    if defs.len() > 0 && defs.last().name != name {
        lemma_lookup_finds_name(defs.drop_last(), name);
    }
}

/// A name resolved once resolves again to the same symbol, and the second
/// resolution changes nothing: a captured name is captured once.
pub proof fn law_resolve_again(t: TableV, name: Seq<char>)
    ensures
        ({
            let (t1, r) = resolve(t, name);
            r is Some ==> resolve(t1, name) == (t1, r)
        }),
    decreases t,
{
    let (t1, r) = resolve(t, name);
    lemma_lookup_finds_name(t.defs, name);
    if lookup(t.defs, name) is None {
        if let Some(o) = t.outer {
            law_resolve_again(*o, name);
            lemma_resolve_finds_name(*o, name);
            let (o1, ro) = resolve(*o, name);
            if let Some(sym) = ro {
                if sym.scope != Scope::Global {
                    assert(t1.defs.last().name == name);
                    assert(lookup(t1.defs, name) == Some(t1.defs.last()));
                } else {
                    assert(t1.defs == t.defs);
                    assert(resolve(t1, name).0.outer == Some(Box::new(resolve(o1, name).0)));
                }
            }
        }
    }
}

/// The free symbols of a table are found again: the `i`-th free symbol's
/// name is defined in the table as the free symbol with index `i`.
pub open spec fn free_found(t: TableV) -> bool {
    forall|i: int|
        0 <= i < t.free.len() ==> lookup(t.defs, #[trigger] t.free[i].name) == Some(
            SymbolV { name: t.free[i].name, scope: Scope::Free, index: i as usize },
        )
}

/// The table after resolving the names in order.
pub open spec fn resolve_all(t: TableV, names: Seq<Seq<char>>) -> TableV
    decreases names.len(),
{
    if names.len() == 0 {
        t
    } else {
        resolve_all(resolve(t, names[0]).0, names.drop_first())
    }
}

/// Over any sequence of resolutions, from a table whose free symbols are
/// found again (a new enclosed table has none), the free symbols only grow
/// at the end, each name among them once, and each name resolves to its
/// free symbol, with its index, without changing the table: the free
/// symbols stand in the order in which their names were first resolved,
/// and `get_free` gives them in that order.
pub proof fn law_resolve_all_free(t: TableV, names: Seq<Seq<char>>)
    requires
        free_found(t),
        t.free.len() + names.len() <= usize::MAX,
    ensures
        ({
            let t2 = resolve_all(t, names);
            &&& t2.free.subrange(0, t.free.len() as int) == t.free
            &&& t.free.len() <= t2.free.len() <= t.free.len() + names.len()
            &&& free_found(t2)
            &&& forall|i: int, j: int| 0 <= i < j < t2.free.len() ==> #[trigger] t2.free[i].name != #[trigger] t2.free[j].name
            &&& forall|i: int|
                0 <= i < t2.free.len() ==> resolve(t2, #[trigger] t2.free[i].name) == (
                    t2,
                    Some(SymbolV { name: t2.free[i].name, scope: Scope::Free, index: i as usize }),
                )
        }),
    decreases names.len(),
{
    if names.len() == 0 {
        assert(t.free.subrange(0, t.free.len() as int) =~= t.free);
    } else {
        let t1 = resolve(t, names[0]).0;
        lemma_resolve_keeps_free_found(t, names[0]);
        law_resolve_all_free(t1, names.drop_first());
        let t2 = resolve_all(t1, names.drop_first());
        assert(t2.free.subrange(0, t.free.len() as int) =~= t2.free.subrange(0, t1.free.len() as int).subrange(
            0,
            t.free.len() as int,
        ));
    }
    lemma_free_found_distinct(resolve_all(t, names));
}

/// Free symbols found again have names of their own.
proof fn lemma_free_found_distinct(t: TableV)
    requires
        free_found(t),
        t.free.len() <= usize::MAX,
    ensures
        forall|i: int, j: int| 0 <= i < j < t.free.len() ==> #[trigger] t.free[i].name != #[trigger] t.free[j].name,
{
    assert forall|i: int, j: int| 0 <= i < j < t.free.len() implies #[trigger] t.free[i].name
        != #[trigger] t.free[j].name by {
        if t.free[i].name == t.free[j].name {
            assert(lookup(t.defs, t.free[i].name) == Some(
                SymbolV { name: t.free[i].name, scope: Scope::Free, index: i as usize },
            ));
            assert(lookup(t.defs, t.free[j].name) == Some(
                SymbolV { name: t.free[j].name, scope: Scope::Free, index: j as usize },
            ));
        }
    }
}

/// One resolution keeps the free symbols found again, and only adds to
/// their end.
proof fn lemma_resolve_keeps_free_found(t: TableV, name: Seq<char>)
    requires
        free_found(t),
    ensures
        free_found(resolve(t, name).0),
        resolve(t, name).0.free.subrange(0, t.free.len() as int) == t.free,
        t.free.len() <= resolve(t, name).0.free.len() <= t.free.len() + 1,
{
    let t1 = resolve(t, name).0;
    law_resolve_appends_free(t, name);
    if t1.free == t.free && t1.defs == t.defs {
        assert(t1.free.subrange(0, t.free.len() as int) =~= t.free);
    } else {
        let s = t1.free.last();
        assert(t1.free == t.free.push(s));
        assert(lookup(t.defs, name) is None);
        // the captured symbol is defined last, under its name
        assert(t1.defs == t.defs.push(SymbolV { name, scope: Scope::Free, index: t.free.len() as usize }));
        assert forall|i: int| 0 <= i < t1.free.len() implies lookup(t1.defs, #[trigger] t1.free[i].name) == Some(
            SymbolV { name: t1.free[i].name, scope: Scope::Free, index: i as usize },
        ) by {
            assert(t1.defs.drop_last() =~= t.defs);
            if i < t.free.len() {
                assert(t1.free[i] == t.free[i]);
                assert(lookup(t.defs, t.free[i].name) is Some);
                assert(t.free[i].name != name);
            } else {
                assert(t1.free[i] == s);
            }
        }
        assert(t1.free.subrange(0, t.free.len() as int) =~= t.free);
    }
}

} // verus!
