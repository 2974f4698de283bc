use vstd::prelude::*;

verus! {

#[derive(Debug, Clone, Copy, PartialEq, Eq, Structural)]
pub enum Scope {
    Global,
    Local,
}

pub struct Symbol {
    name: String,
    scope: Scope,
    pub index: usize,
}

/// A symbol as a value.
pub struct SymbolV {
    pub name: Seq<char>,
    pub scope: Scope,
    pub index: usize,
}

impl View for Symbol {
    type V = SymbolV;

    closed spec fn view(&self) -> SymbolV {
        SymbolV { name: self.name@, scope: self.scope, index: self.index }
    }
}

/// Global symbols by name; each name is held once, and the count of
/// names numbers the next one.
pub struct SymbolTable {
    table: Vec<Symbol>,
    len: usize,
}

pub open spec fn symbols_view(s: Seq<Symbol>) -> Seq<SymbolV> {
    Seq::new(s.len(), |i: int| s[i]@)
}

/// The symbol of `name`.
pub open spec fn lookup(t: Seq<SymbolV>, name: Seq<char>) -> Option<SymbolV>
    decreases t.len(),
{
    if t.len() == 0 {
        None
    } else if t.last().name == name {
        Some(t.last())
    } else {
        lookup(t.drop_last(), name)
    }
}

/// The table as a value: its symbols and the index the next new name gets.
pub struct SymbolTableV {
    pub table: Seq<SymbolV>,
    pub len: usize,
}

impl View for SymbolTable {
    type V = SymbolTableV;

    closed spec fn view(&self) -> SymbolTableV {
        SymbolTableV { table: symbols_view(self.table@), len: self.len }
    }
}

impl SymbolTable {
    /// The table holds each name once, and counts them.
    pub closed spec fn wf(&self) -> bool {
        &&& self.len == self.table@.len()
        &&& forall|i: int, j: int|
            0 <= i < j < self.table@.len() ==> self.table@[i].name@ != self.table@[j].name@
    }

    pub fn new() -> (res: Self)
        ensures
            res.wf(),
            res@.len == 0,
            forall|n: Seq<char>| lookup(res@.table, n) is None,
    {
        let t = Self { table: Vec::new(), len: 0 };
        assert(symbols_view(t.table@) =~= Seq::empty());
        t
    }

    /// Define `name` as a global with the current count as its index, and
    /// give that index; a name defined before is replaced.
    pub fn define_global(&mut self, name: &String) -> (res: usize)
        requires
            old(self).wf(),
        ensures
            final(self).wf(),
            res == old(self)@.len,
            lookup(final(self)@.table, name@) == Some(SymbolV { name: name@, scope: Scope::Global, index: res }),
            forall|n: Seq<char>| n != name@ ==> lookup(final(self)@.table, n) == lookup(old(self)@.table, n),
            final(self)@.len == if lookup(old(self)@.table, name@) is Some {
                old(self)@.len as int
            } else {
                old(self)@.len + 1
            },
    {
        let len = self.len;
        let sym = Symbol { name: name.clone(), scope: Scope::Global, index: len };
        let ghost sv = sym@;
        let ghost t0 = self.table@;
        let mut i: usize = 0;
        while i < self.table.len()
            invariant
                i <= t0.len(),
                self.table@ == t0,
                self.len == len,
                self.wf(),
                sv == sym@,
                len == old(self)@.len,
                symbols_view(t0) == old(self)@.table,
                sv == (SymbolV { name: name@, scope: Scope::Global, index: len }),
                forall|j: int| 0 <= j < i ==> t0[j].name@ != name@,
            decreases t0.len() - i,
        {
            if self.table[i].name == *name {
                self.table.set(i, sym);
                proof {
                    lemma_lookup_replace(symbols_view(t0), i as int, sv);
                    lemma_lookup_present(symbols_view(t0), i as int);
                }
                assert(symbols_view(self.table@) =~= symbols_view(t0).update(i as int, sv));
                assert forall|a: int, b: int|
                    0 <= a < b < self.table@.len() implies self.table@[a].name@ != self.table@[b].name@ by {
                    if a == i {
                        assert(t0[a].name@ == name@);
                    }
                    if b == i {
                        assert(t0[b].name@ == name@);
                    }
                }
                return len;
            }
            i = i + 1;
        }
        proof {
            lemma_lookup_absent(symbols_view(t0), name@);
        }
        self.table.push(sym);
        self.len = self.table.len();
        assert(symbols_view(self.table@) =~= symbols_view(t0).push(sv));
        assert(symbols_view(t0).push(sv).drop_last() =~= symbols_view(t0));
        len
    }

    /// The symbol of `name`, if any.
    pub fn get_global(&self, name: &String) -> (res: Option<&Symbol>)
        requires
            self.wf(),
        ensures
            match lookup(self@.table, name@) {
                Some(s) => res matches Some(r) && r@ == s,
                None => res is None,
            },
    {
        let mut i = self.table.len();
        assert(symbols_view(self.table@).subrange(0, i as int) =~= symbols_view(self.table@));
        while i > 0
            invariant
                i <= self.table@.len(),
                lookup(self@.table, name@) == lookup(symbols_view(self.table@).subrange(0, i as int), name@),
            decreases i,
        {
            let ghost s = symbols_view(self.table@).subrange(0, i as int);
            if self.table[i - 1].name == *name {
                return Some(&self.table[i - 1]);
            }
            assert(s.drop_last() =~= symbols_view(self.table@).subrange(0, i - 1));
            i = i - 1;
        }
        None
    }
}

/// With distinct names, replacing the symbol of a name changes only what
/// that name finds.
proof fn lemma_lookup_replace(t: Seq<SymbolV>, i: int, s: SymbolV)
    requires
        0 <= i < t.len(),
        t[i].name == s.name,
        forall|a: int, b: int| 0 <= a < b < t.len() ==> t[a].name != t[b].name,
    ensures
        lookup(t.update(i, s), s.name) == Some(s),
        forall|n: Seq<char>| n != s.name ==> lookup(t.update(i, s), n) == lookup(t, n),
    decreases t.len(),
{
    let u = t.update(i, s);
    if i == t.len() - 1 {
        assert(u.drop_last() =~= t.drop_last());
        assert(u.last() == s);
        assert(t.last().name == s.name);
        assert forall|n: Seq<char>| n != s.name implies lookup(u, n) == lookup(t, n) by {
            assert(lookup(u, n) == lookup(u.drop_last(), n));
            assert(lookup(t, n) == lookup(t.drop_last(), n));
        }
    } else {
        assert(u.drop_last() =~= t.drop_last().update(i, s));
        lemma_lookup_replace(t.drop_last(), i, s);
        assert(t.last().name != s.name);
        assert(u.last() == t.last());
        assert forall|n: Seq<char>| n != s.name implies lookup(u, n) == lookup(t, n) by {
            if t.last().name != n {
                assert(lookup(u, n) == lookup(u.drop_last(), n));
                assert(lookup(t, n) == lookup(t.drop_last(), n));
            }
        }
    }
}

/// A name that some symbol holds finds a symbol.
proof fn lemma_lookup_present(t: Seq<SymbolV>, i: int)
    requires
        0 <= i < t.len(),
    ensures
        lookup(t, t[i].name) is Some,
    decreases t.len(),
{
    if i < t.len() - 1 && t.last().name != t[i].name {
        lemma_lookup_present(t.drop_last(), i);
    }
}

/// A name that no symbol holds finds nothing.
proof fn lemma_lookup_absent(t: Seq<SymbolV>, n: Seq<char>)
    requires
        forall|j: int| 0 <= j < t.len() ==> t[j].name != n,
    ensures
        lookup(t, n) is None,
    decreases t.len(),
{
    if t.len() > 0 {
        lemma_lookup_absent(t.drop_last(), n);
    }
}

} // verus!
