use vstd::prelude::*;

use super::Object;
use crate::immix::ptr::{PairPtr, TypedPtr};
use std::marker::PhantomData;

verus! {

/// Bindings of one scope, and the scope it was captured from.
#[derive(Debug, PartialEq)]
pub struct Environment<T> {
    binding: Vec<(T, TypedPtr<Object>)>,
    outer: Option<Box<Environment<T>>>,
    // 0 for global, the bigger is the outter
    level: usize,
}

/// An environment as a value: the bindings of its scope in the order they
/// were made, the environment it was captured from, and its level.
pub struct EnvV {
    pub binding: Seq<(Seq<char>, PairPtr)>,
    pub outer: Option<Box<EnvV>>,
    pub level: usize,
}

/// The binding of `key` in one scope: the last one made.
pub open spec fn find(b: Seq<(Seq<char>, PairPtr)>, key: Seq<char>) -> Option<PairPtr>
    decreases b.len(),
{
    if b.len() == 0 {
        None
    } else if b.last().0 == key {
        Some(b.last().1)
    } else {
        find(b.drop_last(), key)
    }
}

/// The binding of `key` seen from `e`: its own scope first, then the
/// environments it was captured from.
pub open spec fn env_get(e: EnvV, key: Seq<char>) -> Option<PairPtr>
    decreases e,
{
    match find(e.binding, key) {
        Some(p) => Some(p),
        None => match e.outer {
            Some(o) => env_get(*o, key),
            None => None,
        },
    }
}

pub open spec fn bindings_view(b: Seq<(String, TypedPtr<Object>)>) -> Seq<(Seq<char>, PairPtr)> {
    Seq::new(b.len(), |i: int| (b[i].0@, b[i].1.ptr))
}

pub closed spec fn env_view(e: Environment<String>) -> EnvV
    decreases e,
{
    EnvV {
        binding: bindings_view(e.binding@),
        outer: match e.outer {
            Some(o) => Some(Box::new(env_view(*o))),
            None => None,
        },
        level: e.level,
    }
}

impl View for Environment<String> {
    type V = EnvV;

    closed spec fn view(&self) -> EnvV {
        env_view(*self)
    }
}

fn typed(ptr: PairPtr) -> (res: TypedPtr<Object>)
    ensures
        res.ptr == ptr,
{
    TypedPtr { ptr, tag: PhantomData }
}

impl Environment<String> {
    /// A copy of the environment and of those it was captured from.
    pub fn copy(&self) -> (res: Self)
        ensures
            res@ == self@,
        decreases self,
    {
        let mut binding: Vec<(String, TypedPtr<Object>)> = Vec::new();
        let mut i: usize = 0;
        while i < self.binding.len()
            invariant
                i <= self.binding@.len(),
                bindings_view(binding@) == bindings_view(self.binding@).subrange(0, i as int),
            decreases self.binding@.len() - i,
        {
            let (k, v) = &self.binding[i];
            let ghost before = binding@;
            binding.push((k.clone(), typed(v.ptr)));
            assert(bindings_view(binding@) =~= bindings_view(before).push((k@, v.ptr)));
            assert(bindings_view(self.binding@).subrange(0, i + 1) =~= bindings_view(
                self.binding@,
            ).subrange(0, i as int).push((k@, v.ptr)));
            i = i + 1;
        }
        assert(bindings_view(self.binding@).subrange(0, i as int) =~= bindings_view(self.binding@));
        let outer = match &self.outer {
            Some(o) => Some(Box::new(o.copy())),
            None => None,
        };
        Environment { binding, outer, level: self.level }
    }

    // get object clone from environment
    pub fn get_clone(&self, key: &String) -> (res: Option<TypedPtr<Object>>)
        ensures
            match env_get(self@, key@) {
                Some(p) => res matches Some(t) && t.ptr == p,
                None => res is None,
            },
        decreases self,
    {
        // first, try get object from current scope
        let mut i = self.binding.len();
        assert(bindings_view(self.binding@).subrange(0, i as int) =~= bindings_view(self.binding@));
        while i > 0
            invariant
                i <= self.binding@.len(),
                find(bindings_view(self.binding@), key@) == find(
                    bindings_view(self.binding@).subrange(0, i as int),
                    key@,
                ),
            decreases i,
        {
            let ghost s = bindings_view(self.binding@).subrange(0, i as int);
            if self.binding[i - 1].0 == *key {
                return Some(typed(self.binding[i - 1].1.ptr));
            }
            assert(s.drop_last() =~= bindings_view(self.binding@).subrange(0, i - 1));
            i = i - 1;
        }
        // if not found, try get object from outer scope
        match &self.outer {
            Some(o) => o.get_clone(key),
            None => None,
        }
    }

    // set object to environment; gives the binding it replaces
    pub fn set(&mut self, key: String, obj: TypedPtr<Object>) -> (res: Option<TypedPtr<Object>>)
        ensures
            final(self)@.outer == old(self)@.outer,
            final(self)@.level == old(self)@.level,
            forall|k: Seq<char>|
                #[trigger] find(final(self)@.binding, k) == if k == key@ {
                    Some(obj.ptr)
                } else {
                    find(old(self)@.binding, k)
                },
            match find(old(self)@.binding, key@) {
                Some(p) => res matches Some(t) && t.ptr == p,
                None => res is None,
            },
    {
        let ghost b0 = bindings_view(self.binding@);
        let mut i = self.binding.len();
        assert(b0.subrange(0, i as int) =~= b0);
        while i > 0
            invariant
                i <= self.binding@.len(),
                b0 == bindings_view(self.binding@),
                b0 == old(self)@.binding,
                self.outer == old(self).outer,
                self.level == old(self).level,
                find(b0, key@) == find(b0.subrange(0, i as int), key@),
                forall|j: int| i <= j < b0.len() ==> b0[j].0 != key@,
            decreases i,
        {
            let ghost s = b0.subrange(0, i as int);
            if self.binding[i - 1].0 == key {
                assert(s.last() == b0[i - 1]);
                assert(b0[i - 1].0 == key@);
                let old_ptr = self.binding[i - 1].1.ptr;
                self.binding.set(i - 1, (key, obj));
                proof {
                    assert forall|k: Seq<char>| #[trigger] find(b0.update(i - 1, (key@, obj.ptr)), k) == if k
                        == key@ {
                        Some(obj.ptr)
                    } else {
                        find(b0, k)
                    } by {
                        lemma_find_update(b0, (i - 1) as int, (key@, obj.ptr), k);
                    }
                }
                assert(bindings_view(self.binding@) =~= b0.update(i - 1, (key@, obj.ptr)));
                return Some(typed(old_ptr));
            }
            assert(s.drop_last() =~= b0.subrange(0, i - 1));
            i = i - 1;
        }
        let ghost kv = key@;
        self.binding.push((key, obj));
        assert(bindings_view(self.binding@) =~= b0.push((kv, obj.ptr)));
        proof {
            assert forall|k: Seq<char>| #[trigger] find(b0.push((kv, obj.ptr)), k) == if k == kv {
                Some(obj.ptr)
            } else {
                find(b0, k)
            } by {
                assert(b0.push((kv, obj.ptr)).drop_last() =~= b0);
            }
        }
        None
    }

    pub fn new() -> (res: Self)
        ensures
            res@ == (EnvV { binding: Seq::empty(), outer: None, level: 0 }),
    {
        let e = Environment { binding: Vec::new(), outer: None, level: 0 };
        assert(bindings_view(e.binding@) =~= Seq::empty());
        e
    }

    /// A new environment captured from `tgt`, one level further out.
    pub fn capture(tgt: &Environment<String>) -> (res: Self)
        requires
            tgt@.level < usize::MAX,
        ensures
            res@ == (EnvV {
                binding: Seq::empty(),
                outer: Some(Box::new(tgt@)),
                level: (tgt@.level + 1) as usize,
            }),
    {
        let level = tgt.level + 1;
        let outer = tgt.copy();
        let e = Environment { binding: Vec::new(), level, outer: Some(Box::new(outer)) };
        assert(bindings_view(e.binding@) =~= Seq::empty());
        e
    }
}

/// Replacing the last binding of a key that no later binding holds.
proof fn lemma_find_update(b: Seq<(Seq<char>, PairPtr)>, i: int, kv: (Seq<char>, PairPtr), k: Seq<char>)
    requires
        0 <= i < b.len(),
        b[i].0 == kv.0,
        forall|j: int| i < j < b.len() ==> b[j].0 != kv.0,
    ensures
        find(b.update(i, kv), k) == if k == kv.0 {
            Some(kv.1)
        } else {
            find(b, k)
        },
    decreases b.len(),
{
    let u = b.update(i, kv);
    if i == b.len() - 1 {
        assert(u.drop_last() =~= b.drop_last());
        assert(u.last() == kv);
        assert(b.last() == b[i]);
    } else {
        assert(u.drop_last() =~= b.drop_last().update(i, kv));
        assert(u.last() == b.last());
        assert(b.last().0 != kv.0);
        lemma_find_update(b.drop_last(), i, kv, k);
    }
}

/// What is read back of a binding after `set`: the value set for its key,
/// and for every other key what was read before.
pub proof fn law_get_after_set(before: EnvV, after: EnvV, key: Seq<char>, p: PairPtr)
    requires
        after.outer == before.outer,
        forall|k: Seq<char>| #[trigger]
            find(after.binding, k) == if k == key {
                Some(p)
            } else {
                find(before.binding, k)
            },
    ensures
        env_get(after, key) == Some(p),
        forall|k: Seq<char>| k != key ==> #[trigger] env_get(after, k) == env_get(before, k),
{
    assert(find(after.binding, key) == Some(p));
    assert forall|k: Seq<char>| k != key implies #[trigger] env_get(after, k) == env_get(before, k) by {
        assert(find(after.binding, k) == find(before.binding, k));
    }
}

/// An environment captured from `tgt`, before anything is set in it,
/// reads every name as `tgt` does.
pub proof fn law_capture_reads_target(tgt: EnvV, level: usize, key: Seq<char>)
    ensures
        env_get(EnvV { binding: Seq::empty(), outer: Some(Box::new(tgt)), level }, key) == env_get(tgt, key),
{
    assert(find(Seq::<(Seq<char>, PairPtr)>::empty(), key) is None);
}

} // verus!
