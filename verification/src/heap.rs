use vstd::prelude::*;

use crate::immix::blocks::{alloc_spec, apart, in_alloc, law_alloc_apart, placed, unmark_all_spec};
use crate::immix::errors::ImmixError;
use crate::immix::ptr::{block_of, RawPtr, TypedPtr, OR};
use crate::immix::{allocate_spec, value_alloc_size, Immix, ImmixV};
use crate::object::environment::{env_get, find, EnvV, Environment};
use crate::object::Object;
use std::marker::PhantomData;

verus! {

broadcast use vstd::std_specs::hash::group_hash_axioms;

pub struct Heap {
    obj_immix: Immix<usize, Object>,
    // env_immix: Immix<usize, Environment<String>>,
    count: usize,
}

/// The heap as a value: its allocator and the key of the next object.
pub struct HeapV {
    pub immix: ImmixV<usize, Object>,
    pub count: usize,
}

impl View for Heap {
    type V = HeapV;

    closed spec fn view(&self) -> HeapV {
        HeapV { immix: self.obj_immix@, count: self.count }
    }
}

/// An enlisting of `obj` under `id`: the object is allocated under the
/// count; on success the count moves on, the pointer names the block and
/// address of the allocation and `id` is bound to it in the environment,
/// other names keeping their bindings; on failure only the blocks may have
/// changed. `g` tells whether a block asked for is granted.
pub open spec fn enlisted(
    h: HeapV,
    h2: HeapV,
    e: EnvV,
    e2: EnvV,
    id: Seq<char>,
    obj: Object,
    res: Result<RawPtr<Object>, ImmixError>,
    g: bool,
) -> bool {
    match allocate_spec(h.immix, h.count, obj, g) {
        (m, Ok(p)) => res matches Ok(r) && r.spec_block() == block_of(p) && r.spec_addr() == p.data && h2 == (HeapV {
            immix: m,
            count: (h.count + 1) as usize,
        }) && e2.outer == e.outer && e2.level == e.level && forall|k: Seq<char>| #[trigger]
            find(e2.binding, k) == if k == id {
                Some(p)
            } else {
                find(e.binding, k)
            },
        (m, Err(er)) => res == Err::<RawPtr<Object>, ImmixError>(er) && h2 == (HeapV { immix: m, ..h })
            && e2 == e,
    }
}

impl Heap {
    /// The allocator is well formed and every key it holds was numbered
    /// before the count.
    pub closed spec fn wf(&self) -> bool {
        &&& self.obj_immix.wf()
        &&& forall|k: usize| #[trigger] self.obj_immix@.entities.contains_key(k) ==> k < self.count
    }

    pub fn new() -> (res: Self)
        ensures
            res.wf(),
            res@.count == 0,
            res@.immix.entities == Map::<usize, crate::immix::ptr::PairPtr>::empty(),
    {
        Self { count: 0, obj_immix: Immix::new() }
    }

    /// allocate object into heap, and bind it to `id` in `env`
    pub fn enlist(&mut self, env: &mut Environment<String>, id: String, obj: Object) -> (res: Result<
        RawPtr<Object>,
        ImmixError,
    >)
        requires
            old(self).wf(),
            old(self)@.count < usize::MAX,
        ensures
            final(self).wf(),
            enlisted(old(self)@, final(self)@, old(env)@, final(env)@, id@, obj, res, true) || enlisted(
                old(self)@,
                final(self)@,
                old(env)@,
                final(env)@,
                id@,
                obj,
                res,
                false,
            ),
    {
        let ghost h0 = self@;
        let ghost e0 = env@;
        assert(!h0.immix.entities.contains_key(h0.count));
        let ptr = match self.obj_immix.allocate(self.count, obj) {
            Ok(p) => p,
            Err(e) => {
                assert(forall|k: usize| #[trigger] self.obj_immix@.entities.contains_key(k) ==> k < self.count);
                return Err(e);
            },
        };
        self.count = self.count + 1;
        assert forall|k: usize| #[trigger] self.obj_immix@.entities.contains_key(k) implies k < self.count by {
            if k != h0.count {
                assert(h0.immix.entities.contains_key(k));
            }
        }
        let typed: TypedPtr<Object> = TypedPtr { ptr, tag: PhantomData };
        let _ = env.set(id, typed.clone());
        let block = match typed.ptr.meta {
            OR::L(mp) => mp.block,
            OR::R(key) => key,
        };
        Ok(RawPtr::new(block, typed.ptr.data))
    }

    /// The object bound to `key` in `env`.
    pub fn get(env: &mut Environment<String>, key: String) -> (res: Option<TypedPtr<Object>>)
        ensures
            final(env)@ == old(env)@,
            match env_get(old(env)@, key@) {
                Some(p) => res matches Some(t) && t.ptr == p,
                None => res is None,
            },
    {
        env.get_clone(&key)
    }

    /// mark and sweep: every allocation is unmarked first
    pub fn run_gc(&mut self)
        requires
            old(self).wf(),
        ensures
            final(self).wf(),
            final(self)@ == (HeapV {
                immix: ImmixV { memory: unmark_all_spec(old(self)@.immix.memory), ..old(self)@.immix },
                ..old(self)@
            }),
    {
        self.obj_immix.unmark_all();
        // mark all reachables
        // manage memory
    }
}

/// An object enlisted in a heap whose blocks are apart gets a pointer that
/// differs from the pointer of every allocation made before in it (each of
/// some bytes), and joins them: the blocks stay apart and all those
/// allocations, the new one with them, still lie in the blocks. So, from a
/// new heap, every pointer that `enlist` gives differs from all it gave
/// before.
pub proof fn law_enlist_distinct_from_earlier(
    h: HeapV,
    h1: HeapV,
    e: EnvV,
    e1: EnvV,
    id: Seq<char>,
    obj: Object,
    r: Result<RawPtr<Object>, ImmixError>,
    g: bool,
    earlier: Seq<(crate::immix::ptr::PairPtr, usize)>,
)
    requires
        apart(h.immix.memory),
        placed(h.immix.memory, earlier),
        forall|i: int| 0 <= i < earlier.len() ==> #[trigger] earlier[i].1 > 0,
        enlisted(h, h1, e, e1, id, obj, r, g),
        r is Ok,
    ensures
        forall|i: int|
            0 <= i < earlier.len() ==> block_of(#[trigger] earlier[i].0) != r->Ok_0.spec_block() || earlier[i].0.data
                != r->Ok_0.spec_addr(),
        apart(h1.immix.memory),
        ({
            let p = alloc_spec(h.immix.memory, value_alloc_size::<Object>(), g).1->Ok_0;
            &&& block_of(p) == r->Ok_0.spec_block() && p.data == r->Ok_0.spec_addr()
            &&& placed(h1.immix.memory, earlier.push((p, value_alloc_size::<Object>())))
        }),
        value_alloc_size::<Object>() > 0,
{
    let size = value_alloc_size::<Object>();
    let l = h.immix.memory;
    let (l1, a) = alloc_spec(l, size, g);
    let p = a->Ok_0;
    law_alloc_apart(l, earlier, size, g);
    assert forall|i: int| 0 <= i < earlier.len() implies block_of(#[trigger] earlier[i].0) != block_of(p)
        || earlier[i].0.data != p.data by {
        if block_of(earlier[i].0) == block_of(p) && earlier[i].0.data == p.data {
            assert(in_alloc((earlier[i].0.data, earlier[i].1), p.data as int));
        }
    }
}

} // verus!
