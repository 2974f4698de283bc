pub mod blocks;
pub mod errors;
pub mod mark;
pub mod ptr;
pub mod size;

use vstd::prelude::*;

use self::blocks::{alloc_spec, is_unmarked_spec, sweep_spec, unmark_all_spec, BlockList, ListV};
use self::errors::ImmixError;
use self::ptr::PairPtr;
use crate::utils::word_bytes;
use std::collections::HashMap;
use std::hash::Hash;
use vstd::std_specs::hash::{obeys_key_model, spec_hash_map_iter};
use vstd::std_specs::iter::IteratorSpec;

verus! {

broadcast use vstd::std_specs::hash::group_hash_axioms;

/// Rounds `object_size` up to the next multiple of the machine word.
pub fn alloc_size_of(object_size: usize) -> (res: usize)
    requires
        object_size + word_bytes() - 1 <= usize::MAX,
    ensures
        (res as nat) % word_bytes() == 0,
        object_size <= res < object_size + word_bytes(),
{
    let align: usize = (usize::BITS / 8) as usize;
    assert(usize::BITS == 32 || usize::BITS == 64);
    let r = (object_size + (align - 1)) & !(align - 1);
    if usize::BITS == 64 {
        assert(align == 8);
        let ghost x: usize = (object_size + 7) as usize;
        assert((x & !7usize) % 8 == 0 && x - 7 <= (x & !7usize) && (x & !7usize) <= x) by (bit_vector)
            requires x >= 7usize;
    } else {
        assert(align == 4);
        let ghost x: usize = (object_size + 3) as usize;
        assert((x & !3usize) % 4 == 0 && x - 3 <= (x & !3usize) && (x & !3usize) <= x) by (bit_vector)
            requires x >= 3usize;
    }
    r
}


/// The bytes an allocation of a `V` takes: its size, or its alignment for
/// a type of size zero.
pub open spec fn value_alloc_size<V>() -> usize {
    if vstd::layout::size_of::<V>() >= vstd::layout::align_of::<V>() {
        vstd::layout::size_of::<V>() as usize
    } else {
        vstd::layout::align_of::<V>() as usize
    }
}

/// A power of two below twice `b`, itself a power of two, is at most `b`.
proof fn lemma_pow2_below_double(n: int, b: int)
    requires
        vstd::arithmetic::power2::is_pow2(n),
        vstd::arithmetic::power2::is_pow2(b),
        n < 2 * b,
    ensures
        n <= b,
    decreases n,
{
    reveal_with_fuel(vstd::arithmetic::power2::is_pow2, 2);
    if n > 1 && b > 1 {
        lemma_pow2_below_double(n / 2, b / 2);
    }
}

/// The allocation size of a `V` fits the block list.
fn value_size<V>() -> (res: usize)
    ensures
        res == value_alloc_size::<V>(),
        res <= usize::MAX / 2 + 1,
{
    vstd::layout::layout_for_type_is_valid::<V>();
    let size = core::mem::size_of::<V>();
    let align = core::mem::align_of::<V>();
    if size >= align {
        size
    } else {
        proof {
            let b: int = usize::MAX / 2 + 1;
            assert(usize::MAX == 0xffff_ffff || usize::MAX == 0xffff_ffff_ffff_ffff);
            reveal_with_fuel(vstd::arithmetic::power2::is_pow2, 64);
            if usize::MAX == 0xffff_ffff {
                assert(vstd::arithmetic::power2::is_pow2(0x8000_0000));
            } else {
                assert(vstd::arithmetic::power2::is_pow2(0x8000_0000_0000_0000));
            }
            lemma_pow2_below_double(align as int, b);
        }
        align
    }
}

/// Allocation of a fresh `key` for `val`: room of the value's size in the
/// blocks, then the value written under the key; `g` tells whether a block
/// asked for is granted.
pub open spec fn allocate_spec<K, V>(m: ImmixV<K, V>, key: K, val: V, g: bool) -> (ImmixV<K, V>, Result<PairPtr, ImmixError>) {
    match alloc_spec(m.memory, value_alloc_size::<V>(), g) {
        (l, Ok(p)) => (ImmixV { memory: l, entities: m.entities.insert(key, p), values: m.values.insert(key, val) }, Ok(p)),
        (l, Err(e)) => (ImmixV { memory: l, ..m }, Err(ImmixError::InternalError(e))),
    }
}

/// The allocator as a value: its blocks, the allocation of each key and
/// the value written there.
#[verifier::reject_recursive_types(K)]
pub struct ImmixV<K, V> {
    pub memory: ListV,
    pub entities: Map<K, PairPtr>,
    pub values: Map<K, V>,
}

pub struct Immix<K, V> where K: Hash + Eq {
    memory: BlockList,
    entities: HashMap<K, PairPtr>,
    /// the value written at each allocation
    values: HashMap<K, V>,
}

impl<K: Hash + Eq, V> View for Immix<K, V> {
    type V = ImmixV<K, V>;

    closed spec fn view(&self) -> ImmixV<K, V> {
        ImmixV { memory: self.memory@, entities: self.entities@, values: self.values@ }
    }
}

impl<K, V> Immix<K, V> where K: Hash + Eq + Copy {
    pub closed spec fn wf(&self) -> bool {
        &&& self.memory.wf()
        &&& self.entities@.dom() == self.values@.dom()
    }

    pub fn new() -> (res: Self)
        ensures
            res.wf(),
            res@ == (ImmixV {
                memory: ListV { head: Seq::empty(), rest: Map::empty(), large: Map::empty(), count: 0 },
                entities: Map::<K, PairPtr>::empty(),
                values: Map::<K, V>::empty(),
            }),
    {
        let res = Self { memory: BlockList::new(), entities: HashMap::new(), values: HashMap::new() };
        assert(res.entities@.dom() =~= res.values@.dom());
        res
    }

    /// Allocate room for `val` under `key` and write it there; a key that
    /// is already allocated is refused.
    pub fn allocate(&mut self, key: K, val: V) -> (res: Result<PairPtr, ImmixError>)
        requires
            old(self).wf(),
            obeys_key_model::<K>(),
        ensures
            final(self).wf(),
            old(self)@.entities.contains_key(key) ==> res == Err::<PairPtr, ImmixError>(
                ImmixError::DuplicatedKey,
            ) && final(self)@ == old(self)@,
            !old(self)@.entities.contains_key(key) ==> (final(self)@, res) == allocate_spec(
                old(self)@,
                key,
                val,
                true,
            ) || (final(self)@, res) == allocate_spec(old(self)@, key, val, false),
    {
        if !self.entities.contains_key(&key) {
            let size = value_size::<V>();
            let ptr = match self.memory.allocate(size) {
                Ok(ptr) => ptr,
                Err(e) => return Err(ImmixError::InternalError(e)),
            };
            // write the value at its allocation
            self.values.insert(key, val);
            self.entities.insert(key, ptr);
            assert(self.entities@.dom() =~= self.values@.dom());
            Ok(ptr)
        } else {
            Err(ImmixError::DuplicatedKey)
        }
    }

    pub fn unmark_all(&mut self)
        requires
            old(self).wf(),
        ensures
            final(self).wf(),
            final(self)@ == (ImmixV { memory: unmark_all_spec(old(self)@.memory), ..old(self)@ }),
    {
        self.memory.unmark_all();
    }

    /// Drop the values whose allocations are unmarked, then give back the
    /// unmarked large blocks and reuse the fresh bump blocks.
    pub fn sweep(&mut self)
        requires
            old(self).wf(),
            obeys_key_model::<K>(),
        ensures
            final(self).wf(),
            final(self)@.entities == Map::new(
                |k: K| old(self)@.entities.contains_key(k) && !is_unmarked_spec(old(self)@.memory, old(self)@.entities[k]),
                |k: K| old(self)@.entities[k],
            ),
            final(self)@.values == Map::new(
                |k: K| old(self)@.entities.contains_key(k) && !is_unmarked_spec(old(self)@.memory, old(self)@.entities[k]),
                |k: K| old(self)@.values[k],
            ),
            final(self)@.memory == sweep_spec(old(self)@.memory),
    {
        let ghost e0 = self.entities@;
        let ghost v0 = self.values@;
        let ghost m0 = self.memory@;
        let mut clean_lists: Vec<K> = Vec::new();
        let ghost v = spec_hash_map_iter(&self.entities).remaining();
        for (key, pair_ptr) in it: self.entities.iter()
            invariant
                e0 == self.entities@,
                self.memory.wf(),
                m0 == self.memory@,
                obeys_key_model::<K>(),
                forall|j: int| 0 <= j < clean_lists@.len() ==> e0.contains_key(#[trigger] clean_lists@[j])
                    && is_unmarked_spec(m0, e0[clean_lists@[j]]),
                v == spec_hash_map_iter(&self.entities).remaining(),
                it.seq() == v,
                forall|i: int| 0 <= i < it.index() ==> (is_unmarked_spec(m0, *(#[trigger] v[i]).1)
                    ==> clean_lists@.contains(*v[i].0)),
        {
            assert((key, pair_ptr) == v[it.index() as int]);
            let ghost before = clean_lists@;
            if pair_ptr.is_unmarked(&self.memory) {
                clean_lists.push(*key);
                assert(clean_lists@[before.len() as int] == *key);
            }
            assert forall|i: int| 0 <= i <= it.index() && is_unmarked_spec(m0, *(#[trigger] v[i]).1)
                implies clean_lists@.contains(*v[i].0) by {
                if i < it.index() {
                    assert(before.contains(*v[i].0));
                    let w = choose|w: int| 0 <= w < before.len() && before[w] == *v[i].0;
                    assert(clean_lists@[w] == before[w]);
                }
            }
            assert forall|j: int| 0 <= j < clean_lists@.len() implies e0.contains_key(#[trigger] clean_lists@[j])
                && is_unmarked_spec(m0, e0[clean_lists@[j]]) by {
                if j < before.len() {
                    assert(clean_lists@[j] == before[j]);
                }
            }
        }
        assert(forall|i: int| 0 <= i < v.len() ==> (is_unmarked_spec(m0, *(#[trigger] v[i]).1)
            ==> clean_lists@.contains(*v[i].0)));
        assert forall|k: K| e0.contains_key(k) && is_unmarked_spec(m0, e0[k]) implies clean_lists@.contains(k) by {
            assert(v.contains((&k, &e0[k])));
            let i = choose|i: int| 0 <= i < v.len() && v[i] == (&k, &e0[k]);
            assert(*v[i].0 == k);
        }
        let ghost cl = clean_lists@;
        let mut j: usize = 0;
        assert(e0 =~= Map::new(|k: K| e0.contains_key(k) && !cl.subrange(0, 0).contains(k), |k: K| e0[k]));
        assert(v0 =~= Map::new(|k: K| e0.contains_key(k) && !cl.subrange(0, 0).contains(k), |k: K| v0[k]));
        while j < clean_lists.len()
            invariant
                j <= cl.len(),
                cl == clean_lists@,
                obeys_key_model::<K>(),
                self.memory.wf(),
                m0 == self.memory@,
                e0.dom() == v0.dom(),
                self.entities@ == Map::new(|k: K| e0.contains_key(k) && !cl.subrange(0, j as int).contains(k), |k: K| e0[k]),
                self.values@ == Map::new(|k: K| e0.contains_key(k) && !cl.subrange(0, j as int).contains(k), |k: K| v0[k]),
            decreases cl.len() - j,
        {
            let tgt = clean_lists[j];
            let ghost ep = self.entities@;
            let ghost vp = self.values@;
            // the value at an unreachable allocation is dropped
            let _ = self.entities.remove(&tgt);
            let _ = self.values.remove(&tgt);
            assert(cl.subrange(0, j + 1) =~= cl.subrange(0, j as int).push(tgt));
            assert forall|k: K| cl.subrange(0, j + 1).contains(k) <==> (cl.subrange(0, j as int).contains(k)
                || k == tgt) by {
                if cl.subrange(0, j as int).contains(k) {
                    let w = choose|w: int| 0 <= w < j && #[trigger] cl.subrange(0, j as int)[w] == k;
                    assert(cl.subrange(0, j + 1)[w] == k);
                }
                if k == tgt {
                    assert(cl.subrange(0, j + 1)[j as int] == k);
                }
                if cl.subrange(0, j + 1).contains(k) {
                    let w = choose|w: int| 0 <= w < j + 1 && #[trigger] cl.subrange(0, j + 1)[w] == k;
                    if w < j {
                        assert(cl.subrange(0, j as int)[w] == k);
                    }
                }
            }
            assert(self.entities@ =~= Map::new(|k: K| e0.contains_key(k) && !cl.subrange(0, j + 1).contains(k), |k: K| e0[k]));
            assert(self.values@ =~= Map::new(|k: K| e0.contains_key(k) && !cl.subrange(0, j + 1).contains(k), |k: K| v0[k]));
            j = j + 1;
        }
        assert(cl.subrange(0, cl.len() as int) =~= cl);
        assert(self.entities@ =~= Map::new(
            |k: K| e0.contains_key(k) && !is_unmarked_spec(m0, e0[k]),
            |k: K| e0[k],
        ));
        assert(self.values@ =~= Map::new(
            |k: K| e0.contains_key(k) && !is_unmarked_spec(m0, e0[k]),
            |k: K| v0[k],
        ));
        self.memory.sweep();
    }
}

} // verus!
