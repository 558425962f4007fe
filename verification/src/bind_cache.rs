//! Reuse of bind groups across dispatches: a key computed from the buffer
//! ranges a bind group binds and the pipeline label, and a bounded cache that
//! starts over when full.

use vstd::prelude::*;
use std::collections::HashMap;
use std::collections::hash_map::DefaultHasher;
use std::hash::Hasher;
use vstd::std_specs::hash::DefaultHasherAdditionalSpecFns;
use vstd::string::StringSliceAdditionalSpecFns;

verus! {

broadcast use vstd::std_specs::hash::group_hash_axioms;

/// Entries a bind-group cache holds before it is emptied.
pub const MAX_BIND_GROUP_CACHE: usize = 1024;

/// What a bind-group entry contributes to its key.
#[derive(Debug, Clone, Copy, PartialEq, Eq, Structural)]
pub enum BindingPart {
    /// A buffer range: its byte offset and, when bounded, its byte size.
    Buffer { offset: u64, size: Option<u64> },
    /// Any other resource, which does not enter the key.
    Other,
}

/// Folds `x` into the running key `h`.
pub open spec fn mix(h: u64, x: u64) -> u64 {
    h.wrapping_mul(31).wrapping_add(x)
}

/// Key of the entries of a bind group: each buffer's offset, then its size
/// when bounded, folded in order from zero.
pub open spec fn spec_parts_key(parts: Seq<BindingPart>) -> u64
    decreases parts.len(),
{
    if parts.len() == 0 {
        0
    } else {
        let h = spec_parts_key(parts.drop_last());
        match parts.last() {
            BindingPart::Buffer { offset, size } => {
                let h1 = mix(h, offset);
                match size {
                    Some(s) => mix(h1, s),
                    None => h1,
                }
            },
            BindingPart::Other => h,
        }
    }
}

/// Digest of a label: its bytes and a closing `0xff`, as `str` feeds a
/// hasher, through the default SipHash hasher.
pub open spec fn spec_label_hash(label: Seq<u8>) -> u64 {
    DefaultHasher::spec_finish(seq![label, seq![0xffu8]])
}

/// Cache key of a bind group with entries `parts` for the pipeline `label`.
pub open spec fn spec_bind_group_key(parts: Seq<BindingPart>, label: Seq<u8>) -> u64 {
    mix(spec_parts_key(parts), spec_label_hash(label))
}

/// Digest of `label` with the default hasher.
pub fn label_hash(label: &str) -> (r: u64)
    ensures
        r == spec_label_hash(label.spec_bytes()),
{
    let mut h = DefaultHasher::new();
    h.write(label.as_bytes());
    let end: [u8; 1] = [0xff];
    h.write(&end);
    proof {
        assert(end@ =~= seq![0xffu8]);
        assert(h@ =~= seq![label.spec_bytes(), seq![0xffu8]]);
    }
    h.finish()
}

/// Cache key of a bind group with entries `parts` for the pipeline `label`.
pub fn bind_group_key(parts: &[BindingPart], label: &str) -> (r: u64)
    ensures
        r == spec_bind_group_key(parts@, label.spec_bytes()),
{
    let mut h: u64 = 0;
    let mut i: usize = 0;
    proof {
        assert(parts@.take(0) =~= Seq::<BindingPart>::empty());
    }
    while i < parts.len()
        invariant
            i <= parts@.len(),
            h == spec_parts_key(parts@.take(i as int)),
        decreases parts@.len() - i,
    {
        proof {
            assert(parts@.take(i + 1).drop_last() =~= parts@.take(i as int));
            assert(parts@.take(i + 1).last() == parts@[i as int]);
        }
        match parts[i] {
            BindingPart::Buffer { offset, size } => {
                h = h.wrapping_mul(31).wrapping_add(offset);
                match size {
                    Some(s) => {
                        h = h.wrapping_mul(31).wrapping_add(s);
                    },
                    None => {},
                }
            },
            BindingPart::Other => {},
        }
        i = i + 1;
    }
    proof {
        assert(parts@.take(parts@.len() as int) =~= parts@);
    }
    let lh = label_hash(label);
    h.wrapping_mul(31).wrapping_add(lh)
}

/// Bind groups by key; emptied when it reaches its capacity and a new one
/// is added.
pub struct BindGroupCache<V> {
    map: HashMap<u64, V>,
}

impl<V> BindGroupCache<V> {
    /// The cached bind groups by key.
    pub closed spec fn view(&self) -> Map<u64, V> {
        self.map@
    }

    /// An empty cache.
    pub fn new() -> (r: Self)
        ensures
            r.view() == Map::<u64, V>::empty(),
    {
        BindGroupCache { map: HashMap::new() }
    }

    /// Number of cached bind groups.
    pub fn len(&self) -> (r: usize)
        ensures
            r == self.view().len(),
    {
        self.map.len()
    }

    /// The bind group cached under `key`, if any.
    pub fn get(&self, key: u64) -> (r: Option<&V>)
        ensures
            match r {
                Some(v) => self.view().contains_key(key) && *v == self.view()[key],
                None => !self.view().contains_key(key),
            },
    {
        self.map.get(&key)
    }

    /// Caches `value` under `key`, first emptying the cache when it already
    /// holds `MAX_BIND_GROUP_CACHE` entries.
    pub fn insert(&mut self, key: u64, value: V)
        ensures
            old(self).view().len() >= MAX_BIND_GROUP_CACHE ==> final(self).view() == Map::<
                u64,
                V,
            >::empty().insert(key, value),
            old(self).view().len() < MAX_BIND_GROUP_CACHE ==> final(self).view() == old(
                self,
            ).view().insert(key, value),
            old(self).view().len() <= MAX_BIND_GROUP_CACHE ==> final(self).view().len()
                <= MAX_BIND_GROUP_CACHE,
    {
        let ghost before = self.map@;
        if self.map.len() >= MAX_BIND_GROUP_CACHE {
            self.map.clear();
        }
        self.map.insert(key, value);
        proof {
            if before.len() <= MAX_BIND_GROUP_CACHE {
                lemma_cache_stays_bounded(before, self.map@, key, value);
            }
        }
    }
}

/// An insertion into a cache within its bound keeps it within the bound.
proof fn lemma_cache_stays_bounded<V>(before: Map<u64, V>, after: Map<u64, V>, key: u64, value: V)
    requires
        before.dom().finite(),
        before.len() <= MAX_BIND_GROUP_CACHE,
        before.len() >= MAX_BIND_GROUP_CACHE ==> after == Map::<u64, V>::empty().insert(key, value),
        before.len() < MAX_BIND_GROUP_CACHE ==> after == before.insert(key, value),
    ensures
        after.len() <= MAX_BIND_GROUP_CACHE,
        after.contains_key(key) && after[key] == value,
{
    if before.len() < MAX_BIND_GROUP_CACHE {
        if before.contains_key(key) {
            assert(before.insert(key, value).dom() =~= before.dom());
        } else {
            assert(before.insert(key, value).dom() =~= before.dom().insert(key));
        }
    } else {
        assert(Map::<u64, V>::empty().insert(key, value).dom() =~= set![key]);
    }
}

} // verus!
