//! The immutable name-to-bytes registry embedded in the runtime binary.
//!
//! Built once at the end of a build from the final container artifacts, read
//! many times at module instantiation, never mutated.  A lookup miss means
//! "no precompiled bytecode for this name"; what to do then is the runtime's
//! policy, not this registry's.

use vstd::prelude::*;
use crate::collector::BuildError;

verus! {

/// One registry entry: a module name and its container bytes.
#[derive(Debug)]
pub struct RegistryEntry {
    pub name: Vec<u8>,
    pub bytes: Vec<u8>,
}

/// The read-only mapping from module name to container bytes.
#[derive(Debug)]
pub struct Registry {
    pub entries: Vec<RegistryEntry>,
}

impl Registry {
    /// Entry names are pairwise distinct, so each name maps to one value.
    pub open spec fn wf(self) -> bool {
        forall|i: int, j: int| 0 <= i < j < self.entries@.len()
            ==> (#[trigger] self.entries@[i].name@) != (#[trigger] self.entries@[j].name@)
    }

    /// The (name, bytes) pairs the registry holds.
    pub open spec fn spec_pairs(self) -> Seq<(Seq<u8>, Seq<u8>)> {
        self.entries@.map_values(|e: RegistryEntry| (e.name@, e.bytes@))
    }

    /// Some entry carries this name.
    pub open spec fn spec_contains(self, name: Seq<u8>) -> bool {
        exists|i: int| 0 <= i < self.entries@.len()
            && (#[trigger] self.entries@[i].name@) == name
    }

    /// The bytes stored under a contained name.
    pub open spec fn spec_get(self, name: Seq<u8>) -> Seq<u8>
        recommends
            self.spec_contains(name),
    {
        self.entries@[choose|i: int| 0 <= i < self.entries@.len()
            && (#[trigger] self.entries@[i].name@) == name].bytes@
    }

    /// Build the registry from the final artifacts.  Succeeds exactly when
    /// no two entries share a name (the collector's invariant, enforced once
    /// more at the boundary that publishes the mapping) and then holds
    /// exactly the given pairs; a collision names the duplicated module.
    pub fn build(entries: Vec<RegistryEntry>) -> (r: Result<Registry, BuildError>)
        ensures
            r is Ok <==> (forall|i: int, j: int| 0 <= i < j < entries@.len()
                ==> (#[trigger] entries@[i].name@) != (#[trigger] entries@[j].name@)),
            r matches Ok(reg) ==> reg.wf() && reg.spec_pairs()
                == entries@.map_values(|e: RegistryEntry| (e.name@, e.bytes@)),
            r matches Err(e) ==> e matches BuildError::DuplicateName { name }
                && exists|i: int, j: int| 0 <= i < j < entries@.len()
                    && entries@[i].name@ == name@ && entries@[j].name@ == name@,
    {
        let n = entries.len();
        let mut i: usize = 0;
        while i < n
            invariant
                n == entries@.len(),
                i <= n,
                forall|a: int, b: int| 0 <= a < i && a < b < n
                    ==> (#[trigger] entries@[a].name@) != (#[trigger] entries@[b].name@),
            decreases n - i,
        {
            let mut j: usize = i + 1;
            while j < n
                invariant
                    n == entries@.len(),
                    i < n,
                    i < j <= n,
                    forall|b: int| i < b < j
                        ==> (#[trigger] entries@[b].name@) != entries@[i as int].name@,
                decreases n - j,
            {
                if crate::collector::bytes_equal(
                    entries[i].name.as_slice(),
                    entries[j].name.as_slice(),
                ) {
                    return Err(BuildError::DuplicateName { name: entries[i].name.clone() });
                }
                j = j + 1;
            }
            i = i + 1;
        }
        Ok(Registry { entries })
    }

    /// Number of modules in the mapping.
    pub fn len(&self) -> (n: usize)
        ensures
            n == self.spec_pairs().len(),
    {
        self.entries.len()
    }

    /// Look a module name up: the stored bytes for a contained name, `None`
    /// for a miss.
    pub fn lookup(&self, name: &[u8]) -> (r: Option<&Vec<u8>>)
        requires
            self.wf(),
        ensures
            r matches Some(b) ==> self.spec_contains(name@) && b@ == self.spec_get(name@),
            r is None ==> !self.spec_contains(name@),
    {
        let n = self.entries.len();
        let mut i: usize = 0;
        while i < n
            invariant
                self.wf(),
                n == self.entries@.len(),
                i <= n,
                forall|k: int| 0 <= k < i ==> (#[trigger] self.entries@[k].name@) != name@,
            decreases n - i,
        {
            if crate::collector::bytes_equal(self.entries[i].name.as_slice(), name) {
                proof {
                    let w = choose|w: int| 0 <= w < self.entries@.len()
                        && (#[trigger] self.entries@[w].name@) == name@;
                    assert(self.entries@[i as int].name@ == name@);
                    if w != i {
                        if w < i {
                            assert(self.entries@[w].name@ != self.entries@[i as int].name@);
                        } else {
                            assert(self.entries@[i as int].name@ != self.entries@[w].name@);
                        }
                    }
                }
                return Some(&self.entries[i].bytes);
            }
            i = i + 1;
        }
        None
    }
}

} // verus!
