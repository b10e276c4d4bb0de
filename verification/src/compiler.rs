//! Bookkeeping around the ahead-of-time compile step.
//!
//! The engine that turns module source into bytecode is an opaque
//! collaborator: one long-lived instance compiles every module of a build
//! run in turn, declaring each under its exact derived name (that name binds
//! the bytecode back to the module at load time).  This module consolidates
//! the per-module outcomes: either every module compiled and the blobs are
//! published together, or the first failure aborts the build with the
//! failing module's name and the engine's message, and nothing is published.

use vstd::prelude::*;
use crate::collector::{BuildError, ModuleEntry};

verus! {

/// Total byte length of a list of blobs.
pub open spec fn spec_total_len(blobs: Seq<Seq<u8>>) -> int
    decreases blobs.len(),
{
    if blobs.len() == 0 {
        0
    } else {
        spec_total_len(blobs.drop_last()) + blobs.last().len()
    }
}

/// A prefix never exceeds the whole: blob lengths are non-negative.
pub proof fn lemma_total_len_prefix(blobs: Seq<Seq<u8>>, i: int)
    requires
        0 <= i <= blobs.len(),
    ensures
        spec_total_len(blobs.subrange(0, i)) <= spec_total_len(blobs),
        spec_total_len(blobs.subrange(0, i)) >= 0,
    decreases blobs.len() - i,
{
    if i == blobs.len() {
        assert(blobs.subrange(0, i) =~= blobs);
        lemma_total_len_nonneg(blobs);
    } else {
        lemma_total_len_prefix(blobs, i + 1);
        let pre = blobs.subrange(0, i);
        let post = blobs.subrange(0, i + 1);
        assert(post.drop_last() =~= pre);
        lemma_total_len_nonneg(pre);
    }
}

/// Total length is never negative.
pub proof fn lemma_total_len_nonneg(blobs: Seq<Seq<u8>>)
    ensures
        spec_total_len(blobs) >= 0,
    decreases blobs.len(),
{
    if blobs.len() > 0 {
        lemma_total_len_nonneg(blobs.drop_last());
    }
}

/// Consolidate the engine's per-module outcomes, paired with the entries
/// they belong to.  All-or-nothing: every blob on full success, otherwise
/// the first failure with its module's name and the engine's message, and no
/// partial output.
pub fn consolidate_compiled(entries: &Vec<ModuleEntry>, results: &Vec<Result<Vec<u8>, Vec<u8>>>)
    -> (r: Result<Vec<Vec<u8>>, BuildError>)
    requires
        entries@.len() == results@.len(),
    ensures
        r is Ok <==> (forall|i: int| 0 <= i < results@.len() ==> (#[trigger] results@[i]) is Ok),
        r matches Ok(blobs) ==> {
            &&& blobs@.len() == results@.len()
            &&& forall|i: int| 0 <= i < blobs@.len()
                ==> (#[trigger] blobs@[i])@ == results@[i]->Ok_0@
        },
        r matches Err(e) ==> e matches BuildError::Compile { name, message }
            && exists|i: int| {
                &&& 0 <= i < results@.len()
                &&& (#[trigger] results@[i]) is Err
                &&& forall|j: int| 0 <= j < i ==> (#[trigger] results@[j]) is Ok
                &&& name@ == entries@[i].name@
                &&& message@ == results@[i]->Err_0@
            },
{
    let n = results.len();
    let mut blobs: Vec<Vec<u8>> = Vec::new();
    let mut i: usize = 0;
    while i < n
        invariant
            n == results@.len(),
            entries@.len() == results@.len(),
            i <= n,
            blobs@.len() == i,
            forall|k: int| 0 <= k < i ==> (#[trigger] results@[k]) is Ok,
            forall|k: int| 0 <= k < i ==> (#[trigger] blobs@[k])@ == results@[k]->Ok_0@,
        decreases n - i,
    {
        match &results[i] {
            Ok(bytes) => {
                blobs.push(bytes.clone());
            },
            Err(message) => {
                return Err(BuildError::Compile {
                    name: entries[i].name.clone(),
                    message: message.clone(),
                });
            },
        }
        i = i + 1;
    }
    Ok(blobs)
}

/// Total compiled size across all modules, tracked for build reporting.
/// The corpus must fit the machine word; on overflow the sum is refused, not
/// wrapped.
pub fn total_compiled_size(blobs: &Vec<Vec<u8>>) -> (r: Option<usize>)
    ensures
        r matches Some(t) ==> t == spec_total_len(blobs@.map_values(|b: Vec<u8>| b@)),
        r is None ==> spec_total_len(blobs@.map_values(|b: Vec<u8>| b@)) > usize::MAX,
{
    let ghost specs = blobs@.map_values(|b: Vec<u8>| b@);
    let n = blobs.len();
    let mut total: usize = 0;
    let mut i: usize = 0;
    while i < n
        invariant
            n == blobs@.len(),
            specs == blobs@.map_values(|b: Vec<u8>| b@),
            i <= n,
            total == spec_total_len(specs.subrange(0, i as int)),
        decreases n - i,
    {
        proof {
            let pre = specs.subrange(0, i as int);
            let post = specs.subrange(0, i + 1);
            assert(post.drop_last() =~= pre);
            assert(post.last() == blobs@[i as int]@);
        }
        let len = blobs[i].len();
        if len > usize::MAX - total {
            proof {
                lemma_total_len_prefix(specs, i + 1);
            }
            return None;
        }
        total = total + len;
        i = i + 1;
    }
    assert(specs.subrange(0, n as int) =~= specs);
    Some(total)
}

} // verus!
