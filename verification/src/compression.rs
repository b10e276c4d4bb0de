//! Planning of the shared-dictionary compression step.
//!
//! One dictionary is trained over the whole corpus of compiled module blobs
//! and every blob is then compressed against it.  On a small corpus the
//! trainer is unreliable, so training is restricted to the blobs above a
//! minimum size and run with a smaller block size — but every module, small
//! or not, is still compressed and emitted as a container.  The external
//! trainer and compressor are opaque collaborators; this module decides what
//! they are fed and wraps what they return, and its containers record each
//! blob's exact pre-compression length, which a reader needs to size its
//! output buffer.

use vstd::prelude::*;
use crate::codec;

verus! {

/// Upper bound, in bytes, on the trained dictionary.
pub const MAX_DICT_SIZE: usize = 20480;

/// A corpus with fewer modules than this trains on its larger blobs only.
pub const SMALL_CORPUS_THRESHOLD: usize = 5;

/// Smallest blob admitted to training on a small corpus.
pub const MIN_TRAINING_SIZE: usize = 1024;

/// What the dictionary trainer is fed: which blobs of the corpus to train
/// on, and whether to use the reduced block size.
pub struct TrainingPlan {
    /// Indices into the corpus of the blobs used for training.
    pub training_indices: Vec<usize>,
    /// Use the reduced training block size (set on a small corpus).
    pub small_blocks: bool,
}

/// Every index of a corpus of `n` blobs, in order.
pub open spec fn spec_all_indices(n: nat) -> Seq<usize>
    decreases n,
{
    if n == 0 {
        Seq::empty()
    } else {
        spec_all_indices((n - 1) as nat) + seq![((n - 1) as usize)]
    }
}

/// The indices of the blobs large enough for training on a small corpus, in
/// order.
pub open spec fn spec_large_indices(sizes: Seq<usize>) -> Seq<usize>
    decreases sizes.len(),
{
    if sizes.len() == 0 {
        Seq::empty()
    } else {
        spec_large_indices(sizes.drop_last()) + (if sizes.last() >= MIN_TRAINING_SIZE {
            seq![((sizes.len() - 1) as usize)]
        } else {
            Seq::empty()
        })
    }
}

/// The training set a corpus with these blob sizes gets.
pub open spec fn spec_training_indices(sizes: Seq<usize>) -> Seq<usize> {
    if sizes.len() < SMALL_CORPUS_THRESHOLD {
        spec_large_indices(sizes)
    } else {
        spec_all_indices(sizes.len())
    }
}

/// An index is in the training set of a small corpus exactly when its blob
/// reaches the minimum training size: undersized blobs are excluded from
/// training (and from training only — they are still compressed and
/// emitted).
pub proof fn lemma_small_corpus_training_membership(sizes: Seq<usize>, idx: usize)
    requires
        sizes.len() < SMALL_CORPUS_THRESHOLD,
    ensures
        spec_training_indices(sizes).contains(idx)
            <==> idx < sizes.len() && sizes[idx as int] >= MIN_TRAINING_SIZE,
    decreases sizes.len(),
{
    if sizes.len() == 0 {
    } else {
        lemma_small_corpus_training_membership(sizes.drop_last(), idx);
        let head = spec_large_indices(sizes.drop_last());
        let whole = spec_large_indices(sizes);
        if sizes.last() >= MIN_TRAINING_SIZE {
            let tail = seq![((sizes.len() - 1) as usize)];
            assert(whole == head + tail);
            if idx < sizes.len() - 1 {
                assert(sizes.drop_last()[idx as int] == sizes[idx as int]);
                if head.contains(idx) {
                    let k = choose|k: int| 0 <= k < head.len() && head[k] == idx;
                    assert(whole[k] == idx);
                }
                if whole.contains(idx) {
                    let k = choose|k: int| 0 <= k < whole.len() && whole[k] == idx;
                    if k < head.len() {
                        assert(head[k] == idx);
                    } else {
                        assert(whole[k] == (sizes.len() - 1) as usize);
                    }
                }
            } else if idx == sizes.len() - 1 {
                assert(whole[whole.len() - 1] == idx);
            } else {
                if whole.contains(idx) {
                    let k = choose|k: int| 0 <= k < whole.len() && whole[k] == idx;
                    if k < head.len() {
                        assert(head[k] == idx);
                        assert(head.contains(idx));
                    }
                }
            }
        } else {
            assert(whole =~= head);
            if idx < sizes.len() - 1 {
                assert(sizes.drop_last()[idx as int] == sizes[idx as int]);
            } else if idx == sizes.len() - 1 {
                if whole.contains(idx) {
                    let k = choose|k: int| 0 <= k < whole.len() && whole[k] == idx;
                    assert(head[k] == idx);
                }
            } else {
                if whole.contains(idx) {
                    let k = choose|k: int| 0 <= k < whole.len() && whole[k] == idx;
                    assert(head[k] == idx);
                }
            }
        }
    }
}

/// Decide the training step for a corpus with the given blob sizes: the full
/// corpus and normal block size when it is large enough, only the blobs
/// above the minimum size and the reduced block size otherwise.
pub fn plan_training(sizes: &Vec<usize>) -> (plan: TrainingPlan)
    ensures
        plan.small_blocks == (sizes@.len() < SMALL_CORPUS_THRESHOLD),
        plan.training_indices@ == spec_training_indices(sizes@),
{
    let n = sizes.len();
    let mut indices: Vec<usize> = Vec::new();
    if n < SMALL_CORPUS_THRESHOLD {
        let mut i: usize = 0;
        while i < n
            invariant
                n == sizes@.len(),
                i <= n,
                indices@ == spec_large_indices(sizes@.subrange(0, i as int)),
            decreases n - i,
        {
            proof {
                let pre = sizes@.subrange(0, i as int);
                let post = sizes@.subrange(0, i + 1);
                assert(post.drop_last() =~= pre);
                assert(post.last() == sizes@[i as int]);
            }
            if sizes[i] >= MIN_TRAINING_SIZE {
                indices.push(i);
                assert(indices@ =~= spec_large_indices(sizes@.subrange(0, i + 1)));
            } else {
                assert(spec_large_indices(sizes@.subrange(0, i + 1))
                    =~= spec_large_indices(sizes@.subrange(0, i as int)));
            }
            i = i + 1;
        }
        assert(sizes@.subrange(0, n as int) =~= sizes@);
        TrainingPlan { training_indices: indices, small_blocks: true }
    } else {
        let mut i: usize = 0;
        while i < n
            invariant
                n == sizes@.len(),
                i <= n,
                indices@ == spec_all_indices(i as nat),
            decreases n - i,
        {
            indices.push(i);
            assert(indices@ =~= spec_all_indices((i + 1) as nat));
            i = i + 1;
        }
        TrainingPlan { training_indices: indices, small_blocks: false }
    }
}

/// Wrap one compressed blob in a container that records the blob's exact
/// pre-compression length.  The length must fit the header's 32-bit size
/// field; larger blobs are refused rather than silently truncated.
pub fn wrap_compressed(original: &[u8], compressed: &[u8]) -> (r: Vec<u8>)
    requires
        original@.len() <= u32::MAX,
        compressed@.len() + 9 <= usize::MAX,
    ensures
        r@ == codec::spec_encode(compressed@, true, Some(original@.len() as u32)),
{
    let original_size: u32 = original.len() as u32;
    codec::encode(compressed, true, Some(original_size))
}

/// Wrap one blob in an uncompressed container (the whole-pipeline bypass of
/// the `uncompressed` build toggle).
pub fn wrap_uncompressed(blob: &[u8]) -> (r: Vec<u8>)
    requires
        blob@.len() + 9 <= usize::MAX,
    ensures
        r@ == codec::spec_encode(blob@, false, None),
{
    codec::encode(blob, false, None)
}

/// Wrap the whole corpus as compressed containers, one per module in order:
/// `compressed[i]` is the external compressor's output for `originals[i]`,
/// and every container records its module's exact pre-compression length.
/// All-or-nothing, and never a mix: either every module gets a compressed
/// container, or (on a blob too large for the size field) nothing is
/// produced.
pub fn wrap_all_compressed(originals: &Vec<Vec<u8>>, compressed: &Vec<Vec<u8>>)
    -> (r: Result<Vec<Vec<u8>>, codec::FormatError>)
    requires
        originals@.len() == compressed@.len(),
        forall|i: int| 0 <= i < compressed@.len()
            ==> (#[trigger] compressed@[i])@.len() + 9 <= usize::MAX,
    ensures
        r is Ok <==> forall|i: int| 0 <= i < originals@.len()
            ==> (#[trigger] originals@[i])@.len() <= u32::MAX,
        r matches Ok(out) ==> {
            &&& out@.len() == originals@.len()
            &&& forall|i: int| 0 <= i < out@.len() ==> (#[trigger] out@[i])@
                == codec::spec_encode(compressed@[i]@, true, Some(originals@[i]@.len() as u32))
        },
{
    let n = originals.len();
    let mut out: Vec<Vec<u8>> = Vec::new();
    let mut i: usize = 0;
    while i < n
        invariant
            n == originals@.len(),
            originals@.len() == compressed@.len(),
            forall|k: int| 0 <= k < compressed@.len()
                ==> (#[trigger] compressed@[k])@.len() + 9 <= usize::MAX,
            i <= n,
            out@.len() == i,
            forall|k: int| 0 <= k < i
                ==> (#[trigger] originals@[k])@.len() <= u32::MAX,
            forall|k: int| 0 <= k < i ==> (#[trigger] out@[k])@
                == codec::spec_encode(compressed@[k]@, true, Some(originals@[k]@.len() as u32)),
        decreases n - i,
    {
        if originals[i].len() > u32::MAX as usize {
            return Err(codec::FormatError::OversizedPayload);
        }
        let container = wrap_compressed(originals[i].as_slice(), compressed[i].as_slice());
        out.push(container);
        i = i + 1;
    }
    Ok(out)
}

} // verus!
