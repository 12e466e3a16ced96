//! The watermark: a sentinel byte in a reserved region of the luma plane.

use vstd::prelude::*;

verus! {

/// The luma value that marks a frame as a synchronization signal.
pub const SENTINEL: u8 = 0x0a;

/// How many samples of `samples` equal the sentinel.
pub open spec fn sentinel_count(samples: Seq<u8>) -> nat
    decreases samples.len(),
{
    if samples.len() == 0 {
        0
    } else {
        sentinel_count(samples.drop_last()) + if samples.last() == SENTINEL {
            1nat
        } else {
            0nat
        }
    }
}

/// The samples that detection looks at: the first `sample_len` of the plane,
/// or the whole plane where it is shorter.
pub open spec fn sampled_prefix(luma: Seq<u8>, sample_len: nat) -> Seq<u8> {
    if sample_len <= luma.len() {
        luma.take(sample_len as int)
    } else {
        luma
    }
}

/// Whether a luma plane counts as marked: at least `threshold` of its sampled
/// prefix equal the sentinel.
pub open spec fn carries_mark(luma: Seq<u8>, sample_len: nat, threshold: nat) -> bool {
    sentinel_count(sampled_prefix(luma, sample_len)) >= threshold
}

/// The plane after marking: the first `region` bytes hold the sentinel, the
/// rest is untouched. A region longer than the plane covers all of it.
pub open spec fn stamped(luma: Seq<u8>, region: nat) -> Seq<u8> {
    Seq::new(
        luma.len(),
        |i: int|
            if i < region {
                SENTINEL
            } else {
                luma[i]
            },
    )
}

proof fn lemma_sentinel_count_all(samples: Seq<u8>)
    requires
        forall|i: int| 0 <= i < samples.len() ==> samples[i] == SENTINEL,
    ensures
        sentinel_count(samples) == samples.len(),
    decreases samples.len(),
{
    if samples.len() > 0 {
        lemma_sentinel_count_all(samples.drop_last());
    }
}

/// What the emitter marks, the receiver sees: a plane whose marked region
/// covers the sampled prefix counts as marked, whatever it held before, as
/// long as the threshold does not ask for more samples than are looked at.
pub proof fn lemma_stamped_plane_is_detected(
    luma: Seq<u8>,
    region: nat,
    sample_len: nat,
    threshold: nat,
)
    requires
        region >= sampled_prefix(luma, sample_len).len(),
        threshold <= sampled_prefix(luma, sample_len).len(),
    ensures
        carries_mark(stamped(luma, region), sample_len, threshold),
{
    lemma_sentinel_count_all(sampled_prefix(stamped(luma, region), sample_len));
}

/// Counts the sentinel samples among the first `sample_len` of `luma`.
pub fn count_sentinel(luma: &[u8], sample_len: usize) -> (count: usize)
    ensures
        count == sentinel_count(sampled_prefix(luma@, sample_len as nat)),
{
    let end: usize = if sample_len <= luma.len() {
        sample_len
    } else {
        luma.len()
    };
    let mut count: usize = 0;
    let mut i: usize = 0;
    while i < end
        invariant
            i <= end <= luma@.len(),
            count == sentinel_count(luma@.take(i as int)),
            count <= i,
        decreases end - i,
    {
        assert(luma@.take(i + 1).drop_last() =~= luma@.take(i as int));
        if luma[i] == SENTINEL {
            count = count + 1;
        }
        i = i + 1;
    }
    assert(luma@.take(end as int) =~= sampled_prefix(luma@, sample_len as nat));
    count
}

/// Whether the frame whose luma plane is `luma` carries the watermark.
pub fn detect(luma: &[u8], sample_len: usize, threshold: usize) -> (marked: bool)
    ensures
        marked == carries_mark(luma@, sample_len as nat, threshold as nat),
{
    count_sentinel(luma, sample_len) >= threshold
}

/// Overwrites the first `region` bytes of `luma` with the sentinel.
pub fn stamp(luma: &mut [u8], region: usize)
    ensures
        final(luma)@ == stamped(old(luma)@, region as nat),
{
    let end: usize = if region <= luma.len() {
        region
    } else {
        luma.len()
    };
    let mut i: usize = 0;
    while i < end
        invariant
            i <= end <= luma@.len(),
            end <= region,
            end == region || end == luma@.len(),
            luma@.len() == old(luma)@.len(),
            forall|j: int| 0 <= j < i ==> luma@[j] == SENTINEL,
            forall|j: int| i <= j < luma@.len() ==> luma@[j] == old(luma)@[j],
        decreases end - i,
    {
        luma[i] = SENTINEL;
        i = i + 1;
    }
    assert(luma@ =~= stamped(old(luma)@, region as nat));
}

} // verus!
