//! Order-preserving selections of a sequence, and what they keep of the
//! order of the frames' sequence numbers.

use crate::frame::VideoFrame;
use vstd::prelude::*;

verus! {

/// `sub` is picked out of `full` at the positions `at`, which increase:
/// every item of `sub` is an item of `full`, none is used twice, and the
/// order is kept.
pub open spec fn embeds<T>(sub: Seq<T>, full: Seq<T>, at: Seq<int>) -> bool {
    &&& at.len() == sub.len()
    &&& forall|i: int| 0 <= i < at.len() ==> 0 <= #[trigger] at[i] < full.len()
    &&& forall|i: int| 0 <= i < at.len() ==> sub[i] == full[#[trigger] at[i]]
    &&& forall|i: int, j: int| 0 <= i < j < at.len() ==> #[trigger] at[i] < #[trigger] at[j]
}

/// `sub` is `full` with some items left out.
pub open spec fn is_subsequence<T>(sub: Seq<T>, full: Seq<T>) -> bool {
    exists|at: Seq<int>| embeds(sub, full, at)
}

/// No frame has a smaller sequence number than one before it.
pub open spec fn non_decreasing(frames: Seq<VideoFrame>) -> bool {
    forall|i: int, j: int|
        0 <= i < j < frames.len() ==> (#[trigger] frames[i]).sequence <= (
        #[trigger] frames[j]).sequence
}

/// Every frame has a larger sequence number than all before it.
pub open spec fn strictly_increasing(frames: Seq<VideoFrame>) -> bool {
    forall|i: int, j: int|
        0 <= i < j < frames.len() ==> (#[trigger] frames[i]).sequence < (
        #[trigger] frames[j]).sequence
}

/// Nothing is picked out of anything at no position.
pub proof fn lemma_embeds_nothing<T>(full: Seq<T>)
    ensures
        embeds(Seq::<T>::empty(), full, Seq::<int>::empty()),
{
}

/// A selection stays one when the full sequence grows at its end.
pub proof fn lemma_embeds_longer<T>(sub: Seq<T>, full: Seq<T>, at: Seq<int>, item: T)
    requires
        embeds(sub, full, at),
    ensures
        embeds(sub, full.push(item), at),
{
}

/// An item appended to both sequences is picked at the new last position.
pub proof fn lemma_embeds_push<T>(sub: Seq<T>, full: Seq<T>, at: Seq<int>, item: T)
    requires
        embeds(sub, full, at),
    ensures
        embeds(sub.push(item), full.push(item), at.push(full.len() as int)),
{
    let at2 = at.push(full.len() as int);
    assert forall|i: int, j: int| 0 <= i < j < at2.len() implies #[trigger] at2[i]
        < #[trigger] at2[j] by {
        if j < at.len() {
            assert(at[i] < at[j]);
        } else {
            assert(at2[i] == at[i]);
        }
    }
}

/// A selection without one of its items is still a selection.
pub proof fn lemma_embeds_remove<T>(sub: Seq<T>, full: Seq<T>, at: Seq<int>, k: int)
    requires
        embeds(sub, full, at),
        0 <= k < sub.len(),
    ensures
        embeds(sub.remove(k), full, at.remove(k)),
{
    let sub2 = sub.remove(k);
    let at2 = at.remove(k);
    assert forall|i: int| 0 <= i < at2.len() implies 0 <= #[trigger] at2[i] < full.len() by {
        if i < k {
            assert(at2[i] == at[i]);
        } else {
            assert(at2[i] == at[i + 1]);
        }
    }
    assert forall|i: int| 0 <= i < at2.len() implies sub2[i] == full[#[trigger] at2[i]] by {
        if i < k {
            assert(at2[i] == at[i]);
        } else {
            assert(at2[i] == at[i + 1]);
        }
    }
    assert forall|i: int, j: int| 0 <= i < j < at2.len() implies #[trigger] at2[i]
        < #[trigger] at2[j] by {
        let i1 = if i < k {
            i
        } else {
            i + 1
        };
        let j1 = if j < k {
            j
        } else {
            j + 1
        };
        assert(at2[i] == at[i1]);
        assert(at2[j] == at[j1]);
        assert(at[i1] < at[j1]);
    }
}

/// The first `n` items of a selection are a selection.
pub proof fn lemma_embeds_take<T>(sub: Seq<T>, full: Seq<T>, at: Seq<int>, n: int)
    requires
        embeds(sub, full, at),
        0 <= n <= sub.len(),
    ensures
        embeds(sub.take(n), full, at.take(n)),
{
    let at2 = at.take(n);
    assert forall|i: int, j: int| 0 <= i < j < at2.len() implies #[trigger] at2[i]
        < #[trigger] at2[j] by {
        assert(at[i] < at[j]);
    }
}

/// Frames picked out in order come in the order of their sequence numbers,
/// if the frames they are picked from do: leaving frames out makes gaps,
/// never an inversion, and never a repeated number where there was none.
pub proof fn lemma_selection_keeps_order(sub: Seq<VideoFrame>, full: Seq<VideoFrame>)
    requires
        is_subsequence(sub, full),
    ensures
        non_decreasing(full) ==> non_decreasing(sub),
        strictly_increasing(full) ==> strictly_increasing(sub),
{
    let at = choose|at: Seq<int>| embeds(sub, full, at);
    if non_decreasing(full) {
        assert forall|i: int, j: int| 0 <= i < j < sub.len() implies (#[trigger] sub[i]).sequence
            <= (#[trigger] sub[j]).sequence by {
            assert(at[i] < at[j]);
            assert(sub[i] == full[at[i]]);
            assert(sub[j] == full[at[j]]);
        }
    }
    if strictly_increasing(full) {
        assert forall|i: int, j: int| 0 <= i < j < sub.len() implies (#[trigger] sub[i]).sequence
            < (#[trigger] sub[j]).sequence by {
            assert(at[i] < at[j]);
            assert(sub[i] == full[at[i]]);
            assert(sub[j] == full[at[j]]);
        }
    }
}

} // verus!
