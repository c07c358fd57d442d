//! Laws of the layout of audio and of the search's bounds.

use crate::audio::{
    interleave_into, locate_plan, needs_resampler, refine, LocatePlan, Refinement, ResampleQueue,
    DECIMATE, REFINE, RESAMPLE_CHUNK,
};
use vstd::prelude::*;

verus! {

/// A frame for the device has a sample for each of its channels: left and
/// right come first and the others are silent; one channel alone carries the
/// middle. What was there before stays.
pub proof fn law_frames_fit_the_device<S: Copy>(
    buf: &mut Vec<S>,
    l: S,
    r: S,
    mid: S,
    silence: S,
    channels: usize,
    i: int,
)
    requires
        call_ensures(interleave_into::<S>, (buf, l, r, mid, silence, channels), ()),
    ensures
        final(buf)@.len() == old(buf)@.len() + channels,
        final(buf)@.take(old(buf)@.len() as int) == old(buf)@,
        channels == 1 ==> final(buf)@.last() == mid,
        channels >= 2 ==> {
            &&& final(buf)@[old(buf)@.len() as int] == l
            &&& final(buf)@[old(buf)@.len() + 1int] == r
            &&& 2 <= i < channels ==> final(buf)@[old(buf)@.len() + i] == silence
        },
{
    assert(final(buf)@.take(old(buf)@.len() as int) =~= old(buf)@);
}

/// Audio is resampled where the rates differ.
pub proof fn law_when_to_resample(in_rate: u32, out_rate: u32, b: bool)
    requires
        call_ensures(needs_resampler, (in_rate, out_rate), b),
    ensures
        b <==> in_rate != out_rate,
{
}

/// Audio waits for the resampler until there is a chunk of it, left and right
/// apart and in order.
pub proof fn law_chunks_wait_for_the_resampler<S: Copy>(
    fresh: ResampleQueue<S>,
    q: &mut ResampleQueue<S>,
    l: S,
    r: S,
    p: &mut ResampleQueue<S>,
    chunk: Option<(Vec<S>, Vec<S>)>,
)
    requires
        call_ensures(ResampleQueue::<S>::new, (), fresh),
        call_ensures(ResampleQueue::<S>::push, (q, l, r), ()),
        call_ensures(ResampleQueue::<S>::take_chunk, (p,), chunk),
        old(p)@.left.len() == old(p)@.right.len(),
    ensures
        RESAMPLE_CHUNK == 1_024,
        fresh@.left.len() == 0,
        fresh@.right.len() == 0,
        final(q)@.left == old(q)@.left.push(l),
        final(q)@.right == old(q)@.right.push(r),
        chunk is Some <==> old(p)@.left.len() >= 1_024,
        chunk is None ==> final(p)@ == old(p)@,
        chunk matches Some((left, right)) ==> {
            &&& left@.len() == 1_024
            &&& right@.len() == 1_024
            &&& left@ + final(p)@.left == old(p)@.left
            &&& right@ + final(p)@.right == old(p)@.right
        },
{
    if let Some((left, right)) = chunk {
        assert(left@ + final(p)@.left =~= old(p)@.left);
        assert(right@ + final(p)@.right =~= old(p)@.right);
    }
}

/// A search needs something to look for, of some length, and room to look for
/// it in. It tries every eighth offset at which what is looked for still fits.
pub proof fn law_where_a_search_looks(reference: usize, hay: usize, p: Option<LocatePlan>)
    requires
        call_ensures(locate_plan, (reference, hay), p),
    ensures
        DECIMATE == 8,
        REFINE == 12,
        p is Some <==> 32 <= reference <= hay,
        p matches Some(plan) ==> {
            &&& plan.max_at + reference == hay
            &&& plan.last_lag == hay / 8 - reference / 8
        },
{
}

/// A coarse match is looked at closely within twelve samples either way, as
/// far as what is looked for still fits.
pub proof fn law_where_a_search_looks_closely(plan: LocatePlan, best: usize, r: Refinement, at: int)
    requires
        call_ensures(refine, (plan, best), r),
    ensures
        r.centre <= plan.max_at,
        8 * best <= plan.max_at ==> r.centre == 8 * best,
        8 * best > plan.max_at ==> r.centre == plan.max_at,
        0 <= at <= plan.max_at && 8 * best - 12 <= at <= 8 * best + 12 ==> r.first <= at <= r.last,
        r.first <= at <= r.last ==> at <= plan.max_at && 8 * best - 12 <= at <= 8 * best + 12,
{
}

} // verus!
