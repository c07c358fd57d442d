//! The layout of audio on its way to the device, and the bounds of the search
//! that aligns two streams. Samples are any copyable values: what is computed
//! from them is computed elsewhere.

use vstd::prelude::*;

verus! {

/// Frames handed to the resampler at a time.
pub const RESAMPLE_CHUNK: usize = 1024;

/// The search first looks at audio with this many times fewer samples.
pub const DECIMATE: usize = 8;

/// How far to either side of what it found the search then looks again, at
/// all samples.
pub const REFINE: usize = 12;

/// One frame for a device with so many channels: the left and the right one,
/// then silence, or the middle of the two where there is but one channel.
pub open spec fn device_frame<S>(l: S, r: S, mid: S, silence: S, channels: int) -> Seq<S> {
    if channels <= 0 {
        Seq::empty()
    } else if channels == 1 {
        seq![mid]
    } else {
        Seq::new(
            channels as nat,
            |i: int|
                if i == 0 {
                    l
                } else if i == 1 {
                    r
                } else {
                    silence
                },
        )
    }
}

/// Append one frame to a buffer in the device's layout.
pub fn interleave_into<S: Copy>(
    buf: &mut Vec<S>,
    l: S,
    r: S,
    mid: S,
    silence: S,
    channels: usize,
)
    ensures
        final(buf)@ == old(buf)@ + device_frame(l, r, mid, silence, channels as int),
{
    let ghost before = buf@;
    if channels == 0 {
        assert(buf@ =~= before + device_frame(l, r, mid, silence, 0));
    } else if channels == 1 {
        buf.push(mid);
    } else {
        let ghost whole = device_frame(l, r, mid, silence, channels as int);
        buf.push(l);
        buf.push(r);
        let mut i: usize = 2;
        assert(buf@ =~= before + whole.take(2));
        while i < channels
            invariant
                2 <= i <= channels,
                whole == device_frame(l, r, mid, silence, channels as int),
                buf@ == before + whole.take(i as int),
            decreases channels - i,
        {
            buf.push(silence);
            assert(whole.take(i + 1) =~= whole.take(i as int).push(silence));
            assert(buf@ =~= before + whole.take(i + 1));
            i += 1;
        }
        assert(whole.take(channels as int) =~= whole);
    }
}

/// Whether a stream has to be resampled for the device.
pub fn needs_resampler(in_rate: u32, out_rate: u32) -> (b: bool)
    ensures
        b == (in_rate != out_rate),
{
    in_rate != out_rate
}

/// Frames waiting for the resampler, which takes whole chunks only.
pub struct ResampleQueue<S> {
    left: Vec<S>,
    right: Vec<S>,
}

/// What a [`ResampleQueue`] holds: its left and its right samples.
pub ghost struct QueueView<S> {
    pub left: Seq<S>,
    pub right: Seq<S>,
}

impl<S> QueueView<S> {
    pub open spec fn wf(self) -> bool {
        self.left.len() == self.right.len()
    }
}

impl<S> View for ResampleQueue<S> {
    type V = QueueView<S>;

    closed spec fn view(&self) -> QueueView<S> {
        QueueView { left: self.left@, right: self.right@ }
    }
}

impl<S: Copy> ResampleQueue<S> {
    pub fn new() -> (q: ResampleQueue<S>)
        ensures
            q@ == (QueueView { left: Seq::<S>::empty(), right: Seq::<S>::empty() }),
            q@.wf(),
    {
        let q = ResampleQueue {
            left: Vec::with_capacity(2 * RESAMPLE_CHUNK),
            right: Vec::with_capacity(2 * RESAMPLE_CHUNK),
        };
        assert(q@.left =~= Seq::<S>::empty());
        assert(q@.right =~= Seq::<S>::empty());
        q
    }

    /// A frame joins the queue.
    pub fn push(&mut self, l: S, r: S)
        requires
            old(self)@.wf(),
        ensures
            final(self)@ == (QueueView {
                left: old(self)@.left.push(l),
                right: old(self)@.right.push(r),
            }),
            final(self)@.wf(),
    {
        self.left.push(l);
        self.right.push(r);
    }

    /// The oldest chunk, once there is a whole one: its left and its right
    /// samples.
    pub fn take_chunk(&mut self) -> (chunk: Option<(Vec<S>, Vec<S>)>)
        requires
            old(self)@.wf(),
        ensures
            final(self)@.wf(),
            (chunk is Some) == (old(self)@.left.len() >= RESAMPLE_CHUNK),
            match chunk {
                Some((l, r)) => {
                    &&& l@ == old(self)@.left.take(RESAMPLE_CHUNK as int)
                    &&& r@ == old(self)@.right.take(RESAMPLE_CHUNK as int)
                    &&& final(self)@ == (QueueView {
                        left: old(self)@.left.skip(RESAMPLE_CHUNK as int),
                        right: old(self)@.right.skip(RESAMPLE_CHUNK as int),
                    })
                },
                None => final(self)@ == old(self)@,
            },
    {
        if self.left.len() < RESAMPLE_CHUNK {
            return None;
        }
        let ghost before = *self;
        let mut l = self.left.split_off(RESAMPLE_CHUNK);
        let mut r = self.right.split_off(RESAMPLE_CHUNK);
        core::mem::swap(&mut l, &mut self.left);
        core::mem::swap(&mut r, &mut self.right);
        proof {
            assert(l@ =~= before.left@.take(RESAMPLE_CHUNK as int));
            assert(r@ =~= before.right@.take(RESAMPLE_CHUNK as int));
            assert(self.left@ =~= before.left@.skip(RESAMPLE_CHUNK as int));
            assert(self.right@ =~= before.right@.skip(RESAMPLE_CHUNK as int));
        }
        Some((l, r))
    }
}

/// The bounds of a search for `reference` samples among `hay` samples.
#[derive(Debug, Clone, Copy, PartialEq, Eq, Structural)]
pub struct LocatePlan {
    /// The last offset to try at fewer samples: offsets `0..=last_lag`.
    pub last_lag: usize,
    /// The last offset at which the reference still fits.
    pub max_at: usize,
}

/// Plan a search. There is none for a reference too short to be told apart, or
/// for one longer than what is searched.
pub fn locate_plan(reference: usize, hay: usize) -> (p: Option<LocatePlan>)
    ensures
        (p is Some) == (reference >= DECIMATE * 4 && hay >= reference),
        p matches Some(plan) ==> {
            &&& plan.last_lag == hay / DECIMATE - reference / DECIMATE
            &&& plan.max_at == hay - reference
        },
{
    if reference < DECIMATE * 4 || hay < reference {
        None
    } else {
        Some(
            LocatePlan {
                last_lag: hay / DECIMATE - reference / DECIMATE,
                max_at: hay - reference,
            },
        )
    }
}

/// Where to look again, at all samples.
#[derive(Debug, Clone, Copy, PartialEq, Eq, Structural)]
pub struct Refinement {
    /// The offset to settle for if none is any better.
    pub centre: usize,
    /// The offsets to try: `first..=last`, and none if `last` is less.
    pub first: usize,
    pub last: usize,
}

/// Look again around the best offset found at fewer samples.
pub fn refine(plan: LocatePlan, best_lag: usize) -> (r: Refinement)
    requires
        best_lag <= plan.last_lag,
        best_lag * DECIMATE + REFINE <= usize::MAX,
    ensures
        r.centre == (if best_lag * DECIMATE > plan.max_at {
            plan.max_at as int
        } else {
            best_lag * DECIMATE
        }),
        r.centre <= plan.max_at,
        r.first == (if best_lag * DECIMATE < REFINE {
            0
        } else {
            best_lag * DECIMATE - REFINE
        }),
        r.last == (if best_lag * DECIMATE + REFINE > plan.max_at {
            plan.max_at as int
        } else {
            best_lag * DECIMATE + REFINE
        }),
{
    let centre: usize = best_lag * DECIMATE;
    Refinement {
        centre: if centre > plan.max_at {
            plan.max_at
        } else {
            centre
        },
        first: centre.saturating_sub(REFINE),
        last: if centre + REFINE > plan.max_at {
            plan.max_at
        } else {
            centre + REFINE
        },
    }
}

/// Whether looking again around an offset found at fewer samples tries the
/// offset `at`.
pub open spec fn reaches(lag: int, at: int) -> bool {
    lag * DECIMATE - REFINE <= at <= lag * DECIMATE + REFINE
}

/// Looking at fewer samples first rules nothing out: each offset at which the
/// reference fits is within reach of one that is tried.
pub proof fn law_refinement_reaches_every_offset(reference: int, hay: int, at: int)
    requires
        0 <= reference <= hay,
        0 <= at <= hay - reference,
    ensures
        exists|lag: int|
            0 <= lag <= hay / (DECIMATE as int) - reference / (DECIMATE as int)
                && #[trigger] reaches(lag, at),
{
    let lag = at / (DECIMATE as int);
    let last = hay / (DECIMATE as int) - reference / (DECIMATE as int);
    if lag <= last {
        assert(reaches(lag, at));
    } else {
        assert(reaches(last, at));
    }
}

} // verus!
