//! Frame rate of a universe, measured on the log of reconstructed frames.

use super::dmx::{borrowed_views, frames_of_universe, DmxFrameView, DmxProtocol, DmxStore};
use super::window::clip128;
use crate::report::Ratio;
use vstd::prelude::*;

verus! {

/// The frame rate is measured over the last five seconds of a universe.
pub const FPS_WINDOW_US: u64 = 5_000_000;

/// The capture times of the frames that have one, in order.
pub open spec fn stamped(frames: Seq<DmxFrameView>) -> Seq<u64>
    decreases frames.len(),
{
    if frames.len() == 0 {
        Seq::empty()
    } else {
        match frames.last().timestamp {
            Some(t) => stamped(frames.drop_last()).push(t),
            None => stamped(frames.drop_last()),
        }
    }
}

/// The earliest of the times; `u64::MAX` where there is none.
pub open spec fn earliest(times: Seq<u64>) -> u64
    decreases times.len(),
{
    if times.len() == 0 {
        u64::MAX
    } else if times.last() < earliest(times.drop_last()) {
        times.last()
    } else {
        earliest(times.drop_last())
    }
}

/// The latest of the times; zero where there is none.
pub open spec fn latest(times: Seq<u64>) -> u64
    decreases times.len(),
{
    if times.len() == 0 {
        0
    } else if times.last() > latest(times.drop_last()) {
        times.last()
    } else {
        latest(times.drop_last())
    }
}

/// How many of the times are not before `from`.
pub open spec fn count_since(times: Seq<u64>, from: int) -> nat
    decreases times.len(),
{
    if times.len() == 0 {
        0
    } else if times.last() >= from {
        count_since(times.drop_last(), from) + 1
    } else {
        count_since(times.drop_last(), from)
    }
}

/// The frame rate of frames captured at `times`, in frames per second.
///
/// Measured where the times span more than nothing: the frames of the last
/// five seconds, over the span of the times or five seconds, whichever is
/// shorter. The numerator counts frames per microsecond, times a million.
pub open spec fn fps_of(times: Seq<u64>) -> Option<Ratio> {
    if times.len() == 0 || latest(times) <= earliest(times) {
        None
    } else {
        let span = latest(times) - earliest(times);
        Some(
            Ratio {
                num: clip128(count_since(times, latest(times) - FPS_WINDOW_US) as int * 1_000_000),
                den: if span < FPS_WINDOW_US {
                    span as u128
                } else {
                    FPS_WINDOW_US as u128
                },
            },
        )
    }
}

/// The earliest and the latest time are times of the list, and every time
/// lies between them.
pub proof fn lemma_bounds(times: Seq<u64>)
    ensures
        forall|i: int| 0 <= i < times.len() ==> earliest(times) <= #[trigger] times[i] <= latest(times),
        count_since(times, latest(times) - FPS_WINDOW_US) <= times.len(),
        times.len() > 0 ==> exists|i: int| 0 <= i < times.len() && times[i] == latest(times),
        times.len() > 0 ==> exists|i: int| 0 <= i < times.len() && times[i] == earliest(times),
    decreases times.len(),
{
    lemma_count_bound(times, latest(times) - FPS_WINDOW_US);
    if times.len() > 0 {
        let front = times.drop_last();
        lemma_bounds(front);
        assert forall|i: int| 0 <= i < times.len() implies earliest(times) <= #[trigger] times[i]
            <= latest(times) by {
            if i < times.len() - 1 {
                assert(times[i] == front[i]);
            }
        }
        if times.last() > latest(front) || front.len() == 0 {
            assert(times[times.len() - 1] == latest(times));
        } else {
            let i = choose|i: int| 0 <= i < front.len() && front[i] == latest(front);
            assert(times[i] == latest(times));
        }
        if times.last() < earliest(front) || front.len() == 0 {
            assert(times[times.len() - 1] == earliest(times));
        } else {
            let i = choose|i: int| 0 <= i < front.len() && front[i] == earliest(front);
            assert(times[i] == earliest(times));
        }
    }
}

/// No more times are counted than there are.
pub proof fn lemma_count_bound(times: Seq<u64>, from: int)
    ensures
        count_since(times, from) <= times.len(),
    decreases times.len(),
{
    if times.len() > 0 {
        lemma_count_bound(times.drop_last(), from);
    }
}

/// A time that is not before `from` is counted.
pub proof fn lemma_count_has(times: Seq<u64>, from: int, i: int)
    requires
        0 <= i < times.len(),
        times[i] >= from,
    ensures
        count_since(times, from) >= 1,
    decreases times.len(),
{
    if i < times.len() - 1 {
        lemma_count_has(times.drop_last(), from, i);
    }
}

/// Where the frames of a universe were captured at two different times or
/// more, the frame rate is measured and positive: it is the number of
/// frames of the last five seconds, at least one, over the shorter of the
/// span of the times and five seconds.
pub proof fn lemma_fps_is_positive(times: Seq<u64>)
    requires
        times.len() >= 2,
        latest(times) > earliest(times),
    ensures
        fps_of(times) is Some,
        fps_of(times)->Some_0.num == clip128(
            count_since(times, latest(times) - FPS_WINDOW_US) as int * 1_000_000,
        ),
        fps_of(times)->Some_0.num >= 1_000_000,
        fps_of(times)->Some_0.den > 0,
        fps_of(times)->Some_0.den == if latest(times) - earliest(times) < FPS_WINDOW_US {
            latest(times) - earliest(times)
        } else {
            FPS_WINDOW_US as int
        },
{
    lemma_bounds(times);
    let i = choose|i: int| 0 <= i < times.len() && times[i] == latest(times);
    lemma_count_has(times, latest(times) - FPS_WINDOW_US, i);
    let count = count_since(times, latest(times) - FPS_WINDOW_US);
    assert(count * 1_000_000 >= 1_000_000) by (nonlinear_arith)
        requires
            count >= 1,
    ;
}

/// Measures the frame rate of a universe on the frame log. `fallback_frames`
/// has no part in the result: the rate is measured on timed frames only.
pub fn fps_from_dmx(
    dmx_store: &DmxStore,
    universe: u16,
    protocol: DmxProtocol,
    fallback_frames: u64,
) -> (r: Option<Ratio>)
    ensures
        r == fps_of(stamped(frames_of_universe(dmx_store@, universe, protocol))),
{
    let frames = dmx_store.frames_for_universe(universe, protocol);
    let ghost views = borrowed_views(frames@);
    let ghost times = stamped(views);
    let mut last_ts: u64 = 0;
    let mut earliest_ts: u64 = u64::MAX;
    let mut counted: usize = 0;
    let mut i: usize = 0;
    assert(views.take(0) =~= Seq::<DmxFrameView>::empty());
    while i < frames.len()
        invariant
            i <= frames.len(),
            views == borrowed_views(frames@),
            views.len() == frames@.len(),
            last_ts == latest(stamped(views.take(i as int))),
            earliest_ts == earliest(stamped(views.take(i as int))),
            counted == stamped(views.take(i as int)).len(),
            counted <= i,
        decreases frames.len() - i,
    {
        proof {
            assert(views.take(i + 1).drop_last() =~= views.take(i as int));
            assert(views.take(i + 1).last() == frames@[i as int]@);
            let t = stamped(views.take(i + 1));
            if frames@[i as int].timestamp is Some {
                assert(t.drop_last() =~= stamped(views.take(i as int)));
            }
        }
        if let Some(ts) = frames[i].timestamp {
            if ts > last_ts {
                last_ts = ts;
            }
            if ts < earliest_ts {
                earliest_ts = ts;
            }
            counted += 1;
        }
        i += 1;
    }
    assert(views.take(frames.len() as int) =~= views);
    if counted == 0 || last_ts <= earliest_ts {
        return None;
    }
    let window_start: u64 = last_ts.saturating_sub(FPS_WINDOW_US);
    let mut window_count: usize = 0;
    let mut j: usize = 0;
    while j < frames.len()
        invariant
            j <= frames.len(),
            views == borrowed_views(frames@),
            views.len() == frames@.len(),
            window_start == if last_ts >= FPS_WINDOW_US {
                last_ts - FPS_WINDOW_US
            } else {
                0
            },
            window_count == count_since(stamped(views.take(j as int)), last_ts - FPS_WINDOW_US),
            window_count <= j,
        decreases frames.len() - j,
    {
        proof {
            assert(views.take(j + 1).drop_last() =~= views.take(j as int));
            assert(views.take(j + 1).last() == frames@[j as int]@);
            let t = stamped(views.take(j + 1));
            if frames@[j as int].timestamp is Some {
                assert(t.drop_last() =~= stamped(views.take(j as int)));
            }
        }
        if let Some(ts) = frames[j].timestamp {
            if ts >= window_start {
                window_count += 1;
            }
        }
        j += 1;
    }
    assert(views.take(frames.len() as int) =~= views);
    let span: u64 = last_ts - earliest_ts;
    let window_duration: u64 = if span < FPS_WINDOW_US {
        span
    } else {
        FPS_WINDOW_US
    };
    assert((window_count as u128) * 1_000_000 <= u128::MAX) by (nonlinear_arith)
        requires
            window_count <= usize::MAX,
    ;
    Some(Ratio { num: (window_count as u128) * 1_000_000, den: window_duration as u128 })
}

} // verus!
