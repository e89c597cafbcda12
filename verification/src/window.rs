//! The mathematical model of the rolling history window and of the statistics
//! drawn from it.

use vstd::prelude::*;

verus! {

/// One thousandth: the number of fixed-point steps in one unit.
pub const THOUSANDTHS: u64 = 1000;

/// The lowest top the chart's vertical axis is ever given headroom from, in
/// microseconds (10 ms).
pub const AXIS_FLOOR_US: u64 = 10_000;

/// What a history window holds: the visible ring, oldest first, and the
/// counters and last observation of the whole run.
pub ghost struct Window {
    pub ring: Seq<Option<u64>>,
    pub total: nat,
    pub lost: nat,
    pub last: Option<u64>,
}

impl Window {
    /// The window before any observation.
    pub open spec fn empty() -> Window {
        Window { ring: Seq::empty(), total: 0, lost: 0, last: None }
    }

    /// The ring after one more observation under the given capacity: a full
    /// ring first gives up its oldest entry, then the new one goes to the end.
    pub open spec fn ring_after(ring: Seq<Option<u64>>, rtt: Option<u64>, capacity: nat) -> Seq<
        Option<u64>,
    > {
        if ring.len() == capacity && ring.len() > 0 {
            ring.drop_first().push(rtt)
        } else {
            ring.push(rtt)
        }
    }

    /// The window after one more observation.
    pub open spec fn apply(self, rtt: Option<u64>, capacity: nat) -> Window {
        Window {
            ring: Self::ring_after(self.ring, rtt, capacity),
            total: self.total + 1,
            lost: if rtt.is_none() {
                self.lost + 1
            } else {
                self.lost
            },
            last: rtt,
        }
    }

    /// The window after a run of observations, applied in order.
    pub open spec fn apply_all(self, rtts: Seq<Option<u64>>, capacity: nat) -> Window
        decreases rtts.len(),
    {
        if rtts.len() == 0 {
            self
        } else {
            self.apply_all(rtts.drop_last(), capacity).apply(rtts.last(), capacity)
        }
    }
}

/// How many entries of `ring` are losses.
pub open spec fn lost_in(ring: Seq<Option<u64>>) -> nat
    decreases ring.len(),
{
    if ring.len() == 0 {
        0
    } else {
        lost_in(ring.drop_last()) + if ring.last().is_none() {
            1nat
        } else {
            0nat
        }
    }
}

/// How many entries of `ring` carry a round-trip time.
pub open spec fn present_count(ring: Seq<Option<u64>>) -> nat
    decreases ring.len(),
{
    if ring.len() == 0 {
        0
    } else {
        present_count(ring.drop_last()) + if ring.last().is_some() {
            1nat
        } else {
            0nat
        }
    }
}

/// The sum of the round-trip times in `ring`; losses add nothing.
pub open spec fn present_sum(ring: Seq<Option<u64>>) -> nat
    decreases ring.len(),
{
    if ring.len() == 0 {
        0
    } else {
        present_sum(ring.drop_last()) + match ring.last() {
            Some(v) => v as nat,
            None => 0nat,
        }
    }
}

/// The largest round-trip time in `ring`, or 0 where it holds none.
pub open spec fn present_max(ring: Seq<Option<u64>>) -> nat
    decreases ring.len(),
{
    if ring.len() == 0 {
        0
    } else {
        let rest = present_max(ring.drop_last());
        match ring.last() {
            Some(v) => if v as nat > rest {
                v as nat
            } else {
                rest
            },
            None => rest,
        }
    }
}

/// The mean round-trip time over the entries that carry one, rounded down to
/// a whole microsecond; undefined where no entry carries one.
pub open spec fn mean_of(ring: Seq<Option<u64>>) -> Option<nat> {
    if present_count(ring) == 0 {
        None
    } else {
        Some(present_sum(ring) / present_count(ring))
    }
}

/// The share of lost probes in thousandths of a percent, rounded down; 0
/// before the first probe.
pub open spec fn loss_of(lost: nat, total: nat) -> nat {
    if total == 0 {
        0
    } else {
        (lost * 100 * THOUSANDTHS as nat) / total
    }
}

/// The top of the vertical axis in whole milliseconds: the largest visible
/// round-trip time, but at least the floor, with a fifth as headroom, rounded
/// up.
pub open spec fn axis_top_of(ring: Seq<Option<u64>>) -> nat {
    let peak = if present_max(ring) > AXIS_FLOOR_US as nat {
        present_max(ring)
    } else {
        AXIS_FLOOR_US as nat
    };
    ((6 * peak + 4999) / 5000) as nat
}

/// The chart's points: each visible position that carries a round-trip time,
/// with that time, in order of position. A loss leaves a gap.
pub open spec fn points_of(ring: Seq<Option<u64>>) -> Seq<(usize, u64)>
    decreases ring.len(),
{
    if ring.len() == 0 {
        Seq::empty()
    } else {
        let rest = points_of(ring.drop_last());
        match ring.last() {
            Some(v) => rest.push(((ring.len() - 1) as usize, v)),
            None => rest,
        }
    }
}

/// A ring within its capacity stays within it when one more observation is
/// applied.
pub proof fn lemma_ring_bounded(ring: Seq<Option<u64>>, rtt: Option<u64>, capacity: nat)
    requires
        capacity >= 1,
        ring.len() <= capacity,
    ensures
        Window::ring_after(ring, rtt, capacity).len() <= capacity,
        Window::ring_after(ring, rtt, capacity).len() == if ring.len() < capacity {
            ring.len() + 1
        } else {
            capacity
        },
{
}

/// The last `capacity` entries of `all`, or all of them where there are
/// fewer.
pub open spec fn latest(all: Seq<Option<u64>>, capacity: nat) -> Seq<Option<u64>> {
    if all.len() <= capacity {
        all
    } else {
        all.subrange(all.len() - capacity, all.len() as int)
    }
}

/// Whether every entry of `rtts` is a loss.
pub open spec fn all_lost(rtts: Seq<Option<u64>>) -> bool {
    forall|i: int| 0 <= i < rtts.len() ==> (#[trigger] rtts[i]).is_none()
}

/// Every observation is counted once, every loss once among the lost: after
/// a run of observations the total has grown by their number and the lost
/// count by the number of losses among them, and the last observation is the
/// run's last.
pub proof fn lemma_counters_grow(w: Window, rtts: Seq<Option<u64>>, capacity: nat)
    ensures
        w.apply_all(rtts, capacity).total == w.total + rtts.len(),
        w.apply_all(rtts, capacity).lost == w.lost + lost_in(rtts),
        lost_in(rtts) <= rtts.len(),
        rtts.len() > 0 ==> w.apply_all(rtts, capacity).last == rtts.last(),
    decreases rtts.len(),
{
    if rtts.len() > 0 {
        lemma_counters_grow(w, rtts.drop_last(), capacity);
    }
}

/// Counted from an empty window, the total is the number of observations
/// applied, and the lost count never exceeds it.
pub proof fn lemma_counters_of_run(rtts: Seq<Option<u64>>, capacity: nat)
    ensures
        Window::empty().apply_all(rtts, capacity).total == rtts.len(),
        Window::empty().apply_all(rtts, capacity).lost <= Window::empty().apply_all(
            rtts,
            capacity,
        ).total,
{
    lemma_counters_grow(Window::empty(), rtts, capacity);
}

/// The ring forgets oldest first: after a run of observations it holds the
/// latest `capacity` of what it held before followed by the run, in order of
/// arrival.
pub proof fn lemma_ring_keeps_latest(w: Window, rtts: Seq<Option<u64>>, capacity: nat)
    requires
        capacity >= 1,
        w.ring.len() <= capacity,
    ensures
        w.apply_all(rtts, capacity).ring == latest(w.ring + rtts, capacity),
    decreases rtts.len(),
{
    if rtts.len() == 0 {
        assert(w.ring + rtts =~= w.ring);
    } else {
        let head = rtts.drop_last();
        lemma_ring_keeps_latest(w, head, capacity);
        let all = w.ring + rtts;
        let most = w.ring + head;
        assert(all =~= most.push(rtts.last()));
        let kept = latest(most, capacity);
        assert(Window::ring_after(kept, rtts.last(), capacity) =~= latest(all, capacity));
    }
}

/// Once more observations than the capacity have been applied to an empty
/// window, the ring is full and holds exactly the latest `capacity` of them in
/// order of arrival; applying just those to an empty window gives the same
/// ring.
pub proof fn lemma_ring_of_long_run(rtts: Seq<Option<u64>>, capacity: nat)
    requires
        capacity >= 1,
        rtts.len() >= capacity,
    ensures
        Window::empty().apply_all(rtts, capacity).ring.len() == capacity,
        Window::empty().apply_all(rtts, capacity).ring == rtts.subrange(
            rtts.len() - capacity,
            rtts.len() as int,
        ),
        Window::empty().apply_all(latest(rtts, capacity), capacity).ring
            == Window::empty().apply_all(rtts, capacity).ring,
{
    let kept = latest(rtts, capacity);
    lemma_ring_keeps_latest(Window::empty(), rtts, capacity);
    lemma_ring_keeps_latest(Window::empty(), kept, capacity);
    assert(Window::empty().ring + rtts =~= rtts);
    assert(Window::empty().ring + kept =~= kept);
    assert(kept =~= rtts.subrange(rtts.len() - capacity, rtts.len() as int));
}

/// A ring of losses alone has no round-trip time to show: no point, no
/// mean, and the axis at its floor.
pub proof fn lemma_nothing_present(ring: Seq<Option<u64>>)
    requires
        all_lost(ring),
    ensures
        lost_in(ring) == ring.len(),
        present_count(ring) == 0,
        present_max(ring) == 0,
        points_of(ring) == Seq::<(usize, u64)>::empty(),
        mean_of(ring).is_none(),
        axis_top_of(ring) == 12,
    decreases ring.len(),
{
    if ring.len() > 0 {
        assert(ring.last().is_none());
        lemma_nothing_present(ring.drop_last());
    }
}

/// Where every probe of a run is lost, everything is counted lost: the loss
/// is the full hundred percent, the last observation is a loss, and the
/// chart is empty.
pub proof fn lemma_all_lost(rtts: Seq<Option<u64>>, capacity: nat)
    requires
        capacity >= 1,
        rtts.len() >= 1,
        all_lost(rtts),
    ensures
        ({
            let w = Window::empty().apply_all(rtts, capacity);
            &&& w.total == rtts.len()
            &&& w.lost == rtts.len()
            &&& loss_of(w.lost, w.total) == 100 * THOUSANDTHS
            &&& w.last.is_none()
            &&& points_of(w.ring) == Seq::<(usize, u64)>::empty()
            &&& mean_of(w.ring).is_none()
            &&& axis_top_of(w.ring) == 12
        }),
{
    let w = Window::empty().apply_all(rtts, capacity);
    lemma_counters_grow(Window::empty(), rtts, capacity);
    lemma_nothing_present(rtts);
    lemma_ring_keeps_latest(Window::empty(), rtts, capacity);
    assert(Window::empty().ring + rtts =~= rtts);
    assert(all_lost(w.ring));
    lemma_nothing_present(w.ring);
    let n = rtts.len();
    assert((n * 100 * 1000) / n == 100_000) by (nonlinear_arith)
        requires
            n >= 1,
    ;
}

} // verus!
