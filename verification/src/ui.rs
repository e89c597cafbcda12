//! The dashboard side: the history window, what is drawn from it, and the
//! decisions of the dashboard loop (which key ends it, what a tick takes from
//! the channel, what the next frame shows).

use vstd::prelude::*;
use std::collections::VecDeque;
use tokio::sync::mpsc::Receiver;
use crate::channel::try_next;
use crate::pinger::PingSample;
use crate::window::{
    axis_top_of, loss_of, mean_of, points_of, present_count, present_max, present_sum, Window,
    lemma_ring_bounded, AXIS_FLOOR_US, THOUSANDTHS,
};

verus! {

/// What the dashboard is set up with: the host it names, and how many
/// observations the window keeps, which is also the chart's width.
pub struct UiConfig {
    pub host: String,
    pub history: usize,
}

/// The rolling history of round-trip times with the counters of the whole run.
pub struct UiState {
    rtts: VecDeque<Option<u64>>,
    total: u64,
    lost: u64,
    last: Option<u64>,
}

impl View for UiState {
    type V = Window;

    closed spec fn view(&self) -> Window {
        Window {
            ring: self.rtts@,
            total: self.total as nat,
            lost: self.lost as nat,
            last: self.last,
        }
    }
}

impl UiState {
    #[verifier::type_invariant]
    spec fn counted(&self) -> bool {
        self.lost <= self.total
    }

    /// An empty window with room set aside for `history` entries.
    pub fn new(history: usize) -> (state: Self)
        ensures
            state@ == Window::empty(),
    {
        UiState { rtts: VecDeque::with_capacity(history), total: 0, lost: 0, last: None }
    }

    /// Records one observation: counts it, remembers it as the last one, and
    /// appends it to the ring, which first gives up its oldest entry where it
    /// already holds `history` of them.
    pub fn push(&mut self, rtt: Option<u64>, history: usize)
        requires
            old(self)@.total < u64::MAX,
        ensures
            final(self)@ == old(self)@.apply(rtt, history as nat),
    {
        proof {
            use_type_invariant(&*self);
        }
        self.total += 1;
        if rtt.is_none() {
            self.lost += 1;
        }
        self.last = rtt;
        let mut ring: VecDeque<Option<u64>> = VecDeque::new();
        std::mem::swap(&mut ring, &mut self.rtts);
        if ring.len() == history {
            ring.pop_front();
        }
        ring.push_back(rtt);
        self.rtts = ring;
    }

    /// How many probes were recorded over the whole run.
    pub fn total(&self) -> (total: u64)
        ensures
            total == self@.total,
    {
        self.total
    }

    /// How many of the recorded probes were lost; never more than `total`.
    pub fn lost(&self) -> (lost: u64)
        ensures
            lost == self@.lost,
            lost <= self@.total,
    {
        proof {
            use_type_invariant(self);
        }
        self.lost
    }

    /// The round-trip time of the probe recorded last, `None` if it was lost
    /// or none was recorded yet.
    pub fn last(&self) -> (last: Option<u64>)
        ensures
            last == self@.last,
    {
        self.last
    }

    /// How many observations are visible.
    pub fn len(&self) -> (len: usize)
        ensures
            len == self@.ring.len(),
    {
        self.rtts.len()
    }

    /// The visible observation at place `i`, counted from the oldest.
    pub fn get(&self, i: usize) -> (rtt: Option<Option<u64>>)
        ensures
            rtt == if i < self@.ring.len() {
                Some(self@.ring[i as int])
            } else {
                None
            },
    {
        if i < self.rtts.len() {
            Some(self.rtts[i])
        } else {
            None
        }
    }

    /// The chart's points: place and round-trip time of each visible
    /// observation that has one. A loss is left out, so that the line shows a
    /// gap there.
    pub fn points(&self) -> (points: Vec<(usize, u64)>)
        ensures
            points@ == points_of(self@.ring),
    {
        let n: usize = self.rtts.len();
        let mut points: Vec<(usize, u64)> = Vec::new();
        let mut i: usize = 0;
        while i < n
            invariant
                n == self.rtts@.len(),
                i <= n,
                points@ == points_of(self.rtts@.take(i as int)),
            decreases n - i,
        {
            proof {
                assert(self.rtts@.take(i + 1).drop_last() =~= self.rtts@.take(i as int));
            }
            if let Some(v) = self.rtts[i] {
                points.push((i, v));
            }
            i = i + 1;
        }
        proof {
            assert(self.rtts@.take(n as int) =~= self.rtts@);
        }
        points
    }

    /// The mean round-trip time over the visible entries that carry one, in
    /// whole microseconds, rounded down. Losses are left out, not counted as
    /// zero; where every visible entry is a loss there is no mean.
    pub fn avg(&self) -> (mean: Option<u64>)
        ensures
            mean_of(self@.ring) == match mean {
                Some(v) => Some(v as nat),
                None => None::<nat>,
            },
    {
        let n: usize = self.rtts.len();
        let mut sum: u128 = 0;
        let mut cnt: u64 = 0;
        let mut i: usize = 0;
        while i < n
            invariant
                n == self.rtts@.len(),
                i <= n,
                cnt <= i,
                cnt == present_count(self.rtts@.take(i as int)),
                sum == present_sum(self.rtts@.take(i as int)),
                sum <= cnt * u64::MAX,
            decreases n - i,
        {
            proof {
                assert(self.rtts@.take(i + 1).drop_last() =~= self.rtts@.take(i as int));
            }
            if let Some(v) = self.rtts[i] {
                sum = sum + v as u128;
                cnt = cnt + 1;
            }
            i = i + 1;
        }
        proof {
            assert(self.rtts@.take(n as int) =~= self.rtts@);
        }
        if cnt == 0 {
            None
        } else {
            let mean: u128 = sum / (cnt as u128);
            proof {
                lemma_mean_bounded(sum as nat, cnt as nat, u64::MAX as nat);
            }
            Some(mean as u64)
        }
    }

    /// The share of lost probes over the whole run, in thousandths of a
    /// percent, rounded down; 0 before the first probe.
    pub fn loss_pct(&self) -> (loss: u64)
        ensures
            loss == loss_of(self@.lost, self@.total),
            loss <= 100 * THOUSANDTHS,
    {
        proof {
            use_type_invariant(self);
        }
        if self.total == 0 {
            0
        } else {
            let scaled: u128 = (self.lost as u128) * 100_000;
            let loss: u128 = scaled / (self.total as u128);
            proof {
                lemma_share_bounded(self.lost as nat, self.total as nat, 100_000);
            }
            loss as u64
        }
    }

    /// The top of the chart's vertical axis in whole milliseconds.
    pub fn y_max(&self) -> (top: u64)
        ensures
            top == axis_top_of(self@.ring),
            top >= 12,
    {
        let n: usize = self.rtts.len();
        let mut peak: u64 = AXIS_FLOOR_US;
        let mut i: usize = 0;
        while i < n
            invariant
                n == self.rtts@.len(),
                i <= n,
                peak >= AXIS_FLOOR_US,
                peak == if present_max(self.rtts@.take(i as int)) > AXIS_FLOOR_US {
                    present_max(self.rtts@.take(i as int))
                } else {
                    AXIS_FLOOR_US as nat
                },
            decreases n - i,
        {
            proof {
                assert(self.rtts@.take(i + 1).drop_last() =~= self.rtts@.take(i as int));
            }
            if let Some(v) = self.rtts[i] {
                if v > peak {
                    peak = v;
                }
            }
            i = i + 1;
        }
        proof {
            assert(self.rtts@.take(n as int) =~= self.rtts@);
        }
        let top: u128 = (6 * (peak as u128) + 4999) / 5000;
        top as u64
    }
}

/// A quotient is no larger than the bound on each of the divisor's parts.
proof fn lemma_mean_bounded(sum: nat, cnt: nat, bound: nat)
    requires
        cnt > 0,
        sum <= cnt * bound,
    ensures
        sum / cnt <= bound,
{
    assert(sum / cnt <= bound) by (nonlinear_arith)
        requires
            cnt > 0,
            sum <= cnt * bound,
    ;
}

/// A part scaled and divided by the whole is no larger than the scale.
proof fn lemma_share_bounded(part: nat, whole: nat, scale: nat)
    requires
        whole > 0,
        part <= whole,
    ensures
        (part * scale) / whole <= scale,
{
    assert((part * scale) / whole <= scale) by (nonlinear_arith)
        requires
            whole > 0,
            part <= whole,
    ;
}

/// A key of the keyboard, as far as the dashboard tells keys apart.
#[derive(Debug, Clone, Copy, PartialEq, Eq)]
pub enum Key {
    Char(char),
    Esc,
    Other,
}

/// One key press: the key, and whether Control was held.
#[derive(Debug, Clone, Copy, PartialEq, Eq)]
pub struct KeyPress {
    pub key: Key,
    pub ctrl: bool,
}

/// Whether a key press ends the dashboard: `q`, Escape, or Control with `c`.
pub open spec fn quits(press: KeyPress) -> bool {
    press.key == Key::Char('q') || press.key == Key::Esc || (press.key == Key::Char('c')
        && press.ctrl)
}

impl KeyPress {
    /// Whether this key press ends the dashboard.
    pub fn is_quit(&self) -> (quit: bool)
        ensures
            quit == quits(*self),
    {
        match self.key {
            Key::Char(c) => c == 'q' || (c == 'c' && self.ctrl),
            Key::Esc => true,
            Key::Other => false,
        }
    }
}

/// The rows of the header band, borders included.
pub const HEADER_ROWS: u16 = 3;

/// The rows of the footer band, borders included.
pub const FOOTER_ROWS: u16 = 2;

/// Everything one redraw shows, as plain values: the header's host, the
/// chart's points and axis bounds, and the footer's three figures.
#[derive(Debug, PartialEq, Eq)]
pub struct Frame {
    /// The host named in the header.
    pub host: String,
    /// The chart's points: place in the window and microseconds.
    pub points: Vec<(usize, u64)>,
    /// The right end of the horizontal axis: the window's capacity.
    pub x_max: usize,
    /// The label in the middle of the horizontal axis.
    pub x_mid: usize,
    /// The top of the vertical axis in whole milliseconds.
    pub y_max: u64,
    /// The last round-trip time in microseconds; `None` reads "timeout".
    pub last: Option<u64>,
    /// The windowed mean in microseconds; `None` where there is none.
    pub avg: Option<u64>,
    /// The loss over the run in thousandths of a percent.
    pub loss: u64,
}

/// The dashboard: its settings and its history window, which never holds
/// more than the configured number of observations.
pub struct Ui {
    cfg: UiConfig,
    state: UiState,
}

impl View for Ui {
    type V = Window;

    closed spec fn view(&self) -> Window {
        self.state@
    }
}

impl Ui {
    #[verifier::type_invariant]
    spec fn bounded(&self) -> bool {
        self.cfg.history >= 1 && self.state@.ring.len() <= self.cfg.history
    }

    /// The window's capacity.
    pub closed spec fn capacity(&self) -> nat {
        self.cfg.history as nat
    }

    /// The host named in the header.
    pub closed spec fn host(&self) -> Seq<char> {
        self.cfg.host@
    }

    /// Whether a frame shows `ui` as it stands.
    pub open spec fn shown_by(&self, frame: Frame) -> bool {
        &&& frame.host@ == self.host()
        &&& frame.points@ == points_of(self@.ring)
        &&& frame.x_max == self.capacity()
        &&& frame.x_mid == self.capacity() / 2
        &&& frame.y_max == axis_top_of(self@.ring)
        &&& frame.last == self@.last
        &&& mean_of(self@.ring) == match frame.avg {
            Some(v) => Some(v as nat),
            None => None::<nat>,
        }
        &&& frame.loss == loss_of(self@.lost, self@.total)
    }

    /// A dashboard with an empty window of `cfg.history` places.
    pub fn new(cfg: UiConfig) -> (ui: Self)
        requires
            cfg.history >= 1,
        ensures
            ui@ == Window::empty(),
            ui.capacity() == cfg.history,
            ui.host() == cfg.host@,
    {
        Ui { state: UiState::new(cfg.history), cfg }
    }

    /// The dashboard's window, for reading.
    pub fn state(&self) -> (state: &UiState)
        ensures
            state@ == self@,
            state@.ring.len() <= self.capacity(),
    {
        proof {
            use_type_invariant(self);
        }
        &self.state
    }

    /// The window's capacity.
    pub fn history(&self) -> (history: usize)
        ensures
            history == self.capacity(),
            history >= 1,
    {
        proof {
            use_type_invariant(self);
        }
        self.cfg.history
    }

    /// Whether one more sample can still be counted.
    pub fn has_room(&self) -> (ok: bool)
        ensures
            ok == (self@.total < u64::MAX),
    {
        self.state.total() < u64::MAX
    }

    /// Applies one sample to the window.
    pub fn push(&mut self, s: &PingSample)
        requires
            old(self)@.total < u64::MAX,
        ensures
            final(self)@ == old(self)@.apply(s.rtt_us, old(self).capacity()),
            final(self)@.ring.len() <= final(self).capacity(),
            final(self).capacity() == old(self).capacity(),
            final(self).host() == old(self).host(),
    {
        proof {
            use_type_invariant(&*self);
            lemma_ring_bounded(self@.ring, s.rtt_us, self.capacity());
        }
        let mut state = UiState::new(0);
        std::mem::swap(&mut state, &mut self.state);
        state.push(s.rtt_us, self.cfg.history);
        self.state = state;
    }

    /// Takes from the channel every sample that is there now, without
    /// waiting, and applies each to the window in the order of arrival.
    /// Returns how many it took. It leaves the rest in the channel only where
    /// the run's counter has reached the largest number it can hold.
    pub fn drain(&mut self, rx: &mut Receiver<PingSample>) -> (taken: u64)
        ensures
            exists|rtts: Seq<Option<u64>>|
                rtts.len() == taken && final(self)@ == #[trigger] old(self)@.apply_all(
                    rtts,
                    old(self).capacity(),
                ),
            final(self)@.total == old(self)@.total + taken,
            final(self)@.ring.len() <= final(self).capacity(),
            final(self).capacity() == old(self).capacity(),
            final(self).host() == old(self).host(),
    {
        proof {
            use_type_invariant(&*self);
        }
        let history: usize = self.cfg.history;
        let mut state = UiState::new(0);
        std::mem::swap(&mut state, &mut self.state);
        let ghost before = state@;
        let ghost mut got: Seq<Option<u64>> = Seq::empty();
        let mut taken: u64 = 0;
        while state.total() < u64::MAX
            invariant
                history >= 1,
                got.len() == taken,
                state@ == before.apply_all(got, history as nat),
                state@.total == before.total + taken,
                state@.ring.len() <= history,
            decreases u64::MAX - state@.total,
        {
            match try_next(rx) {
                None => {
                    break ;
                },
                Some(s) => {
                    proof {
                        lemma_ring_bounded(state@.ring, s.rtt_us, history as nat);
                        assert(got.push(s.rtt_us).drop_last() =~= got);
                        got = got.push(s.rtt_us);
                    }
                    state.push(s.rtt_us, history);
                    taken = taken + 1;
                },
            }
        }
        self.state = state;
        proof {
            assert(before == old(self)@);
            assert(got.len() == taken && self@ == old(self)@.apply_all(got, old(self).capacity()));
        }
        taken
    }

    /// What to draw for the dashboard as it stands.
    pub fn frame(&self) -> (frame: Frame)
        ensures
            self.shown_by(frame),
    {
        Frame {
            host: self.cfg.host.clone(),
            points: self.state.points(),
            x_max: self.cfg.history,
            x_mid: self.cfg.history / 2,
            y_max: self.state.y_max(),
            last: self.state.last(),
            avg: self.state.avg(),
            loss: self.state.loss_pct(),
        }
    }

    /// One turn of the dashboard loop behind the key poll: drains the
    /// channel, then says what to draw.
    pub fn tick(&mut self, rx: &mut Receiver<PingSample>) -> (frame: Frame)
        ensures
            exists|rtts: Seq<Option<u64>>|
                final(self)@ == #[trigger] old(self)@.apply_all(rtts, old(self).capacity()),
            final(self).shown_by(frame),
            final(self).capacity() == old(self).capacity(),
            final(self).host() == old(self).host(),
    {
        self.drain(rx);
        self.frame()
    }
}

} // verus!
