//! The sampling side: what one probe yields, and the state machine that paces
//! the probes, numbers their outcomes and hands them on.
//!
//! The machine does no work of its own. Its driver performs each `Action`
//! (run the prober, send the sample, sleep) and reports back with the `Event`
//! that the work ended in.

use vstd::prelude::*;
use crate::report::{parse_rtt, rtt_in_text};

verus! {

/// One probe's outcome: its number in the run, and the round-trip time in
/// microseconds, or `None` for a probe that timed out, was lost or failed.
#[derive(Debug, Clone, Copy, PartialEq, Eq)]
pub struct PingSample {
    pub seq: u64,
    pub rtt_us: Option<u64>,
}

/// Whom to probe, how often, and how long to wait for an answer.
#[derive(Debug, Clone)]
pub struct PingConfig {
    pub host: String,
    pub interval_ms: u64,
    pub timeout_ms: u64,
}

/// Where the sampling loop stands.
#[derive(Debug, Clone, Copy, PartialEq, Eq)]
pub enum Phase {
    /// Not started yet.
    Idle,
    /// A probe is under way.
    Probing,
    /// The probe's sample is being handed to the channel.
    Sending,
    /// The rest of the interval is being slept out.
    Waiting,
    /// The consumer is gone; nothing more will be probed.
    Stopped,
}

/// What the prober backend came back with.
#[derive(Debug)]
pub enum ProbeReport {
    /// The backend could not be run at all.
    Failed,
    /// The backend ran and ended, successfully or not, with this output.
    Exited { success: bool, output: Vec<u8> },
}

/// What the driver reports to the machine.
#[derive(Debug)]
pub enum Event {
    /// The loop is to begin.
    Started,
    /// The probe that was asked for has ended.
    Probed(ProbeReport),
    /// The send that was asked for has ended: `accepted` tells whether the
    /// channel took the sample, `elapsed_ms` how long the cycle has run so far.
    Sent { accepted: bool, elapsed_ms: u64 },
    /// The sleep that was asked for is over.
    Woke,
}

/// What the machine asks of its driver.
#[derive(Debug, Clone, Copy, PartialEq, Eq)]
pub enum Action {
    /// Probe the host once, waiting at most this many seconds.
    Probe { timeout_secs: u64 },
    /// Send this sample on the channel, waiting while the channel is full.
    Send(PingSample),
    /// Sleep this many milliseconds.
    Sleep { ms: u64 },
    /// End the loop.
    Stop,
}

/// The round-trip time that a report stands for. A backend that could not be
/// run, one that ended in failure, and output without a readable round-trip
/// time all mean "no response".
pub open spec fn outcome_of(report: ProbeReport) -> Option<u64> {
    match report {
        ProbeReport::Failed => None,
        ProbeReport::Exited { success, output } => if success {
            rtt_in_text(output@)
        } else {
            None
        },
    }
}

/// The probe timeout handed to the backend: the configured milliseconds
/// rounded up to whole seconds, and at least one second.
pub open spec fn timeout_secs_of(timeout_ms: u64) -> u64 {
    if timeout_ms == 0 {
        1
    } else {
        ((timeout_ms + 999) / 1000) as u64
    }
}

/// The sampling loop as a value: its settings, the number of the last sample
/// it made, and its phase.
pub ghost struct Sampler {
    pub host: Seq<char>,
    pub interval_ms: u64,
    pub timeout_ms: u64,
    pub seq: u64,
    pub phase: Phase,
}

impl Sampler {
    /// The same loop in another phase.
    pub open spec fn at(self, phase: Phase) -> Sampler {
        Sampler { phase, ..self }
    }

    /// The request for the next probe.
    pub open spec fn probe(self) -> Action {
        Action::Probe { timeout_secs: timeout_secs_of(self.timeout_ms) }
    }

    /// The loop's answer to an event: the state it moves to and what it asks
    /// for, or `None` for an event that the phase does not await.
    ///
    /// A started loop probes. A finished probe, whatever its outcome, makes
    /// the next sample, which is sent. A sample that the channel refused ends
    /// the loop. After one that it took, the loop sleeps out what is left of
    /// the interval, or probes again at once where nothing is left.
    pub open spec fn next(self, event: Event) -> Option<(Sampler, Action)> {
        match (self.phase, event) {
            (Phase::Idle, Event::Started) => Some((self.at(Phase::Probing), self.probe())),
            (Phase::Probing, Event::Probed(report)) => {
                let seq = (self.seq + 1) as u64;
                Some(
                    (
                        Sampler { seq, phase: Phase::Sending, ..self },
                        Action::Send(PingSample { seq, rtt_us: outcome_of(report) }),
                    ),
                )
            },
            (Phase::Sending, Event::Sent { accepted, elapsed_ms }) => if !accepted {
                Some((self.at(Phase::Stopped), Action::Stop))
            } else if elapsed_ms < self.interval_ms {
                Some(
                    (
                        self.at(Phase::Waiting),
                        Action::Sleep { ms: (self.interval_ms - elapsed_ms) as u64 },
                    ),
                )
            } else {
                Some((self.at(Phase::Probing), self.probe()))
            },
            (Phase::Waiting, Event::Woke) => Some((self.at(Phase::Probing), self.probe())),
            _ => None,
        }
    }

    /// Whether `event` would make the loop number a sample.
    pub open spec fn numbers(self, event: Event) -> bool {
        self.phase is Probing && event is Probed
    }

    /// The loop after a run of events, each answered in turn; an event that
    /// the phase does not await changes nothing.
    pub open spec fn after(self, events: Seq<Event>) -> Sampler
        decreases events.len(),
    {
        if events.len() == 0 {
            self
        } else {
            let before = self.after(events.drop_last());
            match before.next(events.last()) {
                Some((sampler, _)) => sampler,
                None => before,
            }
        }
    }

    /// The samples that the loop asks to send over a run of events, in
    /// order.
    pub open spec fn sent(self, events: Seq<Event>) -> Seq<PingSample>
        decreases events.len(),
    {
        if events.len() == 0 {
            Seq::empty()
        } else {
            let before = self.after(events.drop_last());
            let earlier = self.sent(events.drop_last());
            match before.next(events.last()) {
                Some((_, Action::Send(sample))) => earlier.push(sample),
                _ => earlier,
            }
        }
    }
}

/// Samples are numbered in the order they are made, without gaps or
/// repeats, whatever the probes came back with: over any run of events the
/// samples sent carry the numbers that follow the loop's last one, one by
/// one, and the loop remembers the last it gave.
pub proof fn lemma_sequence_numbers(s: Sampler, events: Seq<Event>)
    requires
        s.seq + events.len() <= u64::MAX,
    ensures
        s.sent(events).len() <= events.len(),
        s.after(events).seq == s.seq + s.sent(events).len(),
        forall|i: int|
            0 <= i < s.sent(events).len() ==> (#[trigger] s.sent(events)[i]).seq == s.seq + i + 1,
    decreases events.len(),
{
    if events.len() > 0 {
        lemma_sequence_numbers(s, events.drop_last());
    }
}

/// A loop that has not numbered a sample yet numbers its samples 1, 2, 3 and
/// so on.
pub proof fn lemma_numbers_from_one(s: Sampler, events: Seq<Event>)
    requires
        s.seq == 0,
        events.len() <= u64::MAX,
    ensures
        forall|i: int|
            0 <= i < s.sent(events).len() ==> (#[trigger] s.sent(events)[i]).seq == i + 1,
{
    lemma_sequence_numbers(s, events);
}

impl ProbeReport {
    /// The round-trip time that this report stands for.
    pub fn outcome(&self) -> (rtt: Option<u64>)
        ensures
            rtt == outcome_of(*self),
    {
        match self {
            ProbeReport::Failed => None,
            ProbeReport::Exited { success, output } => {
                if *success {
                    parse_rtt(output.as_slice())
                } else {
                    None
                }
            },
        }
    }
}

/// The sampling loop's state.
pub struct Pinger {
    cfg: PingConfig,
    seq: u64,
    phase: Phase,
}

impl View for Pinger {
    type V = Sampler;

    closed spec fn view(&self) -> Sampler {
        Sampler {
            host: self.cfg.host@,
            interval_ms: self.cfg.interval_ms,
            timeout_ms: self.cfg.timeout_ms,
            seq: self.seq,
            phase: self.phase,
        }
    }
}

impl Pinger {
    /// A loop that has not started and has numbered no sample.
    pub fn new(cfg: PingConfig) -> (pinger: Self)
        ensures
            pinger@ == (Sampler {
                host: cfg.host@,
                interval_ms: cfg.interval_ms,
                timeout_ms: cfg.timeout_ms,
                seq: 0,
                phase: Phase::Idle,
            }),
    {
        Pinger { cfg, seq: 0, phase: Phase::Idle }
    }

    /// The host to probe.
    pub fn host(&self) -> (host: &String)
        ensures
            host@ == self@.host,
    {
        &self.cfg.host
    }

    /// The number of the last sample made, 0 before the first.
    pub fn seq(&self) -> (seq: u64)
        ensures
            seq == self@.seq,
    {
        self.seq
    }

    /// The phase the loop is in.
    pub fn phase(&self) -> (phase: Phase)
        ensures
            phase == self@.phase,
    {
        self.phase
    }

    /// The probe timeout in whole seconds.
    pub fn timeout_secs(&self) -> (secs: u64)
        ensures
            secs == timeout_secs_of(self@.timeout_ms),
            secs >= 1,
    {
        let ms: u64 = self.cfg.timeout_ms;
        if ms == 0 {
            1
        } else if ms % 1000 == 0 {
            ms / 1000
        } else {
            ms / 1000 + 1
        }
    }

    /// Whether the next sample can still be numbered.
    pub fn can_number(&self) -> (ok: bool)
        ensures
            ok == (self@.seq < u64::MAX),
    {
        self.seq < u64::MAX
    }

    /// Takes one event and answers with what to do next; `None`, and no
    /// change, for an event that the phase does not await.
    pub fn step(&mut self, event: Event) -> (action: Option<Action>)
        requires
            old(self)@.numbers(event) ==> old(self)@.seq < u64::MAX,
        ensures
            match old(self)@.next(event) {
                Some((sampler, asked)) => final(self)@ == sampler && action == Some(asked),
                None => final(self)@ == old(self)@ && action.is_none(),
            },
    {
        match self.phase {
            Phase::Idle => match event {
                Event::Started => {
                    self.phase = Phase::Probing;
                    Some(Action::Probe { timeout_secs: self.timeout_secs() })
                },
                _ => None,
            },
            Phase::Probing => match event {
                Event::Probed(report) => {
                    let rtt_us = report.outcome();
                    self.seq = self.seq + 1;
                    self.phase = Phase::Sending;
                    Some(Action::Send(PingSample { seq: self.seq, rtt_us }))
                },
                _ => None,
            },
            Phase::Sending => match event {
                Event::Sent { accepted, elapsed_ms } => {
                    if !accepted {
                        self.phase = Phase::Stopped;
                        Some(Action::Stop)
                    } else if elapsed_ms < self.cfg.interval_ms {
                        self.phase = Phase::Waiting;
                        Some(Action::Sleep { ms: self.cfg.interval_ms - elapsed_ms })
                    } else {
                        self.phase = Phase::Probing;
                        Some(Action::Probe { timeout_secs: self.timeout_secs() })
                    }
                },
                _ => None,
            },
            Phase::Waiting => match event {
                Event::Woke => {
                    self.phase = Phase::Probing;
                    Some(Action::Probe { timeout_secs: self.timeout_secs() })
                },
                _ => None,
            },
            Phase::Stopped => None,
        }
    }
}

} // verus!
