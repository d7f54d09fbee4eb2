//! The port supervisor: the one authority over whether a port is open. It
//! decides; the thread that owns the device carries out the effects it asks
//! for and hands back their outcomes.

use vstd::prelude::*;

use crate::message::{Command, Notification, PortErrorKind};

verus! {

/// Data bits per character on the line.
pub const DATA_BITS: u8 = 8;

/// Stop bits per character on the line.
pub const STOP_BITS: u8 = 1;

/// Bound on one blocking read, in milliseconds; also the reader's poll interval.
pub const READ_TIMEOUT_MS: u64 = 100;

/// Line parameters for one open request: 8 data bits, no parity, one stop
/// bit, no flow control, a bounded read timeout.
#[derive(Debug, Clone, PartialEq, Eq)]
pub struct PortSettings {
    pub name: String,
    pub baud_rate: u32,
    pub data_bits: u8,
    pub parity: bool,
    pub stop_bits: u8,
    pub flow_control: bool,
    pub read_timeout_ms: u64,
}

pub open spec fn fixed_settings(name: String, baud_rate: u32) -> PortSettings {
    PortSettings {
        name,
        baud_rate,
        data_bits: DATA_BITS,
        parity: false,
        stop_bits: STOP_BITS,
        flow_control: false,
        read_timeout_ms: READ_TIMEOUT_MS,
    }
}

/// The settings used to open `name` at `baud_rate`.
pub fn port_settings(name: String, baud_rate: u32) -> (r: PortSettings)
    ensures
        r == fixed_settings(name, baud_rate),
{
    PortSettings {
        name,
        baud_rate,
        data_bits: DATA_BITS,
        parity: false,
        stop_bits: STOP_BITS,
        flow_control: false,
        read_timeout_ms: READ_TIMEOUT_MS,
    }
}

/// Where the supervisor stands.
#[derive(Debug, Clone, Copy, PartialEq, Eq)]
pub enum Phase {
    /// No port is held and no reader runs.
    Closed,
    /// An open was asked for; its outcome is awaited.
    Opening,
    /// A port is held and its reader was started.
    Open,
    /// A write of this many bytes was asked for; its outcome is awaited.
    Writing(usize),
}

/// Something the supervisor asks its owner to do, in order.
#[derive(Debug, Clone, PartialEq, Eq)]
pub enum Effect {
    /// Signal the running reader to stop (send on, then drop, its
    /// cancellation sender).
    CancelReader,
    /// Drop the held port, closing it.
    ReleasePort,
    /// Open a port with these settings, together with the clone its reader
    /// will own, and report the outcome.
    OpenPort(PortSettings),
    /// Start a reader on the clone, with a fresh cancellation channel.
    StartReader,
    /// Write these bytes to the held port and report the outcome.
    WritePort(Vec<u8>),
    /// Hand this notification to the event relay.
    Notify(Notification),
    /// Report to the operator that an open failed; the port stays closed.
    OpenFailed(PortErrorKind),
    /// Report to the operator that a write failed; nothing is counted.
    WriteFailed(PortErrorKind),
}

/// What the supervisor reacts to: a command, or the outcome of an effect.
#[derive(Debug, PartialEq, Eq)]
pub enum Input {
    Command(Command),
    /// The outcome of `Effect::OpenPort`.
    Opened(Result<(), PortErrorKind>),
    /// The outcome of `Effect::WritePort`.
    Written(Result<(), PortErrorKind>),
}

/// A port is held, with its reader started.
pub open spec fn holds_port(p: Phase) -> bool {
    p is Open || p is Writing
}

/// The supervisor's transition: its next phase and the effects to carry
/// out. An input that does not fit the phase (a command while an outcome is
/// awaited, an outcome nobody asked for) changes nothing.
pub open spec fn step(p: Phase, input: Input) -> (Phase, Seq<Effect>) {
    match input {
        Input::Command(Command::Open(name, baud)) => {
            if p is Closed {
                (Phase::Opening, seq![Effect::OpenPort(fixed_settings(name, baud))])
            } else if p is Open {
                (
                    Phase::Opening,
                    seq![
                        Effect::CancelReader,
                        Effect::ReleasePort,
                        Effect::OpenPort(fixed_settings(name, baud)),
                    ],
                )
            } else {
                (p, seq![])
            }
        },
        Input::Command(Command::Close) => {
            if p is Open {
                (Phase::Closed, seq![Effect::CancelReader, Effect::ReleasePort])
            } else {
                (p, seq![])
            }
        },
        Input::Command(Command::Send(bytes)) => {
            if p is Open {
                (Phase::Writing(bytes.len()), seq![Effect::WritePort(bytes)])
            } else {
                (p, seq![])
            }
        },
        Input::Opened(outcome) => {
            if p is Opening {
                match outcome {
                    Ok(()) => (Phase::Open, seq![Effect::StartReader]),
                    Err(k) => (Phase::Closed, seq![Effect::OpenFailed(k)]),
                }
            } else {
                (p, seq![])
            }
        },
        Input::Written(outcome) => {
            match p {
                Phase::Writing(n) => match outcome {
                    Ok(()) => (Phase::Open, seq![Effect::Notify(Notification::SendCompleted(n))]),
                    Err(k) => (Phase::Open, seq![Effect::WriteFailed(k)]),
                },
                _ => (p, seq![]),
            }
        },
    }
}

/// How many readers are alive after the effects `e`, from `live` alive before.
pub open spec fn live_after(live: nat, e: Seq<Effect>) -> nat
    decreases e.len(),
{
    if e.len() == 0 {
        live
    } else {
        let l = live_after(live, e.drop_last());
        match e.last() {
            Effect::StartReader => l + 1,
            Effect::CancelReader => if l > 0 {
                (l - 1) as nat
            } else {
                0
            },
            _ => l,
        }
    }
}

/// No effect of `e` starts a reader while another is alive.
pub open spec fn exclusive(live: nat, e: Seq<Effect>) -> bool
    decreases e.len(),
{
    if e.len() == 0 {
        true
    } else {
        exclusive(live, e.drop_last()) && (e.last() is StartReader ==> live_after(
            live,
            e.drop_last(),
        ) == 0)
    }
}

/// The readers alive, as far as the supervisor has not cancelled them, in phase `p`.
pub open spec fn readers_in(p: Phase) -> nat {
    if holds_port(p) {
        1
    } else {
        0
    }
}

/// The phase reached and the effects asked for, over a sequence of inputs.
pub open spec fn run(p: Phase, inputs: Seq<Input>) -> (Phase, Seq<Effect>)
    decreases inputs.len(),
{
    if inputs.len() == 0 {
        (p, seq![])
    } else {
        let (q, e) = run(p, inputs.drop_last());
        let (r, f) = step(q, inputs.last());
        (r, e + f)
    }
}

proof fn lemma_effects_concat(live: nat, a: Seq<Effect>, b: Seq<Effect>)
    ensures
        live_after(live, a + b) == live_after(live_after(live, a), b),
        exclusive(live, a + b) == (exclusive(live, a) && exclusive(live_after(live, a), b)),
    decreases b.len(),
{
    if b.len() == 0 {
        assert(a + b =~= a);
    } else {
        assert((a + b).drop_last() =~= a + b.drop_last());
        lemma_effects_concat(live, a, b.drop_last());
    }
}

proof fn lemma_step_exclusive(p: Phase, input: Input)
    ensures
        exclusive(readers_in(p), step(p, input).1),
        live_after(readers_in(p), step(p, input).1) == readers_in(step(p, input).0),
{
    let e = step(p, input).1;
    reveal_with_fuel(live_after, 4);
    reveal_with_fuel(exclusive, 4);
    if e.len() == 3 {
        assert(e.drop_last().drop_last().drop_last() =~= seq![]);
        assert(e.drop_last().drop_last() =~= seq![Effect::CancelReader]);
    } else if e.len() == 2 {
        assert(e.drop_last().drop_last() =~= seq![]);
        assert(e.drop_last() =~= seq![Effect::CancelReader]);
    } else if e.len() == 1 {
        assert(e.drop_last() =~= seq![]);
    }
}

/// Over any sequence of inputs (opens, closes, sends and their outcomes),
/// the supervisor never starts a reader while another one it started is
/// still alive: at every instant at most one reader holds the device.
pub proof fn lemma_one_reader_at_a_time(p: Phase, inputs: Seq<Input>)
    requires
        readers_in(p) <= 1,
    ensures
        exclusive(readers_in(p), run(p, inputs).1),
        live_after(readers_in(p), run(p, inputs).1) == readers_in(run(p, inputs).0),
        readers_in(run(p, inputs).0) <= 1,
    decreases inputs.len(),
{
    if inputs.len() > 0 {
        let (q, e) = run(p, inputs.drop_last());
        lemma_one_reader_at_a_time(p, inputs.drop_last());
        lemma_step_exclusive(q, inputs.last());
        lemma_effects_concat(readers_in(p), e, step(q, inputs.last()).1);
    }
}

/// A `Close`, or an `Open` that supersedes a held port, cancels the running
/// reader before it does anything else.
pub proof fn lemma_cancel_comes_first(p: Phase, c: Command)
    requires
        holds_port(p),
        c is Close || c is Open,
        step(p, Input::Command(c)).1.len() > 0,
    ensures
        step(p, Input::Command(c)).1[0] == Effect::CancelReader,
        live_after(1, step(p, Input::Command(c)).1) == 0,
{
    lemma_step_exclusive(p, Input::Command(c));
}

/// A `Send` while no port is held does nothing at all.
pub proof fn lemma_send_while_closed_is_noop(p: Phase, bytes: Vec<u8>)
    requires
        !holds_port(p),
    ensures
        step(p, Input::Command(Command::Send(bytes))) == (p, Seq::<Effect>::empty()),
{
}

/// The port supervisor's state.
pub struct Supervisor {
    phase: Phase,
}

impl Supervisor {
    pub closed spec fn spec_phase(&self) -> Phase {
        self.phase
    }

    /// A supervisor with no port open.
    pub fn new() -> (r: Supervisor)
        ensures
            r.spec_phase() == Phase::Closed,
    {
        Supervisor { phase: Phase::Closed }
    }

    pub fn phase(&self) -> (r: Phase)
        ensures
            r == self.spec_phase(),
    {
        self.phase
    }

    /// Whether a port is held.
    pub fn is_open(&self) -> (r: bool)
        ensures
            r == holds_port(self.spec_phase()),
    {
        match self.phase {
            Phase::Open | Phase::Writing(_) => true,
            _ => false,
        }
    }

    /// Reacts to one input: moves to the next phase and returns the effects
    /// to carry out, in order.
    pub fn handle(&mut self, input: Input) -> (effects: Vec<Effect>)
        ensures
            (final(self).spec_phase(), effects@) == step(old(self).spec_phase(), input),
    {
        let ghost expected = step(self.phase, input);
        let mut effects: Vec<Effect> = Vec::new();
        match input {
            Input::Command(Command::Open(name, baud)) => {
                match self.phase {
                    Phase::Closed => {
                        effects.push(Effect::OpenPort(port_settings(name, baud)));
                        self.phase = Phase::Opening;
                    },
                    Phase::Open => {
                        effects.push(Effect::CancelReader);
                        effects.push(Effect::ReleasePort);
                        effects.push(Effect::OpenPort(port_settings(name, baud)));
                        self.phase = Phase::Opening;
                    },
                    _ => {},
                }
            },
            Input::Command(Command::Close) => {
                if let Phase::Open = self.phase {
                    effects.push(Effect::CancelReader);
                    effects.push(Effect::ReleasePort);
                    self.phase = Phase::Closed;
                }
            },
            Input::Command(Command::Send(bytes)) => {
                if let Phase::Open = self.phase {
                    self.phase = Phase::Writing(bytes.len());
                    effects.push(Effect::WritePort(bytes));
                }
            },
            Input::Opened(outcome) => {
                if let Phase::Opening = self.phase {
                    match outcome {
                        Ok(()) => {
                            effects.push(Effect::StartReader);
                            self.phase = Phase::Open;
                        },
                        Err(k) => {
                            effects.push(Effect::OpenFailed(k));
                            self.phase = Phase::Closed;
                        },
                    }
                }
            },
            Input::Written(outcome) => {
                if let Phase::Writing(n) = self.phase {
                    match outcome {
                        Ok(()) => effects.push(Effect::Notify(Notification::SendCompleted(n))),
                        Err(k) => effects.push(Effect::WriteFailed(k)),
                    }
                    self.phase = Phase::Open;
                }
            },
        }
        assert(effects@ =~= expected.1);
        effects
    }
}

} // verus!
