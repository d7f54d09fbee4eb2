//! The reader task's protocol: poll the device, forward what was read or
//! report its loss, then look for a cancellation request; stop on either.

use vstd::prelude::*;

use crate::message::{Notification, PortErrorKind};

verus! {

/// Largest number of bytes taken from the device in one read.
pub const READ_CHUNK: usize = 100;

/// Pause after a poll that found nothing, in milliseconds.
pub const IDLE_POLL_MS: u64 = 10;

/// What one poll of the device gave.
#[derive(Debug, Clone, PartialEq, Eq)]
pub enum ReadOutcome {
    /// No byte was waiting.
    Idle,
    /// These bytes were read.
    Data(Vec<u8>),
    /// Polling or reading failed: the device is gone.
    Failed(PortErrorKind),
}

/// What the reader task reacts to, alternately.
#[derive(Debug, Clone, PartialEq, Eq)]
pub enum ReaderEvent {
    /// The outcome of one poll (and read) of the device.
    Polled(ReadOutcome),
    /// Whether the cancellation channel, looked at without blocking, holds
    /// a request (or was dropped).
    Checked(bool),
}

/// Where the reader task stands.
#[derive(Debug, Clone, Copy, PartialEq, Eq)]
pub enum ReaderPhase {
    /// Next, poll the device.
    Polling,
    /// Next, look for cancellation.
    Checking,
    /// Terminated; emits nothing more.
    Stopped,
}

/// The reader's transition: its next phase and the notification to emit.
/// An event that does not fit the phase changes nothing.
pub open spec fn reader_step(p: ReaderPhase, ev: ReaderEvent) -> (ReaderPhase, Option<Notification>) {
    match (p, ev) {
        (ReaderPhase::Polling, ReaderEvent::Polled(o)) => match o {
            ReadOutcome::Idle => (ReaderPhase::Checking, None),
            ReadOutcome::Data(b) => if b@.len() > 0 {
                (ReaderPhase::Checking, Some(Notification::DataReceived(b)))
            } else {
                (ReaderPhase::Checking, None)
            },
            ReadOutcome::Failed(_) => (ReaderPhase::Stopped, Some(Notification::DeviceDisconnected)),
        },
        (ReaderPhase::Checking, ReaderEvent::Checked(cancelled)) => if cancelled {
            (ReaderPhase::Stopped, None)
        } else {
            (ReaderPhase::Polling, None)
        },
        _ => (p, None),
    }
}

/// The phase reached and the notifications emitted over a run of events.
pub open spec fn reader_run(p: ReaderPhase, evs: Seq<ReaderEvent>) -> (ReaderPhase, Seq<Notification>)
    decreases evs.len(),
{
    if evs.len() == 0 {
        (p, seq![])
    } else {
        let (q, n) = reader_step(p, evs[0]);
        let (r, rest) = reader_run(q, evs.drop_first());
        (
            r,
            match n {
                Some(x) => seq![x] + rest,
                None => rest,
            },
        )
    }
}

/// The bytes carried by the `DataReceived` notifications of `ns`, in order.
pub open spec fn received(ns: Seq<Notification>) -> Seq<u8>
    decreases ns.len(),
{
    if ns.len() == 0 {
        seq![]
    } else {
        match ns[0] {
            Notification::DataReceived(b) => b@ + received(ns.drop_first()),
            _ => received(ns.drop_first()),
        }
    }
}

/// How many `DeviceDisconnected` notifications `ns` holds.
pub open spec fn disconnects(ns: Seq<Notification>) -> nat
    decreases ns.len(),
{
    if ns.len() == 0 {
        0
    } else {
        (if ns[0] is DeviceDisconnected {
            1nat
        } else {
            0nat
        }) + disconnects(ns.drop_first())
    }
}

/// The bytes the device handed over in the polls of `evs`, in order.
pub open spec fn data_of(evs: Seq<ReaderEvent>) -> Seq<u8>
    decreases evs.len(),
{
    if evs.len() == 0 {
        seq![]
    } else {
        match evs[0] {
            ReaderEvent::Polled(ReadOutcome::Data(b)) => b@ + data_of(evs.drop_first()),
            _ => data_of(evs.drop_first()),
        }
    }
}

/// The events of one reader's life from its start: polls and cancellation
/// checks alternate, a failed poll is the last event, and so is a check that
/// found a cancellation request.
pub open spec fn session(evs: Seq<ReaderEvent>) -> bool
    decreases evs.len(),
{
    if evs.len() == 0 {
        true
    } else {
        match evs[0] {
            ReaderEvent::Polled(o) => {
                let rest = evs.drop_first();
                (o is Failed ==> rest.len() == 0) && (rest.len() > 0 ==> match rest[0] {
                    ReaderEvent::Checked(c) => (c ==> rest.len() == 1) && session(
                        rest.drop_first(),
                    ),
                    _ => false,
                })
            },
            _ => false,
        }
    }
}

/// The reader's life ends in a device failure.
pub open spec fn ends_in_failure(evs: Seq<ReaderEvent>) -> bool {
    evs.len() > 0 && evs.last() matches ReaderEvent::Polled(ReadOutcome::Failed(_))
}

/// Every cancellation check in `evs` finds a request: the cancellation was
/// signalled before any of them.
pub open spec fn cancelled_throughout(evs: Seq<ReaderEvent>) -> bool {
    forall|i: int|
        0 <= i < evs.len() && (#[trigger] evs[i]) is Checked ==> evs[i] == ReaderEvent::Checked(
            true,
        )
}

/// Once a reader has been told to stop (every later check finds the
/// request), it emits at most one more notification, the one of a poll
/// already under way; once it is stopped, or is about to check, none.
pub proof fn lemma_silent_after_cancel(p: ReaderPhase, evs: Seq<ReaderEvent>)
    requires
        cancelled_throughout(evs),
    ensures
        reader_run(p, evs).1.len() <= 1,
        !(p is Polling) ==> reader_run(p, evs).1.len() == 0,
        reader_run(p, evs).0 is Stopped || !(p is Stopped),
    decreases evs.len(),
{
    if evs.len() > 0 {
        let rest = evs.drop_first();
        assert(cancelled_throughout(rest)) by {
            assert forall|i: int|
                0 <= i < rest.len() && (#[trigger] rest[i]) is Checked implies rest[i]
                == ReaderEvent::Checked(true) by {
                assert(rest[i] == evs[i + 1]);
            }
        }
        let q = reader_step(p, evs[0]).0;
        lemma_silent_after_cancel(q, rest);
        if evs[0] is Checked {
            assert(evs[0] == ReaderEvent::Checked(true));
        }
    }
}

/// Over one reader's life, the `DataReceived` notifications, concatenated in
/// order, are exactly the bytes the device handed over; and there is one
/// `DeviceDisconnected` if the life ends in a device failure, else none.
pub proof fn lemma_session_reports(evs: Seq<ReaderEvent>)
    requires
        session(evs),
    ensures
        received(reader_run(ReaderPhase::Polling, evs).1) == data_of(evs),
        disconnects(reader_run(ReaderPhase::Polling, evs).1) == if ends_in_failure(evs) {
            1nat
        } else {
            0nat
        },
    decreases evs.len(),
{
    if evs.len() > 0 {
        let rest = evs.drop_first();
        let (q, n) = reader_step(ReaderPhase::Polling, evs[0]);
        if let ReaderEvent::Polled(o) = evs[0] {
            if rest.len() == 0 {
                reveal_with_fuel(reader_run, 2);
                reveal_with_fuel(received, 2);
                reveal_with_fuel(disconnects, 2);
                reveal_with_fuel(data_of, 2);
                if let ReadOutcome::Data(b) = o {
                    assert(b@ + seq![] =~= b@);
                }
            } else {
                let rest2 = rest.drop_first();
                let c = rest[0]->Checked_0;
                lemma_session_reports(rest2);
                let r2 = reader_run(ReaderPhase::Polling, rest2).1;
                assert(rest[0] == ReaderEvent::Checked(c));
                assert(q == ReaderPhase::Checking);
                if c {
                    assert(rest2.len() == 0);
                    assert(reader_run(ReaderPhase::Stopped, rest2).1 =~= Seq::<Notification>::empty());
                }
                if c {
                    assert(rest2.len() == 0);
                }
                assert(reader_run(q, rest).1 == if c {
                    Seq::<Notification>::empty()
                } else {
                    r2
                });
                assert(data_of(rest) == data_of(rest2));
                let out = reader_run(ReaderPhase::Polling, evs).1;
                match n {
                    Some(x) => {
                        assert(out =~= seq![x] + reader_run(q, rest).1);
                        assert(out.drop_first() =~= reader_run(q, rest).1);
                    },
                    None => {},
                }
                if c {
                    assert(data_of(rest2) == Seq::<u8>::empty());
                }
                if let ReadOutcome::Data(b) = o {
                    if c {
                        assert(b@ + seq![] =~= b@);
                    }
                }
                assert(evs.last() == rest.last());
                if !c {
                    if rest2.len() > 0 {
                        assert(rest.last() == rest2.last());
                    }
                }
            }
        }
    }
}

/// The reader task's state.
pub struct Reader {
    phase: ReaderPhase,
}

impl Reader {
    pub closed spec fn spec_phase(&self) -> ReaderPhase {
        self.phase
    }

    /// A freshly started reader, about to poll.
    pub fn new() -> (r: Reader)
        ensures
            r.spec_phase() == ReaderPhase::Polling,
    {
        Reader { phase: ReaderPhase::Polling }
    }

    pub fn phase(&self) -> (r: ReaderPhase)
        ensures
            r == self.spec_phase(),
    {
        self.phase
    }

    /// Whether the task is still to run.
    pub fn is_running(&self) -> (r: bool)
        ensures
            r == !(self.spec_phase() is Stopped),
    {
        !matches!(self.phase, ReaderPhase::Stopped)
    }

    /// Reacts to one event: moves on and returns what to emit, if anything.
    pub fn handle(&mut self, ev: ReaderEvent) -> (r: Option<Notification>)
        ensures
            (final(self).spec_phase(), r) == reader_step(old(self).spec_phase(), ev),
    {
        match (self.phase, ev) {
            (ReaderPhase::Polling, ReaderEvent::Polled(o)) => match o {
                ReadOutcome::Idle => {
                    self.phase = ReaderPhase::Checking;
                    None
                },
                ReadOutcome::Data(b) => {
                    self.phase = ReaderPhase::Checking;
                    if b.len() > 0 {
                        Some(Notification::DataReceived(b))
                    } else {
                        None
                    }
                },
                ReadOutcome::Failed(_) => {
                    self.phase = ReaderPhase::Stopped;
                    Some(Notification::DeviceDisconnected)
                },
            },
            (ReaderPhase::Checking, ReaderEvent::Checked(cancelled)) => {
                self.phase = if cancelled {
                    ReaderPhase::Stopped
                } else {
                    ReaderPhase::Polling
                };
                None
            },
            _ => None,
        }
    }
}

} // verus!
