//! The event relay and the display state it keeps: received log, byte
//! counters and the connection toggle.

use vstd::prelude::*;
use vstd::string::StringExecFns;
use vstd::utf8::{decode_utf8, valid_utf8};

use crate::message::{Command, Notification};
use crate::reader::{
    disconnects, ends_in_failure, lemma_session_reports, reader_run, received, session, ReaderEvent,
    ReaderPhase,
};
use crate::supervisor::{run, Effect, Input, Phase};

verus! {

/// Baud rate of a connection made from the connection toggle.
pub const DEFAULT_BAUD_RATE: u32 = 115200;

/// Time left for a supervised close to settle, in milliseconds, before the
/// display is told of a disconnect.
pub const DISCONNECT_GRACE_MS: u64 = 100;

/// The text of received bytes, invalid sequences replaced rather than dropped.
pub uninterp spec fn lossy_text(b: Seq<u8>) -> Seq<char>;

/// Relies on `String::from_utf8_lossy`: decodes the bytes, replacing each
/// invalid sequence by U+FFFD; bytes that are valid UTF-8 decode to exactly
/// the text they encode.
#[verifier::external_body]
fn decode_lossy(b: &[u8]) -> (r: String)
    ensures
        r@ == lossy_text(b@),
        valid_utf8(b@) ==> r@ == decode_utf8(b@),
{
    String::from_utf8_lossy(b).into_owned()
}

/// The display state, as the contracts see it.
pub struct DisplayView {
    pub log: Seq<char>,
    pub received: nat,
    pub sent: nat,
    pub connected: bool,
}

/// What the display shows; changed only through notifications and the
/// connection toggle.
#[derive(Debug, Clone, PartialEq, Eq)]
pub struct DisplayState {
    /// Everything received, as text.
    pub log: String,
    /// Bytes received.
    pub received: u64,
    /// Bytes sent.
    pub sent: u64,
    /// Whether the toggle stands at "connected".
    pub connected: bool,
}

impl View for DisplayState {
    type V = DisplayView;

    open spec fn view(&self) -> DisplayView {
        DisplayView {
            log: self.log@,
            received: self.received as nat,
            sent: self.sent as nat,
            connected: self.connected,
        }
    }
}

/// The display after notification `n`.
pub open spec fn applied(d: DisplayView, n: Notification) -> DisplayView {
    match n {
        Notification::DataReceived(b) => DisplayView {
            log: d.log + lossy_text(b@),
            received: d.received + b@.len(),
            ..d
        },
        Notification::SendCompleted(k) => DisplayView { sent: d.sent + k as nat, ..d },
        Notification::DeviceDisconnected => DisplayView { connected: false, ..d },
    }
}

/// The counters can take notification `n` without leaving `u64`.
pub open spec fn fits(d: DisplayView, n: Notification) -> bool {
    match n {
        Notification::DataReceived(b) => d.received + b@.len() <= u64::MAX,
        Notification::SendCompleted(k) => d.sent + k <= u64::MAX,
        Notification::DeviceDisconnected => true,
    }
}

/// The label of the connection toggle.
pub open spec fn label_text(connected: bool) -> Seq<char> {
    if connected {
        "Disconnect"@
    } else {
        "Connect"@
    }
}

impl DisplayState {
    /// An empty display, disconnected.
    pub fn new() -> (r: DisplayState)
        ensures
            r@ == (DisplayView { log: seq![], received: 0, sent: 0, connected: false }),
    {
        DisplayState { log: String::new(), received: 0, sent: 0, connected: false }
    }

    /// Whether the counters can take notification `n`.
    pub fn can_apply(&self, n: &Notification) -> (r: bool)
        ensures
            r == fits(self@, *n),
    {
        match n {
            Notification::DataReceived(b) => b.len() as u64 <= u64::MAX - self.received,
            Notification::SendCompleted(k) => *k as u64 <= u64::MAX - self.sent,
            Notification::DeviceDisconnected => true,
        }
    }

    /// Records `byte_count` received bytes whose text is `text`.
    pub fn append_received(&mut self, text: &str, byte_count: usize)
        requires
            old(self).received + byte_count <= u64::MAX,
        ensures
            final(self)@ == (DisplayView {
                log: old(self)@.log + text@,
                received: old(self)@.received + byte_count as nat,
                ..old(self)@
            }),
    {
        self.log.append(text);
        self.received = self.received + byte_count as u64;
    }

    /// Applies one notification: received bytes are appended to the log as
    /// text and counted, sent bytes are counted, a disconnect resets the
    /// toggle.
    pub fn apply(&mut self, n: &Notification)
        requires
            fits(old(self)@, *n),
        ensures
            final(self)@ == applied(old(self)@, *n),
    {
        match n {
            Notification::DataReceived(b) => {
                let text = decode_lossy(b.as_slice());
                self.append_received(text.as_str(), b.len());
            },
            Notification::SendCompleted(k) => {
                self.sent = self.sent + *k as u64;
            },
            Notification::DeviceDisconnected => {
                self.connected = false;
            },
        }
    }

    /// The label the connection toggle shows.
    pub fn connect_label(&self) -> (r: &'static str)
        ensures
            r@ == label_text(self.connected),
    {
        if self.connected {
            proof {
                reveal_strlit("Disconnect");
            }
            "Disconnect"
        } else {
            proof {
                reveal_strlit("Connect");
            }
            "Connect"
        }
    }

    /// The connection toggle: opens `port_name` at the default baud rate
    /// when disconnected, closes when connected, and flips at once.
    pub fn toggle_connection(&mut self, port_name: String) -> (r: Command)
        ensures
            final(self)@ == (DisplayView { connected: !old(self).connected, ..old(self)@ }),
            old(self).connected ==> r == Command::Close,
            !old(self).connected ==> r == Command::Open(port_name, DEFAULT_BAUD_RATE),
    {
        if self.connected {
            self.connected = false;
            Command::Close
        } else {
            self.connected = true;
            Command::Open(port_name, DEFAULT_BAUD_RATE)
        }
    }
}

/// Something the relay does for one notification, in order.
#[derive(Debug, Clone, PartialEq, Eq)]
pub enum RelayAction {
    /// Apply the notification to the display, on the display's own thread.
    Display(Notification),
    /// Put this command on the supervisor's channel.
    Forward(Command),
    /// Wait this many milliseconds.
    Pause(u64),
    /// Have the list of available ports enumerated again.
    RefreshPorts,
}

/// The relay's policy: data and send counts go to the display; a disconnect
/// closes the port, waits for the close to settle, then resets the toggle
/// and refreshes the port list.
pub open spec fn relay_actions(n: Notification) -> Seq<RelayAction> {
    match n {
        Notification::DeviceDisconnected => seq![
            RelayAction::Forward(Command::Close),
            RelayAction::Pause(DISCONNECT_GRACE_MS),
            RelayAction::Display(Notification::DeviceDisconnected),
            RelayAction::RefreshPorts,
        ],
        _ => seq![RelayAction::Display(n)],
    }
}

/// What the relay does for notification `n`.
pub fn relay(n: Notification) -> (r: Vec<RelayAction>)
    ensures
        r@ == relay_actions(n),
{
    match n {
        Notification::DeviceDisconnected => {
            let mut r: Vec<RelayAction> = Vec::new();
            r.push(RelayAction::Forward(Command::Close));
            r.push(RelayAction::Pause(DISCONNECT_GRACE_MS));
            r.push(RelayAction::Display(Notification::DeviceDisconnected));
            r.push(RelayAction::RefreshPorts);
            assert(r@ =~= relay_actions(n));
            r
        },
        _ => {
            let ghost m = n;
            let mut r: Vec<RelayAction> = Vec::new();
            r.push(RelayAction::Display(n));
            assert(r@ =~= relay_actions(m));
            r
        },
    }
}


/// How many `Close` commands the relay forwards over the notifications `ns`.
pub open spec fn forwarded_closes(ns: Seq<Notification>) -> nat
    decreases ns.len(),
{
    if ns.len() == 0 {
        0
    } else {
        (if relay_actions(ns[0]).contains(RelayAction::Forward(Command::Close)) {
            1nat
        } else {
            0nat
        }) + forwarded_closes(ns.drop_first())
    }
}

/// The display after the notifications `ns`, in order.
pub open spec fn applied_all(d: DisplayView, ns: Seq<Notification>) -> DisplayView
    decreases ns.len(),
{
    if ns.len() == 0 {
        d
    } else {
        applied_all(applied(d, ns[0]), ns.drop_first())
    }
}

proof fn lemma_closes_match_disconnects(ns: Seq<Notification>)
    ensures
        forwarded_closes(ns) == disconnects(ns),
    decreases ns.len(),
{
    if ns.len() > 0 {
        lemma_closes_match_disconnects(ns.drop_first());
        let a = relay_actions(ns[0]);
        if ns[0] is DeviceDisconnected {
            assert(a[0] == RelayAction::Forward(Command::Close));
        } else {
            assert(a =~= seq![RelayAction::Display(ns[0])]);
            if a.contains(RelayAction::Forward(Command::Close)) {
                let i = choose|i: int| 0 <= i < a.len() && a[i] == RelayAction::Forward(Command::Close);
                assert(a[i] == RelayAction::Display(ns[0]));
            }
        }
    }
}

/// A reader whose device is pulled out mid-read reports one disconnect, and
/// the relay answers it with exactly one supervised `Close`; a reader that
/// was cancelled causes none.
pub proof fn lemma_one_close_per_failure(evs: Seq<ReaderEvent>)
    requires
        session(evs),
    ensures
        forwarded_closes(reader_run(ReaderPhase::Polling, evs).1) == if ends_in_failure(evs) {
            1nat
        } else {
            0nat
        },
{
    lemma_session_reports(evs);
    lemma_closes_match_disconnects(reader_run(ReaderPhase::Polling, evs).1);
}

/// After a disconnect has been displayed the toggle offers to connect again.
pub proof fn lemma_disconnect_resets_toggle(d: DisplayView)
    ensures
        !applied(d, Notification::DeviceDisconnected).connected,
        label_text(applied(d, Notification::DeviceDisconnected).connected) == "Connect"@,
{
}

/// The received counter grows by exactly the number of bytes the
/// notifications carry, and the sent counter by the counts they report.
pub proof fn lemma_received_counted(d: DisplayView, ns: Seq<Notification>)
    ensures
        applied_all(d, ns).received == d.received + received(ns).len(),
        applied_all(d, ns).connected == (d.connected && forall|i: int|
            0 <= i < ns.len() ==> !(#[trigger] ns[i] is DeviceDisconnected)),
    decreases ns.len(),
{
    if ns.len() > 0 {
        let rest = ns.drop_first();
        lemma_received_counted(applied(d, ns[0]), rest);
        if !(ns[0] is DeviceDisconnected) && (forall|i: int|
            0 <= i < rest.len() ==> !(#[trigger] rest[i] is DeviceDisconnected)) {
            assert forall|i: int| 0 <= i < ns.len() implies !(#[trigger] ns[i] is DeviceDisconnected) by {
                if i > 0 {
                    assert(ns[i] == rest[i - 1]);
                }
            }
        }
        if exists|i: int| 0 <= i < rest.len() && #[trigger] rest[i] is DeviceDisconnected {
            let i = choose|i: int| 0 <= i < rest.len() && #[trigger] rest[i] is DeviceDisconnected;
            assert(ns[i + 1] == rest[i]);
        }
    }
}

/// Sending `n` bytes on an open port that the device accepts adds exactly
/// `n` to the sent counter; sending while no port is open changes nothing.
pub proof fn lemma_send_counted(bytes: Vec<u8>, d: DisplayView)
    ensures
        run(Phase::Open, seq![Input::Command(Command::Send(bytes)), Input::Written(Ok(()))]) == (
            Phase::Open,
            seq![
                Effect::WritePort(bytes),
                Effect::Notify(Notification::SendCompleted(bytes.len())),
            ],
        ),
        applied(d, Notification::SendCompleted(bytes.len())).sent == d.sent + bytes.len(),
        run(Phase::Closed, seq![Input::Command(Command::Send(bytes))]) == (
            Phase::Closed,
            Seq::<Effect>::empty(),
        ),
{
    let ins = seq![Input::Command(Command::Send(bytes)), Input::Written(Ok(()))];
    assert(ins.drop_last() =~= seq![Input::Command(Command::Send(bytes))]);
    assert(ins.drop_last().drop_last() =~= Seq::<Input>::empty());
    assert(seq![Input::Command(Command::Send(bytes))].drop_last() =~= Seq::<Input>::empty());
    reveal_with_fuel(run, 3);
    assert(Seq::<Effect>::empty() + seq![Effect::WritePort(bytes)] =~= seq![Effect::WritePort(bytes)]);
    assert(seq![Effect::WritePort(bytes)] + seq![
        Effect::Notify(Notification::SendCompleted(bytes.len())),
    ] =~= seq![
        Effect::WritePort(bytes),
        Effect::Notify(Notification::SendCompleted(bytes.len())),
    ]);
    assert(Seq::<Effect>::empty() + Seq::<Effect>::empty() =~= Seq::<Effect>::empty());
}

} // verus!
