use serial_term::hex::{parse_hex_payload, parse_token, payload_bytes, send_command, HexError};
use serial_term::message::{Command, Notification, PortErrorKind};
use serial_term::reader::{ReadOutcome, Reader, ReaderEvent, ReaderPhase, READ_CHUNK};
use serial_term::relay::{relay, DisplayState, RelayAction, DEFAULT_BAUD_RATE, DISCONNECT_GRACE_MS};
use serial_term::supervisor::{port_settings, Effect, Input, Phase, PortSettings, Supervisor};

fn chars(s: &str) -> Vec<char> {
    s.chars().collect()
}

fn open_supervisor(name: &str) -> Supervisor {
    let mut s = Supervisor::new();
    s.handle(Input::Command(Command::Open(name.to_string(), DEFAULT_BAUD_RATE)));
    s.handle(Input::Opened(Ok(())));
    s
}

#[test]
fn hex_payload_three_bytes() {
    assert_eq!(parse_hex_payload(&chars("1A 2B 2C")), Ok(vec![0x1A, 0x2B, 0x2C]));
}

#[test]
fn hex_payload_rejects_malformed_token() {
    assert_eq!(parse_hex_payload(&chars("1A ZZ")), Err(HexError::InvalidToken(1)));
    assert_eq!(send_command("1A ZZ", true), Err(HexError::InvalidToken(1)));
}

#[test]
fn hex_payload_send_command() {
    assert_eq!(send_command("1A 2B 2C", true), Ok(Command::Send(vec![0x1A, 0x2B, 0x2C])));
}

#[test]
fn hex_payload_first_bad_token_is_named() {
    assert_eq!(parse_hex_payload(&chars("G1 ZZ 10")), Err(HexError::InvalidToken(0)));
    assert_eq!(parse_hex_payload(&chars("01 02 100 ZZ")), Err(HexError::InvalidToken(2)));
}

#[test]
fn hex_payload_whitespace_runs() {
    assert_eq!(parse_hex_payload(&chars("  ff\t\n0a  ")), Ok(vec![0xFF, 0x0A]));
    assert_eq!(parse_hex_payload(&chars("1a\u{3000}2b")), Ok(vec![0x1A, 0x2B]));
}

#[test]
fn hex_payload_empty_and_blank() {
    assert_eq!(parse_hex_payload(&chars("")), Ok(vec![]));
    assert_eq!(parse_hex_payload(&chars("   \t ")), Ok(vec![]));
}

#[test]
fn hex_token_forms() {
    assert_eq!(parse_token(&chars("ff")), Some(0xFF));
    assert_eq!(parse_token(&chars("FF")), Some(0xFF));
    assert_eq!(parse_token(&chars("+7f")), Some(0x7F));
    assert_eq!(parse_token(&chars("000a")), Some(0x0A));
    assert_eq!(parse_token(&chars("7")), Some(7));
    assert_eq!(parse_token(&chars("100")), None);
    assert_eq!(parse_token(&chars("+")), None);
    assert_eq!(parse_token(&chars("")), None);
    assert_eq!(parse_token(&chars("-1")), None);
    assert_eq!(parse_token(&chars("++1")), None);
    assert_eq!(parse_token(&chars("1g")), None);
}

#[test]
fn raw_payload_is_utf8() {
    assert_eq!(payload_bytes("hé!", false), Ok(vec![0x68, 0xC3, 0xA9, 0x21]));
    assert_eq!(payload_bytes("1A ZZ", false), Ok(b"1A ZZ".to_vec()));
    assert_eq!(send_command("ping", false), Ok(Command::Send(b"ping".to_vec())));
}

#[test]
fn settings_are_fixed() {
    let s = port_settings("/dev/ttyUSB0".to_string(), 9600);
    assert_eq!(
        s,
        PortSettings {
            name: "/dev/ttyUSB0".to_string(),
            baud_rate: 9600,
            data_bits: 8,
            parity: false,
            stop_bits: 1,
            flow_control: false,
            read_timeout_ms: 100,
        }
    );
}

#[test]
fn open_nonexistent_port_stays_closed() {
    let mut s = Supervisor::new();
    let e = s.handle(Input::Command(Command::Open("COM99".to_string(), DEFAULT_BAUD_RATE)));
    assert_eq!(e, vec![Effect::OpenPort(port_settings("COM99".to_string(), 115200))]);
    assert_eq!(s.phase(), Phase::Opening);
    let e = s.handle(Input::Opened(Err(PortErrorKind::NoDevice)));
    assert_eq!(e, vec![Effect::OpenFailed(PortErrorKind::NoDevice)]);
    assert!(!e.contains(&Effect::StartReader));
    assert_eq!(s.phase(), Phase::Closed);
    assert!(!s.is_open());
}

#[test]
fn open_close_open_one_reader_at_a_time() {
    let mut s = Supervisor::new();
    let mut live: i32 = 0;
    let inputs = vec![
        Input::Command(Command::Open("A".to_string(), 9600)),
        Input::Opened(Ok(())),
        Input::Command(Command::Close),
        Input::Command(Command::Open("B".to_string(), 9600)),
        Input::Opened(Ok(())),
        Input::Command(Command::Open("C".to_string(), 9600)),
        Input::Opened(Ok(())),
        Input::Command(Command::Close),
        Input::Command(Command::Close),
    ];
    let mut started = 0;
    for i in inputs {
        for e in s.handle(i) {
            match e {
                Effect::StartReader => {
                    assert_eq!(live, 0);
                    live += 1;
                    started += 1;
                }
                Effect::CancelReader => live -= 1,
                _ => {}
            }
            assert!(live <= 1 && live >= 0);
        }
    }
    assert_eq!(started, 3);
    assert_eq!(live, 0);
    assert_eq!(s.phase(), Phase::Closed);
}

#[test]
fn superseding_open_cancels_first() {
    let mut s = open_supervisor("A");
    let e = s.handle(Input::Command(Command::Open("B".to_string(), 57600)));
    assert_eq!(
        e,
        vec![
            Effect::CancelReader,
            Effect::ReleasePort,
            Effect::OpenPort(port_settings("B".to_string(), 57600)),
        ]
    );
}

#[test]
fn close_when_closed_is_noop() {
    let mut s = Supervisor::new();
    assert_eq!(s.handle(Input::Command(Command::Close)), vec![]);
    assert_eq!(s.phase(), Phase::Closed);
}

#[test]
fn send_counts_exactly_n_bytes() {
    let mut s = open_supervisor("A");
    let mut d = DisplayState::new();
    let e = s.handle(Input::Command(Command::Send(vec![1, 2, 3, 4, 5])));
    assert_eq!(e, vec![Effect::WritePort(vec![1, 2, 3, 4, 5])]);
    assert_eq!(s.phase(), Phase::Writing(5));
    let e = s.handle(Input::Written(Ok(())));
    assert_eq!(e, vec![Effect::Notify(Notification::SendCompleted(5))]);
    d.apply(&Notification::SendCompleted(5));
    assert_eq!(d.sent, 5);
    assert_eq!(d.received, 0);
    assert_eq!(s.phase(), Phase::Open);
}

#[test]
fn send_while_disconnected_is_noop() {
    let mut s = Supervisor::new();
    let e = s.handle(Input::Command(Command::Send(vec![1, 2, 3])));
    assert!(e.is_empty());
    assert_eq!(s.phase(), Phase::Closed);
}

#[test]
fn failed_write_is_reported_not_counted() {
    let mut s = open_supervisor("A");
    s.handle(Input::Command(Command::Send(vec![9])));
    let e = s.handle(Input::Written(Err(PortErrorKind::Io)));
    assert_eq!(e, vec![Effect::WriteFailed(PortErrorKind::Io)]);
    assert!(s.is_open());
}

#[test]
fn outcome_without_request_is_ignored() {
    let mut s = Supervisor::new();
    assert_eq!(s.handle(Input::Opened(Ok(()))), vec![]);
    assert_eq!(s.handle(Input::Written(Ok(()))), vec![]);
    assert_eq!(s.phase(), Phase::Closed);
}

#[test]
fn ping_reaches_the_display() {
    let mut r = Reader::new();
    let n = r.handle(ReaderEvent::Polled(ReadOutcome::Data(b"ping".to_vec())));
    assert_eq!(n, Some(Notification::DataReceived(b"ping".to_vec())));
    let n = n.unwrap();
    assert_eq!(relay(n.clone()), vec![RelayAction::Display(n.clone())]);
    let mut d = DisplayState::new();
    d.apply(&Notification::DataReceived(b"> ".to_vec()));
    let before = d.received;
    d.apply(&n);
    assert!(d.log.ends_with("ping"));
    assert_eq!(d.log, "> ping");
    assert_eq!(d.received, before + 4);
}

#[test]
fn invalid_bytes_are_replaced() {
    let mut d = DisplayState::new();
    d.apply(&Notification::DataReceived(vec![0x66, 0xFF, 0x67]));
    assert_eq!(d.log, "f\u{FFFD}g");
    assert_eq!(d.received, 3);
}

#[test]
fn chunks_concatenate_to_device_bytes() {
    let written: Vec<u8> = (0u8..=250).collect();
    let mut r = Reader::new();
    let mut got: Vec<u8> = Vec::new();
    for chunk in written.chunks(READ_CHUNK) {
        if let Some(Notification::DataReceived(b)) =
            r.handle(ReaderEvent::Polled(ReadOutcome::Data(chunk.to_vec())))
        {
            got.extend(b);
        }
        assert_eq!(r.handle(ReaderEvent::Checked(false)), None);
        assert_eq!(r.handle(ReaderEvent::Polled(ReadOutcome::Idle)), None);
        assert_eq!(r.handle(ReaderEvent::Checked(false)), None);
    }
    assert_eq!(got, written);
}

#[test]
fn empty_read_emits_nothing() {
    let mut r = Reader::new();
    assert_eq!(r.handle(ReaderEvent::Polled(ReadOutcome::Data(vec![]))), None);
    assert_eq!(r.phase(), ReaderPhase::Checking);
}

#[test]
fn cancelled_reader_goes_silent() {
    let mut r = Reader::new();
    assert!(r.handle(ReaderEvent::Polled(ReadOutcome::Data(vec![1]))).is_some());
    assert_eq!(r.handle(ReaderEvent::Checked(true)), None);
    assert!(!r.is_running());
    assert_eq!(r.handle(ReaderEvent::Polled(ReadOutcome::Data(vec![2]))), None);
    assert_eq!(r.handle(ReaderEvent::Polled(ReadOutcome::Failed(PortErrorKind::Io))), None);
    assert_eq!(r.phase(), ReaderPhase::Stopped);
}

#[test]
fn yanked_device_closes_once_and_resets_toggle() {
    let mut r = Reader::new();
    let mut d = DisplayState::new();
    let cmd = d.toggle_connection("COM3".to_string());
    assert_eq!(cmd, Command::Open("COM3".to_string(), 115200));
    assert_eq!(d.connect_label(), "Disconnect");
    let mut notes = Vec::new();
    notes.extend(r.handle(ReaderEvent::Polled(ReadOutcome::Data(vec![7]))));
    notes.extend(r.handle(ReaderEvent::Checked(false)));
    notes.extend(r.handle(ReaderEvent::Polled(ReadOutcome::Failed(PortErrorKind::NoDevice))));
    notes.extend(r.handle(ReaderEvent::Checked(false)));
    notes.extend(r.handle(ReaderEvent::Polled(ReadOutcome::Failed(PortErrorKind::NoDevice))));
    assert!(!r.is_running());
    let disconnects = notes.iter().filter(|n| **n == Notification::DeviceDisconnected).count();
    assert_eq!(disconnects, 1);
    let mut closes = 0;
    let mut order = Vec::new();
    for n in notes {
        for a in relay(n) {
            match a {
                RelayAction::Forward(Command::Close) => {
                    closes += 1;
                    order.push("close");
                }
                RelayAction::Pause(ms) => assert_eq!(ms, DISCONNECT_GRACE_MS),
                RelayAction::Display(n) => {
                    d.apply(&n);
                    if n == Notification::DeviceDisconnected {
                        order.push("label");
                    }
                }
                RelayAction::RefreshPorts => order.push("refresh"),
                RelayAction::Forward(_) => panic!("unexpected command"),
            }
        }
    }
    assert_eq!(closes, 1);
    assert_eq!(order, vec!["close", "label", "refresh"]);
    assert!(!d.connected);
    assert_eq!(d.connect_label(), "Connect");
}

#[test]
fn relay_on_disconnect() {
    assert_eq!(
        relay(Notification::DeviceDisconnected),
        vec![
            RelayAction::Forward(Command::Close),
            RelayAction::Pause(100),
            RelayAction::Display(Notification::DeviceDisconnected),
            RelayAction::RefreshPorts,
        ]
    );
    assert_eq!(
        relay(Notification::SendCompleted(3)),
        vec![RelayAction::Display(Notification::SendCompleted(3))]
    );
}

#[test]
fn toggle_flips_both_ways() {
    let mut d = DisplayState::new();
    assert_eq!(d.connect_label(), "Connect");
    assert_eq!(d.toggle_connection("X".to_string()), Command::Open("X".to_string(), 115200));
    assert_eq!(d.toggle_connection("X".to_string()), Command::Close);
    assert_eq!(d.connect_label(), "Connect");
}

#[test]
fn counters_refuse_overflow() {
    let mut d = DisplayState::new();
    d.sent = u64::MAX - 1;
    assert!(d.can_apply(&Notification::SendCompleted(1)));
    assert!(!d.can_apply(&Notification::SendCompleted(2)));
    assert!(d.can_apply(&Notification::DeviceDisconnected));
}

#[test]
fn received_text_is_appended() {
    let mut d = DisplayState::new();
    d.append_received("ab", 2);
    d.append_received("c", 1);
    assert_eq!(d.log, "abc");
    assert_eq!(d.received, 3);
    assert_eq!(d.sent, 0);
}
