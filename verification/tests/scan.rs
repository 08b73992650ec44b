use mcscan::error::ScanError;
use mcscan::scan::{ScanEvent, ScanSession, ScanStep};
use mcscan::varint::encode_varint;

/// Drive a session against a scripted response stream, handing over exactly
/// as many bytes as the session asks for, then `Closed` once the script runs
/// out. Returns the terminal step.
fn run_against(stream: &[u8]) -> ScanStep {
    let (mut session, mut step) = ScanSession::new();
    let mut served: usize = 0;
    loop {
        let event = match step {
            ScanStep::Connect => ScanEvent::Connected,
            ScanStep::Send { ref bytes } => {
                assert_eq!(bytes.len(), 24, "the handshake is one fixed write");
                ScanEvent::Wrote
            }
            ScanStep::Read { count } => {
                if served + count <= stream.len() {
                    let chunk = stream[served..served + count].to_vec();
                    served += count;
                    ScanEvent::Received { bytes: chunk }
                } else {
                    ScanEvent::Closed
                }
            }
            terminal => return terminal,
        };
        step = session.step(event);
    }
}

fn framed(id: u8, declared_len: i64, given: &[u8]) -> Vec<u8> {
    let len_field = encode_varint(declared_len);
    let packet_len = encode_varint(1 + len_field.len() as i64 + declared_len);
    let mut data = packet_len;
    data.push(id);
    data.extend_from_slice(&len_field);
    data.extend_from_slice(given);
    data
}

#[test]
fn end_to_end_scan_renders_the_metrics() {
    let payload = br#"{"description":{"text":"hi"},"modinfo":{"modList":[{"modid":"a","version":"1"},{"modid":"b","version":"1"}]},"players":{"max":20,"online":5}}"#;
    let stream = framed(0x00, payload.len() as i64, payload);
    match run_against(&stream) {
        ScanStep::Finished { text } => assert_eq!(
            text,
            "# TYPE minecraft_players_current gauge\nminecraft_players_current 5\n\n# TYPE minecraft_players_max gauge\nminecraft_players_max 20\n\n# TYPE minecraft_mod_count gauge\nminecraft_mod_count 2\n"
        ),
        other => panic!("expected success, got {:?}", step_name(&other)),
    }
}

#[test]
fn connect_failure_is_a_connect_error() {
    let (mut session, step) = ScanSession::new();
    assert!(matches!(step, ScanStep::Connect));
    let step = session.step(ScanEvent::ConnectFailed { cause: String::from("unreachable") });
    match step {
        ScanStep::Failed { error: ScanError::ConnectError(cause) } => {
            assert_eq!(cause, "unreachable");
        }
        _ => panic!("expected a connect error"),
    }
}

#[test]
fn write_failure_is_a_write_error() {
    let (mut session, _) = ScanSession::new();
    let step = session.step(ScanEvent::Connected);
    assert!(matches!(step, ScanStep::Send { .. }));
    let step = session.step(ScanEvent::WriteFailed);
    assert!(matches!(step, ScanStep::Failed { error: ScanError::WriteError }));
}

#[test]
fn session_rejects_oversized_payload_before_reading_it() {
    let stream = framed(0x00, 65537, &[]);
    assert!(matches!(
        run_against(&stream),
        ScanStep::Failed { error: ScanError::PleaseNoDoSError }
    ));
}

#[test]
fn session_rejects_wrong_packet_id() {
    let stream = framed(0x01, 2, b"{}");
    assert!(matches!(
        run_against(&stream),
        ScanStep::Failed { error: ScanError::PacketFormatError }
    ));
}

#[test]
fn session_turns_a_short_payload_into_a_read_failure() {
    let stream = framed(0x00, 10, b"hello");
    assert!(matches!(
        run_against(&stream),
        ScanStep::Failed { error: ScanError::JsonReadError }
    ));
}

#[test]
fn session_reports_unparsable_payload() {
    let stream = framed(0x00, 8, b"not json");
    assert!(matches!(
        run_against(&stream),
        ScanStep::Failed { error: ScanError::JsonParseError(_) }
    ));
}

#[test]
fn closing_before_any_byte_is_malformed_framing() {
    assert!(matches!(
        run_against(&[]),
        ScanStep::Failed { error: ScanError::PacketFormatError }
    ));
}

#[test]
fn address_parse_failures_have_their_own_kind() {
    // The endpoint parser runs outside the library; its failure is carried
    // in this variant.
    let err = ScanError::AddressParseError(String::from("bad endpoint"));
    assert!(matches!(err, ScanError::AddressParseError(_)));
    assert_ne!(err, ScanError::WriteError);
}

fn step_name(step: &ScanStep) -> &'static str {
    match step {
        ScanStep::Connect => "Connect",
        ScanStep::Send { .. } => "Send",
        ScanStep::Read { .. } => "Read",
        ScanStep::Finished { .. } => "Finished",
        ScanStep::Failed { .. } => "Failed",
    }
}
