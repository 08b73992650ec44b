use vstd::prelude::*;
use crate::error::ScanError;
use crate::frame::{
    handshake_spec, handshake_bytes, parse_response, parse_spec, FrameParse, ParseOutcome,
};
use crate::metrics::format_spec;
use crate::status::{process_payload, status_of};

verus! {

/// What the network driver reports back to the session.
pub enum ScanEvent {
    /// The connection is open.
    Connected,
    /// The connection could not be opened; carries the cause.
    ConnectFailed { cause: String },
    /// The handshake bytes were all written.
    Wrote,
    /// Writing the handshake bytes failed.
    WriteFailed,
    /// The bytes the session last asked for arrived.
    Received { bytes: Vec<u8> },
    /// The stream ended, or reading failed, before they all arrived.
    Closed,
}

/// What the session asks the network driver to do next.
pub enum ScanStep {
    /// Open a TCP connection to the target.
    Connect,
    /// Write these bytes to the peer.
    Send { bytes: Vec<u8> },
    /// Read exactly `count` more bytes from the peer.
    Read { count: usize },
    /// The scan succeeded; `text` is the metrics exposition.
    Finished { text: String },
    /// The scan failed and is over.
    Failed { error: ScanError },
}

/// Where in the handshake sequence a session stands.
#[derive(Clone, Copy, Debug, PartialEq, Eq, Structural)]
pub enum ScanPhase {
    /// Waiting for the connection to open.
    Connecting,
    /// Waiting for the handshake bytes to be written.
    Sending,
    /// Waiting for response bytes.
    Reading,
    /// Finished or failed; no further event is accepted.
    Terminal,
}

/// One scan's state: each scan owns one session, and the session owns every
/// decision of the handshake sequence. The driver performs the returned
/// `ScanStep` and hands back a `ScanEvent`; no state is shared across scans.
pub struct ScanSession {
    /// Where in the sequence this session stands.
    pub phase: ScanPhase,
    /// The response bytes received so far.
    pub data: Vec<u8>,
}

impl ScanSession {
    /// Which events the driver may answer with in the current phase.
    pub open spec fn accepts(self, event: ScanEvent) -> bool {
        match self.phase {
            ScanPhase::Connecting => event is Connected || event is ConnectFailed,
            ScanPhase::Sending => event is Wrote || event is WriteFailed,
            ScanPhase::Reading => event is Received || event is Closed,
            ScanPhase::Terminal => false,
        }
    }

    /// Begin a scan: the driver's first task is to connect.
    pub fn new() -> (r: (ScanSession, ScanStep))
        ensures
            r.0.phase is Connecting,
            r.0.data@ == Seq::<u8>::empty(),
            r.1 is Connect,
    {
        (ScanSession { phase: ScanPhase::Connecting, data: Vec::new() }, ScanStep::Connect)
    }

    /// Feed one event to the session and learn what to do next.
    pub fn step(&mut self, event: ScanEvent) -> (r: ScanStep)
        requires
            old(self).accepts(event),
        ensures
            step_post(*old(self), event, *final(self), r),
    {
        match event {
            ScanEvent::Connected => {
                self.phase = ScanPhase::Sending;
                ScanStep::Send { bytes: handshake_bytes() }
            },
            ScanEvent::ConnectFailed { cause } => {
                self.phase = ScanPhase::Terminal;
                ScanStep::Failed { error: ScanError::ConnectError(cause) }
            },
            ScanEvent::Wrote => {
                self.phase = ScanPhase::Reading;
                self.data = Vec::new();
                ScanStep::Read { count: 1 }
            },
            ScanEvent::WriteFailed => {
                self.phase = ScanPhase::Terminal;
                ScanStep::Failed { error: ScanError::WriteError }
            },
            ScanEvent::Received { bytes } => {
                let mut incoming = bytes;
                self.data.append(&mut incoming);
                self.advance(false)
            },
            ScanEvent::Closed => self.advance(true),
        }
    }

    /// Re-read the buffered response now that it grew or the stream ended.
    fn advance(&mut self, closed: bool) -> (r: ScanStep)
        requires
            old(self).phase is Reading,
        ensures
            final(self).data == old(self).data,
            reading_post(final(self).data@, closed, *final(self), r),
    {
        match parse_response(self.data.as_slice(), closed) {
            ParseOutcome::NeedMore { count } => ScanStep::Read { count },
            ParseOutcome::Fail { error } => {
                self.phase = ScanPhase::Terminal;
                ScanStep::Failed { error }
            },
            ParseOutcome::Done { payload } => {
                self.phase = ScanPhase::Terminal;
                match process_payload(payload.as_slice()) {
                    Ok(text) => ScanStep::Finished { text },
                    Err(error) => ScanStep::Failed { error },
                }
            },
        }
    }
}

/// What one step must do, for every phase and event the session accepts.
pub open spec fn step_post(
    pre: ScanSession,
    event: ScanEvent,
    post: ScanSession,
    r: ScanStep,
) -> bool {
    match (pre.phase, event) {
        (ScanPhase::Connecting, ScanEvent::Connected) => post.phase is Sending && (r matches
            ScanStep::Send { bytes } && bytes@ == handshake_spec()),
        (ScanPhase::Connecting, ScanEvent::ConnectFailed { cause }) => post.phase is Terminal
            && (r matches ScanStep::Failed { error } && error matches ScanError::ConnectError(c)
            && c@ == cause@),
        (ScanPhase::Sending, ScanEvent::Wrote) => post.phase is Reading && post.data@
            == Seq::<u8>::empty() && (r matches ScanStep::Read { count } && count == 1),
        (ScanPhase::Sending, ScanEvent::WriteFailed) => post.phase is Terminal && (r matches
            ScanStep::Failed { error } && error is WriteError),
        (ScanPhase::Reading, ScanEvent::Received { bytes }) => post.data@ == pre.data@ + bytes@
            && reading_post(post.data@, false, post, r),
        (ScanPhase::Reading, ScanEvent::Closed) => post.data@ == pre.data@ && reading_post(
            post.data@,
            true,
            post,
            r,
        ),
        _ => true,
    }
}

/// What reading the buffered bytes `data` must conclude: exactly what
/// `parse_spec` prescribes, a finished frame going on to the JSON decoder
/// and the formatter.
pub open spec fn reading_post(
    data: Seq<u8>,
    closed: bool,
    post: ScanSession,
    r: ScanStep,
) -> bool {
    match parse_spec(data, closed) {
        FrameParse::NeedMore { count } => post.phase is Reading && (r matches ScanStep::Read {
            count: c,
        } && c as int == count),
        FrameParse::Fail { error } => post.phase is Terminal && (r matches ScanStep::Failed {
            error: e,
        } && e == error),
        FrameParse::Done { payload } => post.phase is Terminal && if status_of(payload) is Some {
            r matches ScanStep::Finished { text } && text@ == format_spec(
                status_of(payload)->Some_0,
            )
        } else {
            r matches ScanStep::Failed { error } && error is JsonParseError
        },
    }
}

} // verus!
