use vstd::prelude::*;

verus! {

/// The closed set of ways one scan can fail. Each kind is raised at exactly
/// one point of the protocol sequence, ends the scan, and is reported to the
/// caller as a value, never as a panic.
#[derive(Debug, PartialEq, Eq)]
pub enum ScanError {
    /// The target string did not name a valid socket endpoint.
    AddressParseError(String),
    /// Opening the TCP connection failed; carries the cause.
    ConnectError(String),
    /// Sending the handshake bytes failed.
    WriteError,
    /// Reading the packet id byte failed.
    ReadError,
    /// A length prefix ended with the stream, or the packet id was not the
    /// status response id.
    PacketFormatError,
    /// The declared payload length exceeds the hard cap of 65536 bytes.
    PleaseNoDoSError,
    /// The connection ended before the declared payload had arrived.
    JsonReadError,
    /// The payload was not the expected JSON document; carries the decoder's
    /// message.
    JsonParseError(String),
}

} // verus!
