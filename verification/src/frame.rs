use vstd::prelude::*;
use vstd::slice::{slice_subrange, slice_to_vec};
use crate::error::ScanError;
use crate::varint::{decode_spec, decode_varint_at, lemma_varint_round_trip};

verus! {

/// The fixed handshake packet (protocol version, server address `localhost`,
/// placeholder port, next state = status) immediately followed by the empty
/// status request packet, exactly as they go on the wire.
pub open spec fn handshake_spec() -> Seq<u8> {
    seq![
        0x15u8, 0x00, 0xd4, 0x02, 0x0e, 0x6c, 0x6f, 0x63, 0x61, 0x6c, 0x68, 0x6f, 0x73, 0x74,
        0x00, 0x46, 0x4d, 0x4c, 0x00, 0x63, 0xdd, 0x01, 0x01, 0x00,
    ]
}

/// The bytes a scan writes right after connecting.
pub fn handshake_bytes() -> (r: Vec<u8>)
    ensures
        r@ == handshake_spec(),
{
    let mut v: Vec<u8> = Vec::new();
    v.push(0x15);
    v.push(0x00);
    v.push(0xd4);
    v.push(0x02);
    v.push(0x0e);
    v.push(0x6c);
    v.push(0x6f);
    v.push(0x63);
    v.push(0x61);
    v.push(0x6c);
    v.push(0x68);
    v.push(0x6f);
    v.push(0x73);
    v.push(0x74);
    v.push(0x00);
    v.push(0x46);
    v.push(0x4d);
    v.push(0x4c);
    v.push(0x00);
    v.push(0x63);
    v.push(0xdd);
    v.push(0x01);
    v.push(0x01);
    v.push(0x00);
    proof {
        assert(v@ =~= handshake_spec());
    }
    v
}

/// What the response reader concludes from the bytes received so far.
pub enum ParseOutcome {
    /// More bytes are required; `count` is how many to ask the peer for next.
    NeedMore { count: usize },
    /// The framed payload arrived whole.
    Done { payload: Vec<u8> },
    /// The response can never complete acceptably.
    Fail { error: ScanError },
}

/// The mathematical counterpart of `ParseOutcome`.
pub enum FrameParse {
    NeedMore { count: int },
    Done { payload: Seq<u8> },
    Fail { error: ScanError },
}

/// What the reader concludes from `s`, the bytes received so far, when
/// `closed` says whether the peer has already ended the stream. The frame is
/// `varint packet length | one id byte (must be zero) | varint payload
/// length (at most 65536) | payload`. The packet length is consumed but not
/// cross-checked against what follows.
pub open spec fn parse_spec(s: Seq<u8>, closed: bool) -> FrameParse {
    match decode_spec(s) {
        Option::None => if closed {
            FrameParse::Fail { error: ScanError::PacketFormatError }
        } else {
            FrameParse::NeedMore { count: 1 }
        },
        Option::Some((packet_len, n1)) => {
            let after_len = s.skip(n1);
            if after_len.len() == 0 {
                if closed {
                    FrameParse::Fail { error: ScanError::ReadError }
                } else {
                    FrameParse::NeedMore { count: 1 }
                }
            } else if after_len[0] != 0 {
                FrameParse::Fail { error: ScanError::PacketFormatError }
            } else {
                let after_id = after_len.skip(1);
                match decode_spec(after_id) {
                    Option::None => if closed {
                        FrameParse::Fail { error: ScanError::PacketFormatError }
                    } else {
                        FrameParse::NeedMore { count: 1 }
                    },
                    Option::Some((payload_len, n2)) => {
                        if payload_len > 65536 {
                            FrameParse::Fail { error: ScanError::PleaseNoDoSError }
                        } else {
                            let rest = after_id.skip(n2);
                            if rest.len() < payload_len {
                                if closed {
                                    FrameParse::Fail { error: ScanError::JsonReadError }
                                } else {
                                    FrameParse::NeedMore { count: payload_len - rest.len() }
                                }
                            } else {
                                FrameParse::Done { payload: rest.take(payload_len) }
                            }
                        }
                    },
                }
            }
        },
    }
}

/// `r` is exactly what `parse_spec` prescribes.
pub open spec fn matches_parse(s: Seq<u8>, closed: bool, r: ParseOutcome) -> bool {
    match r {
        ParseOutcome::NeedMore { count } => parse_spec(s, closed) == (FrameParse::NeedMore {
            count: count as int,
        }),
        ParseOutcome::Done { payload } => parse_spec(s, closed) == (FrameParse::Done {
            payload: payload@,
        }),
        ParseOutcome::Fail { error } => parse_spec(s, closed) == (FrameParse::Fail { error }),
    }
}

/// Read one framed status response out of `data`, the bytes received so far.
pub fn parse_response(data: &[u8], closed: bool) -> (r: ParseOutcome)
    ensures
        matches_parse(data@, closed, r),
        r matches ParseOutcome::NeedMore { count } ==> 1 <= count <= 65536,
{
    let ghost s = data@;
    proof {
        assert(s.skip(0) =~= s);
    }
    let n = data.len();
    match decode_varint_at(data, 0) {
        None => if closed {
            ParseOutcome::Fail { error: ScanError::PacketFormatError }
        } else {
            ParseOutcome::NeedMore { count: 1 }
        },
        Some((_packet_len, n1)) => {
            proof {
                assert(s.skip(n1 as int).len() == s.len() - n1);
            }
            if n1 == n {
                if closed {
                    ParseOutcome::Fail { error: ScanError::ReadError }
                } else {
                    ParseOutcome::NeedMore { count: 1 }
                }
            } else if data[n1] != 0 {
                assert(s.skip(n1 as int)[0] == s[n1 as int]);
                ParseOutcome::Fail { error: ScanError::PacketFormatError }
            } else {
                assert(s.skip(n1 as int)[0] == s[n1 as int]);
                let pos = n1 + 1;
                proof {
                    assert(s.skip(n1 as int).skip(1) =~= s.skip(pos as int));
                }
                match decode_varint_at(data, pos) {
                    None => if closed {
                        ParseOutcome::Fail { error: ScanError::PacketFormatError }
                    } else {
                        ParseOutcome::NeedMore { count: 1 }
                    },
                    Some((payload_len, n2)) => {
                        if payload_len > 65536 {
                            ParseOutcome::Fail { error: ScanError::PleaseNoDoSError }
                        } else {
                            let start = pos + n2;
                            let want = payload_len as usize;
                            let avail = n - start;
                            proof {
                                assert(s.skip(pos as int).skip(n2 as int) =~= s.skip(
                                    start as int,
                                ));
                                assert(s.skip(start as int).len() == avail);
                            }
                            if avail < want {
                                if closed {
                                    ParseOutcome::Fail { error: ScanError::JsonReadError }
                                } else {
                                    ParseOutcome::NeedMore { count: want - avail }
                                }
                            } else {
                                let payload = slice_to_vec(slice_subrange(data, start, start
                                    + want));
                                proof {
                                    assert(s.skip(start as int).take(payload_len as int)
                                        =~= s.subrange(start as int, start as int + want));
                                }
                                ParseOutcome::Done { payload }
                            }
                        }
                    },
                }
            }
        },
    }
}

/// Law: for a well-formed frame head — any encoded packet length, one id
/// byte, an encoded payload length — the reader accepts the id byte only
/// when it is zero; caps the declared payload length at 65536, rejecting a
/// longer one before looking at any payload byte; hands back exactly the
/// declared number of payload bytes when they are all present; and treats a
/// stream that closes short of them as a failed payload read, never as a
/// partial success.
pub proof fn lemma_response_framing(
    packet_len: nat,
    id: u8,
    payload_len: nat,
    rest: Seq<u8>,
    closed: bool,
)
    requires
        packet_len < 0x100_0000_0000_0000,
        payload_len < 0x100_0000_0000_0000,
    ensures
        ({
            let s = crate::varint::encode_spec(packet_len) + seq![id]
                + crate::varint::encode_spec(payload_len) + rest;
            &&& id != 0 ==> parse_spec(s, closed) == (FrameParse::Fail {
                error: ScanError::PacketFormatError,
            })
            &&& id == 0 && payload_len > 65536 ==> parse_spec(s, closed) == (FrameParse::Fail {
                error: ScanError::PleaseNoDoSError,
            })
            &&& id == 0 && payload_len <= 65536 && rest.len() >= payload_len ==> parse_spec(
                s,
                closed,
            ) == (FrameParse::Done { payload: rest.take(payload_len as int) })
            &&& id == 0 && payload_len <= 65536 && rest.len() < payload_len && closed
                ==> parse_spec(s, closed) == (FrameParse::Fail { error: ScanError::JsonReadError })
            &&& id == 0 && payload_len <= 65536 && rest.len() < payload_len && !closed
                ==> parse_spec(s, closed) == (FrameParse::NeedMore {
                count: payload_len - rest.len(),
            })
        }),
{
    let e1 = crate::varint::encode_spec(packet_len);
    let e2 = crate::varint::encode_spec(payload_len);
    let s = e1 + seq![id] + e2 + rest;
    let tail1 = seq![id] + e2 + rest;
    assert(s =~= e1 + tail1);
    lemma_varint_round_trip(packet_len, tail1);
    assert(decode_spec(s) == Some((packet_len as int, e1.len() as int)));
    let after_len = s.skip(e1.len() as int);
    assert(after_len =~= tail1);
    assert(after_len[0] == id);
    if id == 0 {
        let after_id = after_len.skip(1);
        assert(after_id =~= e2 + rest);
        lemma_varint_round_trip(payload_len, rest);
        assert(decode_spec(after_id) == Some((payload_len as int, e2.len() as int)));
        if payload_len <= 65536 {
            let rest2 = after_id.skip(e2.len() as int);
            assert(rest2 =~= rest);
        }
    }
}

} // verus!
