//! Server-direction MySQL packet bodies.

pub mod eof;
pub mod err;
pub mod general_response;
pub mod greeting;
pub mod ok;
pub mod tabular;

use vstd::prelude::*;

verus! {

/// The session-state-change categories a server may report in an OK packet.
#[derive(Debug, Clone, Copy, PartialEq, Eq, Structural)]
pub enum SessionTrackType {
    SessionTrackSchema,
    SessionTrackStateChange,
    SessionTrackGtids,
    SessionTrackTransactionCharacteristics,
    SessionTrackTransactionState,
    Other,
}

/// The category a session-track type byte announces.
pub open spec fn spec_track_type(v: u8) -> SessionTrackType {
    if v == 1 {
        SessionTrackType::SessionTrackSchema
    } else if v == 2 {
        SessionTrackType::SessionTrackStateChange
    } else if v == 3 {
        SessionTrackType::SessionTrackGtids
    } else if v == 4 {
        SessionTrackType::SessionTrackTransactionCharacteristics
    } else if v == 5 {
        SessionTrackType::SessionTrackTransactionState
    } else {
        SessionTrackType::Other
    }
}

impl SessionTrackType {
    /// The category a session-track type byte announces.
    pub fn from_byte(v: u8) -> (r: SessionTrackType)
        ensures
            r == spec_track_type(v),
    {
        match v {
            0x1 => SessionTrackType::SessionTrackSchema,
            0x2 => SessionTrackType::SessionTrackStateChange,
            0x3 => SessionTrackType::SessionTrackGtids,
            0x4 => SessionTrackType::SessionTrackTransactionCharacteristics,
            0x5 => SessionTrackType::SessionTrackTransactionState,
            _ => SessionTrackType::Other,
        }
    }
}

/// How the first byte of a server-direction packet body is to be read, in
/// precedence order: `0x00` with at least seven body bytes is an OK packet,
/// `0xFF` an ERR packet, `0xFE` with fewer than nine body bytes an EOF
/// packet, `0xFB` a LOCAL INFILE request; anything else — including a long
/// `0xFE` body — starts a resultset with its column count.
#[derive(Debug, Clone, Copy, PartialEq, Eq, Structural)]
pub enum ServerPacketKind {
    OkResponse,
    ErrResponse,
    EofResponse,
    LocalInfile,
    ResultSetHead,
}

/// The kind of a non-empty server packet body, by its first byte and the
/// precedence the wire format requires.
pub open spec fn spec_server_kind(b: Seq<u8>) -> ServerPacketKind {
    let b0 = b[0];
    if b0 == 0x00 && b.len() >= 7 {
        ServerPacketKind::OkResponse
    } else if b0 == 0xFF {
        ServerPacketKind::ErrResponse
    } else if b0 == 0xFE && b.len() < 9 {
        ServerPacketKind::EofResponse
    } else if b0 == 0xFB {
        ServerPacketKind::LocalInfile
    } else {
        ServerPacketKind::ResultSetHead
    }
}

/// Classifies a server packet body by its first byte, with the precedence
/// the wire format requires; an empty body has no kind.
pub fn classify_server_packet(body: &[u8]) -> (r: Option<ServerPacketKind>)
    ensures
        body@.len() == 0 <==> r is None,
        body@.len() >= 1 ==> r == Some(spec_server_kind(body@)),
{
    if body.len() == 0 {
        return None;
    }
    let b0 = body[0];
    if b0 == 0x00 && body.len() >= 7 {
        Some(ServerPacketKind::OkResponse)
    } else if b0 == 0xFF {
        Some(ServerPacketKind::ErrResponse)
    } else if b0 == 0xFE && body.len() < 9 {
        Some(ServerPacketKind::EofResponse)
    } else if b0 == 0xFB {
        Some(ServerPacketKind::LocalInfile)
    } else {
        Some(ServerPacketKind::ResultSetHead)
    }
}

} // verus!
