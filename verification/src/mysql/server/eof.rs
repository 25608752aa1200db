//! The MySQL EOF packet: a `0xFE` header followed, when the protocol 4.1
//! capability was negotiated, by warning count and status flags.

use vstd::prelude::*;
use crate::Command;
use crate::mysql::common::{has_cap, le2, CLIENT_PROTOCOL_41};

verus! {

/// A decoded EOF packet.
pub struct EOFPacket {
    pub header: Command,
    pub warnings: u16,
    pub status_flags: u16,
}

impl EOFPacket {
    /// Decodes an EOF body under the negotiated capabilities `cap`: the
    /// header byte, then warning count and status flags as little-endian
    /// 16-bit words when `CLIENT_PROTOCOL_41` is set, zero otherwise.
    /// Rejects bodies shorter than the negotiated layout.
    pub fn new(cap: u32, payload: Vec<u8>) -> (r: Option<Self>)
        ensures
            r is Some <==> (payload@.len() >= 1 && (has_cap(cap, CLIENT_PROTOCOL_41)
                ==> payload@.len() >= 5)),
            r matches Some(p) ==> {
                &&& p.header.0 == payload@[0]
                &&& if has_cap(cap, CLIENT_PROTOCOL_41) {
                    p.warnings as int == le2(payload@[1], payload@[2])
                        && p.status_flags as int == le2(payload@[3], payload@[4])
                } else {
                    p.warnings == 0 && p.status_flags == 0
                }
            },
    {
        if payload.len() < 1 {
            return None;
        }
        let header = Command(payload[0]);
        if cap & CLIENT_PROTOCOL_41 != 0 {
            if payload.len() < 5 {
                return None;
            }
            let warnings = payload[1] as u16 + 0x100 * (payload[2] as u16);
            let status_flags = payload[3] as u16 + 0x100 * (payload[4] as u16);
            Some(EOFPacket { header, warnings, status_flags })
        } else {
            Some(EOFPacket { header, warnings: 0, status_flags: 0 })
        }
    }
}

} // verus!
