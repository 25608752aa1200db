//! The MySQL ERR packet: header byte, error code, and — under protocol 4.1
//! — SQL-state marker and SQL state, followed by the error message.

use vstd::prelude::*;
use crate::Command;
use crate::mysql::common::{has_cap, le2, lossy_of, lossy_string, read_le2, CLIENT_PROTOCOL_41};

verus! {

/// A decoded ERR packet.
pub struct ErrPacket {
    pub header: Command,
    pub error_code: u16,
    pub sql_state_marker: Option<u8>,
    pub sql_state: Option<String>,
    pub error_message: String,
}

impl ErrPacket {
    /// Start of the error message in an ERR body: after the SQL state under
    /// protocol 4.1, right after the error code otherwise.
    pub open spec fn spec_msg_start(cap: u32) -> int {
        if has_cap(cap, CLIENT_PROTOCOL_41) {
            9
        } else {
            3
        }
    }

    /// Decodes an ERR body under the negotiated capabilities `cap`: the
    /// header byte, the error code as a little-endian 16-bit word, then —
    /// with `CLIENT_PROTOCOL_41` — one marker byte and five SQL-state bytes;
    /// everything after that, to the end of the body, is the error message.
    /// Rejects bodies shorter than the negotiated fixed part.
    pub fn new(cap: u32, payload: Vec<u8>) -> (r: Option<Self>)
        ensures
            r is Some <==> (payload@.len() >= 3 && (has_cap(cap, CLIENT_PROTOCOL_41)
                ==> payload@.len() >= 9)),
            r matches Some(p) ==> {
                let m = Self::spec_msg_start(cap);
                &&& p.header.0 == payload@[0]
                &&& p.error_code as int == le2(payload@[1], payload@[2])
                &&& if has_cap(cap, CLIENT_PROTOCOL_41) {
                    &&& p.sql_state_marker == Some(payload@[3])
                    &&& p.sql_state matches Some(s) && s@ == lossy_of(payload@.subrange(4, 9))
                } else {
                    &&& p.sql_state_marker is None
                    &&& p.sql_state is None
                }
                &&& p.error_message@ == lossy_of(payload@.skip(m))
            },
    {
        if payload.len() < 3 {
            return None;
        }
        let header = Command(payload[0]);
        let error_code = read_le2(payload.as_slice(), 1);
        let msg_start: usize;
        let sql_state_marker: Option<u8>;
        let sql_state: Option<String>;
        if cap & CLIENT_PROTOCOL_41 != 0 {
            if payload.len() < 9 {
                return None;
            }
            sql_state_marker = Some(payload[3]);
            let state = lossy_string(vstd::slice::slice_subrange(payload.as_slice(), 4, 9));
            sql_state = Some(state);
            msg_start = 9;
        } else {
            sql_state_marker = None;
            sql_state = None;
            msg_start = 3;
        }
        let error_message = lossy_string(
            vstd::slice::slice_subrange(payload.as_slice(), msg_start, payload.len()),
        );
        proof {
            assert(payload@.subrange(msg_start as int, payload@.len() as int)
                =~= payload@.skip(msg_start as int));
        }
        Some(ErrPacket { header, error_code, sql_state_marker, sql_state, error_message })
    }
}

} // verus!
