//! The MySQL QUERY command body: the command byte followed by the statement
//! text.

use vstd::prelude::*;
use crate::Command;
use crate::mysql::common::{lossy_of, lossy_string};

verus! {

/// A decoded client command carrying statement text.
pub struct QueryPacket {
    pub cmd: Command,
    pub query: String,
}

impl QueryPacket {
    /// Decodes a command body: the first byte is the command, everything
    /// after it is the statement text. Rejects an empty body.
    pub fn new(payload: Vec<u8>) -> (r: Option<Self>)
        ensures
            r is Some <==> payload@.len() >= 1,
            r matches Some(p) ==> {
                &&& p.cmd.0 == payload@[0]
                &&& p.query@ == lossy_of(payload@.skip(1))
            },
    {
        if payload.len() < 1 {
            return None;
        }
        let cmd = Command(payload[0]);
        let text = vstd::slice::slice_subrange(payload.as_slice(), 1, payload.len());
        let query = lossy_string(text);
        proof {
            assert(payload@.subrange(1, payload@.len() as int) =~= payload@.skip(1));
        }
        Some(QueryPacket { cmd, query })
    }
}

} // verus!
