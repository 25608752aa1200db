//! The MySQL server greeting (initial handshake packet): protocol version,
//! server version, connection id, authentication plugin data, capability and
//! status flags.

use vstd::prelude::*;
use crate::mysql::common::{
    first_nul, find_nul, le2, le4, lemma_first_nul, lossy_of, lossy_string, read_le2, read_le4,
};

verus! {

/// A decoded server greeting.
#[derive(Debug)]
pub struct Greeting {
    pub protocol_version: u8,
    pub server_version: String,
    pub connection_id: u32,
    pub auth_plugin_data: Vec<u8>,
    pub capability_flags: u16,
    pub server_language: u8,
    pub status_flags: u16,
    pub extended_capability_flags: u16,
    pub auth_plugin_len: u8,
    pub unused: [u8; 10],
    pub auth_plugin_data_2: Vec<u8>,
    pub auth_plugin_name: String,
}

/// End of the NUL-terminated server version string.
pub open spec fn greet_version_end(bytes: Seq<u8>) -> int {
    first_nul(bytes, 1)
}

/// Start of the fixed eight bytes of the first auth plugin data chunk.
pub open spec fn greet_auth1_start(bytes: Seq<u8>) -> int {
    greet_version_end(bytes) + 5
}

/// End of the first auth plugin data chunk: eight bytes, then one NUL.
pub open spec fn greet_auth1_end(bytes: Seq<u8>) -> int {
    greet_auth1_start(bytes) + 8
}

/// Start of the fixed-layout flag block after the first auth data chunk and
/// its NUL byte.
pub open spec fn greet_flags_start(bytes: Seq<u8>) -> int {
    greet_auth1_end(bytes) + 1
}

/// Start of the second auth plugin data chunk, after the flag block's
/// eighteen bytes.
pub open spec fn greet_auth2_start(bytes: Seq<u8>) -> int {
    greet_flags_start(bytes) + 18
}

/// Width of the second auth plugin data chunk's window: thirteen bytes, or
/// eight fewer than the announced auth plugin data length when that is more.
pub open spec fn greet_auth2_width(bytes: Seq<u8>) -> int {
    let apl = bytes[greet_flags_start(bytes) + 7];
    if apl - 8 > 13 {
        apl - 8
    } else {
        13
    }
}

/// End of the second chunk's content: it is NUL-terminated within its
/// window, and runs to the window's end when no NUL occurs inside.
pub open spec fn greet_auth2_end(bytes: Seq<u8>) -> int {
    let a2 = greet_auth2_start(bytes);
    let stop = a2 + greet_auth2_width(bytes);
    if first_nul(bytes, a2) < stop {
        first_nul(bytes, a2)
    } else {
        stop
    }
}

/// Start of the auth plugin name, after the second chunk's whole window.
pub open spec fn greet_name_start(bytes: Seq<u8>) -> int {
    greet_auth2_start(bytes) + greet_auth2_width(bytes)
}

/// A greeting body is well formed when the server version finds its NUL
/// terminator, the fixed fields fit, the byte after the first auth data
/// chunk is NUL, and the ten reserved bytes are all zero.
pub open spec fn greeting_wf(bytes: Seq<u8>) -> bool {
    let c = greet_flags_start(bytes);
    &&& bytes.len() >= 1
    &&& greet_version_end(bytes) < bytes.len()
    &&& greet_auth1_end(bytes) < bytes.len()
    &&& bytes[greet_auth1_end(bytes)] == 0
    &&& c + 18 <= bytes.len()
    &&& (forall|j: int| c + 8 <= j < c + 18 ==> bytes[j] == 0)
    &&& greet_name_start(bytes) <= bytes.len()
}

impl Greeting {
    /// Decodes a server greeting body. Rejects a body whose server version
    /// is unterminated, whose fixed fields do not fit, whose first auth data
    /// chunk lacks its NUL byte, or whose reserved bytes are not zero.
    pub fn new(payload: Vec<u8>) -> (r: Option<Self>)
        ensures
            r is Some <==> greeting_wf(payload@),
            r matches Some(g) ==> {
                let b = payload@;
                let v_end = greet_version_end(b);
                let a1 = greet_auth1_start(b);
                let c = greet_flags_start(b);
                let a2 = greet_auth2_start(b);
                let n = greet_name_start(b);
                &&& g.protocol_version == b[0]
                &&& g.server_version@ == lossy_of(b.subrange(1, v_end))
                &&& g.connection_id as int == le4(b[v_end + 1], b[v_end + 2], b[v_end + 3], b[v_end + 4])
                &&& g.auth_plugin_data@ == b.subrange(a1, greet_auth1_end(b))
                &&& g.capability_flags as int == le2(b[c], b[c + 1])
                &&& g.server_language == b[c + 2]
                &&& g.status_flags as int == le2(b[c + 3], b[c + 4])
                &&& g.extended_capability_flags as int == le2(b[c + 5], b[c + 6])
                &&& g.auth_plugin_len == b[c + 7]
                &&& g.auth_plugin_data_2@ == b.subrange(a2, greet_auth2_end(b))
                &&& g.auth_plugin_name@ == lossy_of(b.subrange(n, first_nul(b, n)))
            },
    {
        let b = payload.as_slice();
        let blen = b.len();
        if blen < 1 {
            return None;
        }
        let protocol_version = b[0];
        let v_end = find_nul(b, 1);
        proof {
            lemma_first_nul(b@, 1);
        }
        if v_end >= blen {
            return None;
        }
        let server_version = lossy_string(vstd::slice::slice_subrange(b, 1, v_end));
        // Connection id (4), auth data part 1 (8), its NUL (1): 13 bytes,
        // and one more so the NUL check below is in bounds.
        if blen - v_end < 14 {
            return None;
        }
        let connection_id = read_le4(b, v_end + 1);
        let a1 = v_end + 5;
        let a1_end = a1 + 8;
        if b[a1_end] != 0 {
            return None;
        }
        let auth_plugin_data = vstd::slice::slice_to_vec(
            vstd::slice::slice_subrange(b, a1, a1_end),
        );
        let c = a1_end + 1;
        if blen - c < 18 {
            return None;
        }
        let capability_flags = read_le2(b, c);
        let server_language = b[c + 2];
        let status_flags = read_le2(b, c + 3);
        let extended_capability_flags = read_le2(b, c + 5);
        let auth_plugin_len = b[c + 7];
        let unused = [0u8; 10];
        let mut j: usize = 0;
        while j < 10
            invariant
                0 <= j <= 10,
                b@ == payload@,
                blen == b@.len(),
                c + 18 <= blen,
                c == greet_flags_start(b@),
                forall|k: int| c + 8 <= k < c + 8 + j ==> b@[k] == 0,
            decreases 10 - j,
        {
            let idx = c + 8 + j;
            if b[idx] != 0 {
                proof {
                    assert(b@[idx as int] != 0);
                    assert(!greeting_wf(b@));
                }
                return None;
            }
            j += 1;
        }
        let a2 = c + 18;
        let width: usize = if auth_plugin_len as usize > 8 + 13 {
            auth_plugin_len as usize - 8
        } else {
            13
        };
        proof {
            assert(width as int == greet_auth2_width(b@));
        }
        if blen - a2 < width {
            return None;
        }
        let a2_nul = find_nul(b, a2);
        proof {
            lemma_first_nul(b@, a2 as int);
        }
        let a2_end = if a2_nul < a2 + width {
            a2_nul
        } else {
            a2 + width
        };
        let auth_plugin_data_2 = vstd::slice::slice_to_vec(
            vstd::slice::slice_subrange(b, a2, a2_end),
        );
        let n = a2 + width;
        let n_end = find_nul(b, n);
        proof {
            lemma_first_nul(b@, n as int);
        }
        let auth_plugin_name = lossy_string(vstd::slice::slice_subrange(b, n, n_end));
        Some(Greeting {
            protocol_version,
            server_version,
            connection_id,
            auth_plugin_data,
            capability_flags,
            server_language,
            status_flags,
            extended_capability_flags,
            auth_plugin_len,
            unused,
            auth_plugin_data_2,
            auth_plugin_name,
        })
    }
}

} // verus!
