//! The generic MySQL OK response, with session-state-change and
//! session-track info strings.

use vstd::prelude::*;
use crate::Command;
use crate::mysql::common::{
    has_cap, le2, lossy_of, read_le2, read_len_enc_str, read_len_enc_int, spec_lenenc_dec,
    spec_lenenc_str_dec, CLIENT_PROTOCOL_41, CLIENT_SESSION_TRACK, SERVER_SESSION_STATE_CHANGED,
};

verus! {

/// A decoded OK response.
#[derive(Debug)]
pub struct OKPacket {
    pub cmd: Command,
    pub affected_rows: u64,
    pub last_insert_id: u64,
    pub status_flags: Option<u16>,
    pub warnings: Option<u16>,
    pub session_state_change: Option<SessionStateChange>,
    pub session_track_info: Option<SessionTrackInfo>,
}

/// The session-track info string of an OK response.
#[derive(Debug)]
pub struct SessionTrackInfo {
    pub info: String,
}

/// The session-state-change string of an OK response.
#[derive(Debug)]
pub struct SessionStateChange {
    pub info: String,
}

/// Everything a generic OK body decodes to under capabilities `cap`: header
/// byte, affected rows, last insert id, status flags and warnings (under
/// protocol 4.1), then — if anything follows — the session-state-change
/// string (under `CLIENT_SESSION_TRACK`, with the track info string when the
/// `SERVER_SESSION_STATE_CHANGED` status bit is set) or the track info
/// string alone. `None` when the body is malformed.
pub open spec fn spec_parse_general_ok(cap: u32, b: Seq<u8>) -> Option<
    (u8, u64, u64, Option<u16>, Option<u16>, Option<Seq<char>>, Option<Seq<char>>),
> {
    if b.len() < 1 {
        None
    } else {
        match spec_lenenc_dec(b, 1) {
            None => None,
            Some((ar, p1)) => match spec_lenenc_dec(b, p1) {
                None => None,
                Some((id, p2)) => {
                    let flags = if has_cap(cap, CLIENT_PROTOCOL_41) {
                        if p2 + 4 <= b.len() {
                            Some((Some(le2(b[p2], b[p2 + 1]) as u16),
                                Some(le2(b[p2 + 2], b[p2 + 3]) as u16), p2 + 4))
                        } else {
                            None
                        }
                    } else {
                        Some((None, None, p2))
                    };
                    match flags {
                        None => None,
                        Some((st, wn, p3)) => {
                            if p3 >= b.len() {
                                Some((b[0], ar, id, st, wn, None, None))
                            } else if has_cap(cap, CLIENT_SESSION_TRACK) {
                                match spec_lenenc_str_dec(b, p3) {
                                    None => None,
                                    Some((sc, p4)) => {
                                        if st matches Some(s) && s & SERVER_SESSION_STATE_CHANGED != 0 {
                                            match spec_lenenc_str_dec(b, p4) {
                                                None => None,
                                                Some((ti, _)) => Some((b[0], ar, id, st, wn,
                                                    Some(lossy_of(sc)), Some(lossy_of(ti)))),
                                            }
                                        } else {
                                            Some((b[0], ar, id, st, wn, Some(lossy_of(sc)), None))
                                        }
                                    },
                                }
                            } else {
                                match spec_lenenc_str_dec(b, p3) {
                                    None => None,
                                    Some((ti, _)) => Some((b[0], ar, id, st, wn, None,
                                        Some(lossy_of(ti)))),
                                }
                            }
                        },
                    }
                },
            },
        }
    }
}

impl OKPacket {
    /// Decodes a generic OK body under the negotiated capabilities `cap`,
    /// exactly as `spec_parse_general_ok` describes; rejects malformed
    /// bodies.
    pub fn new(cap: u32, payload: Vec<u8>) -> (r: Option<Self>)
        ensures
            r is Some <==> spec_parse_general_ok(cap, payload@) is Some,
            r matches Some(p) ==> spec_parse_general_ok(cap, payload@) matches Some(m) && {
                &&& p.cmd.0 == m.0
                &&& p.affected_rows == m.1
                &&& p.last_insert_id == m.2
                &&& p.status_flags == m.3
                &&& p.warnings == m.4
                &&& (p.session_state_change is Some <==> (m.5) is Some)
                &&& (p.session_state_change matches Some(sc) ==> sc.info@ == (m.5)->0)
                &&& (p.session_track_info is Some <==> (m.6) is Some)
                &&& (p.session_track_info matches Some(ti) ==> ti.info@ == (m.6)->0)
            },
    {
        let b = payload.as_slice();
        let blen = b.len();
        if blen < 1 {
            return None;
        }
        let cmd = Command(b[0]);
        let (affected_rows, p1) = match read_len_enc_int(b, 1) {
            Some(x) => x,
            None => { return None; },
        };
        let (last_insert_id, p2) = match read_len_enc_int(b, p1) {
            Some(x) => x,
            None => { return None; },
        };
        let status_flags: Option<u16>;
        let warnings: Option<u16>;
        let p3: usize;
        if cap & CLIENT_PROTOCOL_41 != 0 {
            if blen - p2 < 4 {
                return None;
            }
            status_flags = Some(read_le2(b, p2));
            warnings = Some(read_le2(b, p2 + 2));
            p3 = p2 + 4;
        } else {
            status_flags = None;
            warnings = None;
            p3 = p2;
        }
        if p3 >= blen {
            return Some(OKPacket {
                cmd,
                affected_rows,
                last_insert_id,
                status_flags,
                warnings,
                session_state_change: None,
                session_track_info: None,
            });
        }
        let session_state_change: Option<SessionStateChange>;
        let session_track_info: Option<SessionTrackInfo>;
        if cap & CLIENT_SESSION_TRACK != 0 {
            let (sc, p4) = match read_len_enc_str(b, p3) {
                Some(x) => x,
                None => { return None; },
            };
            session_state_change = Some(SessionStateChange { info: sc });
            let track_follows = match status_flags {
                Some(s) => s & SERVER_SESSION_STATE_CHANGED != 0,
                None => false,
            };
            if track_follows {
                let (ti, _) = match read_len_enc_str(b, p4) {
                    Some(x) => x,
                    None => { return None; },
                };
                session_track_info = Some(SessionTrackInfo { info: ti });
            } else {
                session_track_info = None;
            }
        } else {
            let (ti, _) = match read_len_enc_str(b, p3) {
                Some(x) => x,
                None => { return None; },
            };
            session_state_change = None;
            session_track_info = Some(SessionTrackInfo { info: ti });
        }
        Some(OKPacket {
            cmd,
            affected_rows,
            last_insert_id,
            status_flags,
            warnings,
            session_state_change,
            session_track_info,
        })
    }
}

} // verus!
