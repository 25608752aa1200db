//! The MySQL OK packet: affected rows and last insert id as length-encoded
//! integers, then status flags and warnings as the negotiated capabilities
//! dictate, then optional session-track information.

use vstd::prelude::*;
use crate::Command;
use crate::mysql::common::{
    has_cap, le2, lossy_of, lossy_string, read_le2, read_len_enc_str, read_len_enc_int,
    spec_lenenc_dec, spec_lenenc_str_dec, CLIENT_PROTOCOL_41, CLIENT_SESSION_TRACK,
    CLIENT_TRANSACTIONS, SERVER_SESSION_STATE_CHANGED,
};
use crate::mysql::server::{spec_track_type, SessionTrackType};

verus! {

/// A decoded OK packet.
#[derive(Debug)]
pub struct OKPacket {
    pub cmd: Command,
    pub affected_rows: u64,
    pub last_insert_id: u64,
    pub status_flags: Option<u16>,
    pub warnings: Option<u16>,
    pub session_track_info: Option<SessionTrackInfo>,
}

/// Session-track data carried by an OK packet.
#[derive(Debug)]
pub struct SessionTrackInfo {
    pub track_type: SessionTrackType,
    pub info: String,
    pub schema_change_info: Option<String>,
}

/// The two length-encoded integers after the header byte: affected rows and
/// last insert id, with the position after them.
pub open spec fn ok_ids(b: Seq<u8>) -> Option<(u64, u64, int)> {
    match spec_lenenc_dec(b, 1) {
        Some((ar, p1)) => match spec_lenenc_dec(b, p1) {
            Some((id, p2)) => Some((ar, id, p2)),
            None => None,
        },
        None => None,
    }
}

/// The status-flag block at `p`: under `CLIENT_PROTOCOL_41` both status flags
/// and warnings, under `CLIENT_TRANSACTIONS` status flags alone, otherwise
/// nothing; `None` when the block does not fit.
pub open spec fn ok_flags(cap: u32, b: Seq<u8>, p: int) -> Option<(Option<u16>, Option<u16>, int)> {
    if has_cap(cap, CLIENT_PROTOCOL_41) {
        if p + 4 <= b.len() {
            Some((Some(le2(b[p], b[p + 1]) as u16), Some(le2(b[p + 2], b[p + 3]) as u16), p + 4))
        } else {
            None
        }
    } else if has_cap(cap, CLIENT_TRANSACTIONS) {
        if p + 2 <= b.len() {
            Some((Some(le2(b[p], b[p + 1]) as u16), None, p + 2))
        } else {
            None
        }
    } else {
        Some((None, None, p))
    }
}

/// Session-track outcome: the track type, the info text, and the schema
/// change text when one is present.
pub type TrackModel = Option<(SessionTrackType, Seq<char>, Option<Seq<char>>)>;

/// The session-track tail of an OK body from position `p3` on: nothing when
/// the body ends there. When `CLIENT_SESSION_TRACK` was negotiated and the
/// `SERVER_SESSION_STATE_CHANGED` status bit is set, a length-encoded info
/// string is followed by the session-state block: its length-encoded total,
/// one type byte, the change's length-encoded size, and — for the schema
/// type — the length-encoded schema name. Otherwise the tail is the
/// human-readable info string alone.
pub open spec fn ok_track(cap: u32, b: Seq<u8>, p3: int, status: Option<u16>) -> Option<TrackModel> {
    let gate = has_cap(cap, CLIENT_SESSION_TRACK) && (match status {
        Some(st) => st & SERVER_SESSION_STATE_CHANGED != 0,
        None => false,
    });
    if p3 >= b.len() {
        Some(None)
    } else if !gate {
        match spec_lenenc_str_dec(b, p3) {
            None => None,
            Some((info, _)) => Some(Some((SessionTrackType::Other, lossy_of(info), None))),
        }
    } else {
        match spec_lenenc_str_dec(b, p3) {
            None => None,
            Some((info, p4)) => match spec_lenenc_dec(b, p4) {
                None => None,
                Some((total, p5)) => {
                    if p5 >= b.len() {
                        None
                    } else {
                        let ttype = b[p5];
                        match spec_lenenc_dec(b, p5 + 1) {
                            None => None,
                            Some((dlen, p6)) => {
                                if ttype == 1 {
                                    match spec_lenenc_str_dec(b, p6) {
                                        None => None,
                                        Some((name, _)) => Some(Some((
                                            SessionTrackType::SessionTrackSchema,
                                            lossy_of(info),
                                            Some(lossy_of(name)),
                                        ))),
                                    }
                                } else {
                                    Some(Some((spec_track_type(ttype), lossy_of(info), None)))
                                }
                            },
                        }
                    }
                },
            },
        }
    }
}

/// Everything an OK body decodes to under capabilities `cap`, or `None` when
/// it is malformed.
pub open spec fn spec_parse_ok(cap: u32, b: Seq<u8>) -> Option<(u8, u64, u64, Option<u16>, Option<u16>, TrackModel)> {
    if b.len() < 1 {
        None
    } else {
        match ok_ids(b) {
            None => None,
            Some((ar, id, p2)) => match ok_flags(cap, b, p2) {
                None => None,
                Some((st, wn, p3)) => match ok_track(cap, b, p3, st) {
                    None => None,
                    Some(track) => Some((b[0], ar, id, st, wn, track)),
                },
            },
        }
    }
}

/// Whether a decoded session-track field matches its model.
pub open spec fn track_matches(t: Option<SessionTrackInfo>, m: TrackModel) -> bool {
    &&& (t is Some <==> m is Some)
    &&& (t matches Some(ti) ==> {
        let tm = m->0;
        &&& ti.track_type == tm.0
        &&& ti.info@ == tm.1
        &&& (ti.schema_change_info is Some <==> (tm.2) is Some)
        &&& (ti.schema_change_info matches Some(sc) ==> sc@ == (tm.2)->0)
    })
}

impl OKPacket {
    /// Decodes an OK body under the negotiated capabilities `cap`, exactly
    /// as `spec_parse_ok` describes; rejects malformed bodies.
    pub fn new(cap: u32, payload: Vec<u8>) -> (r: Option<Self>)
        ensures
            r is Some <==> spec_parse_ok(cap, payload@) is Some,
            r matches Some(p) ==> spec_parse_ok(cap, payload@) matches Some(m) && {
                &&& p.cmd.0 == m.0
                &&& p.affected_rows == m.1
                &&& p.last_insert_id == m.2
                &&& p.status_flags == m.3
                &&& p.warnings == m.4
                &&& track_matches(p.session_track_info, m.5)
            },
    {
        let b = payload.as_slice();
        let blen = b.len();
        if blen < 1 {
            return None;
        }
        let cmd = Command(b[0]);
        let (affected_rows, p1) = match read_len_enc_int(b, 1) {
            Some(x) => x,
            None => { return None; },
        };
        let (last_insert_id, p2) = match read_len_enc_int(b, p1) {
            Some(x) => x,
            None => { return None; },
        };
        let status_flags: Option<u16>;
        let warnings: Option<u16>;
        let p3: usize;
        if cap & CLIENT_PROTOCOL_41 != 0 {
            if blen - p2 < 4 {
                return None;
            }
            status_flags = Some(read_le2(b, p2));
            warnings = Some(read_le2(b, p2 + 2));
            p3 = p2 + 4;
        } else if cap & CLIENT_TRANSACTIONS != 0 {
            if blen - p2 < 2 {
                return None;
            }
            status_flags = Some(read_le2(b, p2));
            warnings = None;
            p3 = p2 + 2;
        } else {
            status_flags = None;
            warnings = None;
            p3 = p2;
        }
        if p3 >= blen {
            return Some(OKPacket {
                cmd,
                affected_rows,
                last_insert_id,
                status_flags,
                warnings,
                session_track_info: None,
            });
        }
        let gate = cap & CLIENT_SESSION_TRACK != 0 && (match status_flags {
            Some(st) => st & SERVER_SESSION_STATE_CHANGED != 0,
            None => false,
        });
        let session_track_info: Option<SessionTrackInfo>;
        if !gate {
            let (info, _) = match read_len_enc_str(b, p3) {
                Some(x) => x,
                None => { return None; },
            };
            session_track_info = Some(SessionTrackInfo {
                track_type: SessionTrackType::Other,
                info,
                schema_change_info: None,
            });
        } else {
            let (info, p4) = match read_len_enc_str(b, p3) {
                Some(x) => x,
                None => { return None; },
            };
            let (_total, p5) = match read_len_enc_int(b, p4) {
                Some(x) => x,
                None => { return None; },
            };
            if p5 >= blen {
                return None;
            }
            let ttype = b[p5];
            let (_dlen, p6) = match read_len_enc_int(b, p5 + 1) {
                Some(x) => x,
                None => { return None; },
            };
            if ttype == 1 {
                let (name, _) = match read_len_enc_str(b, p6) {
                    Some(x) => x,
                    None => { return None; },
                };
                session_track_info = Some(SessionTrackInfo {
                    track_type: SessionTrackType::SessionTrackSchema,
                    info,
                    schema_change_info: Some(name),
                });
            } else {
                session_track_info = Some(SessionTrackInfo {
                    track_type: SessionTrackType::from_byte(ttype),
                    info,
                    schema_change_info: None,
                });
            }
        }
        Some(OKPacket {
            cmd,
            affected_rows,
            last_insert_id,
            status_flags,
            warnings,
            session_track_info,
        })
    }
}

} // verus!
