//! Tabular server responses: text resultsets (column count, column
//! definitions, rows, terminator) and LOCAL INFILE inline chunks.

use vstd::prelude::*;
use crate::mysql::common::{
    first_byte, find_byte, first_nul, find_nul, has_cap, le2, le4, lemma_first_byte,
    lemma_first_nul, read_le2, read_le4, read_len_enc_int, spec_lenenc_dec,
    CLIENT_DEPRECATE_EOF, CLIENT_OPTIONAL_RESULTSET_METADATA, CLIENT_PROTOCOL_41,
};
use crate::mysql::server::eof::EOFPacket;
use crate::mysql::server::{classify_server_packet, spec_server_kind, ServerPacketKind};

verus! {

/// One inline chunk of a LOCAL INFILE response.
pub struct LocalInline {
    pub packet_type: u8,
    pub payload: Option<Vec<u8>>,
}

/// Whether a resultset carries column metadata.
pub enum MetadataType {
    ResultSetMetadataNone,
    ResultSetMetadataFull,
}

/// One column definition of a text resultset.
pub struct ColDef {
    pub catalog: Vec<u8>,
    pub schema: Vec<u8>,
    pub table: Vec<u8>,
    pub org_table: Vec<u8>,
    pub name: Vec<u8>,
    pub org_name: Vec<u8>,
    pub length_of_fixed_length_fields: u64,
    pub charset: u16,
    pub column_length: u32,
    pub column_type: u8,
    pub flags: u16,
    pub decimals: u8,
}

/// A decoded text resultset.
pub struct TextResult {
    pub metadata_follows: Option<MetadataType>,
    pub column_count: u64,
    pub column_defs: Vec<ColDef>,
    pub eof: Option<EOFPacket>,
    pub row: Vec<u8>,
    pub terminator: u8,
    pub error_details: Option<Vec<u8>>,
    pub execution_details: Option<Vec<u8>>,
    pub eof_marker: Option<EOFPacket>,
}

/// Size of an EOF packet in a resultset stream: five bytes under protocol
/// 4.1, the header byte alone otherwise.
pub open spec fn eof_size(cap: u32) -> int {
    if has_cap(cap, CLIENT_PROTOCOL_41) {
        5
    } else {
        1
    }
}

/// End of the column-definition block: ten bytes per column when resultset
/// metadata is carried, nothing otherwise.
pub open spec fn tr_defs_end(cap: u32, p: int, cc: u64) -> int {
    if has_cap(cap, CLIENT_OPTIONAL_RESULTSET_METADATA) {
        p + 10 * cc
    } else {
        p
    }
}

/// End of the metadata-terminating EOF packet, present unless
/// `CLIENT_DEPRECATE_EOF` was negotiated.
pub open spec fn tr_eof_end(cap: u32, p: int) -> int {
    if !has_cap(cap, CLIENT_DEPRECATE_EOF) {
        p + eof_size(cap)
    } else {
        p
    }
}

/// The column definition encoded at offset `o`.
pub open spec fn coldef_at(b: Seq<u8>, o: int, d: ColDef) -> bool {
    &&& d.catalog@.len() == 0
    &&& d.schema@.len() == 0
    &&& d.table@.len() == 0
    &&& d.org_table@.len() == 0
    &&& d.name@.len() == 0
    &&& d.org_name@.len() == 0
    &&& d.length_of_fixed_length_fields == 0x0c
    &&& d.charset as int == le2(b[o], b[o + 1])
    &&& d.column_length as int == le4(b[o + 2], b[o + 3], b[o + 4], b[o + 5])
    &&& d.column_type == b[o + 6]
    &&& d.flags as int == le2(b[o + 7], b[o + 8])
    &&& d.decimals == b[o + 9]
}

/// A text resultset body is well formed when its column count decodes and is
/// positive, the column definitions and the metadata EOF packet the
/// capabilities call for fit, the row data finds its `0xFB` marker, and a
/// terminator byte follows — `0xFE`, `0x00`, or `0xFF` with room for the
/// final EOF packet.
pub open spec fn text_result_wf(cap: u32, b: Seq<u8>) -> bool {
    match spec_lenenc_dec(b, 0) {
        None => false,
        Some((cc, p)) => {
            let defs_end = tr_defs_end(cap, p, cc);
            let eof_end = tr_eof_end(cap, defs_end);
            let fb = first_byte(b, eof_end, 0xfb);
            let term_pos = fb + 1;
            &&& cc > 0
            &&& (has_cap(cap, CLIENT_OPTIONAL_RESULTSET_METADATA)
                ==> cc <= (b.len() - p) / 10)
            &&& eof_end <= b.len()
            &&& fb < b.len()
            &&& term_pos < b.len()
            &&& (b[term_pos] == 0xfe || b[term_pos] == 0x00 || (b[term_pos] == 0xff
                && term_pos + 1 + eof_size(cap) <= b.len()))
        },
    }
}

impl TextResult {
    /// Decodes a text resultset body: a length-encoded column count (zero is
    /// rejected), column definitions when resultset metadata is carried, an
    /// EOF packet unless `CLIENT_DEPRECATE_EOF` was negotiated, the row data
    /// up to its `0xFB` marker, and a terminator — `0xFE` heading error
    /// details, `0x00` heading execution details, `0xFF` heading a final EOF
    /// packet. Anything else, or a body too short for any of the parts,
    /// is rejected.
    pub fn new(cap: u32, b: &[u8]) -> (r: Option<TextResult>)
        ensures
            r is Some <==> text_result_wf(cap, b@),
            r matches Some(t) ==> spec_lenenc_dec(b@, 0) matches Some((cc, p)) && {
                let defs_end = tr_defs_end(cap, p, cc);
                let eof_end = tr_eof_end(cap, defs_end);
                let fb = first_byte(b@, eof_end, 0xfb);
                let term_pos = fb + 1;
                &&& cc > 0
                &&& t.column_count == cc
                &&& defs_end <= b@.len()
                &&& (t.metadata_follows matches Some(m) ==> (m is ResultSetMetadataFull
                    <==> has_cap(cap, CLIENT_OPTIONAL_RESULTSET_METADATA)))
                &&& t.metadata_follows is Some
                &&& (has_cap(cap, CLIENT_OPTIONAL_RESULTSET_METADATA) ==> {
                    &&& t.column_defs@.len() == cc
                    &&& forall|i: int| 0 <= i < cc ==> coldef_at(b@, p + 10 * i, #[trigger] t.column_defs@[i])
                })
                &&& (!has_cap(cap, CLIENT_OPTIONAL_RESULTSET_METADATA) ==> t.column_defs@.len() == 0)
                &&& (t.eof is Some <==> !has_cap(cap, CLIENT_DEPRECATE_EOF))
                &&& eof_end <= b@.len()
                &&& fb < b@.len()
                &&& term_pos < b@.len()
                &&& t.terminator == b@[term_pos]
                &&& (t.terminator == 0xfe <==> t.error_details is Some)
                &&& (t.error_details matches Some(d)
                    ==> d@ == b@.subrange(term_pos + 1, first_nul(b@, term_pos + 1)))
                &&& (t.terminator == 0x00 <==> t.execution_details is Some)
                &&& (t.execution_details matches Some(d)
                    ==> d@ == b@.subrange(term_pos + 1, first_nul(b@, term_pos + 1)))
                &&& (t.terminator == 0xff <==> t.eof_marker is Some)
                &&& (t.terminator == 0xfe || t.terminator == 0x00 || t.terminator == 0xff)
            },
    {
        let blen = b.len();
        let metadata_follows = if cap & CLIENT_OPTIONAL_RESULTSET_METADATA != 0 {
            Some(MetadataType::ResultSetMetadataFull)
        } else {
            Some(MetadataType::ResultSetMetadataNone)
        };
        let (column_count, p) = match read_len_enc_int(b, 0) {
            Some(x) => x,
            None => { return None; },
        };
        if column_count == 0 {
            return None;
        }
        let mut column_defs: Vec<ColDef> = Vec::new();
        let mut defs_end: usize = p;
        if cap & CLIENT_OPTIONAL_RESULTSET_METADATA != 0 {
            if column_count > ((blen - p) / 10) as u64 {
                return None;
            }
            let cc = column_count as usize;
            proof {
                assert(10 * (((blen - p) as int) / 10) <= (blen - p) as int) by (nonlinear_arith);
                assert(p + 10 * cc <= b@.len());
            }
            let mut i: usize = 0;
            while i < cc
                invariant
                    0 <= i <= cc,
                    cc == column_count,
                    blen == b@.len(),
                    p + 10 * cc <= blen,
                    column_defs@.len() == i,
                    forall|k: int| 0 <= k < i ==> coldef_at(b@, p + 10 * k, #[trigger] column_defs@[k]),
                decreases cc - i,
            {
                let o = p + 10 * i;
                let charset = read_le2(b, o);
                let column_length = read_le4(b, o + 2);
                let column_type = b[o + 6];
                let flags = read_le2(b, o + 7);
                let decimals = b[o + 9];
                column_defs.push(ColDef {
                    catalog: Vec::new(),
                    schema: Vec::new(),
                    table: Vec::new(),
                    org_table: Vec::new(),
                    name: Vec::new(),
                    org_name: Vec::new(),
                    length_of_fixed_length_fields: 0x0c,
                    charset,
                    column_length,
                    column_type,
                    flags,
                    decimals,
                });
                i += 1;
            }
            defs_end = p + 10 * cc;
        }
        let eof: Option<EOFPacket>;
        let eof_end: usize;
        if cap & CLIENT_DEPRECATE_EOF == 0 {
            let esz: usize = if cap & CLIENT_PROTOCOL_41 != 0 { 5 } else { 1 };
            if blen - defs_end < esz {
                return None;
            }
            let epkt = EOFPacket::new(cap, vstd::slice::slice_to_vec(
                vstd::slice::slice_subrange(b, defs_end, defs_end + esz)));
            eof = match epkt {
                Some(e) => Some(e),
                None => { return None; },
            };
            eof_end = defs_end + esz;
        } else {
            eof = None;
            eof_end = defs_end;
        }
        // The row data is carried up to its 0xFB marker and not decoded.
        let fb = find_byte(b, eof_end, 0xfb);
        proof {
            lemma_first_byte(b@, eof_end as int, 0xfb);
        }
        if fb >= blen {
            return None;
        }
        let term_pos = fb + 1;
        if term_pos >= blen {
            return None;
        }
        let terminator = b[term_pos];
        let row: Vec<u8> = Vec::new();
        if terminator == 0xfe {
            let d_end = find_nul(b, term_pos + 1);
            proof {
                lemma_first_nul(b@, term_pos as int + 1);
            }
            let details = vstd::slice::slice_to_vec(
                vstd::slice::slice_subrange(b, term_pos + 1, d_end));
            Some(TextResult {
                metadata_follows,
                column_count,
                column_defs,
                eof,
                row,
                terminator,
                error_details: Some(details),
                execution_details: None,
                eof_marker: None,
            })
        } else if terminator == 0x00 {
            let d_end = find_nul(b, term_pos + 1);
            proof {
                lemma_first_nul(b@, term_pos as int + 1);
            }
            let details = vstd::slice::slice_to_vec(
                vstd::slice::slice_subrange(b, term_pos + 1, d_end));
            Some(TextResult {
                metadata_follows,
                column_count,
                column_defs,
                eof,
                row,
                terminator,
                error_details: None,
                execution_details: Some(details),
                eof_marker: None,
            })
        } else if terminator == 0xff {
            let esz: usize = if cap & CLIENT_PROTOCOL_41 != 0 { 5 } else { 1 };
            if blen - (term_pos + 1) < esz {
                return None;
            }
            let marker = match EOFPacket::new(cap, vstd::slice::slice_to_vec(
                vstd::slice::slice_subrange(b, term_pos + 1, term_pos + 1 + esz))) {
                Some(e) => Some(e),
                None => { return None; },
            };
            Some(TextResult {
                metadata_follows,
                column_count,
                column_defs,
                eof,
                row,
                terminator,
                error_details: None,
                execution_details: None,
                eof_marker: marker,
            })
        } else {
            None
        }
    }
}

/// A decoded tabular response: either a text resultset or LOCAL INFILE
/// inline chunks, discriminated by the first byte.
pub struct Tabular {
    pub packet_type: u8,
    pub result_sets: Option<TextResult>,
    pub local_inlines: Option<Vec<LocalInline>>,
}

/// Decodes LOCAL INFILE inline chunks at `p`: each is a non-zero tag byte, a
/// one-byte length, and that many payload bytes; a zero tag byte ends the
/// list. `None` when the bytes run out before the list ends.
pub open spec fn spec_inlines(b: Seq<u8>, p: int) -> Option<(Seq<(u8, Seq<u8>)>, int)>
    decreases b.len() - p,
{
    if p < 0 || p >= b.len() {
        None
    } else if b[p] == 0 {
        Some((Seq::empty(), p + 1))
    } else if p + 2 > b.len() {
        None
    } else {
        let l = b[p + 1];
        if p + 2 + l > b.len() {
            None
        } else {
            match spec_inlines(b, p + 2 + l) {
                None => None,
                Some((rest, e)) => Some((seq![(b[p], b.subrange(p + 2, p + 2 + l))] + rest, e)),
            }
        }
    }
}

/// The chunks a sequence of `LocalInline`s stands for.
pub open spec fn inlines_view(s: Seq<LocalInline>) -> Seq<(u8, Seq<u8>)> {
    s.map_values(|li: LocalInline| (li.packet_type, (li.payload)->0@))
}

/// Reads LOCAL INFILE inline chunks at `p`, as `spec_inlines` describes.
fn read_inlines(b: &[u8], p: usize) -> (r: Option<Vec<LocalInline>>)
    requires
        p <= b@.len(),
    ensures
        r is Some <==> spec_inlines(b@, p as int) is Some,
        r matches Some(v) ==> {
            &&& spec_inlines(b@, p as int) matches Some((chunks, _))
                && inlines_view(v@) == chunks
            &&& forall|i: int| 0 <= i < v@.len() ==> (#[trigger] v@[i]).payload is Some
        },
{
    let mut out: Vec<LocalInline> = Vec::new();
    let mut q: usize = p;
    proof {
        assert(inlines_view(out@) =~= Seq::<(u8, Seq<u8>)>::empty());
    }
    loop
        invariant
            p <= q <= b@.len(),
            spec_inlines(b@, p as int) is Some <==> spec_inlines(b@, q as int) is Some,
            spec_inlines(b@, q as int) matches Some((rest, e)) ==> spec_inlines(b@, p as int)
                == Some((inlines_view(out@) + rest, e)),
            forall|i: int| 0 <= i < out@.len() ==> (#[trigger] out@[i]).payload is Some,
        ensures
            spec_inlines(b@, p as int) matches Some((chunks, _))
                && inlines_view(out@) == chunks,
            forall|i: int| 0 <= i < out@.len() ==> (#[trigger] out@[i]).payload is Some,
        decreases b@.len() - q,
    {
        if q >= b.len() {
            proof {
                assert(spec_inlines(b@, q as int) is None);
            }
            return None;
        }
        let tag = b[q];
        if tag == 0 {
            proof {
                assert(spec_inlines(b@, q as int) == Some((
                    Seq::<(u8, Seq<u8>)>::empty(), q as int + 1)));
                assert(inlines_view(out@) + Seq::<(u8, Seq<u8>)>::empty() =~= inlines_view(out@));
            }
            break;
        }
        if b.len() - q < 2 {
            return None;
        }
        let l = b[q + 1] as usize;
        if b.len() - (q + 2) < l {
            return None;
        }
        let ghost old_out = out@;
        let payload = vstd::slice::slice_to_vec(vstd::slice::slice_subrange(b, q + 2, q + 2 + l));
        out.push(LocalInline { packet_type: tag, payload: Some(payload) });
        let q0 = q;
        q = q + 2 + l;
        proof {
            let chunk = (b@[q0 as int], b@.subrange(q0 as int + 2, q0 as int + 2 + l as int));
            assert(inlines_view(out@) =~= inlines_view(old_out).push(chunk));
            assert forall|rest: Seq<(u8, Seq<u8>)>|
                inlines_view(old_out) + (seq![chunk] + rest) == inlines_view(out@) + rest by {
                assert(inlines_view(old_out) + (seq![chunk] + rest)
                    =~= inlines_view(out@) + rest);
            }
        }
    }
    Some(out)
}

impl Tabular {
    /// Decodes a tabular server response by the first-byte precedence: an
    /// OK, ERR or EOF header is not tabular and is rejected; `0xFB` heads
    /// LOCAL INFILE inline chunks; any other body is a text resultset whose
    /// column count opens it.
    pub fn new(cap: u32, b: &[u8]) -> (r: Option<Tabular>)
        ensures
            b@.len() == 0 ==> r is None,
            b@.len() >= 1 ==> {
                let k = spec_server_kind(b@);
                &&& (k == ServerPacketKind::OkResponse || k == ServerPacketKind::ErrResponse
                    || k == ServerPacketKind::EofResponse ==> r is None)
                &&& (k == ServerPacketKind::LocalInfile ==> (r is Some <==> spec_inlines(b@, 1)
                    is Some))
                &&& (k == ServerPacketKind::ResultSetHead ==> (r is Some <==> text_result_wf(
                    cap, b@)))
                &&& (r matches Some(t) ==> {
                    &&& t.packet_type == b@[0]
                    &&& (k == ServerPacketKind::LocalInfile ==> {
                        &&& t.result_sets is None
                        &&& t.local_inlines matches Some(v) && spec_inlines(b@, 1)
                            matches Some((chunks, _)) && inlines_view(v@) == chunks
                    })
                    &&& (k == ServerPacketKind::ResultSetHead ==> {
                        &&& t.local_inlines is None
                        &&& t.result_sets is Some
                    })
                })
            },
    {
        let kind = match classify_server_packet(b) {
            Some(k) => k,
            None => { return None; },
        };
        let packet_type = b[0];
        match kind {
            ServerPacketKind::LocalInfile => {
                let inlines = match read_inlines(b, 1) {
                    Some(v) => v,
                    None => { return None; },
                };
                Some(Tabular { packet_type, result_sets: None, local_inlines: Some(inlines) })
            },
            ServerPacketKind::ResultSetHead => {
                let result_sets = match TextResult::new(cap, b) {
                    Some(t) => Some(t),
                    None => { return None; },
                };
                Some(Tabular { packet_type, result_sets, local_inlines: None })
            },
            _ => None,
        }
    }
}

} // verus!
