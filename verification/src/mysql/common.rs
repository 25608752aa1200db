//! Shared MySQL wire-format definitions: capability flags, command bytes,
//! the packet header layout, and length-encoded integers and strings.

use vstd::prelude::*;
use crate::{Command, DBPacket, DBType};

verus! {

// Client capability flags, negotiated during the handshake.
pub const CLIENT_LONG_PASSWORD: u32 = 1;
pub const CLIENT_FOUND_ROWS: u32 = 2;
pub const CLIENT_LONG_FLAG: u32 = 4;
pub const CLIENT_CONNECT_WITH_DB: u32 = 8;
pub const CLIENT_NO_SCHEMA: u32 = 16;
pub const CLIENT_COMPRESS: u32 = 32;
pub const CLIENT_ODBC: u32 = 64;
pub const CLIENT_LOCAL_FILES: u32 = 128;
pub const CLIENT_IGNORE_SPACE: u32 = 256;
pub const CLIENT_PROTOCOL_41: u32 = 512;
pub const CLIENT_INTERACTIVE: u32 = 1024;
pub const CLIENT_SSL: u32 = 2048;
pub const CLIENT_IGNORE_SIGPIPE: u32 = 4096;
pub const CLIENT_TRANSACTIONS: u32 = 8192;
pub const CLIENT_RESERVED: u32 = 16384;
pub const CLIENT_RESERVED2: u32 = 32768;
pub const CLIENT_SECURE_CONNECTION: u32 = 32768;
pub const CLIENT_MULTI_STATEMENTS: u32 = 1 << 16;
pub const CLIENT_MULTI_RESULTS: u32 = 1 << 17;
pub const CLIENT_PS_MULTI_RESULTS: u32 = 1 << 18;
pub const CLIENT_PLUGIN_AUTH: u32 = 1 << 19;
pub const CLIENT_CONNECT_ATTRS: u32 = 1 << 20;
pub const CLIENT_PLUGIN_AUTH_LENENC_CLIENT_DATA: u32 = 1 << 21;
pub const CLIENT_CAN_HANDLE_EXPIRED_PASSWORDS: u32 = 1 << 22;
pub const CLIENT_SESSION_TRACK: u32 = 1 << 23;
pub const CLIENT_DEPRECATE_EOF: u32 = 1 << 24;
pub const CLIENT_OPTIONAL_RESULTSET_METADATA: u32 = 1 << 25;
pub const CLIENT_ZSTD_COMPRESSION_ALGORITHM: u32 = 1 << 26;
pub const CLIENT_QUERY_ATTRIBUTES: u32 = 1 << 27;
pub const MULTI_FACTOR_AUTHENTICATION: u32 = 1 << 28;
pub const CLIENT_CAPABILITY_EXTENSION: u32 = 1 << 29;
pub const CLIENT_SSL_VERIFY_SERVER_CERT: u32 = 1 << 30;
pub const CLIENT_REMEMBER_OPTIONS: u32 = 1 << 31;

// Server status flags.
pub const SERVER_STATUS_IN_TRANS: u32 = 1;
pub const SERVER_STATUS_AUTOCOMMIT: u32 = 2;
pub const SERVER_MORE_RESULTS_EXISTS: u32 = 8;
pub const SERVER_QUERY_NO_GOOD_INDEX_USED: u32 = 16;
pub const SERVER_QUERY_NO_INDEX_USED: u32 = 32;
pub const SERVER_STATUS_CURSOR_EXISTS: u32 = 64;
pub const SERVER_STATUS_LAST_ROW_SENT: u32 = 128;
pub const SERVER_STATUS_DB_DROPPED: u32 = 256;
pub const SERVER_STATUS_NO_BACKSLASH_ESCAPES: u32 = 512;
pub const SERVER_STATUS_METADATA_CHANGED: u32 = 1024;
pub const SERVER_QUERY_WAS_SLOW: u32 = 2048;
pub const SERVER_PS_OUT_PARAMS: u32 = 4096;
pub const SERVER_STATUS_IN_TRANS_READONLY: u32 = 8192;
pub const SERVER_SESSION_STATE_CHANGED: u16 = 1 << 14;

// Command bytes carried in the first byte of a client request body.
pub const QUIT: u8 = 0x01;
pub const INIT_DB: u8 = 0x02;
pub const QUERY: u8 = 0x03;
pub const FIELD_LIST: u8 = 0x04;
pub const STATISTICS: u8 = 0x08;
pub const DEBUG: u8 = 0x0D;
pub const PING: u8 = 0x0E;
pub const RESET_CONNECTION: u8 = 0x1F;
pub const SET_OPTION: u8 = 0x1A;
pub const CHANGE_USER: u8 = 0x11;
pub const BINLOG_DUMP: u8 = 0x12;
pub const STMT_PREPARE: u8 = 0x16;
pub const STMT_EXECUTE: u8 = 0x17;
pub const STMT_CLOSE: u8 = 0x19;
pub const STMT_RESET: u8 = 0x1A;
pub const STMT_SEND_LONG_DATA: u8 = 0x18;
pub const LOCAL_INFILE: u8 = 0xfb;
pub const OK: u8 = 0x00;
pub const ERR: u8 = 0xff;
pub const EOF: u8 = 0xfe;

/// True for the client command bytes the decoder knows.
pub open spec fn spec_is_known_command(c: u8) -> bool {
    ||| c == QUIT
    ||| c == INIT_DB
    ||| c == QUERY
    ||| c == FIELD_LIST
    ||| c == STATISTICS
    ||| c == DEBUG
    ||| c == PING
    ||| c == RESET_CONNECTION
    ||| c == CHANGE_USER
    ||| c == BINLOG_DUMP
    ||| c == STMT_PREPARE
    ||| c == STMT_EXECUTE
    ||| c == STMT_CLOSE
    ||| c == STMT_RESET
    ||| c == STMT_SEND_LONG_DATA
}

/// Tests whether a byte is a known client command.
pub fn is_known_command(c: u8) -> (r: bool)
    ensures
        r == spec_is_known_command(c),
{
    c == QUIT || c == INIT_DB || c == QUERY || c == FIELD_LIST || c == STATISTICS || c == DEBUG
        || c == PING || c == RESET_CONNECTION || c == CHANGE_USER || c == BINLOG_DUMP
        || c == STMT_PREPARE || c == STMT_EXECUTE || c == STMT_CLOSE || c == STMT_RESET
        || c == STMT_SEND_LONG_DATA
}

/// Value of two little-endian bytes.
pub open spec fn le2(b0: u8, b1: u8) -> int {
    b0 + 0x100 * b1
}

/// Value of three little-endian bytes.
pub open spec fn le3(b0: u8, b1: u8, b2: u8) -> int {
    b0 + 0x100 * b1 + 0x10000 * b2
}

/// Value of four little-endian bytes.
pub open spec fn le4(b0: u8, b1: u8, b2: u8, b3: u8) -> int {
    b0 + 0x100 * b1 + 0x10000 * b2 + 0x1000000 * b3
}

/// Value of eight little-endian bytes.
pub open spec fn le8(b: Seq<u8>) -> int
    recommends
        b.len() == 8,
{
    le4(b[0], b[1], b[2], b[3]) + 0x100000000 * le4(b[4], b[5], b[6], b[7])
}

/// True when the capability bit `flag` is set in `cap`.
pub open spec fn has_cap(cap: u32, flag: u32) -> bool {
    cap & flag != 0
}

/// Reads two little-endian bytes at `pos`.
pub fn read_le2(bytes: &[u8], pos: usize) -> (r: u16)
    requires
        pos + 2 <= bytes@.len(),
    ensures
        r as int == le2(bytes@[pos as int], bytes@[pos as int + 1]),
{
    bytes[pos] as u16 + 0x100 * (bytes[pos + 1] as u16)
}

/// Reads four little-endian bytes at `pos`.
pub fn read_le4(bytes: &[u8], pos: usize) -> (r: u32)
    requires
        pos + 4 <= bytes@.len(),
    ensures
        r as int == le4(bytes@[pos as int], bytes@[pos as int + 1], bytes@[pos as int + 2], bytes@[pos as int + 3]),
{
    bytes[pos] as u32 + 0x100 * (bytes[pos + 1] as u32) + 0x10000 * (bytes[pos + 2] as u32)
        + 0x1000000 * (bytes[pos + 3] as u32)
}

/// What `String::from_utf8_lossy` returns for a given byte sequence; the
/// result depends on the bytes alone.
pub uninterp spec fn lossy_of(bytes: Seq<u8>) -> Seq<char>;

/// Relies on `String::from_utf8_lossy` (std): a valid UTF-8 byte sequence
/// decodes to exactly its characters; invalid sequences get replacement
/// characters.
#[verifier::external_body]
pub(crate) fn lossy_string(bytes: &[u8]) -> (r: String)
    ensures
        r@ == lossy_of(bytes@),
        vstd::utf8::valid_utf8(bytes@) ==> r@ == vstd::utf8::decode_utf8(bytes@),
{
    String::from_utf8_lossy(bytes).into_owned()
}

/// A client-to-server MySQL packet: the 4-byte header split into its declared
/// body length and sequence number, the command byte, and the bytes after the
/// command byte.
#[derive(Debug, Clone)]
pub struct MySQLPacketRequest {
    pub len: u32,
    pub seq: u8,
    pub cmd: Command,
    pub payload: Vec<u8>,
}

impl MySQLPacketRequest {
    /// Splits a raw client-direction TCP payload into header, command byte
    /// and body; rejects payloads too short to carry a command.
    pub fn new(payload: &[u8]) -> (r: Option<MySQLPacketRequest>)
        ensures
            r is Some <==> payload@.len() >= 5,
            r matches Some(p) ==> {
                &&& p.len as int == le3(payload@[0], payload@[1], payload@[2])
                &&& p.seq == payload@[3]
                &&& p.cmd.0 == payload@[4]
                &&& p.payload@ == payload@.skip(5)
            },
    {
        if payload.len() < 5 {
            return None;
        }
        let len = payload[0] as u32 + 0x100 * (payload[1] as u32) + 0x10000 * (payload[2] as u32);
        let seq = payload[3];
        let cmd = Command(payload[4]);
        let body = vstd::slice::slice_to_vec(vstd::slice::slice_subrange(payload, 5, payload.len()));
        assert(body@ =~= payload@.skip(5));
        Some(MySQLPacketRequest { len, seq, cmd, payload: body })
    }
}

impl DBPacket for MySQLPacketRequest {
    open spec fn spec_db_type(&self) -> DBType {
        DBType::MySQL
    }

    open spec fn spec_command(&self) -> Command {
        self.cmd
    }

    open spec fn spec_payload(&self) -> Seq<u8> {
        self.payload@
    }

    open spec fn spec_seq(&self) -> u8 {
        self.seq
    }

    open spec fn spec_len(&self) -> u32 {
        self.len
    }

    open spec fn spec_is_request(&self) -> bool {
        true
    }

    fn db_type(&self) -> DBType {
        DBType::MySQL
    }

    fn get_command(&self) -> Command {
        Command(self.cmd.0)
    }

    fn get_payload(&self) -> Vec<u8> {
        self.payload.clone()
    }

    fn get_seq(&self) -> u8 {
        self.seq
    }

    fn get_len(&self) -> u32 {
        self.len
    }

    fn is_request(&self) -> bool {
        true
    }
}

/// A server-to-client MySQL payload: the header fields of its first packet,
/// and the raw payload (header included).
#[derive(Debug, Clone)]
pub struct MySQLPacketResponse {
    pub first_pkt_len: u32,
    pub first_pkt_seq: u8,
    pub first_pkt_cmd: Command,
    pub payload: Vec<u8>,
}

impl MySQLPacketResponse {
    /// Reads the first packet header of a raw server-direction TCP payload;
    /// rejects payloads too short to carry one.
    pub fn new(payload: &[u8]) -> (r: Option<MySQLPacketResponse>)
        ensures
            r is Some <==> payload@.len() >= 5,
            r matches Some(p) ==> {
                &&& p.first_pkt_len as int == le3(payload@[0], payload@[1], payload@[2])
                &&& p.first_pkt_seq == payload@[3]
                &&& p.first_pkt_cmd.0 == payload@[4]
                &&& p.payload@ == payload@
            },
    {
        if payload.len() < 5 {
            return None;
        }
        let first_pkt_len = payload[0] as u32 + 0x100 * (payload[1] as u32) + 0x10000 * (payload[2] as u32);
        let first_pkt_seq = payload[3];
        let first_pkt_cmd = Command(payload[4]);
        Some(MySQLPacketResponse {
            first_pkt_len,
            first_pkt_seq,
            first_pkt_cmd,
            payload: vstd::slice::slice_to_vec(payload),
        })
    }
}

impl DBPacket for MySQLPacketResponse {
    open spec fn spec_db_type(&self) -> DBType {
        DBType::MySQL
    }

    open spec fn spec_command(&self) -> Command {
        self.first_pkt_cmd
    }

    open spec fn spec_payload(&self) -> Seq<u8> {
        self.payload@
    }

    open spec fn spec_seq(&self) -> u8 {
        self.first_pkt_seq
    }

    open spec fn spec_len(&self) -> u32 {
        self.first_pkt_len
    }

    open spec fn spec_is_request(&self) -> bool {
        false
    }

    fn db_type(&self) -> DBType {
        DBType::MySQL
    }

    fn get_command(&self) -> Command {
        Command(self.first_pkt_cmd.0)
    }

    fn get_payload(&self) -> Vec<u8> {
        self.payload.clone()
    }

    fn get_seq(&self) -> u8 {
        self.first_pkt_seq
    }

    fn get_len(&self) -> u32 {
        self.first_pkt_len
    }

    fn is_request(&self) -> bool {
        false
    }
}

/// Placeholder decoder handle for the MySQL protocol family.
pub struct MySQLParser {}

impl MySQLParser {
    pub fn new() -> MySQLParser {
        MySQLParser {  }
    }
}

/// Position of the first NUL byte at or after `start`, or the length of the
/// sequence when no NUL follows.
pub open spec fn first_nul(bytes: Seq<u8>, start: int) -> int
    decreases bytes.len() - start,
{
    if start < 0 || start >= bytes.len() {
        bytes.len() as int
    } else if bytes[start] == 0 {
        start
    } else {
        first_nul(bytes, start + 1)
    }
}

/// `first_nul` lands between `start` and the end, on a NUL byte if there is
/// one, with no NUL before it.
pub proof fn lemma_first_nul(bytes: Seq<u8>, start: int)
    requires
        0 <= start <= bytes.len(),
    ensures
        start <= first_nul(bytes, start) <= bytes.len(),
        first_nul(bytes, start) < bytes.len() ==> bytes[first_nul(bytes, start)] == 0,
        forall|j: int| start <= j < first_nul(bytes, start) ==> bytes[j] != 0,
    decreases bytes.len() - start,
{
    if start < bytes.len() && bytes[start] != 0 {
        lemma_first_nul(bytes, start + 1);
    }
}

/// Scans for the first NUL byte at or after `start`.
pub fn find_nul(bytes: &[u8], start: usize) -> (r: usize)
    requires
        start <= bytes@.len(),
    ensures
        r as int == first_nul(bytes@, start as int),
{
    let mut i: usize = start;
    while i < bytes.len()
        invariant
            start <= i <= bytes@.len(),
            first_nul(bytes@, start as int) == first_nul(bytes@, i as int),
        decreases bytes@.len() - i,
    {
        if bytes[i] == 0 {
            return i;
        }
        i += 1;
    }
    i
}

/// Position of the first occurrence of `v` at or after `start`, or the
/// length of the sequence when `v` does not occur.
pub open spec fn first_byte(bytes: Seq<u8>, start: int, v: u8) -> int
    decreases bytes.len() - start,
{
    if start < 0 || start >= bytes.len() {
        bytes.len() as int
    } else if bytes[start] == v {
        start
    } else {
        first_byte(bytes, start + 1, v)
    }
}

/// `first_byte` lands between `start` and the end, on `v` if it occurs,
/// with no occurrence before it.
pub proof fn lemma_first_byte(bytes: Seq<u8>, start: int, v: u8)
    requires
        0 <= start <= bytes.len(),
    ensures
        start <= first_byte(bytes, start, v) <= bytes.len(),
        first_byte(bytes, start, v) < bytes.len() ==> bytes[first_byte(bytes, start, v)] == v,
        forall|j: int| start <= j < first_byte(bytes, start, v) ==> bytes[j] != v,
    decreases bytes.len() - start,
{
    if start < bytes.len() && bytes[start] != v {
        lemma_first_byte(bytes, start + 1, v);
    }
}

/// Scans for the first occurrence of `v` at or after `start`.
pub fn find_byte(bytes: &[u8], start: usize, v: u8) -> (r: usize)
    requires
        start <= bytes@.len(),
    ensures
        r as int == first_byte(bytes@, start as int, v),
{
    let mut i: usize = start;
    while i < bytes.len()
        invariant
            start <= i <= bytes@.len(),
            first_byte(bytes@, start as int, v) == first_byte(bytes@, i as int, v),
        decreases bytes@.len() - i,
    {
        if bytes[i] == v {
            return i;
        }
        i += 1;
    }
    i
}

/// Decodes a MySQL length-encoded integer at `pos`: one byte below `0xFB`
/// is the value itself; `0xFC`, `0xFD` and `0xFE` announce two, three and
/// eight little-endian bytes; `0xFB` (NULL) and `0xFF` head no integer.
pub open spec fn spec_lenenc_dec(bytes: Seq<u8>, pos: int) -> Option<(u64, int)> {
    if pos < 0 || pos >= bytes.len() {
        None
    } else {
        let n = bytes[pos];
        if n < 0xFB {
            Some((n as u64, pos + 1))
        } else if n == 0xFB || n == 0xFF {
            None
        } else if n == 0xFC {
            if pos + 3 <= bytes.len() {
                Some((le2(bytes[pos + 1], bytes[pos + 2]) as u64, pos + 3))
            } else {
                None
            }
        } else if n == 0xFD {
            if pos + 4 <= bytes.len() {
                Some((le3(bytes[pos + 1], bytes[pos + 2], bytes[pos + 3]) as u64, pos + 4))
            } else {
                None
            }
        } else {
            if pos + 9 <= bytes.len() {
                Some((le8(bytes.subrange(pos + 1, pos + 9)) as u64, pos + 9))
            } else {
                None
            }
        }
    }
}

/// The canonical encoding of `v` as a length-encoded integer: the shortest
/// of the four value forms that can hold it.
pub open spec fn spec_lenenc_enc(v: u64) -> Seq<u8> {
    if v < 0xFB {
        seq![v as u8]
    } else if v < 0x10000 {
        seq![0xFC, (v % 0x100) as u8, (v / 0x100) as u8]
    } else if v < 0x1000000 {
        seq![0xFD, (v % 0x100) as u8, ((v / 0x100) % 0x100) as u8, (v / 0x10000) as u8]
    } else {
        seq![
            0xFE,
            (v % 0x100) as u8,
            ((v / 0x100) % 0x100) as u8,
            ((v / 0x10000) % 0x100) as u8,
            ((v / 0x1000000) % 0x100) as u8,
            ((v / 0x100000000) % 0x100) as u8,
            ((v / 0x10000000000) % 0x100) as u8,
            ((v / 0x1000000000000) % 0x100) as u8,
            (v / 0x100000000000000) as u8,
        ]
    }
}

/// Reads a length-encoded integer at `pos`, returning the value and the
/// position just after it; `None` on a NULL marker, an `0xFF` byte, or a
/// buffer too short for the announced width.
pub fn read_len_enc_int(bytes: &[u8], pos: usize) -> (r: Option<(u64, usize)>)
    ensures
        r is Some <==> spec_lenenc_dec(bytes@, pos as int) is Some,
        r matches Some((v, end)) ==> spec_lenenc_dec(bytes@, pos as int) == Some((v, end as int)),
        r matches Some((v, end)) ==> pos < end <= bytes@.len(),
    {
    if pos >= bytes.len() {
        return None;
    }
    let n = bytes[pos];
    if n < 0xFB {
        Some((n as u64, pos + 1))
    } else if n == 0xFB || n == 0xFF {
        None
    } else if n == 0xFC {
        if bytes.len() - pos >= 3 {
            let v = read_le2(bytes, pos + 1) as u64;
            Some((v, pos + 3))
        } else {
            None
        }
    } else if n == 0xFD {
        if bytes.len() - pos >= 4 {
            let v = bytes[pos + 1] as u64 + 0x100 * (bytes[pos + 2] as u64) + 0x10000 * (bytes[pos + 3] as u64);
            Some((v, pos + 4))
        } else {
            None
        }
    } else {
        if bytes.len() - pos >= 9 {
            let lo = read_le4(bytes, pos + 1) as u64;
            let hi = read_le4(bytes, pos + 5) as u64;
            let v = lo + 0x100000000 * hi;
            proof {
                let sub = bytes@.subrange(pos as int + 1, pos as int + 9);
                assert(sub[0] == bytes@[pos as int + 1]);
                assert(sub[1] == bytes@[pos as int + 2]);
                assert(sub[2] == bytes@[pos as int + 3]);
                assert(sub[3] == bytes@[pos as int + 4]);
                assert(sub[4] == bytes@[pos as int + 5]);
                assert(sub[5] == bytes@[pos as int + 6]);
                assert(sub[6] == bytes@[pos as int + 7]);
                assert(sub[7] == bytes@[pos as int + 8]);
            }
            Some((v, pos + 9))
        } else {
            None
        }
    }
}

/// Writes `v` in its canonical length-encoded form.
pub fn write_len_enc_int(v: u64) -> (r: Vec<u8>)
    ensures
        r@ == spec_lenenc_enc(v),
{
    let mut out: Vec<u8> = Vec::new();
    if v < 0xFB {
        out.push(v as u8);
    } else if v < 0x10000 {
        out.push(0xFC);
        out.push((v % 0x100) as u8);
        out.push((v / 0x100) as u8);
    } else if v < 0x1000000 {
        out.push(0xFD);
        out.push((v % 0x100) as u8);
        out.push(((v / 0x100) % 0x100) as u8);
        out.push((v / 0x10000) as u8);
    } else {
        out.push(0xFE);
        out.push((v % 0x100) as u8);
        out.push(((v / 0x100) % 0x100) as u8);
        out.push(((v / 0x10000) % 0x100) as u8);
        out.push(((v / 0x1000000) % 0x100) as u8);
        out.push(((v / 0x100000000) % 0x100) as u8);
        out.push(((v / 0x10000000000) % 0x100) as u8);
        out.push(((v / 0x1000000000000) % 0x100) as u8);
        out.push((v / 0x100000000000000) as u8);
    }
    proof {
        assert(out@ =~= spec_lenenc_enc(v));
    }
    out
}

/// Every `u64` round-trips through its canonical length-encoded form:
/// decoding the encoding of `v` yields `v` back, having consumed exactly
/// the encoded bytes.
pub proof fn lemma_lenenc_round_trip(v: u64)
    ensures
        spec_lenenc_dec(spec_lenenc_enc(v), 0) == Some((v, spec_lenenc_enc(v).len() as int)),
{
    let e = spec_lenenc_enc(v);
    if v < 0xFB {
        assert(e[0] == v as u8);
        assert(e[0] < 0xFB);
    } else if v < 0x10000 {
        assert(le2(e[1], e[2]) == v) by {
            lemma_cast_u8_le((v % 0x100) as int);
            lemma_cast_u8_le((v / 0x100) as int);
            assert(v % 0x100 + 0x100 * (v / 0x100) == v) by (nonlinear_arith);
        }
    } else if v < 0x1000000 {
        assert(le3(e[1], e[2], e[3]) == v) by {
            lemma_cast_u8_le((v % 0x100) as int);
            lemma_cast_u8_le(((v / 0x100) % 0x100) as int);
            lemma_cast_u8_le((v / 0x10000) as int);
            assert(v % 0x100 + 0x100 * ((v / 0x100) % 0x100) + 0x10000 * (v / 0x10000) == v)
                by (nonlinear_arith);
        }
    } else {
        let sub = e.subrange(1, 9);
        assert(le8(sub) == v) by {
            lemma_cast_u8_le((v % 0x100) as int);
            lemma_cast_u8_le(((v / 0x100) % 0x100) as int);
            lemma_cast_u8_le(((v / 0x10000) % 0x100) as int);
            lemma_cast_u8_le(((v / 0x1000000) % 0x100) as int);
            lemma_cast_u8_le(((v / 0x100000000) % 0x100) as int);
            lemma_cast_u8_le(((v / 0x10000000000) % 0x100) as int);
            lemma_cast_u8_le(((v / 0x1000000000000) % 0x100) as int);
            lemma_cast_u8_le((v / 0x100000000000000) as int);
            assert(v % 0x100 + 0x100 * ((v / 0x100) % 0x100) + 0x10000 * ((v / 0x10000) % 0x100)
                + 0x1000000 * ((v / 0x1000000) % 0x100) + 0x100000000 * ((v / 0x100000000) % 0x100)
                + 0x10000000000 * ((v / 0x10000000000) % 0x100)
                + 0x1000000000000 * ((v / 0x1000000000000) % 0x100)
                + 0x100000000000000 * (v / 0x100000000000000) == v) by (bit_vector);
        }
    }
}

/// An integer below 256 survives the round trip through `u8`.
proof fn lemma_cast_u8_le(x: int)
    requires
        0 <= x < 0x100,
    ensures
        (x as u8) as int == x,
{
}

/// Decodes a length-encoded string at `pos`: a length-encoded integer `L`
/// followed by `L` raw bytes. The result is the raw content and the position
/// just after it.
pub open spec fn spec_lenenc_str_dec(bytes: Seq<u8>, pos: int) -> Option<(Seq<u8>, int)> {
    match spec_lenenc_dec(bytes, pos) {
        Some((len, p)) => {
            if p + len <= bytes.len() {
                Some((bytes.subrange(p, p + len), p + len))
            } else {
                None
            }
        },
        None => None,
    }
}

/// Reads a length-encoded string at `pos`, decoding its content bytes to
/// text; returns the text and the position just after the string.
pub fn read_len_enc_str(bytes: &[u8], pos: usize) -> (r: Option<(String, usize)>)
    ensures
        r is Some <==> spec_lenenc_str_dec(bytes@, pos as int) is Some,
        r matches Some((s, end)) ==> {
            &&& spec_lenenc_str_dec(bytes@, pos as int) matches Some((content, e))
            &&& end as int == e
            &&& s@ == lossy_of(content)
        },
        r matches Some((s, end)) ==> pos < end <= bytes@.len(),
{
    let (len, p) = match read_len_enc_int(bytes, pos) {
        Some(x) => x,
        None => {
            return None;
        },
    };
    if len > bytes.len() as u64 - p as u64 {
        return None;
    }
    let end = p + len as usize;
    let content = vstd::slice::slice_subrange(bytes, p, end);
    let s = lossy_string(content);
    Some((s, end))
}

} // verus!
