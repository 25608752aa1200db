//! The MySQL client login (handshake response): the client's capability
//! flags, then fields gated by those flags — auth response, database name,
//! auth plugin name, connection attributes, and zstd compression level.

use vstd::prelude::*;
use crate::mysql::common::{
    first_nul, find_nul, has_cap, le4, lemma_first_nul, lossy_of, lossy_string, read_le4,
    read_len_enc_str, read_len_enc_int, spec_lenenc_dec, spec_lenenc_str_dec,
    CLIENT_CONNECT_ATTRS, CLIENT_CONNECT_WITH_DB, CLIENT_PLUGIN_AUTH,
    CLIENT_PLUGIN_AUTH_LENENC_CLIENT_DATA, CLIENT_SECURE_CONNECTION,
    CLIENT_ZSTD_COMPRESSION_ALGORITHM,
};

verus! {

/// A decoded client login.
#[derive(Debug)]
pub struct Login {
    pub cap: u32,
    pub max_packet_size: u32,
    pub charset: u8,
    pub filler: [u8; 23],
    pub username: Option<String>,
    pub auth_response_length: u64,
    pub auth_response: Option<Vec<u8>>,
    pub database: Option<String>,
    pub auth_plugin_name: Option<String>,
    pub attrs: Vec<(String, String)>,
    pub zstd_compression_level: Option<u8>,
}

/// The key/value views of decoded connection attributes.
pub open spec fn attrs_view(s: Seq<(String, String)>) -> Seq<(Seq<char>, Seq<char>)> {
    s.map_values(|kv: (String, String)| (kv.0@, kv.1@))
}

/// Decodes connection-attribute pairs at `p` until exactly `budget` bytes
/// are consumed: each pair is a length-encoded key and a length-encoded
/// value. `None` when a pair is malformed or the pairs do not consume the
/// budget exactly.
pub open spec fn spec_attrs(b: Seq<u8>, p: int, budget: int) -> Option<(Seq<(Seq<char>, Seq<char>)>, int)>
    decreases budget,
{
    if budget <= 0 {
        if budget == 0 {
            Some((Seq::empty(), p))
        } else {
            None
        }
    } else {
        match spec_lenenc_str_dec(b, p) {
            None => None,
            Some((kc, p1)) => match spec_lenenc_str_dec(b, p1) {
                None => None,
                Some((vc, p2)) => {
                    if p2 <= p || p2 - p > budget {
                        None
                    } else {
                        match spec_attrs(b, p2, budget - (p2 - p)) {
                            None => None,
                            Some((rest, pend)) => Some((
                                seq![(lossy_of(kc), lossy_of(vc))] + rest,
                                pend,
                            )),
                        }
                    }
                },
            },
        }
    }
}

/// Reads connection-attribute pairs at `p` consuming exactly `budget` bytes,
/// as `spec_attrs` describes.
fn read_attrs(b: &[u8], p: usize, budget: u64) -> (r: Option<(Vec<(String, String)>, usize)>)
    requires
        p <= b@.len(),
    ensures
        r is Some <==> spec_attrs(b@, p as int, budget as int) is Some,
        r matches Some((v, end)) ==> spec_attrs(b@, p as int, budget as int)
            == Some((attrs_view(v@), end as int)),
{
    let mut attrs: Vec<(String, String)> = Vec::new();
    let mut q: usize = p;
    proof {
        assert(attrs_view(attrs@) =~= Seq::<(Seq<char>, Seq<char>)>::empty());
    }
    loop
        invariant
            p <= q <= b@.len(),
            q - p <= budget,
            spec_attrs(b@, p as int, budget as int) is Some <==> spec_attrs(
                b@, q as int, budget - (q - p)) is Some,
            spec_attrs(b@, q as int, budget - (q - p)) matches Some((rest, pend))
                ==> spec_attrs(b@, p as int, budget as int)
                    == Some((attrs_view(attrs@) + rest, pend)),
        ensures
            spec_attrs(b@, p as int, budget as int) is Some ==> spec_attrs(
                b@, p as int, budget as int) == Some((attrs_view(attrs@), q as int)),
            spec_attrs(b@, p as int, budget as int) is Some <==> (q - p) as u64 == budget,
        decreases budget - (q - p),
    {
        if (q - p) as u64 >= budget {
            proof {
                if (q - p) as u64 == budget {
                    assert(spec_attrs(b@, q as int, 0) == Some((
                        Seq::<(Seq<char>, Seq<char>)>::empty(), q as int)));
                    assert(attrs_view(attrs@) + Seq::<(Seq<char>, Seq<char>)>::empty()
                        =~= attrs_view(attrs@));
                }
            }
            break;
        }
        let ghost old_q = q as int;
        let ghost old_attrs = attrs@;
        let (key, q1) = match read_len_enc_str(b, q) {
            Some(x) => x,
            None => {
                return None;
            },
        };
        let (value, q2) = match read_len_enc_str(b, q1) {
            Some(x) => x,
            None => {
                return None;
            },
        };
        if (q2 - p) as u64 > budget {
            proof {
                assert(spec_attrs(b@, q as int, budget - (q - p)) is None);
            }
            return None;
        }
        attrs.push((key, value));
        q = q2;
        proof {
            let pair = (attrs@[attrs@.len() - 1].0@, attrs@[attrs@.len() - 1].1@);
            assert(attrs_view(attrs@) =~= attrs_view(old_attrs).push(pair));
            assert forall|rest: Seq<(Seq<char>, Seq<char>)>|
                attrs_view(old_attrs) + (seq![pair] + rest) == attrs_view(attrs@) + rest by {
                assert(attrs_view(old_attrs) + (seq![pair] + rest) =~= attrs_view(attrs@) + rest);
            }
        }
    }
    if (q - p) as u64 == budget {
        Some((attrs, q))
    } else {
        None
    }
}

/// End of the NUL-terminated username.
pub open spec fn login_user_end(b: Seq<u8>) -> int {
    first_nul(b, 32)
}

/// A login body is well formed up to the username when its fixed 32-byte
/// prefix fits, its 23 filler bytes are zero, and the username finds its
/// NUL terminator.
pub open spec fn login_head_wf(b: Seq<u8>) -> bool {
    &&& b.len() >= 32
    &&& (forall|j: int| 9 <= j < 32 ==> b[j] == 0)
    &&& login_user_end(b) < b.len()
}

/// The auth-response section at `p`: with
/// `CLIENT_PLUGIN_AUTH_LENENC_CLIENT_DATA` a length-encoded byte string;
/// with `CLIENT_SECURE_CONNECTION` a one-byte length and that many bytes;
/// otherwise NUL-terminated. Returns the bytes and the position after them.
pub open spec fn login_auth(cap: u32, b: Seq<u8>, p: int) -> Option<(Seq<u8>, int)> {
    if has_cap(cap, CLIENT_PLUGIN_AUTH_LENENC_CLIENT_DATA) {
        spec_lenenc_str_dec(b, p)
    } else if has_cap(cap, CLIENT_SECURE_CONNECTION) {
        if p < b.len() && p + 1 + b[p] <= b.len() {
            Some((b.subrange(p + 1, p + 1 + b[p]), p + 1 + b[p]))
        } else {
            None
        }
    } else {
        if first_nul(b, p) < b.len() {
            Some((b.subrange(p, first_nul(b, p)), first_nul(b, p) + 1))
        } else {
            None
        }
    }
}

/// The optional NUL-terminated database name at `p`, present only when
/// `CLIENT_CONNECT_WITH_DB` is set and bytes remain.
pub open spec fn login_db(cap: u32, b: Seq<u8>, p: int) -> Option<(Option<Seq<u8>>, int)> {
    if has_cap(cap, CLIENT_CONNECT_WITH_DB) && p < b.len() {
        if first_nul(b, p) < b.len() {
            Some((Some(b.subrange(p, first_nul(b, p))), first_nul(b, p) + 1))
        } else {
            None
        }
    } else {
        Some((None, p))
    }
}

/// The optional auth plugin name at `p`, present only when
/// `CLIENT_PLUGIN_AUTH` is set and bytes remain; it ends at a NUL byte or at
/// the end of the body.
pub open spec fn login_plugin(cap: u32, b: Seq<u8>, p: int) -> (Option<Seq<u8>>, int) {
    if has_cap(cap, CLIENT_PLUGIN_AUTH) && p < b.len() {
        let e = first_nul(b, p);
        (Some(b.subrange(p, e)), if e < b.len() { e + 1 } else { e })
    } else {
        (None, p)
    }
}

/// The connection attributes at `p`: a length-encoded total, then pairs
/// consuming exactly that many bytes; only when `CLIENT_CONNECT_ATTRS` is
/// set.
pub open spec fn login_attrs(cap: u32, b: Seq<u8>, p: int) -> Option<(Seq<(Seq<char>, Seq<char>)>, int)> {
    if has_cap(cap, CLIENT_CONNECT_ATTRS) {
        match spec_lenenc_dec(b, p) {
            None => None,
            Some((total, p1)) => spec_attrs(b, p1, total as int),
        }
    } else {
        Some((Seq::empty(), p))
    }
}

/// A login body is well formed under the server-advertised capability set
/// `server_cap` when its head is and every section the negotiated
/// capabilities (the announced client set intersected with `server_cap`)
/// call for fits.
pub open spec fn login_wf(server_cap: u32, b: Seq<u8>) -> bool {
    let p0 = login_user_end(b) + 1;
    &&& login_head_wf(b)
    &&& (p0 < b.len() ==> {
        let cap = (le4(b[0], b[1], b[2], b[3]) as u32) & server_cap;
        &&& login_auth(cap, b, p0) is Some
        &&& (login_auth(cap, b, p0) matches Some((abytes, p1)) ==> {
            &&& login_db(cap, b, p1) is Some
            &&& (login_db(cap, b, p1) matches Some((dbytes, p2)) ==> {
                let plug = login_plugin(cap, b, p2);
                &&& login_attrs(cap, b, plug.1) is Some
                &&& (login_attrs(cap, b, plug.1) matches Some((amap, p5)) ==> (has_cap(cap,
                    CLIENT_ZSTD_COMPRESSION_ALGORITHM) ==> p5 < b.len()))
            })
        })
    })
}

impl Login {
    /// Decodes a client login body: capability flags, max packet size and
    /// charset from the fixed prefix (whose filler bytes must be zero), the
    /// NUL-terminated username, and then the auth response, database, auth
    /// plugin name, connection attributes and zstd level, as dictated by the
    /// negotiated capabilities — the announced client set intersected with
    /// the server-advertised `server_cap`. A body ending right after the
    /// username decodes to just those fields.
    pub fn new(server_cap: u32, payload: Vec<u8>) -> (r: Option<Self>)
        ensures
            r is Some <==> login_wf(server_cap, payload@),
            ({
                let b = payload@;
                let u_end = login_user_end(b);
                let p0 = u_end + 1;
                &&& (r is Some ==> login_head_wf(b))
                &&& (r matches Some(l) ==> {
                    &&& l.cap as int == le4(b[0], b[1], b[2], b[3])
                    &&& l.max_packet_size as int == le4(b[4], b[5], b[6], b[7])
                    &&& l.charset == b[8]
                    &&& l.username matches Some(u) && u@ == lossy_of(b.subrange(32, u_end))
                })
                &&& (p0 >= b.len() ==> ((r is Some <==> login_head_wf(b)) && (r matches Some(l) ==> {
                    &&& l.auth_response is None
                    &&& l.database is None
                    &&& l.auth_plugin_name is None
                    &&& l.attrs@.len() == 0
                    &&& l.zstd_compression_level is None
                })))
                &&& (login_head_wf(b) && p0 < b.len() ==> {
                    let cap = (le4(b[0], b[1], b[2], b[3]) as u32) & server_cap;
                    let auth = login_auth(cap, b, p0);
                    &&& (auth is None ==> r is None)
                    &&& (auth matches Some((abytes, p1)) ==> {
                        let db = login_db(cap, b, p1);
                        &&& (db is None ==> r is None)
                        &&& (db matches Some((dbytes, p2)) ==> {
                            let plug = login_plugin(cap, b, p2);
                            let attrs = login_attrs(cap, b, plug.1);
                            &&& (attrs is None ==> r is None)
                            &&& (attrs matches Some((amap, p5)) ==> {
                                &&& (has_cap(cap, CLIENT_ZSTD_COMPRESSION_ALGORITHM)
                                    && p5 >= b.len() ==> r is None)
                                &&& (r matches Some(l) ==> {
                                    &&& l.auth_response matches Some(ab) && ab@ == abytes
                                    &&& l.auth_response_length == abytes.len()
                                    &&& (l.database is Some <==> dbytes is Some)
                                    &&& (l.database matches Some(d) ==> d@ == lossy_of(dbytes->0))
                                    &&& (l.auth_plugin_name is Some <==> (plug.0) is Some)
                                    &&& (l.auth_plugin_name matches Some(n)
                                        ==> n@ == lossy_of((plug.0)->0))
                                    &&& attrs_view(l.attrs@) == amap
                                    &&& (if has_cap(cap, CLIENT_ZSTD_COMPRESSION_ALGORITHM) {
                                        p5 < b.len() && l.zstd_compression_level == Some(b[p5])
                                    } else {
                                        l.zstd_compression_level is None
                                    })
                                })
                                &&& (!(has_cap(cap, CLIENT_ZSTD_COMPRESSION_ALGORITHM)
                                    && p5 >= b.len()) ==> r is Some)
                            })
                        })
                    })
                })
                &&& (!login_head_wf(b) ==> r is None)
            }),
    {
        let b = payload.as_slice();
        let blen = b.len();
        if blen < 32 {
            return None;
        }
        let cap = read_le4(b, 0);
        let gate = cap & server_cap;
        let max_packet_size = read_le4(b, 4);
        let charset = b[8];
        let filler = [0u8; 23];
        let mut j: usize = 9;
        while j < 32
            invariant
                9 <= j <= 32,
                b@ == payload@,
                blen == b@.len(),
                blen >= 32,
                forall|k: int| 9 <= k < j ==> b@[k] == 0,
            decreases 32 - j,
        {
            if b[j] != 0 {
                proof {
                    assert(!login_head_wf(b@));
                }
                return None;
            }
            j += 1;
        }
        let u_end = find_nul(b, 32);
        proof {
            lemma_first_nul(b@, 32);
        }
        if u_end >= blen {
            return None;
        }
        let username = Some(lossy_string(vstd::slice::slice_subrange(b, 32, u_end)));
        let p0 = u_end + 1;
        if p0 >= blen {
            return Some(Login {
                cap,
                max_packet_size,
                charset,
                filler,
                username,
                auth_response_length: 0,
                auth_response: None,
                database: None,
                auth_plugin_name: None,
                attrs: Vec::new(),
                zstd_compression_level: None,
            });
        }
        // Auth response.
        let abytes: Vec<u8>;
        let p1: usize;
        if gate & CLIENT_PLUGIN_AUTH_LENENC_CLIENT_DATA != 0 {
            let (len, pl) = match read_len_enc_int(b, p0) {
                Some(x) => x,
                None => { return None; },
            };
            if len > (blen - pl) as u64 {
                return None;
            }
            abytes = vstd::slice::slice_to_vec(
                vstd::slice::slice_subrange(b, pl, pl + len as usize),
            );
            p1 = pl + len as usize;
        } else if gate & CLIENT_SECURE_CONNECTION != 0 {
            let alen = b[p0] as usize;
            if blen - (p0 + 1) < alen {
                return None;
            }
            abytes = vstd::slice::slice_to_vec(
                vstd::slice::slice_subrange(b, p0 + 1, p0 + 1 + alen),
            );
            p1 = p0 + 1 + alen;
        } else {
            let a_end = find_nul(b, p0);
            proof {
                lemma_first_nul(b@, p0 as int);
            }
            if a_end >= blen {
                return None;
            }
            abytes = vstd::slice::slice_to_vec(vstd::slice::slice_subrange(b, p0, a_end));
            p1 = a_end + 1;
        }
        let auth_response_length = abytes.len() as u64;
        // Database name.
        let database: Option<String>;
        let p2: usize;
        if gate & CLIENT_CONNECT_WITH_DB != 0 && p1 < blen {
            let d_end = find_nul(b, p1);
            proof {
                lemma_first_nul(b@, p1 as int);
            }
            if d_end >= blen {
                return None;
            }
            database = Some(lossy_string(vstd::slice::slice_subrange(b, p1, d_end)));
            p2 = d_end + 1;
        } else {
            database = None;
            p2 = p1;
        }
        // Auth plugin name.
        let auth_plugin_name: Option<String>;
        let p3: usize;
        if gate & CLIENT_PLUGIN_AUTH != 0 && p2 < blen {
            let n_end = find_nul(b, p2);
            proof {
                lemma_first_nul(b@, p2 as int);
            }
            auth_plugin_name = Some(lossy_string(vstd::slice::slice_subrange(b, p2, n_end)));
            p3 = if n_end < blen {
                n_end + 1
            } else {
                n_end
            };
        } else {
            auth_plugin_name = None;
            p3 = p2;
        }
        // Connection attributes.
        let attrs: Vec<(String, String)>;
        let p5: usize;
        if gate & CLIENT_CONNECT_ATTRS != 0 {
            let (total, p4) = match read_len_enc_int(b, p3) {
                Some(x) => x,
                None => { return None; },
            };
            let (a, e) = match read_attrs(b, p4, total) {
                Some(x) => x,
                None => { return None; },
            };
            attrs = a;
            p5 = e;
        } else {
            attrs = Vec::new();
            p5 = p3;
            proof {
                assert(attrs_view(attrs@) =~= Seq::<(Seq<char>, Seq<char>)>::empty());
            }
        }
        // Compression level.
        let zstd_compression_level: Option<u8>;
        if gate & CLIENT_ZSTD_COMPRESSION_ALGORITHM != 0 {
            if p5 >= blen {
                return None;
            }
            zstd_compression_level = Some(b[p5]);
        } else {
            zstd_compression_level = None;
        }
        Some(Login {
            cap,
            max_packet_size,
            charset,
            filler,
            username,
            auth_response_length,
            auth_response: Some(abytes),
            database,
            auth_plugin_name,
            attrs,
            zstd_compression_level,
        })
    }
}

} // verus!
