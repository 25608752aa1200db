//! Session tracking: classifying captured frames against the port map,
//! canonicalizing the session key, and driving the per-connection MySQL
//! state machine.

use vstd::prelude::*;
use crate::config::{port_lookup, Config};
use crate::frame::{
    be2, ipv4_payload_of, ipv4_str_of, ipv6_payload_of, ipv6_str_of, mac_str_of, parse_ethernet,
    parse_ipv4, parse_ipv6, parse_tcp, tcp_payload_of, EthLayer, IpLayer, TcpLayer,
    ETHERTYPE_IPV4, ETHERTYPE_IPV6, IP_PROTO_TCP, TCP_FIN, TCP_PSH, TCP_RST,
};
use crate::mysql::client::login::{login_wf, Login};
use crate::mysql::common::{is_known_command, le3, lossy_of, spec_is_known_command, MySQLPacketRequest, MySQLPacketResponse, QUIT};
use crate::mysql::server::greeting::{
    greet_auth1_end, greet_auth1_start, greet_auth2_end, greet_auth2_start, greet_flags_start,
    greet_name_start, greet_version_end, greeting_wf, Greeting,
};
use crate::mysql::common::{first_nul, le2, le4};
use crate::DBType;

verus! {

/// Protocol state of one observed session.
#[derive(Debug, Clone, Copy, PartialEq, Eq, Structural)]
pub enum SessionState {
    Init,
    ServerGreeting,
    ClientHandshakeResponse,
    Authenticated,
    Closed,
}

/// The canonical 5-tuple identifying one client/server connection: client
/// address and port first, whichever direction the packet travelled.
#[derive(Debug, Clone)]
pub struct SessionKey {
    pub client_ip: String,
    pub client_port: u16,
    pub server_ip: String,
    pub server_port: u16,
}

impl SessionKey {
    /// Two keys are the same session when all four components agree.
    pub open spec fn spec_eq(&self, other: &SessionKey) -> bool {
        &&& self.client_ip@ == other.client_ip@
        &&& self.client_port == other.client_port
        &&& self.server_ip@ == other.server_ip@
        &&& self.server_port == other.server_port
    }

    /// Compares two session keys.
    pub fn key_eq(&self, other: &SessionKey) -> (r: bool)
        ensures
            r == self.spec_eq(other),
    {
        self.client_ip == other.client_ip && self.client_port == other.client_port
            && self.server_ip == other.server_ip && self.server_port == other.server_port
    }
}

/// Classifies a packet by its ports: a mapped destination port makes it a
/// request towards that database; otherwise a mapped source port makes it a
/// response from one; otherwise it is dropped.
pub open spec fn spec_classify(entries: Seq<(u16, DBType)>, src_port: u16, dst_port: u16) -> Option<(bool, DBType)> {
    if port_lookup(entries, dst_port) is Some {
        Some((true, port_lookup(entries, dst_port)->0))
    } else if port_lookup(entries, src_port) is Some {
        Some((false, port_lookup(entries, src_port)->0))
    } else {
        None
    }
}

/// The canonical key of a packet: for a request the source is the client,
/// for a response the destination is.
pub open spec fn spec_key(request: bool, src_ip: Seq<char>, src_port: u16, dst_ip: Seq<char>, dst_port: u16) -> (Seq<char>, u16, Seq<char>, u16) {
    if request {
        (src_ip, src_port, dst_ip, dst_port)
    } else {
        (dst_ip, dst_port, src_ip, src_port)
    }
}

/// Key canonicalization: a packet and its reverse (source and destination
/// exchanged) canonicalize to the same session key, whenever exactly one of
/// the two ports is mapped.
pub proof fn lemma_key_canonical(entries: Seq<(u16, DBType)>, src_ip: Seq<char>, src_port: u16, dst_ip: Seq<char>, dst_port: u16)
    requires
        !(port_lookup(entries, src_port) is Some && port_lookup(entries, dst_port) is Some),
        spec_classify(entries, src_port, dst_port) is Some,
    ensures
        spec_classify(entries, dst_port, src_port) is Some,
        ({
            let fwd = spec_classify(entries, src_port, dst_port)->0;
            let rev = spec_classify(entries, dst_port, src_port)->0;
            spec_key(fwd.0, src_ip, src_port, dst_ip, dst_port)
                == spec_key(rev.0, dst_ip, dst_port, src_ip, src_port)
        }),
{
}

/// Everything the frame decoder reads from one raw frame, in capture order:
/// destination MAC, source MAC, EtherType, source IP, destination IP, source
/// port, destination port, TCP flags, TCP payload. `None` whenever a layer
/// fails to parse or the frame is not IPv4/IPv6 over TCP.
pub open spec fn spec_frame_view(raw: Seq<u8>) -> Option<(Seq<char>, Seq<char>, u16, Seq<char>, Seq<char>, u16, u16, u8, Seq<u8>)> {
    if raw.len() < 14 {
        None
    } else {
        let et = be2(raw[12], raw[13]);
        let ip = raw.skip(14);
        if et == ETHERTYPE_IPV4 {
            if ip.len() < 20 || ip[9] != IP_PROTO_TCP {
                None
            } else {
                let tcp = ipv4_payload_of(ip);
                if tcp.len() < 20 {
                    None
                } else {
                    Some((mac_str_of(raw.subrange(0, 6)), mac_str_of(raw.subrange(6, 12)),
                        et as u16, ipv4_str_of(ip.subrange(12, 16)), ipv4_str_of(ip.subrange(16, 20)),
                        be2(tcp[0], tcp[1]) as u16, be2(tcp[2], tcp[3]) as u16, tcp[13],
                        tcp_payload_of(tcp)))
                }
            }
        } else if et == ETHERTYPE_IPV6 {
            if ip.len() < 40 || ip[6] != IP_PROTO_TCP {
                None
            } else {
                let tcp = ipv6_payload_of(ip);
                if tcp.len() < 20 {
                    None
                } else {
                    Some((mac_str_of(raw.subrange(0, 6)), mac_str_of(raw.subrange(6, 12)),
                        et as u16, ipv6_str_of(ip.subrange(8, 24)), ipv6_str_of(ip.subrange(24, 40)),
                        be2(tcp[0], tcp[1]) as u16, be2(tcp[2], tcp[3]) as u16, tcp[13],
                        tcp_payload_of(tcp)))
                }
            }
        } else {
            None
        }
    }
}

/// One captured packet after decoding and classification.
#[derive(Debug, Clone)]
pub struct SessionPacket {
    pub eth_layer: EthLayer,
    pub ip_layer: IpLayer,
    pub tcp_layer: TcpLayer,
    pub request: bool,
    pub db: DBType,
    pub session_key: SessionKey,
}

impl SessionPacket {
    /// The decoded layers of this packet match the frame view `fv` and the
    /// classification of its ports under `entries`.
    pub open spec fn wf_for(&self, fv: (Seq<char>, Seq<char>, u16, Seq<char>, Seq<char>, u16, u16, u8, Seq<u8>), entries: Seq<(u16, DBType)>) -> bool {
        let key = spec_key(self.request, fv.3, fv.5, fv.4, fv.6);
        &&& self.eth_layer.dst_mac@ == fv.0
        &&& self.eth_layer.src_mac@ == fv.1
        &&& self.eth_layer.eth_type == fv.2
        &&& self.ip_layer.src_ip@ == fv.3
        &&& self.ip_layer.dst_ip@ == fv.4
        &&& self.tcp_layer.src_port == fv.5
        &&& self.tcp_layer.dst_port == fv.6
        &&& self.tcp_layer.flags == fv.7
        &&& self.tcp_layer.payload@ == fv.8
        &&& spec_classify(entries, fv.5, fv.6) == Some((self.request, self.db))
        &&& self.session_key.client_ip@ == key.0
        &&& self.session_key.client_port == key.1
        &&& self.session_key.server_ip@ == key.2
        &&& self.session_key.server_port == key.3
    }

    /// Decodes one raw frame down to its TCP payload and classifies it
    /// against the configured port map: `None` when a layer fails to parse,
    /// the frame is not IPv4/IPv6 over TCP, or neither port is mapped.
    pub fn new(config: &Config, raw_pkt: Vec<u8>) -> (r: Option<SessionPacket>)
        ensures
            r is Some <==> (spec_frame_view(raw_pkt@) matches Some(fv)
                && spec_classify(config.support_db@, fv.5, fv.6) is Some),
            r matches Some(sp) ==> spec_frame_view(raw_pkt@) matches Some(fv)
                && sp.wf_for(fv, config.support_db@),
    {
        let (eth_layer, eth_payload) = match parse_ethernet(raw_pkt.as_slice()) {
            Some(x) => x,
            None => { return None; },
        };
        let ip_parsed: Option<(IpLayer, u8)>;
        if eth_layer.eth_type == ETHERTYPE_IPV4 {
            ip_parsed = parse_ipv4(eth_payload.as_slice());
        } else if eth_layer.eth_type == ETHERTYPE_IPV6 {
            ip_parsed = parse_ipv6(eth_payload.as_slice());
        } else {
            return None;
        }
        let (ip_layer, proto) = match ip_parsed {
            Some(x) => x,
            None => { return None; },
        };
        if proto != IP_PROTO_TCP {
            return None;
        }
        let tcp_layer = match parse_tcp(ip_layer.payload.as_slice()) {
            Some(t) => t,
            None => { return None; },
        };
        let (request, db) = match classify(config, tcp_layer.src_port, tcp_layer.dst_port) {
            Some(x) => x,
            None => { return None; },
        };
        let session_key = if request {
            SessionKey {
                client_ip: ip_layer.src_ip.clone(),
                client_port: tcp_layer.src_port,
                server_ip: ip_layer.dst_ip.clone(),
                server_port: tcp_layer.dst_port,
            }
        } else {
            SessionKey {
                client_ip: ip_layer.dst_ip.clone(),
                client_port: tcp_layer.dst_port,
                server_ip: ip_layer.src_ip.clone(),
                server_port: tcp_layer.src_port,
            }
        };
        Some(SessionPacket { eth_layer, ip_layer, tcp_layer, request, db, session_key })
    }
}

/// Looks both ports up in the port map, as `spec_classify` describes.
pub fn classify(config: &Config, src_port: u16, dst_port: u16) -> (r: Option<(bool, DBType)>)
    ensures
        r == spec_classify(config.support_db@, src_port, dst_port),
{
    match config.db_for(dst_port) {
        Some(d) => Some((true, d)),
        None => match config.db_for(src_port) {
            Some(d) => Some((false, d)),
            None => None,
        },
    }
}

/// Per-session context: the stable client and server addressing, database
/// kind, protocol state, and the parameters learned from the server greeting
/// and client login.
#[derive(Debug, Clone)]
pub struct SessionCtx {
    pub state: SessionState,
    pub client_ip: String,
    pub server_ip: String,
    pub client_port: u16,
    pub server_port: u16,
    pub client_mac: String,
    pub server_mac: String,
    pub db_type: DBType,
    pub server_cap: u32,
    pub client_cap: u32,
    pub server_status: u16,
    pub client_status: u16,
    pub server_language: u8,
    pub client_language: u8,
    pub server_version: String,
    pub client_version: String,
    pub connection_id: u32,
    pub extended_capability_flags: u16,
    pub auth_plugin_len: u8,
    pub auth_plugin_data: Vec<u8>,
    pub auth_plugin_data_2: Vec<u8>,
    pub auth_plugin_name: String,
}

/// The context a session starts from: the packet's canonical client and
/// server addressing, its classified database kind, the `Init` protocol
/// state, and nothing learned yet.
pub open spec fn ctx_fresh_for(ctx: SessionCtx, pkt: SessionPacket) -> bool {
    &&& ctx.state == SessionState::Init
    &&& ctx.client_ip@ == pkt.session_key.client_ip@
    &&& ctx.server_ip@ == pkt.session_key.server_ip@
    &&& ctx.client_port == pkt.session_key.client_port
    &&& ctx.server_port == pkt.session_key.server_port
    &&& ctx.client_mac@ == (if pkt.request {
        pkt.eth_layer.src_mac@
    } else {
        pkt.eth_layer.dst_mac@
    })
    &&& ctx.server_mac@ == (if pkt.request {
        pkt.eth_layer.dst_mac@
    } else {
        pkt.eth_layer.src_mac@
    })
    &&& ctx.db_type == pkt.db
    &&& ctx.server_cap == 0 && ctx.client_cap == 0
    &&& ctx.server_status == 0 && ctx.client_status == 0
    &&& ctx.server_language == 0 && ctx.client_language == 0
    &&& ctx.server_version@.len() == 0 && ctx.client_version@.len() == 0
    &&& ctx.connection_id == 0
    &&& ctx.extended_capability_flags == 0
    &&& ctx.auth_plugin_len == 0
    &&& ctx.auth_plugin_data@.len() == 0 && ctx.auth_plugin_data_2@.len() == 0
    &&& ctx.auth_plugin_name@.len() == 0
}

/// A session that has just been created for the packet's connection: fresh
/// context, no packets seen, nothing pending.
pub open spec fn is_fresh_session(s: Session, pkt: SessionPacket) -> bool {
    &&& ctx_fresh_for(s.session_ctx, pkt)
    &&& s.pkt_seq == 0
    &&& s.flow_packets@.len() == 0
    &&& s.last_activity_s == 0
}

impl SessionCtx {
    /// The capability set the decoder must use: what the server advertised
    /// and the client agreed to.
    pub open spec fn spec_negotiated_cap(&self) -> u32 {
        self.server_cap & self.client_cap
    }

    /// The negotiated capability set.
    pub fn negotiated_cap(&self) -> (r: u32)
        ensures
            r == self.spec_negotiated_cap(),
    {
        self.server_cap & self.client_cap
    }

    pub fn set_state(&mut self, state: SessionState)
        ensures
            (*final(self) == SessionCtx { state, ..*old(self) }),
    {
        self.state = state;
    }

    pub fn set_server_version(&mut self, version: String)
        ensures
            (*final(self) == SessionCtx { server_version: version, ..*old(self) }),
    {
        self.server_version = version;
    }

    pub fn set_server_language(&mut self, language: u8)
        ensures
            (*final(self) == SessionCtx { server_language: language, ..*old(self) }),
    {
        self.server_language = language;
    }

    pub fn set_connection_id(&mut self, id: u32)
        ensures
            (*final(self) == SessionCtx { connection_id: id, ..*old(self) }),
    {
        self.connection_id = id;
    }

    pub fn set_capability_flags(&mut self, flags: u32)
        ensures
            (*final(self) == SessionCtx { server_cap: flags, ..*old(self) }),
    {
        self.server_cap = flags;
    }

    pub fn set_status_flags(&mut self, flags: u16)
        ensures
            (*final(self) == SessionCtx { server_status: flags, ..*old(self) }),
    {
        self.server_status = flags;
    }

    pub fn set_extended_capability_flags(&mut self, flags: u16)
        ensures
            (*final(self) == SessionCtx { extended_capability_flags: flags, ..*old(self) }),
    {
        self.extended_capability_flags = flags;
    }

    pub fn set_auth_plugin_len(&mut self, len: u8)
        ensures
            (*final(self) == SessionCtx { auth_plugin_len: len, ..*old(self) }),
    {
        self.auth_plugin_len = len;
    }

    pub fn set_auth_plugin_data(&mut self, data: Vec<u8>)
        ensures
            (*final(self) == SessionCtx { auth_plugin_data: data, ..*old(self) }),
    {
        self.auth_plugin_data = data;
    }

    pub fn set_auth_plugin_data_2(&mut self, data: Vec<u8>)
        ensures
            (*final(self) == SessionCtx { auth_plugin_data_2: data, ..*old(self) }),
    {
        self.auth_plugin_data_2 = data;
    }

    pub fn set_auth_plugin_name(&mut self, name: String)
        ensures
            (*final(self) == SessionCtx { auth_plugin_name: name, ..*old(self) }),
    {
        self.auth_plugin_name = name;
    }
}

/// One decoded unit emitted for a session, in capture order: the decoded
/// server greeting (as the raw packet that carried it), a raw request or
/// response packet, a session close, or a synthetic marker for a greeting or
/// login that could not be decoded.
#[derive(Debug, Clone)]
pub enum Event {
    Greeting(MySQLPacketResponse),
    Request(MySQLPacketRequest),
    Response(MySQLPacketResponse),
    Closed,
    DecodeError,
}

/// One tracked session: its context, the last request sequence number, and
/// the events pending flush.
pub struct Session {
    pub session_ctx: SessionCtx,
    pub pkt_seq: u8,
    pub flow_packets: Vec<Event>,
    /// When the session last saw a packet, in seconds; maintained by the
    /// session table.
    pub last_activity_s: u64,
}

/// The batches of an optional event vector.
pub open spec fn opt_events(r: Option<Vec<Event>>) -> Option<Seq<Event>> {
    match r {
        Some(v) => Some(v@),
        None => None,
    }
}

/// How one classified packet advances a session: `post` and the flushed
/// batch `r` are what feeding `pkt` to a session in state `pre` yields.
///
/// A closed session stays closed and emits nothing. A FIN or RST closes the
/// session once, flushing everything pending plus a final `Closed` event. A
/// client packet whose sequence number is below the last one seen starts a
/// new command round-trip and flushes the pending batch. The handshake
/// drives the state: a server packet with sequence 0 on a fresh session is
/// decoded as the greeting, emitted, and its parameters stored (a malformed
/// one closes the session with a `DecodeError` marker, and any other packet
/// reaching a fresh session from the server side is discarded); a client
/// packet with sequence 1 after the greeting is decoded as the login under
/// the negotiated capability set; the server's answer moves the session to
/// `Authenticated` on OK and to `Closed` on ERR; a plausible command on a
/// fresh session marks a capture that started mid-connection; a QUIT
/// command closes the session.
pub open spec fn session_step(pre: Session, pkt: SessionPacket, post: Session, r: Option<Seq<Event>>) -> bool {
    let fin = pkt.tcp_layer.flags & (TCP_FIN | TCP_RST) != 0;
    let pl = pkt.tcp_layer.payload@;
    &&& post.last_activity_s == pre.last_activity_s
    &&& (pre.session_ctx.state == SessionState::Closed ==> post == pre && r is None)
    &&& (pre.session_ctx.state != SessionState::Closed && fin ==> {
        &&& post.session_ctx.state == SessionState::Closed
        &&& post.flow_packets@.len() == 0
        &&& r == Some(pre.flow_packets@.push(Event::Closed))
    })
    &&& (pre.session_ctx.state != SessionState::Closed && !fin ==> {
        &&& (pkt.db != DBType::MySQL ==> post == pre && r is None)
        &&& (pkt.db == DBType::MySQL && pl.len() < 5 ==> post == pre && r is None)
        &&& (pkt.db == DBType::MySQL && pl.len() >= 5 && pkt.request ==> {
            let s = pl[3];
            let cmdb = pl[4];
            let body = pl.skip(4);
            let login_case = pre.session_ctx.state == SessionState::ServerGreeting && s == 1;
            let init_cmd_case = pre.session_ctx.state == SessionState::Init && s == 0
                && spec_is_known_command(cmdb);
            let quit_case = pre.session_ctx.state == SessionState::Authenticated && s == 0
                && cmdb == QUIT;
            let flushes = s < pre.pkt_seq && pre.flow_packets@.len() > 0;
            &&& (login_case && !login_wf(pre.session_ctx.server_cap, body) ==> {
                &&& (post.session_ctx == SessionCtx {
                    state: SessionState::Closed,
                    ..pre.session_ctx
                })
                &&& post.flow_packets@.len() == 0
                &&& post.pkt_seq == pre.pkt_seq
                &&& r == Some(pre.flow_packets@.push(Event::DecodeError))
            })
            &&& (quit_case ==> {
                &&& (post.session_ctx == SessionCtx {
                    state: SessionState::Closed,
                    ..pre.session_ctx
                })
                &&& post.flow_packets@.len() == 0
                &&& post.pkt_seq == s
                &&& r matches Some(v) && {
                    &&& v.drop_last() == pre.flow_packets@
                    &&& (v.last() matches Event::Request(q) && {
                        &&& q.seq == s
                        &&& q.cmd.0 == cmdb
                        &&& q.payload@ == pl.skip(5)
                    })
                }
            })
            &&& (!(login_case && !login_wf(pre.session_ctx.server_cap, body)) && !quit_case ==> {
                &&& (r is Some <==> flushes)
                &&& (r matches Some(v) ==> v == pre.flow_packets@)
                &&& post.pkt_seq == s
                &&& (post.flow_packets@.last() matches Event::Request(q) && {
                    &&& q.seq == s
                    &&& q.cmd.0 == cmdb
                    &&& q.payload@ == pl.skip(5)
                    &&& q.len as int == le3(pl[0], pl[1], pl[2])
                })
                &&& (flushes ==> post.flow_packets@.len() == 1)
                &&& (!flushes ==> post.flow_packets@.drop_last() == pre.flow_packets@)
                &&& post.session_ctx.state == (if login_case {
                    SessionState::ClientHandshakeResponse
                } else if init_cmd_case {
                    SessionState::Authenticated
                } else {
                    pre.session_ctx.state
                })
                &&& (login_case ==> post.session_ctx.client_cap as int == le4(body[0], body[1],
                    body[2], body[3]))
                &&& (login_case ==> (post.session_ctx == SessionCtx {
                    state: SessionState::ClientHandshakeResponse,
                    client_cap: post.session_ctx.client_cap,
                    ..pre.session_ctx
                }))
                &&& (!login_case ==> (post.session_ctx == SessionCtx {
                    state: post.session_ctx.state,
                    ..pre.session_ctx
                }))
            })
        })
        &&& (pkt.db == DBType::MySQL && pl.len() >= 5 && !pkt.request ==> {
            let body = pl.skip(4);
            let in_init = pre.session_ctx.state == SessionState::Init;
            let greeting_case = in_init && pre.pkt_seq == 0 && pl[3] == 0;
            let auth_case = pre.session_ctx.state == SessionState::ClientHandshakeResponse
                && pl[3] == 2;
            &&& post.pkt_seq == pre.pkt_seq
            &&& (in_init && !greeting_case ==> post == pre && r is None)
            &&& (greeting_case && greeting_wf(body) ==> {
                let c = greet_flags_start(body);
                let ctx = post.session_ctx;
                &&& r is None
                &&& ctx.state == SessionState::ServerGreeting
                &&& ctx.server_version@ == lossy_of(body.subrange(1, greet_version_end(body)))
                &&& ctx.connection_id as int == le4(body[greet_version_end(body) + 1],
                    body[greet_version_end(body) + 2], body[greet_version_end(body) + 3],
                    body[greet_version_end(body) + 4])
                &&& ctx.server_cap as int == le2(body[c], body[c + 1])
                    + 0x10000 * le2(body[c + 5], body[c + 6])
                &&& ctx.server_language == body[c + 2]
                &&& ctx.server_status as int == le2(body[c + 3], body[c + 4])
                &&& ctx.extended_capability_flags as int == le2(body[c + 5], body[c + 6])
                &&& ctx.auth_plugin_len == body[c + 7]
                &&& ctx.auth_plugin_data@ == body.subrange(greet_auth1_start(body), greet_auth1_end(body))
                &&& ctx.auth_plugin_data_2@ == body.subrange(greet_auth2_start(body), greet_auth2_end(body))
                &&& ctx.auth_plugin_name@ == lossy_of(body.subrange(greet_name_start(body), first_nul(body, greet_name_start(body))))
                &&& ctx.client_cap == pre.session_ctx.client_cap
                &&& ctx.db_type == pre.session_ctx.db_type
                &&& (post.flow_packets@.last() matches Event::Greeting(q) && {
                    &&& q.first_pkt_seq == pl[3]
                    &&& q.first_pkt_cmd.0 == pl[4]
                    &&& q.payload@ == pl
                    &&& q.first_pkt_len as int == le3(pl[0], pl[1], pl[2])
                })
                &&& post.flow_packets@.drop_last() == pre.flow_packets@
            })
            &&& (greeting_case && !greeting_wf(body) ==> {
                &&& (post.session_ctx == SessionCtx {
                    state: SessionState::Closed,
                    ..pre.session_ctx
                })
                &&& post.flow_packets@.len() == 0
                &&& r == Some(pre.flow_packets@.push(Event::DecodeError))
            })
            &&& (!in_init && auth_case && pl[4] == 0xFF ==> {
                &&& (post.session_ctx == SessionCtx {
                    state: SessionState::Closed,
                    ..pre.session_ctx
                })
                &&& post.flow_packets@.len() == 0
                &&& r matches Some(v) && {
                    &&& v.drop_last() == pre.flow_packets@
                    &&& (v.last() matches Event::Response(q) && q.payload@ == pl)
                }
            })
            &&& (!in_init && !(auth_case && pl[4] == 0xFF) ==> {
                &&& r is None
                &&& post.session_ctx.state == (if auth_case && pl[4] == 0 {
                    SessionState::Authenticated
                } else {
                    pre.session_ctx.state
                })
                &&& (post.session_ctx == SessionCtx {
                    state: post.session_ctx.state,
                    ..pre.session_ctx
                })
                &&& (post.flow_packets@.last() matches Event::Response(q) && {
                    &&& q.first_pkt_seq == pl[3]
                    &&& q.first_pkt_cmd.0 == pl[4]
                    &&& q.payload@ == pl
                    &&& q.first_pkt_len as int == le3(pl[0], pl[1], pl[2])
                })
                &&& post.flow_packets@.drop_last() == pre.flow_packets@
            })
        })
    })
}

impl Session {
    /// A fresh session around `session_ctx`, with no packets seen.
    pub fn new(session_ctx: SessionCtx) -> (r: Session)
        ensures
            r.session_ctx == session_ctx,
            r.pkt_seq == 0,
            r.flow_packets@.len() == 0,
            r.last_activity_s == 0,
    {
        Session { session_ctx, pkt_seq: 0, flow_packets: Vec::new(), last_activity_s: 0 }
    }

    /// Hands the pending events out and leaves the batch empty.
    pub fn flush(&mut self) -> (r: Vec<Event>)
        ensures
            r@ == old(self).flow_packets@,
            final(self).flow_packets@.len() == 0,
            final(self).session_ctx == old(self).session_ctx,
            final(self).pkt_seq == old(self).pkt_seq,
            final(self).last_activity_s == old(self).last_activity_s,
    {
        let mut tmp: Vec<Event> = Vec::new();
        core::mem::swap(&mut tmp, &mut self.flow_packets);
        tmp
    }

    /// Feeds one classified packet to the session's state machine, exactly
    /// as `session_step` describes.
    pub fn accept(&mut self, pkt: &SessionPacket) -> (r: Option<Vec<Event>>)
        ensures
            session_step(*old(self), *pkt, *final(self), opt_events(r)),
    {
        if self.session_ctx.state == SessionState::Closed {
            return None;
        }
        if pkt.tcp_layer.flags & (TCP_FIN | TCP_RST) != 0 {
            self.session_ctx.set_state(SessionState::Closed);
            let mut batch = self.flush();
            batch.push(Event::Closed);
            return Some(batch);
        }
        match pkt.db {
            DBType::MySQL => {
                if pkt.request {
                    let req = match MySQLPacketRequest::new(pkt.tcp_layer.payload.as_slice()) {
                        Some(p) => p,
                        None => { return None; },
                    };
                    let s = req.seq;
                    let cmdb = req.cmd.0;
                    let quit_case = self.session_ctx.state == SessionState::Authenticated
                        && s == 0 && cmdb == QUIT;
                    if self.session_ctx.state == SessionState::ServerGreeting && s == 1 {
                        let body = vstd::slice::slice_to_vec(vstd::slice::slice_subrange(
                            pkt.tcp_layer.payload.as_slice(), 4, pkt.tcp_layer.payload.len()));
                        match Login::new(self.session_ctx.server_cap, body) {
                            Some(login) => {
                                self.session_ctx.client_cap = login.cap;
                                self.session_ctx.set_state(SessionState::ClientHandshakeResponse);
                            },
                            None => {
                                self.session_ctx.set_state(SessionState::Closed);
                                let mut batch = self.flush();
                                batch.push(Event::DecodeError);
                                return Some(batch);
                            },
                        }
                    } else if self.session_ctx.state == SessionState::Init && s == 0
                        && is_known_command(cmdb) {
                        self.session_ctx.set_state(SessionState::Authenticated);
                    }
                    let flushed: Option<Vec<Event>> = if s < self.pkt_seq
                        && self.flow_packets.len() > 0 {
                        Some(self.flush())
                    } else {
                        None
                    };
                    self.pkt_seq = s;
                    let ghost before_push = self.flow_packets@;
                    self.flow_packets.push(Event::Request(req));
                    proof {
                        assert(self.flow_packets@.drop_last() =~= before_push);
                    }
                    if quit_case {
                        self.session_ctx.set_state(SessionState::Closed);
                        let mut batch = self.flush();
                        let out: Vec<Event> = match flushed {
                            Some(mut earlier) => {
                                earlier.append(&mut batch);
                                earlier
                            },
                            None => batch,
                        };
                        proof {
                            assert(out@.drop_last() =~= old(self).flow_packets@);
                        }
                        Some(out)
                    } else {
                        flushed
                    }
                } else {
                    let resp = match MySQLPacketResponse::new(pkt.tcp_layer.payload.as_slice()) {
                        Some(p) => p,
                        None => { return None; },
                    };
                    let rseq = resp.first_pkt_seq;
                    let rcmd = resp.first_pkt_cmd.0;
                    if self.session_ctx.state == SessionState::Init {
                        if !(self.pkt_seq == 0 && rseq == 0) {
                            // Not a greeting: a fresh session discards it.
                            return None;
                        }
                        let body = vstd::slice::slice_to_vec(vstd::slice::slice_subrange(
                            pkt.tcp_layer.payload.as_slice(), 4, pkt.tcp_layer.payload.len()));
                        match Greeting::new(body) {
                            Some(greeting) => {
                                self.session_ctx.set_state(SessionState::ServerGreeting);
                                self.session_ctx.set_server_version(greeting.server_version);
                                self.session_ctx.set_server_language(greeting.server_language);
                                self.session_ctx.set_connection_id(greeting.connection_id);
                                self.session_ctx.set_capability_flags(
                                    greeting.capability_flags as u32
                                        + 0x10000 * (greeting.extended_capability_flags as u32));
                                self.session_ctx.set_status_flags(greeting.status_flags);
                                self.session_ctx.set_extended_capability_flags(
                                    greeting.extended_capability_flags);
                                self.session_ctx.set_auth_plugin_len(greeting.auth_plugin_len);
                                self.session_ctx.set_auth_plugin_data(greeting.auth_plugin_data);
                                self.session_ctx.set_auth_plugin_data_2(greeting.auth_plugin_data_2);
                                self.session_ctx.set_auth_plugin_name(greeting.auth_plugin_name);
                                let ghost pre_flow = old(self).flow_packets@;
                                self.flow_packets.push(Event::Greeting(resp));
                                proof {
                                    assert(self.flow_packets@.drop_last() =~= pre_flow);
                                }
                                return None;
                            },
                            None => {
                                self.session_ctx.set_state(SessionState::Closed);
                                let mut batch = self.flush();
                                batch.push(Event::DecodeError);
                                return Some(batch);
                            },
                        }
                    }
                    let auth_case = self.session_ctx.state
                        == SessionState::ClientHandshakeResponse && rseq == 2;
                    let ghost pre_flow = old(self).flow_packets@;
                    self.flow_packets.push(Event::Response(resp));
                    proof {
                        assert(self.flow_packets@.drop_last() =~= pre_flow);
                    }
                    if auth_case {
                        if rcmd == 0x00 {
                            self.session_ctx.set_state(SessionState::Authenticated);
                        } else if rcmd == 0xFF {
                            self.session_ctx.set_state(SessionState::Closed);
                            return Some(self.flush());
                        }
                    }
                    None
                }
            },
            DBType::Unknown => None,
        }
    }
}

/// Index of the first entry with the given key, or the length of the table
/// when no entry matches.
pub open spec fn sk_index(entries: Seq<(SessionKey, Session)>, key: SessionKey) -> int
    decreases entries.len(),
{
    if entries.len() == 0 {
        0
    } else if entries[0].0.spec_eq(&key) {
        0
    } else {
        1 + sk_index(entries.skip(1), key)
    }
}

/// `sk_index` lands between 0 and the length, on a matching entry if there
/// is one, with no match before it.
pub proof fn lemma_sk_index(entries: Seq<(SessionKey, Session)>, key: SessionKey)
    ensures
        0 <= sk_index(entries, key) <= entries.len(),
        sk_index(entries, key) < entries.len() ==> entries[sk_index(entries, key)].0.spec_eq(&key),
        forall|j: int| 0 <= j < sk_index(entries, key) ==> !(#[trigger] entries[j]).0.spec_eq(&key),
    decreases entries.len(),
{
    if entries.len() > 0 && !entries[0].0.spec_eq(&key) {
        lemma_sk_index(entries.skip(1), key);
        assert forall|j: int| 0 <= j < sk_index(entries, key)
            implies !(#[trigger] entries[j]).0.spec_eq(&key) by {
            if j >= 1 {
                assert(entries[j] == entries.skip(1)[j - 1]);
            }
        }
    }
}

/// Index of the first entry whose key components match the canonical key
/// `k`, or the length of the table when no entry matches.
pub open spec fn sk_index_of(entries: Seq<(SessionKey, Session)>, k: (Seq<char>, u16, Seq<char>, u16)) -> int
    decreases entries.len(),
{
    if entries.len() == 0 {
        0
    } else if entries[0].0.client_ip@ == k.0 && entries[0].0.client_port == k.1
        && entries[0].0.server_ip@ == k.2 && entries[0].0.server_port == k.3 {
        0
    } else {
        1 + sk_index_of(entries.skip(1), k)
    }
}

/// The component-based index agrees with the key-based one.
pub proof fn lemma_sk_index_of(entries: Seq<(SessionKey, Session)>, key: SessionKey)
    ensures
        sk_index_of(entries, (key.client_ip@, key.client_port, key.server_ip@, key.server_port))
            == sk_index(entries, key),
    decreases entries.len(),
{
    if entries.len() > 0 && !entries[0].0.spec_eq(&key) {
        lemma_sk_index_of(entries.skip(1), key);
    }
}

/// The session table and its configuration: the single owner of all
/// per-session state.
pub struct SessionManager {
    pub config: Config,
    pub state: bool,
    pub sessions: Vec<(SessionKey, Session)>,
}

impl SessionManager {
    /// Each session key appears at most once in the table.
    pub open spec fn wf(&self) -> bool {
        forall|i: int, j: int| 0 <= i < j < self.sessions@.len()
            ==> !(#[trigger] self.sessions@[i]).0.spec_eq(&(#[trigger] self.sessions@[j]).0)
    }

    /// True when an entry for `key` exists.
    pub open spec fn spec_has_session(&self, key: SessionKey) -> bool {
        sk_index(self.sessions@, key) < self.sessions@.len()
    }

    /// A fresh manager with an empty session table.
    pub fn new(config: Config) -> (r: SessionManager)
        ensures
            r.config == config,
            r.state == false,
            r.sessions@.len() == 0,
    {
        SessionManager { config, state: false, sessions: Vec::new() }
    }

    /// Marks the manager's processing loop as started.
    pub fn start(&mut self)
        ensures
            final(self).state == true,
            final(self).config == old(self).config,
            final(self).sessions@ == old(self).sessions@,
    {
        self.state = true;
    }

    /// Whether the manager's processing loop has been started.
    pub fn is_running(&self) -> (r: bool)
        ensures
            r == self.state,
    {
        self.state
    }

    /// The database kind configured for `port`.
    pub fn db_type(&self, port: u16) -> (r: Option<DBType>)
        ensures
            r == self.config.spec_db_for(port),
    {
        self.config.db_for(port)
    }

    /// Decodes and classifies a raw frame, keeping only packets that either
    /// push payload or tear a session down: a packet without PSH, FIN and
    /// RST is dropped.
    pub fn format_pkt_layer(&self, pkt: &[u8]) -> (r: Option<SessionPacket>)
        ensures
            r is Some <==> (spec_frame_view(pkt@) matches Some(fv)
                && spec_classify(self.config.support_db@, fv.5, fv.6) is Some
                && fv.7 & (TCP_PSH | TCP_FIN | TCP_RST) != 0),
            r matches Some(sp) ==> spec_frame_view(pkt@) matches Some(fv)
                && sp.wf_for(fv, self.config.support_db@),
    {
        let sp = match SessionPacket::new(&self.config, vstd::slice::slice_to_vec(pkt)) {
            Some(sp) => sp,
            None => { return None; },
        };
        if sp.tcp_layer.flags & (TCP_PSH | TCP_FIN | TCP_RST) == 0 {
            return None;
        }
        Some(sp)
    }

    /// Index of the entry for `key`, if one exists.
    fn find_session(&self, key: &SessionKey) -> (r: Option<usize>)
        ensures
            r is Some <==> self.spec_has_session(*key),
            r matches Some(i) ==> i as int == sk_index(self.sessions@, *key)
                && i < self.sessions@.len(),
    {
        proof {
            lemma_sk_index(self.sessions@, *key);
        }
        let n = self.sessions.len();
        let mut i: usize = 0;
        assert(self.sessions@.skip(0) =~= self.sessions@);
        while i < n
            invariant
                0 <= i <= n,
                n == self.sessions@.len(),
                sk_index(self.sessions@, *key) == i + sk_index(self.sessions@.skip(i as int), *key),
            decreases n - i,
        {
            if self.sessions[i].0.key_eq(key) {
                proof {
                    assert(self.sessions@.skip(i as int)[0] == self.sessions@[i as int]);
                }
                return Some(i);
            }
            proof {
                assert(self.sessions@.skip(i as int).skip(1) =~= self.sessions@.skip(i as int + 1));
            }
            i += 1;
        }
        proof {
            assert(self.sessions@.skip(n as int) =~= Seq::<(SessionKey, Session)>::empty());
        }
        None
    }

    /// True when an entry for `key` exists.
    pub fn check_session(&self, key: &SessionKey) -> (r: bool)
        ensures
            r == self.spec_has_session(*key),
    {
        self.find_session(key).is_some()
    }

    /// The context a new session starts from: the packet's addressing, the
    /// classified database kind, and the `Init` protocol state.
    pub fn create_session_ctx(&self, pkt: &SessionPacket) -> (r: SessionCtx)
        ensures
            ctx_fresh_for(r, *pkt),
    {
        let (client_mac, server_mac) = if pkt.request {
            (pkt.eth_layer.src_mac.clone(), pkt.eth_layer.dst_mac.clone())
        } else {
            (pkt.eth_layer.dst_mac.clone(), pkt.eth_layer.src_mac.clone())
        };
        SessionCtx {
            state: SessionState::Init,
            client_ip: pkt.session_key.client_ip.clone(),
            server_ip: pkt.session_key.server_ip.clone(),
            client_port: pkt.session_key.client_port,
            server_port: pkt.session_key.server_port,
            client_mac,
            server_mac,
            db_type: pkt.db,
            server_cap: 0,
            client_cap: 0,
            server_status: 0,
            client_status: 0,
            server_language: 0,
            client_language: 0,
            server_version: String::new(),
            client_version: String::new(),
            connection_id: 0,
            extended_capability_flags: 0,
            auth_plugin_len: 0,
            auth_plugin_data: Vec::new(),
            auth_plugin_data_2: Vec::new(),
            auth_plugin_name: String::new(),
        }
    }

    /// Appends a fresh session for the packet's key.
    pub fn create_session(&mut self, pkt: &SessionPacket)
        ensures
            final(self).sessions@.len() == old(self).sessions@.len() + 1,
            final(self).sessions@.drop_last() == old(self).sessions@,
            ({
                let entry = final(self).sessions@.last();
                &&& entry.0 == pkt.session_key
                &&& is_fresh_session(entry.1, *pkt)
            }),
            final(self).config == old(self).config,
            final(self).state == old(self).state,
    {
        let sctx = self.create_session_ctx(pkt);
        let session = Session::new(sctx);
        let key = SessionKey {
            client_ip: pkt.session_key.client_ip.clone(),
            client_port: pkt.session_key.client_port,
            server_ip: pkt.session_key.server_ip.clone(),
            server_port: pkt.session_key.server_port,
        };
        self.sessions.push((key, session));
    }

    /// Decodes, classifies and routes one raw frame: a packet that pushes
    /// payload finds or creates its session and is fed to it, advancing that
    /// entry exactly as `session_step` describes and handing its flushed
    /// batch back; a FIN or RST closes and removes the session after one
    /// final flush.
    pub fn accept(&mut self, pkt: &[u8], now_s: u64) -> (r: Option<Vec<Event>>)
        requires
            old(self).wf(),
        ensures
            final(self).wf(),
            final(self).config == old(self).config,
            final(self).state == old(self).state,
            spec_frame_view(pkt@) matches Some(fv) ==> ({
                let key = spec_key((spec_classify(old(self).config.support_db@, fv.5, fv.6)->0).0,
                    fv.3, fv.5, fv.4, fv.6);
                (spec_classify(old(self).config.support_db@, fv.5, fv.6) is Some
                    && fv.7 & (TCP_FIN | TCP_RST) != 0
                    && sk_index_of(old(self).sessions@, key) == old(self).sessions@.len())
                    ==> final(self).sessions@ == old(self).sessions@ && r is None
            }),
            spec_frame_view(pkt@) matches Some(fv) ==> ({
                let key = spec_key((spec_classify(old(self).config.support_db@, fv.5, fv.6)->0).0,
                    fv.3, fv.5, fv.4, fv.6);
                (spec_classify(old(self).config.support_db@, fv.5, fv.6) is Some
                    && fv.7 & (TCP_PSH | TCP_FIN | TCP_RST) != 0
                    && !(fv.7 & (TCP_FIN | TCP_RST) != 0
                        && sk_index_of(old(self).sessions@, key) == old(self).sessions@.len()))
                    ==> exists|sp: SessionPacket, pre: Session, post: Session| {
                    let i = sk_index_of(old(self).sessions@, key);
                    let fin = fv.7 & (TCP_FIN | TCP_RST) != 0;
                    &&& sp.wf_for(fv, old(self).config.support_db@)
                    &&& (i < old(self).sessions@.len() ==> pre == old(self).sessions@[i].1)
                    &&& (i == old(self).sessions@.len() ==> is_fresh_session(pre, sp))
                    &&& #[trigger] session_step(pre, sp, post, opt_events(r))
                    &&& (!fin && i < old(self).sessions@.len() ==> final(self).sessions@
                        == old(self).sessions@.update(i, (old(self).sessions@[i].0,
                            (Session { last_activity_s: now_s, ..post }))))
                    &&& (!fin && i == old(self).sessions@.len() ==> final(self).sessions@
                        == old(self).sessions@.push((sp.session_key,
                            (Session { last_activity_s: now_s, ..post }))))
                    &&& (fin ==> final(self).sessions@ == old(self).sessions@.remove(i))
                }
            }),
            !(spec_frame_view(pkt@) matches Some(fv)
                && spec_classify(old(self).config.support_db@, fv.5, fv.6) is Some
                && fv.7 & (TCP_PSH | TCP_FIN | TCP_RST) != 0) ==> final(self).sessions@
                == old(self).sessions@ && r is None,
            spec_frame_view(pkt@) matches Some(fv) ==> ((
                spec_classify(old(self).config.support_db@, fv.5, fv.6) is Some
                && fv.7 & TCP_PSH != 0 && fv.7 & (TCP_FIN | TCP_RST) == 0) ==> ({
                let key = spec_key((spec_classify(old(self).config.support_db@, fv.5, fv.6)->0).0,
                    fv.3, fv.5, fv.4, fv.6);
                exists|j: int| 0 <= j < final(self).sessions@.len()
                    && (#[trigger] final(self).sessions@[j]).0.client_ip@ == key.0
                    && final(self).sessions@[j].0.client_port == key.1
                    && final(self).sessions@[j].0.server_ip@ == key.2
                    && final(self).sessions@[j].0.server_port == key.3
                    && final(self).sessions@[j].1.last_activity_s == now_s
            })),
            spec_frame_view(pkt@) matches Some(fv) ==> ((
                spec_classify(old(self).config.support_db@, fv.5, fv.6) is Some
                && fv.7 & (TCP_FIN | TCP_RST) != 0) ==> ({
                let key = spec_key((spec_classify(old(self).config.support_db@, fv.5, fv.6)->0).0,
                    fv.3, fv.5, fv.4, fv.6);
                forall|j: int| 0 <= j < final(self).sessions@.len()
                    ==> !((#[trigger] final(self).sessions@[j]).0.client_ip@ == key.0
                        && final(self).sessions@[j].0.client_port == key.1
                        && final(self).sessions@[j].0.server_ip@ == key.2
                        && final(self).sessions@[j].0.server_port == key.3)
            })),
    {
        let sp = match self.format_pkt_layer(pkt) {
            Some(sp) => sp,
            None => {
                proof {
                    assert forall|f: u8| #![trigger f & (TCP_FIN | TCP_RST)]
                        f & (TCP_FIN | TCP_RST) != 0
                        implies f & (TCP_PSH | TCP_FIN | TCP_RST) != 0 by {
                        assert(f & (TCP_FIN | TCP_RST) != 0
                            ==> f & (TCP_PSH | TCP_FIN | TCP_RST) != 0) by (bit_vector);
                    }
                    assert forall|f: u8| #![trigger f & TCP_PSH] f & TCP_PSH != 0
                        implies f & (TCP_PSH | TCP_FIN | TCP_RST) != 0 by {
                        assert(f & TCP_PSH != 0
                            ==> f & (TCP_PSH | TCP_FIN | TCP_RST) != 0) by (bit_vector);
                    }
                }
                return None;
            },
        };
        let fin = sp.tcp_layer.flags & (TCP_FIN | TCP_RST) != 0;
        proof {
            lemma_sk_index_of(old(self).sessions@, sp.session_key);
        }
        let found = self.find_session(&sp.session_key);
        let idx: usize;
        match found {
            Some(i) => {
                idx = i;
                proof {
                    lemma_sk_index(self.sessions@, sp.session_key);
                }
            },
            None => {
                proof {
                    lemma_sk_index(self.sessions@, sp.session_key);
                }
                if fin {
                    // Nothing to tear down.
                    return None;
                }
                idx = self.sessions.len();
                self.create_session(&sp);
                proof {
                    let t0 = old(self).sessions@;
                    let t1 = self.sessions@;
                    assert forall|k: int| 0 <= k < t0.len() implies t1[k] == t0[k] by {
                        assert(t1.drop_last()[k] == t0[k]);
                    }
                }
            },
        }
        let ghost t1 = self.sessions@;
        proof {
            // The entry at idx matches the key; by uniqueness, no other does.
            assert forall|j: int| 0 <= j < t1.len() && j != idx as int
                implies !(#[trigger] t1[j]).0.spec_eq(&sp.session_key) by {
                if j < idx as int {
                    assert(!t1[j].0.spec_eq(&sp.session_key));
                } else {
                    assert(!t1[idx as int].0.spec_eq(&t1[j].0));
                }
            }
        }
        let (key, mut session) = self.sessions.remove(idx);
        proof {
            t1.remove_ensures(idx as int);
        }
        let ghost gpre = session;
        let r = session.accept(&sp);
        let ghost gpost = session;
        session.last_activity_s = now_s;
        proof {
            assert(session == (Session { last_activity_s: now_s, ..gpost }));
        }
        if !fin {
            let ghost t2 = self.sessions@;
            let ghost stamped = session;
            self.sessions.insert(idx, (key, session));
            proof {
                t2.insert_ensures(idx as int, (key, stamped));
                assert(self.sessions@[idx as int].0 == key);
                assert(key.spec_eq(&sp.session_key));
                assert forall|k: int| 0 <= k < self.sessions@.len()
                    implies (#[trigger] self.sessions@[k]).0 == t1[k].0 by {
                    if k < idx as int {
                        assert(self.sessions@[k] == t2[k]);
                        assert(t2[k] == t1[k]);
                    } else if k == idx as int {
                        assert(self.sessions@[k].0 == key);
                    } else {
                        assert(self.sessions@[k] == t2[k - 1]);
                        assert(t2[k - 1] == t1[k]);
                    }
                }
                if (idx as int) < old(self).sessions@.len() {
                    // The routed entry replaces its slot.
                    assert(self.sessions@ =~= old(self).sessions@.update(idx as int,
                        (old(self).sessions@[idx as int].0, stamped)));
                } else {
                    // A fresh entry went to the end; taking it out and
                    // putting it back leaves one appended entry.
                    assert(t2 =~= old(self).sessions@);
                    assert(key == sp.session_key);
                    assert(self.sessions@ =~= old(self).sessions@.push((sp.session_key, stamped)));
                }
            }
        } else {
            proof {
                assert forall|k: int| 0 <= k < self.sessions@.len()
                    implies !(#[trigger] self.sessions@[k]).0.spec_eq(&sp.session_key) by {
                    if k < idx as int {
                        assert(self.sessions@[k] == t1[k]);
                    } else {
                        assert(self.sessions@[k] == t1[k + 1]);
                    }
                }
            }
        }
        r
    }

    /// Removes exactly the sessions whose last activity lies more than
    /// `timeout_s` seconds before `now_s`, keeping the others in order, and
    /// hands back one final event batch — that session's pending events plus
    /// a `Closed` marker — per removed session, in table order.
    pub fn sweep(&mut self, now_s: u64, timeout_s: u64) -> (expired: Vec<Vec<Event>>)
        requires
            old(self).wf(),
        ensures
            final(self).wf(),
            final(self).config == old(self).config,
            final(self).state == old(self).state,
            forall|j: int| 0 <= j < final(self).sessions@.len()
                ==> !spec_stale(#[trigger] final(self).sessions@[j], now_s, timeout_s),
            final(self).sessions@.len() + expired@.len() == old(self).sessions@.len(),
            final(self).sessions@ == old(self).sessions@.filter(fresh_pred(now_s, timeout_s)),
            batches_view(expired@) == old(self).sessions@.filter(stale_pred(now_s, timeout_s))
                .map_values(final_batch()),
    {
        let ghost olds = self.sessions@;
        let mut all: Vec<(SessionKey, Session)> = Vec::new();
        core::mem::swap(&mut all, &mut self.sessions);
        let n = all.len();
        let mut kept: Vec<(SessionKey, Session)> = Vec::new();
        let mut expired: Vec<Vec<Event>> = Vec::new();
        let ghost mut idxs: Seq<int> = Seq::empty();
        let mut i: usize = 0;
        proof {
            assert(all@.skip(0) =~= all@);
            reveal_with_fuel(Seq::<(SessionKey, Session)>::filter, 2);
            assert(olds.take(0) =~= Seq::<(SessionKey, Session)>::empty());
            assert(kept@ =~= olds.take(0).filter(fresh_pred(now_s, timeout_s)));
            assert(batches_view(expired@) =~= olds.take(0).filter(stale_pred(now_s, timeout_s))
                .map_values(final_batch()));
        }
        while i < n
            invariant
                0 <= i <= n,
                n == olds.len(),
                all@ == olds.skip(i as int),
                kept@.len() + expired@.len() == i,
                kept@ == olds.take(i as int).filter(fresh_pred(now_s, timeout_s)),
                batches_view(expired@) == olds.take(i as int).filter(stale_pred(now_s, timeout_s))
                    .map_values(final_batch()),
                idxs.len() == kept@.len(),
                forall|k: int| 0 <= k < idxs.len() ==> 0 <= #[trigger] idxs[k] < i,
                forall|p: int, q: int|
                    #![trigger idxs[p], idxs[q]]
                    0 <= p < q < idxs.len() ==> idxs[p] < idxs[q],
                forall|k: int| 0 <= k < kept@.len() ==> #[trigger] kept@[k] == olds[idxs[k]],
                forall|k: int| 0 <= k < kept@.len() ==> !spec_stale(#[trigger] kept@[k], now_s, timeout_s),
                forall|p: int, q: int|
                    #![trigger olds[p], olds[q]]
                    0 <= p < q < olds.len() ==> !olds[p].0.spec_eq(&olds[q].0),
            decreases n - i,
        {
            let ghost pre = all@;
            let (key, mut session) = all.remove(0);
            proof {
                assert(all@ =~= olds.skip(i as int + 1));
                assert(pre[0] == olds[i as int]);
            }
            let stale = if now_s > timeout_s {
                session.last_activity_s < now_s - timeout_s
            } else {
                false
            };
            proof {
                assert((key, session) == olds[i as int]);
                assert(stale == spec_stale(olds[i as int], now_s, timeout_s));
                reveal_with_fuel(Seq::<(SessionKey, Session)>::filter, 2);
                let q = olds.take(i as int + 1);
                assert(q.drop_last() =~= olds.take(i as int));
                assert(q.last() == olds[i as int]);
            }
            if stale {
                let ghost old_expired = expired@;
                let mut batch = session.flush();
                batch.push(Event::Closed);
                expired.push(batch);
                proof {
                    assert(batch@ =~= final_batch()(olds[i as int]));
                    assert(batches_view(expired@) =~= batches_view(old_expired).push(batch@));
                    assert(olds.take(i as int + 1).filter(fresh_pred(now_s, timeout_s))
                        == olds.take(i as int).filter(fresh_pred(now_s, timeout_s)));
                }
            } else {
                kept.push((key, session));
                proof {
                    idxs = idxs.push(i as int);
                    assert(kept@.last() == olds[i as int]);
                    assert(olds.take(i as int + 1).filter(stale_pred(now_s, timeout_s))
                        == olds.take(i as int).filter(stale_pred(now_s, timeout_s)));
                }
            }
            i += 1;
        }
        self.sessions = kept;
        proof {
            assert(olds.take(n as int) =~= olds);
            assert forall|p: int, q: int|
                0 <= p < q < self.sessions@.len()
                implies !(#[trigger] self.sessions@[p]).0.spec_eq(
                    &(#[trigger] self.sessions@[q]).0) by {
                assert(self.sessions@[p] == olds[idxs[p]]);
                assert(self.sessions@[q] == olds[idxs[q]]);
                assert(idxs[p] < idxs[q]);
            }
        }
        expired
    }
}

/// An entry is stale when its last activity lies more than `timeout_s`
/// seconds before `now_s`.
pub open spec fn spec_stale(entry: (SessionKey, Session), now_s: u64, timeout_s: u64) -> bool {
    entry.1.last_activity_s + timeout_s < now_s
}

/// The staleness test as a predicate over table entries.
pub open spec fn stale_pred(now_s: u64, timeout_s: u64) -> spec_fn((SessionKey, Session)) -> bool {
    |e: (SessionKey, Session)| spec_stale(e, now_s, timeout_s)
}

/// Its complement: the entries a sweep keeps.
pub open spec fn fresh_pred(now_s: u64, timeout_s: u64) -> spec_fn((SessionKey, Session)) -> bool {
    |e: (SessionKey, Session)| !spec_stale(e, now_s, timeout_s)
}

/// The final batch a swept session hands out: its pending events and a
/// `Closed` marker.
pub open spec fn final_batch() -> spec_fn((SessionKey, Session)) -> Seq<Event> {
    |e: (SessionKey, Session)| e.1.flow_packets@.push(Event::Closed)
}

/// The batches a vector of event vectors stands for.
pub open spec fn batches_view(s: Seq<Vec<Event>>) -> Seq<Seq<Event>> {
    s.map_values(|v: Vec<Event>| v@)
}

} // verus!
