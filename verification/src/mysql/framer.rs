//! The MySQL framer: splits a per-direction TCP byte stream into
//! length-prefixed MySQL packets (3-byte little-endian length, 1-byte
//! sequence number, body), joining `0xFFFFFF`-length continuation frames
//! into one logical packet.

use vstd::prelude::*;
use crate::mysql::common::le3;

verus! {

/// One logical MySQL packet as yielded by the framer: the sequence number of
/// the frame that completed it, and the body (continuation frames joined).
/// `length` always equals the body length.
pub struct MySQLPacket {
    pub length: u64,
    pub seq: u8,
    pub body: Vec<u8>,
}

impl View for MySQLPacket {
    type V = (u8, Seq<u8>);

    open spec fn view(&self) -> (u8, Seq<u8>) {
        (self.seq, self.body@)
    }
}

/// The packets a sequence of `MySQLPacket`s stands for.
pub open spec fn pkts_view(s: Seq<MySQLPacket>) -> Seq<(u8, Seq<u8>)> {
    s.map_values(|p: MySQLPacket| p@)
}

/// The wire form of one frame: 3-byte little-endian `len`, the sequence
/// byte, then the body.
pub open spec fn spec_encode_frame(len: int, seqno: u8, body: Seq<u8>) -> Seq<u8>
    recommends
        0 <= len <= 0xFFFFFF,
        body.len() == len,
{
    seq![(len % 0x100) as u8, ((len / 0x100) % 0x100) as u8, (len / 0x10000) as u8, seqno] + body
}

/// What framing yields on a buffered byte stream: the complete logical
/// packets, the bytes still pending, and the continuation accumulator left
/// over. A frame is complete when its 4-byte header and declared body are
/// buffered; a declared length of `0xFFFFFF` adds its body to the
/// accumulator, any other completes a logical packet.
pub open spec fn spec_frame(pending: Seq<u8>, acc: Seq<u8>) -> (Seq<(u8, Seq<u8>)>, Seq<u8>, Seq<u8>)
    decreases pending.len(),
{
    if pending.len() < 4 {
        (Seq::empty(), pending, acc)
    } else {
        let len = le3(pending[0], pending[1], pending[2]);
        if pending.len() < 4 + len {
            (Seq::empty(), pending, acc)
        } else {
            let seqno = pending[3];
            let body = pending.subrange(4, 4 + len);
            let rest = pending.skip(4 + len);
            if len == 0xFFFFFF {
                spec_frame(rest, acc + body)
            } else {
                let after = spec_frame(rest, Seq::empty());
                (seq![(seqno, acc + body)].add(after.0), after.1, after.2)
            }
        }
    }
}

/// Per-direction framing state: bytes not yet consumed, and the bodies of
/// continuation frames awaiting their final frame.
pub struct Framer {
    pub pending: Vec<u8>,
    pub acc: Vec<u8>,
}

impl Framer {
    /// The bytes still pending.
    pub open spec fn spec_pending(&self) -> Seq<u8> {
        self.pending@
    }

    /// The continuation accumulator.
    pub open spec fn spec_acc(&self) -> Seq<u8> {
        self.acc@
    }

    /// A fresh framer with nothing buffered.
    pub fn new() -> (r: Framer)
        ensures
            r.spec_pending() == Seq::<u8>::empty(),
            r.spec_acc() == Seq::<u8>::empty(),
    {
        Framer { pending: Vec::new(), acc: Vec::new() }
    }

    /// Appends `data` to the buffered stream and yields every logical packet
    /// that is now complete, exactly as `spec_frame` describes.
    pub fn accept(&mut self, data: &[u8]) -> (out: Vec<MySQLPacket>)
        ensures
            pkts_view(out@) == spec_frame(old(self).spec_pending() + data@, old(self).spec_acc()).0,
            final(self).spec_pending() == spec_frame(old(self).spec_pending() + data@, old(self).spec_acc()).1,
            final(self).spec_acc() == spec_frame(old(self).spec_pending() + data@, old(self).spec_acc()).2,
            forall|i: int| 0 <= i < out@.len() ==> (#[trigger] out@[i]).length == out@[i].body@.len(),
    {
        let ghost whole_pending = self.pending@ + data@;
        let ghost whole_acc = self.acc@;
        let mut d = vstd::slice::slice_to_vec(data);
        self.pending.append(&mut d);
        let mut out: Vec<MySQLPacket> = Vec::new();
        proof {
            assert(pkts_view(out@) + spec_frame(self.pending@, self.acc@).0
                =~= spec_frame(whole_pending, whole_acc).0);
        }
        loop
            invariant
                spec_frame(whole_pending, whole_acc).0 == pkts_view(out@)
                    + spec_frame(self.pending@, self.acc@).0,
                spec_frame(whole_pending, whole_acc).1 == spec_frame(self.pending@, self.acc@).1,
                spec_frame(whole_pending, whole_acc).2 == spec_frame(self.pending@, self.acc@).2,
                forall|i: int| 0 <= i < out@.len() ==> (#[trigger] out@[i]).length == out@[i].body@.len(),
            ensures
                spec_frame(self.pending@, self.acc@).0 == Seq::<(u8, Seq<u8>)>::empty(),
                spec_frame(self.pending@, self.acc@).1 == self.pending@,
                spec_frame(self.pending@, self.acc@).2 == self.acc@,
            decreases self.pending@.len(),
        {
            if self.pending.len() < 4 {
                break;
            }
            let len: usize = self.pending[0] as usize + 0x100 * (self.pending[1] as usize)
                + 0x10000 * (self.pending[2] as usize);
            if self.pending.len() - 4 < len {
                break;
            }
            let ghost cur_pending = self.pending@;
            let ghost cur_acc = self.acc@;
            let seqno = self.pending[3];
            let tail = self.pending.split_off(4 + len);
            let mut body = self.pending.split_off(4);
            self.pending = tail;
            proof {
                assert(self.pending@ =~= cur_pending.skip(4 + len as int));
                assert(body@ =~= cur_pending.subrange(4, 4 + len as int));
            }
            if len == 0xFFFFFF {
                self.acc.append(&mut body);
                proof {
                    assert(self.acc@ == cur_acc + cur_pending.subrange(4, 4 + len as int));
                }
            } else {
                let mut full: Vec<u8> = Vec::new();
                core::mem::swap(&mut full, &mut self.acc);
                full.append(&mut body);
                proof {
                    assert(full@ == cur_acc + cur_pending.subrange(4, 4 + len as int));
                    assert(self.acc@ =~= Seq::<u8>::empty());
                }
                let length = full.len() as u64;
                let ghost prev_out = out@;
                out.push(MySQLPacket { length, seq: seqno, body: full });
                proof {
                    assert(pkts_view(out@) =~= pkts_view(prev_out).push(
                        (seqno, cur_acc + cur_pending.subrange(4, 4 + len as int))));
                    assert(pkts_view(prev_out).push(
                        (seqno, cur_acc + cur_pending.subrange(4, 4 + len as int)))
                        + spec_frame(self.pending@, self.acc@).0
                        =~= pkts_view(prev_out) + spec_frame(cur_pending, cur_acc).0);
                }
            }
        }
        proof {
            assert(pkts_view(out@) + Seq::<(u8, Seq<u8>)>::empty() =~= pkts_view(out@));
        }
        out
    }
}

/// Encodes one wire frame from its parts.
pub fn encode_packet(length: u32, seq: u8, body: &[u8]) -> (r: Vec<u8>)
    requires
        length <= 0xFFFFFF,
        body@.len() == length,
    ensures
        r@ == spec_encode_frame(length as int, seq, body@),
{
    let mut out: Vec<u8> = Vec::new();
    out.push((length % 0x100) as u8);
    out.push(((length / 0x100) % 0x100) as u8);
    out.push((length / 0x10000) as u8);
    out.push(seq);
    let mut b = vstd::slice::slice_to_vec(body);
    out.append(&mut b);
    proof {
        assert(out@ =~= spec_encode_frame(length as int, seq, body@));
    }
    out
}

/// The first three bytes of an encoded frame decode back to its length.
proof fn lemma_encoded_len(len: int)
    requires
        0 <= len <= 0xFFFFFF,
    ensures
        le3((len % 0x100) as u8, ((len / 0x100) % 0x100) as u8, (len / 0x10000) as u8) == len,
{
    assert((len % 0x100) as u8 as int == len % 0x100);
    assert(((len / 0x100) % 0x100) as u8 as int == (len / 0x100) % 0x100);
    assert((len / 0x10000) as u8 as int == len / 0x10000) by {
        assert(len / 0x10000 < 0x100) by (nonlinear_arith)
            requires 0 <= len <= 0xFFFFFF;
    }
    assert(len % 0x100 + 0x100 * ((len / 0x100) % 0x100) + 0x10000 * (len / 0x10000) == len)
        by (nonlinear_arith)
        requires 0 <= len <= 0xFFFFFF;
}

/// Feeding one encoded frame of declared length below `0xFFFFFF` to a fresh
/// framer yields exactly its `(seq, body)` back, with nothing left pending
/// or accumulated.
pub proof fn lemma_frame_round_trip(length: int, seqno: u8, body: Seq<u8>)
    requires
        0 <= length < 0xFFFFFF,
        body.len() == length,
    ensures
        spec_frame(spec_encode_frame(length, seqno, body), Seq::<u8>::empty()).0
            == seq![(seqno, body)],
        spec_frame(spec_encode_frame(length, seqno, body), Seq::<u8>::empty()).1
            == Seq::<u8>::empty(),
        spec_frame(spec_encode_frame(length, seqno, body), Seq::<u8>::empty()).2
            == Seq::<u8>::empty(),
{
    let e = spec_encode_frame(length, seqno, body);
    lemma_encoded_len(length);
    assert(le3(e[0], e[1], e[2]) == length);
    assert(e.len() == 4 + length);
    assert(e.subrange(4, 4 + length) =~= body);
    assert(e.skip(4 + length) =~= Seq::<u8>::empty());
    assert(e[3] == seqno);
    let after = spec_frame(e.skip(4 + length), Seq::empty());
    assert(after.0 =~= Seq::<(u8, Seq<u8>)>::empty());
    assert(Seq::<u8>::empty() + body =~= body);
    assert(spec_frame(e, Seq::<u8>::empty()).0 =~= seq![(seqno, body)]);
}

/// The concatenation of a sequence of byte strings.
pub open spec fn concat_all(bodies: Seq<Seq<u8>>) -> Seq<u8>
    decreases bodies.len(),
{
    if bodies.len() == 0 {
        Seq::empty()
    } else {
        bodies[0] + concat_all(bodies.skip(1))
    }
}

/// The wire form of a run of continuation frames: each declares length
/// `0xFFFFFF` and carries the matching body.
pub open spec fn cont_chain(bodies: Seq<Seq<u8>>, seqs: Seq<u8>) -> Seq<u8>
    decreases bodies.len(),
{
    if bodies.len() == 0 {
        Seq::empty()
    } else {
        spec_encode_frame(0xFFFFFF, seqs[0], bodies[0]) + cont_chain(bodies.skip(1), seqs.skip(1))
    }
}

/// Generalization of the continuation law over a pre-filled accumulator.
proof fn lemma_continuation_acc(bodies: Seq<Seq<u8>>, seqs: Seq<u8>, fin_seq: u8, fin: Seq<u8>, acc: Seq<u8>)
    requires
        bodies.len() == seqs.len(),
        forall|i: int| 0 <= i < bodies.len() ==> (#[trigger] bodies[i]).len() == 0xFFFFFF,
        0 <= fin.len() < 0xFFFFFF,
    ensures
        spec_frame(cont_chain(bodies, seqs) + spec_encode_frame(fin.len() as int, fin_seq, fin), acc).0
            == seq![(fin_seq, acc + concat_all(bodies) + fin)],
        spec_frame(cont_chain(bodies, seqs) + spec_encode_frame(fin.len() as int, fin_seq, fin), acc).1
            == Seq::<u8>::empty(),
        spec_frame(cont_chain(bodies, seqs) + spec_encode_frame(fin.len() as int, fin_seq, fin), acc).2
            == Seq::<u8>::empty(),
    decreases bodies.len(),
{
    let whole = cont_chain(bodies, seqs) + spec_encode_frame(fin.len() as int, fin_seq, fin);
    if bodies.len() == 0 {
        assert(whole =~= spec_encode_frame(fin.len() as int, fin_seq, fin));
        let e = spec_encode_frame(fin.len() as int, fin_seq, fin);
        lemma_encoded_len(fin.len() as int);
        assert(le3(e[0], e[1], e[2]) == fin.len());
        assert(e.subrange(4, 4 + fin.len() as int) =~= fin);
        assert(e.skip(4 + fin.len() as int) =~= Seq::<u8>::empty());
        let after = spec_frame(e.skip(4 + fin.len() as int), Seq::empty());
        assert(after.0 =~= Seq::<(u8, Seq<u8>)>::empty());
        assert(concat_all(bodies) =~= Seq::<u8>::empty());
        assert(acc + concat_all(bodies) + fin =~= acc + fin);
        assert(spec_frame(whole, acc).0 =~= seq![(fin_seq, acc + concat_all(bodies) + fin)]);
    } else {
        let first = spec_encode_frame(0xFFFFFF, seqs[0], bodies[0]);
        let rest_chain = cont_chain(bodies.skip(1), seqs.skip(1))
            + spec_encode_frame(fin.len() as int, fin_seq, fin);
        assert(whole =~= first + rest_chain);
        lemma_encoded_len(0xFFFFFF);
        assert(whole.len() >= 4 + 0xFFFFFF);
        assert(whole[0] == first[0] && whole[1] == first[1] && whole[2] == first[2]);
        assert(le3(whole[0], whole[1], whole[2]) == 0xFFFFFF);
        assert(whole.subrange(4int, 4 + 0xFFFFFFint) =~= bodies[0]);
        assert(whole.skip(4 + 0xFFFFFFint) =~= rest_chain);
        lemma_continuation_acc(bodies.skip(1), seqs.skip(1), fin_seq, fin, acc + bodies[0]);
        assert(acc + bodies[0] + concat_all(bodies.skip(1)) + fin
            =~= acc + concat_all(bodies) + fin);
    }
}

/// Framer continuation: a run of `0xFFFFFF`-length frames followed by one
/// final frame of length `L` below `0xFFFFFF` yields a single logical packet
/// whose body is the concatenation of all bodies, of size
/// `bodies.len() * 0xFFFFFF + L`, under the final frame's sequence number.
pub proof fn lemma_framer_continuation(bodies: Seq<Seq<u8>>, seqs: Seq<u8>, fin_seq: u8, fin: Seq<u8>)
    requires
        bodies.len() == seqs.len(),
        forall|i: int| 0 <= i < bodies.len() ==> (#[trigger] bodies[i]).len() == 0xFFFFFF,
        0 <= fin.len() < 0xFFFFFF,
    ensures
        spec_frame(cont_chain(bodies, seqs) + spec_encode_frame(fin.len() as int, fin_seq, fin),
            Seq::<u8>::empty()).0 == seq![(fin_seq, concat_all(bodies) + fin)],
        concat_all(bodies).len() + fin.len() == bodies.len() * 0xFFFFFF + fin.len(),
{
    lemma_continuation_acc(bodies, seqs, fin_seq, fin, Seq::<u8>::empty());
    assert(Seq::<u8>::empty() + concat_all(bodies) + fin =~= concat_all(bodies) + fin);
    lemma_concat_all_len(bodies);
}

/// Concatenating byte strings of equal length `0xFFFFFF` gives their count
/// times that length.
proof fn lemma_concat_all_len(bodies: Seq<Seq<u8>>)
    requires
        forall|i: int| 0 <= i < bodies.len() ==> (#[trigger] bodies[i]).len() == 0xFFFFFF,
    ensures
        concat_all(bodies).len() == bodies.len() * 0xFFFFFF,
    decreases bodies.len(),
{
    if bodies.len() == 0 {
    } else {
        lemma_concat_all_len(bodies.skip(1));
        assert(concat_all(bodies).len() == 0xFFFFFF + (bodies.len() - 1) * 0xFFFFFF);
        assert(0xFFFFFF + (bodies.len() - 1) * 0xFFFFFF == bodies.len() * 0xFFFFFF)
            by (nonlinear_arith);
    }
}

} // verus!
