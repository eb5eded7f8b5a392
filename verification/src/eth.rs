//! Raw Ethernet: addresses, the layer-2 header and an in-memory transport.

use vstd::prelude::*;

use std::collections::VecDeque;
use vstd::slice::slice_to_vec;

use crate::bytes;

verus! {

/// Ethertype of PROFINET frames.
pub const ETHERTYPE_PROFINET: u16 = 0x8892;

/// Ethertype of an 802.1Q tag.
pub const ETHERTYPE_VLAN: u16 = 0x8100;

/// Largest frame a transport must be able to hand back: 1500-byte MTU + 14-byte header
/// + 4-byte 802.1Q tag + 4-byte FCS.
pub const MAX_FRAME_LEN: usize = 1522;

/// A 48-bit Ethernet address.
#[derive(Debug, Clone, Copy, Eq)]
pub struct MacAddr(pub [u8; 6]);

impl PartialEq for MacAddr {
    fn eq(&self, other: &Self) -> (r: bool) {
        let r = self.0[0] == other.0[0] && self.0[1] == other.0[1] && self.0[2] == other.0[2]
            && self.0[3] == other.0[3] && self.0[4] == other.0[4] && self.0[5] == other.0[5];
        proof {
            if r {
                assert(self.0 =~= other.0);
            }
        }
        r
    }
}

impl vstd::std_specs::cmp::PartialEqSpecImpl for MacAddr {
    open spec fn obeys_eq_spec() -> bool {
        true
    }

    open spec fn eq_spec(&self, other: &Self) -> bool {
        *self == *other
    }
}

/// The address that stands at offset `i` of `b`.
pub open spec fn mac_at(b: Seq<u8>, i: int) -> MacAddr {
    MacAddr([b[i], b[i + 1], b[i + 2], b[i + 3], b[i + 4], b[i + 5]])
}

/// An address read from the bytes of `m` is `m`.
pub proof fn lemma_mac_round_trip(m: MacAddr, before: Seq<u8>, after: Seq<u8>)
    ensures
        mac_at(before + m.0@ + after, before.len() as int) == m,
{
    let s = before + m.0@ + after;
    let n = before.len() as int;
    assert forall|k: int| 0 <= k < 6 implies s[n + k] == m.0@[k] by {}
    assert(s[n + 0] == m.0@[0]);
    assert(mac_at(s, n).0 =~= m.0);
}

/// Read the address at offset `i`.
pub fn read_mac(b: &[u8], i: usize) -> (m: MacAddr)
    requires
        i + 6 <= b@.len(),
    ensures
        m == mac_at(b@, i as int),
{
    let first: u8 = b[i];
    MacAddr([first, b[i + 1], b[i + 2], b[i + 3], b[i + 4], b[i + 5]])
}

/// Append the six bytes of `m`.
pub fn put_mac(out: &mut Vec<u8>, m: MacAddr)
    ensures
        final(out)@ == old(out)@ + m.0@,
{
    bytes::put_all(out, m.0.as_slice());
}

/// Errors from reading an Ethernet header.
#[derive(Debug, Clone, Copy, PartialEq, Eq, Structural)]
pub enum EthError {
    /// Fewer bytes than the header needs.
    TooShort {
        /// Bytes the header needs.
        need: usize,
        /// Bytes present.
        have: usize,
    },
}

/// The Ethernet header: addresses, the 802.1Q tag control information when the frame is
/// tagged, and the ethertype of the payload.
#[derive(Debug, Clone, Copy, PartialEq, Eq)]
pub struct EthHeader {
    pub dst: MacAddr,
    pub src: MacAddr,
    pub vlan: Option<u16>,
    pub ethertype: u16,
}

/// Whether a frame (of at least 14 bytes) carries an 802.1Q tag.
pub open spec fn is_tagged(frame: Seq<u8>) -> bool {
    bytes::be16(frame, 12) == ETHERTYPE_VLAN
}

impl EthHeader {
    /// The header a frame starts with and the offset of its payload.
    pub open spec fn spec_parse(frame: Seq<u8>) -> Result<(EthHeader, usize), EthError> {
        let have = frame.len() as usize;
        if frame.len() < 14 {
            Err(EthError::TooShort { need: 14, have })
        } else if !is_tagged(frame) {
            Ok(
                (
                    EthHeader {
                        dst: mac_at(frame, 0),
                        src: mac_at(frame, 6),
                        vlan: None,
                        ethertype: bytes::be16(frame, 12),
                    },
                    14,
                ),
            )
        } else if frame.len() < 18 {
            Err(EthError::TooShort { need: 18, have })
        } else {
            Ok(
                (
                    EthHeader {
                        dst: mac_at(frame, 0),
                        src: mac_at(frame, 6),
                        vlan: Some(bytes::be16(frame, 14)),
                        ethertype: bytes::be16(frame, 16),
                    },
                    18,
                ),
            )
        }
    }

    /// The header's bytes on the wire.
    pub open spec fn spec_bytes(self) -> Seq<u8> {
        let tag = match self.vlan {
            Some(tci) => bytes::be16_bytes(ETHERTYPE_VLAN) + bytes::be16_bytes(tci),
            None => Seq::empty(),
        };
        self.dst.0@ + self.src.0@ + tag + bytes::be16_bytes(self.ethertype)
    }

    /// Read the header of `frame`; also returns the offset of the payload (14, or 18 when
    /// the frame is tagged).
    pub fn parse(frame: &[u8]) -> (res: Result<(EthHeader, usize), EthError>)
        ensures
            res == Self::spec_parse(frame@),
    {
        let have: usize = frame.len();
        if have < 14 {
            return Err(EthError::TooShort { need: 14, have });
        }
        let dst = read_mac(frame, 0);
        let src = read_mac(frame, 6);
        let ethertype: u16 = bytes::read_be16(frame, 12);
        if ethertype != ETHERTYPE_VLAN {
            return Ok((EthHeader { dst, src, vlan: None, ethertype }, 14));
        }
        if have < 18 {
            return Err(EthError::TooShort { need: 18, have });
        }
        let tci: u16 = bytes::read_be16(frame, 14);
        let inner: u16 = bytes::read_be16(frame, 16);
        Ok((EthHeader { dst, src, vlan: Some(tci), ethertype: inner }, 18))
    }

    /// Append the header's bytes.
    pub fn write(&self, out: &mut Vec<u8>)
        ensures
            final(out)@ == old(out)@ + self.spec_bytes(),
    {
        put_mac(out, self.dst);
        put_mac(out, self.src);
        if let Some(tci) = self.vlan {
            bytes::put_be16(out, ETHERTYPE_VLAN);
            bytes::put_be16(out, tci);
        }
        bytes::put_be16(out, self.ethertype);
        assert(out@ =~= old(out)@ + self.spec_bytes());
    }
}

/// Reading a written header gives it back, with the payload right behind it. An untagged
/// header whose ethertype is the one of a tag is the exception: it reads as tagged.
pub proof fn eth_header_round_trip(h: EthHeader, payload: Seq<u8>)
    requires
        h.vlan is None ==> h.ethertype != ETHERTYPE_VLAN,
    ensures
        EthHeader::spec_parse(h.spec_bytes() + payload) == Ok::<(EthHeader, usize), EthError>(
            (h, h.spec_bytes().len() as usize),
        ),
{
    let b = h.spec_bytes() + payload;
    let none = Seq::<u8>::empty();
    lemma_mac_round_trip(h.dst, none, b.skip(6));
    assert(none + h.dst.0@ + b.skip(6) =~= b);
    lemma_mac_round_trip(h.src, h.dst.0@, b.skip(12));
    assert(h.dst.0@ + h.src.0@ + b.skip(12) =~= b);
    match h.vlan {
        Some(tci) => {
            lemma_at_16(b, 12, ETHERTYPE_VLAN);
            lemma_at_16(b, 14, tci);
            lemma_at_16(b, 16, h.ethertype);
        },
        None => {
            lemma_at_16(b, 12, h.ethertype);
        },
    }
}

/// A sequence that holds the two bytes of `v` at `i` reads as `v` there.
pub proof fn lemma_at_16(b: Seq<u8>, i: int, v: u16)
    requires
        0 <= i,
        i + 2 <= b.len(),
        b.subrange(i, i + 2) =~= bytes::be16_bytes(v),
    ensures
        bytes::be16(b, i) == v,
{
    assert(b[i] == b.subrange(i, i + 2)[0]);
    assert(b[i + 1] == b.subrange(i, i + 2)[1]);
}

/// Errors from a raw Ethernet transport's send/receive.
#[derive(Debug, Clone, PartialEq, Eq)]
pub enum TransportError {
    /// The underlying socket/device failed; the text says how.
    Io(String),
    /// `recv_into` was given a buffer shorter than [`MAX_FRAME_LEN`].
    BufferTooSmall,
    /// A frame longer than the buffer arrived; it was discarded, never truncated.
    FrameTooLong {
        /// The oversized frame's actual length in bytes.
        len: usize,
    },
}

/// In-memory transport: records what is sent and hands out what was queued.
pub struct MockTransport {
    tx: Vec<Vec<u8>>,
    rx: VecDeque<Vec<u8>>,
}

impl MockTransport {
    /// The frames sent so far, in order.
    pub closed spec fn sent_frames(self) -> Seq<Seq<u8>> {
        self.tx@.map_values(|f: Vec<u8>| f@)
    }

    /// The frames queued for reception, oldest first.
    pub closed spec fn queued_frames(self) -> Seq<Seq<u8>> {
        self.rx@.map_values(|f: Vec<u8>| f@)
    }

    /// An empty transport: nothing sent yet, nothing queued to receive.
    pub fn new() -> (t: Self)
        ensures
            t.sent_frames() == Seq::<Seq<u8>>::empty(),
            t.queued_frames() == Seq::<Seq<u8>>::empty(),
    {
        let t = MockTransport { tx: Vec::new(), rx: VecDeque::new() };
        assert(t.sent_frames() =~= Seq::empty());
        assert(t.queued_frames() =~= Seq::empty());
        t
    }

    /// Enqueue a frame to be returned by `recv` (first in, first out).
    pub fn push_rx(&mut self, frame: Vec<u8>)
        ensures
            final(self).queued_frames() == old(self).queued_frames().push(frame@),
            final(self).sent_frames() == old(self).sent_frames(),
    {
        self.rx.push_back(frame);
        assert(self.queued_frames() =~= old(self).queued_frames().push(frame@));
    }

    /// Copies of all frames sent via `send`, in order.
    pub fn sent(&self) -> (r: Vec<Vec<u8>>)
        ensures
            r@.map_values(|f: Vec<u8>| f@) == self.sent_frames(),
    {
        let mut r: Vec<Vec<u8>> = Vec::new();
        let mut i: usize = 0;
        while i < self.tx.len()
            invariant
                i <= self.tx@.len(),
                r@.len() == i,
                forall|k: int| 0 <= k < i ==> (#[trigger] r@[k])@ == self.tx@[k]@,
            decreases self.tx@.len() - i,
        {
            r.push(slice_to_vec(self.tx[i].as_slice()));
            i = i + 1;
        }
        assert(r@.map_values(|f: Vec<u8>| f@) =~= self.sent_frames());
        r
    }

    /// Record a complete Ethernet frame as sent; never fails.
    pub fn send(&mut self, frame: &[u8]) -> (res: Result<(), TransportError>)
        ensures
            res is Ok,
            final(self).sent_frames() == old(self).sent_frames().push(frame@),
            final(self).queued_frames() == old(self).queued_frames(),
    {
        self.tx.push(slice_to_vec(frame));
        assert(self.sent_frames() =~= old(self).sent_frames().push(frame@));
        Ok(())
    }

    /// Take the oldest queued frame into `buf` and return its length.
    ///
    /// A buffer shorter than [`MAX_FRAME_LEN`] is refused and the queue kept; a frame that
    /// does not fit is dropped and reported; an empty queue gives `None`. The timeout is
    /// accepted for the sake of real transports and ignored.
    pub fn recv_into(&mut self, buf: &mut [u8], timeout_ns: Option<u64>) -> (res: Result<
        Option<usize>,
        TransportError,
    >)
        ensures
            final(buf)@.len() == old(buf)@.len(),
            final(self).sent_frames() == old(self).sent_frames(),
            match res {
                Err(TransportError::BufferTooSmall) => {
                    &&& old(buf)@.len() < MAX_FRAME_LEN
                    &&& final(buf)@ == old(buf)@
                    &&& final(self).queued_frames() == old(self).queued_frames()
                },
                Ok(None) => {
                    &&& old(buf)@.len() >= MAX_FRAME_LEN
                    &&& old(self).queued_frames().len() == 0
                    &&& final(buf)@ == old(buf)@
                    &&& final(self).queued_frames() == old(self).queued_frames()
                },
                Err(TransportError::FrameTooLong { len }) => {
                    &&& old(buf)@.len() >= MAX_FRAME_LEN
                    &&& old(self).queued_frames().len() > 0
                    &&& len == old(self).queued_frames()[0].len()
                    &&& len > old(buf)@.len()
                    &&& final(buf)@ == old(buf)@
                    &&& final(self).queued_frames() == old(self).queued_frames().skip(1)
                },
                Ok(Some(n)) => {
                    &&& old(buf)@.len() >= MAX_FRAME_LEN
                    &&& old(self).queued_frames().len() > 0
                    &&& n == old(self).queued_frames()[0].len()
                    &&& n <= old(buf)@.len()
                    &&& final(buf)@ == old(self).queued_frames()[0] + old(buf)@.skip(n as int)
                    &&& final(self).queued_frames() == old(self).queued_frames().skip(1)
                },
                Err(TransportError::Io(_)) => false,
            },
    {
        if buf.len() < MAX_FRAME_LEN {
            return Err(TransportError::BufferTooSmall);
        }
        let head = self.rx.pop_front();
        match head {
            None => {
                assert(self.queued_frames() =~= old(self).queued_frames());
                Ok(None)
            },
            Some(frame) => {
                assert(self.queued_frames() =~= old(self).queued_frames().skip(1));
                let n: usize = frame.len();
                if n > buf.len() {
                    return Err(TransportError::FrameTooLong { len: n });
                }
                copy_prefix(buf, frame.as_slice());
                Ok(Some(n))
            },
        }
    }

    /// Like [`MockTransport::recv_into`] with a buffer of its own: the frame comes back as
    /// an owned vector.
    pub fn recv(&mut self, timeout_ns: Option<u64>) -> (res: Result<
        Option<Vec<u8>>,
        TransportError,
    >)
        ensures
            final(self).sent_frames() == old(self).sent_frames(),
            match res {
                Ok(None) => old(self).queued_frames().len() == 0
                    && final(self).queued_frames() == old(self).queued_frames(),
                Ok(Some(frame)) => {
                    &&& old(self).queued_frames().len() > 0
                    &&& frame@ == old(self).queued_frames()[0]
                    &&& frame@.len() <= MAX_FRAME_LEN
                    &&& final(self).queued_frames() == old(self).queued_frames().skip(1)
                },
                Err(TransportError::FrameTooLong { len }) => {
                    &&& old(self).queued_frames().len() > 0
                    &&& len == old(self).queued_frames()[0].len()
                    &&& len > MAX_FRAME_LEN
                    &&& final(self).queued_frames() == old(self).queued_frames().skip(1)
                },
                Err(_) => false,
            },
    {
        let mut buf: Vec<u8> = vec![0u8; MAX_FRAME_LEN];
        match self.recv_into(buf.as_mut_slice(), timeout_ns) {
            Ok(Some(n)) => {
                buf.truncate(n);
                assert(buf@ =~= old(self).queued_frames()[0]);
                Ok(Some(buf))
            },
            Ok(None) => Ok(None),
            Err(e) => Err(e),
        }
    }
}

/// Overwrite the first bytes of `buf` with `s`.
pub fn copy_prefix(buf: &mut [u8], s: &[u8])
    requires
        s@.len() <= old(buf)@.len(),
    ensures
        final(buf)@ == s@ + old(buf)@.skip(s@.len() as int),
{
    let mut i: usize = 0;
    while i < s.len()
        invariant
            i <= s@.len() <= buf@.len(),
            buf@.len() == old(buf)@.len(),
            forall|k: int| 0 <= k < i ==> buf@[k] == s@[k],
            forall|k: int| i <= k < buf@.len() ==> buf@[k] == old(buf)@[k],
        decreases s@.len() - i,
    {
        buf[i] = s[i];
        i = i + 1;
    }
    assert(buf@ =~= s@ + old(buf)@.skip(s@.len() as int));
}

/// Where the parts of a header stand: the addresses in front, the tag, if there is one, behind
/// them, and the ethertype at the end.
pub proof fn headers_stand_at_their_places(h: EthHeader)
    ensures
        ({
            let b = h.spec_bytes();
            &&& mac_at(b, 0) == h.dst
            &&& mac_at(b, 6) == h.src
            &&& h.vlan is None ==> b.len() == 14 && bytes::be16(b, 12) == h.ethertype
            &&& h.vlan matches Some(tci) ==> {
                &&& b.len() == 18
                &&& bytes::be16(b, 12) == 0x8100
                &&& bytes::be16(b, 14) == tci
                &&& bytes::be16(b, 16) == h.ethertype
            }
        }),
{
    let b = h.spec_bytes();
    let none = Seq::<u8>::empty();
    lemma_mac_round_trip(h.dst, none, b.skip(6));
    assert(none + h.dst.0@ + b.skip(6) =~= b);
    lemma_mac_round_trip(h.src, h.dst.0@, b.skip(12));
    assert(h.dst.0@ + h.src.0@ + b.skip(12) =~= b);
    match h.vlan {
        Some(tci) => {
            lemma_at_16(b, 12, 0x8100);
            lemma_at_16(b, 14, tci);
            lemma_at_16(b, 16, h.ethertype);
        },
        None => {
            lemma_at_16(b, 12, h.ethertype);
        },
    }
}

/// How a frame's header is read: the addresses from the front, the ethertype from behind the
/// tag, if the frame has one. Only a frame that ends before its header does is refused.
pub proof fn headers_are_read_from_their_places(frame: Seq<u8>)
    requires
        frame.len() <= usize::MAX,
    ensures
        ({
            let tagged = frame[12] == 0x81 && frame[13] == 0;
            match EthHeader::spec_parse(frame) {
                Ok((h, at)) => {
                    &&& h.dst == mac_at(frame, 0)
                    &&& h.src == mac_at(frame, 6)
                    &&& at == (if tagged { 18int } else { 14 })
                    &&& at <= frame.len()
                    &&& h.ethertype == bytes::be16(frame, at - 2)
                    &&& h.vlan == (if tagged { Some(bytes::be16(frame, 14)) } else { None })
                },
                Err(EthError::TooShort { need, have }) => {
                    &&& have == frame.len()
                    &&& need == (if frame.len() >= 14 && tagged { 18int } else { 14 })
                    &&& have < need
                },
            }
        }),
{
}

/// The longest frame is that of a full payload, with header, tag and check sequence.
pub proof fn the_longest_frame_is_a_tagged_one()
    ensures
        MAX_FRAME_LEN == 1500 + 14 + 4 + 4,
{
}

} // verus!
