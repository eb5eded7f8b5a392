//! RTC1 cyclic frame codec.
//!
//! Wire layout of an RTC1 frame (VLAN-tagged, priority 6):
//!
//! ```text
//! | dst (6) | src (6) | 0x8100 | TCI_RT (2) | 0x8892 | FrameID (2) | C-SDU (>=40) | cycle counter (2) | data status (1) | transfer status (1) |
//! ```
//!
//! An untagged frame omits the `0x8100`/TCI pair and starts the payload 4 bytes earlier.

use vstd::prelude::*;

use vstd::slice::slice_subrange;

use crate::bytes;
use crate::eth::{self, EthHeader, MacAddr, ETHERTYPE_PROFINET, ETHERTYPE_VLAN};

verus! {

/// VLAN TCI for PROFINET RT: priority 6 (RT_CLASS_1), VLAN ID 0.
pub const TCI_RT: u16 = 0xC000;

/// Minimum C-SDU length in bytes (Ethernet minimum payload floor).
pub const CSDU_MIN: usize = 40;

/// APDU status trailer length: cycle counter (2) + data status (1) + transfer status (1).
pub const APDU_LEN: usize = 4;

/// RTC1 send-clock base unit in nanoseconds (31.25 us).
pub const CYCLE_UNIT: u64 = 31_250;

/// Errors from parsing or writing an RTC1 frame.
#[derive(Debug, Clone, Copy, PartialEq, Eq, Structural)]
pub enum FrameError {
    /// The input is shorter than a minimal RTC1 frame (header + FrameID + [`CSDU_MIN`] +
    /// [`APDU_LEN`]).
    TooShort {
        /// Bytes a minimal frame of this shape would need.
        need: usize,
        /// Bytes actually present in the input.
        have: usize,
    },
    /// The Ethernet header's ethertype is not [`ETHERTYPE_PROFINET`].
    NotProfinet,
    /// [`RtFrame::write`]'s output buffer is smaller than [`frame_len`] requires.
    BufferTooSmall {
        /// Bytes [`frame_len`] computed for this C-SDU.
        need: usize,
        /// Bytes actually available in the output buffer.
        have: usize,
    },
}

/// APDU DataStatus byte: provider/consumer state bits.
#[derive(Debug, Clone, Copy, PartialEq, Eq, Structural)]
pub struct DataStatus(pub u8);

impl DataStatus {
    /// Whether bit `n` is set.
    pub open spec fn bit(self, n: u8) -> bool {
        (self.0 >> n) & 1 == 1
    }

    /// Primary provider, RUN, data valid, station OK: the steady-state cyclic value.
    #[verifier::allow_in_spec]
    pub fn run_primary_valid_ok() -> DataStatus
        returns
            DataStatus(0x35u8),
    {
        DataStatus(0x35)
    }

    /// Same as [`Self::run_primary_valid_ok`] but with bit 5 (`Station_Problem_Indicator`)
    /// cleared: the station reports a problem (e.g. a channel diagnosis is pending).
    #[verifier::allow_in_spec]
    pub fn run_primary_valid_problem() -> DataStatus
        returns
            DataStatus(0x15u8),
    {
        DataStatus(0x15)
    }

    /// Bit 0: `State.Primary`, 1 = primary AR, 0 = backup AR.
    #[verifier::allow_in_spec]
    pub fn primary(self) -> (b: bool)
        ensures
            b == self.bit(0),
        returns
            self.bit(0),
    {
        (self.0 >> 0u8) & 1 == 1
    }

    /// Bit 1: `State.Redundancy`, 1 = redundant path available.
    #[verifier::allow_in_spec]
    pub fn redundancy(self) -> (b: bool)
        ensures
            b == self.bit(1),
        returns
            self.bit(1),
    {
        (self.0 >> 1u8) & 1 == 1
    }

    /// Bit 2: `State.DataValid`, 1 = data valid.
    #[verifier::allow_in_spec]
    pub fn data_valid(self) -> (b: bool)
        ensures
            b == self.bit(2),
        returns
            self.bit(2),
    {
        (self.0 >> 2u8) & 1 == 1
    }

    /// Bit 4: `Provider_State.Run`, 1 = provider in RUN.
    #[verifier::allow_in_spec]
    pub fn provider_run(self) -> (b: bool)
        ensures
            b == self.bit(4),
        returns
            self.bit(4),
    {
        (self.0 >> 4u8) & 1 == 1
    }

    /// Bit 5: `Station_Problem_Indicator`, 1 = station OK.
    #[verifier::allow_in_spec]
    pub fn station_ok(self) -> (b: bool)
        ensures
            b == self.bit(5),
        returns
            self.bit(5),
    {
        (self.0 >> 5u8) & 1 == 1
    }
}

/// The two data status values that the device produces differ in the problem indicator
/// alone.
pub proof fn problem_indicator_is_one_bit(n: u8)
    requires
        n < 8,
    ensures
        n != 5 ==> DataStatus::run_primary_valid_ok().bit(n)
            == DataStatus::run_primary_valid_problem().bit(n),
        DataStatus::run_primary_valid_ok().bit(5),
        !DataStatus::run_primary_valid_problem().bit(5),
{
    assert(n < 8 && n != 5 ==> ((0x35u8 >> n) & 1) == ((0x15u8 >> n) & 1)) by (bit_vector);
    assert((0x35u8 >> 5u8) & 1 == 1) by (bit_vector);
    assert((0x15u8 >> 5u8) & 1 == 0) by (bit_vector);
}

/// A parsed or to-be-written RTC1 cyclic frame.
#[derive(Debug, Clone, Copy, PartialEq, Eq)]
pub struct RtFrame<'a> {
    /// The frame's `FrameID`, identifying the communication relationship.
    pub frame_id: u16,
    /// The C-SDU payload, at least [`CSDU_MIN`] bytes in a parsed frame.
    pub csdu: &'a [u8],
    /// APDU cycle counter: increments by the CR's `cycle_step` every send cycle and wraps.
    pub cycle_counter: u16,
    /// APDU DataStatus byte.
    pub data_status: DataStatus,
    /// APDU TransferStatus byte: `0` means usable, non-zero means the provider marks this
    /// frame not to be used.
    pub transfer_status: u8,
}

/// What a [`RtFrame`] holds.
pub struct RtFrameView {
    pub frame_id: u16,
    pub csdu: Seq<u8>,
    pub cycle_counter: u16,
    pub data_status: DataStatus,
    pub transfer_status: u8,
}

impl<'a> View for RtFrame<'a> {
    type V = RtFrameView;

    open spec fn view(&self) -> RtFrameView {
        RtFrameView {
            frame_id: self.frame_id,
            csdu: self.csdu@,
            cycle_counter: self.cycle_counter,
            data_status: self.data_status,
            transfer_status: self.transfer_status,
        }
    }
}

/// The length a C-SDU is padded to.
pub open spec fn padded_len(csdu_len: int) -> int {
    if csdu_len < CSDU_MIN {
        CSDU_MIN as int
    } else {
        csdu_len
    }
}

/// Total on-wire length of a VLAN-tagged RTC1 frame carrying a C-SDU of `csdu_len` bytes
/// (padded up to [`CSDU_MIN`] if shorter).
pub fn frame_len(csdu_len: usize) -> (n: usize)
    requires
        csdu_len + 24 <= usize::MAX,
    ensures
        n == 24 + padded_len(csdu_len as int),
{
    let body: usize = if csdu_len < CSDU_MIN {
        CSDU_MIN
    } else {
        csdu_len
    };
    18 + 2 + body + APDU_LEN
}

/// The length of the Ethernet header that the visible bytes suggest.
pub open spec fn header_len_guess(frame: Seq<u8>) -> int {
    if frame.len() >= 14 && eth::is_tagged(frame) {
        18
    } else {
        14
    }
}

/// What a frame reads as: a PROFINET frame with a C-SDU of at least the minimum length in
/// front of the four status bytes.
pub open spec fn spec_parse(frame: Seq<u8>) -> Result<(EthHeader, RtFrameView), FrameError> {
    let n = frame.len() as int;
    match EthHeader::spec_parse(frame) {
        Err(_) => Err(
            FrameError::TooShort {
                need: (header_len_guess(frame) + 46) as usize,
                have: n as usize,
            },
        ),
        Ok((header, off)) => if header.ethertype != ETHERTYPE_PROFINET {
            Err(FrameError::NotProfinet)
        } else if n < off + 46 {
            Err(FrameError::TooShort { need: (off + 46) as usize, have: n as usize })
        } else {
            Ok(
                (
                    header,
                    RtFrameView {
                        frame_id: bytes::be16(frame, off as int),
                        csdu: frame.subrange(off + 2, n - 4),
                        cycle_counter: bytes::be16(frame, n - 4),
                        data_status: DataStatus(frame[n - 2]),
                        transfer_status: frame[n - 1],
                    },
                ),
            )
        },
    }
}

/// A C-SDU zero-padded to the minimum length.
pub open spec fn padded_csdu(csdu: Seq<u8>) -> Seq<u8> {
    csdu + bytes::repeated(0, (padded_len(csdu.len() as int) - csdu.len()) as nat)
}

/// The 20 bytes in front of the C-SDU.
pub open spec fn front_bytes(frame_id: u16, dst: MacAddr, src: MacAddr) -> Seq<u8> {
    dst.0@ + src.0@ + bytes::be16_bytes(ETHERTYPE_VLAN) + bytes::be16_bytes(TCI_RT)
        + bytes::be16_bytes(ETHERTYPE_PROFINET) + bytes::be16_bytes(frame_id)
}

/// The frame's bytes on the wire.
pub open spec fn frame_bytes(f: RtFrameView, dst: MacAddr, src: MacAddr) -> Seq<u8> {
    front_bytes(f.frame_id, dst, src) + padded_csdu(f.csdu) + (bytes::be16_bytes(f.cycle_counter)
        + seq![f.data_status.0, f.transfer_status])
}

/// `n`, or the largest `usize` where `n` lies beyond it.
pub open spec fn clamp(n: int) -> usize {
    if n <= usize::MAX {
        n as usize
    } else {
        usize::MAX
    }
}

impl RtFrameView {
    /// What writing the frame makes of a buffer: its bytes in front of what stood behind them,
    /// or nothing if they do not fit.
    pub open spec fn writes(
        self,
        dst: MacAddr,
        src: MacAddr,
        before: Seq<u8>,
        after: Seq<u8>,
        res: Result<usize, FrameError>,
    ) -> bool {
        let need = 24 + padded_len(self.csdu.len() as int);
        match res {
            Ok(n) => {
                &&& n == need
                &&& n <= before.len()
                &&& after == frame_bytes(self, dst, src) + before.skip(need)
            },
            Err(e) => {
                &&& before.len() < need
                &&& e == FrameError::BufferTooSmall {
                    need: clamp(need),
                    have: before.len() as usize,
                }
                &&& after == before
            },
        }
    }
}

/// Overwrite `buf` from `at` with `s`: what was written before `at` stays, and what follows
/// `s` too.
fn put_at(buf: &mut [u8], at: usize, s: &[u8], done: Ghost<Seq<u8>>, orig: Ghost<Seq<u8>>)
    requires
        done@.len() == at,
        at + s@.len() <= orig@.len(),
        old(buf)@ == done@ + orig@.skip(at as int),
    ensures
        final(buf)@ == done@ + s@ + orig@.skip(at + s@.len()),
{
    let mut i: usize = 0;
    let n: usize = s.len();
    assert(buf.len() == orig@.len());
    while i < n
        invariant
            i <= n,
            n == s@.len(),
            at + n <= orig@.len(),
            buf@.len() == orig@.len(),
            orig@.len() <= usize::MAX,
            done@.len() == at,
            buf@ == done@ + s@.take(i as int) + orig@.skip(at + i),
        decreases n - i,
    {
        buf[at + i] = s[i];
        i = i + 1;
        assert(buf@ =~= done@ + s@.take(i as int) + orig@.skip(at + i));
    }
    assert(s@.take(n as int) =~= s@);
}

/// Overwrite two bytes with the big-endian bytes of `v`.
fn put_at_16(buf: &mut [u8], at: usize, v: u16, done: Ghost<Seq<u8>>, orig: Ghost<Seq<u8>>)
    requires
        done@.len() == at,
        at + 2 <= orig@.len(),
        old(buf)@ == done@ + orig@.skip(at as int),
    ensures
        final(buf)@ == done@ + bytes::be16_bytes(v) + orig@.skip(at + 2),
{
    assert(buf.len() == orig@.len());
    buf[at] = (v / 0x100) as u8;
    buf[at + 1] = (v % 0x100) as u8;
    assert(buf@ =~= done@ + bytes::be16_bytes(v) + orig@.skip(at + 2));
}

impl<'a> RtFrame<'a> {
    /// Parse an RTC1 frame: Ethernet header (tagged or untagged) + FrameID + C-SDU + APDU
    /// status.
    pub fn parse(frame: &'a [u8]) -> (res: Result<(EthHeader, RtFrame<'a>), FrameError>)
        ensures
            match res {
                Ok((h, f)) => spec_parse(frame@) == Ok::<_, FrameError>((h, f@)),
                Err(e) => spec_parse(frame@) == Err::<(EthHeader, RtFrameView), _>(e),
            },
    {
        let have: usize = frame.len();
        let (header, off) = match EthHeader::parse(frame) {
            Ok(x) => x,
            Err(_) => {
                // The header is cut off; infer its length from whatever bytes are visible.
                let off: usize = if have >= 14 && bytes::read_be16(frame, 12) == ETHERTYPE_VLAN {
                    18
                } else {
                    14
                };
                return Err(FrameError::TooShort { need: off + 2 + CSDU_MIN + APDU_LEN, have });
            },
        };
        if header.ethertype != ETHERTYPE_PROFINET {
            return Err(FrameError::NotProfinet);
        }
        let need: usize = off + 2 + CSDU_MIN + APDU_LEN;
        if have < need {
            return Err(FrameError::TooShort { need, have });
        }
        let apdu_off: usize = have - APDU_LEN;
        Ok(
            (
                header,
                RtFrame {
                    frame_id: bytes::read_be16(frame, off),
                    csdu: slice_subrange(frame, off + 2, apdu_off),
                    cycle_counter: bytes::read_be16(frame, apdu_off),
                    data_status: DataStatus(frame[apdu_off + 2]),
                    transfer_status: frame[apdu_off + 3],
                },
            ),
        )
    }

    /// Serialize the frame as a VLAN-tagged RTC1 frame into `out`, allocation-free.
    ///
    /// The C-SDU is zero-padded up to [`CSDU_MIN`] if shorter. Returns the number of bytes
    /// written; bytes of `out` behind them are kept, and a buffer that is too small is kept
    /// whole.
    pub fn write(&self, out: &mut [u8], dst: MacAddr, src: MacAddr) -> (res: Result<
        usize,
        FrameError,
    >)
        ensures
            self@.writes(dst, src, old(out)@, final(out)@, res),
    {
        let csdu_len: usize = self.csdu.len();
        if csdu_len > usize::MAX - 24 {
            return Err(FrameError::BufferTooSmall { need: usize::MAX, have: out.len() });
        }
        let need: usize = frame_len(csdu_len);
        if out.len() < need {
            return Err(FrameError::BufferTooSmall { need, have: out.len() });
        }
        let ghost orig = out@;
        let ghost none = Seq::<u8>::empty();
        let ghost front = front_bytes(self.frame_id, dst, src);
        let ghost d1 = dst.0@;
        let ghost d2 = d1 + src.0@;
        let ghost d3 = d2 + bytes::be16_bytes(ETHERTYPE_VLAN);
        let ghost d4 = d3 + bytes::be16_bytes(TCI_RT);
        let ghost d5 = d4 + bytes::be16_bytes(ETHERTYPE_PROFINET);
        assert(none + orig.skip(0) =~= orig);
        put_at(out, 0, dst.0.as_slice(), Ghost(none), Ghost(orig));
        assert(none + dst.0@ =~= d1);
        put_at(out, 6, src.0.as_slice(), Ghost(d1), Ghost(orig));
        put_at_16(out, 12, ETHERTYPE_VLAN, Ghost(d2), Ghost(orig));
        put_at_16(out, 14, TCI_RT, Ghost(d3), Ghost(orig));
        put_at_16(out, 16, ETHERTYPE_PROFINET, Ghost(d4), Ghost(orig));
        put_at_16(out, 18, self.frame_id, Ghost(d5), Ghost(orig));
        put_at(out, 20, self.csdu, Ghost(front), Ghost(orig));
        let end: usize = need - APDU_LEN;
        let mut i: usize = 20 + csdu_len;
        assert(self.csdu@ =~= self.csdu@ + bytes::repeated(0, 0));
        while i < end
            invariant
                20 + csdu_len <= i <= end,
                csdu_len == self.csdu@.len(),
                end == 20 + padded_len(csdu_len as int),
                end + 4 <= orig.len(),
                out@.len() == orig.len(),
                front.len() == 20,
                out@ == front + (self.csdu@ + bytes::repeated(0, (i - 20 - csdu_len) as nat))
                    + orig.skip(i as int),
            decreases end - i,
        {
            out[i] = 0;
            i = i + 1;
            assert(out@ =~= front + (self.csdu@ + bytes::repeated(0, (i - 20 - csdu_len) as nat))
                + orig.skip(i as int));
        }
        let ghost body = front + padded_csdu(self.csdu@);
        put_at_16(out, end, self.cycle_counter, Ghost(body), Ghost(orig));
        out[end + 2] = self.data_status.0;
        out[end + 3] = self.transfer_status;
        assert(out@ =~= frame_bytes(self@, dst, src) + orig.skip(need as int));
        Ok(need)
    }
}

/// Reading a written frame gives it back: a tagged header with the RT priority, and the
/// frame with its C-SDU padded to the minimum length.
pub proof fn rt_frame_round_trip(f: RtFrameView, dst: MacAddr, src: MacAddr)
    ensures
        frame_bytes(f, dst, src).len() == 24 + padded_len(f.csdu.len() as int),
        spec_parse(frame_bytes(f, dst, src)) == Ok::<_, FrameError>(
            (
                EthHeader { dst, src, vlan: Some(TCI_RT), ethertype: ETHERTYPE_PROFINET },
                RtFrameView { csdu: padded_csdu(f.csdu), ..f },
            ),
        ),
{
    let b = frame_bytes(f, dst, src);
    let csdu = padded_csdu(f.csdu);
    let tail = bytes::be16_bytes(f.cycle_counter) + seq![f.data_status.0, f.transfer_status];
    let h = EthHeader { dst, src, vlan: Some(TCI_RT), ethertype: ETHERTYPE_PROFINET };
    let payload = bytes::be16_bytes(f.frame_id) + csdu + tail;
    eth::eth_header_round_trip(h, payload);
    assert(b =~= h.spec_bytes() + payload);
    let n = b.len() as int;
    eth::lemma_at_16(b, 18, f.frame_id);
    assert(b.subrange(20, n - 4) =~= csdu);
    eth::lemma_at_16(b, n - 4, f.cycle_counter);
    assert(b[n - 2] == f.data_status.0);
    assert(b[n - 1] == f.transfer_status);
}

/// A written frame can be read where it was written: a buffer that is too small is refused
/// and kept; in any other, what stands behind the frame is kept, and the bytes in front of it
/// read as the frame, its C-SDU zero-padded at its end to the minimum length.
pub proof fn a_written_frame_reads_back(
    f: RtFrameView,
    dst: MacAddr,
    src: MacAddr,
    before: Seq<u8>,
    after: Seq<u8>,
    res: Result<usize, FrameError>,
)
    requires
        f.writes(dst, src, before, after, res),
    ensures
        ({
            let need = 24 + padded_len(f.csdu.len() as int);
            if before.len() < need {
                &&& res == Err::<usize, _>(
                    FrameError::BufferTooSmall {
                        need: clamp(need),
                        have: before.len() as usize,
                    },
                )
                &&& after == before
            } else {
                &&& res matches Ok(n) && n == need
                &&& after.len() == before.len()
                &&& after.skip(need) == before.skip(need)
                &&& spec_parse(after.take(need)) == Ok::<_, FrameError>(
                    (
                        EthHeader { dst, src, vlan: Some(0xC000), ethertype: ETHERTYPE_PROFINET },
                        RtFrameView { csdu: padded_csdu(f.csdu), ..f },
                    ),
                )
            }
        }),
{
    rt_frame_round_trip(f, dst, src);
    let need = 24 + padded_len(f.csdu.len() as int);
    if before.len() >= need {
        assert(after.take(need) =~= frame_bytes(f, dst, src));
        assert(after.skip(need) =~= before.skip(need));
    }
}

/// The bits of a data status and what they say.
pub proof fn status_bits_have_their_places(s: DataStatus)
    ensures
        s.primary() <==> s.0 % 2 == 1,
        s.redundancy() <==> s.0 / 2 % 2 == 1,
        s.data_valid() <==> s.0 / 4 % 2 == 1,
        s.provider_run() <==> s.0 / 16 % 2 == 1,
        s.station_ok() <==> s.0 / 32 % 2 == 1,
{
    let b = s.0;
    assert(((b >> 0u8) & 1 == 1 <==> b % 2 == 1) && ((b >> 1u8) & 1 == 1 <==> b / 2 % 2 == 1)
        && ((b >> 2u8) & 1 == 1 <==> b / 4 % 2 == 1) && ((b >> 4u8) & 1 == 1 <==> b / 16 % 2 == 1)
        && ((b >> 5u8) & 1 == 1 <==> b / 32 % 2 == 1)) by (bit_vector);
}

/// What the device says of itself in every frame: primary, running, its data valid, no
/// redundancy; and whether the station has a problem.
pub proof fn the_device_runs_as_primary()
    ensures
        ({
            let (ok, problem) = (
                DataStatus::run_primary_valid_ok(),
                DataStatus::run_primary_valid_problem(),
            );
            &&& ok.primary() && ok.data_valid() && ok.provider_run() && ok.station_ok()
            &&& problem.primary() && problem.data_valid() && problem.provider_run()
            &&& !problem.station_ok() && !ok.redundancy() && !problem.redundancy()
        }),
{
    status_bits_have_their_places(DataStatus::run_primary_valid_ok());
    status_bits_have_their_places(DataStatus::run_primary_valid_problem());
}

/// Where the parts of a frame stand: the addresses, the tag of priority 6, the PROFINET
/// ethertype and the FrameID in front, then the C-SDU with zeros up to 40 bytes, and at the end
/// the cycle counter and the two status bytes.
pub proof fn frames_stand_on_the_wire(f: RtFrameView, dst: MacAddr, src: MacAddr)
    ensures
        ({
            let b = frame_bytes(f, dst, src);
            let n = b.len() as int;
            let len = f.csdu.len() as int;
            &&& n == 24 + (if len < 40 { 40 } else { len })
            &&& eth::mac_at(b, 0) == dst
            &&& eth::mac_at(b, 6) == src
            &&& bytes::be16(b, 12) == 0x8100
            &&& bytes::be16(b, 14) == 0xC000
            &&& bytes::be16(b, 16) == 0x8892
            &&& bytes::be16(b, 18) == f.frame_id
            &&& b.subrange(20, 20 + len) == f.csdu
            &&& forall|i: int| 20 + len <= i < n - 4 ==> #[trigger] b[i] == 0
            &&& bytes::be16(b, n - 4) == f.cycle_counter
            &&& b[n - 2] == f.data_status.0
            &&& b[n - 1] == f.transfer_status
        }),
{
    let b = frame_bytes(f, dst, src);
    let n = b.len() as int;
    let none = Seq::<u8>::empty();
    eth::lemma_mac_round_trip(dst, none, b.skip(6));
    assert(none + dst.0@ + b.skip(6) =~= b);
    eth::lemma_mac_round_trip(src, dst.0@, b.skip(12));
    assert(dst.0@ + src.0@ + b.skip(12) =~= b);
    eth::lemma_at_16(b, 12, 0x8100);
    eth::lemma_at_16(b, 14, 0xC000);
    eth::lemma_at_16(b, 16, 0x8892);
    eth::lemma_at_16(b, 18, f.frame_id);
    assert(b.subrange(20, (20 + f.csdu.len()) as int) =~= f.csdu);
    eth::lemma_at_16(b, n - 4, f.cycle_counter);
}

/// How a frame is read: the FrameID from behind the header, the status from the last four
/// bytes, the C-SDU from between; refused are frames of another protocol, and those without
/// room for a C-SDU of 40 bytes.
pub proof fn frames_are_read_from_their_places(frame: Seq<u8>)
    requires
        frame.len() <= usize::MAX,
    ensures
        ({
            let n = frame.len() as int;
            let tagged = n >= 14 && frame[12] == 0x81 && frame[13] == 0;
            let at = if tagged { 18int } else { 14 };
            let is_whole = n >= at;
            let is_profinet = bytes::be16(frame, at - 2) == 0x8892;
            match spec_parse(frame) {
                Ok((_, f)) => {
                    &&& is_whole && is_profinet && n >= at + 46
                    &&& f.frame_id == bytes::be16(frame, at)
                    &&& f.csdu == frame.subrange(at + 2, n - 4)
                    &&& f.csdu.len() >= 40
                    &&& f.cycle_counter == bytes::be16(frame, n - 4)
                    &&& f.data_status.0 == frame[n - 2]
                    &&& f.transfer_status == frame[n - 1]
                },
                Err(FrameError::NotProfinet) => is_whole && !is_profinet,
                Err(FrameError::TooShort { need, have }) => {
                    &&& need == at + 46 && have == n && have < need
                    &&& !is_whole || is_profinet
                },
                Err(_) => false,
            }
        }),
{
}

/// The base of all cycles is 31.25 microseconds.
pub proof fn the_cycle_unit_is_a_32nd_of_a_millisecond()
    ensures
        CYCLE_UNIT * 32 == 1_000_000,
{
}

} // verus!
