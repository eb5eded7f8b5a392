//! Recorded traffic: the raw Ethernet frames of a pcap or pcapng capture, told apart by its
//! leading bytes, for feeding recorded captures back through the codecs without a live
//! socket. The containers themselves are parsed by the `pcap-file` crate.

use pcap_file::pcap::PcapParser;
use pcap_file::pcapng::{Block, PcapNgParser};
use pcap_file::PcapError;
use vstd::prelude::*;
use vstd::slice::slice_subrange;

use crate::bytes;

verus! {

/// The container format of a capture.
#[derive(Debug, Clone, Copy, PartialEq, Eq, Structural)]
pub enum CaptureFormat {
    /// Classic pcap, of either byte order and precision.
    Pcap,
    /// pcapng.
    PcapNg,
}

/// The format that a file with these leading bytes has.
pub open spec fn format_of(magic: Seq<u8>) -> Option<CaptureFormat> {
    if magic == seq![0x0au8, 0x0d, 0x0d, 0x0a] {
        Some(CaptureFormat::PcapNg)
    } else if magic == seq![0xd4u8, 0xc3, 0xb2, 0xa1] || magic == seq![0xa1u8, 0xb2, 0xc3, 0xd4]
        || magic == seq![0x4du8, 0x3c, 0xb2, 0xa1] || magic == seq![0xa1u8, 0xb2, 0x3c, 0x4d] {
        Some(CaptureFormat::Pcap)
    } else {
        None
    }
}

impl CaptureFormat {
    /// Detect the format from the first four bytes: the type of pcapng's section header
    /// block, or one of the classic magic numbers (either byte order, micro- or nanoseconds).
    /// `None` if they match neither.
    pub fn detect(magic: [u8; 4]) -> (r: Option<CaptureFormat>)
        ensures
            r == format_of(magic@),
    {
        let (a, b, c, d) = (magic[0], magic[1], magic[2], magic[3]);
        let ghost s = seq![a, b, c, d];
        assert(magic@ =~= s);
        let ng = a == 0x0a && b == 0x0d && c == 0x0d && d == 0x0a;
        let classic = (a == 0xd4 && b == 0xc3 && c == 0xb2 && d == 0xa1) || (a == 0xa1 && b == 0xb2
            && c == 0xc3 && d == 0xd4) || (a == 0x4d && b == 0x3c && c == 0xb2 && d == 0xa1) || (a
            == 0xa1 && b == 0xb2 && c == 0x3c && d == 0x4d);
        proof {
            let (m1, m2, m3, m4, m5) = (
                seq![0x0au8, 0x0d, 0x0d, 0x0a],
                seq![0xd4u8, 0xc3, 0xb2, 0xa1],
                seq![0xa1u8, 0xb2, 0xc3, 0xd4],
                seq![0x4du8, 0x3c, 0xb2, 0xa1],
                seq![0xa1u8, 0xb2, 0x3c, 0x4d],
            );
            assert((s == m1) == (s =~= m1));
            assert((s == m2) == (s =~= m2));
            assert((s == m3) == (s =~= m3));
            assert((s == m4) == (s =~= m4));
            assert((s == m5) == (s =~= m5));
            assert(m1[0] == 0x0a && m1[1] == 0x0d && m1[2] == 0x0d && m1[3] == 0x0a);
            assert(m2[0] == 0xd4 && m2[1] == 0xc3 && m2[2] == 0xb2 && m2[3] == 0xa1);
            assert(m3[0] == 0xa1 && m3[1] == 0xb2 && m3[2] == 0xc3 && m3[3] == 0xd4);
            assert(m4[0] == 0x4d && m4[1] == 0x3c && m4[2] == 0xb2 && m4[3] == 0xa1);
            assert(m5[0] == 0xa1 && m5[1] == 0xb2 && m5[2] == 0x3c && m5[3] == 0x4d);
        }
        if ng {
            Some(CaptureFormat::PcapNg)
        } else if classic {
            Some(CaptureFormat::Pcap)
        } else {
            None
        }
    }
}

/// The most bytes that one packet or block of a capture may take; a larger one reads as cut
/// short.
pub const READ_BUFFER: usize = 8_000_000;

/// Why a capture cannot be read on.
#[derive(Debug, Clone, PartialEq, Eq)]
pub enum CaptureError {
    /// The capture is shorter than a magic number.
    TooShort,
    /// The capture ends inside a header, a packet or a block.
    Truncated,
    /// The capture's own container format is malformed: what the parser says of it.
    Pcap(String),
    /// The first 4 bytes match neither a pcap nor a pcapng magic number.
    UnknownFormat([u8; 4]),
}

/// What a [`CaptureError`] holds.
pub enum FaultView {
    TooShort,
    Truncated,
    Pcap(Seq<char>),
    UnknownFormat(Seq<u8>),
}

impl View for CaptureError {
    type V = FaultView;

    open spec fn view(&self) -> FaultView {
        match *self {
            CaptureError::TooShort => FaultView::TooShort,
            CaptureError::Truncated => FaultView::Truncated,
            CaptureError::Pcap(m) => FaultView::Pcap(m@),
            CaptureError::UnknownFormat(magic) => FaultView::UnknownFormat(magic@),
        }
    }
}

// ---------------------------------------------------------------------------------
// The container parsers
// ---------------------------------------------------------------------------------

/// A block of a pcapng capture, as far as reading frames needs it.
#[derive(Debug, Clone, PartialEq, Eq)]
pub enum NgBlock {
    /// An enhanced packet block and its data.
    EnhancedPacket(Vec<u8>),
    /// A simple packet block and its data.
    SimplePacket(Vec<u8>),
    /// An (obsolete) packet block and its data.
    Packet(Vec<u8>),
    /// The header of a new section.
    SectionHeader,
    /// Any other block.
    Other,
}

/// What an [`NgBlock`] holds.
pub enum NgBlockView {
    EnhancedPacket(Seq<u8>),
    SimplePacket(Seq<u8>),
    Packet(Seq<u8>),
    SectionHeader,
    Other,
}

impl View for NgBlock {
    type V = NgBlockView;

    open spec fn view(&self) -> NgBlockView {
        match *self {
            NgBlock::EnhancedPacket(d) => NgBlockView::EnhancedPacket(d@),
            NgBlock::SimplePacket(d) => NgBlockView::SimplePacket(d@),
            NgBlock::Packet(d) => NgBlockView::Packet(d@),
            NgBlock::SectionHeader => NgBlockView::SectionHeader,
            NgBlock::Other => NgBlockView::Other,
        }
    }
}

/// Why a parser gave up: `None` if it ran out of bytes, else what it says.
pub open spec fn reason(e: Option<String>) -> Option<Seq<char>> {
    match e {
        Some(m) => Some(m@),
        None => None,
    }
}

/// A parsed header: the bytes left after it, or why there is none.
pub open spec fn header_view(r: Result<usize, Option<String>>) -> Result<nat, Option<Seq<char>>> {
    match r {
        Ok(left) => Ok(left as nat),
        Err(e) => Err(reason(e)),
    }
}

/// A parsed packet and the bytes left after it, or why there is none.
pub open spec fn packet_view(r: Result<(Vec<u8>, usize), Option<String>>) -> Result<
    (Seq<u8>, nat),
    Option<Seq<char>>,
> {
    match r {
        Ok((data, left)) => Ok((data@, left as nat)),
        Err(e) => Err(reason(e)),
    }
}

/// A parsed block and the bytes left after it, or why there is none.
pub open spec fn block_view(r: Result<(NgBlock, usize), Option<String>>) -> Result<
    (NgBlockView, nat),
    Option<Seq<char>>,
> {
    match r {
        Ok((block, left)) => Ok((block@, left as nat)),
        Err(e) => Err(reason(e)),
    }
}

/// What `PcapParser::new` of `pcap-file` makes of the start of a classic capture.
pub uninterp spec fn pcap_header(data: Seq<u8>) -> Result<nat, Option<Seq<char>>>;

/// What `PcapNgParser::new` of `pcap-file` makes of the start of a pcapng capture.
pub uninterp spec fn pcapng_header(data: Seq<u8>) -> Result<nat, Option<Seq<char>>>;

/// What `PcapParser::next_packet` of `pcap-file` makes of `data` under a file header.
pub uninterp spec fn pcap_packet(header: Seq<u8>, data: Seq<u8>) -> Result<
    (Seq<u8>, nat),
    Option<Seq<char>>,
>;

/// What `PcapNgParser::next_block` of `pcap-file` makes of `data` under a section header.
pub uninterp spec fn pcapng_block(section: Seq<u8>, data: Seq<u8>) -> Result<
    (NgBlockView, nat),
    Option<Seq<char>>,
>;

/// `pcap_file::pcap::PcapParser::new`: a function of the bytes alone. The file header it
/// reads takes 24 bytes; the result counts those left after it.
#[verifier::external_body]
fn parse_pcap_header(data: &[u8]) -> (r: Result<usize, Option<String>>)
    ensures
        header_view(r) == pcap_header(data@),
        r matches Ok(left) ==> left + 24 == data@.len(),
{
    match PcapParser::new(data) {
        Ok((left, _)) => Ok(left.len()),
        Err(PcapError::IncompleteBuffer) => Err(None),
        Err(e) => Err(Some(e.to_string())),
    }
}

/// `pcap_file::pcapng::PcapNgParser::new`: a function of the bytes alone. The section header
/// block it reads takes at least 12 bytes; the result counts those left after it. Only bytes
/// that begin with the type of a section header are handed over.
#[verifier::external_body]
fn parse_pcapng_header(data: &[u8]) -> (r: Result<usize, Option<String>>)
    requires
        data@.len() >= 4,
        format_of(data@.take(4)) == Some(CaptureFormat::PcapNg),
    ensures
        header_view(r) == pcapng_header(data@),
        r matches Ok(left) ==> left + 12 <= data@.len(),
{
    match PcapNgParser::new(data) {
        Ok((left, _)) => Ok(left.len()),
        Err(PcapError::IncompleteBuffer) => Err(None),
        Err(e) => Err(Some(e.to_string())),
    }
}

/// `pcap_file::pcap::PcapParser::next_packet` of the parser that
/// `pcap_file::pcap::PcapParser::new` makes of the file header: a function of the two byte
/// strings alone. A packet is a header of 16 bytes and the data behind it; the result counts
/// the bytes left after both. Which packets are refused is left to the name.
#[verifier::external_body]
fn parse_packet(header: &[u8], data: &[u8]) -> (r: Result<(Vec<u8>, usize), Option<String>>)
    ensures
        packet_view(r) == pcap_packet(header@, data@),
        r matches Ok((p, left)) ==> 16 + p@.len() + left == data@.len() && p@ == data@.subrange(
            16,
            16 + p@.len() as int,
        ),
{
    let parsed = match PcapParser::new(header) {
        Ok((_, parser)) => parser.next_packet(data),
        Err(e) => Err(e),
    };
    match parsed {
        Ok((left, packet)) => Ok((packet.data.into_owned(), left.len())),
        Err(PcapError::IncompleteBuffer) => Err(None),
        Err(e) => Err(Some(e.to_string())),
    }
}

/// `pcap_file::pcapng::PcapNgParser::next_block` of the parser that
/// `pcap_file::pcapng::PcapNgParser::new` makes of the section header: a function of the two
/// byte strings alone, since of what the parser keeps only the section's byte order bears on
/// the next block. A block takes at least 12 bytes; the result counts those left after it.
/// Which blocks are refused, and where in a block its data stands, is left to the name. It
/// adds up to three to a 32-bit length of the block as a `usize`, so addresses must have
/// 64 bits.
#[verifier::external_body]
fn parse_block(section: &[u8], data: &[u8]) -> (r: Result<(NgBlock, usize), Option<String>>)
    requires
        usize::BITS == 64,
    ensures
        block_view(r) == pcapng_block(section@, data@),
        r matches Ok((_, left)) ==> left + 12 <= data@.len(),
{
    let fault = |e| match e { PcapError::IncompleteBuffer => None, e => Some(e.to_string()) };
    let (_, mut parser) = PcapNgParser::new(section).map_err(fault)?;
    let (left, block) = parser.next_block(data).map_err(fault)?;
    let block = match block {
        Block::EnhancedPacket(b) => NgBlock::EnhancedPacket(b.data.into_owned()),
        Block::SimplePacket(b) => NgBlock::SimplePacket(b.data.into_owned()),
        Block::Packet(b) => NgBlock::Packet(b.data.into_owned()),
        Block::SectionHeader(_) => NgBlock::SectionHeader,
        _ => NgBlock::Other,
    };
    Ok((block, left.len()))
}

// ---------------------------------------------------------------------------------
// Frames
// ---------------------------------------------------------------------------------

/// The part of `rest` that is looked at for one packet or block.
pub open spec fn window(rest: Seq<u8>) -> Seq<u8> {
    if rest.len() > READ_BUFFER {
        rest.take(READ_BUFFER as int)
    } else {
        rest
    }
}

/// A parser's reason as the capture's fault.
pub open spec fn fault_of(e: Option<Seq<char>>) -> FaultView {
    match e {
        None => FaultView::Truncated,
        Some(m) => FaultView::Pcap(m),
    }
}

/// A parser's reason as the capture's error.
fn error_of(e: Option<String>) -> (r: CaptureError)
    ensures
        r@ == fault_of(reason(e)),
{
    match e {
        None => CaptureError::Truncated,
        Some(m) => CaptureError::Pcap(m),
    }
}

/// A capture that is being read.
pub struct FramesView {
    pub format: CaptureFormat,
    /// The file header, or that of the current section.
    pub header: Seq<u8>,
    /// The bytes not read yet.
    pub rest: Seq<u8>,
}

/// What reading the next frame gives: the frame, why there is none, or nothing at the end;
/// and the capture after it.
pub struct Reading {
    pub frame: Option<Result<Seq<u8>, FaultView>>,
    pub after: FramesView,
}

impl FramesView {
    /// The capture once `n` more bytes are read.
    pub open spec fn past(self, n: int) -> FramesView {
        FramesView { rest: self.rest.skip(n), ..self }
    }

    /// The bytes that were read if `left` of the window are left.
    pub open spec fn used(self, left: nat) -> int {
        window(self.rest).len() - left
    }

    /// The capture once a section header that leaves `left` of the window is read.
    pub open spec fn in_section(self, left: nat) -> FramesView {
        FramesView { header: self.rest.take(self.used(left)), ..self.past(self.used(left)) }
    }

    /// The same capture, with nothing to hand out but `fault`.
    pub open spec fn stuck(self, fault: FaultView) -> Reading {
        Reading { frame: Some(Err(fault)), after: self }
    }

    /// The next frame of a classic capture for what the parser made of its window.
    pub open spec fn with_packet(
        self,
        parsed: Result<(Seq<u8>, nat), Option<Seq<char>>>,
    ) -> Reading {
        match parsed {
            Err(e) => self.stuck(fault_of(e)),
            Ok((data, left)) => Reading { frame: Some(Ok(data)), after: self.past(self.used(left)) },
        }
    }

    /// One step through a pcapng capture for what the parser made of its window: packets of
    /// all three kinds are frames, any other block gives nothing.
    pub open spec fn with_block(
        self,
        parsed: Result<(NgBlockView, nat), Option<Seq<char>>>,
    ) -> Reading {
        match parsed {
            Err(e) => self.stuck(fault_of(e)),
            Ok((block, left)) => match block {
                NgBlockView::EnhancedPacket(d) | NgBlockView::SimplePacket(d)
                | NgBlockView::Packet(d) => Reading {
                    frame: Some(Ok(d)),
                    after: self.past(self.used(left)),
                },
                NgBlockView::SectionHeader => Reading { frame: None, after: self.in_section(left) },
                NgBlockView::Other => Reading { frame: None, after: self.past(self.used(left)) },
            },
        }
    }

    /// The next frame of a pcapng capture: the first that a step through it gives.
    pub open spec fn next_in_blocks(self) -> Reading
        decreases self.rest.len(),
    {
        let step = self.with_block(pcapng_block(self.header, window(self.rest)));
        if self.rest.len() == 0 {
            Reading { frame: None, after: self }
        } else if step.frame is Some {
            step
        } else if step.after.rest.len() < self.rest.len() {
            step.after.next_in_blocks()
        } else {
            Reading { frame: None, after: self }
        }
    }

    /// The next frame.
    pub open spec fn next(self) -> Reading {
        match self.format {
            CaptureFormat::Pcap => if self.rest.len() == 0 {
                Reading { frame: None, after: self }
            } else {
                self.with_packet(pcap_packet(self.header, window(self.rest)))
            },
            CaptureFormat::PcapNg => self.next_in_blocks(),
        }
    }
}

/// A capture whose header leaves `left` bytes of the window, or why it cannot be read.
pub open spec fn with_header(
    data: Seq<u8>,
    format: CaptureFormat,
    parsed: Result<nat, Option<Seq<char>>>,
) -> Result<FramesView, FaultView> {
    match parsed {
        Err(e) => Err(fault_of(e)),
        Ok(left) => {
            let used = window(data).len() - left;
            Ok(FramesView { format, header: data.take(used), rest: data.skip(used) })
        },
    }
}

/// The capture in `data`, or why there is none.
pub open spec fn opened(data: Seq<u8>) -> Result<FramesView, FaultView> {
    if data.len() < 4 {
        Err(FaultView::TooShort)
    } else {
        match format_of(data.take(4)) {
            None => Err(FaultView::UnknownFormat(data.take(4))),
            Some(CaptureFormat::Pcap) => with_header(
                data,
                CaptureFormat::Pcap,
                pcap_header(window(data)),
            ),
            Some(CaptureFormat::PcapNg) => with_header(
                data,
                CaptureFormat::PcapNg,
                pcapng_header(window(data)),
            ),
        }
    }
}

/// The raw Ethernet frames of a pcap or pcapng capture.
pub struct PcapFrames {
    data: Vec<u8>,
    pos: usize,
    header: Vec<u8>,
    format: CaptureFormat,
}

impl View for PcapFrames {
    type V = FramesView;

    closed spec fn view(&self) -> FramesView {
        FramesView {
            format: self.format,
            header: self.header@,
            rest: self.data@.skip(self.pos as int),
        }
    }
}

/// What is handed out, by its views.
pub open spec fn frame_view(r: Option<Result<Vec<u8>, CaptureError>>) -> Option<
    Result<Seq<u8>, FaultView>,
> {
    match r {
        None => None,
        Some(Ok(d)) => Some(Ok(d@)),
        Some(Err(e)) => Some(Err(e@)),
    }
}

impl PcapFrames {
    #[verifier::type_invariant]
    spec fn inv(self) -> bool {
        self.pos <= self.data@.len()
    }

    /// The capture in `data`, its format told by its first four bytes.
    pub fn from_bytes(data: Vec<u8>) -> (res: Result<PcapFrames, CaptureError>)
        ensures
            match opened(data@) {
                Ok(v) => res matches Ok(f) && f@ == v,
                Err(e) => res matches Err(x) && x@ == e,
            },
    {
        if data.len() < 4 {
            return Err(CaptureError::TooShort);
        }
        let magic: [u8; 4] = [data[0], data[1], data[2], data[3]];
        assert(magic@ =~= data@.take(4));
        let format = match CaptureFormat::detect(magic) {
            Some(f) => f,
            None => {
                return Err(CaptureError::UnknownFormat(magic));
            },
        };
        let part = look_at(data.as_slice());
        let parsed = match format {
            CaptureFormat::Pcap => parse_pcap_header(part),
            CaptureFormat::PcapNg => {
                assert(part@.take(4) =~= data@.take(4));
                parse_pcapng_header(part)
            },
        };
        let n: usize = part.len();
        Self::with_header(data, format, parsed, n)
    }

    /// The capture in `data` for what the parser made of its first `n` bytes.
    fn with_header(
        data: Vec<u8>,
        format: CaptureFormat,
        parsed: Result<usize, Option<String>>,
        n: usize,
    ) -> (res: Result<PcapFrames, CaptureError>)
        requires
            n == window(data@).len(),
            parsed matches Ok(left) ==> left <= n,
        ensures
            match with_header(data@, format, header_view(parsed)) {
                Ok(v) => res matches Ok(f) && f@ == v,
                Err(e) => res matches Err(x) && x@ == e,
            },
    {
        match parsed {
            Err(e) => Err(error_of(e)),
            Ok(left) => {
                let pos: usize = n - left;
                let header = copied(data.as_slice(), 0, pos);
                assert(header@ =~= data@.take(pos as int));
                Ok(PcapFrames { data, pos, header, format })
            },
        }
    }

    /// Whether what a parser left fits the window it was given.
    pub fn fits(&self, left: usize) -> (r: bool)
        ensures
            r == (left <= window(self@.rest).len()),
    {
        proof {
            use_type_invariant(self);
        }
        let rest: usize = self.data.len() - self.pos;
        left <= rest && left <= READ_BUFFER
    }

    /// Read on by what the parser made of the next packet of a classic capture. A packet that
    /// the parser refuses stays the next one.
    pub fn on_packet(&mut self, parsed: Result<(Vec<u8>, usize), Option<String>>) -> (res: Result<
        Vec<u8>,
        CaptureError,
    >)
        requires
            parsed matches Ok((_, left)) ==> left <= window(old(self)@.rest).len(),
        ensures
            frame_view(Some(res)) == old(self)@.with_packet(packet_view(parsed)).frame,
            final(self)@ == old(self)@.with_packet(packet_view(parsed)).after,
    {
        match parsed {
            Err(e) => Err(error_of(e)),
            Ok((data, left)) => {
                self.advance(left);
                Ok(data)
            },
        }
    }

    /// Read on by what the parser made of the next block of a pcapng capture: a frame for a
    /// packet of any kind, `None` for any other block, and the fault of a block that the
    /// parser refuses, which stays the next one.
    pub fn on_block(&mut self, parsed: Result<(NgBlock, usize), Option<String>>) -> (res: Option<
        Result<Vec<u8>, CaptureError>,
    >)
        requires
            parsed matches Ok((_, left)) ==> left <= window(old(self)@.rest).len(),
        ensures
            frame_view(res) == old(self)@.with_block(block_view(parsed)).frame,
            final(self)@ == old(self)@.with_block(block_view(parsed)).after,
    {
        match parsed {
            Err(e) => Some(Err(error_of(e))),
            Ok((block, left)) => match block {
                NgBlock::EnhancedPacket(d) => {
                    self.advance(left);
                    Some(Ok(d))
                },
                NgBlock::SimplePacket(d) => {
                    self.advance(left);
                    Some(Ok(d))
                },
                NgBlock::Packet(d) => {
                    self.advance(left);
                    Some(Ok(d))
                },
                NgBlock::SectionHeader => {
                    self.enter_section(left);
                    None
                },
                NgBlock::Other => {
                    self.advance(left);
                    None
                },
            },
        }
    }

    /// Skip what a parser that left `left` bytes of the window has read.
    fn advance(&mut self, left: usize)
        requires
            left <= window(old(self)@.rest).len(),
        ensures
            final(self)@ == old(self)@.past(old(self)@.used(left as nat)),
            final(self).data == old(self).data,
            final(self).pos == old(self).pos + old(self)@.used(left as nat),
    {
        proof {
            use_type_invariant(&*self);
        }
        let n: usize = self.data.len() - self.pos;
        let seen: usize = if n > READ_BUFFER {
            READ_BUFFER
        } else {
            n
        };
        let ghost before = self@;
        let pos: usize = self.pos + (seen - left);
        self.pos = pos;
        assert(self@.rest =~= before.rest.skip(before.used(left as nat)));
    }

    /// Make the block just read, which left `left` bytes of the window, the section header.
    fn enter_section(&mut self, left: usize)
        requires
            left <= window(old(self)@.rest).len(),
        ensures
            final(self)@ == old(self)@.in_section(left as nat),
    {
        proof {
            use_type_invariant(&*self);
        }
        let ghost before = self@;
        let from: usize = self.pos;
        self.advance(left);
        proof {
            use_type_invariant(&*self);
        }
        let to: usize = self.pos;
        let header = copied(self.data.as_slice(), from, to);
        assert(header@ =~= before.rest.take(before.used(left as nat)));
        self.header = header;
    }

    /// The next frame, `None` at the end of the capture. Each frame handed out leaves fewer
    /// bytes to read; one of a classic capture stands behind a header of 16 bytes. The blocks
    /// of a pcapng capture can be read where addresses have 64 bits.
    pub fn next(&mut self) -> (res: Option<Result<Vec<u8>, CaptureError>>)
        requires
            old(self)@.format is PcapNg ==> usize::BITS == 64,
        ensures
            frame_view(res) == old(self)@.next().frame,
            final(self)@ == old(self)@.next().after,
            res matches Some(Ok(_)) ==> final(self)@.rest.len() < old(self)@.rest.len(),
            old(self)@.format is Pcap ==> (res matches Some(Ok(d)) ==> d@
                == old(self)@.rest.subrange(16, 16 + d@.len() as int) && final(self)@.rest
                == old(self)@.rest.skip(16 + d@.len() as int)),
    {
        proof {
            use_type_invariant(&*self);
        }
        match self.format {
            CaptureFormat::Pcap => {
                if self.pos == self.data.len() {
                    return None;
                }
                let rest = slice_subrange(self.data.as_slice(), self.pos, self.data.len());
                let part = look_at(rest);
                let parsed = parse_packet(self.header.as_slice(), part);
                Some(self.on_packet(parsed))
            },
            CaptureFormat::PcapNg => self.next_in_blocks(),
        }
    }

    /// The next frame of a pcapng capture.
    fn next_in_blocks(&mut self) -> (res: Option<Result<Vec<u8>, CaptureError>>)
        requires
            usize::BITS == 64,
        ensures
            frame_view(res) == old(self)@.next_in_blocks().frame,
            final(self)@ == old(self)@.next_in_blocks().after,
            res matches Some(Ok(_)) ==> final(self)@.rest.len() < old(self)@.rest.len(),
    {
        let ghost start = self@;
        loop
            invariant
                usize::BITS == 64,
                start == old(self)@,
                self@.rest.len() <= start.rest.len(),
                self@.next_in_blocks() == start.next_in_blocks(),
            decreases self@.rest.len(),
        {
            proof {
                use_type_invariant(&*self);
            }
            if self.pos == self.data.len() {
                return None;
            }
            let rest = slice_subrange(self.data.as_slice(), self.pos, self.data.len());
            let part = look_at(rest);
            let parsed = parse_block(self.header.as_slice(), part);
            let frame = self.on_block(parsed);
            if frame.is_some() {
                return frame;
            }
        }
    }
}

/// The part of `rest` that is looked at for one packet or block.
fn look_at(rest: &[u8]) -> (part: &[u8])
    ensures
        part@ == window(rest@),
{
    if rest.len() > READ_BUFFER {
        slice_subrange(rest, 0, READ_BUFFER)
    } else {
        rest
    }
}

/// The bytes of `b` from `i` up to `j`.
fn copied(b: &[u8], i: usize, j: usize) -> (v: Vec<u8>)
    requires
        i <= j <= b@.len(),
    ensures
        v@ == b@.subrange(i as int, j as int),
{
    let mut v = Vec::new();
    bytes::put_all(&mut v, slice_subrange(b, i, j));
    v
}

/// At its end a capture has no more frames: reading on changes nothing.
pub proof fn the_end_stays_the_end(v: FramesView)
    requires
        v.next().frame is None,
    ensures
        v.next().after.next() == (Reading { frame: None, after: v.next().after }),
    decreases v.rest.len(),
{
    let step = v.with_block(pcapng_block(v.header, window(v.rest)));
    if v.format is PcapNg && v.rest.len() > 0 && step.frame is None && step.after.rest.len()
        < v.rest.len() {
        the_end_stays_the_end(step.after);
    }
}

/// A fault is not passed over: reading on gives it again.
pub proof fn a_fault_repeats(v: FramesView)
    requires
        v.next().frame matches Some(Err(_)),
    ensures
        v.next().after.next() == v.next(),
    decreases v.rest.len(),
{
    let step = v.with_block(pcapng_block(v.header, window(v.rest)));
    if v.format is PcapNg && v.rest.len() > 0 && step.frame is None && step.after.rest.len()
        < v.rest.len() {
        a_fault_repeats(step.after);
    }
}

/// The formats are told by their first four bytes: a pcapng capture by those of its section
/// header, a classic one by its magic number in either byte order, for either precision.
pub proof fn formats_are_told_by_their_magic(magic: Seq<u8>)
    requires
        magic.len() == 4,
    ensures
        ({
            let v = bytes::be32(magic, 0);
            &&& format_of(magic) == Some(CaptureFormat::PcapNg) <==> v == 0x0A0D_0D0A
            &&& format_of(magic) == Some(CaptureFormat::Pcap) <==> v == 0xD4C3_B2A1 || v
                == 0xA1B2_C3D4 || v == 0x4D3C_B2A1 || v == 0xA1B2_3C4D
        }),
{
    let ng = seq![0x0au8, 0x0d, 0x0d, 0x0a];
    let c1 = seq![0xd4u8, 0xc3, 0xb2, 0xa1];
    let c2 = seq![0xa1u8, 0xb2, 0xc3, 0xd4];
    let c3 = seq![0x4du8, 0x3c, 0xb2, 0xa1];
    let c4 = seq![0xa1u8, 0xb2, 0x3c, 0x4d];
    lemma_magic(magic, ng);
    lemma_magic(magic, c1);
    lemma_magic(magic, c2);
    lemma_magic(magic, c3);
    lemma_magic(magic, c4);
}

/// Four bytes are told by the number that they read as.
proof fn lemma_magic(a: Seq<u8>, b: Seq<u8>)
    requires
        a.len() == 4,
        b.len() == 4,
    ensures
        a == b <==> bytes::be32(a, 0) == bytes::be32(b, 0),
{
    if bytes::be32(a, 0) == bytes::be32(b, 0) {
        assert(a[0] == b[0] && a[1] == b[1] && a[2] == b[2] && a[3] == b[3]);
        assert(a =~= b);
    }
}

/// At most eight million bytes are looked at for one packet, from where reading stands.
pub proof fn packets_are_looked_for_in_a_window(rest: Seq<u8>)
    ensures
        window(rest).len() == (if rest.len() > 8_000_000 { 8_000_000 } else { rest.len() as int }),
        forall|i: int| 0 <= i < window(rest).len() ==> #[trigger] window(rest)[i] == rest[i],
{
}

/// Which captures can be opened: those of at least four bytes that tell a format and whose
/// header the parser of that format reads. Reading then stands behind the header.
pub proof fn captures_are_opened_by_their_format(data: Seq<u8>)
    ensures
        match opened(data) {
            Err(FaultView::TooShort) => data.len() < 4 || format_of(data.take(4)) is Some,
            Err(FaultView::UnknownFormat(m)) => data.len() >= 4 && m == data.take(4) && format_of(m)
                is None,
            Err(_) => data.len() >= 4 && format_of(data.take(4)) is Some,
            Ok(v) => data.len() >= 4 && format_of(data.take(4)) == Some(v.format),
        },
        data.len() < 4 ==> opened(data) == Err::<FramesView, _>(FaultView::TooShort),
{
}

/// What a parser read is what reading passes over: of the bytes in the window, all but those
/// that it left.
pub proof fn reading_passes_over_what_was_parsed(
    v: FramesView,
    packet: Seq<u8>,
    left: nat,
    reason: Option<Seq<char>>,
)
    requires
        left <= window(v.rest).len(),
    ensures
        ({
            let used = window(v.rest).len() - left;
            let read = v.with_packet(Ok((packet, left)));
            let other = v.with_block(Ok((NgBlockView::Other, left)));
            let section = v.with_block(Ok((NgBlockView::SectionHeader, left)));
            &&& read.frame == Some(Ok::<_, FaultView>(packet)) && read.after.rest == v.rest.skip(used)
            &&& read.after.header == v.header && read.after.format == v.format
            &&& v.with_block(Ok((NgBlockView::EnhancedPacket(packet), left))) == read
            &&& v.with_block(Ok((NgBlockView::SimplePacket(packet), left))) == read
            &&& v.with_block(Ok((NgBlockView::Packet(packet), left))) == read
            &&& other.frame is None && other.after.rest == v.rest.skip(used) && other.after.header
                == v.header
            &&& section.frame is None && section.after.rest == v.rest.skip(used)
            &&& section.after.header == v.rest.take(used) && section.after.format == v.format
        }),
        ({
            let fault = if reason is None {
                FaultView::Truncated
            } else {
                FaultView::Pcap(reason->0)
            };
            &&& v.with_packet(Err(reason)) == (Reading { frame: Some(Err(fault)), after: v })
            &&& v.with_block(Err(reason)) == (Reading { frame: Some(Err(fault)), after: v })
        }),
{
}

} // verus!
