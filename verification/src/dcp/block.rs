//! DCP blocks: option, suboption, length, an optional BlockInfo, the value, and a padding
//! byte behind a block of odd length.

use vstd::prelude::*;

use vstd::slice::{slice_subrange, slice_to_vec};

use crate::bytes;
use crate::dcp::DcpError;
use crate::eth;

verus! {

/// One DCP block.
#[derive(Debug, Clone, PartialEq, Eq)]
pub struct DcpBlock {
    pub option: u8,
    pub suboption: u8,
    /// `BlockInfo` of a response, `BlockQualifier` of a Set request, or nothing.
    pub block_info: Option<u16>,
    pub value: Vec<u8>,
}

/// What a [`DcpBlock`] holds.
pub struct DcpBlockView {
    pub option: u8,
    pub suboption: u8,
    pub block_info: Option<u16>,
    pub value: Seq<u8>,
}

impl View for DcpBlock {
    type V = DcpBlockView;

    open spec fn view(&self) -> DcpBlockView {
        DcpBlockView {
            option: self.option,
            suboption: self.suboption,
            block_info: self.block_info,
            value: self.value@,
        }
    }
}

/// What a list of blocks holds.
pub open spec fn block_views(v: Seq<DcpBlock>) -> Seq<DcpBlockView> {
    v.map_values(|b: DcpBlock| b@)
}

/// `n`, rounded up to an even number.
pub open spec fn even(n: int) -> int {
    n + n % 2
}

impl DcpBlockView {
    /// What the length field counts: BlockInfo and value.
    pub open spec fn declared_len(self) -> int {
        self.value.len() + (if self.block_info is Some {
            2int
        } else {
            0int
        })
    }

    /// The block without its padding.
    pub open spec fn bare_bytes(self) -> Seq<u8> {
        seq![self.option, self.suboption] + bytes::be16_bytes(self.declared_len() as u16) + (
        match self.block_info {
            Some(info) => bytes::be16_bytes(info),
            None => Seq::empty(),
        }) + self.value
    }

    /// The block on the wire, padded to an even length.
    pub open spec fn spec_bytes(self) -> Seq<u8> {
        self.bare_bytes() + (if self.declared_len() % 2 == 1 {
            seq![0u8]
        } else {
            Seq::empty()
        })
    }
}

/// The block at the start of `b`, and where the next one starts.
pub open spec fn block_at(b: Seq<u8>, has_block_info: bool) -> Result<
    (DcpBlockView, int),
    DcpError,
> {
    let len = bytes::be16(b, 2) as int;
    if b.len() < 4 {
        Err(DcpError::TooShort { need: 4, have: b.len() as usize })
    } else if b.len() < 4 + len {
        Err(DcpError::TooShort { need: (4 + len) as usize, have: b.len() as usize })
    } else if has_block_info && len < 2 {
        Err(DcpError::Malformed("block too short for its BlockInfo"))
    } else {
        let info = if has_block_info {
            2int
        } else {
            0int
        };
        Ok(
            (
                DcpBlockView {
                    option: b[0],
                    suboption: b[1],
                    block_info: if has_block_info {
                        Some(bytes::be16(b, 4))
                    } else {
                        None
                    },
                    value: b.subrange(4 + info, 4 + len),
                },
                4 + even(len),
            ),
        )
    }
}

/// The blocks that stand one behind the other in `b`, up to its end.
pub open spec fn blocks_of(b: Seq<u8>, has_block_info: bool) -> Result<
    Seq<DcpBlockView>,
    DcpError,
>
    decreases b.len(),
{
    if b.len() == 0 {
        Ok(Seq::empty())
    } else {
        match block_at(b, has_block_info) {
            Err(e) => Err(e),
            Ok((first, next)) => if next >= b.len() {
                Ok(seq![first])
            } else {
                match blocks_of(b.skip(next), has_block_info) {
                    Err(e) => Err(e),
                    Ok(rest) => Ok(seq![first] + rest),
                }
            },
        }
    }
}

/// The bytes of a list of blocks.
pub open spec fn blocks_bytes(blocks: Seq<DcpBlockView>) -> Seq<u8>
    decreases blocks.len(),
{
    if blocks.len() == 0 {
        Seq::empty()
    } else {
        blocks_bytes(blocks.drop_last()) + blocks.last().spec_bytes()
    }
}

/// Parse one block; also returns where the next one starts.
fn parse_one(b: &[u8], has_block_info: bool) -> (res: Result<(DcpBlock, usize), DcpError>)
    ensures
        match res {
            Ok((block, next)) => {
                &&& block_at(b@, has_block_info) == Ok::<_, DcpError>((block@, next as int))
                &&& next > 0
            },
            Err(e) => block_at(b@, has_block_info) == Err::<(DcpBlockView, int), _>(e),
        },
{
    if b.len() < 4 {
        return Err(DcpError::TooShort { need: 4, have: b.len() });
    }
    let len: usize = bytes::read_be16(b, 2) as usize;
    if b.len() < 4 + len {
        return Err(DcpError::TooShort { need: 4 + len, have: b.len() });
    }
    if has_block_info && len < 2 {
        return Err(DcpError::Malformed("block too short for its BlockInfo"));
    }
    let (block_info, start): (Option<u16>, usize) = if has_block_info {
        (Some(bytes::read_be16(b, 4)), 6)
    } else {
        (None, 4)
    };
    let value = slice_to_vec(slice_subrange(b, start, 4 + len));
    Ok((DcpBlock { option: b[0], suboption: b[1], block_info, value }, 4 + len + len % 2))
}

/// Parse consecutive blocks until `b` is exhausted.
pub fn parse_blocks(b: &[u8], has_block_info: bool) -> (res: Result<Vec<DcpBlock>, DcpError>)
    ensures
        match res {
            Ok(v) => blocks_of(b@, has_block_info) == Ok::<_, DcpError>(block_views(v@)),
            Err(e) => blocks_of(b@, has_block_info) == Err::<Seq<DcpBlockView>, _>(e),
        },
{
    let mut out: Vec<DcpBlock> = Vec::new();
    let mut pos: usize = 0;
    let ghost none = Seq::<DcpBlockView>::empty();
    proof {
        assert(b@.skip(0) =~= b@);
        assert(block_views(out@) =~= none);
        match blocks_of(b@, has_block_info) {
            Ok(all) => {
                assert(none + all =~= all);
            },
            Err(_) => {},
        }
    }
    while pos < b.len()
        invariant
            pos <= b@.len(),
            blocks_of(b@, has_block_info) == (match blocks_of(b@.skip(pos as int), has_block_info) {
                Ok(rest) => Ok::<_, DcpError>(block_views(out@) + rest),
                Err(e) => Err(e),
            }),
        decreases b@.len() - pos,
    {
        let rest = slice_subrange(b, pos, b.len());
        assert(rest@ =~= b@.skip(pos as int));
        let (block, next) = parse_one(rest, has_block_info)?;
        let ghost before = block_views(out@);
        out.push(block);
        assert(block_views(out@) =~= before.push(block@));
        if next >= rest.len() {
            assert(before + seq![block@] =~= block_views(out@));
            return Ok(out);
        }
        proof {
            let tail = b@.skip(pos + next);
            assert(rest@.skip(next as int) =~= tail);
            match blocks_of(tail, has_block_info) {
                Ok(more) => {
                    assert(before + (seq![block@] + more) =~= block_views(out@) + more);
                },
                Err(_) => {},
            }
        }
        pos = pos + next;
    }
    assert(block_views(out@) + none =~= block_views(out@));
    assert(b@.skip(pos as int).len() == 0);
    Ok(out)
}

/// How many bytes [`write_blocks`] appends.
pub fn blocks_encoded_len(blocks: &Vec<DcpBlock>) -> (n: u16)
    requires
        blocks_bytes(block_views(blocks@)).len() <= u16::MAX,
    ensures
        n == blocks_bytes(block_views(blocks@)).len(),
{
    let mut out: Vec<u8> = Vec::new();
    write_blocks(blocks, &mut out);
    out.len() as u16
}

/// Append the blocks, each padded to an even length.
pub fn write_blocks(blocks: &Vec<DcpBlock>, out: &mut Vec<u8>)
    requires
        blocks_bytes(block_views(blocks@)).len() <= u16::MAX,
    ensures
        final(out)@ == old(out)@ + blocks_bytes(block_views(blocks@)),
{
    let mut i: usize = 0;
    assert(block_views(blocks@).take(0) =~= Seq::empty());
    assert(out@ =~= old(out)@ + blocks_bytes(block_views(blocks@).take(0)));
    while i < blocks.len()
        invariant
            i <= blocks@.len(),
            blocks_bytes(block_views(blocks@)).len() <= u16::MAX,
            out@ == old(out)@ + blocks_bytes(block_views(blocks@).take(i as int)),
        decreases blocks@.len() - i,
    {
        let ghost views = block_views(blocks@);
        let block = &blocks[i];
        let ghost before = out@;
        proof {
            assert(views[i as int] == block@);
            lemma_one_block_len(views, i as int);
        }
        write_one(out, block);
        proof {
            assert(views.take(i + 1).drop_last() =~= views.take(i as int));
            assert(views.take(i + 1).last() == block@);
            assert(out@ =~= old(out)@ + blocks_bytes(views.take(i + 1)));
        }
        i = i + 1;
    }
    assert(block_views(blocks@).take(i as int) =~= block_views(blocks@));
}

/// A block is no longer than the list it stands in.
proof fn lemma_one_block_len(views: Seq<DcpBlockView>, i: int)
    requires
        0 <= i < views.len(),
    ensures
        views[i].spec_bytes().len() <= blocks_bytes(views).len(),
    decreases views.len(),
{
    if i < views.len() - 1 {
        lemma_one_block_len(views.drop_last(), i);
    }
}

/// Append one block.
fn write_one(out: &mut Vec<u8>, block: &DcpBlock)
    requires
        block@.spec_bytes().len() <= u16::MAX,
    ensures
        final(out)@ == old(out)@ + block@.spec_bytes(),
{
    assert(block@.spec_bytes().len() >= 4 + block@.declared_len());
    let len: usize = block.value.len() + if block.block_info.is_some() {
        2
    } else {
        0
    };
    out.push(block.option);
    out.push(block.suboption);
    bytes::put_be16(out, len as u16);
    if let Some(info) = block.block_info {
        bytes::put_be16(out, info);
    }
    bytes::put_all(out, block.value.as_slice());
    assert(out@ =~= old(out)@ + block@.bare_bytes());
    if len % 2 == 1 {
        out.push(0);
    }
    assert(out@ =~= old(out)@ + block@.spec_bytes());
}

/// A written block reads back, whatever follows: its fields, and behind it the padding.
pub proof fn dcp_block_round_trip(block: DcpBlockView, rest: Seq<u8>)
    requires
        block.declared_len() <= u16::MAX,
    ensures
        block_at(block.spec_bytes() + rest, block.block_info is Some) == Ok::<_, DcpError>(
            (block, block.spec_bytes().len() as int),
        ),
{
    let b = block.spec_bytes() + rest;
    assert(b[0] == block.option && b[1] == block.suboption);
    eth::lemma_at_16(b, 2, block.declared_len() as u16);
    match block.block_info {
        Some(info) => {
            eth::lemma_at_16(b, 4, info);
            assert(b.subrange(6, 4 + block.declared_len()) =~= block.value);
        },
        None => {
            assert(b.subrange(4, 4 + block.declared_len()) =~= block.value);
        },
    }
}

/// Where the parts of a block stand: option, suboption, the length of what follows, and that;
/// a block of odd length is followed by a zero.
pub proof fn dcp_blocks_stand_at_their_places(b: DcpBlockView)
    requires
        b.declared_len() <= u16::MAX,
    ensures
        ({
            let s = b.spec_bytes();
            let info = if b.block_info is Some { 2int } else { 0 };
            let len = info + b.value.len();
            &&& s[0] == b.option && s[1] == b.suboption
            &&& bytes::be16(s, 2) == len
            &&& b.block_info matches Some(i) ==> bytes::be16(s, 4) == i
            &&& s.subrange(4 + info, 4 + len) == b.value
            &&& s.len() == 4 + len + len % 2
            &&& len % 2 == 1 ==> s.last() == 0
        }),
{
    let s = b.spec_bytes();
    let info = if b.block_info is Some { 2int } else { 0 };
    eth::lemma_at_16(s, 2, b.declared_len() as u16);
    if let Some(i) = b.block_info {
        eth::lemma_at_16(s, 4, i);
    }
    assert(s.subrange(4 + info, 4 + info + b.value.len()) =~= b.value);
}

/// How a block is read, and why bytes are refused as one.
pub proof fn dcp_blocks_are_read_by_place(b: Seq<u8>, has_block_info: bool)
    requires
        b.len() <= usize::MAX,
    ensures
        ({
            let len = bytes::be16(b, 2) as int;
            match block_at(b, has_block_info) {
                Ok((block, next)) => {
                    &&& b.len() >= 4 + len
                    &&& block.option == b[0] && block.suboption == b[1]
                    &&& has_block_info ==> len >= 2 && block.block_info == Some(bytes::be16(b, 4))
                        && block.value == b.subrange(6, 4 + len)
                    &&& !has_block_info ==> block.block_info is None && block.value == b.subrange(
                        4,
                        4 + len,
                    )
                    &&& next % 2 == 0 && (next == 4 + len || next == 5 + len)
                },
                Err(DcpError::TooShort { need, have }) => {
                    &&& have == b.len() && have < need
                    &&& need == 4 || b.len() >= 4 && need == 4 + len
                },
                Err(DcpError::Malformed(_)) => has_block_info && b.len() >= 4 + len && len < 2,
                Err(_) => false,
            }
        }),
{
}

/// Blocks stand one behind the other, each where the one before it ends.
pub proof fn dcp_blocks_follow_one_another(b: Seq<u8>, has_block_info: bool)
    requires
        b.len() > 0,
    ensures
        match block_at(b, has_block_info) {
            Err(e) => blocks_of(b, has_block_info) == Err::<Seq<DcpBlockView>, _>(e),
            Ok((first, next)) => match blocks_of(b, has_block_info) {
                Ok(all) => {
                    &&& all[0] == first
                    &&& next >= b.len() ==> all.len() == 1
                    &&& next < b.len() ==> blocks_of(b.skip(next), has_block_info) == Ok::<
                        _,
                        DcpError,
                    >(all.skip(1))
                },
                Err(e) => next < b.len() && blocks_of(b.skip(next), has_block_info) == Err::<
                    Seq<DcpBlockView>,
                    _,
                >(e),
            },
        },
        blocks_of(Seq::empty(), has_block_info) == Ok::<_, DcpError>(Seq::<DcpBlockView>::empty()),
{
    if let Ok((first, next)) = block_at(b, has_block_info) {
        if next < b.len() {
            if let Ok(rest) = blocks_of(b.skip(next), has_block_info) {
                assert((seq![first] + rest).skip(1) =~= rest);
            }
        }
    }
}

} // verus!
