//! NDR array-header codec for PNIO RPC bodies: five `u32` counters on requests, a status
//! plus four `u32` counters on responses, both in the RPC header's byte order.

use vstd::prelude::*;

use vstd::slice::slice_subrange;

use crate::rpc::{Drep, RpcError};

verus! {

/// NDR request body header: `args_max`, `args_len`, then a conformant/varying array header
/// (`max_count`, `offset`, `actual_count`) in front of the PNIO block payload.
#[derive(Debug, Clone, Copy, PartialEq, Eq, Structural)]
pub struct NdrRequest {
    pub args_max: u32,
    pub args_len: u32,
    pub max_count: u32,
    pub offset: u32,
    pub actual_count: u32,
}

/// NDR response body header: a `status` word, then the same array header as
/// [`NdrRequest`], minus `args_max`.
#[derive(Debug, Clone, Copy, PartialEq, Eq, Structural)]
pub struct NdrResponse {
    pub status: u32,
    pub args_len: u32,
    pub max_count: u32,
    pub offset: u32,
    pub actual_count: u32,
}

/// What is wrong with five NDR words in front of `available` payload bytes, if anything:
/// the two length words must agree, the offset be zero and the payload be there.
pub open spec fn ndr_fault(words: NdrRequest, available: int) -> Option<RpcError> {
    if words.args_len != words.actual_count {
        Some(RpcError::NdrMismatch("args_len != actual_count"))
    } else if words.offset != 0 {
        Some(RpcError::NdrMismatch("array offset must be 0"))
    } else if words.actual_count > available {
        Some(RpcError::NdrMismatch("actual_count overruns buffer"))
    } else {
        None
    }
}

/// The five words at the start of `buf`.
pub open spec fn ndr_words(buf: Seq<u8>, drep: Drep) -> NdrRequest {
    NdrRequest {
        args_max: drep.at32(buf, 0),
        args_len: drep.at32(buf, 4),
        max_count: drep.at32(buf, 8),
        offset: drep.at32(buf, 12),
        actual_count: drep.at32(buf, 16),
    }
}

/// The bytes of five words.
pub open spec fn ndr_bytes(w: NdrRequest, drep: Drep) -> Seq<u8> {
    drep.bytes32(w.args_max) + drep.bytes32(w.args_len) + drep.bytes32(w.max_count)
        + drep.bytes32(w.offset) + drep.bytes32(w.actual_count)
}

impl NdrRequest {
    /// Length of the header on the wire.
    pub const LEN: usize = 20;

    /// What `buf` reads as: the header and the `actual_count` payload bytes behind it.
    pub open spec fn spec_parse(buf: Seq<u8>, drep: Drep) -> Result<
        (NdrRequest, Seq<u8>),
        RpcError,
    > {
        let w = ndr_words(buf, drep);
        if buf.len() < 20 {
            Err(RpcError::TooShort { need: 20, have: buf.len() as usize })
        } else {
            match ndr_fault(w, buf.len() - 20) {
                Some(e) => Err(e),
                None => Ok((w, buf.subrange(20, 20 + w.actual_count))),
            }
        }
    }

    /// The header's bytes on the wire.
    pub open spec fn spec_bytes(self, drep: Drep) -> Seq<u8> {
        ndr_bytes(self, drep)
    }

    /// Parse the 20-byte header and return it along with the trailing block payload
    /// (`actual_count` bytes). Rejects a buffer shorter than [`Self::LEN`], `args_len !=
    /// actual_count`, a nonzero `offset`, or an `actual_count` that overruns the buffer.
    pub fn parse(buf: &[u8], drep: Drep) -> (res: Result<(NdrRequest, &[u8]), RpcError>)
        ensures
            match res {
                Ok((n, blocks)) => Self::spec_parse(buf@, drep) == Ok::<_, RpcError>((n, blocks@)),
                Err(e) => Self::spec_parse(buf@, drep) == Err::<(NdrRequest, Seq<u8>), _>(e),
            },
    {
        if buf.len() < Self::LEN {
            return Err(RpcError::TooShort { need: Self::LEN, have: buf.len() });
        }
        let args_max: u32 = drep.read32(buf, 0);
        let args_len: u32 = drep.read32(buf, 4);
        let max_count: u32 = drep.read32(buf, 8);
        let offset: u32 = drep.read32(buf, 12);
        let actual_count: u32 = drep.read32(buf, 16);
        if args_len != actual_count {
            return Err(RpcError::NdrMismatch("args_len != actual_count"));
        }
        if offset != 0 {
            return Err(RpcError::NdrMismatch("array offset must be 0"));
        }
        let available: usize = buf.len() - Self::LEN;
        if actual_count as usize > available {
            return Err(RpcError::NdrMismatch("actual_count overruns buffer"));
        }
        let n = NdrRequest { args_max, args_len, max_count, offset, actual_count };
        Ok((n, slice_subrange(buf, Self::LEN, Self::LEN + actual_count as usize)))
    }

    /// A request header for `blocks_len` bytes of PNIO block payload. `max_count` echoes
    /// `args_max` (the array's declared capacity), while `args_len`/`actual_count` carry
    /// the actual payload length; `offset` is zero.
    pub fn for_blocks(args_max: u32, blocks_len: u32) -> (n: NdrRequest)
        ensures
            n == (NdrRequest {
                args_max,
                args_len: blocks_len,
                max_count: args_max,
                offset: 0,
                actual_count: blocks_len,
            }),
    {
        NdrRequest {
            args_max,
            args_len: blocks_len,
            max_count: args_max,
            offset: 0,
            actual_count: blocks_len,
        }
    }

    /// Append the header's bytes.
    pub fn write(&self, out: &mut Vec<u8>, drep: Drep)
        ensures
            final(out)@ == old(out)@ + self.spec_bytes(drep),
    {
        drep.put_u32(out, self.args_max);
        drep.put_u32(out, self.args_len);
        drep.put_u32(out, self.max_count);
        drep.put_u32(out, self.offset);
        drep.put_u32(out, self.actual_count);
        assert(out@ =~= old(out)@ + self.spec_bytes(drep));
    }
}

impl NdrResponse {
    /// Length of the header on the wire.
    pub const LEN: usize = 20;

    /// The header as its five words.
    pub open spec fn words(self) -> NdrRequest {
        NdrRequest {
            args_max: self.status,
            args_len: self.args_len,
            max_count: self.max_count,
            offset: self.offset,
            actual_count: self.actual_count,
        }
    }

    /// The header of five words.
    pub open spec fn of_words(w: NdrRequest) -> NdrResponse {
        NdrResponse {
            status: w.args_max,
            args_len: w.args_len,
            max_count: w.max_count,
            offset: w.offset,
            actual_count: w.actual_count,
        }
    }

    /// What `buf` reads as: the header and the `actual_count` payload bytes behind it.
    pub open spec fn spec_parse(buf: Seq<u8>, drep: Drep) -> Result<
        (NdrResponse, Seq<u8>),
        RpcError,
    > {
        match NdrRequest::spec_parse(buf, drep) {
            Ok((w, blocks)) => Ok((Self::of_words(w), blocks)),
            Err(e) => Err(e),
        }
    }

    /// The header's bytes on the wire.
    pub open spec fn spec_bytes(self, drep: Drep) -> Seq<u8> {
        ndr_bytes(self.words(), drep)
    }

    /// Parse the 20-byte header and return it along with the trailing block payload, with
    /// the same checks as [`NdrRequest::parse`].
    pub fn parse(buf: &[u8], drep: Drep) -> (res: Result<(NdrResponse, &[u8]), RpcError>)
        ensures
            match res {
                Ok((n, blocks)) => Self::spec_parse(buf@, drep) == Ok::<_, RpcError>((n, blocks@)),
                Err(e) => Self::spec_parse(buf@, drep) == Err::<(NdrResponse, Seq<u8>), _>(e),
            },
    {
        match NdrRequest::parse(buf, drep) {
            Ok((w, blocks)) => Ok(
                (
                    NdrResponse {
                        status: w.args_max,
                        args_len: w.args_len,
                        max_count: w.max_count,
                        offset: w.offset,
                        actual_count: w.actual_count,
                    },
                    blocks,
                ),
            ),
            Err(e) => Err(e),
        }
    }

    /// A success response header for `blocks_len` bytes of PNIO block payload. `max_count`
    /// echoes the request's `args_max`, not `blocks_len`.
    pub fn ok(request_args_max: u32, blocks_len: u32) -> (n: NdrResponse)
        ensures
            n == (NdrResponse {
                status: 0,
                args_len: blocks_len,
                max_count: request_args_max,
                offset: 0,
                actual_count: blocks_len,
            }),
    {
        NdrResponse {
            status: 0,
            args_len: blocks_len,
            max_count: request_args_max,
            offset: 0,
            actual_count: blocks_len,
        }
    }

    /// An error response header: the status and no payload; `max_count` still echoes the
    /// request's `args_max`.
    pub fn error(status: u32, request_args_max: u32) -> (n: NdrResponse)
        ensures
            n == (NdrResponse {
                status,
                args_len: 0,
                max_count: request_args_max,
                offset: 0,
                actual_count: 0,
            }),
    {
        NdrResponse {
            status,
            args_len: 0,
            max_count: request_args_max,
            offset: 0,
            actual_count: 0,
        }
    }

    /// Append the header's bytes.
    pub fn write(&self, out: &mut Vec<u8>, drep: Drep)
        ensures
            final(out)@ == old(out)@ + self.spec_bytes(drep),
    {
        drep.put_u32(out, self.status);
        drep.put_u32(out, self.args_len);
        drep.put_u32(out, self.max_count);
        drep.put_u32(out, self.offset);
        drep.put_u32(out, self.actual_count);
        assert(out@ =~= old(out)@ + self.spec_bytes(drep));
    }
}

/// A header written in front of a payload of the length it declares reads back, payload
/// included.
#[verifier::spinoff_prover]
#[verifier::rlimit(40)]
pub proof fn ndr_request_round_trip(n: NdrRequest, drep: Drep, payload: Seq<u8>, after: Seq<u8>)
    requires
        n.args_len == n.actual_count,
        n.offset == 0,
        n.actual_count == payload.len(),
    ensures
        n.spec_bytes(drep).len() == NdrRequest::LEN,
        NdrRequest::spec_parse(n.spec_bytes(drep) + payload + after, drep) == Ok::<_, RpcError>(
            (n, payload),
        ),
{
    let b = n.spec_bytes(drep) + payload + after;
    assert(b.subrange(0, 4) =~= drep.bytes32(n.args_max));
    assert(b.subrange(4, 8) =~= drep.bytes32(n.args_len));
    assert(b.subrange(8, 12) =~= drep.bytes32(n.max_count));
    assert(b.subrange(12, 16) =~= drep.bytes32(n.offset));
    assert(b.subrange(16, 20) =~= drep.bytes32(n.actual_count));
    crate::rpc::drep_round_trip_32(drep, n.args_max, b, 0);
    crate::rpc::drep_round_trip_32(drep, n.args_len, b, 4);
    crate::rpc::drep_round_trip_32(drep, n.max_count, b, 8);
    crate::rpc::drep_round_trip_32(drep, n.offset, b, 12);
    crate::rpc::drep_round_trip_32(drep, n.actual_count, b, 16);
    assert(b.subrange(20, 20 + payload.len() as int) =~= payload);
}

/// The same of a response header.
pub proof fn ndr_response_round_trip(n: NdrResponse, drep: Drep, payload: Seq<u8>, after: Seq<u8>)
    requires
        n.args_len == n.actual_count,
        n.offset == 0,
        n.actual_count == payload.len(),
    ensures
        n.spec_bytes(drep).len() == NdrResponse::LEN,
        NdrResponse::spec_parse(n.spec_bytes(drep) + payload + after, drep) == Ok::<_, RpcError>(
            (n, payload),
        ),
{
    ndr_request_round_trip(n.words(), drep, payload, after);
}

/// Where the five words of a body stand.
pub proof fn words_stand_at_their_places(n: NdrRequest, r: NdrResponse, drep: Drep)
    ensures
        ({
            let b = n.spec_bytes(drep);
            &&& b.len() == 20
            &&& drep.at32(b, 0) == n.args_max && drep.at32(b, 4) == n.args_len
            &&& drep.at32(b, 8) == n.max_count && drep.at32(b, 12) == n.offset
            &&& drep.at32(b, 16) == n.actual_count
        }),
        ({
            let b = r.spec_bytes(drep);
            &&& b.len() == 20
            &&& drep.at32(b, 0) == r.status && drep.at32(b, 4) == r.args_len
            &&& drep.at32(b, 8) == r.max_count && drep.at32(b, 12) == r.offset
            &&& drep.at32(b, 16) == r.actual_count
        }),
{
    lemma_words_in_place(n, drep);
    lemma_words_in_place(r.words(), drep);
}

proof fn lemma_words_in_place(n: NdrRequest, drep: Drep)
    ensures
        ({
            let b = ndr_bytes(n, drep);
            &&& b.len() == 20
            &&& drep.at32(b, 0) == n.args_max && drep.at32(b, 4) == n.args_len
            &&& drep.at32(b, 8) == n.max_count && drep.at32(b, 12) == n.offset
            &&& drep.at32(b, 16) == n.actual_count
        }),
{
    let b = ndr_bytes(n, drep);
    assert(b.subrange(0, 4) =~= drep.bytes32(n.args_max));
    assert(b.subrange(4, 8) =~= drep.bytes32(n.args_len));
    assert(b.subrange(8, 12) =~= drep.bytes32(n.max_count));
    assert(b.subrange(12, 16) =~= drep.bytes32(n.offset));
    assert(b.subrange(16, 20) =~= drep.bytes32(n.actual_count));
    crate::rpc::drep_round_trip_32(drep, n.args_max, b, 0);
    crate::rpc::drep_round_trip_32(drep, n.args_len, b, 4);
    crate::rpc::drep_round_trip_32(drep, n.max_count, b, 8);
    crate::rpc::drep_round_trip_32(drep, n.offset, b, 12);
    crate::rpc::drep_round_trip_32(drep, n.actual_count, b, 16);
}

/// How a body is read: five words and the payload that the last counts. It is refused just
/// where the two counts differ, the payload does not begin at its begin, or is not all there.
pub proof fn bodies_are_read_by_their_counts(buf: Seq<u8>, drep: Drep)
    requires
        buf.len() <= usize::MAX,
    ensures
        ({
            let count = drep.at32(buf, 16) as int;
            let sound = drep.at32(buf, 4) == count && drep.at32(buf, 12) == 0 && 20 + count
                <= buf.len();
            match NdrRequest::spec_parse(buf, drep) {
                Ok((n, blocks)) => {
                    &&& buf.len() >= 20 && sound
                    &&& n.args_max == drep.at32(buf, 0) && n.args_len == count
                    &&& n.max_count == drep.at32(buf, 8) && n.offset == 0 && n.actual_count == count
                    &&& blocks == buf.subrange(20, 20 + count)
                },
                Err(RpcError::TooShort { need, have }) => need == 20 && have == buf.len() && have
                    < 20,
                Err(RpcError::NdrMismatch(_)) => buf.len() >= 20 && !sound,
                Err(_) => false,
            }
        }),
        match (NdrRequest::spec_parse(buf, drep), NdrResponse::spec_parse(buf, drep)) {
            (Ok((n, blocks)), Ok((r, same))) => {
                &&& r.status == n.args_max && r.args_len == n.args_len && r.max_count == n.max_count
                &&& r.offset == n.offset && r.actual_count == n.actual_count && same == blocks
            },
            (Err(e), Err(f)) => e == f,
            _ => false,
        },
{
}

/// What is wrong with the counts is told by the first of them that is.
pub proof fn wrong_counts_are_told_apart(w: NdrRequest, available: int)
    ensures
        w.args_len != w.actual_count ==> ndr_fault(w, available) == Some(
            RpcError::NdrMismatch("args_len != actual_count"),
        ),
        w.args_len == w.actual_count && w.offset != 0 ==> ndr_fault(w, available) == Some(
            RpcError::NdrMismatch("array offset must be 0"),
        ),
        w.args_len == w.actual_count && w.offset == 0 && w.actual_count > available ==> ndr_fault(
            w,
            available,
        ) == Some(RpcError::NdrMismatch("actual_count overruns buffer")),
        ndr_fault(w, available) is None <==> w.args_len == w.actual_count && w.offset == 0
            && w.actual_count <= available,
{
}

/// The headers that are made: the capacity that the caller offers, and the length of the
/// payload in both counts; none behind an error.
pub proof fn made_headers_count_their_payload(
    args_max: u32,
    len: u32,
    status: u32,
    n: NdrRequest,
    r: NdrResponse,
)
    ensures
        call_ensures(NdrRequest::for_blocks, (args_max, len), n) ==> n.args_max == args_max
            && n.max_count == args_max && n.args_len == len && n.actual_count == len && n.offset
            == 0,
        call_ensures(NdrResponse::ok, (args_max, len), r) ==> r.status == 0 && r.max_count
            == args_max && r.args_len == len && r.actual_count == len && r.offset == 0,
        call_ensures(NdrResponse::error, (status, args_max), r) ==> r.status == status
            && r.max_count == args_max && r.args_len == 0 && r.actual_count == 0 && r.offset == 0,
{
}

} // verus!
