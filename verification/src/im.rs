//! I&M0-3 (Identification & Maintenance) record codec and store.
//!
//! I&M0 ([`INDEX_IM0`]) is read-only device identity, computed on demand by [`encode_im0`]
//! from a [`Im0`] plus the vendor id and supported mask. I&M1-3 are operator-writable free
//! text (tag function/location, install date, descriptor); [`ImStore`] keeps their bodies as
//! raw, already space-padded bytes, and can be turned into one flat image and back.

use vstd::prelude::*;

use vstd::slice::{slice_subrange, slice_to_vec};
use vstd::utf8;

use crate::bytes;
use crate::cm::block::{self, BlockHeader};

verus! {

/// Block type of the encoded I&M0 record (distinct from [`INDEX_IM0`], the record data index
/// used to address it over the PNIO Read/Write service).
pub const BLOCK_TYPE_IM0: u16 = 0x0020;

pub const BLOCK_TYPE_IM1: u16 = 0x0021;

pub const BLOCK_TYPE_IM2: u16 = 0x0022;

pub const BLOCK_TYPE_IM3: u16 = 0x0023;

/// Record data indices for the PNIO Read/Write service.
pub const INDEX_IM0: u16 = 0xAFF0;

pub const INDEX_IM1: u16 = 0xAFF1;

pub const INDEX_IM2: u16 = 0xAFF2;

pub const INDEX_IM3: u16 = 0xAFF3;

/// `IM_Supported` bitmask: I&M1, I&M2 and I&M3 are supported (bits 1-3), on every submodule.
pub const IM_SUPPORTED_DAP: u16 = 0x000E;

/// Fixed body lengths (bytes after the 6-byte block header) of the I&M1-3 records.
pub const IM1_LEN: usize = 54;

pub const IM2_LEN: usize = 16;

pub const IM3_LEN: usize = 54;

/// The padding byte of text fields.
pub const SPACE: u8 = 0x20;

/// `IM_Software_Revision`: a prefix letter ('V'ersion, 'R'evision, 'P'rototype, 'U'nder
/// test, 'T'est device) plus a three-part x.y.z revision.
#[derive(Debug, Clone, Copy, PartialEq, Eq)]
pub struct SwRevision {
    pub prefix: char,
    pub functional: u8,
    pub bug_fix: u8,
    pub internal: u8,
}

/// I&M0: read-only device identity.
#[derive(Debug, PartialEq, Eq)]
pub struct Im0 {
    pub order_id: String,
    pub serial_number: String,
    pub hardware_revision: u16,
    pub software_revision: SwRevision,
    pub revision_counter: u16,
    pub profile_id: u16,
    pub profile_specific_type: u16,
}

/// Why an identity or a record is refused.
#[derive(Debug, Clone, Copy, PartialEq, Eq)]
pub enum ImError {
    /// A text field holds a character outside ASCII.
    NotAscii { field: &'static str },
    /// A text field is too long for its place in the record.
    TooLong { field: &'static str, max: usize },
    /// The software revision prefix is none of `VRPUT`.
    BadPrefix(char),
    /// A written record does not have the shape of its index.
    BadRecord { index: u16, why: &'static str },
}

/// Whether `c` is a software revision prefix.
pub open spec fn is_sw_prefix(c: char) -> bool {
    c == 'V' || c == 'R' || c == 'P' || c == 'U' || c == 'T'
}

impl Im0 {
    /// Whether this is the identity of a device that was given none.
    pub open spec fn is_default(self) -> bool {
        &&& self.order_id@ == "pnio device"@
        &&& self.serial_number@ == Seq::<char>::empty()
        &&& self.hardware_revision == 1
        &&& self.software_revision == (SwRevision {
            prefix: 'V',
            functional: 0,
            bug_fix: 1,
            internal: 0,
        })
        &&& self.revision_counter == 0
        &&& self.profile_id == 0
        &&& self.profile_specific_type == 0
    }

    /// Why this identity is refused, if it is: `order_id` and `serial_number` must be ASCII
    /// of at most 20 and 16 bytes, and the revision prefix one of `VRPUT`.
    pub open spec fn fault(self) -> Option<ImError> {
        if !utf8::is_ascii_chars(self.order_id@) {
            Some(ImError::NotAscii { field: "order_id" })
        } else if utf8::encode_utf8(self.order_id@).len() > 20 {
            Some(ImError::TooLong { field: "order_id", max: 20 })
        } else if !utf8::is_ascii_chars(self.serial_number@) {
            Some(ImError::NotAscii { field: "serial_number" })
        } else if utf8::encode_utf8(self.serial_number@).len() > 16 {
            Some(ImError::TooLong { field: "serial_number", max: 16 })
        } else if !is_sw_prefix(self.software_revision.prefix) {
            Some(ImError::BadPrefix(self.software_revision.prefix))
        } else {
            None
        }
    }

    /// ASCII-only, `order_id` at most 20 bytes, `serial_number` at most 16 bytes,
    /// `software_revision.prefix` one of `VRPUT`.
    pub fn validate(&self) -> (res: Result<(), ImError>)
        ensures
            match res {
                Ok(_) => self.fault() is None,
                Err(e) => self.fault() == Some(e),
            },
    {
        let order_id = self.order_id.as_str();
        if !order_id.is_ascii() {
            return Err(ImError::NotAscii { field: "order_id" });
        }
        if order_id.as_bytes().len() > 20 {
            return Err(ImError::TooLong { field: "order_id", max: 20 });
        }
        let serial_number = self.serial_number.as_str();
        if !serial_number.is_ascii() {
            return Err(ImError::NotAscii { field: "serial_number" });
        }
        if serial_number.as_bytes().len() > 16 {
            return Err(ImError::TooLong { field: "serial_number", max: 16 });
        }
        let c: char = self.software_revision.prefix;
        if !(c == 'V' || c == 'R' || c == 'P' || c == 'U' || c == 'T') {
            return Err(ImError::BadPrefix(c));
        }
        Ok(())
    }
}

impl Clone for Im0 {
    fn clone(&self) -> (r: Self)
        ensures
            r == *self,
    {
        Im0 {
            order_id: self.order_id.clone(),
            serial_number: self.serial_number.clone(),
            hardware_revision: self.hardware_revision,
            software_revision: self.software_revision,
            revision_counter: self.revision_counter,
            profile_id: self.profile_id,
            profile_specific_type: self.profile_specific_type,
        }
    }
}

impl Default for Im0 {
    fn default() -> (r: Self)
        ensures
            r.is_default(),
            r.fault() is None,
    {
        let r = Im0 {
            order_id: "pnio device".to_owned(),
            serial_number: String::new(),
            hardware_revision: 1,
            software_revision: SwRevision { prefix: 'V', functional: 0, bug_fix: 1, internal: 0 },
            revision_counter: 0,
            profile_id: 0,
            profile_specific_type: 0,
        };
        proof {
            reveal_strlit("pnio device");
            utf8::is_ascii_chars_encode_utf8(r.order_id@);
            utf8::is_ascii_chars_encode_utf8(r.serial_number@);
        }
        r
    }
}

/// Exactly `n` bytes of `b`: cut if it is longer, space-padded if it is shorter.
pub open spec fn padded(b: Seq<u8>, n: int) -> Seq<u8> {
    if b.len() >= n {
        b.take(n)
    } else {
        b + bytes::repeated(SPACE, (n - b.len()) as nat)
    }
}

/// Push `s` into `out` as exactly `len` bytes: truncated if longer, space-padded if shorter.
fn push_padded(out: &mut Vec<u8>, s: &str, len: usize)
    ensures
        final(out)@ == old(out)@ + padded(utf8::encode_utf8(s@), len as int),
{
    let b = s.as_bytes();
    if b.len() >= len {
        bytes::put_all(out, slice_subrange(b, 0, len));
        assert(b@.subrange(0, len as int) =~= b@.take(len as int));
    } else {
        bytes::put_all(out, b);
        bytes::put_repeated(out, SPACE, len - b.len());
        assert(out@ =~= old(out)@ + padded(b@, len as int));
    }
}

/// The low byte of a prefix character.
pub open spec fn prefix_byte(c: char) -> u8 {
    (c as u32 % 0x100) as u8
}

/// Vendor, order number and serial number: the first 38 bytes of identity fields.
pub open spec fn im0_names(vendor_id: u16, im0: Im0) -> Seq<u8> {
    bytes::be16_bytes(vendor_id) + padded(utf8::encode_utf8(im0.order_id@), 20) + padded(
        utf8::encode_utf8(im0.serial_number@),
        16,
    )
}

/// Revisions, profile, I&M version 1.1 and the supported mask: the last 16 bytes.
pub open spec fn im0_revisions(im0: Im0, supported: u16) -> Seq<u8> {
    let rev = im0.software_revision;
    bytes::be16_bytes(im0.hardware_revision) + seq![
        prefix_byte(rev.prefix),
        rev.functional,
        rev.bug_fix,
        rev.internal,
    ] + bytes::be16_bytes(im0.revision_counter) + bytes::be16_bytes(im0.profile_id)
        + bytes::be16_bytes(im0.profile_specific_type) + seq![1u8, 1u8] + bytes::be16_bytes(
        supported,
    )
}

/// The 54 bytes of identity fields in an I&M0 record.
pub open spec fn im0_body(vendor_id: u16, im0: Im0, supported: u16) -> Seq<u8> {
    im0_names(vendor_id, im0) + im0_revisions(im0, supported)
}

/// The whole I&M0 record.
pub open spec fn im0_record(vendor_id: u16, im0: Im0, supported: u16) -> Seq<u8> {
    block::header_bytes(BLOCK_TYPE_IM0, 54) + im0_body(vendor_id, im0, supported)
}

/// Encode the 60-byte I&M0 record (6-byte block header, block type 0x0020, length 56,
/// version 1.0, followed by 54 bytes of identity fields).
pub fn encode_im0(vendor_id: u16, im0: &Im0, supported: u16) -> (out: Vec<u8>)
    ensures
        out@ == im0_record(vendor_id, *im0, supported),
        out@.len() == 60,
{
    let mut out: Vec<u8> = Vec::with_capacity(60);
    BlockHeader::write(&mut out, BLOCK_TYPE_IM0, 54);
    let ghost header = out@;
    bytes::put_be16(&mut out, vendor_id);
    push_padded(&mut out, im0.order_id.as_str(), 20);
    push_padded(&mut out, im0.serial_number.as_str(), 16);
    assert(out@ =~= header + im0_names(vendor_id, *im0));
    put_revisions(&mut out, im0, supported);
    assert(out@ =~= im0_record(vendor_id, *im0, supported));
    out
}

/// Append the last 16 bytes of identity fields.
fn put_revisions(out: &mut Vec<u8>, im0: &Im0, supported: u16)
    ensures
        final(out)@ == old(out)@ + im0_revisions(*im0, supported),
        im0_revisions(*im0, supported).len() == 16,
{
    broadcast use bytes::lemma_add_assoc;

    bytes::put_be16(out, im0.hardware_revision);
    let rev = im0.software_revision;
    let ghost before = out@;
    out.push((rev.prefix as u32 % 0x100) as u8);
    out.push(rev.functional);
    out.push(rev.bug_fix);
    out.push(rev.internal);
    assert(out@ =~= before + seq![
        prefix_byte(rev.prefix),
        rev.functional,
        rev.bug_fix,
        rev.internal,
    ]);
    bytes::put_be16(out, im0.revision_counter);
    bytes::put_be16(out, im0.profile_id);
    bytes::put_be16(out, im0.profile_specific_type);
    let ghost middle = out@;
    out.push(1);
    out.push(1);
    assert(out@ =~= middle + seq![1u8, 1u8]);
    bytes::put_be16(out, supported);
}

// ---------------------------------------------------------------------------------
// Text fields
// ---------------------------------------------------------------------------------

/// What `String::from_utf8_lossy` makes of a byte string.
pub uninterp spec fn utf8_lossy(b: Seq<u8>) -> Seq<char>;

/// `String::from_utf8_lossy` of the standard library as an owned string: a function of the
/// bytes alone, which for valid UTF-8 is the string of those bytes. What replaces invalid
/// sequences is left to the name.
#[verifier::external_body]
fn string_from_utf8_lossy(b: &[u8]) -> (s: String)
    ensures
        s@ == utf8_lossy(b@),
        utf8::valid_utf8(b@) ==> utf8::encode_utf8(s@) == b@,
{
    String::from_utf8_lossy(b).into_owned()
}

/// `s` without the spaces and NULs at its end.
pub open spec fn trimmed_text(s: Seq<char>) -> Seq<char>
    decreases s.len(),
{
    if s.len() > 0 && (s.last() == '\0' || s.last() == ' ') {
        trimmed_text(s.drop_last())
    } else {
        s
    }
}

/// Drop the spaces and NULs at the end of `s`.
pub fn trim_end(s: &str) -> (r: String)
    ensures
        r@ == trimmed_text(s@),
{
    let mut n: usize = s.unicode_len();
    assert(s@.take(n as int) =~= s@);
    while n > 0
        invariant_except_break
            n <= s@.len(),
            trimmed_text(s@) == trimmed_text(s@.take(n as int)),
        ensures
            n <= s@.len(),
            trimmed_text(s@) == s@.take(n as int),
        decreases n,
    {
        let c: char = s.get_char(n - 1);
        assert(s@.take(n as int).last() == c);
        assert(s@.take(n as int).drop_last() =~= s@.take(n - 1));
        if c != '\0' && c != ' ' {
            break;
        }
        n = n - 1;
    }
    let r = s.substring_char(0, n).to_owned();
    assert(r@ =~= s@.take(n as int));
    r
}

/// A text field's string: decoded as (lossy) UTF-8, without trailing spaces and NULs.
fn trimmed(b: &[u8]) -> (r: String)
    ensures
        r@ == trimmed_text(utf8_lossy(b@)),
{
    let s = string_from_utf8_lossy(b);
    trim_end(s.as_str())
}

// ---------------------------------------------------------------------------------
// ImStore
// ---------------------------------------------------------------------------------

/// The writable I&M1-3 records: raw record bodies, each of its fixed length.
#[derive(Debug, PartialEq, Eq)]
pub struct ImStore {
    im1: Vec<u8>,
    im2: Vec<u8>,
    im3: Vec<u8>,
}

/// The block type and the fixed body length of a writable record, `None` for another index.
pub open spec fn record_shape(index: u16) -> Option<(u16, int)> {
    if index == INDEX_IM1 {
        Some((BLOCK_TYPE_IM1, IM1_LEN as int))
    } else if index == INDEX_IM2 {
        Some((BLOCK_TYPE_IM2, IM2_LEN as int))
    } else if index == INDEX_IM3 {
        Some((BLOCK_TYPE_IM3, IM3_LEN as int))
    } else {
        None
    }
}

/// Why a written record is refused, if it is.
pub open spec fn record_fault(index: u16, record: Seq<u8>) -> Option<ImError> {
    match record_shape(index) {
        None => Some(ImError::BadRecord { index, why: "unknown I&M record index" }),
        Some((block_type, len)) => match BlockHeader::spec_parse(record) {
            Err(_) => Some(ImError::BadRecord { index, why: "malformed block header" }),
            Ok((header, body)) => if header.block_type != block_type {
                Some(
                    ImError::BadRecord {
                        index,
                        why: "block type does not match the record index",
                    },
                )
            } else if body.len() != len {
                Some(
                    ImError::BadRecord {
                        index,
                        why: "body length does not match the fixed record length",
                    },
                )
            } else {
                None
            },
        },
    }
}

impl ImStore {
    #[verifier::type_invariant]
    spec fn lengths_fixed(self) -> bool {
        &&& self.im1@.len() == IM1_LEN
        &&& self.im2@.len() == IM2_LEN
        &&& self.im3@.len() == IM3_LEN
    }

    /// The body of the record `index`; empty for an index that is not stored.
    pub closed spec fn body(self, index: u16) -> Seq<u8> {
        if index == INDEX_IM1 {
            self.im1@
        } else if index == INDEX_IM2 {
            self.im2@
        } else if index == INDEX_IM3 {
            self.im3@
        } else {
            Seq::empty()
        }
    }

    /// The three bodies back to back.
    pub open spec fn spec_image(self) -> Seq<u8> {
        self.body(INDEX_IM1) + self.body(INDEX_IM2) + self.body(INDEX_IM3)
    }

    /// All fields blank (all spaces).
    pub fn new() -> (s: Self)
        ensures
            s.body(INDEX_IM1) == bytes::repeated(SPACE, IM1_LEN as nat),
            s.body(INDEX_IM2) == bytes::repeated(SPACE, IM2_LEN as nat),
            s.body(INDEX_IM3) == bytes::repeated(SPACE, IM3_LEN as nat),
    {
        let mut im1: Vec<u8> = Vec::new();
        let mut im2: Vec<u8> = Vec::new();
        let mut im3: Vec<u8> = Vec::new();
        bytes::put_repeated(&mut im1, SPACE, IM1_LEN);
        bytes::put_repeated(&mut im2, SPACE, IM2_LEN);
        bytes::put_repeated(&mut im3, SPACE, IM3_LEN);
        assert(im1@ =~= bytes::repeated(SPACE, IM1_LEN as nat));
        assert(im2@ =~= bytes::repeated(SPACE, IM2_LEN as nat));
        assert(im3@ =~= bytes::repeated(SPACE, IM3_LEN as nat));
        ImStore { im1, im2, im3 }
    }

    /// The store a flat image holds: the three bodies back to back, exactly 124 bytes;
    /// `None` for any other length.
    pub fn from_image(data: &[u8]) -> (r: Option<Self>)
        ensures
            r is Some <==> data@.len() == IM1_LEN + IM2_LEN + IM3_LEN,
            r matches Some(s) ==> {
                &&& s.body(INDEX_IM1) == data@.subrange(0, 54)
                &&& s.body(INDEX_IM2) == data@.subrange(54, 70)
                &&& s.body(INDEX_IM3) == data@.subrange(70, 124)
                &&& s.spec_image() == data@
            },
    {
        if data.len() != IM1_LEN + IM2_LEN + IM3_LEN {
            return None;
        }
        let s = ImStore {
            im1: slice_to_vec(slice_subrange(data, 0, IM1_LEN)),
            im2: slice_to_vec(slice_subrange(data, IM1_LEN, IM1_LEN + IM2_LEN)),
            im3: slice_to_vec(
                slice_subrange(data, IM1_LEN + IM2_LEN, IM1_LEN + IM2_LEN + IM3_LEN),
            ),
        };
        assert(s.spec_image() =~= data@);
        Some(s)
    }

    /// What a store's file held when it was read, `None` if it could not be: a well-formed
    /// file gives the store it holds; a missing or ill-sized one gives blank records.
    pub fn load(file: Option<Vec<u8>>) -> (s: Self)
        ensures
            match file {
                Some(data) => if data@.len() == IM1_LEN + IM2_LEN + IM3_LEN {
                    s.spec_image() == data@
                } else {
                    s.spec_image() == bytes::repeated(SPACE, 124)
                },
                None => s.spec_image() == bytes::repeated(SPACE, 124),
            },
    {
        if let Some(data) = file {
            if let Some(s) = ImStore::from_image(data.as_slice()) {
                return s;
            }
        }
        let s = ImStore::new();
        assert(s.spec_image() =~= bytes::repeated(SPACE, 124));
        s
    }

    /// The flat image: the three record bodies back to back.
    pub fn image(&self) -> (data: Vec<u8>)
        ensures
            data@ == self.spec_image(),
            data@.len() == IM1_LEN + IM2_LEN + IM3_LEN,
    {
        proof {
            use_type_invariant(self);
        }
        let mut data: Vec<u8> = Vec::with_capacity(IM1_LEN + IM2_LEN + IM3_LEN);
        bytes::put_all(&mut data, self.im1.as_slice());
        bytes::put_all(&mut data, self.im2.as_slice());
        bytes::put_all(&mut data, self.im3.as_slice());
        assert(data@ =~= self.spec_image());
        data
    }

    /// The full record (block header + body) for `INDEX_IM1..=INDEX_IM3`; `None` for any
    /// other index (I&M0 is computed by [`encode_im0`], not stored here).
    pub fn read(&self, index: u16) -> (r: Option<Vec<u8>>)
        ensures
            match record_shape(index) {
                Some((block_type, len)) => r matches Some(v) && v@ == block::header_bytes(
                    block_type,
                    len,
                ) + self.body(index),
                None => r is None,
            },
    {
        proof {
            use_type_invariant(self);
        }
        let (block_type, body) = if index == INDEX_IM1 {
            (BLOCK_TYPE_IM1, &self.im1)
        } else if index == INDEX_IM2 {
            (BLOCK_TYPE_IM2, &self.im2)
        } else if index == INDEX_IM3 {
            (BLOCK_TYPE_IM3, &self.im3)
        } else {
            return None;
        };
        let mut out: Vec<u8> = Vec::with_capacity(6 + body.len());
        BlockHeader::write(&mut out, block_type, body.len() as u16);
        bytes::put_all(&mut out, body.as_slice());
        assert(out@ =~= block::header_bytes(block_type, body@.len() as int) + body@);
        Some(out)
    }

    /// Validate and store a full record (block header + body) written by the controller.
    /// `record`'s block header must parse, its block type must match `index`, and its body
    /// must have the fixed length for that record. A refused record changes nothing.
    pub fn write(&mut self, index: u16, record: &[u8]) -> (res: Result<(), ImError>)
        ensures
            match res {
                Ok(_) => {
                    &&& record_fault(index, record@) is None
                    &&& final(self).body(index) == BlockHeader::spec_parse(record@)->Ok_0.1
                    &&& forall|other: u16| other != index ==> #[trigger] final(self).body(other)
                        == old(self).body(other)
                },
                Err(e) => {
                    &&& record_fault(index, record@) == Some(e)
                    &&& *final(self) == *old(self)
                },
            },
    {
        let (block_type, expected_len): (u16, usize) = if index == INDEX_IM1 {
            (BLOCK_TYPE_IM1, IM1_LEN)
        } else if index == INDEX_IM2 {
            (BLOCK_TYPE_IM2, IM2_LEN)
        } else if index == INDEX_IM3 {
            (BLOCK_TYPE_IM3, IM3_LEN)
        } else {
            return Err(ImError::BadRecord { index, why: "unknown I&M record index" });
        };
        let (header, body) = match BlockHeader::parse(record) {
            Ok(x) => x,
            Err(_) => {
                return Err(ImError::BadRecord { index, why: "malformed block header" });
            },
        };
        if header.block_type != block_type {
            return Err(
                ImError::BadRecord { index, why: "block type does not match the record index" },
            );
        }
        if body.len() != expected_len {
            return Err(
                ImError::BadRecord {
                    index,
                    why: "body length does not match the fixed record length",
                },
            );
        }
        proof {
            use_type_invariant(&*self);
        }
        let stored: Vec<u8> = slice_to_vec(body);
        if index == INDEX_IM1 {
            self.im1 = stored;
        } else if index == INDEX_IM2 {
            self.im2 = stored;
        } else {
            self.im3 = stored;
        }
        Ok(())
    }

    /// The tag function: the first 32 bytes of I&M1, as text.
    pub fn tag_function(&self) -> (s: String)
        ensures
            s@ == trimmed_text(utf8_lossy(self.body(INDEX_IM1).subrange(0, 32))),
    {
        proof {
            use_type_invariant(self);
        }
        trimmed(slice_subrange(self.im1.as_slice(), 0, 32))
    }

    /// The tag location: the rest of I&M1, as text.
    pub fn tag_location(&self) -> (s: String)
        ensures
            s@ == trimmed_text(utf8_lossy(self.body(INDEX_IM1).subrange(32, 54))),
    {
        proof {
            use_type_invariant(self);
        }
        trimmed(slice_subrange(self.im1.as_slice(), 32, IM1_LEN))
    }

    /// The install date: I&M2, as text.
    pub fn date(&self) -> (s: String)
        ensures
            s@ == trimmed_text(utf8_lossy(self.body(INDEX_IM2))),
    {
        trimmed(self.im2.as_slice())
    }

    /// The descriptor: I&M3, as text.
    pub fn descriptor(&self) -> (s: String)
        ensures
            s@ == trimmed_text(utf8_lossy(self.body(INDEX_IM3))),
    {
        trimmed(self.im3.as_slice())
    }
}

impl Clone for ImStore {
    fn clone(&self) -> (s: Self)
        ensures
            forall|index: u16| #[trigger] s.body(index) == self.body(index),
    {
        proof {
            use_type_invariant(self);
        }
        ImStore {
            im1: slice_to_vec(self.im1.as_slice()),
            im2: slice_to_vec(self.im2.as_slice()),
            im3: slice_to_vec(self.im3.as_slice()),
        }
    }
}

impl Default for ImStore {
    fn default() -> (s: Self)
        ensures
            s.spec_image() == bytes::repeated(SPACE, 124),
    {
        let s = ImStore::new();
        assert(s.spec_image() =~= bytes::repeated(SPACE, 124));
        s
    }
}

// ---------------------------------------------------------------------------------
// Laws
// ---------------------------------------------------------------------------------

/// A read gives back what a write wrote: after an accepted write, the record read is the
/// one written, up to whatever stood behind its body.
pub proof fn read_gives_back_the_written_record(index: u16, record: Seq<u8>)
    requires
        record_fault(index, record) is None,
    ensures
        ({
            let (block_type, len) = record_shape(index)->0;
            block::header_bytes(block_type, len) + BlockHeader::spec_parse(record)->Ok_0.1
                == record.take(6 + len)
        }),
{
    let (block_type, len) = record_shape(index)->0;
    let (header, body) = BlockHeader::spec_parse(record)->Ok_0;
    bytes::lemma_be16_bytes_of(record, 0);
    bytes::lemma_be16_bytes_of(record, 2);
    assert(header.block_length == len + 2);
    assert(block::header_bytes(block_type, len) =~= record.take(6));
    assert(record.take(6) + body =~= record.take(6 + len));
}

/// An I&M0 record reads back as one block of its type with 54 body bytes.
pub proof fn im0_record_is_one_block(vendor_id: u16, im0: Im0, supported: u16)
    ensures
        im0_record(vendor_id, im0, supported).len() == 60,
        BlockHeader::spec_parse(im0_record(vendor_id, im0, supported)) == Ok::<
            _,
            crate::cm::BlockError,
        >((block::header_of(BLOCK_TYPE_IM0, 54), im0_body(vendor_id, im0, supported))),
{
    let body = im0_body(vendor_id, im0, supported);
    let none = Seq::<u8>::empty();
    assert(body.len() == 54);
    block::block_round_trip(BLOCK_TYPE_IM0, body, none);
    assert(block::header_bytes(BLOCK_TYPE_IM0, 54) + body + none =~= im0_record(
        vendor_id,
        im0,
        supported,
    ));
}

/// Text in a field of fixed length: its bytes from the front, then spaces, cut at the end.
pub proof fn padded_text_is_text_and_spaces(b: Seq<u8>, n: int, k: int)
    requires
        0 <= k < n,
    ensures
        padded(b, n).len() == n,
        padded(b, n)[k] == (if k < b.len() {
            b[k]
        } else {
            0x20
        }),
{
}

/// An I&M0 record carries the identity, each field at its offset: vendor, order number, serial
/// number, hardware revision, the four parts of the software revision, revision counter,
/// profile, the I&M version 1.1 and the supported mask.
pub proof fn the_identity_reads_back(vendor_id: u16, im0: Im0, supported: u16)
    ensures
        ({
            let r = im0_record(vendor_id, im0, supported);
            let (order, serial) = (
                utf8::encode_utf8(im0.order_id@),
                utf8::encode_utf8(im0.serial_number@),
            );
            let rev = im0.software_revision;
            &&& r.len() == 60
            &&& bytes::be16(r, 0) == 0x0020
            &&& bytes::be16(r, 2) == 56
            &&& r[4] == 1 && r[5] == 0
            &&& bytes::be16(r, 6) == vendor_id
            &&& forall|k: int|
                0 <= k < 20 ==> #[trigger] r[8 + k] == (if k < order.len() {
                    order[k]
                } else {
                    0x20
                })
            &&& forall|k: int|
                0 <= k < 16 ==> #[trigger] r[28 + k] == (if k < serial.len() {
                    serial[k]
                } else {
                    0x20
                })
            &&& bytes::be16(r, 44) == im0.hardware_revision
            &&& r[46] == rev.prefix as u32 % 0x100
            &&& r[47] == rev.functional
            &&& r[48] == rev.bug_fix
            &&& r[49] == rev.internal
            &&& bytes::be16(r, 50) == im0.revision_counter
            &&& bytes::be16(r, 52) == im0.profile_id
            &&& bytes::be16(r, 54) == im0.profile_specific_type
            &&& r[56] == 1 && r[57] == 1
            &&& bytes::be16(r, 58) == supported
        }),
{
    let r = im0_record(vendor_id, im0, supported);
    let h = block::header_bytes(BLOCK_TYPE_IM0, 54);
    let (names, revs) = (im0_names(vendor_id, im0), im0_revisions(im0, supported));
    let (order, serial) = (
        padded(utf8::encode_utf8(im0.order_id@), 20),
        padded(utf8::encode_utf8(im0.serial_number@), 16),
    );
    assert(h.len() == 6 && names.len() == 38);
    assert forall|k: int| 0 <= k < 20 implies #[trigger] r[8 + k] == order[k] by {
        assert(names[2 + k] == order[k]);
        assert(r[8 + k] == names[2 + k]);
    }
    assert forall|k: int| 0 <= k < 16 implies #[trigger] r[28 + k] == serial[k] by {
        assert(names[22 + k] == serial[k]);
        assert(r[28 + k] == names[22 + k]);
    }
    assert(r[0] == h[0] && r[1] == h[1] && r[2] == h[2] && r[3] == h[3] && r[4] == h[4] && r[5]
        == h[5]);
    assert(r[6] == names[0] && r[7] == names[1]);
    lemma_revisions(im0, supported);
    assert(r[44] == revs[0] && r[45] == revs[1] && r[46] == revs[2] && r[47] == revs[3] && r[48]
        == revs[4] && r[49] == revs[5] && r[50] == revs[6] && r[51] == revs[7] && r[52] == revs[8]
        && r[53] == revs[9] && r[54] == revs[10] && r[55] == revs[11] && r[56] == revs[12]
        && r[57] == revs[13] && r[58] == revs[14] && r[59] == revs[15]);
}

proof fn lemma_revisions(im0: Im0, supported: u16)
    ensures
        ({
            let (s, rev) = (im0_revisions(im0, supported), im0.software_revision);
            &&& s.len() == 16
            &&& bytes::be16(s, 0) == im0.hardware_revision
            &&& s[2] == rev.prefix as u32 % 0x100
            &&& s[3] == rev.functional
            &&& s[4] == rev.bug_fix
            &&& s[5] == rev.internal
            &&& bytes::be16(s, 6) == im0.revision_counter
            &&& bytes::be16(s, 8) == im0.profile_id
            &&& bytes::be16(s, 10) == im0.profile_specific_type
            &&& s[12] == 1 && s[13] == 1
            &&& bytes::be16(s, 14) == supported
        }),
{
}

/// Devices of different revisions, counters, profiles or vendors do not answer the same record.
pub proof fn different_identities_have_different_records(
    v: u16,
    a: Im0,
    w: u16,
    b: Im0,
    supported: u16,
)
    requires
        im0_record(v, a, supported) == im0_record(w, b, supported),
        a.fault() is None,
        b.fault() is None,
    ensures
        v == w,
        a.hardware_revision == b.hardware_revision,
        a.software_revision == b.software_revision,
        a.revision_counter == b.revision_counter,
        a.profile_id == b.profile_id,
        a.profile_specific_type == b.profile_specific_type,
{
    the_identity_reads_back(v, a, supported);
    the_identity_reads_back(w, b, supported);
    let (x, y) = (a.software_revision.prefix, b.software_revision.prefix);
    assert(x as u32 % 0x100 == x as u32 && y as u32 % 0x100 == y as u32);
}

/// The writable records: under which index, block type and body length each stands. No other
/// index is one.
pub proof fn records_have_their_shapes(index: u16)
    ensures
        index == 0xAFF1 ==> record_shape(index) == Some((0x0021u16, 54int)),
        index == 0xAFF2 ==> record_shape(index) == Some((0x0022u16, 16int)),
        index == 0xAFF3 ==> record_shape(index) == Some((0x0023u16, 54int)),
        index < 0xAFF1 || index > 0xAFF3 ==> record_shape(index) is None,
        INDEX_IM0 == 0xAFF0,
        IM_SUPPORTED_DAP == 0x000E,
{
}

/// A written record is refused unless it is one version 1.0 block of its index' type with a body
/// of its index' length.
pub proof fn only_records_of_their_shape_are_written(index: u16, record: Seq<u8>)
    ensures
        record_fault(index, record) is None <==> {
            let len = if index == 0xAFF2 {
                16int
            } else {
                54
            };
            &&& 0xAFF1 <= index <= 0xAFF3
            &&& record.len() >= 6 + len
            &&& bytes::be16(record, 0) == index - 0xAFF1 + 0x0021
            &&& bytes::be16(record, 2) == len + 2
            &&& record[4] == 1
            &&& record[5] == 0
        },
        record_fault(index, record) is None ==> BlockHeader::spec_parse(record)->Ok_0.1
            == record.subrange(
            6,
            if index == 0xAFF2 {
                22
            } else {
                60
            },
        ),
{
}

/// Trimming cuts spaces and NULs off the end and nothing else.
pub proof fn trimming_cuts_spaces_and_nuls(s: Seq<char>)
    ensures
        ({
            let t = trimmed_text(s);
            &&& t.len() <= s.len()
            &&& t == s.take(t.len() as int)
            &&& t.len() > 0 ==> t.last() != ' ' && t.last() != '\0'
            &&& forall|k: int| t.len() <= k < s.len() ==> #[trigger] s[k] == ' ' || s[k] == '\0'
        }),
    decreases s.len(),
{
    if s.len() > 0 && (s.last() == '\0' || s.last() == ' ') {
        let (front, t) = (s.drop_last(), trimmed_text(s));
        trimming_cuts_spaces_and_nuls(front);
        assert(front.take(t.len() as int) =~= s.take(t.len() as int));
        assert forall|k: int| t.len() <= k < s.len() implies #[trigger] s[k] == ' ' || s[k]
            == '\0' by {
            if k < front.len() {
                assert(front[k] == s[k]);
            }
        }
    } else {
        assert(s.take(s.len() as int) =~= s);
    }
}

/// What an identity is refused for, first of all: characters outside ASCII or too many of them
/// in the order number, then in the serial number, then the revision's letter.
pub proof fn identities_are_refused_for_their_fields(im0: Im0)
    ensures
        ({
            let (o, s) = (im0.order_id@, im0.serial_number@);
            let order = utf8::is_ascii_chars(o) && utf8::encode_utf8(o).len() <= 20;
            let serial = utf8::is_ascii_chars(s) && utf8::encode_utf8(s).len() <= 16;
            let c = im0.software_revision.prefix;
            let letter = c == 'V' || c == 'R' || c == 'P' || c == 'U' || c == 'T';
            &&& im0.fault() is None <==> order && serial && letter
            &&& order && serial && !letter ==> im0.fault() == Some(ImError::BadPrefix(c))
            &&& !utf8::is_ascii_chars(o) ==> im0.fault() == Some(
                ImError::NotAscii { field: "order_id" },
            )
            &&& order && !utf8::is_ascii_chars(s) ==> im0.fault() == Some(
                ImError::NotAscii { field: "serial_number" },
            )
        }),
{
}

/// A device that was given no identity answers as "pnio device" of hardware revision 1 and
/// software revision V0.1.0, without serial number, counter or profile.
pub proof fn a_device_without_identity_answers_a_default(vendor_id: u16, im0: Im0, supported: u16)
    requires
        call_ensures(<Im0 as Default>::default, (), im0),
    ensures
        ({
            let r = im0_record(vendor_id, im0, supported);
            &&& im0.order_id@ == "pnio device"@
            &&& forall|k: int| 0 <= k < 16 ==> #[trigger] r[28 + k] == 0x20
            &&& bytes::be16(r, 44) == 1
            &&& r[46] == 0x56 && r[47] == 0 && r[48] == 1 && r[49] == 0
            &&& bytes::be16(r, 50) == 0 && bytes::be16(r, 52) == 0 && bytes::be16(r, 54) == 0
            &&& im0.fault() is None
        }),
{
    the_identity_reads_back(vendor_id, im0, supported);
    assert(im0.serial_number@ =~= Seq::empty());
    assert(utf8::encode_utf8(im0.serial_number@).len() == 0);
    assert('V' as u32 % 0x100 == 0x56);
}

/// A store is loaded as it was stored; a file that is missing or of another length than the
/// three records together gives blank records.
pub proof fn stores_are_loaded_as_stored(stored: ImStore, file: Option<Vec<u8>>, s: ImStore)
    requires
        stored.spec_image().len() == 124,
        call_ensures(ImStore::load, (file,), s),
    ensures
        file matches Some(data) && data@ == stored.spec_image() ==> s.spec_image()
            == stored.spec_image(),
        file is None || file->0@.len() != 124 ==> s.spec_image().len() == 124 && forall|k: int|
            0 <= k < 124 ==> #[trigger] s.spec_image()[k] == 0x20,
{
}

} // verus!
