//! UUIDs as DCE-RPC carries them: three integers in the PDU's byte order, then eight bytes.

use vstd::prelude::*;

use crate::bytes;
use crate::rpc::Drep;
use crate::text;

verus! {

/// A UUID `aaaaaaaa-bbbb-cccc-dddd-dddddddddddd`; `data4` holds the last two groups.
#[derive(Debug, Clone, Copy, PartialEq, Eq, Structural)]
pub struct Uuid {
    pub data1: u32,
    pub data2: u16,
    pub data3: u16,
    pub data4: u64,
}

/// Interface of the PNIO device: requests from a controller name it.
#[verifier::allow_in_spec]
pub fn pnio_device_interface() -> Uuid
    returns
        (Uuid { data1: 0xdea0_0001, data2: 0x6c97, data3: 0x11d1, data4: 0x8271_00a0_2442_df7d }),
{
    Uuid { data1: 0xdea0_0001, data2: 0x6c97, data3: 0x11d1, data4: 0x8271_00a0_2442_df7d }
}

/// Interface of the PNIO controller: our own calls name it.
#[verifier::allow_in_spec]
pub fn pnio_controller_interface() -> Uuid
    returns
        (Uuid { data1: 0xdea0_0002, data2: 0x6c97, data3: 0x11d1, data4: 0x8271_00a0_2442_df7d }),
{
    Uuid { data1: 0xdea0_0002, data2: 0x6c97, data3: 0x11d1, data4: 0x8271_00a0_2442_df7d }
}

/// The two 32-bit halves at offset `i`, most significant first.
pub open spec fn be64(b: Seq<u8>, i: int) -> u64 {
    (bytes::be32(b, i) * 0x1_0000_0000 + bytes::be32(b, i + 4)) as u64
}

/// The eight big-endian bytes of `v`.
pub open spec fn be64_bytes(v: u64) -> Seq<u8> {
    bytes::be32_bytes((v / 0x1_0000_0000) as u32) + bytes::be32_bytes((v % 0x1_0000_0000) as u32)
}

/// Whether `s` reads as a UUID: 36 characters, dashes between the groups, digits elsewhere.
pub open spec fn is_uuid_text(s: Seq<char>) -> bool {
    &&& s.len() == 36
    &&& forall|k: int|
        0 <= k < 36 ==> if is_dash_position(k) {
            #[trigger] s[k] == '-'
        } else {
            text::hex_value(s[k]) < 16
        }
}

/// Where the four dashes stand.
pub open spec fn is_dash_position(k: int) -> bool {
    k == 8 || k == 13 || k == 18 || k == 23
}

impl Uuid {
    /// The all-zero UUID.
    #[verifier::allow_in_spec]
    pub fn nil() -> Uuid
        returns
            (Uuid { data1: 0, data2: 0, data3: 0, data4: 0 }),
    {
        Uuid { data1: 0, data2: 0, data3: 0, data4: 0 }
    }

    /// The UUID that stands at offset `i` of `b` in the byte order `drep`.
    pub open spec fn at(b: Seq<u8>, i: int, drep: Drep) -> Uuid {
        Uuid {
            data1: drep.at32(b, i),
            data2: drep.at16(b, i + 4),
            data3: drep.at16(b, i + 6),
            data4: be64(b, i + 8),
        }
    }

    /// The sixteen bytes of the UUID in the byte order `drep`.
    pub open spec fn spec_bytes(self, drep: Drep) -> Seq<u8> {
        drep.bytes32(self.data1) + drep.bytes16(self.data2) + drep.bytes16(self.data3)
            + be64_bytes(self.data4)
    }

    /// The textual form, lower case.
    pub open spec fn text(self) -> Seq<char> {
        text::hex_text(self.data1 as int, 8).push('-') + text::hex_text(self.data2 as int, 4).push('-')
            + text::hex_text(self.data3 as int, 4).push('-') + text::hex_text(
            self.data4 as int / 0x1_0000_0000_0000,
            4,
        ).push('-') + text::hex_text(self.data4 as int % 0x1_0000_0000_0000, 12)
    }

    /// The UUID that the text `s` denotes.
    pub open spec fn of_text(s: Seq<char>) -> Uuid {
        Uuid {
            data1: text::hex_number(s, 0, 8) as u32,
            data2: text::hex_number(s, 9, 4) as u16,
            data3: text::hex_number(s, 14, 4) as u16,
            data4: (text::hex_number(s, 19, 4) * 0x1_0000_0000_0000 + text::hex_number(s, 24, 12)) as u64,
        }
    }

    /// The UUID in the first sixteen bytes of `b`; `None` if there are fewer.
    pub fn read(b: &[u8], drep: Drep) -> (r: Option<Uuid>)
        ensures
            r == if b@.len() < 16 {
                None
            } else {
                Some(Uuid::at(b@, 0, drep))
            },
    {
        if b.len() < 16 {
            return None;
        }
        Some(Uuid::read_at(b, 0, drep))
    }

    /// The UUID at offset `i` of `b`.
    pub fn read_at(b: &[u8], i: usize, drep: Drep) -> (r: Uuid)
        requires
            i + 16 <= b.len(),
        ensures
            r == Uuid::at(b@, i as int, drep),
    {
        let data1: u32 = drep.read32(b, i);
        let data2: u16 = drep.read16(b, i + 4);
        let data3: u16 = drep.read16(b, i + 6);
        let high: u32 = bytes::read_be32(b, i + 8);
        let low: u32 = bytes::read_be32(b, i + 12);
        Uuid { data1, data2, data3, data4: (high as u64) * 0x1_0000_0000 + low as u64 }
    }

    /// Append the sixteen bytes.
    pub fn write(&self, out: &mut Vec<u8>, drep: Drep)
        ensures
            final(out)@ == old(out)@ + self.spec_bytes(drep),
    {
        drep.put_u32(out, self.data1);
        drep.put_u16(out, self.data2);
        drep.put_u16(out, self.data3);
        bytes::put_be32(out, (self.data4 / 0x1_0000_0000) as u32);
        bytes::put_be32(out, (self.data4 % 0x1_0000_0000) as u32);
        assert(out@ =~= old(out)@ + self.spec_bytes(drep));
    }

    /// The PNIO object UUID `dea00000-6c97-11d1-8271-{instance}{device_id}{vendor_id}`.
    pub fn pnio_object(instance: u16, device_id: u16, vendor_id: u16) -> (u: Uuid)
        ensures
            u.data1 == 0xdea0_0000,
            u.data2 == 0x6c97,
            u.data3 == 0x11d1,
            u.data4 == 0x8271_0000_0000_0000 + instance * 0x1_0000_0000 + device_id * 0x1_0000
                + vendor_id,
    {
        Uuid {
            data1: 0xdea0_0000,
            data2: 0x6c97,
            data3: 0x11d1,
            data4: 0x8271_0000_0000_0000u64 + (instance as u64) * 0x1_0000_0000 + (device_id as u64)
                * 0x1_0000 + vendor_id as u64,
        }
    }

    /// The UUID that `s` denotes (hexadecimal digits of either case); `None` if `s` is not
    /// in the form `aaaaaaaa-bbbb-cccc-dddd-dddddddddddd`.
    pub fn parse_str(s: &str) -> (r: Option<Uuid>)
        ensures
            r == if is_uuid_text(s@) {
                Some(Uuid::of_text(s@))
            } else {
                None
            },
    {
        if s.unicode_len() != 36 {
            return None;
        }
        let mut k: usize = 0;
        while k < 36
            invariant
                k <= 36,
                s@.len() == 36,
                forall|j: int|
                    0 <= j < k ==> if is_dash_position(j) {
                        #[trigger] s@[j] == '-'
                    } else {
                        text::hex_value(s@[j]) < 16
                    },
            decreases 36 - k,
        {
            let c: char = s.get_char(k);
            if k == 8 || k == 13 || k == 18 || k == 23 {
                if c != '-' {
                    assert(s@[k as int] != '-');
                    return None;
                }
            } else if text::digit_of(c) >= 16 {
                assert(text::hex_value(s@[k as int]) >= 16);
                return None;
            }
            k = k + 1;
        }
        proof {
            text::lemma_pow16_values();
            assert(text::hex_digits_at(s@, 0, 8));
            assert(text::hex_digits_at(s@, 9, 4));
            assert(text::hex_digits_at(s@, 14, 4));
            assert(text::hex_digits_at(s@, 19, 4));
            assert(text::hex_digits_at(s@, 24, 12));
            text::lemma_hex_number_bound(s@, 19, 4);
            text::lemma_hex_number_bound(s@, 24, 12);
        }
        let data1: u64 = text::number_of(s, 0, 8);
        let data2: u64 = text::number_of(s, 9, 4);
        let data3: u64 = text::number_of(s, 14, 4);
        let high: u64 = text::number_of(s, 19, 4);
        let low: u64 = text::number_of(s, 24, 12);
        Some(
            Uuid {
                data1: data1 as u32,
                data2: data2 as u16,
                data3: data3 as u16,
                data4: high * 0x1_0000_0000_0000 + low,
            },
        )
    }

    /// The textual form, lower case.
    pub fn to_string(&self) -> (s: String)
        ensures
            s@ == self.text(),
    {
        let mut s: String = String::new();
        text::push_hex(&mut s, self.data1 as u64, 8);
        s.append("-");
        text::push_hex(&mut s, self.data2 as u64, 4);
        s.append("-");
        text::push_hex(&mut s, self.data3 as u64, 4);
        s.append("-");
        text::push_hex(&mut s, self.data4 / 0x1_0000_0000_0000, 4);
        s.append("-");
        text::push_hex(&mut s, self.data4 % 0x1_0000_0000_0000, 12);
        proof {
            reveal_strlit("-");
            assert(s@ =~= self.text());
        }
        s
    }
}

/// A UUID written in a byte order reads back in that order.
pub proof fn uuid_round_trip(u: Uuid, drep: Drep, before: Seq<u8>, after: Seq<u8>)
    ensures
        u.spec_bytes(drep).len() == 16,
        Uuid::at(before + u.spec_bytes(drep) + after, before.len() as int, drep) == u,
{
    let b = before + u.spec_bytes(drep) + after;
    let n = before.len() as int;
    let high = (u.data4 / 0x1_0000_0000) as u32;
    let low = (u.data4 % 0x1_0000_0000) as u32;
    let big = Drep { little_endian: false };
    assert(b.subrange(n, n + 4) =~= drep.bytes32(u.data1));
    assert(b.subrange(n + 4, n + 6) =~= drep.bytes16(u.data2));
    assert(b.subrange(n + 6, n + 8) =~= drep.bytes16(u.data3));
    assert(b.subrange(n + 8, n + 12) =~= big.bytes32(high));
    assert(b.subrange(n + 12, n + 16) =~= big.bytes32(low));
    crate::rpc::drep_round_trip_32(drep, u.data1, b, n);
    crate::rpc::drep_round_trip_16(drep, u.data2, b, n + 4);
    crate::rpc::drep_round_trip_16(drep, u.data3, b, n + 6);
    crate::rpc::drep_round_trip_32(big, high, b, n + 8);
    crate::rpc::drep_round_trip_32(big, low, b, n + 12);
}

/// The textual form of a UUID reads back as that UUID.
pub proof fn uuid_text_round_trip(u: Uuid)
    ensures
        is_uuid_text(u.text()),
        Uuid::of_text(u.text()) == u,
{
    text::lemma_pow16_values();
    let s = u.text();
    let g1 = text::hex_text(u.data1 as int, 8);
    let g2 = text::hex_text(u.data2 as int, 4);
    let g3 = text::hex_text(u.data3 as int, 4);
    let high = u.data4 as int / 0x1_0000_0000_0000;
    let low = u.data4 as int % 0x1_0000_0000_0000;
    let g4 = text::hex_text(high, 4);
    let g5 = text::hex_text(low, 12);
    let e = Seq::<char>::empty();
    text::hex_round_trip(u.data1 as int, 8, e, s.skip(8));
    text::hex_round_trip(u.data2 as int, 4, s.take(9), s.skip(13));
    text::hex_round_trip(u.data3 as int, 4, s.take(14), s.skip(18));
    text::hex_round_trip(high, 4, s.take(19), s.skip(23));
    text::hex_round_trip(low, 12, s.take(24), e);
    assert(e + g1 + s.skip(8) =~= s);
    assert(s.take(9) + g2 + s.skip(13) =~= s);
    assert(s.take(14) + g3 + s.skip(18) =~= s);
    assert(s.take(19) + g4 + s.skip(23) =~= s);
    assert(s.take(24) + g5 + e =~= s);
    assert(s[8] == '-' && s[13] == '-' && s[18] == '-' && s[23] == '-');
}

/// The interfaces of the two sides differ in their first part alone.
pub proof fn interfaces_have_their_numbers()
    ensures
        ({
            let (device, controller) = (pnio_device_interface(), pnio_controller_interface());
            &&& device.data1 == 0xDEA0_0001 && controller.data1 == 0xDEA0_0002
            &&& device.data2 == 0x6C97 && controller.data2 == 0x6C97
            &&& device.data3 == 0x11D1 && controller.data3 == 0x11D1
            &&& device.data4 == 0x8271_00A0_2442_DF7D && controller.data4 == device.data4
        }),
        Uuid::nil().data1 == 0 && Uuid::nil().data2 == 0 && Uuid::nil().data3 == 0
            && Uuid::nil().data4 == 0,
{
}

/// The object of a device is told by its instance, device and vendor, in this order.
pub proof fn objects_name_their_device(instance: u16, device_id: u16, vendor_id: u16, u: Uuid)
    requires
        call_ensures(Uuid::pnio_object, (instance, device_id, vendor_id), u),
    ensures
        u.data1 == 0xDEA0_0000 && u.data2 == 0x6C97 && u.data3 == 0x11D1,
        u.data4 / 0x1_0000_0000_0000 == 0x8271,
        u.data4 / 0x1_0000_0000 % 0x1_0000 == instance,
        u.data4 / 0x1_0000 % 0x1_0000 == device_id,
        u.data4 % 0x1_0000 == vendor_id,
{
    let high = 0x8271_0000 + instance;
    assert(u.data4 == high * 0x1_0000_0000 + device_id * 0x1_0000 + vendor_id);
    assert(u.data4 / 0x1_0000_0000 == high);
    assert(u.data4 / 0x1_0000 == high * 0x1_0000 + device_id);
}

/// The first three parts of a UUID stand in the byte order of the PDU, the last always with its
/// most significant byte first.
pub proof fn uuids_stand_part_by_part(b: Seq<u8>, i: int, d: Drep)
    ensures
        ({
            let u = Uuid::at(b, i, d);
            &&& u.data1 == d.at32(b, i) && u.data2 == d.at16(b, i + 4) && u.data3 == d.at16(
                b,
                i + 6,
            )
            &&& u.data4 == bytes::be32(b, i + 8) * 0x1_0000_0000 + bytes::be32(b, i + 12)
        }),
{
}

/// The text of a UUID: its five groups of digits, 8, 4, 4, 4 and 12, between dashes.
pub proof fn uuid_texts_have_five_groups(u: Uuid)
    ensures
        ({
            let s = u.text();
            &&& s.len() == 36
            &&& s[8] == '-' && s[13] == '-' && s[18] == '-' && s[23] == '-'
            &&& text::hex_number(s, 0, 8) == u.data1
            &&& text::hex_number(s, 9, 4) == u.data2
            &&& text::hex_number(s, 14, 4) == u.data3
            &&& text::hex_number(s, 19, 4) == u.data4 / 0x1_0000_0000_0000
            &&& text::hex_number(s, 24, 12) == u.data4 % 0x1_0000_0000_0000
        }),
{
    text::lemma_pow16_values();
    let s = u.text();
    let high = u.data4 as int / 0x1_0000_0000_0000;
    let low = u.data4 as int % 0x1_0000_0000_0000;
    let e = Seq::<char>::empty();
    text::hex_round_trip(u.data1 as int, 8, e, s.skip(8));
    text::hex_round_trip(u.data2 as int, 4, s.take(9), s.skip(13));
    text::hex_round_trip(u.data3 as int, 4, s.take(14), s.skip(18));
    text::hex_round_trip(high, 4, s.take(19), s.skip(23));
    text::hex_round_trip(low, 12, s.take(24), e);
    assert(e + text::hex_text(u.data1 as int, 8) + s.skip(8) =~= s);
    assert(s.take(9) + text::hex_text(u.data2 as int, 4) + s.skip(13) =~= s);
    assert(s.take(14) + text::hex_text(u.data3 as int, 4) + s.skip(18) =~= s);
    assert(s.take(19) + text::hex_text(high, 4) + s.skip(23) =~= s);
    assert(s.take(24) + text::hex_text(low, 12) + e =~= s);
}

} // verus!
