//! Reading the text ids of a rendered document back: the texts that it refers to, and those that
//! it defines.

use vstd::prelude::*;

use crate::config;
use crate::config::FieldRef;
use crate::data::FieldType;
use crate::gsdml::tags::{self, inert};
use crate::gsdml::template;
use crate::gsdml::texts;
use crate::gsdml::{self, GsdmlMeta, TextView};
use crate::im;
use crate::text;

verus! {

// ---------------------------------------------------------------------------------
// Reading
// ---------------------------------------------------------------------------------

/// What the value of an attribute is to a text.
pub enum Attribute {
    /// The id of a text that is referred to: `TextId` in any element but `Text`.
    Refers,
    /// The id of a text that is defined: `TextId` in an element `Text`.
    Defines,
    /// Nothing.
    Other,
}

/// Text ids, in the order in which they were read.
pub struct Ids {
    /// Those referred to.
    pub refers: Seq<Seq<char>>,
    /// Those defined.
    pub defines: Seq<Seq<char>>,
}

impl Ids {
    /// With one more that is referred to.
    pub open spec fn refer(self, id: Seq<char>) -> Ids {
        Ids { refers: self.refers.push(id), ..self }
    }

    /// With one more that is defined.
    pub open spec fn define(self, id: Seq<char>) -> Ids {
        Ids { defines: self.defines.push(id), ..self }
    }

    /// With those of `texts` referred to.
    pub open spec fn refer_all(self, texts: Seq<TextView>) -> Ids {
        Ids { refers: self.refers + ids_of(texts), ..self }
    }

    /// With those of `texts` defined.
    pub open spec fn define_all(self, texts: Seq<TextView>) -> Ids {
        Ids { defines: self.defines + ids_of(texts), ..self }
    }
}

/// The ids of texts.
pub open spec fn ids_of(texts: Seq<TextView>) -> Seq<Seq<char>> {
    texts.map_values(|t: TextView| t.id)
}

/// Whether `s` ends with `t`.
pub open spec fn ends_with(s: Seq<char>, t: Seq<char>) -> bool {
    s.len() >= t.len() && s.skip(s.len() - t.len()) == t
}

/// What an attribute is to a text, by what leads up to its value.
pub open spec fn attribute_of(lead: Seq<char>) -> Attribute {
    if ends_with(lead, "<Text TextId="@) {
        Attribute::Defines
    } else if ends_with(lead, " TextId="@) {
        Attribute::Refers
    } else {
        Attribute::Other
    }
}

/// A reader of a document, one character after the other.
pub struct Reader {
    /// Whether the value of an attribute is being read.
    pub quoted: bool,
    /// The attribute whose value is being read.
    pub attribute: Attribute,
    /// What was read since the last quote.
    pub text: Seq<char>,
    /// The text ids read so far.
    pub ids: Ids,
}

impl Reader {
    /// A reader that has read nothing.
    pub open spec fn start() -> Reader {
        Reader {
            quoted: false,
            attribute: Attribute::Other,
            text: Seq::empty(),
            ids: Ids { refers: Seq::empty(), defines: Seq::empty() },
        }
    }

    /// The reader behind one more character: a quote begins or ends the value of an attribute.
    pub open spec fn step(self, c: char) -> Reader {
        if c != '"' {
            Reader { text: self.text.push(c), ..self }
        } else if !self.quoted {
            Reader {
                quoted: true,
                attribute: attribute_of(self.text),
                text: Seq::empty(),
                ..self
            }
        } else {
            Reader {
                quoted: false,
                attribute: Attribute::Other,
                text: Seq::empty(),
                ids: match self.attribute {
                    Attribute::Refers => self.ids.refer(self.text),
                    Attribute::Defines => self.ids.define(self.text),
                    Attribute::Other => self.ids,
                },
            }
        }
    }

    /// The reader behind `s`.
    #[verifier::opaque]
    pub open spec fn read(self, s: Seq<char>) -> Reader
        decreases s.len(),
    {
        if s.len() == 0 {
            self
        } else {
            self.read(s.drop_last()).step(s.last())
        }
    }

    /// Whether no value is being read, and these ids were.
    spec fn outside(self, ids: Ids) -> bool {
        !self.quoted && self.ids == ids
    }

    /// Whether a value that is no text id is being read, and these ids were read before.
    spec fn within(self, ids: Ids) -> bool {
        self.quoted && self.attribute is Other && self.ids == ids
    }

    /// Whether the text id `id` was read so far, and these ids before.
    spec fn naming(self, attribute: Attribute, id: Seq<char>, ids: Ids) -> bool {
        self.quoted && self.attribute == attribute && self.text == id && self.ids == ids
    }
}

/// The text ids of a document.
pub open spec fn ids_in(doc: Seq<char>) -> Ids {
    Reader::start().read(doc).ids
}

/// Reading one text behind another.
broadcast proof fn lemma_read_join(r: Reader, a: Seq<char>, b: Seq<char>)
    ensures
        #[trigger] r.read(a + b) == r.read(a).read(b),
    decreases b.len(),
{
    reveal_with_fuel(Reader::read, 2);
    if b.len() == 0 {
        assert(a + b =~= a);
    } else {
        assert((a + b).drop_last() =~= a + b.drop_last());
        lemma_read_join(r, a, b.drop_last());
    }
}

/// Reading a text without quotes.
proof fn lemma_read_unquoted(r: Reader, s: Seq<char>)
    requires
        forall|k: int| 0 <= k < s.len() ==> #[trigger] s[k] != '"',
    ensures
        r.read(s) == (Reader { text: r.text + s, ..r }),
    decreases s.len(),
{
    reveal_with_fuel(Reader::read, 2);
    if s.len() == 0 {
        assert(r.text + s =~= r.text);
    } else {
        let before = s.drop_last();
        assert forall|k: int| 0 <= k < before.len() implies #[trigger] before[k] != '"' by {
            assert(before[k] == s[k]);
        }
        lemma_read_unquoted(r, before);
        assert(r.text + s =~= (r.text + before).push(s.last()));
    }
}

broadcast proof fn lemma_read_inert(r: Reader, s: Seq<char>)
    requires
        inert(s),
    ensures
        #[trigger] r.read(s) == (Reader { text: r.text + s, ..r }),
{
    reveal(inert);
    lemma_read_unquoted(r, s);
}

// ---------------------------------------------------------------------------------
// Reading up to a quote
// ---------------------------------------------------------------------------------

/// Whether no quote stands in `s` from offset `i` on, up to `j`.
spec fn unquoted(s: Seq<char>, i: int, j: int) -> bool {
    forall|k: int| i <= k < j ==> #[trigger] s[k] != '"'
}

/// Whether ` TextId=` stands in `s` at offset `i`.
spec fn text_id_at(s: Seq<char>, i: int) -> bool {
    s[i] == ' ' && s[i + 1] == 'T' && s[i + 2] == 'e' && s[i + 3] == 'x' && s[i + 4] == 't' && s[i
        + 5] == 'I' && s[i + 6] == 'd' && s[i + 7] == '='
}

proof fn lemma_unread(r: Reader, s: Seq<char>)
    ensures
        r.read(s.take(0)) == r,
{
    reveal_with_fuel(Reader::read, 2);
}

proof fn lemma_up_to_a_quote(r: Reader, s: Seq<char>, i: int, j: int)
    requires
        0 <= i <= j < s.len(),
        unquoted(s, i, j),
        s[j] == '"',
    ensures
        ({
            let before = r.read(s.take(i));
            r.read(s.take(j + 1)) == (Reader {
                text: before.text + s.subrange(i, j),
                ..before
            }).step('"')
        }),
{
    reveal_with_fuel(Reader::read, 2);
    let x = s.subrange(i, j);
    assert(s.take(j + 1).drop_last() =~= s.take(i) + x);
    lemma_read_join(r, s.take(i), x);
    assert forall|k: int| 0 <= k < x.len() implies #[trigger] x[k] != '"' by {
        assert(x[k] == s[i + k]);
    }
    lemma_read_unquoted(r.read(s.take(i)), x);
}

/// Behind the last quote.
proof fn lemma_to_the_end(r: Reader, s: Seq<char>, i: int)
    requires
        0 <= i <= s.len(),
        unquoted(s, i, s.len() as int),
    ensures
        ({
            let before = r.read(s.take(i));
            r.read(s) == (Reader {
                text: before.text + s.subrange(i, s.len() as int),
                ..before
            })
        }),
{
    let x = s.subrange(i, s.len() as int);
    assert(s =~= s.take(i) + x);
    lemma_read_join(r, s.take(i), x);
    assert forall|k: int| 0 <= k < x.len() implies #[trigger] x[k] != '"' by {
        assert(x[k] == s[i + k]);
    }
    lemma_read_unquoted(r.read(s.take(i)), x);
}

/// A quote at `b` ends a value.
proof fn lemma_close(r: Reader, s: Seq<char>, i: int, b: int)
    requires
        0 <= i <= b < s.len(),
        r.read(s.take(i)).quoted,
        unquoted(s, i, b),
        s[b] == '"',
    ensures
        ({
            let before = r.read(s.take(i));
            let after = r.read(s.take(b + 1));
            let value = before.text + s.subrange(i, b);
            &&& after.text.len() == 0
            &&& after.outside(
                match before.attribute {
                    Attribute::Refers => before.ids.refer(value),
                    Attribute::Defines => before.ids.define(value),
                    Attribute::Other => before.ids,
                },
            )
        }),
{
    lemma_up_to_a_quote(r, s, i, b);
}

/// A quote at `a` begins a value that is no text id.
proof fn lemma_begin_value(r: Reader, s: Seq<char>, i: int, a: int)
    requires
        0 <= i <= a - 3,
        a < s.len(),
        !r.read(s.take(i)).quoted,
        unquoted(s, i, a),
        s[a] == '"',
        s[a - 3] != 'I' || s[a - 2] != 'd',
    ensures
        r.read(s.take(a + 1)).within(r.read(s.take(i)).ids),
{
    lemma_up_to_a_quote(r, s, i, a);
    reveal_strlit("<Text TextId=");
    reveal_strlit(" TextId=");
    let lead = r.read(s.take(i)).text + s.subrange(i, a);
    let n = lead.len() as int;
    assert(lead[n - 3] == s[a - 3] && lead[n - 2] == s[a - 2]);
    if ends_with(lead, "<Text TextId="@) {
        assert(lead.skip(n - 13)[10] == 'I' && lead.skip(n - 13)[11] == 'd');
    }
    if ends_with(lead, " TextId="@) {
        assert(lead.skip(n - 8)[5] == 'I' && lead.skip(n - 8)[6] == 'd');
    }
}

/// A quote at `a` begins the id of a text that is referred to.
proof fn lemma_begin_reference(r: Reader, s: Seq<char>, i: int, a: int)
    requires
        0 <= i <= a - 8,
        a < s.len(),
        !r.read(s.take(i)).quoted,
        unquoted(s, i, a),
        s[a] == '"',
        text_id_at(s, a - 8),
        if i <= a - 13 {
            s[a - 13] != '<' || s[a - 12] != 'T'
        } else {
            r.read(s.take(i)).text.len() == 0
        },
    ensures
        r.read(s.take(a + 1)).naming(Attribute::Refers, Seq::empty(), r.read(s.take(i)).ids),
{
    lemma_up_to_a_quote(r, s, i, a);
    reveal_strlit("<Text TextId=");
    reveal_strlit(" TextId=");
    let lead = r.read(s.take(i)).text + s.subrange(i, a);
    let n = lead.len() as int;
    assert(lead.skip(n - 8) =~= s.subrange(a - 8, a));
    assert(s.subrange(a - 8, a) =~= " TextId="@);
    if ends_with(lead, "<Text TextId="@) {
        assert(lead.skip(n - 13)[0] == '<' && lead.skip(n - 13)[1] == 'T');
        assert(lead[n - 13] == s[a - 13] && lead[n - 12] == s[a - 12]);
    }
}

/// An attribute whose value stands from `a` to `b` and is no text id.
proof fn lemma_attribute(r: Reader, s: Seq<char>, i: int, a: int, b: int)
    requires
        0 <= i <= a - 3,
        a < b < s.len(),
        !r.read(s.take(i)).quoted,
        unquoted(s, i, a),
        s[a] == '"',
        s[a - 3] != 'I' || s[a - 2] != 'd',
        unquoted(s, a + 1, b),
        s[b] == '"',
    ensures
        r.read(s.take(b + 1)).outside(r.read(s.take(i)).ids),
        r.read(s.take(b + 1)).text.len() == 0,
{
    lemma_begin_value(r, s, i, a);
    lemma_close(r, s, a + 1, b);
}

/// A reference to the text whose id stands from `a` to `b`.
proof fn lemma_reference(r: Reader, s: Seq<char>, i: int, a: int, b: int)
    requires
        0 <= i <= a - 8,
        a < b < s.len(),
        !r.read(s.take(i)).quoted,
        unquoted(s, i, a),
        s[a] == '"',
        text_id_at(s, a - 8),
        if i <= a - 13 {
            s[a - 13] != '<' || s[a - 12] != 'T'
        } else {
            r.read(s.take(i)).text.len() == 0
        },
        unquoted(s, a + 1, b),
        s[b] == '"',
    ensures
        r.read(s.take(b + 1)).outside(r.read(s.take(i)).ids.refer(s.subrange(a + 1, b))),
        r.read(s.take(b + 1)).text.len() == 0,
{
    lemma_begin_reference(r, s, i, a);
    lemma_close(r, s, a + 1, b);
    assert(Seq::<char>::empty() + s.subrange(a + 1, b) =~= s.subrange(a + 1, b));
}

// ---------------------------------------------------------------------------------
// The fixed parts: each lemma says what reading one of them leads to, by the offsets of its
// quotes
// ---------------------------------------------------------------------------------

proof fn lemma_prolog(r: Reader)
    requires
        !r.quoted,
    ensures
        r.read(template::PROLOG@).within(r.ids),
{
    let s = template::PROLOG@;
    reveal_strlit(r#"<?xml version="1.0" encoding="utf-8"?>
<ISO15745Profile xmlns="http://www.profibus.com/GSDML/2003/11/DeviceProfile" xmlns:xsi="http://www.w3.org/2001/XMLSchema-instance" xsi:schemaLocation="http://www.profibus.com/GSDML/2003/11/DeviceProfile ..\xsd\GSDML-DeviceProfile-V2.4.xsd">
  <ProfileHeader>
    <ProfileIdentification>PROFINET Device Profile</ProfileIdentification>
    <ProfileRevision>1.00</ProfileRevision>
    <ProfileName>Device Profile for PROFINET Devices</ProfileName>
    <ProfileSource>PROFIBUS Nutzerorganisation e. V. (PNO)</ProfileSource>
    <ProfileClassID>Device</ProfileClassID>
    <ISO15745Reference>
      <ISO15745Part>4</ISO15745Part>
      <ISO15745Edition>1</ISO15745Edition>
      <ProfileTechnology>GSDML</ProfileTechnology>
    </ISO15745Reference>
  </ProfileHeader>
  <ProfileBody>
    <DeviceIdentity VendorID="0x"#);
    lemma_unread(r, s);
    lemma_attribute(r, s, 0, 14, 18);
    lemma_attribute(r, s, 19, 29, 35);
    lemma_attribute(r, s, 36, 62, 114);
    lemma_attribute(r, s, 115, 126, 168);
    lemma_attribute(r, s, 169, 189, 277);
    lemma_begin_value(r, s, 278, 847);
    lemma_to_the_end(r, s, 848);
}

proof fn lemma_device_id(r: Reader)
    requires
        r.within(r.ids),
    ensures
        r.read(template::DEVICE_ID@).within(r.ids),
{
    let s = template::DEVICE_ID@;
    reveal_strlit(r#"" DeviceID="0x"#);
    lemma_unread(r, s);
    lemma_close(r, s, 0, 0);
    lemma_begin_value(r, s, 1, 11);
    lemma_to_the_end(r, s, 12);
}

proof fn lemma_vendor_name(r: Reader)
    requires
        r.within(r.ids),
    ensures
        r.read(template::VENDOR_NAME@).within(r.ids.refer("T_InfoText"@)),
{
    let s = template::VENDOR_NAME@;
    reveal_strlit(r#"">
      <InfoText TextId="T_InfoText"/>
      <VendorName Value=""#);
    reveal_strlit("T_InfoText");
    lemma_unread(r, s);
    lemma_close(r, s, 0, 0);
    lemma_reference(r, s, 1, 26, 37);
    assert(s.subrange(27, 37) =~= "T_InfoText"@);
    lemma_begin_value(r, s, 38, 65);
    lemma_to_the_end(r, s, 66);
}

proof fn lemma_family(r: Reader)
    requires
        r.within(r.ids),
    ensures
        r.read(template::FAMILY@).within(r.ids),
{
    let s = template::FAMILY@;
    reveal_strlit(r#""/>
    </DeviceIdentity>
    <DeviceFunction>
      <Family MainFamily="I/O" ProductFamily=""#);
    lemma_unread(r, s);
    lemma_close(r, s, 0, 0);
    lemma_attribute(r, s, 1, 72, 76);
    lemma_begin_value(r, s, 77, 92);
    lemma_to_the_end(r, s, 93);
}

proof fn lemma_slots(r: Reader)
    requires
        r.within(r.ids),
    ensures
        r.read(template::SLOTS@).within(r.ids),
{
    let s = template::SLOTS@;
    reveal_strlit(r#""/>
    </DeviceFunction>
    <ApplicationProcess>
      <DeviceAccessPointList>
        <DeviceAccessPointItem ID="DAP1" PNIO_Version="V2.3" PhysicalSlots="0.."#);
    lemma_unread(r, s);
    lemma_close(r, s, 0, 0);
    lemma_attribute(r, s, 1, 115, 120);
    lemma_attribute(r, s, 121, 135, 140);
    lemma_begin_value(r, s, 141, 156);
    lemma_to_the_end(r, s, 157);
}

proof fn lemma_interval(r: Reader)
    requires
        r.within(r.ids),
    ensures
        r.read(template::INTERVAL@).within(r.ids),
{
    let s = template::INTERVAL@;
    reveal_strlit(r#"" ModuleIdentNumber="0x00000001" MinDeviceInterval=""#);
    lemma_unread(r, s);
    lemma_close(r, s, 0, 0);
    lemma_attribute(r, s, 1, 20, 31);
    lemma_begin_value(r, s, 32, 51);
    lemma_to_the_end(r, s, 52);
}

proof fn lemma_station(r: Reader)
    requires
        r.within(r.ids),
    ensures
        r.read(template::STATION@).within(r.ids),
{
    let s = template::STATION@;
    reveal_strlit(r#"" DNS_CompatibleName=""#);
    lemma_unread(r, s);
    lemma_close(r, s, 0, 0);
    lemma_begin_value(r, s, 1, 21);
    lemma_to_the_end(r, s, 22);
}

proof fn lemma_dap_vendor(r: Reader)
    requires
        r.within(r.ids),
    ensures
        r.read(template::DAP_VENDOR@).within(r.ids.refer("T_DAP_Name"@).refer("T_DAP_Info"@)),
{
    let s = template::DAP_VENDOR@;
    reveal_strlit(r#"" FixedInSlots="0" ObjectUUID_LocalIndex="1" MultipleWriteSupported="true" DeviceAccessSupported="false" CheckDeviceID_Allowed="true" NameOfStationNotTransferable="false">
          <ModuleInfo>
            <Name TextId="T_DAP_Name"/>
            <InfoText TextId="T_DAP_Info"/>
            <VendorName Value=""#);
    reveal_strlit("T_DAP_Name");
    reveal_strlit("T_DAP_Info");
    lemma_unread(r, s);
    lemma_close(r, s, 0, 0);
    lemma_attribute(r, s, 1, 15, 17);
    lemma_attribute(r, s, 18, 41, 43);
    lemma_attribute(r, s, 44, 68, 73);
    lemma_attribute(r, s, 74, 97, 103);
    lemma_attribute(r, s, 104, 127, 132);
    lemma_attribute(r, s, 133, 163, 169);
    lemma_reference(r, s, 170, 220, 231);
    assert(s.subrange(221, 231) =~= "T_DAP_Name"@);
    lemma_reference(r, s, 232, 264, 275);
    assert(s.subrange(265, 275) =~= "T_DAP_Info"@);
    lemma_begin_value(r, s, 276, 309);
    lemma_to_the_end(r, s, 310);
}

proof fn lemma_order_number(r: Reader)
    requires
        !r.quoted,
    ensures
        r.read(template::ORDER_NUMBER@).within(r.ids),
{
    let s = template::ORDER_NUMBER@;
    reveal_strlit(r#"            <OrderNumber Value=""#);
    lemma_unread(r, s);
    lemma_begin_value(r, s, 0, 31);
    lemma_to_the_end(r, s, 32);
}

proof fn lemma_hardware(r: Reader)
    requires
        r.within(r.ids),
    ensures
        r.read(template::HARDWARE@).within(r.ids),
{
    let s = template::HARDWARE@;
    reveal_strlit(r#""/>
            <HardwareRelease Value=""#);
    lemma_unread(r, s);
    lemma_close(r, s, 0, 0);
    lemma_begin_value(r, s, 1, 39);
    lemma_to_the_end(r, s, 40);
}

proof fn lemma_software(r: Reader)
    requires
        r.within(r.ids),
    ensures
        r.read(template::SOFTWARE@).within(r.ids),
{
    let s = template::SOFTWARE@;
    reveal_strlit(r#""/>
            <SoftwareRelease Value=""#);
    lemma_unread(r, s);
    lemma_close(r, s, 0, 0);
    lemma_begin_value(r, s, 1, 39);
    lemma_to_the_end(r, s, 40);
}

proof fn lemma_identity_end(r: Reader)
    requires
        r.within(r.ids),
    ensures
        r.read(template::IDENTITY_END@).outside(r.ids),
{
    let s = template::IDENTITY_END@;
    reveal_strlit(r#""/>"#);
    lemma_unread(r, s);
    lemma_close(r, s, 0, 0);
    lemma_to_the_end(r, s, 1);
}

proof fn lemma_max_input(r: Reader)
    requires
        !r.quoted,
    ensures
        r.read(template::MAX_INPUT@).within(r.ids),
{
    let s = template::MAX_INPUT@;
    reveal_strlit(r#"
          </ModuleInfo>
          <IOConfigData MaxInputLength=""#);
    lemma_unread(r, s);
    lemma_begin_value(r, s, 0, 64);
    lemma_to_the_end(r, s, 65);
}

proof fn lemma_max_output(r: Reader)
    requires
        r.within(r.ids),
    ensures
        r.read(template::MAX_OUTPUT@).within(r.ids),
{
    let s = template::MAX_OUTPUT@;
    reveal_strlit(r#"" MaxOutputLength=""#);
    lemma_unread(r, s);
    lemma_close(r, s, 0, 0);
    lemma_begin_value(r, s, 1, 18);
    lemma_to_the_end(r, s, 19);
}

proof fn lemma_max_data(r: Reader)
    requires
        r.within(r.ids),
    ensures
        r.read(template::MAX_DATA@).within(r.ids),
{
    let s = template::MAX_DATA@;
    reveal_strlit(r#"" MaxDataLength=""#);
    lemma_unread(r, s);
    lemma_close(r, s, 0, 0);
    lemma_begin_value(r, s, 1, 16);
    lemma_to_the_end(r, s, 17);
}

proof fn lemma_useable(r: Reader)
    requires
        r.within(r.ids),
    ensures
        r.read(template::USEABLE@).outside(r.ids),
{
    let s = template::USEABLE@;
    reveal_strlit(r#""/>
          <UseableModules>
"#);
    lemma_unread(r, s);
    lemma_close(r, s, 0, 0);
    lemma_to_the_end(r, s, 1);
}

proof fn lemma_module_ref(r: Reader)
    requires
        !r.quoted,
    ensures
        r.read(template::MODULE_REF@).within(r.ids),
{
    let s = template::MODULE_REF@;
    reveal_strlit(r#"            <ModuleItemRef ModuleItemTarget="M"#);
    lemma_unread(r, s);
    lemma_begin_value(r, s, 0, 44);
    lemma_to_the_end(r, s, 45);
}

proof fn lemma_allowed_slot(r: Reader)
    requires
        r.within(r.ids),
    ensures
        r.read(template::ALLOWED_SLOT@).within(r.ids),
{
    let s = template::ALLOWED_SLOT@;
    reveal_strlit(r#"" AllowedInSlots=""#);
    lemma_unread(r, s);
    lemma_close(r, s, 0, 0);
    lemma_begin_value(r, s, 1, 17);
    lemma_to_the_end(r, s, 18);
}

proof fn lemma_send_clock(r: Reader)
    requires
        !r.quoted,
    ensures
        r.read(template::SEND_CLOCK@).within(
            r.ids.refer("T_DAP_Name"@).refer("T_DAP_Info"@).refer("T_Interface"@),
        ),
{
    let s = template::SEND_CLOCK@;
    reveal_strlit(r#"          </UseableModules>
          <VirtualSubmoduleList>
            <VirtualSubmoduleItem ID="DAP1_SM" SubmoduleIdentNumber="0x00000001" MayIssueProcessAlarm="false" Writeable_IM_Records="1 2 3">
              <IOData/>
              <ModuleInfo>
                <Name TextId="T_DAP_Name"/>
                <InfoText TextId="T_DAP_Info"/>
              </ModuleInfo>
            </VirtualSubmoduleItem>
          </VirtualSubmoduleList>
          <SystemDefinedSubmoduleList>
            <InterfaceSubmoduleItem ID="DAP1_IF" SubslotNumber="32768" TextId="T_Interface" SubmoduleIdentNumber="0x00008000" SupportedRT_Classes="RT_CLASS_1" SupportedProtocols="" DCP_HelloSupported="false" PTP_BoundarySupported="false" DCP_BoundarySupported="false" DelayMeasurementSupported="false">
              <ApplicationRelations StartupMode="Advanced">
                <TimingProperties SendClock=""#);
    reveal_strlit("T_DAP_Name");
    reveal_strlit("T_DAP_Info");
    reveal_strlit("T_Interface");
    lemma_unread(r, s);
    lemma_attribute(r, s, 0, 98, 106);
    lemma_attribute(r, s, 107, 129, 140);
    lemma_attribute(r, s, 141, 163, 169);
    lemma_attribute(r, s, 170, 192, 198);
    lemma_reference(r, s, 199, 281, 292);
    assert(s.subrange(282, 292) =~= "T_DAP_Name"@);
    lemma_reference(r, s, 293, 329, 340);
    assert(s.subrange(330, 340) =~= "T_DAP_Info"@);
    lemma_attribute(r, s, 341, 520, 528);
    lemma_attribute(r, s, 529, 544, 550);
    lemma_reference(r, s, 551, 559, 571);
    assert(s.subrange(560, 571) =~= "T_Interface"@);
    lemma_attribute(r, s, 572, 594, 605);
    lemma_attribute(r, s, 606, 627, 638);
    lemma_attribute(r, s, 639, 659, 660);
    lemma_attribute(r, s, 661, 681, 687);
    lemma_attribute(r, s, 688, 711, 717);
    lemma_attribute(r, s, 718, 741, 747);
    lemma_attribute(r, s, 748, 775, 781);
    lemma_attribute(r, s, 782, 832, 841);
    lemma_begin_value(r, s, 842, 888);
    lemma_to_the_end(r, s, 889);
}

proof fn lemma_modules(r: Reader)
    requires
        r.within(r.ids),
    ensures
        r.read(template::MODULES@).outside(r.ids.refer("T_Port1"@)),
{
    let s = template::MODULES@;
    reveal_strlit(r#"" ReductionRatio="1 2 4 8 16 32 64 128 256 512"/>
              </ApplicationRelations>
            </InterfaceSubmoduleItem>
            <PortSubmoduleItem ID="DAP1_P1" SubslotNumber="32769" TextId="T_Port1" SubmoduleIdentNumber="0x00008001" MaxPortTxDelay="160" MaxPortRxDelay="350">
              <MAUTypeList>
                <MAUTypeItem Value="16"/>
              </MAUTypeList>
            </PortSubmoduleItem>
          </SystemDefinedSubmoduleList>
        </DeviceAccessPointItem>
      </DeviceAccessPointList>
      <ModuleList>
"#);
    reveal_strlit("T_Port1");
    lemma_unread(r, s);
    lemma_close(r, s, 0, 0);
    lemma_attribute(r, s, 1, 17, 46);
    lemma_attribute(r, s, 47, 160, 168);
    lemma_attribute(r, s, 169, 184, 190);
    lemma_reference(r, s, 191, 199, 207);
    assert(s.subrange(200, 207) =~= "T_Port1"@);
    lemma_attribute(r, s, 208, 230, 241);
    lemma_attribute(r, s, 242, 258, 262);
    lemma_attribute(r, s, 263, 279, 283);
    lemma_attribute(r, s, 284, 349, 352);
    lemma_to_the_end(r, s, 353);
}

proof fn lemma_module(r: Reader)
    requires
        !r.quoted,
    ensures
        r.read(template::MODULE@).within(r.ids),
{
    let s = template::MODULE@;
    reveal_strlit(r#"        <ModuleItem ID="M"#);
    lemma_unread(r, s);
    lemma_begin_value(r, s, 0, 23);
    lemma_to_the_end(r, s, 24);
}

proof fn lemma_module_ident(r: Reader)
    requires
        r.within(r.ids),
    ensures
        r.read(template::MODULE_IDENT@).within(r.ids),
{
    let s = template::MODULE_IDENT@;
    reveal_strlit(r#"" ModuleIdentNumber="0x"#);
    lemma_unread(r, s);
    lemma_close(r, s, 0, 0);
    lemma_begin_value(r, s, 1, 20);
    lemma_to_the_end(r, s, 21);
}

proof fn lemma_module_name(r: Reader)
    requires
        r.within(r.ids),
    ensures
        r.read(template::MODULE_NAME@).naming(Attribute::Refers, "M"@, r.ids),
{
    let s = template::MODULE_NAME@;
    reveal_strlit(r#"">
          <ModuleInfo>
            <Name TextId="M"#);
    reveal_strlit("M");
    lemma_unread(r, s);
    lemma_close(r, s, 0, 0);
    lemma_begin_reference(r, s, 1, 51);
    lemma_to_the_end(r, s, 52);
    assert(s.subrange(52, 53) =~= "M"@);
}

proof fn lemma_module_info(r: Reader)
    requires
        r.quoted,
        r.attribute is Refers,
    ensures
        r.read(template::MODULE_INFO@).naming(
            Attribute::Refers,
            "M"@,
            r.ids.refer(r.text + "_Name"@),
        ),
{
    let s = template::MODULE_INFO@;
    reveal_strlit(r#"_Name"/>
            <InfoText TextId="M"#);
    reveal_strlit("_Name");
    reveal_strlit("M");
    lemma_unread(r, s);
    lemma_close(r, s, 0, 5);
    assert(s.subrange(0, 5) =~= "_Name"@);
    lemma_begin_reference(r, s, 6, 38);
    lemma_to_the_end(r, s, 39);
    assert(s.subrange(39, 40) =~= "M"@);
}

proof fn lemma_module_identity(r: Reader)
    requires
        r.quoted,
        r.attribute is Refers,
    ensures
        r.read(template::MODULE_IDENTITY@).outside(r.ids.refer(r.text + "_Info"@)),
{
    let s = template::MODULE_IDENTITY@;
    reveal_strlit(r#"_Info"/>
"#);
    reveal_strlit("_Info");
    lemma_unread(r, s);
    lemma_close(r, s, 0, 5);
    assert(s.subrange(0, 5) =~= "_Info"@);
    lemma_to_the_end(r, s, 6);
}

proof fn lemma_module_submodule(r: Reader)
    requires
        !r.quoted,
    ensures
        r.read(template::MODULE_SUBMODULE@).within(r.ids),
{
    let s = template::MODULE_SUBMODULE@;
    reveal_strlit(r#"
          </ModuleInfo>
          <VirtualSubmoduleList>
            <VirtualSubmoduleItem ID="M"#);
    lemma_unread(r, s);
    lemma_begin_value(r, s, 0, 95);
    lemma_to_the_end(r, s, 96);
}

proof fn lemma_io_data(r: Reader)
    requires
        r.within(r.ids),
    ensures
        r.read(template::IO_DATA@).outside(r.ids),
{
    let s = template::IO_DATA@;
    reveal_strlit(r#"_SM" SubmoduleIdentNumber="0x00000001" MayIssueProcessAlarm="false">
              <IOData>
"#);
    lemma_unread(r, s);
    lemma_close(r, s, 0, 3);
    lemma_attribute(r, s, 4, 26, 37);
    lemma_attribute(r, s, 38, 60, 66);
    lemma_to_the_end(r, s, 67);
}

proof fn lemma_direction_open_end(r: Reader)
    requires
        !r.quoted,
    ensures
        r.read(template::DIRECTION_OPEN_END@).outside(r.ids),
{
    let s = template::DIRECTION_OPEN_END@;
    reveal_strlit(r#" Consistency="All items consistency">
"#);
    lemma_unread(r, s);
    lemma_attribute(r, s, 0, 13, 35);
    lemma_to_the_end(r, s, 36);
}

proof fn lemma_scalar(r: Reader)
    requires
        !r.quoted,
    ensures
        r.read(template::SCALAR@).within(r.ids),
{
    let s = template::SCALAR@;
    reveal_strlit(r#"                  <DataItem DataType=""#);
    lemma_unread(r, s);
    lemma_begin_value(r, s, 0, 37);
    lemma_to_the_end(r, s, 38);
}

proof fn lemma_scalar_id(r: Reader)
    requires
        r.within(r.ids),
    ensures
        r.read(template::SCALAR_ID@).naming(Attribute::Refers, Seq::empty(), r.ids),
{
    let s = template::SCALAR_ID@;
    reveal_strlit(r#"" TextId=""#);
    lemma_unread(r, s);
    lemma_close(r, s, 0, 0);
    lemma_begin_reference(r, s, 1, 9);
    lemma_to_the_end(r, s, 10);
    assert(s.subrange(10, 10) =~= Seq::empty());
}

proof fn lemma_bits(r: Reader)
    requires
        !r.quoted,
    ensures
        r.read(template::BITS@).naming(Attribute::Refers, Seq::empty(), r.ids),
{
    let s = template::BITS@;
    reveal_strlit(r#"                  <DataItem DataType="Unsigned8" UseAsBits="true" TextId=""#);
    lemma_unread(r, s);
    lemma_attribute(r, s, 0, 37, 47);
    lemma_attribute(r, s, 48, 59, 64);
    lemma_begin_reference(r, s, 65, 73);
    lemma_to_the_end(r, s, 74);
    assert(s.subrange(74, 74) =~= Seq::empty());
}

proof fn lemma_bits_opened(r: Reader)
    requires
        r.quoted,
        r.attribute is Refers,
    ensures
        r.read(template::BITS_OPENED@).outside(r.ids.refer(r.text)),
{
    let s = template::BITS_OPENED@;
    reveal_strlit(r#"">
"#);
    lemma_unread(r, s);
    lemma_close(r, s, 0, 0);
    assert(r.text + s.subrange(0, 0) =~= r.text);
    lemma_to_the_end(r, s, 1);
}

proof fn lemma_bit(r: Reader)
    requires
        !r.quoted,
    ensures
        r.read(template::BIT@).within(r.ids),
{
    let s = template::BIT@;
    reveal_strlit(r#"                    <BitDataItem BitOffset=""#);
    lemma_unread(r, s);
    lemma_begin_value(r, s, 0, 43);
    lemma_to_the_end(r, s, 44);
}

proof fn lemma_module_close(r: Reader)
    requires
        !r.quoted,
    ensures
        r.read(template::MODULE_CLOSE@).naming(Attribute::Refers, "M"@, r.ids),
{
    let s = template::MODULE_CLOSE@;
    reveal_strlit(r#"              </IOData>
              <ModuleInfo>
                <Name TextId="M"#);
    reveal_strlit("M");
    lemma_unread(r, s);
    lemma_begin_reference(r, s, 0, 80);
    lemma_to_the_end(r, s, 81);
    assert(s.subrange(81, 82) =~= "M"@);
}

proof fn lemma_module_close_info(r: Reader)
    requires
        r.quoted,
        r.attribute is Refers,
    ensures
        r.read(template::MODULE_CLOSE_INFO@).naming(
            Attribute::Refers,
            "M"@,
            r.ids.refer(r.text + "_Name"@),
        ),
{
    let s = template::MODULE_CLOSE_INFO@;
    reveal_strlit(r#"_Name"/>
                <InfoText TextId="M"#);
    reveal_strlit("_Name");
    reveal_strlit("M");
    lemma_unread(r, s);
    lemma_close(r, s, 0, 5);
    assert(s.subrange(0, 5) =~= "_Name"@);
    lemma_begin_reference(r, s, 6, 42);
    lemma_to_the_end(r, s, 43);
    assert(s.subrange(43, 44) =~= "M"@);
}

proof fn lemma_module_end(r: Reader)
    requires
        r.quoted,
        r.attribute is Refers,
    ensures
        r.read(template::MODULE_END@).outside(r.ids.refer(r.text + "_Info"@)),
{
    let s = template::MODULE_END@;
    reveal_strlit(r#"_Info"/>
              </ModuleInfo>
            </VirtualSubmoduleItem>
          </VirtualSubmoduleList>
        </ModuleItem>
"#);
    reveal_strlit("_Info");
    lemma_unread(r, s);
    lemma_close(r, s, 0, 5);
    assert(s.subrange(0, 5) =~= "_Info"@);
    lemma_to_the_end(r, s, 6);
}

/// The end of an empty element ends a value.
proof fn lemma_element_end(r: Reader)
    requires
        r.quoted,
    ensures
        r.read(template::TEXT_END@).outside(
            match r.attribute {
                Attribute::Refers => r.ids.refer(r.text),
                Attribute::Defines => r.ids.define(r.text),
                Attribute::Other => r.ids,
            },
        ),
        template::TEXT_END@ == template::DAP_IDENTITY@,
        template::TEXT_END@ == template::MODULE_REF_END@,
        template::TEXT_END@ == template::SCALAR_END@,
        template::TEXT_END@ == template::BIT_END@,
        template::BIT_ID@ == template::SCALAR_ID@,
{
    let s = template::TEXT_END@;
    reveal_strlit(r#""/>
"#);
    lemma_unread(r, s);
    lemma_close(r, s, 0, 0);
    assert(r.text + s.subrange(0, 0) =~= r.text);
    lemma_to_the_end(r, s, 1);
}

proof fn lemma_text(r: Reader)
    requires
        !r.quoted,
    ensures
        r.read(template::TEXT@).naming(Attribute::Defines, Seq::empty(), r.ids),
{
    let s = template::TEXT@;
    reveal_strlit(r#"          <Text TextId=""#);
    reveal_strlit("<Text TextId=");
    lemma_unread(r, s);
    lemma_up_to_a_quote(r, s, 0, 23);
    let lead = r.text + s.subrange(0, 23);
    assert(lead.skip(lead.len() - 13) =~= "<Text TextId="@);
    lemma_to_the_end(r, s, 24);
    assert(s.subrange(24, 24) =~= Seq::empty());
}

proof fn lemma_text_value(r: Reader)
    requires
        r.quoted,
        r.attribute is Defines,
    ensures
        r.read(template::TEXT_VALUE@).within(r.ids.define(r.text)),
{
    let s = template::TEXT_VALUE@;
    reveal_strlit(r#"" Value=""#);
    lemma_unread(r, s);
    lemma_close(r, s, 0, 0);
    assert(r.text + s.subrange(0, 0) =~= r.text);
    lemma_begin_value(r, s, 1, 8);
    lemma_to_the_end(r, s, 9);
}

/// The parts without an attribute.
proof fn lemma_tags(r: Reader)
    requires
        !r.quoted,
    ensures
        r.read(template::DIRECTION_OPEN@).outside(r.ids),
        r.read(template::DIRECTION_CLOSE@).outside(r.ids),
        r.read(template::DIRECTION_CLOSE_END@).outside(r.ids),
        r.read(template::BITS_CLOSE@).outside(r.ids),
        r.read(template::TEXTS@).outside(r.ids),
        r.read(template::EPILOG@).outside(r.ids),
        r.read("Input"@).outside(r.ids),
        r.read("Output"@).outside(r.ids),
{
    reveal_strlit(r#"                <"#);
    reveal_strlit(r#"                </"#);
    reveal_strlit(r#">
"#);
    reveal_strlit(r#"                  </DataItem>
"#);
    reveal_strlit(r#"      </ModuleList>
      <ExternalTextList>
        <PrimaryLanguage>
"#);
    reveal_strlit(r#"        </PrimaryLanguage>
      </ExternalTextList>
    </ApplicationProcess>
  </ProfileBody>
</ISO15745Profile>
"#);
    reveal_strlit("Input");
    reveal_strlit("Output");
    lemma_read_unquoted(r, template::DIRECTION_OPEN@);
    lemma_read_unquoted(r, template::DIRECTION_CLOSE@);
    lemma_read_unquoted(r, template::DIRECTION_CLOSE_END@);
    lemma_read_unquoted(r, template::BITS_CLOSE@);
    lemma_read_unquoted(r, template::TEXTS@);
    lemma_read_unquoted(r, template::EPILOG@);
    lemma_read_unquoted(r, "Input"@);
    lemma_read_unquoted(r, "Output"@);
}

/// An id that is read from its start.
proof fn lemma_id(r: Reader, id: Seq<char>)
    requires
        r.text.len() == 0,
        inert(id),
    ensures
        r.read(id) == (Reader { text: id, ..r }),
{
    lemma_read_inert(r, id);
    assert(r.text + id =~= id);
}

// ---------------------------------------------------------------------------------
// The document up to its modules
// ---------------------------------------------------------------------------------

#[verifier::spinoff_prover]
proof fn lemma_identity(r: Reader, im0: im::Im0)
    requires
        !r.quoted,
        im0.fault() is None,
    ensures
        r.read(gsdml::identity_text(im0)).outside(r.ids),
{
    broadcast use lemma_read_join, lemma_read_inert;

    tags::lemma_escaped_inert(im0.order_id@);
    tags::lemma_dec_inert(im0.hardware_revision as int);
    tags::lemma_revision_inert(im0);
    let r1 = r.read(template::ORDER_NUMBER@);
    lemma_order_number(r);
    let r2 = r1.read(gsdml::escaped(im0.order_id@));
    let r3 = r2.read(template::HARDWARE@);
    lemma_hardware(r2);
    let r4 = r3.read(text::dec_text(im0.hardware_revision as int));
    let r5 = r4.read(template::SOFTWARE@);
    lemma_software(r4);
    let r6 = r5.read(gsdml::revision_text(im0));
    lemma_identity_end(r6);
}

#[verifier::spinoff_prover]
proof fn lemma_device_identity(r: Reader, cfg: config::ConfigView, meta: GsdmlMeta)
    requires
        !r.quoted,
    ensures
        r.read(gsdml::device_identity(cfg, meta)).within(r.ids.refer("T_InfoText"@)),
{
    broadcast use lemma_read_join, lemma_read_inert;

    tags::lemma_hex_inert(cfg.vendor_id as int, 4);
    tags::lemma_hex_inert(cfg.device_id as int, 4);
    tags::lemma_escaped_inert(meta.vendor_name@);
    tags::lemma_escaped_inert(meta.product_family@);
    lemma_prolog(r);
    let r1 = r.read(template::PROLOG@).read(text::upper_hex_text(cfg.vendor_id as int, 4));
    lemma_device_id(r1);
    let r2 = r1.read(template::DEVICE_ID@).read(text::upper_hex_text(cfg.device_id as int, 4));
    lemma_vendor_name(r2);
    let r3 = r2.read(template::VENDOR_NAME@).read(gsdml::escaped(meta.vendor_name@));
    lemma_family(r3);
}

#[verifier::spinoff_prover]
proof fn lemma_access_point(r: Reader, cfg: config::ConfigView, meta: GsdmlMeta)
    requires
        r.within(r.ids),
    ensures
        r.read(gsdml::access_point(cfg, meta)).within(
            r.ids.refer("T_DAP_Name"@).refer("T_DAP_Info"@),
        ),
{
    broadcast use lemma_read_join, lemma_read_inert;

    let last = text::dec_text(cfg.submodules.last().slot.0 as int);
    let interval = text::dec_text(cfg.min_device_interval as int);
    tags::lemma_dec_inert(cfg.submodules.last().slot.0 as int);
    tags::lemma_dec_inert(cfg.min_device_interval as int);
    tags::lemma_escaped_inert(cfg.station_name);
    tags::lemma_escaped_inert(meta.vendor_name@);
    lemma_slots(r);
    let r1 = r.read(template::SLOTS@).read(last);
    lemma_interval(r1);
    let r2 = r1.read(template::INTERVAL@).read(interval);
    lemma_station(r2);
    let r3 = r2.read(template::STATION@).read(gsdml::escaped(cfg.station_name));
    lemma_dap_vendor(r3);
}

#[verifier::spinoff_prover]
proof fn lemma_access_point_data(r: Reader, cfg: config::ConfigView)
    requires
        cfg.wf(),
        r.within(r.ids),
    ensures
        r.read(gsdml::access_point_data(cfg)).outside(r.ids),
{
    broadcast use lemma_read_join, lemma_read_inert;

    let n = cfg.submodules.len() as int;
    let (input, output) = (
        config::input_cr_bytes(cfg.submodules, n),
        config::output_cr_bytes(cfg.submodules, n),
    );
    config::lemma_cr_bytes_bound(cfg.submodules, n);
    tags::lemma_dec_inert(input);
    tags::lemma_dec_inert(output);
    tags::lemma_dec_inert(input + output);
    lemma_element_end(r);
    let r1 = r.read(template::DAP_IDENTITY@);
    lemma_identity(r1, cfg.im0);
    let r2 = r1.read(gsdml::identity_text(cfg.im0));
    lemma_max_input(r2);
    let r3 = r2.read(template::MAX_INPUT@).read(text::dec_text(input));
    lemma_max_output(r3);
    let r4 = r3.read(template::MAX_OUTPUT@).read(text::dec_text(output));
    lemma_max_data(r4);
    let r5 = r4.read(template::MAX_DATA@).read(text::dec_text(input + output));
    lemma_useable(r5);
}

#[verifier::spinoff_prover]
proof fn lemma_ref_lines(r: Reader, subs: Seq<config::SubmoduleView>, k: int)
    requires
        !r.quoted,
    ensures
        r.read(gsdml::ref_lines(subs, k)).outside(r.ids),
    decreases k,
{
    broadcast use lemma_read_join, lemma_read_inert;

    if k <= 0 {
        tags::lemma_nothing();
    } else {
        let n = subs[k - 1].slot.0;
        let slot = text::dec_text(n as int);
        tags::lemma_dec_inert(n as int);
        lemma_ref_lines(r, subs, k - 1);
        let r1 = r.read(gsdml::ref_lines(subs, k - 1));
        lemma_module_ref(r1);
        let r2 = r1.read(template::MODULE_REF@).read(slot);
        lemma_allowed_slot(r2);
        let r3 = r2.read(template::ALLOWED_SLOT@).read(slot);
        lemma_element_end(r3);
        assert(r1.read(gsdml::ref_line(n)) == r3.read(template::MODULE_REF_END@));
    }
}

/// The texts that the document refers to before its modules.
pub open spec fn device_references() -> Seq<Seq<char>> {
    seq![
        "T_InfoText"@,
        "T_DAP_Name"@,
        "T_DAP_Info"@,
        "T_DAP_Name"@,
        "T_DAP_Info"@,
        "T_Interface"@,
        "T_Port1"@,
    ]
}

#[verifier::spinoff_prover]
proof fn lemma_front(cfg: config::ConfigView, meta: GsdmlMeta)
    requires
        cfg.wf(),
    ensures
        Reader::start().read(tags::front(cfg, meta)).outside(
            Ids { refers: device_references(), defines: Seq::empty() },
        ),
{
    broadcast use lemma_read_join, lemma_read_inert;

    let n = cfg.submodules.len() as int;
    let r = Reader::start();
    lemma_device_identity(r, cfg, meta);
    let r1 = r.read(gsdml::device_identity(cfg, meta));
    lemma_access_point(r1, cfg, meta);
    let r2 = r1.read(gsdml::access_point(cfg, meta));
    lemma_access_point_data(r2, cfg);
    let r3 = r2.read(gsdml::access_point_data(cfg));
    lemma_ref_lines(r3, cfg.submodules, n);
    let r4 = r3.read(gsdml::ref_lines(cfg.submodules, n));
    lemma_send_clock(r4);
    tags::lemma_send_clocks_inert(cfg.min_device_interval);
    let r5 = r4.read(template::SEND_CLOCK@).read(gsdml::send_clocks(cfg.min_device_interval));
    lemma_modules(r5);
    let r6 = r5.read(template::MODULES@);
    assert(r6.ids.refers =~= device_references());
    assert(r6 == r.read(tags::front(cfg, meta)));
}

// ---------------------------------------------------------------------------------
// Modules
// ---------------------------------------------------------------------------------

#[verifier::spinoff_prover]
proof fn lemma_refer_all_join(ids: Ids, a: Seq<TextView>, b: Seq<TextView>)
    ensures
        ids.refer_all(a).refer_all(b) == ids.refer_all(a + b),
{
    assert(ids.refers + ids_of(a) + ids_of(b) =~= ids.refers + ids_of(a + b));
}

/// The lines of a field refer to its texts, in the order of the table.
#[verifier::spinoff_prover]
proof fn lemma_field(r: Reader, n: u16, prefix: Seq<char>, refs: Seq<FieldRef>, i: int)
    requires
        !r.quoted,
        0 <= i < refs.len(),
        inert(prefix),
    ensures
        r.read(gsdml::field_lines(n, prefix, refs, i)).outside(
            r.ids.refer_all(gsdml::field_texts(n, prefix, refs, i)),
        ),
{
    broadcast use lemma_read_join, lemma_read_inert;

    let texts = gsdml::field_texts(n, prefix, refs, i);
    tags::lemma_ids_inert(n, prefix, i);
    tags::lemma_nothing();
    if refs[i].ty != FieldType::Bool {
        tags::lemma_names_inert(refs[i].ty);
        let id = gsdml::scalar_id(n, prefix, i);
        lemma_scalar(r);
        let r1 = r.read(template::SCALAR@).read(gsdml::data_type_name(refs[i].ty));
        lemma_scalar_id(r1);
        lemma_id(r1.read(template::SCALAR_ID@), id);
        let r2 = r1.read(template::SCALAR_ID@).read(id);
        lemma_element_end(r2);
        assert(r.ids.refers.push(id) =~= r.ids.refers + ids_of(texts));
    } else {
        let (first, id) = (gsdml::bits_id(n, prefix, i), gsdml::bit_id(n, prefix, i));
        let r1 = if gsdml::joins_previous(refs, i) {
            r.read(Seq::empty())
        } else {
            r.read(gsdml::bits_line(n, prefix, i))
        };
        if !gsdml::joins_previous(refs, i) {
            lemma_bits(r);
            lemma_id(r.read(template::BITS@), first);
            let named = r.read(template::BITS@).read(first);
            lemma_bits_opened(named);
        }
        lemma_bit(r1);
        tags::lemma_dec_inert(refs[i].bit as int);
        let r2 = r1.read(template::BIT@).read(text::dec_text(refs[i].bit as int));
        lemma_scalar_id(r2);
        lemma_id(r2.read(template::SCALAR_ID@), id);
        let r3 = r2.read(template::SCALAR_ID@).read(id);
        lemma_element_end(r3);
        let r4 = r3.read(template::BIT_END@);
        lemma_tags(r4);
        assert(r4.ids.refers =~= r.ids.refers + ids_of(texts));
    }
}

#[verifier::spinoff_prover]
proof fn lemma_fields(r: Reader, n: u16, prefix: Seq<char>, refs: Seq<FieldRef>, k: int)
    requires
        !r.quoted,
        0 <= k <= refs.len(),
        inert(prefix),
    ensures
        r.read(gsdml::lines_of(n, prefix, refs, k)).outside(
            r.ids.refer_all(gsdml::texts_of(n, prefix, refs, k)),
        ),
    decreases k,
{
    broadcast use lemma_read_join, lemma_read_inert;

    if k == 0 {
        tags::lemma_nothing();
        assert(r.ids.refers + ids_of(Seq::empty()) =~= r.ids.refers);
    } else {
        lemma_fields(r, n, prefix, refs, k - 1);
        let r1 = r.read(gsdml::lines_of(n, prefix, refs, k - 1));
        lemma_field(r1, n, prefix, refs, k - 1);
        lemma_refer_all_join(
            r.ids,
            gsdml::texts_of(n, prefix, refs, k - 1),
            gsdml::field_texts(n, prefix, refs, k - 1),
        );
    }
}

#[verifier::spinoff_prover]
proof fn lemma_direction(r: Reader, n: u16, input: bool, refs: Seq<FieldRef>)
    requires
        !r.quoted,
    ensures
        ({
            let (tag, prefix) = if input {
                ("Input"@, "In"@)
            } else {
                ("Output"@, "Out"@)
            };
            r.read(gsdml::direction_text(n, tag, prefix, refs)).outside(
                r.ids.refer_all(gsdml::texts_of(n, prefix, refs, refs.len() as int)),
            )
        }),
{
    broadcast use lemma_read_join, lemma_read_inert;

    let (tag, prefix) = if input {
        ("Input"@, "In"@)
    } else {
        ("Output"@, "Out"@)
    };
    if refs.len() == 0 {
        tags::lemma_nothing();
        assert(r.ids.refers + ids_of(Seq::empty()) =~= r.ids.refers);
    } else {
        tags::lemma_direction_names();
        lemma_tags(r);
        let r1 = r.read(template::DIRECTION_OPEN@);
        lemma_tags(r1);
        let r2 = r1.read(tag);
        lemma_direction_open_end(r2);
        let r3 = r2.read(template::DIRECTION_OPEN_END@);
        lemma_fields(r3, n, prefix, refs, refs.len() as int);
        let r4 = r3.read(gsdml::lines_of(n, prefix, refs, refs.len() as int));
        lemma_tags(r4);
        let r5 = r4.read(template::DIRECTION_CLOSE@);
        lemma_tags(r5);
        let r6 = r5.read(tag);
        lemma_tags(r6);
    }
}

#[verifier::spinoff_prover]
proof fn lemma_module_head(r: Reader, cfg: config::ConfigView, n: u16)
    requires
        cfg.wf(),
        !r.quoted,
    ensures
        r.read(gsdml::module_head(cfg, n)).outside(
            r.ids.refer(gsdml::module_id(n, "_Name"@)).refer(gsdml::module_id(n, "_Info"@)),
        ),
{
    broadcast use lemma_read_join, lemma_read_inert;

    let slot = text::dec_text(n as int);
    tags::lemma_dec_inert(n as int);
    tags::lemma_hex_inert(0x100 + n, 8);
    lemma_module(r);
    let r1 = r.read(template::MODULE@).read(slot);
    lemma_module_ident(r1);
    let r2 = r1.read(template::MODULE_IDENT@).read(text::upper_hex_text(0x100 + n, 8));
    lemma_module_name(r2);
    let r3 = r2.read(template::MODULE_NAME@).read(slot);
    lemma_module_info(r3);
    let r4 = r3.read(template::MODULE_INFO@).read(slot);
    lemma_module_identity(r4);
    let r5 = r4.read(template::MODULE_IDENTITY@);
    lemma_identity(r5, cfg.im0);
    let r6 = r5.read(gsdml::identity_text(cfg.im0));
    lemma_module_submodule(r6);
    let r7 = r6.read(template::MODULE_SUBMODULE@).read(slot);
    lemma_io_data(r7);
}

#[verifier::spinoff_prover]
proof fn lemma_module_tail(r: Reader, n: u16)
    requires
        !r.quoted,
    ensures
        r.read(gsdml::module_tail(n)).outside(
            r.ids.refer(gsdml::module_id(n, "_Name"@)).refer(gsdml::module_id(n, "_Info"@)),
        ),
{
    broadcast use lemma_read_join, lemma_read_inert;

    let slot = text::dec_text(n as int);
    tags::lemma_dec_inert(n as int);
    lemma_module_close(r);
    let r1 = r.read(template::MODULE_CLOSE@).read(slot);
    lemma_module_close_info(r1);
    let r2 = r1.read(template::MODULE_CLOSE_INFO@).read(slot);
    lemma_module_end(r2);
}

/// A module refers to its texts, and to its name and description once more.
#[verifier::spinoff_prover]
proof fn lemma_module_text(r: Reader, cfg: config::ConfigView, s: config::SubmoduleView)
    requires
        cfg.wf(),
        !r.quoted,
    ensures
        r.read(gsdml::module_text(cfg, s)).outside(
            r.ids.refer_all(gsdml::module_texts(s) + gsdml::module_names(s)),
        ),
{
    broadcast use lemma_read_join;

    let n = s.slot.0;
    let (i, o) = (config::field_refs(s.inputs), config::field_refs(s.outputs));
    let names = gsdml::module_names(s);
    let ins = gsdml::texts_of(n, "In"@, i, i.len() as int);
    let outs = gsdml::texts_of(n, "Out"@, o, o.len() as int);
    lemma_module_head(r, cfg, n);
    let r1 = r.read(gsdml::module_head(cfg, n));
    assert(r1.ids.refers =~= r.ids.refer_all(names).refers);
    lemma_direction(r1, n, true, i);
    let r2 = r1.read(gsdml::direction_text(n, "Input"@, "In"@, i));
    lemma_refer_all_join(r.ids, names, ins);
    lemma_direction(r2, n, false, o);
    let r3 = r2.read(gsdml::direction_text(n, "Output"@, "Out"@, o));
    lemma_refer_all_join(r.ids, names + ins, outs);
    lemma_module_tail(r3, n);
    let r4 = r3.read(gsdml::module_tail(n));
    assert(r4.ids.refers =~= r3.ids.refer_all(names).refers);
    lemma_refer_all_join(r.ids, names + ins + outs, names);
}

/// The texts that the first `k` modules refer to, in order.
pub open spec fn module_references(cfg: config::ConfigView, k: int) -> Seq<TextView>
    decreases k,
{
    if k <= 0 {
        Seq::empty()
    } else {
        let s = cfg.submodules[k - 1];
        module_references(cfg, k - 1) + (gsdml::module_texts(s) + gsdml::module_names(s))
    }
}

#[verifier::spinoff_prover]
proof fn lemma_modules_text(r: Reader, cfg: config::ConfigView, k: int)
    requires
        cfg.wf(),
        !r.quoted,
        0 <= k <= cfg.submodules.len(),
    ensures
        r.read(gsdml::modules_text(cfg, k)).outside(r.ids.refer_all(module_references(cfg, k))),
    decreases k,
{
    broadcast use lemma_read_join, lemma_read_inert;

    if k == 0 {
        tags::lemma_nothing();
        assert(r.ids.refers + ids_of(Seq::empty()) =~= r.ids.refers);
    } else {
        let s = cfg.submodules[k - 1];
        lemma_modules_text(r, cfg, k - 1);
        lemma_module_text(r.read(gsdml::modules_text(cfg, k - 1)), cfg, s);
        lemma_refer_all_join(
            r.ids,
            module_references(cfg, k - 1),
            gsdml::module_texts(s) + gsdml::module_names(s),
        );
    }
}

/// What the modules refer to is what they have texts for.
#[verifier::spinoff_prover]
proof fn lemma_module_references(cfg: config::ConfigView, k: int, id: Seq<char>)
    ensures
        gsdml::defines(module_references(cfg, k), id) == gsdml::defines(
            gsdml::modules_texts(cfg, k),
            id,
        ),
    decreases k,
{
    if k > 0 {
        let s = cfg.submodules[k - 1];
        let (all, names) = (gsdml::module_texts(s), gsdml::module_names(s));
        lemma_module_references(cfg, k - 1, id);
        texts::lemma_defines_join(module_references(cfg, k - 1), all + names, id);
        texts::lemma_defines_join(all, names, id);
        texts::lemma_defines_join(gsdml::modules_texts(cfg, k - 1), all, id);
        if gsdml::defines(names, id) {
            let j = choose|j: int| 0 <= j < names.len() && (#[trigger] names[j]).id == id;
            assert(all[j] == names[j]);
        }
    }
}

// ---------------------------------------------------------------------------------
// Texts
// ---------------------------------------------------------------------------------

/// The text table defines each of its texts.
#[verifier::spinoff_prover]
proof fn lemma_text_lines(r: Reader, table: Seq<TextView>)
    requires
        !r.quoted,
        tags::all_inert(table),
    ensures
        r.read(gsdml::text_lines(table)).outside(r.ids.define_all(table)),
    decreases table.len(),
{
    broadcast use lemma_read_join, lemma_read_inert;

    if table.len() == 0 {
        tags::lemma_nothing();
        assert(r.ids.defines + ids_of(table) =~= r.ids.defines);
    } else {
        let (before, t) = (table.drop_last(), table.last());
        assert forall|i: int| 0 <= i < before.len() implies inert((#[trigger] before[i]).id)
            && inert(before[i].value) by {
            assert(before[i] == table[i]);
        }
        lemma_text_lines(r, before);
        let r1 = r.read(gsdml::text_lines(before));
        lemma_text(r1);
        lemma_id(r1.read(template::TEXT@), t.id);
        let r2 = r1.read(template::TEXT@).read(t.id);
        lemma_text_value(r2);
        let r3 = r2.read(template::TEXT_VALUE@).read(t.value);
        lemma_element_end(r3);
        assert(r1.read(gsdml::text_line(t)) == r3.read(template::TEXT_END@));
        assert((r.ids.defines + ids_of(before)).push(t.id) =~= r.ids.defines + ids_of(table));
    }
}

/// The text ids in a document.
#[verifier::spinoff_prover]
proof fn lemma_document(cfg: config::ConfigView, meta: GsdmlMeta)
    requires
        cfg.wf(),
    ensures
        ({
            let n = cfg.submodules.len() as int;
            let ids = ids_in(gsdml::document(cfg, meta));
            &&& ids.refers == device_references() + ids_of(module_references(cfg, n))
            &&& ids.defines == ids_of(gsdml::document_texts(cfg, meta))
        }),
{
    broadcast use lemma_read_join;

    let n = cfg.submodules.len() as int;
    let r = Reader::start();
    lemma_front(cfg, meta);
    let r1 = r.read(tags::front(cfg, meta));
    lemma_modules_text(r1, cfg, n);
    let r2 = r1.read(gsdml::modules_text(cfg, n));
    lemma_tags(r2);
    let r3 = r2.read(template::TEXTS@);
    let table = gsdml::document_texts(cfg, meta);
    tags::lemma_document_texts_inert(cfg, meta);
    lemma_text_lines(r3, table);
    let r4 = r3.read(gsdml::text_lines(table));
    lemma_tags(r4);
    assert(r4.ids.defines =~= ids_of(table));
}

/// Whether one of these ids is that of a text in a table.
#[verifier::spinoff_prover]
proof fn lemma_ids_of(table: Seq<TextView>, id: Seq<char>)
    ensures
        ids_of(table).contains(id) == gsdml::defines(table, id),
{
    let ids = ids_of(table);
    if ids.contains(id) {
        let j = choose|j: int| 0 <= j < ids.len() && ids[j] == id;
        assert(table[j].id == id);
    }
    if gsdml::defines(table, id) {
        let j = choose|j: int| 0 <= j < table.len() && (#[trigger] table[j]).id == id;
        assert(ids[j] == id);
    }
}

/// Read back from its characters, a document refers to exactly the texts of the device and of
/// its modules, and defines exactly these, each once: no reference dangles, and no text is
/// without use.
#[verifier::spinoff_prover]
pub proof fn the_document_defines_what_it_refers_to(cfg: config::ConfigView, meta: GsdmlMeta)
    requires
        cfg.wf(),
    ensures
        ({
            let n = cfg.submodules.len() as int;
            let ids = ids_in(gsdml::document(cfg, meta));
            &&& ids.defines == ids_of(gsdml::document_texts(cfg, meta))
            &&& ids.defines.no_duplicates()
            &&& forall|id: Seq<char>| #[trigger]
                ids.refers.contains(id) == (texts::device_refers(id) || texts::modules_refer(
                    cfg,
                    n,
                    id,
                ))
            &&& forall|id: Seq<char>| #[trigger]
                ids.refers.contains(id) == ids.defines.contains(id)
        }),
{
    let n = cfg.submodules.len() as int;
    let ids = ids_in(gsdml::document(cfg, meta));
    let table = gsdml::document_texts(cfg, meta);
    lemma_document(cfg, meta);
    texts::the_text_table_is_exact(cfg, meta);
    assert forall|i: int, j: int|
        0 <= i < j < table.len() implies ids.defines[i] != ids.defines[j] by {
        assert(table[i].id != table[j].id);
    }
    assert forall|id: Seq<char>| #[trigger] ids.refers.contains(id) == (texts::device_refers(id)
        || texts::modules_refer(cfg, n, id)) && ids.refers.contains(id) == ids.defines.contains(
        id,
    ) by {
        let (a, b) = (device_references(), module_references(cfg, n));
        texts::lemma_device_texts(meta);
        texts::lemma_modules_texts(cfg, n);
        lemma_ids_of(table, id);
        lemma_ids_of(b, id);
        lemma_module_references(cfg, n, id);
        lemma_device_references(id);
        lemma_contains_join(a, ids_of(b), id);
        assert(gsdml::defines(table, id) == (texts::device_refers(id) || texts::modules_refer(
            cfg,
            n,
            id,
        )));
        assert(gsdml::defines(gsdml::modules_texts(cfg, n), id) == texts::modules_refer(
            cfg,
            n,
            id,
        ));
    }
}

#[verifier::spinoff_prover]
proof fn lemma_device_references(id: Seq<char>)
    ensures
        device_references().contains(id) == texts::device_refers(id),
{
    let a = device_references();
    assert(a[0] == "T_InfoText"@ && a[1] == "T_DAP_Name"@ && a[2] == "T_DAP_Info"@ && a[5]
        == "T_Interface"@ && a[6] == "T_Port1"@);
}

#[verifier::spinoff_prover]
proof fn lemma_contains_join(a: Seq<Seq<char>>, b: Seq<Seq<char>>, id: Seq<char>)
    ensures
        (a + b).contains(id) == (a.contains(id) || b.contains(id)),
{
    let s = a + b;
    if s.contains(id) {
        let j = choose|j: int| 0 <= j < s.len() && s[j] == id;
        if j < a.len() {
            assert(a[j] == id);
        } else {
            assert(b[j - a.len()] == id);
        }
    }
    if a.contains(id) {
        let j = choose|j: int| 0 <= j < a.len() && a[j] == id;
        assert(s[j] == id);
    }
    if b.contains(id) {
        let j = choose|j: int| 0 <= j < b.len() && b[j] == id;
        assert(s[a.len() + j] == id);
    }
}

} // verus!
