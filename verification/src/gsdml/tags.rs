//! Reading a rendered document back: how many modules it has, and how many bytes of data its
//! items declare.

use vstd::prelude::*;

use crate::config;
use crate::config::FieldRef;
use crate::data::FieldType;
use crate::gsdml::template;
use crate::gsdml::{self, GsdmlMeta, TextView};
use crate::im;
use crate::text;

verus! {

/// Whether `t` stands in `s` at offset `i`.
pub open spec fn stands_at(s: Seq<char>, i: int, t: Seq<char>) -> bool {
    &&& 0 <= i
    &&& i + t.len() <= s.len()
    &&& s.subrange(i, i + t.len()) == t
}

/// What is counted of a document, by the start tags in it.
pub enum Measure {
    /// Its `ModuleItem`s.
    Modules,
    /// The bytes that its `DataItem`s take, each by its data type.
    DataBytes,
}

impl Measure {
    /// What a start tag at offset `i` counts.
    pub open spec fn at(self, s: Seq<char>, i: int) -> int {
        match self {
            Measure::Modules => if stands_at(s, i, "<ModuleItem "@) {
                1
            } else {
                0
            },
            Measure::DataBytes => if stands_at(s, i, "<DataItem DataType=\"Unsigned8\""@) {
                1
            } else if stands_at(s, i, "<DataItem DataType=\"Integer16\""@) || stands_at(
                s,
                i,
                "<DataItem DataType=\"Unsigned16\""@,
            ) {
                2
            } else if stands_at(s, i, "<DataItem DataType=\"Integer32\""@) || stands_at(
                s,
                i,
                "<DataItem DataType=\"Float32\""@,
            ) {
                4
            } else {
                0
            },
        }
    }

    /// What the start tags at the first `k` offsets count.
    pub open spec fn up_to(self, s: Seq<char>, k: int) -> int
        decreases k,
    {
        if k <= 0 {
            0
        } else {
            self.up_to(s, k - 1) + self.at(s, k - 1)
        }
    }

    /// What all of `s` counts.
    pub open spec fn of(self, s: Seq<char>) -> int {
        self.up_to(s, s.len() as int)
    }

    /// The letter that the counted tags begin with.
    pub open spec fn letter(self) -> char {
        match self {
            Measure::Modules => 'M',
            Measure::DataBytes => 'D',
        }
    }

    /// The length of the longest tag that is looked for.
    pub open spec fn span(self) -> int {
        match self {
            Measure::Modules => 12,
            Measure::DataBytes => 31,
        }
    }

    /// Whether no counted tag can begin in `s` and end behind it.
    #[verifier::opaque]
    pub open spec fn closed(self, s: Seq<char>) -> bool {
        forall|i: int|
            #![trigger s[i]]
            0 <= i < s.len() && s.len() - i < self.span() && s[i] == '<' ==> i + 1 < s.len() && s[i
                + 1] != self.letter()
    }
}

/// Whether no tag that begins with `c` begins in `s`.
#[verifier::opaque]
pub open spec fn free(s: Seq<char>, c: char) -> bool {
    forall|i: int|
        #![trigger s[i]]
        0 <= i < s.len() && s[i] == '<' ==> i + 1 < s.len() && s[i + 1] != c
}

/// Whether no tag begins in `s` at all, and no attribute value begins or ends.
#[verifier::opaque]
pub open spec fn inert(s: Seq<char>) -> bool {
    forall|i: int| 0 <= i < s.len() ==> #[trigger] s[i] != '<' && s[i] != '"'
}

/// Where something counts, a tag with the measure's letter begins.
proof fn lemma_counts_at_its_letter(m: Measure, s: Seq<char>, i: int)
    requires
        m.at(s, i) != 0,
    ensures
        0 <= i,
        i + 10 < s.len(),
        s[i] == '<',
        s[i + 1] == m.letter(),
{
    reveal_strlit("<ModuleItem ");
    reveal_strlit("<DataItem DataType=\"Unsigned8\"");
    reveal_strlit("<DataItem DataType=\"Integer16\"");
    reveal_strlit("<DataItem DataType=\"Unsigned16\"");
    reveal_strlit("<DataItem DataType=\"Integer32\"");
    reveal_strlit("<DataItem DataType=\"Float32\"");
    let n = choose|n: int| 11 < n <= s.len() - i && #[trigger] counted_tag(m, s.subrange(i, i + n));
    assert(exists|n: int|
        11 < n <= s.len() - i && #[trigger] counted_tag(m, s.subrange(i, i + n))) by {
        if m is Modules {
            assert(counted_tag(m, s.subrange(i, i + 12)));
        } else if stands_at(s, i, "<DataItem DataType=\"Unsigned16\""@) {
            assert(counted_tag(m, s.subrange(i, i + 31)));
        } else if stands_at(s, i, "<DataItem DataType=\"Float32\""@) {
            assert(counted_tag(m, s.subrange(i, i + 28)));
        } else {
            assert(counted_tag(m, s.subrange(i, i + 30)));
        }
    }
    assert(s.subrange(i, i + n)[0] == s[i]);
    assert(s.subrange(i, i + n)[1] == s[i + 1]);
}

spec fn counted_tag(m: Measure, t: Seq<char>) -> bool {
    t[0] == '<' && t[1] == m.letter()
}

/// A tag within `a` stands there whatever follows, and one behind it whatever precedes.
proof fn lemma_stands_in_parts(a: Seq<char>, b: Seq<char>, i: int, t: Seq<char>)
    ensures
        i + t.len() <= a.len() ==> stands_at(a + b, i, t) == stands_at(a, i, t),
        a.len() <= i ==> stands_at(a + b, i, t) == stands_at(b, i - a.len(), t),
{
    let s = a + b;
    if 0 <= i && i + t.len() <= a.len() {
        assert(s.subrange(i, i + t.len()) =~= a.subrange(i, i + t.len()));
    }
    if a.len() <= i && i + t.len() <= s.len() {
        assert(s.subrange(i, i + t.len()) =~= b.subrange(i - a.len(), i - a.len() + t.len()));
    }
}

proof fn lemma_at_in_parts(m: Measure, a: Seq<char>, b: Seq<char>, i: int)
    requires
        m.closed(a),
        0 <= i < a.len() + b.len(),
    ensures
        m.at(a + b, i) == (if i < a.len() {
            m.at(a, i)
        } else {
            m.at(b, i - a.len())
        }),
{
    reveal(Measure::closed);
    reveal_strlit("<ModuleItem ");
    reveal_strlit("<DataItem DataType=\"Unsigned8\"");
    reveal_strlit("<DataItem DataType=\"Integer16\"");
    reveal_strlit("<DataItem DataType=\"Unsigned16\"");
    reveal_strlit("<DataItem DataType=\"Integer32\"");
    reveal_strlit("<DataItem DataType=\"Float32\"");
    lemma_stands_in_parts(a, b, i, "<ModuleItem "@);
    lemma_stands_in_parts(a, b, i, "<DataItem DataType=\"Unsigned8\""@);
    lemma_stands_in_parts(a, b, i, "<DataItem DataType=\"Integer16\""@);
    lemma_stands_in_parts(a, b, i, "<DataItem DataType=\"Unsigned16\""@);
    lemma_stands_in_parts(a, b, i, "<DataItem DataType=\"Integer32\""@);
    lemma_stands_in_parts(a, b, i, "<DataItem DataType=\"Float32\""@);
    if i < a.len() && a.len() - i < m.span() {
        let s = a + b;
        assert(s[i] == a[i]);
        if m.at(s, i) != 0 {
            lemma_counts_at_its_letter(m, s, i);
            assert(s[i + 1] == a[i + 1]);
        }
        if m.at(a, i) != 0 {
            lemma_counts_at_its_letter(m, a, i);
        }
    }
}

proof fn lemma_up_to_in_parts(m: Measure, a: Seq<char>, b: Seq<char>, k: int)
    requires
        m.closed(a),
        0 <= k <= a.len() + b.len(),
    ensures
        m.up_to(a + b, k) == (if k <= a.len() {
            m.up_to(a, k)
        } else {
            m.of(a) + m.up_to(b, k - a.len())
        }),
    decreases k,
{
    if k > 0 {
        lemma_up_to_in_parts(m, a, b, k - 1);
        lemma_at_in_parts(m, a, b, k - 1);
        assert(m.up_to(a + b, k) == m.up_to(a + b, k - 1) + m.at(a + b, k - 1));
        if k <= a.len() {
            assert(m.up_to(a, k) == m.up_to(a, k - 1) + m.at(a, k - 1));
        } else {
            let j = k - a.len();
            assert(m.up_to(b, j) == m.up_to(b, j - 1) + m.at(b, j - 1));
        }
    }
}

/// Of two texts in neither of which a tag is cut off, both count.
pub broadcast proof fn lemma_join(m: Measure, a: Seq<char>, b: Seq<char>)
    requires
        m.closed(a),
        m.closed(b),
    ensures
        #[trigger] m.closed(a + b),
        m.of(a + b) == m.of(a) + m.of(b),
{
    reveal(Measure::closed);
    let s = a + b;
    lemma_up_to_in_parts(m, a, b, s.len() as int);
    assert forall|i: int|
        #![trigger s[i]]
        0 <= i < s.len() && s.len() - i < m.span() && s[i] == '<' implies i + 1 < s.len() && s[i
        + 1] != m.letter() by {
        if i < a.len() {
            assert(a[i] == '<');
            assert(s[i + 1] == a[i + 1]);
        } else {
            assert(b[i - a.len()] == '<');
            assert(s[i + 1] == b[i + 1 - a.len()]);
        }
    }
}

/// Texts without such tags have none together.
pub broadcast proof fn lemma_free_join(a: Seq<char>, b: Seq<char>, c: char)
    requires
        free(a, c),
        free(b, c),
    ensures
        #[trigger] free(a + b, c),
{
    reveal(free);
    let s = a + b;
    assert forall|i: int|
        #![trigger s[i]]
        0 <= i < s.len() && s[i] == '<' implies i + 1 < s.len() && s[i + 1] != c by {
        if i < a.len() {
            assert(a[i] == '<');
            assert(s[i + 1] == a[i + 1]);
        } else {
            assert(b[i - a.len()] == '<');
            assert(s[i + 1] == b[i + 1 - a.len()]);
        }
    }
}

/// Inert texts are inert together.
pub broadcast proof fn lemma_inert_join(a: Seq<char>, b: Seq<char>)
    requires
        inert(a),
        inert(b),
    ensures
        #[trigger] inert(a + b),
{
    reveal(inert);
    let s = a + b;
    assert forall|i: int| 0 <= i < s.len() implies #[trigger] s[i] != '<' && s[i] != '"' by {
        if i < a.len() {
            assert(a[i] != '<');
        } else {
            assert(b[i - a.len()] != '<');
        }
    }
}

/// Nothing counts where nothing counts at any offset.
proof fn lemma_nowhere(m: Measure, s: Seq<char>, k: int)
    requires
        forall|i: int| 0 <= i < k ==> #[trigger] m.at(s, i) == 0,
    ensures
        m.up_to(s, k) == 0,
    decreases k,
{
    if k > 0 {
        lemma_nowhere(m, s, k - 1);
    }
}

/// What counts at one offset alone is all that counts.
proof fn lemma_once(m: Measure, s: Seq<char>, p: int, k: int)
    requires
        0 <= p,
        forall|i: int| 0 <= i < k && i != p ==> #[trigger] m.at(s, i) == 0,
    ensures
        m.up_to(s, k) == if p < k {
            m.at(s, p)
        } else {
            0
        },
    decreases k,
{
    if k > 0 {
        lemma_once(m, s, p, k - 1);
    }
}

/// A text without tags of the measure's letter counts nothing.
pub broadcast proof fn lemma_free_counts_nothing(m: Measure, s: Seq<char>)
    requires
        free(s, m.letter()),
    ensures
        #[trigger] m.closed(s),
        m.of(s) == 0,
{
    reveal(free);
    reveal(Measure::closed);
    assert forall|i: int| 0 <= i < s.len() implies #[trigger] m.at(s, i) == 0 by {
        if m.at(s, i) != 0 {
            lemma_counts_at_its_letter(m, s, i);
        }
    }
    lemma_nowhere(m, s, s.len() as int);
}

/// In nothing no tag begins.
pub proof fn lemma_nothing()
    ensures
        inert(Seq::<char>::empty()),
        free(Seq::<char>::empty(), 'M'),
        free(Seq::<char>::empty(), 'D'),
{
    reveal(inert);
    reveal(free);
}

/// An inert text is free of every tag.
pub broadcast proof fn lemma_inert_is_free(s: Seq<char>, c: char)
    requires
        inert(s),
    ensures
        #[trigger] free(s, c),
{
    reveal(free);
    reveal(inert);
}

/// No module begins in the parts that speak of the device.
pub proof fn lemma_device_parts()
    ensures
        free(template::PROLOG@, 'M'),
        free(template::DEVICE_ID@, 'M'),
        free(template::VENDOR_NAME@, 'M'),
        free(template::FAMILY@, 'M'),
        free(template::SLOTS@, 'M'),
        free(template::INTERVAL@, 'M'),
        free(template::STATION@, 'M'),
        free(template::DAP_IDENTITY@, 'M'),
        free(template::MAX_INPUT@, 'M'),
        free(template::MAX_OUTPUT@, 'M'),
        free(template::MAX_DATA@, 'M'),
        free(template::USEABLE@, 'M'),
        free(template::ALLOWED_SLOT@, 'M'),
        free(template::MODULE_REF_END@, 'M'),
{
    assert(free(template::PROLOG@, 'M')) by {
        reveal(free);
        reveal_strlit(r#"<?xml version="1.0" encoding="utf-8"?>
<ISO15745Profile xmlns="http://www.profibus.com/GSDML/2003/11/DeviceProfile" xmlns:xsi="http://www.w3.org/2001/XMLSchema-instance" xsi:schemaLocation="http://www.profibus.com/GSDML/2003/11/DeviceProfile ..\xsd\GSDML-DeviceProfile-V2.4.xsd">
  <ProfileHeader>
    <ProfileIdentification>PROFINET Device Profile</ProfileIdentification>
    <ProfileRevision>1.00</ProfileRevision>
    <ProfileName>Device Profile for PROFINET Devices</ProfileName>
    <ProfileSource>PROFIBUS Nutzerorganisation e. V. (PNO)</ProfileSource>
    <ProfileClassID>Device</ProfileClassID>
    <ISO15745Reference>
      <ISO15745Part>4</ISO15745Part>
      <ISO15745Edition>1</ISO15745Edition>
      <ProfileTechnology>GSDML</ProfileTechnology>
    </ISO15745Reference>
  </ProfileHeader>
  <ProfileBody>
    <DeviceIdentity VendorID="0x"#);
    }
    assert(free(template::DEVICE_ID@, 'M')) by {
        reveal(free);
        reveal_strlit(r#"" DeviceID="0x"#);
    }
    assert(free(template::VENDOR_NAME@, 'M')) by {
        reveal(free);
        reveal_strlit(r#"">
      <InfoText TextId="T_InfoText"/>
      <VendorName Value=""#);
    }
    assert(free(template::FAMILY@, 'M')) by {
        reveal(free);
        reveal_strlit(r#""/>
    </DeviceIdentity>
    <DeviceFunction>
      <Family MainFamily="I/O" ProductFamily=""#);
    }
    assert(free(template::SLOTS@, 'M')) by {
        reveal(free);
        reveal_strlit(r#""/>
    </DeviceFunction>
    <ApplicationProcess>
      <DeviceAccessPointList>
        <DeviceAccessPointItem ID="DAP1" PNIO_Version="V2.3" PhysicalSlots="0.."#);
    }
    assert(free(template::INTERVAL@, 'M')) by {
        reveal(free);
        reveal_strlit(r#"" ModuleIdentNumber="0x00000001" MinDeviceInterval=""#);
    }
    assert(free(template::STATION@, 'M')) by {
        reveal(free);
        reveal_strlit(r#"" DNS_CompatibleName=""#);
    }
    assert(free(template::DAP_IDENTITY@, 'M')) by {
        reveal(free);
        reveal_strlit(r#""/>
"#);
    }
    assert(free(template::MAX_INPUT@, 'M')) by {
        reveal(free);
        reveal_strlit(r#"
          </ModuleInfo>
          <IOConfigData MaxInputLength=""#);
    }
    assert(free(template::MAX_OUTPUT@, 'M')) by {
        reveal(free);
        reveal_strlit(r#"" MaxOutputLength=""#);
    }
    assert(free(template::MAX_DATA@, 'M')) by {
        reveal(free);
        reveal_strlit(r#"" MaxDataLength=""#);
    }
    assert(free(template::USEABLE@, 'M')) by {
        reveal(free);
        reveal_strlit(r#""/>
          <UseableModules>
"#);
    }
    assert(free(template::ALLOWED_SLOT@, 'M')) by {
        reveal(free);
        reveal_strlit(r#"" AllowedInSlots=""#);
    }
    assert(free(template::MODULE_REF_END@, 'M')) by {
        reveal(free);
        reveal_strlit(r#""/>
"#);
    }
}

/// No module begins in the parts of a module but in the first of them, and no item of data
/// but in the two that start one.
pub proof fn lemma_module_parts()
    ensures
        free(template::MODULE_IDENT@, 'M'),
        free(template::MODULE_IDENT@, 'D'),
        free(template::MODULE_INFO@, 'M'),
        free(template::MODULE_INFO@, 'D'),
        free(template::MODULE_IDENTITY@, 'M'),
        free(template::MODULE_IDENTITY@, 'D'),
        free(template::MODULE_SUBMODULE@, 'M'),
        free(template::MODULE_SUBMODULE@, 'D'),
        free(template::IO_DATA@, 'M'),
        free(template::IO_DATA@, 'D'),
        free(template::DIRECTION_OPEN_END@, 'M'),
        free(template::DIRECTION_OPEN_END@, 'D'),
        free(template::SCALAR@, 'M'),
        free(template::SCALAR_ID@, 'M'),
        free(template::SCALAR_ID@, 'D'),
        free(template::SCALAR_END@, 'M'),
        free(template::SCALAR_END@, 'D'),
        free(template::BITS@, 'M'),
        free(template::BITS_OPENED@, 'M'),
        free(template::BITS_OPENED@, 'D'),
        free(template::BIT@, 'M'),
        free(template::BIT@, 'D'),
        free(template::BIT_ID@, 'M'),
        free(template::BIT_ID@, 'D'),
        free(template::BIT_END@, 'M'),
        free(template::BIT_END@, 'D'),
        free(template::MODULE_CLOSE_INFO@, 'M'),
        free(template::MODULE_CLOSE_INFO@, 'D'),
        free(template::MODULE_END@, 'M'),
        free(template::MODULE_END@, 'D'),
        free(template::TEXTS@, 'M'),
        free(template::TEXT@, 'M'),
        free(template::TEXT_VALUE@, 'M'),
        free(template::TEXT_END@, 'M'),
        free(template::EPILOG@, 'M'),
        free(template::BITS_CLOSE@, 'M'),
        free(template::BITS_CLOSE@, 'D'),
        free(template::DIRECTION_CLOSE@, 'M'),
        free(template::DIRECTION_CLOSE@, 'D'),
        free(template::DIRECTION_CLOSE_END@, 'M'),
        free(template::DIRECTION_CLOSE_END@, 'D'),
        free(template::ORDER_NUMBER@, 'M'),
        free(template::ORDER_NUMBER@, 'D'),
        free(template::HARDWARE@, 'M'),
        free(template::HARDWARE@, 'D'),
        free(template::SOFTWARE@, 'M'),
        free(template::SOFTWARE@, 'D'),
        free(template::IDENTITY_END@, 'M'),
        free(template::IDENTITY_END@, 'D'),
{
    assert(free(template::MODULE_IDENT@, 'M') && free(template::MODULE_IDENT@, 'D')) by {
        reveal(free);
        reveal_strlit(r#"" ModuleIdentNumber="0x"#);
    }
    assert(free(template::MODULE_INFO@, 'M') && free(template::MODULE_INFO@, 'D')) by {
        reveal(free);
        reveal_strlit(r#"_Name"/>
            <InfoText TextId="M"#);
    }
    assert(free(template::MODULE_IDENTITY@, 'M') && free(template::MODULE_IDENTITY@, 'D')) by {
        reveal(free);
        reveal_strlit(r#"_Info"/>
"#);
    }
    assert(free(template::MODULE_SUBMODULE@, 'M') && free(template::MODULE_SUBMODULE@, 'D')) by {
        reveal(free);
        reveal_strlit(r#"
          </ModuleInfo>
          <VirtualSubmoduleList>
            <VirtualSubmoduleItem ID="M"#);
    }
    assert(free(template::IO_DATA@, 'M') && free(template::IO_DATA@, 'D')) by {
        reveal(free);
        reveal_strlit(r#"_SM" SubmoduleIdentNumber="0x00000001" MayIssueProcessAlarm="false">
              <IOData>
"#);
    }
    assert(free(template::DIRECTION_OPEN_END@, 'M') && free(template::DIRECTION_OPEN_END@, 'D')) by {
        reveal(free);
        reveal_strlit(r#" Consistency="All items consistency">
"#);
    }
    assert(free(template::SCALAR@, 'M')) by {
        reveal(free);
        reveal_strlit(r#"                  <DataItem DataType=""#);
    }
    assert(free(template::SCALAR_ID@, 'M') && free(template::SCALAR_ID@, 'D')) by {
        reveal(free);
        reveal_strlit(r#"" TextId=""#);
    }
    assert(free(template::SCALAR_END@, 'M') && free(template::SCALAR_END@, 'D')) by {
        reveal(free);
        reveal_strlit(r#""/>
"#);
    }
    assert(free(template::BITS@, 'M')) by {
        reveal(free);
        reveal_strlit(r#"                  <DataItem DataType="Unsigned8" UseAsBits="true" TextId=""#);
    }
    assert(free(template::BITS_OPENED@, 'M') && free(template::BITS_OPENED@, 'D')) by {
        reveal(free);
        reveal_strlit(r#"">
"#);
    }
    assert(free(template::BIT@, 'M') && free(template::BIT@, 'D')) by {
        reveal(free);
        reveal_strlit(r#"                    <BitDataItem BitOffset=""#);
    }
    assert(free(template::BIT_ID@, 'M') && free(template::BIT_ID@, 'D')) by {
        reveal(free);
        reveal_strlit(r#"" TextId=""#);
    }
    assert(free(template::BIT_END@, 'M') && free(template::BIT_END@, 'D')) by {
        reveal(free);
        reveal_strlit(r#""/>
"#);
    }
    assert(free(template::MODULE_CLOSE_INFO@, 'M') && free(template::MODULE_CLOSE_INFO@, 'D')) by {
        reveal(free);
        reveal_strlit(r#"_Name"/>
                <InfoText TextId="M"#);
    }
    assert(free(template::MODULE_END@, 'M') && free(template::MODULE_END@, 'D')) by {
        reveal(free);
        reveal_strlit(r#"_Info"/>
              </ModuleInfo>
            </VirtualSubmoduleItem>
          </VirtualSubmoduleList>
        </ModuleItem>
"#);
    }
    assert(free(template::TEXTS@, 'M')) by {
        reveal(free);
        reveal_strlit(r#"      </ModuleList>
      <ExternalTextList>
        <PrimaryLanguage>
"#);
    }
    assert(free(template::TEXT@, 'M')) by {
        reveal(free);
        reveal_strlit(r#"          <Text TextId=""#);
    }
    assert(free(template::TEXT_VALUE@, 'M')) by {
        reveal(free);
        reveal_strlit(r#"" Value=""#);
    }
    assert(free(template::TEXT_END@, 'M')) by {
        reveal(free);
        reveal_strlit(r#""/>
"#);
    }
    assert(free(template::EPILOG@, 'M')) by {
        reveal(free);
        reveal_strlit(r#"        </PrimaryLanguage>
      </ExternalTextList>
    </ApplicationProcess>
  </ProfileBody>
</ISO15745Profile>
"#);
    }
    assert(free(template::BITS_CLOSE@, 'M') && free(template::BITS_CLOSE@, 'D')) by {
        reveal(free);
        reveal_strlit(r#"                  </DataItem>
"#);
    }
    assert(free(template::DIRECTION_CLOSE@, 'M') && free(template::DIRECTION_CLOSE@, 'D')) by {
        reveal(free);
        reveal_strlit(r#"                </"#);
    }
    assert(free(template::DIRECTION_CLOSE_END@, 'M') && free(template::DIRECTION_CLOSE_END@, 'D')) by {
        reveal(free);
        reveal_strlit(r#">
"#);
    }
    assert(free(template::ORDER_NUMBER@, 'M') && free(template::ORDER_NUMBER@, 'D')) by {
        reveal(free);
        reveal_strlit(r#"            <OrderNumber Value=""#);
    }
    assert(free(template::HARDWARE@, 'M') && free(template::HARDWARE@, 'D')) by {
        reveal(free);
        reveal_strlit(r#""/>
            <HardwareRelease Value=""#);
    }
    assert(free(template::SOFTWARE@, 'M') && free(template::SOFTWARE@, 'D')) by {
        reveal(free);
        reveal_strlit(r#""/>
            <SoftwareRelease Value=""#);
    }
    assert(free(template::IDENTITY_END@, 'M') && free(template::IDENTITY_END@, 'D')) by {
        reveal(free);
        reveal_strlit(r#""/>"#);
    }
}

/// No item of data begins in the parts of a module that start other elements.
pub proof fn lemma_data_parts()
    ensures
        free(template::MODULE@, 'D'),
        free(template::MODULE_NAME@, 'D'),
        free(template::MODULE_CLOSE@, 'D'),
{
    assert(free(template::MODULE@, 'D')) by {
        reveal(free);
        reveal_strlit(r#"        <ModuleItem ID="M"#);
    }
    assert(free(template::MODULE_NAME@, 'D')) by {
        reveal(free);
        reveal_strlit(r#"">
          <ModuleInfo>
            <Name TextId="M"#);
    }
    assert(free(template::MODULE_CLOSE@, 'D')) by {
        reveal(free);
        reveal_strlit(r#"              </IOData>
              <ModuleInfo>
                <Name TextId="M"#);
    }
}

/// Whether at every tag that begins like a module's one of two later letters is another.
pub open spec fn differs(s: Seq<char>) -> bool {
    forall|i: int|
        #![trigger s[i]]
        0 <= i && i + 12 <= s.len() && s[i] == '<' ==> s[i + 1] != 'M' || s[i + 8] != 't' || s[i
            + 11] != ' '
}

proof fn lemma_no_module(s: Seq<char>)
    requires
        differs(s),
    ensures
        Measure::Modules.of(s) == 0,
{
    reveal_strlit("<ModuleItem ");
    let m = Measure::Modules;
    assert forall|i: int| 0 <= i < s.len() implies #[trigger] m.at(s, i) == 0 by {
        if m.at(s, i) != 0 {
            let t = s.subrange(i, i + 12);
            assert(t[0] == s[i] && t[1] == s[i + 1] && t[8] == s[i + 8] && t[11] == s[i + 11]);
        }
    }
    lemma_nowhere(m, s, s.len() as int);
}

/// Other tags with a module's first letter begin no module.
pub proof fn lemma_other_tags()
    ensures
        Measure::Modules.closed(template::DAP_VENDOR@),
        Measure::Modules.of(template::DAP_VENDOR@) == 0,
        Measure::Modules.closed(template::MODULE_REF@),
        Measure::Modules.of(template::MODULE_REF@) == 0,
        Measure::Modules.closed(template::SEND_CLOCK@),
        Measure::Modules.of(template::SEND_CLOCK@) == 0,
        Measure::Modules.closed(template::MODULES@),
        Measure::Modules.of(template::MODULES@) == 0,
        Measure::Modules.closed(template::MODULE_NAME@),
        Measure::Modules.of(template::MODULE_NAME@) == 0,
        Measure::Modules.closed(template::MODULE_CLOSE@),
        Measure::Modules.of(template::MODULE_CLOSE@) == 0,
{
    assert(Measure::Modules.closed(template::DAP_VENDOR@) && Measure::Modules.of(template::DAP_VENDOR@)
        == 0) by {
        reveal(Measure::closed);
        reveal_strlit(r#"" FixedInSlots="0" ObjectUUID_LocalIndex="1" MultipleWriteSupported="true" DeviceAccessSupported="false" CheckDeviceID_Allowed="true" NameOfStationNotTransferable="false">
          <ModuleInfo>
            <Name TextId="T_DAP_Name"/>
            <InfoText TextId="T_DAP_Info"/>
            <VendorName Value=""#);
        lemma_no_module(template::DAP_VENDOR@);
    }
    assert(Measure::Modules.closed(template::MODULE_REF@) && Measure::Modules.of(template::MODULE_REF@)
        == 0) by {
        reveal(Measure::closed);
        reveal_strlit(r#"            <ModuleItemRef ModuleItemTarget="M"#);
        lemma_no_module(template::MODULE_REF@);
    }
    assert(Measure::Modules.closed(template::SEND_CLOCK@) && Measure::Modules.of(template::SEND_CLOCK@)
        == 0) by {
        reveal(Measure::closed);
        reveal_strlit(r#"          </UseableModules>
          <VirtualSubmoduleList>
            <VirtualSubmoduleItem ID="DAP1_SM" SubmoduleIdentNumber="0x00000001" MayIssueProcessAlarm="false" Writeable_IM_Records="1 2 3">
              <IOData/>
              <ModuleInfo>
                <Name TextId="T_DAP_Name"/>
                <InfoText TextId="T_DAP_Info"/>
              </ModuleInfo>
            </VirtualSubmoduleItem>
          </VirtualSubmoduleList>
          <SystemDefinedSubmoduleList>
            <InterfaceSubmoduleItem ID="DAP1_IF" SubslotNumber="32768" TextId="T_Interface" SubmoduleIdentNumber="0x00008000" SupportedRT_Classes="RT_CLASS_1" SupportedProtocols="" DCP_HelloSupported="false" PTP_BoundarySupported="false" DCP_BoundarySupported="false" DelayMeasurementSupported="false">
              <ApplicationRelations StartupMode="Advanced">
                <TimingProperties SendClock=""#);
        lemma_no_module(template::SEND_CLOCK@);
    }
    assert(Measure::Modules.closed(template::MODULES@) && Measure::Modules.of(template::MODULES@)
        == 0) by {
        reveal(Measure::closed);
        reveal_strlit(r#"" ReductionRatio="1 2 4 8 16 32 64 128 256 512"/>
              </ApplicationRelations>
            </InterfaceSubmoduleItem>
            <PortSubmoduleItem ID="DAP1_P1" SubslotNumber="32769" TextId="T_Port1" SubmoduleIdentNumber="0x00008001" MaxPortTxDelay="160" MaxPortRxDelay="350">
              <MAUTypeList>
                <MAUTypeItem Value="16"/>
              </MAUTypeList>
            </PortSubmoduleItem>
          </SystemDefinedSubmoduleList>
        </DeviceAccessPointItem>
      </DeviceAccessPointList>
      <ModuleList>
"#);
        lemma_no_module(template::MODULES@);
    }
    assert(Measure::Modules.closed(template::MODULE_NAME@) && Measure::Modules.of(template::MODULE_NAME@)
        == 0) by {
        reveal(Measure::closed);
        reveal_strlit(r#"">
          <ModuleInfo>
            <Name TextId="M"#);
        lemma_no_module(template::MODULE_NAME@);
    }
    assert(Measure::Modules.closed(template::MODULE_CLOSE@) && Measure::Modules.of(template::MODULE_CLOSE@)
        == 0) by {
        reveal(Measure::closed);
        reveal_strlit(r#"              </IOData>
              <ModuleInfo>
                <Name TextId="M"#);
        lemma_no_module(template::MODULE_CLOSE@);
    }
}

/// The start of a module begins one.
pub proof fn lemma_module_start()
    ensures
        Measure::Modules.closed(template::MODULE@),
        Measure::Modules.of(template::MODULE@) == 1,
{
    reveal(Measure::closed);
    reveal_strlit(r#"        <ModuleItem ID="M"#);
    reveal_strlit("<ModuleItem ");
    let s = template::MODULE@;
    let m = Measure::Modules;
    assert(s.subrange(8, 20) =~= "<ModuleItem "@);
    assert forall|i: int| 0 <= i < s.len() && i != 8 implies #[trigger] m.at(s, i) == 0 by {
        if m.at(s, i) != 0 {
            lemma_counts_at_its_letter(m, s, i);
        }
    }
    lemma_once(m, s, 8, s.len() as int);
}

// ---------------------------------------------------------------------------------
// Values
// ---------------------------------------------------------------------------------

/// A number holds no tag.
pub proof fn lemma_dec_inert(v: int)
    requires
        0 <= v,
    ensures
        inert(text::dec_text(v)),
    decreases v,
{
    reveal(inert);
    if v >= 10 {
        lemma_dec_inert(v / 10);
    }
}

/// A hexadecimal number holds no tag.
pub proof fn lemma_hex_inert(v: int, n: nat)
    requires
        0 <= v,
    ensures
        inert(text::upper_hex_text(v, n)),
    decreases n,
{
    reveal(inert);
    if n > 0 {
        lemma_hex_inert(v / 16, (n - 1) as nat);
        let (s, before) = (text::upper_hex_text(v, n), text::upper_hex_text(v / 16, (n - 1) as nat));
        assert forall|i: int| 0 <= i < s.len() implies #[trigger] s[i] != '<' && s[i] != '"' by {
            if i < before.len() {
                assert(s[i] == before[i]);
            } else {
                assert(s[i] == text::upper_digit(text::hex_digit(v % 16)));
            }
        }
    }
}

/// Escaped text holds no tag.
pub proof fn lemma_escaped_inert(s: Seq<char>)
    ensures
        inert(gsdml::escaped(s)),
{
    reveal(inert);
    gsdml::escaped_text_is_inert(s);
}

/// The names of types hold no tag.
pub proof fn lemma_names_inert(ty: FieldType)
    ensures
        inert(gsdml::data_type_name(ty)),
        inert(gsdml::field_name(ty)),
{
    reveal(inert);
    reveal_strlit("Unsigned8");
    reveal_strlit("Integer16");
    reveal_strlit("Unsigned16");
    reveal_strlit("Integer32");
    reveal_strlit("Float32");
    reveal_strlit("Bool");
    reveal_strlit("Int");
    reveal_strlit("Word");
    reveal_strlit("Dint");
    reveal_strlit("Real");
}

/// A revision holds no tag.
pub proof fn lemma_revision_inert(im0: im::Im0)
    requires
        im0.fault() is None,
    ensures
        inert(gsdml::revision_text(im0)),
{
    broadcast use lemma_inert_join;

    let r = im0.software_revision;
    assert(inert("."@)) by {
        reveal(inert);
        reveal_strlit(".");
    }
    lemma_dec_inert(r.functional as int);
    lemma_dec_inert(r.bug_fix as int);
    lemma_dec_inert(r.internal as int);
    assert(inert(seq![r.prefix])) by {
        reveal(inert);
    }
}

/// The identity of a module begins neither a module nor an item of data.
pub proof fn lemma_identity(im0: im::Im0)
    requires
        im0.fault() is None,
    ensures
        free(gsdml::identity_text(im0), 'M'),
        free(gsdml::identity_text(im0), 'D'),
{
    broadcast use lemma_free_join, lemma_inert_is_free;

    lemma_module_parts();
    lemma_escaped_inert(im0.order_id@);
    lemma_dec_inert(im0.hardware_revision as int);
    lemma_revision_inert(im0);
}

// ---------------------------------------------------------------------------------
// Fields
// ---------------------------------------------------------------------------------

/// The start of a byte-typed field's line declares as many bytes as its type takes.
proof fn lemma_scalar_start(ty: FieldType)
    requires
        ty != FieldType::Bool,
    ensures
        ({
            let s = template::SCALAR@ + gsdml::data_type_name(ty) + template::SCALAR_ID@;
            &&& Measure::DataBytes.closed(s)
            &&& ty.byte_len() matches Some(k) && k == Measure::DataBytes.of(s)
        }),
{
    reveal(Measure::closed);
    reveal(inert);
    let s = template::SCALAR@ + gsdml::data_type_name(ty) + template::SCALAR_ID@;
    let m = Measure::DataBytes;
    reveal_strlit(r#"                  <DataItem DataType=""#);
    reveal_strlit(r#"" TextId=""#);
    match ty {
        FieldType::Int => {
            reveal_strlit("Integer16");
            reveal_strlit("<DataItem DataType=\"Integer16\"");
            assert(s.subrange(18, 48) =~= "<DataItem DataType=\"Integer16\""@);
        },
        FieldType::Word => {
            reveal_strlit("Unsigned16");
            reveal_strlit("<DataItem DataType=\"Unsigned16\"");
            assert(s.subrange(18, 49) =~= "<DataItem DataType=\"Unsigned16\""@);
        },
        FieldType::Dint => {
            reveal_strlit("Integer32");
            reveal_strlit("<DataItem DataType=\"Integer32\"");
            assert(s.subrange(18, 48) =~= "<DataItem DataType=\"Integer32\""@);
        },
        FieldType::Real => {
            reveal_strlit("Float32");
            reveal_strlit("<DataItem DataType=\"Float32\"");
            assert(s.subrange(18, 46) =~= "<DataItem DataType=\"Float32\""@);
        },
        FieldType::Bool => {},
    }
    lemma_names_inert(ty);
    let (a, b, c) = (template::SCALAR@, gsdml::data_type_name(ty), template::SCALAR_ID@);
    assert forall|i: int| 0 <= i < s.len() && i != 18 implies #[trigger] s[i] != '<' by {
        if i < a.len() {
            assert(s[i] == a[i]);
        } else if i < a.len() + b.len() {
            assert(s[i] == b[i - a.len()]);
        } else {
            assert(s[i] == c[i - a.len() - b.len()]);
        }
    }
    assert forall|i: int| 0 <= i < s.len() && i != 18 implies #[trigger] m.at(s, i) == 0 by {
        if m.at(s, i) != 0 {
            lemma_counts_at_its_letter(m, s, i);
        }
    }
    lemma_once(m, s, 18, s.len() as int);
    lemma_one_type(s, 18);
}

/// At most one type stands behind the start of an item.
proof fn lemma_one_type(s: Seq<char>, i: int)
    ensures
        stands_at(s, i, "<DataItem DataType=\"Integer16\""@) ==> Measure::DataBytes.at(s, i) == 2,
        stands_at(s, i, "<DataItem DataType=\"Unsigned16\""@) ==> Measure::DataBytes.at(s, i) == 2,
        stands_at(s, i, "<DataItem DataType=\"Integer32\""@) ==> Measure::DataBytes.at(s, i) == 4,
        stands_at(s, i, "<DataItem DataType=\"Float32\""@) ==> Measure::DataBytes.at(s, i) == 4,
        stands_at(s, i, "<DataItem DataType=\"Unsigned8\""@) ==> Measure::DataBytes.at(s, i) == 1,
{
    reveal_strlit("<DataItem DataType=\"Unsigned8\"");
    reveal_strlit("<DataItem DataType=\"Integer16\"");
    reveal_strlit("<DataItem DataType=\"Unsigned16\"");
    reveal_strlit("<DataItem DataType=\"Integer32\"");
    reveal_strlit("<DataItem DataType=\"Float32\"");
    // The letters behind the quote, and the last digit, tell the types apart.
    if 0 <= i && i + 30 <= s.len() {
        let (t, u) = (s.subrange(i, i + 30), s.subrange(i, i + 28));
        assert(t[20] == s[i + 20] && u[20] == s[i + 20]);
        assert(t[27] == s[i + 27]);
        assert(t[28] == s[i + 28]);
        if i + 31 <= s.len() {
            let v = s.subrange(i, i + 31);
            assert(v[20] == s[i + 20]);
            assert(v[28] == s[i + 28]);
        }
    }
}

/// The start of a group of bits declares one byte.
proof fn lemma_bits_start()
    ensures
        Measure::DataBytes.closed(template::BITS@),
        Measure::DataBytes.of(template::BITS@) == 1,
{
    reveal(Measure::closed);
    let s = template::BITS@;
    let m = Measure::DataBytes;
    reveal_strlit(r#"                  <DataItem DataType="Unsigned8" UseAsBits="true" TextId=""#);
    reveal_strlit("<DataItem DataType=\"Unsigned8\"");
    assert(s.subrange(18, 48) =~= "<DataItem DataType=\"Unsigned8\""@);
    assert forall|i: int| 0 <= i < s.len() && i != 18 implies #[trigger] m.at(s, i) == 0 by {
        if m.at(s, i) != 0 {
            lemma_counts_at_its_letter(m, s, i);
        }
    }
    lemma_once(m, s, 18, s.len() as int);
    lemma_one_type(s, 18);
}

/// A bit joins the byte of the one before it unless it is the first of eight.
proof fn lemma_joins(fields: Seq<FieldType>, i: int)
    requires
        0 <= i < fields.len(),
        fields[i] == FieldType::Bool,
        config::layout_len(fields) <= u16::MAX,
    ensures
        gsdml::joins_previous(config::field_refs(fields), i) == (config::bool_run(fields, i) % 8
            != 0),
{
    let refs = config::field_refs(fields);
    config::lemma_bytes_grow(fields, 0, i);
    config::lemma_bytes_grow(fields, i, i + 1);
    config::lemma_bytes_grow(fields, i + 1, fields.len() as int);
    if i > 0 && fields[i - 1] == FieldType::Bool {
        config::lemma_bytes_grow(fields, i - 1, i);
        config::fields_lie_within(fields, i - 1);
        config::fields_lie_within(fields, i);
        assert(refs[i].byte == config::byte_of_field(fields, i));
        assert(refs[i - 1].byte == config::byte_of_field(fields, i - 1));
    }
}

/// The text id of a field holds no tag.
pub proof fn lemma_ids_inert(n: u16, prefix: Seq<char>, i: int)
    requires
        0 <= i,
        inert(prefix),
    ensures
        inert(gsdml::scalar_id(n, prefix, i)),
        inert(gsdml::bits_id(n, prefix, i)),
        inert(gsdml::bit_id(n, prefix, i)),
{
    broadcast use lemma_inert_join;

    assert(inert("M"@) && inert("_"@) && inert(""@) && inert("_bits"@) && inert("_b"@)) by {
        reveal(inert);
        reveal_strlit("M");
        reveal_strlit("_");
        reveal_strlit("");
        reveal_strlit("_bits");
        reveal_strlit("_b");
    }
    lemma_dec_inert(n as int);
    lemma_dec_inert(i);
    assert(inert(gsdml::id_base(n, prefix)));
}

/// The lines of a field begin no module.
proof fn lemma_field_lines_modules(n: u16, prefix: Seq<char>, refs: Seq<FieldRef>, i: int)
    requires
        0 <= i < refs.len(),
        inert(prefix),
    ensures
        free(gsdml::field_lines(n, prefix, refs, i), 'M'),
{
    broadcast use lemma_free_join, lemma_inert_is_free;

    lemma_module_parts();
    lemma_ids_inert(n, prefix, i);
    lemma_names_inert(refs[i].ty);
    lemma_dec_inert(refs[i].bit as int);
    assert(free(gsdml::bits_line(n, prefix, i), 'M'));
    assert(free(gsdml::bit_line(n, prefix, refs[i].bit, i), 'M'));
    lemma_nothing();
}

/// The lines of a field declare the bytes that it adds to the layout.
proof fn lemma_field_lines_bytes(n: u16, prefix: Seq<char>, fields: Seq<FieldType>, i: int)
    requires
        0 <= i < fields.len(),
        inert(prefix),
        config::layout_len(fields) <= u16::MAX,
    ensures
        ({
            let lines = gsdml::field_lines(n, prefix, config::field_refs(fields), i);
            &&& Measure::DataBytes.closed(lines)
            &&& Measure::DataBytes.of(lines) == config::bytes_of(fields, i + 1) - config::bytes_of(
                fields,
                i,
            )
        }),
{
    broadcast use lemma_free_join, lemma_inert_is_free, lemma_join, lemma_free_counts_nothing;

    let m = Measure::DataBytes;
    let refs = config::field_refs(fields);
    lemma_module_parts();
    lemma_ids_inert(n, prefix, i);
    lemma_dec_inert(refs[i].bit as int);
    if fields[i] != FieldType::Bool {
        lemma_scalar_start(fields[i]);
        let start = template::SCALAR@ + gsdml::data_type_name(fields[i]) + template::SCALAR_ID@;
        let id = gsdml::scalar_id(n, prefix, i);
        assert(m.closed(id));
        assert(m.closed(start + id));
        assert(m.closed(template::SCALAR_END@));
        assert(m.closed(start + id + template::SCALAR_END@));
    } else {
        lemma_bits_start();
        lemma_joins(fields, i);
        let first = gsdml::bits_line(n, prefix, i);
        let bit = gsdml::bit_line(n, prefix, refs[i].bit, i);
        let none = Seq::<char>::empty();
        lemma_nothing();
        assert(m.closed(none));
        assert(m.closed(gsdml::bits_id(n, prefix, i)));
        assert(m.closed(template::BITS@ + gsdml::bits_id(n, prefix, i)));
        assert(m.closed(template::BITS_OPENED@));
        assert(m.closed(first));
        assert(free(bit, 'D'));
        assert(m.closed(bit));
        assert(m.closed(template::BITS_CLOSE@));
        let opening = if gsdml::joins_previous(refs, i) {
            none
        } else {
            first
        };
        let closing = if gsdml::group_last(refs, i) == i {
            template::BITS_CLOSE@
        } else {
            none
        };
        assert(m.closed(opening + bit));
        assert(m.closed(opening + bit + closing));
    }
}

/// The lines of the first fields declare the bytes that these take, and no module.
proof fn lemma_lines(n: u16, prefix: Seq<char>, fields: Seq<FieldType>, k: int)
    requires
        0 <= k <= fields.len(),
        inert(prefix),
        config::layout_len(fields) <= u16::MAX,
    ensures
        ({
            let lines = gsdml::lines_of(n, prefix, config::field_refs(fields), k);
            &&& free(lines, 'M')
            &&& Measure::DataBytes.closed(lines)
            &&& Measure::DataBytes.of(lines) == config::bytes_of(fields, k)
        }),
    decreases k,
{
    broadcast use lemma_free_join, lemma_join, lemma_free_counts_nothing;

    let refs = config::field_refs(fields);
    if k > 0 {
        lemma_lines(n, prefix, fields, k - 1);
        lemma_field_lines_modules(n, prefix, refs, k - 1);
        lemma_field_lines_bytes(n, prefix, fields, k - 1);
        assert(Measure::DataBytes.closed(
            gsdml::lines_of(n, prefix, refs, k - 1) + gsdml::field_lines(n, prefix, refs, k - 1),
        ));
    } else {
        lemma_nothing();
        assert(Measure::DataBytes.closed(Seq::<char>::empty()));
    }
}

/// The names of the two directions, as tags too.
pub proof fn lemma_direction_names()
    ensures
        inert("Input"@),
        inert("Output"@),
        inert("In"@),
        inert("Out"@),
        free(template::DIRECTION_OPEN@ + "Input"@, 'M'),
        free(template::DIRECTION_OPEN@ + "Input"@, 'D'),
        free(template::DIRECTION_OPEN@ + "Output"@, 'M'),
        free(template::DIRECTION_OPEN@ + "Output"@, 'D'),
{
    reveal(inert);
    reveal(free);
    reveal_strlit("Input");
    reveal_strlit("Output");
    reveal_strlit("In");
    reveal_strlit("Out");
    reveal_strlit(r#"                <"#);
}

/// The items of one direction declare the bytes of its layout, and no module.
pub proof fn lemma_direction(n: u16, input: bool, fields: Seq<FieldType>)
    requires
        config::layout_len(fields) <= u16::MAX,
    ensures
        ({
            let data = direction(n, input, fields);
            &&& free(data, 'M')
            &&& Measure::DataBytes.closed(data)
            &&& Measure::DataBytes.of(data) == config::layout_len(fields)
        }),
{
    broadcast use lemma_free_join, lemma_join, lemma_free_counts_nothing, lemma_inert_is_free;

    lemma_direction_names();
    let m = Measure::DataBytes;
    let refs = config::field_refs(fields);
    let (tag, prefix) = if input {
        ("Input"@, "In"@)
    } else {
        ("Output"@, "Out"@)
    };
    lemma_module_parts();
    lemma_lines(n, prefix, fields, fields.len() as int);
    let open = template::DIRECTION_OPEN@ + tag;
    let a = open + template::DIRECTION_OPEN_END@;
    let lines = gsdml::lines_of(n, prefix, refs, refs.len() as int);
    let (b, c) = (template::DIRECTION_CLOSE@, template::DIRECTION_CLOSE_END@);
    assert(free(a, 'D') && free(b, 'D') && free(tag, 'D') && free(c, 'D'));
    assert(m.closed(a) && m.closed(b) && m.closed(tag) && m.closed(c));
    assert(m.closed(a + lines));
    assert(m.closed(a + lines + b));
    assert(m.closed(a + lines + b + tag));
    assert(m.closed(a + lines + b + tag + c));
    assert(free(a + lines + b + tag + c, 'M'));
    if fields.len() == 0 {
        lemma_nothing();
        assert(m.closed(Seq::<char>::empty()));
    }
}

/// What stands in a direction before the lines of a field declares the bytes of the fields
/// before it.
pub proof fn lemma_before_field(n: u16, input: bool, fields: Seq<FieldType>, j: int)
    requires
        config::layout_len(fields) <= u16::MAX,
        0 <= j < fields.len(),
    ensures
        Measure::DataBytes.of(gsdml::contents::before_field(n, input, fields, j))
            == config::bytes_of(fields, j),
{
    broadcast use lemma_free_join, lemma_join, lemma_free_counts_nothing, lemma_inert_is_free;

    lemma_direction_names();
    let m = Measure::DataBytes;
    let (tag, prefix) = if input {
        ("Input"@, "In"@)
    } else {
        ("Output"@, "Out"@)
    };
    lemma_module_parts();
    lemma_lines(n, prefix, fields, j);
    let open = template::DIRECTION_OPEN@ + tag;
    let a = open + template::DIRECTION_OPEN_END@;
    assert(free(a, 'D'));
    assert(m.closed(a));
    assert(m.closed(a + gsdml::lines_of(n, prefix, config::field_refs(fields), j)));
}

/// The data of one direction of a slot.
pub open spec fn direction(n: u16, input: bool, fields: Seq<FieldType>) -> Seq<char> {
    if input {
        gsdml::direction_text(n, "Input"@, "In"@, config::field_refs(fields))
    } else {
        gsdml::direction_text(n, "Output"@, "Out"@, config::field_refs(fields))
    }
}

// ---------------------------------------------------------------------------------
// Modules
// ---------------------------------------------------------------------------------

/// The front of a module begins one, and declares no data.
proof fn lemma_module_head(cfg: config::ConfigView, n: u16)
    requires
        cfg.im0.fault() is None,
    ensures
        Measure::Modules.closed(gsdml::module_head(cfg, n)),
        Measure::Modules.of(gsdml::module_head(cfg, n)) == 1,
        free(gsdml::module_head(cfg, n), 'D'),
{
    broadcast use lemma_free_join, lemma_join, lemma_free_counts_nothing, lemma_inert_is_free;

    let m = Measure::Modules;
    lemma_module_parts();
    lemma_data_parts();
    lemma_other_tags();
    lemma_module_start();
    lemma_identity(cfg.im0);
    lemma_dec_inert(n as int);
    lemma_hex_inert(0x100 + n, 8);
    let slot = text::dec_text(n as int);
    let a = template::MODULE@ + slot;
    let b = a + template::MODULE_IDENT@;
    let c = b + text::upper_hex_text(0x100 + n, 8);
    let d = c + template::MODULE_NAME@;
    let e = d + slot;
    let f = e + template::MODULE_INFO@;
    let g = f + slot;
    let rest = template::MODULE_IDENTITY@ + gsdml::identity_text(cfg.im0)
        + template::MODULE_SUBMODULE@ + slot + template::IO_DATA@;
    assert(free(rest, 'M') && free(rest, 'D'));
    assert(m.closed(slot) && m.closed(template::MODULE_IDENT@) && m.closed(
        text::upper_hex_text(0x100 + n, 8),
    ) && m.closed(template::MODULE_INFO@) && m.closed(rest));
    assert(m.closed(a));
    assert(m.closed(b));
    assert(m.closed(c));
    assert(m.closed(d));
    assert(m.closed(e));
    assert(m.closed(f));
    assert(m.closed(g));
    assert(m.closed(g + rest));
    assert(free(g, 'D'));
    assert(free(g + rest, 'D'));
}

/// The end of a module begins none, and declares no data.
proof fn lemma_module_tail(n: u16)
    ensures
        Measure::Modules.closed(gsdml::module_tail(n)),
        Measure::Modules.of(gsdml::module_tail(n)) == 0,
        free(gsdml::module_tail(n), 'D'),
{
    broadcast use lemma_free_join, lemma_join, lemma_free_counts_nothing, lemma_inert_is_free;

    let m = Measure::Modules;
    lemma_module_parts();
    lemma_data_parts();
    lemma_other_tags();
    lemma_dec_inert(n as int);
    let slot = text::dec_text(n as int);
    let a = template::MODULE_CLOSE@ + slot;
    let b = a + template::MODULE_CLOSE_INFO@;
    let c = b + slot;
    assert(m.closed(slot) && m.closed(template::MODULE_CLOSE_INFO@) && m.closed(
        template::MODULE_END@,
    ));
    assert(m.closed(a));
    assert(m.closed(b));
    assert(m.closed(c));
    assert(m.closed(c + template::MODULE_END@));
    assert(free(c + template::MODULE_END@, 'D'));
}

/// A module is one, and its items declare the bytes of both its directions.
pub proof fn lemma_module(cfg: config::ConfigView, s: config::SubmoduleView)
    requires
        cfg.im0.fault() is None,
        config::layout_len(s.inputs) <= u16::MAX,
        config::layout_len(s.outputs) <= u16::MAX,
    ensures
        Measure::Modules.closed(gsdml::module_text(cfg, s)),
        Measure::Modules.of(gsdml::module_text(cfg, s)) == 1,
        Measure::DataBytes.of(gsdml::module_text(cfg, s)) == config::layout_len(s.inputs)
            + config::layout_len(s.outputs),
{
    broadcast use lemma_join, lemma_free_counts_nothing;

    let (m, b) = (Measure::Modules, Measure::DataBytes);
    let n = s.slot.0;
    lemma_module_head(cfg, n);
    lemma_module_tail(n);
    lemma_direction(n, true, s.inputs);
    lemma_direction(n, false, s.outputs);
    let (head, tail) = (gsdml::module_head(cfg, n), gsdml::module_tail(n));
    let (i, o) = (direction(n, true, s.inputs), direction(n, false, s.outputs));
    assert(b.closed(head) && b.closed(tail));
    assert(m.closed(i) && m.closed(o));
    assert(b.closed(head + i) && m.closed(head + i));
    assert(b.closed(head + i + o) && m.closed(head + i + o));
    assert(b.closed(head + i + o + tail) && m.closed(head + i + o + tail));
}

/// As many modules as are written.
pub proof fn lemma_modules(cfg: config::ConfigView, k: int)
    requires
        cfg.wf(),
        0 <= k <= cfg.submodules.len(),
    ensures
        Measure::Modules.closed(gsdml::modules_text(cfg, k)),
        Measure::Modules.of(gsdml::modules_text(cfg, k)) == k,
    decreases k,
{
    broadcast use lemma_join, lemma_free_counts_nothing;

    let m = Measure::Modules;
    if k > 0 {
        let s = cfg.submodules[k - 1];
        assert(config::submodule_fault(cfg.submodules, k - 1) is None);
        lemma_modules(cfg, k - 1);
        lemma_module(cfg, s);
        assert(m.closed(gsdml::modules_text(cfg, k - 1) + gsdml::module_text(cfg, s)));
    } else {
        lemma_nothing();
        assert(m.closed(Seq::<char>::empty()));
    }
}

// ---------------------------------------------------------------------------------
// Texts
// ---------------------------------------------------------------------------------

/// Whether no text of a table holds a tag.
pub open spec fn all_inert(texts: Seq<TextView>) -> bool {
    forall|i: int| 0 <= i < texts.len() ==> inert((#[trigger] texts[i]).id) && inert(texts[i].value)
}

proof fn lemma_all_inert_join(a: Seq<TextView>, b: Seq<TextView>)
    requires
        all_inert(a),
        all_inert(b),
    ensures
        all_inert(a + b),
{
    let s = a + b;
    assert forall|i: int| 0 <= i < s.len() implies inert((#[trigger] s[i]).id) && inert(
        s[i].value,
    ) by {
        if i < a.len() {
            assert(s[i] == a[i]);
        } else {
            assert(s[i] == b[i - a.len()]);
        }
    }
}

/// The words of texts hold no tag.
proof fn lemma_words_inert()
    ensures
        inert(" "@),
        inert(" ("@),
        inert(")"@),
        inert(" bits "@),
        inert(".."@),
        inert(" (Bool)"@),
        inert("M"@),
        inert("_Name"@),
        inert("_Info"@),
        inert("Slot "@),
        inert(": "@),
        inert(" input bytes, "@),
        inert(" output bytes"@),
        inert("T_InfoText"@),
        inert("T_DAP_Name"@),
        inert("T_DAP_Info"@),
        inert("T_Interface"@),
        inert("T_Port1"@),
        inert(" DAP"@),
        inert("Device access point"@),
        inert("PROFINET interface"@),
        inert("Port 1"@),
{
    reveal(inert);
    reveal_strlit(" ");
    reveal_strlit(" (");
    reveal_strlit(")");
    reveal_strlit(" bits ");
    reveal_strlit("..");
    reveal_strlit(" (Bool)");
    reveal_strlit("M");
    reveal_strlit("_Name");
    reveal_strlit("_Info");
    reveal_strlit("Slot ");
    reveal_strlit(": ");
    reveal_strlit(" input bytes, ");
    reveal_strlit(" output bytes");
    reveal_strlit("T_InfoText");
    reveal_strlit("T_DAP_Name");
    reveal_strlit("T_DAP_Info");
    reveal_strlit("T_Interface");
    reveal_strlit("T_Port1");
    reveal_strlit(" DAP");
    reveal_strlit("Device access point");
    reveal_strlit("PROFINET interface");
    reveal_strlit("Port 1");
}

proof fn lemma_group_last(refs: Seq<FieldRef>, i: int)
    requires
        0 <= i < refs.len(),
    ensures
        i <= gsdml::group_last(refs, i) < refs.len(),
    decreases refs.len() - i,
{
    if i + 1 < refs.len() && gsdml::joins_previous(refs, i + 1) {
        lemma_group_last(refs, i + 1);
    }
}

proof fn lemma_field_texts_inert(n: u16, prefix: Seq<char>, refs: Seq<FieldRef>, k: int)
    requires
        0 <= k <= refs.len(),
        inert(prefix),
    ensures
        all_inert(gsdml::texts_of(n, prefix, refs, k)),
    decreases k,
{
    broadcast use lemma_inert_join;

    if k > 0 {
        let i = k - 1;
        lemma_field_texts_inert(n, prefix, refs, i);
        lemma_words_inert();
        lemma_ids_inert(n, prefix, i);
        lemma_names_inert(refs[i].ty);
        lemma_group_last(refs, i);
        lemma_dec_inert(i);
        lemma_dec_inert(gsdml::group_last(refs, i));
        let texts = gsdml::field_texts(n, prefix, refs, i);
        assert(inert(prefix + " "@ + text::dec_text(i) + " ("@ + gsdml::field_name(refs[i].ty)
            + ")"@));
        assert(inert(prefix + " "@ + text::dec_text(i) + " (Bool)"@));
        assert(inert(prefix + " bits "@ + text::dec_text(i) + ".."@ + text::dec_text(
            gsdml::group_last(refs, i),
        )));
        assert(all_inert(texts));
        lemma_all_inert_join(gsdml::texts_of(n, prefix, refs, i), texts);
    }
}

proof fn lemma_module_texts_inert(s: config::SubmoduleView)
    requires
        config::layout_len(s.inputs) >= 0,
        config::layout_len(s.outputs) >= 0,
    ensures
        all_inert(gsdml::module_texts(s)),
{
    broadcast use lemma_inert_join;

    let n = s.slot.0;
    lemma_words_inert();
    lemma_direction_names();
    lemma_escaped_inert(s.name);
    lemma_dec_inert(n as int);
    lemma_dec_inert(config::layout_len(s.inputs));
    lemma_dec_inert(config::layout_len(s.outputs));
    assert(inert(gsdml::module_info(s)));
    assert(inert(gsdml::module_id(n, "_Name"@)));
    assert(inert(gsdml::module_id(n, "_Info"@)));
    let names = gsdml::module_names(s);
    assert(all_inert(names));
    let (i, o) = (config::field_refs(s.inputs), config::field_refs(s.outputs));
    lemma_field_texts_inert(n, "In"@, i, s.inputs.len() as int);
    lemma_field_texts_inert(n, "Out"@, o, s.outputs.len() as int);
    let ins = gsdml::texts_of(n, "In"@, i, s.inputs.len() as int);
    let outs = gsdml::texts_of(n, "Out"@, o, s.outputs.len() as int);
    lemma_all_inert_join(names, ins);
    lemma_all_inert_join(names + ins, outs);
}

proof fn lemma_modules_texts_inert(cfg: config::ConfigView, k: int)
    requires
        0 <= k <= cfg.submodules.len(),
    ensures
        all_inert(gsdml::modules_texts(cfg, k)),
    decreases k,
{
    if k > 0 {
        let s = cfg.submodules[k - 1];
        lemma_modules_texts_inert(cfg, k - 1);
        config::lemma_bytes_grow(s.inputs, 0, s.inputs.len() as int);
        config::lemma_bytes_grow(s.outputs, 0, s.outputs.len() as int);
        lemma_module_texts_inert(s);
        lemma_all_inert_join(gsdml::modules_texts(cfg, k - 1), gsdml::module_texts(s));
    }
}

pub proof fn lemma_document_texts_inert(cfg: config::ConfigView, meta: GsdmlMeta)
    ensures
        all_inert(gsdml::document_texts(cfg, meta)),
{
    broadcast use lemma_inert_join;

    lemma_words_inert();
    lemma_escaped_inert(meta.info_text@);
    lemma_escaped_inert(meta.product_family@);
    let n = cfg.submodules.len() as int;
    assert(all_inert(gsdml::device_texts(meta)));
    lemma_modules_texts_inert(cfg, n);
    lemma_all_inert_join(gsdml::device_texts(meta), gsdml::modules_texts(cfg, n));
}

/// No module begins in a text table.
proof fn lemma_text_lines(texts: Seq<TextView>)
    requires
        all_inert(texts),
    ensures
        free(gsdml::text_lines(texts), 'M'),
    decreases texts.len(),
{
    broadcast use lemma_free_join, lemma_inert_is_free;

    lemma_nothing();
    lemma_module_parts();
    if texts.len() > 0 {
        let t = texts.last();
        assert(all_inert(texts.drop_last())) by {
            assert forall|i: int| 0 <= i < texts.len() - 1 implies inert(
                (#[trigger] texts.drop_last()[i]).id,
            ) && inert(texts.drop_last()[i].value) by {
                assert(texts.drop_last()[i] == texts[i]);
            }
        }
        lemma_text_lines(texts.drop_last());
        assert(free(gsdml::text_line(t), 'M'));
    }
}

// ---------------------------------------------------------------------------------
// The document
// ---------------------------------------------------------------------------------

/// The document up to its modules.
pub open spec fn front(cfg: config::ConfigView, meta: GsdmlMeta) -> Seq<char> {
    gsdml::device_identity(cfg, meta) + gsdml::access_point(cfg, meta) + gsdml::access_point_data(
        cfg,
    ) + gsdml::ref_lines(cfg.submodules, cfg.submodules.len() as int) + template::SEND_CLOCK@
        + gsdml::send_clocks(cfg.min_device_interval) + template::MODULES@
}

proof fn lemma_refs(subs: Seq<config::SubmoduleView>, k: int)
    ensures
        Measure::Modules.closed(gsdml::ref_lines(subs, k)),
        Measure::Modules.of(gsdml::ref_lines(subs, k)) == 0,
    decreases k,
{
    broadcast use lemma_join, lemma_free_counts_nothing, lemma_inert_is_free;

    let m = Measure::Modules;
    lemma_nothing();
    lemma_device_parts();
    lemma_other_tags();
    if k > 0 {
        let slot = text::dec_text(subs[k - 1].slot.0 as int);
        lemma_refs(subs, k - 1);
        lemma_dec_inert(subs[k - 1].slot.0 as int);
        let a = template::MODULE_REF@ + slot;
        let b = a + template::ALLOWED_SLOT@;
        let c = b + slot;
        assert(m.closed(slot) && m.closed(template::ALLOWED_SLOT@) && m.closed(
            template::MODULE_REF_END@,
        ));
        assert(m.closed(a));
        assert(m.closed(b));
        assert(m.closed(c));
        assert(m.closed(c + template::MODULE_REF_END@));
        assert(m.closed(gsdml::ref_lines(subs, k - 1) + gsdml::ref_line(subs[k - 1].slot.0)));
    } else {
        assert(m.closed(Seq::<char>::empty()));
    }
}

proof fn lemma_access_point(cfg: config::ConfigView, meta: GsdmlMeta)
    ensures
        Measure::Modules.closed(gsdml::access_point(cfg, meta)),
        Measure::Modules.of(gsdml::access_point(cfg, meta)) == 0,
{
    broadcast use lemma_free_join, lemma_join, lemma_free_counts_nothing, lemma_inert_is_free;

    let m = Measure::Modules;
    lemma_device_parts();
    lemma_other_tags();
    lemma_dec_inert(cfg.submodules.last().slot.0 as int);
    lemma_dec_inert(cfg.min_device_interval as int);
    lemma_escaped_inert(cfg.station_name);
    lemma_escaped_inert(meta.vendor_name@);
    let a = template::SLOTS@ + text::dec_text(cfg.submodules.last().slot.0 as int)
        + template::INTERVAL@ + text::dec_text(cfg.min_device_interval as int) + template::STATION@
        + gsdml::escaped(cfg.station_name);
    assert(free(a, 'M'));
    assert(m.closed(a));
    assert(m.closed(a + template::DAP_VENDOR@));
    assert(m.closed(gsdml::escaped(meta.vendor_name@)));
    assert(m.closed(a + template::DAP_VENDOR@ + gsdml::escaped(meta.vendor_name@)));
}

proof fn lemma_device_identity(cfg: config::ConfigView, meta: GsdmlMeta)
    ensures
        free(gsdml::device_identity(cfg, meta), 'M'),
{
    broadcast use lemma_free_join, lemma_inert_is_free;

    lemma_device_parts();
    lemma_hex_inert(cfg.vendor_id as int, 4);
    lemma_hex_inert(cfg.device_id as int, 4);
    lemma_escaped_inert(meta.vendor_name@);
    lemma_escaped_inert(meta.product_family@);
}

proof fn lemma_access_point_data(cfg: config::ConfigView)
    requires
        cfg.wf(),
    ensures
        free(gsdml::access_point_data(cfg), 'M'),
{
    broadcast use lemma_free_join, lemma_inert_is_free;

    let n = cfg.submodules.len() as int;
    config::lemma_cr_bytes_bound(cfg.submodules, n);
    lemma_device_parts();
    lemma_identity(cfg.im0);
    lemma_dec_inert(config::input_cr_bytes(cfg.submodules, n));
    lemma_dec_inert(config::output_cr_bytes(cfg.submodules, n));
    lemma_dec_inert(
        config::input_cr_bytes(cfg.submodules, n) + config::output_cr_bytes(cfg.submodules, n),
    );
}

/// The send clocks hold no tag.
pub proof fn lemma_send_clocks_inert(interval: u16)
    ensures
        inert(gsdml::send_clocks(interval)),
{
    broadcast use lemma_inert_join;

    lemma_dec_inert(interval as int);
    assert(inert("32"@) && inert(" 32"@)) by {
        reveal(inert);
        reveal_strlit("32");
        reveal_strlit(" 32");
    }
}

/// No module begins before the list of modules.
pub proof fn lemma_front(cfg: config::ConfigView, meta: GsdmlMeta)
    requires
        cfg.wf(),
    ensures
        Measure::Modules.closed(front(cfg, meta)),
        Measure::Modules.of(front(cfg, meta)) == 0,
{
    broadcast use lemma_free_join, lemma_join, lemma_free_counts_nothing, lemma_inert_is_free;

    let m = Measure::Modules;
    let n = cfg.submodules.len() as int;
    lemma_other_tags();
    lemma_device_identity(cfg, meta);
    lemma_access_point(cfg, meta);
    lemma_access_point_data(cfg);
    lemma_refs(cfg.submodules, n);
    let clocks = gsdml::send_clocks(cfg.min_device_interval);
    lemma_send_clocks_inert(cfg.min_device_interval);
    assert(free(clocks, 'M'));
    let a = gsdml::device_identity(cfg, meta);
    let b = a + gsdml::access_point(cfg, meta);
    let c = b + gsdml::access_point_data(cfg);
    let d = c + gsdml::ref_lines(cfg.submodules, n);
    let e = d + template::SEND_CLOCK@;
    let f = e + clocks;
    assert(m.closed(a));
    assert(m.closed(gsdml::access_point_data(cfg)) && m.closed(clocks));
    assert(m.closed(b));
    assert(m.closed(c));
    assert(m.closed(d));
    assert(m.closed(e));
    assert(m.closed(f));
    assert(m.closed(f + template::MODULES@));
}

/// A document has as many modules as submodules are declared.
pub proof fn lemma_document(cfg: config::ConfigView, meta: GsdmlMeta)
    requires
        cfg.wf(),
    ensures
        Measure::Modules.of(gsdml::document(cfg, meta)) == cfg.submodules.len(),
{
    broadcast use lemma_join, lemma_free_counts_nothing;

    let m = Measure::Modules;
    let n = cfg.submodules.len() as int;
    lemma_front(cfg, meta);
    lemma_modules(cfg, n);
    lemma_module_parts();
    lemma_document_texts_inert(cfg, meta);
    let lines = gsdml::text_lines(gsdml::document_texts(cfg, meta));
    lemma_text_lines(gsdml::document_texts(cfg, meta));
    let a = gsdml::modules_text(cfg, n) + template::TEXTS@;
    let b = a + lines;
    let c = b + template::EPILOG@;
    assert(m.closed(template::TEXTS@) && m.closed(lines) && m.closed(template::EPILOG@));
    assert(m.closed(a));
    assert(m.closed(b));
    assert(m.closed(c));
    assert(m.closed(front(cfg, meta) + c));
}

} // verus!
