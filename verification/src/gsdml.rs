//! GSDML V2.4 rendering from a [`DeviceConfig`]: same object, same idents, same field order
//! as the code, so the file cannot drift from what the device answers. A text template: the
//! fixed parts stand in [`template`].

use vstd::prelude::*;

use crate::config::{self, DeviceConfig, Direction, FieldRef};
use crate::data::FieldType;
use crate::im::Im0;
use crate::text;

pub mod contents;
pub mod references;
pub mod tags;
pub mod template;
pub mod texts;

verus! {

/// Vendor/product texts and the date that go into the file (and its name).
#[derive(Debug, PartialEq, Eq)]
pub struct GsdmlMeta {
    /// `VendorName`/`DeviceIdentity` text; also cleaned to `[A-Za-z0-9]` for the file name.
    pub vendor_name: String,
    /// `ProductFamily` text; also cleaned to `[A-Za-z0-9]` for the file name.
    pub product_family: String,
    /// `InfoText` shown for the device in the hardware catalog.
    pub info_text: String,
    /// (year, month, day): the GSDML release date, also the file-name suffix.
    pub date: (u16, u8, u8),
}

impl Clone for GsdmlMeta {
    fn clone(&self) -> (r: Self)
        ensures
            r == *self,
    {
        GsdmlMeta {
            vendor_name: self.vendor_name.clone(),
            product_family: self.product_family.clone(),
            info_text: self.info_text.clone(),
            date: self.date,
        }
    }
}

/// Whether `c` is an ASCII letter or digit.
pub open spec fn is_alphanumeric(c: char) -> bool {
    '0' <= c <= '9' || 'A' <= c <= 'Z' || 'a' <= c <= 'z'
}

/// The ASCII letters and digits of `s`, in order.
pub open spec fn cleaned(s: Seq<char>) -> Seq<char>
    decreases s.len(),
{
    if s.len() == 0 {
        s
    } else if is_alphanumeric(s.last()) {
        cleaned(s.drop_last()).push(s.last())
    } else {
        cleaned(s.drop_last())
    }
}

fn push_cleaned(out: &mut String, s: &str)
    ensures
        final(out)@ == old(out)@ + cleaned(s@),
{
    let given = text::chars_of(s);
    let mut i: usize = 0;
    assert(out@ =~= old(out)@ + cleaned(s@.take(0)));
    while i < given.len()
        invariant
            i <= given@.len(),
            given@ == s@,
            out@ == old(out)@ + cleaned(s@.take(i as int)),
        decreases given@.len() - i,
    {
        let c: char = given[i];
        assert(s@.take(i + 1).drop_last() =~= s@.take(i as int));
        assert(s@.take(i + 1).last() == c);
        if ('0' <= c && c <= '9') || ('A' <= c && c <= 'Z') || ('a' <= c && c <= 'z') {
            out.push(c);
        }
        i = i + 1;
        assert(out@ =~= old(out)@ + cleaned(s@.take(i as int)));
    }
    assert(s@.take(i as int) =~= s@);
}

/// The file name of a document.
pub open spec fn name_of_file(meta: GsdmlMeta) -> Seq<char> {
    "GSDML-V2.4-"@ + cleaned(meta.vendor_name@) + "-"@ + cleaned(meta.product_family@) + "-"@
        + text::padded_dec_text(meta.date.0 as int, 4) + text::padded_dec_text(
        meta.date.1 as int,
        2,
    ) + text::padded_dec_text(meta.date.2 as int, 2) + ".xml"@
}

/// `GSDML-V2.4-<Vendor>-<Product>-<YYYYMMDD>.xml`, names stripped to `[A-Za-z0-9]`
/// (engineering tools reject files that do not match this pattern).
pub fn file_name(meta: &GsdmlMeta) -> (r: String)
    ensures
        r@ == name_of_file(*meta),
{
    let mut r = "GSDML-V2.4-".to_owned();
    push_cleaned(&mut r, meta.vendor_name.as_str());
    r.append("-");
    push_cleaned(&mut r, meta.product_family.as_str());
    r.append("-");
    text::push_padded_dec(&mut r, meta.date.0 as u64, 4);
    text::push_padded_dec(&mut r, meta.date.1 as u64, 2);
    text::push_padded_dec(&mut r, meta.date.2 as u64, 2);
    r.append(".xml");
    r
}

/// What stands for a character in attribute or text content.
pub open spec fn entity(c: char) -> Seq<char> {
    if c == '&' {
        "&amp;"@
    } else if c == '<' {
        "&lt;"@
    } else if c == '>' {
        "&gt;"@
    } else if c == '"' {
        "&quot;"@
    } else if c == '\'' {
        "&apos;"@
    } else {
        seq![c]
    }
}

/// `s` with the five XML specials replaced.
pub open spec fn escaped(s: Seq<char>) -> Seq<char>
    decreases s.len(),
{
    if s.len() == 0 {
        s
    } else {
        escaped(s.drop_last()) + entity(s.last())
    }
}

/// Appends `s` with the five XML specials replaced.
fn push_escaped(out: &mut String, s: &str)
    ensures
        final(out)@ == old(out)@ + escaped(s@),
{
    let given = text::chars_of(s);
    let mut i: usize = 0;
    assert(out@ =~= old(out)@ + escaped(s@.take(0)));
    while i < given.len()
        invariant
            i <= given@.len(),
            given@ == s@,
            out@ == old(out)@ + escaped(s@.take(i as int)),
        decreases given@.len() - i,
    {
        let c: char = given[i];
        let ghost before = out@;
        assert(s@.take(i + 1).drop_last() =~= s@.take(i as int));
        assert(s@.take(i + 1).last() == c);
        match c {
            '&' => out.append("&amp;"),
            '<' => out.append("&lt;"),
            '>' => out.append("&gt;"),
            '"' => out.append("&quot;"),
            '\'' => out.append("&apos;"),
            _ => out.push(c),
        }
        assert(out@ =~= before + entity(c));
        i = i + 1;
        assert(out@ =~= old(out)@ + escaped(s@.take(i as int)));
    }
    assert(s@.take(i as int) =~= s@);
}

/// Escape the five XML specials for attribute/text content.
pub fn escape(s: &str) -> (r: String)
    ensures
        r@ == escaped(s@),
{
    let mut r = String::new();
    push_escaped(&mut r, s);
    assert(r@ =~= escaped(s@));
    r
}

/// Escaped text cannot end an attribute or begin a tag: it holds no quote and no angle
/// bracket.
pub proof fn escaped_text_is_inert(s: Seq<char>)
    ensures
        forall|i: int|
            0 <= i < escaped(s).len() ==> {
                let c = #[trigger] escaped(s)[i];
                c != '<' && c != '>' && c != '"' && c != '\''
            },
    decreases s.len(),
{
    if s.len() > 0 {
        escaped_text_is_inert(s.drop_last());
        reveal_strlit("&amp;");
        reveal_strlit("&lt;");
        reveal_strlit("&gt;");
        reveal_strlit("&quot;");
        reveal_strlit("&apos;");
        let (head, tail) = (escaped(s.drop_last()), entity(s.last()));
        assert forall|i: int| 0 <= i < escaped(s).len() implies {
            let c = #[trigger] escaped(s)[i];
            c != '<' && c != '>' && c != '"' && c != '\''
        } by {
            if i < head.len() {
                assert(escaped(s)[i] == head[i]);
            } else {
                assert(escaped(s)[i] == tail[i - head.len()]);
            }
        }
    }
}

/// The GSDML data type of a field type.
pub open spec fn data_type_name(ty: FieldType) -> Seq<char> {
    match ty {
        FieldType::Bool => "Unsigned8"@,
        FieldType::Int => "Integer16"@,
        FieldType::Word => "Unsigned16"@,
        FieldType::Dint => "Integer32"@,
        FieldType::Real => "Float32"@,
    }
}

fn data_type(ty: FieldType) -> (r: &'static str)
    ensures
        r@ == data_type_name(ty),
{
    match ty {
        FieldType::Bool => "Unsigned8",
        FieldType::Int => "Integer16",
        FieldType::Word => "Unsigned16",
        FieldType::Dint => "Integer32",
        FieldType::Real => "Float32",
    }
}

/// The name of a field type.
pub open spec fn field_name(ty: FieldType) -> Seq<char> {
    match ty {
        FieldType::Bool => "Bool"@,
        FieldType::Int => "Int"@,
        FieldType::Word => "Word"@,
        FieldType::Dint => "Dint"@,
        FieldType::Real => "Real"@,
    }
}

fn name_of_field(ty: FieldType) -> (r: &'static str)
    ensures
        r@ == field_name(ty),
{
    match ty {
        FieldType::Bool => "Bool",
        FieldType::Int => "Int",
        FieldType::Word => "Word",
        FieldType::Dint => "Dint",
        FieldType::Real => "Real",
    }
}

/// The text of a revision `<prefix><functional>.<bug fix>.<internal>`.
pub open spec fn revision_text(im0: Im0) -> Seq<char> {
    let r = im0.software_revision;
    seq![r.prefix] + text::dec_text(r.functional as int) + "."@ + text::dec_text(r.bug_fix as int)
        + "."@ + text::dec_text(r.internal as int)
}

/// The three identity elements every module carries.
pub open spec fn identity_text(im0: Im0) -> Seq<char> {
    template::ORDER_NUMBER@ + escaped(im0.order_id@) + template::HARDWARE@ + text::dec_text(
        im0.hardware_revision as int,
    ) + template::SOFTWARE@ + revision_text(im0) + template::IDENTITY_END@
}

/// The three `ModuleInfo` identity elements every module carries, the DAP and each
/// `ModuleItem` alike: the very same `OrderID`, hardware revision and software revision the
/// device answers in its I&M0 record, so the GSDML an engineering tool reads and the wire
/// identity it later checks can never drift.
fn push_identity(out: &mut String, im0: &Im0)
    ensures
        final(out)@ == old(out)@ + identity_text(*im0),
{
    broadcast use text::lemma_add_assoc;

    out.append(template::ORDER_NUMBER);
    push_escaped(out, im0.order_id.as_str());
    out.append(template::HARDWARE);
    text::push_dec(out, im0.hardware_revision as u64);
    out.append(template::SOFTWARE);
    push_revision(out, im0);
    out.append(template::IDENTITY_END);
}

fn push_revision(out: &mut String, im0: &Im0)
    ensures
        final(out)@ == old(out)@ + revision_text(*im0),
{
    let r = im0.software_revision;
    out.push(r.prefix);
    assert(out@ =~= old(out)@ + seq![r.prefix]);
    text::push_dec(out, r.functional as u64);
    out.append(".");
    text::push_dec(out, r.bug_fix as u64);
    out.append(".");
    text::push_dec(out, r.internal as u64);
    assert(out@ =~= old(out)@ + revision_text(*im0));
}

// ---------------------------------------------------------------------------------
// Texts
// ---------------------------------------------------------------------------------

/// One entry of the text table.
struct Text {
    id: String,
    value: String,
}

/// What an entry of the text table holds: the id that elements refer to, and the text.
pub struct TextView {
    pub id: Seq<char>,
    pub value: Seq<char>,
}

impl View for Text {
    type V = TextView;

    closed spec fn view(&self) -> TextView {
        TextView { id: self.id@, value: self.value@ }
    }
}

spec fn text_views(v: Seq<Text>) -> Seq<TextView> {
    v.map_values(|t: Text| t@)
}

fn push_text(texts: &mut Vec<Text>, id: String, value: String)
    ensures
        text_views(final(texts)@) == text_views(old(texts)@).push(
            TextView { id: id@, value: value@ },
        ),
{
    texts.push(Text { id, value });
    assert(text_views(texts@) =~= text_views(old(texts)@).push(
        TextView { id: id@, value: value@ },
    ));
}

/// One line of the text table.
pub open spec fn text_line(t: TextView) -> Seq<char> {
    template::TEXT@ + t.id + template::TEXT_VALUE@ + t.value + template::TEXT_END@
}

/// The lines of a text table.
pub open spec fn text_lines(texts: Seq<TextView>) -> Seq<char>
    decreases texts.len(),
{
    if texts.len() == 0 {
        Seq::empty()
    } else {
        text_lines(texts.drop_last()) + text_line(texts.last())
    }
}

fn push_text_lines(out: &mut String, texts: &Vec<Text>)
    ensures
        final(out)@ == old(out)@ + text_lines(text_views(texts@)),
{
    let ghost all = text_views(texts@);
    let mut i: usize = 0;
    assert(out@ =~= old(out)@ + text_lines(all.take(0)));
    while i < texts.len()
        invariant
            i <= texts@.len(),
            all == text_views(texts@),
            out@ == old(out)@ + text_lines(all.take(i as int)),
        decreases texts@.len() - i,
    {
        let t = &texts[i];
        let ghost before = out@;
        assert(all[i as int] == t@);
        assert(all.take(i + 1).drop_last() =~= all.take(i as int));
        out.append(template::TEXT);
        out.append(t.id.as_str());
        out.append(template::TEXT_VALUE);
        out.append(t.value.as_str());
        out.append(template::TEXT_END);
        assert(out@ =~= before + text_line(t@));
        i = i + 1;
        assert(out@ =~= old(out)@ + text_lines(all.take(i as int)));
    }
    assert(all.take(i as int) =~= all);
}

// ---------------------------------------------------------------------------------
// Fields
// ---------------------------------------------------------------------------------

/// The common start of the text ids of one direction of a slot.
pub open spec fn id_base(n: u16, prefix: Seq<char>) -> Seq<char> {
    "M"@ + text::dec_text(n as int) + "_"@ + prefix
}

fn new_id(n: u16, prefix: &str, i: usize, suffix: &str) -> (r: String)
    ensures
        r@ == id_base(n, prefix@) + text::dec_text(i as int) + suffix@,
{
    let mut r = "M".to_owned();
    text::push_dec(&mut r, n as u64);
    r.append("_");
    r.append(prefix);
    text::push_dec(&mut r, i as u64);
    r.append(suffix);
    r
}

/// Whether field `i` is a bit of the same byte as the field before it.
pub open spec fn joins_previous(refs: Seq<FieldRef>, i: int) -> bool {
    &&& i > 0
    &&& refs[i].ty == FieldType::Bool
    &&& refs[i - 1].ty == FieldType::Bool
    &&& refs[i - 1].byte == refs[i].byte
}

/// The last field of the group of bits that field `i` belongs to.
pub open spec fn group_last(refs: Seq<FieldRef>, i: int) -> int
    decreases refs.len() - i,
{
    if i + 1 < refs.len() && joins_previous(refs, i + 1) {
        group_last(refs, i + 1)
    } else {
        i
    }
}

/// The text id of a byte-typed field.
pub open spec fn scalar_id(n: u16, prefix: Seq<char>, i: int) -> Seq<char> {
    id_base(n, prefix) + text::dec_text(i) + ""@
}

/// The text id of the group of bits that begins with field `i`.
pub open spec fn bits_id(n: u16, prefix: Seq<char>, i: int) -> Seq<char> {
    id_base(n, prefix) + text::dec_text(i) + "_bits"@
}

/// The text id of one bit.
pub open spec fn bit_id(n: u16, prefix: Seq<char>, i: int) -> Seq<char> {
    id_base(n, prefix) + text::dec_text(i) + "_b"@
}

/// The line of a byte-typed field.
pub open spec fn scalar_line(n: u16, prefix: Seq<char>, ty: FieldType, i: int) -> Seq<char> {
    template::SCALAR@ + data_type_name(ty) + template::SCALAR_ID@ + scalar_id(n, prefix, i)
        + template::SCALAR_END@
}

/// The line that opens a group of bits.
pub open spec fn bits_line(n: u16, prefix: Seq<char>, i: int) -> Seq<char> {
    template::BITS@ + bits_id(n, prefix, i) + template::BITS_OPENED@
}

/// The line of one bit.
pub open spec fn bit_line(n: u16, prefix: Seq<char>, bit: u8, i: int) -> Seq<char> {
    template::BIT@ + text::dec_text(bit as int) + template::BIT_ID@ + bit_id(n, prefix, i)
        + template::BIT_END@
}

/// The lines of field `i`: one `DataItem` for a byte type; for a bit its line, inside the
/// group that the bits of the same byte share.
pub open spec fn field_lines(n: u16, prefix: Seq<char>, refs: Seq<FieldRef>, i: int) -> Seq<char> {
    if refs[i].ty != FieldType::Bool {
        scalar_line(n, prefix, refs[i].ty, i)
    } else {
        (if joins_previous(refs, i) {
            Seq::empty()
        } else {
            bits_line(n, prefix, i)
        }) + bit_line(n, prefix, refs[i].bit, i) + (if group_last(refs, i) == i {
            template::BITS_CLOSE@
        } else {
            Seq::empty()
        })
    }
}

/// The texts of field `i`.
pub open spec fn field_texts(n: u16, prefix: Seq<char>, refs: Seq<FieldRef>, i: int) -> Seq<
    TextView,
> {
    if refs[i].ty != FieldType::Bool {
        seq![
            TextView {
                id: scalar_id(n, prefix, i),
                value: prefix + " "@ + text::dec_text(i) + " ("@ + field_name(refs[i].ty) + ")"@,
            },
        ]
    } else {
        (if joins_previous(refs, i) {
            Seq::empty()
        } else {
            seq![
                TextView {
                    id: bits_id(n, prefix, i),
                    value: prefix + " bits "@ + text::dec_text(i) + ".."@ + text::dec_text(
                        group_last(refs, i),
                    ),
                },
            ]
        }).push(
            TextView {
                id: bit_id(n, prefix, i),
                value: prefix + " "@ + text::dec_text(i) + " (Bool)"@,
            },
        )
    }
}

/// The lines of the first `k` fields.
pub open spec fn lines_of(n: u16, prefix: Seq<char>, refs: Seq<FieldRef>, k: int) -> Seq<char>
    decreases k,
{
    if k <= 0 {
        Seq::empty()
    } else {
        lines_of(n, prefix, refs, k - 1) + field_lines(n, prefix, refs, k - 1)
    }
}

/// The texts of the first `k` fields.
pub open spec fn texts_of(n: u16, prefix: Seq<char>, refs: Seq<FieldRef>, k: int) -> Seq<TextView>
    decreases k,
{
    if k <= 0 {
        Seq::empty()
    } else {
        texts_of(n, prefix, refs, k - 1) + field_texts(n, prefix, refs, k - 1)
    }
}

fn joins(refs: &[FieldRef], i: usize) -> (r: bool)
    requires
        i < refs@.len(),
    ensures
        r == joins_previous(refs@, i as int),
{
    i > 0 && refs[i].ty == FieldType::Bool && refs[i - 1].ty == FieldType::Bool && refs[i - 1].byte
        == refs[i].byte
}

fn last_of_group(refs: &[FieldRef], i: usize) -> (r: usize)
    requires
        i < refs@.len(),
    ensures
        r == group_last(refs@, i as int),
{
    let mut k: usize = i;
    while k < refs.len() - 1 && joins(refs, k + 1)
        invariant
            i <= k < refs@.len(),
            group_last(refs@, i as int) == group_last(refs@, k as int),
        decreases refs@.len() - k,
    {
        k = k + 1;
    }
    k
}

/// Appends the lines and the texts of a byte-typed field.
fn push_scalar(out: &mut String, texts: &mut Vec<Text>, n: u16, prefix: &str, ty: FieldType, i: usize)
    ensures
        final(out)@ == old(out)@ + scalar_line(n, prefix@, ty, i as int),
        text_views(final(texts)@) == text_views(old(texts)@).push(
            TextView {
                id: scalar_id(n, prefix@, i as int),
                value: prefix@ + " "@ + text::dec_text(i as int) + " ("@ + field_name(ty) + ")"@,
            },
        ),
{
    broadcast use text::lemma_add_assoc;

    let id = new_id(n, prefix, i, "");
    out.append(template::SCALAR);
    out.append(data_type(ty));
    out.append(template::SCALAR_ID);
    out.append(id.as_str());
    out.append(template::SCALAR_END);
    let mut value = prefix.to_owned();
    value.append(" ");
    text::push_dec(&mut value, i as u64);
    value.append(" (");
    value.append(name_of_field(ty));
    value.append(")");
    push_text(texts, id, value);
}

/// Appends the line that opens a group of bits, and the group's text.
fn push_bits(
    out: &mut String,
    texts: &mut Vec<Text>,
    n: u16,
    prefix: &str,
    i: usize,
    last: usize,
)
    ensures
        final(out)@ == old(out)@ + bits_line(n, prefix@, i as int),
        text_views(final(texts)@) == text_views(old(texts)@).push(
            TextView {
                id: bits_id(n, prefix@, i as int),
                value: prefix@ + " bits "@ + text::dec_text(i as int) + ".."@ + text::dec_text(
                    last as int,
                ),
            },
        ),
{
    broadcast use text::lemma_add_assoc;

    let id = new_id(n, prefix, i, "_bits");
    out.append(template::BITS);
    out.append(id.as_str());
    out.append(template::BITS_OPENED);
    let mut value = prefix.to_owned();
    value.append(" bits ");
    text::push_dec(&mut value, i as u64);
    value.append("..");
    text::push_dec(&mut value, last as u64);
    push_text(texts, id, value);
}

/// Appends the line and the text of one bit.
fn push_bit(out: &mut String, texts: &mut Vec<Text>, n: u16, prefix: &str, bit: u8, i: usize)
    ensures
        final(out)@ == old(out)@ + bit_line(n, prefix@, bit, i as int),
        text_views(final(texts)@) == text_views(old(texts)@).push(
            TextView {
                id: bit_id(n, prefix@, i as int),
                value: prefix@ + " "@ + text::dec_text(i as int) + " (Bool)"@,
            },
        ),
{
    broadcast use text::lemma_add_assoc;

    let id = new_id(n, prefix, i, "_b");
    out.append(template::BIT);
    text::push_dec(out, bit as u64);
    out.append(template::BIT_ID);
    out.append(id.as_str());
    out.append(template::BIT_END);
    let mut value = prefix.to_owned();
    value.append(" ");
    text::push_dec(&mut value, i as u64);
    value.append(" (Bool)");
    push_text(texts, id, value);
}

/// Appends the lines and texts of field `i`.
fn push_field(out: &mut String, texts: &mut Vec<Text>, n: u16, prefix: &str, refs: &[FieldRef], i: usize)
    requires
        i < refs@.len(),
    ensures
        final(out)@ == old(out)@ + field_lines(n, prefix@, refs@, i as int),
        text_views(final(texts)@) == text_views(old(texts)@) + field_texts(
            n,
            prefix@,
            refs@,
            i as int,
        ),
{
    let f = refs[i];
    if f.ty != FieldType::Bool {
        push_scalar(out, texts, n, prefix, f.ty, i);
    } else {
        let last: usize = last_of_group(refs, i);
        if !joins(refs, i) {
            push_bits(out, texts, n, prefix, i, last);
        }
        push_bit(out, texts, n, prefix, f.bit, i);
        if last == i {
            out.append(template::BITS_CLOSE);
        }
    }
    assert(out@ =~= old(out)@ + field_lines(n, prefix@, refs@, i as int));
    assert(text_views(texts@) =~= text_views(old(texts)@) + field_texts(
        n,
        prefix@,
        refs@,
        i as int,
    ));
}

/// The data of one direction: nothing if it has no fields.
pub open spec fn direction_text(n: u16, tag: Seq<char>, prefix: Seq<char>, refs: Seq<FieldRef>) -> Seq<
    char,
> {
    if refs.len() == 0 {
        Seq::empty()
    } else {
        template::DIRECTION_OPEN@ + tag + template::DIRECTION_OPEN_END@ + lines_of(
            n,
            prefix,
            refs,
            refs.len() as int,
        ) + template::DIRECTION_CLOSE@ + tag + template::DIRECTION_CLOSE_END@
    }
}

fn push_direction(
    out: &mut String,
    texts: &mut Vec<Text>,
    n: u16,
    tag: &str,
    prefix: &str,
    refs: &[FieldRef],
)
    requires
        refs@.len() > 0,
    ensures
        final(out)@ == old(out)@ + direction_text(n, tag@, prefix@, refs@),
        text_views(final(texts)@) == text_views(old(texts)@) + texts_of(
            n,
            prefix@,
            refs@,
            refs@.len() as int,
        ),
{
    broadcast use text::lemma_add_assoc;

    out.append(template::DIRECTION_OPEN);
    out.append(tag);
    out.append(template::DIRECTION_OPEN_END);
    push_lines(out, texts, n, prefix, refs);
    out.append(template::DIRECTION_CLOSE);
    out.append(tag);
    out.append(template::DIRECTION_CLOSE_END);
}

fn push_lines(out: &mut String, texts: &mut Vec<Text>, n: u16, prefix: &str, refs: &[FieldRef])
    ensures
        final(out)@ == old(out)@ + lines_of(n, prefix@, refs@, refs@.len() as int),
        text_views(final(texts)@) == text_views(old(texts)@) + texts_of(
            n,
            prefix@,
            refs@,
            refs@.len() as int,
        ),
{
    let mut i: usize = 0;
    assert(out@ =~= old(out)@ + lines_of(n, prefix@, refs@, 0));
    assert(text_views(texts@) =~= text_views(old(texts)@) + texts_of(n, prefix@, refs@, 0));
    while i < refs.len()
        invariant
            i <= refs@.len(),
            out@ == old(out)@ + lines_of(n, prefix@, refs@, i as int),
            text_views(texts@) == text_views(old(texts)@) + texts_of(n, prefix@, refs@, i as int),
        decreases refs@.len() - i,
    {
        push_field(out, texts, n, prefix, refs, i);
        i = i + 1;
        assert(out@ =~= old(out)@ + lines_of(n, prefix@, refs@, i as int));
        assert(text_views(texts@) =~= text_views(old(texts)@) + texts_of(
            n,
            prefix@,
            refs@,
            i as int,
        ));
    }
}

// ---------------------------------------------------------------------------------
// Modules
// ---------------------------------------------------------------------------------

/// A module from its start to its data.
pub open spec fn module_head(cfg: config::ConfigView, n: u16) -> Seq<char> {
    let slot = text::dec_text(n as int);
    (template::MODULE@ + slot + template::MODULE_IDENT@ + text::upper_hex_text(0x100 + n, 8)
        + template::MODULE_NAME@ + slot + template::MODULE_INFO@ + slot) + (
    template::MODULE_IDENTITY@ + identity_text(cfg.im0) + template::MODULE_SUBMODULE@ + slot
        + template::IO_DATA@)
}

/// A module behind its data.
pub open spec fn module_tail(n: u16) -> Seq<char> {
    let slot = text::dec_text(n as int);
    template::MODULE_CLOSE@ + slot + template::MODULE_CLOSE_INFO@ + slot + template::MODULE_END@
}

/// One module: its data in input, then in output direction.
pub open spec fn module_text(cfg: config::ConfigView, s: config::SubmoduleView) -> Seq<char> {
    let n = s.slot.0;
    module_head(cfg, n) + direction_text(n, "Input"@, "In"@, config::field_refs(s.inputs))
        + direction_text(n, "Output"@, "Out"@, config::field_refs(s.outputs)) + module_tail(n)
}

/// The description of a module.
pub open spec fn module_info(s: config::SubmoduleView) -> Seq<char> {
    "Slot "@ + text::dec_text(s.slot.0 as int) + ": "@ + text::dec_text(
        config::layout_len(s.inputs),
    ) + " input bytes, "@ + text::dec_text(config::layout_len(s.outputs)) + " output bytes"@
}

/// The text ids of a module's name and description.
pub open spec fn module_id(n: u16, suffix: Seq<char>) -> Seq<char> {
    "M"@ + text::dec_text(n as int) + suffix
}

/// The name and the description of a module.
pub open spec fn module_names(s: config::SubmoduleView) -> Seq<TextView> {
    seq![
        TextView { id: module_id(s.slot.0, "_Name"@), value: escaped(s.name) },
        TextView { id: module_id(s.slot.0, "_Info"@), value: module_info(s) },
    ]
}

/// The texts of one module.
pub open spec fn module_texts(s: config::SubmoduleView) -> Seq<TextView> {
    module_names(s) + texts_of(
        s.slot.0,
        "In"@,
        config::field_refs(s.inputs),
        s.inputs.len() as int,
    ) + texts_of(s.slot.0, "Out"@, config::field_refs(s.outputs), s.outputs.len() as int)
}

/// The first `k` modules.
pub open spec fn modules_text(cfg: config::ConfigView, k: int) -> Seq<char>
    decreases k,
{
    if k <= 0 {
        Seq::empty()
    } else {
        modules_text(cfg, k - 1) + module_text(cfg, cfg.submodules[k - 1])
    }
}

/// The texts of the first `k` modules.
pub open spec fn modules_texts(cfg: config::ConfigView, k: int) -> Seq<TextView>
    decreases k,
{
    if k <= 0 {
        Seq::empty()
    } else {
        modules_texts(cfg, k - 1) + module_texts(cfg.submodules[k - 1])
    }
}

/// A reference to the module of a slot.
pub open spec fn ref_line(n: u16) -> Seq<char> {
    template::MODULE_REF@ + text::dec_text(n as int) + template::ALLOWED_SLOT@ + text::dec_text(
        n as int,
    ) + template::MODULE_REF_END@
}

/// References to the first `k` modules.
pub open spec fn ref_lines(subs: Seq<config::SubmoduleView>, k: int) -> Seq<char>
    decreases k,
{
    if k <= 0 {
        Seq::empty()
    } else {
        ref_lines(subs, k - 1) + ref_line(subs[k - 1].slot.0)
    }
}

fn push_module_head(out: &mut String, cfg: &DeviceConfig, n: u16)
    ensures
        final(out)@ == old(out)@ + module_head(cfg@, n),
{
    broadcast use text::lemma_add_assoc;

    out.append(template::MODULE);
    text::push_dec(out, n as u64);
    out.append(template::MODULE_IDENT);
    text::push_upper_hex(out, 0x100 + n as u64, 8);
    out.append(template::MODULE_NAME);
    text::push_dec(out, n as u64);
    out.append(template::MODULE_INFO);
    text::push_dec(out, n as u64);
    push_module_identity(out, cfg, n);
}

fn push_module_identity(out: &mut String, cfg: &DeviceConfig, n: u16)
    ensures
        final(out)@ == old(out)@ + (template::MODULE_IDENTITY@ + identity_text(cfg@.im0)
            + template::MODULE_SUBMODULE@ + text::dec_text(n as int) + template::IO_DATA@),
{
    broadcast use text::lemma_add_assoc;

    out.append(template::MODULE_IDENTITY);
    push_identity(out, cfg.im0());
    out.append(template::MODULE_SUBMODULE);
    text::push_dec(out, n as u64);
    out.append(template::IO_DATA);
}

fn push_module_tail(out: &mut String, n: u16)
    ensures
        final(out)@ == old(out)@ + module_tail(n),
{
    broadcast use text::lemma_add_assoc;

    out.append(template::MODULE_CLOSE);
    text::push_dec(out, n as u64);
    out.append(template::MODULE_CLOSE_INFO);
    text::push_dec(out, n as u64);
    out.append(template::MODULE_END);
}

fn push_module_names(texts: &mut Vec<Text>, s: &config::SubmoduleSpec, input_len: u16, output_len: u16)
    requires
        input_len == config::layout_len(s@.inputs),
        output_len == config::layout_len(s@.outputs),
    ensures
        text_views(final(texts)@) == text_views(old(texts)@) + module_names(s@),
{
    let n: u16 = s.slot.0;
    let mut id = "M".to_owned();
    text::push_dec(&mut id, n as u64);
    id.append("_Name");
    push_text(texts, id, escape(s.name.as_str()));
    let mut id = "M".to_owned();
    text::push_dec(&mut id, n as u64);
    id.append("_Info");
    let mut value = "Slot ".to_owned();
    text::push_dec(&mut value, n as u64);
    value.append(": ");
    text::push_dec(&mut value, input_len as u64);
    value.append(" input bytes, ");
    text::push_dec(&mut value, output_len as u64);
    value.append(" output bytes");
    push_text(texts, id, value);
    assert(text_views(texts@) =~= text_views(old(texts)@) + module_names(s@));
}

/// Appends the module of the submodule at position `i`, and its texts.
fn push_module(out: &mut String, texts: &mut Vec<Text>, cfg: &DeviceConfig, i: usize)
    requires
        i < cfg@.submodules.len(),
    ensures
        final(out)@ == old(out)@ + module_text(cfg@, cfg@.submodules[i as int]),
        text_views(final(texts)@) == text_views(old(texts)@) + module_texts(
            cfg@.submodules[i as int],
        ),
{
    let s = &cfg.submodules()[i];
    let n: u16 = s.slot.0;
    proof {
        assert(cfg@.submodules[i as int] == s@);
        config::lemma_own_slot(cfg@, i as int);
    }
    push_module_head(out, cfg, n);
    let input_len: u16 = match cfg.input_len(s.slot) {
        Some(len) => len,
        None => 0,
    };
    let output_len: u16 = match cfg.output_len(s.slot) {
        Some(len) => len,
        None => 0,
    };
    push_module_names(texts, s, input_len, output_len);
    let ghost (inputs, outputs) = (config::field_refs(s@.inputs), config::field_refs(s@.outputs));
    let ghost head = out@;
    let ghost names = text_views(texts@);
    match cfg.fields(s.slot, Direction::Input) {
        Some(refs) => push_direction(out, texts, n, "Input", "In", refs),
        None => {
            assert(inputs.len() == 0);
            assert(out@ =~= head + direction_text(n, "Input"@, "In"@, inputs));
            assert(text_views(texts@) =~= names + texts_of(n, "In"@, inputs, 0));
        },
    }
    let ghost half = out@;
    let ghost half_texts = text_views(texts@);
    match cfg.fields(s.slot, Direction::Output) {
        Some(refs) => push_direction(out, texts, n, "Output", "Out", refs),
        None => {
            assert(outputs.len() == 0);
            assert(out@ =~= half + direction_text(n, "Output"@, "Out"@, outputs));
            assert(text_views(texts@) =~= half_texts + texts_of(n, "Out"@, outputs, 0));
        },
    }
    push_module_tail(out, n);
    assert(out@ =~= old(out)@ + module_text(cfg@, s@));
    assert(text_views(texts@) =~= text_views(old(texts)@) + module_texts(s@));
}

proof fn lemma_assoc<T>(a: Seq<T>, b: Seq<T>, c: Seq<T>)
    ensures
        a + b + c == a + (b + c),
{
    assert(a + b + c =~= a + (b + c));
}

fn push_modules(out: &mut String, texts: &mut Vec<Text>, cfg: &DeviceConfig)
    ensures
        final(out)@ == old(out)@ + modules_text(cfg@, cfg@.submodules.len() as int),
        text_views(final(texts)@) == text_views(old(texts)@) + modules_texts(
            cfg@,
            cfg@.submodules.len() as int,
        ),
{
    let count: usize = cfg.submodules().len();
    let mut i: usize = 0;
    assert(out@ =~= old(out)@ + modules_text(cfg@, 0));
    assert(text_views(texts@) =~= text_views(old(texts)@) + modules_texts(cfg@, 0));
    while i < count
        invariant
            i <= count,
            count == cfg@.submodules.len(),
            out@ == old(out)@ + modules_text(cfg@, i as int),
            text_views(texts@) == text_views(old(texts)@) + modules_texts(cfg@, i as int),
        decreases count - i,
    {
        push_module(out, texts, cfg, i);
        proof {
            lemma_assoc(
                old(out)@,
                modules_text(cfg@, i as int),
                module_text(cfg@, cfg@.submodules[i as int]),
            );
            lemma_assoc(
                text_views(old(texts)@),
                modules_texts(cfg@, i as int),
                module_texts(cfg@.submodules[i as int]),
            );
        }
        i = i + 1;
    }
}

fn push_refs(out: &mut String, cfg: &DeviceConfig)
    ensures
        final(out)@ == old(out)@ + ref_lines(cfg@.submodules, cfg@.submodules.len() as int),
{
    let subs = cfg.submodules();
    let mut i: usize = 0;
    assert(out@ =~= old(out)@ + ref_lines(cfg@.submodules, 0));
    while i < subs.len()
        invariant
            i <= subs@.len(),
            config::submodule_views(subs@) == cfg@.submodules,
            out@ == old(out)@ + ref_lines(cfg@.submodules, i as int),
        decreases subs@.len() - i,
    {
        let n: u16 = subs[i].slot.0;
        let ghost before = out@;
        assert(cfg@.submodules[i as int] == subs@[i as int]@);
        out.append(template::MODULE_REF);
        text::push_dec(out, n as u64);
        out.append(template::ALLOWED_SLOT);
        text::push_dec(out, n as u64);
        out.append(template::MODULE_REF_END);
        assert(out@ =~= before + ref_line(n));
        i = i + 1;
        assert(out@ =~= old(out)@ + ref_lines(cfg@.submodules, i as int));
    }
}

// ---------------------------------------------------------------------------------
// The document
// ---------------------------------------------------------------------------------

/// The document up to the product family.
pub open spec fn device_identity(cfg: config::ConfigView, meta: GsdmlMeta) -> Seq<char> {
    template::PROLOG@ + text::upper_hex_text(cfg.vendor_id as int, 4) + template::DEVICE_ID@
        + text::upper_hex_text(cfg.device_id as int, 4) + template::VENDOR_NAME@ + escaped(
        meta.vendor_name@,
    ) + template::FAMILY@ + escaped(meta.product_family@)
}

/// The start of the device access point: slots, interval, station and vendor.
pub open spec fn access_point(cfg: config::ConfigView, meta: GsdmlMeta) -> Seq<char> {
    template::SLOTS@ + text::dec_text(cfg.submodules.last().slot.0 as int) + template::INTERVAL@
        + text::dec_text(cfg.min_device_interval as int) + template::STATION@ + escaped(
        cfg.station_name,
    ) + template::DAP_VENDOR@ + escaped(meta.vendor_name@)
}

/// The identity and the data lengths of the device access point.
pub open spec fn access_point_data(cfg: config::ConfigView) -> Seq<char> {
    let n = cfg.submodules.len() as int;
    let (input, output) = (
        config::input_cr_bytes(cfg.submodules, n),
        config::output_cr_bytes(cfg.submodules, n),
    );
    template::DAP_IDENTITY@ + identity_text(cfg.im0) + template::MAX_INPUT@ + text::dec_text(input)
        + template::MAX_OUTPUT@ + text::dec_text(output) + template::MAX_DATA@ + text::dec_text(
        input + output,
    ) + template::USEABLE@
}

/// The send clocks offered: the configured one, and always 1 ms.
pub open spec fn send_clocks(interval: u16) -> Seq<char> {
    if interval < 32 {
        text::dec_text(interval as int) + " 32"@
    } else {
        "32"@
    }
}

/// The texts that do not belong to a module.
pub open spec fn device_texts(meta: GsdmlMeta) -> Seq<TextView> {
    seq![
        TextView { id: "T_InfoText"@, value: escaped(meta.info_text@) },
        TextView { id: "T_DAP_Name"@, value: escaped(meta.product_family@) + " DAP"@ },
        TextView { id: "T_DAP_Info"@, value: "Device access point"@ },
        TextView { id: "T_Interface"@, value: "PROFINET interface"@ },
        TextView { id: "T_Port1"@, value: "Port 1"@ },
    ]
}

/// The text table of a document.
pub open spec fn document_texts(cfg: config::ConfigView, meta: GsdmlMeta) -> Seq<TextView> {
    device_texts(meta) + modules_texts(cfg, cfg.submodules.len() as int)
}

/// The GSDML document of a configuration.
pub open spec fn document(cfg: config::ConfigView, meta: GsdmlMeta) -> Seq<char> {
    let n = cfg.submodules.len() as int;
    (device_identity(cfg, meta) + access_point(cfg, meta) + access_point_data(cfg) + ref_lines(
        cfg.submodules,
        n,
    ) + template::SEND_CLOCK@ + send_clocks(cfg.min_device_interval) + template::MODULES@) + (
    modules_text(cfg, n) + template::TEXTS@ + text_lines(document_texts(cfg, meta))
        + template::EPILOG@)
}

fn push_device_identity(out: &mut String, cfg: &DeviceConfig, meta: &GsdmlMeta)
    ensures
        final(out)@ == old(out)@ + device_identity(cfg@, *meta),
{
    broadcast use text::lemma_add_assoc;

    out.append(template::PROLOG);
    text::push_upper_hex(out, cfg.vendor_id() as u64, 4);
    out.append(template::DEVICE_ID);
    text::push_upper_hex(out, cfg.device_id() as u64, 4);
    out.append(template::VENDOR_NAME);
    push_escaped(out, meta.vendor_name.as_str());
    out.append(template::FAMILY);
    push_escaped(out, meta.product_family.as_str());
}

fn push_access_point(out: &mut String, cfg: &DeviceConfig, meta: &GsdmlMeta)
    ensures
        final(out)@ == old(out)@ + access_point(cfg@, *meta),
{
    broadcast use text::lemma_add_assoc;

    let subs = cfg.submodules();
    let last: usize = subs.len() - 1;
    assert(cfg@.submodules.last() == subs@[last as int]@);
    out.append(template::SLOTS);
    text::push_dec(out, subs[last].slot.0 as u64);
    out.append(template::INTERVAL);
    text::push_dec(out, cfg.min_device_interval() as u64);
    out.append(template::STATION);
    push_escaped(out, cfg.station_name());
    out.append(template::DAP_VENDOR);
    push_escaped(out, meta.vendor_name.as_str());
}

fn push_access_point_data(out: &mut String, cfg: &DeviceConfig)
    ensures
        final(out)@ == old(out)@ + access_point_data(cfg@),
{
    broadcast use text::lemma_add_assoc;

    let max_in: u16 = cfg.input_cr_len();
    let max_out: u16 = cfg.output_cr_len();
    out.append(template::DAP_IDENTITY);
    push_identity(out, cfg.im0());
    out.append(template::MAX_INPUT);
    text::push_dec(out, max_in as u64);
    out.append(template::MAX_OUTPUT);
    text::push_dec(out, max_out as u64);
    out.append(template::MAX_DATA);
    text::push_dec(out, max_in as u64 + max_out as u64);
    out.append(template::USEABLE);
}

fn push_send_clocks(out: &mut String, interval: u16)
    ensures
        final(out)@ == old(out)@ + send_clocks(interval),
{
    if interval < 32 {
        text::push_dec(out, interval as u64);
        out.append(" 32");
    } else {
        out.append("32");
    }
    assert(out@ =~= old(out)@ + send_clocks(interval));
}

fn push_device_texts(texts: &mut Vec<Text>, meta: &GsdmlMeta)
    ensures
        text_views(final(texts)@) == text_views(old(texts)@) + device_texts(*meta),
{
    push_text(texts, "T_InfoText".to_owned(), escape(meta.info_text.as_str()));
    let mut name = escape(meta.product_family.as_str());
    name.append(" DAP");
    push_text(texts, "T_DAP_Name".to_owned(), name);
    push_text(texts, "T_DAP_Info".to_owned(), "Device access point".to_owned());
    push_text(texts, "T_Interface".to_owned(), "PROFINET interface".to_owned());
    push_text(texts, "T_Port1".to_owned(), "Port 1".to_owned());
    assert(text_views(texts@) =~= text_views(old(texts)@) + device_texts(*meta));
}

/// Render the GSDML document for `cfg`.
///
/// Where schema and practice leave a choice, the document declares what the device does:
/// - `DeviceAccessPointItem` carries `PNIO_Version="V2.3"`: from `V2.31` on, engineering
///   tools mandate `CertificationInfo` and `LLDP_NoD_Supported="true"` on the DAP,
///   `ResetToFactoryModes="2"`, and `PTP_BoundarySupported="true"`/
///   `DCP_BoundarySupported="true"` on `InterfaceSubmoduleItem`, none of which the device
///   implements. V2.3 is the last profile version without those mandates and still allows
///   `StartupMode="Advanced"`.
/// - `InterfaceSubmoduleItem` carries `SupportedProtocols=""`: the attribute is required, and
///   the device implements neither SNMP nor LLDP.
/// - `PortSubmoduleItem` lists its MAU type via a `<MAUTypeList><MAUTypeItem .../>` child. No
///   `<SubslotList>` element is emitted: the interface and port subslot numbers are carried
///   as `SubslotNumber` attributes.
/// - `IOConfigData`'s `MaxInputLength`/`MaxOutputLength` are the *CR* C-SDU lengths
///   ([`DeviceConfig::input_cr_len`]/[`DeviceConfig::output_cr_len`]), not the sum of the
///   submodules' data lengths. `MaxDataLength` is their sum.
pub fn render(cfg: &DeviceConfig, meta: &GsdmlMeta) -> (x: String)
    ensures
        x@ == document(cfg@, *meta),
{
    let mut x = String::new();
    let mut texts: Vec<Text> = Vec::new();
    push_device_identity(&mut x, cfg, meta);
    push_access_point(&mut x, cfg, meta);
    push_access_point_data(&mut x, cfg);
    push_refs(&mut x, cfg);
    x.append(template::SEND_CLOCK);
    push_send_clocks(&mut x, cfg.min_device_interval());
    x.append(template::MODULES);
    let ghost front = x@;
    push_device_texts(&mut texts, meta);
    push_modules(&mut x, &mut texts, cfg);
    x.append(template::TEXTS);
    assert(text_views(texts@) =~= document_texts(cfg@, *meta));
    push_text_lines(&mut x, &texts);
    x.append(template::EPILOG);
    assert(x@ =~= document(cfg@, *meta));
    x
}

// ---------------------------------------------------------------------------------
// Laws
// ---------------------------------------------------------------------------------

/// Whether `texts` gives `id` a value.
pub open spec fn defines(texts: Seq<TextView>, id: Seq<char>) -> bool {
    exists|j: int| 0 <= j < texts.len() && (#[trigger] texts[j]).id == id
}

proof fn lemma_defines_left(a: Seq<TextView>, b: Seq<TextView>, id: Seq<char>)
    requires
        defines(a, id),
    ensures
        defines(a + b, id),
{
    let j = choose|j: int| 0 <= j < a.len() && (#[trigger] a[j]).id == id;
    assert((a + b)[j].id == id);
}

proof fn lemma_defines_right(a: Seq<TextView>, b: Seq<TextView>, id: Seq<char>)
    requires
        defines(b, id),
    ensures
        defines(a + b, id),
{
    let j = choose|j: int| 0 <= j < b.len() && (#[trigger] b[j]).id == id;
    assert((a + b)[a.len() + j].id == id);
}

proof fn lemma_texts_of_defines(n: u16, prefix: Seq<char>, refs: Seq<FieldRef>, k: int, i: int, id: Seq<char>)
    requires
        0 <= i < k,
        defines(field_texts(n, prefix, refs, i), id),
    ensures
        defines(texts_of(n, prefix, refs, k), id),
    decreases k,
{
    if i == k - 1 {
        lemma_defines_right(
            texts_of(n, prefix, refs, k - 1),
            field_texts(n, prefix, refs, k - 1),
            id,
        );
    } else {
        lemma_texts_of_defines(n, prefix, refs, k - 1, i, id);
        lemma_defines_left(
            texts_of(n, prefix, refs, k - 1),
            field_texts(n, prefix, refs, k - 1),
            id,
        );
    }
}

proof fn lemma_modules_texts_define(cfg: config::ConfigView, k: int, m: int, id: Seq<char>)
    requires
        0 <= m < k,
        defines(module_texts(cfg.submodules[m]), id),
    ensures
        defines(modules_texts(cfg, k), id),
    decreases k,
{
    if m == k - 1 {
        lemma_defines_right(modules_texts(cfg, k - 1), module_texts(cfg.submodules[k - 1]), id);
    } else {
        lemma_modules_texts_define(cfg, k - 1, m, id);
        lemma_defines_left(modules_texts(cfg, k - 1), module_texts(cfg.submodules[k - 1]), id);
    }
}

/// The text ids that the lines of field `i` refer to.
pub open spec fn field_ids(n: u16, prefix: Seq<char>, refs: Seq<FieldRef>, i: int) -> Set<
    Seq<char>,
> {
    if refs[i].ty != FieldType::Bool {
        set![scalar_id(n, prefix, i)]
    } else if joins_previous(refs, i) {
        set![bit_id(n, prefix, i)]
    } else {
        set![bits_id(n, prefix, i), bit_id(n, prefix, i)]
    }
}

proof fn lemma_field_texts_define(n: u16, prefix: Seq<char>, refs: Seq<FieldRef>, i: int, id: Seq<char>)
    requires
        field_ids(n, prefix, refs, i).contains(id),
    ensures
        defines(field_texts(n, prefix, refs, i), id),
{
    let texts = field_texts(n, prefix, refs, i);
    assert(texts[0].id == id || texts[1].id == id);
}

proof fn lemma_document_defines(cfg: config::ConfigView, meta: GsdmlMeta, m: int, id: Seq<char>)
    requires
        0 <= m < cfg.submodules.len(),
        ({
            let s = cfg.submodules[m];
            ||| defines(module_names(s), id)
            ||| defines(
                texts_of(s.slot.0, "In"@, config::field_refs(s.inputs), s.inputs.len() as int),
                id,
            )
            ||| defines(
                texts_of(s.slot.0, "Out"@, config::field_refs(s.outputs), s.outputs.len() as int),
                id,
            )
        }),
    ensures
        defines(document_texts(cfg, meta), id),
{
    let s = cfg.submodules[m];
    let names = module_names(s);
    let ins = texts_of(s.slot.0, "In"@, config::field_refs(s.inputs), s.inputs.len() as int);
    let outs = texts_of(s.slot.0, "Out"@, config::field_refs(s.outputs), s.outputs.len() as int);
    if defines(outs, id) {
        lemma_defines_right(names + ins, outs, id);
    } else {
        if defines(names, id) {
            lemma_defines_left(names, ins, id);
        } else {
            lemma_defines_right(names, ins, id);
        }
        lemma_defines_left(names + ins, outs, id);
    }
    let n = cfg.submodules.len() as int;
    lemma_modules_texts_define(cfg, n, m, id);
    lemma_defines_right(device_texts(meta), modules_texts(cfg, n), id);
}

/// Every text that the data of a module refers to is in the text table: its name, its
/// description, and the texts of its fields in both directions.
pub proof fn module_texts_are_defined(cfg: config::ConfigView, meta: GsdmlMeta, m: int)
    requires
        0 <= m < cfg.submodules.len(),
    ensures
        ({
            let s = cfg.submodules[m];
            let texts = document_texts(cfg, meta);
            let (inputs, outputs) = (config::field_refs(s.inputs), config::field_refs(s.outputs));
            &&& defines(texts, module_id(s.slot.0, "_Name"@))
            &&& defines(texts, module_id(s.slot.0, "_Info"@))
            &&& forall|i: int, id: Seq<char>|
                0 <= i < s.inputs.len() && #[trigger] field_ids(
                    s.slot.0,
                    "In"@,
                    inputs,
                    i,
                ).contains(id) ==> defines(texts, id)
            &&& forall|i: int, id: Seq<char>|
                0 <= i < s.outputs.len() && #[trigger] field_ids(
                    s.slot.0,
                    "Out"@,
                    outputs,
                    i,
                ).contains(id) ==> defines(texts, id)
        }),
{
    let s = cfg.submodules[m];
    let (inputs, outputs) = (config::field_refs(s.inputs), config::field_refs(s.outputs));
    assert(module_names(s)[0].id == module_id(s.slot.0, "_Name"@));
    assert(module_names(s)[1].id == module_id(s.slot.0, "_Info"@));
    lemma_document_defines(cfg, meta, m, module_id(s.slot.0, "_Name"@));
    lemma_document_defines(cfg, meta, m, module_id(s.slot.0, "_Info"@));
    assert forall|i: int, id: Seq<char>|
        0 <= i < s.inputs.len() && #[trigger] field_ids(s.slot.0, "In"@, inputs, i).contains(
            id,
        ) implies defines(document_texts(cfg, meta), id) by {
        lemma_field_texts_define(s.slot.0, "In"@, inputs, i, id);
        lemma_texts_of_defines(s.slot.0, "In"@, inputs, s.inputs.len() as int, i, id);
        lemma_document_defines(cfg, meta, m, id);
    }
    assert forall|i: int, id: Seq<char>|
        0 <= i < s.outputs.len() && #[trigger] field_ids(s.slot.0, "Out"@, outputs, i).contains(
            id,
        ) implies defines(document_texts(cfg, meta), id) by {
        lemma_field_texts_define(s.slot.0, "Out"@, outputs, i, id);
        lemma_texts_of_defines(s.slot.0, "Out"@, outputs, s.outputs.len() as int, i, id);
        lemma_document_defines(cfg, meta, m, id);
    }
}

/// The texts of the device itself are in the text table.
pub proof fn device_texts_are_defined(cfg: config::ConfigView, meta: GsdmlMeta)
    ensures
        forall|id: Seq<char>| #[trigger]
            defines(device_texts(meta), id) ==> defines(document_texts(cfg, meta), id),
{
    assert forall|id: Seq<char>| #[trigger] defines(device_texts(meta), id) implies defines(
        document_texts(cfg, meta),
        id,
    ) by {
        lemma_defines_left(
            device_texts(meta),
            modules_texts(cfg, cfg.submodules.len() as int),
            id,
        );
    }
}

/// Whether `x` stands in `doc` behind `n` modules.
pub open spec fn stands_behind(x: Seq<char>, doc: Seq<char>, n: int) -> bool {
    exists|a: Seq<char>, b: Seq<char>|
        doc == #[trigger] (a + x + b) && tags::Measure::Modules.of(a) == n
}

proof fn lemma_module_in_modules(cfg: config::ConfigView, k: int, i: int) -> (rest: Seq<char>)
    requires
        0 <= i < k,
    ensures
        modules_text(cfg, k) == modules_text(cfg, i) + module_text(cfg, cfg.submodules[i]) + rest,
    decreases k,
{
    if i == k - 1 {
        let none = Seq::<char>::empty();
        assert(modules_text(cfg, k) =~= modules_text(cfg, i) + module_text(cfg, cfg.submodules[i])
            + none);
        none
    } else {
        let before = lemma_module_in_modules(cfg, k - 1, i);
        let rest = before + module_text(cfg, cfg.submodules[k - 1]);
        assert(modules_text(cfg, k) =~= modules_text(cfg, i) + module_text(cfg, cfg.submodules[i])
            + rest);
        rest
    }
}

/// A module stands behind those of the submodules declared before its own.
proof fn lemma_module_stands(cfg: config::ConfigView, meta: GsdmlMeta, i: int)
    requires
        cfg.wf(),
        0 <= i < cfg.submodules.len(),
    ensures
        stands_behind(module_text(cfg, cfg.submodules[i]), document(cfg, meta), i),
{
    broadcast use tags::lemma_join;

    let n = cfg.submodules.len() as int;
    let (front, x) = (tags::front(cfg, meta), module_text(cfg, cfg.submodules[i]));
    let rest = lemma_module_in_modules(cfg, n, i);
    tags::lemma_front(cfg, meta);
    tags::lemma_modules(cfg, i);
    let a = front + modules_text(cfg, i);
    let b = rest + template::TEXTS@ + text_lines(document_texts(cfg, meta)) + template::EPILOG@;
    assert(tags::Measure::Modules.closed(a));
    lemma_regrouped(
        front,
        modules_text(cfg, i),
        x,
        rest,
        template::TEXTS@,
        text_lines(document_texts(cfg, meta)),
        template::EPILOG@,
    );
    assert(equal(document(cfg, meta), a + x + b));
}

proof fn lemma_regrouped(
    front: Seq<char>,
    before: Seq<char>,
    x: Seq<char>,
    rest: Seq<char>,
    t1: Seq<char>,
    t2: Seq<char>,
    t3: Seq<char>,
)
    ensures
        front + ((before + x + rest) + t1 + t2 + t3) == (front + before) + x + (rest + t1 + t2 + t3),
{
    assert(front + ((before + x + rest) + t1 + t2 + t3) =~= (front + before) + x + (rest + t1 + t2
        + t3));
}

pub proof fn lemma_prefix_grows(p: Seq<char>, x: Seq<char>, y: Seq<char>)
    requires
        p.is_prefix_of(x),
    ensures
        p.is_prefix_of(x + y),
{
    assert((x + y).subrange(0, p.len() as int) =~= x.subrange(0, p.len() as int));
}

/// The first words of the document: the vendor and the device number.
proof fn lemma_document_begins(cfg: config::ConfigView, meta: GsdmlMeta)
    ensures
        (template::PROLOG@ + text::upper_hex_text(cfg.vendor_id as int, 4) + template::DEVICE_ID@
            + text::upper_hex_text(cfg.device_id as int, 4)).is_prefix_of(document(cfg, meta)),
{
    let n = cfg.submodules.len() as int;
    let p = template::PROLOG@ + text::upper_hex_text(cfg.vendor_id as int, 4)
        + template::DEVICE_ID@ + text::upper_hex_text(cfg.device_id as int, 4);
    assert(p.is_prefix_of(p)) by {
        assert(p.subrange(0, p.len() as int) =~= p);
    }
    let (v, f) = (escaped(meta.vendor_name@), escaped(meta.product_family@));
    let d1 = p + template::VENDOR_NAME@;
    let d2 = d1 + v;
    let d3 = d2 + template::FAMILY@;
    let d4 = d3 + f;
    lemma_prefix_grows(p, p, template::VENDOR_NAME@);
    lemma_prefix_grows(p, d1, v);
    lemma_prefix_grows(p, d2, template::FAMILY@);
    lemma_prefix_grows(p, d3, f);
    let d5 = d4 + access_point(cfg, meta);
    let d6 = d5 + access_point_data(cfg);
    let d7 = d6 + ref_lines(cfg.submodules, n);
    let d8 = d7 + template::SEND_CLOCK@;
    let d9 = d8 + send_clocks(cfg.min_device_interval);
    let d10 = d9 + template::MODULES@;
    let rest = modules_text(cfg, n) + template::TEXTS@ + text_lines(document_texts(cfg, meta))
        + template::EPILOG@;
    lemma_prefix_grows(p, d4, access_point(cfg, meta));
    lemma_prefix_grows(p, d5, access_point_data(cfg));
    lemma_prefix_grows(p, d6, ref_lines(cfg.submodules, n));
    lemma_prefix_grows(p, d7, template::SEND_CLOCK@);
    lemma_prefix_grows(p, d8, send_clocks(cfg.min_device_interval));
    lemma_prefix_grows(p, d9, template::MODULES@);
    lemma_prefix_grows(p, d10, rest);
}

/// The first words of a module: its slot and its number.
proof fn lemma_module_begins(cfg: config::ConfigView, s: config::SubmoduleView)
    ensures
        (template::MODULE@ + text::dec_text(s.slot.0 as int) + template::MODULE_IDENT@
            + text::upper_hex_text(0x100 + s.slot.0, 8)).is_prefix_of(module_text(cfg, s)),
{
    let n = s.slot.0;
    let slot = text::dec_text(n as int);
    let p = template::MODULE@ + slot + template::MODULE_IDENT@ + text::upper_hex_text(0x100 + n, 8);
    assert(p.is_prefix_of(p)) by {
        assert(p.subrange(0, p.len() as int) =~= p);
    }
    let d1 = p + template::MODULE_NAME@;
    let d2 = d1 + slot;
    let d3 = d2 + template::MODULE_INFO@;
    let d4 = d3 + slot;
    let rest = template::MODULE_IDENTITY@ + identity_text(cfg.im0) + template::MODULE_SUBMODULE@
        + slot + template::IO_DATA@;
    lemma_prefix_grows(p, p, template::MODULE_NAME@);
    lemma_prefix_grows(p, d1, slot);
    lemma_prefix_grows(p, d2, template::MODULE_INFO@);
    lemma_prefix_grows(p, d3, slot);
    lemma_prefix_grows(p, d4, rest);
    let inputs = direction_text(n, "Input"@, "In"@, config::field_refs(s.inputs));
    let outputs = direction_text(n, "Output"@, "Out"@, config::field_refs(s.outputs));
    lemma_prefix_grows(p, module_head(cfg, n), inputs);
    lemma_prefix_grows(p, module_head(cfg, n) + inputs, outputs);
    lemma_prefix_grows(p, module_head(cfg, n) + inputs + outputs, module_tail(n));
}

/// The document cannot drift from what the device answers. It carries the vendor and device
/// numbers of the device's model. It has one module per slot of the model behind the first,
/// and the `i`th of them has the slot and the module number of that slot; the items of its
/// data in either direction take as many bytes as the model has, and its description says so.
pub proof fn the_document_agrees_with_the_model(
    cfg: config::ConfigView,
    meta: GsdmlMeta,
    m: crate::cm::model::DeviceModel,
    mac: crate::eth::MacAddr,
    i: int,
)
    requires
        cfg.wf(),
        cfg.is_model(m, mac),
        0 <= i < cfg.submodules.len(),
    ensures
        (template::PROLOG@ + text::upper_hex_text(m.vendor_id as int, 4) + template::DEVICE_ID@
            + text::upper_hex_text(m.device_id as int, 4)).is_prefix_of(document(cfg, meta)),
        tags::Measure::Modules.of(document(cfg, meta)) == m.slots@.len() - 1,
        ({
            let (s, slot) = (cfg.submodules[i], m.slots@[i + 1]);
            let number = text::dec_text(slot.slot as int);
            let model = slot.submodules@[0];
            let input = direction_text(slot.slot, "Input"@, "In"@, config::field_refs(s.inputs));
            let output = direction_text(slot.slot, "Output"@, "Out"@, config::field_refs(s.outputs));
            &&& stands_behind(module_text(cfg, s), document(cfg, meta), i)
            &&& tags::Measure::Modules.of(module_text(cfg, s)) == 1
            &&& (template::MODULE@ + number + template::MODULE_IDENT@ + text::upper_hex_text(
                slot.module_ident as int,
                8,
            )).is_prefix_of(module_text(cfg, s))
            &&& module_text(cfg, s) == module_head(cfg, slot.slot) + input + output + module_tail(
                slot.slot,
            )
            &&& tags::Measure::DataBytes.of(input) == model.input_len
            &&& tags::Measure::DataBytes.of(output) == model.output_len
            &&& tags::Measure::DataBytes.of(module_text(cfg, s)) == model.input_len
                + model.output_len
            &&& module_info(s) == "Slot "@ + number + ": "@ + text::dec_text(model.input_len as int)
                + " input bytes, "@ + text::dec_text(model.output_len as int) + " output bytes"@
        }),
{
    let s = cfg.submodules[i];
    assert(config::is_slot_of(m.slots@[i + 1], s));
    config::declared_submodules_are_plugged(cfg, m, mac, i);
    config::lemma_bytes_grow(s.inputs, 0, s.inputs.len() as int);
    config::lemma_bytes_grow(s.outputs, 0, s.outputs.len() as int);
    assert(m.slots@[i + 1].submodules@[0] == config::plugged(s));
    lemma_document_begins(cfg, meta);
    lemma_module_begins(cfg, s);
    lemma_module_stands(cfg, meta, i);
    tags::lemma_document(cfg, meta);
    tags::lemma_module(cfg, s);
    tags::lemma_direction(s.slot.0, true, s.inputs);
    tags::lemma_direction(s.slot.0, false, s.outputs);
}

} // verus!
