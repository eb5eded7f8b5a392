//! Typed device configuration: the single source from which the device model, the per-field
//! byte/bit table, the DCP identity and the GSDML are derived.

use vstd::prelude::*;

use vstd::slice::slice_to_vec;
use vstd::utf8;

use crate::cm::model::{self, DeviceModel, SlotModel, SubmoduleModel};
use crate::data::FieldType;
use crate::dcp::{DcpConfig, DeviceProperties};
use crate::device::{DeviceSetup, RtOptions};
use crate::eth::MacAddr;
use crate::im::{Im0, ImError, SwRevision};
use crate::rpc::Uuid;
use crate::text;

verus! {

/// Largest C-SDU a submodule may occupy in one direction (RT frame budget).
pub const MAX_SUBMODULE_BYTES: u16 = 1440;

/// A module slot number; slot 0 is the DAP and cannot carry user data.
#[derive(Debug, Clone, Copy, PartialEq, Eq, PartialOrd, Ord, Hash, Structural)]
pub struct Slot(pub u16);

/// Data direction from the device's point of view: `Input` = device to controller (the
/// controller's `%I`), `Output` = controller to device (its `%Q`).
#[derive(Debug, Clone, Copy, PartialEq, Eq, Structural)]
pub enum Direction {
    /// Device to controller (the controller's `%I`).
    Input,
    /// Controller to device (the controller's `%Q`).
    Output,
    /// Both: the submodule declares fields in each direction.
    InputOutput,
}

/// The direction of a submodule with `inputs` input and `outputs` output fields or bytes.
pub open spec fn direction_of(inputs: int, outputs: int) -> Direction {
    if inputs > 0 && outputs == 0 {
        Direction::Input
    } else if inputs == 0 && outputs > 0 {
        Direction::Output
    } else {
        Direction::InputOutput
    }
}

/// One submodule: an ordered list of input fields and/or output fields.
#[derive(Debug, PartialEq, Eq)]
pub struct SubmoduleSpec {
    /// Slot this submodule is plugged into.
    pub slot: Slot,
    /// Name reported in the model/GSDML.
    pub name: String,
    /// Input fields (device to controller), in declaration order.
    pub inputs: Vec<FieldType>,
    /// Output fields (controller to device), in declaration order.
    pub outputs: Vec<FieldType>,
}

impl Clone for SubmoduleSpec {
    fn clone(&self) -> (r: Self)
        ensures
            r@ == self@,
    {
        SubmoduleSpec {
            slot: self.slot,
            name: self.name.clone(),
            inputs: slice_to_vec(self.inputs.as_slice()),
            outputs: slice_to_vec(self.outputs.as_slice()),
        }
    }
}

/// What a [`SubmoduleSpec`] holds.
pub struct SubmoduleView {
    pub slot: Slot,
    pub name: Seq<char>,
    pub inputs: Seq<FieldType>,
    pub outputs: Seq<FieldType>,
}

impl View for SubmoduleSpec {
    type V = SubmoduleView;

    open spec fn view(&self) -> SubmoduleView {
        SubmoduleView {
            slot: self.slot,
            name: self.name@,
            inputs: self.inputs@,
            outputs: self.outputs@,
        }
    }
}

/// What a list of submodules holds.
pub open spec fn submodule_views(v: Seq<SubmoduleSpec>) -> Seq<SubmoduleView> {
    v.map_values(|s: SubmoduleSpec| s@)
}

impl SubmoduleView {
    /// The direction the declared fields have.
    pub open spec fn direction(self) -> Direction {
        direction_of(self.inputs.len() as int, self.outputs.len() as int)
    }

    /// The fields of one direction.
    pub open spec fn fields(self, dir: Direction) -> Seq<FieldType> {
        match dir {
            Direction::Input => self.inputs,
            Direction::Output => self.outputs,
            Direction::InputOutput => Seq::empty(),
        }
    }
}

impl SubmoduleSpec {
    /// [`Direction::Input`] if only `inputs` is non-empty, [`Direction::Output`] if only
    /// `outputs` is, [`Direction::InputOutput`] otherwise (including the pathological case
    /// where both are empty).
    pub fn direction(&self) -> (d: Direction)
        ensures
            d == self@.direction(),
    {
        if self.inputs.len() > 0 && self.outputs.len() == 0 {
            Direction::Input
        } else if self.inputs.len() == 0 && self.outputs.len() > 0 {
            Direction::Output
        } else {
            Direction::InputOutput
        }
    }
}

/// Where one field lives inside its submodule's data: byte offset, bit (LSB-first, `0` for
/// byte types) and type.
#[derive(Debug, Clone, Copy, PartialEq, Eq, Structural)]
pub struct FieldRef {
    /// Byte offset within the submodule's data.
    pub byte: u16,
    /// Bit offset within `byte`, LSB-first; always `0` for byte-typed fields.
    pub bit: u8,
    /// The field's type.
    pub ty: FieldType,
}

/// Errors from [`DeviceConfigBuilder::build`].
#[derive(Debug, Clone, PartialEq, Eq)]
pub enum ConfigError {
    /// A submodule was declared at slot 0, which is reserved for the DAP.
    SlotZeroReserved,
    /// Two submodules were declared at the same slot.
    DuplicateSlot(u16),
    /// A submodule was declared with no input fields and no output fields.
    EmptySubmodule(u16),
    /// The builder has no submodule at all.
    NoSubmodule,
    /// One submodule's byte layout, in one direction, exceeds [`MAX_SUBMODULE_BYTES`].
    TooLong {
        /// Slot that overflowed.
        slot: u16,
        /// Its byte length in that direction.
        bytes: u32,
        /// The limit, i.e. [`MAX_SUBMODULE_BYTES`].
        max: u16,
    },
    /// The station name fails the PROFINET name-of-station rule.
    BadStationName(String),
    /// [`DeviceConfigBuilder::min_device_interval`] was given a value other than 16 or 32.
    BadInterval(u16),
    /// [`DeviceConfigBuilder::identity`] was given a zero `vendor_id`.
    BadIdentity,
    /// The sum of all submodules' C-SDU, in one direction (including the DAP/IOPS/IOCS
    /// overhead), exceeds the 1440-byte RT frame budget even though every individual
    /// submodule fit under [`MAX_SUBMODULE_BYTES`].
    TooLongTotal {
        /// The direction that overflowed.
        direction: Direction,
        /// Its total C-SDU length.
        bytes: u32,
        /// The limit, i.e. [`MAX_SUBMODULE_BYTES`].
        max: u16,
    },
    /// The declared or defaulted I&M0 identity is refused.
    Im(ImError),
}

// ---------------------------------------------------------------------------------
// Field layout
// ---------------------------------------------------------------------------------

/// How many `Bool`s stand directly before position `n`, without a gap.
pub open spec fn bool_run(fields: Seq<FieldType>, n: int) -> int
    decreases n,
{
    if n > 0 && fields[n - 1] == FieldType::Bool {
        bool_run(fields, n - 1) + 1
    } else {
        0
    }
}

/// How many bytes the first `n` fields take: eight `Bool`s in a row share a byte, a byte
/// type takes its own length.
pub open spec fn bytes_of(fields: Seq<FieldType>, n: int) -> int
    decreases n,
{
    if n <= 0 {
        0
    } else {
        bytes_of(fields, n - 1) + (match fields[n - 1].byte_len() {
            Some(k) => k as int,
            None => if bool_run(fields, n - 1) % 8 == 0 {
                1
            } else {
                0
            },
        })
    }
}

/// The byte where field `i` starts.
pub open spec fn byte_of_field(fields: Seq<FieldType>, i: int) -> int {
    if fields[i] == FieldType::Bool {
        bytes_of(fields, i + 1) - 1
    } else {
        bytes_of(fields, i)
    }
}

/// The bit of its byte that field `i` takes; 0 for a byte type.
pub open spec fn bit_of_field(fields: Seq<FieldType>, i: int) -> int {
    if fields[i] == FieldType::Bool {
        bool_run(fields, i) % 8
    } else {
        0
    }
}

/// Where field `i` lives.
pub open spec fn field_ref(fields: Seq<FieldType>, i: int) -> FieldRef {
    FieldRef {
        byte: byte_of_field(fields, i) as u16,
        bit: bit_of_field(fields, i) as u8,
        ty: fields[i],
    }
}

/// Where all fields live, in declaration order.
pub open spec fn field_refs(fields: Seq<FieldType>) -> Seq<FieldRef> {
    Seq::new(fields.len(), |i: int| field_ref(fields, i))
}

/// The byte length of a list of fields.
pub open spec fn layout_len(fields: Seq<FieldType>) -> int {
    bytes_of(fields, fields.len() as int)
}

/// More fields never take fewer bytes, and each takes at most four more.
pub proof fn lemma_bytes_grow(fields: Seq<FieldType>, m: int, n: int)
    requires
        0 <= m <= n <= fields.len(),
    ensures
        0 <= bytes_of(fields, m) <= bytes_of(fields, n) <= bytes_of(fields, m) + 4 * (n - m),
    decreases n,
{
    if m < n {
        lemma_bytes_grow(fields, m, n - 1);
    } else if m > 0 {
        lemma_bytes_grow(fields, 0, m - 1);
    }
}

/// A run of `Bool`s is not longer than what stands before it.
pub proof fn lemma_bool_run_bound(fields: Seq<FieldType>, n: int)
    requires
        0 <= n <= fields.len(),
    ensures
        0 <= bool_run(fields, n) <= n,
    decreases n,
{
    if n > 0 {
        lemma_bool_run_bound(fields, n - 1);
    }
}

/// An unfinished byte of `Bool`s has begun.
proof fn lemma_open_byte(fields: Seq<FieldType>, n: int)
    requires
        0 <= n <= fields.len(),
        bool_run(fields, n) > 0,
    ensures
        bytes_of(fields, n) >= 1,
    decreases n,
{
    lemma_bool_run_bound(fields, n - 1);
    lemma_bytes_grow(fields, 0, n - 1);
    if bool_run(fields, n - 1) % 8 != 0 {
        lemma_open_byte(fields, n - 1);
    }
}

/// Every field lies within the layout: it starts at a valid byte and bit, and ends before the
/// end.
pub proof fn fields_lie_within(fields: Seq<FieldType>, i: int)
    requires
        0 <= i < fields.len(),
    ensures
        0 <= byte_of_field(fields, i),
        0 <= bit_of_field(fields, i) < 8,
        byte_of_field(fields, i) + fields[i].span() <= layout_len(fields),
{
    lemma_bytes_grow(fields, 0, i);
    lemma_bytes_grow(fields, i + 1, fields.len() as int);
    lemma_bool_run_bound(fields, i);
    if fields[i] == FieldType::Bool {
        assert(bool_run(fields, i + 1) > 0);
        lemma_open_byte(fields, i + 1);
    }
}

/// Where a field begins, counted in bits.
pub open spec fn first_bit(fields: Seq<FieldType>, i: int) -> int {
    8 * byte_of_field(fields, i) + bit_of_field(fields, i)
}

/// How many bits a field takes.
pub open spec fn bit_width(ty: FieldType) -> int {
    match ty.byte_len() {
        Some(k) => 8 * k,
        None => 1,
    }
}

/// Where the next field may begin, counted in bits.
pub open spec fn end_bit(fields: Seq<FieldType>, i: int) -> int {
    first_bit(fields, i) + bit_width(fields[i])
}

/// Fields do not share a bit: each begins where the one before it ended, or later.
pub proof fn fields_are_apart(fields: Seq<FieldType>, i: int, j: int)
    requires
        0 <= i < j < fields.len(),
    ensures
        end_bit(fields, i) <= first_bit(fields, j),
    decreases j - i,
{
    if j == i + 1 {
        lemma_bool_run_bound(fields, i);
        lemma_bool_run_bound(fields, j);
        let between = bytes_of(fields, j);
        if fields[i] == FieldType::Bool {
            assert(bool_run(fields, j) == bool_run(fields, i) + 1);
            assert(end_bit(fields, i) == 8 * (between - 1) + bool_run(fields, i) % 8 + 1);
        } else {
            assert(bool_run(fields, j) == 0);
            assert(end_bit(fields, i) == 8 * between);
        }
        if fields[j] == FieldType::Bool {
            assert(bytes_of(fields, j + 1) == between + (if bool_run(fields, j) % 8 == 0 {
                1int
            } else {
                0
            }));
        } else {
            assert(first_bit(fields, j) == 8 * between);
        }
    } else {
        fields_are_apart(fields, i, j - 1);
        fields_are_apart(fields, j - 1, j);
        assert(bit_width(fields[j - 1]) > 0);
    }
}

/// Lay out `fields` per the declaration-order rule: `Bool`s pack 8 per byte (LSB-first), a
/// `Bool` after a byte-typed field opens a new byte, byte types are placed back-to-back
/// big-endian with no padding. Returns the refs and the byte length.
///
/// This is the raw packing rule with no size limit of its own: offsets are kept to 16 bits,
/// so it is meaningful as a submodule's actual on-wire layout only once its byte length has
/// been checked against [`MAX_SUBMODULE_BYTES`], which [`DeviceConfigBuilder::build`] does.
pub fn layout(fields: &[FieldType]) -> (r: (Vec<FieldRef>, u16))
    requires
        layout_len(fields@) <= u32::MAX,
    ensures
        r.0@ == field_refs(fields@),
        r.1 == layout_len(fields@) as u16,
{
    let mut refs: Vec<FieldRef> = Vec::new();
    // first free byte
    let mut next_byte: u32 = 0;
    // next bit of the open bit-byte, which is the last byte taken; 0 if none is open
    let mut open_bits: u8 = 0;
    let mut i: usize = 0;
    while i < fields.len()
        invariant
            i <= fields@.len(),
            layout_len(fields@) <= u32::MAX,
            next_byte == bytes_of(fields@, i as int),
            open_bits == bool_run(fields@, i as int) % 8,
            refs@ == field_refs(fields@).take(i as int),
        decreases fields@.len() - i,
    {
        proof {
            lemma_bytes_grow(fields@, i + 1, fields@.len() as int);
            lemma_bool_run_bound(fields@, i as int);
            fields_lie_within(fields@, i as int);
        }
        let ty = fields[i];
        match ty.byte_len() {
            None => {
                if open_bits == 0 {
                    next_byte = next_byte + 1;
                }
                refs.push(FieldRef { byte: (next_byte - 1) as u16, bit: open_bits, ty });
                open_bits = (open_bits + 1) % 8;
            },
            Some(n) => {
                refs.push(FieldRef { byte: next_byte as u16, bit: 0, ty });
                open_bits = 0;
                next_byte = next_byte + n as u32;
            },
        }
        assert(refs@ =~= field_refs(fields@).take(i + 1));
        i = i + 1;
    }
    assert(refs@ =~= field_refs(fields@));
    (refs, next_byte as u16)
}

// ---------------------------------------------------------------------------------
// Names
// ---------------------------------------------------------------------------------

/// The lower-case form of an ASCII letter; any other character is kept.
pub open spec fn lower(c: char) -> char {
    if 'A' <= c <= 'Z' {
        (c as int + 32) as char
    } else {
        c
    }
}

fn lower_char(c: char) -> (r: char)
    ensures
        r == lower(c),
{
    if 'A' <= c && c <= 'Z' {
        (c as u8 + 32) as char
    } else {
        c
    }
}

/// `s` with its ASCII letters in lower case.
pub open spec fn lowered(s: Seq<char>) -> Seq<char> {
    s.map_values(|c: char| lower(c))
}

/// Whether `c` is a decimal digit.
pub open spec fn is_digit(c: char) -> bool {
    '0' <= c <= '9'
}

/// Whether `c` may stand in a label of a station name.
pub open spec fn is_label_char(c: char) -> bool {
    'a' <= c <= 'z' || is_digit(c) || c == '-'
}

/// Whether `n` decimal digits stand at offset `i`.
pub open spec fn digits_at(s: Seq<char>, i: int, n: int) -> bool {
    forall|k: int| i <= k < i + n ==> is_digit(#[trigger] s[k])
}

/// Whether `s` is one of the DCP-reserved auto-generated port-name forms `port-xyz` or
/// `port-xyz-abcde` (`x`,`y`,`z`,`a`..`e` decimal digits).
pub open spec fn is_port_name(s: Seq<char>) -> bool {
    &&& s.len() == 8 || s.len() == 14
    &&& s[0] == 'p' && s[1] == 'o' && s[2] == 'r' && s[3] == 't' && s[4] == '-'
    &&& digits_at(s, 5, 3)
    &&& s.len() == 14 ==> s[8] == '-' && digits_at(s, 9, 5)
}

/// Whether the character at `i` may stand there: a `.` separates two labels that are not
/// empty, and a `-` neither begins nor ends a label.
pub open spec fn fits_at(s: Seq<char>, i: int) -> bool {
    &&& is_label_char(s[i]) || s[i] == '.'
    &&& s[i] == '.' || s[i] == '-' ==> 0 < i < s.len() - 1 && s[i + 1] != '.'
    &&& s[i] == '-' ==> s[i - 1] != '.'
}

/// PROFINET name-of-station rule (DCP): 1 to 240 characters, labels of `[a-z0-9-]` separated
/// by `.`, no label empty, no label starting or ending with `-`, at least one label not all
/// digits (a pure number would look like an IP), not a reserved port name.
pub open spec fn is_station_name(s: Seq<char>) -> bool {
    &&& 1 <= s.len() <= 240
    &&& !is_port_name(s)
    &&& forall|i: int| 0 <= i < s.len() ==> #[trigger] fits_at(s, i)
    &&& exists|i: int| 0 <= i < s.len() && !is_digit(#[trigger] s[i]) && s[i] != '.'
}

fn all_digits(s: &Vec<char>, i: usize, n: usize) -> (r: bool)
    requires
        i + n <= s.len(),
    ensures
        r == digits_at(s@, i as int, n as int),
{
    let mut k: usize = 0;
    while k < n
        invariant
            k <= n,
            i + n <= s.len(),
            forall|j: int| i <= j < i + k ==> is_digit(#[trigger] s@[j]),
        decreases n - k,
    {
        let c: char = s[i + k];
        if !('0' <= c && c <= '9') {
            assert(!is_digit(s@[i + k]));
            return false;
        }
        k = k + 1;
    }
    true
}

/// True if `s` is one of the reserved port-name forms; those are assigned automatically to a
/// device's ports and are never valid station names.
fn is_reserved_port_name(s: &Vec<char>) -> (r: bool)
    ensures
        r == is_port_name(s@),
{
    if s.len() != 8 && s.len() != 14 {
        return false;
    }
    if !(s[0] == 'p' && s[1] == 'o' && s[2] == 'r' && s[3] == 't' && s[4] == '-') {
        return false;
    }
    if !all_digits(s, 5, 3) {
        return false;
    }
    s.len() == 8 || (s[8] == '-' && all_digits(s, 9, 5))
}

/// The station name that `s` declares: upper case is lowercased (engineering tools do the
/// same), and what then is no valid name of station is refused.
fn normalize_station_name(s: &str) -> (r: Option<String>)
    ensures
        match r {
            Some(name) => name@ == lowered(s@) && is_station_name(lowered(s@)),
            None => !is_station_name(lowered(s@)),
        },
{
    let given = text::chars_of(s);
    let n: usize = given.len();
    let ghost name = lowered(s@);
    if n == 0 || n > 240 {
        return None;
    }
    let mut low: Vec<char> = Vec::new();
    let mut out = String::new();
    let mut i: usize = 0;
    while i < n
        invariant
            i <= n,
            n == given@.len(),
            given@ == s@,
            low@ == lowered(s@).take(i as int),
            out@ == lowered(s@).take(i as int),
        decreases n - i,
    {
        let c: char = lower_char(given[i]);
        low.push(c);
        out.push(c);
        i = i + 1;
        assert(low@ =~= lowered(s@).take(i as int));
    }
    assert(low@ =~= name);
    if is_reserved_port_name(&low) {
        return None;
    }
    let mut any_non_numeric = false;
    let mut k: usize = 0;
    while k < n
        invariant
            k <= n,
            n == low@.len(),
            low@ == name,
            name == lowered(s@),
            forall|j: int| 0 <= j < k ==> #[trigger] fits_at(name, j),
            any_non_numeric <==> exists|j: int|
                0 <= j < k && !is_digit(#[trigger] name[j]) && name[j] != '.',
        decreases n - k,
    {
        let c: char = low[k];
        let label_char = ('a' <= c && c <= 'z') || ('0' <= c && c <= '9') || c == '-';
        let edge = k == 0 || k == n - 1 || low[k + 1] == '.' || (c == '-' && low[k - 1] == '.');
        if !(label_char || c == '.') || ((c == '.' || c == '-') && edge) {
            assert(!fits_at(name, k as int));
            return None;
        }
        let ghost before = any_non_numeric;
        if !('0' <= c && c <= '9') && c != '.' {
            any_non_numeric = true;
            assert(!is_digit(name[k as int]) && name[k as int] != '.');
        }
        assert(fits_at(name, k as int));
        k = k + 1;
    }
    if any_non_numeric {
        Some(out)
    } else {
        None
    }
}

/// The ASCII characters of `s`, in order.
pub open spec fn ascii_of(s: Seq<char>) -> Seq<char>
    decreases s.len(),
{
    if s.len() == 0 {
        Seq::empty()
    } else {
        let head = ascii_of(s.drop_last());
        if s.last() <= '\x7f' {
            head.push(s.last())
        } else {
            head
        }
    }
}

/// The first `n` characters of `s`, or all of it.
pub open spec fn at_most(s: Seq<char>, n: int) -> Seq<char> {
    if s.len() <= n {
        s
    } else {
        s.take(n)
    }
}

/// Whether an ASCII character is white space.
pub open spec fn is_ascii_space(c: char) -> bool {
    c == ' ' || 9 <= c as u32 <= 13
}

/// Whether `s` holds nothing but white space.
pub open spec fn is_blank(s: Seq<char>) -> bool {
    forall|i: int| 0 <= i < s.len() ==> is_ascii_space(#[trigger] s[i])
}

/// The order number of a device that declares none: its station type, kept to ASCII and to
/// the 20 bytes of the field; that of the default identity where nothing is left of it.
pub open spec fn default_order_id(station_type: Seq<char>) -> Seq<char> {
    let id = at_most(ascii_of(station_type), 20);
    if is_blank(id) {
        "pnio device"@
    } else {
        id
    }
}

/// Only ASCII characters are kept.
proof fn lemma_ascii_of(s: Seq<char>)
    ensures
        utf8::is_ascii_chars(ascii_of(s)),
    decreases s.len(),
{
    if s.len() > 0 {
        lemma_ascii_of(s.drop_last());
        lemma_no_lower_char(s.last());
    }
}

/// No character is below the first.
proof fn lemma_no_lower_char(c: char)
    ensures
        '\0' <= c,
{
}

/// The I&M0 `OrderID` a device gets when it declares no identity: its `station_type`, kept to
/// ASCII (the record's charset) and to the field's 20 bytes.
pub fn order_id_from_station_type(station_type: &str) -> (id: String)
    ensures
        id@ == default_order_id(station_type@),
        utf8::is_ascii_chars(id@),
        id@.len() <= 20,
{
    let given = text::chars_of(station_type);
    let mut id = String::new();
    let mut kept: usize = 0;
    let mut blank = true;
    let mut i: usize = 0;
    assert(ascii_of(given@.take(0)) =~= Seq::empty());
    while i < given.len()
        invariant
            i <= given@.len(),
            given@ == station_type@,
            id@ == at_most(ascii_of(given@.take(i as int)), 20),
            kept == id@.len(),
            blank == is_blank(id@),
        decreases given@.len() - i,
    {
        let c: char = given[i];
        let ghost before = ascii_of(given@.take(i as int));
        let ghost old_id = id@;
        assert(given@.take(i + 1).drop_last() =~= given@.take(i as int));
        assert(given@.take(i + 1).last() == c);
        if c <= '\x7f' && kept < 20 {
            id.push(c);
            kept = kept + 1;
            let space = c == ' ' || (9 <= c as u32 && c as u32 <= 13);
            proof {
                assert(forall|k: int| 0 <= k < old_id.len() ==> old_id[k] == id@[k]);
                if !space {
                    assert(!is_ascii_space(id@[old_id.len() as int]));
                }
                if !blank {
                    let k = choose|k: int| 0 <= k < old_id.len() && !is_ascii_space(old_id[k]);
                    assert(!is_ascii_space(id@[k]));
                }
            }
            blank = blank && space;
        }
        i = i + 1;
        assert(id@ =~= at_most(ascii_of(given@.take(i as int)), 20));
    }
    proof {
        assert(given@.take(i as int) =~= given@);
        lemma_ascii_of(given@);
        reveal_strlit("pnio device");
    }
    if blank {
        // An empty or entirely non-ASCII station type would put an all-spaces order number
        // on the wire and in the GSDML; fall back to that of the default identity.
        Im0::default().order_id
    } else {
        id
    }
}

// ---------------------------------------------------------------------------------
// Order of submodules
// ---------------------------------------------------------------------------------

/// `s` with `x` behind every submodule whose slot is not higher.
pub open spec fn insert_by_slot(s: Seq<SubmoduleView>, x: SubmoduleView) -> Seq<SubmoduleView>
    decreases s.len(),
{
    if s.len() == 0 || s.last().slot.0 <= x.slot.0 {
        s.push(x)
    } else {
        insert_by_slot(s.drop_last(), x).push(s.last())
    }
}

/// `s` in ascending slot order; submodules of the same slot keep their order.
pub open spec fn sorted_by_slot(s: Seq<SubmoduleView>) -> Seq<SubmoduleView>
    decreases s.len(),
{
    if s.len() == 0 {
        s
    } else {
        insert_by_slot(sorted_by_slot(s.drop_last()), s.last())
    }
}

/// Inserting puts `x` at the place behind which all slots are higher.
proof fn lemma_insert_at(s: Seq<SubmoduleView>, x: SubmoduleView, p: int)
    requires
        0 <= p <= s.len(),
        p > 0 ==> s[p - 1].slot.0 <= x.slot.0,
        forall|k: int| p <= k < s.len() ==> (#[trigger] s[k]).slot.0 > x.slot.0,
    ensures
        insert_by_slot(s, x) == s.insert(p, x),
    decreases s.len(),
{
    if p < s.len() {
        lemma_insert_at(s.drop_last(), x, p);
        assert(s.drop_last().insert(p, x).push(s.last()) =~= s.insert(p, x));
    } else {
        assert(s.push(x) =~= s.insert(p, x));
    }
}

/// Sorting keeps the number of submodules, orders them by slot, and neither adds nor drops
/// one.
pub proof fn sorting_orders_the_submodules(s: Seq<SubmoduleView>)
    ensures
        sorted_by_slot(s).len() == s.len(),
        forall|i: int, j: int|
            0 <= i <= j < s.len() ==> (#[trigger] sorted_by_slot(s)[i]).slot.0 <= (
            #[trigger] sorted_by_slot(s)[j]).slot.0,
        sorted_by_slot(s).to_multiset() == s.to_multiset(),
    decreases s.len(),
{
    broadcast use vstd::seq_lib::group_to_multiset_ensures;

    if s.len() > 0 {
        sorting_orders_the_submodules(s.drop_last());
        lemma_insert_keeps_order(sorted_by_slot(s.drop_last()), s.last());
        assert(s.drop_last().push(s.last()) =~= s);
    }
}

proof fn lemma_insert_keeps_order(s: Seq<SubmoduleView>, x: SubmoduleView)
    requires
        forall|i: int, j: int|
            0 <= i <= j < s.len() ==> (#[trigger] s[i]).slot.0 <= (#[trigger] s[j]).slot.0,
    ensures
        insert_by_slot(s, x).len() == s.len() + 1,
        insert_by_slot(s, x).to_multiset() == s.to_multiset().insert(x),
        forall|i: int, j: int|
            0 <= i <= j < s.len() + 1 ==> (#[trigger] insert_by_slot(s, x)[i]).slot.0 <= (
            #[trigger] insert_by_slot(s, x)[j]).slot.0,
        insert_by_slot(s, x).last().slot.0 == (if s.len() > 0 && s.last().slot.0 > x.slot.0 {
            s.last().slot.0
        } else {
            x.slot.0
        }),
    decreases s.len(),
{
    broadcast use vstd::seq_lib::group_to_multiset_ensures;

    if s.len() > 0 && s.last().slot.0 > x.slot.0 {
        let front = s.drop_last();
        lemma_insert_keeps_order(front, x);
        assert(front.push(s.last()) =~= s);
        assert(insert_by_slot(s, x).to_multiset() =~= s.to_multiset().insert(x));
    }
}

/// Sorts the submodules by slot; equal slots keep their order.
fn sort_by_slot(given: Vec<SubmoduleSpec>) -> (sorted: Vec<SubmoduleSpec>)
    ensures
        submodule_views(sorted@) == sorted_by_slot(submodule_views(given@)),
{
    let mut rest = given;
    let mut out: Vec<SubmoduleSpec> = Vec::new();
    let ghost all = submodule_views(given@);
    let ghost mut done: int = 0;
    assert(submodule_views(out@) =~= sorted_by_slot(all.take(0)));
    assert(submodule_views(rest@) =~= all.skip(0));
    while rest.len() > 0
        invariant
            0 <= done <= all.len(),
            submodule_views(rest@) == all.skip(done),
            submodule_views(out@) == sorted_by_slot(all.take(done)),
        decreases rest@.len(),
    {
        let ghost before = submodule_views(out@);
        let ghost tail = submodule_views(rest@);
        assert(tail.len() == rest@.len());
        let ghost whole = rest@;
        let x = rest.remove(0);
        assert(rest@ =~= whole.skip(1));
        let mut p: usize = out.len();
        while p > 0 && out[p - 1].slot.0 > x.slot.0
            invariant
                p <= out@.len(),
                before == submodule_views(out@),
                forall|k: int| p <= k < before.len() ==> (#[trigger] before[k]).slot.0 > x.slot.0,
            decreases p,
        {
            assert(before[p - 1] == out@[p - 1]@);
            p = p - 1;
        }
        proof {
            if p > 0 {
                assert(before[p - 1] == out@[p - 1]@);
            }
            lemma_insert_at(before, x@, p as int);
            assert(tail[0] == x@);
            assert(all.take(done + 1).drop_last() =~= all.take(done));
            assert(all.take(done + 1).last() == x@);
        }
        out.insert(p, x);
        assert(submodule_views(out@) =~= before.insert(p as int, x@));
        assert(submodule_views(rest@) =~= tail.skip(1));
        assert(tail.skip(1) =~= all.skip(done + 1));
        proof {
            done = done + 1;
        }
    }
    assert(all.take(done) =~= all);
    out
}

// ---------------------------------------------------------------------------------
// Declaration and validation
// ---------------------------------------------------------------------------------

/// Why the submodule at position `i` of an ordered list is refused, if it is.
pub open spec fn submodule_fault(subs: Seq<SubmoduleView>, i: int) -> Option<ConfigError> {
    let s = subs[i];
    if s.slot.0 == 0 {
        Some(ConfigError::SlotZeroReserved)
    } else if i > 0 && subs[i - 1].slot == s.slot {
        Some(ConfigError::DuplicateSlot(s.slot.0))
    } else if s.inputs.len() == 0 && s.outputs.len() == 0 {
        Some(ConfigError::EmptySubmodule(s.slot.0))
    } else if layout_len(s.inputs) > MAX_SUBMODULE_BYTES {
        Some(too_long(s.slot, s.inputs))
    } else if layout_len(s.outputs) > MAX_SUBMODULE_BYTES {
        Some(too_long(s.slot, s.outputs))
    } else {
        None
    }
}

/// The refusal of a submodule whose fields take too many bytes.
pub open spec fn too_long(slot: Slot, fields: Seq<FieldType>) -> ConfigError {
    ConfigError::TooLong {
        slot: slot.0,
        bytes: layout_len(fields) as u32,
        max: MAX_SUBMODULE_BYTES,
    }
}

/// The first refusal among the submodules from position `i` on.
pub open spec fn first_submodule_fault(subs: Seq<SubmoduleView>, i: int) -> Option<ConfigError>
    decreases subs.len() - i,
{
    if i >= subs.len() {
        None
    } else {
        match submodule_fault(subs, i) {
            Some(e) => Some(e),
            None => first_submodule_fault(subs, i + 1),
        }
    }
}

/// The Input CR C-SDU length of the first `n` submodules, the way the controller computes it:
/// 3 bytes of DAP status, one `(data + 1)` per submodule that has input data, and one status
/// byte per submodule that has output data.
pub open spec fn input_cr_bytes(subs: Seq<SubmoduleView>, n: int) -> int
    decreases n,
{
    if n <= 0 {
        3
    } else {
        let s = subs[n - 1];
        input_cr_bytes(subs, n - 1) + (if s.inputs.len() > 0 {
            layout_len(s.inputs) + 1
        } else {
            0
        }) + (if s.outputs.len() > 0 {
            1int
        } else {
            0int
        })
    }
}

/// The Output CR C-SDU length of the first `n` submodules, with the directions exchanged.
pub open spec fn output_cr_bytes(subs: Seq<SubmoduleView>, n: int) -> int
    decreases n,
{
    if n <= 0 {
        3
    } else {
        let s = subs[n - 1];
        output_cr_bytes(subs, n - 1) + (if s.outputs.len() > 0 {
            layout_len(s.outputs) + 1
        } else {
            0
        }) + (if s.inputs.len() > 0 {
            1int
        } else {
            0int
        })
    }
}

/// Why the submodules as a whole are refused, if they are: a C-SDU over the RT frame budget.
pub open spec fn total_fault(subs: Seq<SubmoduleView>) -> Option<ConfigError> {
    let n = subs.len() as int;
    if input_cr_bytes(subs, n) > MAX_SUBMODULE_BYTES {
        Some(
            ConfigError::TooLongTotal {
                direction: Direction::Input,
                bytes: input_cr_bytes(subs, n) as u32,
                max: MAX_SUBMODULE_BYTES,
            },
        )
    } else if output_cr_bytes(subs, n) > MAX_SUBMODULE_BYTES {
        Some(
            ConfigError::TooLongTotal {
                direction: Direction::Output,
                bytes: output_cr_bytes(subs, n) as u32,
                max: MAX_SUBMODULE_BYTES,
            },
        )
    } else {
        None
    }
}

/// What a [`DeviceConfigBuilder`] has been told.
pub struct BuilderView {
    pub station_name: Seq<char>,
    pub station_type: Seq<char>,
    pub vendor_id: u16,
    pub device_id: u16,
    pub min_device_interval: u16,
    pub submodules: Seq<SubmoduleView>,
    pub im0: Option<Im0>,
}

impl BuilderView {
    /// Why a declaration with a valid station name is refused, if it is. The rules apply in
    /// this order: the interval, the vendor id, a declared identity, at least one submodule,
    /// each submodule in ascending slot order, the total lengths.
    pub open spec fn fault(self) -> Option<ConfigError> {
        let subs = sorted_by_slot(self.submodules);
        if self.min_device_interval != 16 && self.min_device_interval != 32 {
            Some(ConfigError::BadInterval(self.min_device_interval))
        } else if self.vendor_id == 0 {
            Some(ConfigError::BadIdentity)
        } else if self.im0 is Some && self.im0->0.fault() is Some {
            Some(ConfigError::Im(self.im0->0.fault()->0))
        } else if subs.len() == 0 {
            Some(ConfigError::NoSubmodule)
        } else if first_submodule_fault(subs, 0) is Some {
            first_submodule_fault(subs, 0)
        } else {
            total_fault(subs)
        }
    }

    /// Whether every field list is short enough for its length to be counted in 32 bits.
    pub open spec fn is_countable(self) -> bool {
        forall|i: int|
            0 <= i < self.submodules.len() ==> {
                &&& layout_len((#[trigger] self.submodules[i]).inputs) <= u32::MAX
                &&& layout_len(self.submodules[i].outputs) <= u32::MAX
            }
    }
}

/// What a [`DeviceConfig`] holds.
pub struct ConfigView {
    pub station_name: Seq<char>,
    pub station_type: Seq<char>,
    pub vendor_id: u16,
    pub device_id: u16,
    pub min_device_interval: u16,
    pub submodules: Seq<SubmoduleView>,
    pub im0: Im0,
}

impl ConfigView {
    /// What holds of every configuration.
    pub open spec fn wf(self) -> bool {
        &&& is_station_name(self.station_name)
        &&& self.min_device_interval == 16 || self.min_device_interval == 32
        &&& self.vendor_id != 0
        &&& self.im0.fault() is None
        &&& self.submodules.len() > 0
        &&& forall|i: int|
            0 <= i < self.submodules.len() ==> #[trigger] submodule_fault(self.submodules, i)
                is None
        &&& forall|i: int, j: int|
            0 <= i < j < self.submodules.len() ==> (#[trigger] self.submodules[i]).slot.0 < (
            #[trigger] self.submodules[j]).slot.0
        &&& total_fault(self.submodules) is None
    }

    /// The position of the submodule at `slot`, or the number of submodules if there is none.
    pub open spec fn pos(self, slot: Slot) -> int {
        slot_index(self.submodules, slot)
    }

    /// The submodule at `slot`.
    pub open spec fn submodule(self, slot: Slot) -> Option<SubmoduleView> {
        if self.pos(slot) < self.submodules.len() {
            Some(self.submodules[self.pos(slot)])
        } else {
            None
        }
    }

    /// The fields of one direction of a slot, if it has any.
    pub open spec fn fields(self, slot: Slot, dir: Direction) -> Option<Seq<FieldRef>> {
        match self.submodule(slot) {
            Some(s) if s.fields(dir).len() > 0 => Some(field_refs(s.fields(dir))),
            _ => None,
        }
    }
}

/// The index of the first submodule at `slot`, or the number of submodules if there is none.
pub open spec fn slot_index(subs: Seq<SubmoduleView>, slot: Slot) -> int
    decreases subs.len(),
{
    if subs.len() == 0 {
        0
    } else if subs[0].slot == slot {
        0
    } else {
        1 + slot_index(subs.skip(1), slot)
    }
}

/// The first position that matches is the index.
pub proof fn lemma_slot_index(subs: Seq<SubmoduleView>, slot: Slot, i: int)
    requires
        0 <= i <= subs.len(),
        forall|k: int| 0 <= k < i ==> (#[trigger] subs[k]).slot != slot,
        i < subs.len() ==> subs[i].slot == slot,
    ensures
        slot_index(subs, slot) == i,
    decreases subs.len(),
{
    if subs.len() > 0 && subs[0].slot != slot {
        let rest = subs.skip(1);
        assert forall|k: int| 0 <= k < i - 1 implies (#[trigger] rest[k]).slot != slot by {
            assert(rest[k] == subs[k + 1]);
        }
        lemma_slot_index(rest, slot, i - 1);
    }
}

/// A position that is found is one of that slot.
pub proof fn lemma_found_slot(subs: Seq<SubmoduleView>, slot: Slot)
    ensures
        0 <= slot_index(subs, slot) <= subs.len(),
        slot_index(subs, slot) < subs.len() ==> subs[slot_index(subs, slot)].slot == slot,
    decreases subs.len(),
{
    if subs.len() > 0 && subs[0].slot != slot {
        lemma_found_slot(subs.skip(1), slot);
    }
}

/// A lookup of a submodule's own slot finds it.
pub proof fn lemma_own_slot(cfg: ConfigView, i: int)
    requires
        cfg.wf(),
        0 <= i < cfg.submodules.len(),
    ensures
        cfg.pos(cfg.submodules[i].slot) == i,
        cfg.submodule(cfg.submodules[i].slot) == Some(cfg.submodules[i]),
{
    let slot = cfg.submodules[i].slot;
    assert forall|k: int| 0 <= k < i implies (#[trigger] cfg.submodules[k]).slot != slot by {
        assert(cfg.submodules[k].slot.0 < cfg.submodules[i].slot.0);
    }
    lemma_slot_index(cfg.submodules, slot, i);
}

/// The identity of a device that declares none: the default one, with the order number
/// taken from the station type.
pub open spec fn is_derived_im0(im0: Im0, station_type: Seq<char>) -> bool {
    &&& im0.order_id@ == default_order_id(station_type)
    &&& im0.serial_number@ == Seq::<char>::empty()
    &&& im0.hardware_revision == 1
    &&& im0.software_revision == (SwRevision {
        prefix: 'V',
        functional: 0,
        bug_fix: 1,
        internal: 0,
    })
    &&& im0.revision_counter == 0
    &&& im0.profile_id == 0
    &&& im0.profile_specific_type == 0
}

/// Per-submodule derived tables.
#[derive(Debug, PartialEq, Eq)]
struct Derived {
    inputs: Vec<FieldRef>,
    input_len: u16,
    outputs: Vec<FieldRef>,
    output_len: u16,
}

impl Derived {
    spec fn is_of(self, s: SubmoduleView) -> bool {
        &&& self.inputs@ == field_refs(s.inputs)
        &&& self.input_len == layout_len(s.inputs)
        &&& self.outputs@ == field_refs(s.outputs)
        &&& self.output_len == layout_len(s.outputs)
    }
}

/// A validated device configuration (build it with [`DeviceConfig::builder`]).
#[derive(Debug, PartialEq, Eq)]
pub struct DeviceConfig {
    station_name: String,
    station_type: String,
    vendor_id: u16,
    device_id: u16,
    min_device_interval: u16,
    submodules: Vec<SubmoduleSpec>,
    // parallel to `submodules`
    derived: Vec<Derived>,
    im0: Im0,
}

impl View for DeviceConfig {
    type V = ConfigView;

    closed spec fn view(&self) -> ConfigView {
        ConfigView {
            station_name: self.station_name@,
            station_type: self.station_type@,
            vendor_id: self.vendor_id,
            device_id: self.device_id,
            min_device_interval: self.min_device_interval,
            submodules: submodule_views(self.submodules@),
            im0: self.im0,
        }
    }
}

/// Accumulates a device declaration (station name, identity, interval, submodules) for
/// [`DeviceConfigBuilder::build`] to validate and derive into a [`DeviceConfig`]. Nothing here
/// is checked until `build()` runs: a builder can be composed freely (any order, any number
/// of `input`/`output`/`submodule` calls) and only fails, all at once, on `build()`.
pub struct DeviceConfigBuilder {
    station_name: String,
    station_type: String,
    vendor_id: u16,
    device_id: u16,
    min_device_interval: u16,
    submodules: Vec<SubmoduleSpec>,
    im0: Option<Im0>,
}

impl View for DeviceConfigBuilder {
    type V = BuilderView;

    closed spec fn view(&self) -> BuilderView {
        BuilderView {
            station_name: self.station_name@,
            station_type: self.station_type@,
            vendor_id: self.vendor_id,
            device_id: self.device_id,
            min_device_interval: self.min_device_interval,
            submodules: submodule_views(self.submodules@),
            im0: self.im0,
        }
    }
}

impl DeviceConfigBuilder {
    /// The `TypeOfStation` reported by DCP (default `"pnio device"`); also the source of the
    /// default I&M0 `OrderID`.
    pub fn station_type(self, s: &str) -> (b: Self)
        ensures
            b@ == (BuilderView { station_type: s@, ..self@ }),
    {
        DeviceConfigBuilder { station_type: s.to_owned(), ..self }
    }

    /// PROFINET vendor/device ID pair (default `0xFFFF`/`0x0001`). `build()` rejects a zero
    /// `vendor_id` with [`ConfigError::BadIdentity`].
    pub fn identity(self, vendor_id: u16, device_id: u16) -> (b: Self)
        ensures
            b@ == (BuilderView { vendor_id, device_id, ..self@ }),
    {
        DeviceConfigBuilder { vendor_id, device_id, ..self }
    }

    /// The AR's cyclic update time, in units of 31.25 us: `16` = 500 us, `32` = 1 ms (the
    /// default). No other value is accepted.
    pub fn min_device_interval(self, v: u16) -> (b: Self)
        ensures
            b@ == (BuilderView { min_device_interval: v, ..self@ }),
    {
        DeviceConfigBuilder { min_device_interval: v, ..self }
    }

    /// I&M0 device identity: order number, serial, hardware/software revision. Checked by
    /// [`Im0::validate`] on `build()`.
    ///
    /// Left unset, `build()` takes [`Im0::default`] but replaces its placeholder `order_id`
    /// with the station type kept to 20 ASCII bytes, so a device that declares only its type
    /// still reports that type as its I&M0 `OrderID` and in the GSDML's `ModuleInfo`.
    pub fn im0(self, im0: Im0) -> (b: Self)
        ensures
            b@ == (BuilderView { im0: Some(im0), ..self@ }),
    {
        DeviceConfigBuilder { im0: Some(im0), ..self }
    }

    /// Device-to-controller data in `slot` (the controller's inputs).
    pub fn input(self, slot: Slot, fields: &[FieldType]) -> (b: Self)
        ensures
            b@ == (BuilderView {
                submodules: self@.submodules.push(
                    SubmoduleView {
                        slot,
                        name: "in"@ + text::dec_text(slot.0 as int),
                        inputs: fields@,
                        outputs: Seq::empty(),
                    },
                ),
                ..self@
            }),
    {
        let mut name = "in".to_owned();
        text::push_dec(&mut name, slot.0 as u64);
        let none: Vec<FieldType> = Vec::new();
        self.submodule(slot, name.as_str(), fields, none.as_slice())
    }

    /// Controller-to-device data in `slot` (the controller's outputs).
    pub fn output(self, slot: Slot, fields: &[FieldType]) -> (b: Self)
        ensures
            b@ == (BuilderView {
                submodules: self@.submodules.push(
                    SubmoduleView {
                        slot,
                        name: "out"@ + text::dec_text(slot.0 as int),
                        inputs: Seq::empty(),
                        outputs: fields@,
                    },
                ),
                ..self@
            }),
    {
        let mut name = "out".to_owned();
        text::push_dec(&mut name, slot.0 as u64);
        let none: Vec<FieldType> = Vec::new();
        self.submodule(slot, name.as_str(), none.as_slice(), fields)
    }

    /// Declares one submodule at `slot` with both input and output fields (the general form
    /// of [`DeviceConfigBuilder::input`]/[`DeviceConfigBuilder::output`], for a
    /// mixed-direction submodule).
    pub fn submodule(
        self,
        slot: Slot,
        name: &str,
        inputs: &[FieldType],
        outputs: &[FieldType],
    ) -> (b: Self)
        ensures
            b@ == (BuilderView {
                submodules: self@.submodules.push(
                    SubmoduleView { slot, name: name@, inputs: inputs@, outputs: outputs@ },
                ),
                ..self@
            }),
    {
        let ghost before = self@;
        let mut submodules = self.submodules;
        let s = SubmoduleSpec {
            slot,
            name: name.to_owned(),
            inputs: slice_to_vec(inputs),
            outputs: slice_to_vec(outputs),
        };
        submodules.push(s);
        let b = DeviceConfigBuilder { submodules, ..self };
        assert(b@.submodules =~= before.submodules.push(s@));
        b
    }
}

/// What holds of all submodules holds of all sorted ones.
proof fn lemma_sorted_all(s: Seq<SubmoduleView>, p: spec_fn(SubmoduleView) -> bool)
    requires
        forall|i: int| 0 <= i < s.len() ==> p(#[trigger] s[i]),
    ensures
        forall|i: int| 0 <= i < sorted_by_slot(s).len() ==> p(#[trigger] sorted_by_slot(s)[i]),
    decreases s.len(),
{
    if s.len() > 0 {
        let front = s.drop_last();
        assert forall|i: int| 0 <= i < front.len() implies p(#[trigger] front[i]) by {
            assert(front[i] == s[i]);
        }
        lemma_sorted_all(front, p);
        lemma_insert_all(sorted_by_slot(front), s.last(), p);
    }
}

proof fn lemma_insert_all(
    s: Seq<SubmoduleView>,
    x: SubmoduleView,
    p: spec_fn(SubmoduleView) -> bool,
)
    requires
        p(x),
        forall|i: int| 0 <= i < s.len() ==> p(#[trigger] s[i]),
    ensures
        forall|i: int|
            0 <= i < insert_by_slot(s, x).len() ==> p(#[trigger] insert_by_slot(s, x)[i]),
    decreases s.len(),
{
    if s.len() > 0 && s.last().slot.0 > x.slot.0 {
        let front = s.drop_last();
        assert forall|i: int| 0 <= i < front.len() implies p(#[trigger] front[i]) by {
            assert(front[i] == s[i]);
        }
        lemma_insert_all(front, x, p);
        let t = insert_by_slot(front, x);
        assert forall|i: int| 0 <= i < insert_by_slot(s, x).len() implies p(
            #[trigger] insert_by_slot(s, x)[i],
        ) by {
            if i < t.len() {
                assert(p(t[i]));
            } else {
                assert(p(s[s.len() - 1]));
            }
        }
    }
}

/// Refusals are found from the front: with none before `i`, the rest decides.
proof fn lemma_first_submodule_fault(subs: Seq<SubmoduleView>, i: int)
    requires
        0 <= i <= subs.len(),
        forall|k: int| 0 <= k < i ==> #[trigger] submodule_fault(subs, k) is None,
    ensures
        first_submodule_fault(subs, 0) == first_submodule_fault(subs, i),
    decreases i,
{
    if i > 0 {
        lemma_first_submodule_fault(subs, i - 1);
        assert(submodule_fault(subs, i - 1) is None);
    }
}

/// No submodule is refused for the station name.
proof fn lemma_submodule_fault_kind(subs: Seq<SubmoduleView>, i: int)
    requires
        0 <= i <= subs.len(),
    ensures
        first_submodule_fault(subs, i) matches Some(e) ==> !(e is BadStationName),
    decreases subs.len() - i,
{
    if i < subs.len() {
        lemma_submodule_fault_kind(subs, i + 1);
    }
}

/// Ordered slots that are neither zero nor double are strictly ascending, so there are fewer
/// of them than slot numbers.
proof fn lemma_strictly_ascending(subs: Seq<SubmoduleView>, n: int)
    requires
        0 <= n <= subs.len(),
        forall|i: int, j: int|
            0 <= i <= j < subs.len() ==> (#[trigger] subs[i]).slot.0 <= (#[trigger] subs[j]).slot.0,
        forall|k: int| 0 <= k < n ==> #[trigger] submodule_fault(subs, k) is None,
    ensures
        forall|i: int, j: int|
            0 <= i < j < n ==> (#[trigger] subs[i]).slot.0 < (#[trigger] subs[j]).slot.0,
        n > 0 ==> subs[n - 1].slot.0 >= n,
        n <= u16::MAX,
    decreases n,
{
    if n > 0 {
        lemma_strictly_ascending(subs, n - 1);
        assert(submodule_fault(subs, n - 1) is None);
        if n > 1 {
            assert(subs[n - 2].slot.0 < subs[n - 1].slot.0);
            assert forall|i: int, j: int| 0 <= i < j < n implies (#[trigger] subs[i]).slot.0 < (
            #[trigger] subs[j]).slot.0 by {
                assert(subs[i].slot.0 <= subs[j - 1].slot.0);
                assert(submodule_fault(subs, j) is None);
            }
        }
    }
}

/// Adding submodules never shortens a C-SDU.
pub proof fn lemma_cr_bytes_bound(subs: Seq<SubmoduleView>, n: int)
    requires
        0 <= n <= subs.len(),
        forall|k: int| 0 <= k < subs.len() ==> #[trigger] submodule_fault(subs, k) is None,
    ensures
        3 <= input_cr_bytes(subs, n) <= 3 + 1442 * n,
        3 <= output_cr_bytes(subs, n) <= 3 + 1442 * n,
    decreases n,
{
    if n > 0 {
        lemma_cr_bytes_bound(subs, n - 1);
        assert(submodule_fault(subs, n - 1) is None);
        let s = subs[n - 1];
        lemma_bytes_grow(s.inputs, 0, s.inputs.len() as int);
        lemma_bytes_grow(s.outputs, 0, s.outputs.len() as int);
    }
}

/// [`layout`] plus the size guard (computed in 32 bits so an oversized declaration is
/// reported, not wrapped).
fn checked_layout(slot: Slot, fields: &[FieldType]) -> (res: Result<
    (Vec<FieldRef>, u16),
    ConfigError,
>)
    requires
        layout_len(fields@) <= u32::MAX,
    ensures
        match res {
            Ok((refs, len)) => {
                &&& layout_len(fields@) <= MAX_SUBMODULE_BYTES
                &&& refs@ == field_refs(fields@)
                &&& len == layout_len(fields@)
            },
            Err(e) => layout_len(fields@) > MAX_SUBMODULE_BYTES && e == too_long(slot, fields@),
        },
{
    let mut n: u32 = 0;
    let mut open_bits: u32 = 0;
    let mut i: usize = 0;
    while i < fields.len()
        invariant
            i <= fields@.len(),
            layout_len(fields@) <= u32::MAX,
            n == bytes_of(fields@, i as int),
            open_bits == bool_run(fields@, i as int) % 8,
        decreases fields@.len() - i,
    {
        proof {
            lemma_bytes_grow(fields@, i + 1, fields@.len() as int);
            lemma_bool_run_bound(fields@, i as int);
        }
        match fields[i].byte_len() {
            None => {
                if open_bits == 0 {
                    n = n + 1;
                }
                open_bits = (open_bits + 1) % 8;
            },
            Some(k) => {
                open_bits = 0;
                n = n + k as u32;
            },
        }
        i = i + 1;
    }
    if n > MAX_SUBMODULE_BYTES as u32 {
        return Err(ConfigError::TooLong { slot: slot.0, bytes: n, max: MAX_SUBMODULE_BYTES });
    }
    proof {
        lemma_bytes_grow(fields@, 0, fields@.len() as int);
    }
    Ok(layout(fields))
}

/// The Input and Output CR C-SDU lengths the way the controller computes them.
fn cr_lengths(submodules: &Vec<SubmoduleSpec>, derived: &Vec<Derived>) -> (r: (u32, u32))
    requires
        submodules@.len() == derived@.len(),
        submodules@.len() <= u16::MAX,
        forall|i: int|
            0 <= i < derived@.len() ==> (#[trigger] derived@[i]).is_of(submodules@[i]@),
        forall|k: int|
            0 <= k < submodules@.len() ==> #[trigger] submodule_fault(
                submodule_views(submodules@),
                k,
            ) is None,
    ensures
        r.0 == input_cr_bytes(submodule_views(submodules@), submodules@.len() as int),
        r.1 == output_cr_bytes(submodule_views(submodules@), submodules@.len() as int),
{
    let ghost subs = submodule_views(submodules@);
    let mut input_bytes: u32 = 3;
    let mut output_bytes: u32 = 3;
    let mut i: usize = 0;
    while i < submodules.len()
        invariant
            i <= submodules@.len(),
            submodules@.len() == derived@.len(),
            submodules@.len() <= u16::MAX,
            subs == submodule_views(submodules@),
            forall|k: int|
                0 <= k < derived@.len() ==> (#[trigger] derived@[k]).is_of(submodules@[k]@),
            forall|k: int| 0 <= k < subs.len() ==> #[trigger] submodule_fault(subs, k) is None,
            input_bytes == input_cr_bytes(subs, i as int),
            output_bytes == output_cr_bytes(subs, i as int),
        decreases submodules@.len() - i,
    {
        proof {
            lemma_cr_bytes_bound(subs, i as int);
            assert(subs[i as int] == submodules@[i as int]@);
            assert(derived@[i as int].is_of(submodules@[i as int]@));
            assert(submodule_fault(subs, i as int) is None);
        }
        let has_in = submodules[i].inputs.len() > 0;
        let has_out = submodules[i].outputs.len() > 0;
        if has_in {
            input_bytes = input_bytes + derived[i].input_len as u32 + 1;
            output_bytes = output_bytes + 1;
        }
        if has_out {
            output_bytes = output_bytes + derived[i].output_len as u32 + 1;
            input_bytes = input_bytes + 1;
        }
        i = i + 1;
    }
    (input_bytes, output_bytes)
}

/// Derives the table of one submodule; refuses it as [`submodule_fault`] says.
fn derive(submodules: &Vec<SubmoduleSpec>, i: usize) -> (res: Result<Derived, ConfigError>)
    requires
        i < submodules@.len(),
        layout_len(submodules@[i as int]@.inputs) <= u32::MAX,
        layout_len(submodules@[i as int]@.outputs) <= u32::MAX,
    ensures
        match res {
            Ok(d) => {
                &&& submodule_fault(submodule_views(submodules@), i as int) is None
                &&& d.is_of(submodules@[i as int]@)
            },
            Err(e) => submodule_fault(submodule_views(submodules@), i as int) == Some(e),
        },
{
    let ghost subs = submodule_views(submodules@);
    let s = &submodules[i];
    assert(subs[i as int] == s@);
    if s.slot.0 == 0 {
        return Err(ConfigError::SlotZeroReserved);
    }
    if i > 0 && submodules[i - 1].slot == s.slot {
        assert(subs[i - 1] == submodules@[i - 1]@);
        return Err(ConfigError::DuplicateSlot(s.slot.0));
    }
    proof {
        if i > 0 {
            assert(subs[i - 1] == submodules@[i - 1]@);
        }
    }
    if s.inputs.len() == 0 && s.outputs.len() == 0 {
        return Err(ConfigError::EmptySubmodule(s.slot.0));
    }
    let (inputs, input_len) = checked_layout(s.slot, s.inputs.as_slice())?;
    let (outputs, output_len) = checked_layout(s.slot, s.outputs.as_slice())?;
    Ok(Derived { inputs, input_len, outputs, output_len })
}

/// Derives the tables of all submodules, up to the first that is refused.
fn derive_all(submodules: &Vec<SubmoduleSpec>) -> (res: Result<Vec<Derived>, ConfigError>)
    requires
        forall|i: int|
            0 <= i < submodules@.len() ==> {
                &&& layout_len((#[trigger] submodules@[i])@.inputs) <= u32::MAX
                &&& layout_len(submodules@[i]@.outputs) <= u32::MAX
            },
    ensures
        match res {
            Ok(derived) => {
                &&& first_submodule_fault(submodule_views(submodules@), 0) is None
                &&& forall|k: int|
                    0 <= k < submodules@.len() ==> #[trigger] submodule_fault(
                        submodule_views(submodules@),
                        k,
                    ) is None
                &&& derived@.len() == submodules@.len()
                &&& forall|i: int|
                    0 <= i < derived@.len() ==> (#[trigger] derived@[i]).is_of(submodules@[i]@)
            },
            Err(e) => first_submodule_fault(submodule_views(submodules@), 0) == Some(e),
        },
{
    let ghost subs = submodule_views(submodules@);
    let mut derived: Vec<Derived> = Vec::new();
    let mut i: usize = 0;
    while i < submodules.len()
        invariant
            i <= submodules@.len(),
            subs == submodule_views(submodules@),
            forall|i: int|
                0 <= i < submodules@.len() ==> {
                    &&& layout_len((#[trigger] submodules@[i])@.inputs) <= u32::MAX
                    &&& layout_len(submodules@[i]@.outputs) <= u32::MAX
                },
            forall|k: int| 0 <= k < i ==> #[trigger] submodule_fault(subs, k) is None,
            derived@.len() == i,
            forall|k: int|
                0 <= k < derived@.len() ==> (#[trigger] derived@[k]).is_of(submodules@[k]@),
        decreases submodules@.len() - i,
    {
        proof {
            assert(layout_len(submodules@[i as int]@.inputs) <= u32::MAX);
            lemma_first_submodule_fault(subs, i as int);
        }
        let d = derive(submodules, i)?;
        derived.push(d);
        i = i + 1;
    }
    proof {
        lemma_first_submodule_fault(subs, i as int);
    }
    Ok(derived)
}

impl DeviceConfigBuilder {
    /// The identity to report: the declared one, or the one derived from the station type.
    fn identity_of(im0: Option<Im0>, station_type: &str) -> (r: Im0)
        ensures
            match im0 {
                Some(i) => r == i,
                None => is_derived_im0(r, station_type@) && r.fault() is None,
            },
    {
        match im0 {
            Some(i) => i,
            None => {
                let order_id = order_id_from_station_type(station_type);
                let base = Im0::default();
                let r = Im0 { order_id, ..base };
                proof {
                    utf8::is_ascii_chars_encode_utf8(r.order_id@);
                    utf8::is_ascii_chars_encode_utf8(r.serial_number@);
                }
                r
            },
        }
    }

    /// Validates the declaration and derives the per-submodule field tables. Runs, in order:
    /// the station-name rule, `min_device_interval`, `vendor_id != 0`, the identity, at least
    /// one submodule, then per submodule (in ascending slot order) slot != 0, no duplicate
    /// slot, not empty, each direction's byte layout within [`MAX_SUBMODULE_BYTES`], and
    /// finally, once every submodule's layout is known, the *total* C-SDU guard against the
    /// same 1440-byte RT frame budget, per direction across all submodules.
    pub fn build(self) -> (res: Result<DeviceConfig, ConfigError>)
        requires
            self@.is_countable(),
        ensures
            match res {
                Err(ConfigError::BadStationName(name)) => {
                    &&& name@ == self@.station_name
                    &&& !is_station_name(lowered(self@.station_name))
                },
                Err(e) => {
                    &&& is_station_name(lowered(self@.station_name))
                    &&& self@.fault() == Some(e)
                },
                Ok(cfg) => {
                    &&& is_station_name(lowered(self@.station_name))
                    &&& self@.fault() is None
                    &&& cfg@.station_name == lowered(self@.station_name)
                    &&& cfg@.station_type == self@.station_type
                    &&& cfg@.vendor_id == self@.vendor_id
                    &&& cfg@.device_id == self@.device_id
                    &&& cfg@.min_device_interval == self@.min_device_interval
                    &&& cfg@.submodules == sorted_by_slot(self@.submodules)
                    &&& match self@.im0 {
                        Some(im0) => cfg@.im0 == im0,
                        None => is_derived_im0(cfg@.im0, self@.station_type),
                    }
                    &&& cfg@.wf()
                },
            },
    {
        let station_name = match normalize_station_name(self.station_name.as_str()) {
            Some(name) => name,
            None => {
                return Err(ConfigError::BadStationName(self.station_name.clone()));
            },
        };
        if self.min_device_interval != 16 && self.min_device_interval != 32 {
            return Err(ConfigError::BadInterval(self.min_device_interval));
        }
        if self.vendor_id == 0 {
            return Err(ConfigError::BadIdentity);
        }
        let im0 = Self::identity_of(self.im0, self.station_type.as_str());
        match im0.validate() {
            Ok(_) => {},
            Err(e) => {
                return Err(ConfigError::Im(e));
            },
        }
        let ghost declared = submodule_views(self.submodules@);
        proof {
            sorting_orders_the_submodules(declared);
            lemma_sorted_all(
                declared,
                |s: SubmoduleView|
                    layout_len(s.inputs) <= u32::MAX && layout_len(s.outputs) <= u32::MAX,
            );
        }
        if self.submodules.len() == 0 {
            return Err(ConfigError::NoSubmodule);
        }
        let submodules = sort_by_slot(self.submodules);
        let ghost subs = submodule_views(submodules@);
        proof {
            assert forall|i: int| 0 <= i < submodules@.len() implies layout_len(
                (#[trigger] submodules@[i])@.inputs,
            ) <= u32::MAX && layout_len(submodules@[i]@.outputs) <= u32::MAX by {
                assert(subs[i] == submodules@[i]@);
            }
        }
        proof {
            lemma_submodule_fault_kind(subs, 0);
        }
        let derived = derive_all(&submodules)?;
        proof {
            lemma_strictly_ascending(subs, subs.len() as int);
            lemma_cr_bytes_bound(subs, subs.len() as int);
        }
        let (input_bytes, output_bytes) = cr_lengths(&submodules, &derived);
        if input_bytes > MAX_SUBMODULE_BYTES as u32 {
            return Err(
                ConfigError::TooLongTotal {
                    direction: Direction::Input,
                    bytes: input_bytes,
                    max: MAX_SUBMODULE_BYTES,
                },
            );
        }
        if output_bytes > MAX_SUBMODULE_BYTES as u32 {
            return Err(
                ConfigError::TooLongTotal {
                    direction: Direction::Output,
                    bytes: output_bytes,
                    max: MAX_SUBMODULE_BYTES,
                },
            );
        }
        Ok(
            DeviceConfig {
                station_name,
                station_type: self.station_type,
                vendor_id: self.vendor_id,
                device_id: self.device_id,
                min_device_interval: self.min_device_interval,
                submodules,
                derived,
                im0,
            },
        )
    }
}

impl DeviceConfig {
    #[verifier::type_invariant]
    spec fn is_valid(self) -> bool {
        &&& self@.wf()
        &&& self.derived@.len() == self.submodules@.len()
        &&& self.submodules@.len() <= u16::MAX
        &&& forall|i: int|
            0 <= i < self.derived@.len() ==> (#[trigger] self.derived@[i]).is_of(
                self.submodules@[i]@,
            )
    }

    /// Starts a builder with the given station name and every other field at its default
    /// (station type `"pnio device"`, vendor/device id `0xFFFF`/`0x0001`, 1 ms
    /// `min_device_interval`, no submodules).
    pub fn builder(station_name: &str) -> (b: DeviceConfigBuilder)
        ensures
            b@ == (BuilderView {
                station_name: station_name@,
                station_type: "pnio device"@,
                vendor_id: 0xFFFF,
                device_id: 0x0001,
                min_device_interval: 32,
                submodules: Seq::empty(),
                im0: None,
            }),
    {
        let b = DeviceConfigBuilder {
            station_name: station_name.to_owned(),
            station_type: "pnio device".to_owned(),
            vendor_id: 0xFFFF,
            device_id: 0x0001,
            min_device_interval: 32,
            submodules: Vec::new(),
            im0: None,
        };
        assert(b@.submodules =~= Seq::empty());
        b
    }
}

/// Finds the position of the first submodule at `slot`, or the number of submodules.
fn find_slot(submodules: &Vec<SubmoduleSpec>, slot: Slot) -> (i: usize)
    ensures
        i == slot_index(submodule_views(submodules@), slot),
        i <= submodules@.len(),
        i < submodules@.len() ==> submodules@[i as int].slot == slot,
{
    let ghost subs = submodule_views(submodules@);
    let mut i: usize = 0;
    while i < submodules.len()
        invariant
            i <= submodules@.len(),
            subs == submodule_views(submodules@),
            forall|k: int| 0 <= k < i ==> (#[trigger] subs[k]).slot != slot,
        decreases submodules@.len() - i,
    {
        assert(subs[i as int] == submodules@[i as int]@);
        if submodules[i].slot == slot {
            proof {
                lemma_slot_index(subs, slot, i as int);
            }
            return i;
        }
        i = i + 1;
    }
    proof {
        lemma_slot_index(subs, slot, i as int);
    }
    i
}

/// The DAP slot of a model.
pub open spec fn is_dap_slot(s: SlotModel) -> bool {
    &&& s.slot == 0
    &&& s.module_ident == 0x1
    &&& s.submodules@ == seq![
        SubmoduleModel { subslot: 1, submodule_ident: 0x1, input_len: 0, output_len: 0 },
        SubmoduleModel { subslot: 0x8000, submodule_ident: 0x8000, input_len: 0, output_len: 0 },
        SubmoduleModel { subslot: 0x8001, submodule_ident: 0x8001, input_len: 0, output_len: 0 },
    ]
}

/// The plugged submodule of a declared one.
pub open spec fn plugged(s: SubmoduleView) -> SubmoduleModel {
    SubmoduleModel {
        subslot: 1,
        submodule_ident: 0x1,
        input_len: layout_len(s.inputs) as u16,
        output_len: layout_len(s.outputs) as u16,
    }
}

/// The slot of a model that a declared submodule takes.
pub open spec fn is_slot_of(m: SlotModel, s: SubmoduleView) -> bool {
    &&& m.slot == s.slot.0
    &&& m.module_ident == 0x100 + s.slot.0
    &&& m.submodules@ == seq![plugged(s)]
}

impl ConfigView {
    /// The device model of a configuration: the DAP, then one slot per submodule.
    pub open spec fn is_model(self, m: DeviceModel, mac: MacAddr) -> bool {
        &&& m.vendor_id == self.vendor_id
        &&& m.device_id == self.device_id
        &&& m.instance == 1
        &&& m.station_name@ == self.station_name
        &&& m.mac == mac
        &&& m.max_alarm_data_length == 200
        &&& m.slots@.len() == self.submodules.len() + 1
        &&& is_dap_slot(m.slots@[0])
        &&& forall|i: int|
            0 <= i < self.submodules.len() ==> is_slot_of(
                m.slots@[i + 1],
                #[trigger] self.submodules[i],
            )
    }

    /// The DCP identity of a configuration, for an address in a /24 network without router.
    pub open spec fn is_identity(self, p: DeviceProperties, ip: [u8; 4]) -> bool {
        &&& p.name_of_station@ == self.station_name
        &&& p.type_of_station@ == self.station_type
        &&& p.vendor_id == self.vendor_id
        &&& p.device_id == self.device_id
        &&& p.device_role == 0x0100
        &&& p.device_instance == 1
        &&& p.device_options@ == seq![1u8, 2, 2, 2, 2, 3]
        &&& p.ip == ip
        &&& p.subnet == [255u8, 255, 255, 0]
        &&& p.gateway == ip
        &&& p.ip_block_info == 1
    }

    /// The serial number reported: the declared one, or one made of the last three octets of
    /// the address.
    pub open spec fn serial(self, mac: MacAddr) -> Seq<char> {
        if self.im0.serial_number@.len() == 0 {
            "PNIO-"@ + text::upper_hex_text(mac.0[3] as int, 2) + text::upper_hex_text(
                mac.0[4] as int,
                2,
            ) + text::upper_hex_text(mac.0[5] as int, 2)
        } else {
            self.im0.serial_number@
        }
    }
}

/// Every declared submodule is plugged in the model of the configuration: a lookup of its
/// slot finds it, with the lengths of its layout.
pub proof fn declared_submodules_are_plugged(
    cfg: ConfigView,
    m: DeviceModel,
    mac: MacAddr,
    i: int,
)
    requires
        cfg.wf(),
        cfg.is_model(m, mac),
        0 <= i < cfg.submodules.len(),
    ensures
        m.spec_find(cfg.submodules[i].slot.0, 1) == Some(plugged(cfg.submodules[i])),
        layout_len(cfg.submodules[i].inputs) <= u16::MAX,
        layout_len(cfg.submodules[i].outputs) <= u16::MAX,
{
    let slot = cfg.submodules[i].slot.0;
    assert(submodule_fault(cfg.submodules, i) is None);
    assert forall|k: int| 0 <= k < i + 1 implies (#[trigger] m.slots@[k]).slot != slot by {
        if k > 0 {
            assert(is_slot_of(m.slots@[k - 1 + 1], cfg.submodules[k - 1]));
        }
    }
    assert(is_slot_of(m.slots@[i + 1], cfg.submodules[i]));
    model::lemma_slot_pos(m.slots@, slot, i + 1);
    model::lemma_subslot_pos(m.slots@[i + 1].submodules@, 1, 0);
}

/// The activity UUID of a device: a fixed prefix, then its address.
pub open spec fn activity_of(mac: MacAddr) -> Uuid {
    Uuid {
        data1: 0x14af_198a,
        data2: 0x1234,
        data3: 0x1056,
        data4: (0x8079_0000_0000_0000 + mac.0[0] * 0x100_0000_0000 + mac.0[1] * 0x1_0000_0000
            + mac.0[2] * 0x100_0000 + mac.0[3] * 0x1_0000 + mac.0[4] * 0x100 + mac.0[5]) as u64,
    }
}

impl DeviceConfig {
    /// The normalized station name, as answered on the wire by DCP.
    pub fn station_name(&self) -> (r: &str)
        ensures
            r@ == self@.station_name,
    {
        self.station_name.as_str()
    }

    /// The station type ([`DeviceConfigBuilder::station_type`]).
    pub fn station_type(&self) -> (r: &str)
        ensures
            r@ == self@.station_type,
    {
        self.station_type.as_str()
    }

    /// The PROFINET vendor ID.
    pub fn vendor_id(&self) -> (r: u16)
        ensures
            r == self@.vendor_id,
    {
        self.vendor_id
    }

    /// The PROFINET device ID.
    pub fn device_id(&self) -> (r: u16)
        ensures
            r == self@.device_id,
    {
        self.device_id
    }

    /// The AR's cyclic update time, in units of 31.25 us.
    pub fn min_device_interval(&self) -> (r: u16)
        ensures
            r == self@.min_device_interval,
            r == 16 || r == 32,
    {
        proof {
            use_type_invariant(self);
        }
        self.min_device_interval
    }

    /// Every declared submodule, sorted by slot.
    pub fn submodules(&self) -> (r: &[SubmoduleSpec])
        ensures
            submodule_views(r@) == self@.submodules,
            self@.wf(),
    {
        proof {
            use_type_invariant(self);
        }
        self.submodules.as_slice()
    }

    /// The device's I&M0 identity.
    pub fn im0(&self) -> (r: &Im0)
        ensures
            *r == self@.im0,
    {
        &self.im0
    }

    fn index_of(&self, slot: Slot) -> (r: Option<usize>)
        ensures
            match r {
                Some(i) => {
                    &&& i == self@.pos(slot)
                    &&& i < self.submodules@.len()
                    &&& self@.submodule(slot) == Some(self.submodules@[i as int]@)
                    &&& i < self.derived@.len()
                    &&& self.derived@[i as int].is_of(self.submodules@[i as int]@)
                    &&& submodule_fault(self@.submodules, i as int) is None
                },
                None => self@.submodule(slot) is None,
            },
    {
        proof {
            use_type_invariant(self);
        }
        let i: usize = find_slot(&self.submodules, slot);
        if i < self.submodules.len() {
            assert(self@.submodules[i as int] == self.submodules@[i as int]@);
            assert(self.derived@[i as int].is_of(self.submodules@[i as int]@));
            assert(submodule_fault(self@.submodules, i as int) is None);
            Some(i)
        } else {
            None
        }
    }

    /// The declared submodule at `slot`, if any.
    pub fn submodule(&self, slot: Slot) -> (r: Option<&SubmoduleSpec>)
        ensures
            match r {
                Some(s) => self@.submodule(slot) == Some(s@),
                None => self@.submodule(slot) is None,
            },
    {
        match self.index_of(slot) {
            Some(i) => Some(&self.submodules[i]),
            None => None,
        }
    }

    /// The field refs of one direction of a slot (`InputOutput` is not a lookup key: ask for
    /// `Input` or `Output`).
    pub fn fields(&self, slot: Slot, dir: Direction) -> (r: Option<&[FieldRef]>)
        ensures
            match r {
                Some(f) => self@.fields(slot, dir) == Some(f@),
                None => self@.fields(slot, dir) is None,
            },
    {
        let i: usize = match self.index_of(slot) {
            Some(i) => i,
            None => {
                return None;
            },
        };
        let d = &self.derived[i];
        match dir {
            Direction::Input => if d.inputs.len() > 0 {
                Some(d.inputs.as_slice())
            } else {
                None
            },
            Direction::Output => if d.outputs.len() > 0 {
                Some(d.outputs.as_slice())
            } else {
                None
            },
            Direction::InputOutput => None,
        }
    }

    /// The [`FieldRef`] at `index` in one direction of a slot, or `None` if the slot,
    /// direction or index doesn't resolve.
    pub fn field(&self, slot: Slot, dir: Direction, index: usize) -> (r: Option<FieldRef>)
        ensures
            r == (match self@.fields(slot, dir) {
                Some(f) if index < f.len() => Some(f[index as int]),
                _ => None::<FieldRef>,
            }),
    {
        match self.fields(slot, dir) {
            Some(f) => if index < f.len() {
                Some(f[index])
            } else {
                None
            },
            None => None,
        }
    }

    /// The slot's input byte length (device to controller), or `None` if the slot isn't
    /// declared. `0` if declared with no input fields.
    pub fn input_len(&self, slot: Slot) -> (r: Option<u16>)
        ensures
            match (r, self@.submodule(slot)) {
                (Some(n), Some(s)) => n == layout_len(s.inputs) && n <= MAX_SUBMODULE_BYTES,
                (None, None) => true,
                _ => false,
            },
    {
        match self.index_of(slot) {
            Some(i) => Some(self.derived[i].input_len),
            None => None,
        }
    }

    /// The slot's output byte length (controller to device), or `None` if the slot isn't
    /// declared. `0` if declared with no output fields.
    pub fn output_len(&self, slot: Slot) -> (r: Option<u16>)
        ensures
            match (r, self@.submodule(slot)) {
                (Some(n), Some(s)) => n == layout_len(s.outputs) && n <= MAX_SUBMODULE_BYTES,
                (None, None) => true,
                _ => false,
            },
    {
        match self.index_of(slot) {
            Some(i) => Some(self.derived[i].output_len),
            None => None,
        }
    }

    /// Input CR C-SDU length including the IOPS/IOCS bytes, as the controller will compute
    /// it; at most 1440 by construction.
    pub fn input_cr_len(&self) -> (n: u16)
        ensures
            n == input_cr_bytes(self@.submodules, self@.submodules.len() as int),
            n <= MAX_SUBMODULE_BYTES,
    {
        proof {
            use_type_invariant(self);
        }
        cr_lengths(&self.submodules, &self.derived).0 as u16
    }

    /// Output CR C-SDU length including the IOPS/IOCS bytes, as the controller will compute
    /// it; at most 1440 by construction.
    pub fn output_cr_len(&self) -> (n: u16)
        ensures
            n == output_cr_bytes(self@.submodules, self@.submodules.len() as int),
            n <= MAX_SUBMODULE_BYTES,
    {
        proof {
            use_type_invariant(self);
        }
        cr_lengths(&self.submodules, &self.derived).1 as u16
    }

    /// The plug-and-play model the `cm` layer validates Connect requests against.
    pub fn model(&self, mac: MacAddr) -> (m: DeviceModel)
        ensures
            self@.is_model(m, mac),
    {
        proof {
            use_type_invariant(self);
        }
        let dap = SlotModel {
            slot: 0,
            module_ident: 0x1,
            submodules: vec![
                model::submodule(1, 0x1, 0, 0),
                model::submodule(0x8000, 0x8000, 0, 0),
                model::submodule(0x8001, 0x8001, 0, 0),
            ],
        };
        assert(is_dap_slot(dap));
        let mut slots: Vec<SlotModel> = Vec::new();
        slots.push(dap);
        let mut i: usize = 0;
        while i < self.submodules.len()
            invariant
                i <= self.submodules@.len(),
                self.derived@.len() == self.submodules@.len(),
                forall|k: int|
                    0 <= k < self.derived@.len() ==> (#[trigger] self.derived@[k]).is_of(
                        self.submodules@[k]@,
                    ),
                slots@.len() == i + 1,
                is_dap_slot(slots@[0]),
                forall|k: int|
                    0 <= k < i ==> is_slot_of(slots@[k + 1], #[trigger] self@.submodules[k]),
            decreases self.submodules@.len() - i,
        {
            let spec = &self.submodules[i];
            let d = &self.derived[i];
            assert(self@.submodules[i as int] == spec@);
            assert(self.derived@[i as int].is_of(spec@));
            let slot = SlotModel {
                slot: spec.slot.0,
                module_ident: 0x100 + spec.slot.0 as u32,
                submodules: vec![model::submodule(1, 0x1, d.input_len, d.output_len)],
            };
            assert(slot.submodules@ =~= seq![plugged(spec@)]);
            slots.push(slot);
            i = i + 1;
        }
        DeviceModel {
            vendor_id: self.vendor_id,
            device_id: self.device_id,
            instance: 1,
            station_name: self.station_name.clone(),
            mac,
            max_alarm_data_length: 200,
            slots,
        }
    }

    /// DCP identity answered on the wire, for the given IP (/24, no router).
    pub fn dcp_properties(&self, ip: [u8; 4]) -> (p: DeviceProperties)
        ensures
            self@.is_identity(p, ip),
    {
        let p = DeviceProperties {
            name_of_station: self.station_name.clone(),
            type_of_station: self.station_type.clone(),
            vendor_id: self.vendor_id,
            device_id: self.device_id,
            device_role: 0x0100,
            device_instance: 1,
            device_options: vec![1, 2, 2, 2, 2, 3],
            ip,
            subnet: [255, 255, 255, 0],
            gateway: ip,
            ip_block_info: 1,
        };
        assert(p.device_options@ =~= seq![1u8, 2, 2, 2, 2, 3]);
        p
    }

    /// The activity UUID seed our outgoing RPC calls use: fixed prefix + the MAC.
    pub fn activity_seed(mac: MacAddr) -> (u: Uuid)
        ensures
            u == activity_of(mac),
    {
        Uuid {
            data1: 0x14af_198a,
            data2: 0x1234,
            data3: 0x1056,
            data4: 0x8079_0000_0000_0000 + (mac.0[0] as u64) * 0x100_0000_0000 + (mac.0[1] as u64)
                * 0x1_0000_0000 + (mac.0[2] as u64) * 0x100_0000 + (mac.0[3] as u64) * 0x1_0000 + (
            mac.0[4] as u64) * 0x100 + mac.0[5] as u64,
        }
    }

    /// Everything the device loop needs.
    ///
    /// `im0.serial_number` is filled from `mac`'s last three octets (`PNIO-<XXYYZZ>`) when the
    /// config leaves it blank, so a device configured without an explicit serial still
    /// answers I&M0 with something MAC-derived rather than an empty field.
    pub fn setup(&self, mac: MacAddr, ip: [u8; 4], rt: Option<RtOptions>) -> (s: DeviceSetup)
        ensures
            s.dcp.mac == mac,
            self@.is_identity(s.dcp.properties, ip),
            self@.is_model(s.model, mac),
            s.activity_seed == activity_of(mac),
            s.rt == rt,
            s.im0.serial_number@ == self@.serial(mac),
            s.im0 == (Im0 { serial_number: s.im0.serial_number, ..self@.im0 }),
            s.im_store is None,
    {
        let mut im0 = self.im0.clone();
        if im0.serial_number.as_str().unicode_len() == 0 {
            let mut serial = "PNIO-".to_owned();
            text::push_upper_hex(&mut serial, mac.0[3] as u64, 2);
            text::push_upper_hex(&mut serial, mac.0[4] as u64, 2);
            text::push_upper_hex(&mut serial, mac.0[5] as u64, 2);
            im0.serial_number = serial;
        }
        DeviceSetup {
            dcp: DcpConfig { mac, properties: self.dcp_properties(ip) },
            model: self.model(mac),
            activity_seed: Self::activity_seed(mac),
            rt,
            im0,
            im_store: None,
        }
    }
}

impl Derived {
    fn copy(&self) -> (r: Self)
        ensures
            r.inputs@ == self.inputs@,
            r.input_len == self.input_len,
            r.outputs@ == self.outputs@,
            r.output_len == self.output_len,
    {
        Derived {
            inputs: slice_to_vec(self.inputs.as_slice()),
            input_len: self.input_len,
            outputs: slice_to_vec(self.outputs.as_slice()),
            output_len: self.output_len,
        }
    }
}

impl Clone for DeviceConfig {
    fn clone(&self) -> (r: Self)
        ensures
            r@ == self@,
    {
        proof {
            use_type_invariant(self);
        }
        let mut submodules: Vec<SubmoduleSpec> = Vec::new();
        let mut derived: Vec<Derived> = Vec::new();
        let mut i: usize = 0;
        while i < self.submodules.len()
            invariant
                i <= self.submodules@.len(),
                self.derived@.len() == self.submodules@.len(),
                submodules@.len() == i,
                derived@.len() == i,
                forall|k: int| 0 <= k < i ==> (#[trigger] submodules@[k])@ == self.submodules@[k]@,
                forall|k: int|
                    0 <= k < i ==> (#[trigger] derived@[k]).inputs@ == self.derived@[k].inputs@
                        && derived@[k].input_len == self.derived@[k].input_len
                        && derived@[k].outputs@ == self.derived@[k].outputs@
                        && derived@[k].output_len == self.derived@[k].output_len,
            decreases self.submodules@.len() - i,
        {
            submodules.push(self.submodules[i].clone());
            derived.push(self.derived[i].copy());
            i = i + 1;
        }
        proof {
            assert(submodule_views(submodules@) =~= submodule_views(self.submodules@));
            assert forall|k: int| 0 <= k < derived@.len() implies (#[trigger] derived@[k]).is_of(
                submodules@[k]@,
            ) by {
                assert(self.derived@[k].is_of(self.submodules@[k]@));
            }
        }
        DeviceConfig {
            station_name: self.station_name.clone(),
            station_type: self.station_type.clone(),
            vendor_id: self.vendor_id,
            device_id: self.device_id,
            min_device_interval: self.min_device_interval,
            submodules,
            derived,
            im0: self.im0.clone(),
        }
    }
}

// ---------------------------------------------------------------------------------
// Laws of the declaration
// ---------------------------------------------------------------------------------

/// Where each field goes: the first to the first bit; a `Bool` behind a `Bool` to the next bit;
/// a `Bool` behind a byte type to the lowest bit of the byte behind it; a byte type behind a
/// `Bool` to the next byte, and behind another byte type right behind it. The length reaches
/// over the last one.
pub proof fn fields_follow_one_another(fields: Seq<FieldType>, i: int)
    requires
        0 <= i < fields.len(),
    ensures
        first_bit(fields, 0) == 0,
        i + 1 < fields.len() ==> {
            let (a, b) = (fields[i], fields[i + 1]);
            let (byte, next) = (byte_of_field(fields, i), byte_of_field(fields, i + 1));
            &&& a == FieldType::Bool && b == FieldType::Bool ==> first_bit(fields, i + 1)
                == first_bit(fields, i) + 1
            &&& a == FieldType::Bool && b != FieldType::Bool ==> next == byte + 1
            &&& (a == FieldType::Int || a == FieldType::Word) ==> next == byte + 2
            &&& (a == FieldType::Dint || a == FieldType::Real) ==> next == byte + 4
            &&& a != FieldType::Bool || b != FieldType::Bool ==> bit_of_field(fields, i + 1) == 0
        },
        i + 1 == fields.len() ==> layout_len(fields) == byte_of_field(fields, i) + (match fields[i] {
            FieldType::Bool => 1int,
            FieldType::Int | FieldType::Word => 2,
            FieldType::Dint | FieldType::Real => 4,
        }),
        layout_len(Seq::empty()) == 0,
{
    reveal_with_fuel(bytes_of, 3);
    reveal_with_fuel(bool_run, 3);
    lemma_bool_run_bound(fields, i);
    lemma_bool_run_bound(fields, i + 1);
    if i + 1 < fields.len() && fields[i] == FieldType::Bool && fields[i + 1] == FieldType::Bool {
        let r = bool_run(fields, i);
        assert(bool_run(fields, i + 1) == r + 1);
        assert((r + 1) % 8 == 0 ==> r % 8 == 7);
        assert((r + 1) % 8 != 0 ==> (r + 1) % 8 == r % 8 + 1);
    }
}

/// A field is known by its byte, its bit and its type.
pub proof fn fields_are_known_by_their_places(fields: Seq<FieldType>, i: int)
    requires
        0 <= i < fields.len(),
        layout_len(fields) <= u16::MAX,
    ensures
        field_refs(fields).len() == fields.len(),
        field_refs(fields)[i].ty == fields[i],
        field_refs(fields)[i].byte == byte_of_field(fields, i),
        field_refs(fields)[i].bit == bit_of_field(fields, i),
        fields[i] != FieldType::Bool ==> field_refs(fields)[i].bit == 0,
{
    fields_lie_within(fields, i);
}

/// What each submodule adds to the two C-SDUs: its data with a provider status in its own
/// direction, a consumer status in the other. The DAP alone has three status bytes in each.
pub proof fn submodules_add_their_data_and_status(subs: Seq<SubmoduleView>, n: int)
    requires
        0 <= n < subs.len(),
    ensures
        input_cr_bytes(subs, 0) == 3 && output_cr_bytes(subs, 0) == 3,
        ({
            let s = subs[n];
            let (has_in, has_out) = (s.inputs.len() > 0, s.outputs.len() > 0);
            let input = input_cr_bytes(subs, n + 1) - input_cr_bytes(subs, n);
            let output = output_cr_bytes(subs, n + 1) - output_cr_bytes(subs, n);
            &&& has_in && !has_out ==> input == layout_len(s.inputs) + 1 && output == 1
            &&& !has_in && has_out ==> input == 1 && output == layout_len(s.outputs) + 1
            &&& has_in && has_out ==> input == layout_len(s.inputs) + 2 && output == layout_len(
                s.outputs,
            ) + 2
            &&& !has_in && !has_out ==> input == 0 && output == 0
        }),
{
}

/// The two directions are each other's mirror: with inputs and outputs exchanged, so are the
/// two lengths.
pub proof fn directions_mirror_each_other(subs: Seq<SubmoduleView>, n: int)
    requires
        0 <= n <= subs.len(),
    ensures
        ({
            let mirror = subs.map_values(
                |s: SubmoduleView|
                    SubmoduleView { slot: s.slot, name: s.name, inputs: s.outputs, outputs: s.inputs },
            );
            &&& input_cr_bytes(mirror, n) == output_cr_bytes(subs, n)
            &&& output_cr_bytes(mirror, n) == input_cr_bytes(subs, n)
        }),
    decreases n,
{
    if n > 0 {
        directions_mirror_each_other(subs, n - 1);
    }
}

/// Just these are names of stations: 1 to 240 lower-case letters, digits, hyphens and dots,
/// where no label between dots is empty or begins or ends with a hyphen, that are not made of
/// digits and dots alone, and that are no name of a port.
pub proof fn names_of_stations_are_made_of_labels(s: Seq<char>)
    ensures
        is_station_name(s) <==> {
            let n = s.len() as int;
            &&& 1 <= n <= 240
            &&& forall|i: int|
                0 <= i < n ==> 'a' <= #[trigger] s[i] <= 'z' || '0' <= s[i] <= '9' || s[i] == '-'
                    || s[i] == '.'
            &&& s[0] != '.' && s[0] != '-' && s[n - 1] != '.' && s[n - 1] != '-'
            &&& forall|i: int, j: int|
                0 <= i && j == i + 1 && j < n ==> !(#[trigger] s[i] == '.' && #[trigger] s[j] == '.')
            &&& forall|i: int, j: int|
                0 <= i && j == i + 1 && j < n ==> !(#[trigger] s[i] == '.' && #[trigger] s[j] == '-')
            &&& forall|i: int, j: int|
                0 <= i && j == i + 1 && j < n ==> !(#[trigger] s[i] == '-' && #[trigger] s[j] == '.')
            &&& exists|i: int|
                0 <= i < n && ('a' <= #[trigger] s[i] <= 'z' || s[i] == '-')
            &&& !is_port_name(s)
        },
{
    let n = s.len() as int;
    if is_station_name(s) {
        assert(fits_at(s, 0) && fits_at(s, n - 1));
        assert forall|i: int| 0 <= i < n implies 'a' <= #[trigger] s[i] <= 'z' || '0' <= s[i] <= '9'
            || s[i] == '-' || s[i] == '.' by {
            assert(fits_at(s, i));
        }
        assert forall|i: int, j: int|
            0 <= i && j == i + 1 && j < n implies !(#[trigger] s[i] == '.' && #[trigger] s[j] == '.')
            && !(s[i] == '.' && s[j] == '-') && !(s[i] == '-' && s[j] == '.') by {
            assert(fits_at(s, i) && fits_at(s, j));
        }
        let k = choose|i: int| 0 <= i < s.len() && !is_digit(#[trigger] s[i]) && s[i] != '.';
        assert(fits_at(s, k));
        assert(0 <= k < n && ('a' <= s[k] <= 'z' || s[k] == '-'));
    } else if {
        &&& 1 <= n <= 240
        &&& forall|i: int|
            0 <= i < n ==> 'a' <= #[trigger] s[i] <= 'z' || '0' <= s[i] <= '9' || s[i] == '-'
                || s[i] == '.'
        &&& s[0] != '.' && s[0] != '-' && s[n - 1] != '.' && s[n - 1] != '-'
        &&& forall|i: int, j: int|
            0 <= i && j == i + 1 && j < n ==> !(#[trigger] s[i] == '.' && #[trigger] s[j] == '.')
        &&& forall|i: int, j: int|
            0 <= i && j == i + 1 && j < n ==> !(#[trigger] s[i] == '.' && #[trigger] s[j] == '-')
        &&& forall|i: int, j: int|
            0 <= i && j == i + 1 && j < n ==> !(#[trigger] s[i] == '-' && #[trigger] s[j] == '.')
        &&& exists|i: int| 0 <= i < n && ('a' <= #[trigger] s[i] <= 'z' || s[i] == '-')
        &&& !is_port_name(s)
    } {
        let k = choose|i: int| 0 <= i < n && ('a' <= #[trigger] s[i] <= 'z' || s[i] == '-');
        assert(!is_digit(s[k]) && s[k] != '.');
        assert forall|i: int| 0 <= i < n implies #[trigger] fits_at(s, i) by {
            if 0 < i < n - 1 {
                assert(s[i + 1] == s[i + 1] && s[i - 1] == s[i - 1]);
            }
        }
    }
}

/// The names of ports begin with `port-`, three digits and nothing else, or a hyphen and five
/// more.
pub proof fn names_of_ports_are_numbered(s: Seq<char>)
    ensures
        is_port_name(s) <==> {
            &&& s.len() == 8 || s.len() == 14
            &&& s.take(5) == seq!['p', 'o', 'r', 't', '-']
            &&& '0' <= s[5] <= '9' && '0' <= s[6] <= '9' && '0' <= s[7] <= '9'
            &&& s.len() == 14 ==> s[8] == '-' && '0' <= s[9] <= '9' && '0' <= s[10] <= '9' && '0'
                <= s[11] <= '9' && '0' <= s[12] <= '9' && '0' <= s[13] <= '9'
        },
{
    let p = s.take(5);
    if s.len() >= 8 {
        if p == seq!['p', 'o', 'r', 't', '-'] {
            assert(p[0] == s[0] && p[1] == s[1] && p[2] == s[2] && p[3] == s[3] && p[4] == s[4]);
        }
        if is_port_name(s) {
            assert(p =~= seq!['p', 'o', 'r', 't', '-']);
            assert(is_digit(s[5]) && is_digit(s[6]) && is_digit(s[7]));
            if s.len() == 14 {
                assert(is_digit(s[9]) && is_digit(s[10]) && is_digit(s[11]) && is_digit(s[12])
                    && is_digit(s[13]));
            }
        }
    }
}

/// Lowering changes the 26 capital letters to their small forms and keeps everything else.
pub proof fn lowering_keeps_all_but_capitals(s: Seq<char>, i: int)
    requires
        0 <= i < s.len(),
    ensures
        lowered(s).len() == s.len(),
        !('A' <= s[i] <= 'Z') ==> lowered(s)[i] == s[i],
        'A' <= s[i] <= 'Z' ==> lowered(s)[i] as int - 'a' as int == s[i] as int - 'A' as int,
{
}

/// The order number of a device that declares none is its station type, if that is short and
/// ASCII and holds more than white space; in any case it is ASCII, not blank, and not longer
/// than the field.
pub proof fn order_numbers_come_from_the_station_type(station_type: Seq<char>)
    ensures
        ({
            let id = default_order_id(station_type);
            &&& utf8::is_ascii_chars(id)
            &&& id.len() <= 20
            &&& !is_blank(id)
            &&& utf8::is_ascii_chars(station_type) && !is_blank(at_most(station_type, 20)) ==> {
                &&& station_type.len() <= 20 ==> id == station_type
                &&& station_type.len() > 20 ==> id == station_type.take(20)
            }
            &&& is_blank(station_type) ==> id == "pnio device"@
        }),
{
    let a = ascii_of(station_type);
    lemma_ascii_of(station_type);
    reveal_strlit("pnio device");
    let d = "pnio device"@;
    assert(!is_ascii_space(d[0]));
    assert forall|i: int| 0 <= i < d.len() implies '\0' <= #[trigger] d[i] <= '\x7f' by {}
    if utf8::is_ascii_chars(station_type) || is_blank(station_type) {
        assert forall|i: int| 0 <= i < station_type.len() implies #[trigger] station_type[i]
            <= '\x7f' by {
            if is_blank(station_type) {
                lemma_space_is_ascii(station_type[i]);
            } else {
                assert(utf8::is_ascii_chars(station_type));
            }
        }
        lemma_ascii_is_kept(station_type);
    }
    if is_blank(station_type) {
        assert forall|i: int| 0 <= i < at_most(a, 20).len() implies is_ascii_space(
            #[trigger] at_most(a, 20)[i],
        ) by {
            assert(at_most(a, 20)[i] == station_type[i]);
        }
    }
}

/// White space is ASCII.
proof fn lemma_space_is_ascii(c: char)
    requires
        is_ascii_space(c),
    ensures
        c <= '\x7f',
{
}

/// Of text in ASCII nothing is dropped.
proof fn lemma_ascii_is_kept(s: Seq<char>)
    requires
        forall|i: int| 0 <= i < s.len() ==> #[trigger] s[i] <= '\x7f',
    ensures
        ascii_of(s) == s,
    decreases s.len(),
{
    if s.len() > 0 {
        lemma_ascii_is_kept(s.drop_last());
        assert(s[s.len() - 1] <= '\x7f');
        assert(s.drop_last().push(s.last()) =~= s);
    }
}

/// Why a submodule is refused: slot 0, the slot of the one before it, no fields, or more than
/// 1440 bytes in a direction; and for nothing else.
pub proof fn submodules_are_refused_for_a_reason(subs: Seq<SubmoduleView>, i: int)
    requires
        0 <= i < subs.len(),
        layout_len(subs[i].inputs) <= u32::MAX,
        layout_len(subs[i].outputs) <= u32::MAX,
    ensures
        ({
            let s = subs[i];
            let (zero, double, empty) = (
                s.slot.0 == 0,
                i > 0 && subs[i - 1].slot.0 == s.slot.0,
                s.inputs.len() + s.outputs.len() == 0,
            );
            let (input, output) = (layout_len(s.inputs), layout_len(s.outputs));
            match submodule_fault(subs, i) {
                None => !zero && !double && !empty && input <= 1440 && output <= 1440,
                Some(ConfigError::SlotZeroReserved) => zero,
                Some(ConfigError::DuplicateSlot(n)) => !zero && double && n == s.slot.0,
                Some(ConfigError::EmptySubmodule(n)) => !zero && !double && empty && n == s.slot.0,
                Some(ConfigError::TooLong { slot, bytes, max }) => {
                    &&& !zero && !double && !empty
                    &&& slot == s.slot.0 && max == 1440
                    &&& if input > 1440 {
                        bytes == input
                    } else {
                        output > 1440 && bytes == output
                    }
                },
                Some(_) => false,
            }
        }),
{
}

/// Why a whole declaration is refused: the rules in their order, and nothing else.
pub proof fn declarations_are_refused_for_a_reason(b: BuilderView)
    ensures
        ({
            let interval = b.min_device_interval == 16 || b.min_device_interval == 32;
            let identity = b.im0 is None || b.im0->0.fault() is None;
            let subs = sorted_by_slot(b.submodules);
            let n = subs.len() as int;
            let faultless = forall|i: int| 0 <= i < n ==> #[trigger] submodule_fault(subs, i) is None;
            let short = input_cr_bytes(subs, n) <= 1440 && output_cr_bytes(subs, n) <= 1440;
            &&& b.fault() is None <==> interval && b.vendor_id != 0 && identity && n > 0 && faultless
                && short
            &&& b.fault() == Some(ConfigError::BadInterval(b.min_device_interval)) <==> !interval
            &&& interval && b.vendor_id == 0 ==> b.fault() == Some(ConfigError::BadIdentity)
            &&& interval && b.vendor_id != 0 && !identity ==> b.fault() == Some(
                ConfigError::Im(b.im0->0.fault()->0),
            )
            &&& interval && b.vendor_id != 0 && identity && b.submodules.len() == 0 ==> b.fault()
                == Some(ConfigError::NoSubmodule)
            &&& interval && b.vendor_id != 0 && identity && n > 0 && faultless && !short ==> (
            b.fault() matches Some(ConfigError::TooLongTotal { direction, max, .. }) && max == 1440
                && (direction == Direction::Input <==> input_cr_bytes(subs, n) > 1440)
                && direction != Direction::InputOutput)
        }),
{
    let subs = sorted_by_slot(b.submodules);
    sorting_orders_the_submodules(b.submodules);
    lemma_no_fault(subs, 0);
    lemma_submodule_fault_reasons(subs, 0);
}

/// There is no first refusal just where there is none.
proof fn lemma_no_fault(subs: Seq<SubmoduleView>, i: int)
    requires
        0 <= i <= subs.len(),
    ensures
        first_submodule_fault(subs, i) is None <==> forall|k: int|
            i <= k < subs.len() ==> #[trigger] submodule_fault(subs, k) is None,
    decreases subs.len() - i,
{
    if i < subs.len() {
        lemma_no_fault(subs, i + 1);
        if submodule_fault(subs, i) is None && first_submodule_fault(subs, i + 1) is None {
            assert forall|k: int| i <= k < subs.len() implies #[trigger] submodule_fault(subs, k)
                is None by {}
        }
    }
}

/// No submodule is refused for the interval.
proof fn lemma_submodule_fault_reasons(subs: Seq<SubmoduleView>, i: int)
    requires
        0 <= i <= subs.len(),
    ensures
        first_submodule_fault(subs, i) matches Some(e) ==> !(e is BadInterval),
    decreases subs.len() - i,
{
    if i < subs.len() {
        lemma_submodule_fault_reasons(subs, i + 1);
    }
}

/// The first submodule that is refused is the one reported.
pub proof fn the_first_refused_submodule_is_reported(subs: Seq<SubmoduleView>, i: int)
    requires
        0 <= i < subs.len(),
        submodule_fault(subs, i) is Some,
        forall|k: int| 0 <= k < i ==> #[trigger] submodule_fault(subs, k) is None,
    ensures
        first_submodule_fault(subs, 0) == submodule_fault(subs, i),
{
    lemma_first_submodule_fault(subs, i);
}

/// The model of a configuration: the device access point in slot 0, with its interface and
/// port and without data, and behind it each declared submodule in its own slot.
pub proof fn models_hold_the_access_point_and_the_submodules(
    cfg: ConfigView,
    m: DeviceModel,
    mac: MacAddr,
    i: int,
)
    requires
        cfg.is_model(m, mac),
        0 <= i < cfg.submodules.len(),
        layout_len(cfg.submodules[i].inputs) <= 1440,
        layout_len(cfg.submodules[i].outputs) <= 1440,
    ensures
        m.vendor_id == cfg.vendor_id && m.device_id == cfg.device_id && m.instance == 1,
        m.station_name@ == cfg.station_name && m.mac == mac && m.max_alarm_data_length == 200,
        m.slots@.len() == 1 + cfg.submodules.len(),
        ({
            let d = m.slots@[0];
            let subs = d.submodules@;
            &&& d.slot == 0 && d.module_ident == 1 && subs.len() == 3
            &&& subs[0].subslot == 1 && subs[0].submodule_ident == 1
            &&& subs[1].subslot == 0x8000 && subs[1].submodule_ident == 0x8000
            &&& subs[2].subslot == 0x8001 && subs[2].submodule_ident == 0x8001
            &&& forall|k: int|
                0 <= k < 3 ==> (#[trigger] subs[k]).input_len == 0 && subs[k].output_len == 0
        }),
        ({
            let (s, d) = (m.slots@[i + 1], cfg.submodules[i]);
            &&& s.slot == d.slot.0 && s.module_ident == 256 + d.slot.0
            &&& s.submodules@.len() == 1
            &&& s.submodules@[0].subslot == 1 && s.submodules@[0].submodule_ident == 1
            &&& s.submodules@[0].input_len == layout_len(d.inputs)
            &&& s.submodules@[0].output_len == layout_len(d.outputs)
        }),
{
    assert(is_slot_of(m.slots@[i + 1], cfg.submodules[i]));
    lemma_bytes_grow(cfg.submodules[i].inputs, 0, cfg.submodules[i].inputs.len() as int);
    lemma_bytes_grow(cfg.submodules[i].outputs, 0, cfg.submodules[i].outputs.len() as int);
}

/// The DCP identity of a configuration: its names and ids, the role of an IO-Device, the first
/// instance, an address set in a /24 network that is its own router, and the options that the
/// device answers: the IP parameter, the name, the type and the device id and role.
pub proof fn identities_tell_the_configuration(cfg: ConfigView, p: DeviceProperties, ip: [u8; 4])
    requires
        cfg.is_identity(p, ip),
    ensures
        p.name_of_station@ == cfg.station_name && p.type_of_station@ == cfg.station_type,
        p.vendor_id == cfg.vendor_id && p.device_id == cfg.device_id,
        p.device_role == 0x0100 && p.device_instance == 1 && p.ip_block_info == 1,
        p.ip == ip && p.gateway == ip,
        p.subnet@ =~= seq![255u8, 255, 255, 0],
        p.device_options@ =~= seq![1u8, 2, 2, 2, 2, 3],
{
}

/// A device without a declared identity: the default one, with the order number of its station
/// type, no serial number of its own, hardware revision 1 and software V0.1.0.
pub proof fn default_identities_are_v0_1_0(im0: Im0, station_type: Seq<char>)
    requires
        is_derived_im0(im0, station_type),
    ensures
        im0.order_id@ == default_order_id(station_type) && im0.serial_number@.len() == 0,
        im0.hardware_revision == 1 && im0.revision_counter == 0,
        im0.profile_id == 0 && im0.profile_specific_type == 0,
        im0.software_revision.prefix == 'V' && im0.software_revision.functional == 0,
        im0.software_revision.bug_fix == 1 && im0.software_revision.internal == 0,
{
}

/// The activity of a device is told from that of another by its address: the lower six bytes of
/// the last part are the address, first byte first.
pub proof fn activities_hold_the_address(mac: MacAddr)
    ensures
        ({
            let u = activity_of(mac);
            let m = mac.0@;
            &&& u.data1 == 0x14AF_198A && u.data2 == 0x1234 && u.data3 == 0x1056
            &&& u.data4 / 0x1_0000_0000_0000 == 0x8079
            &&& u.data4 % 0x1_0000_0000_0000 == m[0] * 0x100_0000_0000 + m[1] * 0x1_0000_0000 + m[2]
                * 0x100_0000 + m[3] * 0x1_0000 + m[4] * 0x100 + m[5]
        }),
{
}

/// Directions are told by what is declared: inputs alone, outputs alone, else both.
pub proof fn directions_are_those_declared(s: SubmoduleView)
    ensures
        s.direction() == Direction::Input <==> s.inputs.len() > 0 && s.outputs.len() == 0,
        s.direction() == Direction::Output <==> s.inputs.len() == 0 && s.outputs.len() > 0,
        s.fields(Direction::Input) == s.inputs,
        s.fields(Direction::Output) == s.outputs,
        s.fields(Direction::InputOutput).len() == 0,
{
}

/// A field is looked up in the submodule of its slot, in the direction asked for; a slot that
/// has none there, and both directions at once, find nothing.
pub proof fn fields_are_looked_up_by_slot_and_direction(cfg: ConfigView, i: int)
    requires
        cfg.wf(),
        0 <= i < cfg.submodules.len(),
    ensures
        ({
            let s = cfg.submodules[i];
            &&& s.inputs.len() > 0 ==> cfg.fields(s.slot, Direction::Input) == Some(
                field_refs(s.inputs),
            )
            &&& s.inputs.len() == 0 ==> cfg.fields(s.slot, Direction::Input) is None
            &&& s.outputs.len() > 0 ==> cfg.fields(s.slot, Direction::Output) == Some(
                field_refs(s.outputs),
            )
            &&& s.outputs.len() == 0 ==> cfg.fields(s.slot, Direction::Output) is None
            &&& cfg.fields(s.slot, Direction::InputOutput) is None
        }),
{
    lemma_own_slot(cfg, i);
}

/// A submodule keeps the place that it is declared with: inputs are inputs and called so,
/// outputs are outputs, and one of both has the name it is given.
pub proof fn declared_fields_keep_their_direction(
    b: DeviceConfigBuilder,
    slot: Slot,
    fields: &[FieldType],
    others: &[FieldType],
    name: &str,
    r: DeviceConfigBuilder,
)
    ensures
        call_ensures(DeviceConfigBuilder::input, (b, slot, fields), r) ==> {
            let s = r@.submodules.last();
            &&& r@.submodules.drop_last() == b@.submodules
            &&& s.slot == slot && s.inputs == fields@ && s.outputs.len() == 0
            &&& s.name == "in"@ + text::dec_text(slot.0 as int)
        },
        call_ensures(DeviceConfigBuilder::output, (b, slot, fields), r) ==> {
            let s = r@.submodules.last();
            &&& r@.submodules.drop_last() == b@.submodules
            &&& s.slot == slot && s.outputs == fields@ && s.inputs.len() == 0
            &&& s.name == "out"@ + text::dec_text(slot.0 as int)
        },
        call_ensures(DeviceConfigBuilder::submodule, (b, slot, name, fields, others), r) ==> {
            let s = r@.submodules.last();
            &&& r@.submodules.drop_last() == b@.submodules
            &&& s.slot == slot && s.name == name@ && s.inputs == fields@ && s.outputs == others@
        },
{
    if call_ensures(DeviceConfigBuilder::input, (b, slot, fields), r) || call_ensures(
        DeviceConfigBuilder::output,
        (b, slot, fields),
        r,
    ) || call_ensures(DeviceConfigBuilder::submodule, (b, slot, name, fields, others), r) {
        assert(r@.submodules.drop_last() =~= b@.submodules);
    }
}

/// What is declared is what is set, and nothing else; what is not declared has its default.
pub proof fn declarations_set_what_they_name(
    b: DeviceConfigBuilder,
    s: &str,
    x: u16,
    y: u16,
    im0: Im0,
    r: DeviceConfigBuilder,
)
    ensures
        call_ensures(DeviceConfig::builder, (s,), r) ==> {
            &&& r@.station_name == s@ && r@.station_type == "pnio device"@
            &&& r@.vendor_id == 0xFFFF && r@.device_id == 1 && r@.min_device_interval == 32
            &&& r@.submodules.len() == 0 && r@.im0 is None
        },
        call_ensures(DeviceConfigBuilder::station_type, (b, s), r) ==> r@.station_type == s@
            && r@.station_name == b@.station_name && r@.submodules == b@.submodules,
        call_ensures(DeviceConfigBuilder::identity, (b, x, y), r) ==> r@.vendor_id == x
            && r@.device_id == y && r@.min_device_interval == b@.min_device_interval,
        call_ensures(DeviceConfigBuilder::min_device_interval, (b, x), r) ==> r@.min_device_interval
            == x && r@.vendor_id == b@.vendor_id && r@.device_id == b@.device_id,
        call_ensures(DeviceConfigBuilder::im0, (b, im0), r) ==> r@.im0 == Some(im0) && r@.submodules
            == b@.submodules,
{
}

/// A device without a serial number of its own reports one made of the last three bytes of its
/// address, each as two capital digits.
pub proof fn serial_numbers_come_from_the_address(cfg: ConfigView, mac: MacAddr)
    ensures
        cfg.im0.serial_number@.len() > 0 ==> cfg.serial(mac) == cfg.im0.serial_number@,
        cfg.im0.serial_number@.len() == 0 ==> {
            let s = cfg.serial(mac);
            &&& s.len() == 11
            &&& s.take(5) == "PNIO-"@
            &&& text::hex_value(s[5]) == mac.0[3] / 16 && text::hex_value(s[6]) == mac.0[3] % 16
            &&& text::hex_value(s[7]) == mac.0[4] / 16 && text::hex_value(s[8]) == mac.0[4] % 16
            &&& text::hex_value(s[9]) == mac.0[5] / 16 && text::hex_value(s[10]) == mac.0[5] % 16
            &&& forall|i: int| 5 <= i < 11 ==> !('a' <= #[trigger] s[i] <= 'f')
        },
{
    reveal_strlit("PNIO-");
    let (x, y, z) = (mac.0[3] as int, mac.0[4] as int, mac.0[5] as int);
    text::numbers_take_their_digits(x);
    text::numbers_take_their_digits(y);
    text::numbers_take_their_digits(z);
    if cfg.im0.serial_number@.len() == 0 {
        let s = cfg.serial(mac);
        assert(s.take(5) =~= "PNIO-"@);
        text::digits_have_their_characters(x / 16, s[5]);
        text::digits_have_their_characters(x % 16, s[6]);
        text::digits_have_their_characters(y / 16, s[7]);
        text::digits_have_their_characters(y % 16, s[8]);
        text::digits_have_their_characters(z / 16, s[9]);
        text::digits_have_their_characters(z % 16, s[10]);
    }
}

} // verus!
