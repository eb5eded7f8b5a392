//! Typed access to the process data: read the controller's outputs and write our inputs by
//! (slot, index) with the configuration's field table.

use vstd::prelude::*;

use crate::bytes;
use crate::cm::ArState;
use crate::config::{self, DeviceConfig, Direction, FieldRef, Slot};
use crate::data::{self, CodecError, FieldType, Value};
use crate::device::{DeviceError, DiagCommand, RtOptions};
use crate::diag::{ChannelError, Diagnosis, Severity};
use crate::eth::MacAddr;
use crate::rt::image;
use crate::rt::{ImageError, IoImage, Validity};
use crate::text;

verus! {

/// Options for starting a device: the real interface to open and how the RT thread (if any)
/// should be scheduled.
#[derive(Debug, Clone, PartialEq, Eq)]
pub struct StartOptions {
    pub iface: String,
    pub ip: [u8; 4],
    pub rt: Option<RtOptions>,
    /// CPUs for the acyclic thread (and anything the application spawns from it).
    pub app_cpus: Option<Vec<usize>>,
    /// The file that keeps the I&M1-3 records written by the controller.
    pub im_store: Option<String>,
}

/// Errors from the [`IoDevice`] facade: config-table lookups (slot/index/type/direction), the
/// image not being laid out yet, and the lower layers' own errors wrapped through.
#[derive(Debug, Clone, PartialEq, Eq)]
pub enum ApiError {
    /// The slot is not declared.
    UnknownSlot(u16),
    /// The slot has fewer fields.
    IndexOutOfRange { slot: u16, index: usize, len: usize },
    /// The field has another type.
    TypeMismatch { slot: u16, index: usize, expected: FieldType, got: FieldType },
    /// The slot has no data in the direction asked for; `expected` is its declared one.
    WrongDirection { slot: u16, expected: Direction },
    /// No I/O layout yet: the AR has not reached `Data`. Can still occur for a few
    /// microseconds after `Data` is first reported; poll [`IoDevice::ready`] to avoid it.
    NoLayoutYet,
    /// The I/O image refused.
    Image(ImageError),
    /// A value did not fit its bytes.
    Codec(CodecError),
    /// The device failed.
    Device(DeviceError),
    /// An operating system call failed; the text says how.
    Io(String),
}

impl From<ImageError> for ApiError {
    /// An `UnknownSubmodule` from the image means the AR has never reached `Data` (the empty
    /// image) or has since dropped back to `Idle` (a stale one): either way there is no
    /// layout right now, which is a distinct, more actionable error than "this slot doesn't
    /// exist" (already caught earlier by the config lookup).
    fn from(e: ImageError) -> (r: Self) {
        match e {
            ImageError::UnknownSubmodule { .. } => ApiError::NoLayoutYet,
            e => ApiError::Image(e),
        }
    }
}

impl vstd::std_specs::convert::FromSpecImpl<ImageError> for ApiError {
    open spec fn obeys_from_spec() -> bool {
        true
    }

    open spec fn from_spec(e: ImageError) -> ApiError {
        of_image(e)
    }
}

/// What an image error is reported as.
pub open spec fn of_image(e: ImageError) -> ApiError {
    match e {
        ImageError::UnknownSubmodule { .. } => ApiError::NoLayoutYet,
        e => ApiError::Image(e),
    }
}

// ---------------------------------------------------------------------------------
// Values in a slot
// ---------------------------------------------------------------------------------

/// What is read of a field from a slot's bytes.
pub open spec fn value_in(bytes: Seq<u8>, f: FieldRef) -> Result<Value, ApiError> {
    match data::codec_fault(f.ty, bytes.len() - f.byte, f.bit as usize) {
        Some(e) => Err(ApiError::Codec(e)),
        None => Ok(Value::at(f.ty, bytes.skip(f.byte as int), f.bit as usize)),
    }
}

fn decode_field(bytes: &[u8], f: FieldRef) -> (res: Result<Value, ApiError>)
    requires
        f.byte <= bytes@.len(),
    ensures
        res == value_in(bytes@, f),
{
    match Value::decode_at(f.ty, bytes, f.byte as usize, f.bit as usize) {
        Ok(v) => Ok(v),
        Err(e) => Err(ApiError::Codec(e)),
    }
}

/// A consistent copy of one output slot's bytes, decoded on demand.
pub struct SlotSnapshot {
    pub slot: Slot,
    bytes: Vec<u8>,
    pub validity: Validity,
    fields: Vec<FieldRef>,
}

/// What a [`SlotSnapshot`] holds.
pub struct SnapshotView {
    pub slot: Slot,
    pub bytes: Seq<u8>,
    pub validity: Validity,
    pub fields: Seq<FieldRef>,
}

impl View for SlotSnapshot {
    type V = SnapshotView;

    closed spec fn view(&self) -> SnapshotView {
        SnapshotView {
            slot: self.slot,
            bytes: self.bytes@,
            validity: self.validity,
            fields: self.fields@,
        }
    }
}

impl SnapshotView {
    /// The value of a field, or why there is none.
    pub open spec fn value(self, index: usize) -> Result<Value, ApiError> {
        if index >= self.fields.len() {
            Err(
                ApiError::IndexOutOfRange {
                    slot: self.slot.0,
                    index,
                    len: self.fields.len() as usize,
                },
            )
        } else {
            value_in(self.bytes, self.fields[index as int])
        }
    }

    /// The value of a field of type `want`.
    pub open spec fn typed(self, index: usize, want: FieldType) -> Result<Value, ApiError> {
        match self.value(index) {
            Err(e) => Err(e),
            Ok(v) => if v.field_type() == want {
                Ok(v)
            } else {
                Err(
                    ApiError::TypeMismatch {
                        slot: self.slot.0,
                        index,
                        expected: v.field_type(),
                        got: want,
                    },
                )
            },
        }
    }

    /// Whether a field that exists starts within the bytes.
    pub open spec fn holds(self, index: usize) -> bool {
        index < self.fields.len() ==> self.fields[index as int].byte <= self.bytes.len()
    }
}

/// What a result of a typed read is, given the value of the field.
pub open spec fn unwrapped<T>(
    v: Result<Value, ApiError>,
    pick: spec_fn(Value) -> T,
) -> Result<T, ApiError> {
    match v {
        Ok(v) => Ok(pick(v)),
        Err(e) => Err(e),
    }
}

impl SlotSnapshot {
    /// The value of field `index`.
    pub fn get(&self, index: usize) -> (res: Result<Value, ApiError>)
        requires
            self@.holds(index),
        ensures
            res == self@.value(index),
    {
        if index >= self.fields.len() {
            return Err(
                ApiError::IndexOutOfRange { slot: self.slot.0, index, len: self.fields.len() },
            );
        }
        decode_field(self.bytes.as_slice(), self.fields[index])
    }

    fn typed(&self, index: usize, want: FieldType) -> (res: Result<Value, ApiError>)
        requires
            self@.holds(index),
        ensures
            res == self@.typed(index, want),
            res matches Ok(v) ==> v.field_type() == want,
    {
        match self.get(index) {
            Err(e) => Err(e),
            Ok(v) => if v.field_type() == want {
                Ok(v)
            } else {
                Err(
                    ApiError::TypeMismatch {
                        slot: self.slot.0,
                        index,
                        expected: v.field_type(),
                        got: want,
                    },
                )
            },
        }
    }

    /// The bits of a `Real` field.
    pub fn real_bits(&self, i: usize) -> (res: Result<u32, ApiError>)
        requires
            self@.holds(i),
        ensures
            res == unwrapped(self@.typed(i, FieldType::Real), |v: Value| v->Real_0),
    {
        match self.typed(i, FieldType::Real) {
            Ok(Value::Real(v)) => Ok(v),
            Ok(_) => Ok(0),
            Err(e) => Err(e),
        }
    }

    /// The value of a `Bool` field.
    pub fn bool(&self, i: usize) -> (res: Result<bool, ApiError>)
        requires
            self@.holds(i),
        ensures
            res == unwrapped(self@.typed(i, FieldType::Bool), |v: Value| v->Bool_0),
    {
        match self.typed(i, FieldType::Bool) {
            Ok(Value::Bool(v)) => Ok(v),
            Ok(_) => Ok(false),
            Err(e) => Err(e),
        }
    }

    /// The value of an `Int` field.
    pub fn int16(&self, i: usize) -> (res: Result<i16, ApiError>)
        requires
            self@.holds(i),
        ensures
            res == unwrapped(self@.typed(i, FieldType::Int), |v: Value| v->Int_0),
    {
        match self.typed(i, FieldType::Int) {
            Ok(Value::Int(v)) => Ok(v),
            Ok(_) => Ok(0),
            Err(e) => Err(e),
        }
    }

    /// The value of a `Word` field.
    pub fn word(&self, i: usize) -> (res: Result<u16, ApiError>)
        requires
            self@.holds(i),
        ensures
            res == unwrapped(self@.typed(i, FieldType::Word), |v: Value| v->Word_0),
    {
        match self.typed(i, FieldType::Word) {
            Ok(Value::Word(v)) => Ok(v),
            Ok(_) => Ok(0),
            Err(e) => Err(e),
        }
    }

    /// The value of a `Dint` field.
    pub fn dint(&self, i: usize) -> (res: Result<i32, ApiError>)
        requires
            self@.holds(i),
        ensures
            res == unwrapped(self@.typed(i, FieldType::Dint), |v: Value| v->Dint_0),
    {
        match self.typed(i, FieldType::Dint) {
            Ok(Value::Dint(v)) => Ok(v),
            Ok(_) => Ok(0),
            Err(e) => Err(e),
        }
    }

    /// The slot's bytes.
    pub fn bytes(&self) -> (r: &[u8])
        ensures
            r@ == self@.bytes,
    {
        self.bytes.as_slice()
    }
}

/// Whether every field lies within `len` bytes.
pub open spec fn fields_fit(fields: Seq<FieldRef>, len: int) -> bool {
    forall|i: int|
        0 <= i < fields.len() ==> {
            &&& (#[trigger] fields[i]).byte + fields[i].ty.span() <= len
            &&& fields[i].bit < 8
        }
}

/// One input slot's working copy, to set several fields before one publish: see
/// [`IoDevice::writer`].
pub struct SlotWriter {
    slot: Slot,
    fields: Vec<FieldRef>,
    bytes: Vec<u8>,
}

/// What a [`SlotWriter`] holds.
pub struct WriterView {
    pub slot: Slot,
    pub fields: Seq<FieldRef>,
    pub bytes: Seq<u8>,
}

impl View for SlotWriter {
    type V = WriterView;

    closed spec fn view(&self) -> WriterView {
        WriterView { slot: self.slot, fields: self.fields@, bytes: self.bytes@ }
    }
}

impl WriterView {
    /// Why a value is refused, if it is.
    pub open spec fn fault(self, index: usize, v: Value) -> Option<ApiError> {
        if index >= self.fields.len() {
            Some(
                ApiError::IndexOutOfRange {
                    slot: self.slot.0,
                    index,
                    len: self.fields.len() as usize,
                },
            )
        } else if self.fields[index as int].ty != v.field_type() {
            Some(
                ApiError::TypeMismatch {
                    slot: self.slot.0,
                    index,
                    expected: self.fields[index as int].ty,
                    got: v.field_type(),
                },
            )
        } else {
            None
        }
    }

    /// The working copy with one field set.
    pub open spec fn setting(self, index: usize, v: Value) -> WriterView {
        let f = self.fields[index as int];
        WriterView {
            bytes: self.bytes.take(f.byte as int) + v.over(
                self.bytes.skip(f.byte as int),
                f.bit as usize,
            ),
            ..self
        }
    }

    /// What setting a field leads to: a refused value changes nothing.
    pub open spec fn sets(
        self,
        index: usize,
        v: Value,
        after: WriterView,
        res: Result<(), ApiError>,
    ) -> bool {
        match self.fault(index, v) {
            Some(e) => res == Err::<(), _>(e) && after == self,
            None => res is Ok && after == self.setting(index, v),
        }
    }
}

impl SlotWriter {
    #[verifier::type_invariant]
    spec fn is_valid(self) -> bool {
        fields_fit(self.fields@, self.bytes@.len() as int)
    }

    /// Set field `index`.
    pub fn set(&mut self, index: usize, v: Value) -> (res: Result<(), ApiError>)
        ensures
            old(self)@.sets(index, v, final(self)@, res),
    {
        proof {
            use_type_invariant(&*self);
        }
        if index >= self.fields.len() {
            return Err(
                ApiError::IndexOutOfRange { slot: self.slot.0, index, len: self.fields.len() },
            );
        }
        let f = self.fields[index];
        if f.ty != v.field_type() {
            return Err(
                ApiError::TypeMismatch {
                    slot: self.slot.0,
                    index,
                    expected: f.ty,
                    got: v.field_type(),
                },
            );
        }
        let mut copy: Vec<u8> = Vec::new();
        bytes::put_all(&mut copy, self.bytes.as_slice());
        assert(copy@ =~= self.bytes@);
        proof {
            data::value_round_trip(v, copy@.skip(f.byte as int), f.bit as usize);
        }
        match v.encode_at(&mut copy, f.byte as usize, f.bit as usize) {
            Ok(_) => {},
            Err(e) => {
                return Err(ApiError::Codec(e));
            },
        }
        self.bytes = copy;
        Ok(())
    }

    /// Set a `Bool` field.
    pub fn bool(&mut self, i: usize, v: bool) -> (res: Result<(), ApiError>)
        ensures
            old(self)@.sets(i, Value::Bool(v), final(self)@, res),
    {
        self.set(i, Value::Bool(v))
    }

    /// Set an `Int` field.
    pub fn int16(&mut self, i: usize, v: i16) -> (res: Result<(), ApiError>)
        ensures
            old(self)@.sets(i, Value::Int(v), final(self)@, res),
    {
        self.set(i, Value::Int(v))
    }

    /// Set a `Word` field.
    pub fn word(&mut self, i: usize, v: u16) -> (res: Result<(), ApiError>)
        ensures
            old(self)@.sets(i, Value::Word(v), final(self)@, res),
    {
        self.set(i, Value::Word(v))
    }

    /// Set a `Dint` field.
    pub fn dint(&mut self, i: usize, v: i32) -> (res: Result<(), ApiError>)
        ensures
            old(self)@.sets(i, Value::Dint(v), final(self)@, res),
    {
        self.set(i, Value::Dint(v))
    }

    /// Set a `Real` field to the number with these bits.
    pub fn real_bits(&mut self, i: usize, bits: u32) -> (res: Result<(), ApiError>)
        ensures
            old(self)@.sets(i, Value::Real(bits), final(self)@, res),
    {
        self.set(i, Value::Real(bits))
    }
}

// ---------------------------------------------------------------------------------
// The device's data
// ---------------------------------------------------------------------------------

/// The process data of a device: its configuration's field table, and a working copy of each
/// input submodule's bytes. The I/O image that the cyclic exchange works on is handed in.
pub struct IoDevice {
    cfg: DeviceConfig,
    /// Working copy of each input submodule's bytes, index = position in `cfg.submodules()`.
    inputs: Vec<Vec<u8>>,
}

/// What an [`IoDevice`] holds.
pub struct IoView {
    pub cfg: config::ConfigView,
    pub inputs: Seq<Seq<u8>>,
}

impl View for IoDevice {
    type V = IoView;

    closed spec fn view(&self) -> IoView {
        IoView { cfg: self.cfg@, inputs: self.inputs@.map_values(|v: Vec<u8>| v@) }
    }
}

/// Why a field lookup fails, if it does: existence, direction, index and (if `want` is given)
/// type, in that order. On a direction mismatch the error reports the slot's *declared*
/// direction.
pub open spec fn field_fault(
    cfg: config::ConfigView,
    slot: Slot,
    dir: Direction,
    index: usize,
    want: Option<FieldType>,
) -> Option<ApiError> {
    match cfg.submodule(slot) {
        None => Some(ApiError::UnknownSlot(slot.0)),
        Some(sm) => match cfg.fields(slot, dir) {
            None => Some(ApiError::WrongDirection { slot: slot.0, expected: sm.direction() }),
            Some(fields) => if index >= fields.len() {
                Some(
                    ApiError::IndexOutOfRange {
                        slot: slot.0,
                        index,
                        len: fields.len() as usize,
                    },
                )
            } else {
                match want {
                    Some(w) if w != fields[index as int].ty => Some(
                        ApiError::TypeMismatch {
                            slot: slot.0,
                            index,
                            expected: fields[index as int].ty,
                            got: w,
                        },
                    ),
                    _ => None,
                }
            },
        },
    }
}

/// Why a slot has no data in a direction, if it has none.
pub open spec fn slot_fault(cfg: config::ConfigView, slot: Slot, dir: Direction) -> Option<ApiError> {
    match cfg.submodule(slot) {
        None => Some(ApiError::UnknownSlot(slot.0)),
        Some(sm) => if cfg.fields(slot, dir) is None {
            Some(ApiError::WrongDirection { slot: slot.0, expected: sm.direction() })
        } else {
            None
        },
    }
}

impl IoView {
    /// What every operation keeps: one working copy per submodule, of its input length.
    pub open spec fn wf(self) -> bool {
        &&& self.cfg.wf()
        &&& self.inputs.len() == self.cfg.submodules.len()
        &&& forall|i: int|
            0 <= i < self.inputs.len() ==> (#[trigger] self.inputs[i]).len() == config::layout_len(
                self.cfg.submodules[i].inputs,
            )
    }

    /// The controller's value of a field, or why there is none.
    pub open spec fn value(
        self,
        image: IoImage,
        slot: Slot,
        index: usize,
        want: Option<FieldType>,
    ) -> Result<Value, ApiError> {
        match field_fault(self.cfg, slot, Direction::Output, index, want) {
            Some(e) => Err(e),
            None => match image.read_fault_at(slot.0, 1) {
                Some(e) => Err(of_image(e)),
                None => value_in(
                    image.output_slice(slot.0, 1),
                    self.cfg.fields(slot, Direction::Output)->0[index as int],
                ),
            },
        }
    }

    /// Whether a field that exists starts within the slot's bytes in the image. An image
    /// that is laid out for the device has this of every field.
    pub open spec fn holds(self, image: IoImage, slot: Slot, index: usize) -> bool {
        field_fault(self.cfg, slot, Direction::Output, index, None) is None && image.read_fault_at(
            slot.0,
            1,
        ) is None ==> self.cfg.fields(slot, Direction::Output)->0[index as int].byte
            <= image.output_slice(slot.0, 1).len()
    }

    /// A fresh working copy of a slot.
    pub open spec fn scratch(self, slot: Slot) -> WriterView {
        WriterView {
            slot,
            fields: self.cfg.fields(slot, Direction::Input)->0,
            bytes: self.inputs[self.cfg.pos(slot)],
        }
    }

    /// Whether a working copy is of one of this device's input slots.
    pub open spec fn owns(self, w: WriterView) -> bool {
        &&& slot_fault(self.cfg, w.slot, Direction::Input) is None
        &&& w.bytes.len() == self.inputs[self.cfg.pos(w.slot)].len()
    }

    /// The state once a working copy has been taken over.
    pub open spec fn taking(self, w: WriterView) -> IoView {
        IoView { inputs: self.inputs.update(self.cfg.pos(w.slot), w.bytes), ..self }
    }
}

/// Whether an image has been handed a slot's input bytes: `after` differs from `before` in
/// them alone, or not at all where the image refuses.
pub open spec fn publishes(
    before: IoImage,
    after: IoImage,
    slot: Slot,
    bytes: Seq<u8>,
    res: Result<(), ApiError>,
) -> bool {
    let fault = image::write_fault(
        before.cell_index(),
        before.input_csdu().len() as int,
        slot.0,
        1,
        bytes.len() as int,
    );
    &&& after.cell_index() == before.cell_index()
    &&& after.output_csdu() == before.output_csdu()
    &&& after.output_validity() == before.output_validity()
    &&& match fault {
        Some(e) => res == Err::<(), _>(of_image(e)) && after.input_csdu() == before.input_csdu(),
        None => res is Ok && after.input_csdu() == image::overwritten(
            before.input_csdu(),
            image::input_place(before.cell_index(), slot.0, 1)->Ok_0.0,
            bytes,
        ),
    }
}

/// What follows once a scratch copy has been worked on, with `ran` as the outcome: the copy is
/// taken over and published if that is good, and nothing changes if it is not.
pub open spec fn edited<T>(
    ran: Result<T, ApiError>,
    w: WriterView,
    before: IoView,
    image: IoImage,
    after: IoView,
    image_after: IoImage,
    res: Result<T, ApiError>,
) -> bool {
    match ran {
        Err(e) => res == Err::<T, _>(e) && after == before && image_after == image,
        Ok(t) => {
            &&& after == before.taking(w)
            &&& match res {
                Ok(x) => x == t && publishes(image, image_after, w.slot, w.bytes, Ok(())),
                Err(e) => publishes(image, image_after, w.slot, w.bytes, Err(e)),
            }
        },
    }
}

fn copy_bytes(b: &Vec<u8>) -> (r: Vec<u8>)
    ensures
        r@ == b@,
{
    let mut r: Vec<u8> = Vec::new();
    bytes::put_all(&mut r, b.as_slice());
    assert(r@ =~= b@);
    r
}

fn copy_fields(f: &[FieldRef]) -> (r: Vec<FieldRef>)
    ensures
        r@ == f@,
{
    let mut r: Vec<FieldRef> = Vec::new();
    let mut i: usize = 0;
    while i < f.len()
        invariant
            i <= f@.len(),
            r@ == f@.take(i as int),
        decreases f@.len() - i,
    {
        r.push(f[i]);
        i = i + 1;
        assert(r@ =~= f@.take(i as int));
    }
    assert(f@.take(i as int) =~= f@);
    r
}

/// The fields of a layout lie within its bytes.
proof fn lemma_refs_fit(types: Seq<FieldType>)
    requires
        config::layout_len(types) <= u16::MAX,
    ensures
        fields_fit(config::field_refs(types), config::layout_len(types)),
{
    let refs = config::field_refs(types);
    assert forall|i: int| 0 <= i < refs.len() implies ({
        &&& (#[trigger] refs[i]).byte + refs[i].ty.span() <= config::layout_len(types)
        &&& refs[i].bit < 8
    }) by {
        config::fields_lie_within(types, i);
    }
}

impl IoDevice {
    /// The data of a device with this configuration: all inputs zero.
    pub fn new(cfg: DeviceConfig) -> (r: IoDevice)
        ensures
            r@.wf(),
            r@.cfg == cfg@,
            forall|i: int|
                0 <= i < r@.inputs.len() ==> #[trigger] r@.inputs[i] == bytes::repeated(
                    0,
                    config::layout_len(cfg@.submodules[i].inputs) as nat,
                ),
    {
        let mut inputs: Vec<Vec<u8>> = Vec::new();
        let count: usize = cfg.submodules().len();
        let mut i: usize = 0;
        while i < count
            invariant
                i <= count,
                count == cfg@.submodules.len(),
                cfg@.wf(),
                inputs@.len() == i,
                forall|k: int|
                    0 <= k < i ==> (#[trigger] inputs@[k])@ == bytes::repeated(
                        0,
                        config::layout_len(cfg@.submodules[k].inputs) as nat,
                    ),
                forall|k: int|
                    0 <= k < i ==> config::layout_len((#[trigger] cfg@.submodules[k]).inputs) >= 0,
            decreases count - i,
        {
            let slot = cfg.submodules()[i].slot;
            proof {
                config::lemma_own_slot(cfg@, i as int);
            }
            let len: usize = match cfg.input_len(slot) {
                Some(n) => n as usize,
                None => 0,
            };
            let mut zeros: Vec<u8> = Vec::new();
            bytes::put_repeated(&mut zeros, 0, len);
            assert(zeros@ =~= bytes::repeated(0, len as nat));
            inputs.push(zeros);
            i = i + 1;
        }
        let r = IoDevice { cfg, inputs };
        assert forall|k: int| 0 <= k < r@.inputs.len() implies (#[trigger] r@.inputs[k]).len()
            == config::layout_len(r@.cfg.submodules[k].inputs) by {
            assert(r@.inputs[k] == inputs@[k]@);
            assert(config::layout_len(cfg@.submodules[k].inputs) >= 0);
        }
        r
    }

    /// The configuration.
    pub fn config(&self) -> (r: &DeviceConfig)
        ensures
            r@ == self@.cfg,
    {
        &self.cfg
    }

    /// Whether data can be exchanged: the AR is at `Data` *and* the I/O image has actually
    /// been rebuilt from the negotiated layout. The condition to poll for before the first
    /// read/write, since the state alone can transiently lead it.
    pub fn ready(state: ArState, image: &IoImage) -> (r: bool)
        ensures
            r == (state == ArState::Data && image.cell_index().len() > 0),
    {
        state == ArState::Data && image.cells().len() > 0
    }

    /// Why a slot has no data in a direction, if it has none.
    fn check_slot(&self, slot: Slot, dir: Direction) -> (res: Result<(), ApiError>)
        ensures
            match slot_fault(self@.cfg, slot, dir) {
                Some(e) => res == Err::<(), _>(e),
                None => res is Ok,
            },
    {
        let declared = match self.cfg.submodule(slot) {
            Some(sm) => sm.direction(),
            None => {
                return Err(ApiError::UnknownSlot(slot.0));
            },
        };
        match self.cfg.fields(slot, dir) {
            Some(_) => Ok(()),
            None => Err(ApiError::WrongDirection { slot: slot.0, expected: declared }),
        }
    }

    /// The command that raises a diagnosis on a channel of a declared slot (or changes its
    /// severity). The diagnosis is of the slot's declared direction.
    pub fn raise_diagnosis(
        &self,
        slot: Slot,
        channel: u16,
        error: ChannelError,
        severity: Severity,
    ) -> (res: Result<DiagCommand, ApiError>)
        ensures
            res == match self@.cfg.submodule(slot) {
                None => Err(ApiError::UnknownSlot(slot.0)),
                Some(sm) => Ok(
                    DiagCommand::Raise(
                        Diagnosis { slot, channel, error, severity, direction: sm.direction() },
                    ),
                ),
            },
    {
        match self.cfg.submodule(slot) {
            Some(sm) => {
                let direction = sm.direction();
                Ok(DiagCommand::Raise(Diagnosis { slot, channel, error, severity, direction }))
            },
            None => Err(ApiError::UnknownSlot(slot.0)),
        }
    }

    /// The command that clears a diagnosis on a channel of a declared slot.
    pub fn clear_diagnosis(&self, slot: Slot, channel: u16, error: ChannelError) -> (res: Result<
        DiagCommand,
        ApiError,
    >)
        ensures
            res == match self@.cfg.submodule(slot) {
                None => Err(ApiError::UnknownSlot(slot.0)),
                Some(_) => Ok(DiagCommand::Clear { slot, channel, error }),
            },
    {
        match self.cfg.submodule(slot) {
            Some(_) => Ok(DiagCommand::Clear { slot, channel, error }),
            None => Err(ApiError::UnknownSlot(slot.0)),
        }
    }

    /// Resolve one field, checking existence, direction, index and (if `want` is given) type
    /// in that order. `dir` is the direction *this accessor* looks the field up in (`Output`
    /// for reads, `Input` for writes).
    fn field(&self, slot: Slot, dir: Direction, index: usize, want: Option<FieldType>) -> (res:
        Result<FieldRef, ApiError>)
        ensures
            match field_fault(self@.cfg, slot, dir, index, want) {
                Some(e) => res == Err::<FieldRef, _>(e),
                None => res == Ok::<_, ApiError>(self@.cfg.fields(slot, dir)->0[index as int]),
            },
    {
        match self.check_slot(slot, dir) {
            Ok(_) => {},
            Err(e) => {
                return Err(e);
            },
        }
        let fields = match self.cfg.fields(slot, dir) {
            Some(fields) => fields,
            None => {
                return Err(ApiError::UnknownSlot(slot.0));
            },
        };
        if index >= fields.len() {
            return Err(ApiError::IndexOutOfRange { slot: slot.0, index, len: fields.len() });
        }
        let f = fields[index];
        match want {
            Some(w) => {
                if w != f.ty {
                    return Err(
                        ApiError::TypeMismatch { slot: slot.0, index, expected: f.ty, got: w },
                    );
                }
            },
            None => {},
        }
        Ok(f)
    }

    fn value(&self, image: &IoImage, slot: Slot, index: usize, want: Option<FieldType>) -> (res:
        Result<Value, ApiError>)
        requires
            self@.holds(*image, slot, index),
        ensures
            res == self@.value(*image, slot, index, want),
            res is Ok && want is Some ==> res->Ok_0.field_type() == want->0,
    {
        let f = match self.field(slot, Direction::Output, index, want) {
            Ok(f) => f,
            Err(e) => {
                return Err(e);
            },
        };
        match image.output_of(slot.0, 1) {
            Ok((b, _validity)) => decode_field(b.as_slice(), f),
            Err(e) => Err(ApiError::from(e)),
        }
    }

    /// The controller's value of field `index` of an output slot.
    pub fn read(&self, image: &IoImage, slot: Slot, index: usize) -> (res: Result<Value, ApiError>)
        requires
            self@.holds(*image, slot, index),
        ensures
            res == self@.value(*image, slot, index, None),
    {
        self.value(image, slot, index, None)
    }

    /// The controller's value of a `Bool` field.
    pub fn read_bool(&self, image: &IoImage, s: Slot, i: usize) -> (res: Result<bool, ApiError>)
        requires
            self@.holds(*image, s, i),
        ensures
            res == unwrapped(
                self@.value(*image, s, i, Some(FieldType::Bool)),
                |v: Value| v->Bool_0,
            ),
    {
        match self.value(image, s, i, Some(FieldType::Bool)) {
            Ok(Value::Bool(v)) => Ok(v),
            Ok(_) => Ok(false),
            Err(e) => Err(e),
        }
    }

    /// The controller's value of an `Int` field.
    pub fn read_int(&self, image: &IoImage, s: Slot, i: usize) -> (res: Result<i16, ApiError>)
        requires
            self@.holds(*image, s, i),
        ensures
            res == unwrapped(
                self@.value(*image, s, i, Some(FieldType::Int)),
                |v: Value| v->Int_0,
            ),
    {
        match self.value(image, s, i, Some(FieldType::Int)) {
            Ok(Value::Int(v)) => Ok(v),
            Ok(_) => Ok(0),
            Err(e) => Err(e),
        }
    }

    /// The controller's value of a `Word` field.
    pub fn read_word(&self, image: &IoImage, s: Slot, i: usize) -> (res: Result<u16, ApiError>)
        requires
            self@.holds(*image, s, i),
        ensures
            res == unwrapped(
                self@.value(*image, s, i, Some(FieldType::Word)),
                |v: Value| v->Word_0,
            ),
    {
        match self.value(image, s, i, Some(FieldType::Word)) {
            Ok(Value::Word(v)) => Ok(v),
            Ok(_) => Ok(0),
            Err(e) => Err(e),
        }
    }

    /// The controller's value of a `Dint` field.
    pub fn read_dint(&self, image: &IoImage, s: Slot, i: usize) -> (res: Result<i32, ApiError>)
        requires
            self@.holds(*image, s, i),
        ensures
            res == unwrapped(
                self@.value(*image, s, i, Some(FieldType::Dint)),
                |v: Value| v->Dint_0,
            ),
    {
        match self.value(image, s, i, Some(FieldType::Dint)) {
            Ok(Value::Dint(v)) => Ok(v),
            Ok(_) => Ok(0),
            Err(e) => Err(e),
        }
    }

    /// The bits of the controller's value of a `Real` field.
    pub fn read_real(&self, image: &IoImage, s: Slot, i: usize) -> (res: Result<u32, ApiError>)
        requires
            self@.holds(*image, s, i),
        ensures
            res == unwrapped(
                self@.value(*image, s, i, Some(FieldType::Real)),
                |v: Value| v->Real_0,
            ),
    {
        match self.value(image, s, i, Some(FieldType::Real)) {
            Ok(Value::Real(v)) => Ok(v),
            Ok(_) => Ok(0),
            Err(e) => Err(e),
        }
    }

    /// A consistent copy of one slot's output bytes plus the validity of that cycle.
    pub fn outputs(&self, image: &IoImage, slot: Slot) -> (res: Result<SlotSnapshot, ApiError>)
        ensures
            match slot_fault(self@.cfg, slot, Direction::Output) {
                Some(e) => res == Err::<SlotSnapshot, _>(e),
                None => match image.read_fault_at(slot.0, 1) {
                    Some(e) => res == Err::<SlotSnapshot, _>(of_image(e)),
                    None => res matches Ok(s) && s@ == (SnapshotView {
                        slot,
                        bytes: image.output_slice(slot.0, 1),
                        validity: image.output_validity(),
                        fields: self@.cfg.fields(slot, Direction::Output)->0,
                    }),
                },
            },
    {
        match self.check_slot(slot, Direction::Output) {
            Ok(_) => {},
            Err(e) => {
                return Err(e);
            },
        }
        let fields = match self.cfg.fields(slot, Direction::Output) {
            Some(fields) => copy_fields(fields),
            None => Vec::new(),
        };
        match image.output_of(slot.0, 1) {
            Ok((bytes, validity)) => Ok(SlotSnapshot { slot, bytes, validity, fields }),
            Err(e) => Err(ApiError::from(e)),
        }
    }

    /// A scratch copy of one input slot, to set fields of. Nothing of it reaches the device
    /// before [`IoDevice::publish`]: a copy that is dropped, after an error for instance,
    /// leaves the working copy, and so the image, exactly as it was.
    pub fn writer(&self, slot: Slot) -> (res: Result<SlotWriter, ApiError>)
        requires
            self@.wf(),
        ensures
            match slot_fault(self@.cfg, slot, Direction::Input) {
                Some(e) => res == Err::<SlotWriter, _>(e),
                None => res matches Ok(w) && w@ == self@.scratch(slot) && self@.owns(w@),
            },
    {
        match self.check_slot(slot, Direction::Input) {
            Ok(_) => {},
            Err(e) => {
                return Err(e);
            },
        }
        let fields = match self.cfg.fields(slot, Direction::Input) {
            Some(fields) => copy_fields(fields),
            None => Vec::new(),
        };
        let i: usize = self.position(slot);
        let bytes = copy_bytes(&self.inputs[i]);
        proof {
            let types = self@.cfg.submodules[i as int].inputs;
            assert(self@.inputs[i as int] == bytes@);
            assert(config::submodule_fault(self@.cfg.submodules, i as int) is None);
            lemma_refs_fit(types);
        }
        Ok(SlotWriter { slot, fields, bytes })
    }

    /// The position of a declared slot.
    fn position(&self, slot: Slot) -> (i: usize)
        requires
            self@.wf(),
            self@.cfg.submodule(slot) is Some,
        ensures
            i == self@.cfg.pos(slot),
            i < self.inputs@.len(),
    {
        let subs = self.cfg.submodules();
        let mut i: usize = 0;
        while i < subs.len() && subs[i].slot != slot
            invariant
                i <= subs@.len(),
                config::submodule_views(subs@) == self@.cfg.submodules,
                forall|k: int| 0 <= k < i ==> (#[trigger] self@.cfg.submodules[k]).slot != slot,
            decreases subs@.len() - i,
        {
            assert(self@.cfg.submodules[i as int] == subs@[i as int]@);
            i = i + 1;
        }
        proof {
            if i < subs@.len() {
                assert(self@.cfg.submodules[i as int] == subs@[i as int]@);
            }
            config::lemma_slot_index(self@.cfg.submodules, slot, i as int);
        }
        i
    }

    /// Whether a working copy is of one of this device's input slots.
    pub fn accepts(&self, w: &SlotWriter) -> (r: bool)
        requires
            self@.wf(),
        ensures
            r == self@.owns(w@),
    {
        match self.check_slot(w.slot, Direction::Input) {
            Ok(_) => {
                let i: usize = self.position(w.slot);
                assert(self@.inputs[i as int] == self.inputs@[i as int]@);
                w.bytes.len() == self.inputs[i].len()
            },
            Err(_) => false,
        }
    }

    /// Take over a slot's working copy and publish it to the image in one go (same frame).
    /// The working copy is taken over even where the image refuses it.
    pub fn publish(&mut self, w: SlotWriter, image: &mut IoImage) -> (res: Result<(), ApiError>)
        requires
            old(self)@.wf(),
            old(self)@.owns(w@),
        ensures
            final(self)@ == old(self)@.taking(w@),
            final(self)@.wf(),
            publishes(*old(image), *final(image), w@.slot, w@.bytes, res),
    {
        let i: usize = self.position(w.slot);
        let bytes = copy_bytes(&w.bytes);
        self.inputs.set(i, bytes);
        assert(self@.inputs =~= old(self)@.taking(w@).inputs);
        match image.write_inputs(w.slot.0, 1, w.bytes.as_slice()) {
            Ok(_) => Ok(()),
            Err(e) => Err(ApiError::from(e)),
        }
    }

    /// Modifies several fields of one input slot and publishes them in one go (same frame).
    /// `f` runs on a scratch copy: on `Err` nothing is published, and the next writer starts
    /// from the bytes that were there before.
    pub fn with_inputs<T, F: FnOnce(&mut SlotWriter) -> Result<T, ApiError>>(
        &mut self,
        image: &mut IoImage,
        slot: Slot,
        f: F,
    ) -> (res: Result<T, ApiError>)
        requires
            old(self)@.wf(),
            forall|w: &mut SlotWriter|
                w@ == old(self)@.scratch(slot) ==> #[trigger] call_requires(f, (w,)),
            forall|w: &mut SlotWriter, r: Result<T, ApiError>|
                w@ == old(self)@.scratch(slot) && #[trigger] call_ensures(f, (w,), r) ==> {
                    &&& final(w)@.slot == slot
                    &&& final(w)@.bytes.len() == w@.bytes.len()
                },
        ensures
            final(self)@.wf(),
            match slot_fault(old(self)@.cfg, slot, Direction::Input) {
                Some(e) => {
                    &&& res == Err::<T, _>(e)
                    &&& final(self)@ == old(self)@
                    &&& *final(image) == *old(image)
                },
                None => exists|w: &mut SlotWriter, ran: Result<T, ApiError>|
                    {
                        &&& w@ == old(self)@.scratch(slot)
                        &&& #[trigger] call_ensures(f, (w,), ran)
                        &&& final(w)@.slot == slot
                        &&& edited(
                            ran,
                            final(w)@,
                            old(self)@,
                            *old(image),
                            final(self)@,
                            *final(image),
                            res,
                        )
                    },
            },
    {
        let mut w = match self.writer(slot) {
            Ok(w) => w,
            Err(e) => {
                return Err(e);
            },
        };
        let ran = f(&mut w);
        match ran {
            Ok(t) => match self.publish(w, image) {
                Ok(_) => Ok(t),
                Err(e) => Err(e),
            },
            Err(e) => Err(e),
        }
    }

    /// Write one field of an input slot and publish the slot.
    pub fn write(&mut self, image: &mut IoImage, slot: Slot, index: usize, v: Value) -> (res: Result<
        (),
        ApiError,
    >)
        requires
            old(self)@.wf(),
        ensures
            final(self)@.wf(),
            writes(old(self)@, final(self)@, *old(image), *final(image), slot, index, v, res),
    {
        let mut w = match self.writer(slot) {
            Ok(w) => w,
            Err(e) => {
                return Err(e);
            },
        };
        let ghost before = w@;
        proof {
            use_type_invariant(&w);
        }
        match w.set(index, v) {
            Ok(_) => {},
            Err(e) => {
                return Err(e);
            },
        }
        proof {
            lemma_setting_keeps_length(before, index, v);
        }
        self.publish(w, image)
    }

    /// Write a `Bool` field and publish its slot.
    pub fn write_bool(&mut self, image: &mut IoImage, s: Slot, i: usize, v: bool) -> (res: Result<
        (),
        ApiError,
    >)
        requires
            old(self)@.wf(),
        ensures
            final(self)@.wf(),
            writes(old(self)@, final(self)@, *old(image), *final(image), s, i, Value::Bool(v), res),
    {
        self.write(image, s, i, Value::Bool(v))
    }

    /// Write an `Int` field and publish its slot.
    pub fn write_int(&mut self, image: &mut IoImage, s: Slot, i: usize, v: i16) -> (res: Result<
        (),
        ApiError,
    >)
        requires
            old(self)@.wf(),
        ensures
            final(self)@.wf(),
            writes(old(self)@, final(self)@, *old(image), *final(image), s, i, Value::Int(v), res),
    {
        self.write(image, s, i, Value::Int(v))
    }

    /// Write a `Word` field and publish its slot.
    pub fn write_word(&mut self, image: &mut IoImage, s: Slot, i: usize, v: u16) -> (res: Result<
        (),
        ApiError,
    >)
        requires
            old(self)@.wf(),
        ensures
            final(self)@.wf(),
            writes(old(self)@, final(self)@, *old(image), *final(image), s, i, Value::Word(v), res),
    {
        self.write(image, s, i, Value::Word(v))
    }

    /// Write a `Dint` field and publish its slot.
    pub fn write_dint(&mut self, image: &mut IoImage, s: Slot, i: usize, v: i32) -> (res: Result<
        (),
        ApiError,
    >)
        requires
            old(self)@.wf(),
        ensures
            final(self)@.wf(),
            writes(old(self)@, final(self)@, *old(image), *final(image), s, i, Value::Dint(v), res),
    {
        self.write(image, s, i, Value::Dint(v))
    }

    /// Write the number with these bits to a `Real` field and publish its slot.
    pub fn write_real(&mut self, image: &mut IoImage, s: Slot, i: usize, bits: u32) -> (res: Result<
        (),
        ApiError,
    >)
        requires
            old(self)@.wf(),
        ensures
            final(self)@.wf(),
            writes(
                old(self)@,
                final(self)@,
                *old(image),
                *final(image),
                s,
                i,
                Value::Real(bits),
                res,
            ),
    {
        self.write(image, s, i, Value::Real(bits))
    }
}

/// Whether a field has been written: a refused value changes nothing, an accepted one is
/// taken over and the slot published.
pub open spec fn writes(
    before: IoView,
    after: IoView,
    image: IoImage,
    image_after: IoImage,
    slot: Slot,
    index: usize,
    v: Value,
    res: Result<(), ApiError>,
) -> bool {
    let w = before.scratch(slot);
    if slot_fault(before.cfg, slot, Direction::Input) is Some {
        &&& res == Err::<(), _>(slot_fault(before.cfg, slot, Direction::Input)->0)
        &&& after == before
        &&& image_after == image
    } else if w.fault(index, v) is Some {
        &&& res == Err::<(), _>(w.fault(index, v)->0)
        &&& after == before
        &&& image_after == image
    } else {
        &&& after == before.taking(w.setting(index, v))
        &&& publishes(image, image_after, slot, w.setting(index, v).bytes, res)
    }
}

proof fn lemma_setting_keeps_length(w: WriterView, index: usize, v: Value)
    requires
        fields_fit(w.fields, w.bytes.len() as int),
        w.fault(index, v) is None,
    ensures
        w.setting(index, v).bytes.len() == w.bytes.len(),
{
    let f = w.fields[index as int];
    data::value_round_trip(v, w.bytes.skip(f.byte as int), f.bit as usize);
}


// ---------------------------------------------------------------------------------
// MAC addresses as text
// ---------------------------------------------------------------------------------

/// Why a text is not a MAC address.
#[derive(Debug, Clone, Copy, PartialEq, Eq, Structural)]
pub enum MacTextError {
    /// Not six colon-separated parts but this many.
    Parts(usize),
    /// A part that is not a hexadecimal octet.
    Octet,
}

/// Whether a character is white space.
pub open spec fn is_space(c: char) -> bool {
    ||| 0x9 <= c as u32 <= 0xd
    ||| c as u32 == 0x20
    ||| c as u32 == 0x85
    ||| c as u32 == 0xa0
    ||| c as u32 == 0x1680
    ||| 0x2000 <= c as u32 <= 0x200a
    ||| c as u32 == 0x2028
    ||| c as u32 == 0x2029
    ||| c as u32 == 0x202f
    ||| c as u32 == 0x205f
    ||| c as u32 == 0x3000
}

fn is_white_space(c: char) -> (r: bool)
    ensures
        r == is_space(c),
{
    let v: u32 = c as u32;
    (0x9 <= v && v <= 0xd) || v == 0x20 || v == 0x85 || v == 0xa0 || v == 0x1680 || (0x2000 <= v
        && v <= 0x200a) || v == 0x2028 || v == 0x2029 || v == 0x202f || v == 0x205f || v == 0x3000
}

/// The text without white space at its end.
pub open spec fn trimmed_end(s: Seq<char>) -> Seq<char>
    decreases s.len(),
{
    if s.len() > 0 && is_space(s.last()) {
        trimmed_end(s.drop_last())
    } else {
        s
    }
}

/// The text without white space at its start.
pub open spec fn trimmed_start(s: Seq<char>) -> Seq<char>
    decreases s.len(),
{
    if s.len() > 0 && is_space(s[0]) {
        trimmed_start(s.skip(1))
    } else {
        s
    }
}

/// The parts of a text between its colons.
pub open spec fn parts_of(s: Seq<char>) -> Seq<Seq<char>>
    decreases s.len(),
{
    if s.len() == 0 {
        seq![Seq::empty()]
    } else {
        let parts = parts_of(s.drop_last());
        if s.last() == ':' {
            parts.push(Seq::empty())
        } else {
            parts.drop_last().push(parts.last().push(s.last()))
        }
    }
}

/// The octet that a part denotes: hexadecimal digits of either case, a plus sign in front
/// allowed, of a value below 256.
pub open spec fn octet_of(p: Seq<char>) -> Option<u8> {
    let digits = if p.len() > 1 && p[0] == '+' {
        p.skip(1)
    } else {
        p
    };
    let n = digits.len();
    if n == 0 || !text::hex_digits_at(digits, 0, n) || text::hex_number(digits, 0, n) > 255 {
        None
    } else {
        Some(text::hex_number(digits, 0, n) as u8)
    }
}

/// What a text denotes as a MAC address.
pub open spec fn mac_of(s: Seq<char>) -> Result<Seq<u8>, MacTextError> {
    let parts = parts_of(trimmed_end(trimmed_start(s)));
    if parts.len() != 6 {
        Err(MacTextError::Parts(parts.len() as usize))
    } else if exists|i: int| 0 <= i < 6 && #[trigger] octet_of(parts[i]) is None {
        Err(MacTextError::Octet)
    } else {
        Ok(Seq::new(6, |i: int| octet_of(parts[i])->0))
    }
}

proof fn lemma_parts_nonempty(s: Seq<char>)
    ensures
        parts_of(s).len() > 0,
        parts_of(s).len() <= s.len() + 1,
    decreases s.len(),
{
    if s.len() > 0 {
        lemma_parts_nonempty(s.drop_last());
    }
}

fn trim(chars: Vec<char>) -> (r: Vec<char>)
    ensures
        r@ == trimmed_end(trimmed_start(chars@)),
{
    let mut from: usize = 0;
    assert(chars@.skip(0) =~= chars@);
    while from < chars.len() && is_white_space(chars[from])
        invariant
            from <= chars@.len(),
            trimmed_start(chars@) == trimmed_start(chars@.skip(from as int)),
        decreases chars@.len() - from,
    {
        assert(chars@.skip(from as int).skip(1) =~= chars@.skip(from + 1));
        from = from + 1;
    }
    let ghost front = chars@.skip(from as int);
    assert(trimmed_start(chars@) == front);
    let mut to: usize = chars.len();
    assert(front.take(to - from) =~= front);
    while to > from && is_white_space(chars[to - 1])
        invariant
            from <= to <= chars@.len(),
            front == chars@.skip(from as int),
            trimmed_end(front) == trimmed_end(front.take(to - from)),
        decreases to,
    {
        assert(front.take(to - from).drop_last() =~= front.take(to - 1 - from));
        assert(front.take(to - from).last() == chars@[to - 1]);
        to = to - 1;
    }
    let ghost middle = front.take(to - from);
    assert(trimmed_end(front) == middle);
    let mut r: Vec<char> = Vec::new();
    let mut k: usize = from;
    while k < to
        invariant
            from <= k <= to <= chars@.len(),
            r@ == chars@.subrange(from as int, k as int),
        decreases to - k,
    {
        r.push(chars[k]);
        k = k + 1;
        assert(r@ =~= chars@.subrange(from as int, k as int));
    }
    assert(r@ =~= middle);
    r
}

fn parse_octet(p: &Vec<char>) -> (r: Option<u8>)
    ensures
        r == octet_of(p@),
{
    let start: usize = if p.len() > 1 && p[0] == '+' {
        1
    } else {
        0
    };
    let ghost digits = p@.skip(start as int);
    assert(p@.skip(0) =~= p@);
    if start == p.len() {
        return None;
    }
    let mut i: usize = start;
    let mut v: u64 = 0;
    let mut beyond = false;
    while i < p.len()
        invariant
            start <= i <= p@.len(),
            digits == p@.skip(start as int),
            octet_of(p@) == (if digits.len() == 0 || !text::hex_digits_at(digits, 0, digits.len())
                || text::hex_number(digits, 0, digits.len()) > 255 {
                None
            } else {
                Some(text::hex_number(digits, 0, digits.len()) as u8)
            }),
            forall|k: int| 0 <= k < i - start ==> text::hex_value(#[trigger] digits[k]) < 16,
            beyond == (text::hex_number(digits, 0, (i - start) as nat) > 255),
            !beyond ==> v == text::hex_number(digits, 0, (i - start) as nat),
            v <= 255,
            text::hex_number(digits, 0, (i - start) as nat) >= 0,
        decreases p@.len() - i,
    {
        let d: u64 = text::digit_of(p[i]);
        assert(digits[i - start] == p@[i as int]);
        if d >= 16 {
            assert(!text::hex_digits_at(digits, 0, digits.len()));
            return None;
        }
        if !beyond {
            if v * 16 + d > 255 {
                beyond = true;
            } else {
                v = v * 16 + d;
            }
        }
        i = i + 1;
    }
    if beyond {
        None
    } else {
        Some(v as u8)
    }
}

/// Reads a MAC address of the form `8c:f3:19:cd:19:f8`, white space around it allowed.
pub fn parse_mac(s: &str) -> (res: Result<MacAddr, MacTextError>)
    ensures
        match res {
            Ok(m) => mac_of(s@) == Ok::<_, MacTextError>(m.0@),
            Err(e) => mac_of(s@) == Err::<Seq<u8>, _>(e),
        },
{
    let chars = trim(text::chars_of(s));
    let ghost all = chars@;
    let mut parts: Vec<Vec<char>> = Vec::new();
    let mut part: Vec<char> = Vec::new();
    let mut i: usize = 0;
    assert(all.take(0) =~= Seq::empty());
    assert(part_views(parts@).push(part@) =~= parts_of(all.take(0)));
    while i < chars.len()
        invariant
            i <= all.len(),
            all == chars@,
            part_views(parts@).push(part@) == parts_of(all.take(i as int)),
        decreases all.len() - i,
    {
        proof {
            assert(all.take(i + 1).drop_last() =~= all.take(i as int));
            assert(all.take(i + 1).last() == all[i as int]);
        }
        let ghost held = part_views(parts@);
        let ghost last = part@;
        assert(held.push(last).drop_last() =~= held);
        let c: char = chars[i];
        if c == ':' {
            parts.push(part);
            part = Vec::new();
            assert(part_views(parts@) =~= held.push(last));
            assert(part@ =~= Seq::empty());
        } else {
            part.push(c);
        }
        assert(part_views(parts@).push(part@) =~= parts_of(all.take(i + 1)));
        i = i + 1;
    }
    assert(all.take(i as int) =~= all);
    let ghost held = part_views(parts@);
    proof {
        lemma_parts_nonempty(all);
    }
    parts.push(part);
    assert(part_views(parts@) =~= held.push(part@));
    if parts.len() != 6 {
        return Err(MacTextError::Parts(parts.len()));
    }
    let mut m: [u8; 6] = [0; 6];
    let mut k: usize = 0;
    while k < 6
        invariant
            k <= 6,
            parts@.len() == 6,
            part_views(parts@) == parts_of(all),
            mac_of(s@) == (if exists|i: int|
                0 <= i < 6 && #[trigger] octet_of(parts_of(all)[i]) is None {
                Err(MacTextError::Octet)
            } else {
                Ok(Seq::new(6, |i: int| octet_of(parts_of(all)[i])->0))
            }),
            forall|j: int|
                0 <= j < k ==> octet_of(#[trigger] parts_of(all)[j]) == Some(m@[j]),
        decreases 6 - k,
    {
        assert(parts_of(all)[k as int] == parts@[k as int]@);
        match parse_octet(&parts[k]) {
            Some(b) => {
                m[k] = b;
            },
            None => {
                assert(octet_of(parts_of(all)[k as int]) is None);
                return Err(MacTextError::Octet);
            },
        }
        k = k + 1;
    }
    assert forall|j: int| 0 <= j < 6 implies #[trigger] octet_of(parts_of(all)[j]) is Some by {
        let p = parts_of(all)[j];
    }
    assert(m@ =~= Seq::new(6, |i: int| octet_of(parts_of(all)[i])->0));
    Ok(MacAddr(m))
}

/// What a list of texts holds.
pub open spec fn part_views(parts: Seq<Vec<char>>) -> Seq<Seq<char>> {
    parts.map_values(|p: Vec<char>| p@)
}

// ---------------------------------------------------------------------------------
// Laws
// ---------------------------------------------------------------------------------

/// A field that was set reads back.
pub proof fn a_set_field_reads_back(w: WriterView, index: usize, v: Value)
    requires
        fields_fit(w.fields, w.bytes.len() as int),
        w.fault(index, v) is None,
    ensures
        w.setting(index, v).bytes.len() == w.bytes.len(),
        value_in(w.setting(index, v).bytes, w.fields[index as int]) == Ok::<_, ApiError>(v),
{
    let f = w.fields[index as int];
    let tail = w.bytes.skip(f.byte as int);
    data::value_round_trip(v, tail, f.bit as usize);
    let after = w.setting(index, v).bytes;
    assert(after.skip(f.byte as int) =~= v.over(tail, f.bit as usize));
}

/// What a refused edit wrote is never published: whatever it had set in its scratch copy, its
/// error is the result, the image and the device are as before, and the next scratch copy of
/// any slot is over exactly the bytes that were there.
pub proof fn a_refused_edit_leaves_no_trace<T>(
    e: ApiError,
    w: WriterView,
    before: IoView,
    image: IoImage,
    after: IoView,
    image_after: IoImage,
    res: Result<T, ApiError>,
    slot: Slot,
)
    requires
        edited(Err::<T, _>(e), w, before, image, after, image_after, res),
    ensures
        res == Err::<T, _>(e),
        image_after == image,
        after == before,
        after.scratch(slot) == before.scratch(slot),
{
}

/// What an edit wrote is what the next one starts from: an accepted scratch copy is taken
/// over whole, and the other slots keep theirs.
pub proof fn an_edit_is_what_the_next_starts_from(before: IoView, w: WriterView, other: Slot)
    requires
        before.wf(),
        before.owns(w),
        before.cfg.submodule(other) is Some,
    ensures
        before.taking(w).scratch(w.slot).bytes == w.bytes,
        other != w.slot ==> before.taking(w).scratch(other) == before.scratch(other),
{
    config::lemma_found_slot(before.cfg.submodules, w.slot);
    config::lemma_found_slot(before.cfg.submodules, other);
}

/// Setting a field leaves every other field of the slot alone, the neighbouring bits of its
/// byte too.
pub proof fn setting_a_field_leaves_the_others(
    types: Seq<FieldType>,
    w: WriterView,
    i: usize,
    j: usize,
    v: Value,
)
    requires
        config::layout_len(types) <= u16::MAX,
        w.fields == config::field_refs(types),
        w.bytes.len() == config::layout_len(types),
        w.fault(i, v) is None,
        j < types.len(),
        i != j,
    ensures
        value_in(w.setting(i, v).bytes, w.fields[j as int]) == value_in(
            w.bytes,
            w.fields[j as int],
        ),
{
    lemma_refs_fit(types);
    lemma_setting_keeps_length(w, i, v);
    let (f, g) = (w.fields[i as int], w.fields[j as int]);
    config::fields_lie_within(types, i as int);
    config::fields_lie_within(types, j as int);
    if i < j {
        config::fields_are_apart(types, i as int, j as int);
    } else {
        config::fields_are_apart(types, j as int, i as int);
    }
    let before = w.bytes;
    let after = w.setting(i, v).bytes;
    let tail = before.skip(f.byte as int);
    data::value_round_trip(v, tail, f.bit as usize);
    assert forall|k: int| 0 <= k < before.len() && !(f.byte <= k < f.byte + f.ty.span()) implies after[k]
        == before[k] by {
        if k >= f.byte {
            assert(after[k] == v.over(tail, f.bit as usize)[k - f.byte]);
        }
    }
    let (x, y) = (before.skip(g.byte as int), after.skip(g.byte as int));
    if f.ty == FieldType::Bool && g.ty == FieldType::Bool && f.byte == g.byte {
        data::with_bit_changes_one_bit(tail[0], f.bit as usize, v->Bool_0, g.bit as usize);
        assert(after[f.byte as int] == v.over(tail, f.bit as usize)[0]);
        assert(x[0] == tail[0]);
        assert(y[0] == after[f.byte as int]);
    } else {
        assert forall|k: int| 0 <= k < g.ty.span() implies #[trigger] x[k] == y[k] by {
            assert(after[g.byte + k] == before[g.byte + k]);
        }
        assert(x[0] == y[0]);
        if g.ty != FieldType::Bool {
            assert(x[1] == y[1]);
            if g.ty.span() == 4 {
                assert(x[2] == y[2] && x[3] == y[3]);
            }
        }
    }
}


// ---------------------------------------------------------------------------------
// Laws of access
// ---------------------------------------------------------------------------------

/// Why a field cannot be accessed: its slot is not declared, has no data in the direction, has
/// fewer fields, or the field has another type than the one asked for; in this order, and for
/// nothing else. The errors name the slot and what is declared of it.
pub proof fn fields_are_refused_for_a_reason(
    cfg: config::ConfigView,
    slot: Slot,
    dir: Direction,
    index: usize,
    want: Option<FieldType>,
)
    ensures
        ({
            let declared = cfg.submodule(slot);
            let fields = cfg.fields(slot, dir);
            match field_fault(cfg, slot, dir, index, want) {
                None => {
                    &&& declared is Some && fields is Some && index < fields->0.len()
                    &&& want is None || want == Some(fields->0[index as int].ty)
                },
                Some(ApiError::UnknownSlot(n)) => declared is None && n == slot.0,
                Some(ApiError::WrongDirection { slot: n, expected }) => {
                    &&& declared is Some && fields is None
                    &&& n == slot.0 && expected == declared->0.direction()
                },
                Some(ApiError::IndexOutOfRange { slot: n, index: i, len }) => {
                    &&& fields is Some && index >= fields->0.len()
                    &&& n == slot.0 && i == index && len == fields->0.len() as usize
                },
                Some(ApiError::TypeMismatch { slot: n, index: i, expected, got }) => {
                    &&& fields is Some && index < fields->0.len()
                    &&& n == slot.0 && i == index
                    &&& expected == fields->0[index as int].ty && want == Some(got) && expected
                        != got
                },
                Some(_) => false,
            }
        }),
        slot_fault(cfg, slot, dir) is None <==> cfg.submodule(slot) is Some && cfg.fields(slot, dir)
            is Some,
        cfg.submodule(slot) is None ==> slot_fault(cfg, slot, dir) == Some(
            ApiError::UnknownSlot(slot.0),
        ),
        cfg.submodule(slot) is Some && cfg.fields(slot, dir) is None ==> slot_fault(cfg, slot, dir)
            == Some(
            ApiError::WrongDirection {
                slot: slot.0,
                expected: cfg.submodule(slot)->0.direction(),
            },
        ),
{
}

/// What is read of a field stands at the field's byte and bit, and is of its type; too few bytes
/// are reported.
pub proof fn fields_are_read_at_their_place(bytes: Seq<u8>, f: FieldRef)
    requires
        f.byte <= bytes.len() <= usize::MAX,
    ensures
        match value_in(bytes, f) {
            Ok(v) => {
                &&& v == Value::at(f.ty, bytes.skip(f.byte as int), f.bit as usize)
                &&& v.field_type() == f.ty
                &&& f.byte + f.ty.span() <= bytes.len()
            },
            Err(ApiError::Codec(e)) => data::codec_fault(f.ty, bytes.len() - f.byte, f.bit as usize)
                == Some(e),
            Err(_) => false,
        },
{
}

/// A snapshot gives the fields of its slot by their index, each as its own type; asked for as
/// another, it names both types.
pub proof fn snapshots_give_fields_by_index(s: SnapshotView, index: usize, want: FieldType)
    requires
        s.holds(index),
        s.bytes.len() <= usize::MAX,
    ensures
        index < s.fields.len() ==> s.value(index) == value_in(s.bytes, s.fields[index as int]),
        index >= s.fields.len() ==> s.value(index) == Err::<Value, _>(
            ApiError::IndexOutOfRange { slot: s.slot.0, index, len: s.fields.len() as usize },
        ),
        match (s.value(index), s.typed(index, want)) {
            (Ok(v), Ok(t)) => t == v && v.field_type() == want,
            (Ok(v), Err(e)) => v.field_type() != want && e == (ApiError::TypeMismatch {
                slot: s.slot.0,
                index,
                expected: s.fields[index as int].ty,
                got: want,
            }),
            (Err(e), Err(f)) => e == f,
            _ => false,
        },
{
}

/// Why a value is refused for a field: there is no such field, or it is of another type.
pub proof fn values_are_refused_for_a_reason(w: WriterView, index: usize, v: Value)
    ensures
        match w.fault(index, v) {
            None => index < w.fields.len() && w.fields[index as int].ty == v.field_type(),
            Some(ApiError::IndexOutOfRange { slot, index: i, len }) => {
                &&& index >= w.fields.len()
                &&& slot == w.slot.0 && i == index && len == w.fields.len() as usize
            },
            Some(ApiError::TypeMismatch { slot, index: i, expected, got }) => {
                &&& index < w.fields.len() && slot == w.slot.0 && i == index
                &&& expected == w.fields[index as int].ty && got == v.field_type() && expected
                    != got
            },
            Some(_) => false,
        },
{
}

/// Setting a field changes the bytes from the field's first to its last, and no other.
pub proof fn setting_touches_the_bytes_of_the_field(w: WriterView, index: usize, v: Value, k: int)
    requires
        fields_fit(w.fields, w.bytes.len() as int),
        w.fault(index, v) is None,
        0 <= k < w.bytes.len(),
    ensures
        ({
            let f = w.fields[index as int];
            let after = w.setting(index, v);
            &&& after.slot == w.slot && after.fields == w.fields
            &&& k < f.byte || k >= f.byte + f.ty.span() ==> after.bytes[k] == w.bytes[k]
        }),
{
    let f = w.fields[index as int];
    let rest = w.bytes.skip(f.byte as int);
    data::numbers_are_written_from_their_first_byte_on(v, rest, f.bit as usize);
    if k >= f.byte + f.ty.span() {
        assert(v.over(rest, f.bit as usize)[k - f.byte] == rest[k - f.byte]);
    }
}

/// The value that the controller gives a field: of an output, from the data of the slot's
/// first subslot.
pub proof fn outputs_are_read_from_the_image(
    d: IoView,
    image: IoImage,
    slot: Slot,
    index: usize,
    want: Option<FieldType>,
)
    ensures
        match field_fault(d.cfg, slot, Direction::Output, index, want) {
            Some(e) => d.value(image, slot, index, want) == Err::<Value, _>(e),
            None => match image.read_fault_at(slot.0, 1) {
                Some(ImageError::UnknownSubmodule { .. }) => d.value(image, slot, index, want)
                    == Err::<Value, _>(ApiError::NoLayoutYet),
                Some(e) => d.value(image, slot, index, want) == Err::<Value, _>(ApiError::Image(e)),
                None => d.value(image, slot, index, want) == value_in(
                    image.output_slice(slot.0, 1),
                    d.cfg.fields(slot, Direction::Output)->0[index as int],
                ),
            },
        },
{
}

/// An image without the submodule has no layout yet; its other errors are passed on.
pub proof fn image_errors_are_passed_on(e: ImageError)
    ensures
        of_image(e) == ApiError::NoLayoutYet <==> e is UnknownSubmodule,
        !(e is UnknownSubmodule) ==> of_image(e) == ApiError::Image(e),
{
}

/// A read as a type gives the value of that type, unwrapped.
pub proof fn typed_reads_give_the_value(
    d: &IoDevice,
    image: &IoImage,
    s: Slot,
    i: usize,
    as_bool: Result<bool, ApiError>,
    as_int: Result<i16, ApiError>,
    as_word: Result<u16, ApiError>,
    as_dint: Result<i32, ApiError>,
    as_real: Result<u32, ApiError>,
)
    requires
        d@.holds(*image, s, i),
    ensures
        call_ensures(IoDevice::read_bool, (d, image, s, i), as_bool) ==> match (as_bool, d@.value(*image, s, i, Some(
            FieldType::Bool,
        ))) {
            (Ok(x), Ok(v)) => v == Value::Bool(x),
            (Err(e), Err(f)) => e == f,
            _ => false,
        },
        call_ensures(IoDevice::read_int, (d, image, s, i), as_int) ==> match (as_int, d@.value(*image, s, i, Some(
            FieldType::Int,
        ))) {
            (Ok(x), Ok(v)) => v == Value::Int(x),
            (Err(e), Err(f)) => e == f,
            _ => false,
        },
        call_ensures(IoDevice::read_word, (d, image, s, i), as_word) ==> match (as_word, d@.value(*image, s, i, Some(
            FieldType::Word,
        ))) {
            (Ok(x), Ok(v)) => v == Value::Word(x),
            (Err(e), Err(f)) => e == f,
            _ => false,
        },
        call_ensures(IoDevice::read_dint, (d, image, s, i), as_dint) ==> match (as_dint, d@.value(*image, s, i, Some(
            FieldType::Dint,
        ))) {
            (Ok(x), Ok(v)) => v == Value::Dint(x),
            (Err(e), Err(f)) => e == f,
            _ => false,
        },
        call_ensures(IoDevice::read_real, (d, image, s, i), as_real) ==> match (as_real, d@.value(*image, s, i, Some(
            FieldType::Real,
        ))) {
            (Ok(x), Ok(v)) => v == Value::Real(x),
            (Err(e), Err(f)) => e == f,
            _ => false,
        },
{
}

/// A read of a snapshot as a type gives the value of that type, unwrapped.
pub proof fn typed_snapshot_reads_give_the_value(
    s: &SlotSnapshot,
    i: usize,
    as_bool: Result<bool, ApiError>,
    as_int: Result<i16, ApiError>,
    as_word: Result<u16, ApiError>,
    as_dint: Result<i32, ApiError>,
    as_real: Result<u32, ApiError>,
)
    requires
        s@.holds(i),
    ensures
        call_ensures(SlotSnapshot::bool, (s, i), as_bool) ==> match (as_bool, s@.typed(i, FieldType::Bool)) {
            (Ok(x), Ok(v)) => v == Value::Bool(x),
            (Err(e), Err(f)) => e == f,
            _ => false,
        },
        call_ensures(SlotSnapshot::int16, (s, i), as_int) ==> match (as_int, s@.typed(i, FieldType::Int)) {
            (Ok(x), Ok(v)) => v == Value::Int(x),
            (Err(e), Err(f)) => e == f,
            _ => false,
        },
        call_ensures(SlotSnapshot::word, (s, i), as_word) ==> match (as_word, s@.typed(i, FieldType::Word)) {
            (Ok(x), Ok(v)) => v == Value::Word(x),
            (Err(e), Err(f)) => e == f,
            _ => false,
        },
        call_ensures(SlotSnapshot::dint, (s, i), as_dint) ==> match (as_dint, s@.typed(i, FieldType::Dint)) {
            (Ok(x), Ok(v)) => v == Value::Dint(x),
            (Err(e), Err(f)) => e == f,
            _ => false,
        },
        call_ensures(SlotSnapshot::real_bits, (s, i), as_real) ==> match (as_real, s@.typed(i, FieldType::Real)) {
            (Ok(x), Ok(v)) => v == Value::Real(x),
            (Err(e), Err(f)) => e == f,
            _ => false,
        },
{
}

/// A working copy of a slot is over its input fields and the bytes last published, and what is
/// published goes to the slot's first subslot, where its layout says.
pub proof fn working_copies_are_of_the_inputs(
    d: IoView,
    slot: Slot,
    before: IoImage,
    after: IoImage,
    bytes: Seq<u8>,
    res: Result<(), ApiError>,
)
    ensures
        d.scratch(slot).slot == slot,
        Some(d.scratch(slot).fields) == d.cfg.fields(slot, Direction::Input) || d.cfg.fields(
            slot,
            Direction::Input,
        ) is None,
        d.scratch(slot).bytes == d.inputs[d.cfg.pos(slot)],
        publishes(before, after, slot, bytes, res) ==> {
            let place = image::input_place(before.cell_index(), slot.0, 1);
            &&& res is Ok ==> {
                &&& place matches Ok((off, len)) && len == bytes.len()
                &&& after.input_csdu().len() == before.input_csdu().len()
                &&& after.input_csdu().subrange(place->Ok_0.0, place->Ok_0.0 + bytes.len()) == bytes
            }
            &&& res is Err ==> after.input_csdu() == before.input_csdu()
            &&& after.output_csdu() == before.output_csdu()
        },
{
    if publishes(before, after, slot, bytes, res) && res is Ok {
        let (off, _) = image::input_place(before.cell_index(), slot.0, 1)->Ok_0;
        image::written_inputs_stand_at_their_offset(before.input_csdu(), off, bytes);
    }
}

/// A diagnosis is raised and cleared for a declared slot, as it is told, and in the direction
/// that the slot is declared with.
pub proof fn diagnoses_are_commanded_for_declared_slots(
    d: &IoDevice,
    slot: Slot,
    channel: u16,
    error: ChannelError,
    severity: Severity,
    res: Result<DiagCommand, ApiError>,
)
    ensures
        call_ensures(IoDevice::raise_diagnosis, (d, slot, channel, error, severity), res)
            ==> match (d@.cfg.submodule(slot), res) {
            (None, Err(e)) => e == ApiError::UnknownSlot(slot.0),
            (Some(sm), Ok(DiagCommand::Raise(x))) => {
                &&& x.slot == slot && x.channel == channel && x.error == error
                &&& x.severity == severity && x.direction == sm.direction()
            },
            _ => false,
        },
        call_ensures(IoDevice::clear_diagnosis, (d, slot, channel, error), res) ==> match (
            d@.cfg.submodule(slot),
            res,
        ) {
            (None, Err(e)) => e == ApiError::UnknownSlot(slot.0),
            (Some(_), Ok(DiagCommand::Clear { slot: s, channel: c, error: e })) => s == slot && c
                == channel && e == error,
            _ => false,
        },
{
}

/// Data can be exchanged just where the AR is at `Data` and the image has a layout.
pub proof fn data_waits_for_the_layout(state: ArState, image: &IoImage, r: bool)
    requires
        call_ensures(IoDevice::ready, (state, image), r),
    ensures
        r <==> state is Data && image.cell_index().len() > 0,
{
}

/// The parts of a text, joined again with colons.
pub open spec fn joined(parts: Seq<Seq<char>>) -> Seq<char>
    decreases parts.len(),
{
    if parts.len() <= 1 {
        parts[0]
    } else {
        joined(parts.drop_last()) + seq![':'] + parts.last()
    }
}

/// A text is its parts with colons between them, and no part holds a colon.
pub proof fn texts_are_parted_at_their_colons(s: Seq<char>)
    ensures
        parts_of(s).len() >= 1,
        joined(parts_of(s)) == s,
        forall|i: int, k: int|
            0 <= i < parts_of(s).len() && 0 <= k < parts_of(s)[i].len() ==> #[trigger] parts_of(
                s,
            )[i][k] != ':',
    decreases s.len(),
{
    reveal_with_fuel(joined, 2);
    if s.len() == 0 {
        assert(joined(parts_of(s)) =~= s);
    } else {
        let front = s.drop_last();
        let parts = parts_of(front);
        texts_are_parted_at_their_colons(front);
        let all = parts_of(s);
        let (c, last) = (s.last(), parts.last());
        assert(front + seq![c] =~= s);
        if c == ':' {
            assert(all.drop_last() =~= parts);
            assert(joined(all) =~= front + seq![':']);
        } else if parts.len() == 1 {
            assert(joined(all) == last.push(c));
            assert(joined(parts) == last);
            assert(joined(all) =~= front + seq![c]);
        } else {
            assert(all.drop_last() =~= parts.drop_last());
            assert(joined(parts) == joined(parts.drop_last()) + seq![':'] + last);
            assert(joined(all) == joined(parts.drop_last()) + seq![':'] + last.push(c));
            assert(joined(all) =~= front + seq![c]);
        }
        assert forall|i: int, k: int|
            0 <= i < all.len() && 0 <= k < all[i].len() implies #[trigger] all[i][k] != ':' by {
            if i < parts.len() - 1 || s.last() == ':' && i < parts.len() {
                assert(all[i] == parts[i]);
            } else if s.last() != ':' && k < parts.last().len() {
                assert(all[i][k] == parts[i][k]);
            }
        }
    }
}

/// An octet is read from hexadecimal digits: two of them, or one alone, by their values.
pub proof fn octets_are_hexadecimal(p: Seq<char>)
    ensures
        p.len() == 2 && p[0] != '+' ==> (octet_of(p) is Some <==> text::hex_value(p[0]) < 16
            && text::hex_value(p[1]) < 16),
        p.len() == 2 && p[0] != '+' && octet_of(p) is Some ==> octet_of(p) == Some(
            (16 * text::hex_value(p[0]) + text::hex_value(p[1])) as u8,
        ),
        p.len() == 1 ==> (octet_of(p) is Some <==> text::hex_value(p[0]) < 16),
        p.len() == 1 && octet_of(p) is Some ==> octet_of(p) == Some(text::hex_value(p[0]) as u8),
        p.len() == 0 ==> octet_of(p) is None,
{
    reveal_with_fuel(text::hex_number, 3);
    if p.len() == 2 && p[0] != '+' {
        if text::hex_value(p[0]) < 16 && text::hex_value(p[1]) < 16 {
            assert(text::hex_digits_at(p, 0, 2));
            assert(text::hex_number(p, 0, 2) == 16 * text::hex_value(p[0]) + text::hex_value(p[1]));
        } else {
            assert(!text::hex_digits_at(p, 0, 2));
        }
    }
    if p.len() == 1 {
        if text::hex_value(p[0]) < 16 {
            assert(text::hex_digits_at(p, 0, 1));
            assert(text::hex_number(p, 0, 1) == text::hex_value(p[0]));
        } else {
            assert(!text::hex_digits_at(p, 0, 1));
        }
    }
}

/// An address is six octets between colons, in order; with another number of parts, or one that
/// is no octet, there is none.
pub proof fn addresses_are_six_octets(s: Seq<char>)
    ensures
        ({
            let parts = parts_of(trimmed_end(trimmed_start(s)));
            match mac_of(s) {
                Ok(m) => m.len() == 6 && parts.len() == 6 && forall|i: int|
                    0 <= i < 6 ==> octet_of(parts[i]) == Some(#[trigger] m[i]),
                Err(MacTextError::Parts(n)) => parts.len() != 6 && n == parts.len() as usize,
                Err(MacTextError::Octet) => parts.len() == 6 && exists|i: int|
                    0 <= i < 6 && #[trigger] octet_of(parts[i]) is None,
            }
        }),
{
    let parts = parts_of(trimmed_end(trimmed_start(s)));
    if let Ok(m) = mac_of(s) {
        assert forall|i: int| 0 <= i < 6 implies octet_of(parts[i]) == Some(#[trigger] m[i]) by {
            assert(octet_of(parts[i]) is Some);
        }
    }
}

/// Trimming cuts white space from both ends of a text, and nothing else.
pub proof fn trimming_cuts_white_space(s: Seq<char>)
    ensures
        ({
            let (e, b) = (trimmed_end(s), trimmed_start(s));
            &&& e.len() <= s.len() && s.take(e.len() as int) == e
            &&& forall|i: int| e.len() <= i < s.len() ==> is_space(#[trigger] s[i])
            &&& e.len() > 0 ==> !is_space(e.last())
            &&& b.len() <= s.len() && s.skip(s.len() - b.len()) == b
            &&& forall|i: int| 0 <= i < s.len() - b.len() ==> is_space(#[trigger] s[i])
            &&& b.len() > 0 ==> !is_space(b[0])
        }),
    decreases s.len(),
{
    if s.len() > 0 {
        if is_space(s.last()) {
            let front = s.drop_last();
            trimming_cuts_white_space(front);
            let e = trimmed_end(s);
            assert(s.take(e.len() as int) =~= front.take(e.len() as int));
            assert forall|i: int| e.len() <= i < s.len() implies is_space(#[trigger] s[i]) by {
                if i < front.len() {
                    assert(front[i] == s[i]);
                }
            }
        } else {
            assert(s.take(s.len() as int) =~= s);
        }
        if is_space(s[0]) {
            let rest = s.skip(1);
            trimming_cuts_white_space(rest);
            let b = trimmed_start(s);
            assert(s.skip(s.len() - b.len()) =~= rest.skip(rest.len() - b.len()));
            assert forall|i: int| 0 <= i < s.len() - b.len() implies is_space(#[trigger] s[i]) by {
                if i > 0 {
                    assert(rest[i - 1] == s[i]);
                }
            }
        } else {
            assert(s.skip(0) =~= s);
        }
    } else {
        assert(s.take(0) =~= s && s.skip(0) =~= s);
    }
}

} // verus!
