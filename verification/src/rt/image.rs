//! The I/O image: the buffers the application and the cyclic exchange hand each other.
//!
//! `inputs` (application to controller) is one flat buffer laid out like the input C-SDU,
//! filled by the application via [`IoImage::write_inputs`] and read by the cyclic side via
//! [`IoImage::rt_snapshot_inputs`]. `outputs` (controller to application) holds the last
//! accepted output C-SDU verbatim plus its [`Validity`], written by the cyclic side via
//! [`IoImage::rt_publish`] / [`IoImage::rt_set_validity`] and read by the application via
//! [`IoImage::read_outputs`] / [`IoImage::snapshot_outputs`].
//!
//! The image itself is plain data: whoever shares it between threads guards it with a lock
//! of their own. The cyclic side's operations report whether they happened, so that a side
//! that must not wait can count a held lock as "not now".

use vstd::prelude::*;

use vstd::slice::{slice_subrange, slice_to_vec};

use crate::bytes;
use crate::eth::copy_prefix;
use crate::rt::layout::{Cell, Layout};

verus! {

/// Consumer watchdog state as tracked by the cyclic engine, mirrored here for the
/// application to read alongside the data it gates.
#[derive(Debug, Clone, Copy, PartialEq, Eq, Structural)]
pub enum WatchdogState {
    /// No frame has been accepted yet; the watchdog has nothing to measure against.
    NotArmed,
    /// Within the watchdog window since the last accepted frame.
    InWindow,
    /// The watchdog window has been exceeded.
    Expired,
}

impl Default for WatchdogState {
    fn default() -> (w: Self)
        ensures
            w == WatchdogState::NotArmed,
    {
        WatchdogState::NotArmed
    }
}

/// How the application should treat the current output image: a coarser summary of
/// [`Validity`] for the common case of "can I use this data".
#[derive(Debug, Clone, Copy, PartialEq, Eq, Structural)]
pub enum Freshness {
    /// The watchdog has never been armed: no output data has ever been accepted.
    NoData,
    /// Recent, provider running: safe to use.
    Fresh,
    /// The provider is not (or no longer) running; the data may be stale garbage.
    Stopped,
    /// The consumer watchdog has expired: no accepted frame within the window.
    Stale,
}

/// Per-cycle metadata attached to the output image: what the last accepted (or timed-out)
/// frame told us.
#[derive(Debug, Clone, Copy, PartialEq, Eq, Structural)]
pub struct Validity {
    /// The provider's `DataStatus.Provider_State` bit from the last accepted frame.
    pub provider_run: bool,
    /// The provider's `DataStatus.State_Primary` bit from the last accepted frame.
    pub primary: bool,
    /// Consumer watchdog state.
    pub watchdog: WatchdogState,
    /// Age in nanoseconds of the data at the moment it was last accepted, if any frame ever
    /// was.
    pub last_rx_age: Option<u64>,
    /// Engine cycle counter at the moment this validity was recorded.
    pub cycle: u64,
}

impl Default for Validity {
    fn default() -> (v: Self)
        ensures
            v == (Validity {
                provider_run: false,
                primary: false,
                watchdog: WatchdogState::NotArmed,
                last_rx_age: None,
                cycle: 0,
            }),
    {
        Validity {
            provider_run: false,
            primary: false,
            watchdog: WatchdogState::NotArmed,
            last_rx_age: None,
            cycle: 0,
        }
    }
}

/// The validity before any frame.
pub open spec fn blank_validity() -> Validity {
    Validity {
        provider_run: false,
        primary: false,
        watchdog: WatchdogState::NotArmed,
        last_rx_age: None,
        cycle: 0,
    }
}

impl Validity {
    /// Summarize this validity into a [`Freshness`] the application can switch on.
    #[verifier::allow_in_spec]
    pub fn freshness(&self) -> (f: Freshness)
        ensures
            f == match self.watchdog {
                WatchdogState::NotArmed => Freshness::NoData,
                WatchdogState::Expired => Freshness::Stale,
                WatchdogState::InWindow => if self.provider_run {
                    Freshness::Fresh
                } else {
                    Freshness::Stopped
                },
            },
        returns
            (match self.watchdog {
                WatchdogState::NotArmed => Freshness::NoData,
                WatchdogState::Expired => Freshness::Stale,
                WatchdogState::InWindow => if self.provider_run {
                    Freshness::Fresh
                } else {
                    Freshness::Stopped
                },
            }),
    {
        if self.watchdog == WatchdogState::NotArmed {
            Freshness::NoData
        } else if self.watchdog == WatchdogState::Expired {
            Freshness::Stale
        } else if !self.provider_run {
            Freshness::Stopped
        } else {
            Freshness::Fresh
        }
    }
}

/// Errors from the application-side accessors of [`IoImage`].
#[derive(Debug, Clone, Copy, PartialEq, Eq, Structural)]
pub enum ImageError {
    /// No such submodule in the current layout.
    UnknownSubmodule { slot: u16, subslot: u16 },
    /// The data does not have the submodule's length, or the buffer is too short for it.
    LengthMismatch { expected: usize, got: usize },
    /// The submodule carries no input data.
    NoInput { slot: u16, subslot: u16 },
    /// The submodule carries no output data.
    NoOutput { slot: u16, subslot: u16 },
}

/// The I/O image: one input buffer, one output buffer, and the per-submodule cell index
/// used to translate `(slot, subslot)` into offsets in each.
pub struct IoImage {
    cells: Vec<Cell>,
    inputs: Vec<u8>,
    outputs: Vec<u8>,
    validity: Validity,
}

/// The index of the first cell at `(slot, subslot)`, or the number of cells if there is
/// none.
pub open spec fn cell_pos(cells: Seq<Cell>, slot: u16, subslot: u16) -> int
    decreases cells.len(),
{
    if cells.len() == 0 {
        0
    } else if cells[0].slot == slot && cells[0].subslot == subslot {
        0
    } else {
        1 + cell_pos(cells.skip(1), slot, subslot)
    }
}

proof fn lemma_cell_pos(cells: Seq<Cell>, slot: u16, subslot: u16, i: int)
    requires
        0 <= i <= cells.len(),
        i < cells.len() ==> cells[i].slot == slot && cells[i].subslot == subslot,
        forall|j: int|
            0 <= j < i ==> !((#[trigger] cells[j]).slot == slot && cells[j].subslot == subslot),
    ensures
        cell_pos(cells, slot, subslot) == i,
    decreases cells.len(),
{
    if cells.len() > 0 && i > 0 {
        assert(!(cells[0].slot == slot && cells[0].subslot == subslot));
        lemma_cell_pos(cells.skip(1), slot, subslot, i - 1);
    }
}

/// The index of the first cell at `(slot, subslot)`, or the number of cells if there is
/// none.
fn find_cell(cells: &Vec<Cell>, slot: u16, subslot: u16) -> (i: usize)
    ensures
        i == cell_pos(cells@, slot, subslot),
        i <= cells@.len(),
{
    let mut i: usize = 0;
    while i < cells.len()
        invariant
            i <= cells@.len(),
            forall|j: int|
                0 <= j < i ==> !((#[trigger] cells@[j]).slot == slot && cells@[j].subslot
                    == subslot),
        decreases cells@.len() - i,
    {
        if cells[i].slot == slot && cells[i].subslot == subslot {
            proof {
                lemma_cell_pos(cells@, slot, subslot, i as int);
            }
            return i;
        }
        i = i + 1;
    }
    proof {
        lemma_cell_pos(cells@, slot, subslot, i as int);
    }
    i
}

/// How many bytes a buffer of `buf_len` holds from `off` on.
pub open spec fn bytes_from(buf_len: int, off: int) -> usize {
    if buf_len < off {
        0
    } else {
        (buf_len - off) as usize
    }
}

/// Where `(slot, subslot)`'s input stands: its offset and length, or why there is none.
pub open spec fn input_place(cells: Seq<Cell>, slot: u16, subslot: u16) -> Result<
    (int, int),
    ImageError,
> {
    let i = cell_pos(cells, slot, subslot);
    if i == cells.len() {
        Err(ImageError::UnknownSubmodule { slot, subslot })
    } else {
        match cells[i].input_off {
            None => Err(ImageError::NoInput { slot, subslot }),
            Some(off) => Ok((off as int, cells[i].input_len as int)),
        }
    }
}

/// Where `(slot, subslot)`'s output stands: its offset and length, or why there is none.
pub open spec fn output_place(cells: Seq<Cell>, slot: u16, subslot: u16) -> Result<
    (int, int),
    ImageError,
> {
    let i = cell_pos(cells, slot, subslot);
    if i == cells.len() {
        Err(ImageError::UnknownSubmodule { slot, subslot })
    } else {
        match cells[i].output_off {
            None => Err(ImageError::NoOutput { slot, subslot }),
            Some(off) => Ok((off as int, cells[i].output_len as int)),
        }
    }
}

/// Why `len` bytes cannot be written as `(slot, subslot)`'s input, if they cannot.
pub open spec fn write_fault(
    cells: Seq<Cell>,
    buf_len: int,
    slot: u16,
    subslot: u16,
    len: int,
) -> Option<ImageError> {
    match input_place(cells, slot, subslot) {
        Err(e) => Some(e),
        Ok((off, expected)) => if len != expected {
            Some(ImageError::LengthMismatch { expected: expected as usize, got: len as usize })
        } else if off + expected > buf_len {
            Some(
                ImageError::LengthMismatch {
                    expected: expected as usize,
                    got: bytes_from(buf_len, off),
                },
            )
        } else {
            None
        },
    }
}

/// Why `(slot, subslot)`'s output cannot be read, if it cannot.
pub open spec fn read_fault(cells: Seq<Cell>, buf_len: int, slot: u16, subslot: u16) -> Option<
    ImageError,
> {
    match output_place(cells, slot, subslot) {
        Err(e) => Some(e),
        Ok((off, expected)) => if off + expected > buf_len {
            Some(
                ImageError::LengthMismatch {
                    expected: expected as usize,
                    got: bytes_from(buf_len, off),
                },
            )
        } else {
            None
        },
    }
}

/// `buf` with the bytes from `off` on replaced by `s`.
pub open spec fn overwritten(buf: Seq<u8>, off: int, s: Seq<u8>) -> Seq<u8> {
    buf.take(off) + s + buf.skip(off + s.len())
}

/// `dst` with as many of its first bytes as `src` has replaced by those of `src`.
pub open spec fn prefix_replaced(dst: Seq<u8>, src: Seq<u8>) -> Seq<u8> {
    if src.len() <= dst.len() {
        src + dst.skip(src.len() as int)
    } else {
        src.take(dst.len() as int)
    }
}

/// Copy as many bytes of `src` as fit to the start of `dst`.
fn copy_common(dst: &mut [u8], src: &[u8])
    ensures
        final(dst)@ == prefix_replaced(old(dst)@, src@),
{
    if src.len() <= dst.len() {
        copy_prefix(dst, src);
    } else {
        let n: usize = dst.len();
        copy_prefix(dst, slice_subrange(src, 0, n));
        assert(dst@ =~= src@.take(n as int));
    }
}

/// `n` zero bytes.
fn zeroed(n: usize) -> (v: Vec<u8>)
    ensures
        v@ == bytes::repeated(0, n as nat),
{
    let mut v: Vec<u8> = Vec::new();
    bytes::put_repeated(&mut v, 0, n);
    assert(v@ =~= bytes::repeated(0, n as nat));
    v
}

/// A copy of a cell index.
fn copy_cells(cells: &Vec<Cell>) -> (r: Vec<Cell>)
    ensures
        r@ == cells@,
{
    let mut r: Vec<Cell> = Vec::new();
    let mut i: usize = 0;
    while i < cells.len()
        invariant
            i <= cells@.len(),
            r@ == cells@.take(i as int),
        decreases cells@.len() - i,
    {
        r.push(cells[i]);
        i = i + 1;
        assert(r@ =~= cells@.take(i as int));
    }
    assert(cells@.take(i as int) =~= cells@);
    r
}

impl IoImage {
    /// The cell index, in model order.
    pub closed spec fn cell_index(self) -> Seq<Cell> {
        self.cells@
    }

    /// The input C-SDU.
    pub closed spec fn input_csdu(self) -> Seq<u8> {
        self.inputs@
    }

    /// The output C-SDU.
    pub closed spec fn output_csdu(self) -> Seq<u8> {
        self.outputs@
    }

    /// The validity of the output C-SDU.
    pub closed spec fn output_validity(self) -> Validity {
        self.validity
    }

    /// Whether `self` is blank and laid out by `layout`: its cells, and both buffers zero
    /// and of the CRs' lengths.
    pub open spec fn laid_out(self, layout: Layout) -> bool {
        &&& self.cell_index() == layout.cells@
        &&& self.input_csdu() == bytes::repeated(0, layout.input_cr.data_length as nat)
        &&& self.output_csdu() == bytes::repeated(0, layout.output_cr.data_length as nat)
        &&& self.output_validity() == blank_validity()
    }

    /// Why `(slot, subslot)`'s output cannot be read from this image, if it cannot.
    pub open spec fn read_fault_at(self, slot: u16, subslot: u16) -> Option<ImageError> {
        read_fault(self.cell_index(), self.output_csdu().len() as int, slot, subslot)
    }

    /// The output data of `(slot, subslot)`, where it can be read.
    pub open spec fn output_slice(self, slot: u16, subslot: u16) -> Seq<u8> {
        let (off, len) = output_place(self.cell_index(), slot, subslot)->Ok_0;
        self.output_csdu().subrange(off, off + len)
    }

    /// Whether `t` is what `f` returns for the output data of `(slot, subslot)` and its
    /// validity.
    pub open spec fn called<T, F: FnOnce(&[u8], &Validity) -> T>(
        self,
        f: F,
        slot: u16,
        subslot: u16,
        t: T,
    ) -> bool {
        exists|b: &[u8], v: &Validity|
            b@ == self.output_slice(slot, subslot) && *v == self.output_validity()
                && #[trigger] call_ensures(f, (b, v), t)
    }

    /// An image sized and indexed from `layout`: both buffers zeroed to their CR's
    /// `data_length`.
    pub fn new(layout: &Layout) -> (r: IoImage)
        ensures
            r.laid_out(*layout),
    {
        IoImage {
            cells: copy_cells(&layout.cells),
            inputs: zeroed(layout.input_cr.data_length),
            outputs: zeroed(layout.output_cr.data_length),
            validity: Validity::default(),
        }
    }

    /// An image with no cells and empty buffers: every accessor returns
    /// [`ImageError::UnknownSubmodule`] until [`IoImage::rebuild`] gives it a layout.
    pub fn empty() -> (r: IoImage)
        ensures
            r.cell_index() == Seq::<Cell>::empty(),
            r.input_csdu() == Seq::<u8>::empty(),
            r.output_csdu() == Seq::<u8>::empty(),
            r.output_validity() == blank_validity(),
    {
        IoImage {
            cells: Vec::new(),
            inputs: Vec::new(),
            outputs: Vec::new(),
            validity: Validity::default(),
        }
    }

    /// Replace the cell index and both buffers, as if freshly built from `layout`. Used on
    /// each new AR.
    pub fn rebuild(&mut self, layout: &Layout)
        ensures
            final(self).laid_out(*layout),
    {
        self.cells = copy_cells(&layout.cells);
        self.inputs = zeroed(layout.input_cr.data_length);
        self.outputs = zeroed(layout.output_cr.data_length);
        self.validity = Validity::default();
    }

    /// Drop the layout: the cell index and both buffers are emptied, so every accessor
    /// keyed by `(slot, subslot)` reports [`ImageError::UnknownSubmodule`] until the next
    /// [`IoImage::rebuild`], but the validity is left untouched.
    pub fn clear(&mut self)
        ensures
            final(self).cell_index() == Seq::<Cell>::empty(),
            final(self).input_csdu() == Seq::<u8>::empty(),
            final(self).output_csdu() == Seq::<u8>::empty(),
            final(self).output_validity() == old(self).output_validity(),
    {
        self.cells = Vec::new();
        self.inputs = Vec::new();
        self.outputs = Vec::new();
    }

    /// A copy of the current cell index, in model order.
    pub fn cells(&self) -> (r: Vec<Cell>)
        ensures
            r@ == self.cell_index(),
    {
        copy_cells(&self.cells)
    }

    /// Write `data` into the input image at `(slot, subslot)`'s offset. `data.len()` must
    /// exactly match the submodule's input length. A refused write changes nothing.
    pub fn write_inputs(&mut self, slot: u16, subslot: u16, data: &[u8]) -> (res: Result<
        (),
        ImageError,
    >)
        ensures
            final(self).cell_index() == old(self).cell_index(),
            final(self).output_csdu() == old(self).output_csdu(),
            final(self).output_validity() == old(self).output_validity(),
            ({
                let fault = write_fault(
                    old(self).cell_index(),
                    old(self).input_csdu().len() as int,
                    slot,
                    subslot,
                    data@.len() as int,
                );
                match res {
                    Ok(_) => fault is None && final(self).input_csdu() == overwritten(
                        old(self).input_csdu(),
                        input_place(old(self).cell_index(), slot, subslot)->Ok_0.0,
                        data@,
                    ),
                    Err(e) => fault == Some(e) && final(self).input_csdu() == old(
                        self,
                    ).input_csdu(),
                }
            }),
    {
        let i: usize = find_cell(&self.cells, slot, subslot);
        if i == self.cells.len() {
            return Err(ImageError::UnknownSubmodule { slot, subslot });
        }
        let off: usize = match self.cells[i].input_off {
            Some(off) => off,
            None => {
                return Err(ImageError::NoInput { slot, subslot });
            },
        };
        let len: usize = self.cells[i].input_len;
        if data.len() != len {
            return Err(ImageError::LengthMismatch { expected: len, got: data.len() });
        }
        let have: usize = self.inputs.len();
        if off > have || len > have - off {
            let got: usize = if off > have {
                0
            } else {
                have - off
            };
            return Err(ImageError::LengthMismatch { expected: len, got });
        }
        let ghost orig = self.inputs@;
        let mut k: usize = 0;
        assert(orig =~= orig.take(off as int) + data@.take(0) + orig.skip(off as int));
        while k < len
            invariant
                k <= len,
                len == data@.len(),
                off + len <= orig.len(),
                orig.len() == have,
                self.inputs@ == orig.take(off as int) + data@.take(k as int) + orig.skip(off + k),
                self.cells@ == old(self).cells@,
                self.outputs@ == old(self).outputs@,
                self.validity == old(self).validity,
            decreases len - k,
        {
            self.inputs.set(off + k, data[k]);
            k = k + 1;
            assert(self.inputs@ =~= orig.take(off as int) + data@.take(k as int) + orig.skip(
                off + k,
            ));
        }
        assert(data@.take(len as int) =~= data@);
        Ok(())
    }

    /// A copy of the current output data of `(slot, subslot)`, and the validity of the
    /// frame it was published from.
    pub fn output_of(&self, slot: u16, subslot: u16) -> (res: Result<
        (Vec<u8>, Validity),
        ImageError,
    >)
        ensures
            match res {
                Ok((v, validity)) => {
                    &&& self.read_fault_at(slot, subslot) is None
                    &&& v@ == self.output_slice(slot, subslot)
                    &&& validity == self.output_validity()
                },
                Err(e) => self.read_fault_at(slot, subslot) == Some(e),
            },
    {
        let i: usize = find_cell(&self.cells, slot, subslot);
        if i == self.cells.len() {
            return Err(ImageError::UnknownSubmodule { slot, subslot });
        }
        let off: usize = match self.cells[i].output_off {
            Some(off) => off,
            None => {
                return Err(ImageError::NoOutput { slot, subslot });
            },
        };
        let len: usize = self.cells[i].output_len;
        let have: usize = self.outputs.len();
        if off > have || len > have - off {
            let got: usize = if off > have {
                0
            } else {
                have - off
            };
            return Err(ImageError::LengthMismatch { expected: len, got });
        }
        let v: Vec<u8> = slice_to_vec(slice_subrange(self.outputs.as_slice(), off, off + len));
        Ok((v, self.validity))
    }

    /// Call `f` with the current output data of `(slot, subslot)` and the validity of the
    /// frame it was published from; where there is none, `f` is not called.
    pub fn read_outputs<T, F: FnOnce(&[u8], &Validity) -> T>(
        &self,
        slot: u16,
        subslot: u16,
        f: F,
    ) -> (res: Result<T, ImageError>)
        requires
            forall|b: &[u8], v: &Validity| #[trigger] call_requires(f, (b, v)),
        ensures
            match res {
                Ok(t) => self.read_fault_at(slot, subslot) is None && self.called(
                    f,
                    slot,
                    subslot,
                    t,
                ),
                Err(e) => self.read_fault_at(slot, subslot) == Some(e),
            },
    {
        match self.output_of(slot, subslot) {
            Ok((v, validity)) => {
                let b: &[u8] = v.as_slice();
                let t = f(b, &validity);
                assert(call_ensures(f, (b, &validity), t));
                assert(self.called(f, slot, subslot, t));
                Ok(t)
            },
            Err(e) => Err(e),
        }
    }

    /// Copy the whole output C-SDU (as many bytes as fit) into `dst` and return the current
    /// validity.
    pub fn snapshot_outputs(&self, dst: &mut [u8]) -> (v: Validity)
        ensures
            v == self.output_validity(),
            final(dst)@ == prefix_replaced(old(dst)@, self.output_csdu()),
    {
        copy_common(dst, self.outputs.as_slice());
        self.validity
    }

    /// The current output validity, without touching the data.
    pub fn validity(&self) -> (v: Validity)
        ensures
            v == self.output_validity(),
    {
        self.validity
    }

    /// Store `validity`, without touching the output data: the application-side counterpart
    /// of [`IoImage::rt_set_validity`], used to mark the image stale once the cyclic
    /// exchange has stopped.
    pub fn set_validity(&mut self, validity: Validity)
        ensures
            final(self).output_validity() == validity,
            final(self).cell_index() == old(self).cell_index(),
            final(self).input_csdu() == old(self).input_csdu(),
            final(self).output_csdu() == old(self).output_csdu(),
    {
        self.validity = validity;
    }

    /// Copy the whole input C-SDU (as many bytes as fit) into `dst`; `true`: the copy
    /// happened.
    pub fn rt_snapshot_inputs(&self, dst: &mut [u8]) -> (taken: bool)
        ensures
            taken,
            final(dst)@ == prefix_replaced(old(dst)@, self.input_csdu()),
    {
        copy_common(dst, self.inputs.as_slice());
        true
    }

    /// Store `csdu` (as many bytes as fit) and `validity` as the current output image;
    /// `true`: the publish happened.
    pub fn rt_publish(&mut self, csdu: &[u8], validity: Validity) -> (taken: bool)
        ensures
            taken,
            final(self).output_csdu() == prefix_replaced(old(self).output_csdu(), csdu@),
            final(self).output_validity() == validity,
            final(self).cell_index() == old(self).cell_index(),
            final(self).input_csdu() == old(self).input_csdu(),
    {
        copy_common(self.outputs.as_mut_slice(), csdu);
        self.validity = validity;
        true
    }

    /// Store `validity` without touching the output data, after a watchdog verdict that
    /// accepted no new data; `true`: it was stored.
    pub fn rt_set_validity(&mut self, validity: Validity) -> (taken: bool)
        ensures
            taken,
            final(self).output_validity() == validity,
            final(self).cell_index() == old(self).cell_index(),
            final(self).input_csdu() == old(self).input_csdu(),
            final(self).output_csdu() == old(self).output_csdu(),
    {
        self.validity = validity;
        true
    }
}

// ---------------------------------------------------------------------------------
// Laws
// ---------------------------------------------------------------------------------

/// What the application wrote for a submodule stands at the submodule's offset in the next
/// input snapshot, and every other byte is kept.
pub proof fn written_inputs_stand_at_their_offset(buf: Seq<u8>, off: int, data: Seq<u8>)
    requires
        0 <= off,
        off + data.len() <= buf.len(),
    ensures
        overwritten(buf, off, data).len() == buf.len(),
        overwritten(buf, off, data).subrange(off, off + data.len()) == data,
        forall|b: int|
            0 <= b < buf.len() && !(off <= b < off + data.len()) ==> #[trigger] overwritten(
                buf,
                off,
                data,
            )[b] == buf[b],
{
    assert(overwritten(buf, off, data).subrange(off, off + data.len()) =~= data);
}

/// A published C-SDU of the image's own length is read back, slice by slice.
pub proof fn published_outputs_are_read_back(old_csdu: Seq<u8>, csdu: Seq<u8>, off: int, len: int)
    requires
        csdu.len() == old_csdu.len(),
        0 <= off,
        0 <= len,
        off + len <= csdu.len(),
    ensures
        prefix_replaced(old_csdu, csdu).subrange(off, off + len) == csdu.subrange(off, off + len),
{
    assert(prefix_replaced(old_csdu, csdu) =~= csdu);
}

/// Without a layout there is no submodule: every write and read reports it as unknown.
pub proof fn cleared_images_know_no_submodule(buf_len: int, slot: u16, subslot: u16, len: int)
    ensures
        write_fault(Seq::empty(), buf_len, slot, subslot, len) == Some(
            ImageError::UnknownSubmodule { slot, subslot },
        ),
        read_fault(Seq::empty(), buf_len, slot, subslot) == Some(
            ImageError::UnknownSubmodule { slot, subslot },
        ),
{
}

/// The data is safe to use just where the watchdog is within its window and the provider
/// runs; each other state of the watchdog has its own name.
pub proof fn only_running_data_is_fresh(v: Validity)
    ensures
        v.freshness() == Freshness::Fresh <==> v.watchdog is InWindow && v.provider_run,
        v.freshness() == Freshness::Stopped <==> v.watchdog is InWindow && !v.provider_run,
        v.freshness() == Freshness::Stale <==> v.watchdog is Expired,
        v.freshness() == Freshness::NoData <==> v.watchdog is NotArmed,
        blank_validity().freshness() == Freshness::NoData,
        blank_validity().last_rx_age is None && blank_validity().cycle == 0,
        !blank_validity().provider_run && !blank_validity().primary,
{
}

/// A submodule is found by its first cell, and its data where that cell says: the input by the
/// input's offset and length, the output by the output's.
pub proof fn data_is_found_by_the_first_cell(cells: Seq<Cell>, i: int)
    requires
        0 <= i < cells.len(),
        forall|j: int|
            0 <= j < i ==> !((#[trigger] cells[j]).slot == cells[i].slot && cells[j].subslot
                == cells[i].subslot),
    ensures
        ({
            let c = cells[i];
            let (input, output) = (
                input_place(cells, c.slot, c.subslot),
                output_place(cells, c.slot, c.subslot),
            );
            &&& match c.input_off {
                Some(off) => input == Ok::<(int, int), ImageError>((off as int, c.input_len as int)),
                None => input == Err::<(int, int), _>(
                    ImageError::NoInput { slot: c.slot, subslot: c.subslot },
                ),
            }
            &&& match c.output_off {
                Some(off) => output == Ok::<(int, int), ImageError>(
                    (off as int, c.output_len as int),
                ),
                None => output == Err::<(int, int), _>(
                    ImageError::NoOutput { slot: c.slot, subslot: c.subslot },
                ),
            }
        }),
{
    lemma_cell_pos(cells, cells[i].slot, cells[i].subslot, i);
}

/// A submodule without a cell is unknown, for reading and for writing.
pub proof fn submodules_without_a_cell_are_unknown(cells: Seq<Cell>, slot: u16, subslot: u16)
    requires
        forall|j: int|
            0 <= j < cells.len() ==> !((#[trigger] cells[j]).slot == slot && cells[j].subslot
                == subslot),
    ensures
        input_place(cells, slot, subslot) == Err::<(int, int), _>(
            ImageError::UnknownSubmodule { slot, subslot },
        ),
        output_place(cells, slot, subslot) == Err::<(int, int), _>(
            ImageError::UnknownSubmodule { slot, subslot },
        ),
{
    lemma_cell_pos(cells, slot, subslot, cells.len() as int);
}

/// Data is taken just where it has the submodule's length and the buffer reaches over it, and
/// given just where the buffer does.
pub proof fn data_of_the_right_length_is_taken(
    cells: Seq<Cell>,
    buf_len: int,
    slot: u16,
    subslot: u16,
    len: int,
)
    requires
        0 <= len <= usize::MAX,
        0 <= buf_len <= usize::MAX,
    ensures
        match input_place(cells, slot, subslot) {
            Err(e) => write_fault(cells, buf_len, slot, subslot, len) == Some(e),
            Ok((off, n)) => match write_fault(cells, buf_len, slot, subslot, len) {
                None => len == n && off + n <= buf_len,
                Some(ImageError::LengthMismatch { expected, got }) => {
                    &&& expected == n
                    &&& if len != n {
                        got == len
                    } else {
                        off + n > buf_len && (off + got == buf_len || off > buf_len && got == 0)
                    }
                },
                Some(_) => false,
            },
        },
        match output_place(cells, slot, subslot) {
            Err(e) => read_fault(cells, buf_len, slot, subslot) == Some(e),
            Ok((off, n)) => match read_fault(cells, buf_len, slot, subslot) {
                None => off + n <= buf_len,
                Some(ImageError::LengthMismatch { expected, got }) => {
                    &&& expected == n
                    &&& off + n > buf_len && (off + got == buf_len || off > buf_len && got == 0)
                },
                Some(_) => false,
            },
        },
{
}

/// Copying replaces the bytes that both have, and no other.
pub proof fn copies_replace_the_common_bytes(dst: Seq<u8>, src: Seq<u8>)
    ensures
        prefix_replaced(dst, src).len() == dst.len(),
        forall|i: int|
            0 <= i < dst.len() ==> #[trigger] prefix_replaced(dst, src)[i] == (if i < src.len() {
                src[i]
            } else {
                dst[i]
            }),
{
}

/// An image that is laid out is blank: zeros in the lengths of the two CRs, a cell for each
/// submodule of the layout, and no data ever accepted.
pub proof fn a_new_image_is_blank(image: IoImage, layout: Layout)
    requires
        image.laid_out(layout),
    ensures
        image.cell_index() == layout.cells@,
        image.input_csdu().len() == layout.input_cr.data_length,
        image.output_csdu().len() == layout.output_cr.data_length,
        forall|i: int| 0 <= i < image.input_csdu().len() ==> #[trigger] image.input_csdu()[i] == 0,
        forall|i: int| 0 <= i < image.output_csdu().len() ==> #[trigger] image.output_csdu()[i] == 0,
        image.output_validity().freshness() == Freshness::NoData,
{
}

/// Nothing is known of data before the first frame: no provider runs, nothing is armed, and the
/// data cannot be used.
pub proof fn nothing_is_known_at_first(v: Validity, w: WatchdogState)
    requires
        call_ensures(<Validity as Default>::default, (), v),
        call_ensures(<WatchdogState as Default>::default, (), w),
    ensures
        v.freshness() == Freshness::NoData,
        !v.provider_run && !v.primary,
        v.watchdog == WatchdogState::NotArmed && w == WatchdogState::NotArmed,
        v.last_rx_age is None,
        v.cycle == 0,
{
}

} // verus!
