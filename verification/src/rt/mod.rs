//! Cyclic RTC1 exchange: frame codec, I/O layout, I/O image, and the decisions of the
//! real-time provider/consumer loop.

use vstd::prelude::*;

use crate::eth::TransportError;

pub mod cycle;
pub mod frame;
pub mod image;
pub mod layout;
pub mod runner;
pub mod sched;

pub use frame::{
    frame_len, DataStatus, FrameError, RtFrame, APDU_LEN, CSDU_MIN, CYCLE_UNIT, TCI_RT,
};
pub use image::{Freshness, ImageError, IoImage, Validity, WatchdogState};
pub use layout::{Cell, CrLayout, CsObject, IoObject, Layout, LayoutError};
pub use runner::{RtConfig, RtEvent, RtLoop, TickGrid};

verus! {

/// Errors of the cyclic exchange.
#[derive(Debug, Clone, PartialEq, Eq)]
pub enum RtError {
    /// A cyclic frame failed to parse or did not fit its buffer.
    Frame(FrameError),
    /// The submodule layout could not be built or an offset fell outside it.
    Layout(LayoutError),
    /// A raw-socket or timer call failed; the text says how.
    Io(String),
    /// The Ethernet transport layer failed to send or receive.
    Transport(TransportError),
    /// Reserved for fatal real-time scheduling failures; those of the running loop are
    /// reported as non-fatal [`RtEvent::SchedWarning`]s.
    Sched(String),
    /// The cyclic thread was still running when its join timed out.
    Stopped,
}

} // verus!
