//! `IODControlReq`/`Res` `ControlCommand` bit values.

use vstd::prelude::*;

verus! {

/// `PrmEnd`: end of parameterization (request).
pub const PRM_END: u16 = 0x0001;

/// `ApplicationReady`: the device is ready for cyclic data (request, device-initiated).
pub const APPLICATION_READY: u16 = 0x0002;

/// `Release`: release the AR (request).
pub const RELEASE: u16 = 0x0004;

/// `Done`: the answering side's response to any of the above.
pub const DONE: u16 = 0x0008;

/// Each command is a bit of its own.
pub proof fn commands_are_single_bits()
    ensures
        PRM_END == 1 && APPLICATION_READY == 2 && RELEASE == 4 && DONE == 8,
{
}

} // verus!
