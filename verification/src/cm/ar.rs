//! The vocabulary of the AR lifecycle: its states, why it ends, and what the lifecycle
//! machine is told and answers.

use vstd::prelude::*;

use crate::cm::{ConnectReq, ControlBlock, PnioStatus, WriteReq};

verus! {

/// State of an application relationship (AR).
#[derive(Debug, Clone, Copy, PartialEq, Eq, Structural)]
pub enum ArState {
    /// No AR.
    Idle,
    /// A Connect was accepted; the controller parameterizes the device.
    Connected,
    /// Parameters are complete and ApplicationReady has been sent.
    AppReadySent,
    /// The controller confirmed ApplicationReady: cyclic data is exchanged.
    Data,
}

/// Why an AR ended.
#[derive(Debug, Clone, Copy, PartialEq, Eq)]
pub enum AbortReason {
    /// The controller released the AR.
    ControllerRelease,
    /// The controller connected anew over the AR.
    ControllerReconnect,
    /// The controller aborted with an ERR-RTA carrying this status.
    ControllerErrRta(PnioStatus),
    /// ApplicationReady was never answered.
    AppReadyFailed,
    /// ApplicationReady was answered with this error.
    AppReadyRejected(PnioStatus),
    /// The controller went silent before cyclic exchange began.
    ActivityTimeout,
    /// The consumer watchdog of the cyclic exchange expired.
    RtWatchdog,
    /// The cyclic socket failed.
    RtSocket,
    /// An alarm exhausted its retries.
    AlarmSendFailed,
    /// The device is going away.
    Shutdown,
    /// Another cause, named by the text.
    External(&'static str),
}

/// What the lifecycle machine of the AR is told.
pub enum Event {
    /// A parsed Connect request.
    ConnectReq(ConnectReq),
    /// A parsed Write request.
    WriteReq(WriteReq),
    /// A parsed "parameterization is complete" request.
    PrmEndReq(ControlBlock),
    /// A parsed Release request.
    ReleaseReq(ControlBlock),
    /// The controller's answer to ApplicationReady.
    AppReadyRsp {
        /// Status of the answer.
        status: PnioStatus,
    },
    /// Time has passed.
    Tick,
    /// The AR is to end for this reason.
    Abort(AbortReason),
}

/// What the lifecycle machine of the AR asks for.
#[derive(Debug, Clone, PartialEq, Eq)]
pub enum Action {
    /// Answer the request at hand.
    Respond {
        /// Status of the answer.
        status: PnioStatus,
        /// PNIO blocks of an answer without error.
        blocks: Vec<u8>,
    },
    /// Call the controller (ApplicationReady).
    CallController {
        /// PNIO blocks of the call.
        blocks: Vec<u8>,
    },
    /// Tell the application about a new state.
    Notify {
        /// The state entered.
        state: ArState,
        /// Why, when the state is entered by an abort.
        reason: Option<AbortReason>,
    },
}

/// What an [`Action`] holds.
pub enum ActionView {
    Respond { status: PnioStatus, blocks: Seq<u8> },
    CallController { blocks: Seq<u8> },
    Notify { state: ArState, reason: Option<AbortReason> },
}

impl View for Action {
    type V = ActionView;

    open spec fn view(&self) -> ActionView {
        match *self {
            Action::Respond { status, blocks } => ActionView::Respond { status, blocks: blocks@ },
            Action::CallController { blocks } => ActionView::CallController { blocks: blocks@ },
            Action::Notify { state, reason } => ActionView::Notify { state, reason },
        }
    }
}

/// What a list of actions holds.
pub open spec fn action_views(actions: Seq<Action>) -> Seq<ActionView> {
    actions.map_values(|a: Action| a@)
}

} // verus!
