//! Alarms (RTA over `0x8892`, FrameIDs `0xFC01` High / `0xFE01` Low): the frame codec
//! (`rta`) and the one-alarm-in-flight sender/receiver state machine (`channel`), with what
//! holds of it over its whole life (`history`). No sockets and no clock: the device loop
//! drives both.

pub mod channel;
pub mod history;
pub mod rta;

pub use channel::{
    AlarmAction, AlarmChannel, AlarmChannelConfig, AlarmError, AlarmReq, AlarmStats,
};
pub use rta::{
    build_frame, is_alarm_frame, parse_frame, AlarmAck, AlarmNotification, AlarmSpecifier,
    AlarmType, ChannelDiagnosis, ChannelProperties, ExtChannelDiagnosis, Maintenance, PduType,
    Priority, RtaBody, RtaData, RtaError, RtaHeader, RtaPdu, Specifier, UserData, FRAME_ID_HIGH,
    FRAME_ID_LOW, SEQ_INIT, SEQ_NONE, TCI_HIGH, TCI_LOW, USI_CHANNEL_DIAG, USI_EXT_CHANNEL_DIAG,
};
