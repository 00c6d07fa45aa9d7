//! The error taxonomy: transport failures, malformed reports, and the
//! protocol-level handshake errors, each kept distinct so a caller can
//! tell "malformed line", "timed out", "unexpected acknowledge" and
//! "transport failure" apart.

use vstd::prelude::*;

use crate::device::AcknowledgeType;

verus! {

/// The standard I/O error type, carried through opaquely as an error
/// payload.
#[verifier::external_type_specification]
#[verifier::external_body]
pub struct ExIoError(std::io::Error);

/// The serial transport's error type, carried through opaquely as an
/// error payload.
#[verifier::external_type_specification]
#[verifier::external_body]
pub struct ExSerialportError(serialport::Error);

#[derive(Debug)]
pub enum UnimotionError {
    IOError(std::io::Error),
    SerialportError(serialport::Error),
    SubCommandError(u8, Vec<u8>),
    UnimotionDeviceError(UnimotionDeviceError),
    UnimotionReportError(UnimotionReportError),
    /// The queue for an awaited reply kind was closed: the reader is gone
    /// and the session must be recreated. Kept distinct from a timeout.
    Disconnected,
    PlaceholderError(PlaceholderError),
    /// A queue receive timed out where a reply was owed.
    CrossbeamChannelError,
}

#[derive(Debug)]
pub enum UnimotionDeviceError {
    InvalidVendorID(u16),
    InvalidProductID(u16),
    FailedStickParameterLoading,
    FailedStickCalibrationLoading,
    FailedIMUOffsetsLoading,
    FailedIMUCalibrationLoading,
    FailedColorLoading,
}

#[derive(Debug)]
pub enum UnimotionReportError {
    InvalidSimpleHidReport(InvalidSimpleHIDReport),
    InvalidStandardInputReport(InvalidStandardInputReport),
    EmptyReport,
}

#[derive(Debug)]
pub enum InvalidSimpleHIDReport {
    InvalidReport(Vec<u8>),
    InvalidStickDirection(u8),
}

#[derive(Debug)]
pub enum InvalidStandardInputReport {
    InvalidReport(Vec<u8>),
    InvalidExtraReport(Vec<u8>),
    Battery(u8),
    ConnectionInfo(u8),
    InvalidInputReportId(u8),
}

/// A handshake step saw an acknowledge of the wrong kind; both the
/// expected and the received kind are carried, never coerced.
#[derive(Debug)]
pub enum PlaceholderError {
    UnexpectedAckError(AcknowledgeType, AcknowledgeType),
}

pub type UnimotionResult<T> = Result<T, UnimotionError>;

impl From<serialport::Error> for UnimotionError {
    fn from(e: serialport::Error) -> (r: Self) {
        UnimotionError::SerialportError(e)
    }
}

impl vstd::std_specs::convert::FromSpecImpl<serialport::Error> for UnimotionError {
    open spec fn obeys_from_spec() -> bool {
        true
    }

    open spec fn from_spec(e: serialport::Error) -> UnimotionError {
        UnimotionError::SerialportError(e)
    }
}

impl From<std::io::Error> for UnimotionError {
    fn from(e: std::io::Error) -> (r: Self) {
        UnimotionError::IOError(e)
    }
}

impl vstd::std_specs::convert::FromSpecImpl<std::io::Error> for UnimotionError {
    open spec fn obeys_from_spec() -> bool {
        true
    }

    open spec fn from_spec(e: std::io::Error) -> UnimotionError {
        UnimotionError::IOError(e)
    }
}

impl From<PlaceholderError> for UnimotionError {
    fn from(e: PlaceholderError) -> (r: Self) {
        UnimotionError::PlaceholderError(e)
    }
}

impl vstd::std_specs::convert::FromSpecImpl<PlaceholderError> for UnimotionError {
    open spec fn obeys_from_spec() -> bool {
        true
    }

    open spec fn from_spec(e: PlaceholderError) -> UnimotionError {
        UnimotionError::PlaceholderError(e)
    }
}

impl From<UnimotionDeviceError> for UnimotionError {
    fn from(e: UnimotionDeviceError) -> (r: Self) {
        UnimotionError::UnimotionDeviceError(e)
    }
}

impl vstd::std_specs::convert::FromSpecImpl<UnimotionDeviceError> for UnimotionError {
    open spec fn obeys_from_spec() -> bool {
        true
    }

    open spec fn from_spec(e: UnimotionDeviceError) -> UnimotionError {
        UnimotionError::UnimotionDeviceError(e)
    }
}

impl From<UnimotionReportError> for UnimotionError {
    fn from(e: UnimotionReportError) -> (r: Self) {
        UnimotionError::UnimotionReportError(e)
    }
}

impl vstd::std_specs::convert::FromSpecImpl<UnimotionReportError> for UnimotionError {
    open spec fn obeys_from_spec() -> bool {
        true
    }

    open spec fn from_spec(e: UnimotionReportError) -> UnimotionError {
        UnimotionError::UnimotionReportError(e)
    }
}

impl From<InvalidSimpleHIDReport> for UnimotionReportError {
    fn from(e: InvalidSimpleHIDReport) -> (r: Self) {
        UnimotionReportError::InvalidSimpleHidReport(e)
    }
}

impl vstd::std_specs::convert::FromSpecImpl<InvalidSimpleHIDReport> for UnimotionReportError {
    open spec fn obeys_from_spec() -> bool {
        true
    }

    open spec fn from_spec(e: InvalidSimpleHIDReport) -> UnimotionReportError {
        UnimotionReportError::InvalidSimpleHidReport(e)
    }
}

impl From<InvalidSimpleHIDReport> for UnimotionError {
    fn from(e: InvalidSimpleHIDReport) -> (r: Self) {
        UnimotionError::UnimotionReportError(UnimotionReportError::InvalidSimpleHidReport(e))
    }
}

impl vstd::std_specs::convert::FromSpecImpl<InvalidSimpleHIDReport> for UnimotionError {
    open spec fn obeys_from_spec() -> bool {
        true
    }

    open spec fn from_spec(e: InvalidSimpleHIDReport) -> UnimotionError {
        UnimotionError::UnimotionReportError(UnimotionReportError::InvalidSimpleHidReport(e))
    }
}

impl From<InvalidStandardInputReport> for UnimotionReportError {
    fn from(e: InvalidStandardInputReport) -> (r: Self) {
        UnimotionReportError::InvalidStandardInputReport(e)
    }
}

impl vstd::std_specs::convert::FromSpecImpl<InvalidStandardInputReport> for UnimotionReportError {
    open spec fn obeys_from_spec() -> bool {
        true
    }

    open spec fn from_spec(e: InvalidStandardInputReport) -> UnimotionReportError {
        UnimotionReportError::InvalidStandardInputReport(e)
    }
}

impl From<InvalidStandardInputReport> for UnimotionError {
    fn from(e: InvalidStandardInputReport) -> (r: Self) {
        UnimotionError::UnimotionReportError(UnimotionReportError::InvalidStandardInputReport(e))
    }
}

impl vstd::std_specs::convert::FromSpecImpl<InvalidStandardInputReport> for UnimotionError {
    open spec fn obeys_from_spec() -> bool {
        true
    }

    open spec fn from_spec(e: InvalidStandardInputReport) -> UnimotionError {
        UnimotionError::UnimotionReportError(UnimotionReportError::InvalidStandardInputReport(e))
    }
}

} // verus!
