use vstd::prelude::*;

verus! {

/// Why a transmission session could not run or did not complete.
#[derive(Debug, Clone, Copy, PartialEq, Eq, Structural)]
pub enum UartError {
    /// The payload could not be obtained; no line was touched.
    InputError,
    /// The GPIO controller could not be opened.
    HardwareUnavailable,
    /// The line is already claimed by another requester.
    LineBusy,
    /// The line offset cannot be claimed on this controller.
    LineInvalid,
    /// A line-level write failed in the middle of the session.
    TransmissionFault,
}

} // verus!

verus! {

/// The error number that the kernel gives for a line that another requester
/// holds.
pub const EBUSY: i32 = 16;

/// Which part of opening a line failed.
#[derive(Debug, Clone, Copy, PartialEq, Eq, Structural)]
pub enum OpenStage {
    /// Opening the GPIO controller.
    Controller,
    /// Claiming the line on an open controller.
    Line,
}

/// The error for a failed open: the controller could not be opened, or the
/// line could not be claimed because it is held elsewhere (`EBUSY`) or for
/// any other reason, such as an offset out of range.
pub fn open_failure(stage: OpenStage, os_code: Option<i32>) -> (r: UartError)
    ensures
        stage == OpenStage::Controller ==> r == UartError::HardwareUnavailable,
        stage == OpenStage::Line && os_code == Some(EBUSY) ==> r == UartError::LineBusy,
        stage == OpenStage::Line && os_code != Some(EBUSY) ==> r == UartError::LineInvalid,
{
    match stage {
        OpenStage::Controller => UartError::HardwareUnavailable,
        OpenStage::Line => match os_code {
            Some(code) => if code == EBUSY {
                UartError::LineBusy
            } else {
                UartError::LineInvalid
            },
            None => UartError::LineInvalid,
        },
    }
}

} // verus!
