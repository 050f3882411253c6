//! What can go wrong, and what each failure means for the program.

use vstd::prelude::*;

verus! {

/// The step of stream setup during which the device failed.
#[derive(Clone, Copy, Debug, PartialEq, Eq, Structural)]
pub enum SetupStep {
    /// Asking the device for its default output format.
    OutputFormat,
    /// Building the output stream on the event loop.
    EventLoop,
}

/// How the device failed during setup.
#[derive(Clone, Copy, Debug, PartialEq, Eq, Structural)]
pub enum DeviceFault {
    /// The device went away.
    Gone,
    /// The device does not take the format or the kind of stream.
    NotSupported,
}

/// The failures of the program.
#[derive(Clone, Copy, Debug, PartialEq, Eq, Structural)]
pub enum BeepError {
    /// No output device is present at startup.
    DeviceUnavailable,
    /// The audio runtime rejected the format or the device during setup.
    FormatUnsupported { step: SetupStep, fault: DeviceFault },
    /// The load query did not return all three averages.
    LoadQueryFailure,
}

/// The number of averages a load query must return to count as answered.
pub const LOAD_AVERAGES_EXPECTED: i32 = 3;

/// The words that describe a failure.
pub open spec fn reason_text(error: BeepError) -> Seq<char> {
    match error {
        BeepError::DeviceUnavailable => "no output device"@,
        BeepError::FormatUnsupported { step: SetupStep::OutputFormat, fault: DeviceFault::Gone } => {
            "checking output format: device is gone"@
        },
        BeepError::FormatUnsupported {
            step: SetupStep::OutputFormat,
            fault: DeviceFault::NotSupported,
        } => "checking output format: device is not supported"@,
        BeepError::FormatUnsupported { step: SetupStep::EventLoop, fault: DeviceFault::Gone } => {
            "can't build event loop: device is gone"@
        },
        BeepError::FormatUnsupported {
            step: SetupStep::EventLoop,
            fault: DeviceFault::NotSupported,
        } => "can't build event loop: device is not supported"@,
        BeepError::LoadQueryFailure => "getloadavg() failed"@,
    }
}

impl BeepError {
    /// A failure of stream setup ends the program. A failed load query does
    /// not: the sampler skips that cycle and the tone holds its pitch.
    pub open spec fn is_fatal_spec(&self) -> bool {
        !(*self == BeepError::LoadQueryFailure)
    }

    /// Tells whether the program has to stop on this failure.
    pub fn is_fatal(&self) -> (fatal: bool)
        ensures
            fatal == self.is_fatal_spec(),
    {
        match self {
            BeepError::LoadQueryFailure => false,
            _ => true,
        }
    }

    /// The words that describe this failure.
    pub fn reason(&self) -> (text: &'static str)
        ensures
            text@ == reason_text(*self),
    {
        match self {
            BeepError::DeviceUnavailable => "no output device",
            BeepError::FormatUnsupported { step, fault } => match (step, fault) {
                (SetupStep::OutputFormat, DeviceFault::Gone) => {
                    "checking output format: device is gone"
                },
                (SetupStep::OutputFormat, DeviceFault::NotSupported) => {
                    "checking output format: device is not supported"
                },
                (SetupStep::EventLoop, DeviceFault::Gone) => {
                    "can't build event loop: device is gone"
                },
                (SetupStep::EventLoop, DeviceFault::NotSupported) => {
                    "can't build event loop: device is not supported"
                },
            },
            BeepError::LoadQueryFailure => "getloadavg() failed",
        }
    }
}

/// Judges a load query by the number of averages it returned: it is answered
/// exactly when all three are there.
pub fn check_load_query(averages_returned: i32) -> (outcome: Result<(), BeepError>)
    ensures
        averages_returned == LOAD_AVERAGES_EXPECTED ==> outcome == Ok::<(), BeepError>(()),
        averages_returned != LOAD_AVERAGES_EXPECTED ==> outcome == Err::<(), BeepError>(
            BeepError::LoadQueryFailure,
        ),
{
    if averages_returned == LOAD_AVERAGES_EXPECTED {
        Ok(())
    } else {
        Err(BeepError::LoadQueryFailure)
    }
}

} // verus!
