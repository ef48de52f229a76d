//! Local visual automation, independent of adapters, decision providers and task cores.
use crate::api::PauseState;
use crate::copy::Dup;
use crate::text;
use crate::text::Text;
use vstd::prelude::*;

verus! {

/// Operational errors are distinct from a successful recognition with no matches.
#[derive(Debug)]
pub enum Error {
    Invalid(String),
    Unsupported(String),
    Backend(String),
    Cleanup(String),
    Cancelled,
    TimedOut,
}

#[verifier::ext_equal]
pub enum ErrorModel {
    Invalid(Text),
    Unsupported(Text),
    Backend(Text),
    Cleanup(Text),
    Cancelled,
    TimedOut,
}

impl View for Error {
    type V = ErrorModel;

    open spec fn view(&self) -> ErrorModel {
        match self {
            Error::Invalid(a) => ErrorModel::Invalid(a@),
            Error::Unsupported(a) => ErrorModel::Unsupported(a@),
            Error::Backend(a) => ErrorModel::Backend(a@),
            Error::Cleanup(a) => ErrorModel::Cleanup(a@),
            Error::Cancelled => ErrorModel::Cancelled,
            Error::TimedOut => ErrorModel::TimedOut,
        }
    }
}

impl DeepView for Error {
    type V = ErrorModel;

    open spec fn deep_view(&self) -> ErrorModel {
        self@
    }
}

impl Dup for Error {
    fn dup(&self) -> (r: Self) {
        match self {
            Error::Invalid(a) => Error::Invalid(a.dup()),
            Error::Unsupported(a) => Error::Unsupported(a.dup()),
            Error::Backend(a) => Error::Backend(a.dup()),
            Error::Cleanup(a) => Error::Cleanup(a.dup()),
            Error::Cancelled => Error::Cancelled,
            Error::TimedOut => Error::TimedOut,
        }
    }
}

impl ErrorModel {
    /// The sentence that reports the error.
    pub open spec fn message(self) -> Text {
        match self {
            ErrorModel::Invalid(detail) => "invalid automation configuration: "@ + detail,
            ErrorModel::Unsupported(detail) => "unsupported capability: "@ + detail,
            ErrorModel::Backend(detail) => "backend failed: "@ + detail,
            ErrorModel::Cleanup(detail) => "input cleanup failed: "@ + detail,
            ErrorModel::Cancelled => "cancelled"@,
            ErrorModel::TimedOut => "node timed out"@,
        }
    }
}

impl Error {
    /// The sentence that reports the error.
    pub fn message(&self) -> (r: String)
        ensures
            r@ == self@.message(),
    {
        match self {
            Error::Invalid(detail) => text::cat2(
                "invalid automation configuration: ",
                detail.as_str(),
            ),
            Error::Unsupported(detail) => text::cat2("unsupported capability: ", detail.as_str()),
            Error::Backend(detail) => text::cat2("backend failed: ", detail.as_str()),
            Error::Cleanup(detail) => text::cat2("input cleanup failed: ", detail.as_str()),
            Error::Cancelled => "cancelled".to_owned(),
            Error::TimedOut => "node timed out".to_owned(),
        }
    }
}

/// Cancellation and pause of a flow. There is one control for each flow: it has no copies, and
/// the host shares it among capture, recognition and input and hands its state to the library.
#[derive(Debug, PartialEq, Eq, Structural)]
pub struct Control {
    pub cancelled: bool,
    pub pause: PauseState,
}

impl Control {
    /// Neither cancelled nor to be paused.
    pub fn new() -> (r: Self)
        ensures
            r == (Control { cancelled: false, pause: PauseState::Running }),
    {
        Control { cancelled: false, pause: PauseState::Running }
    }

    /// Cancels, for good.
    pub fn cancel(&mut self)
        ensures
            *final(self) == (Control { cancelled: true, ..*old(self) }),
    {
        self.cancelled = true;
    }

    /// Refuses to go on once cancelled.
    pub fn check(&self) -> (r: Result<(), Error>)
        ensures
            match r {
                Ok(()) => !self.cancelled,
                Err(error) => self.cancelled && error@ == ErrorModel::Cancelled,
            },
    {
        if self.cancelled {
            Err(Error::Cancelled)
        } else {
            Ok(())
        }
    }

    /// Asks for a pause; one that is already asked for or confirmed stays as it is.
    pub fn pause(&mut self)
        ensures
            *final(self) == (Control {
                pause: if old(self).pause == PauseState::Running {
                    PauseState::Requested
                } else {
                    old(self).pause
                },
                ..*old(self)
            }),
    {
        self.pause.request();
    }

    /// Ends a pause.
    pub fn resume(&mut self)
        ensures
            *final(self) == (Control { pause: PauseState::Running, ..*old(self) }),
    {
        self.pause.resume();
    }

    /// Whether a pause is asked for or confirmed.
    pub fn is_pause_requested(&self) -> (r: bool)
        ensures
            r == (self.pause != PauseState::Running),
    {
        self.pause.is_requested()
    }

    /// Confirms a pause that is asked for.
    pub fn acknowledge_pause(&mut self)
        ensures
            *final(self) == (Control {
                pause: if old(self).pause == PauseState::Requested {
                    PauseState::Acknowledged
                } else {
                    old(self).pause
                },
                ..*old(self)
            }),
    {
        let _ = self.pause.acknowledge();
    }
}

} // verus!
