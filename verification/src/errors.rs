//! Error taxonomy of the supervisor.

use vstd::prelude::*;

use crate::response::CmdResult;

verus! {

/// What went wrong, with a free-text detail message.
#[derive(Debug)]
pub enum GPGErrorType {
    HomedirError(String),
    OutputDirError(String),
    GPGInitError(String),
    GPGNotFoundError(String),
    GPGProcessError(String),
    InvalidArgumentError(String),
    InvalidReasonCode(String),
    KeyNotSubkey(String),
    FailedToStartProcess(String),
    FailedToRetrieveChildProcess(String),
    WriteFailError(String),
    ReadFailError(String),
    PassphraseError(String),
    FileNotFoundError(String),
    FileNotProvidedError(String),
}

/// An error raised around one engine invocation, optionally carrying
/// the partial outcome for more insight.
#[derive(Debug)]
pub struct GPGError {
    error_type: GPGErrorType,
    cmd_result: Option<CmdResult>,
}

impl GPGError {
    /// The kind of this error.
    pub closed spec fn spec_error_type(&self) -> GPGErrorType {
        self.error_type
    }

    /// The partial outcome attached to this error, if any.
    pub closed spec fn spec_cmd_result(&self) -> Option<CmdResult> {
        self.cmd_result
    }

    pub fn new(error_type: GPGErrorType, cmd_result: Option<CmdResult>) -> (r: GPGError)
        ensures
            r.spec_error_type() == error_type,
            r.spec_cmd_result() == cmd_result,
    {
        GPGError { error_type, cmd_result }
    }
}

} // verus!
