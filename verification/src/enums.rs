//! Operation tags, owner-trust levels and the delete-problem code table.

use vstd::prelude::*;

use crate::text::dec_rep;

verus! {

/// Identifies which high-level command produced a `CmdResult`.  The status
/// decoder consults this tag for operation-specific interpretation rules
/// (the secret-key-export exception to the `FAILURE` keyword).
#[derive(Debug, Clone, Copy, PartialEq, Eq, Structural)]
pub enum Operation {
    NotSet,
    Verify,
    GenerateKey,
    ListKey,
    DeleteKey,
    SearchKey,
    AddSubKey,
    RevokeKey,
    ImportKey,
    TrustKey,
    SignKey,
    ExportPublicKey,
    ExportSecretKey,
    Encrypt,
    Decrypt,
    Sign,
    VerifyFile,
}

/// Owner-trust levels, in the engine's ownertrust-import encoding.
#[derive(Debug, Clone, Copy)]
pub enum TrustLevel {
    Expired,
    Undefined,
    Never,
    Marginal,
    Fully,
    Ultimate,
}

impl TrustLevel {
    /// The numeric value used on an ownertrust-import line.
    pub open spec fn spec_value(&self) -> u8 {
        match self {
            TrustLevel::Expired => 1,
            TrustLevel::Undefined => 2,
            TrustLevel::Never => 3,
            TrustLevel::Marginal => 4,
            TrustLevel::Fully => 5,
            TrustLevel::Ultimate => 6,
        }
    }

    pub fn value(&self) -> (v: u8)
        ensures
            v == self.spec_value(),
    {
        match self {
            TrustLevel::Expired => 1,
            TrustLevel::Undefined => 2,
            TrustLevel::Never => 3,
            TrustLevel::Marginal => 4,
            TrustLevel::Fully => 5,
            TrustLevel::Ultimate => 6,
        }
    }
}

/// Conflicts reported by the engine's `DELETE_PROBLEM` status keyword.
#[derive(Debug, Clone, Copy)]
pub enum DeleteProblem {
    NoKey,
    SecretFirst,
    AmbiguousSpecification,
    KeyOnSmartCard,
}

/// The message recorded for a `DELETE_PROBLEM` status event with
/// numeric reason code `value`.
pub open spec fn delete_problem_message(value: u8) -> Seq<char> {
    if value == 1 {
        "No Such Key"@
    } else if value == 2 {
        "Must delete secret key first"@
    } else if value == 3 {
        "Ambiguous specification"@
    } else if value == 4 {
        "Key is stored on a smartcard."@
    } else {
        "Unknown error: "@ + dec_rep(value as nat)
    }
}

impl DeleteProblem {
    /// Map the engine's numeric delete-problem code to its message.
    pub fn from_int(value: u8) -> (r: String)
        ensures
            r@ == delete_problem_message(value),
    {
        if value == 1 {
            String::from_str("No Such Key")
        } else if value == 2 {
            String::from_str("Must delete secret key first")
        } else if value == 3 {
            String::from_str("Ambiguous specification")
        } else if value == 4 {
            String::from_str("Key is stored on a smartcard.")
        } else {
            let mut r = String::from_str("Unknown error: ");
            let digits = crate::text::u8_to_dec(value);
            r.append(digits.as_str());
            r
        }
    }
}

} // verus!
