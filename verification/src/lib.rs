//! Supervisor-side logic for an external OpenPGP command-line engine.
//!
//! The crate decodes the engine's two structured output protocols (the
//! line-oriented status channel and the colon-delimited key listing),
//! classifies command outcomes, assembles the fixed part of the
//! engine's argument vector and reads the engine's reported version.
//! Process spawning and pipe handling live outside the library; the
//! decoders here work on the drained data.

pub mod args;
pub mod enums;
pub mod errors;
pub mod listkey;
pub mod response;
pub mod text;
pub mod utils;
pub mod version;

pub use enums::{DeleteProblem, Operation, TrustLevel};
pub use errors::{GPGError, GPGErrorType};
pub use listkey::{ListKey, ListKeyResult, Subkey};
pub use response::{CmdResult, Problem};
pub use utils::decode_list_key_result;
pub use version::GpgVersion;
