//! Command-line authentication and secret-vault logic for infinigit, verified with Verus.
use vstd::prelude::*;

pub mod args;
pub mod command;
pub mod dotenv;
pub mod fmt;
pub mod laws;
pub mod names;
pub mod process;
pub mod secrets;
pub mod session;
pub mod text;
pub mod vault;
pub mod vault_laws;
pub mod vault_session;
pub mod vetkeys;

verus! {

} // verus!
