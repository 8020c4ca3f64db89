//! What the daemon can say is wrong.

use vstd::prelude::*;

verus! {

pub const IPC_VERSION_MISMATCH: &'static str = "ipc_version_mismatch";

pub const PROTOCOL_ERROR: &'static str = "protocol_error";

pub const DUPLICATE_LOCAL_REF: &'static str = "duplicate_local_ref";

pub const RETIRE_REFUSED: &'static str = "retire_refused";

} // verus!
