//! The authorities that a credential can carry.
//!
//! Which set a principal may hold depends on its kind and, for devices, on its role, so
//! that no configuration can hand a publisher identity-level authority or a client the
//! ability to publish.

use vstd::prelude::*;

verus! {

pub const DEVICES_READ: &'static str = "devices:read";

pub const DEVICES_WRITE: &'static str = "devices:write";

pub const TERMINALS_READ: &'static str = "terminals:read";

pub const TERMINALS_MIRROR: &'static str = "terminals:mirror";

/// Authority to send terminal input, distinct from reading it.
pub const TERMINALS_INPUT: &'static str = "terminals:input";

/// Authority to ask a publishing device to open a terminal.
///
/// Equal in gravity to `TERMINALS_INPUT`: a credential holding both is shell-equivalent
/// on the publishing machine. No principal holds it by default.
pub const TERMINALS_CREATE: &'static str = "terminals:create";

pub const TERMINALS_WRITE: &'static str = "terminals:write";

pub const TERMINALS_PUBLISH: &'static str = "terminals:publish";

pub const ALL: [&'static str; 8] = [
    DEVICES_READ,
    DEVICES_WRITE,
    TERMINALS_READ,
    TERMINALS_MIRROR,
    TERMINALS_INPUT,
    TERMINALS_CREATE,
    TERMINALS_WRITE,
    TERMINALS_PUBLISH,
];

/// An identity manages its devices and reads or writes its own terminals.
pub const IDENTITY_ALLOWED: [&'static str; 6] = [
    DEVICES_READ,
    DEVICES_WRITE,
    TERMINALS_READ,
    TERMINALS_MIRROR,
    TERMINALS_INPUT,
    TERMINALS_CREATE,
];

/// A publisher device may only manage and publish its own terminals.
pub const PUBLISHER_ALLOWED: [&'static str; 2] = [TERMINALS_WRITE, TERMINALS_PUBLISH];

/// A client device may only read and write terminals owned by its identity and, where an
/// operator grants it, list that identity's devices and ask one of them to open a
/// terminal. Neither of the last two is granted by default.
pub const CLIENT_ALLOWED: [&'static str; 5] = [
    DEVICES_READ,
    TERMINALS_READ,
    TERMINALS_MIRROR,
    TERMINALS_INPUT,
    TERMINALS_CREATE,
];

/// A publisher's authorities are nobody else's: no identity and no client can publish,
/// and no publisher can read, mirror, write to or create a terminal, or manage a device.
pub proof fn law_publishing_is_for_publishers(i: int)
    requires
        0 <= i < PUBLISHER_ALLOWED@.len(),
    ensures
        forall|j: int| 0 <= j < 6 ==> #[trigger] IDENTITY_ALLOWED@[j]@ != PUBLISHER_ALLOWED@[i]@,
        forall|j: int| 0 <= j < 5 ==> #[trigger] CLIENT_ALLOWED@[j]@ != PUBLISHER_ALLOWED@[i]@,
{
    reveal_strlit("devices:read");
    reveal_strlit("devices:write");
    reveal_strlit("terminals:read");
    reveal_strlit("terminals:mirror");
    reveal_strlit("terminals:input");
    reveal_strlit("terminals:create");
    reveal_strlit("terminals:write");
    reveal_strlit("terminals:publish");
    assert(TERMINALS_WRITE@[10] == 'w');
    assert(TERMINALS_PUBLISH@[10] == 'p');
    assert(TERMINALS_READ@[10] == 'r');
    assert(TERMINALS_MIRROR@[10] == 'm');
    assert(TERMINALS_INPUT@[10] == 'i');
    assert(TERMINALS_CREATE@[10] == 'c');
    assert(DEVICES_READ@[0] == 'd');
    assert(DEVICES_WRITE@[0] == 'd');
}

} // verus!
