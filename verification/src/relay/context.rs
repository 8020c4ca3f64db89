//! What is settled about a request before its handler runs: who the client is, whether
//! its transport is secure, and how much it may send.

use crate::relay::error::{code, outcome, ApiError, ApiResult, Refusal};
use crate::text;
use crate::text::{decimal, lowered, number, option_view, split_on, trimmed};
use vstd::arithmetic::power2::*;
use vstd::prelude::*;

verus! {

/// A network address.
#[derive(Debug, Clone, Copy, PartialEq, Eq, Structural)]
pub enum Address {
    V4(u32),
    V6(u128),
}

impl Address {
    /// The address stands for the machine itself: `127.0.0.0/8`, or `::1`.
    pub open spec fn loops_back(self) -> bool {
        match self {
            Address::V4(bits) => bits / 0x100_0000 == 127,
            Address::V6(bits) => bits == 1,
        }
    }

    pub fn is_loopback(&self) -> (loopback: bool)
        ensures
            loopback == self.loops_back(),
    {
        match self {
            Address::V4(bits) => *bits / 0x100_0000 == 127,
            Address::V6(bits) => *bits == 1,
        }
    }
}

/// A block of addresses: those that agree with `address` in the first `prefix` bits.
#[derive(Debug, Clone, Copy, PartialEq, Eq, Structural)]
pub struct Network {
    pub address: Address,
    pub prefix: u8,
}

/// The first `prefix` of `width` bits agree.
pub open spec fn same_front(a: nat, b: nat, prefix: nat, width: nat) -> bool {
    prefix <= width && a / pow2((width - prefix) as nat) == b / pow2((width - prefix) as nat)
}

impl Network {
    /// The addresses of a block. No block holds addresses of both families.
    pub open spec fn holds(self, candidate: Address) -> bool {
        match (self.address, candidate) {
            (Address::V4(a), Address::V4(b)) => same_front(a as nat, b as nat, self.prefix as nat, 32),
            (Address::V6(a), Address::V6(b)) => same_front(
                a as nat,
                b as nat,
                self.prefix as nat,
                128,
            ),
            _ => false,
        }
    }

    pub fn contains(&self, candidate: Address) -> (inside: bool)
        ensures
            inside == self.holds(candidate),
    {
        match (self.address, candidate) {
            (Address::V4(a), Address::V4(b)) => front_matches(
                a as u128,
                b as u128,
                self.prefix,
                32,
            ),
            (Address::V6(a), Address::V6(b)) => front_matches(a, b, self.prefix, 128),
            _ => false,
        }
    }
}

/// Halves both values until only the first `prefix` of `width` bits are left.
fn front_matches(a: u128, b: u128, prefix: u8, width: u8) -> (same: bool)
    ensures
        same == same_front(a as nat, b as nat, prefix as nat, width as nat),
{
    if prefix > width {
        return false;
    }
    let mut left: u128 = a;
    let mut right: u128 = b;
    let mut dropped: u8 = 0;
    proof {
        lemma2_to64();
    }
    while dropped < width - prefix
        invariant
            dropped <= width - prefix,
            prefix <= width,
            left as nat == a as nat / pow2(dropped as nat),
            right as nat == b as nat / pow2(dropped as nat),
        decreases width - prefix - dropped,
    {
        proof {
            lemma_halve(a as nat, dropped as nat);
            lemma_halve(b as nat, dropped as nat);
        }
        left = left / 2;
        right = right / 2;
        dropped = dropped + 1;
    }
    left == right
}

/// Dropping one more bit is halving once more.
proof fn lemma_halve(n: nat, bits: nat)
    ensures
        n / pow2((bits + 1) as nat) == (n / pow2(bits)) / 2,
{
    lemma_pow2_unfold((bits + 1) as nat);
    lemma_pow2_pos(bits);
    vstd::arithmetic::div_mod::lemma_div_denominator(n as int, pow2(bits) as int, 2);
    assert(pow2((bits + 1) as nat) == pow2(bits) * 2) by (nonlinear_arith)
        requires
            pow2((bits + 1) as nat) == 2 * pow2(bits),
    ;
}

/// An address falls inside one of the blocks.
pub open spec fn is_inside(networks: Seq<Network>, candidate: Address) -> bool {
    exists|i: int| 0 <= i < networks.len() && #[trigger] networks[i].holds(candidate)
}

/// Whether an address falls inside any of the configured blocks.
pub fn in_networks(networks: &[Network], candidate: Address) -> (inside: bool)
    ensures
        inside == is_inside(networks@, candidate),
{
    let mut index: usize = 0;
    while index < networks.len()
        invariant
            index <= networks@.len(),
            forall|i: int| 0 <= i < index ==> !(#[trigger] networks@[i].holds(candidate)),
        decreases networks@.len() - index,
    {
        if networks[index].contains(candidate) {
            return true;
        }
        index = index + 1;
    }
    false
}

/// What is known of a connection: its peer, and whether TLS was terminated here.
#[derive(Debug, Clone, Copy, PartialEq, Eq, Structural)]
pub struct ConnMeta {
    pub peer: Address,
    pub tls: bool,
}

/// The connection as far as it is known: one without facts comes from nowhere, in the
/// clear.
pub open spec fn connection(conn: Option<ConnMeta>) -> ConnMeta {
    match conn {
        Some(conn) => conn,
        None => ConnMeta { peer: Address::V4(0), tls: false },
    }
}

/// The left-most entry of a forwarded header, which is that of the original client.
pub open spec fn leftmost(header: Seq<char>) -> Seq<char> {
    trimmed(split_on(header, ',')[0])
}

/// The left-most entry of a forwarded header.
pub fn first_entry(header: &str) -> (entry: String)
    ensures
        entry@ == leftmost(header@),
{
    let pieces = text::split(header, ',');
    assert(pieces@.len() == text::texts(pieces@).len());
    assert(text::texts(pieces@)[0] == pieces@[0]@);
    text::trim(pieces[0].as_str())
}

/// A forwarded-protocol header says that the client came over TLS.
pub open spec fn says_https(header: Option<Seq<char>>) -> bool {
    header is Some && lowered(leftmost(header->0)) == "https"@
}

/// Who the client is, and whether its transport is secure. Forwarded headers count only
/// where the immediate peer is a trusted proxy.
pub open spec fn resolved_client(
    conn: Option<ConnMeta>,
    trusted: bool,
    forwarded_for: Option<Address>,
    forwarded_proto: Option<Seq<char>>,
) -> (Address, bool) {
    let conn = connection(conn);
    if !trusted {
        (conn.peer, conn.tls)
    } else {
        (
            match forwarded_for {
                Some(address) => address,
                None => conn.peer,
            },
            conn.tls || says_https(forwarded_proto),
        )
    }
}

/// Resolves the effective client address, honouring forwarded headers only when the
/// immediate peer is a configured trusted proxy. `forwarded_for` is the address that the
/// left-most entry of the forwarded-for header states, if it states one.
pub fn resolve_client(
    conn: Option<ConnMeta>,
    proxy_enabled: bool,
    proxy_networks: &[Network],
    forwarded_for: Option<Address>,
    forwarded_proto: &Option<String>,
) -> (client: (Address, bool))
    ensures
        client == resolved_client(
            conn,
            proxy_enabled && is_inside(proxy_networks@, connection(conn).peer),
            forwarded_for,
            option_view(*forwarded_proto),
        ),
{
    let conn: ConnMeta = match conn {
        Some(conn) => conn,
        None => ConnMeta { peer: Address::V4(0), tls: false },
    };
    if !proxy_enabled {
        return (conn.peer, conn.tls);
    }
    if !in_networks(proxy_networks, conn.peer) {
        return (conn.peer, conn.tls);
    }
    let client: Address = match forwarded_for {
        Some(address) => address,
        None => conn.peer,
    };
    let secure: bool = conn.tls || match forwarded_proto {
        Some(header) => text::same(
            text::to_lower(first_entry(header.as_str()).as_str()).as_str(),
            "https",
        ),
        None => false,
    };
    (client, secure)
}

/// A request may be served over the transport that it came by.
pub open spec fn transport_allowed(
    secure: bool,
    require_secure: bool,
    terminated: bool,
    allow_loopback: bool,
    client: Address,
) -> bool {
    secure || !require_secure || terminated || (allow_loopback && client.loops_back())
}

/// The refusal of plain HTTP.
pub open spec fn insecure_refusal() -> Refusal {
    Refusal::new(
        403,
        code::INSECURE_TRANSPORT@,
        "this endpoint requires TLS; enable server.tls_enabled or run behind a trusted TLS-terminating proxy"@,
    )
}

/// Plain HTTP is refused, with an exemption for the machine itself and one for trusted
/// terminators that forward raw TCP: those set no forwarded header, so the only evidence
/// is where the connection came from.
pub fn enforce_transport(
    secure: bool,
    require_secure: bool,
    terminated_by: &[Network],
    allow_loopback: bool,
    client: Address,
) -> (result: ApiResult<()>)
    ensures
        outcome(result) == (if transport_allowed(
            secure,
            require_secure,
            exists|i: int|
                0 <= i < terminated_by@.len() && #[trigger] terminated_by@[i].holds(client),
            allow_loopback,
            client,
        ) {
            Ok::<(), Refusal>(())
        } else {
            Err(insecure_refusal())
        }),
{
    if secure || !require_secure {
        return Ok(());
    }
    if in_networks(terminated_by, client) {
        return Ok(());
    }
    if allow_loopback && client.is_loopback() {
        return Ok(());
    }
    Err(
        ApiError::new(
            403,
            code::INSECURE_TRANSPORT,
            "this endpoint requires TLS; enable server.tls_enabled or run behind a trusted TLS-terminating proxy",
        ),
    )
}

/// The refusal of a request that announces a body over the limit.
pub open spec fn body_refusal(content_length: Option<Seq<char>>, limit: u64) -> Option<Refusal> {
    match content_length {
        None => None,
        Some(header) => match number(header) {
            None => None,
            Some(length) => if length > limit {
                Some(
                    Refusal::new(
                        413,
                        code::PAYLOAD_TOO_LARGE@,
                        "request body of "@ + decimal(length as nat) + " bytes exceeds the "@
                            + decimal(limit as nat) + " byte limit"@,
                    ),
                )
            } else {
                None
            },
        },
    }
}

/// Refuses a request that announces a body over the limit. One that announces nothing
/// readable passes here: a hard ceiling applies while it is read.
pub fn enforce_body_limit(content_length: &Option<String>, limit: u64) -> (result: ApiResult<()>)
    ensures
        outcome(result) == (match body_refusal(option_view(*content_length), limit) {
            Some(refusal) => Err::<(), Refusal>(refusal),
            None => Ok(()),
        }),
{
    match content_length {
        None => Ok(()),
        Some(header) => match text::parse_number(header.as_str()) {
            None => Ok(()),
            Some(length) => {
                if length > limit {
                    let message = "request body of ".to_owned().concat(
                        text::decimal_of(length).as_str(),
                    ).concat(" bytes exceeds the ").concat(
                        text::decimal_of(limit).as_str(),
                    ).concat(" byte limit");
                    Err(ApiError::new(413, code::PAYLOAD_TOO_LARGE, message.as_str()))
                } else {
                    Ok(())
                }
            },
        },
    }
}

/// What is settled about transports and sizes.
#[derive(Debug)]
pub struct RequestLimits {
    pub require_secure: bool,
    pub terminated_by: Vec<Network>,
    pub allow_loopback: bool,
    pub max_body_bytes: u64,
}

/// What a request comes to before its handler runs: its transport is looked at first,
/// then what it announces to send.
pub open spec fn admitted(
    secure: bool,
    client: Address,
    content_length: Option<Seq<char>>,
    limits: RequestLimits,
) -> Result<(), Refusal> {
    if !transport_allowed(
        secure,
        limits.require_secure,
        exists|i: int|
            0 <= i < limits.terminated_by@.len() && #[trigger] limits.terminated_by@[i].holds(
                client,
            ),
        limits.allow_loopback,
        client,
    ) {
        Err(insecure_refusal())
    } else {
        match body_refusal(content_length, limits.max_body_bytes) {
            Some(refusal) => Err(refusal),
            None => Ok(()),
        }
    }
}

/// Decides whether a request reaches its handler.
pub fn middleware(
    secure: bool,
    client: Address,
    content_length: &Option<String>,
    limits: &RequestLimits,
) -> (result: ApiResult<()>)
    ensures
        outcome(result) == admitted(secure, client, option_view(*content_length), *limits),
{
    match enforce_transport(
        secure,
        limits.require_secure,
        limits.terminated_by.as_slice(),
        limits.allow_loopback,
        client,
    ) {
        Ok(()) => enforce_body_limit(content_length, limits.max_body_bytes),
        Err(error) => Err(error),
    }
}

/// The seconds that a request may take, if it is bounded: an upgraded connection runs for
/// as long as it lives, so the limit is not for it.
pub fn time_limit(upgrade: &Option<String>, seconds: u64) -> (limit: Option<u64>)
    ensures
        limit == (if option_view(*upgrade) is Some && lowered(option_view(*upgrade)->0)
            == "websocket"@ {
            None::<u64>
        } else {
            Some(seconds)
        }),
{
    match upgrade {
        Some(header) => {
            if text::same(text::to_lower(header.as_str()).as_str(), "websocket") {
                None
            } else {
                Some(seconds)
            }
        },
        None => Some(seconds),
    }
}

/// The refusal of a request that took too long.
pub fn timed_out() -> (error: ApiError)
    ensures
        error@ == Refusal::new(504, code::INTERNAL@, "request exceeded the configured timeout"@),
{
    ApiError::new(504, code::INTERNAL, "request exceeded the configured timeout")
}

/// The refusal of a method that a path does not have.
pub fn method_not_allowed() -> (error: ApiError)
    ensures
        error@ == Refusal::new(405, code::INVALID_REQUEST@, "method not allowed for this path"@),
{
    ApiError::new(405, code::INVALID_REQUEST, "method not allowed for this path")
}

/// A response with this status counts as a failed request.
pub fn is_failure(status: u16) -> (failed: bool)
    ensures
        failed == (400 <= status < 600),
{
    400 <= status && status < 600
}

/// Whom a request turned out to be from, for the access log.
#[derive(Debug, Default)]
pub struct PrincipalLog {
    pub principal: Option<String>,
}

impl PrincipalLog {
    /// Notes the principal.
    pub fn set(&mut self, principal: &str)
        ensures
            option_view(final(self).principal) == Some(principal@),
    {
        self.principal = Some(principal.to_owned());
    }

    /// The principal as the log shows it.
    pub fn get(&self) -> (shown: String)
        ensures
            shown@ == (match option_view(self.principal) {
                Some(principal) => principal,
                None => "-"@,
            }),
    {
        match &self.principal {
            Some(principal) => principal.as_str().to_owned(),
            None => "-".to_owned(),
        }
    }
}

/// A peer that is no trusted proxy cannot pass for another client, nor for a secure one,
/// whatever its headers say.
pub proof fn law_untrusted_peers_are_not_believed(
    conn: ConnMeta,
    forwarded_for: Option<Address>,
    forwarded_proto: Option<Seq<char>>,
)
    ensures
        resolved_client(Some(conn), false, forwarded_for, forwarded_proto) == (conn.peer, conn.tls),
{
}

/// Plain HTTP from another machine is refused where secure transport is required and no
/// trusted terminator vouches for it.
pub proof fn law_plain_transport_is_refused(allow_loopback: bool, client: Address)
    requires
        !client.loops_back(),
    ensures
        !transport_allowed(false, true, false, allow_loopback, client),
{
}

} // verus!
