//! WebSocket connections: tickets, authentication and the checks before an upgrade.
//!
//! Authentication, authorisation, scope and limit checks all come before the upgrade, so
//! an unauthorised client never reaches a WebSocket at all.

use crate::encoding::is_digest_text;
use crate::ids::{uuid_text, uuid_value, Uuid};
use crate::json;
use crate::json::{json_string, object_text};
use crate::relay::auth::{
    answer_view, bearer_of, disabled, header_token, missing_scope, principal_of, revoked_refusal,
    Auth,
};
use crate::relay::crypto::{
    hash_ticket, new_ticket, scope, stored_hash, Claims, DeviceRole, PrincipalKind, TokenClaims,
};
use crate::relay::error::{code, ApiError, ApiResult, Refusal};
use crate::relay::repo::{expiry, insert_ticket, Device, StoredTicket, TerminalRow, TicketRecord};
use crate::relay::step::{step_view, Step, StepModel};
use crate::text;
use crate::text::{
    option_view, spaced, split_at_first, split_on, texts, trimmed, without_leading,
};
use vstd::prelude::*;

verus! {

/// A path that leads to a WebSocket.
#[derive(Debug, Clone, Copy, PartialEq, Eq, Structural)]
pub enum WsPath {
    Relay(Uuid),
    Mirror(Uuid),
}

/// The WebSocket that a path leads to, given the parts of the path and the identifier in
/// it.
pub open spec fn ws_path(parts: Seq<Seq<char>>, id: Option<u128>) -> Option<WsPath> {
    if parts.len() == 4 && parts[0] == "v1"@ && id is Some {
        if parts[1] == "devices"@ && parts[3] == "relay"@ {
            Some(WsPath::Relay(Uuid { value: id->0 }))
        } else if parts[1] == "terminals"@ && parts[3] == "mirror"@ {
            Some(WsPath::Mirror(Uuid { value: id->0 }))
        } else {
            None
        }
    } else {
        None
    }
}

/// The parts of a path.
pub open spec fn path_parts(path: Seq<char>) -> Seq<Seq<char>> {
    split_on(without_leading(path, '/'), '/')
}

/// The WebSocket that the parts of a path lead to.
pub fn classify_ws_path(parts: &Vec<String>, id: Option<Uuid>) -> (found: Option<WsPath>)
    ensures
        found == ws_path(
            texts(parts@),
            match id {
                Some(id) => Some(id.value),
                None => None,
            },
        ),
{
    let id = match id {
        Some(id) => id,
        None => return None,
    };
    if parts.len() != 4 {
        return None;
    }
    proof {
        let t = texts(parts@);
        assert(t[0] == parts@[0]@ && t[1] == parts@[1]@ && t[3] == parts@[3]@);
    }
    if !text::same(parts[0].as_str(), "v1") {
        return None;
    }
    if text::same(parts[1].as_str(), "devices") && text::same(parts[3].as_str(), "relay") {
        Some(WsPath::Relay(id))
    } else if text::same(parts[1].as_str(), "terminals") && text::same(
        parts[3].as_str(),
        "mirror",
    ) {
        Some(WsPath::Mirror(id))
    } else {
        None
    }
}

/// The WebSocket that a path leads to, if it leads to one.
pub fn parse_ws_path(path: &str) -> (found: Option<WsPath>)
    ensures
        found == ws_path(
            path_parts(path@),
            if path_parts(path@).len() == 4 {
                uuid_value(path_parts(path@)[2])
            } else {
                None
            },
        ),
{
    let rest = text::trim_start_matches(path, '/');
    let parts = text::split(rest.as_str(), '/');
    let id = if parts.len() == 4 {
        assert(texts(parts@)[2] == parts@[2]@);
        Uuid::parse_str(parts[2].as_str())
    } else {
        None
    };
    classify_ws_path(&parts, id)
}

/// The value of a cookie among the pieces of a cookie header.
pub open spec fn cookie_among(pieces: Seq<Seq<char>>, name: Seq<char>) -> Option<Seq<char>>
    decreases pieces.len(),
{
    if pieces.len() == 0 {
        None
    } else {
        match split_at_first(trimmed(pieces[0]), '=') {
            Some((key, value)) => if key == name {
                Some(trimmed(value))
            } else {
                cookie_among(pieces.drop_first(), name)
            },
            None => cookie_among(pieces.drop_first(), name),
        }
    }
}

/// The value of a cookie, if the header holds it.
pub open spec fn cookie_in(header: Option<Seq<char>>, name: Seq<char>) -> Option<Seq<char>> {
    match header {
        Some(header) => cookie_among(split_on(header, ';'), name),
        None => None,
    }
}

/// The value of a cookie, by its name. The first one of that name counts.
pub fn cookie_value(header: &Option<String>, name: &str) -> (value: Option<String>)
    ensures
        option_view(value) == cookie_in(option_view(*header), name@),
{
    match header {
        Some(header) => find_cookie(&text::split(header.as_str(), ';'), name),
        None => None,
    }
}

fn find_cookie(pieces: &Vec<String>, name: &str) -> (value: Option<String>)
    ensures
        option_view(value) == cookie_among(texts(pieces@), name@),
{
    let ghost model = texts(pieces@);
    let mut index: usize = 0;
    assert(model.skip(0) =~= model);
    while index < pieces.len()
        invariant
            index <= pieces@.len(),
            model == texts(pieces@),
            cookie_among(model, name@) == cookie_among(model.skip(index as int), name@),
        decreases pieces@.len() - index,
    {
        proof {
            assert(model.skip(index as int)[0] == pieces@[index as int]@);
            assert(model.skip(index as int).drop_first() =~= model.skip(index + 1));
        }
        let piece = text::trim(pieces[index].as_str());
        match text::split_once(piece.as_str(), '=') {
            Some((key, value)) => {
                if text::same(key.as_str(), name) {
                    return Some(text::trim(value.as_str()));
                }
            },
            None => {},
        }
        index = index + 1;
    }
    None
}

/// Asks for a terminal.
#[derive(Debug, Clone, Copy, PartialEq, Eq, Structural)]
pub struct FindTerminal {
    pub terminal_id: Uuid,
}

impl View for FindTerminal {
    type V = FindTerminal;

    open spec fn view(&self) -> FindTerminal {
        *self
    }
}

/// What a request for a ticket comes to. `path` is the requested path without the white
/// space around it, and `target` where it leads; `owner` is the owning identity of the
/// terminal there, if there is one.
pub open spec fn requested_ticket(
    auth: Auth<Seq<char>, Seq<Seq<char>>>,
    path: Seq<char>,
    target: Option<WsPath>,
    owner: Option<Option<Seq<char>>>,
) -> StepModel<FindTerminal, Seq<char>> {
    match target {
        None => StepModel::Refuse(
            Refusal::validation(
                "path must be /v1/devices/{device_id}/relay or /v1/terminals/{terminal_id}/mirror"@,
            ),
        ),
        Some(WsPath::Relay(device)) => if auth.scopes.contains(scope::TERMINALS_PUBLISH@)
            && auth.kind == PrincipalKind::Device && auth.principal_id == uuid_text(
            device.value,
        ) {
            StepModel::Done(path)
        } else {
            StepModel::Refuse(Refusal::not_found())
        },
        Some(WsPath::Mirror(terminal_id)) => if !auth.scopes.contains(scope::TERMINALS_MIRROR@) {
            StepModel::Refuse(Refusal::not_found())
        } else {
            match owner {
                None => StepModel::Ask(FindTerminal { terminal_id }),
                Some(None) => StepModel::Refuse(Refusal::not_found()),
                Some(Some(owner)) => if owner == auth.identity_id {
                    StepModel::Done(path)
                } else {
                    StepModel::Refuse(Refusal::not_found())
                },
            }
        },
    }
}

/// Decides on a ticket for a path that has been read.
pub fn grant_ticket(
    auth: &Auth,
    path: String,
    target: Option<WsPath>,
    terminal: &Option<Option<TerminalRow>>,
) -> (step: Step<FindTerminal, String>)
    ensures
        step_view(step) == requested_ticket(
            auth@,
            path@,
            target,
            match terminal {
                Some(Some(row)) => Some(Some(row.identity_id@)),
                Some(None) => Some(None),
                None => None,
            },
        ),
{
    let target = match target {
        Some(target) => target,
        None => return Step::Refuse(
            ApiError::validation(
                "path must be /v1/devices/{device_id}/relay or /v1/terminals/{terminal_id}/mirror",
            ),
        ),
    };
    match target {
        WsPath::Relay(device) => {
            let is_device: bool = matches!(auth.kind, PrincipalKind::Device);
            if auth.require_scope(scope::TERMINALS_PUBLISH).is_ok() && is_device && text::same(
                auth.principal_id.as_str(),
                device.to_text().as_str(),
            ) {
                Step::Done(path)
            } else {
                Step::Refuse(ApiError::not_found())
            }
        },
        WsPath::Mirror(terminal_id) => {
            if auth.require_scope(scope::TERMINALS_MIRROR).is_err() {
                return Step::Refuse(ApiError::not_found());
            }
            match terminal {
                None => Step::Ask(FindTerminal { terminal_id }),
                Some(None) => Step::Refuse(ApiError::not_found()),
                Some(Some(row)) => {
                    if text::same(row.identity_id.as_str(), auth.identity_id.as_str()) {
                        Step::Done(path)
                    } else {
                        Step::Refuse(ApiError::not_found())
                    }
                },
            }
        },
    }
}

/// A request for a ticket.
#[derive(Debug)]
pub struct TicketRequest {
    /// The exact path that the ticket may be used for.
    pub path: String,
}

/// Grants a ticket for exactly one path, and only to a caller that may use that path
/// already: a device its own relay connection, and the owner of a terminal its mirror.
/// Whoever may not is told that there is nothing there.
pub fn create_websocket_ticket(
    auth: &Auth,
    request: &TicketRequest,
    terminal: &Option<Option<TerminalRow>>,
) -> (step: Step<FindTerminal, String>)
    ensures
        ({
            let path = trimmed(request.path@);
            let parts = path_parts(path);
            step_view(step) == requested_ticket(
                auth@,
                path,
                ws_path(
                    parts,
                    if parts.len() == 4 {
                        uuid_value(parts[2])
                    } else {
                        None
                    },
                ),
                match terminal {
                    Some(Some(row)) => Some(Some(row.identity_id@)),
                    Some(None) => Some(None),
                    None => None,
                },
            )
        }),
{
    let path = text::trim(request.path.as_str());
    let target = parse_ws_path(path.as_str());
    grant_ticket(auth, path, target, terminal)
}

/// Makes a ticket for a path that was granted: the ticket that is handed out, what is
/// stored under its hash, and when it expires, which is `ttl_seconds` from now.
pub fn issue_ticket(auth: &Auth, path: &str, now: i64, ttl_seconds: i64) -> (issued: (
    String,
    String,
    StoredTicket,
))
    requires
        i64::MIN <= now + ttl_seconds * 1000 <= i64::MAX,
    ensures
        is_digest_text(issued.0@),
        issued.1@ == stored_hash(issued.0@),
        issued.2@ == (StoredTicket {
            principal_kind: auth.kind.word(),
            principal_id: auth@.principal_id,
            identity_id: auth@.identity_id,
            path: path@,
            scopes: spaced(auth@.scopes),
            expires_at: Some((now + ttl_seconds * 1000) as i64),
            consumed: false,
        }),
{
    let (ticket, hash) = new_ticket();
    let row = insert_ticket(
        auth.kind,
        auth.principal_id.as_str(),
        auth.identity_id.as_str(),
        path,
        &auth.scopes,
        expiry(now, ttl_seconds),
    );
    (ticket, hash, row)
}

/// The body that hands a ticket out.
pub fn ticket_json(ticket: &str, path: &str, expires_at: &str) -> (json: String)
    ensures
        json@ == object_text(
            seq![
                ("expires_at"@, json_string(expires_at@)),
                ("path"@, json_string(path@)),
                ("ticket"@, json_string(ticket@)),
            ],
        ),
{
    let list = vec![
        json::member("expires_at", json::string(expires_at)),
        json::member("path", json::string(path)),
        json::member("ticket", json::string(ticket)),
    ];
    assert(json::member_views(list@) =~= seq![
        ("expires_at"@, json_string(expires_at@)),
        ("path"@, json_string(path@)),
        ("ticket"@, json_string(ticket@)),
    ]);
    json::object(&list)
}

/// A caller never learns from a ticket request that somebody else's resource exists: a
/// terminal that is not its own and one that does not exist are refused alike.
pub proof fn law_foreign_terminals_are_not_found(
    auth: Auth<Seq<char>, Seq<Seq<char>>>,
    path: Seq<char>,
    terminal_id: Uuid,
    owner: Seq<char>,
)
    requires
        owner != auth.identity_id,
    ensures
        requested_ticket(auth, path, Some(WsPath::Mirror(terminal_id)), Some(Some(owner)))
            == requested_ticket(auth, path, Some(WsPath::Mirror(terminal_id)), Some(None)),
{
}

/// What authenticating an upgrade still needs to know.
#[derive(Debug)]
pub enum UpgradeQuestion<S = String> {
    /// Use the ticket that is stored under this hash, for the path of the upgrade.
    Ticket(S),
    /// Verify this token.
    Verify(S),
    /// Whether the credentials of this principal have been revoked.
    Revoked(S),
}

impl View for UpgradeQuestion {
    type V = UpgradeQuestion<Seq<char>>;

    open spec fn view(&self) -> UpgradeQuestion<Seq<char>> {
        match self {
            UpgradeQuestion::Ticket(hash) => UpgradeQuestion::Ticket(hash@),
            UpgradeQuestion::Verify(token) => UpgradeQuestion::Verify(token@),
            UpgradeQuestion::Revoked(principal) => UpgradeQuestion::Revoked(principal@),
        }
    }
}

/// The headers of an upgrade that may hold a credential.
#[derive(Debug)]
pub struct UpgradeHeaders {
    pub ticket: Option<String>,
    pub authorization: Option<String>,
    pub cookie: Option<String>,
}

/// The answers to what authenticating an upgrade needs to know.
#[derive(Debug)]
pub struct UpgradeAnswers {
    /// What the ticket stands for, if it was good.
    pub ticket: Option<Option<TicketRecord>>,
    pub claims: Option<ApiResult<TokenClaims>>,
    pub revoked: Option<bool>,
}

/// The ticket of an upgrade: from its own header, or from a cookie.
pub open spec fn ticket_in(ticket: Option<Seq<char>>, cookie: Option<Seq<char>>) -> Option<
    Seq<char>,
> {
    match ticket {
        Some(ticket) => Some(ticket),
        None => cookie_in(cookie, "relay_ticket"@),
    }
}

/// The token of an upgrade: from its `Authorization` header, or from a session cookie.
pub open spec fn token_in(authorization: Option<Seq<char>>, cookie: Option<Seq<char>>) -> Option<
    Seq<char>,
> {
    let bearer = match authorization {
        Some(header) => header_token(header),
        None => None,
    };
    match bearer {
        Some(token) => Some(token),
        None => cookie_in(cookie, "relay_session"@),
    }
}

/// The principal that a ticket stands for.
pub open spec fn ticket_principal(record: TicketRecord<Seq<char>, Seq<Seq<char>>>) -> Auth<
    Seq<char>,
    Seq<Seq<char>>,
> {
    Auth {
        kind: record.principal_kind,
        principal_id: record.principal_id,
        identity_id: record.identity_id,
        scopes: record.scopes,
        jti: Seq::empty(),
    }
}

/// An upgrade's authentication and what it needs to know.
pub type UpgradeStep = StepModel<
    UpgradeQuestion<Seq<char>>,
    Auth<Seq<char>, Seq<Seq<char>>>,
>;

/// What authenticating an upgrade comes to. `ticket` is what is stored of its ticket, if
/// it has one, and `token` its token.
pub open spec fn authenticated_upgrade(
    ticket: Option<Seq<char>>,
    token: Option<Seq<char>>,
    used: Option<Option<TicketRecord<Seq<char>, Seq<Seq<char>>>>>,
    claims: Option<Result<Claims, Refusal>>,
    revoked: Option<bool>,
) -> UpgradeStep {
    match ticket {
        Some(hash) => match used {
            None => StepModel::Ask(UpgradeQuestion::Ticket(hash)),
            Some(None) => StepModel::Refuse(
                Refusal::unauthorized(
                    "websocket ticket is invalid, expired, already used, or not valid for this path"@,
                ),
            ),
            Some(Some(record)) => StepModel::Done(ticket_principal(record)),
        },
        None => match token {
            None => StepModel::Refuse(
                Refusal::unauthorized(
                    "websocket upgrade requires a bearer token, session cookie, or ticket"@,
                ),
            ),
            Some(token) => match claims {
                None => StepModel::Ask(UpgradeQuestion::Verify(token)),
                Some(Err(refusal)) => StepModel::Refuse(refusal),
                Some(Ok(claims)) => match revoked {
                    None => StepModel::Ask(UpgradeQuestion::Revoked(claims.sub)),
                    Some(true) => StepModel::Refuse(revoked_refusal()),
                    Some(false) => StepModel::Done(principal_of(claims)),
                },
            },
        },
    }
}

/// Decides on an upgrade, given the hash of its ticket and its token.
pub fn admit_upgrade(
    ticket: &Option<String>,
    token: &Option<String>,
    answers: &UpgradeAnswers,
) -> (step: Step<UpgradeQuestion, Auth>)
    ensures
        step_view(step) == authenticated_upgrade(
            option_view(*ticket),
            option_view(*token),
            match answers.ticket {
                Some(record) => Some(option_view(record)),
                None => None,
            },
            answer_view(answers.claims),
            answers.revoked,
        ),
{
    match ticket {
        Some(hash) => {
            return match &answers.ticket {
                None => Step::Ask(UpgradeQuestion::Ticket(hash.as_str().to_owned())),
                Some(None) => Step::Refuse(
                    ApiError::unauthorized(
                        "websocket ticket is invalid, expired, already used, or not valid for this path",
                    ),
                ),
                Some(Some(record)) => {
                    let jti = String::new();
                    assert(jti@ =~= Seq::<char>::empty());
                    Step::Done(
                        Auth {
                            kind: record.principal_kind,
                            principal_id: record.principal_id.as_str().to_owned(),
                            identity_id: record.identity_id.as_str().to_owned(),
                            scopes: text::copy_texts(record.scopes.as_slice()),
                            jti,
                        },
                    )
                },
            };
        },
        None => {},
    }
    let token = match token {
        Some(token) => token,
        None => return Step::Refuse(
            ApiError::unauthorized(
                "websocket upgrade requires a bearer token, session cookie, or ticket",
            ),
        ),
    };
    let claims = match &answers.claims {
        None => return Step::Ask(UpgradeQuestion::Verify(token.as_str().to_owned())),
        Some(Err(error)) => return Step::Refuse(error.copy()),
        Some(Ok(claims)) => claims,
    };
    match answers.revoked {
        None => Step::Ask(UpgradeQuestion::Revoked(claims.sub.as_str().to_owned())),
        Some(true) => Step::Refuse(
            ApiError::unauthorized("credential has been revoked").with_code(code::DEVICE_REVOKED),
        ),
        Some(false) => Step::Done(
            Auth {
                kind: claims.principal,
                principal_id: claims.sub.as_str().to_owned(),
                identity_id: claims.identity_id.as_str().to_owned(),
                scopes: text::copy_texts(claims.scopes.as_slice()),
                jti: claims.jti.as_str().to_owned(),
            },
        ),
    }
}

/// Authenticates an upgrade by a single-use ticket, a bearer token or a session cookie.
/// A ticket comes first: it is good for exactly this path and used up by the attempt.
/// Token material is never read from the query string.
pub fn authenticate_upgrade(headers: &UpgradeHeaders, answers: &UpgradeAnswers) -> (step: Step<
    UpgradeQuestion,
    Auth,
>)
    ensures
        step_view(step) == authenticated_upgrade(
            match ticket_in(option_view(headers.ticket), option_view(headers.cookie)) {
                Some(raw) => Some(stored_hash(raw)),
                None => None,
            },
            token_in(option_view(headers.authorization), option_view(headers.cookie)),
            match answers.ticket {
                Some(record) => Some(option_view(record)),
                None => None,
            },
            answer_view(answers.claims),
            answers.revoked,
        ),
{
    let raw = match &headers.ticket {
        Some(ticket) => Some(ticket.as_str().to_owned()),
        None => cookie_value(&headers.cookie, "relay_ticket"),
    };
    let ticket = match raw {
        Some(raw) => Some(hash_ticket(raw.as_str())),
        None => None,
    };
    let bearer = match &headers.authorization {
        Some(header) => bearer_of(header.as_str()),
        None => None,
    };
    let token = match bearer {
        Some(token) => Some(token),
        None => cookie_value(&headers.cookie, "relay_session"),
    };
    admit_upgrade(&ticket, &token, answers)
}

/// Which version of a protocol a connection speaks.
#[derive(Debug, Clone, Copy, PartialEq, Eq, Structural)]
pub enum ProtocolVersion {
    V1,
    V2,
}

impl ProtocolVersion {
    /// Only version 2 carries terminal input.
    pub fn supports_input(&self) -> (supports: bool)
        ensures
            supports == (*self == ProtocolVersion::V2),
    {
        matches!(self, ProtocolVersion::V2)
    }
}

/// A header offers a subprotocol: it is one of its parts, without the white space around
/// it.
pub open spec fn offers(header: Seq<char>, name: Seq<char>) -> bool {
    exists|i: int|
        0 <= i < split_on(header, ',').len() && trimmed(#[trigger] split_on(header, ',')[i])
            == name
}

/// The version that is chosen from an offer, if any can be.
pub open spec fn chosen_version(header: Seq<char>, v1: Seq<char>, v2: Seq<char>) -> Option<
    ProtocolVersion,
> {
    if offers(header, v2) {
        Some(ProtocolVersion::V2)
    } else if offers(header, v1) {
        Some(ProtocolVersion::V1)
    } else {
        None
    }
}

/// The refusal of a connection that offers no known subprotocol.
pub open spec fn no_subprotocol(v1: Seq<char>, v2: Seq<char>) -> Refusal {
    Refusal::invalid(
        "this endpoint requires the "@ + v1 + " or "@ + v2 + " WebSocket subprotocol"@,
    )
}

fn is_offered(header: &str, name: &str) -> (offered: bool)
    ensures
        offered == offers(header@, name@),
{
    let parts = text::split(header, ',');
    let ghost model = split_on(header@, ',');
    let mut index: usize = 0;
    while index < parts.len()
        invariant
            index <= parts@.len(),
            model == texts(parts@),
            model == split_on(header@, ','),
            forall|i: int| 0 <= i < index ==> trimmed(#[trigger] model[i]) != name@,
        decreases parts@.len() - index,
    {
        let part = text::trim(parts[index].as_str());
        assert(model[index as int] == parts@[index as int]@);
        if text::same(part.as_str(), name) {
            assert(trimmed(model[index as int]) == name@);
            return true;
        }
        index = index + 1;
    }
    false
}

/// Negotiate the protocol version, preferring version 2 when the client offers it. A
/// client must name a subprotocol; offering neither is an error rather than a silent
/// downgrade. `offered` is the client's header, empty if it sent none.
pub fn negotiate(offered: &str, v1: &str, v2: &str) -> (result: ApiResult<ProtocolVersion>)
    ensures
        match result {
            Ok(version) => chosen_version(offered@, v1@, v2@) == Some(version),
            Err(error) => chosen_version(offered@, v1@, v2@) is None && error@ == no_subprotocol(
                v1@,
                v2@,
            ),
        },
{
    if is_offered(offered, v2) {
        return Ok(ProtocolVersion::V2);
    }
    if is_offered(offered, v1) {
        return Ok(ProtocolVersion::V1);
    }
    let words = "this endpoint requires the ".to_owned().concat(v1).concat(" or ").concat(
        v2,
    ).concat(" WebSocket subprotocol");
    Err(ApiError::invalid(words.as_str()))
}

/// What an upgrade still needs to know.
#[derive(Debug)]
pub enum ConnectQuestion<S = String> {
    /// Authenticate the upgrade for this path.
    Authenticate(S),
    Device(Uuid),
    Terminal(Uuid),
    /// Whether this principal may connect that often.
    WithinLimit(S),
    /// Whether this principal may have one more connection; if so, take it.
    Connection(S),
}

impl View for ConnectQuestion {
    type V = ConnectQuestion<Seq<char>>;

    open spec fn view(&self) -> ConnectQuestion<Seq<char>> {
        match self {
            ConnectQuestion::Authenticate(path) => ConnectQuestion::Authenticate(path@),
            ConnectQuestion::Device(id) => ConnectQuestion::Device(*id),
            ConnectQuestion::Terminal(id) => ConnectQuestion::Terminal(*id),
            ConnectQuestion::WithinLimit(principal) => ConnectQuestion::WithinLimit(principal@),
            ConnectQuestion::Connection(principal) => ConnectQuestion::Connection(principal@),
        }
    }
}

/// What governs upgrades.
#[derive(Debug)]
pub struct ConnectSettings {
    /// Publishing, or mirroring, is switched on.
    pub enabled: bool,
    pub shutting_down: bool,
    /// Where limits apply, the seconds after which a limited caller may try again.
    pub rate_limit: Option<u64>,
    /// The client's offer of subprotocols, and the names of the two versions.
    pub offered: String,
    pub v1: String,
    pub v2: String,
}

/// The answers to what an upgrade needs to know.
#[derive(Debug)]
pub struct ConnectAnswers {
    pub auth: Option<ApiResult<Auth>>,
    pub device: Option<Option<Device>>,
    pub terminal: Option<Option<TerminalRow>>,
    pub within_limit: Option<bool>,
    pub connection: Option<bool>,
}

/// The refusal of new connections while shutting down.
pub open spec fn shutting_down_refusal() -> Refusal {
    Refusal::new(
        503,
        code::NOT_READY@,
        "server is shutting down and is not accepting new connections"@,
    )
}

/// What is wrong with an upgrade before anything is looked up, or its version.
pub open spec fn gate(
    enabled: bool,
    message: Seq<char>,
    shutting_down: bool,
    offered: Seq<char>,
    v1: Seq<char>,
    v2: Seq<char>,
) -> Result<ProtocolVersion, Refusal> {
    if !enabled {
        Err(disabled(message))
    } else if shutting_down {
        Err(shutting_down_refusal())
    } else {
        match chosen_version(offered, v1, v2) {
            Some(version) => Ok(version),
            None => Err(no_subprotocol(v1, v2)),
        }
    }
}

fn pass_gate(settings: &ConnectSettings, message: &str) -> (result: ApiResult<ProtocolVersion>)
    ensures
        match result {
            Ok(version) => gate(
                settings.enabled,
                message@,
                settings.shutting_down,
                settings.offered@,
                settings.v1@,
                settings.v2@,
            ) == Ok::<ProtocolVersion, Refusal>(version),
            Err(error) => gate(
                settings.enabled,
                message@,
                settings.shutting_down,
                settings.offered@,
                settings.v1@,
                settings.v2@,
            ) == Err::<ProtocolVersion, Refusal>(error@),
        },
{
    if !settings.enabled {
        return Err(ApiError::new(403, code::FEATURE_DISABLED, message));
    }
    if settings.shutting_down {
        return Err(
            ApiError::new(
                503,
                code::NOT_READY,
                "server is shutting down and is not accepting new connections",
            ),
        );
    }
    negotiate(settings.offered.as_str(), settings.v1.as_str(), settings.v2.as_str())
}

/// What holding a principal against its connection limits comes to.
pub open spec fn connection_limits(
    principal: Seq<char>,
    rate_limit: Option<u64>,
    within_limit: Option<bool>,
    connection: Option<bool>,
) -> StepModel<ConnectQuestion<Seq<char>>, ()> {
    if rate_limit is Some && within_limit is None {
        StepModel::Ask(ConnectQuestion::WithinLimit(principal))
    } else if rate_limit is Some && !within_limit->0 {
        StepModel::Refuse(Refusal::rate_limited(rate_limit->0))
    } else {
        match connection {
            None => StepModel::Ask(ConnectQuestion::Connection(principal)),
            Some(true) => StepModel::Done(()),
            Some(false) => StepModel::Refuse(
                Refusal::limit_exceeded(
                    "this principal already has the maximum number of open connections"@,
                ),
            ),
        }
    }
}

/// Holds a principal against its connection limits: how often it connects, and how many
/// connections it has.
pub fn check_connection_limits(
    principal: &str,
    rate_limit: Option<u64>,
    within_limit: Option<bool>,
    connection: Option<bool>,
) -> (step: Step<ConnectQuestion, ()>)
    ensures
        step_view(step) == connection_limits(principal@, rate_limit, within_limit, connection),
{
    match rate_limit {
        None => {},
        Some(retry_after) => match within_limit {
            None => return Step::Ask(ConnectQuestion::WithinLimit(principal.to_owned())),
            Some(false) => return Step::Refuse(ApiError::rate_limited(retry_after)),
            Some(true) => {},
        },
    }
    match connection {
        None => Step::Ask(ConnectQuestion::Connection(principal.to_owned())),
        Some(true) => Step::Done(()),
        Some(false) => Step::Refuse(
            ApiError::limit_exceeded(
                "this principal already has the maximum number of open connections",
            ),
        ),
    }
}

/// A publisher connection that may be upgraded.
#[derive(Debug, Clone, Copy, PartialEq, Eq, Structural)]
pub struct PublisherUpgrade {
    pub device_id: Uuid,
    pub version: ProtocolVersion,
}

impl View for PublisherUpgrade {
    type V = PublisherUpgrade;

    open spec fn view(&self) -> PublisherUpgrade {
        *self
    }
}

/// A publisher's upgrade and what it needs to know.
pub type PublisherStep = StepModel<ConnectQuestion<Seq<char>>, PublisherUpgrade>;

/// What a device's upgrade comes to once it has authenticated: it may only publish as
/// itself, with the scope and the role for it, and not once it has been revoked.
pub open spec fn publisher_admitted(
    device_id: Uuid,
    auth: Auth<Seq<char>, Seq<Seq<char>>>,
    device: Option<Option<Device<Seq<char>, Seq<u8>>>>,
) -> StepModel<ConnectQuestion<Seq<char>>, ()> {
    if auth.kind != PrincipalKind::Device || auth.principal_id != uuid_text(device_id.value) {
        StepModel::Refuse(Refusal::not_found())
    } else if !auth.scopes.contains(scope::TERMINALS_PUBLISH@) {
        StepModel::Refuse(missing_scope(scope::TERMINALS_PUBLISH@))
    } else {
        match device {
            None => StepModel::Ask(ConnectQuestion::Device(device_id)),
            Some(None) => StepModel::Refuse(Refusal::not_found()),
            Some(Some(device)) => if device.revoked_at is Some {
                StepModel::Refuse(
                    Refusal::unauthorized("this device has been revoked"@).with_code(
                        code::DEVICE_REVOKED@,
                    ),
                )
            } else if device.role == DeviceRole::Client {
                StepModel::Refuse(
                    Refusal::insufficient_scope("this device's role does not permit publishing"@),
                )
            } else {
                StepModel::Done(())
            },
        }
    }
}

/// What a device's upgrade comes to.
pub open spec fn publisher_upgrade(
    device_id: Uuid,
    gate: Result<ProtocolVersion, Refusal>,
    rate_limit: Option<u64>,
    auth: Option<Result<Auth<Seq<char>, Seq<Seq<char>>>, Refusal>>,
    device: Option<Option<Device<Seq<char>, Seq<u8>>>>,
    within_limit: Option<bool>,
    connection: Option<bool>,
) -> PublisherStep {
    match gate {
        Err(refusal) => StepModel::Refuse(refusal),
        Ok(version) => match auth {
            None => StepModel::Ask(
                ConnectQuestion::Authenticate(
                    "/v1/devices/"@ + uuid_text(device_id.value) + "/relay"@,
                ),
            ),
            Some(Err(refusal)) => StepModel::Refuse(refusal),
            Some(Ok(auth)) => match publisher_admitted(device_id, auth, device) {
                StepModel::Ask(question) => StepModel::Ask(question),
                StepModel::Refuse(refusal) => StepModel::Refuse(refusal),
                StepModel::Done(()) => match connection_limits(
                    auth.principal_id,
                    rate_limit,
                    within_limit,
                    connection,
                ) {
                    StepModel::Ask(question) => StepModel::Ask(question),
                    StepModel::Refuse(refusal) => StepModel::Refuse(refusal),
                    StepModel::Done(()) => StepModel::Done(PublisherUpgrade { device_id, version }),
                },
            },
        },
    }
}

fn admit_publisher(device_id: Uuid, auth: &Auth, device: &Option<Option<Device>>) -> (step: Step<
    ConnectQuestion,
    (),
>)
    ensures
        step_view(step) == publisher_admitted(
            device_id,
            auth@,
            match device {
                Some(device) => Some(option_view(*device)),
                None => None,
            },
        ),
{
    let is_device: bool = matches!(auth.kind, PrincipalKind::Device);
    if !is_device || !text::same(auth.principal_id.as_str(), device_id.to_text().as_str()) {
        return Step::Refuse(ApiError::not_found());
    }
    match auth.require_scope(scope::TERMINALS_PUBLISH) {
        Ok(()) => {},
        Err(error) => return Step::Refuse(error),
    }
    let device = match device {
        None => return Step::Ask(ConnectQuestion::Device(device_id)),
        Some(None) => return Step::Refuse(ApiError::not_found()),
        Some(Some(device)) => device,
    };
    if device.revoked_at.is_some() {
        return Step::Refuse(
            ApiError::unauthorized("this device has been revoked").with_code(code::DEVICE_REVOKED),
        );
    }
    if !device.role.may_publish() {
        return Step::Refuse(
            ApiError::insufficient_scope("this device's role does not permit publishing"),
        );
    }
    Step::Done(())
}

/// Decides on the upgrade of a device's publisher connection.
pub fn relay_upgrade(
    device_id: Uuid,
    settings: &ConnectSettings,
    answers: &ConnectAnswers,
) -> (step: Step<ConnectQuestion, PublisherUpgrade>)
    ensures
        step_view(step) == publisher_upgrade(
            device_id,
            gate(
                settings.enabled,
                "publishing is disabled"@,
                settings.shutting_down,
                settings.offered@,
                settings.v1@,
                settings.v2@,
            ),
            settings.rate_limit,
            answer_view(answers.auth),
            match answers.device {
                Some(device) => Some(option_view(device)),
                None => None,
            },
            answers.within_limit,
            answers.connection,
        ),
{
    let version = match pass_gate(settings, "publishing is disabled") {
        Ok(version) => version,
        Err(error) => return Step::Refuse(error),
    };
    let auth = match &answers.auth {
        None => {
            let path = "/v1/devices/".to_owned().concat(device_id.to_text().as_str()).concat(
                "/relay",
            );
            return Step::Ask(ConnectQuestion::Authenticate(path));
        },
        Some(Err(error)) => return Step::Refuse(error.copy()),
        Some(Ok(auth)) => auth,
    };
    match admit_publisher(device_id, auth, &answers.device) {
        Step::Ask(question) => return Step::Ask(question),
        Step::Refuse(error) => return Step::Refuse(error),
        Step::Done(()) => {},
    }
    match check_connection_limits(
        auth.principal_id.as_str(),
        settings.rate_limit,
        answers.within_limit,
        answers.connection,
    ) {
        Step::Ask(question) => Step::Ask(question),
        Step::Refuse(error) => Step::Refuse(error),
        Step::Done(()) => Step::Done(PublisherUpgrade { device_id, version }),
    }
}

/// A mirror connection that may be upgraded.
#[derive(Debug)]
pub struct MirrorUpgrade<S = String> {
    pub terminal_id: Uuid,
    pub version: ProtocolVersion,
    pub identity_id: S,
    pub principal_id: S,
    /// Necessary but not sufficient: the other conditions can change while the
    /// connection is open and are checked for every frame.
    pub may_send_input: bool,
}

impl View for MirrorUpgrade {
    type V = MirrorUpgrade<Seq<char>>;

    open spec fn view(&self) -> MirrorUpgrade<Seq<char>> {
        MirrorUpgrade {
            terminal_id: self.terminal_id,
            version: self.version,
            identity_id: self.identity_id@,
            principal_id: self.principal_id@,
            may_send_input: self.may_send_input,
        }
    }
}

/// The device that a principal is.
pub open spec fn principal_device(principal: Seq<char>) -> Uuid {
    Uuid {
        value: match uuid_value(principal) {
            Some(value) => value,
            None => 0,
        },
    }
}

/// What a mirror's upgrade comes to once it has authenticated: an identity may mirror its
/// own terminals, and so may a device of that identity whose role allows it.
pub open spec fn mirror_admitted(
    terminal_id: Uuid,
    auth: Auth<Seq<char>, Seq<Seq<char>>>,
    auth_device: Uuid,
    device: Option<Option<Device<Seq<char>, Seq<u8>>>>,
    terminal: Option<Option<TerminalRow<Seq<char>>>>,
) -> StepModel<ConnectQuestion<Seq<char>>, ()> {
    if auth.kind == PrincipalKind::Device && device is None {
        StepModel::Ask(ConnectQuestion::Device(auth_device))
    } else if auth.kind == PrincipalKind::Device && (device->0 is None || device->0->0.role
        == DeviceRole::Publisher || device->0->0.identity_id != auth.identity_id) {
        StepModel::Refuse(Refusal::not_found())
    } else if !auth.scopes.contains(scope::TERMINALS_MIRROR@) {
        StepModel::Refuse(missing_scope(scope::TERMINALS_MIRROR@))
    } else {
        match terminal {
            None => StepModel::Ask(ConnectQuestion::Terminal(terminal_id)),
            Some(None) => StepModel::Refuse(Refusal::not_found()),
            Some(Some(row)) => if row.identity_id != auth.identity_id {
                StepModel::Refuse(Refusal::not_found())
            } else {
                StepModel::Done(())
            },
        }
    }
}

/// What a mirror's upgrade comes to.
pub open spec fn mirror_connection(
    terminal_id: Uuid,
    gate: Result<ProtocolVersion, Refusal>,
    rate_limit: Option<u64>,
    auth: Option<Result<Auth<Seq<char>, Seq<Seq<char>>>, Refusal>>,
    device: Option<Option<Device<Seq<char>, Seq<u8>>>>,
    terminal: Option<Option<TerminalRow<Seq<char>>>>,
    within_limit: Option<bool>,
    connection: Option<bool>,
) -> StepModel<ConnectQuestion<Seq<char>>, MirrorUpgrade<Seq<char>>> {
    match gate {
        Err(refusal) => StepModel::Refuse(refusal),
        Ok(version) => match auth {
            None => StepModel::Ask(
                ConnectQuestion::Authenticate(
                    "/v1/terminals/"@ + uuid_text(terminal_id.value) + "/mirror"@,
                ),
            ),
            Some(Err(refusal)) => StepModel::Refuse(refusal),
            Some(Ok(auth)) => match mirror_admitted(
                terminal_id,
                auth,
                principal_device(auth.principal_id),
                device,
                terminal,
            ) {
                StepModel::Ask(question) => StepModel::Ask(question),
                StepModel::Refuse(refusal) => StepModel::Refuse(refusal),
                StepModel::Done(()) => match connection_limits(
                    auth.principal_id,
                    rate_limit,
                    within_limit,
                    connection,
                ) {
                    StepModel::Ask(question) => StepModel::Ask(question),
                    StepModel::Refuse(refusal) => StepModel::Refuse(refusal),
                    StepModel::Done(()) => StepModel::Done(
                        MirrorUpgrade {
                            terminal_id,
                            version,
                            identity_id: auth.identity_id,
                            principal_id: auth.principal_id,
                            may_send_input: version == ProtocolVersion::V2
                                && auth.scopes.contains(scope::TERMINALS_INPUT@),
                        },
                    ),
                },
            },
        },
    }
}

/// Decides on a mirror once its principal's device, if it is one, is known.
pub fn admit_mirror(
    terminal_id: Uuid,
    auth: &Auth,
    auth_device: Uuid,
    device: &Option<Option<Device>>,
    terminal: &Option<Option<TerminalRow>>,
) -> (step: Step<ConnectQuestion, ()>)
    ensures
        step_view(step) == mirror_admitted(
            terminal_id,
            auth@,
            auth_device,
            match device {
                Some(device) => Some(option_view(*device)),
                None => None,
            },
            match terminal {
                Some(terminal) => Some(option_view(*terminal)),
                None => None,
            },
        ),
{
    match auth.kind {
        PrincipalKind::Device => {
            let device = match device {
                None => return Step::Ask(ConnectQuestion::Device(auth_device)),
                Some(None) => return Step::Refuse(ApiError::not_found()),
                Some(Some(device)) => device,
            };
            if !device.role.may_mirror() || !text::same(
                device.identity_id.as_str(),
                auth.identity_id.as_str(),
            ) {
                return Step::Refuse(ApiError::not_found());
            }
        },
        PrincipalKind::Identity => {},
    }
    match auth.require_scope(scope::TERMINALS_MIRROR) {
        Ok(()) => {},
        Err(error) => return Step::Refuse(error),
    }
    // Ownership is confirmed before the upgrade; anyone but the owner sees nothing there.
    match terminal {
        None => Step::Ask(ConnectQuestion::Terminal(terminal_id)),
        Some(None) => Step::Refuse(ApiError::not_found()),
        Some(Some(row)) => {
            if text::same(row.identity_id.as_str(), auth.identity_id.as_str()) {
                Step::Done(())
            } else {
                Step::Refuse(ApiError::not_found())
            }
        },
    }
}

/// Decides on the upgrade of a subscriber's mirror connection.
pub fn mirror_upgrade(
    terminal_id: Uuid,
    settings: &ConnectSettings,
    answers: &ConnectAnswers,
) -> (step: Step<ConnectQuestion, MirrorUpgrade>)
    ensures
        step_view(step) == mirror_connection(
            terminal_id,
            gate(
                settings.enabled,
                "mirroring is disabled"@,
                settings.shutting_down,
                settings.offered@,
                settings.v1@,
                settings.v2@,
            ),
            settings.rate_limit,
            answer_view(answers.auth),
            match answers.device {
                Some(device) => Some(option_view(device)),
                None => None,
            },
            match answers.terminal {
                Some(terminal) => Some(option_view(terminal)),
                None => None,
            },
            answers.within_limit,
            answers.connection,
        ),
{
    let version = match pass_gate(settings, "mirroring is disabled") {
        Ok(version) => version,
        Err(error) => return Step::Refuse(error),
    };
    let auth = match &answers.auth {
        None => {
            let path = "/v1/terminals/".to_owned().concat(terminal_id.to_text().as_str()).concat(
                "/mirror",
            );
            return Step::Ask(ConnectQuestion::Authenticate(path));
        },
        Some(Err(error)) => return Step::Refuse(error.copy()),
        Some(Ok(auth)) => auth,
    };
    let auth_device = match Uuid::parse_str(auth.principal_id.as_str()) {
        Some(id) => id,
        None => Uuid::from_u128(0),
    };
    match admit_mirror(terminal_id, auth, auth_device, &answers.device, &answers.terminal) {
        Step::Ask(question) => return Step::Ask(question),
        Step::Refuse(error) => return Step::Refuse(error),
        Step::Done(()) => {},
    }
    match check_connection_limits(
        auth.principal_id.as_str(),
        settings.rate_limit,
        answers.within_limit,
        answers.connection,
    ) {
        Step::Ask(question) => Step::Ask(question),
        Step::Refuse(error) => Step::Refuse(error),
        Step::Done(()) => {
            let has_input: bool = auth.require_scope(scope::TERMINALS_INPUT).is_ok();
            Step::Done(
                MirrorUpgrade {
                    terminal_id,
                    version,
                    identity_id: auth.identity_id.as_str().to_owned(),
                    principal_id: auth.principal_id.as_str().to_owned(),
                    may_send_input: version.supports_input() && has_input,
                },
            )
        },
    }
}

/// Nobody mirrors what is not theirs: a mirror is only ever upgraded for the identity
/// that owns the terminal, and for a device only if it belongs to that identity and its
/// role allows mirroring.
pub proof fn law_only_owners_mirror(
    terminal_id: Uuid,
    auth: Auth<Seq<char>, Seq<Seq<char>>>,
    auth_device: Uuid,
    device: Option<Option<Device<Seq<char>, Seq<u8>>>>,
    terminal: Option<Option<TerminalRow<Seq<char>>>>,
)
    requires
        mirror_admitted(terminal_id, auth, auth_device, device, terminal) is Done,
    ensures
        auth.scopes.contains(scope::TERMINALS_MIRROR@),
        terminal matches Some(Some(row)) && row.identity_id == auth.identity_id,
        auth.kind == PrincipalKind::Device ==> (device matches Some(Some(device))
            && device.identity_id == auth.identity_id && device.role != DeviceRole::Publisher),
{
}

/// A device publishes only as itself: whatever the answers, a connection for a device is
/// only upgraded for that device's own credential, while it is neither revoked nor a
/// client.
pub proof fn law_devices_publish_as_themselves(
    device_id: Uuid,
    auth: Auth<Seq<char>, Seq<Seq<char>>>,
    device: Option<Option<Device<Seq<char>, Seq<u8>>>>,
)
    requires
        publisher_admitted(device_id, auth, device) is Done,
    ensures
        auth.kind == PrincipalKind::Device,
        auth.principal_id == uuid_text(device_id.value),
        auth.scopes.contains(scope::TERMINALS_PUBLISH@),
        device matches Some(Some(device)) && device.revoked_at is None && device.role
            != DeviceRole::Client,
{
}

} // verus!
