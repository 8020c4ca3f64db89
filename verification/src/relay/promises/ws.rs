//! What a connection can count on.

use crate::ids::{uuid_text, Uuid};
use crate::relay::auth::Auth;
use crate::relay::crypto::{Claims, DeviceRole, PrincipalKind};
use crate::relay::error::Refusal;
use crate::relay::repo::{Device, TerminalRow, TicketRecord};
use crate::relay::step::{asks, refuses, StepModel};
use crate::relay::ws::{
    authenticated_upgrade, connection_limits, cookie_among, gate, mirror_connection, offers,
    path_parts, publisher_upgrade, requested_ticket, ws_path, ConnectQuestion, ProtocolVersion,
    WsPath,
};
use crate::text;
use crate::text::{split_on, trimmed, without_leading};
use vstd::prelude::*;

verus! {

/// A principal is within its limits and has a connection to spare.
pub open spec fn has_room(
    rate_limit: Option<u64>,
    within_limit: Option<bool>,
    connection: Option<bool>,
) -> bool {
    (rate_limit is None || within_limit == Some(true)) && connection == Some(true)
}

/// A mirror is upgraded exactly for whoever owns the terminal and may mirror it: the owning
/// identity, or a device of it that is a client or both. It is upgraded for that terminal
/// and in that name, and may be typed into exactly if it speaks version 2 and holds the
/// authority for input.
pub proof fn law_owners_mirror_and_type(
    terminal_id: Uuid,
    version: ProtocolVersion,
    rate_limit: Option<u64>,
    auth: Auth<Seq<char>, Seq<Seq<char>>>,
    device: Device<Seq<char>, Seq<u8>>,
    row: TerminalRow<Seq<char>>,
    within_limit: Option<bool>,
    connection: Option<bool>,
)
    ensures
        ({
            let step = mirror_connection(
                terminal_id,
                Ok(version),
                rate_limit,
                Some(Ok(auth)),
                Some(Some(device)),
                Some(Some(row)),
                within_limit,
                connection,
            );
            let may = auth.scopes.contains("terminals:mirror"@) && row.identity_id
                == auth.identity_id && (auth.kind == PrincipalKind::Identity || (device.identity_id
                == auth.identity_id && (device.role == DeviceRole::Client || device.role
                == DeviceRole::Both)));
            &&& step is Done <==> may && has_room(rate_limit, within_limit, connection)
            &&& step is Done ==> {
                let upgrade = step->Done_0;
                &&& upgrade.terminal_id == terminal_id
                &&& upgrade.version == version
                &&& upgrade.identity_id == auth.identity_id
                &&& upgrade.principal_id == auth.principal_id
                &&& upgrade.may_send_input <==> version == ProtocolVersion::V2
                    && auth.scopes.contains("terminals:input"@)
            }
        }),
{
}

/// A device's connection is upgraded exactly for the device itself, while it may publish
/// and has not been revoked; for that device, in the version that was agreed on.
pub proof fn law_publishers_connect_as_themselves(
    device_id: Uuid,
    version: ProtocolVersion,
    rate_limit: Option<u64>,
    auth: Auth<Seq<char>, Seq<Seq<char>>>,
    device: Device<Seq<char>, Seq<u8>>,
    within_limit: Option<bool>,
    connection: Option<bool>,
)
    ensures
        ({
            let step = publisher_upgrade(
                device_id,
                Ok(version),
                rate_limit,
                Some(Ok(auth)),
                Some(Some(device)),
                within_limit,
                connection,
            );
            let may = auth.kind == PrincipalKind::Device && auth.principal_id == uuid_text(
                device_id.value,
            ) && auth.scopes.contains("terminals:publish"@) && device.revoked_at is None && (
            device.role == DeviceRole::Publisher || device.role == DeviceRole::Both);
            &&& step is Done <==> may && has_room(rate_limit, within_limit, connection)
            &&& step is Done ==> step->Done_0.device_id == device_id && step->Done_0.version
                == version
        }),
{
}

/// A connection is authenticated for the path that it connects to, and what is asked about
/// is what it names.
pub proof fn law_connections_are_asked_about_by_name(
    id: Uuid,
    version: ProtocolVersion,
    rate_limit: Option<u64>,
    within_limit: Option<bool>,
    connection: Option<bool>,
)
    ensures
        asks(
            publisher_upgrade(id, Ok(version), rate_limit, None, None, within_limit, connection),
            ConnectQuestion::Authenticate("/v1/devices/"@ + uuid_text(id.value) + "/relay"@),
        ),
        asks(
            mirror_connection(
                id,
                Ok(version),
                rate_limit,
                None,
                None,
                None,
                within_limit,
                connection,
            ),
            ConnectQuestion::Authenticate("/v1/terminals/"@ + uuid_text(id.value) + "/mirror"@),
        ),
{
}

/// Connections that are switched off, or come while the relay shuts down, or speak nothing
/// that the relay speaks, are refused; and version 2 is spoken whenever it is offered.
pub proof fn law_the_newer_version_is_preferred(
    enabled: bool,
    message: Seq<char>,
    shutting_down: bool,
    offered: Seq<char>,
    v1: Seq<char>,
    v2: Seq<char>,
)
    ensures
        ({
            let agreed = gate(enabled, message, shutting_down, offered, v1, v2);
            &&& agreed is Ok <==> enabled && !shutting_down && (offers(offered, v1) || offers(
                offered,
                v2,
            ))
            &&& agreed is Ok ==> (agreed->Ok_0 == ProtocolVersion::V2 <==> offers(offered, v2))
            &&& !enabled ==> agreed->Err_0.status == 403
            &&& enabled && shutting_down ==> agreed->Err_0.status == 503
            &&& enabled && !shutting_down && agreed is Err ==> agreed->Err_0.status == 400
        }),
{
}

/// A subprotocol is offered if it stands in the list, wherever, with whatever white space
/// around it.
pub proof fn law_offers_are_found_in_the_list(front: Seq<char>, name: Seq<char>, back: Seq<char>)
    requires
        !front.contains(','),
        !name.contains(','),
        trimmed(name) == name,
    ensures
        offers(name, name),
        offers(front.push(',') + name, name),
        offers(name.push(',') + back, name),
{
    text::lemma_split_on(name, ',', back);
    text::lemma_split_on(front, ',', name);
    assert(split_on(name, ',')[0] == name);
    assert(split_on(name.push(',') + back, ',')[0] == name);
    assert(split_on(front.push(',') + name, ',')[1] == name);
}

/// A ticket is granted exactly to whoever may use its path: a device its own connection,
/// and the owner of a terminal its mirror. It is granted for that path, and everyone else is
/// told that there is nothing there.
pub proof fn law_tickets_go_to_who_may_use_the_path(
    auth: Auth<Seq<char>, Seq<Seq<char>>>,
    path: Seq<char>,
    id: Uuid,
    owner: Seq<char>,
)
    ensures
        ({
            let own = requested_ticket(auth, path, Some(WsPath::Relay(id)), None);
            let mirror = requested_ticket(auth, path, Some(WsPath::Mirror(id)), Some(Some(owner)));
            let nowhere = requested_ticket(auth, path, None, Some(Some(owner)));
            &&& own is Done <==> auth.kind == PrincipalKind::Device && auth.principal_id
                == uuid_text(id.value) && auth.scopes.contains("terminals:publish"@)
            &&& mirror is Done <==> auth.scopes.contains("terminals:mirror"@) && owner
                == auth.identity_id
            &&& own is Done ==> own->Done_0 == path
            &&& mirror is Done ==> mirror->Done_0 == path
            &&& !(own is Done) ==> refuses(own, Refusal::not_found())
            &&& !(mirror is Done) ==> refuses(mirror, Refusal::not_found())
            &&& Refusal::not_found().status == 404
            &&& nowhere is Refuse && nowhere->Refuse_0.status == 422
        }),
{
}

/// A good ticket stands for the authority that it was made with, a good token for that of
/// its claims; a ticket comes first, and without either nothing is authenticated.
pub proof fn law_credentials_stand_for_their_authority(
    hash: Seq<char>,
    token: Seq<char>,
    record: TicketRecord<Seq<char>, Seq<Seq<char>>>,
    claims: Claims,
)
    ensures
        ({
            let by_ticket = authenticated_upgrade(
                Some(hash),
                Some(token),
                Some(Some(record)),
                Some(Ok(claims)),
                Some(true),
            );
            let by_token = authenticated_upgrade(
                None,
                Some(token),
                None,
                Some(Ok(claims)),
                Some(false),
            );
            &&& by_ticket is Done
            &&& by_ticket->Done_0.kind == record.principal_kind
            &&& by_ticket->Done_0.principal_id == record.principal_id
            &&& by_ticket->Done_0.identity_id == record.identity_id
            &&& by_ticket->Done_0.scopes == record.scopes
            &&& by_token is Done
            &&& by_token->Done_0.kind == claims.principal
            &&& by_token->Done_0.principal_id == claims.sub
            &&& by_token->Done_0.identity_id == claims.identity_id
            &&& by_token->Done_0.scopes == claims.scopes
            &&& authenticated_upgrade(Some(hash), Some(token), Some(None), Some(Ok(claims)), Some(false))
                is Refuse
            &&& authenticated_upgrade(None, Some(token), None, Some(Ok(claims)), Some(true))
                is Refuse
            &&& authenticated_upgrade(None, None, Some(Some(record)), Some(Ok(claims)), Some(false))
                is Refuse
        }),
{
}

/// A principal that is over its limit is told when to come back, and one that has every
/// connection that it may have is told so.
pub proof fn law_connections_are_limited(
    principal: Seq<char>,
    retry_after: u64,
    within_limit: Option<bool>,
    connection: Option<bool>,
)
    ensures
        refuses(
            connection_limits(principal, Some(retry_after), Some(false), connection),
            Refusal::rate_limited(retry_after),
        ),
        Refusal::rate_limited(retry_after).status == 429,
        Refusal::rate_limited(retry_after).retry_after == Some(retry_after),
        connection_limits(principal, None, within_limit, Some(false)) matches StepModel::Refuse(
            refusal,
        ) && refusal.status == 409,
        connection_limits(principal, None, within_limit, Some(true)) is Done,
{
}

/// The path of a device's connection leads to that device's connection, and the path of a
/// terminal's mirror to that terminal's mirror.
pub proof fn law_paths_lead_where_they_say(id: Seq<char>, value: u128)
    requires
        !id.contains('/'),
    ensures
        ({
            let relay = path_parts("/v1/devices/"@ + id + "/relay"@);
            let mirror = path_parts("/v1/terminals/"@ + id + "/mirror"@);
            &&& relay.len() == 4 && relay[2] == id
            &&& mirror.len() == 4 && mirror[2] == id
            &&& ws_path(relay, Some(value)) == Some(WsPath::Relay(Uuid { value }))
            &&& ws_path(mirror, Some(value)) == Some(WsPath::Mirror(Uuid { value }))
            &&& ws_path(relay, None) is None && ws_path(mirror, None) is None
        }),
{
    reveal_strlit("/v1/devices/");
    reveal_strlit("/v1/terminals/");
    reveal_strlit("/relay");
    reveal_strlit("/mirror");
    reveal_strlit("v1");
    reveal_strlit("devices");
    reveal_strlit("terminals");
    reveal_strlit("relay");
    reveal_strlit("mirror");
    lemma_parts(id, "devices"@, "relay"@, "/v1/devices/"@ + id + "/relay"@);
    lemma_parts(id, "terminals"@, "mirror"@, "/v1/terminals/"@ + id + "/mirror"@);
    assert("devices"@.len() != "terminals"@.len());
}

proof fn lemma_parts(id: Seq<char>, kind: Seq<char>, end: Seq<char>, path: Seq<char>)
    requires
        !id.contains('/'),
        !kind.contains('/'),
        !end.contains('/'),
        path =~= seq!['/'] + "v1"@.push('/') + kind.push('/') + id.push('/') + end,
    ensures
        path_parts(path) == seq!["v1"@, kind, id, end],
{
    reveal_strlit("v1");
    reveal_with_fuel(without_leading, 2);
    let rest = "v1"@.push('/') + (kind.push('/') + (id.push('/') + end));
    assert(path.drop_first() =~= rest);
    assert(rest[0] == 'v');
    assert(without_leading(path, '/') == rest);
    assert(!"v1"@.contains('/'));
    text::lemma_split_on("v1"@, '/', kind.push('/') + (id.push('/') + end));
    text::lemma_split_on(kind, '/', id.push('/') + end);
    text::lemma_split_on(id, '/', end);
    text::lemma_split_on(end, '/', end);
    assert(split_on(rest, '/') =~= seq!["v1"@, kind, id, end]);
}

/// A cookie is found by its name, wherever it stands behind others.
pub proof fn law_cookies_are_found_by_name(
    before: Seq<char>,
    name: Seq<char>,
    value: Seq<char>,
    rest: Seq<Seq<char>>,
)
    requires
        name.len() > 0,
        !name.contains('='),
        !text::is_white_space(name[0]),
        value.len() > 0,
        !text::is_white_space(value[0]),
        !text::is_white_space(value.last()),
        text::split_at_first(trimmed(before), '=') matches Some((key, other)) ==> key != name,
    ensures
        cookie_among(seq![name.push('=') + value] + rest, name) == Some(value),
        cookie_among(seq![before, name.push('=') + value] + rest, name) == Some(value),
{
    let pair = name.push('=') + value;
    assert(pair[0] == name[0]);
    assert(pair.last() == value.last());
    assert(trimmed(pair) == pair);
    assert(trimmed(value) == value);
    text::lemma_first_of(pair, '=', name.len() as int);
    assert(pair.take(name.len() as int) =~= name);
    assert(pair.skip(name.len() as int + 1) =~= value);
    let short = seq![pair] + rest;
    let long = seq![before, pair] + rest;
    assert(short[0] == pair);
    assert(long[0] == before);
    assert(long.drop_first() =~= short);
}

} // verus!
