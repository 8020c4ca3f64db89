//! What can be counted on of the smaller steps that requests are decided by.

use crate::encoding::sha256_digest;
use crate::relay::admin::Setting;
use crate::relay::auth::Auth;
use crate::relay::command::{
    are_stored, check_known, comma_list, first_line, is_setting, is_stored, is_unchanged,
    log_filter, value_of, Assignment,
};
use crate::relay::context::{
    enforce_body_limit, enforce_transport, in_networks, method_not_allowed, resolve_client,
    Address, ConnMeta, Network,
};
use crate::relay::crypto::{
    check_claims, ct_eq, hash_operator_token, hash_ticket, PrincipalKind, PublicKey, TokenClaims,
};
use crate::relay::error::{ApiError, ApiResult};
use crate::ids::Uuid;
use crate::relay::extract::{clean, reject_parts, single_line};
use crate::relay::idempotency::{replay, Replay};
use crate::relay::maintenance::Sweep;
use crate::relay::metrics::{Counter, Gauge, Metrics};
use crate::relay::repo::IdempotentResponse;
use crate::relay::storage::{table_info, AddedColumn, StoragePragmas};
use crate::relay::terminals::{check_request, CreateTerminalRequest};
use crate::relay::promises::terminals::is_well_made;
use crate::relay::ws::ProtocolVersion;
use crate::text::{lemma_first_of, number, option_view, texts};
use vstd::prelude::*;
use vstd::utf8::encode_utf8;

verus! {

/// A scope is granted if and only if the credential lists it, and what is for identities is
/// for identities alone.
pub proof fn law_authority_is_checked(
    auth: Auth,
    scope: &str,
    scoped: ApiResult<()>,
    identity: ApiResult<()>,
)
    requires
        call_ensures(Auth::require_scope, (&auth, scope), scoped),
        call_ensures(Auth::require_identity, (&auth,), identity),
    ensures
        scoped is Ok <==> exists|i: int|
            0 <= i < auth.scopes@.len() && (#[trigger] auth.scopes@[i])@ == scope@,
        (scoped matches Err(error) ==> error.status == 403 && error.code@
            == "insufficient_scope"@),
        identity is Ok <==> auth.kind == PrincipalKind::Identity,
        (identity matches Err(error) ==> error.status == 403 && error.code@
            == "insufficient_scope"@),
{
    let list = texts(auth.scopes@);
    if list.contains(scope@) {
        let i = choose|i: int| 0 <= i < list.len() && list[i] == scope@;
        assert(auth.scopes@[i]@ == scope@);
    }
    if exists|i: int| 0 <= i < auth.scopes@.len() && (#[trigger] auth.scopes@[i])@ == scope@ {
        let i = choose|i: int|
            0 <= i < auth.scopes@.len() && (#[trigger] auth.scopes@[i])@ == scope@;
        assert(list[i] == scope@);
    }
    if let Err(error) = scoped {
        let shown = error@;
    }
    if let Err(error) = identity {
        let shown = error@;
    }
}

/// Only the second version carries input.
pub proof fn law_the_second_version_carries_input(version: ProtocolVersion, supports: bool)
    requires
        call_ensures(ProtocolVersion::supports_input, (&version,), supports),
    ensures
        supports <==> version == ProtocolVersion::V2,
{
}

/// Claims are good for their issuer and audience, from their issue to their expiry, give or
/// take the skew.
pub proof fn law_claims_are_good_for_their_time(
    claims: TokenClaims,
    issuer: &str,
    audience: &str,
    now: i64,
    skew: i64,
    result: ApiResult<TokenClaims>,
)
    requires
        call_ensures(check_claims, (claims, issuer, audience, now, skew), result),
    ensures
        result is Ok <==> claims.iss@ == issuer@ && claims.aud@ == audience@ && claims.iat - skew
            <= now <= claims.exp + skew,
        result is Ok ==> result->Ok_0@ == claims@,
        (result matches Err(error) ==> error.status == 401),
{
    if let Err(error) = result {
        let shown = error@;
    }
}

/// What is kept of a secret is the text of its digest, whatever the secret is for.
pub proof fn law_secrets_are_kept_as_digests(raw: &str, ticket: String, operator: String)
    requires
        call_ensures(hash_ticket, (raw,), ticket),
        call_ensures(hash_operator_token, (raw,), operator),
    ensures
        ticket@ == operator@,
        ticket@ == crate::encoding::base64url(sha256_digest(encode_utf8(raw@))),
{
}

/// Two secrets are the same if and only if their bytes are.
pub proof fn law_secrets_are_compared_whole(a: &[u8], b: &[u8], same: bool)
    requires
        call_ensures(ct_eq, (a, b), same),
    ensures
        same <==> a@ == b@,
{
}

/// A key that was stored is the key that it was.
pub proof fn law_stored_keys_are_themselves(algorithm: &str, bytes: Vec<u8>, key: PublicKey)
    requires
        call_ensures(PublicKey::from_stored, (algorithm, bytes), key),
    ensures
        key.algorithm@ == algorithm@,
        key.bytes@ == bytes@,
{
    let shown = key@;
}

/// An address is in a list of networks if and only if it is in one of them; plain transport
/// is good enough from there, from the machine itself where that is allowed, and wherever
/// security is not required.
pub proof fn law_transport_is_judged(
    secure: bool,
    required: bool,
    networks: &[Network],
    loopback: bool,
    client: Address,
    inside: bool,
    result: ApiResult<()>,
)
    requires
        call_ensures(in_networks, (networks, client), inside),
        call_ensures(enforce_transport, (secure, required, networks, loopback, client), result),
    ensures
        inside <==> exists|i: int|
            0 <= i < networks@.len() && #[trigger] networks@[i].holds(client),
        (secure || !required || (loopback && client.loops_back())) ==> result is Ok,
        !secure && required && !(loopback && client.loops_back()) && (forall|i: int|
            0 <= i < networks@.len() ==> !(#[trigger] networks@[i].holds(client))) ==> (
        result matches Err(error) && error.status == 403),
{
}

/// A body is too large if and only if it says so.
pub proof fn law_bodies_are_bounded(length: Option<String>, limit: u64, result: ApiResult<()>)
    requires
        call_ensures(enforce_body_limit, (&length, limit), result),
    ensures
        result is Err <==> length is Some && number((length->0)@) is Some && number(
            (length->0)@,
        )->0 > limit,
        (result matches Err(error) ==> error.status == 413),
{
    if let Err(error) = result {
        let shown = error@;
    }
}

/// A method that a path does not have is refused as such.
pub proof fn law_methods_are_refused(error: ApiError, detail: &str, malformed: ApiError)
    requires
        call_ensures(method_not_allowed, (), error),
        call_ensures(ApiError::malformed_json, (detail,), malformed),
    ensures
        error.status == 405,
        malformed.status == 400,
        malformed.message@ == "malformed JSON: "@ + detail@,
{
    let shown = error@;
    let other = malformed@;
}

/// A request for a terminal passes if and only if it is well made.
pub proof fn law_requests_for_terminals_are_checked(
    request: CreateTerminalRequest,
    max_label_bytes: usize,
    result: ApiResult<()>,
)
    requires
        call_ensures(check_request, (&request, max_label_bytes), result),
    ensures
        result is Ok <==> is_well_made(request, max_label_bytes),
        (result matches Err(error) ==> error.status == 422),
{
    let shown = request@;
    if let Err(error) = result {
        let told = error@;
    }
}

/// An assignment means the JSON that it is, or else the text that it is.
pub proof fn law_values_mean_what_they_say(raw: &str, reading: Option<String>, value: String)
    requires
        call_ensures(value_of, (raw, reading), value),
    ensures
        reading is Some ==> value@ == (reading->0)@,
        reading is None ==> value@ == crate::json::json_string(raw@),
{
}

/// A setting holds what an assignment would set: it is no secret and has that value.
pub open spec fn holds_already(setting: Setting, assignment: Assignment) -> bool {
    &&& setting.def.name@ == assignment.name@
    &&& !setting.def.secret
    &&& setting.stored is Some
    &&& (setting.stored->0)@ == assignment.value@
}

/// One of the settings holds what an assignment would set.
pub open spec fn is_held(settings: Seq<Setting>, assignment: Assignment) -> bool {
    exists|k: int| 0 <= k < settings.len() && holds_already(#[trigger] settings[k], assignment)
}

/// Nothing is changed if and only if every assignment is stored already, in a setting that
/// is no secret. No two settings share a name.
pub proof fn law_unchanged_settings_are_left_alone(
    assignments: &[Assignment],
    settings: &[Setting],
    unchanged: bool,
)
    requires
        forall|j: int, k: int|
            0 <= j < k < settings@.len() ==> (#[trigger] settings@[j]).def.name@ != (
            #[trigger] settings@[k]).def.name@,
        call_ensures(is_unchanged, (assignments, settings), unchanged),
    ensures
        unchanged <==> forall|i: int|
            0 <= i < assignments@.len() ==> is_held(settings@, #[trigger] assignments@[i]),
{
    assert(unchanged == are_stored(assignments@, settings@));
    if unchanged {
        assert forall|i: int| 0 <= i < assignments@.len() implies is_held(
            settings@,
            #[trigger] assignments@[i],
        ) by {
            let assignment = assignments@[i];
            assert(is_stored(settings@, assignment.name@, assignment.value@));
            let k = choose|k: int| #[trigger]
                is_setting(settings@, assignment.name@, k) && !settings@[k].def.secret
                    && option_view(settings@[k].stored) == Some(assignment.value@);
            assert(holds_already(settings@[k], assignments@[i]));
        }
    } else {
        let i = choose|i: int|
            0 <= i < assignments@.len() && !is_stored(
                settings@,
                (#[trigger] assignments@[i]).name@,
                assignments@[i].value@,
            );
        if is_held(settings@, assignments@[i]) {
            let k = choose|k: int|
                0 <= k < settings@.len() && holds_already(#[trigger] settings@[k], assignments@[i]);
            assert(is_setting(settings@, assignments@[i].name@, k));
        }
    }
}

proof fn lemma_unknown(known: Seq<Seq<char>>, wanted: Seq<Seq<char>>)
    ensures
        crate::relay::command::first_unknown(known, wanted) is None <==> forall|i: int|
            0 <= i < wanted.len() ==> known.contains(#[trigger] wanted[i]),
    decreases wanted.len(),
{
    if wanted.len() > 0 {
        let rest = wanted.drop_first();
        lemma_unknown(known, rest);
        if forall|i: int| 0 <= i < wanted.len() ==> known.contains(#[trigger] wanted[i]) {
            assert(known.contains(wanted[0]));
            assert forall|i: int| 0 <= i < rest.len() implies known.contains(
                #[trigger] rest[i],
            ) by {
                assert(rest[i] == wanted[i + 1]);
            }
        } else if crate::relay::command::first_unknown(known, wanted) is None {
            let i = choose|i: int| 0 <= i < wanted.len() && !known.contains(#[trigger] wanted[i]);
            if i > 0 {
                assert(rest[i - 1] == wanted[i]);
            }
        }
    }
}

/// Settings are printed by name if and only if all the names are known.
pub proof fn law_only_known_settings_are_printed(
    known: &[String],
    wanted: &[String],
    result: Result<(), String>,
)
    requires
        call_ensures(check_known, (known, wanted), result),
    ensures
        result is Ok <==> forall|i: int|
            0 <= i < wanted@.len() ==> texts(known@).contains((#[trigger] wanted@[i])@),
{
    lemma_unknown(texts(known@), texts(wanted@));
    let list = texts(wanted@);
    if forall|i: int| 0 <= i < wanted@.len() ==> texts(known@).contains((#[trigger] wanted@[i])@) {
        assert forall|i: int| 0 <= i < list.len() implies texts(known@).contains(
            #[trigger] list[i],
        ) by {
            assert(texts(known@).contains(wanted@[i]@));
        }
    }
    if forall|i: int| 0 <= i < list.len() ==> texts(known@).contains(#[trigger] list[i]) {
        assert forall|i: int| 0 <= i < wanted@.len() implies texts(known@).contains(
            (#[trigger] wanted@[i])@,
        ) by {
            assert(texts(known@).contains(list[i]));
        }
    }
}

/// The log's level applies to the relay, and its libraries are heard only when they warn;
/// a table is asked for what it has by its name.
pub proof fn law_words_for_others_name_what_they_are_about(
    level: &str,
    filter: String,
    added: AddedColumn,
    statement: String,
)
    requires
        call_ensures(log_filter, (level,), filter),
        call_ensures(table_info, (&added,), statement),
    ensures
        filter@ == level@ + ",hyper=warn,rustls=warn,h2=warn,tower=warn"@,
        statement@ == "PRAGMA table_info("@ + added.table@ + ")"@,
{
}

/// A message that is too long for an answer is cut, and says so at its end.
pub proof fn law_long_messages_are_cut(text: &str, message: String, error: ApiError)
    requires
        crate::relay::extract::can_be_cut(crate::relay::extract::detail(text@)),
        encode_utf8(crate::relay::extract::detail(text@)).len() > 300,
        call_ensures(clean, (text,), message),
        call_ensures(reject_parts, (text,), error),
    ensures
        exists|size: int|
            0 <= size <= crate::relay::extract::detail(text@).len() && message@
                == #[trigger] crate::relay::extract::detail(text@).take(size) + "…"@
                && encode_utf8(crate::relay::extract::detail(text@).take(size)).len() == 300,
        error.status == 400,
{
    let detail = crate::relay::extract::detail(text@);
    let size = choose|size: int| #[trigger]
        crate::relay::extract::fills(detail, size) && message@ == detail.take(size) + "…"@;
    assert(message@ == detail.take(size) + "…"@);
    let shown = error@;
}

/// An answer is given again under its own status, unless that cannot be sent, and with what
/// its body reads as.
pub proof fn law_answers_are_replayed(
    response: IdempotentResponse,
    reading: Option<String>,
    again: Replay,
)
    requires
        call_ensures(replay, (&response, reading), again),
    ensures
        100 <= response.status <= 999 ==> again.status == response.status,
        response.status < 100 || response.status > 999 ==> again.status == 200,
        reading is Some ==> again.body@ == (reading->0)@,
        reading is None ==> again.body@ == "null"@,
{
    let shown = again@;
}

/// Everything is counted from nothing, and a sweep begins with everything that expired.
pub proof fn law_counting_begins_at_nothing(
    counter: Counter,
    gauge: Gauge,
    metrics: Metrics,
    expired: Vec<Uuid>,
    sweep: Sweep,
)
    requires
        call_ensures(Counter::new, (), counter),
        call_ensures(Gauge::new, (), gauge),
        call_ensures(Metrics::new, (), metrics),
        call_ensures(Sweep::new, (expired,), sweep),
    ensures
        counter@ == 0,
        gauge@ == 0,
        metrics.http_requests@ == 0 && metrics.auth_failures@ == 0 && metrics.terminals_open@ == 0,
        metrics.http_request_seconds@.count == 0 && metrics.checkpoint_batch_bytes@.count == 0,
        sweep.expired == expired && sweep.expired_gone == 0 && sweep.closed_gone == 0,
        sweep.used is None && sweep.closed is None,
{
}

/// A message goes on one line: every line end in it becomes a space, and nothing else
/// changes.
pub proof fn law_messages_go_on_one_line(text: Seq<char>, i: int)
    requires
        0 <= i < text.len(),
    ensures
        single_line(text).len() == text.len(),
        text[i] == '\n' ==> single_line(text)[i] == ' ',
        text[i] != '\n' ==> single_line(text)[i] == text[i],
{
}

/// A probe looks at the first line alone, without its end.
pub proof fn law_probes_look_at_the_first_line(line: Seq<char>, rest: Seq<char>)
    requires
        !line.contains('\n'),
    ensures
        first_line(line) == line,
        first_line(line.push('\r').push('\n') + rest) == line,
        line.len() > 0 && line.last() != '\r' ==> first_line(line.push('\n') + rest) == line,
{
    let at = line.len() as int;
    assert forall|i: int| 0 <= i < line.len() implies line[i] != '\n' by {
        assert(line.contains(line[i]));
    }
    lemma_first_of(line, '\n', at);
    let plain = line.push('\n') + rest;
    lemma_first_of(plain, '\n', at);
    assert(plain.take(at) =~= line);
    let ended = line.push('\r').push('\n') + rest;
    lemma_first_of(ended, '\n', at + 1);
    assert(ended.take(at + 1) =~= line.push('\r'));
    assert(line.push('\r').drop_last() =~= line);
}

/// The names of what changed are listed with commas between them.
pub proof fn law_names_are_listed_with_commas(names: Seq<Seq<char>>, name: Seq<char>)
    ensures
        comma_list(seq![name]) == name,
        names.len() > 0 ==> comma_list(names.push(name)) == comma_list(names) + ", "@ + name,
{
    if names.len() > 0 {
        assert(names.push(name).drop_last() =~= names);
    }
}

/// A database is tuned as documented until it is tuned otherwise.
pub proof fn law_tuning_begins_as_documented(pragmas: StoragePragmas)
    requires
        call_ensures(StoragePragmas::default, (), pragmas),
    ensures
        pragmas.synchronous@ == "normal"@,
        pragmas.busy_timeout_ms == 5000,
        pragmas.cache_size_kib == 8192,
        pragmas.wal_autocheckpoint_pages == 4000,
{
    let shown = pragmas@;
}

/// A connection of which nothing is known comes from nowhere, in the clear.
pub proof fn law_unknown_connections_are_not_trusted(
    networks: &[Network],
    forwarded_for: Option<Address>,
    forwarded_proto: Option<String>,
    client: (Address, bool),
)
    requires
        call_ensures(
            resolve_client,
            (None::<ConnMeta>, false, networks, forwarded_for, &forwarded_proto),
            client,
        ),
    ensures
        client.0 == Address::V4(0),
        !client.1,
{
}

} // verus!
