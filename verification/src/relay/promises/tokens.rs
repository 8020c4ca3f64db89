//! What can be counted on of access tokens, of the keys that sign them, and of keys that
//! callers hold.

use crate::encoding::{
    base64url, decoded, is_base64url_char, law_base64url_is_compact,
    law_texts_stand_for_their_bytes,
};
use crate::json::reading::{
    has_integer, has_text, has_texts, lemma_array_is_list, lemma_distinct_members,
    lemma_has_integer, lemma_values,
};
use crate::json::{array_text, is_name, json_string};
use crate::relay::crypto::{
    claims_json, claims_text, hmac_sha256, key_for, mint_token, open_token, opened, Claims, DeviceRole,
    Operation, PrincipalKind, PublicKey, SecretBox, SigningKey, TokenClaims, TokenParts,
};
use crate::relay::error::ApiResult;
use crate::relay::repo::{StoredSigningKey, TerminalState};
use crate::relay::tokens::{
    active_key, build_claims, distinct_ids, entries, law_expired_keys_are_left_out,
    law_keys_are_ordered, lemma_active_key, lemma_found_by_id, open_keys, order, outgoing_until,
    ranks_before, signing_keys, still_verifies, take_over, Entry, KeyEntry, TokenService,
};
use crate::text::{lemma_split_on, lowered, signed_decimal, split_on, texts, trimmed};
use crate::ed25519::{ed25519_accepts, ed25519_valid_key};
use vstd::prelude::*;
use vstd::utf8::encode_utf8;

verus! {

proof fn lemma_claim_names()
    ensures
        is_name("jti"@),
        is_name("sub"@),
        is_name("typ"@),
        is_name("identity_id"@),
        is_name("iss"@),
        is_name("aud"@),
        is_name("iat"@),
        is_name("exp"@),
        is_name("scopes"@),
        is_name("kid"@),
        "jti"@ != "sub"@,
        "jti"@ != "typ"@,
        "jti"@ != "identity_id"@,
        "jti"@ != "iss"@,
        "jti"@ != "aud"@,
        "jti"@ != "iat"@,
        "jti"@ != "exp"@,
        "jti"@ != "scopes"@,
        "jti"@ != "kid"@,
        "sub"@ != "typ"@,
        "sub"@ != "identity_id"@,
        "sub"@ != "iss"@,
        "sub"@ != "aud"@,
        "sub"@ != "iat"@,
        "sub"@ != "exp"@,
        "sub"@ != "scopes"@,
        "sub"@ != "kid"@,
        "typ"@ != "identity_id"@,
        "typ"@ != "iss"@,
        "typ"@ != "aud"@,
        "typ"@ != "iat"@,
        "typ"@ != "exp"@,
        "typ"@ != "scopes"@,
        "typ"@ != "kid"@,
        "identity_id"@ != "iss"@,
        "identity_id"@ != "aud"@,
        "identity_id"@ != "iat"@,
        "identity_id"@ != "exp"@,
        "identity_id"@ != "scopes"@,
        "identity_id"@ != "kid"@,
        "iss"@ != "aud"@,
        "iss"@ != "iat"@,
        "iss"@ != "exp"@,
        "iss"@ != "scopes"@,
        "iss"@ != "kid"@,
        "aud"@ != "iat"@,
        "aud"@ != "exp"@,
        "aud"@ != "scopes"@,
        "aud"@ != "kid"@,
        "iat"@ != "exp"@,
        "iat"@ != "scopes"@,
        "iat"@ != "kid"@,
        "exp"@ != "scopes"@,
        "exp"@ != "kid"@,
        "scopes"@ != "kid"@,
{
    reveal_strlit("jti");
    reveal_strlit("sub");
    reveal_strlit("typ");
    reveal_strlit("identity_id");
    reveal_strlit("iss");
    reveal_strlit("aud");
    reveal_strlit("iat");
    reveal_strlit("exp");
    reveal_strlit("scopes");
    reveal_strlit("kid");
    assert(is_name("jti"@));
    assert(is_name("sub"@));
    assert(is_name("typ"@));
    assert(is_name("identity_id"@));
    assert(is_name("iss"@));
    assert(is_name("aud"@));
    assert(is_name("iat"@));
    assert(is_name("exp"@));
    assert(is_name("scopes"@));
    assert(is_name("kid"@));
    assert("jti"@[0] != "sub"@[0]);
    assert("jti"@[0] != "typ"@[0]);
    assert("jti"@[0] != "iss"@[0]);
    assert("jti"@[0] != "aud"@[0]);
    assert("jti"@[0] != "iat"@[0]);
    assert("jti"@[0] != "exp"@[0]);
    assert("jti"@[0] != "kid"@[0]);
    assert("sub"@[0] != "typ"@[0]);
    assert("sub"@[0] != "iss"@[0]);
    assert("sub"@[0] != "aud"@[0]);
    assert("sub"@[0] != "iat"@[0]);
    assert("sub"@[0] != "exp"@[0]);
    assert("sub"@[0] != "kid"@[0]);
    assert("typ"@[0] != "iss"@[0]);
    assert("typ"@[0] != "aud"@[0]);
    assert("typ"@[0] != "iat"@[0]);
    assert("typ"@[0] != "exp"@[0]);
    assert("typ"@[0] != "kid"@[0]);
    assert("iss"@[0] != "aud"@[0]);
    assert("iss"@[1] != "iat"@[1]);
    assert("iss"@[0] != "exp"@[0]);
    assert("iss"@[0] != "kid"@[0]);
    assert("aud"@[0] != "iat"@[0]);
    assert("aud"@[0] != "exp"@[0]);
    assert("aud"@[0] != "kid"@[0]);
    assert("iat"@[0] != "exp"@[0]);
    assert("iat"@[0] != "kid"@[0]);
    assert("exp"@[0] != "kid"@[0]);
}

/// The claims of a token are read as they were made: whose token it is and what kind of
/// principal that is, who issued it and for whom, from when to when it is good, what it
/// allows, and under which key it stands.
pub proof fn law_claims_are_read_as_made(claims: TokenClaims, json: String)
    requires
        call_ensures(claims_json, (&claims,), json),
    ensures
        has_text(json@, "jti"@, claims.jti@),
        has_text(json@, "sub"@, claims.sub@),
        claims.principal == PrincipalKind::Identity ==> has_text(json@, "typ"@, "identity"@),
        claims.principal == PrincipalKind::Device ==> has_text(json@, "typ"@, "device"@),
        has_text(json@, "identity_id"@, claims.identity_id@),
        has_text(json@, "iss"@, claims.iss@),
        has_text(json@, "aud"@, claims.aud@),
        has_integer(json@, "iat"@, claims.iat as int),
        has_integer(json@, "exp"@, claims.exp as int),
        has_texts(json@, "scopes"@, texts(claims.scopes@)),
        has_text(json@, "kid"@, claims.kid@),
{
    lemma_claim_names();
    lemma_values();
    lemma_array_is_list(texts(claims.scopes@));
    let list = seq![
        ("jti"@, json_string(claims.jti@)),
        ("sub"@, json_string(claims.sub@)),
        ("typ"@, json_string(claims.principal.word())),
        ("identity_id"@, json_string(claims.identity_id@)),
        ("iss"@, json_string(claims.iss@)),
        ("aud"@, json_string(claims.aud@)),
        ("iat"@, signed_decimal(claims.iat as int)),
        ("exp"@, signed_decimal(claims.exp as int)),
        ("scopes"@, array_text(texts(claims.scopes@))),
        ("kid"@, json_string(claims.kid@)),
    ];
    assert(list[0].0 == "jti"@);
    assert(list[1].0 == "sub"@);
    assert(list[2].0 == "typ"@);
    assert(list[3].0 == "identity_id"@);
    assert(list[4].0 == "iss"@);
    assert(list[5].0 == "aud"@);
    assert(list[6].0 == "iat"@);
    assert(list[7].0 == "exp"@);
    assert(list[8].0 == "scopes"@);
    assert(list[9].0 == "kid"@);
    lemma_distinct_members(list);
    lemma_has_integer(json@, "iat"@, claims.iat as int);
    lemma_has_integer(json@, "exp"@, claims.exp as int);
}

/// A token comes apart into what it was put together from: the claims' text, what the tag
/// is computed over, which is the rest of the token, and the tag of the key that minted it.
pub proof fn law_tokens_come_apart(
    key: SigningKey,
    claims: TokenClaims,
    token: String,
    text: &str,
    result: ApiResult<TokenParts>,
)
    requires
        call_ensures(mint_token, (&key, &claims), token),
        text@ == token@,
        call_ensures(open_token, (text,), result),
    ensures
        result matches Ok(parts) && {
            &&& parts.payload@ == encode_utf8(claims_text(claims@))
            &&& parts.tag@ == hmac_sha256(key.secret@, encode_utf8(parts.signing_input@))
            &&& token@ == parts.signing_input@.push('.') + base64url(parts.tag@)
        },
{
    let payload = base64url(encode_utf8(claims_text(claims@)));
    let input = "v1"@.push('.') + payload;
    let tag = base64url(hmac_sha256(key.secret@, encode_utf8(input)));
    law_base64url_is_compact(encode_utf8(claims_text(claims@)));
    law_base64url_is_compact(hmac_sha256(key.secret@, encode_utf8(input)));
    law_texts_stand_for_their_bytes(encode_utf8(claims_text(claims@)));
    law_texts_stand_for_their_bytes(hmac_sha256(key.secret@, encode_utf8(input)));
    reveal_strlit("v1");
    assert(!"v1"@.contains('.'));
    assert(!payload.contains('.')) by {
        if payload.contains('.') {
            let i = choose|i: int| 0 <= i < payload.len() && payload[i] == '.';
            assert(is_base64url_char(payload[i]));
        }
    }
    assert(!tag.contains('.')) by {
        if tag.contains('.') {
            let i = choose|i: int| 0 <= i < tag.len() && tag[i] == '.';
            assert(is_base64url_char(tag[i]));
        }
    }
    lemma_split_on("v1"@, '.', payload.push('.') + tag);
    lemma_split_on(payload, '.', tag);
    lemma_split_on(tag, '.', tag);
    assert(token@ =~= "v1"@.push('.') + (payload.push('.') + tag));
    let pieces = split_on(token@, '.');
    assert(pieces =~= seq!["v1"@, payload, tag]);
}

proof fn lemma_unknown_id(list: Seq<SigningKey>, kid: Seq<char>)
    requires
        forall|i: int| 0 <= i < list.len() ==> (#[trigger] list[i]).kid@ != kid,
    ensures
        key_for(list, kid) is None,
    decreases list.len(),
{
    if list.len() > 0 {
        assert(list[0].kid@ != kid);
        let rest = list.drop_first();
        assert forall|i: int| 0 <= i < rest.len() implies (#[trigger] rest[i]).kid@ != kid by {
            assert(list[i + 1].kid@ != kid);
        }
        lemma_unknown_id(rest, kid);
    }
}

/// A token is accepted if and only if its tag is that of the key that its claims name, the
/// relay is its issuer and its audience, and it is neither too old nor too new; and it
/// stands for its claims.
pub proof fn law_tokens_are_accepted_as_signed(
    service: TokenService,
    parts: TokenParts,
    claims: TokenClaims,
    origin: &str,
    now: i64,
    skew: i64,
    result: ApiResult<TokenClaims>,
)
    requires
        distinct_ids(service.keys@),
        call_ensures(
            TokenService::verify,
            (&service, &parts, Some(claims), origin, now, skew),
            result,
        ),
    ensures
        result is Ok <==> {
            &&& exists|i: int|
                0 <= i < service.keys@.len() && (#[trigger] service.keys@[i]).key.kid@
                    == claims.kid@ && parts.tag@ == hmac_sha256(
                    service.keys@[i].key.secret@,
                    encode_utf8(parts.signing_input@),
                )
            &&& claims.iss@ == origin@
            &&& claims.aud@ == origin@
            &&& now <= claims.exp + skew
            &&& claims.iat <= now + skew
        },
        result is Ok ==> result->Ok_0@ == claims@,
        result is Err ==> result->Err_0@.status == 401,
{
    let keys = signing_keys(service.keys@);
    if exists|i: int|
        0 <= i < service.keys@.len() && (#[trigger] service.keys@[i]).key.kid@ == claims.kid@ {
        let i = choose|i: int|
            0 <= i < service.keys@.len() && (#[trigger] service.keys@[i]).key.kid@ == claims.kid@;
        lemma_found_by_id(service.keys@, i);
        assert forall|j: int|
            0 <= j < service.keys@.len() && (#[trigger] service.keys@[j]).key.kid@
                == claims.kid@ implies j == i by {
            if j < i {
                assert(service.keys@[j].key.kid@ != service.keys@[i].key.kid@);
            } else if i < j {
                assert(service.keys@[i].key.kid@ != service.keys@[j].key.kid@);
            }
        }
    } else {
        assert forall|i: int| 0 <= i < keys.len() implies (#[trigger] keys[i]).kid@
            != claims.kid@ by {
            assert(service.keys@[i].key.kid@ != claims.kid@);
        }
        lemma_unknown_id(keys, claims.kid@);
    }
}

/// A token is minted with an active key, whose ID its claims then carry beside everything
/// that they were made with; and one is minted if and only if there is such a key.
pub proof fn law_tokens_are_minted_with_an_active_key(
    service: TokenService,
    claims: TokenClaims,
    result: ApiResult<String>,
)
    requires
        call_ensures(TokenService::mint, (&service, claims), result),
    ensures
        result is Ok <==> exists|i: int|
            0 <= i < service.keys@.len() && (#[trigger] service.keys@[i]).active,
        result is Ok ==> exists|i: int|
            0 <= i < service.keys@.len() && (#[trigger] service.keys@[i]).active && ({
                let key = service.keys@[i].key;
                let stamped = Claims { kid: key.kid@, ..claims@ };
                let input = "v1."@ + base64url(encode_utf8(claims_text(stamped)));
                result->Ok_0@ == input + "."@ + base64url(
                    hmac_sha256(key.secret@, encode_utf8(input)),
                )
            }),
{
    let all = entries(service.keys@);
    if active_key(all) is Some {
        let at = lemma_active_key(all);
        assert(all[at] == service.keys@[at]@);
        lemma_active_is_active(all);
        reveal_strlit("v1");
        reveal_strlit("v1.");
        reveal_strlit(".");
        let key = service.keys@[at].key;
        let payload = base64url(encode_utf8(claims_text(Claims { kid: key.kid@, ..claims@ })));
        assert("v1."@ + payload =~= "v1"@.push('.') + payload);
        let input = "v1."@ + payload;
        let tag = base64url(hmac_sha256(key.secret@, encode_utf8(input)));
        assert(input + "."@ + tag =~= input.push('.') + tag);
        assert(service.keys@[at].active);
    } else {
        lemma_none_active(all);
        assert forall|i: int| 0 <= i < service.keys@.len() implies !(
        #[trigger] service.keys@[i]).active by {
            assert(!all[i].active);
        }
    }
}

proof fn lemma_active_is_active(list: Seq<Entry>)
    requires
        active_key(list) is Some,
    ensures
        active_key(list)->0.active,
    decreases list.len(),
{
    if !list[0].active {
        lemma_active_is_active(list.drop_first());
    }
}

proof fn lemma_none_active(list: Seq<Entry>)
    requires
        active_key(list) is None,
    ensures
        forall|i: int| 0 <= i < list.len() ==> !(#[trigger] list[i]).active,
    decreases list.len(),
{
    if list.len() > 0 {
        let rest = list.drop_first();
        lemma_none_active(rest);
        assert forall|i: int| 0 <= i < list.len() implies !(#[trigger] list[i]).active by {
            if i > 0 {
                assert(!rest[i - 1].active);
            }
        }
    }
}

/// Claims are for whom they are built, for as long as the lifetime says, and by and for
/// the relay itself.
pub proof fn law_claims_are_for_their_principal(
    origin: &str,
    issued: i64,
    ttl: i64,
    principal: PrincipalKind,
    subject: &str,
    identity_id: &str,
    scopes: Vec<String>,
    claims: TokenClaims,
)
    requires
        i64::MIN <= issued + ttl <= i64::MAX,
        call_ensures(
            build_claims,
            (origin, issued, ttl, principal, subject, identity_id, scopes),
            claims,
        ),
    ensures
        claims.principal == principal,
        claims.sub@ == subject@,
        claims.identity_id@ == identity_id@,
        claims.iss@ == origin@,
        claims.aud@ == origin@,
        claims.iat == issued,
        claims.exp - claims.iat == ttl,
        texts(claims.scopes@) == texts(scopes@),
{
}

/// The key that tokens are minted with is due for a change once it is older than the
/// rotation age, and not before; without one, a change is due at once.
pub proof fn law_keys_are_rotated_when_due(
    service: TokenService,
    now: i64,
    seconds: i64,
    due: bool,
)
    requires
        call_ensures(TokenService::is_rotation_due, (&service, now, seconds), due),
    ensures
        (forall|i: int| 0 <= i < service.keys@.len() ==> !(#[trigger] service.keys@[i]).active)
            ==> due,
        (exists|i: int| 0 <= i < service.keys@.len() && (#[trigger] service.keys@[i]).active)
            && (forall|i: int|
            0 <= i < service.keys@.len() && (#[trigger] service.keys@[i]).active ==> now
                - service.keys@[i].created_at > seconds * 1000) ==> due,
        (exists|i: int| 0 <= i < service.keys@.len() && (#[trigger] service.keys@[i]).active)
            && (forall|i: int|
            0 <= i < service.keys@.len() && (#[trigger] service.keys@[i]).active ==> now
                - service.keys@[i].created_at <= seconds * 1000) ==> !due,
{
    let all = entries(service.keys@);
    if active_key(all) is Some {
        let at = lemma_active_key(all);
        assert(all[at] == service.keys@[at]@);
        lemma_active_is_active(all);
        assert(service.keys@[at].active);
    } else {
        lemma_none_active(all);
        assert forall|i: int| 0 <= i < service.keys@.len() implies !(
        #[trigger] service.keys@[i]).active by {
            assert(!all[i].active);
        }
    }
}

/// A key that is rotated out verifies for the whole overlap, in seconds, and no longer.
pub proof fn law_outgoing_keys_overlap(now: i64, seconds: i64, until: i64)
    requires
        i64::MIN <= now + seconds * 1000 <= i64::MAX,
        call_ensures(outgoing_until, (now, seconds), until),
    ensures
        until - now == seconds * 1000,
{
}

/// A fresh key takes over alone: it is the only active key afterwards, and the others stay
/// otherwise as they were.
pub proof fn law_one_key_is_active(list: Vec<KeyEntry>, fresh: KeyEntry, all: Vec<KeyEntry>)
    requires
        fresh.active,
        call_ensures(take_over, (list, fresh), all),
    ensures
        all@.len() == list@.len() + 1,
        all@[0]@ == fresh@,
        forall|i: int|
            0 < i < all@.len() ==> {
                &&& !(#[trigger] all@[i]).active
                &&& all@[i].key.kid@ == list@[i - 1].key.kid@
                &&& all@[i].key.secret@ == list@[i - 1].key.secret@
                &&& all@[i].created_at == list@[i - 1].created_at
            },
{
    let views = entries(all@);
    assert(views.len() == all@.len());
    assert(views[0] == all@[0]@);
    assert forall|i: int| 0 < i < all@.len() implies {
        &&& !(#[trigger] all@[i]).active
        &&& all@[i].key.kid@ == list@[i - 1].key.kid@
        &&& all@[i].key.secret@ == list@[i - 1].key.secret@
        &&& all@[i].created_at == list@[i - 1].created_at
    } by {
        assert(views[i] == all@[i]@);
        assert(entries(list@)[i - 1] == list@[i - 1]@);
    }
}

/// The words for roles, operations, principals and states.
pub proof fn law_words_are_as_documented(
    role: DeviceRole,
    operation: Operation,
    kind: PrincipalKind,
    state: TerminalState,
    role_word: &'static str,
    operation_word: &'static str,
    kind_word: &'static str,
    state_word: &'static str,
)
    requires
        call_ensures(DeviceRole::as_str, (&role,), role_word),
        call_ensures(Operation::as_str, (&operation,), operation_word),
        call_ensures(PrincipalKind::as_str, (&kind,), kind_word),
        call_ensures(TerminalState::as_str, (&state,), state_word),
    ensures
        role_word@ == (match role {
            DeviceRole::Publisher => "publisher"@,
            DeviceRole::Client => "client"@,
            DeviceRole::Both => "both"@,
        }),
        operation_word@ == (match operation {
            Operation::RegisterIdentity => "register_identity"@,
            Operation::AuthenticateIdentity => "authenticate_identity"@,
            Operation::RegisterDevice => "register_device"@,
            Operation::AuthenticateDevice => "authenticate_device"@,
        }),
        kind_word@ == (match kind {
            PrincipalKind::Identity => "identity"@,
            PrincipalKind::Device => "device"@,
        }),
        state_word@ == (match state {
            TerminalState::Open => "open"@,
            TerminalState::Closed => "closed"@,
        }),
{
}

/// A word stands for what it is the word of, and for nothing else.
pub proof fn law_words_read_back(
    role: DeviceRole,
    operation: Operation,
    state: TerminalState,
    role_word: &'static str,
    operation_word: &'static str,
    state_word: &'static str,
    role_read: Option<DeviceRole>,
    operation_read: Option<Operation>,
    state_read: Option<TerminalState>,
)
    requires
        call_ensures(DeviceRole::as_str, (&role,), role_word),
        call_ensures(Operation::as_str, (&operation,), operation_word),
        call_ensures(TerminalState::as_str, (&state,), state_word),
        call_ensures(DeviceRole::parse, (role_word,), role_read),
        call_ensures(Operation::parse, (operation_word,), operation_read),
        call_ensures(TerminalState::parse, (state_word,), state_read),
    ensures
        role_read == Some(role),
        operation_read == Some(operation),
        state_read == Some(state),
{
    if let Some(read) = role_read {
        crate::relay::crypto::law_role_words_differ(read, role);
    }
    if let Some(read) = operation_read {
        crate::relay::crypto::law_operation_words_differ(read, operation);
    }
    if let Some(read) = state_read {
        crate::relay::repo::law_state_words_differ(read, state);
    }
}

/// Publishers publish, clients mirror, and a device that is both does both.
pub proof fn law_roles_are_for_what_they_say(role: DeviceRole, publishes: bool, mirrors: bool)
    requires
        call_ensures(DeviceRole::may_publish, (&role,), publishes),
        call_ensures(DeviceRole::may_mirror, (&role,), mirrors),
    ensures
        publishes <==> role == DeviceRole::Publisher || role == DeviceRole::Both,
        mirrors <==> role == DeviceRole::Client || role == DeviceRole::Both,
{
}

/// A key is admitted if and only if its algorithm is Ed25519, under whatever spelling, and
/// enabled, and its text stands for the 32 bytes of a point; and it is those bytes.
pub proof fn law_keys_are_admitted_as_given(
    algorithm: &str,
    encoded: &str,
    supported: &[String],
    result: ApiResult<PublicKey>,
)
    requires
        call_ensures(PublicKey::parse, (algorithm, encoded, supported), result),
    ensures
        result is Ok <==> {
            &&& lowered(trimmed(algorithm@)) == "ed25519"@
            &&& exists|i: int|
                0 <= i < supported@.len() && lowered((#[trigger] supported@[i])@) == lowered(
                    "ed25519"@,
                )
            &&& decoded(encoded@) is Some
            &&& (decoded(encoded@)->0).len() == 32
            &&& ed25519_valid_key(decoded(encoded@)->0)
        },
        result is Ok ==> {
            &&& result->Ok_0.algorithm@ == "ed25519"@
            &&& result->Ok_0.bytes@ == decoded(encoded@)->0
        },
{
    let list = texts(supported@);
    if exists|i: int|
        0 <= i < supported@.len() && lowered((#[trigger] supported@[i])@) == lowered("ed25519"@) {
        let i = choose|i: int|
            0 <= i < supported@.len() && lowered((#[trigger] supported@[i])@) == lowered(
                "ed25519"@,
            );
        assert(list[i] == supported@[i]@);
    }
    if exists|i: int| 0 <= i < list.len() && lowered(#[trigger] list[i]) == lowered("ed25519"@) {
        let i = choose|i: int|
            0 <= i < list.len() && lowered(#[trigger] list[i]) == lowered("ed25519"@);
        assert(list[i] == supported@[i]@);
    }
}

/// A key accepts exactly the signatures that Ed25519 accepts for its bytes.
pub proof fn law_keys_accept_their_signatures(
    key: PublicKey,
    message: &[u8],
    signature: &[u8],
    accepted: bool,
)
    requires
        key.algorithm@ == "ed25519"@,
        key.bytes@.len() == 32,
        call_ensures(PublicKey::verify, (&key, message, signature), accepted),
    ensures
        accepted <==> signature@.len() == 64 && ed25519_accepts(key.bytes@, message@, signature@),
{
}

/// A scope is held if and only if it is listed.
pub proof fn law_listed_scopes_are_held(claims: TokenClaims, scope: &str, held: bool)
    requires
        call_ensures(TokenClaims::has_scope, (&claims, scope), held),
    ensures
        held <==> exists|i: int|
            0 <= i < claims.scopes@.len() && (#[trigger] claims.scopes@[i])@ == scope@,
{
    let list = texts(claims.scopes@);
    if list.contains(scope@) {
        let i = choose|i: int| 0 <= i < list.len() && list[i] == scope@;
        assert(claims.scopes@[i]@ == scope@);
    }
    if exists|i: int| 0 <= i < claims.scopes@.len() && (#[trigger] claims.scopes@[i])@ == scope@ {
        let i = choose|i: int|
            0 <= i < claims.scopes@.len() && (#[trigger] claims.scopes@[i])@ == scope@;
        assert(list[i] == scope@);
    }
}

/// Keys are looked through with the active ones first, and of those alike the younger ones
/// first.
pub proof fn law_younger_keys_come_first(list: Vec<KeyEntry>, sorted: Vec<KeyEntry>, i: int, j: int)
    requires
        call_ensures(order, (list,), sorted),
        0 <= i < j < sorted@.len(),
    ensures
        sorted@.len() == list@.len(),
        sorted@[j].active ==> sorted@[i].active,
        sorted@[i].active == sorted@[j].active ==> sorted@[i].created_at >= sorted@[j].created_at,
{
    let views = entries(sorted@);
    assert(views.len() == sorted@.len());
    assert(views[i] == sorted@[i]@ && views[j] == sorted@[j]@);
    law_keys_are_ordered(entries(list@));
    assert(!ranks_before(views[j], views[i]));
    vstd::seq_lib::to_multiset_len(views);
    vstd::seq_lib::to_multiset_len(entries(list@));
    assert(entries(list@).len() == list@.len());
}

/// A key is used only while it is active or its overlap has not run out.
pub proof fn law_keys_are_used_in_their_time(
    secrets: SecretBox,
    stored: Vec<StoredSigningKey>,
    now: i64,
    list: Vec<KeyEntry>,
    k: int,
)
    requires
        call_ensures(open_keys, (&secrets, &stored, now), Ok(list)),
        0 <= k < list@.len(),
    ensures
        exists|i: int|
            0 <= i < stored@.len() && (#[trigger] stored@[i]).kid@ == list@[k].key.kid@ && (
            stored@[i].active || stored@[i].not_after is None || now <= stored@[i].not_after->0),
{
    let views = entries(list@);
    assert(views[k] == list@[k]@);
    assert(views.contains(views[k]));
    law_expired_keys_are_left_out(secrets@, stored@, now, views[k]);
    let i = choose|i: int|
        0 <= i < stored@.len() && still_verifies(#[trigger] stored@[i], now) && stored@[i].kid@
            == views[k].kid && opened(secrets@, stored@[i].nonce@, stored@[i].ciphertext@) == Some(
            views[k].secret,
        );
    assert(stored@[i].kid@ == list@[k].key.kid@);
}

} // verus!
