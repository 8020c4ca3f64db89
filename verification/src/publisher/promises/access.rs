//! What can be counted on when this machine proves who it is.

use crate::ed25519::{ed25519_public_key, ed25519_signature};
use crate::encoding::{
    base64url, be64, concatenated, decoded, law_splitting_undoes_joining, lemma_split_fields,
    lengths_fit, sha256_digest, split_fields,
};
use crate::json::reading::{
    has_member, has_no_member, has_text, is_value, lemma_distinct_members, lemma_members_in_order,
    lemma_next_member, lemma_object_is_value, lemma_one_member, lemma_values, reads_as,
};
use crate::json::{
    comes_first, comes_first_at, is_name, is_orderly, json_string, members, object_text,
};
use crate::paths::{joined, System};
use crate::publisher::api::{
    challenge_body, device_body, key_object, listing_refusal, proof_body, read_texts, refusal,
    sign_challenge, sign_registration, ApiError, Challenge, Client,
};
use crate::publisher::backoff::{backoff_ms, delay_before};
use crate::publisher::crypto::{fingerprint, fingerprint_text, fingerprint_under, KeyPair};
use crate::publisher::pairing::{document, encode, PairingCode};
use crate::publisher::pty::default_shell;
use crate::publisher::state::{check_permissions, default_path, State, StateError};
use crate::relay::crypto::{Operation, SigningInput};
use crate::text::{texts, trimmed, without_trailing};
use vstd::prelude::*;
use vstd::utf8::*;

verus! {

proof fn lemma_names()
    ensures
        is_name("algorithm"@),
        is_name("public_key"@),
        is_name("challenge_id"@),
        is_name("signature"@),
        is_name("device_signature"@),
        is_name("key"@),
        is_name("name"@),
        is_name("role"@),
        is_name("operation"@),
        is_name("owner_identity_id"@),
        comes_first("algorithm"@, "public_key"@),
        comes_first("challenge_id"@, "signature"@),
        comes_first("challenge_id"@, "device_signature"@),
        comes_first("device_signature"@, "key"@),
        comes_first("key"@, "name"@),
        comes_first("name"@, "role"@),
        comes_first("key"@, "operation"@),
        comes_first("operation"@, "owner_identity_id"@),
{
    reveal_strlit("algorithm");
    reveal_strlit("public_key");
    reveal_strlit("challenge_id");
    reveal_strlit("signature");
    reveal_strlit("device_signature");
    reveal_strlit("key");
    reveal_strlit("name");
    reveal_strlit("role");
    reveal_strlit("operation");
    reveal_strlit("owner_identity_id");
    assert(is_name("algorithm"@));
    assert(is_name("public_key"@));
    assert(is_name("challenge_id"@));
    assert(is_name("signature"@));
    assert(is_name("device_signature"@));
    assert(is_name("key"@));
    assert(is_name("name"@));
    assert(is_name("role"@));
    assert(is_name("operation"@));
    assert(is_name("owner_identity_id"@));
    assert("algorithm"@.take(0) =~= "public_key"@.take(0));
    assert(comes_first_at("algorithm"@, "public_key"@, 0));
    assert("challenge_id"@.take(0) =~= "signature"@.take(0));
    assert(comes_first_at("challenge_id"@, "signature"@, 0));
    assert("challenge_id"@.take(0) =~= "device_signature"@.take(0));
    assert(comes_first_at("challenge_id"@, "device_signature"@, 0));
    assert("device_signature"@.take(0) =~= "key"@.take(0));
    assert(comes_first_at("device_signature"@, "key"@, 0));
    assert("key"@.take(0) =~= "name"@.take(0));
    assert(comes_first_at("key"@, "name"@, 0));
    assert("name"@.take(0) =~= "role"@.take(0));
    assert(comes_first_at("name"@, "role"@, 0));
    assert("key"@.take(0) =~= "operation"@.take(0));
    assert(comes_first_at("key"@, "operation"@, 0));
    assert("operation"@.take(1) =~= "owner_identity_id"@.take(1));
    assert(comes_first_at("operation"@, "owner_identity_id"@, 1));
}

proof fn lemma_key_reads(public_key: Seq<char>)
    ensures
        has_text(key_object(public_key), "algorithm"@, "ed25519"@),
        has_text(key_object(public_key), "public_key"@, public_key),
        is_value(key_object(public_key)),
{
    lemma_names();
    lemma_values();
    let list = seq![
        ("algorithm"@, json_string("ed25519"@)),
        ("public_key"@, json_string(public_key)),
    ];
    assert(list[0].0 == "algorithm"@);
    assert(list[1].0 == "public_key"@);
    assert(is_orderly(list));
    lemma_members_in_order(list);
    lemma_object_is_value(list);
}

/// A request for a challenge names the operation, the key and, if there is one, the owner.
pub proof fn law_challenges_are_asked_for_by_name(
    operation: &str,
    public_key: &str,
    owner: Option<String>,
    body: String,
)
    requires
        call_ensures(challenge_body, (operation, public_key, &owner), body),
    ensures
        has_text(body@, "operation"@, operation@),
        exists|key: Seq<char>| #[trigger]
            has_member(body@, "key"@, key) && has_text(key, "algorithm"@, "ed25519"@) && has_text(
                key,
                "public_key"@,
                public_key@,
            ),
        owner is Some ==> has_text(body@, "owner_identity_id"@, (owner->0)@),
        owner is None ==> has_no_member(body@, "owner_identity_id"@),
{
    lemma_names();
    lemma_values();
    lemma_key_reads(public_key@);
    reveal_strlit("key");
    reveal_strlit("operation");
    reveal_strlit("owner_identity_id");
    assert("key"@.len() == 3 && "operation"@.len() == 9 && "owner_identity_id"@.len() == 17);
    let front = seq![
        ("key"@, key_object(public_key@)),
        ("operation"@, json_string(operation@)),
    ];
    if owner is Some {
        let list = front + seq![("owner_identity_id"@, json_string((owner->0)@))];
        assert(list[0].0 == "key"@);
        assert(list[1].0 == "operation"@);
        assert(list[2].0 == "owner_identity_id"@);
        assert(is_orderly(list));
        lemma_members_in_order(list);
    } else {
        assert(front + Seq::<(Seq<char>, Seq<char>)>::empty() =~= front);
        assert(front[0].0 == "key"@);
        assert(front[1].0 == "operation"@);
        assert(is_orderly(front));
        lemma_members_in_order(front);
        assert(reads_as(body@, front));
    }
}

/// A proof names its challenge and carries the signature.
pub proof fn law_proofs_carry_their_signature(challenge_id: &str, signature: &str, body: String)
    requires
        call_ensures(proof_body, (challenge_id, signature), body),
    ensures
        has_text(body@, "challenge_id"@, challenge_id@),
        has_text(body@, "signature"@, signature@),
{
    lemma_names();
    lemma_values();
    let list = seq![
        ("challenge_id"@, json_string(challenge_id@)),
        ("signature"@, json_string(signature@)),
    ];
    assert(list[0].0 == "challenge_id"@);
    assert(list[1].0 == "signature"@);
    assert(is_orderly(list));
    lemma_members_in_order(list);
}

/// A registration carries the device's name, key and role, and the challenge with its
/// signature.
pub proof fn law_registrations_say_what_is_registered(
    name: &str,
    public_key: &str,
    challenge_id: &str,
    signature: &str,
    role: &str,
    body: String,
)
    requires
        call_ensures(device_body, (name, public_key, challenge_id, signature, role), body),
    ensures
        has_text(body@, "challenge_id"@, challenge_id@),
        has_text(body@, "device_signature"@, signature@),
        has_text(body@, "name"@, name@),
        has_text(body@, "role"@, role@),
        exists|key: Seq<char>| #[trigger]
            has_member(body@, "key"@, key) && has_text(key, "algorithm"@, "ed25519"@) && has_text(
                key,
                "public_key"@,
                public_key@,
            ),
{
    lemma_names();
    lemma_values();
    lemma_key_reads(public_key@);
    let list = seq![
        ("challenge_id"@, json_string(challenge_id@)),
        ("device_signature"@, json_string(signature@)),
        ("key"@, key_object(public_key@)),
        ("name"@, json_string(name@)),
        ("role"@, json_string(role@)),
    ];
    assert(list[0].0 == "challenge_id"@);
    assert(list[1].0 == "device_signature"@);
    assert(list[2].0 == "key"@);
    assert(list[3].0 == "name"@);
    assert(list[4].0 == "role"@);
    assert(is_orderly(list));
    lemma_members_in_order(list);
}

/// What is signed for a challenge are these fields, in this order.
pub proof fn law_signing_input_has_its_fields_in_order(input: SigningInput, bytes: Vec<u8>)
    requires
        lengths_fit(input@.fields()),
        call_ensures(SigningInput::encode, (&input,), bytes),
    ensures
        split_fields(bytes@) matches Some(fields) && {
            &&& fields.len() == 9
            &&& fields[0] == encode_utf8("terminal-relay-challenge-v1"@)
            &&& fields[1] == encode_utf8(input.origin@)
            &&& fields[2] == encode_utf8(input.challenge_id@)
            &&& fields[3] == input.challenge@
            &&& fields[4] == encode_utf8(
                match input.operation {
                    Operation::RegisterIdentity => "register_identity"@,
                    Operation::AuthenticateIdentity => "authenticate_identity"@,
                    Operation::RegisterDevice => "register_device"@,
                    Operation::AuthenticateDevice => "authenticate_device"@,
                },
            )
            &&& fields[5] == encode_utf8(input.key_fingerprint@)
            &&& fields[6] == encode_utf8(input.owner_identity_id@)
            &&& fields[7] == encode_utf8(input.device_key_fingerprint@)
            &&& fields[8] == be64(input.expires_at_unix_ms as nat)
        },
{
    let fields = input@.fields();
    law_splitting_undoes_joining(fields, fields);
    lemma_split_fields(bytes@, fields);
}

/// A challenge is signed if and only if it is one of this protocol, for the operation that
/// was asked for, for this key and, where that matters, for this owner; and what is signed
/// is the challenge itself.
pub proof fn law_challenges_are_signed_as_intended(
    challenge: Challenge,
    key: KeyPair,
    operation: &str,
    owner: Option<String>,
    result: Result<String, ApiError>,
)
    requires
        call_ensures(sign_challenge, (&challenge, &key, operation, &owner), result),
    ensures
        ({
            let bytes = decoded(challenge.signing_input@)->0;
            let fields = read_texts(split_fields(bytes)->0);
            &&& result is Ok <==> {
                &&& decoded(challenge.signing_input@) is Some
                &&& split_fields(bytes) is Some
                &&& fields.len() == 9
                &&& fields[0] == "terminal-relay-challenge-v1"@
                &&& fields[4] == operation@
                &&& fields[5] == fingerprint_text("ed25519"@, ed25519_public_key(key@))
                &&& owner is Some ==> fields[6] == (owner->0)@
            }
            &&& result is Ok ==> result->Ok_0@ == base64url(ed25519_signature(key@, bytes))
            &&& result is Err ==> result->Err_0 is Malformed
        }),
{
    if let Err(error) = result {
        let shown = error@;
    }
}

/// A device is registered with its own key, for the identity that registers it, and not
/// without a key.
pub proof fn law_registrations_are_signed_for_their_owner(
    challenge: Challenge,
    key: KeyPair,
    identity_id: &str,
    owner: String,
    operation: &str,
    without: Result<String, ApiError>,
    result: Result<String, ApiError>,
    signed: Result<String, ApiError>,
)
    requires
        owner@ == identity_id@,
        operation@ == "register_device"@,
        call_ensures(sign_registration, (&challenge, &None::<KeyPair>, identity_id), without),
        call_ensures(sign_registration, (&challenge, &Some(key), identity_id), result),
        call_ensures(sign_challenge, (&challenge, &key, operation, &Some(owner)), signed),
    ensures
        without is Err,
        result is Ok <==> signed is Ok,
        result is Ok ==> result->Ok_0@ == signed->Ok_0@,
{
}

/// A fingerprint is that of the algorithm and the key, under the context that is kept for
/// fingerprints; a bare key is one of Ed25519.
pub proof fn law_fingerprints_are_of_the_key(
    algorithm: &str,
    key: &[u8],
    under: String,
    bare: String,
)
    requires
        call_ensures(fingerprint_under, (algorithm, key), under),
        call_ensures(fingerprint, (key,), bare),
    ensures
        under@ == base64url(
            sha256_digest(
                concatenated(
                    seq![
                        encode_utf8("terminal-relay-identity-v1"@),
                        encode_utf8(algorithm@),
                        key@,
                    ],
                ),
            ),
        ),
        algorithm@ == "ed25519"@ ==> bare@ == under@,
{
}

/// A refusal is read as what it says it is; one that says nothing is told as it stands.
pub proof fn law_refusals_are_read(
    status: u16,
    body: &str,
    code: Option<String>,
    message: Option<String>,
    error: ApiError,
    listing: ApiError,
)
    requires
        call_ensures(refusal, (status, body, code, message), error),
        call_ensures(listing_refusal, (status, body), listing),
    ensures
        error matches ApiError::Relay { status: told, code: kind, message: words } && {
            &&& told == status
            &&& code is Some && message is Some ==> kind@ == (code->0)@ && words@ == (message->0)@
            &&& code is None || message is None ==> kind@ == "unknown"@ && words@ == body@
        },
        listing matches ApiError::Relay { status: told, code: kind, message: words } && told
            == status && kind@ == "request_failed"@ && words@ == body@,
{
    let shown = error@;
    let other = listing@;
}

/// Requests go to the relay's address, which ends without a slash, and to their path.
pub proof fn law_requests_go_to_their_path(
    base: &str,
    path: &str,
    client: Client,
    url: String,
    device: Option<String>,
    list: String,
)
    requires
        call_ensures(Client::new, (base,), client),
        call_ensures(Client::url, (&client, path), url),
        call_ensures(Client::terminals_url, (&client, &device), list),
    ensures
        url@ == without_trailing(base@, '/') + path@,
        device is None ==> list@ == without_trailing(base@, '/')
            + "/v1/terminals?state=open&limit=100"@,
        device is Some ==> list@ == without_trailing(base@, '/')
            + "/v1/terminals?state=open&limit=100"@ + ("&device_id="@ + (device->0)@),
{
    if device is None {
        assert(list@ =~= without_trailing(base@, '/') + "/v1/terminals?state=open&limit=100"@);
    }
}

/// A wait is never shorter than the one before and never longer than half a minute; it
/// doubles until then.
pub proof fn law_waits_grow_to_a_limit(first: u64, attempt: u32, delay: u64, next: u64, start: u64)
    requires
        first <= 30_000,
        attempt < u32::MAX,
        call_ensures(backoff_ms, (first, 0), start),
        call_ensures(backoff_ms, (first, attempt), delay),
        call_ensures(backoff_ms, (first, (attempt + 1) as u32), next),
    ensures
        start == first,
        delay <= next <= 30_000,
        2 * delay <= 30_000 ==> next == 2 * delay,
        2 * delay > 30_000 ==> next == 30_000,
{
    assert(delay_before(first as nat, (attempt + 1) as nat) == next);
}

/// A pairing code holds what a phone needs: where the relay is, whose terminals it may see,
/// and the token to say so with.
pub proof fn law_pairing_codes_hold_what_a_phone_needs(code: PairingCode, text: String)
    requires
        call_ensures(encode, (&code,), text),
    ensures
        ({
            let json = document(code);
            &&& text@ == "HT1."@ + base64url(encode_utf8(json))
            &&& has_text(json, "u"@, code.server_url@)
            &&& has_text(json, "i"@, code.identity_id@)
            &&& has_text(json, "t"@, code.identity_token@)
        }),
{
    lemma_pairing_marks();
    lemma_values();
    let u = json_string(code.server_url@);
    let i = json_string(code.identity_id@);
    let t = json_string(code.identity_token@);
    let one = seq![("u"@, u)];
    lemma_one_member("u"@, u);
    let text = "{\"u\":"@ + u;
    assert(text =~= "{"@ + members(one));
    lemma_next_member(one, text, ",\"i\":"@, "i"@, i);
    let two = one.push(("i"@, i));
    let text = text + ",\"i\":"@ + i;
    lemma_next_member(two, text, ",\"t\":"@, "t"@, t);
    let list = two.push(("t"@, t));
    assert(document(code) =~= object_text(list));
    assert(list[0].0 == "u"@);
    assert(list[1].0 == "i"@);
    assert(list[2].0 == "t"@);
    lemma_distinct_members(list);
}

proof fn lemma_pairing_marks()
    ensures
        "{\"u\":"@ == "{"@ + ("\""@ + "u"@ + "\":"@),
        ",\"i\":"@ == ","@ + "\""@ + "i"@ + "\":"@,
        ",\"t\":"@ == ","@ + "\""@ + "t"@ + "\":"@,
        is_name("u"@) && is_name("i"@) && is_name("t"@),
        "u"@ != "i"@ && "u"@ != "t"@ && "i"@ != "t"@,
{
    reveal_strlit("u");
    reveal_strlit("i");
    reveal_strlit("t");
    reveal_strlit("{");
    reveal_strlit(",");
    reveal_strlit("\"");
    reveal_strlit("\":");
    reveal_strlit("{\"u\":");
    reveal_strlit(",\"i\":");
    reveal_strlit(",\"t\":");
    assert("{\"u\":"@ =~= "{"@ + ("\""@ + "u"@ + "\":"@));
    assert(",\"i\":"@ =~= ","@ + "\""@ + "i"@ + "\":"@);
    assert(",\"t\":"@ =~= ","@ + "\""@ + "t"@ + "\":"@);
    assert("u"@[0] != "i"@[0] && "u"@[0] != "t"@[0] && "i"@[0] != "t"@[0]);
}

/// What is started without a command is the user's own shell, as a login shell where there
/// are such, or the system's.
pub proof fn law_shells_are_the_users_own(windows: bool, shell: Option<String>, argv: Vec<String>)
    requires
        call_ensures(default_shell, (windows, &shell), argv),
    ensures
        shell is Some ==> argv@[0]@ == (shell->0)@,
        shell is None && windows ==> argv@[0]@ == "cmd.exe"@,
        shell is None && !windows ==> argv@[0]@ == "/bin/sh"@,
        windows ==> argv@.len() == 1,
        !windows ==> argv@.len() == 2 && argv@[1]@ == "-l"@,
{
    assert(texts(argv@).len() == argv@.len());
    assert(texts(argv@)[0] == argv@[0]@);
    if !windows {
        assert(texts(argv@)[1] == argv@[1]@);
    }
}

/// Keys that are remembered are read back: each from its own place, and the identity's ID
/// is its fingerprint.
pub proof fn law_keys_are_remembered(key: KeyPair, read: Option<KeyPair>, other: Option<KeyPair>)
    requires
        key@.len() == 32,
    ensures
        forall|state: &mut State| #[trigger]
            call_ensures(State::set_identity_key, (state, &key), ()) ==> {
                &&& call_ensures(State::identity_key, (&*final(state),), read) ==> read is Some
                    && (read->0)@ == key@
                &&& final(state).identity_id@ == fingerprint_text(
                    "ed25519"@,
                    ed25519_public_key(key@),
                )
                &&& final(state).device_seed == state.device_seed
                &&& final(state).device_id == state.device_id
                &&& final(state).relay_url == state.relay_url
            },
        forall|state: &mut State| #[trigger]
            call_ensures(State::set_device_key, (state, &key), ()) ==> {
                &&& call_ensures(State::device_key, (&*final(state),), other) ==> other is Some
                    && (other->0)@ == key@
                &&& final(state).identity_seed == state.identity_seed
                &&& final(state).identity_id == state.identity_id
                &&& final(state).device_id == state.device_id
            },
{
}

/// What this machine remembers is where it was asked to be, or else in the user's
/// configuration.
pub proof fn law_state_is_kept_in_its_place(
    system: System,
    explicit: Option<String>,
    config: Option<String>,
    home: Option<String>,
    path: String,
)
    requires
        call_ensures(default_path, (system, &explicit, &config, &home), path),
    ensures
        explicit is Some && trimmed((explicit->0)@).len() > 0 ==> path@ == (explicit->0)@,
        explicit is None && config is Some && (config->0)@.len() > 0 ==> path@ == joined(
            system,
            joined(system, (config->0)@, "hypeterm"@),
            "publisher.json"@,
        ),
        explicit is None && config is None && home is Some && system == System::Unix ==> path@
            == joined(
            system,
            joined(system, joined(system, (home->0)@, ".config"@), "hypeterm"@),
            "publisher.json"@,
        ),
{
}

/// What only its owner can use is accepted, and anything else is not.
pub proof fn law_state_is_private(path: &str, mode: u32, result: Result<(), StateError>)
    requires
        call_ensures(check_permissions, (path, mode), result),
    ensures
        result is Ok <==> mode & 0o077 == 0,
        result is Err ==> result->Err_0@ == StateError::Permissions(path@),
{
    assert(mode % 64 == 0 <==> mode & 0o077 == 0) by (bit_vector);
}

} // verus!
