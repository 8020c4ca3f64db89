use hypeterm::encoding::{b64_decode, b64_encode};
use hypeterm::ids::Uuid;
use hypeterm::publisher::crypto::KeyPair;
use hypeterm::relay::auth::{
    self, Auth, AuthQuestion, ChallengeAnswers, ChallengeDraft, ChallengeQuestion,
    ChallengeRequest, ChallengeSettings, IdentityAnswers, IdentityOutcome, IdentityQuestion,
    KeyInput, SignedRequest, Standing, TokenAnswers, TokenQuestion, TokenSettings,
};
use hypeterm::relay::crypto::{
    ct_eq, hash_operator_token, hash_ticket, mint_payload, mint_token, new_ticket, open_token, scope,
    verify_token, DeviceRole, Operation, PrincipalKind, PublicKey, SecretBox, SigningKey,
    TokenClaims,
};
use hypeterm::relay::devices::{
    self, DeviceAnswers, DeviceOutcome, DeviceQuestion, DeviceSettings, DeviceTimes,
    RegisterDeviceRequest,
};
use hypeterm::relay::error::{code, ApiError};
use hypeterm::relay::idempotency::{
    extract, key_hash, lookup, sha256_hex, store, Remembered, Replay,
};
use hypeterm::relay::repo::{
    self, Bind, ChallengeClaim, Chunk, Cursor, Device, StoredChallenge, TerminalCheckpoint,
    TerminalFilters, TerminalRow, TerminalState,
};
use hypeterm::relay::step::Step;
use hypeterm::relay::ws::{
    self, cookie_value, parse_ws_path, ConnectAnswers, ConnectQuestion, ConnectSettings,
    ProtocolVersion, TicketRequest, UpgradeAnswers, UpgradeHeaders, UpgradeQuestion, WsPath,
};

const ORIGIN: &str = "https://relay.example";

fn identity_auth(scopes: &[&str]) -> Auth {
    Auth {
        kind: PrincipalKind::Identity,
        principal_id: "me".into(),
        identity_id: "me".into(),
        scopes: scopes.iter().map(|s| s.to_string()).collect(),
        jti: "j".into(),
    }
}

fn device(id: u128, identity: &str, role: DeviceRole, revoked_at: Option<i64>) -> Device {
    Device {
        device_id: Uuid::from_u128(id),
        identity_id: identity.into(),
        algorithm: "ed25519".into(),
        public_key: vec![1],
        key_fingerprint: "fp".into(),
        name: "laptop".into(),
        created_at: 5,
        last_seen_at: None,
        revoked_at,
        role,
    }
}

fn terminal(id: u128, identity: &str) -> TerminalRow {
    repo::insert_terminal(
        Uuid::from_u128(id),
        Uuid::from_u128(7),
        identity,
        "ref",
        "label",
        Some(80),
        None,
        &Some("xterm".into()),
        &None,
        true,
        9,
    )
}

// ------------------------------------------------------------------------------- paths

#[test]
fn ws_paths_parse() {
    let id = Uuid::new_v4();
    let text = id.to_text();
    assert!(matches!(
        parse_ws_path(&format!("/v1/devices/{text}/relay")),
        Some(WsPath::Relay(parsed)) if parsed == id
    ));
    assert!(matches!(
        parse_ws_path(&format!("/v1/terminals/{text}/mirror")),
        Some(WsPath::Mirror(parsed)) if parsed == id
    ));
    assert!(parse_ws_path("/v1/terminals/not-a-uuid/mirror").is_none());
    assert!(parse_ws_path("/v1/other").is_none());
}

#[test]
fn cookies_are_parsed_by_name() {
    let header = Some("other=1; relay_session=abc123; trailing=2".to_string());
    assert_eq!(
        cookie_value(&header, "relay_session").as_deref(),
        Some("abc123")
    );
    assert_eq!(cookie_value(&header, "missing"), None);
    assert_eq!(cookie_value(&None, "relay_session"), None);
}

// ------------------------------------------------------------------------- idempotency

#[test]
fn extraction_respects_the_feature_switch_and_bounds() {
    let header = Some("  abc  ".to_string());
    assert_eq!(extract(&header, true).as_deref(), Some("abc"));
    assert_eq!(extract(&header, false), None);

    let long = Some("x".repeat(300));
    assert_eq!(extract(&long, true), None);
}

#[test]
fn key_hashes_separate_scope_method_and_path() {
    let a = key_hash("identity-a", "POST", "/v1/devices", "k");
    let b = key_hash("identity-b", "POST", "/v1/devices", "k");
    let c = key_hash("identity-a", "POST", "/v1/other", "k");
    assert_ne!(a, b);
    assert_ne!(a, c);
}

#[test]
fn a_retry_is_answered_as_before_and_a_reuse_is_refused() {
    assert_eq!(
        sha256_hex(b"abc"),
        "ba7816bf8f01cfea414140de5dae2223b00361a396177a9cb410ff61f20015ad"
    );
    let key = Some("k".to_string());
    let question = lookup("me", "POST", "/v1/devices", &key, b"body", &None);
    assert!(matches!(
        question,
        Step::Ask(ask) if ask.key_hash == key_hash("me", "POST", "/v1/devices", "k")
    ));
    let existing = |body: &[u8]| {
        let (hash, record) =
            store("me", "POST", "/v1/devices", &key, body, 201, "{}").expect("a record");
        assert_eq!(hash, key_hash("me", "POST", "/v1/devices", "k"));
        Some(Some(record))
    };
    assert!(store("me", "POST", "/v1/devices", &None, b"", 201, "{}").is_none());
    assert!(matches!(
        lookup("me", "POST", "/v1/devices", &key, b"body", &existing(b"body")),
        Step::Done(Remembered::Again(Replay { status: 201, body })) if body == "{}"
    ));
    // A remembered body is read as JSON and written again.
    let kept = |response: &str, status: u16| {
        let (_, record) =
            store("me", "POST", "/v1/devices", &key, b"body", status, response).expect("a record");
        match lookup("me", "POST", "/v1/devices", &key, b"body", &Some(Some(record))) {
            Step::Done(Remembered::Again(replay)) => (replay.status, replay.body),
            other => panic!("expected the response again, got {other:?}"),
        }
    };
    assert_eq!(kept("{ \"b\": 1, \"a\": null }", 201), (201, "{\"a\":null,\"b\":1}".to_string()));
    assert_eq!(kept("{", 99), (200, "null".to_string()));
    let identity = auth::identity_json("me\n", "t");
    assert_eq!(kept(&identity, 200), (200, identity.clone()));
    assert!(matches!(
        lookup("me", "POST", "/v1/devices", &key, b"body", &existing(b"other")),
        Step::Refuse(error) if error.status == 409
    ));
    assert!(matches!(
        lookup("me", "POST", "/v1/devices", &key, b"body", &Some(None)),
        Step::Done(Remembered::Nothing)
    ));
    assert!(matches!(
        lookup("me", "POST", "/v1/devices", &None, b"body", &None),
        Step::Done(Remembered::Nothing)
    ));
}

// ------------------------------------------------------------------------------ crypto

#[test]
fn roles_and_operations_have_words() {
    for role in [DeviceRole::Publisher, DeviceRole::Client, DeviceRole::Both] {
        assert_eq!(DeviceRole::parse(role.as_str()), Some(role));
    }
    assert_eq!(DeviceRole::parse("admin"), None);
    assert_eq!(DeviceRole::default(), DeviceRole::Publisher);
    assert!(DeviceRole::Both.may_publish() && DeviceRole::Both.may_mirror());
    assert!(!DeviceRole::Client.may_publish());
    assert!(!DeviceRole::Publisher.may_mirror());
    for operation in [
        Operation::RegisterIdentity,
        Operation::AuthenticateIdentity,
        Operation::RegisterDevice,
        Operation::AuthenticateDevice,
    ] {
        assert_eq!(Operation::parse(operation.as_str()), Some(operation));
    }
    for allowed in scope::PUBLISHER_ALLOWED {
        assert!(!scope::IDENTITY_ALLOWED.contains(&allowed));
        assert!(!scope::CLIENT_ALLOWED.contains(&allowed));
        assert!(scope::ALL.contains(&allowed));
    }
}

#[test]
fn keys_are_read_strictly() {
    let pair = KeyPair::generate();
    let supported = vec!["ed25519".to_string()];
    let key = PublicKey::parse("ed25519", &pair.public_key_base64(), &supported).unwrap();
    assert_eq!(key.fingerprint(), pair.fingerprint());
    assert_eq!(key.encoded(), pair.public_key_base64());
    let signature = b64_decode(&pair.sign(b"m")).unwrap();
    assert!(key.verify(b"m", &signature));
    assert!(!key.verify(b"n", &signature));
    assert!(!key.verify(b"m", &signature[..63]));
    assert!(PublicKey::parse("rsa", &pair.public_key_base64(), &supported).is_err());
    assert!(PublicKey::parse("ed25519", "AAAA", &supported).is_err());
    assert!(PublicKey::parse("ed25519", "!", &supported).is_err());
}

#[test]
fn what_is_sealed_opens_under_the_same_key_alone() {
    let secrets = SecretBox::new([7; 32]);
    let (nonce, ciphertext) = secrets.seal(b"secret");
    assert_ne!(ciphertext, b"secret");
    assert_eq!(secrets.open(&nonce, &ciphertext), Some(b"secret".to_vec()));
    assert_eq!(SecretBox::new([8; 32]).open(&nonce, &ciphertext), None);
    assert_eq!(secrets.open(b"short", &ciphertext), None);

    let sealed = secrets.seal_to_string("пароль");
    assert!(sealed.starts_with("enc:v1:"));
    assert_eq!(secrets.open_from_string(&sealed).as_deref(), Some("пароль"));
    assert_eq!(secrets.open_from_string("plain"), None);
}

fn claims(iat: i64, exp: i64) -> TokenClaims {
    TokenClaims {
        jti: "j".into(),
        sub: "me".into(),
        principal: PrincipalKind::Identity,
        identity_id: "me".into(),
        iss: ORIGIN.into(),
        aud: ORIGIN.into(),
        iat,
        exp,
        scopes: vec!["devices:read".into()],
        kid: "k1".into(),
    }
}

#[test]
fn a_token_is_good_from_issue_to_expiry() {
    let key = SigningKey { kid: "k1".into(), secret: vec![1; 32] };
    assert!(mint_payload(&key, b"payload").starts_with("v1.cGF5bG9hZA."));
    let token = mint_token(&key, &claims(100, 200));
    let parts = open_token(&token).unwrap();
    assert_eq!(
        parts.payload,
        b"{\"jti\":\"j\",\"sub\":\"me\",\"typ\":\"identity\",\"identity_id\":\"me\",\"iss\":\"https://relay.example\",\"aud\":\"https://relay.example\",\"iat\":100,\"exp\":200,\"scopes\":[\"devices:read\"],\"kid\":\"k1\"}"
    );
    let keys = [key];
    let at = |now: i64| verify_token(&parts, Some(claims(100, 200)), &keys, ORIGIN, ORIGIN, now, 5);
    assert!(at(95).is_ok() && at(205).is_ok());
    assert_eq!(at(94).unwrap_err().message, "access token is not yet valid");
    assert_eq!(at(206).unwrap_err().message, "access token has expired");
    assert!(verify_token(&parts, Some(claims(100, 200)), &keys, "x", ORIGIN, 150, 5).is_err());
    assert!(verify_token(&parts, None, &keys, ORIGIN, ORIGIN, 150, 5).is_err());
    assert!(verify_token(&parts, Some(claims(100, 200)), &[], ORIGIN, ORIGIN, 150, 5).is_err());
    let other = [SigningKey { kid: "k1".into(), secret: vec![2; 32] }];
    assert_eq!(
        verify_token(&parts, Some(claims(100, 200)), &other, ORIGIN, ORIGIN, 150, 5)
            .unwrap_err()
            .message,
        "access token signature is invalid"
    );
    assert!(open_token("v2.a.b").is_err());
    assert!(open_token("v1.a").is_err());
    assert!(claims(1, 2).has_scope("devices:read"));
}

#[test]
fn tickets_and_operator_tokens_are_stored_as_hashes() {
    let (raw, hash) = new_ticket();
    assert_eq!(hash, hash_ticket(&raw));
    assert_ne!(raw, hash);
    assert_eq!(
        hash_operator_token("abc"),
        "ungWv48Bz-pBQUDeXa4iI7ADYaOWF3qctBD_YfIAFa0"
    );
    assert!(ct_eq(b"abc", b"abc") && !ct_eq(b"abc", b"abd") && !ct_eq(b"abc", b"ab"));
}

// ---------------------------------------------------------------------- authentication

#[test]
fn tokens_come_in_the_header_and_never_in_the_query() {
    let header = |text: &str| Some(text.to_string());
    assert_eq!(auth::bearer_token(&None, &header("Bearer  abc ")).unwrap(), "abc");
    assert_eq!(auth::bearer_token(&header("a=b"), &header("bearer abc")).unwrap(), "abc");
    assert_eq!(auth::bearer_token(&None, &header("Basic abc")).unwrap_err().status, 401);
    assert_eq!(auth::bearer_token(&None, &None).unwrap_err().status, 401);
    assert_eq!(
        auth::bearer_token(&header("x=1&Access_Token=abc"), &header("Bearer abc"))
            .unwrap_err()
            .status,
        400
    );
}

#[test]
fn a_revoked_device_is_refused_at_once() {
    assert!(auth::is_revoked(Some(10), 10, PrincipalKind::Identity, Standing::Active));
    assert!(!auth::is_revoked(Some(9), 10, PrincipalKind::Identity, Standing::Missing));
    assert!(auth::is_revoked(None, 10, PrincipalKind::Device, Standing::Revoked));
    assert!(auth::is_revoked(None, 10, PrincipalKind::Device, Standing::Missing));
    assert!(!auth::is_revoked(None, 10, PrincipalKind::Device, Standing::Active));
}

#[test]
fn authentication_asks_for_one_thing_after_another() {
    let token = Ok("t".to_string());
    assert!(matches!(
        auth::authenticate(&token, &None, None, None, None),
        Step::Ask(AuthQuestion::Verify(t)) if t == "t"
    ));
    let read = Some(Ok(claims(1, 2)));
    assert!(matches!(
        auth::authenticate(&token, &read, None, None, None),
        Step::Ask(AuthQuestion::Revoked(_))
    ));
    assert!(matches!(
        auth::authenticate(&token, &read, Some(true), None, None),
        Step::Refuse(error) if error.status == 401
    ));
    assert!(matches!(
        auth::authenticate(&token, &read, Some(false), None, None),
        Step::Done(auth) if auth.identity_id == "me"
    ));
    assert!(matches!(
        auth::authenticate(&token, &read, Some(false), Some(60), Some(false)),
        Step::Refuse(error) if error.status == 429
    ));
}

#[test]
fn an_operator_presents_the_configured_credential() {
    let hash = hash_operator_token("secret");
    let admitted = auth::authenticate_operator(&Ok("secret".into()), &Some(hash.clone())).unwrap();
    assert_eq!(admitted.principal, format!("operator:{}", &hash[..12]));
    assert_eq!(
        auth::authenticate_operator(&Ok("other".into()), &Some(hash)).unwrap_err().message,
        "operator authentication failed"
    );
    assert_eq!(
        auth::authenticate_operator(&Ok("secret".into()), &None).unwrap_err().status,
        500
    );
}

fn challenge_request(pair: &KeyPair, operation: &str, owner: Option<&str>) -> ChallengeRequest {
    ChallengeRequest {
        operation: operation.into(),
        key: KeyInput {
            algorithm: "ed25519".into(),
            public_key: pair.public_key_base64(),
        },
        owner_identity_id: owner.map(str::to_string),
    }
}

fn challenge_settings() -> ChallengeSettings {
    ChallengeSettings {
        supported_algorithms: vec!["ed25519".into()],
        rate_limit: None,
        identity_registration: true,
        device_registration: true,
    }
}

const NO_ANSWERS: ChallengeAnswers = ChallengeAnswers {
    source: None,
    fingerprint: None,
    owner: None,
};

fn draft(pair: &KeyPair, operation: &str) -> ChallengeDraft {
    match auth::create_challenge(
        &challenge_request(pair, operation, None),
        &challenge_settings(),
        NO_ANSWERS,
    ) {
        Step::Done(draft) => draft,
        other => panic!("expected a challenge, got {other:?}"),
    }
}

/// A challenge that was issued for an operation and claimed, with a signature over it.
fn signed(pair: &KeyPair, operation: &str) -> (ChallengeClaim, String) {
    let (record, response) =
        auth::issue_challenge(draft(pair, operation), ORIGIN, "c".into(), vec![9; 32], 0, 1);
    let bytes = b64_decode(&response.signing_input).unwrap();
    (ChallengeClaim::Claimed(record), pair.sign(&bytes))
}

#[test]
fn a_challenge_binds_the_key_and_the_operation() {
    let pair = KeyPair::generate();
    let (record, response) = auth::issue_challenge(
        draft(&pair, "authenticate_device"),
        ORIGIN,
        "c".into(),
        vec![9; 32],
        700,
        60,
    );
    assert_eq!((record.expires_at, response.expires_at), (60_700, 60_700));
    assert_eq!(record.operation, Operation::AuthenticateDevice);
    assert_eq!(record.key_fingerprint, pair.fingerprint());
    assert_eq!(response.key_fingerprint, pair.fingerprint());
    assert_eq!(
        b64_decode(&response.signing_input).unwrap(),
        auth::signing_bytes(&record, ORIGIN)
    );
    assert!(matches!(
        auth::create_challenge(
            &challenge_request(&pair, "nonsense", None),
            &challenge_settings(),
            NO_ANSWERS
        ),
        Step::Refuse(_)
    ));
    assert!(matches!(
        auth::create_challenge(
            &challenge_request(&pair, "register_device", Some("me")),
            &challenge_settings(),
            NO_ANSWERS
        ),
        Step::Ask(ChallengeQuestion::IdentityExists(owner)) if owner == "me"
    ));
}

#[test]
fn an_identity_is_registered_with_its_own_signature() {
    let pair = KeyPair::generate();
    let (claim, signature) = signed(&pair, "register_identity");
    let request = Ok(SignedRequest { challenge_id: "c".into(), signature });
    let mut answers = IdentityAnswers {
        remembered: Some(Ok(Remembered::Nothing)),
        registrations: None,
        claim: None,
        created_at: None,
    };
    assert!(matches!(
        auth::register_identity(true, "1.2.3.4", &request, None, ORIGIN, &answers, 5),
        Step::Ask(IdentityQuestion::Claim(claim)) if claim.challenge_id == "c"
    ));
    answers.remembered = None;
    assert!(matches!(
        auth::register_identity(true, "1.2.3.4", &request, None, ORIGIN, &answers, 5),
        Step::Ask(IdentityQuestion::Remembered(subject))
            if subject.scope == "source:1.2.3.4"
                && subject.method == "POST"
                && subject.path == "/v1/identities"
    ));
    answers.remembered = Some(Ok(Remembered::Nothing));
    let limit = Some((2, 30));
    assert!(matches!(
        auth::register_identity(true, "1.2.3.4", &request, limit, ORIGIN, &answers, 5),
        Step::Ask(IdentityQuestion::Registrations { source, since: -3_599_995 })
            if source == "1.2.3.4"
    ));
    answers.registrations = Some(2);
    assert!(matches!(
        auth::register_identity(true, "1.2.3.4", &request, limit, ORIGIN, &answers, 5),
        Step::Refuse(error) if error.status == 429 && error.retry_after == Some(30)
    ));
    answers.registrations = None;
    answers.claim = Some(claim);
    assert!(matches!(
        auth::register_identity(true, "1.2.3.4", &request, None, ORIGIN, &answers, 5),
        Step::Ask(IdentityQuestion::CreatedAt(id)) if id == pair.fingerprint()
    ));
    answers.created_at = Some(None);
    match auth::register_identity(true, "1.2.3.4", &request, None, ORIGIN, &answers, 5) {
        Step::Done(outcome) => {
            assert_eq!(outcome.status(), 201);
            assert!(matches!(
                outcome,
                IdentityOutcome::Registered { identity_id, created_at: 5, created: true }
                    if identity_id == pair.fingerprint()
            ));
        }
        other => panic!("expected a registration, got {other:?}"),
    }
    let forged = Ok(SignedRequest { challenge_id: "c".into(), signature: pair.sign(b"other") });
    assert!(matches!(
        auth::register_identity(true, "1.2.3.4", &forged, None, ORIGIN, &answers, 5),
        Step::Refuse(error) if error.status == 401
    ));
    assert!(matches!(
        auth::register_identity(false, "1.2.3.4", &request, None, ORIGIN, &answers, 5),
        Step::Refuse(error) if error.code == code::FEATURE_DISABLED
    ));
}

#[test]
fn scopes_follow_the_role() {
    let pair = KeyPair::generate();
    let (claim, signature) = signed(&pair, "authenticate_device");
    let request = SignedRequest { challenge_id: "c".into(), signature };
    let settings = TokenSettings {
        origin: ORIGIN.into(),
        rate_limit: None,
        identity_scopes: vec!["devices:read".into()],
        publisher_scopes: vec!["terminals:publish".into()],
        client_scopes: vec!["terminals:mirror".into()],
    };
    let mut answers = TokenAnswers {
        claim: None,
        within_limit: None,
        identity_exists: None,
        device: None,
    };
    assert!(matches!(
        auth::create_token(&request, &settings, &answers),
        Step::Ask(TokenQuestion::Claim(claim)) if claim.challenge_id == "c"
    ));
    answers.claim = Some(claim);
    assert!(matches!(
        auth::create_token(&request, &settings, &answers),
        Step::Ask(TokenQuestion::DeviceByFingerprint(fp)) if fp == pair.fingerprint()
    ));
    answers.device = Some(Some(device(3, "me", DeviceRole::Client, None)));
    assert!(matches!(
        auth::create_token(&request, &settings, &answers),
        Step::Done(grant) if grant.scopes == ["terminals:mirror"] && grant.identity_id == "me"
    ));
    answers.device = Some(Some(device(3, "me", DeviceRole::Publisher, None)));
    assert!(matches!(
        auth::create_token(&request, &settings, &answers),
        Step::Done(grant) if grant.scopes == ["terminals:publish"]
            && grant.seen == Some(Uuid::from_u128(3))
    ));
    match auth::create_token(&request, &settings, &answers) {
        Step::Done(grant) => {
            let response = auth::token_response(grant, "t".into(), 100, 160);
            assert_eq!(response.expires_in, 60);
            assert_eq!((response.token_type, response.principal), ("Bearer", "device"));
            assert_eq!(response.principal_id, Uuid::from_u128(3).to_text());
        }
        other => panic!("expected a grant, got {other:?}"),
    }
    answers.device = Some(Some(device(3, "me", DeviceRole::Publisher, Some(4))));
    assert!(matches!(
        auth::create_token(&request, &settings, &answers),
        Step::Refuse(error) if error.status == 401
    ));
}

#[test]
fn challenges_are_claimed_once() {
    let stored = |consumed: bool| {
        Some(StoredChallenge {
            operation: "register_identity".to_string(),
            algorithm: "ed25519".into(),
            public_key: vec![1],
            key_fingerprint: "fp".into(),
            owner_identity_id: None,
            device_key_fingerprint: None,
            challenge: vec![2],
            expires_at: 100,
            consumed,
        })
    };
    let (claim, consume) = repo::claim_challenge(stored(false), "c", 50);
    assert!(matches!(claim, ChallengeClaim::Claimed(record) if record.challenge_id == "c"));
    assert!(consume);
    assert!(matches!(
        repo::claim_challenge(stored(true), "c", 50),
        (ChallengeClaim::AlreadyConsumed, _)
    ));
    assert!(matches!(
        repo::claim_challenge(stored(false), "c", 101),
        (ChallengeClaim::Expired, _)
    ));
    assert!(matches!(
        repo::claim_challenge(None, "c", 50),
        (ChallengeClaim::Unknown, false)
    ));
}

#[test]
fn tickets_work_once_and_for_one_path() {
    let scopes = vec!["terminals:mirror".to_string(), "terminals:input".to_string()];
    let row = || {
        Some(repo::insert_ticket(
            PrincipalKind::Device,
            "d",
            "me",
            "/v1/terminals/x/mirror",
            &scopes,
            100,
        ))
    };
    let (ticket, consumed) = repo::consume_ticket(row(), "/v1/terminals/x/mirror", 50);
    let ticket = ticket.expect("good");
    assert!(consumed);
    assert_eq!(ticket.principal_kind, PrincipalKind::Device);
    assert_eq!(ticket.scopes, scopes);
    // A wrong guess uses the ticket up.
    assert!(matches!(repo::consume_ticket(row(), "/other", 50), (None, true)));
    assert!(matches!(
        repo::consume_ticket(row(), "/v1/terminals/x/mirror", 101),
        (None, true)
    ));
    let mut used = row().unwrap();
    used.consumed = true;
    assert!(matches!(
        repo::consume_ticket(Some(used), "/v1/terminals/x/mirror", 50),
        (None, false)
    ));
}

// ----------------------------------------------------------------------------- devices

#[test]
fn a_device_is_registered_with_its_own_signature() {
    let pair = KeyPair::generate();
    let auth = identity_auth(&["devices:write", "devices:read"]);
    let settings = DeviceSettings {
        enabled: true,
        max_name_bytes: 64,
        max_devices: 2,
        supported_algorithms: vec!["ed25519".into()],
        origin: ORIGIN.into(),
    };
    let draft = match auth::create_challenge(
        &challenge_request(&pair, "register_device", Some("me")),
        &challenge_settings(),
        ChallengeAnswers { source: None, fingerprint: None, owner: Some(true) },
    ) {
        Step::Done(draft) => draft,
        other => panic!("expected a challenge, got {other:?}"),
    };
    let (record, response) =
        auth::issue_challenge(draft, ORIGIN, "c".into(), vec![9; 32], 0, 1);
    let signature = pair.sign(&b64_decode(&response.signing_input).unwrap());
    let request = |name: &str, signature: &str| {
        Ok(RegisterDeviceRequest {
            name: name.into(),
            key: KeyInput {
                algorithm: "ed25519".into(),
                public_key: pair.public_key_base64(),
            },
            challenge_id: "c".into(),
            device_signature: signature.into(),
            role: Some("both".into()),
        })
    };
    let answers = |claim: Option<ChallengeClaim>, existing, count| DeviceAnswers {
        remembered: Some(Ok(Remembered::Nothing)),
        claim,
        existing,
        count,
    };
    let first = answers(None, None, None);
    assert!(matches!(
        devices::register(&auth, &settings, &request("laptop", &signature), &first),
        Step::Ask(DeviceQuestion::Claim(claim)) if claim.challenge_id == "c"
    ));
    let unasked = DeviceAnswers { remembered: None, ..answers(None, None, None) };
    assert!(matches!(
        devices::register(&auth, &settings, &request("laptop", &signature), &unasked),
        Step::Ask(DeviceQuestion::Remembered(subject))
            if subject.scope == "me" && subject.path == "/v1/devices"
    ));
    let done = answers(Some(ChallengeClaim::Claimed(record)), Some(None), Some(0));
    assert!(matches!(
        devices::register(&auth, &settings, &request("laptop", &signature), &done),
        Step::Done(DeviceOutcome::Register { name, role: DeviceRole::Both, key })
            if name == "laptop" && key.fingerprint() == pair.fingerprint()
    ));
    let other = KeyPair::generate().sign(b"x");
    assert!(matches!(
        devices::register(&auth, &settings, &request("laptop", &other), &done),
        Step::Refuse(error) if error.status == 401
    ));
    assert!(matches!(
        devices::register(&auth, &settings, &request("", &signature), &done),
        Step::Refuse(_)
    ));
    let narrow = identity_auth(&["devices:read"]);
    assert!(matches!(
        devices::register(&narrow, &settings, &request("laptop", &signature), &done),
        Step::Refuse(error) if error.status == 403
    ));
}

#[test]
fn pages_are_bounded() {
    assert_eq!(devices::resolve_limit(None, 20, 100).unwrap(), 20);
    assert_eq!(devices::resolve_limit(Some(7), 20, 100).unwrap(), 7);
    assert!(devices::resolve_limit(Some(0), 20, 100).is_err());
    assert_eq!(devices::page_end(3, 3), None);
    assert_eq!(devices::page_end(4, 3), Some(3));
    assert_eq!(devices::page_end(4, -1), Some(4));
    let raw = Cursor::encode("2026-01-01T00:00:00Z", "id");
    let cursor = Cursor::decode(&raw).unwrap();
    assert_eq!(cursor.timestamp, "2026-01-01T00:00:00Z");
    assert_eq!(cursor.id, "id");
    assert!(Cursor::decode("!").is_err());
    let auth = identity_auth(&["devices:read"]);
    assert!(devices::list(&auth, Some(5), &Some(raw), 20, 100).is_ok());
    assert!(matches!(
        devices::get(&auth, Uuid::from_u128(1), Some(false)),
        Step::Refuse(error) if error.status == 404
    ));
    assert!(matches!(
        devices::revoke(&auth, Uuid::from_u128(1), None),
        Step::Refuse(error) if error.status == 403
    ));
    assert_eq!(devices::revoked_at(&device(1, "me", DeviceRole::Both, Some(4)), 9).0, 4);
    assert_eq!(devices::revoked_at(&device(1, "me", DeviceRole::Both, None), 9).0, 9);
}

#[test]
fn a_device_is_described_as_json() {
    let times = DeviceTimes {
        created_at: "then".to_string(),
        last_seen_at: None,
        revoked_at: None,
    };
    assert_eq!(
        devices::device_json(&device(1, "me", DeviceRole::Both, None), &times, true, true, false),
        "{\"created_at\":\"then\",\"device_id\":\"00000000-0000-0000-0000-000000000001\",\"identity_id\":\"me\",\"key\":{\"algorithm\":\"ed25519\",\"fingerprint\":\"fp\"},\"last_seen_at\":null,\"name\":\"laptop\",\"publisher_connected\":true,\"revoked_at\":null,\"role\":\"both\",\"terminal_open_supported\":false}"
    );
}

// -------------------------------------------------------------------------- repository

#[test]
fn committed_output_reads_back() {
    let id = Uuid::from_u128(1);
    let first = TerminalCheckpoint {
        terminal_id: id,
        chunk_start: 0,
        chunk: b"0123456789".to_vec(),
        earliest_offset: 0,
        durable_offset: 10,
        last_activity: 0,
        close_reason: None::<String>,
    };
    let row = repo::checkpoint_chunk(&first).expect("something to append");
    assert_eq!((row.start, row.end), (0, 10));
    // The window has moved on to 4: what straddles it is cut.
    let cut = repo::rewrite_straddling(&row, 4).expect("cut");
    assert_eq!((cut.start, cut.end), (4, 10));
    assert_eq!(cut.bytes, b"456789");
    let next = Chunk { start: 10, end: 12, bytes: b"ab".to_vec() };
    assert_eq!(repo::load_terminal_output(id, &vec![cut, next], 4).unwrap(), b"456789ab");
    let gap = Chunk { start: 11, end: 12, bytes: b"b".to_vec() };
    let start = Chunk { start: 4, end: 10, bytes: b"456789".to_vec() };
    assert!(repo::load_terminal_output(id, &vec![start, gap], 4).is_err());
    assert_eq!(repo::rows_written(true, 2, true), 6);
    assert_eq!(repo::as_offset(repo::as_stored(77)), 77);
}

#[test]
fn listings_are_filtered_by_what_is_asked() {
    let filters = TerminalFilters {
        device_id: Some(Uuid::from_u128(1)),
        state: Some(TerminalState::Open),
    };
    let (sql, binds) = repo::list_terminals("me", &filters, &None, 10);
    assert!(sql.ends_with(
        " FROM terminals WHERE identity_id = ?1 AND device_id = ?2 AND state = ?3 ORDER BY created_at, terminal_id LIMIT ?4"
    ));
    assert!(matches!(
        &binds[..],
        [Bind::Text(identity), Bind::Text(_), Bind::Text(state), Bind::Number(10)]
            if identity == "me" && state == "open"
    ));
    let behind = Some(Cursor { timestamp: "t".to_string(), id: "i".to_string() });
    let (sql, binds) = repo::list_devices("me", &behind, 5);
    assert!(sql.ends_with(
        " WHERE identity_id = ?1 AND revoked_at IS NULL AND (created_at > ?2 OR (created_at = ?2 AND device_id > ?3)) ORDER BY created_at, device_id LIMIT ?4"
    ));
    assert_eq!(binds.len(), 4);
    assert_eq!(repo::list_devices("me", &None, 5).1.len(), 2);
    assert_eq!(TerminalState::parse("open"), Some(TerminalState::Open));
    assert_eq!(TerminalState::parse("x"), None);
    assert_eq!(repo::stored_state("anything"), TerminalState::Closed);
    assert_eq!(repo::stored_role("anything"), DeviceRole::Publisher);
    assert_eq!(terminal(1, "me").state, TerminalState::Open);
}

// ------------------------------------------------------------------------------ upgrades

fn ticket(path: &str) -> TicketRequest {
    TicketRequest { path: format!(" {path} ") }
}

#[test]
fn a_ticket_is_granted_for_what_may_be_reached() {
    let id = Uuid::from_u128(5);
    let path = format!("/v1/terminals/{}/mirror", id.to_text());
    let auth = identity_auth(&[scope::TERMINALS_MIRROR]);
    assert!(matches!(
        ws::create_websocket_ticket(&auth, &ticket(&path), &None),
        Step::Ask(ask) if ask.terminal_id == id
    ));
    assert!(matches!(
        ws::create_websocket_ticket(&auth, &ticket(&path), &Some(Some(terminal(5, "me")))),
        Step::Done(granted) if granted == path
    ));
    assert!(matches!(
        ws::create_websocket_ticket(&auth, &ticket(&path), &Some(Some(terminal(5, "other")))),
        Step::Refuse(error) if error.status == 404
    ));
    assert!(matches!(
        ws::create_websocket_ticket(&auth, &ticket("/v1/other"), &None),
        Step::Refuse(_)
    ));
}

#[test]
fn an_upgrade_authenticates_by_ticket_or_token() {
    let headers = |ticket: Option<&str>, cookie: Option<&str>| UpgradeHeaders {
        ticket: ticket.map(str::to_string),
        authorization: None,
        cookie: cookie.map(str::to_string),
    };
    let none = UpgradeAnswers { ticket: None, claims: None, revoked: None };
    assert!(matches!(
        ws::authenticate_upgrade(&headers(Some("raw"), None), &none),
        Step::Ask(UpgradeQuestion::Ticket(_))
    ));
    assert!(matches!(
        ws::authenticate_upgrade(&headers(None, Some("relay_session=tok")), &none),
        Step::Ask(UpgradeQuestion::Verify(token)) if token == "tok"
    ));
    assert!(matches!(
        ws::authenticate_upgrade(&headers(None, None), &none),
        Step::Refuse(error) if error.status == 401
    ));
    let refused = UpgradeAnswers { ticket: Some(None), claims: None, revoked: None };
    assert!(matches!(
        ws::authenticate_upgrade(&headers(Some("raw"), None), &refused),
        Step::Refuse(error) if error.status == 401
    ));
}

#[test]
fn only_its_own_device_publishes_and_only_an_owner_mirrors() {
    let settings = ConnectSettings {
        enabled: true,
        shutting_down: false,
        rate_limit: None,
        offered: "p.v2".into(),
        v1: "p.v1".into(),
        v2: "p.v2".into(),
    };
    let auth = |principal: &str| Auth {
        kind: PrincipalKind::Device,
        principal_id: principal.into(),
        identity_id: "me".into(),
        scopes: vec![scope::TERMINALS_PUBLISH.into(), scope::TERMINALS_MIRROR.into()],
        jti: "j".into(),
    };
    let id = Uuid::from_u128(3);
    let answers = |auth: Auth| ConnectAnswers {
        auth: Some(Ok(auth)),
        device: Some(Some(device(3, "me", DeviceRole::Both, None))),
        terminal: Some(Some(terminal(5, "me"))),
        within_limit: None,
        connection: Some(true),
    };
    match ws::relay_upgrade(id, &settings, &answers(auth(&id.to_text()))) {
        Step::Done(upgrade) => assert_eq!(upgrade.version, ProtocolVersion::V2),
        other => panic!("expected an upgrade, got {other:?}"),
    }
    let other = Uuid::from_u128(4).to_text();
    assert!(matches!(
        ws::relay_upgrade(id, &settings, &answers(auth(&other))),
        Step::Refuse(_)
    ));
    match ws::mirror_upgrade(Uuid::from_u128(5), &settings, &answers(auth(&id.to_text()))) {
        Step::Done(upgrade) => assert!(!upgrade.may_send_input),
        other => panic!("expected an upgrade, got {other:?}"),
    }
    let mut foreign = answers(auth(&id.to_text()));
    foreign.terminal = Some(Some(terminal(5, "other")));
    assert!(matches!(
        ws::mirror_upgrade(Uuid::from_u128(5), &settings, &foreign),
        Step::Refuse(error) if error.status == 404
    ));
    assert!(matches!(
        ws::check_connection_limits("me", None, None, None),
        Step::Ask(ConnectQuestion::Connection(_))
    ));
    assert!(ws::negotiate("x", "p.v1", "p.v2").is_err());
    assert!(!ProtocolVersion::V1.supports_input());
}

#[test]
fn refusals_are_answered_in_one_envelope() {
    let error = ApiError::rate_limited(60);
    assert_eq!(error.status, 429);
    assert_eq!(error.retry_after, Some(60));
    assert_eq!(
        ApiError::invalid("a \"b\"").to_json("r"),
        "{\"error\":{\"code\":\"invalid_request\",\"message\":\"a \\\"b\\\"\",\"request_id\":\"r\"}}"
    );
    assert_eq!(ApiError::unauthorized("x").www_authenticate.as_deref(), Some("Bearer"));
    assert_eq!(ApiError::not_found().to_text(), "not_found: Resource not found");
    assert!(ApiError::internal("x").is_server_error());
    assert!(!ApiError::conflict("x").is_server_error());
    assert_eq!(b64_encode(b""), "");
}
