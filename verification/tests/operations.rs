use hypeterm::ids::Uuid;
use hypeterm::paths::{join, System};
use hypeterm::relay::admin::{self, AuditEntry, DefaultValue, Setting, SettingDef};
use hypeterm::relay::auth::{Auth, AuthQuestion};
use hypeterm::relay::bootstrap::{self, Bootstrap, BootstrapError, Environment, KeySource};
use hypeterm::relay::command::{self, SettingsCommand};
use hypeterm::relay::context::{
    self, Address, ConnMeta, Network, PrincipalLog, RequestLimits,
};
use hypeterm::relay::counts;
use hypeterm::relay::crypto::{
    claims_json, hash_operator_token, open_token, DeviceRole, PrincipalKind, SecretBox,
};
use hypeterm::relay::devices::{self, PageRow};
use hypeterm::relay::error::ApiError;
use hypeterm::relay::extract::{self, JsonFault};
use hypeterm::relay::idempotency::{key_hash, Remembered, Replay};
use hypeterm::relay::maintenance::{retention_cutoff, Cause, Next, Sweep};
use hypeterm::relay::metrics::{Counter, Gauge, Histogram, Metrics};
use hypeterm::relay::ops::{self, Readiness, Vitals};
use hypeterm::relay::repo::{self, Cursor, Device, StoredSigningKey, TerminalRow, TerminalState};
use hypeterm::relay::step::Step;
use hypeterm::relay::storage::{self, StoragePragmas};
use hypeterm::relay::terminals::{
    self, BeginOpen, CreateTerminalRequest, Offsets, OpenAnswers, OpenCount, OpenOutcome, OpenQuestion,
    OpenSettings, OpenStep, Pending, TerminalTimes,
};
use hypeterm::relay::tokens::{self, KeyEntry, TokenService};

fn auth(scopes: &[&str]) -> Auth {
    Auth {
        kind: PrincipalKind::Identity,
        principal_id: "me".into(),
        identity_id: "me".into(),
        scopes: scopes.iter().map(|s| s.to_string()).collect(),
        jti: "j".into(),
    }
}

fn row(identity: &str) -> TerminalRow {
    let mut row = repo::insert_terminal(
        Uuid::from_u128(1),
        Uuid::from_u128(2),
        identity,
        "ref",
        "label",
        Some(80),
        None,
        &None,
        &Some("vim".into()),
        true,
        9,
    );
    row.durable_offset = 30;
    row.earliest_offset = 10;
    row
}

// ---------------------------------------------------------------------------- terminals

#[test]
fn labels_are_refused_for_one_reason_at_a_time() {
    assert!(terminals::validate_label("build", 10).is_ok());
    assert_eq!(
        terminals::validate_label("ビルド", 8).unwrap_err(),
        "label exceeds 8 bytes"
    );
    assert_eq!(terminals::validate_label("  ", 10).unwrap_err(), "label must not be blank");
    assert_eq!(terminals::validate_label("", 10).unwrap_err(), "label must not be blank");
    assert_eq!(
        terminals::validate_label("a\u{7}", 10).unwrap_err(),
        "label must not contain control characters"
    );
}

fn nothing() -> OpenAnswers {
    OpenAnswers {
        remembered: None,
        device: None,
        principal_within: None,
        device_within: None,
        supported: None,
        begun: None,
        delivered: None,
        answer: None,
        readable: None,
    }
}

fn machine() -> Device {
    Device {
        device_id: Uuid::from_u128(2),
        identity_id: "me".into(),
        algorithm: "ed25519".into(),
        public_key: vec![],
        key_fingerprint: "fp".into(),
        name: "laptop".into(),
        created_at: 0,
        last_seen_at: None,
        revoked_at: None,
        role: DeviceRole::Publisher,
    }
}

#[test]
fn asking_a_device_for_a_terminal_goes_step_by_step() {
    let caller = auth(&["terminals:create"]);
    let id = Uuid::from_u128(2);
    let settings = OpenSettings { enabled: true, max_label_bytes: 64, rate_limited: true };
    let key = Some("k".to_string());
    let request = Ok(CreateTerminalRequest {
        label: Some("phone".to_string()),
        cols: Some(80),
        rows: Some(24),
    });
    let ask = |answers: &OpenAnswers| {
        terminals::create_for_device(&caller, id, &settings, &key, &request, answers)
    };

    let mut answers = nothing();
    assert!(matches!(ask(&answers), OpenStep::Ask(OpenQuestion::Remembered(subject))
        if subject.scope == "me" && subject.path == format!("/v1/devices/{}/terminals", id.to_text())));
    answers.remembered = Some(Ok(Remembered::Nothing));
    assert!(matches!(ask(&answers), OpenStep::Ask(OpenQuestion::Device(asked)) if asked == id));
    answers.device = Some(Some(machine()));
    assert!(matches!(
        ask(&answers),
        OpenStep::Ask(OpenQuestion::PrincipalWithinLimit(who)) if who == "me"
    ));
    answers.principal_within = Some(true);
    assert!(matches!(ask(&answers), OpenStep::Ask(OpenQuestion::DeviceWithinLimit(_))));
    answers.device_within = Some(true);
    assert!(matches!(ask(&answers), OpenStep::Ask(OpenQuestion::Supported(_))));
    answers.supported = Some(true);
    let path = format!("/v1/devices/{}/terminals", id.to_text());
    assert!(matches!(
        ask(&answers),
        OpenStep::Ask(OpenQuestion::Begin(name)) if name == key_hash("me", "POST", &path, "k")
    ));
    answers.begun = Some(Ok(BeginOpen::Fresh));
    assert!(matches!(
        ask(&answers),
        OpenStep::Ask(OpenQuestion::Deliver(delivery))
            if delivery.device_id == id
                && delivery.request_id == key_hash("me", "POST", &path, "k")
                && delivery.label.as_deref() == Some("phone")
                && (delivery.cols, delivery.rows) == (Some(80), Some(24))
    ));
    answers.delivered = Some(true);
    assert!(matches!(ask(&answers), OpenStep::Ask(OpenQuestion::Answer)));
    answers.answer = Some(OpenOutcome::Opened {
        terminal_id: Uuid::from_u128(9),
        deduplicated: false,
    });
    assert!(matches!(ask(&answers), OpenStep::Ask(OpenQuestion::Terminal(_))));
    answers.readable = Some(true);
    assert!(matches!(
        ask(&answers),
        OpenStep::Opened { terminal_id, deduplicated: false, pending: Pending::Finished }
            if terminal_id == Uuid::from_u128(9)
    ));
    assert_eq!(terminals::opened_status(false), 201);
    assert_eq!(terminals::opened_status(true), 200);

    answers.answer = Some(OpenOutcome::Declined { reason: "busy".to_string() });
    assert!(matches!(
        ask(&answers),
        OpenStep::Refuse { error, pending: Pending::Finished, counted: OpenCount::Nowhere }
            if error.status == 502
                && error.message == "the device declined to open a terminal: busy"
    ));
    answers.answer = Some(OpenOutcome::TimedOut);
    assert!(matches!(
        ask(&answers),
        OpenStep::Refuse { error, pending: Pending::Stays, counted: OpenCount::TimedOut }
            if error.status == 504
    ));
    answers.begun = Some(Ok(BeginOpen::Joined));
    answers.delivered = None;
    answers.answer = Some(OpenOutcome::Unavailable);
    assert!(matches!(
        ask(&answers),
        OpenStep::Refuse { error, pending: Pending::Stays, counted: OpenCount::Unavailable }
            if error.status == 503
    ));
    answers.begun = Some(Ok(BeginOpen::Fresh));
    answers.delivered = Some(false);
    assert!(matches!(
        ask(&answers),
        OpenStep::Refuse { pending: Pending::Undeliverable, .. }
    ));
}

#[test]
fn a_request_for_a_terminal_is_refused_early() {
    let id = Uuid::from_u128(2);
    let settings = OpenSettings { enabled: true, max_label_bytes: 64, rate_limited: false };
    let key = Some("k".to_string());
    let plain = || Ok(CreateTerminalRequest { label: None, cols: None, rows: Some(0) });
    let caller = auth(&["terminals:create"]);
    let mut answers = nothing();
    assert!(matches!(
        terminals::create_for_device(&auth(&[]), id, &settings, &key, &plain(), &answers),
        OpenStep::Refuse { error, .. } if error.status == 403
    ));
    assert!(matches!(
        terminals::create_for_device(&caller, id, &settings, &None, &plain(), &answers),
        OpenStep::Refuse { error, .. } if error.code == "idempotency_key_required"
    ));
    answers.remembered = Some(Ok(Remembered::Again(Replay { status: 201, body: "b".into() })));
    assert!(matches!(
        terminals::create_for_device(&caller, id, &settings, &key, &plain(), &answers),
        OpenStep::Again(replay) if replay.body == "b"
    ));
    answers.remembered = Some(Ok(Remembered::Nothing));
    assert!(matches!(
        terminals::create_for_device(&caller, id, &settings, &key, &plain(), &answers),
        OpenStep::Refuse { error, .. } if error.message == "rows is out of range"
    ));
    let mut client = machine();
    client.role = DeviceRole::Client;
    answers.device = Some(Some(client));
    let fine = Ok(CreateTerminalRequest { label: None, cols: None, rows: None });
    assert!(matches!(
        terminals::create_for_device(&caller, id, &settings, &key, &fine, &answers),
        OpenStep::Refuse { error, .. } if error.status == 404
    ));
    let mut foreign = machine();
    foreign.identity_id = "other".into();
    answers.device = Some(Some(foreign));
    assert!(matches!(
        terminals::create_for_device(&caller, id, &settings, &key, &fine, &answers),
        OpenStep::Refuse { error, .. } if error.status == 404
    ));
}

#[test]
fn requests_are_counted_by_how_they_end() {
    let mut metrics = Metrics::new();
    let refuse = |error: ApiError| Step::<AuthQuestion, Auth>::Refuse(error);
    metrics.count(counts::authentication(&refuse(ApiError::unauthorized("no"))));
    metrics.count(counts::authentication(&refuse(ApiError::rate_limited(1))));
    metrics.count(counts::authentication(&Step::<AuthQuestion, Auth>::Done(auth(&[]))));
    assert_eq!(
        (
            metrics.auth_failures.get(),
            metrics.auth_successes.get(),
            metrics.rate_limited_requests.get()
        ),
        (1, 1, 1)
    );

    // A refused proof is a failure only once its challenge was used up.
    metrics.count(counts::proven(&refuse(ApiError::invalid("signature")), false));
    metrics.count(counts::proven(&refuse(ApiError::unauthorized("signature")), true));
    metrics.count(counts::proven(&refuse(ApiError::rate_limited(1)), true));
    metrics.count(counts::registration(&refuse(ApiError::conflict("key")), true));
    assert_eq!(
        (
            metrics.auth_failures.get(),
            metrics.challenges_consumed.get(),
            metrics.rate_limited_requests.get()
        ),
        (2, 3, 2)
    );
    metrics.count(counts::issue(&Step::<AuthQuestion, Auth>::Done(auth(&[]))));
    assert_eq!(metrics.challenges_issued.get(), 1);
    metrics.count(counts::connection(&refuse(ApiError::rate_limited(1))));
    assert_eq!(metrics.rate_limited_requests.get(), 3);

    // Metrics without a credential are refused, which is not an attempt to authenticate.
    let refused: Result<(), ApiError> = Err(ApiError::unauthorized("no"));
    metrics.count(counts::reading(&refused, false));
    metrics.count(counts::reading(&refused, true));
    metrics.count(counts::operator(&refused));
    metrics.count(counts::operator(&Err::<(), ApiError>(ApiError::internal("none"))));
    assert_eq!(metrics.auth_failures.get(), 4);

    let opened = OpenStep::Opened {
        terminal_id: Uuid::from_u128(1),
        deduplicated: false,
        pending: Pending::Stays,
    };
    metrics.count(counts::opening(&opened));
    metrics.count(counts::opening(&OpenStep::Refuse {
        error: ApiError::rate_limited(60),
        pending: Pending::Stays,
        counted: OpenCount::Refused,
    }));
    assert_eq!(metrics.terminal_open_requests_opened.get(), 1);
    assert_eq!(metrics.terminal_open_requests_refused.get(), 1);
    assert_eq!(metrics.rate_limited_requests.get(), 3);
    metrics.count(counts::revocation(false));
    metrics.count(counts::revocation(true));
    assert_eq!(metrics.device_revocations.get(), 1);
    metrics.count_answer(200);
    metrics.count_answer(404);
    assert_eq!((metrics.http_requests.get(), metrics.http_requests_failed.get()), (2, 1));
    metrics.count_deletion(Cause::Quota);
    assert_eq!(metrics.quota_terminals_deleted.get(), 1);
    assert_eq!(metrics.retention_terminals_deleted.get(), 0);
}

#[test]
fn a_ticket_lives_as_long_as_configured() {
    let (ticket, hash, row) =
        hypeterm::relay::ws::issue_ticket(&auth(&["a", "b"]), "/p", 5, 30);
    assert_eq!((ticket.len(), hash.len()), (43, 43));
    assert_ne!(ticket, hash);
    assert_eq!((row.path.as_str(), row.scopes.as_str()), ("/p", "a b"));
    assert_eq!(row.expires_at, Some(30_005));
    assert_eq!(repo::expiry(7, -1), -993);
    assert_eq!(
        ApiError::malformed_json("eof").to_text(),
        "invalid_request: malformed JSON: eof"
    );
}

#[test]
fn terminals_are_listed_and_described() {
    let reader = auth(&["terminals:read"]);
    let (page, filters) =
        terminals::list(&reader, None, &Some("open".into()), None, &None, 20, 100).unwrap();
    assert_eq!(page.limit, 20);
    assert_eq!(filters.state, Some(TerminalState::Open));
    assert_eq!(
        terminals::list(&reader, None, &Some("ajar".into()), None, &None, 20, 100)
            .unwrap_err()
            .message,
        "state must be open or closed"
    );
    assert!(matches!(
        terminals::get(&reader, Uuid::from_u128(1), &Some(Some(row("other")))),
        Step::Refuse(error) if error.status == 404
    ));
    assert!(matches!(
        terminals::get(&reader, Uuid::from_u128(1), &Some(Some(row("me")))),
        Step::Done(())
    ));
    let live = Offsets { earliest_offset: 12, next_offset: 40, durable_offset: 30 };
    assert_eq!(terminals::offsets_for(Some(live), &row("me")).retained_bytes(), 28);
    assert_eq!(terminals::offsets_for(None, &row("me")).next_offset, 30);
    let times = TerminalTimes {
        created_at: "a".to_string(),
        last_activity_at: "b".into(),
        closed_at: None,
    };
    assert_eq!(
        terminals::terminal_json(&row("me"), None, None, &times, true, 64, None),
        "{\"accepts_input\":true,\"close_reason\":null,\"closed_at\":null,\"cols\":80,\"created_at\":\"a\",\"device_id\":\"00000000-0000-0000-0000-000000000002\",\"durable_offset\":30,\"earliest_offset\":10,\"identity_id\":\"me\",\"label\":\"label\",\"last_activity_at\":\"b\",\"local_ref\":\"ref\",\"next_offset\":30,\"process_label\":\"vim\",\"replay_capacity_bytes\":64,\"retained_bytes\":20,\"rows\":null,\"state\":\"open\",\"term\":null,\"terminal_id\":\"00000000-0000-0000-0000-000000000001\"}"
    );
    let brief = terminals::terminal_json(&row("me"), None, None, &times, false, 64, Some(true));
    assert!(!brief.contains("vim"));
    assert!(brief.contains("\"created_at\":\"a\",\"deduplicated\":true,\"device_id\":"));
    assert_eq!(
        terminals::location(Uuid::from_u128(1)),
        "/v1/terminals/00000000-0000-0000-0000-000000000001"
    );
}

// ------------------------------------------------------------------------------ context

const LOCAL: Address = Address::V4(0x7f00_0001);
const FAR: Address = Address::V4(0x0808_0808);

#[test]
fn blocks_hold_the_addresses_that_share_their_front() {
    let block = Network { address: Address::V4(0x0a01_0000), prefix: 16 };
    assert!(block.contains(Address::V4(0x0a01_ff07)));
    assert!(!block.contains(Address::V4(0x0a02_0000)));
    assert!(!block.contains(Address::V6(0x0a01_0000)));
    assert!(Network { address: FAR, prefix: 0 }.contains(LOCAL));
    assert!(Network { address: Address::V6(1), prefix: 128 }.contains(Address::V6(1)));
    assert!(!Network { address: Address::V6(1), prefix: 128 }.contains(Address::V6(2)));
    assert!(LOCAL.is_loopback() && Address::V6(1).is_loopback() && !FAR.is_loopback());
}

#[test]
fn forwarded_headers_count_only_behind_a_trusted_proxy() {
    let conn = Some(ConnMeta { peer: LOCAL, tls: false });
    let proxies = [Network { address: LOCAL, prefix: 32 }];
    let proto = Some(" HTTPS , http".to_string());
    assert_eq!(
        context::resolve_client(conn, true, &proxies, Some(FAR), &proto),
        (FAR, true)
    );
    assert_eq!(
        context::resolve_client(conn, true, &[], Some(FAR), &proto),
        (LOCAL, false)
    );
    assert_eq!(
        context::resolve_client(conn, false, &proxies, Some(FAR), &proto),
        (LOCAL, false)
    );
    assert_eq!(context::first_entry(" a , b"), "a");
}

#[test]
fn plain_transport_is_refused_but_for_the_exemptions() {
    assert_eq!(
        context::enforce_transport(false, true, &[], true, FAR).unwrap_err().code,
        "insecure_transport"
    );
    assert!(context::enforce_transport(true, true, &[], false, FAR).is_ok());
    assert!(context::enforce_transport(false, false, &[], false, FAR).is_ok());
    assert!(context::enforce_transport(false, true, &[], true, LOCAL).is_ok());
    let limits = RequestLimits {
        require_secure: true,
        terminated_by: vec![],
        allow_loopback: true,
        max_body_bytes: 10,
    };
    let large = Some("11".to_string());
    assert_eq!(context::middleware(false, FAR, &large, &limits).unwrap_err().status, 403);
    assert_eq!(context::middleware(false, LOCAL, &large, &limits).unwrap_err().status, 413);
    assert!(context::middleware(false, LOCAL, &None, &limits).is_ok());
    let terminators = [Network { address: FAR, prefix: 24 }];
    assert!(context::enforce_transport(false, true, &terminators, false, FAR).is_ok());
}

#[test]
fn requests_are_bounded_in_size_and_time() {
    let header = |text: &str| Some(text.to_string());
    assert_eq!(
        context::enforce_body_limit(&header("11"), 10).unwrap_err().message,
        "request body of 11 bytes exceeds the 10 byte limit"
    );
    assert!(context::enforce_body_limit(&header("10"), 10).is_ok());
    assert!(context::enforce_body_limit(&header("+11"), 10).is_err());
    assert!(context::enforce_body_limit(&header("eleven"), 10).is_ok());
    assert!(context::enforce_body_limit(&header("99999999999999999999999"), 10).is_ok());
    assert_eq!(context::time_limit(&header("WebSocket"), 30), None);
    assert_eq!(context::time_limit(&None, 30), Some(30));
    assert_eq!(context::timed_out().status, 504);
    assert_eq!(context::method_not_allowed().status, 405);
    assert!(context::is_failure(404) && !context::is_failure(304) && !context::is_failure(600));
    let mut log = PrincipalLog::default();
    assert_eq!(log.get(), "-");
    log.set("me");
    assert_eq!(log.get(), "me");
}

#[test]
fn rejections_are_told_in_one_line() {
    assert_eq!(extract::clean(" a\nb "), "a b");
    let long = "x".repeat(400);
    assert_eq!(extract::clean(&long), format!("{}…", "x".repeat(300)));
    assert!(extract::is_cleanable(&long));
    assert!(!extract::is_cleanable(&"é".repeat(200).replacen('é', "x", 1)));
    assert_eq!(extract::reject_json(JsonFault::Data, "no").status, 422);
    assert_eq!(extract::reject_json(JsonFault::Syntax, "no").status, 400);
    assert_eq!(extract::reject_json(JsonFault::Other, "no").status, 400);
    assert_eq!(extract::reject_json(JsonFault::ContentType, "no").status, 415);
    assert_eq!(extract::reject_json(JsonFault::Unreadable, "no").status, 413);
    assert_eq!(extract::reject_parts("bad id").message, "bad id");
}

// ------------------------------------------------------------------------------- ops

#[test]
fn readiness_names_the_first_thing_in_the_way() {
    let mut vitals = Vitals {
        shutting_down: false,
        started: true,
        storage_failing: false,
        empty_token_accepted: false,
        probe: None,
    };
    assert!(matches!(ops::readiness(&vitals), Readiness::Probe));
    vitals.probe = Some(Ok(()));
    assert!(matches!(ops::readiness(&vitals), Readiness::Ready));
    vitals.probe = Some(Err("disk".into()));
    assert!(matches!(ops::readiness(&vitals), Readiness::NotReady(reason) if reason == "disk"));
    vitals.storage_failing = true;
    assert!(matches!(
        ops::readiness(&vitals),
        Readiness::NotReady(reason) if reason == "durable storage is failing"
    ));
    vitals.started = false;
    assert!(matches!(
        ops::readiness(&vitals),
        Readiness::NotReady(reason) if reason == "startup recovery has not finished"
    ));
    assert_eq!(ops::not_ready("x").status, 503);
}

#[test]
fn metrics_are_for_operators() {
    let hash = Some(hash_operator_token("secret"));
    let header = |token: &str| Some(format!("Bearer {token}"));
    assert!(ops::metrics_endpoint(true, true, &hash, &header("secret")).is_ok());
    assert_eq!(
        ops::metrics_endpoint(true, true, &hash, &header("wrong")).unwrap_err().status,
        401
    );
    assert_eq!(ops::metrics_endpoint(true, true, &hash, &None).unwrap_err().status, 401);
    assert_eq!(ops::metrics_endpoint(true, true, &None, &None).unwrap_err().status, 500);
    assert_eq!(ops::metrics_endpoint(false, false, &hash, &None).unwrap_err().status, 404);
    assert!(ops::metrics_endpoint(true, false, &None, &None).is_ok());
}

#[test]
fn metrics_are_rendered_in_the_text_format() {
    let mut metrics = Metrics::new();
    metrics.http_requests.inc();
    metrics.http_requests.add(2);
    metrics.terminals_open.set(4);
    metrics.terminals_open.dec();
    metrics.http_request_seconds.record(1, 3000);
    let sums = vec!["0".to_string(), "0".into(), "0".into(), "0.003".into()];
    let text = metrics.render(&sums);
    assert!(text.contains(
        "# TYPE relay_http_requests_total counter\nrelay_http_requests_total 3\n"
    ));
    assert!(text.contains("# TYPE relay_terminals_open gauge\nrelay_terminals_open 3\n"));
    assert!(text.contains("relay_http_request_seconds_bucket{le=\"0.001\"} 0\n"));
    assert!(text.contains("relay_http_request_seconds_bucket{le=\"0.005\"} 1\n"));
    assert!(text.contains("relay_http_request_seconds_sum 0.003\n"));
    assert!(text.contains("relay_http_request_seconds_count 1\n"));

    let mut counter = Counter::new();
    counter.add(u64::MAX);
    counter.inc();
    assert_eq!(counter.get(), 0);
    let mut gauge = Gauge::new();
    gauge.sub(3);
    gauge.add(1);
    gauge.inc();
    assert_eq!(gauge.get(), -1);

    let mut histogram = Histogram::new(&["1", "5"]);
    histogram.record(0, 500_000);
    histogram.record(1, 2_000_000);
    histogram.record(2, 9_000_000);
    assert_eq!(histogram.sum(), 11_500_000);
    let mut out = String::new();
    histogram.render(&mut out, "h", "Help.", "11.5");
    assert_eq!(
        out,
        "# HELP h Help.\n# TYPE h histogram\nh_bucket{le=\"1\"} 1\nh_bucket{le=\"5\"} 2\nh_bucket{le=\"+Inf\"} 3\nh_sum 11.5\nh_count 3\n"
    );
}

#[test]
fn a_secrets_value_is_never_shown() {
    let def = |secret: bool| SettingDef {
        name: "limits.max_bytes".to_string(),
        kind: "int".into(),
        is_int: true,
        description: "How much.".into(),
        secret,
        reload: "live".into(),
        default_value: DefaultValue::Int(5),
        min: Some(-1),
        max: None,
        allowed: None,
    };
    assert_eq!(
        admin::setting_json(&def(true), "inline", &Some("\"hunter2\"".into())),
        "{\"configured\":true,\"default\":5,\"description\":\"How much.\",\"minimum\":-1,\"name\":\"limits.max_bytes\",\"reload\":\"live\",\"secret\":true,\"secret_form\":\"inline\",\"type\":\"int\",\"unit_hint\":\"bytes\",\"value\":null}"
    );
    let plain = "{\"default\":5,\"description\":\"How much.\",\"minimum\":-1,\"name\":\"limits.max_bytes\",\"reload\":\"live\",\"secret\":false,\"type\":\"int\",\"unit_hint\":\"bytes\",\"value\":5}";
    assert_eq!(admin::setting_json(&def(false), "unset", &None), plain);
    let choice = SettingDef {
        is_int: false,
        max: Some(9),
        allowed: Some(vec!["a".into(), "b".into()]),
        default_value: DefaultValue::Str("a".into()),
        ..def(false)
    };
    assert_eq!(
        admin::setting_json(&choice, "unset", &Some("\"b\"".into())),
        "{\"allowed\":[\"a\",\"b\"],\"default\":\"a\",\"description\":\"How much.\",\"maximum\":9,\"minimum\":-1,\"name\":\"limits.max_bytes\",\"reload\":\"live\",\"secret\":false,\"type\":\"int\",\"value\":\"b\"}"
    );
    assert_eq!(admin::default_json(&DefaultValue::Bool(false)), "false");
    assert_eq!(admin::default_json(&DefaultValue::List(vec!["x\"".into()])), "[\"x\\\"\"]");
    let both = || {
        vec![
            Setting { def: def(false), secret_form: "unset".into(), stored: None },
            Setting { def: def(false), secret_form: "unset".into(), stored: Some("5".into()) },
        ]
    };
    assert_eq!(
        admin::get_settings(3, None, 1, "here", &both()),
        format!("{{\"committed_revision\":3,\"instance_id\":\"here\",\"revision\":3,\"schema_version\":1,\"settings\":[{plain},{plain}]}}")
    );
    assert!(admin::get_settings(3, Some(4), 1, "here", &vec![])
        .starts_with("{\"committed_revision\":4,"));
    assert_eq!(
        admin::patch_settings(4, &vec!["a".into()], &vec![]),
        "{\"changed\":[\"a\"],\"revision\":4,\"settings\":[]}"
    );
    assert_eq!(admin::flush_now(7, true), "{\"flushed_bytes\":7,\"storage_healthy\":false}");
    let entry = AuditEntry {
        revision: 4,
        at: "now".into(),
        operator: "op".into(),
        setting: "a".into(),
        old_value_hash: None,
        new_value_hash: Some("h".into()),
        outcome: "applied".into(),
        detail: None,
    };
    assert_eq!(
        admin::get_audit(&vec![entry]),
        "{\"entries\":[{\"at\":\"now\",\"detail\":null,\"new_value_hash\":\"h\",\"old_value_hash\":null,\"operator\":\"op\",\"outcome\":\"applied\",\"revision\":4,\"setting\":\"a\"}]}"
    );
    assert_eq!(admin::unit_hint("a_ms"), "milliseconds");
    assert_eq!(admin::unit_hint("a_seconds"), "seconds");
    assert_eq!(admin::unit_hint("a_pages"), "pages");
    assert_eq!(admin::unit_hint("a_kib"), "kibibytes");
    assert_eq!(admin::unit_hint("a"), "count");
    assert_eq!(command::setting_line(&def(true), "inline", "x"), "limits.max_bytes = <inline>");
    assert_eq!(command::setting_line(&def(false), "unset", "7"), "limits.max_bytes = 7");
}

#[test]
fn a_page_leads_on_only_when_there_is_more() {
    let rows = |n: usize| -> Vec<PageRow> {
        (0..n)
            .map(|i| PageRow { json: format!("{i}"), created_at: "t".into(), id: format!("{i}") })
            .collect()
    };
    assert_eq!(devices::devices_page(&rows(2), 2), "{\"devices\":[0,1],\"next_cursor\":null}");
    let onward = Cursor::encode("t", "1");
    assert_eq!(
        devices::devices_page(&rows(3), 2),
        format!("{{\"devices\":[0,1],\"next_cursor\":\"{onward}\"}}")
    );
    assert_eq!(
        terminals::terminals_page(&rows(3), 2),
        format!("{{\"next_cursor\":\"{onward}\",\"terminals\":[0,1]}}")
    );
    assert_eq!(terminals::terminals_page(&rows(0), 2), "{\"next_cursor\":null,\"terminals\":[]}");
    let next = Cursor::decode(&onward).unwrap();
    assert_eq!((next.timestamp.as_str(), next.id.as_str()), ("t", "1"));
}

#[test]
fn short_answers_are_objects() {
    assert_eq!(
        hypeterm::relay::auth::identity_json("me", "t"),
        "{\"created_at\":\"t\",\"identity_id\":\"me\"}"
    );
    assert_eq!(
        hypeterm::relay::ws::ticket_json("abc", "/p", "t"),
        "{\"expires_at\":\"t\",\"path\":\"/p\",\"ticket\":\"abc\"}"
    );
    assert_eq!(
        devices::revoked_json(Uuid::from_u128(0), "t"),
        "{\"device_id\":\"00000000-0000-0000-0000-000000000000\",\"revoked_at\":\"t\"}"
    );
    assert_eq!(
        ops::ready_json(-2),
        "{\"settings_revision\":-2,\"status\":\"ready\"}"
    );
}

// ------------------------------------------------------------------------------- tokens

fn stored(secrets: &SecretBox, kid: &str, active: bool, not_after: Option<i64>) -> StoredSigningKey {
    let (nonce, ciphertext) = secrets.seal(&[kid.len() as u8; 32]);
    StoredSigningKey {
        kid: kid.into(),
        nonce,
        ciphertext,
        created_at: kid.len() as i64,
        active,
        not_after,
    }
}

#[test]
fn keys_overlap_when_they_are_rotated() {
    let secrets = SecretBox::new([3; 32]);
    let table = vec![
        stored(&secrets, "old", false, Some(100)),
        stored(&secrets, "older-one", false, Some(50)),
        stored(&secrets, "current", true, None),
    ];
    let at = |now: i64| tokens::refresh(&secrets, &table, now, "fresh").unwrap();
    let kids = |keys: &[KeyEntry]| -> Vec<String> {
        keys.iter().map(|entry| entry.key.kid.clone()).collect()
    };
    assert_eq!(kids(&at(50).keys), ["current", "older-one", "old"]);
    assert_eq!(kids(&at(100).keys), ["current", "old"]);
    assert_eq!(kids(&at(101).keys), ["current"]);
    assert!(at(50).drawn.is_none());
    assert_eq!(tokens::outgoing_until(1000, 5), 6000);

    let other = SecretBox::new([4; 32]);
    assert_eq!(tokens::refresh(&other, &table, 50, "fresh").unwrap_err().status, 500);
}

#[test]
fn the_first_key_is_drawn_and_tokens_verify_with_it() {
    let secrets = SecretBox::new([3; 32]);
    let refreshed = tokens::refresh(&secrets, &vec![], 50, "fresh").unwrap();
    let sealed = refreshed.drawn.expect("a key was drawn");
    assert_eq!(sealed.kid, "fresh");
    assert_eq!(
        secrets.open(&sealed.nonce, &sealed.ciphertext),
        Some(refreshed.keys[0].key.secret.clone())
    );
    let service = TokenService { keys: refreshed.keys };
    let claims = tokens::build_claims(
        "https://relay.example",
        100,
        60,
        PrincipalKind::Identity,
        "me",
        "me",
        vec!["devices:read".into()],
    );
    assert_eq!((claims.iat, claims.exp), (100, 160));
    let token = service.mint(claims.clone()).unwrap();
    let parts = open_token(&token).unwrap();
    let mut stamped = claims.clone();
    stamped.kid = "fresh".into();
    assert_eq!(parts.payload, claims_json(&stamped).as_bytes());
    let read = service
        .verify(&parts, Some(stamped), "https://relay.example", 120, 0)
        .unwrap();
    assert_eq!(read.sub, "me");
    assert!(!service.is_rotation_due(1050, 1));
    assert!(service.is_rotation_due(1051, 1));
    let empty = TokenService { keys: vec![] };
    assert!(empty.is_rotation_due(0, 1));
    assert_eq!(empty.mint(claims).unwrap_err().message, "no active token signing key");
}

// -------------------------------------------------------------------------- maintenance

#[test]
fn a_sweep_deletes_the_expired_first_and_stops_at_the_quota() {
    let id = Uuid::from_u128;
    let mut sweep = Sweep::new(vec![id(1)]);
    assert_eq!(
        sweep.next(100),
        Next::Delete { terminal_id: id(1), cause: Cause::Retention }
    );
    sweep.deleted(100);
    assert_eq!(sweep.next(100), Next::Measure);
    sweep.used = Some(150);
    assert_eq!(sweep.next(100), Next::ListClosed);
    sweep.closed = Some(vec![id(2), id(3)]);
    assert_eq!(
        sweep.next(100),
        Next::Delete { terminal_id: id(2), cause: Cause::Quota }
    );
    sweep.deleted(100);
    sweep.used = Some(100);
    assert_eq!(sweep.next(100), Next::Done { exceeded: false });
    sweep.used = Some(101);
    sweep.closed_gone = 2;
    assert_eq!(sweep.next(100), Next::Done { exceeded: true });
    assert_eq!(retention_cutoff(10_000, 3), 7_000);
}

#[test]
fn storage_is_tuned_again_only_when_something_changed() {
    let mut pragmas = StoragePragmas::default();
    assert!(!pragmas.update("normal", 5000, 8192, 4000));
    assert_eq!(pragmas.generation, 1);
    assert!(pragmas.update("full", -1, 8192, 4000));
    assert_eq!(pragmas.generation, 2);
    assert!(pragmas.is_stale(1) && !pragmas.is_stale(2));
    let applied = pragmas.apply();
    assert_eq!(applied.synchronous, "full");
    assert_eq!(applied.busy_timeout_ms, 0);
    assert_eq!(applied.cache_size, -8192);

    let columns = storage::columns_to_add();
    assert_eq!(columns.len(), 4);
    assert_eq!(
        storage::migrate(&columns[0], &["device_id".to_string()]).as_deref(),
        Some("ALTER TABLE devices ADD COLUMN role TEXT NOT NULL DEFAULT 'publisher'")
    );
    assert_eq!(storage::migrate(&columns[0], &["role".to_string()]), None);
    assert_eq!(storage::table_info(&columns[1]), "PRAGMA table_info(terminals)");
    assert_eq!(storage::storage_files("/d/relay.db")[1], "/d/relay.db-wal");
}

// ---------------------------------------------------------------------------- bootstrap

#[test]
fn the_relay_starts_from_its_environment() {
    let some = |text: &str| Some(text.to_string());
    let mut environment = Environment {
        data_dir: some("  "),
        db_path: None,
        operator_token: some(" t "),
        instance_id: None,
        hostname: some("host"),
        recovery_mode: some(" Yes "),
        recovery_listen: None,
    };
    let started = Bootstrap::from_env(System::Unix, &environment, [1; 32], "fresh");
    assert_eq!(started.data_dir, "/var/lib/terminal-relay");
    assert_eq!(started.db_path, "/var/lib/terminal-relay/relay.db");
    assert_eq!(started.operator_token_seed.as_deref(), Some("t"));
    assert_eq!(started.instance_id, "host");
    assert!(started.recovery_mode);
    assert_eq!(started.recovery_listen, "127.0.0.1:8081");
    environment.hostname = None;
    assert_eq!(Bootstrap::from_env(System::Unix, &environment, [1; 32], "fresh").instance_id, "fresh");
    assert!(!bootstrap::env_bool(&some("2")));
}

#[test]
fn key_material_has_a_source_and_a_size() {
    let some = |text: &str| Some(text.to_string());
    assert!(matches!(
        bootstrap::load_secret_key(System::Unix, &some(" k "), &some("f"), "/d"),
        KeySource::Inline(raw) if raw == "k"
    ));
    assert!(matches!(
        bootstrap::load_secret_key(System::Unix, &None, &some("f"), "/d"),
        KeySource::File { path, source } if path == "f" && source == "RELAY_SECRET_KEY_FILE"
    ));
    assert!(matches!(
        bootstrap::load_secret_key(System::Unix, &None, &None, "/d"),
        KeySource::Generated { path } if path == "/d/bootstrap.key"
    ));
    let key = bootstrap::decode_key("AAAAAAAAAAAAAAAAAAAAAAAAAAAAAAAAAAAAAAAAAAA", "K").unwrap();
    assert_eq!(key, [0; 32]);
    assert_eq!(
        bootstrap::decode_key("AAAA", "K").unwrap_err().to_text(),
        "K must decode to exactly 32 bytes, got 3"
    );
    assert_eq!(
        bootstrap::decode_key("!", "K").unwrap_err().to_text(),
        "K must be base64url-encoded key material"
    );
    let error: BootstrapError = BootstrapError::Io { path: "p".into(), source: "s".into() };
    assert_eq!(error.to_text(), "io error for p: s");
}

// ------------------------------------------------------------------------------ command

#[test]
fn settings_commands_are_read() {
    let args = |list: &[&str]| -> Vec<String> { list.iter().map(|s| s.to_string()).collect() };
    assert!(matches!(
        command::settings_command(&args(&[])),
        Ok(SettingsCommand::Print(wanted)) if wanted.is_empty()
    ));
    match command::settings_command(&args(&["set", "b=1", "a=x=y", "b=2"])) {
        Ok(SettingsCommand::Apply(list)) => {
            let read: Vec<(&str, &str)> =
                list.iter().map(|one| (one.name.as_str(), one.value.as_str())).collect();
            assert_eq!(read, [("a", "\"x=y\""), ("b", "2")]);
        }
        other => panic!("expected assignments, got {other:?}"),
    }
    assert_eq!(
        command::settings_command(&args(&["set", "a"])).unwrap_err(),
        "expected NAME=VALUE, got: a"
    );
    assert_eq!(
        command::settings_command(&args(&["set"])).unwrap_err(),
        "no settings supplied"
    );
    assert_eq!(
        command::settings_command(&args(&["drop"])).unwrap_err(),
        "unknown settings action: drop (expected `get` or `set`)"
    );
    assert!(command::is_wanted("a", &[]) && !command::is_wanted("a", &args(&["b"])));
    assert_eq!(
        command::check_known(&args(&["a"]), &args(&["a", "z"])).unwrap_err(),
        "unknown setting: z"
    );
    let read = |pair: &str| command::parse_assignments(&args(&[pair])).unwrap();
    assert_eq!(read("a= [1, \"x\"] ")[0].value, "[1,\"x\"]");
    assert_eq!(read("a=tr\tue")[0].value, "\"tr\\tue\"");
    assert_eq!(command::value_of("x", Some("true".into())), "true");
    let setting = |secret: bool, stored: Option<&str>| Setting {
        def: SettingDef {
            name: "a".to_string(),
            kind: "int".into(),
            is_int: true,
            description: "A.".into(),
            secret,
            reload: "live".into(),
            default_value: DefaultValue::Int(5),
            min: None,
            max: None,
            allowed: None,
        },
        secret_form: "inline".into(),
        stored: stored.map(str::to_string),
    };
    assert!(command::is_unchanged(&read("a=7"), &[setting(false, Some("7"))]));
    assert!(!command::is_unchanged(&read("a=8"), &[setting(false, Some("7"))]));
    assert!(!command::is_unchanged(&read("a=7"), &[setting(true, Some("7"))]));
    assert!(!command::is_unchanged(&read("a=7"), &[setting(false, None)]));
    assert!(!command::is_unchanged(&read("b=7"), &[setting(false, Some("7"))]));
    assert_eq!(command::no_changes(3), "no changes; already at revision 3");
    assert_eq!(
        command::applied(4, &args(&["a", "b"]), &args(&["c"])),
        "revision 4 applied (2 changed: a, b)"
    );
    assert_eq!(
        command::applied(4, &[], &args(&["c"])),
        "revision 4 applied (0 changed: c)"
    );
}

#[test]
fn a_probe_is_judged_by_its_status_line() {
    assert_eq!(
        command::probe_request("h:1", "/healthz"),
        "GET /healthz HTTP/1.1\r\nHost: h:1\r\nConnection: close\r\n\r\n"
    );
    assert!(command::probe_health(b"HTTP/1.1 200 OK\r\n\r\n").is_ok());
    assert_eq!(
        command::probe_health(b"HTTP/1.1 503 No\r\n 200").unwrap_err(),
        "unexpected status: HTTP/1.1 503 No"
    );
    assert_eq!(command::probe_health(b"\xff").unwrap_err(), "unexpected status: \u{fffd}");
    assert_eq!(
        command::log_filter("info"),
        "info,hyper=warn,rustls=warn,h2=warn,tower=warn"
    );
    let error = ApiError::storage_unavailable("x").with_code("other");
    assert_eq!((error.status, error.code), (503, "other"));
}

#[test]
fn key_material_is_base64url_or_base64() {
    let bytes = [0xfbu8; 32];
    let url = hypeterm::encoding::b64_encode(&bytes);
    assert!(url.contains('-'));
    let standard = url.replace('-', "+").replace('_', "/");
    let key = |raw: &str| bootstrap::decode_key(raw, "S");
    assert_eq!(key(&url).unwrap(), bytes);
    let drawn = bootstrap::generate_key();
    assert!(drawn.ends_with('\n') && key(drawn.trim()).is_ok());
    assert_eq!(key(&format!("{url}=")).unwrap(), bytes);
    assert_eq!(key(&standard).unwrap(), bytes);
    assert_eq!(key(&format!("{standard}=")).unwrap(), bytes);
    let mixed = standard.replacen('+', "-", 1);
    assert!(matches!(
        key(&mixed),
        Err(BootstrapError::Invalid(words)) if words == "S must be base64url-encoded key material"
    ));
    assert!(matches!(
        key("AA"),
        Err(BootstrapError::Invalid(words)) if words == "S must decode to exactly 32 bytes, got 1"
    ));
    // Bits that are left over, and padding that is not canonical, stand for nothing.
    assert!(hypeterm::encoding::b64_decode("AB").is_none());
    assert!(hypeterm::encoding::b64_decode("AA=").is_none());
    assert_eq!(hypeterm::encoding::b64_decode("AA=="), Some(vec![0]));
}

#[test]
fn paths_are_joined_as_the_system_does() {
    assert_eq!(join(System::Unix, "/d", "f"), "/d/f");
    assert_eq!(join(System::Unix, "/d/", "f"), "/d/f");
    assert_eq!(join(System::Unix, "", "f"), "f");
    assert_eq!(join(System::Windows, "C:\\d", "f"), "C:\\d\\f");
    assert_eq!(join(System::Windows, "C:\\", "f"), "C:\\f");
    assert_eq!(join(System::Windows, "C:", "f"), "C:f");
    assert_eq!(join(System::Windows, "d/", "f"), "d/f");
}

#[test]
fn every_metric_is_headed_once() {
    let metrics = Metrics::new();
    let sums: Vec<String> = (0..4).map(|_| "0".to_string()).collect();
    let text = metrics.render(&sums);
    assert_eq!(text, metrics.render(&sums));
    let lines: Vec<&str> = text.lines().collect();
    let mut names: Vec<&str> = Vec::new();
    for (at, line) in lines.iter().enumerate() {
        if let Some(rest) = line.strip_prefix("# HELP ") {
            let name = rest.split(' ').next().unwrap();
            assert!(lines[at + 1].starts_with(&format!("# TYPE {name} ")));
            assert!(lines[at + 2].starts_with(name));
            names.push(name);
        } else if !line.starts_with("# TYPE ") {
            assert!(line.starts_with(names.last().unwrap()));
            assert_eq!(line.contains('{'), line.contains("_bucket{le=\""));
        }
    }
    assert_eq!(names.len(), 62);
    names.sort();
    names.dedup();
    assert_eq!(names.len(), 62);
}
