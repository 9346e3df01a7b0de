use openvasd::decode_result;
use openvasd::encode_result;
use openvasd::feed_tick;
use openvasd::handle;
use openvasd::Context;
use openvasd::ContextBuilder;
use openvasd::Credential;
use openvasd::CredentialType;
use openvasd::Method;
use openvasd::NoOpScanner;
use openvasd::Phase;
use openvasd::Request;
use openvasd::RequestBody;
use openvasd::ResponseBody;
use openvasd::ResultKind;
use openvasd::Scan;
use openvasd::ScanAction;
use openvasd::ScanDeleter;
use openvasd::ScanError;
use openvasd::ScanResult;
use openvasd::ScanResultFetcher;
use openvasd::ScanStarter;
use openvasd::ScanStopper;
use openvasd::Action;
use openvasd::Status;

fn empty_request(method: Method, path: &str) -> Request {
    Request { method, path: path.to_string(), api_key: None, body: RequestBody::Empty }
}

fn create_scan(ctx: &mut Context<impl openvasd::Scanner>) -> String {
    let resp = handle(
        ctx,
        Request {
            method: Method::Post,
            path: "/scans".to_string(),
            api_key: None,
            body: RequestBody::ScanBody(Scan::default()),
        },
    );
    assert_eq!(resp.status, 201);
    match resp.body {
        ResponseBody::Id(id) => id,
        _ => panic!("expected an identifier body"),
    }
}

#[test]
fn result_codec_roundtrip() {
    let r = ScanResult {
        id: 7,
        kind: ResultKind::Alarm,
        message: Some("something was found".to_string()),
        host: Some("127.0.0.1".to_string()),
        port: Some(443),
        oid: Some("1.3.6.1.4.1".to_string()),
    };
    let bytes = encode_result(&r).expect("a small result encodes");
    let back = decode_result(&bytes, 7).expect("the encoding decodes");
    assert_eq!(back.id, 7);
    assert_eq!(back.kind, ResultKind::Alarm);
    assert_eq!(back.message.as_deref(), Some("something was found"));
    assert_eq!(back.host.as_deref(), Some("127.0.0.1"));
    assert_eq!(back.port, Some(443));
    assert_eq!(back.oid.as_deref(), Some("1.3.6.1.4.1"));
}

#[test]
fn result_codec_rejects_garbage() {
    assert!(decode_result(&[], 0).is_none());
    assert!(decode_result(&[9, 0, 0, 0, 0], 0).is_none());
}

#[test]
fn phase_queries() {
    assert!(Phase::Requested.is_running());
    assert!(Phase::Running.is_running());
    assert!(!Phase::Stored.is_running());
    assert!(!Phase::Succeeded.is_running());
    assert_eq!(Phase::Succeeded.as_str(), "succeeded");
    assert_eq!(Phase::Stored.as_str(), "stored");
    let st = Status { start_time: None, end_time: None, status: Phase::Running, host_info: None };
    assert!(st.is_running());
    assert!(!st.is_done());
}

#[test]
fn credential_password_and_censoring() {
    let cred = Credential {
        service: openvasd::Service::SSH,
        port: None,
        credential_type: CredentialType::UP {
            username: "root".to_string(),
            password: "hunter2".to_string(),
        },
    };
    assert_eq!(cred.password(), "hunter2");
    let censored = cred.censored();
    match censored.credential_type {
        CredentialType::UP { username, password } => {
            assert_eq!(username, "***");
            assert_eq!(password, "***");
        }
        _ => panic!("the variant must be kept"),
    }
}

#[test]
fn credential_map_password() {
    let cred = Credential::default();
    let mapped = cred
        .map_password::<_, ()>(|p| Ok(format!("{p}!")))
        .expect("mapping cannot fail here");
    assert_eq!(mapped.password(), "!");
}

#[test]
fn identifiers_are_minted_in_order() {
    let mut ctx = Context::default();
    assert_eq!(create_scan(&mut ctx), "uuid-1");
    assert_eq!(create_scan(&mut ctx), "uuid-2");
    assert_eq!(create_scan(&mut ctx), "uuid-3");
}

#[test]
fn service_and_credential_tags() {
    assert_eq!(openvasd::Service::SSH.as_str(), "ssh");
    assert_eq!(openvasd::Service::SNMP.as_str(), "snmp");
    let ct = CredentialType::UP { username: "u".to_string(), password: "p".to_string() };
    assert_eq!(ct.as_str(), "up");
}

#[test]
fn list_scans_disabled_by_default() {
    let mut ctx = Context::default();
    let _ = create_scan(&mut ctx);
    let resp = handle(&mut ctx, empty_request(Method::Get, "/scans"));
    assert_eq!(resp.status, 404);
}

#[test]
fn list_scans_enabled() {
    let mut ctx = ContextBuilder::new().enable_get_scans(true).scanner(NoOpScanner).build();
    let id = create_scan(&mut ctx);
    let resp = handle(&mut ctx, empty_request(Method::Get, "/scans"));
    assert_eq!(resp.status, 200);
    match resp.body {
        ResponseBody::Ids(ids) => assert_eq!(ids, vec![id]),
        _ => panic!("expected a list of identifiers"),
    }
}

#[test]
fn listing_drops_deleted_scans() {
    let mut ctx = ContextBuilder::new().enable_get_scans(true).scanner(NoOpScanner).build();
    let a = create_scan(&mut ctx);
    let b = create_scan(&mut ctx);
    let resp = handle(&mut ctx, empty_request(Method::Delete, &format!("/scans/{a}")));
    assert_eq!(resp.status, 204);
    let resp = handle(&mut ctx, empty_request(Method::Get, "/scans"));
    assert_eq!(resp.status, 200);
    match resp.body {
        ResponseBody::Ids(ids) => assert_eq!(ids, vec![b]),
        _ => panic!("expected a list of identifiers"),
    }
}

#[test]
fn malformed_range_is_bad_request() {
    let mut ctx = Context::default();
    let id = create_scan(&mut ctx);
    let resp = handle(&mut ctx, empty_request(Method::Get, &format!("/scans/{id}/results?range=abc")));
    assert_eq!(resp.status, 400);
    let resp = handle(&mut ctx, empty_request(Method::Get, &format!("/scans/{id}/results?range=9-5")));
    assert_eq!(resp.status, 400);
    let resp = handle(&mut ctx, empty_request(Method::Get, &format!("/scans/{id}/results?range=0-5")));
    assert_eq!(resp.status, 200);
}

#[test]
fn out_of_range_results_are_empty() {
    let mut ctx = Context::default();
    let id = create_scan(&mut ctx);
    let resp = handle(&mut ctx, empty_request(Method::Get, &format!("/scans/{id}/results/99")));
    assert_eq!(resp.status, 200);
    match resp.body {
        ResponseBody::Results(v) => assert_eq!(v.len(), 0),
        _ => panic!("expected a results body"),
    }
}

#[test]
fn unknown_routes_are_not_found() {
    let mut ctx = Context::default();
    let resp = handle(&mut ctx, empty_request(Method::Get, "/unknown"));
    assert_eq!(resp.status, 404);
    let resp = handle(&mut ctx, empty_request(Method::Get, "/scans/nope"));
    assert_eq!(resp.status, 404);
    let resp = handle(&mut ctx, empty_request(Method::Post, "/scans/nope/results"));
    assert_eq!(resp.status, 404);
}

#[test]
fn malformed_body_is_bad_request() {
    let mut ctx = Context::default();
    let resp = handle(
        &mut ctx,
        Request {
            method: Method::Post,
            path: "/scans".to_string(),
            api_key: None,
            body: RequestBody::Malformed,
        },
    );
    assert_eq!(resp.status, 400);
    let id = create_scan(&mut ctx);
    let resp = handle(
        &mut ctx,
        Request {
            method: Method::Post,
            path: format!("/scans/{id}"),
            api_key: None,
            body: RequestBody::Malformed,
        },
    );
    assert_eq!(resp.status, 400);
}

/// A scanner whose every operation fails.
#[derive(Debug)]
struct FailingScanner;

impl ScanStarter for FailingScanner {
    fn start_scan(&self, _scan: Scan) -> Result<(), ScanError> {
        Err(ScanError)
    }
}

impl ScanStopper for FailingScanner {
    fn stop_scan(&self, _id: &str) -> Result<(), ScanError> {
        Err(ScanError)
    }
}

impl ScanDeleter for FailingScanner {
    fn delete_scan(&self, _id: &str) -> Result<(), ScanError> {
        Err(ScanError)
    }
}

impl ScanResultFetcher for FailingScanner {
    fn fetch_results(&self, _id: &str) -> Result<openvasd::FetchResult, ScanError> {
        Err(ScanError)
    }
}

#[test]
fn scanner_failure_is_internal_error() {
    let mut ctx = ContextBuilder::new().scanner(FailingScanner).build();
    let id = create_scan(&mut ctx);
    let resp = handle(
        &mut ctx,
        Request {
            method: Method::Post,
            path: format!("/scans/{id}"),
            api_key: None,
            body: RequestBody::ActionBody(ScanAction { action: Action::Start }),
        },
    );
    assert_eq!(resp.status, 500);
    // the failure left the scan untouched, still in the stored phase
    let resp = handle(&mut ctx, empty_request(Method::Get, &format!("/scans/{id}/status")));
    match resp.body {
        ResponseBody::StatusBody(st) => assert_eq!(st.status, Phase::Stored),
        _ => panic!("expected a status body"),
    }
}

#[test]
fn stop_on_stored_scan_is_conflict() {
    let mut ctx = Context::default();
    let id = create_scan(&mut ctx);
    let resp = handle(
        &mut ctx,
        Request {
            method: Method::Post,
            path: format!("/scans/{id}"),
            api_key: None,
            body: RequestBody::ActionBody(ScanAction { action: Action::Stop }),
        },
    );
    assert_eq!(resp.status, 409);
}

#[test]
fn feed_tick_publishes_pair() {
    let mut ctx = Context::default();
    feed_tick(&mut ctx, "v1".to_string(), vec!["1.2.3".to_string()]);
    assert_eq!(ctx.oids.0, "v1");
    assert_eq!(ctx.oids.1, vec!["1.2.3".to_string()]);
    assert_eq!(ctx.feed_version.as_deref(), Some("v1"));
    // an unchanged version leaves the pair alone
    feed_tick(&mut ctx, "v1".to_string(), vec![]);
    assert_eq!(ctx.oids.1, vec!["1.2.3".to_string()]);
}

/// A scanner that reports an earlier phase than the one already stored.
#[derive(Debug)]
struct RegressingScanner;

impl ScanStarter for RegressingScanner {
    fn start_scan(&self, _scan: Scan) -> Result<(), ScanError> {
        Ok(())
    }
}

impl ScanStopper for RegressingScanner {
    fn stop_scan(&self, _id: &str) -> Result<(), ScanError> {
        Ok(())
    }
}

impl ScanDeleter for RegressingScanner {
    fn delete_scan(&self, _id: &str) -> Result<(), ScanError> {
        Ok(())
    }
}

impl ScanResultFetcher for RegressingScanner {
    fn fetch_results(&self, _id: &str) -> Result<openvasd::FetchResult, ScanError> {
        let status =
            Status { start_time: None, end_time: None, status: Phase::Stored, host_info: None };
        Ok((status, vec![]))
    }
}

#[test]
fn phase_never_regresses() {
    let mut ctx = ContextBuilder::new().scanner(RegressingScanner).build();
    let id = create_scan(&mut ctx);
    let resp = handle(
        &mut ctx,
        Request {
            method: Method::Post,
            path: format!("/scans/{id}"),
            api_key: None,
            body: RequestBody::ActionBody(ScanAction { action: Action::Start }),
        },
    );
    assert_eq!(resp.status, 204);
    // the scanner reports Stored; the poll must not move the phase backwards
    openvasd::poll_once(&mut ctx, 0);
    let resp = handle(&mut ctx, empty_request(Method::Get, &format!("/scans/{id}/status")));
    match resp.body {
        ResponseBody::StatusBody(st) => assert_eq!(st.status, Phase::Requested),
        _ => panic!("expected a status body"),
    }
}
