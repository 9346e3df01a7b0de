use openvasd::handle;
use openvasd::Action;
use openvasd::Context;
use openvasd::ContextBuilder;
use openvasd::Credential;
use openvasd::CredentialType;
use openvasd::Method;
use openvasd::NoOpScanner;
use openvasd::Request;
use openvasd::RequestBody;
use openvasd::ResponseBody;
use openvasd::Scan;
use openvasd::ScanAction;
use openvasd::ScanDeleter;
use openvasd::ScanError;
use openvasd::ScanResultFetcher;
use openvasd::ScanStarter;
use openvasd::ScanStopper;
use openvasd::Service;

use std::cell::RefCell;

fn empty_request(method: Method, path: &str) -> Request {
    Request { method, path: path.to_string(), api_key: None, body: RequestBody::Empty }
}

#[test]
fn default_head() {
    let mut ctx = Context::default();
    let resp = handle(&mut ctx, empty_request(Method::Head, "/"));
    assert_eq!(resp.status, 200);
    assert_eq!(resp.api_version, "1");
    assert_eq!(resp.authentication, "");
}

#[test]
fn create_then_delete() {
    let mut ctx = Context::default();
    let resp = handle(
        &mut ctx,
        Request {
            method: Method::Post,
            path: "/scans".to_string(),
            api_key: None,
            body: RequestBody::ScanBody(Scan::default()),
        },
    );
    assert_eq!(resp.status, 201);
    let id = match resp.body {
        ResponseBody::Id(id) => id,
        _ => panic!("expected an identifier body"),
    };
    assert_eq!(id, "uuid-1");
    let resp = handle(&mut ctx, empty_request(Method::Get, "/scans/uuid-1"));
    assert_eq!(resp.status, 200);
    let resp = handle(&mut ctx, empty_request(Method::Delete, "/scans/uuid-1"));
    assert_eq!(resp.status, 204);
    let resp = handle(&mut ctx, empty_request(Method::Get, "/scans/uuid-1"));
    assert_eq!(resp.status, 404);
}

#[test]
fn invalid_transition() {
    let mut ctx = Context::default();
    let resp = handle(
        &mut ctx,
        Request {
            method: Method::Post,
            path: "/scans".to_string(),
            api_key: None,
            body: RequestBody::ScanBody(Scan::default()),
        },
    );
    assert_eq!(resp.status, 201);
    let id = match resp.body {
        ResponseBody::Id(id) => id,
        _ => panic!("expected an identifier body"),
    };
    let start = |ctx: &mut Context<NoOpScanner>| {
        handle(
            ctx,
            Request {
                method: Method::Post,
                path: format!("/scans/{id}"),
                api_key: None,
                body: RequestBody::ActionBody(ScanAction { action: Action::Start }),
            },
        )
    };
    let resp = start(&mut ctx);
    assert_eq!(resp.status, 204);
    let resp = start(&mut ctx);
    assert_eq!(resp.status, 409);
}

/// Remembers the scan it was asked to start.
#[derive(Debug)]
struct RecordingScanner {
    started: RefCell<Option<Scan>>,
}

impl ScanStarter for RecordingScanner {
    fn start_scan(&self, scan: Scan) -> Result<(), ScanError> {
        *self.started.borrow_mut() = Some(scan);
        Ok(())
    }
}

impl ScanStopper for RecordingScanner {
    fn stop_scan(&self, _id: &str) -> Result<(), ScanError> {
        Ok(())
    }
}

impl ScanDeleter for RecordingScanner {
    fn delete_scan(&self, _id: &str) -> Result<(), ScanError> {
        Ok(())
    }
}

impl ScanResultFetcher for RecordingScanner {
    fn fetch_results(&self, _id: &str) -> Result<openvasd::FetchResult, ScanError> {
        Err(ScanError)
    }
}

#[test]
fn censoring() {
    let scanner = RecordingScanner { started: RefCell::new(None) };
    let mut ctx = ContextBuilder::new().scanner(scanner).build();
    let scan = Scan {
        scan_id: String::new(),
        hosts: vec!["localhost".to_string()],
        vts: vec![],
        credentials: vec![Credential {
            service: Service::SSH,
            port: Some(22),
            credential_type: CredentialType::UP {
                username: "root".to_string(),
                password: "hunter2".to_string(),
            },
        }],
        preferences: vec![],
    };
    let resp = handle(
        &mut ctx,
        Request {
            method: Method::Post,
            path: "/scans".to_string(),
            api_key: None,
            body: RequestBody::ScanBody(scan),
        },
    );
    assert_eq!(resp.status, 201);
    let id = match resp.body {
        ResponseBody::Id(id) => id,
        _ => panic!("expected an identifier body"),
    };
    // outward serialization: every secret field is exactly "***"
    let resp = handle(&mut ctx, empty_request(Method::Get, &format!("/scans/{id}")));
    assert_eq!(resp.status, 200);
    let got = match resp.body {
        ResponseBody::ScanBody(s) => s,
        _ => panic!("expected a scan body"),
    };
    assert_eq!(got.credentials.len(), 1);
    match &got.credentials[0].credential_type {
        CredentialType::UP { username, password } => {
            assert_eq!(username, "***");
            assert_eq!(password, "***");
        }
        _ => panic!("expected user/password credentials"),
    }
    // internally, the store still feeds the plaintext to the scanner
    let resp = handle(
        &mut ctx,
        Request {
            method: Method::Post,
            path: format!("/scans/{id}"),
            api_key: None,
            body: RequestBody::ActionBody(ScanAction { action: Action::Start }),
        },
    );
    assert_eq!(resp.status, 204);
    let started = ctx.scanner.started.borrow();
    let started = started.as_ref().expect("the scanner saw no scan");
    assert_eq!(started.credentials[0].password(), "hunter2");
}

#[test]
fn auth_gate() {
    let mut ctx = ContextBuilder::new()
        .api_key(Some("mtls_is_preferred".to_string()))
        .scanner(NoOpScanner)
        .build();
    let resp = handle(
        &mut ctx,
        Request {
            method: Method::Post,
            path: "/scans".to_string(),
            api_key: None,
            body: RequestBody::ScanBody(Scan::default()),
        },
    );
    assert_eq!(resp.status, 401);
    // no side effect: the scan list stays empty
    let resp = handle(
        &mut ctx,
        Request {
            method: Method::Get,
            path: "/scans/uuid-1".to_string(),
            api_key: Some("mtls_is_preferred".to_string()),
            body: RequestBody::Empty,
        },
    );
    assert_eq!(resp.status, 404);
    let resp = handle(
        &mut ctx,
        Request {
            method: Method::Post,
            path: "/scans".to_string(),
            api_key: Some("mtls_is_preferred".to_string()),
            body: RequestBody::ScanBody(Scan::default()),
        },
    );
    assert_eq!(resp.status, 201);
}
