use openvasd::handle;
use openvasd::Action;
use openvasd::Context;
use openvasd::ContextBuilder;
use openvasd::FetchResult;
use openvasd::Method;
use openvasd::NoOpScanner;
use openvasd::Phase;
use openvasd::Request;
use openvasd::RequestBody;
use openvasd::Response;
use openvasd::ResponseBody;
use openvasd::ResultContext;
use openvasd::Scan;
use openvasd::ScanAction;
use openvasd::ScanDeleter;
use openvasd::ScanError;
use openvasd::ScanResult;
use openvasd::ScanResultFetcher;
use openvasd::ScanStarter;
use openvasd::ScanStopper;
use openvasd::Scanner;
use openvasd::ResultKind;
use openvasd::Status;

use std::cell::RefCell;

fn head_request() -> Request {
    Request {
        method: Method::Head,
        path: "/".to_string(),
        api_key: None,
        body: RequestBody::Empty,
    }
}

fn post_scan<S: Scanner>(ctx: &mut Context<S>, scan: Scan) -> Response {
    handle(
        ctx,
        Request {
            method: Method::Post,
            path: "/scans".to_string(),
            api_key: None,
            body: RequestBody::ScanBody(scan),
        },
    )
}

fn post_scan_id<S: Scanner>(ctx: &mut Context<S>, scan: Scan) -> String {
    let resp = post_scan(ctx, scan);
    assert_eq!(resp.status, 201);
    match resp.body {
        ResponseBody::Id(id) => id,
        _ => panic!("expected an identifier body"),
    }
}

fn get_scan<S: Scanner>(ctx: &mut Context<S>, id: &str) -> Response {
    handle(
        ctx,
        Request {
            method: Method::Get,
            path: format!("/scans/{id}"),
            api_key: None,
            body: RequestBody::Empty,
        },
    )
}

fn get_scan_status<S: Scanner>(ctx: &mut Context<S>, id: &str) -> Response {
    handle(
        ctx,
        Request {
            method: Method::Get,
            path: format!("/scans/{id}/status"),
            api_key: None,
            body: RequestBody::Empty,
        },
    )
}

fn start_scan<S: Scanner>(ctx: &mut Context<S>, id: &str) -> Response {
    handle(
        ctx,
        Request {
            method: Method::Post,
            path: format!("/scans/{id}"),
            api_key: None,
            body: RequestBody::ActionBody(ScanAction { action: Action::Start }),
        },
    )
}

fn get_results<S: Scanner>(
    ctx: &mut Context<S>,
    id: &str,
    idx: Option<usize>,
    range: Option<(usize, usize)>,
) -> Vec<ScanResult> {
    let uri = match idx {
        Some(idx) => format!("/scans/{id}/results/{idx}"),
        None => {
            if let Some((begin, end)) = range {
                format!("/scans/{id}/results?range={begin}-{end}")
            } else {
                format!("/scans/{id}/results")
            }
        }
    };
    let resp = handle(
        ctx,
        Request { method: Method::Get, path: uri, api_key: None, body: RequestBody::Empty },
    );
    assert_eq!(resp.status, 200);
    match resp.body {
        ResponseBody::Results(v) => v,
        _ => panic!("expected a results body"),
    }
}

#[derive(Debug)]
struct FakeScanner {
    count: RefCell<usize>,
}

impl ScanStarter for FakeScanner {
    fn start_scan(&self, _scan: Scan) -> Result<(), ScanError> {
        Ok(())
    }
}

impl ScanStopper for FakeScanner {
    fn stop_scan(&self, _id: &str) -> Result<(), ScanError> {
        Ok(())
    }
}

impl ScanDeleter for FakeScanner {
    fn delete_scan(&self, _id: &str) -> Result<(), ScanError> {
        Ok(())
    }
}

impl ScanResultFetcher for FakeScanner {
    fn fetch_results(&self, _id: &str) -> Result<FetchResult, ScanError> {
        let mut count = self.count.borrow_mut();
        match *count {
            0 => {
                let status = Status {
                    start_time: None,
                    end_time: None,
                    status: Phase::Requested,
                    host_info: None,
                };
                *count += 1;
                Ok((status, vec![]))
            }
            1..=99 => {
                let status = Status {
                    start_time: None,
                    end_time: None,
                    status: Phase::Running,
                    host_info: None,
                };
                let mut results = vec![];
                for i in 0..*count {
                    results.push(ScanResult {
                        id: i,
                        kind: ResultKind::Log,
                        message: Some(format!("message {i}")),
                        host: None,
                        port: None,
                        oid: None,
                    });
                }
                *count += 1;
                Ok((status, results))
            }
            _ => {
                *count += 1;
                let status = Status {
                    start_time: None,
                    end_time: None,
                    status: Phase::Succeeded,
                    host_info: None,
                };
                Ok((status, vec![]))
            }
        }
    }
}

#[test]
fn contains_version() {
    let mut ctx = Context::default();
    let resp = handle(&mut ctx, head_request());
    assert_eq!(resp.api_version, "1");
    assert_eq!(resp.authentication, "");
}

#[test]
fn delete_scan() {
    let mut ctx = Context::default();
    let id = post_scan_id(&mut ctx, Scan::default());
    let resp = get_scan(&mut ctx, &id);
    assert_eq!(resp.status, 200);
    let resp = handle(
        &mut ctx,
        Request {
            method: Method::Delete,
            path: format!("/scans/{id}"),
            api_key: None,
            body: RequestBody::Empty,
        },
    );
    assert_eq!(resp.status, 204);
    let resp = get_scan(&mut ctx, &id);
    assert_eq!(resp.status, 404);
}

#[test]
fn fetch_results() {
    let scanner = FakeScanner { count: RefCell::new(0) };
    let mut ctx = ContextBuilder::new()
        .result_config(ResultContext(10))
        .scanner(scanner)
        .build();
    let id = post_scan_id(&mut ctx, Scan::default());
    let resp = start_scan(&mut ctx, &id);
    assert_eq!(resp.status, 204);
    let mut now: u32 = 0;
    loop {
        openvasd::poll_once(&mut ctx, now);
        now += 1;
        let resp = get_scan_status(&mut ctx, &id);
        assert_eq!(resp.status, 200);
        let status = match resp.body {
            ResponseBody::StatusBody(st) => st,
            _ => panic!("expected a status body"),
        };
        if status.status == Phase::Succeeded {
            // reaching a terminal phase records the end time
            assert!(status.end_time.is_some());
            ctx.abort = true;
            break;
        }
        assert!(now < 1000, "the scan never finished");
    }
    let resp = get_results(&mut ctx, &id, None, None);
    assert_eq!(resp.len(), 4950);
    for (i, r) in resp.iter().enumerate() {
        assert_eq!(r.id, i);
    }
    let resp = get_results(&mut ctx, &id, Some(0), None);
    assert_eq!(resp.len(), 1);
    assert_eq!(resp[0].id, 0);
    let resp = get_results(&mut ctx, &id, Some(4949), None);
    assert_eq!(resp.len(), 1);
    assert_eq!(resp[0].id, 4949);
    let resp = get_results(&mut ctx, &id, None, Some((4900, 4923)));
    assert_eq!(resp.len(), 24);
    for (i, r) in resp.iter().enumerate() {
        assert_eq!(r.id, i + 4900);
    }
}

#[test]
fn unauthorized() {
    let mut ctx = ContextBuilder::new()
        .api_key(Some("mtls_is_preferred".to_string()))
        .scanner(NoOpScanner)
        .build();
    let resp = post_scan(&mut ctx, Scan::default());
    assert_eq!(resp.status, 401);
    let resp = handle(
        &mut ctx,
        Request {
            method: Method::Post,
            path: "/scans".to_string(),
            api_key: Some("mtls_is_preferred".to_string()),
            body: RequestBody::ScanBody(Scan::default()),
        },
    );
    assert_eq!(resp.status, 201);
}
