use vstd::prelude::*;
use vstd::string::StrSliceExecFns;

use crate::context::Context;
use crate::lifecycle::apply_action;
use crate::lifecycle::apply_delete;
use crate::lifecycle::only_db_changed;
use crate::scan::Scan;
use crate::scan::ScanAction;
use crate::scan::ScanResult;
use crate::scanner::Scanner;
use crate::scan::ScanModel;
use crate::sealed::scan_sealable;
use crate::status::Phase;
use crate::status::Status;
use crate::store::str_eq;
use crate::store::select_results;
use crate::store::spec_scan_id;
use crate::store::RecordModel;
use crate::store::ResultSelector;

verus! {

/// The HTTP methods the dispatcher distinguishes.
#[derive(Clone, Copy, Debug, PartialEq, Eq, Structural)]
pub enum Method {
    Head,
    Get,
    Post,
    Delete,
    Other,
}

/// A request body, already decoded from the wire.
pub enum RequestBody {
    Empty,
    ScanBody(Scan),
    ActionBody(ScanAction),
    Malformed,
}

/// One request, as the dispatcher sees it: method, full request path with
/// query, the `x-api-key` header if any, and the decoded body.
pub struct Request {
    pub method: Method,
    pub path: String,
    pub api_key: Option<String>,
    pub body: RequestBody,
}

/// A response body.
pub enum ResponseBody {
    Empty,
    Id(String),
    Ids(Vec<String>),
    ScanBody(Scan),
    StatusBody(Status),
    Results(Vec<ScanResult>),
}

/// One response: the status code, the headers this service always
/// announces, and the body.
pub struct Response {
    pub status: u16,
    pub api_version: &'static str,
    pub authentication: &'static str,
    pub feed_version: Option<String>,
    pub body: ResponseBody,
}

/// The index of the first occurrence of `c` at or after `from`, or the
/// length of the sequence when there is none.
pub open spec fn find_from(s: Seq<char>, c: char, from: int) -> int
    decreases s.len() - from,
{
    if from < 0 || from >= s.len() {
        s.len() as int
    } else if s[from] == c {
        from
    } else {
        find_from(s, c, from + 1)
    }
}

proof fn lemma_find_from(s: Seq<char>, c: char, from: int)
    requires
        0 <= from <= s.len(),
    ensures
        from <= find_from(s, c, from) <= s.len(),
        find_from(s, c, from) < s.len() ==> s[find_from(s, c, from)] == c,
        forall|k: int| from <= k < find_from(s, c, from) ==> s[k] != c,
    decreases s.len() - from,
{
    if from < s.len() && s[from] != c {
        lemma_find_from(s, c, from + 1);
    }
}

/// Finds a character, mirroring `find_from`.
fn find_char(s: &str, c: char, from: usize, len: usize) -> (r: usize)
    requires
        from <= len,
        len == s@.len(),
    ensures
        r == find_from(s@, c, from as int),
        from <= r <= s@.len(),
{
    proof {
        lemma_find_from(s@, c, from as int);
    }
    let mut i: usize = from;
    while i < len
        invariant
            from <= i <= len,
            len == s@.len(),
            find_from(s@, c, from as int) == find_from(s@, c, i as int),
        decreases len - i,
    {
        if s.get_char(i) == c {
            return i;
        }
        i = i + 1;
    }
    i
}

/// A decimal digit character.
pub open spec fn is_digit(c: char) -> bool {
    48 <= c as u32 <= 57
}

/// The value of a decimal digit character.
pub open spec fn digit_value(c: char) -> int {
    c as u32 - 48
}

/// A non-empty, all-digit character run.
pub open spec fn is_digits(s: Seq<char>) -> bool {
    s.len() > 0 && forall|i: int| 0 <= i < s.len() ==> is_digit(#[trigger] s[i])
}

/// The decimal value of a digit run.
pub open spec fn dec_val(s: Seq<char>) -> int
    decreases s.len(),
{
    if s.len() == 0 {
        0
    } else {
        dec_val(s.drop_last()) * 10 + digit_value(s.last())
    }
}

/// What a decimal number literal parses to: its value, if it is a digit
/// run whose value fits the platform's indices.
pub open spec fn parse_usize_spec(s: Seq<char>) -> Option<int> {
    if is_digits(s) && dec_val(s) <= usize::MAX as int {
        Some(dec_val(s))
    } else {
        None
    }
}

proof fn lemma_dec_val_nonneg(s: Seq<char>)
    requires
        forall|i: int| 0 <= i < s.len() ==> is_digit(#[trigger] s[i]),
    ensures
        dec_val(s) >= 0,
    decreases s.len(),
{
    if s.len() > 0 {
        lemma_dec_val_nonneg(s.drop_last());
    }
}

proof fn lemma_dec_val_prefix_le(s: Seq<char>, i: int)
    requires
        forall|k: int| 0 <= k < s.len() ==> is_digit(#[trigger] s[k]),
        0 <= i <= s.len(),
    ensures
        dec_val(s.subrange(0, i)) <= dec_val(s),
    decreases s.len(),
{
    if i == s.len() {
        assert(s.subrange(0, i) =~= s);
    } else {
        assert(s.drop_last().subrange(0, i) =~= s.subrange(0, i));
        lemma_dec_val_prefix_le(s.drop_last(), i);
        lemma_dec_val_nonneg(s.drop_last());
    }
}

/// Parses the characters `[from, to)` of `s` as a decimal number,
/// mirroring `parse_usize_spec`.
fn parse_usize(s: &str, from: usize, to: usize) -> (r: Option<usize>)
    requires
        from <= to <= s@.len(),
    ensures
        match r {
            Some(v) => parse_usize_spec(s@.subrange(from as int, to as int)) == Some(v as int),
            None => parse_usize_spec(s@.subrange(from as int, to as int)) is None,
        },
{
    let ghost sub = s@.subrange(from as int, to as int);
    if from == to {
        return None;
    }
    let mut acc: usize = 0;
    let mut i: usize = from;
    while i < to
        invariant
            from <= i <= to <= s@.len(),
            sub == s@.subrange(from as int, to as int),
            forall|k: int| 0 <= k < i - from ==> is_digit(#[trigger] sub[k]),
            acc as int == dec_val(sub.subrange(0, i - from)),
        decreases to - i,
    {
        let c = s.get_char(i);
        let cv = c as u32;
        if cv < 48 || cv > 57 {
            proof {
                assert(sub[i - from] == c);
                assert(!is_digits(sub));
            }
            return None;
        }
        let d = (cv - 48) as usize;
        if acc > (usize::MAX - d) / 10 {
            proof {
                assert(sub.subrange(0, i - from + 1).drop_last() =~= sub.subrange(0, i - from));
                assert(sub.subrange(0, i - from + 1).last() == sub[i - from]);
                assert(dec_val(sub.subrange(0, i - from + 1)) == acc as int * 10 + d);
                assert(acc as int * 10 + d > usize::MAX as int) by {
                    assert(acc as int >= (usize::MAX - d) as int / 10 + 1);
                    assert(((usize::MAX - d) as int / 10 + 1) * 10 > (usize::MAX - d) as int);
                };
                if is_digits(sub) {
                    lemma_dec_val_prefix_le(sub, i - from + 1);
                }
            }
            return None;
        }
        proof {
            assert(acc <= (usize::MAX - d) / 10);
            assert((((usize::MAX - d) / 10) as int) * 10 <= (usize::MAX - d) as int);
            assert(acc as int * 10 <= (((usize::MAX - d) / 10) as int) * 10);
            assert(sub.subrange(0, i - from + 1).drop_last() =~= sub.subrange(0, i - from));
            assert(sub.subrange(0, i - from + 1).last() == sub[i - from]);
        }
        acc = acc * 10 + d;
        i = i + 1;
    }
    proof {
        assert(sub.subrange(0, sub.len() as int) =~= sub);
        lemma_dec_val_nonneg(sub);
    }
    Some(acc)
}

/// The routes of the service.
pub enum Route {
    HeadRoot,
    CreateScan,
    ListScans,
    GetScan(String),
    PostAction(String),
    DeleteScan(String),
    GetStatus(String),
    GetResults(String, ResultSelector),
    BadRequest,
    Unknown,
}

/// The mathematical value of a route.
pub enum RouteModel {
    HeadRoot,
    CreateScan,
    ListScans,
    GetScan(Seq<char>),
    PostAction(Seq<char>),
    DeleteScan(Seq<char>),
    GetStatus(Seq<char>),
    GetResults(Seq<char>, ResultSelector),
    BadRequest,
    Unknown,
}

impl View for Route {
    type V = RouteModel;

    open spec fn view(&self) -> RouteModel {
        match self {
            Route::HeadRoot => RouteModel::HeadRoot,
            Route::CreateScan => RouteModel::CreateScan,
            Route::ListScans => RouteModel::ListScans,
            Route::GetScan(id) => RouteModel::GetScan(id@),
            Route::PostAction(id) => RouteModel::PostAction(id@),
            Route::DeleteScan(id) => RouteModel::DeleteScan(id@),
            Route::GetStatus(id) => RouteModel::GetStatus(id@),
            Route::GetResults(id, sel) => RouteModel::GetResults(id@, *sel),
            Route::BadRequest => RouteModel::BadRequest,
            Route::Unknown => RouteModel::Unknown,
        }
    }
}

/// What the `range` query of a results request selects: nothing given
/// means everything; `range=a-b` with `a <= b` means the inclusive range;
/// anything else is malformed.
pub open spec fn spec_selector(q: Seq<char>) -> Option<ResultSelector> {
    if q.len() == 0 {
        Some(ResultSelector::All)
    } else if q.len() >= 6 && q.subrange(0, 6) == "range="@ {
        let rest = q.subrange(6, q.len() as int);
        let dash = find_from(rest, '-', 0);
        if dash == rest.len() {
            None
        } else {
            match (parse_usize_spec(rest.subrange(0, dash)), parse_usize_spec(
                rest.subrange(dash + 1, rest.len() as int),
            )) {
                (Some(a), Some(b)) => if a <= b {
                    Some(ResultSelector::Range(a as usize, b as usize))
                } else {
                    None
                },
                _ => None,
            }
        }
    } else {
        None
    }
}

/// Which route a method and a request path name.
pub open spec fn spec_route(m: Method, p: Seq<char>) -> RouteModel {
    let qpos = find_from(p, '?', 0);
    let path = p.subrange(0, qpos);
    let query = if qpos == p.len() {
        Seq::<char>::empty()
    } else {
        p.subrange(qpos + 1, p.len() as int)
    };
    if path.len() == 0 || path[0] != '/' {
        RouteModel::Unknown
    } else {
        let e1 = find_from(path, '/', 1);
        let seg1 = path.subrange(1, e1);
        if e1 == path.len() {
            if m == Method::Head && seg1.len() == 0 {
                RouteModel::HeadRoot
            } else if seg1 == "scans"@ {
                if m == Method::Post {
                    RouteModel::CreateScan
                } else if m == Method::Get {
                    RouteModel::ListScans
                } else {
                    RouteModel::Unknown
                }
            } else {
                RouteModel::Unknown
            }
        } else if seg1 != "scans"@ {
            RouteModel::Unknown
        } else {
            let e2 = find_from(path, '/', e1 + 1);
            let id = path.subrange(e1 + 1, e2);
            if id.len() == 0 {
                RouteModel::Unknown
            } else if e2 == path.len() {
                if m == Method::Get {
                    RouteModel::GetScan(id)
                } else if m == Method::Post {
                    RouteModel::PostAction(id)
                } else if m == Method::Delete {
                    RouteModel::DeleteScan(id)
                } else {
                    RouteModel::Unknown
                }
            } else {
                let e3 = find_from(path, '/', e2 + 1);
                let seg3 = path.subrange(e2 + 1, e3);
                if e3 == path.len() {
                    if m == Method::Get && seg3 == "status"@ {
                        RouteModel::GetStatus(id)
                    } else if m == Method::Get && seg3 == "results"@ {
                        match spec_selector(query) {
                            Some(sel) => RouteModel::GetResults(id, sel),
                            None => RouteModel::BadRequest,
                        }
                    } else {
                        RouteModel::Unknown
                    }
                } else {
                    let e4 = find_from(path, '/', e3 + 1);
                    if m == Method::Get && seg3 == "results"@ && e4 == path.len() {
                        match parse_usize_spec(path.subrange(e3 + 1, path.len() as int)) {
                            Some(v) => RouteModel::GetResults(
                                id,
                                ResultSelector::Single(v as usize),
                            ),
                            None => RouteModel::Unknown,
                        }
                    } else {
                        RouteModel::Unknown
                    }
                }
            }
        }
    }
}


/// Parses a character run into a string of its own.
fn to_string_seg(s: &str) -> (r: String)
    ensures
        r@ == s@,
{
    s.to_owned()
}

/// Decides which selector a results query names, mirroring
/// `spec_selector`.
fn selector_of(q: &str) -> (r: Option<ResultSelector>)
    ensures
        r == spec_selector(q@),
{
    let qlen = q.unicode_len();
    if qlen == 0 {
        return Some(ResultSelector::All);
    }
    if qlen < 6 {
        return None;
    }
    let prefix = q.substring_char(0, 6);
    if !str_eq(prefix, "range=") {
        return None;
    }
    let rest = q.substring_char(6, qlen);
    let rlen = qlen - 6;
    let dash = find_char(rest, '-', 0, rlen);
    if dash == rlen {
        return None;
    }
    let a = match parse_usize(rest, 0, dash) {
        Some(a) => a,
        None => {
            return None;
        },
    };
    let b = match parse_usize(rest, dash + 1, rlen) {
        Some(b) => b,
        None => {
            return None;
        },
    };
    if a <= b {
        Some(ResultSelector::Range(a, b))
    } else {
        None
    }
}

/// Decides which route a request names, mirroring `spec_route`.
pub fn route_of(method: Method, path: &str) -> (r: Route)
    ensures
        r@ == spec_route(method, path@),
{
    let len = path.unicode_len();
    let qpos = find_char(path, '?', 0, len);
    let pp = path.substring_char(0, qpos);
    let query: &str = if qpos == len {
        ""
    } else {
        path.substring_char(qpos + 1, len)
    };
    proof {
        if qpos == len {
            reveal_strlit("");
            assert(query@ =~= Seq::<char>::empty());
        }
    }
    let plen = qpos;
    if plen == 0 {
        return Route::Unknown;
    }
    if pp.get_char(0) != '/' {
        return Route::Unknown;
    }
    let e1 = find_char(pp, '/', 1, plen);
    let seg1 = pp.substring_char(1, e1);
    if e1 == plen {
        if matches!(method, Method::Head) && e1 == 1 {
            return Route::HeadRoot;
        }
        if str_eq(seg1, "scans") {
            return match method {
                Method::Post => Route::CreateScan,
                Method::Get => Route::ListScans,
                _ => Route::Unknown,
            };
        }
        return Route::Unknown;
    }
    if !str_eq(seg1, "scans") {
        return Route::Unknown;
    }
    let e2 = find_char(pp, '/', e1 + 1, plen);
    if e2 == e1 + 1 {
        return Route::Unknown;
    }
    let idp = pp.substring_char(e1 + 1, e2);
    if e2 == plen {
        return match method {
            Method::Get => Route::GetScan(to_string_seg(idp)),
            Method::Post => Route::PostAction(to_string_seg(idp)),
            Method::Delete => Route::DeleteScan(to_string_seg(idp)),
            _ => Route::Unknown,
        };
    }
    let e3 = find_char(pp, '/', e2 + 1, plen);
    let seg3 = pp.substring_char(e2 + 1, e3);
    if e3 == plen {
        if matches!(method, Method::Get) && str_eq(seg3, "status") {
            return Route::GetStatus(to_string_seg(idp));
        }
        if matches!(method, Method::Get) && str_eq(seg3, "results") {
            return match selector_of(query) {
                Some(sel) => Route::GetResults(to_string_seg(idp), sel),
                None => Route::BadRequest,
            };
        }
        return Route::Unknown;
    }
    let e4 = find_char(pp, '/', e3 + 1, plen);
    if matches!(method, Method::Get) && str_eq(seg3, "results") && e4 == plen {
        return match parse_usize(pp, e3 + 1, plen) {
            Some(v) => Route::GetResults(to_string_seg(idp), ResultSelector::Single(v)),
            None => Route::Unknown,
        };
    }
    Route::Unknown
}

/// Whether the request may pass the authentication gate: always, when no
/// key is configured; always for HEAD; else only with the matching header.
pub open spec fn spec_auth_ok(key: Option<String>, m: Method, header: Option<String>) -> bool {
    ||| key is None
    ||| m == Method::Head
    ||| header.deep_view() == key.deep_view()
}

/// Dispatches one request: authentication first, then routing, then the
/// store and lifecycle operations the route names.
pub fn handle<S: Scanner>(ctx: &mut Context<S>, req: Request) -> (r: Response)
    requires
        old(ctx).wf(),
    ensures
        final(ctx).wf(),
        only_db_changed(*old(ctx), *final(ctx)),
        r.api_version@ == "1"@,
        old(ctx).api_key is Some ==> r.authentication@ == "x-api-key"@,
        old(ctx).api_key is None ==> r.authentication@ == ""@,
        r.feed_version.deep_view() == old(ctx).feed_version.deep_view(),
        !spec_auth_ok(old(ctx).api_key, req.method, req.api_key) ==> r.status == 401 && final(ctx).db@ == old(ctx).db@,
        spec_auth_ok(old(ctx).api_key, req.method, req.api_key) ==> match spec_route(
            req.method,
            req.path@,
        ) {
            RouteModel::HeadRoot => r.status == 200 && final(ctx).db@ == old(ctx).db@,
            RouteModel::CreateScan => match req.body {
                RequestBody::ScanBody(s) => {
                    &&& (r.status == 201 || r.status == 500)
                    &&& r.status == 201 ==> (r.body matches ResponseBody::Id(rid) && rid@
                        == spec_scan_id(old(ctx).db@.counter + 1) && !old(ctx).db@.recs.contains_key(rid@) && final(ctx).db@.counter == old(ctx).db@.counter + 1 && final(ctx).db@.recs == old(ctx).db@.recs.insert(
                        rid@,
                        RecordModel {
                            scan: ScanModel { scan_id: rid@, ..s@ },
                            status: Status {
                                start_time: None,
                                end_time: None,
                                status: Phase::Stored,
                                host_info: None,
                            },
                            results: Seq::empty(),
                        },
                    ) && final(ctx).db.id_list() == old(ctx).db.id_list().push(rid@))
                    &&& r.status == 500 ==> final(ctx).db@ == old(ctx).db@ && (!scan_sealable(s@)
                        || old(ctx).db@.counter == u64::MAX as int)
                    &&& scan_sealable(s@) && old(ctx).db@.counter < u64::MAX as int ==> r.status
                        == 201
                },
                _ => r.status == 400 && final(ctx).db@ == old(ctx).db@,
            },
            RouteModel::ListScans => final(ctx).db@ == old(ctx).db@ && (if old(ctx).enable_get_scans {
                r.status == 200 && (r.body matches ResponseBody::Ids(v) && v.deep_view() == old(ctx).db.id_list())
            } else {
                r.status == 404
            }),
            RouteModel::GetScan(id) => final(ctx).db@ == old(ctx).db@ && (if old(ctx).db@.recs.contains_key(id) {
                r.status == 200 && (r.body matches ResponseBody::ScanBody(s) && s@ == old(ctx).db@.recs[id].scan.censored() && s@.is_censored())
            } else {
                r.status == 404
            }),
            RouteModel::GetStatus(id) => final(ctx).db@ == old(ctx).db@ && (if old(ctx).db@.recs.contains_key(id) {
                r.status == 200 && (r.body matches ResponseBody::StatusBody(st) && st == old(ctx).db@.recs[id].status)
            } else {
                r.status == 404
            }),
            RouteModel::GetResults(id, sel) => final(ctx).db@ == old(ctx).db@ && (if old(ctx).db@.recs.contains_key(id) {
                r.status == 200 && (r.body matches ResponseBody::Results(v) && v.deep_view()
                    == select_results(old(ctx).db@.recs[id].results, sel))
            } else {
                r.status == 404
            }),
            RouteModel::PostAction(id) => match req.body {
                RequestBody::ActionBody(a) => crate::lifecycle::action_outcome(
                    old(ctx).db@,
                    final(ctx).db@,
                    id,
                    a.action,
                    r.status as int,
                ),
                _ => r.status == 400 && final(ctx).db@ == old(ctx).db@,
            },
            RouteModel::DeleteScan(id) => crate::lifecycle::delete_outcome(
                old(ctx).db@,
                final(ctx).db@,
                id,
                r.status as int,
            ) && (r.status == 204 ==> final(ctx).db.id_list()
                == old(ctx).db.id_list().remove_value(id)) && (r.status != 204 ==> final(ctx).db.id_list()
                == old(ctx).db.id_list()),
            RouteModel::BadRequest => r.status == 400 && final(ctx).db@ == old(ctx).db@,
            RouteModel::Unknown => r.status == 404 && final(ctx).db@ == old(ctx).db@,
        },
{
    let authentication: &'static str = if ctx.api_key.is_some() {
        "x-api-key"
    } else {
        ""
    };
    let feed_version: Option<String> = match &ctx.feed_version {
        Some(v) => Some(v.clone()),
        None => None,
    };
    let authed = match (&ctx.api_key, &req.api_key) {
        (None, _) => true,
        (Some(k), Some(h)) => matches!(req.method, Method::Head) || h.eq(k),
        (Some(_), None) => matches!(req.method, Method::Head),
    };
    if !authed {
        return Response {
            status: 401,
            api_version: "1",
            authentication,
            feed_version,
            body: ResponseBody::Empty,
        };
    }
    let route = route_of(req.method, req.path.as_str());
    let (status, body): (u16, ResponseBody) = match route {
        Route::HeadRoot => (200, ResponseBody::Empty),
        Route::CreateScan => match req.body {
            RequestBody::ScanBody(s) => match ctx.db.insert(s) {
                Ok(id) => (201, ResponseBody::Id(id)),
                Err(_) => (500, ResponseBody::Empty),
            },
            _ => (400, ResponseBody::Empty),
        },
        Route::ListScans => {
            if ctx.enable_get_scans {
                (200, ResponseBody::Ids(ctx.db.ids()))
            } else {
                (404, ResponseBody::Empty)
            }
        },
        Route::GetScan(id) => match ctx.db.get_scan(id.as_str()) {
            Some(s) => (200, ResponseBody::ScanBody(s)),
            None => (404, ResponseBody::Empty),
        },
        Route::GetStatus(id) => match ctx.db.get_status(id.as_str()) {
            Some(st) => (200, ResponseBody::StatusBody(st)),
            None => (404, ResponseBody::Empty),
        },
        Route::GetResults(id, sel) => match ctx.db.get_results(id.as_str(), sel) {
            Some(v) => (200, ResponseBody::Results(v)),
            None => (404, ResponseBody::Empty),
        },
        Route::PostAction(id) => match req.body {
            RequestBody::ActionBody(a) => (apply_action(ctx, id.as_str(), a.action), ResponseBody::Empty),
            _ => (400, ResponseBody::Empty),
        },
        Route::DeleteScan(id) => (apply_delete(ctx, id.as_str()), ResponseBody::Empty),
        Route::BadRequest => (400, ResponseBody::Empty),
        Route::Unknown => (404, ResponseBody::Empty),
    };
    Response { status, api_version: "1", authentication, feed_version, body }
}

} // verus!
