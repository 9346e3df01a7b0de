use vstd::prelude::*;

use crate::context::Context;
use crate::scan::Action;
use crate::scan::ResultModel;
use crate::scanner::ScanDeleter;
use crate::scanner::ScanResultFetcher;
use crate::scanner::Scanner;
use crate::scanner::ScanStarter;
use crate::scanner::ScanStopper;
use crate::status::Phase;
use crate::status::Status;
use crate::store::renumber;
use crate::store::RecordModel;
use crate::store::ScanStore;
use crate::store::StoreModel;

verus! {

/// The configuration and scanner of the context are untouched; only the
/// store may have changed.
pub open spec fn only_db_changed<S>(pre: Context<S>, post: Context<S>) -> bool {
    &&& post.scanner == pre.scanner
    &&& post.oids == pre.oids
    &&& post.result_config == pre.result_config
    &&& post.feed_config == pre.feed_config
    &&& post.api_key == pre.api_key
    &&& post.enable_get_scans == pre.enable_get_scans
    &&& post.feed_version == pre.feed_version
    &&& post.abort == pre.abort
}

/// What a lifecycle action does to the store and answers, by the current
/// phase: 404 for an unknown scan, 409 for an action the phase refuses,
/// 500 when the scanner failed (store untouched), 204 on success.
pub open spec fn action_outcome(
    pre: StoreModel,
    post: StoreModel,
    id: Seq<char>,
    action: Action,
    code: int,
) -> bool {
    &&& post.counter == pre.counter
    &&& !pre.recs.contains_key(id) ==> code == 404 && post == pre
    &&& pre.recs.contains_key(id) ==> {
        let ph = pre.recs[id].status.status;
        &&& action == Action::Start ==> {
            &&& ph != Phase::Stored ==> code == 409 && post == pre
            &&& ph == Phase::Stored ==> (code == 204 && post.recs == pre.recs.insert(
                id,
                RecordModel {
                    status: Status { status: Phase::Requested, ..pre.recs[id].status },
                    ..pre.recs[id]
                },
            )) || (code == 500 && post == pre)
        }
        &&& action == Action::Stop ==> {
            &&& ph == Phase::Stored ==> code == 409 && post == pre
            &&& (ph == Phase::Requested || ph == Phase::Running) ==> (code == 204 && post.recs
                == pre.recs.insert(
                id,
                RecordModel {
                    status: Status { status: Phase::Stopped, ..pre.recs[id].status },
                    ..pre.recs[id]
                },
            )) || (code == 500 && post == pre)
            &&& ph.is_terminal() ==> code == 204 && post == pre
        }
    }
}

/// What a delete does to the store and answers: 404 for an unknown scan,
/// 500 when the scanner failed (the record stays), 204 on success with the
/// record removed. A scan still in the `Stored` phase involves no scanner
/// at all, so deleting it is owed success.
pub open spec fn delete_outcome(pre: StoreModel, post: StoreModel, id: Seq<char>, code: int) -> bool {
    &&& post.counter == pre.counter
    &&& !pre.recs.contains_key(id) ==> code == 404 && post == pre
    &&& pre.recs.contains_key(id) ==> (code == 204 && post.recs == pre.recs.remove(id)) || (code
        == 500 && post == pre)
    &&& pre.recs.contains_key(id) && pre.recs[id].status.status == Phase::Stored ==> code == 204
        && post.recs == pre.recs.remove(id)
}

/// The response code a scanner outcome maps to, whatever the scanner did:
/// success is answered with no content, failure as an internal error.
pub fn scanner_outcome_code(r: &Result<(), crate::scanner::ScanError>) -> (code: u16)
    ensures
        r is Ok ==> code == 204,
        r is Err ==> code == 500,
{
    if r.is_ok() {
        204
    } else {
        500
    }
}

/// Applies a client-requested lifecycle action to a stored scan, driving
/// the scanner and the store. Returns the HTTP status code.
pub fn apply_action<S: Scanner>(ctx: &mut Context<S>, id: &str, action: Action) -> (code: u16)
    requires
        old(ctx).wf(),
    ensures
        final(ctx).wf(),
        only_db_changed(*old(ctx), *final(ctx)),
        final(ctx).db.id_list() == old(ctx).db.id_list(),
        action_outcome(old(ctx).db@, final(ctx).db@, id@, action, code as int),
{
    let cur = match ctx.db.get_status(id) {
        Some(st) => st,
        None => {
            return 404;
        },
    };
    match action {
        Action::Start => {
            if !matches!(cur.status, Phase::Stored) {
                return 409;
            }
            let scan = match ctx.db.get_decrypted_scan(id) {
                Some(s) => s,
                None => vstd::pervasive::unreached(),
            };
            let res = ctx.scanner.start_scan(scan);
            if res.is_ok() {
                let next = Status { status: Phase::Requested, ..cur };
                let _ = ctx.db.update_status(id, next);
                proof {
                    assert(ScanStore::gated_status(cur, next) == next);
                }
            }
            scanner_outcome_code(&res)
        },
        Action::Stop => {
            match cur.status {
                Phase::Stored => 409,
                Phase::Requested | Phase::Running => {
                    let res = ctx.scanner.stop_scan(id);
                    if res.is_ok() {
                        let next = Status { status: Phase::Stopped, ..cur };
                        let _ = ctx.db.update_status(id, next);
                        proof {
                            assert(ScanStore::gated_status(cur, next) == next);
                        }
                    }
                    scanner_outcome_code(&res)
                },
                Phase::Stopped | Phase::Failed | Phase::Succeeded => 204,
            }
        },
    }
}

/// Deletes a stored scan. A scan still in a live phase is first stopped and
/// forgotten at the scanner; only then is the record removed. Returns the
/// HTTP status code.
pub fn apply_delete<S: Scanner>(ctx: &mut Context<S>, id: &str) -> (code: u16)
    requires
        old(ctx).wf(),
    ensures
        final(ctx).wf(),
        only_db_changed(*old(ctx), *final(ctx)),
        delete_outcome(old(ctx).db@, final(ctx).db@, id@, code as int),
        code == 204 ==> final(ctx).db.id_list() == old(ctx).db.id_list().remove_value(id@),
        code != 204 ==> final(ctx).db.id_list() == old(ctx).db.id_list(),
{
    let cur = match ctx.db.get_status(id) {
        Some(st) => st,
        None => {
            return 404;
        },
    };
    if cur.is_running() {
        if ctx.scanner.stop_scan(id).is_err() {
            return 500;
        }
        if ctx.scanner.delete_scan(id).is_err() {
            return 500;
        }
    } else if !matches!(cur.status, Phase::Stored) {
        if ctx.scanner.delete_scan(id).is_err() {
            return 500;
        }
    }
    let _ = ctx.db.delete(id);
    204
}

/// The status a poll writes back: the fetched status if it does not move
/// the phase backwards (else the current one is kept), with the end time
/// recorded when the scan has just reached a terminal phase.
pub open spec fn spec_merge_status(cur: Status, fetched: Status, now: u32) -> Status {
    if !cur.status.le(fetched.status) {
        cur
    } else if fetched.status.is_terminal() && fetched.end_time is None {
        Status { end_time: Some(now), ..fetched }
    } else {
        fetched
    }
}

/// Merges a fetched status into the current one; the phase never moves
/// backwards in the lifecycle order.
pub fn merge_status(cur: &Status, fetched: Status, now: u32) -> (r: Status)
    ensures
        r == spec_merge_status(*cur, fetched, now),
        cur.status.le(r.status),
{
    if !cur.status.le_exec(fetched.status) {
        *cur
    } else if fetched.status.is_terminal_exec() && fetched.end_time.is_none() {
        Status { end_time: Some(now), ..fetched }
    } else {
        fetched
    }
}

/// How one store state may evolve under a poll: no scan appears or
/// disappears, no scan body changes, no phase moves backwards, and every
/// result log is only appended to.
pub open spec fn poll_evolution(pre: StoreModel, post: StoreModel) -> bool {
    &&& post.counter == pre.counter
    &&& post.recs.dom() == pre.recs.dom()
    &&& forall|id: Seq<char>|
        pre.recs.contains_key(id) ==> {
            &&& (#[trigger] post.recs[id]).scan == pre.recs[id].scan
            &&& pre.recs[id].status.status.le(post.recs[id].status.status)
            &&& pre.recs[id].results.is_prefix_of(post.recs[id].results)
        }
}

/// Appending to one scan's result log is a poll evolution step.
proof fn lemma_poll_step_append(
    pre: StoreModel,
    mid: StoreModel,
    post: StoreModel,
    id: Seq<char>,
    tail: Seq<ResultModel>,
)
    requires
        poll_evolution(pre, mid),
        mid.recs.contains_key(id),
        post.counter == mid.counter,
        post.recs == mid.recs.insert(
            id,
            RecordModel { results: mid.recs[id].results + tail, ..mid.recs[id] },
        ),
    ensures
        poll_evolution(pre, post),
{
    assert(post.recs.dom() =~= mid.recs.dom());
    assert forall|id2: Seq<char>| pre.recs.contains_key(id2) implies {
        &&& (#[trigger] post.recs[id2]).scan == pre.recs[id2].scan
        &&& pre.recs[id2].status.status.le(post.recs[id2].status.status)
        &&& pre.recs[id2].results.is_prefix_of(post.recs[id2].results)
    } by {
        if id2 == id {
            assert(pre.recs[id].results.is_prefix_of(mid.recs[id].results));
            assert(post.recs[id].results.subrange(0, mid.recs[id].results.len() as int)
                =~= mid.recs[id].results);
            assert(post.recs[id].results.subrange(0, pre.recs[id].results.len() as int)
                =~= pre.recs[id].results);
        }
    }
}

/// A monotone status write to one scan is a poll evolution step.
proof fn lemma_poll_step_status(
    pre: StoreModel,
    mid: StoreModel,
    post: StoreModel,
    id: Seq<char>,
    st: Status,
)
    requires
        poll_evolution(pre, mid),
        mid.recs.contains_key(id),
        post.counter == mid.counter,
        post.recs == mid.recs.insert(id, RecordModel { status: st, ..mid.recs[id] }),
        mid.recs[id].status.status.le(st.status),
    ensures
        poll_evolution(pre, post),
{
    assert(post.recs.dom() =~= mid.recs.dom());
}

/// Poll evolution composes: over any number of ticks, no scan's phase ever
/// moves backwards in the lifecycle order, and no result is ever lost or
/// reordered.
pub proof fn lemma_poll_evolution_trans(a: StoreModel, b: StoreModel, c: StoreModel)
    requires
        poll_evolution(a, b),
        poll_evolution(b, c),
    ensures
        poll_evolution(a, c),
{
    assert forall|id: Seq<char>| a.recs.contains_key(id) implies {
        &&& (#[trigger] c.recs[id]).scan == a.recs[id].scan
        &&& a.recs[id].status.status.le(c.recs[id].status.status)
        &&& a.recs[id].results.is_prefix_of(c.recs[id].results)
    } by {
        assert(b.recs.contains_key(id));
        let ra = a.recs[id].results;
        let rb = b.recs[id].results;
        let rc = c.recs[id].results;
        assert(rc.subrange(0, rb.len() as int) =~= rb);
        assert(rc.subrange(0, ra.len() as int) =~= rb.subrange(0, ra.len() as int));
        assert(rc.subrange(0, ra.len() as int) =~= ra);
    }
}

/// One tick of the result poller: for every scan in a live phase, fetch the
/// current status and the new results, append the results, and replace the
/// status monotonically. A fetch error leaves its scan untouched until the
/// next tick.
pub fn poll_once<S: Scanner>(ctx: &mut Context<S>, now: u32)
    requires
        old(ctx).wf(),
    ensures
        final(ctx).wf(),
        poll_evolution(old(ctx).db@, final(ctx).db@),
        final(ctx).scanner == old(ctx).scanner,
        final(ctx).api_key == old(ctx).api_key,
        final(ctx).enable_get_scans == old(ctx).enable_get_scans,
        final(ctx).oids == old(ctx).oids,
        final(ctx).feed_version == old(ctx).feed_version,
        final(ctx).abort == old(ctx).abort,
        final(ctx).result_config == old(ctx).result_config,
        final(ctx).feed_config == old(ctx).feed_config,
{
    let ids = ctx.db.ids();
    let ghost pre = ctx.db@;
    let mut i: usize = 0;
    while i < ids.len()
        invariant
            ctx.wf(),
            poll_evolution(pre, ctx.db@),
            ctx.scanner == old(ctx).scanner,
            ctx.api_key == old(ctx).api_key,
            ctx.enable_get_scans == old(ctx).enable_get_scans,
            ctx.oids == old(ctx).oids,
            ctx.feed_version == old(ctx).feed_version,
            ctx.abort == old(ctx).abort,
            ctx.result_config == old(ctx).result_config,
            ctx.feed_config == old(ctx).feed_config,
            pre == old(ctx).db@,
        decreases ids@.len() - i,
    {
        let id = &ids[i];
        let live = match ctx.db.get_status(id.as_str()) {
            Some(st) => st.is_running(),
            None => false,
        };
        if live {
            match ctx.scanner.fetch_results(id.as_str()) {
                Ok((status, results)) => {
                    let ghost mid = ctx.db@;
                    match ctx.db.append_results(id.as_str(), &results) {
                        Ok(_) => {
                            proof {
                                lemma_poll_step_append(
                                    pre,
                                    mid,
                                    ctx.db@,
                                    id@,
                                    renumber(
                                        mid.recs[id@].results.len() as int,
                                        results.deep_view(),
                                    ),
                                );
                            }
                            let cur = match ctx.db.get_status(id.as_str()) {
                                Some(st) => st,
                                None => vstd::pervasive::unreached(),
                            };
                            let merged = merge_status(&cur, status, now);
                            let ghost mid2 = ctx.db@;
                            let _ = ctx.db.update_status(id.as_str(), merged);
                            proof {
                                lemma_poll_step_status(
                                    pre,
                                    mid2,
                                    ctx.db@,
                                    id@,
                                    crate::store::ScanStore::gated_status(
                                        mid2.recs[id@].status,
                                        merged,
                                    ),
                                );
                            }
                        },
                        Err(_) => {
                            // the store is unchanged; retried on the next tick
                        },
                    }
                },
                Err(_) => {
                    // logged upstream; the scan is left untouched until the
                    // next tick
                },
            }
        }
        i = i + 1;
    }
}

/// One tick of the feed refresher: publish a freshly read feed version and
/// OID list, atomically as one pair. An unchanged version leaves the pair
/// alone: a change in the version string is the only signal that
/// invalidates the OID list.
pub fn feed_tick<S>(ctx: &mut Context<S>, version: String, oids: Vec<String>)
    requires
        old(ctx).wf(),
    ensures
        final(ctx).wf(),
        final(ctx).db == old(ctx).db,
        version@ == old(ctx).oids.0@ ==> final(ctx).oids == old(ctx).oids && final(ctx).feed_version
            == old(ctx).feed_version,
        version@ != old(ctx).oids.0@ ==> final(ctx).oids.0 == version && final(ctx).oids.1 == oids
            && final(ctx).feed_version == Some(version),
{
    if !version.eq(&ctx.oids.0) {
        ctx.feed_version = Some(version.clone());
        ctx.oids = (version, oids);
    }
}

} // verus!
