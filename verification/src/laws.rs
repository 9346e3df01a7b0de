use vstd::prelude::*;

use crate::credential::CredentialTypeModel;
use crate::scan::ResultModel;
use crate::scan::ScanModel;
use crate::status::Status;
use crate::store::select_results;
use crate::store::RecordModel;
use crate::store::ResultSelector;
use crate::store::ScanStore;
use crate::store::StoreModel;

verus! {

/// A censored credential is censored: every secret field of the censored
/// form is the literal `"***"`, whatever the credential held.
pub proof fn lemma_censored_is_censored(m: CredentialTypeModel)
    ensures
        m.censored().is_censored(),
{
}

/// A censored scan is censored: after censoring, every credential of the
/// scan has only `"***"` in its secret fields.
pub proof fn lemma_scan_censored_is_censored(m: ScanModel)
    ensures
        m.censored().is_censored(),
{
    assert forall|i: int| 0 <= i < m.censored().credentials.len() implies #[trigger] m.censored().credentials[i].credential_type.is_censored() by {
        lemma_censored_is_censored(m.credentials[i].credential_type);
    }
}

/// A scan identifier handed out by a successful creation is immediately
/// retrievable: the store that creation leaves behind holds a record under
/// that identifier, and it is exactly the created record.
pub proof fn lemma_created_scan_is_retrievable(
    pre: StoreModel,
    post: StoreModel,
    id: Seq<char>,
    rec: RecordModel,
)
    requires
        post.recs == pre.recs.insert(id, rec),
    ensures
        post.recs.contains_key(id),
        post.recs[id] == rec,
{
}

/// Creating a scan and then deleting it leads back to the store one started with:
/// the identifier resolves to nothing afterwards, so a subsequent read
/// answers 404.
pub proof fn lemma_create_delete_roundtrip(
    pre: StoreModel,
    created: StoreModel,
    deleted: StoreModel,
    id: Seq<char>,
    rec: RecordModel,
)
    requires
        !pre.recs.contains_key(id),
        created.recs == pre.recs.insert(id, rec),
        deleted.recs == created.recs.remove(id),
    ensures
        !deleted.recs.contains_key(id),
        deleted.recs == pre.recs,
{
    assert(deleted.recs =~= pre.recs);
}

/// A range read is exactly the results whose identifiers lie in the
/// inclusive range: on a dense log, `range=a-b` returns each result with
/// identifier in `[a, b]` once, in order, and nothing else.
pub proof fn lemma_range_selects_ids(rs: Seq<ResultModel>, a: usize, b: usize)
    requires
        a <= b,
        forall|i: int| 0 <= i < rs.len() ==> (#[trigger] rs[i]).id == i,
    ensures
        ({
            let sel = select_results(rs, ResultSelector::Range(a, b));
            &&& forall|i: int|
                0 <= i < sel.len() ==> (#[trigger] sel[i]) == rs[a + i] && a as int <= sel[i].id
                    <= b as int
            &&& forall|j: int|
                0 <= j < rs.len() && a as int <= (#[trigger] rs[j]).id <= b as int ==> exists|
                    i: int,
                |
                    0 <= i < sel.len() && #[trigger] sel[i] == rs[j]
        }),
{
    let sel = select_results(rs, ResultSelector::Range(a, b));
    assert forall|j: int|
        0 <= j < rs.len() && a as int <= (#[trigger] rs[j]).id <= b as int implies exists|i: int|
        0 <= i < sel.len() && #[trigger] sel[i] == rs[j] by {
        assert(rs[j].id == j);
        assert(sel[j - a] == rs[j]);
    }
}

/// A status write never moves a scan backwards: whatever status is offered,
/// the store keeps a phase at least as far along as the current one.
pub proof fn lemma_status_update_monotone(cur: Status, offered: Status)
    ensures
        cur.status.le(ScanStore::gated_status(cur, offered).status),
{
}

} // verus!
