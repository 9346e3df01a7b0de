use vstd::prelude::*;
use vstd::string::StringExecFns;

use crate::crypt::KEY_LEN;
use crate::scan::ResultModel;
use crate::scan::Scan;
use crate::scan::ScanModel;
use crate::scan::ScanResult;
use crate::sealed::scan_sealable;
use crate::sealed::ResultLog;
use crate::sealed::SealedResult;
use crate::sealed::SealedScan;
use crate::status::Phase;
use crate::status::Status;

verus! {

/// Relies on `str`'s `PartialEq`: two string slices are equal exactly when
/// their characters are.
#[verifier::external_body]
pub(crate) fn str_eq(a: &str, b: &str) -> (r: bool)
    ensures
        r == (a@ == b@),
{
    a == b
}

/// The decimal digit character of a value below ten.
pub open spec fn digit_char(d: int) -> char {
    if d == 0 {
        '0'
    } else if d == 1 {
        '1'
    } else if d == 2 {
        '2'
    } else if d == 3 {
        '3'
    } else if d == 4 {
        '4'
    } else if d == 5 {
        '5'
    } else if d == 6 {
        '6'
    } else if d == 7 {
        '7'
    } else if d == 8 {
        '8'
    } else {
        '9'
    }
}

/// The decimal digits of a non-negative value, most significant first.
pub open spec fn dec_digits(n: int) -> Seq<char>
    decreases n,
{
    if n < 10 {
        seq![digit_char(n)]
    } else {
        dec_digits(n / 10).push(digit_char(n % 10))
    }
}

/// The identifier the store mints for the `k`-th inserted scan.
pub open spec fn spec_scan_id(k: int) -> Seq<char> {
    "uuid-"@ + dec_digits(k)
}

proof fn lemma_dec_digits_len(n: int)
    requires
        n >= 0,
    ensures
        dec_digits(n).len() >= 1,
        n >= 10 ==> dec_digits(n).len() >= 2,
    decreases n,
{
    if n >= 10 {
        lemma_dec_digits_len(n / 10);
    }
}

proof fn lemma_dec_digits_injective(a: int, b: int)
    requires
        a >= 0,
        b >= 0,
        dec_digits(a) == dec_digits(b),
    ensures
        a == b,
    decreases a,
{
    lemma_dec_digits_len(a);
    lemma_dec_digits_len(b);
    if a < 10 && b < 10 {
        assert(dec_digits(a) == seq![digit_char(a)]);
        assert(dec_digits(b) == seq![digit_char(b)]);
        assert(seq![digit_char(a)][0] == digit_char(a));
        assert(seq![digit_char(b)][0] == digit_char(b));
        assert(digit_char(a) == digit_char(b));
        assert(a == b);
    } else if a < 10 {
        assert(dec_digits(a).len() == 1);
        assert(false);
    } else if b < 10 {
        assert(dec_digits(b).len() == 1);
        assert(false);
    } else {
        assert(dec_digits(a).last() == digit_char(a % 10));
        assert(dec_digits(b).last() == digit_char(b % 10));
        assert(a % 10 == b % 10);
        assert(dec_digits(a).drop_last() =~= dec_digits(a / 10));
        assert(dec_digits(b).drop_last() =~= dec_digits(b / 10));
        lemma_dec_digits_injective(a / 10, b / 10);
        assert(a == 10 * (a / 10) + a % 10);
        assert(b == 10 * (b / 10) + b % 10);
    }
}

/// Two distinct counter values mint distinct identifiers.
pub proof fn lemma_scan_id_injective(a: int, b: int)
    requires
        a >= 0,
        b >= 0,
        spec_scan_id(a) == spec_scan_id(b),
    ensures
        a == b,
{
    let p = "uuid-"@;
    assert(dec_digits(a) =~= spec_scan_id(a).subrange(p.len() as int, spec_scan_id(a).len() as int));
    assert(dec_digits(b) =~= spec_scan_id(b).subrange(p.len() as int, spec_scan_id(b).len() as int));
    lemma_dec_digits_injective(a, b);
}

/// The one-character string of a decimal digit.
fn digit_str(d: u64) -> (r: &'static str)
    requires
        d < 10,
    ensures
        r@ == seq![digit_char(d as int)],
{
    proof {
        reveal_strlit("0");
        reveal_strlit("1");
        reveal_strlit("2");
        reveal_strlit("3");
        reveal_strlit("4");
        reveal_strlit("5");
        reveal_strlit("6");
        reveal_strlit("7");
        reveal_strlit("8");
        reveal_strlit("9");
    }
    let r = if d == 0 {
        "0"
    } else if d == 1 {
        "1"
    } else if d == 2 {
        "2"
    } else if d == 3 {
        "3"
    } else if d == 4 {
        "4"
    } else if d == 5 {
        "5"
    } else if d == 6 {
        "6"
    } else if d == 7 {
        "7"
    } else if d == 8 {
        "8"
    } else {
        "9"
    };
    proof {
        assert(r@ =~= seq![digit_char(d as int)]);
    }
    r
}

/// Writes a value in decimal.
fn u64_to_dec(n: u64) -> (r: String)
    ensures
        r@ == dec_digits(n as int),
    decreases n,
{
    if n < 10 {
        String::from_str(digit_str(n))
    } else {
        let mut s = u64_to_dec(n / 10);
        s.append(digit_str(n % 10));
        proof {
            assert(s@ =~= dec_digits(n as int));
        }
        s
    }
}

/// Mints the identifier of the `k`-th inserted scan.
fn make_scan_id(k: u64) -> (r: String)
    ensures
        r@ == spec_scan_id(k as int),
{
    let mut s = String::from_str("uuid-");
    let digits = u64_to_dec(k);
    s.append(digits.as_str());
    s
}

/// Which results a read asks for.
#[derive(Clone, Copy, Debug, PartialEq, Eq, Structural)]
pub enum ResultSelector {
    /// The whole log.
    All,
    /// The single result with the given identifier, if present.
    Single(usize),
    /// All results with identifiers in the inclusive range.
    Range(usize, usize),
}

/// The slice of a result log a selector asks for. Identifiers out of range
/// yield an empty slice, never an error.
pub open spec fn select_results(rs: Seq<ResultModel>, sel: ResultSelector) -> Seq<ResultModel> {
    match sel {
        ResultSelector::All => rs,
        ResultSelector::Single(i) => if (i as int) < rs.len() {
            seq![rs[i as int]]
        } else {
            Seq::empty()
        },
        ResultSelector::Range(a, b) => if (a as int) < rs.len() && a <= b {
            rs.subrange(
                a as int,
                if (b as int) + 1 <= rs.len() {
                    b as int + 1
                } else {
                    rs.len() as int
                },
            )
        } else {
            Seq::empty()
        },
    }
}

/// The findings appended after `from` results are already in the log: each
/// is given the identifier of its position.
pub open spec fn renumber(from: int, rs: Seq<ResultModel>) -> Seq<ResultModel> {
    Seq::new(rs.len(), |i: int| rs[i].with_id(from + i))
}

/// The mathematical value of one stored scan: the plaintext scan, its
/// status and its result log.
pub struct RecordModel {
    pub scan: ScanModel,
    pub status: Status,
    pub results: Seq<ResultModel>,
}

/// The mathematical value of the store: a map from identifier to record,
/// and the number of scans ever inserted.
pub struct StoreModel {
    pub recs: Map<Seq<char>, RecordModel>,
    pub counter: int,
}

/// One stored scan: identifier, sealed scan, status and sealed result log.
pub struct ScanRecord {
    pub id: String,
    pub num: Ghost<int>,
    pub scan: SealedScan,
    pub status: Status,
    pub results: ResultLog,
}

impl ScanRecord {
    pub open spec fn wf(self, key: Seq<u8>) -> bool {
        &&& self.scan.wf(key)
        &&& self.results.wf(key)
        &&& self.id@ == spec_scan_id(self.num@)
        &&& self.num@ >= 1
    }

    pub open spec fn model(self) -> RecordModel {
        RecordModel {
            scan: self.scan.model(),
            status: self.status,
            results: self.results.models@,
        }
    }
}

/// The first position holding the identifier, or a negative value.
pub open spec fn find_rec(s: Seq<ScanRecord>, id: Seq<char>) -> int
    decreases s.len(),
{
    if s.len() == 0 {
        -1
    } else if s[0].id@ == id {
        0
    } else {
        let r = find_rec(s.drop_first(), id);
        if r < 0 {
            -1
        } else {
            r + 1
        }
    }
}

proof fn lemma_find_rec(s: Seq<ScanRecord>, id: Seq<char>)
    ensures
        find_rec(s, id) >= 0 ==> 0 <= find_rec(s, id) < s.len() && s[find_rec(s, id)].id@ == id,
        (exists|j: int| 0 <= j < s.len() && #[trigger] s[j].id@ == id) ==> find_rec(s, id) >= 0,
    decreases s.len(),
{
    if s.len() > 0 && s[0].id@ != id {
        lemma_find_rec(s.drop_first(), id);
        if exists|j: int| 0 <= j < s.len() && #[trigger] s[j].id@ == id {
            let j = choose|j: int| 0 <= j < s.len() && #[trigger] s[j].id@ == id;
            assert(s.drop_first()[j - 1].id@ == id);
        }
    }
}

/// All identifiers in the record list are distinct.
pub open spec fn unique_ids(s: Seq<ScanRecord>) -> bool {
    forall|i: int, j: int| 0 <= i < j < s.len() ==> s[i].id@ != s[j].id@
}

proof fn lemma_find_unique(s: Seq<ScanRecord>, id: Seq<char>, j: int)
    requires
        unique_ids(s),
        0 <= j < s.len(),
        s[j].id@ == id,
    ensures
        find_rec(s, id) == j,
{
    lemma_find_rec(s, id);
    let f = find_rec(s, id);
    if f != j {
        if f < j {
            assert(s[f].id@ != s[j].id@);
        } else {
            assert(s[j].id@ != s[f].id@);
        }
    }
}

proof fn lemma_find_same_ids(s: Seq<ScanRecord>, t: Seq<ScanRecord>, id: Seq<char>)
    requires
        s.len() == t.len(),
        forall|i: int| 0 <= i < s.len() ==> s[i].id@ == #[trigger] t[i].id@,
    ensures
        find_rec(s, id) == find_rec(t, id),
    decreases s.len(),
{
    if s.len() > 0 {
        assert(s[0].id@ == t[0].id@);
        assert forall|i: int| 0 <= i < s.drop_first().len() implies s.drop_first()[i].id@
            == #[trigger] t.drop_first()[i].id@ by {
            assert(s[i + 1].id@ == t[i + 1].id@);
        }
        lemma_find_same_ids(s.drop_first(), t.drop_first(), id);
    }
}

/// The store's errors.
#[derive(Clone, Copy, Debug, PartialEq, Eq, Structural)]
pub enum StoreError {
    /// No scan is stored under the identifier.
    NotFound,
    /// The cipher or the identifier supply failed.
    Internal,
}

/// A concurrent in-memory store of scans keyed by identifier. Secret
/// credential fields and the result log are held encrypted; the counter
/// mints fresh identifiers.
pub struct ScanStore {
    key: Vec<u8>,
    records: Vec<ScanRecord>,
    counter: u64,
}

impl View for ScanStore {
    type V = StoreModel;

    closed spec fn view(&self) -> StoreModel {
        StoreModel {
            recs: Map::new(
                |id: Seq<char>| find_rec(self.records@, id) >= 0,
                |id: Seq<char>| self.records@[find_rec(self.records@, id)].model(),
            ),
            counter: self.counter as int,
        }
    }
}

impl ScanStore {
    /// The store's internal invariant: a well-formed key, well-formed
    /// records, and identifiers that are distinct and minted from counter
    /// values no later than the current one.
    pub closed spec fn wf(self) -> bool {
        &&& self.key@.len() == KEY_LEN
        &&& forall|i: int|
            0 <= i < self.records@.len() ==> #[trigger] self.records@[i].wf(self.key@)
        &&& forall|i: int|
            0 <= i < self.records@.len() ==> #[trigger] self.records@[i].num@ <= self.counter as int
        &&& unique_ids(self.records@)
    }

    /// The stored identifiers, in insertion order.
    pub closed spec fn id_list(self) -> Seq<Seq<char>> {
        self.records@.map_values(|r: ScanRecord| r.id@)
    }

    /// Builds an empty store around a fresh cipher key.
    pub fn new(key: Vec<u8>) -> (r: ScanStore)
        requires
            key@.len() == KEY_LEN,
        ensures
            r.wf(),
            r@.recs == Map::<Seq<char>, RecordModel>::empty(),
            r@.counter == 0,
            r.id_list() == Seq::<Seq<char>>::empty(),
    {
        let r = ScanStore { key, records: Vec::new(), counter: 0 };
        proof {
            assert(r@.recs =~= Map::<Seq<char>, RecordModel>::empty());
            assert(r.id_list() =~= Seq::<Seq<char>>::empty());
        }
        r
    }

    /// The position of the identifier's record.
    fn index_of(&self, id: &str) -> (r: Option<usize>)
        requires
            self.wf(),
        ensures
            match r {
                Some(i) => i < self.records@.len() && find_rec(self.records@, id@) == i as int,
                None => find_rec(self.records@, id@) < 0,
            },
    {
        let mut i: usize = 0;
        while i < self.records.len()
            invariant
                self.wf(),
                i <= self.records@.len(),
                forall|k: int| 0 <= k < i as int ==> self.records@[k].id@ != id@,
            decreases self.records@.len() - i,
        {
            if str_eq(self.records[i].id.as_str(), id) {
                proof {
                    lemma_find_unique(self.records@, id@, i as int);
                }
                return Some(i);
            }
            i = i + 1;
        }
        proof {
            lemma_find_rec(self.records@, id@);
        }
        None
    }

    /// Inserts a scan: mints a fresh identifier, seals every secret field,
    /// and stores the scan with an empty result log in the `Stored` phase.
    /// Fails only when a secret field cannot be sealed or the identifier
    /// supply is exhausted.
    pub fn insert(&mut self, scan: Scan) -> (r: Result<String, StoreError>)
        requires
            old(self).wf(),
        ensures
            final(self).wf(),
            r matches Ok(id) ==> {
                &&& id@ == spec_scan_id(old(self)@.counter + 1)
                &&& !old(self)@.recs.contains_key(id@)
                &&& final(self)@.counter == old(self)@.counter + 1
                &&& final(self)@.recs == old(self)@.recs.insert(
                    id@,
                    RecordModel {
                        scan: ScanModel { scan_id: id@, ..scan@ },
                        status: Status {
                            start_time: None,
                            end_time: None,
                            status: Phase::Stored,
                            host_info: None,
                        },
                        results: Seq::empty(),
                    },
                )
                &&& final(self).id_list() == old(self).id_list().push(id@)
            },
            r matches Err(e) ==> final(self)@ == old(self)@ && final(self).id_list() == old(
                self,
            ).id_list() && e == StoreError::Internal && (!scan_sealable(scan@) || old(
                self,
            )@.counter == u64::MAX as int),
            scan_sealable(scan@) && old(self)@.counter < u64::MAX as int ==> r is Ok,
    {
        if self.counter == u64::MAX {
            return Err(StoreError::Internal);
        }
        let ghost m0 = scan@;
        let mut sealed = match SealedScan::seal(self.key.as_slice(), scan) {
            Some(s) => s,
            None => {
                return Err(StoreError::Internal);
            },
        };
        let k = self.counter + 1;
        let id = make_scan_id(k);
        sealed.scan_id = id.clone();
        let rec = ScanRecord {
            id: id.clone(),
            num: Ghost(k as int),
            scan: sealed,
            status: Status {
                start_time: None,
                end_time: None,
                status: Phase::Stored,
                host_info: None,
            },
            results: ResultLog::empty(),
        };
        let ghost s_old = self.records@;
        self.records.push(rec);
        self.counter = k;
        proof {
            let s_new = self.records@;
            let recm = RecordModel {
                scan: ScanModel { scan_id: id@, ..m0 },
                status: Status {
                    start_time: None,
                    end_time: None,
                    status: Phase::Stored,
                    host_info: None,
                },
                results: Seq::empty(),
            };
            assert(s_new[s_old.len() as int].model() == recm);
            // the fresh identifier collides with no stored one
            assert forall|i: int| 0 <= i < s_old.len() implies s_old[i].id@ != id@ by {
                assert(s_old[i].wf(old(self).key@));
                assert(s_old[i].num@ <= old(self).counter as int);
                if s_old[i].id@ == id@ {
                    lemma_scan_id_injective(s_old[i].num@, k as int);
                }
            }
            assert(unique_ids(s_new));
            lemma_find_rec(s_old, id@);
            assert(find_rec(s_old, id@) < 0);
            // the map view gains exactly the new record
            assert forall|id2: Seq<char>| true implies (find_rec(s_new, id2) >= 0) == (find_rec(
                s_old,
                id2,
            ) >= 0 || id2 == id@) by {
                lemma_find_rec(s_old, id2);
                lemma_find_rec(s_new, id2);
                if find_rec(s_old, id2) >= 0 {
                    let j = find_rec(s_old, id2);
                    assert(s_new[j].id@ == id2);
                    lemma_find_rec(s_new, id2);
                } else if id2 == id@ {
                    assert(s_new[s_old.len() as int].id@ == id2);
                    lemma_find_rec(s_new, id2);
                } else {
                    if find_rec(s_new, id2) >= 0 {
                        let j = find_rec(s_new, id2);
                        assert(s_new[j].id@ == id2);
                        if j < s_old.len() {
                            assert(s_old[j].id@ == id2);
                        }
                        assert(false);
                    }
                }
            }
            assert forall|id2: Seq<char>| find_rec(s_new, id2) >= 0 implies s_new[find_rec(
                s_new,
                id2,
            )].model() == (if id2 == id@ {
                recm
            } else {
                s_old[find_rec(s_old, id2)].model()
            }) by {
                lemma_find_rec(s_new, id2);
                let j = find_rec(s_new, id2);
                if id2 == id@ {
                    lemma_find_unique(s_new, id2, s_old.len() as int);
                } else {
                    assert(j < s_old.len());
                    assert(s_old[j].id@ == id2);
                    lemma_find_unique(s_old, id2, j);
                }
            }
            assert(self@.recs =~= old(self)@.recs.insert(id@, recm));
            assert(self.id_list() =~= old(self).id_list().push(id@));
        }
        Ok(id)
    }

    /// Reads a scan in its censored outward form: every secret field is the
    /// literal `"***"`.
    pub fn get_scan(&self, id: &str) -> (r: Option<Scan>)
        requires
            self.wf(),
        ensures
            match r {
                Some(s) => self@.recs.contains_key(id@) && s@ == self@.recs[id@].scan.censored()
                    && s@.is_censored(),
                None => !self@.recs.contains_key(id@),
            },
    {
        match self.index_of(id) {
            Some(i) => Some(self.records[i].scan.censored_scan()),
            None => None,
        }
    }

    /// Reads a scan in the clear, for handing to the scanner only.
    pub fn get_decrypted_scan(&self, id: &str) -> (r: Option<Scan>)
        requires
            self.wf(),
        ensures
            match r {
                Some(s) => self@.recs.contains_key(id@) && s@ == self@.recs[id@].scan,
                None => !self@.recs.contains_key(id@),
            },
    {
        match self.index_of(id) {
            Some(i) => {
                proof {
                    assert(self.records@[i as int].wf(self.key@));
                }
                Some(self.records[i].scan.open_scan(self.key.as_slice()))
            },
            None => None,
        }
    }

    /// Reads a scan's status.
    pub fn get_status(&self, id: &str) -> (r: Option<Status>)
        requires
            self.wf(),
        ensures
            match r {
                Some(st) => self@.recs.contains_key(id@) && st == self@.recs[id@].status,
                None => !self@.recs.contains_key(id@),
            },
    {
        match self.index_of(id) {
            Some(i) => Some(self.records[i].status),
            None => None,
        }
    }

    /// The status a record keeps after a write: the new status, unless its
    /// phase would move backwards in the lifecycle order.
    pub open spec fn gated_status(cur: Status, new: Status) -> Status {
        if cur.status.le(new.status) {
            new
        } else {
            cur
        }
    }

    /// Overwrites a scan's status; a write whose phase would move the scan
    /// backwards in the lifecycle order is discarded.
    pub fn update_status(&mut self, id: &str, status: Status) -> (found: bool)
        requires
            old(self).wf(),
        ensures
            final(self).wf(),
            found == old(self)@.recs.contains_key(id@),
            final(self)@.counter == old(self)@.counter,
            final(self).id_list() == old(self).id_list(),
            !found ==> final(self)@ == old(self)@,
            found ==> final(self)@.recs == old(self)@.recs.insert(
                id@,
                RecordModel {
                    status: Self::gated_status(old(self)@.recs[id@].status, status),
                    ..old(self)@.recs[id@]
                },
            ),
    {
        let i = match self.index_of(id) {
            Some(i) => i,
            None => {
                return false;
            },
        };
        let ghost s_old = self.records@;
        let mut rec = self.records.remove(i);
        let cur = rec.status;
        if cur.status.le_exec(status.status) {
            rec.status = status;
        }
        self.records.insert(i, rec);
        proof {
            lemma_find_rec(s_old, id@);
            assert(self.records@ =~= s_old.update(i as int, self.records@[i as int]));
            self.lemma_record_replaced(s_old, i as int, id@);
            assert forall|k2: int| 0 <= k2 < self.records@.len() implies #[trigger] self.records@[
                k2].wf(self.key@) && self.records@[k2].num@ <= self.counter as int by {
                assert(s_old[k2].wf(old(self).key@));
                assert(s_old[k2].num@ <= old(self).counter as int);
            }
        }
        true
    }

    /// Appends findings to a scan's result log, sealing each into its own
    /// frame; each appended finding takes the identifier of its position in
    /// the log. Fails only when the scan is absent or a finding is too long
    /// to seal, and then changes nothing.
    pub fn append_results(&mut self, id: &str, results: &Vec<ScanResult>) -> (r: Result<
        (),
        StoreError,
    >)
        requires
            old(self).wf(),
        ensures
            final(self).wf(),
            final(self)@.counter == old(self)@.counter,
            final(self).id_list() == old(self).id_list(),
            r matches Ok(_) ==> old(self)@.recs.contains_key(id@) && final(self)@.recs == old(
                self,
            )@.recs.insert(
                id@,
                RecordModel {
                    results: old(self)@.recs[id@].results + renumber(
                        old(self)@.recs[id@].results.len() as int,
                        results.deep_view(),
                    ),
                    ..old(self)@.recs[id@]
                },
            ),
            r matches Err(e) ==> final(self)@ == old(self)@ && (e == StoreError::NotFound
                <==> !old(self)@.recs.contains_key(id@)),
            old(self)@.recs.contains_key(id@) && old(self)@.recs[id@].results.len()
                + results.deep_view().len() <= usize::MAX && (forall|j: int|
                0 <= j < results.deep_view().len() ==> crate::codec::result_fits(
                    #[trigger] results.deep_view()[j],
                )) ==> r is Ok,
    {
        let i = match self.index_of(id) {
            Some(i) => i,
            None => {
                proof {
                    lemma_find_rec(old(self).records@, id@);
                }
                return Err(StoreError::NotFound);
            },
        };
        proof {
            lemma_find_rec(self.records@, id@);
        }
        // seal everything first, so that a failure changes nothing
        proof {
            assert(self.records@[i as int].wf(self.key@));
        }
        let base = self.records[i].results.len();
        let mut sealed: Vec<SealedResult> = Vec::new();
        let mut j: usize = 0;
        if results.len() > usize::MAX - base {
            proof {
                assert(old(self)@.recs.contains_key(id@));
                assert(self@.recs[id@].results.len() == base as int);
                assert(results.deep_view().len() == results@.len());
            }
            return Err(StoreError::Internal);
        }
        while j < results.len()
            invariant
                self == old(self),
                self.wf(),
                i < self.records@.len(),
                find_rec(self.records@, id@) == i as int,
                base == self.records@[i as int].results.models@.len(),
                j <= results@.len(),
                results@.len() <= usize::MAX - base,
                sealed@.len() == j as int,
                forall|k: int| 0 <= k < j as int ==> #[trigger] sealed@[k].wf(self.key@),
                forall|k: int|
                    0 <= k < j as int ==> (#[trigger] sealed@[k].model@) == results.deep_view()[k].with_id(
                        base + k,
                    ),
            decreases results@.len() - j,
        {
            let s = match SealedResult::seal(self.key.as_slice(), &results[j], base + j) {
                Some(s) => s,
                None => {
                    proof {
                        assert(!crate::codec::result_fits(results.deep_view()[j as int]));
                    }
                    return Err(StoreError::Internal);
                },
            };
            sealed.push(s);
            j = j + 1;
        }
        let ghost s_old = self.records@;
        let ghost sealed0 = sealed@;
        let mut rec = self.records.remove(i);
        let ghost rec0 = rec;
        let ghost res_old = rec.results.models@;
        while sealed.len() > 0
            invariant
                self.key@.len() == KEY_LEN,
                sealed0.len() >= sealed@.len(),
                sealed@ == sealed0.subrange(sealed0.len() - sealed@.len(), sealed0.len() as int),
                base as int == res_old.len(),
                base + sealed0.len() <= usize::MAX,
                forall|k2: int| 0 <= k2 < sealed0.len() ==> #[trigger] sealed0[k2].wf(self.key@),
                forall|k2: int|
                    0 <= k2 < sealed0.len() ==> (#[trigger] sealed0[k2].model@)
                        == results.deep_view()[k2].with_id(base + k2),
                rec.results.wf(self.key@),
                rec.results.models@ == res_old + sealed0.subrange(
                    0,
                    sealed0.len() - sealed@.len(),
                ).map_values(|s2: SealedResult| s2.model@),
                rec.id == rec0.id,
                rec.num == rec0.num,
                rec.scan == rec0.scan,
                rec.status == rec0.status,
            decreases sealed@.len(),
        {
            let ghost k = sealed0.len() - sealed@.len();
            let s = sealed.remove(0);
            proof {
                assert(s == sealed0[k]);
                assert(sealed@ =~= sealed0.subrange(k + 1, sealed0.len() as int));
                assert(rec.results.models@.len() == base + k);
                assert(s.model@.id == base + k);
            }
            let ghost m = s.model@;
            rec.results.push_frame(Ghost(self.key@), s);
            proof {
                assert(sealed0.subrange(0, k + 1).map_values(|s2: SealedResult| s2.model@)
                    =~= sealed0.subrange(0, k).map_values(|s2: SealedResult| s2.model@).push(m));
                assert(rec.results.models@ =~= res_old + sealed0.subrange(0, k + 1).map_values(
                    |s2: SealedResult| s2.model@,
                ));
            }
        }
        proof {
            assert(sealed0.subrange(0, sealed0.len() as int) =~= sealed0);
        }
        self.records.insert(i, rec);
        proof {
            lemma_find_rec(s_old, id@);
            assert(self.records@ =~= s_old.update(i as int, self.records@[i as int]));
            self.lemma_record_replaced(s_old, i as int, id@);
            assert(s_old[i as int].wf(old(self).key@));
            assert forall|k2: int| 0 <= k2 < self.records@.len() implies #[trigger] self.records@[
                k2].wf(self.key@) && self.records@[k2].num@ <= self.counter as int by {
                assert(s_old[k2].wf(old(self).key@));
                assert(s_old[k2].num@ <= old(self).counter as int);
            }
            let oldm = s_old[i as int].model();
            assert(self.records@[i as int].model().results =~= oldm.results + renumber(
                oldm.results.len() as int,
                results.deep_view(),
            ));
        }
        Ok(())
    }

    /// Reads the selected slice of a scan's result log, opening only the
    /// requested frames.
    pub fn get_results(&self, id: &str, selector: ResultSelector) -> (r: Option<Vec<ScanResult>>)
        requires
            self.wf(),
        ensures
            match r {
                Some(v) => self@.recs.contains_key(id@) && v.deep_view() == select_results(
                    self@.recs[id@].results,
                    selector,
                ),
                None => !self@.recs.contains_key(id@),
            },
    {
        let i = match self.index_of(id) {
            Some(i) => i,
            None => {
                return None;
            },
        };
        let rec = &self.records[i];
        proof {
            assert(self.records@[i as int].wf(self.key@));
        }
        let n = rec.results.len();
        let (from, to): (usize, usize) = match selector {
            ResultSelector::All => (0, n),
            ResultSelector::Single(k) => {
                if k < n {
                    (k, k + 1)
                } else {
                    (0, 0)
                }
            },
            ResultSelector::Range(a, b) => {
                if a < n && a <= b {
                    (a, if b < n {
                        b + 1
                    } else {
                        n
                    })
                } else {
                    (0, 0)
                }
            },
        };
        let mut out: Vec<ScanResult> = Vec::new();
        proof {
            assert(out.deep_view() =~= rec.model().results.subrange(from as int, from as int));
        }
        let mut k: usize = from;
        while k < to
            invariant
                self.wf(),
                i < self.records@.len(),
                rec == self.records@[i as int],
                from <= k <= to <= rec.results.models@.len(),
                out@.len() == k - from,
                out.deep_view() == rec.model().results.subrange(from as int, k as int),
            decreases to - k,
        {
            proof {
                assert(self.records@[i as int].wf(self.key@));
            }
            let res = rec.results.read_one(self.key.as_slice(), k);
            out.push(res);
            proof {
                assert(out.deep_view() =~= rec.model().results.subrange(from as int, k + 1 as int));
            }
            k = k + 1;
        }
        proof {
            assert(select_results(rec.model().results, selector) =~= rec.model().results.subrange(
                from as int,
                to as int,
            ));
        }
        Some(out)
    }

    /// Removes a scan: the record leaves the map, and its identifier
    /// leaves the listing.
    pub fn delete(&mut self, id: &str) -> (found: bool)
        requires
            old(self).wf(),
        ensures
            final(self).wf(),
            found == old(self)@.recs.contains_key(id@),
            final(self)@.counter == old(self)@.counter,
            !found ==> final(self)@ == old(self)@ && final(self).id_list() == old(self).id_list(),
            found ==> final(self)@.recs == old(self)@.recs.remove(id@) && final(self).id_list()
                == old(self).id_list().remove_value(id@),
    {
        let i = match self.index_of(id) {
            Some(i) => i,
            None => {
                return false;
            },
        };
        let ghost s_old = self.records@;
        self.records.remove(i);
        proof {
            let s_new = self.records@;
            lemma_find_rec(s_old, id@);
            assert(s_old[i as int].id@ == id@);
            assert forall|a: int, b: int| 0 <= a < b < s_new.len() implies s_new[a].id@
                != s_new[b].id@ by {
                let a2 = if a < i as int {
                    a
                } else {
                    a + 1
                };
                let b2 = if b < i as int {
                    b
                } else {
                    b + 1
                };
                assert(s_new[a] == s_old[a2] && s_new[b] == s_old[b2]);
                assert(s_old[a2].id@ != s_old[b2].id@);
            }
            assert forall|id2: Seq<char>| true implies ((find_rec(s_new, id2) >= 0) == (find_rec(
                s_old,
                id2,
            ) >= 0 && id2 != id@)) && (find_rec(s_new, id2) >= 0 ==> s_new[find_rec(
                s_new,
                id2,
            )].model() == s_old[find_rec(s_old, id2)].model()) by {
                lemma_find_rec(s_old, id2);
                lemma_find_rec(s_new, id2);
                if find_rec(s_new, id2) >= 0 {
                    let j = find_rec(s_new, id2);
                    let j2 = if j < i as int {
                        j
                    } else {
                        j + 1
                    };
                    assert(s_new[j] == s_old[j2]);
                    lemma_find_unique(s_old, id2, j2);
                    if id2 == id@ {
                        lemma_find_unique(s_old, id2, i as int);
                        assert(false);
                    }
                } else {
                    if find_rec(s_old, id2) >= 0 && id2 != id@ {
                        let j2 = find_rec(s_old, id2);
                        assert(j2 != i as int);
                        let j = if j2 < i as int {
                            j2
                        } else {
                            j2 - 1
                        };
                        assert(s_new[j] == s_old[j2]);
                        assert(s_new[j].id@ == id2);
                        assert(false);
                    }
                }
            }
            assert(self@.recs =~= old(self)@.recs.remove(id@));
            // the identifier leaves the listing: it occurred exactly once,
            // at the removed position
            let il_old = old(self).id_list();
            assert(il_old[i as int] == s_old[i as int].id@);
            assert(il_old.contains(id@));
            il_old.index_of_first_ensures(id@);
            let j = il_old.index_of_first(id@).unwrap();
            assert(s_old[j].id@ == id@);
            if j != i as int {
                if j < i as int {
                    assert(s_old[j].id@ != s_old[i as int].id@);
                } else {
                    assert(s_old[i as int].id@ != s_old[j].id@);
                }
            }
            assert(self.id_list() =~= il_old.remove(i as int));
            assert(il_old.remove_value(id@) == il_old.remove(i as int));
        }
        true
    }

    /// The id listing is exactly the stored identifiers: free of duplicates,
    /// and holding an identifier exactly when a scan is stored under it.
    pub proof fn lemma_id_list_matches_recs(self)
        requires
            self.wf(),
        ensures
            self.id_list().no_duplicates(),
            forall|id: Seq<char>|
                #[trigger] self.id_list().contains(id) <==> self@.recs.contains_key(id),
    {
        let il = self.id_list();
        assert forall|a: int, b: int| 0 <= a < il.len() && 0 <= b < il.len() && a != b implies il[a]
            != il[b] by {
            if a < b {
                assert(self.records@[a].id@ != self.records@[b].id@);
            } else {
                assert(self.records@[b].id@ != self.records@[a].id@);
            }
        }
        assert forall|id: Seq<char>| #[trigger] il.contains(id) implies self@.recs.contains_key(
            id,
        ) by {
            let j = choose|j: int| 0 <= j < il.len() && il[j] == id;
            assert(self.records@[j].id@ == id);
            lemma_find_rec(self.records@, id);
        }
        assert forall|id: Seq<char>| self@.recs.contains_key(id) implies #[trigger] il.contains(
            id,
        ) by {
            lemma_find_rec(self.records@, id);
            let f = find_rec(self.records@, id);
            assert(il[f] == id);
        }
    }

    /// The identifiers of all stored scans, in insertion order.
    pub fn ids(&self) -> (r: Vec<String>)
        ensures
            r.deep_view() == self.id_list(),
    {
        let mut r: Vec<String> = Vec::new();
        proof {
            assert(r.deep_view() =~= self.id_list().subrange(0, 0));
        }
        let mut i: usize = 0;
        while i < self.records.len()
            invariant
                i <= self.records@.len(),
                r@.len() == i,
                r.deep_view() == self.id_list().subrange(0, i as int),
            decreases self.records@.len() - i,
        {
            r.push(self.records[i].id.clone());
            proof {
                assert(r.deep_view() =~= self.id_list().subrange(0, i + 1 as int));
            }
            i = i + 1;
        }
        proof {
            assert(self.id_list().subrange(0, self.id_list().len() as int) =~= self.id_list());
        }
        r
    }

    /// Result identifiers of every stored scan form a dense prefix
    /// `[0, n)` where `n` is the length of its result log.
    pub proof fn lemma_result_ids_dense(self, id: Seq<char>)
        requires
            self.wf(),
            self@.recs.contains_key(id),
        ensures
            forall|i: int|
                0 <= i < self@.recs[id].results.len() ==> (#[trigger] self@.recs[id].results[i]).id
                    == i,
    {
        let f = find_rec(self.records@, id);
        lemma_find_rec(self.records@, id);
        assert(self.records@[f].wf(self.key@));
        let lg = self.records@[f].results;
        assert(lg.wf(self.key@));
        assert forall|i: int| 0 <= i < self@.recs[id].results.len() implies (
        #[trigger] self@.recs[id].results[i]).id == i by {
            let sp = lg.index@[i];
            assert(sp.off + sp.len <= lg.data@.len());
            assert(lg.models@[i].id == i);
        }
    }

    /// After replacing the record at `i` by one with the same identifier,
    /// the map view is the old map with that identifier's record overwritten.
    proof fn lemma_record_replaced(self, s_old: Seq<ScanRecord>, i: int, id: Seq<char>)
        requires
            0 <= i < s_old.len(),
            self.records@.len() == s_old.len(),
            forall|k: int| 0 <= k < s_old.len() && k != i ==> self.records@[k] == s_old[k],
            self.records@[i].id@ == s_old[i].id@,
            s_old[i].id@ == id,
            unique_ids(s_old),
            find_rec(s_old, id) == i,
        ensures
            unique_ids(self.records@),
            forall|id2: Seq<char>| find_rec(self.records@, id2) == find_rec(s_old, id2),
            Map::new(
                |id2: Seq<char>| find_rec(self.records@, id2) >= 0,
                |id2: Seq<char>| self.records@[find_rec(self.records@, id2)].model(),
            ) == Map::new(
                |id2: Seq<char>| find_rec(s_old, id2) >= 0,
                |id2: Seq<char>| s_old[find_rec(s_old, id2)].model(),
            ).insert(id, self.records@[i].model()),
    {
        let s_new = self.records@;
        assert forall|a: int| 0 <= a < s_old.len() implies s_old[a].id@ == #[trigger] s_new[a].id@
            by {}
        assert forall|a: int, b: int| 0 <= a < b < s_new.len() implies s_new[a].id@
            != s_new[b].id@ by {
            assert(s_old[a].id@ != s_old[b].id@);
        }
        assert forall|id2: Seq<char>| #[trigger] find_rec(s_new, id2) == find_rec(s_old, id2) by {
            lemma_find_same_ids(s_old, s_new, id2);
        }
        assert forall|id2: Seq<char>| find_rec(s_new, id2) >= 0 implies s_new[find_rec(
            s_new,
            id2,
        )].model() == (if id2 == id {
            s_new[i].model()
        } else {
            s_old[find_rec(s_old, id2)].model()
        }) by {
            lemma_find_rec(s_new, id2);
            lemma_find_rec(s_old, id2);
            if id2 == id {
                lemma_find_unique(s_old, id2, i);
            } else {
                assert(find_rec(s_old, id2) != i);
            }
        }
        assert(Map::new(
            |id2: Seq<char>| find_rec(s_new, id2) >= 0,
            |id2: Seq<char>| s_new[find_rec(s_new, id2)].model(),
        ) =~= Map::new(
            |id2: Seq<char>| find_rec(s_old, id2) >= 0,
            |id2: Seq<char>| s_old[find_rec(s_old, id2)].model(),
        ).insert(id, s_new[i].model()));
    }
}

} // verus!
