use vstd::prelude::*;

use crate::crypt::random_bytes;
use crate::crypt::KEY_LEN;
use crate::scanner::NoOpScanner;
use crate::store::ScanStore;
use crate::store::StoreModel;

verus! {

/// Marks a builder that has no scanner attached yet; such a builder cannot
/// build a context.
#[derive(Clone, Copy, Debug)]
pub struct NoScanner;

/// Marks a builder whose scanner has been attached.
#[derive(Clone, Copy, Debug)]
pub struct Scanner<S>(pub S);

/// Sets the interval, in nanoseconds, between two polls for new results.
#[derive(Clone, Copy, Debug, PartialEq, Eq, Structural)]
pub struct ResultContext(pub u64);

impl From<u64> for ResultContext {
    fn from(d: u64) -> (r: Self) {
        ResultContext(d)
    }
}

impl vstd::std_specs::convert::FromSpecImpl<u64> for ResultContext {
    open spec fn obeys_from_spec() -> bool {
        true
    }

    open spec fn from_spec(d: u64) -> Self {
        ResultContext(d)
    }
}

/// Sets the path to the feed and the interval, in nanoseconds, between two
/// checks for feed updates.
#[derive(Clone, Debug)]
pub struct FeedContext {
    /// The path to the feed.
    pub path: String,
    /// The interval between two checks for updates.
    pub verify_interval: u64,
}

impl From<(String, u64)> for FeedContext {
    fn from(c: (String, u64)) -> (r: Self) {
        FeedContext { path: c.0, verify_interval: c.1 }
    }
}

impl vstd::std_specs::convert::FromSpecImpl<(String, u64)> for FeedContext {
    open spec fn obeys_from_spec() -> bool {
        true
    }

    open spec fn from_spec(c: (String, u64)) -> Self {
        FeedContext { path: c.0, verify_interval: c.1 }
    }
}

/// Builds the context of the application: the store, the configuration, and
/// finally the scanner, which is required.
pub struct ContextBuilder<T> {
    pub scanner: T,
    pub storage: ScanStore,
    pub result_config: Option<ResultContext>,
    pub feed_config: Option<FeedContext>,
    pub api_key: Option<String>,
    pub enable_get_scans: bool,
    pub feed_version: Option<String>,
}

impl ContextBuilder<NoScanner> {
    /// Creates a new context builder around an empty store with a fresh
    /// random cipher key.
    pub fn new() -> (r: Self)
        ensures
            r.storage.wf(),
            r.storage@.recs == Map::<Seq<char>, crate::store::RecordModel>::empty(),
            r.storage@.counter == 0,
            r.result_config is None,
            r.feed_config is None,
            r.api_key is None,
            r.enable_get_scans == false,
            r.feed_version is None,
    {
        ContextBuilder {
            scanner: NoScanner,
            storage: ScanStore::new(random_bytes(KEY_LEN)),
            result_config: None,
            feed_config: None,
            api_key: None,
            enable_get_scans: false,
            feed_version: None,
        }
    }

    /// Attaches the scanner. This is required before `build`.
    pub fn scanner<S>(self, scanner: S) -> (r: ContextBuilder<Scanner<S>>)
        ensures
            r.scanner.0 == scanner,
            r.storage == self.storage,
            r.result_config == self.result_config,
            r.feed_config == self.feed_config,
            r.api_key == self.api_key,
            r.enable_get_scans == self.enable_get_scans,
            r.feed_version == self.feed_version,
    {
        let ContextBuilder {
            scanner: _,
            storage,
            result_config,
            feed_config,
            api_key,
            enable_get_scans,
            feed_version,
        } = self;
        ContextBuilder {
            scanner: Scanner(scanner),
            storage,
            result_config,
            feed_config,
            api_key,
            enable_get_scans,
            feed_version,
        }
    }
}

impl<T> ContextBuilder<T> {
    /// Sets the result polling configuration.
    pub fn result_config(self, config: ResultContext) -> (r: Self)
        ensures
            r == (ContextBuilder { result_config: Some(config), ..self }),
    {
        ContextBuilder { result_config: Some(config), ..self }
    }

    /// Sets the feed configuration. The feed version itself is read from
    /// disk outside this library and handed in through `feed_version`.
    pub fn feed_config(self, config: FeedContext) -> (r: Self)
        ensures
            r == (ContextBuilder { feed_config: Some(config), ..self }),
    {
        ContextBuilder { feed_config: Some(config), ..self }
    }

    /// Sets the feed version announced in response headers.
    pub fn feed_version(self, version: String) -> (r: Self)
        ensures
            r == (ContextBuilder { feed_version: Some(version), ..self }),
    {
        ContextBuilder { feed_version: Some(version), ..self }
    }

    /// Sets the api key. When one is set, every non-HEAD request must carry
    /// it in the `x-api-key` header.
    pub fn api_key(self, api_key: Option<String>) -> (r: Self)
        ensures
            r == (ContextBuilder { api_key, ..self }),
    {
        ContextBuilder { api_key, ..self }
    }

    /// Enables the endpoint listing all scan identifiers.
    pub fn enable_get_scans(self, enable: bool) -> (r: Self)
        ensures
            r == (ContextBuilder { enable_get_scans: enable, ..self }),
    {
        ContextBuilder { enable_get_scans: enable, ..self }
    }

    /// Sets the storage.
    pub fn storage(self, storage: ScanStore) -> (r: Self)
        ensures
            r == (ContextBuilder { storage, ..self }),
    {
        ContextBuilder { storage, ..self }
    }
}

impl<S> ContextBuilder<Scanner<S>> {
    /// Builds the context.
    pub fn build(self) -> (r: Context<S>)
        ensures
            r.scanner == self.scanner.0,
            r.db == self.storage,
            r.result_config == self.result_config,
            r.feed_config == self.feed_config,
            r.api_key == self.api_key,
            r.enable_get_scans == self.enable_get_scans,
            r.feed_version == self.feed_version,
            r.oids.0@ == Seq::<char>::empty(),
            r.oids.1@ == Seq::<String>::empty(),
            r.abort == false,
    {
        Context {
            scanner: self.scanner.0,
            db: self.storage,
            oids: (String::new(), Vec::new()),
            result_config: self.result_config,
            feed_config: self.feed_config,
            api_key: self.api_key,
            enable_get_scans: self.enable_get_scans,
            feed_version: self.feed_version,
            abort: false,
        }
    }
}

/// The context of the application: the scanner, the store of scans, and the
/// configuration the dispatcher and the background loops read.
pub struct Context<S> {
    /// The scanner used to start, stop and fetch results of scans.
    pub scanner: S,
    /// The store of scans being tracked. Results are appended to it by the
    /// background poll loop.
    pub db: ScanStore,
    /// The feed version and the OIDs this sensor can handle, published as a
    /// pair so a reader never sees one without the other.
    pub oids: (String, Vec<String>),
    /// Configuration for result fetching.
    pub result_config: Option<ResultContext>,
    /// Configuration for feed handling.
    pub feed_config: Option<FeedContext>,
    /// The api key used to authenticate the client. When none is set, no
    /// authentication is required.
    pub api_key: Option<String>,
    /// Whether the endpoint listing all scan identifiers is enabled.
    pub enable_get_scans: bool,
    /// The feed version announced in response headers.
    pub feed_version: Option<String>,
    /// Aborts the background loops.
    pub abort: bool,
}

impl<S> Context<S> {
    /// The context's internal invariant: its store is well formed.
    pub open spec fn wf(self) -> bool {
        self.db.wf()
    }

    /// The store's mathematical value.
    pub open spec fn model(self) -> StoreModel {
        self.db@
    }
}

impl Default for Context<NoOpScanner> {
    fn default() -> (r: Self)
        ensures
            r.wf(),
            r.model().recs == Map::<Seq<char>, crate::store::RecordModel>::empty(),
            r.model().counter == 0,
            r.api_key is None,
            r.enable_get_scans == false,
            r.feed_version is None,
    {
        ContextBuilder::new().scanner(NoOpScanner).build()
    }
}

} // verus!
