//! A scan orchestration library: the control plane of a vulnerability-scan
//! daemon.
//!
//! Clients hand in scan descriptions, drive their lifecycle (start, stop,
//! delete) and read back statuses and results; a pluggable scanner backend
//! does the actual scanning and is polled for progress. Scans are held in an
//! in-memory store whose secret credential fields and result log are kept
//! encrypted at rest; every outward serialization of a secret field is the
//! literal `"***"`.

pub mod codec;
pub mod context;
pub mod credential;
pub mod crypt;
pub mod dispatch;
pub mod laws;
pub mod lifecycle;
pub mod scan;
pub mod scanner;
pub mod sealed;
pub mod status;
pub mod store;

pub use codec::decode_result;
pub use codec::encode_result;
pub use context::Context;
pub use context::ContextBuilder;
pub use context::FeedContext;
pub use context::NoScanner;
pub use context::ResultContext;
pub use credential::Credential;
pub use credential::CredentialModel;
pub use credential::CredentialType;
pub use credential::CredentialTypeModel;
pub use credential::Service;
pub use dispatch::Method;
pub use dispatch::Request;
pub use dispatch::RequestBody;
pub use dispatch::Response;
pub use dispatch::ResponseBody;
pub use dispatch::Route;
pub use dispatch::RouteModel;
pub use dispatch::handle;
pub use dispatch::route_of;
pub use dispatch::spec_auth_ok;
pub use dispatch::spec_route;
pub use laws::lemma_censored_is_censored;
pub use laws::lemma_create_delete_roundtrip;
pub use laws::lemma_created_scan_is_retrievable;
pub use laws::lemma_range_selects_ids;
pub use laws::lemma_scan_censored_is_censored;
pub use laws::lemma_status_update_monotone;
pub use lifecycle::action_outcome;
pub use lifecycle::apply_action;
pub use lifecycle::apply_delete;
pub use lifecycle::delete_outcome;
pub use lifecycle::feed_tick;
pub use lifecycle::lemma_poll_evolution_trans;
pub use lifecycle::merge_status;
pub use lifecycle::only_db_changed;
pub use lifecycle::poll_evolution;
pub use lifecycle::poll_once;
pub use lifecycle::scanner_outcome_code;
pub use lifecycle::spec_merge_status;
pub use scan::Action;
pub use scan::Preference;
pub use scan::ResultKind;
pub use scan::ResultModel;
pub use scan::Scan;
pub use scan::ScanAction;
pub use scan::ScanModel;
pub use scan::ScanResult;
pub use scan::Vt;
pub use scan::VtParameter;
pub use scanner::FetchResult;
pub use scanner::NoOpScanner;
pub use scanner::ScanDeleter;
pub use scanner::ScanError;
pub use scanner::ScanResultFetcher;
pub use scanner::ScanStarter;
pub use scanner::ScanStopper;
pub use scanner::Scanner;
pub use status::HostInfo;
pub use status::Phase;
pub use status::Status;
pub use store::RecordModel;
pub use store::ResultSelector;
pub use store::ScanStore;
pub use store::StoreError;
pub use store::StoreModel;

