use vstd::prelude::*;

use crate::credential::Credential;
use crate::credential::CredentialModel;

verus! {

/// A plugin selected for a scan: a VT identified by its OID, with optional
/// parameters.
#[derive(Debug)]
pub struct Vt {
    /// The dotted-decimal identifier naming the plugin.
    pub oid: String,
    /// Parameters handed to the plugin.
    pub parameters: Vec<VtParameter>,
}

/// A single parameter of a VT.
#[derive(Debug)]
pub struct VtParameter {
    pub id: u64,
    pub value: String,
}

/// A scanner-specific option of a scan.
#[derive(Debug)]
pub struct Preference {
    pub key: String,
    pub value: String,
}

/// A client-authored job description: the targets to scan, the plugins to
/// run, and the credentials to access the targets with.
#[derive(Debug)]
pub struct Scan {
    /// The server-assigned identifier; empty until the scan is stored.
    pub scan_id: String,
    /// The target host addresses.
    pub hosts: Vec<String>,
    /// The selected plugins.
    pub vts: Vec<Vt>,
    /// Credentials used to access the target hosts.
    pub credentials: Vec<Credential>,
    /// Scanner-specific options.
    pub preferences: Vec<Preference>,
}

/// The mathematical value of a `Vt`.
pub struct VtModel {
    pub oid: Seq<char>,
    pub parameters: Seq<VtParameterModel>,
}

pub struct VtParameterModel {
    pub id: u64,
    pub value: Seq<char>,
}

pub struct PreferenceModel {
    pub key: Seq<char>,
    pub value: Seq<char>,
}

/// The mathematical value of a `Scan`.
pub struct ScanModel {
    pub scan_id: Seq<char>,
    pub hosts: Seq<Seq<char>>,
    pub vts: Seq<VtModel>,
    pub credentials: Seq<CredentialModel>,
    pub preferences: Seq<PreferenceModel>,
}

impl View for VtParameter {
    type V = VtParameterModel;

    open spec fn view(&self) -> VtParameterModel {
        VtParameterModel { id: self.id, value: self.value@ }
    }
}

impl View for Vt {
    type V = VtModel;

    open spec fn view(&self) -> VtModel {
        VtModel { oid: self.oid@, parameters: self.parameters.deep_view() }
    }
}

impl View for Preference {
    type V = PreferenceModel;

    open spec fn view(&self) -> PreferenceModel {
        PreferenceModel { key: self.key@, value: self.value@ }
    }
}

impl View for Scan {
    type V = ScanModel;

    open spec fn view(&self) -> ScanModel {
        ScanModel {
            scan_id: self.scan_id@,
            hosts: self.hosts.deep_view(),
            vts: self.vts.deep_view(),
            credentials: self.credentials.deep_view(),
            preferences: self.preferences.deep_view(),
        }
    }
}

impl DeepView for VtParameter {
    type V = VtParameterModel;

    open spec fn deep_view(&self) -> VtParameterModel {
        self.view()
    }
}

impl DeepView for Vt {
    type V = VtModel;

    open spec fn deep_view(&self) -> VtModel {
        self.view()
    }
}

impl DeepView for Preference {
    type V = PreferenceModel;

    open spec fn deep_view(&self) -> PreferenceModel {
        self.view()
    }
}

impl DeepView for Credential {
    type V = CredentialModel;

    open spec fn deep_view(&self) -> CredentialModel {
        self.view()
    }
}

impl ScanModel {
    /// True when every credential of the scan is censored.
    pub open spec fn is_censored(self) -> bool {
        forall|i: int|
            0 <= i < self.credentials.len() ==> #[trigger] self.credentials[i].credential_type.is_censored()
    }

    /// The same scan with every credential censored.
    pub open spec fn censored(self) -> ScanModel {
        ScanModel {
            credentials: self.credentials.map_values(
                |c: CredentialModel| CredentialModel {
                    service: c.service,
                    port: c.port,
                    credential_type: c.credential_type.censored(),
                },
            ),
            ..self
        }
    }
}

impl Scan {
    /// Builds an empty scan description: no hosts, no plugins, no
    /// credentials, no options, and no identifier yet.
    pub fn empty() -> (r: Scan)
        ensures
            r@.scan_id.len() == 0,
            r@.hosts.len() == 0,
            r@.vts.len() == 0,
            r@.credentials.len() == 0,
            r@.preferences.len() == 0,
    {
        Scan {
            scan_id: String::new(),
            hosts: Vec::new(),
            vts: Vec::new(),
            credentials: Vec::new(),
            preferences: Vec::new(),
        }
    }
}

impl Default for Scan {
    fn default() -> (r: Self)
        ensures
            r@.scan_id.len() == 0,
            r@.hosts.len() == 0,
            r@.vts.len() == 0,
            r@.credentials.len() == 0,
            r@.preferences.len() == 0,
    {
        Scan::empty()
    }
}

/// The lifecycle action a client may request on a stored scan.
#[derive(Clone, Copy, Debug, PartialEq, Eq, Structural)]
pub enum Action {
    Start,
    Stop,
}

/// The body of a `POST /scans/{id}` request.
#[derive(Clone, Copy, Debug, PartialEq, Eq, Structural)]
pub struct ScanAction {
    pub action: Action,
}

/// The severity kind of a single finding.
#[derive(Clone, Copy, Debug, PartialEq, Eq, Structural)]
pub enum ResultKind {
    Log,
    Alarm,
    Error,
}

/// A single finding produced by the scanner during a scan.
#[derive(Debug)]
pub struct ScanResult {
    /// Dense, store-assigned identifier: the position in the result log.
    pub id: usize,
    /// The severity kind of the finding.
    pub kind: ResultKind,
    pub message: Option<String>,
    pub host: Option<String>,
    pub port: Option<u16>,
    /// The OID of the plugin that produced the finding.
    pub oid: Option<String>,
}

/// The mathematical value of a `ScanResult`.
pub struct ResultModel {
    pub id: int,
    pub kind: ResultKind,
    pub message: Option<Seq<char>>,
    pub host: Option<Seq<char>>,
    pub port: Option<u16>,
    pub oid: Option<Seq<char>>,
}

impl View for ScanResult {
    type V = ResultModel;

    open spec fn view(&self) -> ResultModel {
        ResultModel {
            id: self.id as int,
            kind: self.kind,
            message: self.message.deep_view(),
            host: self.host.deep_view(),
            port: self.port,
            oid: self.oid.deep_view(),
        }
    }
}

impl DeepView for ScanResult {
    type V = ResultModel;

    open spec fn deep_view(&self) -> ResultModel {
        self.view()
    }
}

impl ResultModel {
    /// The same finding under another identifier.
    pub open spec fn with_id(self, id: int) -> ResultModel {
        ResultModel { id, ..self }
    }
}

} // verus!
