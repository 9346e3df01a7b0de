use vstd::prelude::*;
use vstd::string::StringExecFns;
use vstd::utf8::encode_utf8;

use crate::codec::decode_result;
use crate::codec::encode_result;
use crate::codec::result_fits;
use crate::codec::spec_encode_result;
use crate::codec::lemma_result_codec_roundtrip;
use crate::credential::Credential;
use crate::credential::CredentialModel;
use crate::credential::CredentialType;
use crate::credential::CredentialTypeModel;
use crate::crypt::Frame;
use crate::crypt::SecretBox;
use crate::crypt::KEY_LEN;
use crate::crypt::MAX_PLAIN_LEN;
use crate::scan::Preference;
use crate::scan::Scan;
use crate::scan::ScanModel;
use crate::scan::ScanResult;
use crate::scan::Vt;
use crate::scan::VtParameter;

verus! {

/// A string small enough to be sealed into one cipher frame.
pub open spec fn str_sealable(s: Seq<char>) -> bool {
    encode_utf8(s).len() <= MAX_PLAIN_LEN
}

/// Every secret field of the credential is small enough to seal.
pub open spec fn cred_sealable(m: CredentialTypeModel) -> bool {
    match m {
        CredentialTypeModel::Up { username, password } => str_sealable(username) && str_sealable(
            password,
        ),
        CredentialTypeModel::Usk { username, password, private_key } => str_sealable(username)
            && str_sealable(password) && str_sealable(private_key),
        CredentialTypeModel::Snmp {
            username,
            password,
            community,
            auth_algorithm,
            privacy_password,
            privacy_algorithm,
        } => str_sealable(username) && str_sealable(password) && str_sealable(community)
            && str_sealable(auth_algorithm) && str_sealable(privacy_password) && str_sealable(
            privacy_algorithm,
        ),
    }
}

/// Every credential of the scan is small enough to seal.
pub open spec fn scan_sealable(m: ScanModel) -> bool {
    forall|i: int|
        0 <= i < m.credentials.len() ==> #[trigger] cred_sealable(m.credentials[i].credential_type)
}

/// A credential kind with every secret field held only in sealed form.
pub enum SealedCredentialType {
    Up { username: SecretBox, password: SecretBox },
    Usk { username: SecretBox, password: SecretBox, private_key: SecretBox },
    Snmp {
        username: SecretBox,
        password: SecretBox,
        community: SecretBox,
        auth_algorithm: SecretBox,
        privacy_password: SecretBox,
        privacy_algorithm: SecretBox,
    },
}

impl SealedCredentialType {
    /// Every box is a well-formed seal under `key`.
    pub open spec fn wf(self, key: Seq<u8>) -> bool {
        match self {
            SealedCredentialType::Up { username, password } => username.wf(key) && password.wf(
                key,
            ),
            SealedCredentialType::Usk { username, password, private_key } => username.wf(key)
                && password.wf(key) && private_key.wf(key),
            SealedCredentialType::Snmp {
                username,
                password,
                community,
                auth_algorithm,
                privacy_password,
                privacy_algorithm,
            } => username.wf(key) && password.wf(key) && community.wf(key) && auth_algorithm.wf(
                key,
            ) && privacy_password.wf(key) && privacy_algorithm.wf(key),
        }
    }

    /// The plaintext credential the boxes seal.
    pub open spec fn model(self) -> CredentialTypeModel {
        match self {
            SealedCredentialType::Up { username, password } => CredentialTypeModel::Up {
                username: username.plain@,
                password: password.plain@,
            },
            SealedCredentialType::Usk { username, password, private_key } => CredentialTypeModel::Usk {
                username: username.plain@,
                password: password.plain@,
                private_key: private_key.plain@,
            },
            SealedCredentialType::Snmp {
                username,
                password,
                community,
                auth_algorithm,
                privacy_password,
                privacy_algorithm,
            } => CredentialTypeModel::Snmp {
                username: username.plain@,
                password: password.plain@,
                community: community.plain@,
                auth_algorithm: auth_algorithm.plain@,
                privacy_password: privacy_password.plain@,
                privacy_algorithm: privacy_algorithm.plain@,
            },
        }
    }

    /// Seals every secret field of a credential kind. Fails exactly when a
    /// field is too long to seal.
    pub fn seal(key: &[u8], ct: &CredentialType) -> (r: Option<SealedCredentialType>)
        requires
            key@.len() == KEY_LEN,
        ensures
            r matches Some(e) ==> e.wf(key@) && e.model() == ct@,
            r is None ==> !cred_sealable(ct@),
    {
        match ct {
            CredentialType::UP { username, password } => {
                let username = match SecretBox::seal_str(key, username.as_str()) {
                    Some(b) => b,
                    None => {
                        return None;
                    },
                };
                let password = match SecretBox::seal_str(key, password.as_str()) {
                    Some(b) => b,
                    None => {
                        return None;
                    },
                };
                Some(SealedCredentialType::Up { username, password })
            },
            CredentialType::USK { username, password, private_key } => {
                let username = match SecretBox::seal_str(key, username.as_str()) {
                    Some(b) => b,
                    None => {
                        return None;
                    },
                };
                let password = match SecretBox::seal_str(key, password.as_str()) {
                    Some(b) => b,
                    None => {
                        return None;
                    },
                };
                let private_key = match SecretBox::seal_str(key, private_key.as_str()) {
                    Some(b) => b,
                    None => {
                        return None;
                    },
                };
                Some(SealedCredentialType::Usk { username, password, private_key })
            },
            CredentialType::SNMP {
                username,
                password,
                community,
                auth_algorithm,
                privacy_password,
                privacy_algorithm,
            } => {
                let username = match SecretBox::seal_str(key, username.as_str()) {
                    Some(b) => b,
                    None => {
                        return None;
                    },
                };
                let password = match SecretBox::seal_str(key, password.as_str()) {
                    Some(b) => b,
                    None => {
                        return None;
                    },
                };
                let community = match SecretBox::seal_str(key, community.as_str()) {
                    Some(b) => b,
                    None => {
                        return None;
                    },
                };
                let auth_algorithm = match SecretBox::seal_str(key, auth_algorithm.as_str()) {
                    Some(b) => b,
                    None => {
                        return None;
                    },
                };
                let privacy_password = match SecretBox::seal_str(key, privacy_password.as_str()) {
                    Some(b) => b,
                    None => {
                        return None;
                    },
                };
                let privacy_algorithm = match SecretBox::seal_str(key, privacy_algorithm.as_str()) {
                    Some(b) => b,
                    None => {
                        return None;
                    },
                };
                Some(
                    SealedCredentialType::Snmp {
                        username,
                        password,
                        community,
                        auth_algorithm,
                        privacy_password,
                        privacy_algorithm,
                    },
                )
            },
        }
    }

    /// Opens every box, returning the plaintext credential kind.
    pub fn open_all(&self, key: &[u8]) -> (r: CredentialType)
        requires
            key@.len() == KEY_LEN,
            self.wf(key@),
        ensures
            r@ == self.model(),
    {
        match self {
            SealedCredentialType::Up { username, password } => CredentialType::UP {
                username: username.open_str(key),
                password: password.open_str(key),
            },
            SealedCredentialType::Usk { username, password, private_key } => CredentialType::USK {
                username: username.open_str(key),
                password: password.open_str(key),
                private_key: private_key.open_str(key),
            },
            SealedCredentialType::Snmp {
                username,
                password,
                community,
                auth_algorithm,
                privacy_password,
                privacy_algorithm,
            } => CredentialType::SNMP {
                username: username.open_str(key),
                password: password.open_str(key),
                community: community.open_str(key),
                auth_algorithm: auth_algorithm.open_str(key),
                privacy_password: privacy_password.open_str(key),
                privacy_algorithm: privacy_algorithm.open_str(key),
            },
        }
    }
}

/// A credential whose secret fields are held only in sealed form.
pub struct SealedCredential {
    pub service: crate::credential::Service,
    pub port: Option<u16>,
    pub credential_type: SealedCredentialType,
}

impl SealedCredential {
    pub open spec fn wf(self, key: Seq<u8>) -> bool {
        self.credential_type.wf(key)
    }

    pub open spec fn model(self) -> CredentialModel {
        CredentialModel {
            service: self.service,
            port: self.port,
            credential_type: self.credential_type.model(),
        }
    }
}

/// A scan as the store holds it: every secret field sealed, everything else
/// in the clear.
pub struct SealedScan {
    pub scan_id: String,
    pub hosts: Vec<String>,
    pub vts: Vec<Vt>,
    pub preferences: Vec<Preference>,
    pub credentials: Vec<SealedCredential>,
}

impl SealedScan {
    pub open spec fn wf(self, key: Seq<u8>) -> bool {
        forall|i: int| 0 <= i < self.credentials@.len() ==> #[trigger] self.credentials@[i].wf(key)
    }

    /// The plaintext scan the sealed scan stands for.
    pub open spec fn model(self) -> ScanModel {
        ScanModel {
            scan_id: self.scan_id@,
            hosts: self.hosts.deep_view(),
            vts: self.vts.deep_view(),
            credentials: self.credentials@.map_values(|c: SealedCredential| c.model()),
            preferences: self.preferences.deep_view(),
        }
    }
}

/// Clones a vector of strings.
pub fn clone_strings(v: &Vec<String>) -> (r: Vec<String>)
    ensures
        r.deep_view() == v.deep_view(),
{
    let mut r: Vec<String> = Vec::new();
    proof {
        assert(r.deep_view() =~= v.deep_view().subrange(0, 0));
    }
    let mut i: usize = 0;
    while i < v.len()
        invariant
            i <= v@.len(),
            r@.len() == i,
            r.deep_view() == v.deep_view().subrange(0, i as int),
        decreases v@.len() - i,
    {
        r.push(v[i].clone());
        proof {
            assert(r.deep_view() =~= v.deep_view().subrange(0, i + 1 as int));
        }
        i = i + 1;
    }
    proof {
        assert(v.deep_view().subrange(0, v.deep_view().len() as int) =~= v.deep_view());
    }
    r
}

/// Clones a vector of VTs.
pub fn clone_vts(v: &Vec<Vt>) -> (r: Vec<Vt>)
    ensures
        r.deep_view() == v.deep_view(),
{
    let mut r: Vec<Vt> = Vec::new();
    proof {
        assert(r.deep_view() =~= v.deep_view().subrange(0, 0));
    }
    let mut i: usize = 0;
    while i < v.len()
        invariant
            i <= v@.len(),
            r@.len() == i,
            r.deep_view() == v.deep_view().subrange(0, i as int),
        decreases v@.len() - i,
    {
        let vt = &v[i];
        let mut parameters: Vec<VtParameter> = Vec::new();
        proof {
            assert(parameters.deep_view() =~= vt.parameters.deep_view().subrange(0, 0));
        }
        let mut j: usize = 0;
        while j < vt.parameters.len()
            invariant
                j <= vt.parameters@.len(),
                parameters@.len() == j,
                parameters.deep_view() == vt.parameters.deep_view().subrange(0, j as int),
            decreases vt.parameters@.len() - j,
        {
            let p = &vt.parameters[j];
            parameters.push(VtParameter { id: p.id, value: p.value.clone() });
            proof {
                assert(parameters.deep_view() =~= vt.parameters.deep_view().subrange(
                    0,
                    j + 1 as int,
                ));
            }
            j = j + 1;
        }
        proof {
            assert(vt.parameters.deep_view().subrange(
                0,
                vt.parameters.deep_view().len() as int,
            ) =~= vt.parameters.deep_view());
        }
        r.push(Vt { oid: vt.oid.clone(), parameters });
        proof {
            assert(r.deep_view() =~= v.deep_view().subrange(0, i + 1 as int));
        }
        i = i + 1;
    }
    proof {
        assert(v.deep_view().subrange(0, v.deep_view().len() as int) =~= v.deep_view());
    }
    r
}

/// Clones a vector of preferences.
pub fn clone_preferences(v: &Vec<Preference>) -> (r: Vec<Preference>)
    ensures
        r.deep_view() == v.deep_view(),
{
    let mut r: Vec<Preference> = Vec::new();
    proof {
        assert(r.deep_view() =~= v.deep_view().subrange(0, 0));
    }
    let mut i: usize = 0;
    while i < v.len()
        invariant
            i <= v@.len(),
            r@.len() == i,
            r.deep_view() == v.deep_view().subrange(0, i as int),
        decreases v@.len() - i,
    {
        let p = &v[i];
        r.push(Preference { key: p.key.clone(), value: p.value.clone() });
        proof {
            assert(r.deep_view() =~= v.deep_view().subrange(0, i + 1 as int));
        }
        i = i + 1;
    }
    proof {
        assert(v.deep_view().subrange(0, v.deep_view().len() as int) =~= v.deep_view());
    }
    r
}

impl SealedScan {
    /// Seals every secret field of a scan, consuming it. Fails exactly when
    /// a secret field is too long to seal.
    pub fn seal(key: &[u8], scan: Scan) -> (r: Option<SealedScan>)
        requires
            key@.len() == KEY_LEN,
        ensures
            r matches Some(e) ==> e.wf(key@) && e.model() == scan@,
            r is None ==> !scan_sealable(scan@),
    {
        let ghost m0 = scan@;
        let Scan { scan_id, hosts, vts, credentials, preferences } = scan;
        let ghost creds0 = credentials.deep_view();
        proof {
            assert(m0.credentials == creds0);
        }
        let mut sealed: Vec<SealedCredential> = Vec::new();
        let mut i: usize = 0;
        while i < credentials.len()
            invariant
                key@.len() == KEY_LEN,
                i <= credentials@.len(),
                credentials.deep_view() == creds0,
                m0.credentials == creds0,
                scan@ == m0,
                sealed@.len() == i as int,
                forall|k: int| 0 <= k < i as int ==> #[trigger] sealed@[k].wf(key@),
                forall|k: int| 0 <= k < i as int ==> #[trigger] sealed@[k].model() == creds0[k],
            decreases credentials@.len() - i,
        {
            let c = &credentials[i];
            let credential_type = match SealedCredentialType::seal(key, &c.credential_type) {
                Some(e) => e,
                None => {
                    proof {
                        assert(!cred_sealable(creds0[i as int].credential_type));
                        assert(cred_sealable(m0.credentials[i as int].credential_type)
                            == cred_sealable(creds0[i as int].credential_type));
                        assert(!scan_sealable(m0));
                    }
                    return None;
                },
            };
            sealed.push(
                SealedCredential { service: c.service, port: c.port, credential_type },
            );
            i = i + 1;
        }
        let r = SealedScan { scan_id, hosts, vts, preferences, credentials: sealed };
        proof {
            assert(r.model().credentials =~= creds0);
        }
        Some(r)
    }

    /// Opens the sealed scan into a plaintext scan, for the scanner's eyes
    /// only.
    pub fn open_scan(&self, key: &[u8]) -> (r: Scan)
        requires
            key@.len() == KEY_LEN,
            self.wf(key@),
        ensures
            r@ == self.model(),
    {
        let mut credentials: Vec<Credential> = Vec::new();
        proof {
            assert(credentials.deep_view() =~= self.credentials@.map_values(
                |c: SealedCredential| c.model(),
            ).subrange(0, 0));
        }
        let mut i: usize = 0;
        while i < self.credentials.len()
            invariant
                key@.len() == KEY_LEN,
                self.wf(key@),
                i <= self.credentials@.len(),
                credentials@.len() == i,
                credentials.deep_view() == self.credentials@.map_values(
                    |c: SealedCredential| c.model(),
                ).subrange(0, i as int),
            decreases self.credentials@.len() - i,
        {
            let c = &self.credentials[i];
            proof {
                assert(self.credentials@[i as int].wf(key@));
            }
            credentials.push(
                Credential {
                    service: c.service,
                    port: c.port,
                    credential_type: c.credential_type.open_all(key),
                },
            );
            proof {
                assert(credentials.deep_view() =~= self.credentials@.map_values(
                    |c: SealedCredential| c.model(),
                ).subrange(0, i + 1 as int));
            }
            i = i + 1;
        }
        let r = Scan {
            scan_id: self.scan_id.clone(),
            hosts: clone_strings(&self.hosts),
            vts: clone_vts(&self.vts),
            credentials,
            preferences: clone_preferences(&self.preferences),
        };
        proof {
            let m = self.credentials@.map_values(|c: SealedCredential| c.model());
            assert(m.subrange(0, m.len() as int) =~= m);
            assert(r@.credentials =~= m);
        }
        r
    }

    /// Builds the censored outward form of the sealed scan: every secret
    /// field is the literal `"***"`, without touching a single box.
    pub fn censored_scan(&self) -> (r: Scan)
        ensures
            r@ == self.model().censored(),
            r@.is_censored(),
    {
        let mut credentials: Vec<Credential> = Vec::new();
        let ghost target = self.model().censored().credentials;
        proof {
            assert(credentials.deep_view() =~= target.subrange(0, 0));
        }
        let mut i: usize = 0;
        while i < self.credentials.len()
            invariant
                i <= self.credentials@.len(),
                target == self.model().censored().credentials,
                target.len() == self.credentials@.len(),
                credentials@.len() == i,
                credentials.deep_view() == target.subrange(0, i as int),
            decreases self.credentials@.len() - i,
        {
            let c = &self.credentials[i];
            let credential_type = match &c.credential_type {
                SealedCredentialType::Up { .. } => CredentialType::UP {
                    username: String::from_str("***"),
                    password: String::from_str("***"),
                },
                SealedCredentialType::Usk { .. } => CredentialType::USK {
                    username: String::from_str("***"),
                    password: String::from_str("***"),
                    private_key: String::from_str("***"),
                },
                SealedCredentialType::Snmp { .. } => CredentialType::SNMP {
                    username: String::from_str("***"),
                    password: String::from_str("***"),
                    community: String::from_str("***"),
                    auth_algorithm: String::from_str("***"),
                    privacy_password: String::from_str("***"),
                    privacy_algorithm: String::from_str("***"),
                },
            };
            credentials.push(
                Credential { service: c.service, port: c.port, credential_type },
            );
            proof {
                assert(credentials.deep_view() =~= target.subrange(0, i + 1 as int));
            }
            i = i + 1;
        }
        let r = Scan {
            scan_id: self.scan_id.clone(),
            hosts: clone_strings(&self.hosts),
            vts: clone_vts(&self.vts),
            credentials,
            preferences: clone_preferences(&self.preferences),
        };
        proof {
            assert(target.subrange(0, target.len() as int) =~= target);
            assert(r@ =~= self.model().censored());
        }
        r
    }
}

/// One result, sealed into one cipher frame, with the finding it encodes as
/// its ghost model.
pub struct SealedResult {
    pub frame: Frame,
    pub model: Ghost<crate::scan::ResultModel>,
}

impl SealedResult {
    /// The frame is a well-formed seal of the encoded model, and the model
    /// fits a frame.
    pub open spec fn wf(self, key: Seq<u8>) -> bool {
        &&& self.frame.wf(key)
        &&& self.frame.plain@ == spec_encode_result(self.model@)
        &&& result_fits(self.model@)
    }

    /// Seals one result under the given identifier. Fails exactly when a
    /// string field of the result is too long for a frame.
    pub fn seal(key: &[u8], r: &ScanResult, id: usize) -> (res: Option<SealedResult>)
        requires
            key@.len() == KEY_LEN,
        ensures
            res matches Some(s) ==> s.wf(key@) && s.model@ == r@.with_id(id as int),
            res is None ==> !result_fits(r@),
    {
        let bytes = match encode_result(r) {
            Some(b) => b,
            None => {
                return None;
            },
        };
        let frame = match Frame::seal(key, bytes.as_slice()) {
            Some(f) => f,
            None => {
                proof {
                    assert(false);
                }
                return None;
            },
        };
        proof {
            assert(spec_encode_result(r@.with_id(id as int)) =~= spec_encode_result(r@));
        }
        Some(SealedResult { frame, model: Ghost(r@.with_id(id as int)) })
    }
}

/// Where one result's frame lies in the ciphertext stream of a result log.
#[derive(Clone, Copy, Debug, PartialEq, Eq, Structural)]
pub struct FrameSpan {
    pub off: usize,
    pub len: usize,
}

/// The sealed, append-only result log of one scan: a single ciphertext
/// stream holding one frame per result, and an index vector mapping each
/// result identifier to the offset and length of its frame. A read decrypts
/// only the frames it asks for.
pub struct ResultLog {
    pub data: Vec<u8>,
    pub index: Vec<FrameSpan>,
    pub models: Ghost<Seq<crate::scan::ResultModel>>,
}

impl ResultLog {
    /// Every indexed frame lies inside the stream and seals the encoding of
    /// its model finding, whose identifier is its position in the log.
    pub open spec fn wf(self, key: Seq<u8>) -> bool {
        &&& self.index@.len() == self.models@.len()
        &&& forall|i: int|
            0 <= i < self.index@.len() ==> {
                let sp = #[trigger] self.index@[i];
                &&& sp.off + sp.len <= self.data@.len()
                &&& crate::crypt::sealed_bytes_wf(
                    key,
                    self.data@.subrange(sp.off as int, sp.off + sp.len),
                    spec_encode_result(self.models@[i]),
                )
                &&& result_fits(self.models@[i])
                &&& self.models@[i].id == i
            }
    }

    /// An empty log, well formed under any key.
    pub fn empty() -> (r: ResultLog)
        ensures
            r.models@ == Seq::<crate::scan::ResultModel>::empty(),
            forall|key: Seq<u8>| r.wf(key),
    {
        ResultLog { data: Vec::new(), index: Vec::new(), models: Ghost(Seq::empty()) }
    }

    /// The number of results in the log.
    pub fn len(&self) -> (r: usize)
        requires
            exists|key: Seq<u8>| self.wf(key),
        ensures
            r == self.models@.len(),
    {
        self.index.len()
    }

    /// Appends one sealed result's frame to the stream and indexes it.
    pub fn push_frame(&mut self, Ghost(key): Ghost<Seq<u8>>, sealed: SealedResult)
        requires
            old(self).wf(key),
            sealed.wf(key),
            sealed.model@.id == old(self).models@.len(),
        ensures
            final(self).wf(key),
            final(self).models@ == old(self).models@.push(sealed.model@),
            final(self).data@.len() == old(self).data@.len() + sealed.frame.data@.len(),
    {
        let ghost data0 = self.data@;
        let off = self.data.len();
        let len = sealed.frame.data.len();
        let mut d = sealed.frame.data;
        let ghost frame_bytes = d@;
        self.data.append(&mut d);
        self.index.push(FrameSpan { off, len });
        proof {
            self.models@ = self.models@.push(sealed.model@);
        }
        proof {
            assert forall|i: int| 0 <= i < self.index@.len() implies {
                let sp = #[trigger] self.index@[i];
                &&& sp.off + sp.len <= self.data@.len()
                &&& crate::crypt::sealed_bytes_wf(
                    key,
                    self.data@.subrange(sp.off as int, sp.off + sp.len),
                    spec_encode_result(self.models@[i]),
                )
                &&& result_fits(self.models@[i])
                &&& self.models@[i].id == i
            } by {
                let sp = self.index@[i];
                if i < old(self).index@.len() {
                    assert(sp == old(self).index@[i]);
                    assert(self.data@.subrange(sp.off as int, sp.off + sp.len) =~= data0.subrange(
                        sp.off as int,
                        sp.off + sp.len,
                    ));
                } else {
                    assert(sp == (FrameSpan { off, len }));
                    assert(self.data@.subrange(sp.off as int, sp.off + sp.len) =~= frame_bytes);
                }
            }
        }
    }

    /// Opens and decodes the single result at `i`, restoring its identifier
    /// from its position. Only this result's frame is decrypted.
    pub fn read_one(&self, key: &[u8], i: usize) -> (r: ScanResult)
        requires
            key@.len() == KEY_LEN,
            self.wf(key@),
            i < self.models@.len(),
        ensures
            r@ == self.models@[i as int],
    {
        let sp = self.index[i];
        let dlen = self.data.len();
        proof {
            assert(sp == self.index@[i as int]);
            assert(sp.off + sp.len <= dlen);
        }
        let bytes = crate::crypt::copy_range(self.data.as_slice(), sp.off, sp.off + sp.len);
        let plain = crate::crypt::open_sealed(
            key,
            bytes.as_slice(),
            Ghost(spec_encode_result(self.models@[i as int])),
        );
        proof {
            lemma_result_codec_roundtrip(self.models@[i as int]);
        }
        match decode_result(plain.as_slice(), i) {
            Some(r) => r,
            None => vstd::pervasive::unreached(),
        }
    }
}

} // verus!
