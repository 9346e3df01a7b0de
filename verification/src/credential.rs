use vstd::prelude::*;
use vstd::string::StringExecFns;

verus! {

/// Enum of available services a credential may authenticate against.
#[derive(Clone, Copy, Debug, PartialEq, Eq, Structural)]
pub enum Service {
    /// SSH, supports the UP and USK credential types.
    SSH,
    /// SMB, supports the UP credential type.
    SMB,
    /// ESXi, supports the UP credential type.
    ESXi,
    /// SNMP, supports the SNMP credential type.
    SNMP,
}

impl Service {
    /// The lower-case name of the service, as it appears on the wire.
    pub fn as_str(&self) -> (r: &'static str)
        ensures
            *self == Service::SSH ==> r@ == "ssh"@,
            *self == Service::SMB ==> r@ == "smb"@,
            *self == Service::ESXi ==> r@ == "esxi"@,
            *self == Service::SNMP ==> r@ == "snmp"@,
    {
        match self {
            Service::SSH => "ssh",
            Service::SMB => "smb",
            Service::ESXi => "esxi",
            Service::SNMP => "snmp",
        }
    }
}

/// The kind of a credential together with its secret fields.
///
/// Every string field held by a variant is a secret: it is encrypted at rest
/// in the store and replaced by `"***"` on any outward serialization.
#[derive(Debug)]
pub enum CredentialType {
    /// User/password credentials.
    UP { username: String, password: String },
    /// User/ssh-key credentials.
    USK { username: String, password: String, private_key: String },
    /// SNMP credentials.
    SNMP {
        username: String,
        password: String,
        community: String,
        auth_algorithm: String,
        privacy_password: String,
        privacy_algorithm: String,
    },
}

/// The mathematical value of a `CredentialType`: its variant with every
/// string field as a sequence of characters.
pub enum CredentialTypeModel {
    Up { username: Seq<char>, password: Seq<char> },
    Usk { username: Seq<char>, password: Seq<char>, private_key: Seq<char> },
    Snmp {
        username: Seq<char>,
        password: Seq<char>,
        community: Seq<char>,
        auth_algorithm: Seq<char>,
        privacy_password: Seq<char>,
        privacy_algorithm: Seq<char>,
    },
}

impl CredentialTypeModel {
    /// The password field, common to all variants.
    pub open spec fn password(self) -> Seq<char> {
        match self {
            CredentialTypeModel::Up { password, .. } => password,
            CredentialTypeModel::Usk { password, .. } => password,
            CredentialTypeModel::Snmp { password, .. } => password,
        }
    }

    /// The same credential with its password replaced.
    pub open spec fn with_password(self, p: Seq<char>) -> CredentialTypeModel {
        match self {
            CredentialTypeModel::Up { username, .. } => CredentialTypeModel::Up {
                username,
                password: p,
            },
            CredentialTypeModel::Usk { username, private_key, .. } => CredentialTypeModel::Usk {
                username,
                password: p,
                private_key,
            },
            CredentialTypeModel::Snmp {
                username,
                community,
                auth_algorithm,
                privacy_password,
                privacy_algorithm,
                ..
            } => CredentialTypeModel::Snmp {
                username,
                password: p,
                community,
                auth_algorithm,
                privacy_password,
                privacy_algorithm,
            },
        }
    }

    /// True when every secret field is the literal `"***"`.
    pub open spec fn is_censored(self) -> bool {
        match self {
            CredentialTypeModel::Up { username, password } => {
                username == "***"@ && password == "***"@
            },
            CredentialTypeModel::Usk { username, password, private_key } => {
                username == "***"@ && password == "***"@ && private_key == "***"@
            },
            CredentialTypeModel::Snmp {
                username,
                password,
                community,
                auth_algorithm,
                privacy_password,
                privacy_algorithm,
            } => {
                username == "***"@ && password == "***"@ && community == "***"@
                    && auth_algorithm == "***"@ && privacy_password == "***"@
                    && privacy_algorithm == "***"@
            },
        }
    }

    /// The censored form of the credential: the same variant, every secret
    /// field replaced by `"***"`.
    pub open spec fn censored(self) -> CredentialTypeModel {
        match self {
            CredentialTypeModel::Up { .. } => CredentialTypeModel::Up {
                username: "***"@,
                password: "***"@,
            },
            CredentialTypeModel::Usk { .. } => CredentialTypeModel::Usk {
                username: "***"@,
                password: "***"@,
                private_key: "***"@,
            },
            CredentialTypeModel::Snmp { .. } => CredentialTypeModel::Snmp {
                username: "***"@,
                password: "***"@,
                community: "***"@,
                auth_algorithm: "***"@,
                privacy_password: "***"@,
                privacy_algorithm: "***"@,
            },
        }
    }
}

impl View for CredentialType {
    type V = CredentialTypeModel;

    open spec fn view(&self) -> CredentialTypeModel {
        match self {
            CredentialType::UP { username, password } => CredentialTypeModel::Up {
                username: username@,
                password: password@,
            },
            CredentialType::USK { username, password, private_key } => CredentialTypeModel::Usk {
                username: username@,
                password: password@,
                private_key: private_key@,
            },
            CredentialType::SNMP {
                username,
                password,
                community,
                auth_algorithm,
                privacy_password,
                privacy_algorithm,
            } => CredentialTypeModel::Snmp {
                username: username@,
                password: password@,
                community: community@,
                auth_algorithm: auth_algorithm@,
                privacy_password: privacy_password@,
                privacy_algorithm: privacy_algorithm@,
            },
        }
    }
}

impl CredentialType {
    /// The lower-case tag of the variant, as it appears on the wire.
    pub fn as_str(&self) -> (r: &'static str)
        ensures
            (self@ matches CredentialTypeModel::Up { .. }) ==> r@ == "up"@,
            (self@ matches CredentialTypeModel::Usk { .. }) ==> r@ == "usk"@,
            (self@ matches CredentialTypeModel::Snmp { .. }) ==> r@ == "snmp"@,
    {
        match self {
            CredentialType::UP { .. } => "up",
            CredentialType::USK { .. } => "usk",
            CredentialType::SNMP { .. } => "snmp",
        }
    }

    /// The password field of the credential, common to all variants.
    pub open spec fn password_field(self) -> String {
        match self {
            CredentialType::UP { password, .. } => password,
            CredentialType::USK { password, .. } => password,
            CredentialType::SNMP { password, .. } => password,
        }
    }

    /// Uses the given closure to transform the password of the credential,
    /// leaving every other field unchanged.
    pub fn map_password<F, E>(self, f: F) -> (r: Result<Self, E>) where
        F: FnOnce(String) -> Result<String, E>,

        requires
            forall|p: String| #[trigger] f.requires((p,)),
        ensures
            r matches Ok(c) ==> exists|p: String|
                #[trigger] f.ensures((self.password_field(),), Ok(p)) && c@ == self@.with_password(
                    p@,
                ),
            r matches Err(e) ==> f.ensures((self.password_field(),), Err(e)),
    {
        let ghost s0 = self;
        match self {
            CredentialType::UP { username, password } => match f(password) {
                Ok(password) => {
                    proof {
                        assert(f.ensures((s0.password_field(),), Ok(password)));
                    }
                    Ok(CredentialType::UP { username, password })
                },
                Err(e) => Err(e),
            },
            CredentialType::USK { username, password, private_key } => match f(password) {
                Ok(password) => {
                    proof {
                        assert(f.ensures((s0.password_field(),), Ok(password)));
                    }
                    Ok(CredentialType::USK { username, password, private_key })
                },
                Err(e) => Err(e),
            },
            CredentialType::SNMP {
                username,
                password,
                community,
                auth_algorithm,
                privacy_password,
                privacy_algorithm,
            } => match f(password) {
                Ok(password) => {
                    proof {
                        assert(f.ensures((s0.password_field(),), Ok(password)));
                    }
                    Ok(
                        CredentialType::SNMP {
                            username,
                            password,
                            community,
                            auth_algorithm,
                            privacy_password,
                            privacy_algorithm,
                        },
                    )
                },
                Err(e) => Err(e),
            },
        }
    }

    /// Builds the censored form of the credential: same variant, every secret
    /// field the literal `"***"`.
    pub fn censored(&self) -> (r: CredentialType)
        ensures
            r@ == self@.censored(),
            r@.is_censored(),
    {
        match self {
            CredentialType::UP { .. } => CredentialType::UP {
                username: String::from_str("***"),
                password: String::from_str("***"),
            },
            CredentialType::USK { .. } => CredentialType::USK {
                username: String::from_str("***"),
                password: String::from_str("***"),
                private_key: String::from_str("***"),
            },
            CredentialType::SNMP { .. } => CredentialType::SNMP {
                username: String::from_str("***"),
                password: String::from_str("***"),
                community: String::from_str("***"),
                auth_algorithm: String::from_str("***"),
                privacy_password: String::from_str("***"),
                privacy_algorithm: String::from_str("***"),
            },
        }
    }
}

/// A set of credentials used for accessing one service on a host.
#[derive(Debug)]
pub struct Credential {
    /// Service to use for accessing a host.
    pub service: Service,
    /// Port used for getting access. If missing, a standard port is used.
    pub port: Option<u16>,
    /// Kind of the credential. Different services support different kinds.
    pub credential_type: CredentialType,
}

/// The mathematical value of a `Credential`.
pub struct CredentialModel {
    pub service: Service,
    pub port: Option<u16>,
    pub credential_type: CredentialTypeModel,
}

impl View for Credential {
    type V = CredentialModel;

    open spec fn view(&self) -> CredentialModel {
        CredentialModel {
            service: self.service,
            port: self.port,
            credential_type: self.credential_type@,
        }
    }
}

impl Credential {
    /// Maps the password of the credential using the given closure.
    pub fn map_password<F, E>(self, f: F) -> (r: Result<Self, E>) where
        F: FnOnce(String) -> Result<String, E>,

        requires
            forall|p: String| #[trigger] f.requires((p,)),
        ensures
            r matches Ok(c) ==> c@.service == self@.service && c@.port == self@.port && exists|
                p: String,
            |
                #[trigger] f.ensures((self.credential_type.password_field(),), Ok(p))
                    && c@.credential_type == self@.credential_type.with_password(p@),
            r matches Err(e) ==> f.ensures((self.credential_type.password_field(),), Err(e)),
    {
        let Credential { service, port, credential_type } = self;
        match credential_type.map_password(f) {
            Ok(credential_type) => Ok(Credential { service, port, credential_type }),
            Err(e) => Err(e),
        }
    }

    /// Gets the password of the credential.
    pub fn password(&self) -> (r: &str)
        ensures
            r@ == self@.credential_type.password(),
    {
        match &self.credential_type {
            CredentialType::UP { password, .. } => password.as_str(),
            CredentialType::USK { password, .. } => password.as_str(),
            CredentialType::SNMP { password, .. } => password.as_str(),
        }
    }

    /// Builds the censored form of the credential.
    pub fn censored(&self) -> (r: Credential)
        ensures
            r@.service == self@.service,
            r@.port == self@.port,
            r@.credential_type == self@.credential_type.censored(),
            r@.credential_type.is_censored(),
    {
        Credential {
            service: self.service,
            port: self.port,
            credential_type: self.credential_type.censored(),
        }
    }
}

impl Default for Credential {
    fn default() -> (r: Self)
        ensures
            r@.service == Service::SSH,
            r@.port is None,
            r@.credential_type == (CredentialTypeModel::Up {
                username: "root"@,
                password: ""@,
            }),
    {
        proof {
            reveal_strlit("");
            assert(""@ =~= Seq::<char>::empty());
        }
        Credential {
            service: Service::SSH,
            port: None,
            credential_type: CredentialType::UP {
                username: String::from_str("root"),
                password: String::new(),
            },
        }
    }
}

} // verus!
