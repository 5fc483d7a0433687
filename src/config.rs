//! Server configuration: shape checking of what the config file held,
//! validation, and the merge of command-line overrides.
use vstd::prelude::*;
use crate::route::RouteDecl;

verus! {

pub struct TlsSettings {
    pub enable: bool,
    pub key: String,
    pub cert: String,
}

/// The one authoritative configuration of a build.
pub struct ConfigModel {
    pub host: String,
    pub tls: TlsSettings,
    pub enable_logging: bool,
    pub routes: Vec<RouteDecl>,
}

/// The TLS block as the config file gave it, each field possibly absent.
pub struct RawTls {
    pub enable: Option<bool>,
    pub key: Option<String>,
    pub cert: Option<String>,
}

/// The config file's content before its shape is checked.
pub struct RawConfig {
    pub host: Option<String>,
    pub tls: Option<RawTls>,
    pub enable_logging: Option<bool>,
    pub routes: Vec<RouteDecl>,
}

/// Values given on the command line; each one present replaces the
/// configuration's own.
pub struct Overrides {
    pub host: Option<String>,
    pub tls_key: Option<String>,
    pub tls_cert: Option<String>,
}

#[derive(PartialEq, Eq, Structural, Clone, Copy, Debug)]
pub enum InvalidReason {
    EmptyHost,
    EmptyTlsKey,
    EmptyTlsCert,
}

#[derive(PartialEq, Eq, Structural, Clone, Copy, Debug)]
pub enum ConfigError {
    /// There is no config file.
    Missing,
    /// The config file lacks a field that it must have.
    Malformed,
    /// The configuration breaks a rule.
    Invalid(InvalidReason),
}

/// The first rule that the settings break, if any.
pub open spec fn violation(host: Seq<char>, tls: bool, key: Seq<char>, cert: Seq<char>) -> Option<
    InvalidReason,
> {
    if host.len() == 0 {
        Some(InvalidReason::EmptyHost)
    } else if tls && key.len() == 0 {
        Some(InvalidReason::EmptyTlsKey)
    } else if tls && cert.len() == 0 {
        Some(InvalidReason::EmptyTlsCert)
    } else {
        None
    }
}

pub open spec fn well_shaped(raw: RawConfig) -> bool {
    &&& raw.host is Some
    &&& raw.tls matches Some(t) ==> t.enable is Some && t.key is Some && t.cert is Some
}

/// The key of the TLS block, or empty where there is none.
pub open spec fn raw_tls_key(raw: RawConfig) -> Seq<char> {
    match raw.tls {
        Some(t) => t.key->0@,
        None => Seq::empty(),
    }
}

/// The certificate of the TLS block, or empty where there is none.
pub open spec fn raw_tls_cert(raw: RawConfig) -> Seq<char> {
    match raw.tls {
        Some(t) => t.cert->0@,
        None => Seq::empty(),
    }
}

/// Whether the TLS block enables TLS; it does not where there is none.
pub open spec fn raw_tls_enable(raw: RawConfig) -> bool {
    match raw.tls {
        Some(t) => t.enable->0,
        None => false,
    }
}

/// `c` holds what the well-shaped `raw` declares.
pub open spec fn read_from(c: ConfigModel, raw: RawConfig) -> bool {
    &&& c.host@ == raw.host->0@
    &&& c.tls.enable == raw_tls_enable(raw)
    &&& c.tls.key@ == raw_tls_key(raw)
    &&& c.tls.cert@ == raw_tls_cert(raw)
    &&& c.enable_logging == (raw.enable_logging == Some(true))
    &&& c.routes == raw.routes
}

impl ConfigModel {
    /// The host is set, and TLS, where enabled, names a key and a certificate.
    pub open spec fn valid(&self) -> bool {
        violation(self.host@, self.tls.enable, self.tls.key@, self.tls.cert@) is None
    }

    /// Checks the rules on a configuration.
    pub fn validate(&self) -> (r: Result<(), ConfigError>)
        ensures
            r is Ok <==> self.valid(),
            r matches Err(e) ==> e == ConfigError::Invalid(
                violation(self.host@, self.tls.enable, self.tls.key@, self.tls.cert@)->0,
            ),
    {
        if self.host.as_str().unicode_len() == 0 {
            Err(ConfigError::Invalid(InvalidReason::EmptyHost))
        } else if self.tls.enable && self.tls.key.as_str().unicode_len() == 0 {
            Err(ConfigError::Invalid(InvalidReason::EmptyTlsKey))
        } else if self.tls.enable && self.tls.cert.as_str().unicode_len() == 0 {
            Err(ConfigError::Invalid(InvalidReason::EmptyTlsCert))
        } else {
            Ok(())
        }
    }

    /// Reads the config file's content into a configuration, without the
    /// rules: fails with `Missing` where there is no file and `Malformed`
    /// where a required field is absent. An absent TLS block means TLS
    /// disabled; an absent logging flag means logging disabled.
    pub fn from_raw(source: Option<RawConfig>) -> (r: Result<ConfigModel, ConfigError>)
        ensures
            source is None ==> r == Err::<ConfigModel, ConfigError>(ConfigError::Missing),
            source matches Some(raw) ==> {
                &&& !well_shaped(raw) ==> r == Err::<ConfigModel, ConfigError>(ConfigError::Malformed)
                &&& well_shaped(raw) ==> (r matches Ok(c) && read_from(c, raw))
            },
    {
        let raw = match source {
            None => {
                return Err(ConfigError::Missing);
            },
            Some(raw) => raw,
        };
        let host = match raw.host {
            None => {
                return Err(ConfigError::Malformed);
            },
            Some(h) => h,
        };
        let tls = match raw.tls {
            None => TlsSettings { enable: false, key: String::new(), cert: String::new() },
            Some(t) => match (t.enable, t.key, t.cert) {
                (Some(enable), Some(key), Some(cert)) => TlsSettings { enable, key, cert },
                _ => {
                    return Err(ConfigError::Malformed);
                },
            },
        };
        let enable_logging = match raw.enable_logging {
            Some(b) => b,
            None => false,
        };
        Ok(ConfigModel { host, tls, enable_logging, routes: raw.routes })
    }

    /// Reads the config file's content and checks the rules: `Missing`
    /// where there is no file, `Malformed` where a required field is absent,
    /// `Invalid` where a rule is broken.
    pub fn load(source: Option<RawConfig>) -> (r: Result<ConfigModel, ConfigError>)
        ensures
            source is None ==> r == Err::<ConfigModel, ConfigError>(ConfigError::Missing),
            source matches Some(raw) ==> {
                &&& !well_shaped(raw) ==> r == Err::<ConfigModel, ConfigError>(ConfigError::Malformed)
                &&& well_shaped(raw) ==> match violation(
                    raw.host->0@,
                    raw_tls_enable(raw),
                    raw_tls_key(raw),
                    raw_tls_cert(raw),
                ) {
                    Some(v) => r == Err::<ConfigModel, ConfigError>(ConfigError::Invalid(v)),
                    None => r matches Ok(c) && read_from(c, raw) && c.valid(),
                }
            },
    {
        let c = match ConfigModel::from_raw(source) {
            Ok(c) => c,
            Err(e) => {
                return Err(e);
            },
        };
        match c.validate() {
            Ok(()) => Ok(c),
            Err(e) => Err(e),
        }
    }
}

/// `c` is `file` with each override that is present put in its field.
pub open spec fn merged(c: ConfigModel, file: ConfigModel, ov: Overrides) -> bool {
    &&& c.host@ == (match ov.host {
        Some(h) => h@,
        None => file.host@,
    })
    &&& c.tls.key@ == (match ov.tls_key {
        Some(k) => k@,
        None => file.tls.key@,
    })
    &&& c.tls.cert@ == (match ov.tls_cert {
        Some(k) => k@,
        None => file.tls.cert@,
    })
    &&& c.tls.enable == file.tls.enable
    &&& c.enable_logging == file.enable_logging
    &&& c.routes == file.routes
}

/// Applies the command-line overrides: each present value replaces its own
/// field, and only that field.
pub fn merge(file: ConfigModel, ov: Overrides) -> (r: ConfigModel)
    ensures
        merged(r, file, ov),
{
    let ghost f = file;
    let ghost o = ov;
    let mut c = file;
    if let Some(h) = ov.host {
        c.host = h;
    }
    if let Some(k) = ov.tls_key {
        c.tls.key = k;
    }
    if let Some(k) = ov.tls_cert {
        c.tls.cert = k;
    }
    proof {
        assert(merged(c, f, o));
    }
    c
}

} // verus!
