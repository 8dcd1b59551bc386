//! The process-wide service configuration: storage location, bind address,
//! batch ceiling and log verbosity, with its validation rules and the
//! field-by-field console edit operation.

use vstd::prelude::*;

use crate::bind_addr::{
    addr_split, dec_value_of_split, is_socket_addr, is_valid_socket_addr, parse_bind_addr,
    valid_dotted_quad, BindAddress,
};
use crate::chars::{eq_ignore_ascii_case, eq_ignore_case};
use crate::errors::ValidationError;

verus! {

/// The configuration every request reads. Owned by the configuration
/// manager; replaced wholesale on update, never mutated field by field.
#[derive(Debug, Clone, PartialEq, Eq)]
pub struct ServiceConfig {
    pub db_path: String,
    pub bind_address: String,
    /// Reserved field; not used for authentication.
    pub api_key: String,
    pub log_level: String,
    pub batch_size_limit: u32,
}

/// A configuration the manager accepts: a strictly positive batch ceiling
/// and a bind address the platform parser accepts.
pub open spec fn valid_config(c: ServiceConfig) -> bool {
    c.batch_size_limit > 0 && is_socket_addr(c.bind_address@)
}

/// The validation verdict, with the first failing rule's error: a zero batch
/// ceiling is reported before a malformed bind address.
pub open spec fn validate_spec(c: ServiceConfig) -> Result<(), ValidationError> {
    if c.batch_size_limit == 0 {
        Err(ValidationError::ZeroBatchLimit)
    } else if !is_socket_addr(c.bind_address@) {
        Err(ValidationError::InvalidBindAddress)
    } else {
        Ok(())
    }
}

impl ServiceConfig {
    /// Check the critical fields: the batch ceiling must be strictly
    /// positive and the bind address must parse.
    pub fn validate(&self) -> (r: Result<(), ValidationError>)
        ensures
            r == validate_spec(*self),
            r is Ok <==> valid_config(*self),
    {
        if self.batch_size_limit == 0 {
            return Err(ValidationError::ZeroBatchLimit);
        }
        if is_valid_socket_addr(self.bind_address.as_str()) {
            Ok(())
        } else {
            Err(ValidationError::InvalidBindAddress)
        }
    }

    /// The decomposed form of the bind address, when it is a dotted-quad
    /// IPv4 address with a port.
    pub fn parsed_bind_address(&self) -> (r: Option<BindAddress>)
        ensures
            r is Some <==> valid_dotted_quad(self.bind_address@),
            r matches Some(addr) ==> (exists|i: int, j: int, k: int, l: int|
                addr_split(self.bind_address@, i, j, k, l) && dec_value_of_split(
                    self.bind_address@,
                    i,
                    j,
                    k,
                    l,
                    addr,
                )),
    {
        parse_bind_addr(self.bind_address.as_str())
    }
}

impl Default for ServiceConfig {
    /// The built-in configuration: the bundled storage path, all-interfaces
    /// binding on port 3000, no key, `info` logging, a ceiling of 1000.
    /// Whether the platform accepts the built-in address is `validate`'s
    /// business, as for any other configuration.
    fn default() -> (c: Self)
        ensures
            c.db_path@ == "data/uid_phone_map.db"@,
            c.bind_address@ == "0.0.0.0:3000"@,
            c.api_key@ == ""@,
            c.log_level@ == "info"@,
            c.batch_size_limit == 1000,
    {
        ServiceConfig {
            db_path: "data/uid_phone_map.db".to_owned(),
            bind_address: "0.0.0.0:3000".to_owned(),
            api_key: "".to_owned(),
            log_level: "info".to_owned(),
            batch_size_limit: 1000,
        }
    }
}

/// A recognized log verbosity word, compared without regard to ASCII case.
pub open spec fn valid_log_level(s: Seq<char>) -> bool {
    eq_ignore_case(s, "info"@) || eq_ignore_case(s, "debug"@)
}

/// The canonical, lower-case form of a log level, or `None` for a word the
/// service does not know.
pub fn normalize_log_level(input: &str) -> (r: Option<String>)
    ensures
        eq_ignore_case(input@, "info"@) ==> (r matches Some(s) && s@ == "info"@),
        !eq_ignore_case(input@, "info"@) && eq_ignore_case(input@, "debug"@) ==> (r matches Some(s)
            && s@ == "debug"@),
        !valid_log_level(input@) ==> r is None,
{
    if eq_ignore_ascii_case(input, "info") {
        Some("info".to_owned())
    } else if eq_ignore_ascii_case(input, "debug") {
        Some("debug".to_owned())
    } else {
        None
    }
}

/// Whether a configuration's log level asks for debug output.
pub fn is_debug_level(level: &str) -> (r: bool)
    ensures
        r == eq_ignore_case(level@, "debug"@),
{
    eq_ignore_ascii_case(level, "debug")
}

/// Apply the console's optional edits to a configuration, field by field: a
/// new bind address is taken only if the platform parser accepts it, a new
/// batch ceiling only if strictly positive, a new log level only if
/// recognized; a rejected or absent edit leaves its field as it was. The
/// storage path is taken as given: switching it through the schema check is
/// the configuration manager's business. The result must still pass
/// `validate` before it supersedes the live configuration.
pub fn apply_config_edits(
    base: &ServiceConfig,
    db_path: Option<String>,
    bind_address: Option<String>,
    batch_size_limit: Option<u32>,
    log_level: Option<String>,
) -> (c: ServiceConfig)
    ensures
        db_path matches Some(p) ==> c.db_path == p,
        db_path is None ==> c.db_path == base.db_path,
        bind_address matches Some(a) ==> (if is_socket_addr(a@) {
            c.bind_address == a
        } else {
            c.bind_address == base.bind_address
        }),
        bind_address is None ==> c.bind_address == base.bind_address,
        batch_size_limit matches Some(n) ==> (if n > 0 {
            c.batch_size_limit == n
        } else {
            c.batch_size_limit == base.batch_size_limit
        }),
        batch_size_limit is None ==> c.batch_size_limit == base.batch_size_limit,
        log_level matches Some(l) ==> (if eq_ignore_case(l@, "info"@) {
            c.log_level@ == "info"@
        } else if eq_ignore_case(l@, "debug"@) {
            c.log_level@ == "debug"@
        } else {
            c.log_level == base.log_level
        }),
        log_level is None ==> c.log_level == base.log_level,
        c.api_key == base.api_key,
{
    let mut c = ServiceConfig {
        db_path: base.db_path.clone(),
        bind_address: base.bind_address.clone(),
        api_key: base.api_key.clone(),
        log_level: base.log_level.clone(),
        batch_size_limit: base.batch_size_limit,
    };
    match db_path {
        Some(p) => {
            c.db_path = p;
        },
        None => {},
    }
    match bind_address {
        Some(a) => {
            if is_valid_socket_addr(a.as_str()) {
                c.bind_address = a;
            }
        },
        None => {},
    }
    match batch_size_limit {
        Some(n) => {
            if n > 0 {
                c.batch_size_limit = n;
            }
        },
        None => {},
    }
    match log_level {
        Some(l) => {
            match normalize_log_level(l.as_str()) {
                Some(canonical) => {
                    c.log_level = canonical;
                },
                None => {},
            }
        },
        None => {},
    }
    c
}

} // verus!
