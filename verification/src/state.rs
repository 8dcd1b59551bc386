//! The configuration/connection manager: the single point of mutation for
//! the live service configuration. The configuration is replaced wholesale,
//! never mutated field by field, and only after validation; connections are
//! opened fresh per operation against the location live at that moment. The
//! request layer guards one value of this type behind its own
//! exclusive-access lock.

use vstd::prelude::*;

use crate::config::{valid_config, validate_spec, ServiceConfig};
use crate::errors::{StorageError, ValidationError};
use crate::storage::{has_mapping_table, open_connection, path_exists};

verus! {

/// The storage-switch verdict from the two probes. An absent target is
/// accepted speculatively; an existing one must have been opened (`probe` is
/// `None` when it could not be) and found to hold the mapping table.
pub open spec fn switch_verdict_spec(exists: bool, probe: Option<Result<bool, StorageError>>) -> Result<
    (),
    ValidationError,
> {
    if !exists {
        Ok(())
    } else {
        match probe {
            None => Err(ValidationError::StorageUnavailable),
            Some(p) => match p {
                Ok(found) => if found {
                    Ok(())
                } else {
                    Err(ValidationError::MissingMappingTable)
                },
                Err(_) => Err(ValidationError::StorageUnavailable),
            },
        }
    }
}

/// Decide a storage switch from what the filesystem check and the schema
/// probe said, for every value they can take.
pub fn switch_verdict(exists: bool, probe: Option<Result<bool, StorageError>>) -> (r: Result<
    (),
    ValidationError,
>)
    ensures
        r == switch_verdict_spec(exists, probe),
{
    if !exists {
        return Ok(());
    }
    match probe {
        None => Err(ValidationError::StorageUnavailable),
        Some(Ok(true)) => Ok(()),
        Some(Ok(false)) => Err(ValidationError::MissingMappingTable),
        Some(Err(_)) => Err(ValidationError::StorageUnavailable),
    }
}

/// The owner of the live configuration.
pub struct AppState {
    config: ServiceConfig,
}

impl AppState {
    /// The live configuration value.
    pub closed spec fn spec_config(&self) -> ServiceConfig {
        self.config
    }

    /// The manager's invariant: only a validated configuration is live.
    pub open spec fn wf(&self) -> bool {
        valid_config(self.spec_config())
    }

    /// Adopt the startup configuration; only a validated one is accepted.
    pub fn new(initial: ServiceConfig) -> (s: Self)
        requires
            valid_config(initial),
        ensures
            s.spec_config() == initial,
            s.wf(),
    {
        AppState { config: initial }
    }

    /// A copy of the live configuration; never blocks on storage.
    pub fn current_config(&self) -> (c: ServiceConfig)
        ensures
            c == self.spec_config(),
    {
        ServiceConfig {
            db_path: self.config.db_path.clone(),
            bind_address: self.config.bind_address.clone(),
            api_key: self.config.api_key.clone(),
            log_level: self.config.log_level.clone(),
            batch_size_limit: self.config.batch_size_limit,
        }
    }

    /// Replace the live configuration with one the caller has already
    /// validated. The update-and-revalidate operation is `update`.
    pub fn set_config(&mut self, new_config: ServiceConfig)
        requires
            valid_config(new_config),
        ensures
            final(self).spec_config() == new_config,
            final(self).wf(),
    {
        self.config = new_config;
    }

    /// Validate `new_config` and, only if it passes, adopt it atomically; on
    /// failure the live configuration is unchanged and the first failing
    /// rule's error comes back.
    pub fn update(&mut self, new_config: ServiceConfig) -> (r: Result<(), ValidationError>)
        ensures
            r == validate_spec(new_config),
            r is Ok <==> valid_config(new_config),
            r is Ok ==> final(self).spec_config() == new_config && final(self).wf(),
            r is Err ==> *final(self) == *old(self),
    {
        match new_config.validate() {
            Ok(()) => {
                self.config = new_config;
                Ok(())
            },
            Err(e) => Err(e),
        }
    }

    /// A fresh connection to the storage location named by the live
    /// configuration at the moment of the call; handles are never cached,
    /// pooled or shared across operations.
    pub fn get_db_connection(&self) -> (r: Result<rusqlite::Connection, StorageError>) {
        open_connection(self.config.db_path.as_str())
    }

    /// Switch the storage location at runtime. A target file that already
    /// exists must hold the mapping table, else the switch fails validation;
    /// a target that does not exist yet is accepted speculatively, the
    /// schema being created lazily on first use. On failure the live
    /// configuration, its storage location included, is unchanged.
    pub fn switch_storage_location(&mut self, path: String) -> (r: Result<(), ValidationError>)
        ensures
            r is Ok ==> final(self).spec_config() == (ServiceConfig {
                db_path: path,
                ..old(self).spec_config()
            }),
            r is Err ==> *final(self) == *old(self),
            r matches Err(e) ==> (e is MissingMappingTable || e is StorageUnavailable),
            old(self).wf() ==> final(self).wf(),
    {
        let exists = path_exists(path.as_str());
        let probe: Option<Result<bool, StorageError>> = if exists {
            match open_connection(path.as_str()) {
                Ok(conn) => Some(has_mapping_table(&conn)),
                Err(_) => None,
            }
        } else {
            None
        };
        match switch_verdict(exists, probe) {
            Ok(()) => {
                self.config.db_path = path;
                Ok(())
            },
            Err(e) => Err(e),
        }
    }
}

} // verus!
