//! What every operation is handed: the configuration and the store.

use vstd::prelude::*;

use crate::models::MailStore;

verus! {

/// The process-wide configuration.
pub struct Configuration {
    version: String,
}

impl Configuration {
    pub fn new(version: String) -> (r: Self)
        ensures
            r.version_spec() == version@,
    {
        Configuration { version }
    }

    pub closed spec fn version_spec(&self) -> Seq<char> {
        self.version@
    }

    /// The version of the service.
    pub fn version(&self) -> (r: &str)
        ensures
            r@ == self.version_spec(),
    {
        self.version.as_str()
    }
}

/// The state shared by the operations: the configuration and the store.
pub struct AppState {
    pub config: Configuration,
    pub store: MailStore,
}

impl AppState {
    pub fn new(config: Configuration, store: MailStore) -> (r: Self)
        ensures
            r.config == config,
            r.store == store,
    {
        Self { config, store }
    }
}

} // verus!
