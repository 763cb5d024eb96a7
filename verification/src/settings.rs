//! Engine configuration. Loading and saving the configuration text is the
//! embedding program's work; the library receives the plain values.

use vstd::prelude::*;

verus! {

/// Configuration of the network-domain blocking collaborator.
#[derive(Debug)]
pub struct WebSecuritySettings {
    pub blocklist_urls: Vec<String>,
    pub user_whitelist: Vec<String>,
    pub user_blacklist: Vec<String>,
    pub enable_tracker_protection: bool,
    pub enable_malware_protection: bool,
}

/// Engine configuration: store locations, the scoring endpoint, the watched
/// directory, and the extensions excluded from scanning.
#[derive(Debug)]
pub struct Settings {
    pub signature_db: String,
    pub quarantine_dir: String,
    pub ai_endpoint: String,
    pub scan_threads: u32,
    pub watch_dir: String,
    pub excluded_extensions: Vec<String>,
    pub web_security: WebSecuritySettings,
}

impl WebSecuritySettings {
    /// Should web protection be on under this configuration: either
    /// protection class enabled, or a user blacklist present.
    pub open spec fn spec_wants_protection(&self) -> bool {
        self.enable_malware_protection || self.enable_tracker_protection
            || self.user_blacklist@.len() > 0
    }

    /// Should web protection start at engine construction: either protection
    /// class enabled (a bare user blacklist does not start it).
    pub open spec fn spec_wants_protection_at_startup(&self) -> bool {
        self.enable_malware_protection || self.enable_tracker_protection
    }

    /// Decides whether web protection should be on under this configuration.
    pub fn wants_protection(&self) -> (r: bool)
        ensures
            r == self.spec_wants_protection(),
    {
        self.enable_malware_protection || self.enable_tracker_protection
            || self.user_blacklist.len() > 0
    }

    /// Decides whether web protection starts at engine construction.
    pub fn wants_protection_at_startup(&self) -> (r: bool)
        ensures
            r == self.spec_wants_protection_at_startup(),
    {
        self.enable_malware_protection || self.enable_tracker_protection
    }
}

} // verus!
