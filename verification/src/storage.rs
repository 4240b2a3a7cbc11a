//! The persisted configuration's value type. Reading and writing it to
//! disk is the caller's work; the defaults are pinned here.

use vstd::prelude::*;
use vstd::string::StringExecFns;

verus! {

/// The player's configuration: the control port and, when scrobbling is
/// wanted, the listening service's credentials.
pub struct PjpConfig {
    pub port: String,
    pub last_fm_api_key: Option<String>,
    pub last_fm_username: Option<String>,
    pub last_fm_password: Option<String>,
    pub last_fm_secret_key: Option<String>,
}

impl Default for PjpConfig {
    /// The stock configuration: the default port, no credentials.
    fn default() -> (c: PjpConfig)
        ensures
            c.port@ == "7878"@,
            c.last_fm_api_key is None,
            c.last_fm_username is None,
            c.last_fm_password is None,
            c.last_fm_secret_key is None,
    {
        PjpConfig {
            port: String::from_str("7878"),
            last_fm_api_key: None,
            last_fm_username: None,
            last_fm_password: None,
            last_fm_secret_key: None,
        }
    }
}

} // verus!
