//! Process configuration. The embedding program reads these values from its
//! environment and hands them in; the library only carries them.

use vstd::prelude::*;

verus! {

/// What the service needs to run: the platform credentials and the listen
/// address.
#[derive(Debug, Clone, PartialEq)]
pub struct Config {
    pub channel_access_token: String,
    pub channel_secret: String,
    pub port: u16,
    pub host: String,
}

} // verus!
