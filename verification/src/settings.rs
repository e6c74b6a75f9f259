//! Configuration settings for the storage connection: five scalar values
//! loaded once at startup from an external declarative source. The loading
//! itself is the configuration collaborator's work; the settings are held
//! here as plain values.

use vstd::prelude::*;

verus! {

/// Storage connection settings: username, password, host, port and
/// database name.
#[derive(Clone, Debug)]
pub struct Settings {
    pub username: String,
    pub password: String,
    pub host: String,
    pub port: u16,
    pub name: String,
}

impl Settings {
    /// Assemble the settings from the five scalar values the external
    /// declarative source supplies.
    pub fn new(username: String, password: String, host: String, port: u16, name: String) -> (s:
        Settings)
        ensures
            s.username@ == username@,
            s.password@ == password@,
            s.host@ == host@,
            s.port == port,
            s.name@ == name@,
    {
        Settings { username, password, host, port, name }
    }
}

} // verus!
