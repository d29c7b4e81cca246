//! The service's startup options, as the process-level front end hands
//! them over.

use vstd::prelude::*;

verus! {

/// Startup options: whether cookies are marked secure, the listen
/// address and port, the data directory, and whether only the version is
/// wanted.
#[derive(Debug, Clone)]
pub struct Args {
    pub secure: bool,
    pub address: Option<String>,
    pub data_dir: Option<String>,
    pub port: u16,
    pub version: bool,
}

impl Args {
    /// Whether clients connect over https, so the session cookie must be
    /// sent as a secure cookie.
    pub fn secure(&self) -> (r: bool)
        ensures
            r == self.secure,
    {
        self.secure
    }

    /// Whether only the version should be emitted.
    pub fn show_version(&self) -> (r: bool)
        ensures
            r == self.version,
    {
        self.version
    }

    /// The data directory, if one was named.
    pub fn data_dir(&self) -> (r: Option<&str>)
        ensures
            match r {
                Some(d) => self.data_dir matches Some(s) && d@ == s@,
                None => self.data_dir is None,
            },
    {
        match &self.data_dir {
            Some(d) => Some(d.as_str()),
            None => None,
        }
    }
}

} // verus!
