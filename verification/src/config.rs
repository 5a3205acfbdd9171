//! The user configuration: an optional scan root and an optional
//! compression level.  Reading the configuration file is the shell's
//! business; the defaults live here.

use vstd::prelude::*;

verus! {

/// The configuration as the user wrote it.
pub struct Config {
    pub scan: Option<String>,
    pub compression_level: Option<i32>,
}

impl Config {
    /// The compression level to use: the configured one, or 15.
    pub fn effective_compression_level(&self) -> (r: i32)
        ensures
            r == match self.compression_level {
                Some(l) => l,
                None => 15i32,
            },
    {
        match self.compression_level {
            Some(l) => l,
            None => 15,
        }
    }
}

} // verus!
