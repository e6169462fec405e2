//! The server side of a channel, as far as directories are concerned.
use vstd::prelude::*;

verus! {

/// A channel on which remote directories are looked at and made.
pub trait SftpLike {
    /// Whether there is a file at a path; an error where there is nothing.
    fn stat_is_file(&mut self, p: &str) -> Result<bool, String>;

    /// Makes a directory with these permissions.
    fn mkdir(&mut self, p: &str, mode: i32) -> Result<(), String>;
}

} // verus!
