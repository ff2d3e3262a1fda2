//! The archive handles: a Brotli file and a TAR container, each named by
//! its path.
//!
//! Creating a handle does not touch the file system.  Everything a handle's
//! operations decide — which members to collect, which entries survive a
//! rewrite, which names to derive — lives in the neighbouring modules; the
//! reads and writes themselves are performed by the driver around this
//! library.

use vstd::prelude::*;

verus! {

/// The abstraction of a Brotli archive: a single compressed file.
pub struct Brotli {
    /// The path of the compressed file.
    pub path: String,
}

impl Brotli {
    /// Create a new instance.  This method **does not** create a new
    /// Brotli archive in the file system.
    pub fn new(path: &str) -> (b: Brotli)
        ensures
            b.path@ == path@,
    {
        Brotli { path: path.to_owned() }
    }

    /// Whether this Brotli archive is already present in the file system.
    ///
    /// Relies on `std::path::Path::exists`: the answer reflects the state
    /// of the disk at the moment of the call, so nothing is promised of it.
    #[verifier::external_body]
    pub fn present(&self) -> bool {
        std::path::Path::new(self.path.as_str()).exists()
    }

    /// The path this instance operates on.
    pub fn path(&self) -> (p: &str)
        ensures
            p@ == self.path@,
    {
        self.path.as_str()
    }
}

/// The abstraction of a TAR archive: an ordered sequence of member
/// entries.
pub struct Tar {
    /// The path of the container.
    pub path: String,
}

impl Tar {
    /// Create a new instance.  This method **does not** create a new TAR
    /// archive in the file system.
    pub fn new(path: &str) -> (t: Tar)
        ensures
            t.path@ == path@,
    {
        Tar { path: path.to_owned() }
    }

    /// Whether this TAR archive is already present in the file system.
    ///
    /// Relies on `std::path::Path::exists`: the answer reflects the state
    /// of the disk at the moment of the call, so nothing is promised of it.
    #[verifier::external_body]
    pub fn present(&self) -> bool {
        std::path::Path::new(self.path.as_str()).exists()
    }

    /// The path this instance operates on.
    pub fn path(&self) -> (p: &str)
        ensures
            p@ == self.path@,
    {
        self.path.as_str()
    }
}

} // verus!
