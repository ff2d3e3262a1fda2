//! The command-line surface: the parsed invocation and its dispatch
//! decisions.
//!
//! The binary built on top of this library parses the command line and
//! expands the file globs; both are plain hand-offs.  What the invocation
//! means — which container format the archive path selects, and which
//! operation runs — is decided here.

use vstd::prelude::*;

use crate::error::ArchiveError;
use crate::mode::Mode;
use crate::paths::extension_of;

verus! {

/// One parsed invocation: the operation, the archive it works on, the
/// files to add, and where to unpack.
pub struct Application {
    /// The operation to perform on the considered archive.
    pub mode: Mode,
    /// The archive to interact with.
    pub archive: String,
    /// The file(s) to add to the considered archive.
    pub files: Vec<String>,
    /// The directory to unpack the archive's files into; the current
    /// working directory when omitted.
    pub destination: Option<String>,
}

/// The invocation together with the expanded list of input paths.
pub struct Logic {
    /// The invocation as parsed.
    pub cli: Application,
    /// The input paths after glob expansion, filled in by the driver.
    pub paths: Vec<String>,
}

/// The container formats the engine can drive.
#[derive(Clone, Copy, Debug, PartialEq, Eq)]
pub enum ArchiveFormat {
    /// A TAR container.
    Tar,
}

impl Application {
    /// Pairs the invocation with an empty path list, ready for the driver
    /// to expand the file globs into.
    pub fn wrap(&self) -> (l: Logic)
        ensures
            l.cli.mode == self.mode,
            l.cli.archive@ == self.archive@,
            l.cli.files@ == self.files@,
            l.cli.destination == self.destination,
            l.paths@.len() == 0,
    {
        Logic {
            cli: Application {
                mode: self.mode,
                archive: self.archive.clone(),
                files: clone_paths(&self.files),
                destination: match &self.destination {
                    Some(d) => Some(d.clone()),
                    None => None,
                },
            },
            paths: Vec::new(),
        }
    }
}

impl Logic {
    /// Which format handler serves this invocation: the archive path's
    /// extension decides, and only the TAR extension is supported.  A path
    /// without an extension, or with any other one, is a usage error.
    pub fn archive_format(&self) -> (r: Result<ArchiveFormat, ArchiveError>)
        ensures
            r == if extension_of(self.cli.archive@) == Some("tar"@) {
                Ok::<ArchiveFormat, ArchiveError>(ArchiveFormat::Tar)
            } else {
                Err::<ArchiveFormat, ArchiveError>(ArchiveError::Usage)
            },
    {
        match crate::paths::archive_extension(self.cli.archive.as_str()) {
            Some(e) => {
                if e.eq(&String::from_str("tar")) {
                    Ok(ArchiveFormat::Tar)
                } else {
                    Err(ArchiveError::Usage)
                }
            },
            None => Err(ArchiveError::Usage),
        }
    }
}

/// An element-for-element copy of a list of paths.
fn clone_paths(paths: &Vec<String>) -> (r: Vec<String>)
    ensures
        r@ == paths@,
{
    let mut r: Vec<String> = Vec::new();
    let mut i: usize = 0;
    while i < paths.len()
        invariant
            i <= paths.len(),
            r@ == paths@.take(i as int),
        decreases paths.len() - i,
    {
        r.push(paths[i].clone());
        proof {
            assert(r@ =~= paths@.take(i + 1 as int));
        }
        i += 1;
    }
    proof {
        assert(paths@.take(paths@.len() as int) =~= paths@);
    }
    r
}

} // verus!
