//! The copier's error taxonomy.

use vstd::prelude::*;
use crate::paths::FsPath;

verus! {

/// Everything that can end a copy operation early.
#[derive(Debug)]
pub enum Error {
    /// A source path has no last component.
    InvalidSource,
    /// Caller misuse, such as a directory handed to the single-file path.
    InvalidArguments(String),
    /// The destination exists and overwriting is disabled.
    DestinationExists(FsPath),
    /// An entry is a block device or of a kind the copier does not accept.
    UnknownFileType(FsPath),
    /// The filesystem declined a clone that the configuration demanded.
    ReflinkFailed,
    /// An I/O failure during the byte copy, or a torn-down status channel.
    CopyError(String),
    /// The walker terminated the run deliberately.
    EarlyShutdown,
    /// A driver name that the crate does not know.
    UnknownDriver(String),
}

impl Error {
    /// A short fixed description of the error kind.
    pub fn describe(&self) -> (r: String)
        ensures
            r@.len() > 0,
    {
        let s: &str = match self {
            Error::InvalidSource => "failed to find source directory name",
            Error::InvalidArguments(_) => "invalid arguments",
            Error::DestinationExists(_) => "destination exists and no-clobber is set",
            Error::UnknownFileType(_) => "unknown file type",
            Error::ReflinkFailed => "reflink was requested but the filesystem declined",
            Error::CopyError(_) => "error during copy",
            Error::EarlyShutdown => "early shutdown",
            Error::UnknownDriver(_) => "unknown driver",
        };
        proof {
            reveal_strlit("failed to find source directory name");
            reveal_strlit("invalid arguments");
            reveal_strlit("destination exists and no-clobber is set");
            reveal_strlit("unknown file type");
            reveal_strlit("reflink was requested but the filesystem declined");
            reveal_strlit("error during copy");
            reveal_strlit("early shutdown");
            reveal_strlit("unknown driver");
        }
        s.to_owned()
    }
}

} // verus!
