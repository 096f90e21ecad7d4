//! The drivers: the plan of a whole copy operation and of the single-file
//! fast path, and a worker's dispatch of one dequeued work item.

use vstd::prelude::*;
use vstd::string::StringSliceAdditionalSpecFns;
use crate::config::{slice_eq, Config};
use crate::errors::Error;
use crate::feedback::StatusUpdate;
use crate::operations::{
    tree_walker, walk_contract, FileKind, Operation, WalkOutcome, WalkSource,
};
use crate::paths::{bytes_clone, FsPath};

verus! {

/// What the single-file fast path must do for its one source.
#[derive(Debug, PartialEq, Eq)]
pub enum SingleAction {
    /// Open the file and drive the copy state machine.
    CopyFile,
    /// Recreate the symbolic link with this stored target, byte for byte.
    MakeLink(Vec<u8>),
    /// Remove the existing destination entry, then recreate the node.
    ReplaceSpecial,
    /// Recreate the node.
    MakeSpecial,
}

/// What a worker must do for one dequeued operation.
pub enum WorkerAction {
    /// Open the file and drive the copy state machine.
    StartCopy(FsPath, FsPath),
    /// Recreate the symbolic link with this stored target.
    MakeLink(Vec<u8>, FsPath),
    /// Remove the existing destination entry, then recreate the node.
    ReplaceSpecial(FsPath, FsPath),
    /// Recreate the node.
    MakeSpecial(FsPath, FsPath),
}

/// What a worker owes for one dequeued operation: the byte copy itself
/// then runs through the copy state machine; a link's stored target
/// passes through unchanged, byte for byte; a pre-existing destination of
/// a special file fails under no-clobber and is replaced otherwise.
pub open spec fn worker_contract(
    cfg: Config,
    op: Operation,
    dest_exists: bool,
    r: Result<WorkerAction, Error>,
) -> bool {
    match op {
        Operation::Copy(f, t) => r matches Ok(a) && (a matches WorkerAction::StartCopy(f2, t2)
            && f2@ == f@ && t2@ == t@),
        Operation::Link(lt, t) => r matches Ok(a) && (a matches WorkerAction::MakeLink(lt2, t2)
            && lt2@ == lt@ && t2@ == t@),
        Operation::Special(f, t) => {
            if dest_exists && cfg.no_clobber {
                r matches Err(e) && (e matches Error::DestinationExists(p) && p@ == t@)
            } else if dest_exists {
                r matches Ok(a) && (a matches WorkerAction::ReplaceSpecial(f2, t2) && f2@ == f@
                    && t2@ == t@)
            } else {
                r matches Ok(a) && (a matches WorkerAction::MakeSpecial(f2, t2) && f2@ == f@
                    && t2@ == t@)
            }
        },
    }
}

/// Decide a worker's reaction to one dequeued operation.
pub fn copy_worker_step(op: Operation, dest_exists: bool, cfg: &Config) -> (r: Result<
    WorkerAction,
    Error,
>)
    ensures
        worker_contract(*cfg, op, dest_exists, r),
{
    match op {
        Operation::Copy(f, t) => Ok(WorkerAction::StartCopy(f, t)),
        Operation::Link(lt, t) => Ok(WorkerAction::MakeLink(lt, t)),
        Operation::Special(f, t) => {
            if dest_exists {
                if cfg.no_clobber {
                    Err(Error::DestinationExists(t))
                } else {
                    Ok(WorkerAction::ReplaceSpecial(f, t))
                }
            } else {
                Ok(WorkerAction::MakeSpecial(f, t))
            }
        },
    }
}

/// What a worker does when one file's copy fails: surface the failure to
/// the observer, then abort the worker with the original error, which
/// fails the whole operation on join.
pub struct FailureReport {
    /// The update to send to the observer first.
    pub update: StatusUpdate,
    /// The error to abort the worker with.
    pub error: Error,
}

/// Decide a worker's reaction to a failed file copy.
pub fn copy_failure_report(e: Error) -> (r: FailureReport)
    ensures
        r.error == e,
        r.update matches StatusUpdate::Error(e2) && e2 is CopyError,
{
    let msg = e.describe();
    FailureReport { update: StatusUpdate::Error(Error::CopyError(msg)), error: e }
}

/// What the single-file fast path owes for each kind of source: a state
/// machine copy for a regular file, the link itself for a symbolic link,
/// a failure for a directory, clobber handling for special files, and a
/// refusal of kinds the copier does not understand.
pub open spec fn single_contract(
    cfg: Config,
    kind: FileKind,
    source: Seq<Seq<u8>>,
    dest: Seq<Seq<u8>>,
    link_target: Seq<u8>,
    dest_exists: bool,
    r: Result<SingleAction, Error>,
) -> bool {
    match kind {
        FileKind::File => r == Ok::<SingleAction, Error>(SingleAction::CopyFile),
        FileKind::Symlink => r matches Ok(a) && (a matches SingleAction::MakeLink(t) && t@
            == link_target),
        FileKind::Dir => (r matches Err(e) && e matches Error::InvalidArguments(_)),
        FileKind::Fifo | FileKind::Socket | FileKind::Char => {
            if dest_exists && cfg.no_clobber {
                r matches Err(e) && (e matches Error::DestinationExists(p) && p@ == dest)
            } else if dest_exists {
                r == Ok::<SingleAction, Error>(SingleAction::ReplaceSpecial)
            } else {
                r == Ok::<SingleAction, Error>(SingleAction::MakeSpecial)
            }
        },
        FileKind::Block | FileKind::Other => (r matches Err(e) && (e
            matches Error::UnknownFileType(p) && p@ == source)),
    }
}

/// A driver of the copy: plans the whole parallel operation or the
/// single-file fast path.
pub trait CopyDriver {
    spec fn cfg_spec(&self) -> Config;

    /// Plan a whole multi-source copy.
    fn copy_all(&self, sources: &Vec<WalkSource>, dest: &FsPath) -> (r: WalkOutcome)
        ensures
            walk_contract(self.cfg_spec(), sources@, dest@, r.plan@, r.result),
    ;

    /// Decide the single-source fast path, which walks nothing. For a
    /// symbolic link the caller passes the source's stored target, already
    /// read.
    fn copy_single(
        &self,
        kind: FileKind,
        source: &FsPath,
        dest: &FsPath,
        link_target: &Vec<u8>,
        dest_exists: bool,
    ) -> (r: Result<SingleAction, Error>)
        ensures
            single_contract(self.cfg_spec(), kind, source@, dest@, link_target@, dest_exists, r),
    ;
}

/// The file-parallel driver: one walker, a pool of workers.
pub struct Driver {
    pub config: Config,
}

impl Driver {
    pub fn new(config: Config) -> (r: Result<Driver, Error>)
        ensures
            r matches Ok(d) && d.config == config,
    {
        Ok(Driver { config })
    }
}

impl CopyDriver for Driver {
    open spec fn cfg_spec(&self) -> Config {
        self.config
    }

    fn copy_all(&self, sources: &Vec<WalkSource>, dest: &FsPath) -> (r: WalkOutcome) {
        tree_walker(sources, dest, &self.config)
    }

    fn copy_single(
        &self,
        kind: FileKind,
        source: &FsPath,
        dest: &FsPath,
        link_target: &Vec<u8>,
        dest_exists: bool,
    ) -> (r: Result<SingleAction, Error>) {
        match kind {
            FileKind::File => Ok(SingleAction::CopyFile),
            FileKind::Symlink => Ok(SingleAction::MakeLink(bytes_clone(link_target))),
            FileKind::Dir => Err(
                Error::InvalidArguments(
                    "attempt to copy directory in single-file operation".to_owned(),
                ),
            ),
            FileKind::Fifo | FileKind::Socket | FileKind::Char => {
                if dest_exists {
                    if self.config.no_clobber {
                        Err(Error::DestinationExists(dest.dup()))
                    } else {
                        Ok(SingleAction::ReplaceSpecial)
                    }
                } else {
                    Ok(SingleAction::MakeSpecial)
                }
            },
            FileKind::Block | FileKind::Other => Err(Error::UnknownFileType(source.dup())),
        }
    }
}

/// The driver flavours a caller can select.
#[derive(Clone, Copy, Debug, PartialEq, Eq, Structural)]
pub enum Drivers {
    Simple,
}

pub open spec fn spec_simple() -> Seq<u8> {
    seq!['s' as u8, 'i' as u8, 'm' as u8, 'p' as u8, 'l' as u8, 'e' as u8]
}

impl Drivers {
    /// Parse a driver name (exact match).
    pub fn from_str(s: &str) -> (r: Result<Drivers, Error>)
        ensures
            r == Ok::<Drivers, Error>(Drivers::Simple) <==> s.spec_bytes() == spec_simple(),
            r matches Err(e) ==> e matches Error::UnknownDriver(m) && m@ == s@,
    {
        let b = s.as_bytes();
        let mut pat: Vec<u8> = Vec::new();
        pat.push('s' as u8);
        pat.push('i' as u8);
        pat.push('m' as u8);
        pat.push('p' as u8);
        pat.push('l' as u8);
        pat.push('e' as u8);
        proof {
            assert(pat@ =~= spec_simple());
        }
        if slice_eq(b, &pat) {
            Ok(Drivers::Simple)
        } else {
            Err(Error::UnknownDriver(s.to_owned()))
        }
    }
}

} // verus!
