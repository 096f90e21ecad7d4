//! The per-file copy state machine and the tree walker's planning logic.
//!
//! Syscalls happen outside the verified core. The state machine here
//! decides, for one regular file, which operation to ask for next
//! (reflink, sparse probe, segment lookup, byte copy) and folds each
//! outcome back into its state; the caller performs the operations and
//! reports what happened.

use vstd::prelude::*;
use crate::config::{Config, Reflink};
use crate::errors::Error;
use crate::feedback::{forwarded_count, lemma_copied_event_bounds, sum_chunks, StatusUpdate, StatusUpdater};
use crate::paths::{bytes_clone, empty_path, FsPath};

verus! {

/// Classification of a directory entry, from the OS file-mode bits.
#[derive(Clone, Copy, Debug, PartialEq, Eq, Structural)]
pub enum FileKind {
    File,
    Symlink,
    Dir,
    Fifo,
    Socket,
    Char,
    Block,
    Other,
}

/// One unit of work handed from the walker to a copy worker. A work item
/// never names a directory: the walker materialises directories itself.
pub enum Operation {
    /// Copy a regular file.
    Copy(FsPath, FsPath),
    /// Recreate a symbolic link; the stored target has already been read.
    Link(Vec<u8>, FsPath),
    /// Recreate a FIFO, socket or character device.
    Special(FsPath, FsPath),
}

/// Where the state machine for one file stands.
#[derive(Clone, Copy, Debug, PartialEq, Eq, Structural)]
pub enum CopyPhase {
    /// Waiting for the outcome of a clone attempt.
    AwaitReflink,
    /// Waiting for the sparseness heuristic.
    AwaitProbe,
    /// Waiting for the next data run of a sparse source.
    AwaitSegments,
    /// Waiting for the next slice of bytes to land.
    Copying,
    /// The file is fully copied.
    Done,
    /// The file failed; nothing further may be asked.
    Failed,
}

/// Which strategy the machine settled on.
#[derive(Clone, Copy, Debug, PartialEq, Eq, Structural)]
pub enum CopyMode {
    Undecided,
    Reflinked,
    Sparse,
    Dense,
}

/// What the caller must do next for this file.
#[derive(Clone, Copy, Debug, PartialEq, Eq, Structural)]
pub enum CopyAction {
    /// Attempt a copy-on-write clone of the whole file.
    TryReflink,
    /// Ask whether the source is probably sparse.
    ProbeSparse,
    /// Look up the next data run at or after this offset.
    NextSegments(u64),
    /// Copy at most this many bytes at the current offsets.
    CopyBytes(u64),
    /// The file is complete; this was its length.
    Finish(u64),
    /// The file failed; release the descriptors.
    Abort,
}

/// Per-file copy state: the length captured at open time, the shared
/// configuration, and the progress of the chosen strategy. The caller owns
/// the descriptors; this machine owns every decision about them.
pub struct CopyHandle {
    /// Source length at open time.
    pub len: u64,
    pub config: Config,
    pub phase: CopyPhase,
    pub mode: CopyMode,
    /// Next position to probe for data runs (sparse strategy).
    pub pos: u64,
    /// Bytes still to copy in the current run.
    pub run_remaining: u64,
    /// Bytes copied so far, over all runs.
    pub written: u64,
    /// Every `Copied` update emitted for this file, in order.
    pub copied_log: Ghost<Seq<u64>>,
}

impl CopyHandle {
    /// The machine's invariant: the emitted updates account exactly for
    /// the written bytes, and each phase's bookkeeping is consistent.
    pub open spec fn wf(&self) -> bool {
        &&& self.config.block_size >= 1
        &&& sum_chunks(self.copied_log@) == self.written
        &&& forall|i: int|
            0 <= i < self.copied_log@.len() ==> 1 <= #[trigger] self.copied_log@[i]
                <= self.config.block_size
        &&& self.written <= self.len
        &&& (self.config.reflink is Never ==> !(self.phase is AwaitReflink))
        &&& match self.phase {
            CopyPhase::AwaitReflink => self.mode is Undecided && self.written == 0
                && self.copied_log@.len() == 0,
            CopyPhase::AwaitProbe => self.mode is Undecided && self.written == 0
                && self.copied_log@.len() == 0,
            CopyPhase::AwaitSegments => self.mode is Sparse && self.written <= self.pos
                && self.pos < self.len,
            CopyPhase::Copying => {
                &&& self.run_remaining >= 1
                &&& (self.mode is Dense || self.mode is Sparse)
                &&& (self.mode is Dense ==> self.written + self.run_remaining == self.len)
                &&& (self.mode is Sparse ==> self.written + self.run_remaining <= self.pos
                    && self.pos <= self.len)
            },
            CopyPhase::Done => {
                &&& (self.mode is Reflinked || self.mode is Sparse || self.mode is Dense)
                &&& (self.mode is Dense ==> self.written == self.len)
                &&& (self.mode is Reflinked ==> self.written == 0 && self.copied_log@.len()
                    == 0)
            },
            CopyPhase::Failed => true,
        }
    }

    /// What the caller must do next, as a function of the state.
    pub open spec fn action_spec(&self) -> CopyAction {
        match self.phase {
            CopyPhase::AwaitReflink => CopyAction::TryReflink,
            CopyPhase::AwaitProbe => CopyAction::ProbeSparse,
            CopyPhase::AwaitSegments => CopyAction::NextSegments(self.pos),
            CopyPhase::Copying => CopyAction::CopyBytes(
                if self.run_remaining <= self.config.block_size {
                    self.run_remaining
                } else {
                    self.config.block_size
                },
            ),
            CopyPhase::Done => CopyAction::Finish(self.len),
            CopyPhase::Failed => CopyAction::Abort,
        }
    }

    /// Start the copy of one regular file of length `len`: attempt a
    /// clone first unless the configuration forbids it.
    pub fn new(len: u64, config: &Config) -> (h: CopyHandle)
        requires
            config.wf(),
        ensures
            h.wf(),
            h.len == len,
            h.config == *config,
            h.written == 0,
            h.copied_log@ == Seq::<u64>::empty(),
            h.mode is Undecided,
            h.pos == 0,
            h.phase == (if config.reflink is Never {
                CopyPhase::AwaitProbe
            } else {
                CopyPhase::AwaitReflink
            }),
    {
        let phase = if config.reflink == Reflink::Never {
            CopyPhase::AwaitProbe
        } else {
            CopyPhase::AwaitReflink
        };
        CopyHandle {
            len,
            config: *config,
            phase,
            mode: CopyMode::Undecided,
            pos: 0,
            run_remaining: 0,
            written: 0,
            copied_log: Ghost(Seq::empty()),
        }
    }

    /// Fold in the outcome of the clone attempt: done on success, a hard
    /// failure when the filesystem declines a demanded clone, a fall
    /// through to the probe when the clone was merely optional.
    pub fn try_reflink(&mut self, attempt: Result<bool, Error>) -> (r: Result<bool, Error>)
        requires
            old(self).wf(),
            old(self).phase is AwaitReflink,
        ensures
            final(self).wf(),
            final(self).len == old(self).len,
            final(self).config == old(self).config,
            final(self).copied_log == old(self).copied_log,
            final(self).written == 0,
            attempt == Ok::<bool, Error>(true) ==> final(self).phase is Done && final(self).mode is Reflinked && r == Ok::<bool, Error>(true),
            attempt == Ok::<bool, Error>(false) && old(self).config.reflink is Always ==> final(self).phase is Failed && (r matches Err(e) && e is ReflinkFailed),
            attempt == Ok::<bool, Error>(false) && !(old(self).config.reflink is Always) ==> final(self).phase is AwaitProbe && final(self).mode is Undecided && r == Ok::<bool, Error>(false),
            attempt matches Err(e) ==> final(self).phase is Failed && r == Err::<bool, Error>(e),
            r is Err ==> final(self).phase is Failed,
    {
        match attempt {
            Ok(true) => {
                self.phase = CopyPhase::Done;
                self.mode = CopyMode::Reflinked;
                Ok(true)
            },
            Ok(false) => {
                if self.config.reflink == Reflink::Always {
                    self.phase = CopyPhase::Failed;
                    Err(Error::ReflinkFailed)
                } else {
                    self.phase = CopyPhase::AwaitProbe;
                    Ok(false)
                }
            },
            Err(e) => {
                self.phase = CopyPhase::Failed;
                Err(e)
            },
        }
    }

    /// Fold in the sparseness heuristic: enumerate data runs for a sparse
    /// source, copy densely otherwise; an empty file is already complete.
    pub fn on_probe(&mut self, sparse: bool)
        requires
            old(self).wf(),
            old(self).phase is AwaitProbe,
        ensures
            final(self).wf(),
            final(self).len == old(self).len,
            final(self).config == old(self).config,
            final(self).copied_log == old(self).copied_log,
            final(self).written == 0,
            sparse ==> final(self).mode is Sparse,
            !sparse ==> final(self).mode is Dense,
            sparse && old(self).len > 0 ==> final(self).phase is AwaitSegments && final(self).pos
                == 0,
            !sparse && old(self).len > 0 ==> final(self).phase is Copying && final(self).run_remaining == old(self).len,
            old(self).len == 0 ==> final(self).phase is Done,
    {
        if sparse {
            self.mode = CopyMode::Sparse;
            self.pos = 0;
            if self.len > 0 {
                self.phase = CopyPhase::AwaitSegments;
            } else {
                self.phase = CopyPhase::Done;
            }
        } else {
            self.mode = CopyMode::Dense;
            if self.len > 0 {
                self.run_remaining = self.len;
                self.phase = CopyPhase::Copying;
            } else {
                self.phase = CopyPhase::Done;
            }
        }
    }

    /// Fold in the next data run `[data, hole)` found at or after `pos`.
    /// The probe reports `(len, len)` when no data remains.
    pub fn on_segments(&mut self, data: u64, hole: u64)
        requires
            old(self).wf(),
            old(self).phase is AwaitSegments,
            old(self).pos <= data <= hole <= old(self).len,
        ensures
            final(self).wf(),
            final(self).len == old(self).len,
            final(self).config == old(self).config,
            final(self).copied_log == old(self).copied_log,
            final(self).written == old(self).written,
            final(self).mode is Sparse,
            final(self).pos == hole,
            hole > data ==> final(self).phase is Copying && final(self).run_remaining == hole
                - data,
            hole == data && hole < old(self).len ==> final(self).phase is AwaitSegments,
            hole == data && hole == old(self).len ==> final(self).phase is Done,
    {
        self.pos = hole;
        if hole > data {
            self.run_remaining = hole - data;
            self.phase = CopyPhase::Copying;
        } else if hole < self.len {
            self.phase = CopyPhase::AwaitSegments;
        } else {
            self.phase = CopyPhase::Done;
        }
    }

    /// Fold in a completed byte-copy request that moved `n` bytes, and
    /// emit the matching `Copied` update. A zero count before the end of
    /// the run is a short read and fails the file; a failed update send
    /// (observer gone) fails it too.
    pub fn on_copied<U: StatusUpdater>(&mut self, n: u64, updates: &U) -> (r: Result<(), Error>)
        requires
            old(self).wf(),
            old(self).phase is Copying,
            n <= old(self).run_remaining,
            n <= old(self).config.block_size,
        ensures
            final(self).wf(),
            final(self).len == old(self).len,
            final(self).config == old(self).config,
            final(self).mode == old(self).mode,
            final(self).pos == old(self).pos,
            n == 0 ==> final(self).phase is Failed && (r matches Err(e) && e is CopyError) && final(self).written == old(self).written && final(self).copied_log == old(self).copied_log,
            n >= 1 ==> final(self).written == old(self).written + n && final(self).copied_log@
                == old(self).copied_log@.push(n),
            n >= 1 && r is Ok ==> {
                let rem = old(self).run_remaining - n;
                &&& (rem > 0 ==> final(self).phase is Copying && final(self).run_remaining == rem)
                &&& (rem == 0 && old(self).mode is Dense ==> final(self).phase is Done)
                &&& (rem == 0 && old(self).mode is Sparse && old(self).pos < old(self).len ==> final(self).phase is AwaitSegments)
                &&& (rem == 0 && old(self).mode is Sparse && old(self).pos == old(self).len
                    ==> final(self).phase is Done)
            },
            n >= 1 && r is Err ==> final(self).phase is Failed,
    {
        if n == 0 {
            self.phase = CopyPhase::Failed;
            return Err(Error::CopyError("short read from source".to_owned()));
        }
        self.written = self.written + n;
        self.run_remaining = self.run_remaining - n;
        proof {
            assert(sum_chunks(self.copied_log@.push(n)) == sum_chunks(self.copied_log@) + n) by {
                lemma_sum_chunks_push(self.copied_log@, n);
            }
        }
        self.copied_log = Ghost(self.copied_log@.push(n));
        match updates.send(StatusUpdate::Copied(n)) {
            Err(e) => {
                self.phase = CopyPhase::Failed;
                return Err(e);
            },
            Ok(()) => {},
        }
        if self.run_remaining == 0 {
            match self.mode {
                CopyMode::Dense => {
                    self.phase = CopyPhase::Done;
                },
                CopyMode::Sparse => {
                    if self.pos < self.len {
                        self.phase = CopyPhase::AwaitSegments;
                    } else {
                        self.phase = CopyPhase::Done;
                    }
                },
                _ => {
                    proof {
                        assert(false);
                    }
                },
            }
        }
        Ok(())
    }

    /// What the caller must do next.
    pub fn next_action(&self) -> (r: CopyAction)
        ensures
            r == self.action_spec(),
    {
        match self.phase {
            CopyPhase::AwaitReflink => CopyAction::TryReflink,
            CopyPhase::AwaitProbe => CopyAction::ProbeSparse,
            CopyPhase::AwaitSegments => CopyAction::NextSegments(self.pos),
            CopyPhase::Copying => CopyAction::CopyBytes(
                if self.run_remaining <= self.config.block_size {
                    self.run_remaining
                } else {
                    self.config.block_size
                },
            ),
            CopyPhase::Done => CopyAction::Finish(self.len),
            CopyPhase::Failed => CopyAction::Abort,
        }
    }

    /// Which finalisation steps to run when the descriptors are released:
    /// permission copy and flush happen only for a file whose copy
    /// succeeded, and only as configured.
    pub fn finalise_copy(&self) -> (r: FinaliseActions)
        ensures
            r.copy_perms == (!self.config.no_perms && self.phase is Done),
            r.do_sync == (self.config.fsync && self.phase is Done),
    {
        let done = self.phase == CopyPhase::Done;
        FinaliseActions {
            copy_perms: !self.config.no_perms && done,
            do_sync: self.config.fsync && done,
        }
    }
}

/// The outcome of one outside operation performed for a file, in the
/// order the machine asked for them.
pub enum CopyEvent {
    /// What the clone attempt returned.
    Reflink(Result<bool, Error>),
    /// What the sparseness heuristic returned.
    Probe(bool),
    /// The next data run, as `(data_start, hole_start)`.
    Segments(u64, u64),
    /// How many bytes one copy request actually moved.
    Copied(u64),
}

/// Whether one recorded outcome answers one request of the machine.
pub open spec fn event_fits(a: CopyAction, ev: CopyEvent) -> bool {
    match (a, ev) {
        (CopyAction::TryReflink, CopyEvent::Reflink(_)) => true,
        (CopyAction::ProbeSparse, CopyEvent::Probe(_)) => true,
        (CopyAction::NextSegments(_), CopyEvent::Segments(_, _)) => true,
        (CopyAction::CopyBytes(_), CopyEvent::Copied(_)) => true,
        _ => false,
    }
}

impl CopyHandle {
    /// Drive the whole per-file decision over a recorded sequence of
    /// operation outcomes. Success is owed wherever no byte moves: an
    /// already finished file, a successful clone, an empty file, a sparse
    /// file with no data. Once bytes move, each `Copied` outcome also
    /// feeds the sink, whose failure fails the file; every transition is
    /// pinned one step down, on the machine's own methods. The machine's
    /// own failures — a file that already failed, outcomes that run out
    /// or do not fit the request, an oversized transfer — surface as copy
    /// errors.
    pub fn copy_file<U: StatusUpdater>(
        &mut self,
        events: Vec<CopyEvent>,
        updates: &U,
    ) -> (r: Result<u64, Error>)
        requires
            old(self).wf(),
        ensures
            final(self).wf(),
            final(self).len == old(self).len,
            r matches Ok(t) ==> t == old(self).len && final(self).phase is Done,
            r is Err ==> !(final(self).phase is Done),
            old(self).phase is Done ==> r == Ok::<u64, Error>(old(self).len),
            old(self).phase is Failed ==> (r matches Err(e) && e is CopyError),
            !(old(self).phase is Done) && !(old(self).phase is Failed) && events@.len() == 0 ==> (
            r matches Err(e) && e is CopyError),
            !(old(self).phase is Done) && !(old(self).phase is Failed) && events@.len() >= 1
                && !event_fits(old(self).action_spec(), events@[0]) ==> (r matches Err(e)
                && e is CopyError),
            old(self).phase is AwaitReflink && events@.len() >= 1 && events@[0]
                == CopyEvent::Reflink(Ok::<bool, Error>(true)) ==> r == Ok::<u64, Error>(
                old(self).len,
            ),
            old(self).phase is AwaitProbe && old(self).len == 0 && events@.len() >= 1 && (
            events@[0] matches CopyEvent::Probe(_)) ==> r == Ok::<u64, Error>(old(self).len),
            old(self).phase is AwaitProbe && old(self).len > 0 && events@.len() >= 2 && events@[0]
                == CopyEvent::Probe(true) && events@[1] == CopyEvent::Segments(
                old(self).len,
                old(self).len,
            ) ==> r == Ok::<u64, Error>(old(self).len),
    {
        let mut evs = events;
        loop
            invariant
                self.wf(),
                self.len == old(self).len,
                self.config == old(self).config,
                evs@.len() <= events@.len(),
                evs@.len() == events@.len() ==> self.phase == old(self).phase && self.pos == old(
                    self,
                ).pos && self.run_remaining == old(self).run_remaining && evs@ =~= events@,
                old(self).phase is Done ==> self.phase is Done,
                old(self).phase is Failed ==> self.phase is Failed,
                (old(self).phase is AwaitReflink && events@.len() >= 1 && events@[0]
                    == CopyEvent::Reflink(Ok::<bool, Error>(true)) && evs@.len() < events@.len())
                    ==> self.phase is Done,
                (old(self).phase is AwaitProbe && old(self).len == 0 && events@.len() >= 1 && (
                events@[0] matches CopyEvent::Probe(_)) && evs@.len() < events@.len())
                    ==> self.phase is Done,
                (old(self).phase is AwaitProbe && old(self).len > 0 && events@.len() >= 2
                    && events@[0] == CopyEvent::Probe(true) && events@[1] == CopyEvent::Segments(
                    old(self).len,
                    old(self).len,
                )) ==> ((evs@.len() == events@.len() - 1 ==> self.phase is AwaitSegments
                    && self.pos == 0 && evs@ =~= events@.skip(1)) && (evs@.len() < events@.len()
                    - 1 ==> self.phase is Done)),
                (!(old(self).phase is Done) && !(old(self).phase is Failed) && events@.len() >= 1
                    && !event_fits(old(self).action_spec(), events@[0])) ==> evs@.len()
                    == events@.len(),
            decreases evs@.len(),
        {
            match self.next_action() {
                CopyAction::Finish(total) => {
                    return Ok(total);
                },
                CopyAction::Abort => {
                    return Err(Error::CopyError("file already failed".to_owned()));
                },
                _ => {},
            }
            if evs.len() == 0 {
                return Err(Error::CopyError("copy ended before completion".to_owned()));
            }
            let ghost pre = evs@;
            let ev = evs.remove(0);
            proof {
                assert(evs@ =~= pre.skip(1));
                assert(ev == pre[0]);
            }
            match (self.next_action(), ev) {
                (CopyAction::TryReflink, CopyEvent::Reflink(attempt)) => {
                    if let Err(e) = self.try_reflink(attempt) {
                        return Err(e);
                    }
                },
                (CopyAction::ProbeSparse, CopyEvent::Probe(sparse)) => {
                    self.on_probe(sparse);
                },
                (CopyAction::NextSegments(_), CopyEvent::Segments(data, hole)) => {
                    if !(self.pos <= data && data <= hole && hole <= self.len) {
                        self.phase = CopyPhase::Failed;
                        return Err(Error::CopyError("invalid sparse run".to_owned()));
                    }
                    self.on_segments(data, hole);
                },
                (CopyAction::CopyBytes(max), CopyEvent::Copied(n)) => {
                    if n > max {
                        self.phase = CopyPhase::Failed;
                        return Err(Error::CopyError("transfer larger than requested".to_owned()));
                    }
                    if let Err(e) = self.on_copied(n, updates) {
                        return Err(e);
                    }
                },
                (_, _) => {
                    self.phase = CopyPhase::Failed;
                    return Err(Error::CopyError("outcome does not fit the request".to_owned()));
                },
            }
        }
    }
}

/// The finalisation steps owed for one file on scope exit. Their own
/// failures are logged by the caller, never raised: the primary outcome of
/// the copy has already been decided.
pub struct FinaliseActions {
    pub copy_perms: bool,
    pub do_sync: bool,
}

proof fn lemma_sum_chunks_push(s: Seq<u64>, n: u64)
    ensures
        sum_chunks(s.push(n)) == sum_chunks(s) + n,
    decreases s.len(),
{
    if s.len() == 0 {
        assert(s.push(n)[0] == n);
        assert(s.push(n).skip(1) =~= Seq::<u64>::empty());
        assert(sum_chunks(s.push(n)) == n + sum_chunks(Seq::<u64>::empty()));
    } else {
        assert(s.push(n)[0] == s[0]);
        assert(s.push(n).skip(1) =~= s.skip(1).push(n));
        lemma_sum_chunks_push(s.skip(1), n);
        assert(sum_chunks(s.push(n)) == s[0] + sum_chunks(s.skip(1).push(n)));
    }
}

/// A file the machine finished by cloning emitted no `Copied` updates at
/// all: the clone moves the whole file in one step.
pub proof fn lemma_reflinked_copy_silent(h: CopyHandle)
    requires
        h.wf(),
        h.phase is Done,
        h.mode is Reflinked,
    ensures
        h.copied_log@.len() == 0,
        sum_chunks(h.copied_log@) == 0,
{
}

/// A dense copy that finished emitted `Copied` updates summing exactly to
/// the length of the file.
pub proof fn lemma_dense_copy_accounted(h: CopyHandle)
    requires
        h.wf(),
        h.phase is Done,
        h.mode is Dense,
    ensures
        sum_chunks(h.copied_log@) == h.len,
{
}

/// However the shared byte counter stood when a file's updates began, the
/// deduplicating sink forwards at least `⌊written / block_size⌋` and at
/// most `⌊written / block_size⌋ + 1` of the `Copied` updates this file
/// emitted: each is bounded by the block size, so no update can cross two
/// boundaries.
pub proof fn lemma_file_forwarded_bounds(h: CopyHandle, start: u64)
    requires
        h.wf(),
    ensures
        sum_chunks(h.copied_log@) / (h.config.block_size as int) <= forwarded_count(
            h.copied_log@,
            start as int,
            h.config.block_size as int,
        ),
        forwarded_count(h.copied_log@, start as int, h.config.block_size as int) <= sum_chunks(
            h.copied_log@,
        ) / (h.config.block_size as int) + 1,
{
    lemma_copied_event_bounds(h.copied_log@, start, h.config.block_size);
}

/// With reflink mode `Never` a well-formed machine never asks for a clone
/// attempt, whatever state it reached.
pub proof fn lemma_never_mode_no_reflink(h: CopyHandle)
    requires
        h.wf(),
        h.config.reflink is Never,
    ensures
        h.action_spec() != CopyAction::TryReflink,
{
}

/// A failed file asks for nothing but release: in particular, a declined
/// clone under reflink mode `Always` is never followed by a byte copy.
pub proof fn lemma_failed_file_halts(h: CopyHandle)
    requires
        h.phase is Failed,
    ensures
        h.action_spec() == CopyAction::Abort,
{
}


/// One entry of a pre-order walk of one source tree, as the walker sees
/// it: its path relative to the source root (empty for the root itself),
/// its kind, its length if it is a regular file, its stored target if it
/// is a symbolic link, and whether its computed destination already
/// exists.
pub struct WalkEntry {
    pub rel: FsPath,
    pub kind: FileKind,
    pub len: u64,
    pub link_target: Vec<u8>,
    pub target_exists: bool,
}

/// One source tree handed to the walker: the source path as given,
/// whether the destination existed when this source came up, and the
/// entries of the tree in pre-order, already ignore-filtered.
pub struct WalkSource {
    pub root: FsPath,
    pub dest_exists: bool,
    pub entries: Vec<WalkEntry>,
}

/// One step of the walker's plan, in the order the walker decides them.
pub enum WalkAction {
    /// Create this destination directory and its missing ancestors now,
    /// before any contained entry is handed to a worker.
    CreateDir(FsPath),
    /// Announce further bytes to be copied.
    SendSize(u64),
    /// Hand a work item to the workers.
    Enqueue(Operation),
    /// Surface an error to the observer.
    SendError(Error),
}

/// Whether the walker accepts an entry: not a pre-existing destination
/// under no-clobber, and of a kind the copier understands.
pub open spec fn entry_ok(cfg: Config, e: WalkEntry) -> bool {
    &&& !(cfg.no_clobber && e.target_exists)
    &&& !(e.kind is Block)
    &&& !(e.kind is Other)
}

/// Whether a whole source walks without failure.
pub open spec fn source_ok(cfg: Config, s: WalkSource) -> bool {
    &&& s.root@.len() > 0
    &&& forall|k: int| 0 <= k < s.entries@.len() ==> entry_ok(cfg, #[trigger] s.entries@[k])
}

pub open spec fn sources_all_ok(cfg: Config, sources: Seq<WalkSource>) -> bool {
    forall|i: int| 0 <= i < sources.len() ==> source_ok(cfg, #[trigger] sources[i])
}

/// The first `upto` sources all walk without failure.
pub open spec fn sources_ok_upto(cfg: Config, sources: Seq<WalkSource>, upto: int) -> bool {
    forall|i: int| 0 <= i < upto ==> source_ok(cfg, #[trigger] sources[i])
}

/// The first `upto` entries are all accepted.
pub open spec fn entries_ok_upto(cfg: Config, es: Seq<WalkEntry>, upto: int) -> bool {
    forall|k: int| 0 <= k < upto ==> entry_ok(cfg, #[trigger] es[k])
}

/// The destination base for one source: the destination itself, or the
/// destination extended by the source's last component when the
/// destination already exists and that behaviour is not disabled.
pub open spec fn source_base(cfg: Config, dest: Seq<Seq<u8>>, s: WalkSource) -> Seq<Seq<u8>> {
    if s.dest_exists && !cfg.no_target_directory {
        dest.push(s.root@.last())
    } else {
        dest
    }
}

/// A pre-order listing: every entry below the root is preceded by the
/// directory entry of its parent.
pub open spec fn preorder_ok(es: Seq<WalkEntry>) -> bool {
    forall|k: int|
        0 <= k < es.len() && (#[trigger] es[k]).rel@.len() > 0 ==> exists|k2: int|
            0 <= k2 < k && (#[trigger] es[k2]).kind is Dir && es[k2].rel@ == es[k].rel@.drop_last()
}

/// Whether one planned action is exactly what the walker owes this entry.
pub open spec fn action_of_entry(
    a: WalkAction,
    root: Seq<Seq<u8>>,
    base: Seq<Seq<u8>>,
    e: WalkEntry,
) -> bool {
    match a {
        WalkAction::CreateDir(p) => e.kind is Dir && p@ == base + e.rel@,
        WalkAction::SendSize(sz) => e.kind is File && sz == e.len,
        WalkAction::Enqueue(op) => match op {
            Operation::Copy(f, t) => e.kind is File && f@ == root + e.rel@ && t@ == base + e.rel@,
            Operation::Link(lt, t) => e.kind is Symlink && lt@ == e.link_target@ && t@ == base
                + e.rel@,
            Operation::Special(f, t) => (e.kind is Fifo || e.kind is Socket || e.kind is Char)
                && f@ == root + e.rel@ && t@ == base + e.rel@,
        },
        WalkAction::SendError(err) => err matches Error::DestinationExists(p) && p@ == base
            + e.rel@ && e.target_exists,
    }
}

/// Every planned action is owed to some entry of some source; and under a
/// pre-order listing, a work item below the root is planned only after
/// the creation of its parent directory.
pub open spec fn trace_at(
    cfg: Config,
    sources: Seq<WalkSource>,
    dest: Seq<Seq<u8>>,
    plan: Seq<WalkAction>,
    j: int,
) -> bool {
    exists|i: int, k: int|
        {
            &&& 0 <= i < sources.len()
            &&& 0 <= k < sources[i].entries@.len()
            &&& sources[i].root@.len() > 0
            &&& #[trigger] action_of_entry(
                plan[j],
                sources[i].root@,
                source_base(cfg, dest, sources[i]),
                sources[i].entries@[k],
            )
            &&& (plan[j] matches WalkAction::Enqueue(_) && preorder_ok(sources[i].entries@)
                && sources[i].entries@[k].rel@.len() > 0 ==> exists|j2: int|
                0 <= j2 < j && ((#[trigger] plan[j2]) matches WalkAction::CreateDir(p2) && p2@
                    == source_base(cfg, dest, sources[i]) + sources[i].entries@[k].rel@.drop_last()))
        }
}

pub open spec fn plan_traceable(
    cfg: Config,
    sources: Seq<WalkSource>,
    dest: Seq<Seq<u8>>,
    plan: Seq<WalkAction>,
) -> bool {
    forall|j: int| 0 <= j < plan.len() ==> #[trigger] trace_at(cfg, sources, dest, plan, j)
}

/// Every accepted entry got the actions it is owed.
pub open spec fn entry_planned(
    plan: Seq<WalkAction>,
    root: Seq<Seq<u8>>,
    base: Seq<Seq<u8>>,
    e: WalkEntry,
) -> bool {
    &&& (e.kind is Dir ==> exists|j: int|
        0 <= j < plan.len() && ((#[trigger] plan[j]) matches WalkAction::CreateDir(p) && p@ == base
            + e.rel@))
    &&& (e.kind is File ==> (exists|j: int|
        0 <= j < plan.len() && ((#[trigger] plan[j]) matches WalkAction::SendSize(sz) && sz
            == e.len)) && (exists|j: int|
        0 <= j < plan.len() && ((#[trigger] plan[j]) matches WalkAction::Enqueue(
            Operation::Copy(f, t),
        ) && f@ == root + e.rel@ && t@ == base + e.rel@)))
    &&& (e.kind is Symlink ==> exists|j: int|
        0 <= j < plan.len() && ((#[trigger] plan[j]) matches WalkAction::Enqueue(
            Operation::Link(lt, t),
        ) && lt@ == e.link_target@ && t@ == base + e.rel@))
    &&& ((e.kind is Fifo || e.kind is Socket || e.kind is Char) ==> exists|j: int|
        0 <= j < plan.len() && ((#[trigger] plan[j]) matches WalkAction::Enqueue(
            Operation::Special(f, t),
        ) && f@ == root + e.rel@ && t@ == base + e.rel@))
}

pub open spec fn plan_complete(
    cfg: Config,
    sources: Seq<WalkSource>,
    dest: Seq<Seq<u8>>,
    plan: Seq<WalkAction>,
) -> bool {
    forall|i: int, k: int|
        0 <= i < sources.len() && 0 <= k < sources[i].entries@.len() ==> entry_planned(
            plan,
            sources[i].root@,
            source_base(cfg, dest, sources[i]),
            #[trigger] sources[i].entries@[k],
        )
}

/// Every entry of the first `upto` sources got its actions.
pub open spec fn prior_sources_planned(
    cfg: Config,
    sources: Seq<WalkSource>,
    dest: Seq<Seq<u8>>,
    plan: Seq<WalkAction>,
    upto: int,
) -> bool {
    forall|i: int, k: int|
        0 <= i < upto && 0 <= k < sources[i].entries@.len() ==> entry_planned(
            plan,
            sources[i].root@,
            source_base(cfg, dest, sources[i]),
            #[trigger] sources[i].entries@[k],
        )
}

/// The first `upto` entries of one source got their actions.
pub open spec fn entries_planned_upto(
    plan: Seq<WalkAction>,
    root: Seq<Seq<u8>>,
    base: Seq<Seq<u8>>,
    es: Seq<WalkEntry>,
    upto: int,
) -> bool {
    forall|k: int| 0 <= k < upto ==> entry_planned(plan, root, base, #[trigger] es[k])
}

/// How many actions one accepted entry contributes to the plan.
pub open spec fn entry_plan_len(e: WalkEntry) -> int {
    if e.kind is File {
        2
    } else {
        1
    }
}

/// The exact actions one accepted entry owes, at its offset in the plan:
/// a directory its creation; a regular file its size announcement
/// followed immediately by its copy item; a symbolic link its link item
/// with the stored target; a special file its node item.
pub open spec fn entry_block_at(
    plan: Seq<WalkAction>,
    off: int,
    root: Seq<Seq<u8>>,
    base: Seq<Seq<u8>>,
    e: WalkEntry,
) -> bool {
    match e.kind {
        FileKind::File => {
            &&& 0 <= off
            &&& off + 2 <= plan.len()
            &&& (plan[off] matches WalkAction::SendSize(sz) && sz == e.len)
            &&& (plan[off + 1] matches WalkAction::Enqueue(Operation::Copy(f, t)) && f@ == root
                + e.rel@ && t@ == base + e.rel@)
        },
        FileKind::Dir => {
            &&& 0 <= off
            &&& off + 1 <= plan.len()
            &&& (plan[off] matches WalkAction::CreateDir(p) && p@ == base + e.rel@)
        },
        FileKind::Symlink => {
            &&& 0 <= off
            &&& off + 1 <= plan.len()
            &&& (plan[off] matches WalkAction::Enqueue(Operation::Link(lt, t)) && lt@
                == e.link_target@ && t@ == base + e.rel@)
        },
        FileKind::Fifo | FileKind::Socket | FileKind::Char => {
            &&& 0 <= off
            &&& off + 1 <= plan.len()
            &&& (plan[off] matches WalkAction::Enqueue(Operation::Special(f, t)) && f@ == root
                + e.rel@ && t@ == base + e.rel@)
        },
        FileKind::Block | FileKind::Other => false,
    }
}

/// Where the block of entry `k` starts, relative to its source's start.
pub open spec fn entries_offset(es: Seq<WalkEntry>, k: int) -> int
    decreases k,
{
    if k <= 0 {
        0
    } else {
        entries_offset(es, k - 1) + entry_plan_len(es[k - 1])
    }
}

/// How many actions one fully walked source contributes.
pub open spec fn source_plan_len(s: WalkSource) -> int {
    entries_offset(s.entries@, s.entries@.len() as int)
}

/// Where source `i`'s block starts in the plan.
pub open spec fn sources_offset(sources: Seq<WalkSource>, i: int) -> int
    decreases i,
{
    if i <= 0 {
        0
    } else {
        sources_offset(sources, i - 1) + source_plan_len(sources[i - 1])
    }
}

/// The first `upto` entries of one source each have exactly their block,
/// at their offset after `at`.
pub open spec fn source_blocks_upto(
    cfg: Config,
    dest: Seq<Seq<u8>>,
    s: WalkSource,
    plan: Seq<WalkAction>,
    at: int,
    upto: int,
) -> bool {
    forall|k: int|
        0 <= k < upto ==> entry_block_at(
            plan,
            at + entries_offset(s.entries@, k),
            s.root@,
            source_base(cfg, dest, s),
            #[trigger] s.entries@[k],
        )
}

/// Every source before `upto` has exactly its full block of actions at
/// its offset.
pub open spec fn prior_blocks(
    cfg: Config,
    sources: Seq<WalkSource>,
    dest: Seq<Seq<u8>>,
    plan: Seq<WalkAction>,
    upto: int,
) -> bool {
    forall|i: int|
        0 <= i < upto ==> source_blocks_upto(
            cfg,
            dest,
            #[trigger] sources[i],
            plan,
            sources_offset(sources, i),
            sources[i].entries@.len() as int,
        )
}

/// The index of the first entry the walker rejects (the length if none).
pub open spec fn first_bad_entry(cfg: Config, es: Seq<WalkEntry>) -> int
    decreases es.len(),
{
    if es.len() == 0 {
        0
    } else if !entry_ok(cfg, es[0]) {
        0
    } else {
        1 + first_bad_entry(cfg, es.skip(1))
    }
}

/// The index of the first source that does not walk through (the length
/// if none).
pub open spec fn first_bad_source(cfg: Config, sources: Seq<WalkSource>) -> int
    decreases sources.len(),
{
    if sources.len() == 0 {
        0
    } else if !source_ok(cfg, sources[0]) {
        0
    } else {
        1 + first_bad_source(cfg, sources.skip(1))
    }
}

/// The whole plan and result, index by index and kind by kind: every
/// entry before the first failure has exactly its block of actions, in
/// source order and entry order; a source with no last component stops
/// the walk with `InvalidSource`; a destination that exists under
/// no-clobber stops it with `EarlyShutdown` right after the one
/// `DestinationExists` report for that entry; a block device or unknown
/// kind stops it with `UnknownFileType` naming that entry's destination;
/// and the walk succeeds exactly when nothing failed.
pub open spec fn walk_exact(
    cfg: Config,
    sources: Seq<WalkSource>,
    dest: Seq<Seq<u8>>,
    plan: Seq<WalkAction>,
    res: Result<(), Error>,
) -> bool {
    let fi = first_bad_source(cfg, sources);
    &&& prior_blocks(cfg, sources, dest, plan, fi)
    &&& if fi == sources.len() {
        res is Ok && plan.len() == sources_offset(sources, fi)
    } else {
        let s = sources[fi];
        let at = sources_offset(sources, fi);
        if s.root@.len() == 0 {
            res == Err::<(), Error>(Error::InvalidSource) && plan.len() == at
        } else {
            let fb = first_bad_entry(cfg, s.entries@);
            let e = s.entries@[fb];
            &&& source_blocks_upto(cfg, dest, s, plan, at, fb)
            &&& if cfg.no_clobber && e.target_exists {
                &&& (res matches Err(err) && err is EarlyShutdown)
                &&& plan.len() == at + entries_offset(s.entries@, fb) + 1
                &&& (plan.last() matches WalkAction::SendError(err2) && (err2
                    matches Error::DestinationExists(p) && p@ == source_base(cfg, dest, s)
                    + e.rel@))
            } else {
                &&& (res matches Err(err) && (err matches Error::UnknownFileType(p) && p@
                    == source_base(cfg, dest, s) + e.rel@))
                &&& plan.len() == at + entries_offset(s.entries@, fb)
            }
        }
    }
}

proof fn lemma_entry_block_extend(
    plan0: Seq<WalkAction>,
    plan1: Seq<WalkAction>,
    off: int,
    root: Seq<Seq<u8>>,
    base: Seq<Seq<u8>>,
    e: WalkEntry,
)
    requires
        plan0.len() <= plan1.len(),
        forall|j: int| 0 <= j < plan0.len() ==> plan1[j] == plan0[j],
        entry_block_at(plan0, off, root, base, e),
    ensures
        entry_block_at(plan1, off, root, base, e),
{
    assert(plan1[off] == plan0[off]);
    if e.kind is File {
        assert(plan1[off + 1] == plan0[off + 1]);
    }
}

proof fn lemma_first_bad_entry_at(cfg: Config, es: Seq<WalkEntry>, k: int)
    requires
        0 <= k <= es.len(),
        forall|k2: int| 0 <= k2 < k ==> entry_ok(cfg, #[trigger] es[k2]),
        k == es.len() || !entry_ok(cfg, es[k]),
    ensures
        first_bad_entry(cfg, es) == k,
    decreases es.len(),
{
    if es.len() == 0 {
    } else if k == 0 {
    } else {
        assert(entry_ok(cfg, es[0]));
        let tail = es.skip(1);
        assert(forall|k2: int| 0 <= k2 < tail.len() ==> tail[k2] == es[k2 + 1]);
        lemma_first_bad_entry_at(cfg, tail, k - 1);
    }
}

proof fn lemma_first_bad_source_at(cfg: Config, sources: Seq<WalkSource>, i: int)
    requires
        0 <= i <= sources.len(),
        forall|i2: int| 0 <= i2 < i ==> source_ok(cfg, #[trigger] sources[i2]),
        i == sources.len() || !source_ok(cfg, sources[i]),
    ensures
        first_bad_source(cfg, sources) == i,
    decreases sources.len(),
{
    if sources.len() == 0 {
    } else if i == 0 {
    } else {
        assert(source_ok(cfg, sources[0]));
        let tail = sources.skip(1);
        assert(forall|i2: int| 0 <= i2 < tail.len() ==> tail[i2] == sources[i2 + 1]);
        lemma_first_bad_source_at(cfg, tail, i - 1);
    }
}

/// When every source's entries are listed in pre-order, every planned
/// work item strictly below its source root is preceded in the plan by
/// the creation of its destination's parent directory: no worker can meet
/// a missing parent.
pub proof fn lemma_dir_created_before_work_item(
    cfg: Config,
    sources: Seq<WalkSource>,
    dest: Seq<Seq<u8>>,
    plan: Seq<WalkAction>,
    j: int,
)
    requires
        plan_traceable(cfg, sources, dest, plan),
        forall|i: int| 0 <= i < sources.len() ==> preorder_ok((#[trigger] sources[i]).entries@),
        0 <= j < plan.len(),
        plan[j] is Enqueue,
    ensures
        exists|i: int, k: int|
            {
                &&& 0 <= i < sources.len()
                &&& 0 <= k < sources[i].entries@.len()
                &&& #[trigger] action_of_entry(
                    plan[j],
                    sources[i].root@,
                    source_base(cfg, dest, sources[i]),
                    sources[i].entries@[k],
                )
                &&& (sources[i].entries@[k].rel@.len() > 0 ==> exists|j2: int|
                    0 <= j2 < j && ((#[trigger] plan[j2]) matches WalkAction::CreateDir(p2) && p2@
                        == source_base(cfg, dest, sources[i])
                        + sources[i].entries@[k].rel@.drop_last()))
            },
{
    assert(trace_at(cfg, sources, dest, plan, j));
    let (i, k) = choose|i: int, k: int|
        {
            &&& 0 <= i < sources.len()
            &&& 0 <= k < sources[i].entries@.len()
            &&& sources[i].root@.len() > 0
            &&& #[trigger] action_of_entry(
                plan[j],
                sources[i].root@,
                source_base(cfg, dest, sources[i]),
                sources[i].entries@[k],
            )
            &&& (plan[j] matches WalkAction::Enqueue(_) && preorder_ok(sources[i].entries@)
                && sources[i].entries@[k].rel@.len() > 0 ==> exists|j2: int|
                0 <= j2 < j && ((#[trigger] plan[j2]) matches WalkAction::CreateDir(p2) && p2@
                    == source_base(cfg, dest, sources[i])
                    + sources[i].entries@[k].rel@.drop_last()))
        };
    assert(preorder_ok(sources[i].entries@));
    if sources[i].entries@[k].rel@.len() > 0 {
        let j2 = choose|j2: int|
            0 <= j2 < j && ((#[trigger] plan[j2]) matches WalkAction::CreateDir(p2) && p2@
                == source_base(cfg, dest, sources[i])
                + sources[i].entries@[k].rel@.drop_last());
        assert(0 <= j2 < j && ((plan[j2]) matches WalkAction::CreateDir(p2) && p2@ == source_base(
            cfg,
            dest,
            sources[i],
        ) + sources[i].entries@[k].rel@.drop_last()));
    }
}

/// The destination path that one planned action writes, if it writes one.
pub open spec fn action_target(a: WalkAction) -> Option<Seq<Seq<u8>>> {
    match a {
        WalkAction::CreateDir(p) => Some(p@),
        WalkAction::Enqueue(op) => match op {
            Operation::Copy(f, t) => Some(t@),
            Operation::Link(lt, t) => Some(t@),
            Operation::Special(f, t) => Some(t@),
        },
        WalkAction::SendSize(sz) => None,
        WalkAction::SendError(e) => None,
    }
}

/// Whether the plan writes this destination path.
pub open spec fn planned_target(plan: Seq<WalkAction>, p: Seq<Seq<u8>>) -> bool {
    exists|j: int| 0 <= j < plan.len() && action_target(#[trigger] plan[j]) == Some(p)
}

/// Whether some entry of some source maps to this destination path.
pub open spec fn expected_target(
    cfg: Config,
    sources: Seq<WalkSource>,
    dest: Seq<Seq<u8>>,
    p: Seq<Seq<u8>>,
) -> bool {
    exists|i: int, k: int|
        0 <= i < sources.len() && 0 <= k < sources[i].entries@.len() && p == source_base(
            cfg,
            dest,
            sources[i],
        ) + (#[trigger] sources[i].entries@[k]).rel@
}

/// After a successful walk, the set of destination paths the plan writes
/// equals the set of destination paths of the entries, ignore filtering
/// already applied: every accepted entry's path is written, and nothing
/// else is.
pub proof fn lemma_walk_covers_exactly(
    cfg: Config,
    sources: Seq<WalkSource>,
    dest: Seq<Seq<u8>>,
    plan: Seq<WalkAction>,
    res: Result<(), Error>,
)
    requires
        walk_contract(cfg, sources, dest, plan, res),
        res is Ok,
    ensures
        forall|p: Seq<Seq<u8>>|
            #[trigger] planned_target(plan, p) <==> expected_target(cfg, sources, dest, p),
{
    assert forall|p: Seq<Seq<u8>>|
        #[trigger] planned_target(plan, p) implies expected_target(cfg, sources, dest, p) by {
        let j = choose|j: int| 0 <= j < plan.len() && action_target(#[trigger] plan[j]) == Some(p);
        assert(trace_at(cfg, sources, dest, plan, j));
        let (i, k) = choose|i: int, k: int|
            {
                &&& 0 <= i < sources.len()
                &&& 0 <= k < sources[i].entries@.len()
                &&& sources[i].root@.len() > 0
                &&& #[trigger] action_of_entry(
                    plan[j],
                    sources[i].root@,
                    source_base(cfg, dest, sources[i]),
                    sources[i].entries@[k],
                )
            };
        assert(p == source_base(cfg, dest, sources[i]) + sources[i].entries@[k].rel@);
    };
    assert forall|p: Seq<Seq<u8>>|
        expected_target(cfg, sources, dest, p) implies #[trigger] planned_target(plan, p) by {
        let (i, k) = choose|i: int, k: int|
            0 <= i < sources.len() && 0 <= k < sources[i].entries@.len() && p == source_base(
                cfg,
                dest,
                sources[i],
            ) + (#[trigger] sources[i].entries@[k]).rel@;
        let e = sources[i].entries@[k];
        let base = source_base(cfg, dest, sources[i]);
        assert(source_ok(cfg, sources[i]));
        assert(entry_ok(cfg, e));
        assert(entry_planned(plan, sources[i].root@, base, e));
        if e.kind is Dir {
            let j = choose|j: int|
                0 <= j < plan.len() && ((#[trigger] plan[j]) matches WalkAction::CreateDir(q) && q@
                    == base + e.rel@);
            assert(action_target(plan[j]) == Some(p));
        } else if e.kind is File {
            let j = choose|j: int|
                0 <= j < plan.len() && ((#[trigger] plan[j]) matches WalkAction::Enqueue(
                    Operation::Copy(f, t),
                ) && f@ == sources[i].root@ + e.rel@ && t@ == base + e.rel@);
            assert(action_target(plan[j]) == Some(p));
        } else if e.kind is Symlink {
            let j = choose|j: int|
                0 <= j < plan.len() && ((#[trigger] plan[j]) matches WalkAction::Enqueue(
                    Operation::Link(lt, t),
                ) && lt@ == e.link_target@ && t@ == base + e.rel@);
            assert(action_target(plan[j]) == Some(p));
        } else {
            let j = choose|j: int|
                0 <= j < plan.len() && ((#[trigger] plan[j]) matches WalkAction::Enqueue(
                    Operation::Special(f, t),
                ) && f@ == sources[i].root@ + e.rel@ && t@ == base + e.rel@);
            assert(action_target(plan[j]) == Some(p));
        }
    };
}

/// Everything the walker promises of its plan and result.
pub open spec fn walk_contract(
    cfg: Config,
    sources: Seq<WalkSource>,
    dest: Seq<Seq<u8>>,
    plan: Seq<WalkAction>,
    res: Result<(), Error>,
) -> bool {
    &&& (res is Ok <==> sources_all_ok(cfg, sources))
    &&& plan_traceable(cfg, sources, dest, plan)
    &&& (res is Ok ==> plan_complete(cfg, sources, dest, plan))
    &&& walk_exact(cfg, sources, dest, plan, res)
}

/// Plan the walker's reaction to one entry: reject a pre-existing
/// destination under no-clobber, create directories eagerly, announce and
/// enqueue a regular file, enqueue a link with its stored target, enqueue
/// a special node, reject kinds the copier does not understand.
pub fn walk_entry(
    cfg: &Config,
    root: &FsPath,
    base: &FsPath,
    e: &WalkEntry,
    out: &mut Vec<WalkAction>,
) -> (r: Result<(), Error>)
    ensures
        final(out)@.len() >= old(out)@.len(),
        forall|j: int| 0 <= j < old(out)@.len() ==> final(out)@[j] == old(out)@[j],
        r is Ok <==> entry_ok(*cfg, *e),
        cfg.no_clobber && e.target_exists ==> final(out)@.len() == old(out)@.len() + 1 && ((final(out)@[old(out)@.len() as int]) matches WalkAction::SendError(er) && er
            matches Error::DestinationExists(p) && p@ == base@ + e.rel@) && (r matches Err(e2)
            && e2 is EarlyShutdown),
        entry_ok(*cfg, *e) ==> match e.kind {
            FileKind::Dir => final(out)@.len() == old(out)@.len() + 1 && ((final(out)@[old(out)@.len() as int]) matches WalkAction::CreateDir(p) && p@ == base@ + e.rel@),
            FileKind::File => final(out)@.len() == old(out)@.len() + 2 && ((final(out)@[old(out)@.len() as int]) matches WalkAction::SendSize(sz) && sz == e.len) && ((final(out)@[old(out)@.len() as int + 1]) matches WalkAction::Enqueue(Operation::Copy(f, t)) && f@ == root@
                + e.rel@ && t@ == base@ + e.rel@),
            FileKind::Symlink => final(out)@.len() == old(out)@.len() + 1 && ((final(out)@[old(out)@.len() as int]) matches WalkAction::Enqueue(Operation::Link(lt, t)) && lt@
                == e.link_target@ && t@ == base@ + e.rel@),
            FileKind::Fifo | FileKind::Socket | FileKind::Char => final(out)@.len() == old(out)@.len() + 1 && ((final(out)@[old(out)@.len() as int]) matches WalkAction::Enqueue(
                Operation::Special(f, t),
            ) && f@ == root@ + e.rel@ && t@ == base@ + e.rel@),
            FileKind::Block | FileKind::Other => false,
        },
        !(cfg.no_clobber && e.target_exists) && (e.kind is Block || e.kind is Other) ==> final(out)@.len() == old(out)@.len() && (r matches Err(e2) && e2 matches Error::UnknownFileType(p)
            && p@ == base@ + e.rel@),
{
    let target = if !empty_path(&e.rel) {
        base.join(&e.rel)
    } else {
        base.dup()
    };
    proof {
        assert(target@ =~= base@ + e.rel@);
    }
    if cfg.no_clobber && e.target_exists {
        out.push(WalkAction::SendError(Error::DestinationExists(target)));
        return Err(Error::EarlyShutdown);
    }
    match e.kind {
        FileKind::File => {
            let from = root.join(&e.rel);
            out.push(WalkAction::SendSize(e.len));
            out.push(WalkAction::Enqueue(Operation::Copy(from, target)));
            Ok(())
        },
        FileKind::Symlink => {
            out.push(
                WalkAction::Enqueue(Operation::Link(bytes_clone(&e.link_target), target)),
            );
            Ok(())
        },
        FileKind::Dir => {
            out.push(WalkAction::CreateDir(target));
            Ok(())
        },
        FileKind::Socket | FileKind::Char | FileKind::Fifo => {
            let from = root.join(&e.rel);
            out.push(WalkAction::Enqueue(Operation::Special(from, target)));
            Ok(())
        },
        FileKind::Block | FileKind::Other => Err(Error::UnknownFileType(target)),
    }
}



proof fn lemma_entry_planned_extend(
    plan0: Seq<WalkAction>,
    plan1: Seq<WalkAction>,
    root: Seq<Seq<u8>>,
    base: Seq<Seq<u8>>,
    e: WalkEntry,
)
    requires
        plan0.len() <= plan1.len(),
        forall|j: int| 0 <= j < plan0.len() ==> plan1[j] == plan0[j],
        entry_planned(plan0, root, base, e),
    ensures
        entry_planned(plan1, root, base, e),
{
    if e.kind is Dir {
        let j = choose|j: int|
            0 <= j < plan0.len() && ((#[trigger] plan0[j]) matches WalkAction::CreateDir(p) && p@ == base
                + e.rel@);
        assert(0 <= j < plan1.len() && ((plan1[j]) matches WalkAction::CreateDir(p) && p@ == base
            + e.rel@));
    }
    if e.kind is File {
        let j = choose|j: int|
            0 <= j < plan0.len() && ((#[trigger] plan0[j]) matches WalkAction::SendSize(sz) && sz == e.len);
        assert(0 <= j < plan1.len() && ((plan1[j]) matches WalkAction::SendSize(sz) && sz
            == e.len));
        let j2 = choose|j2: int|
            0 <= j2 < plan0.len() && ((#[trigger] plan0[j2]) matches WalkAction::Enqueue(
                Operation::Copy(f, t),
            ) && f@ == root + e.rel@ && t@ == base + e.rel@);
        assert(0 <= j2 < plan1.len() && ((plan1[j2]) matches WalkAction::Enqueue(
            Operation::Copy(f, t),
        ) && f@ == root + e.rel@ && t@ == base + e.rel@));
    }
    if e.kind is Symlink {
        let j = choose|j: int|
            0 <= j < plan0.len() && ((#[trigger] plan0[j]) matches WalkAction::Enqueue(
                Operation::Link(lt, t),
            ) && lt@ == e.link_target@ && t@ == base + e.rel@);
        assert(0 <= j < plan1.len() && ((plan1[j]) matches WalkAction::Enqueue(
            Operation::Link(lt, t),
        ) && lt@ == e.link_target@ && t@ == base + e.rel@));
    }
    if e.kind is Fifo || e.kind is Socket || e.kind is Char {
        let j = choose|j: int|
            0 <= j < plan0.len() && ((#[trigger] plan0[j]) matches WalkAction::Enqueue(
                Operation::Special(f, t),
            ) && f@ == root + e.rel@ && t@ == base + e.rel@);
        assert(0 <= j < plan1.len() && ((plan1[j]) matches WalkAction::Enqueue(
            Operation::Special(f, t),
        ) && f@ == root + e.rel@ && t@ == base + e.rel@));
    }
}

proof fn lemma_trace_at_extend(
    cfg: Config,
    sources: Seq<WalkSource>,
    dest: Seq<Seq<u8>>,
    plan0: Seq<WalkAction>,
    plan1: Seq<WalkAction>,
    j: int,
)
    requires
        plan0.len() <= plan1.len(),
        forall|jj: int| 0 <= jj < plan0.len() ==> plan1[jj] == plan0[jj],
        0 <= j < plan0.len(),
        trace_at(cfg, sources, dest, plan0, j),
    ensures
        trace_at(cfg, sources, dest, plan1, j),
{
    let (i, k) = choose|i: int, k: int|
        {
            &&& 0 <= i < sources.len()
            &&& 0 <= k < sources[i].entries@.len()
            &&& sources[i].root@.len() > 0
            &&& #[trigger] action_of_entry(
                plan0[j],
                sources[i].root@,
                source_base(cfg, dest, sources[i]),
                sources[i].entries@[k],
            )
            &&& (plan0[j] matches WalkAction::Enqueue(_) && preorder_ok(sources[i].entries@)
                && sources[i].entries@[k].rel@.len() > 0 ==> exists|j2: int|
                0 <= j2 < j && ((#[trigger] plan0[j2]) matches WalkAction::CreateDir(p2) && p2@
                    == source_base(cfg, dest, sources[i])
                    + sources[i].entries@[k].rel@.drop_last()))
        };
    assert(plan1[j] == plan0[j]);
    if plan1[j] is Enqueue && preorder_ok(sources[i].entries@) && sources[i].entries@[k].rel@.len()
        > 0 {
        let j2 = choose|j2: int|
            0 <= j2 < j && ((#[trigger] plan0[j2]) matches WalkAction::CreateDir(p2) && p2@ == source_base(
                cfg,
                dest,
                sources[i],
            ) + sources[i].entries@[k].rel@.drop_last());
        assert(0 <= j2 < j && ((plan1[j2]) matches WalkAction::CreateDir(p2) && p2@ == source_base(
            cfg,
            dest,
            sources[i],
        ) + sources[i].entries@[k].rel@.drop_last()));
    }
    assert(trace_at(cfg, sources, dest, plan1, j)) by {
        assert(0 <= i < sources.len() && 0 <= k < sources[i].entries@.len()
            && sources[i].root@.len() > 0 && action_of_entry(
            plan1[j],
            sources[i].root@,
            source_base(cfg, dest, sources[i]),
            sources[i].entries@[k],
        ));
    };
}

proof fn lemma_traceable_extend(
    cfg: Config,
    sources: Seq<WalkSource>,
    dest: Seq<Seq<u8>>,
    plan0: Seq<WalkAction>,
    plan1: Seq<WalkAction>,
)
    requires
        plan0.len() <= plan1.len(),
        forall|jj: int| 0 <= jj < plan0.len() ==> plan1[jj] == plan0[jj],
        plan_traceable(cfg, sources, dest, plan0),
    ensures
        forall|j: int| 0 <= j < plan0.len() ==> #[trigger] trace_at(cfg, sources, dest, plan1, j),
{
    assert forall|j: int| 0 <= j < plan0.len() implies #[trigger] trace_at(
        cfg,
        sources,
        dest,
        plan1,
        j,
    ) by {
        lemma_trace_at_extend(cfg, sources, dest, plan0, plan1, j);
    };
}

/// What the walker hands back: the plan as far as it got, and how the
/// walk ended.
pub struct WalkOutcome {
    pub plan: Vec<WalkAction>,
    pub result: Result<(), Error>,
}

/// Walk every source tree in order and plan the whole operation:
/// directories are created the moment the walker meets them, every other
/// accepted entry becomes one work item, and the walk stops at the first
/// failure.
#[verifier::rlimit(100)]
pub fn tree_walker(
    sources: &Vec<WalkSource>,
    dest: &FsPath,
    cfg: &Config,
) -> (r: WalkOutcome)
    ensures
        walk_contract(*cfg, sources@, dest@, r.plan@, r.result),
{
    let mut plan: Vec<WalkAction> = Vec::new();
    for i in 0..sources.len()
        invariant
            sources_ok_upto(*cfg, sources@, i as int),
            plan_traceable(*cfg, sources@, dest@, plan@),
            prior_sources_planned(*cfg, sources@, dest@, plan@, i as int),
            plan@.len() == sources_offset(sources@, i as int),
            prior_blocks(*cfg, sources@, dest@, plan@, i as int),
    {
        let source = &sources[i];
        let lastc = match source.root.last_component() {
            None => {
                proof {
                    assert(!source_ok(*cfg, sources@[i as int]));
                    assert(!sources_all_ok(*cfg, sources@));
                    lemma_first_bad_source_at(*cfg, sources@, i as int);
                    assert(walk_exact(
                        *cfg,
                        sources@,
                        dest@,
                        plan@,
                        Err::<(), Error>(Error::InvalidSource),
                    ));
                }
                return (WalkOutcome { plan, result: Err(Error::InvalidSource) });
            },
            Some(c) => c,
        };
        let base = if source.dest_exists && !cfg.no_target_directory {
            let mut b = dest.dup();
            b.push(lastc);
            proof {
                assert(b@ =~= source_base(*cfg, dest@, sources@[i as int]));
            }
            b
        } else {
            let b = dest.dup();
            proof {
                assert(b@ =~= source_base(*cfg, dest@, sources@[i as int]));
            }
            b
        };
        for k in 0..source.entries.len()
            invariant
                0 <= i < sources@.len(),
                (*source == sources@[i as int]),
                source.root@.len() > 0,
                base@ == source_base(*cfg, dest@, sources@[i as int]),
                sources_ok_upto(*cfg, sources@, i as int),
                entries_ok_upto(*cfg, source.entries@, k as int),
                plan_traceable(*cfg, sources@, dest@, plan@),
                prior_sources_planned(*cfg, sources@, dest@, plan@, i as int),
                entries_planned_upto(plan@, source.root@, base@, source.entries@, k as int),
                plan@.len() == sources_offset(sources@, i as int) + entries_offset(
                    source.entries@,
                    k as int,
                ),
                prior_blocks(*cfg, sources@, dest@, plan@, i as int),
                source_blocks_upto(
                    *cfg,
                    dest@,
                    sources@[i as int],
                    plan@,
                    sources_offset(sources@, i as int),
                    k as int,
                ),
        {
            let ghost plan0 = plan@;
            let ghost ii = i as int;
            let ghost kk = k as int;
            let e = &source.entries[k];
            let res = walk_entry(cfg, &source.root, &base, e, &mut plan);
            proof {
                let ek = source.entries@[kk];
                let n0 = plan0.len() as int;
                lemma_traceable_extend(*cfg, sources@, dest@, plan0, plan@);
                assert forall|i2: int, k2: int|
                    0 <= i2 < ii && 0 <= k2 < sources@[i2].entries@.len() implies entry_planned(
                    plan@,
                    sources@[i2].root@,
                    source_base(*cfg, dest@, sources@[i2]),
                    #[trigger] sources@[i2].entries@[k2],
                ) by {
                    lemma_entry_planned_extend(
                        plan0,
                        plan@,
                        sources@[i2].root@,
                        source_base(*cfg, dest@, sources@[i2]),
                        sources@[i2].entries@[k2],
                    );
                };
                assert(prior_sources_planned(*cfg, sources@, dest@, plan@, ii));
                assert forall|k2: int| 0 <= k2 < kk implies entry_planned(
                    plan@,
                    source.root@,
                    base@,
                    #[trigger] source.entries@[k2],
                ) by {
                    lemma_entry_planned_extend(
                        plan0,
                        plan@,
                        source.root@,
                        base@,
                        source.entries@[k2],
                    );
                };
                assert(entries_planned_upto(plan@, source.root@, base@, source.entries@, kk));
                assert forall|j: int| n0 <= j < plan@.len() implies #[trigger] trace_at(
                    *cfg,
                    sources@,
                    dest@,
                    plan@,
                    j,
                ) by {
                    assert(action_of_entry(
                        plan@[j],
                        sources@[ii].root@,
                        source_base(*cfg, dest@, sources@[ii]),
                        sources@[ii].entries@[kk],
                    ));
                    if plan@[j] is Enqueue && preorder_ok(sources@[ii].entries@)
                        && sources@[ii].entries@[kk].rel@.len() > 0 {
                        let k2 = choose|k2: int|
                            0 <= k2 < kk && ((#[trigger] sources@[ii].entries@[k2]).kind is Dir)
                                && sources@[ii].entries@[k2].rel@
                                == sources@[ii].entries@[kk].rel@.drop_last();
                        assert(entry_planned(plan0, source.root@, base@, source.entries@[k2]));
                        let j2 = choose|j2: int|
                            0 <= j2 < plan0.len() && ((#[trigger] plan0[j2]) matches WalkAction::CreateDir(p)
                                && p@ == base@ + source.entries@[k2].rel@);
                        assert(0 <= j2 < j && ((plan@[j2]) matches WalkAction::CreateDir(p2) && p2@
                            == source_base(*cfg, dest@, sources@[ii])
                            + sources@[ii].entries@[kk].rel@.drop_last()));
                    }
                    assert(trace_at(*cfg, sources@, dest@, plan@, j));
                };
                assert(plan_traceable(*cfg, sources@, dest@, plan@));
                assert forall|i2: int| 0 <= i2 < ii implies source_blocks_upto(
                    *cfg,
                    dest@,
                    #[trigger] sources@[i2],
                    plan@,
                    sources_offset(sources@, i2),
                    sources@[i2].entries@.len() as int,
                ) by {
                    assert forall|k2: int|
                        0 <= k2 < sources@[i2].entries@.len() implies entry_block_at(
                        plan@,
                        sources_offset(sources@, i2) + entries_offset(sources@[i2].entries@, k2),
                        sources@[i2].root@,
                        source_base(*cfg, dest@, sources@[i2]),
                        #[trigger] sources@[i2].entries@[k2],
                    ) by {
                        lemma_entry_block_extend(
                            plan0,
                            plan@,
                            sources_offset(sources@, i2) + entries_offset(
                                sources@[i2].entries@,
                                k2,
                            ),
                            sources@[i2].root@,
                            source_base(*cfg, dest@, sources@[i2]),
                            sources@[i2].entries@[k2],
                        );
                    };
                };
                assert(prior_blocks(*cfg, sources@, dest@, plan@, ii));
                assert forall|k2: int| 0 <= k2 < kk implies entry_block_at(
                    plan@,
                    sources_offset(sources@, ii) + entries_offset(sources@[ii].entries@, k2),
                    sources@[ii].root@,
                    source_base(*cfg, dest@, sources@[ii]),
                    #[trigger] sources@[ii].entries@[k2],
                ) by {
                    lemma_entry_block_extend(
                        plan0,
                        plan@,
                        sources_offset(sources@, ii) + entries_offset(sources@[ii].entries@, k2),
                        sources@[ii].root@,
                        source_base(*cfg, dest@, sources@[ii]),
                        sources@[ii].entries@[k2],
                    );
                };
                assert(source_blocks_upto(
                    *cfg,
                    dest@,
                    sources@[ii],
                    plan@,
                    sources_offset(sources@, ii),
                    kk,
                ));
            }
            match res {
                Err(err) => {
                    proof {
                        let ek = source.entries@[kk];
                        let n0 = plan0.len() as int;
                        assert(!entry_ok(*cfg, ek));
                        assert(!source_ok(*cfg, sources@[ii]));
                        assert(!sources_all_ok(*cfg, sources@));
                        lemma_first_bad_source_at(*cfg, sources@, ii);
                        assert(sources@[ii].entries@ == source.entries@);
                        lemma_first_bad_entry_at(*cfg, sources@[ii].entries@, kk);
                        if cfg.no_clobber && ek.target_exists {
                            assert(plan@.len() == n0 + 1);
                            assert(plan@.last() == plan@[n0]);
                        }
                        assert(walk_exact(*cfg, sources@, dest@, plan@, Err::<(), Error>(err)));
                    }
                    return (WalkOutcome { plan, result: Err(err) });
                },
                Ok(()) => {
                    proof {
                        let ek = source.entries@[kk];
                        let n0 = plan0.len() as int;
                        if ek.kind is Dir {
                            assert(0 <= n0 < plan@.len() && ((plan@[n0])
                                matches WalkAction::CreateDir(p) && p@ == base@ + ek.rel@));
                        }
                        if ek.kind is File {
                            assert(0 <= n0 < plan@.len() && ((plan@[n0])
                                matches WalkAction::SendSize(sz) && sz == ek.len));
                            assert(0 <= n0 + 1 < plan@.len() && ((plan@[n0 + 1])
                                matches WalkAction::Enqueue(Operation::Copy(f, t)) && f@
                                == source.root@ + ek.rel@ && t@ == base@ + ek.rel@));
                        }
                        if ek.kind is Symlink {
                            assert(0 <= n0 < plan@.len() && ((plan@[n0])
                                matches WalkAction::Enqueue(Operation::Link(lt, t)) && lt@
                                == ek.link_target@ && t@ == base@ + ek.rel@));
                        }
                        if ek.kind is Fifo || ek.kind is Socket || ek.kind is Char {
                            assert(0 <= n0 < plan@.len() && ((plan@[n0])
                                matches WalkAction::Enqueue(Operation::Special(f, t)) && f@
                                == source.root@ + ek.rel@ && t@ == base@ + ek.rel@));
                        }
                        assert(entry_planned(plan@, source.root@, base@, ek));
                        assert(entries_planned_upto(
                            plan@,
                            source.root@,
                            base@,
                            source.entries@,
                            kk + 1,
                        ));
                        assert(entries_ok_upto(*cfg, source.entries@, kk + 1));
                        let at = sources_offset(sources@, ii);
                        assert(sources@[ii].entries@ == source.entries@);
                        assert(n0 == at + entries_offset(sources@[ii].entries@, kk));
                        assert(entry_block_at(
                            plan@,
                            n0,
                            sources@[ii].root@,
                            source_base(*cfg, dest@, sources@[ii]),
                            sources@[ii].entries@[kk],
                        ));
                        assert(source_blocks_upto(*cfg, dest@, sources@[ii], plan@, at, kk + 1));
                        assert(entries_offset(sources@[ii].entries@, kk + 1) == entries_offset(
                            sources@[ii].entries@,
                            kk,
                        ) + entry_plan_len(sources@[ii].entries@[kk]));
                        assert(plan@.len() == at + entries_offset(sources@[ii].entries@, kk + 1));
                    }
                },
            }
        }
        proof {
            assert(source_ok(*cfg, sources@[i as int]));
            assert(sources_ok_upto(*cfg, sources@, i as int + 1));
            assert(prior_sources_planned(*cfg, sources@, dest@, plan@, i as int + 1));
            assert(sources@[i as int].entries@ == source.entries@);
            assert(plan@.len() == sources_offset(sources@, i as int + 1));
            assert(prior_blocks(*cfg, sources@, dest@, plan@, i as int + 1));
        }
    }
    proof {
        assert(sources_all_ok(*cfg, sources@));
        assert(plan_complete(*cfg, sources@, dest@, plan@));
        lemma_first_bad_source_at(*cfg, sources@, sources@.len() as int);
        assert(walk_exact(*cfg, sources@, dest@, plan@, Ok::<(), Error>(())));
    }
    (WalkOutcome { plan, result: Ok(()) })
}


} // verus!
