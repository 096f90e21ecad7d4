//! The copier's configuration, shared read-only by every thread.

use vstd::prelude::*;
use vstd::string::StringSliceAdditionalSpecFns;
use crate::errors::Error;

verus! {

/// When to attempt a copy-on-write clone of a file.
#[derive(Clone, Copy, Debug, Default, PartialEq, Eq, Structural)]
pub enum Reflink {
    /// Demand a clone; fail if the filesystem declines.
    #[default]
    Always,
    /// Attempt a clone; fall back to a byte copy if declined.
    Auto,
    /// Never attempt a clone.
    Never,
}

/// The ASCII-lowercase image of one byte.
pub open spec fn lower_byte(c: u8) -> u8 {
    if 'A' as u8 <= c <= 'Z' as u8 {
        (c + 32) as u8
    } else {
        c
    }
}

/// The ASCII-lowercase image of a byte string.
pub open spec fn lower_bytes(s: Seq<u8>) -> Seq<u8> {
    s.map(|i: int, c: u8| lower_byte(c))
}

pub open spec fn spec_always() -> Seq<u8> {
    seq!['a' as u8, 'l' as u8, 'w' as u8, 'a' as u8, 'y' as u8, 's' as u8]
}

pub open spec fn spec_auto() -> Seq<u8> {
    seq!['a' as u8, 'u' as u8, 't' as u8, 'o' as u8]
}

pub open spec fn spec_never() -> Seq<u8> {
    seq!['n' as u8, 'e' as u8, 'v' as u8, 'e' as u8, 'r' as u8]
}

/// ASCII-lowercase one byte.
fn lower(c: u8) -> (r: u8)
    ensures
        r == lower_byte(c),
{
    if c >= 'A' as u8 && c <= 'Z' as u8 {
        c + 32
    } else {
        c
    }
}

/// Byte-for-byte equality of a slice and a vector.
pub(crate) fn slice_eq(b: &[u8], pat: &Vec<u8>) -> (r: bool)
    ensures
        r == (b@ == pat@),
{
    if b.len() != pat.len() {
        return false;
    }
    for i in 0..b.len()
        invariant
            b@.len() == pat@.len(),
            forall|j: int| 0 <= j < i ==> b@[j] == pat@[j],
    {
        if b[i] != pat[i] {
            return false;
        }
    }
    proof {
        assert(b@ =~= pat@);
    }
    true
}

/// Whether the ASCII-lowercase image of `b` equals `pat` (`pat` given
/// already lowercase).
fn lower_is(b: &[u8], pat: &Vec<u8>) -> (r: bool)
    ensures
        r == (lower_bytes(b@) == pat@),
{
    if b.len() != pat.len() {
        assert(lower_bytes(b@).len() == b@.len());
        return false;
    }
    for i in 0..b.len()
        invariant
            b@.len() == pat@.len(),
            forall|j: int| 0 <= j < i ==> lower_byte(b@[j]) == pat@[j],
    {
        if lower(b[i]) != pat[i] {
            assert(lower_bytes(b@)[i as int] != pat@[i as int]);
            return false;
        }
    }
    proof {
        assert(lower_bytes(b@) =~= pat@);
    }
    true
}

fn always_pat() -> (r: Vec<u8>)
    ensures
        r@ == spec_always(),
{
    let mut v: Vec<u8> = Vec::new();
    v.push('a' as u8);
    v.push('l' as u8);
    v.push('w' as u8);
    v.push('a' as u8);
    v.push('y' as u8);
    v.push('s' as u8);
    proof {
        assert(v@ =~= spec_always());
    }
    v
}

fn auto_pat() -> (r: Vec<u8>)
    ensures
        r@ == spec_auto(),
{
    let mut v: Vec<u8> = Vec::new();
    v.push('a' as u8);
    v.push('u' as u8);
    v.push('t' as u8);
    v.push('o' as u8);
    proof {
        assert(v@ =~= spec_auto());
    }
    v
}

fn never_pat() -> (r: Vec<u8>)
    ensures
        r@ == spec_never(),
{
    let mut v: Vec<u8> = Vec::new();
    v.push('n' as u8);
    v.push('e' as u8);
    v.push('v' as u8);
    v.push('e' as u8);
    v.push('r' as u8);
    proof {
        assert(v@ =~= spec_never());
    }
    v
}

impl Reflink {
    /// Parse a reflink mode, ignoring ASCII case.
    pub fn from_str(s: &str) -> (r: Result<Reflink, Error>)
        ensures
            r == Ok::<Reflink, Error>(Reflink::Always) <==> lower_bytes(s.spec_bytes())
                == spec_always(),
            r == Ok::<Reflink, Error>(Reflink::Auto) <==> lower_bytes(s.spec_bytes())
                == spec_auto(),
            r == Ok::<Reflink, Error>(Reflink::Never) <==> lower_bytes(s.spec_bytes())
                == spec_never(),
            r matches Err(e) ==> e matches Error::InvalidArguments(m) && m@ == s@,
    {
        let b = s.as_bytes();
        if lower_is(b, &always_pat()) {
            Ok(Reflink::Always)
        } else if lower_is(b, &auto_pat()) {
            Ok(Reflink::Auto)
        } else if lower_is(b, &never_pat()) {
            Ok(Reflink::Never)
        } else {
            Err(Error::InvalidArguments(s.to_owned()))
        }
    }
}

/// Immutable configuration for one copy operation.
#[derive(Clone, Copy, Debug, PartialEq, Eq, Structural)]
pub struct Config {
    /// Number of parallel copy workers; positive.
    pub num_workers: usize,
    /// Upper bound on a single byte-copy request and the granularity of
    /// progress deduplication; positive.
    pub block_size: u64,
    /// When to attempt a copy-on-write clone.
    pub reflink: Reflink,
    /// Fail instead of overwriting a pre-existing destination entry.
    pub no_clobber: bool,
    /// Never append a source basename to an existing destination directory.
    pub no_target_directory: bool,
    /// Skip permission replication at finalisation.
    pub no_perms: bool,
    /// Durably flush each destination file at finalisation.
    pub fsync: bool,
}

impl Config {
    /// The bounds the rest of the copier relies on.
    pub open spec fn wf(&self) -> bool {
        &&& self.num_workers >= 1
        &&& self.block_size >= 1
    }
}

impl Default for Config {
    /// Four workers, 1 MiB blocks, demand a clone, overwrite, keep
    /// permissions, no flush.
    fn default() -> (r: Config)
        ensures
            r.wf(),
            r.num_workers == 4,
            r.block_size == 1048576,
            r.reflink == Reflink::Always,
            !r.no_clobber,
            !r.no_target_directory,
            !r.no_perms,
            !r.fsync,
    {
        Config {
            num_workers: 4,
            block_size: 1048576,
            reflink: Reflink::Always,
            no_clobber: false,
            no_target_directory: false,
            no_perms: false,
            fsync: false,
        }
    }
}

} // verus!
