//! What the index records of one file system object.

use vstd::prelude::*;
use crate::path::{EntryPath, PathView};

verus! {

/// Nanoseconds in one second.
pub const NANOS_PER_SECOND: u32 = 1_000_000_000;

/// A point in time: `secs` whole seconds after the Unix epoch (before it,
/// where negative), and `nanos` nanoseconds after that.
#[derive(Debug, Clone, Copy, PartialEq, Eq, Structural)]
pub struct Timestamp {
    pub secs: i64,
    pub nanos: u32,
}

impl Timestamp {
    /// The point in time as one number: nanoseconds after the Unix epoch.
    pub open spec fn total_nanos(self) -> int {
        self.secs * NANOS_PER_SECOND + self.nanos
    }

    pub fn new(secs: i64, nanos: u32) -> (t: Timestamp)
        ensures
            t.secs == secs,
            t.nanos == nanos,
    {
        Timestamp { secs, nanos }
    }

    /// Nanoseconds after the Unix epoch, computed.
    pub fn nanos_after_epoch(&self) -> (n: i128)
        ensures
            n == self.total_nanos(),
            -0x8000_0000_0000_0000 * 1_000_000_000 <= n < 0x8000_0000_0000_0000 * 1_000_000_000
                + 0x1_0000_0000,
    {
        let secs: i128 = self.secs as i128;
        let nanos: i128 = self.nanos as i128;
        let scale: i128 = NANOS_PER_SECOND as i128;
        assert(-0x8000_0000_0000_0000 * 1_000_000_000 <= secs * scale <= 0x8000_0000_0000_0000
            * 1_000_000_000) by (nonlinear_arith)
            requires
                -0x8000_0000_0000_0000 <= secs <= 0x8000_0000_0000_0000,
                scale == 1_000_000_000,
        ;
        secs * scale + nanos
    }

    /// Whether this point in time comes after `other`.
    pub fn is_after(&self, other: &Timestamp) -> (r: bool)
        ensures
            r == (self.total_nanos() > other.total_nanos()),
    {
        self.nanos_after_epoch() > other.nanos_after_epoch()
    }
}

/// The later of two points in time, where either may be unknown.
pub open spec fn later_of(a: Option<Timestamp>, b: Option<Timestamp>) -> Option<Timestamp> {
    match (a, b) {
        (None, _) => b,
        (_, None) => a,
        (Some(x), Some(y)) => if y.total_nanos() > x.total_nanos() {
            b
        } else {
            a
        },
    }
}

/// The later of two points in time, where either may be unknown; the first where they tie.
pub fn later(a: Option<Timestamp>, b: Option<Timestamp>) -> (r: Option<Timestamp>)
    ensures
        r == later_of(a, b),
{
    match (a, b) {
        (None, _) => b,
        (_, None) => a,
        (Some(x), Some(y)) => if y.is_after(&x) {
            b
        } else {
            a
        },
    }
}

/// What is known of one file system object.
#[derive(Debug, Clone, Copy, PartialEq, Eq, Structural)]
pub struct FileMeta {
    /// Whether the object is a directory.
    pub is_dir: bool,
    /// Its own size in bytes, where known.
    pub size: Option<u64>,
    /// When it was last modified, where known.
    pub touched: Option<Timestamp>,
}

/// One entry of the index as queries hand it out.
#[derive(Debug)]
pub struct FileInfo<'a> {
    pub path: &'a EntryPath,
    pub is_dir: bool,
    pub size: Option<u64>,
    pub touched: Option<Timestamp>,
}

/// The model of one entry of the index.
pub struct EntryView {
    pub path: PathView,
    pub meta: FileMeta,
}

impl<'a> View for FileInfo<'a> {
    type V = EntryView;

    open spec fn view(&self) -> EntryView {
        EntryView {
            path: self.path@,
            meta: FileMeta { is_dir: self.is_dir, size: self.size, touched: self.touched },
        }
    }
}

} // verus!
