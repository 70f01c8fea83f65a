//! Snapshots of the dialog table: what a snapshot holds and which ones are
//! accepted back.

use vstd::prelude::*;

use crate::error::Error;
use crate::record::DialogRecord;
use crate::text;

verus! {

/// The tag that every snapshot carries.
pub fn snapshot_magic() -> (r: &'static str)
    ensures
        r@ == magic_text(),
{
    "smiths-net/dialog-snapshot"
}

/// The tag that every snapshot carries.
pub open spec fn magic_text() -> Seq<char> {
    "smiths-net/dialog-snapshot"@
}

/// Newest version that is understood.
pub const SNAPSHOT_VERSION: u8 = 1;

/// A snapshot.
#[derive(Debug)]
pub struct SnapshotFile {
    /// The tag.
    pub magic: String,
    /// Version of the format.
    pub version: u8,
    /// The dialogs.
    pub records: Vec<DialogRecord>,
}

/// Why a snapshot could not be written or read.
#[derive(Debug)]
pub enum SnapshotError {
    /// The file system failed.
    Io(String),
    /// The contents could not be encoded or decoded.
    Serde(String),
    /// The file is no snapshot.
    MagicMismatch {
        /// The tag of a snapshot.
        expected: String,
        /// What the file has.
        got: String,
    },
    /// The snapshot is of a newer version.
    UnsupportedVersion(u8),
}

/// The message of an error.
pub open spec fn snapshot_error_text(e: SnapshotError) -> Seq<char> {
    match e {
        SnapshotError::Io(m) => "snapshot I/O: "@ + m@,
        SnapshotError::Serde(m) => "snapshot serde: "@ + m@,
        SnapshotError::MagicMismatch { expected, got } => "snapshot magic mismatch: expected "@
            + text::debug_text(expected@) + ", got "@ + text::debug_text(got@),
        SnapshotError::UnsupportedVersion(v) => "snapshot version "@ + text::decimal(v as nat)
            + " exceeds supported "@ + text::decimal(SNAPSHOT_VERSION as nat),
    }
}

impl SnapshotError {
    /// The message of the error.
    pub fn message(&self) -> (r: String)
        ensures
            r@ == snapshot_error_text(*self),
    {
        match self {
            SnapshotError::Io(m) => {
                let mut s: String = "snapshot I/O: ".to_owned();
                s.append(m);
                s
            },
            SnapshotError::Serde(m) => {
                let mut s: String = "snapshot serde: ".to_owned();
                s.append(m);
                s
            },
            SnapshotError::MagicMismatch { expected, got } => {
                let mut s: String = "snapshot magic mismatch: expected ".to_owned();
                s.append(&text::debug_string(expected));
                s.append(", got ");
                s.append(&text::debug_string(got));
                s
            },
            SnapshotError::UnsupportedVersion(v) => {
                let mut s: String = "snapshot version ".to_owned();
                s.append(&text::decimal_string(*v as u64));
                s.append(" exceeds supported ");
                s.append(&text::decimal_string(SNAPSHOT_VERSION as u64));
                s
            },
        }
    }

    /// The error as one of the SIP subsystem.
    pub fn into_error(self) -> (r: Error)
        ensures
            r matches Error::Other(m) && m@ == snapshot_error_text(self),
    {
        Error::other(self.message())
    }
}

impl SnapshotFile {
    /// A snapshot of `records`.
    pub fn of(records: Vec<DialogRecord>) -> (r: Self)
        ensures
            r.magic@ == magic_text(),
            r.version == SNAPSHOT_VERSION,
            r.records == records,
    {
        SnapshotFile { magic: snapshot_magic().to_owned(), version: SNAPSHOT_VERSION, records }
    }

    /// The dialogs of the snapshot, unless it carries another tag or is of a
    /// newer version than what is understood.
    pub fn accept(self) -> (r: Result<Vec<DialogRecord>, SnapshotError>)
        ensures
            self.magic@ == magic_text() && self.version <= SNAPSHOT_VERSION ==> r == Ok::<
                Vec<DialogRecord>,
                SnapshotError,
            >(self.records),
            self.magic@ != magic_text() ==> (r matches Err(
                SnapshotError::MagicMismatch { expected, got },
            ) && expected@ == magic_text() && got@ == self.magic@),
            self.magic@ == magic_text() && self.version > SNAPSHOT_VERSION ==> r == Err::<
                Vec<DialogRecord>,
                SnapshotError,
            >(SnapshotError::UnsupportedVersion(self.version)),
    {
        if self.magic != snapshot_magic().to_owned() {
            return Err(
                SnapshotError::MagicMismatch {
                    expected: snapshot_magic().to_owned(),
                    got: self.magic,
                },
            );
        }
        if self.version > SNAPSHOT_VERSION {
            return Err(SnapshotError::UnsupportedVersion(self.version));
        }
        Ok(self.records)
    }
}

} // verus!
