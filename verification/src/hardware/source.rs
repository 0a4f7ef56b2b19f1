//! Access to kernel-provided hardware data, and the errors of the library.
use vstd::prelude::*;
use crate::text::{push_decimal, push_str};

verus! {

/// A text, as the relations of a [`Source`] speak of it.
pub type Text = Seq<char>;

/// A directory listing, as the relations of a [`Source`] speak of it.
pub type Listing = Seq<Seq<char>>;

/// Backend abstraction for accessing kernel-provided hardware data.
///
/// All metric implementations read and write through a `Source` instead of
/// touching the file system directly: real deployments read sysfs/procfs,
/// tests supply a source that serves in-memory contents. Paths are
/// slash-separated text. Nothing is assumed of what a source returns: the
/// relations below only record which answer a source gave to which call,
/// and the metrics hold for every answer. A source that keeps no record
/// holds each relation of every answer (its relations return `true`);
/// they are never called by the library.
pub trait Source {
    /// `content` is a text that the source gave for the file at `path`.
    spec fn served(&self, path: Text, content: Text) -> bool;

    /// `entries` is a listing that the source gave for the directory at
    /// `path`.
    spec fn listed(&self, path: Text, entries: Listing) -> bool;

    /// `present` is an answer that the source gave to whether `path`
    /// exists.
    spec fn answered(&self, path: Text, present: bool) -> bool;

    /// The source took `content` for the file at `path`.
    spec fn accepted(&self, path: Text, content: Text) -> bool;

    /// `e` is an error that the source gave for listing the directory at
    /// `path`.
    spec fn listing_failed(&self, path: Text, e: HwError) -> bool;

    /// The source gave an error for reading the file at `path`. (A source
    /// that keeps no record need not define it: it then holds of every
    /// path.)
    closed spec fn refused(&self, path: Text) -> bool {
        true
    }

    /// Read a file's full contents.
    fn read_to_string(&self, path: &str) -> (r: Result<String, HwError>)
        ensures
            r matches Ok(c) ==> self.served(path@, c@),
            r is Err ==> self.refused(path@),
    ;

    /// Write `content` to a file, truncating it.
    fn write(&self, path: &str, content: &str) -> (r: Result<(), HwError>)
        ensures
            r is Ok ==> self.accepted(path@, content@),
    ;

    /// Return whether `path` exists.
    fn path_exists(&self, path: &str) -> (r: bool)
        ensures
            self.answered(path@, r),
    ;

    /// List the direct children of a directory, returning their paths.
    /// Implementations should return paths in a stable (e.g. sorted) order.
    fn list_dir(&self, path: &str) -> (r: Result<Vec<String>, HwError>)
        ensures
            r matches Ok(v) ==> self.listed(path@, v@.map_values(|e: String| e@)),
            r matches Err(e) ==> self.listing_failed(path@, e),
    ;
}

/// Errors of reading and controlling hardware parameters.
#[derive(Debug, PartialEq)]
pub enum HwError {
    /// A failure reported by a source, with its message.
    Source(String),
    /// Reading the file at the path failed.
    ReadFailed(String),
    /// The metric with this id cannot be written.
    ReadOnly(String),
    /// The metric with this id cannot be written per core.
    NotCoreWritable(String),
    /// A governor write was given a value of this kind, which is not a
    /// name.
    NotAGovernorName(String),
    /// A governor write was given a name that is empty after trimming.
    EmptyGovernorName,
    /// Writing the governor of the cpu directory at this path failed.
    SetGovernorFailed(String),
    /// An online-status write was given a value of this kind, which is not
    /// a `Bool`.
    NotABool(String),
    /// The core has no `online` file, so it cannot be onlined/offlined.
    NoOnlineFile(usize),
    /// Writing the online status of the core failed.
    SetOnlineFailed(usize),
    /// A `/proc/stat` counter sum exceeds 64 bits.
    CounterOverflow,
    /// No metric with this id is registered.
    NotRegistered(String),
}

pub open spec fn error_text(e: HwError) -> Seq<char> {
    match e {
        HwError::Source(m) => m@,
        HwError::ReadFailed(p) => "failed to read "@ + p@,
        HwError::ReadOnly(id) => "metric "@ + id@ + " is read-only"@,
        HwError::NotCoreWritable(id) => "metric "@ + id@ + " is not per-core writable"@,
        HwError::NotAGovernorName(v) => "expected governor name (Enum/Raw), got "@ + v@,
        HwError::EmptyGovernorName => "governor name must not be empty"@,
        HwError::SetGovernorFailed(p) => "failed to set governor on "@ + p@,
        HwError::NotABool(v) => "expected Bool for online status, got "@ + v@,
        HwError::NoOnlineFile(core) => "core "@ + crate::text::decimal(core as nat)
            + " cannot be onlined/offlined (no online file)"@,
        HwError::SetOnlineFailed(core) => "failed to set online status for core "@
            + crate::text::decimal(core as nat),
        HwError::CounterOverflow => "/proc/stat counters exceed 64 bits"@,
        HwError::NotRegistered(id) => "metric "@ + id@ + " not registered"@,
    }
}

impl HwError {
    /// The error's message, as shown to users.
    pub fn message(&self) -> (r: String)
        ensures
            r@ == error_text(*self),
    {
        let mut s = String::new();
        match self {
            HwError::Source(m) => {
                push_str(&mut s, m.as_str());
            },
            HwError::ReadFailed(p) => {
                push_str(&mut s, "failed to read ");
                push_str(&mut s, p.as_str());
            },
            HwError::ReadOnly(id) => {
                push_str(&mut s, "metric ");
                push_str(&mut s, id.as_str());
                push_str(&mut s, " is read-only");
            },
            HwError::NotCoreWritable(id) => {
                push_str(&mut s, "metric ");
                push_str(&mut s, id.as_str());
                push_str(&mut s, " is not per-core writable");
            },
            HwError::NotAGovernorName(v) => {
                push_str(&mut s, "expected governor name (Enum/Raw), got ");
                push_str(&mut s, v.as_str());
            },
            HwError::EmptyGovernorName => {
                push_str(&mut s, "governor name must not be empty");
            },
            HwError::SetGovernorFailed(p) => {
                push_str(&mut s, "failed to set governor on ");
                push_str(&mut s, p.as_str());
            },
            HwError::NotABool(v) => {
                push_str(&mut s, "expected Bool for online status, got ");
                push_str(&mut s, v.as_str());
            },
            HwError::NoOnlineFile(core) => {
                push_str(&mut s, "core ");
                push_decimal(&mut s, *core as u128);
                push_str(&mut s, " cannot be onlined/offlined (no online file)");
            },
            HwError::SetOnlineFailed(core) => {
                push_str(&mut s, "failed to set online status for core ");
                push_decimal(&mut s, *core as u128);
            },
            HwError::CounterOverflow => {
                push_str(&mut s, "/proc/stat counters exceed 64 bits");
            },
            HwError::NotRegistered(id) => {
                push_str(&mut s, "metric ");
                push_str(&mut s, id.as_str());
                push_str(&mut s, " not registered");
            },
        }
        assert(s@ =~= error_text(*self));
        s
    }
}

} // verus!
