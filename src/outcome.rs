use crate::listing::{listed, DirectoryEntry, ListingPolicy, RawEntry};
use crate::name::{decorated, holds_reset, hue_of, is_painted, Hue};
use crate::render::{
    is_rendering, line_of, padded, render_listing, renders_all, size_field_of, SIZE_WIDTH,
};
use crate::timestamp::time_text_of;
use vstd::prelude::*;

verus! {

/// What reading the target path gave.
#[derive(Debug)]
pub enum DirectoryRead {
    /// The path is not a directory: there is nothing to list.
    NotADirectory,
    /// The whole directory stream, in the order the filesystem gave it.
    Entries(Vec<RawEntry>),
    /// Opening or reading the directory stream failed, with this message.
    Failed(String),
}

/// The directory could not be opened or read; the whole listing is abandoned.
#[derive(Debug)]
pub struct DirectoryAccessError {
    pub message: String,
}

impl DirectoryAccessError {
    /// The message reported to the user.
    pub fn message(&self) -> (r: String)
        ensures
            r == self.message,
    {
        self.message.clone()
    }
}

/// `r` is the outcome of listing what was read under the policy.
pub open spec fn is_outcome(
    r: Result<Vec<String>, DirectoryAccessError>,
    read: DirectoryRead,
    policy: ListingPolicy,
    utc_offset_seconds: i32,
) -> bool {
    match read {
        DirectoryRead::NotADirectory => r is Ok && r->Ok_0@.len() == 0,
        DirectoryRead::Failed(m) => r is Err && r->Err_0.message == m,
        DirectoryRead::Entries(v) => r is Ok && renders_all(
            r->Ok_0@,
            listed(v@, policy),
            utc_offset_seconds,
        ),
    }
}

/// The lines to print for what was read, or the error that ends the run.
pub fn listing_lines(read: DirectoryRead, policy: ListingPolicy, utc_offset_seconds: i32) -> (r:
    Result<Vec<String>, DirectoryAccessError>)
    ensures
        is_outcome(r, read, policy, utc_offset_seconds),
{
    match read {
        DirectoryRead::NotADirectory => Ok(Vec::new()),
        DirectoryRead::Failed(message) => Err(DirectoryAccessError { message }),
        DirectoryRead::Entries(v) => Ok(render_listing(&v, policy, utc_offset_seconds)),
    }
}

/// The process status for an outcome: zero on success, one on an access error.
pub open spec fn exit_status_of(r: Result<Vec<String>, DirectoryAccessError>) -> i32 {
    if r is Ok {
        0
    } else {
        1
    }
}

/// The process status for an outcome.
pub fn exit_status(r: &Result<Vec<String>, DirectoryAccessError>) -> (s: i32)
    ensures
        s == exit_status_of(*r),
{
    match r {
        Ok(_) => 0,
        Err(_) => 1,
    }
}

/// A path that is not a directory lists nothing and succeeds.
pub proof fn lemma_not_a_directory(
    r: Result<Vec<String>, DirectoryAccessError>,
    policy: ListingPolicy,
    utc_offset_seconds: i32,
)
    requires
        is_outcome(r, DirectoryRead::NotADirectory, policy, utc_offset_seconds),
    ensures
        r is Ok,
        r->Ok_0@.len() == 0,
        exit_status_of(r) == 0,
{
}

/// A directory that cannot be opened or read prints no entry line, reports its
/// message and fails.
pub proof fn lemma_access_failure(
    r: Result<Vec<String>, DirectoryAccessError>,
    message: String,
    policy: ListingPolicy,
    utc_offset_seconds: i32,
)
    requires
        is_outcome(r, DirectoryRead::Failed(message), policy, utc_offset_seconds),
    ensures
        r is Err,
        r->Err_0.message == message,
        exit_status_of(r) != 0,
{
}

/// Every listed entry gets its line, in order, whatever became of the others'
/// metadata; an entry whose metadata could not be read shows `-` as its size and
/// an empty time.
pub proof fn lemma_unreadable_metadata(
    lines: Seq<String>,
    entries: Seq<DirectoryEntry>,
    utc_offset_seconds: i32,
    i: int,
)
    requires
        renders_all(lines, entries, utc_offset_seconds),
        0 <= i < entries.len(),
        entries[i].size_bytes is None,
        entries[i].modified_at is None,
    ensures
        lines.len() == entries.len(),
        exists|a: Seq<char>, b: Seq<char>|
            is_painted(a, padded(seq!['-'], SIZE_WIDTH as nat), Hue::BrightBlue) && lines[i]@ == a
                + seq![' ', ' '] + b,
{
    assert(is_rendering(lines[i]@, entries[i], utc_offset_seconds));
    let e = entries[i];
    let name = decorated(e.name@, e.is_directory);
    let (a, b) = choose|a: Seq<char>, b: Seq<char>|
        is_painted(a, size_field_of(e), Hue::BrightBlue) && (!holds_reset(name) ==> is_painted(
            b,
            name,
            hue_of(e.is_directory),
        )) && lines[i]@ == #[trigger] line_of(a, time_text_of(e.modified_at, utc_offset_seconds), b);
    assert(lines[i]@ =~= a + seq![' ', ' '] + b);
}

} // verus!
