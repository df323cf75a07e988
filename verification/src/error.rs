//! The failure taxonomy of the build pipeline, and the error value that
//! carries a failure's message.

use vstd::prelude::*;

verus! {

/// Every way one content file can fail to become a post. A failure is data:
/// it never aborts the walk over the other files.
#[derive(Clone, Copy, Debug, PartialEq, Eq, Structural)]
pub enum Reason {
    /// The path has no file-name component.
    MissingName,
    /// The file name holds no `.`.
    MissingExtension,
    /// The extension is not the accepted one.
    InvalidExtension,
    /// The year token is absent.
    MissingYear,
    /// The year token is not a number.
    InvalidYear,
    /// The month token is absent.
    MissingMonth,
    /// The month token is not a number.
    InvalidMonth,
    /// The day token is absent.
    MissingDay,
    /// The day token is not a number.
    InvalidDay,
    /// The three numbers do not name a real calendar date.
    InvalidDate,
    /// No title tokens follow the date.
    EmptyTitle,
    /// The file's content could not be read.
    ReadError,
    /// The frontmatter block is absent, malformed, or lacks a field.
    MetadataDecodeError,
    /// The file sits directly under the content root.
    NotInCollection,
    /// The file sits more than one directory below the content root.
    NestedTooDeep,
}

/// The human-readable message reported for each failure reason.
pub open spec fn message_of(reason: Reason) -> Seq<char> {
    match reason {
        Reason::MissingName => "file has no name"@,
        Reason::MissingExtension => "no file extension"@,
        Reason::InvalidExtension => "invalid file extension"@,
        Reason::MissingYear => "no year component of name"@,
        Reason::InvalidYear => "could not parse year"@,
        Reason::MissingMonth => "no month component of name"@,
        Reason::InvalidMonth => "could not parse month"@,
        Reason::MissingDay => "no day component of name"@,
        Reason::InvalidDay => "could not parse day"@,
        Reason::InvalidDate => "could not parse date"@,
        Reason::EmptyTitle => "post has no title"@,
        Reason::ReadError => "could not read markdown file"@,
        Reason::MetadataDecodeError => "failed to create YAML frontmatter"@,
        Reason::NotInCollection => "post does not belong to a collection"@,
        Reason::NestedTooDeep => "directories nested too deep."@,
    }
}

/// A per-file build failure, carrying its human-readable message.
#[derive(Clone, Debug)]
pub struct PostError {
    pub message: String,
}

impl PartialEq for PostError {
    fn eq(&self, other: &PostError) -> (r: bool) {
        self.message == other.message
    }
}

impl vstd::std_specs::cmp::PartialEqSpecImpl for PostError {
    open spec fn obeys_eq_spec() -> bool {
        true
    }

    open spec fn eq_spec(&self, other: &PostError) -> bool {
        self.message@ == other.message@
    }
}

impl PostError {
    /// Wrap a message in an error value.
    pub fn new(message: &str) -> (r: PostError)
        ensures
            r.message@ == message@,
    {
        PostError { message: String::from_str(message) }
    }

    /// The error reported for `reason`.
    pub fn from_reason(reason: Reason) -> (r: PostError)
        ensures
            r.message@ == message_of(reason),
    {
        match reason {
            Reason::MissingName => PostError::new("file has no name"),
            Reason::MissingExtension => PostError::new("no file extension"),
            Reason::InvalidExtension => PostError::new("invalid file extension"),
            Reason::MissingYear => PostError::new("no year component of name"),
            Reason::InvalidYear => PostError::new("could not parse year"),
            Reason::MissingMonth => PostError::new("no month component of name"),
            Reason::InvalidMonth => PostError::new("could not parse month"),
            Reason::MissingDay => PostError::new("no day component of name"),
            Reason::InvalidDay => PostError::new("could not parse day"),
            Reason::InvalidDate => PostError::new("could not parse date"),
            Reason::EmptyTitle => PostError::new("post has no title"),
            Reason::ReadError => PostError::new("could not read markdown file"),
            Reason::MetadataDecodeError => PostError::new("failed to create YAML frontmatter"),
            Reason::NotInCollection => PostError::new("post does not belong to a collection"),
            Reason::NestedTooDeep => PostError::new("directories nested too deep."),
        }
    }
}

} // verus!
