//! The error taxonomy of the record store.

use vstd::prelude::*;

verus! {

/// Why an operation was rejected. Every check runs before any mutation, so an
/// error always leaves the store exactly as it was.
#[derive(Clone, Copy, PartialEq, Eq, Structural, Debug)]
pub enum BlogError {
    /// A blog title is over 100 bytes, or a post title over 200 bytes.
    TitleTooLong,
    /// A blog description is over 500 bytes.
    DescriptionTooLong,
    /// Appending a chunk would push a post's content over 5000 bytes.
    ContentTooLong,
    /// A post was given more than 2 tags.
    TooManyTags,
    /// A single tag is over 10 bytes.
    TagTooLong,
    /// The addressed post does not exist, or its blog back-reference is the
    /// zero identity and it cannot be deleted.
    PostNotFound,
    /// The caller is not the recorded author of the record it tried to mutate.
    UnauthorizedAuthor,
    /// A blog already exists at the address derived from the author.
    BlogAlreadyExists,
    /// The blog a new post was addressed to does not exist.
    BlogNotFound,
}

} // verus!
