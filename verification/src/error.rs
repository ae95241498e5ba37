//! Failure taxonomy of the export core. Every error is fatal to the enclosing
//! operation: the export is all-or-nothing per run, so there is no local
//! recovery beyond what the transport's retry policy already provides.

use vstd::prelude::*;

verus! {

/// The required field (and the purpose it serves) that a fetched record was
/// missing. Field lookup failures are always fatal to the current operation.
#[derive(Clone, Copy, Debug, PartialEq, Eq, Structural)]
pub enum Field {
    /// `title` of an entry in a folder listing.
    ItemTitle,
    /// `location` (detail URL) of an entry in a folder listing.
    ItemLocation,
    /// `type` discriminator of an entry in a folder listing.
    ItemType,
    /// `body` of a page record.
    PageBody,
    /// `revision` array of a submissions record.
    Revisions,
    /// `revision_id` of one submission revision.
    RevisionId,
    /// `download_path` of one attachment entry.
    AttachmentDownloadPath,
    /// `filename` of one attachment entry.
    AttachmentFilename,
    /// `picture_url` of a user or school record.
    PictureUrl,
    /// `id` of one feed entry.
    FeedEntryId,
    /// `uid` of one activity update.
    UpdateUid,
    /// `comments` array of one activity update.
    UpdateComments,
    /// `uid` of one comment on an activity update.
    CommentUid,
    /// `links.self` (detail URL) of one message.
    MessageUrl,
    /// The collection array of a feed page (for example `update` or
    /// `message`).
    FeedItems,
}

/// An error of the export core.
#[derive(Debug)]
pub enum ExportError {
    /// A required key was absent from a fetched record, or held a value of
    /// the wrong shape.
    MissingField(Field),
    /// A folder entry carried a `type` outside the known set: a protocol
    /// violation, fatal to the enclosing traversal.
    UnknownItemType(String),
    /// No document was available at the given URL.
    NotFound(String),
}

/// The mathematical value of an [`ExportError`].
pub enum ErrorV {
    MissingField(Field),
    UnknownItemType(Seq<char>),
    NotFound(Seq<char>),
}

impl View for ExportError {
    type V = ErrorV;

    open spec fn view(&self) -> ErrorV {
        match self {
            ExportError::MissingField(f) => ErrorV::MissingField(*f),
            ExportError::UnknownItemType(t) => ErrorV::UnknownItemType(t@),
            ExportError::NotFound(u) => ErrorV::NotFound(u@),
        }
    }
}

impl ExportError {
    /// True exactly when the error is the protocol violation of an
    /// unrecognized folder-entry type.
    pub fn is_unknown_item_type(&self) -> (r: bool)
        ensures
            r == (self@ is UnknownItemType),
    {
        match self {
            ExportError::UnknownItemType(_) => true,
            _ => false,
        }
    }
}

} // verus!
