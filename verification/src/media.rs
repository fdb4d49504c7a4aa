//! Where a message's file stands on its way from the backend to the screen.

use crate::backend::FileKind;
use vstd::prelude::*;

verus! {

/// The state of a message's file. A message without an entry has not been
/// asked for yet.
#[derive(Debug, Clone, Copy, PartialEq, Eq, Structural)]
pub enum FileMeta {
    /// The backend has been asked for the file.
    Downloading,
    /// The file lies in the media directory.
    Downloaded,
    /// The backend could not deliver the file.
    DownloadFailed,
    /// The picture is being decoded.
    Loading,
    /// The picture is decoded and can be drawn.
    Loaded,
    /// The file could not be decoded.
    LoadFailed,
}

/// What is kept per message beside the message itself.
#[derive(Debug, Clone, Copy, PartialEq, Eq, Structural)]
pub enum Metadata {
    File(FileMeta),
}

/// Rows that a picture takes once its file is there.
pub const PICTURE_ROWS: usize = 12;

/// Rows that the file of a message takes on screen: a picture whose file
/// has arrived takes `PICTURE_ROWS`, everything else one row.
pub open spec fn file_rows(kind: FileKind, meta: Option<Metadata>) -> nat {
    if (kind == FileKind::Image || kind == FileKind::Sticker) && (meta == Some(
        Metadata::File(FileMeta::Downloaded),
    ) || meta == Some(Metadata::File(FileMeta::Loading)) || meta == Some(
        Metadata::File(FileMeta::Loaded),
    )) {
        PICTURE_ROWS as nat
    } else {
        1
    }
}

/// Rows that the file of a message takes on screen.
pub fn file_content_height(kind: FileKind, meta: Option<Metadata>) -> (rows: usize)
    ensures
        rows == file_rows(kind, meta),
{
    match kind {
        FileKind::Image | FileKind::Sticker => match meta {
            None => 1,
            Some(Metadata::File(state)) => match state {
                FileMeta::Downloaded | FileMeta::Loading | FileMeta::Loaded => PICTURE_ROWS,
                FileMeta::Downloading | FileMeta::DownloadFailed | FileMeta::LoadFailed => 1,
            },
        },
        FileKind::Video => 1,
        FileKind::Audio => 1,
        FileKind::Document => 1,
    }
}

} // verus!
