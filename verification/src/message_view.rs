//! What a message looks like: its height, its lines, and what is shown for
//! its file.

use crate::backend::{FileKind, Message, MessageContent};
use crate::media::{file_content_height, file_rows, FileMeta, Metadata};
use crate::text::{wrap_text, wrapped};
use vstd::prelude::*;
use vstd::string::*;

verus! {

/// The text that stands for a message where another message quotes it: a
/// text message's text, a file's path and caption.
pub open spec fn quoted_text(message: Message) -> Seq<char> {
    match message.message {
        MessageContent::Text(text) => text@,
        MessageContent::File(file) => file.path@ + ": "@ + match file.caption {
            Some(caption) => caption@,
            None => Seq::<char>::empty(),
        },
    }
}

/// The text that stands for a message where another message quotes it.
pub fn get_quoted_text(msg: &Message) -> (res: String)
    ensures
        res@ == quoted_text(*msg),
{
    match &msg.message {
        MessageContent::Text(text) => text.clone(),
        MessageContent::File(data) => {
            let start = data.path.clone().concat(": ");
            match &data.caption {
                Some(caption) => start.concat(caption.as_str()),
                None => {
                    start
                },
            }
        },
    }
}

/// Rows of a message's head: the sender's line, and the quoted line if the
/// message answers another.
pub open spec fn header_rows(message: Message) -> nat {
    if message.info.quote_id is Some {
        2
    } else {
        1
    }
}

/// Rows that a message takes at a width: its head, the lines of its text
/// or caption, and the rows of its file.
pub open spec fn message_rows(message: Message, width: nat, meta: Option<Metadata>) -> nat {
    header_rows(message) + match message.message {
        MessageContent::Text(text) => wrapped(text@, width).len(),
        MessageContent::File(file) => file_rows(file.kind, meta) + match file.caption {
            Some(caption) => wrapped(caption@, width).len(),
            None => 0,
        },
    }
}

/// The lines of text that a message shows at a width: its text, or the
/// caption of its file, broken into lines.
pub open spec fn body_lines_of(message: Message, width: nat) -> Seq<Seq<char>> {
    match message.message {
        MessageContent::Text(text) => wrapped(text@, width),
        MessageContent::File(file) => match file.caption {
            Some(caption) => wrapped(caption@, width),
            None => Seq::empty(),
        },
    }
}

/// The rows of a message are those of its head, of its file if it has one,
/// and of its lines of text.
pub proof fn lemma_message_rows(message: Message, width: nat, meta: Option<Metadata>)
    ensures
        message_rows(message, width, meta) == header_rows(message) + body_lines_of(
            message,
            width,
        ).len() + match message.message {
            MessageContent::Text(_) => 0,
            MessageContent::File(file) => file_rows(file.kind, meta),
        },
{
}

/// The lines of text that a message shows at a width.
pub fn body_lines(message: &Message, width: usize) -> (lines: Vec<String>)
    ensures
        lines@.len() == body_lines_of(*message, width as nat).len(),
        forall|i: int|
            0 <= i < lines@.len() ==> (#[trigger] lines@[i])@ == body_lines_of(
                *message,
                width as nat,
            )[i],
{
    match &message.message {
        MessageContent::Text(text) => wrap_text(text.as_str(), width),
        MessageContent::File(data) => match &data.caption {
            Some(caption) => wrap_text(caption.as_str(), width),
            None => Vec::new(),
        },
    }
}

/// The rows of a head, of lines of text and of a file together, if a
/// `usize` can hold them.
pub fn stacked_rows(quoted: bool, text_lines: usize, file_rows: usize) -> (rows: Option<usize>)
    ensures
        rows == if (if quoted {
            2int
        } else {
            1int
        }) + text_lines + file_rows <= usize::MAX {
            Some(
                ((if quoted {
                    2int
                } else {
                    1int
                }) + text_lines + file_rows) as usize,
            )
        } else {
            None
        },
{
    let head: usize = if quoted {
        2
    } else {
        1
    };
    match text_lines.checked_add(file_rows) {
        Some(body) => body.checked_add(head),
        None => None,
    }
}

/// Rows that a message takes at a width, given the state of its file;
/// `None` if a `usize` cannot hold them.
pub fn message_height(message: &Message, width: usize, meta: Option<Metadata>) -> (rows: Option<usize>)
    ensures
        rows == if message_rows(*message, width as nat, meta) <= usize::MAX {
            Some(message_rows(*message, width as nat, meta) as usize)
        } else {
            None
        },
{
    let quoted = message.info.quote_id.is_some();
    match &message.message {
        MessageContent::Text(text) => {
            let lines = wrap_text(text.as_str(), width);
            stacked_rows(quoted, lines.len(), 0)
        },
        MessageContent::File(data) => {
            let lines = match &data.caption {
                Some(caption) => wrap_text(caption.as_str(), width).len(),
                None => 0,
            };
            stacked_rows(quoted, lines, file_content_height(data.kind, meta))
        },
    }
}

/// What is shown for the file of a message.
#[derive(Debug, Clone, Copy, PartialEq, Eq, Structural)]
pub enum MediaView {
    /// The file is not there yet.
    Pending,
    /// The backend could not deliver the file.
    DownloadFailed,
    /// The file could not be decoded.
    LoadFailed,
    /// The file is there and is not a picture.
    Stored,
    /// The file is a picture and is there.
    Picture,
}

/// What the client has to ask for so that a file can be shown.
#[derive(Debug, Clone, Copy, PartialEq, Eq, Structural)]
pub enum MediaRequest {
    /// The file has to be fetched from the backend.
    Download,
    /// The picture has to be decoded.
    Preview,
}

/// What is shown for a file of the given kind in the given state.
pub open spec fn media_view_of(kind: FileKind, meta: Option<Metadata>) -> MediaView {
    match meta {
        None => MediaView::Pending,
        Some(Metadata::File(FileMeta::Downloading)) => MediaView::Pending,
        Some(Metadata::File(FileMeta::DownloadFailed)) => MediaView::DownloadFailed,
        Some(Metadata::File(FileMeta::LoadFailed)) => MediaView::LoadFailed,
        Some(Metadata::File(_)) => if kind == FileKind::Image || kind == FileKind::Sticker {
            MediaView::Picture
        } else {
            MediaView::Stored
        },
    }
}

/// What has to be asked for when a file of the given kind in the given
/// state comes into view: a file never asked for is fetched, a picture
/// that has arrived is decoded, and nothing is asked for twice or again
/// after a failure.
pub open spec fn media_request_of(kind: FileKind, meta: Option<Metadata>) -> Option<MediaRequest> {
    match meta {
        None => Some(MediaRequest::Download),
        Some(Metadata::File(FileMeta::Downloaded)) => if kind == FileKind::Image || kind
            == FileKind::Sticker {
            Some(MediaRequest::Preview)
        } else {
            None
        },
        Some(_) => None,
    }
}

/// What is shown for a file of the given kind in the given state.
pub fn media_view(kind: FileKind, meta: Option<Metadata>) -> (view: MediaView)
    ensures
        view == media_view_of(kind, meta),
{
    match meta {
        None => MediaView::Pending,
        Some(Metadata::File(state)) => match state {
            FileMeta::Downloading => MediaView::Pending,
            FileMeta::DownloadFailed => MediaView::DownloadFailed,
            FileMeta::LoadFailed => MediaView::LoadFailed,
            FileMeta::Downloaded | FileMeta::Loading | FileMeta::Loaded => if kind.is_picture() {
                MediaView::Picture
            } else {
                MediaView::Stored
            },
        },
    }
}

/// What has to be asked for when a file of the given kind in the given
/// state comes into view.
pub fn media_request(kind: FileKind, meta: Option<Metadata>) -> (request: Option<MediaRequest>)
    ensures
        request == media_request_of(kind, meta),
{
    match meta {
        None => Some(MediaRequest::Download),
        Some(Metadata::File(FileMeta::Downloaded)) => if kind.is_picture() {
            Some(MediaRequest::Preview)
        } else {
            None
        },
        Some(_) => None,
    }
}

/// The line shown in place of a file that is not drawn as a picture.
pub open spec fn media_label_of(view: MediaView, path: Seq<char>) -> Option<Seq<char>> {
    match view {
        MediaView::Pending => Some("🔗 "@ + path + " +"@),
        MediaView::DownloadFailed => Some("🔗 Failed to download "@ + path),
        MediaView::LoadFailed => Some("🔗 Failed to load "@ + path),
        MediaView::Stored => Some("🔗 "@ + path + " ✓"@),
        MediaView::Picture => None,
    }
}

/// The line shown in place of a file that is not drawn as a picture.
pub fn media_label(view: MediaView, path: &String) -> (label: Option<String>)
    ensures
        label is Some <==> media_label_of(view, path@) is Some,
        label matches Some(text) ==> Some(text@) == media_label_of(view, path@),
{
    match view {
        MediaView::Pending => Some(String::from_str("🔗 ").concat(path.as_str()).concat(" +")),
        MediaView::DownloadFailed => Some(
            String::from_str("🔗 Failed to download ").concat(path.as_str()),
        ),
        MediaView::LoadFailed => Some(String::from_str("🔗 Failed to load ").concat(path.as_str())),
        MediaView::Stored => Some(String::from_str("🔗 ").concat(path.as_str()).concat(" ✓")),
        MediaView::Picture => None,
    }
}

} // verus!
