//! Values exchanged with the messaging backend.

use vstd::prelude::*;
use vstd::std_specs::cmp::PartialEqSpecImpl;
use vstd::std_specs::convert::FromSpecImpl;

verus! {

/// Identifier of a message, unique over all chats.
pub type MessageId = String;

/// Identifier under which the backend serves a file.
pub type FileId = String;

/// Stable handle of a conversation peer, a person or a group.
#[derive(Debug, Eq, Hash)]
pub struct JID(pub String);

impl View for JID {
    type V = Seq<char>;

    open spec fn view(&self) -> Seq<char> {
        self.0@
    }
}

impl Clone for JID {
    fn clone(&self) -> (res: Self)
        ensures
            res == *self,
    {
        JID(self.0.clone())
    }
}

impl PartialEq for JID {
    fn eq(&self, other: &Self) -> (res: bool) {
        self.0 == other.0
    }
}

impl PartialEqSpecImpl for JID {
    open spec fn obeys_eq_spec() -> bool {
        true
    }

    open spec fn eq_spec(&self, other: &Self) -> bool {
        self.0@ == other.0@
    }
}

impl From<String> for JID {
    fn from(jid: String) -> (res: Self) {
        JID(jid)
    }
}

impl FromSpecImpl<String> for JID {
    open spec fn obeys_from_spec() -> bool {
        true
    }

    open spec fn from_spec(jid: String) -> Self {
        JID(jid)
    }
}

impl From<JID> for String {
    fn from(jid: JID) -> (res: Self) {
        jid.0
    }
}

impl FromSpecImpl<JID> for String {
    open spec fn obeys_from_spec() -> bool {
        true
    }

    open spec fn from_spec(jid: JID) -> Self {
        jid.0
    }
}

/// Facts about a message that do not depend on what it carries.
#[derive(Debug)]
pub struct MessageInfo {
    pub id: MessageId,
    pub chat: JID,
    pub sender: JID,
    /// Seconds since the epoch.
    pub timestamp: i64,
    pub is_from_me: bool,
    /// The message this one answers; it may name a message never seen.
    pub quote_id: Option<MessageId>,
    /// How many receipts have been applied to the message.
    pub read_count: u64,
}

impl MessageInfo {
    /// Whether at least one receipt has reached the message.
    pub fn is_read(&self) -> (res: bool)
        ensures
            res == (self.read_count > 0),
    {
        self.read_count > 0
    }
}

impl Clone for MessageInfo {
    fn clone(&self) -> (res: Self)
        ensures
            res == *self,
    {
        MessageInfo {
            id: self.id.clone(),
            chat: self.chat.clone(),
            sender: self.sender.clone(),
            timestamp: self.timestamp,
            is_from_me: self.is_from_me,
            quote_id: clone_opt_string(&self.quote_id),
            read_count: self.read_count,
        }
    }
}

/// A copy of an optional string.
pub fn clone_opt_string(s: &Option<String>) -> (res: Option<String>)
    ensures
        res == *s,
{
    match s {
        Some(text) => Some(text.clone()),
        None => None,
    }
}

/// What kind of file a message carries.
#[derive(Debug, Clone, Copy, PartialEq, Eq, Structural)]
pub enum FileKind {
    Image,
    Video,
    Audio,
    Document,
    Sticker,
}

impl FileKind {
    /// The number the backend sends for each kind.
    pub open spec fn repr(self) -> int {
        match self {
            FileKind::Image => 0,
            FileKind::Video => 1,
            FileKind::Audio => 2,
            FileKind::Document => 3,
            FileKind::Sticker => 4,
        }
    }

    /// The number the backend sends for this kind.
    pub fn to_repr(&self) -> (value: u8)
        ensures
            value == self.repr(),
    {
        match self {
            FileKind::Image => 0,
            FileKind::Video => 1,
            FileKind::Audio => 2,
            FileKind::Document => 3,
            FileKind::Sticker => 4,
        }
    }

    /// The kind that the backend names by `value`, if there is one.
    pub fn from_repr(value: u8) -> (res: Option<FileKind>)
        ensures
            value > 4 <==> res is None,
            res matches Some(kind) ==> kind.repr() == value,
            forall|kind: FileKind| kind.repr() == value ==> res == Some(kind),
    {
        match value {
            0 => Some(FileKind::Image),
            1 => Some(FileKind::Video),
            2 => Some(FileKind::Audio),
            3 => Some(FileKind::Document),
            4 => Some(FileKind::Sticker),
            _ => None,
        }
    }

    /// Whether files of this kind are shown as a picture once they are on disk.
    pub fn is_picture(&self) -> (res: bool)
        ensures
            res == (*self == FileKind::Image || *self == FileKind::Sticker),
    {
        match self {
            FileKind::Image | FileKind::Sticker => true,
            _ => false,
        }
    }
}

impl Default for FileKind {
    fn default() -> (res: Self)
        ensures
            res == FileKind::Image,
    {
        FileKind::Image
    }
}

/// Whether a message carries text or a file.
#[derive(Debug, Clone, Copy, PartialEq, Eq, Structural)]
pub enum MessageType {
    Text,
    File,
}

impl MessageType {
    /// The type that the backend names by `value`: 0 for text, 1 for a
    /// file, and nothing else.
    pub fn from_repr(value: u8) -> (res: Option<MessageType>)
        ensures
            res == if value == 0 {
                Some(MessageType::Text)
            } else if value == 1 {
                Some(MessageType::File)
            } else {
                None
            },
    {
        match value {
            0 => Some(MessageType::Text),
            1 => Some(MessageType::File),
            _ => None,
        }
    }
}

/// Which milestone a receipt reports.
#[derive(Debug, Clone, Copy, PartialEq, Eq, Structural)]
pub enum ReceiptKind {
    Delivered,
    Read,
    Played,
}

/// A notification from the backend that is not a message.
#[derive(Debug)]
pub enum Event {
    /// History sync has reached this many percent.
    SyncProgress(u8),
    /// Contacts and groups can now be asked for.
    AppStateSyncComplete,
    /// The named messages of a chat have reached a milestone.
    Receipt { chat: JID, message_ids: Vec<MessageId>, kind: ReceiptKind },
}

impl Event {
    /// The event that the backend encodes as a type number and one byte of
    /// data; numbers other than 0 and 1 name no event.
    pub fn from_repr(event_type: u8, data: u8) -> (res: Option<Event>)
        ensures
            event_type == 0 ==> res == Some(Event::SyncProgress(data)),
            event_type == 1 ==> res == Some(Event::AppStateSyncComplete),
            event_type > 1 ==> res is None,
    {
        match event_type {
            0 => Some(Event::SyncProgress(data)),
            1 => Some(Event::AppStateSyncComplete),
            _ => None,
        }
    }
}

/// A file attached to a message.
#[derive(Debug)]
pub struct FileContent {
    pub kind: FileKind,
    /// Where the file lies below the media directory.
    pub path: String,
    pub file_id: FileId,
    pub caption: Option<String>,
}

impl Clone for FileContent {
    fn clone(&self) -> (res: Self)
        ensures
            res == *self,
    {
        FileContent {
            kind: self.kind,
            path: self.path.clone(),
            file_id: self.file_id.clone(),
            caption: clone_opt_string(&self.caption),
        }
    }
}

impl Default for FileContent {
    fn default() -> (res: Self)
        ensures
            res.kind == FileKind::Image,
            res.path@ == Seq::<char>::empty(),
            res.file_id@ == Seq::<char>::empty(),
            res.caption is None,
    {
        FileContent {
            kind: FileKind::Image,
            path: String::new(),
            file_id: String::new(),
            caption: None,
        }
    }
}

/// What a message carries.
#[derive(Debug)]
pub enum MessageContent {
    Text(String),
    File(FileContent),
}

impl Clone for MessageContent {
    fn clone(&self) -> (res: Self)
        ensures
            res == *self,
    {
        match self {
            MessageContent::Text(text) => MessageContent::Text(text.clone()),
            MessageContent::File(file) => MessageContent::File(file.clone()),
        }
    }
}

/// One message of one chat.
#[derive(Debug)]
pub struct Message {
    pub info: MessageInfo,
    pub message: MessageContent,
}

impl Clone for Message {
    fn clone(&self) -> (res: Self)
        ensures
            res == *self,
    {
        Message { info: self.info.clone(), message: self.message.clone() }
    }
}

/// The names the backend knows a person by; an unknown name is empty.
#[derive(Debug)]
pub struct Contact {
    pub found: bool,
    pub first_name: String,
    pub full_name: String,
    pub push_name: String,
    pub business_name: String,
}

impl Clone for Contact {
    fn clone(&self) -> (res: Self)
        ensures
            res == *self,
    {
        Contact {
            found: self.found,
            first_name: self.first_name.clone(),
            full_name: self.full_name.clone(),
            push_name: self.push_name.clone(),
            business_name: self.business_name.clone(),
        }
    }
}

/// A group the account has joined.
#[derive(Debug)]
pub struct GroupInfo {
    pub jid: JID,
    pub name: String,
}

impl Clone for GroupInfo {
    fn clone(&self) -> (res: Self)
        ensures
            res == *self,
    {
        GroupInfo { jid: self.jid.clone(), name: self.name.clone() }
    }
}

/// The backend could not fetch a file.
#[derive(Debug, Clone, Copy, PartialEq, Eq, Structural)]
pub struct DownloadFailed;

/// Turns a value as the backend hands it to a callback into the value the
/// callback's owner receives.
pub trait CallbackTranslator<T>: Sized {
    fn to_rust(c_value: T) -> Self;
}

impl CallbackTranslator<bool> for bool {
    fn to_rust(c_value: bool) -> (res: bool)
        ensures
            res == c_value,
    {
        c_value
    }
}

impl CallbackTranslator<u8> for u8 {
    fn to_rust(c_value: u8) -> (res: u8)
        ensures
            res == c_value,
    {
        c_value
    }
}

} // verus!
