//! The core of a chat client for the terminal: the state that messages,
//! receipts and contact lists are merged into, the layout of the message
//! list, and the routing of keys, each with its contract.

pub mod app;
pub mod backend;
pub mod chat;
pub mod chords;
pub mod events;
pub mod geometry;
pub mod input;
pub mod keys;
pub mod list;
pub mod media;
pub mod merge;
pub mod message_list;
pub mod message_view;
pub mod order;
pub mod persist;
pub mod reconcile;
pub mod render;
pub mod sorted;
pub mod table;
pub mod text;
pub mod timestamp;
pub mod vim;

pub use app::{App, SelectedWidget};
pub use chat::{get_contact_name, Chat};
pub use events::{AppEvent, AppInput};
pub use media::{FileMeta, Metadata};
