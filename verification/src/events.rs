//! Everything that can happen to the client, in one stream, and what the
//! client makes of each item of it.

use crate::app::{id_views, App, ChatUpdate};
use crate::merge::{
    chat_of_message, keys_with, merged_chats, merged_index, merged_messages, receipted,
    updated_chat,
};
use crate::backend::{DownloadFailed, Event, FileId, Message, MessageId};
use crate::input::Action;
use crate::keys::TerminalEvent;
use crate::media::{FileMeta, Metadata};
use vstd::prelude::*;

verus! {

/// What the client tells itself, mostly from background work.
#[derive(Debug)]
pub enum AppEvent {
    /// The file of a message has come into view and is wanted.
    DownloadFile(MessageId, FileId),
    /// The backend has fetched the file of a message, or failed to.
    DownloadFinished(MessageId, Result<(), DownloadFailed>),
    /// The picture of a message, stored under this path, is wanted.
    LoadPreview(MessageId, String),
    /// The picture of a message has been decoded, or could not be.
    PreviewReady(MessageId, bool),
    /// The file of a message is in this state now.
    SetFileState(MessageId, FileMeta),
}

/// One item of the stream that the client works through in order.
#[derive(Debug)]
pub enum AppInput {
    /// The screen is to be drawn again.
    Draw,
    App(AppEvent),
    /// A message has arrived.
    Message(Message),
    WhatsApp(Event),
    Terminal(TerminalEvent),
}

/// What came of one item of the stream.
#[derive(Debug)]
pub struct Outcome {
    /// Whether the screen is to be drawn again.
    pub should_draw: bool,
    /// What the program is asked to do, in this order.
    pub actions: Vec<Action>,
}

/// The state that a file is in after the backend has fetched it or failed
/// to.
pub open spec fn download_state(result: Result<(), DownloadFailed>) -> FileMeta {
    match result {
        Ok(_) => FileMeta::Downloaded,
        Err(_) => FileMeta::DownloadFailed,
    }
}

/// The state that a picture is in after a decoder has worked on it.
pub open spec fn preview_state(decoded: bool) -> FileMeta {
    if decoded {
        FileMeta::Loaded
    } else {
        FileMeta::LoadFailed
    }
}

impl App {
    /// Whether all but the state of the files is as in `before`.
    pub open spec fn same_but_files(&self, before: Self) -> bool {
        &&& self.messages == before.messages
        &&& self.chats == before.chats
        &&& self.chat_messages == before.chat_messages
        &&& self.sorted_chats == before.sorted_chats
        &&& self.selected_chat_index == before.selected_chat_index
        &&& self.view_unchanged(before)
    }

    /// Whether the state of a file has been set, and all else is as in
    /// `before`.
    pub open spec fn file_set(&self, before: Self, id: Seq<char>, state: FileMeta) -> bool {
        self.same_but_files(before) && self.metadata@ == before.metadata@.insert(
            id,
            Metadata::File(state),
        )
    }

    /// Whether a request for a file or a picture has been dealt with: it
    /// goes out, and the file is marked with `mark`, unless the file bears
    /// that mark already; then nothing happens.
    pub open spec fn requested(
        &self,
        before: Self,
        id: Seq<char>,
        mark: FileMeta,
        request: Action,
        actions: Seq<Action>,
    ) -> bool {
        if before.metadata@.contains_key(id) && before.metadata@[id] == Metadata::File(mark) {
            self.unchanged(before) && actions.len() == 0
        } else {
            self.file_set(before, id, mark) && actions == seq![request]
        }
    }

    /// What the client makes of what it tells itself.
    pub open spec fn app_event_handled(
        &self,
        before: Self,
        event: AppEvent,
        actions: Seq<Action>,
    ) -> bool {
        match event {
            AppEvent::DownloadFile(message_id, file_id) => self.requested(
                before,
                message_id@,
                FileMeta::Downloading,
                Action::Download { message_id, file_id },
                actions,
            ),
            AppEvent::DownloadFinished(message_id, result) => self.file_set(
                before,
                message_id@,
                download_state(result),
            ) && actions.len() == 0,
            AppEvent::LoadPreview(message_id, path) => self.requested(
                before,
                message_id@,
                FileMeta::Loading,
                Action::Decode { message_id, path },
                actions,
            ),
            AppEvent::PreviewReady(message_id, decoded) => self.file_set(
                before,
                message_id@,
                preview_state(decoded),
            ) && actions.len() == 0,
            AppEvent::SetFileState(message_id, state) => self.file_set(before, message_id@, state)
                && actions.len() == 0,
        }
    }

    /// What the client makes of a notification from the backend: progress
    /// is noted, the end of the sync has the contacts fetched, a receipt is
    /// counted.
    pub open spec fn backend_event_handled(
        &self,
        before: Self,
        event: Event,
        actions: Seq<Action>,
    ) -> bool {
        match event {
            Event::SyncProgress(percent) => {
                &&& self.messages == before.messages
                &&& self.chats == before.chats
                &&& self.chat_messages == before.chat_messages
                &&& self.metadata == before.metadata
                &&& self.sorted_chats == before.sorted_chats
                &&& self.selected_chat_index == before.selected_chat_index
                &&& self.selected_chat_jid == before.selected_chat_jid
                &&& self.history_sync_percent == Some(percent)
                &&& self.quoting_message == before.quoting_message
                &&& self.message_list_state == before.message_list_state
                &&& self.selected_widget == before.selected_widget
                &&& self.vim == before.vim
                &&& self.compose == before.compose
                &&& self.should_quit == before.should_quit
                &&& actions.len() == 0
            },
            Event::AppStateSyncComplete => self.unchanged(before) && actions == seq![
                Action::FetchContacts,
            ],
            Event::Receipt { chat, message_ids, kind } => {
                &&& self.messages@ == receipted(before.messages@, id_views(message_ids@))
                &&& self.chats == before.chats
                &&& self.chat_messages == before.chat_messages
                &&& self.rest_unchanged(before)
                &&& actions.len() == 0
            },
        }
    }

    /// What the client makes of a message that has arrived: it is merged
    /// into the tables, a chat that is new goes to the end of the order of
    /// arrival, and the message and its chat are handed to the persistent
    /// store.
    pub open spec fn message_handled(
        &self,
        before: Self,
        message: Message,
        actions: Seq<Action>,
    ) -> bool {
        let update = ChatUpdate::Seen(message.info.timestamp);
        &&& self.messages@ == merged_messages(before.messages@, message)
        &&& forall|chat: Seq<char>| #[trigger]
            self.indexed(chat) == merged_index(
                before.indexed(chat),
                before.messages@,
                message,
                chat,
            )
        &&& self.chats@ == merged_chats(before.chats@, chat_of_message(message), update)
        &&& self.chats.keys() == keys_with(before.chats.keys(), message.info.chat@)
        &&& self.metadata == before.metadata
        &&& self.view_unchanged(before)
        &&& actions == seq![
            Action::PersistMessage(message),
            Action::PersistChat(updated_chat(before.chats@, chat_of_message(message), update)),
        ]
    }

    /// What the client makes of one item of the stream. The screen is
    /// drawn again after every item but a message.
    pub open spec fn input_handled_as(
        &self,
        before: Self,
        input: AppInput,
        outcome: Outcome,
    ) -> bool {
        match input {
            AppInput::Draw => self.unchanged(before) && outcome.should_draw
                && outcome.actions@.len() == 0,
            AppInput::App(event) => self.app_event_handled(before, event, outcome.actions@)
                && outcome.should_draw,
            AppInput::Message(message) => self.message_handled(before, message, outcome.actions@)
                && !outcome.should_draw,
            AppInput::WhatsApp(event) => self.backend_event_handled(
                before,
                event,
                outcome.actions@,
            ) && outcome.should_draw,
            AppInput::Terminal(event) => self.handled(before, event, outcome.actions@)
                && outcome.should_draw,
        }
    }

    /// Deals with what the client tells itself.
    pub fn on_app_event(&mut self, event: AppEvent) -> (actions: Vec<Action>)
        requires
            old(self).wf(),
        ensures
            final(self).wf(),
            final(self).app_event_handled(*old(self), event, actions@),
    {
        let mut actions: Vec<Action> = Vec::new();
        match event {
            AppEvent::DownloadFile(message_id, file_id) => {
                if self.request_download(message_id.clone()) {
                    actions.push(Action::Download { message_id, file_id });
                }
            },
            AppEvent::DownloadFinished(message_id, result) => {
                let state = match result {
                    Ok(_) => FileMeta::Downloaded,
                    Err(_) => FileMeta::DownloadFailed,
                };
                self.apply_file_event(message_id, state);
            },
            AppEvent::LoadPreview(message_id, path) => {
                if self.request_preview(message_id.clone()) {
                    actions.push(Action::Decode { message_id, path });
                }
            },
            AppEvent::PreviewReady(message_id, decoded) => {
                let state = if decoded {
                    FileMeta::Loaded
                } else {
                    FileMeta::LoadFailed
                };
                self.apply_file_event(message_id, state);
            },
            AppEvent::SetFileState(message_id, state) => {
                self.apply_file_event(message_id, state);
            },
        }
        actions
    }

    /// Deals with a notification from the backend.
    pub fn on_backend_event(&mut self, event: Event) -> (actions: Vec<Action>)
        requires
            old(self).wf(),
        ensures
            final(self).wf(),
            final(self).backend_event_handled(*old(self), event, actions@),
    {
        let mut actions: Vec<Action> = Vec::new();
        match event {
            Event::SyncProgress(percent) => {
                self.history_sync_percent = Some(percent);
                proof {
                    self.lemma_index_frame(*old(self));
                }
            },
            Event::AppStateSyncComplete => {
                actions.push(Action::FetchContacts);
            },
            Event::Receipt { chat, message_ids, kind } => {
                self.apply_receipt(&chat, &message_ids, kind);
            },
        }
        actions
    }

    /// Deals with one item of the stream and says what the program has to
    /// do about it.
    pub fn handle(&mut self, input: AppInput) -> (outcome: Outcome)
        requires
            old(self).wf(),
        ensures
            final(self).wf(),
            final(self).input_handled_as(*old(self), input, outcome),
    {
        match input {
            AppInput::Draw => Outcome { should_draw: true, actions: Vec::new() },
            AppInput::App(event) => {
                let actions = self.on_app_event(event);
                Outcome { should_draw: true, actions }
            },
            AppInput::Message(message) => {
                let mut actions: Vec<Action> = Vec::new();
                actions.push(Action::PersistMessage(message.clone()));
                proof {
                    self.chats.lemma_has_key(message.info.chat@);
                }
                let stored = self.apply_inbound_message(message);
                actions.push(Action::PersistChat(stored));
                proof {
                    assert(actions@ =~= seq![
                        Action::PersistMessage(message),
                        Action::PersistChat(stored),
                    ]);
                }
                Outcome { should_draw: false, actions }
            },
            AppInput::WhatsApp(event) => {
                let actions = self.on_backend_event(event);
                Outcome { should_draw: true, actions }
            },
            AppInput::Terminal(event) => {
                let actions = self.on_event(event);
                Outcome { should_draw: true, actions }
            },
        }
    }
}

} // verus!
