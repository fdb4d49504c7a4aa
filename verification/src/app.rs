//! The reconciled state of the client: messages, chats, the index from
//! chats to their messages, and what the interface has selected.

use crate::backend::{Message, MessageId, JID};
use crate::chat::Chat;
use crate::media::Metadata;
use crate::message_list::MessageListState;
use crate::order::{arrange, lemma_newest_first, newest_first};
use crate::table::Table;
use crate::vim::{Mode, Vim};
use vstd::prelude::*;

verus! {

/// The panel that receives the keys.
#[derive(Debug, Clone, Copy, PartialEq, Eq, Structural)]
pub enum SelectedWidget {
    ChatList,
    Input,
    MessageList,
    MessageView,
}

/// How an arriving piece of news changes a chat that is already known.
#[derive(Debug)]
pub enum ChatUpdate {
    /// A message sent at this time was seen.
    Seen(i64),
    /// The contact list gives this name.
    Named(Option<String>),
}

/// Everything the client knows and shows.
#[derive(Debug)]
pub struct App {
    /// Every message seen, under its identifier.
    pub messages: Table<Message>,
    /// Every chat seen, under its identifier.
    pub chats: Table<Chat>,
    /// For each chat the identifiers of its messages, in order of arrival.
    pub chat_messages: Table<Vec<MessageId>>,
    /// The state of each message's file.
    pub metadata: Table<Metadata>,
    /// The chats, the one with the newest message first.
    pub sorted_chats: Vec<Chat>,
    pub selected_chat_jid: Option<JID>,
    /// Where the selected chat stands in `sorted_chats`.
    pub selected_chat_index: Option<usize>,
    pub history_sync_percent: Option<u8>,
    /// The message that the next message sent will answer.
    pub quoting_message: Option<Message>,
    pub message_list_state: MessageListState,
    pub selected_widget: SelectedWidget,
    /// The mode of the compose box and the command keys held back.
    pub vim: Vim,
    /// What the compose box holds, line by line. The program around the
    /// client keeps this up to date.
    pub compose: Vec<String>,
    pub should_quit: bool,
}

/// The identifiers as sequences of characters.
pub open spec fn id_views(ids: Seq<MessageId>) -> Seq<Seq<char>> {
    Seq::new(ids.len(), |i: int| ids[i]@)
}

/// When each chat's newest message was sent.
pub open spec fn chat_times(chats: Seq<Chat>) -> Seq<Option<i64>> {
    Seq::new(chats.len(), |i: int| chats[i].last_message_time)
}

/// The chats with the newest message first; chats whose newest messages are
/// equally old, or that have none, keep the order in which they arrived,
/// and those without a message come last.
pub open spec fn by_recency(chats: Seq<Chat>) -> Seq<Chat> {
    arrange(chats, newest_first(chat_times(chats)))
}

/// When each message was sent.
pub open spec fn message_times(messages: Seq<Message>) -> Seq<Option<i64>> {
    Seq::new(messages.len(), |i: int| Some(messages[i].info.timestamp))
}

/// The messages with the newest first; messages sent at the same time keep
/// their order.
pub open spec fn newest_messages(messages: Seq<Message>) -> Seq<Message> {
    arrange(messages, newest_first(message_times(messages)))
}

impl Default for App {
    /// The state before anything has arrived: no messages, no chats, the
    /// chat list in focus.
    fn default() -> (app: Self)
        ensures
            app.wf(),
            app.messages@ == Map::<Seq<char>, Message>::empty(),
            app.chats@ == Map::<Seq<char>, Chat>::empty(),
            app.chats.entries@.len() == 0,
            app.chat_messages.entries@.len() == 0,
            app.metadata@ == Map::<Seq<char>, Metadata>::empty(),
            app.sorted_chats@.len() == 0,
            app.selected_chat_jid is None,
            app.selected_chat_index is None,
            app.history_sync_percent is None,
            app.quoting_message is None,
            app.message_list_state.selected is None,
            app.message_list_state.offset == 0,
            app.message_list_state.selected_message is None,
            !app.message_list_state.update_selected,
            app.selected_widget == SelectedWidget::ChatList,
            app.vim.mode == Mode::Insert,
            app.vim.chords.buffer@.len() == 0,
            app.compose@.len() == 0,
            !app.should_quit,
    {
        let app = App {
            messages: Table::new(),
            chats: Table::new(),
            chat_messages: Table::new(),
            metadata: Table::new(),
            sorted_chats: Vec::new(),
            selected_chat_jid: None,
            selected_chat_index: None,
            history_sync_percent: None,
            quoting_message: None,
            message_list_state: MessageListState::default(),
            selected_widget: SelectedWidget::ChatList,
            vim: Vim::new(Mode::Insert),
            compose: Vec::new(),
            should_quit: false,
        };
        proof {
            lemma_newest_first(chat_times(app.chats.values()));
            assert(app.sorted_chats@ =~= by_recency(app.chats.values()));
        }
        app
    }
}

impl App {
    /// The identifiers that the index lists under `chat`, in order of
    /// arrival.
    pub open spec fn indexed(&self, chat: Seq<char>) -> Seq<Seq<char>> {
        if self.chat_messages.has(chat) {
            id_views(self.chat_messages.value_of(chat)@)
        } else {
            Seq::empty()
        }
    }

    /// The index and the message table agree: what the index lists is in
    /// the table, what is in the table is listed, and nothing is listed
    /// twice.
    pub open spec fn index_consistent(&self) -> bool {
        &&& forall|chat: Seq<char>, k: int|
            0 <= k < self.indexed(chat).len() ==> self.messages@.contains_key(
                #[trigger] self.indexed(chat)[k],
            )
        &&& forall|id: Seq<char>| #[trigger]
            self.messages@.contains_key(id) ==> exists|chat: Seq<char>, k: int|
                0 <= k < self.indexed(chat).len() && #[trigger] self.indexed(chat)[k] == id
        &&& forall|chat: Seq<char>, k: int, other: Seq<char>, l: int|
            0 <= k < self.indexed(chat).len() && 0 <= l < self.indexed(other).len() && (chat
                != other || k != l) ==> #[trigger] self.indexed(chat)[k]
                != #[trigger] self.indexed(other)[l]
    }

    /// The tables are sound: no key twice, each message and chat under its
    /// own identifier, index and message table in agreement.
    pub open spec fn tables_wf(&self) -> bool {
        &&& self.messages.wf()
        &&& self.chats.wf()
        &&& self.chat_messages.wf()
        &&& self.metadata.wf()
        &&& forall|i: int|
            0 <= i < self.messages.entries@.len() ==> (#[trigger] self.messages.entries@[i]).key@
                == self.messages.entries@[i].value.info.id@
        &&& forall|i: int|
            0 <= i < self.chats.entries@.len() ==> (#[trigger] self.chats.entries@[i]).key@
                == self.chats.entries@[i].value.jid@
        &&& self.index_consistent()
    }

    /// Whether everything but the three tables of messages, chats and index
    /// is as in `before`.
    pub open spec fn rest_unchanged(&self, before: Self) -> bool {
        &&& self.metadata == before.metadata
        &&& self.sorted_chats == before.sorted_chats
        &&& self.selected_chat_index == before.selected_chat_index
        &&& self.view_unchanged(before)
    }

    /// Whether what the interface has selected, entered and scrolled to is
    /// as in `before`.
    pub open spec fn view_unchanged(&self, before: Self) -> bool {
        &&& self.selected_chat_jid == before.selected_chat_jid
        &&& self.history_sync_percent == before.history_sync_percent
        &&& self.quoting_message == before.quoting_message
        &&& self.message_list_state == before.message_list_state
        &&& self.selected_widget == before.selected_widget
        &&& self.vim == before.vim
        &&& self.compose == before.compose
        &&& self.should_quit == before.should_quit
    }

    /// The selected chat, if there is one, stands in the sorted list where
    /// the selection says.
    pub open spec fn selection_wf(&self) -> bool {
        match (self.selected_chat_jid, self.selected_chat_index) {
            (None, None) => true,
            (Some(jid), Some(i)) => i < self.sorted_chats@.len() && self.sorted_chats@[i as int].jid@
                == jid@,
            _ => false,
        }
    }

    /// The identifier of the selected chat as characters.
    pub open spec fn selected_view(&self) -> Option<Seq<char>> {
        match self.selected_chat_jid {
            Some(jid) => Some(jid@),
            None => None,
        }
    }

    /// The state is sound: the tables and the compose box are, the sorted
    /// list of chats is up to date, and the selection points into it.
    pub open spec fn wf(&self) -> bool {
        &&& self.tables_wf()
        &&& self.vim.wf()
        &&& self.sorted_chats@ == by_recency(self.chats.values())
        &&& self.selection_wf()
    }

    /// The messages that the index lists under `chat`, in order of arrival.
    pub open spec fn listed_messages(&self, chat: Seq<char>) -> Seq<Message> {
        Seq::new(self.indexed(chat).len(), |k: int| self.messages@[self.indexed(chat)[k]])
    }

    /// Agreement of index and message table depends on those two alone.
    pub proof fn lemma_index_frame(&self, before: Self)
        requires
            before.index_consistent(),
            self.messages == before.messages,
            self.chat_messages == before.chat_messages,
        ensures
            self.index_consistent(),
    {
        self.lemma_merge_consistent_same(before);
    }

    /// Agreement of index and message table holds of any state that lists
    /// the same identifiers and holds the same messages as one in which it
    /// holds.
    pub proof fn lemma_merge_consistent_same(&self, before: Self)
        requires
            before.index_consistent(),
            self.messages@.dom() == before.messages@.dom(),
            forall|chat: Seq<char>| #[trigger] self.indexed(chat) == before.indexed(chat),
        ensures
            self.index_consistent(),
    {
        assert forall|id: Seq<char>| #[trigger] self.messages@.contains_key(id) implies exists|
            chat: Seq<char>,
            k: int,
        |
            0 <= k < self.indexed(chat).len() && #[trigger] self.indexed(chat)[k] == id by {
            let (chat, k) = choose|chat: Seq<char>, k: int|
                0 <= k < before.indexed(chat).len() && #[trigger] before.indexed(chat)[k] == id;
            assert(0 <= k < self.indexed(chat).len() && self.indexed(chat)[k] == id);
        }
    }

    /// In a sound state the selected chat is one of the chats.
    pub proof fn lemma_selected_is_chat(&self)
        requires
            self.wf(),
        ensures
            self.selected_chat_jid matches Some(jid) ==> self.chats.has(jid@),
    {
        if let Some(jid) = self.selected_chat_jid {
            let times = chat_times(self.chats.values());
            lemma_newest_first(times);
        }
    }
}

} // verus!
