//! Taking in the news: messages, receipts, contact lists, the state of
//! files, and what a persistent store holds.

use crate::app::{id_views, App, ChatUpdate};
use crate::backend::{Contact, GroupInfo, Message, MessageId, ReceiptKind, JID};
use crate::chat::{get_contact_name, opt_view, Chat};
use crate::media::{FileMeta, Metadata};
use crate::merge::{
    all_indexed, all_merged, all_seen, chat_of_message, chat_views, contact_listing,
    listed_keys, loaded_chats, loaded_keys, merged_chats, merged_index, merged_messages, named,
    receipted, seen_keys, synced, updated_chat,
};
use vstd::prelude::*;

verus! {

impl App {
    /// Agreement of index and message table survives the arrival of a
    /// message.
    pub proof fn lemma_merge_consistent(&self, before: Self, message: Message)
        requires
            before.index_consistent(),
            self.messages@ == merged_messages(before.messages@, message),
            forall|chat: Seq<char>| #[trigger]
                self.indexed(chat) == merged_index(
                    before.indexed(chat),
                    before.messages@,
                    message,
                    chat,
                ),
        ensures
            self.index_consistent(),
    {
        let home = message.info.chat@;
        assert forall|key: Seq<char>| #[trigger] self.messages@.contains_key(key) implies exists|
            chat: Seq<char>,
            k: int,
        |
            0 <= k < self.indexed(chat).len() && #[trigger] self.indexed(chat)[k] == key by {
            if before.messages@.contains_key(key) {
                let (chat, k) = choose|chat: Seq<char>, k: int|
                    0 <= k < before.indexed(chat).len() && #[trigger] before.indexed(chat)[k]
                        == key;
                assert(0 <= k < self.indexed(chat).len() && self.indexed(chat)[k] == key);
            } else {
                let k = before.indexed(home).len() as int;
                assert(0 <= k < self.indexed(home).len() && self.indexed(home)[k] == key);
            }
        }
    }

    /// Stores `chat` if its identifier is new, and applies `update` to the
    /// stored chat if it is known. Returns the chat as it is stored now, for
    /// the persistent store.
    pub fn add_or_update_chat(&mut self, chat: Chat, update: ChatUpdate) -> (stored: Chat)
        requires
            old(self).tables_wf(),
        ensures
            final(self).tables_wf(),
            stored == updated_chat(old(self).chats@, chat, update),
            final(self).chats@ == merged_chats(old(self).chats@, chat, update),
            final(self).chats.keys() == if old(self).chats.has(chat.jid@) {
                old(self).chats.keys()
            } else {
                old(self).chats.keys().push(chat.jid@)
            },
            final(self).messages == old(self).messages,
            final(self).chat_messages == old(self).chat_messages,
            final(self).rest_unchanged(*old(self)),
    {
        match self.chats.position(&chat.jid.0) {
            Some(i) => {
                match update {
                    ChatUpdate::Seen(timestamp) => {
                        self.chats.entries[i].value.advance(timestamp);
                    },
                    ChatUpdate::Named(name) => {
                        self.chats.entries[i].value.name = name;
                    },
                }
                proof {
                    self.chats.lemma_after_update(old(self).chats, i as int);
                }
                proof {
                    self.lemma_index_frame(*old(self));
                }
                self.chats.entries[i].value.clone()
            },
            None => {
                let stored = chat.clone();
                let key = chat.jid.0.clone();
                self.chats.insert(key, chat);
                proof {
                    self.lemma_index_frame(*old(self));
                }
                stored
            },
        }
    }

    /// Takes in a message. Its chat is created or moved forward in time;
    /// the message is stored if its identifier is new and listed at the end
    /// of its chat, or replaces the stored message if it is strictly newer.
    /// Returns the chat as it is stored now, for the persistent store.
    pub fn add_message(&mut self, message: Message) -> (stored: Chat)
        requires
            old(self).tables_wf(),
        ensures
            final(self).tables_wf(),
            final(self).messages@ == merged_messages(old(self).messages@, message),
            forall|chat: Seq<char>| #[trigger]
                final(self).indexed(chat) == merged_index(
                    old(self).indexed(chat),
                    old(self).messages@,
                    message,
                    chat,
                ),
            stored == updated_chat(
                old(self).chats@,
                chat_of_message(message),
                ChatUpdate::Seen(message.info.timestamp),
            ),
            final(self).chats@ == merged_chats(
                old(self).chats@,
                chat_of_message(message),
                ChatUpdate::Seen(message.info.timestamp),
            ),
            final(self).chats.keys() == if old(self).chats.has(message.info.chat@) {
                old(self).chats.keys()
            } else {
                old(self).chats.keys().push(message.info.chat@)
            },
            final(self).rest_unchanged(*old(self)),
    {
        let chat_jid = message.info.chat.clone();
        let timestamp = message.info.timestamp;
        let stored = self.add_or_update_chat(
            Chat { jid: chat_jid.clone(), name: None, last_message_time: Some(timestamp) },
            ChatUpdate::Seen(timestamp),
        );
        let ghost middle = *self;
        let id = message.info.id.clone();
        match self.messages.position(&id) {
            Some(i) => {
                if self.messages.entries[i].value.info.timestamp < timestamp {
                    self.messages.entries[i].value = message;
                    proof {
                        self.messages.lemma_after_update(middle.messages, i as int);
                    }
                }
                proof {
                    self.lemma_merge_consistent(middle, message);
                }
            },
            None => {
                self.messages.insert(id.clone(), message);
                match self.chat_messages.position(&chat_jid.0) {
                    Some(c) => {
                        self.chat_messages.entries[c].value.push(id);
                        proof {
                            self.chat_messages.lemma_same_keys(middle.chat_messages);
                            assert forall|chat: Seq<char>| #[trigger]
                                self.indexed(chat) == merged_index(
                                    middle.indexed(chat),
                                    middle.messages@,
                                    message,
                                    chat,
                                ) by {}
                        }
                    },
                    None => {
                        let mut ids: Vec<MessageId> = Vec::new();
                        ids.push(id);
                        self.chat_messages.insert(chat_jid.0, ids);
                        proof {
                            self.chat_messages.lemma_pushed_key(middle.chat_messages);
                            assert forall|chat: Seq<char>| #[trigger]
                                self.indexed(chat) == merged_index(
                                    middle.indexed(chat),
                                    middle.messages@,
                                    message,
                                    chat,
                                ) by {}
                        }
                    },
                }
                proof {
                    self.lemma_merge_consistent(middle, message);
                }
            },
        }
        stored
    }

    /// Takes in a message from the backend or from the persistent store,
    /// brings the sorted list of chats up to date and finds the selected
    /// chat in it again. Returns the chat as it is stored now, for the
    /// persistent store.
    pub fn apply_inbound_message(&mut self, message: Message) -> (stored: Chat)
        requires
            old(self).wf(),
        ensures
            final(self).wf(),
            final(self).messages@ == merged_messages(old(self).messages@, message),
            forall|chat: Seq<char>| #[trigger]
                final(self).indexed(chat) == merged_index(
                    old(self).indexed(chat),
                    old(self).messages@,
                    message,
                    chat,
                ),
            stored == updated_chat(
                old(self).chats@,
                chat_of_message(message),
                ChatUpdate::Seen(message.info.timestamp),
            ),
            final(self).chats@ == merged_chats(
                old(self).chats@,
                chat_of_message(message),
                ChatUpdate::Seen(message.info.timestamp),
            ),
            final(self).chats.keys() == if old(self).chats.has(message.info.chat@) {
                old(self).chats.keys()
            } else {
                old(self).chats.keys().push(message.info.chat@)
            },
            final(self).metadata == old(self).metadata,
            final(self).view_unchanged(*old(self)),
    {
        proof {
            self.lemma_selected_is_chat();
        }
        let stored = self.add_message(message);
        proof {
            if self.selected_chat_jid is Some {
                let jid = self.selected_chat_jid->0;
                assert(self.chats@.contains_key(jid@));
            }
        }
        let ghost middle = *self;
        self.sort_chats();
        proof {
            self.lemma_index_frame(middle);
            if self.selected_chat_jid is Some {
                self.chats.lemma_has_key(self.selected_chat_jid->0@);
            }
        }
        self.reselect_chat();
        proof {
            assert forall|chat: Seq<char>| #[trigger] self.indexed(chat) == middle.indexed(chat) by {}
        }
        stored
    }

    /// Counts a receipt: every message that the receipt names and that is
    /// stored has one more read. Identifiers never seen are passed over. The
    /// chat and the milestone that the receipt reports make no difference.
    pub fn apply_receipt(&mut self, _chat: &JID, message_ids: &Vec<MessageId>, _kind: ReceiptKind)
        requires
            old(self).wf(),
        ensures
            final(self).wf(),
            final(self).messages@ == receipted(old(self).messages@, id_views(message_ids@)),
            final(self).chats == old(self).chats,
            final(self).chat_messages == old(self).chat_messages,
            final(self).rest_unchanged(*old(self)),
    {
        let mut n: usize = 0;
        proof {
            assert(self.messages@ =~= receipted(self.messages@, Seq::<Seq<char>>::empty())) by {}
        }
        while n < message_ids.len()
            invariant
                n <= message_ids@.len(),
                old(self).wf(),
                self.messages.wf(),
                self.messages.entries@.len() == old(self).messages.entries@.len(),
                forall|j: int|
                    0 <= j < self.messages.entries@.len() ==> (
                    #[trigger] self.messages.entries@[j]).key@ == old(
                        self,
                    ).messages.entries@[j].key@ && self.messages.entries@[j].value.info.id
                        == old(self).messages.entries@[j].value.info.id,
                self.messages@ == receipted(
                    old(self).messages@,
                    id_views(message_ids@).take(n as int),
                ),
                self.chats == old(self).chats,
                self.chat_messages == old(self).chat_messages,
                self.rest_unchanged(*old(self)),
            decreases message_ids@.len() - n,
        {
            let ghost before = *self;
            let ghost seen = id_views(message_ids@).take(n as int);
            let ghost next = id_views(message_ids@).take(n + 1);
            proof {
                assert(next.drop_last() =~= seen);
            }
            match self.messages.position(&message_ids[n]) {
                Some(i) => {
                    proof {
                        self.messages.lemma_pos(i as int);
                    }
                    let count = self.messages.entries[i].value.info.read_count;
                    self.messages.entries[i].value.info.read_count = count.saturating_add(1);
                    proof {
                        self.messages.lemma_after_update(before.messages, i as int);
                    }
                },
                None => {
                },
            }
            n += 1;
        }
        proof {
            assert(id_views(message_ids@).take(message_ids@.len() as int) =~= id_views(
                message_ids@,
            ));
            self.lemma_merge_consistent_same(*old(self));
        }
    }

    /// The state of the file of the message `id`, if it has been asked for.
    pub fn file_state(&self, id: &MessageId) -> (res: Option<Metadata>)
        requires
            self.metadata.wf(),
        ensures
            res == if self.metadata@.contains_key(id@) {
                Some(self.metadata@[id@])
            } else {
                None
            },
    {
        match self.metadata.get(id) {
            Some(meta) => Some(*meta),
            None => None,
        }
    }

    /// Records what became of a message's file. Whatever state was recorded
    /// before is overwritten, since the same news may arrive twice.
    pub fn apply_file_event(&mut self, message_id: MessageId, state: FileMeta)
        requires
            old(self).wf(),
        ensures
            final(self).wf(),
            final(self).metadata@ == old(self).metadata@.insert(
                message_id@,
                Metadata::File(state),
            ),
            final(self).messages == old(self).messages,
            final(self).chats == old(self).chats,
            final(self).chat_messages == old(self).chat_messages,
            final(self).sorted_chats == old(self).sorted_chats,
            final(self).selected_chat_index == old(self).selected_chat_index,
            final(self).view_unchanged(*old(self)),
    {
        self.metadata.insert(message_id, Metadata::File(state));
        proof {
            self.lemma_index_frame(*old(self));
        }
    }

    /// Asks for the file of a message. Returns whether the backend is to be
    /// asked now: it is not while an earlier request for the same message is
    /// still under way. A request that goes out marks the file as being
    /// downloaded.
    pub fn request_download(&mut self, message_id: MessageId) -> (dispatch: bool)
        requires
            old(self).wf(),
        ensures
            final(self).wf(),
            dispatch == !(old(self).metadata@.contains_key(message_id@) && old(
                self,
            ).metadata@[message_id@] == Metadata::File(FileMeta::Downloading)),
            dispatch ==> final(self).metadata@ == old(self).metadata@.insert(
                message_id@,
                Metadata::File(FileMeta::Downloading),
            ),
            !dispatch ==> final(self).metadata == old(self).metadata,
            final(self).messages == old(self).messages,
            final(self).chats == old(self).chats,
            final(self).chat_messages == old(self).chat_messages,
            final(self).sorted_chats == old(self).sorted_chats,
            final(self).selected_chat_index == old(self).selected_chat_index,
            final(self).view_unchanged(*old(self)),
    {
        match self.file_state(&message_id) {
            Some(Metadata::File(FileMeta::Downloading)) => false,
            _ => {
                self.apply_file_event(message_id, FileMeta::Downloading);
                true
            },
        }
    }

    /// Asks for the picture of a message to be decoded. Returns whether a
    /// decoder is to be started now: it is not while an earlier request for
    /// the same message is still under way. A request that goes out marks
    /// the picture as being loaded.
    pub fn request_preview(&mut self, message_id: MessageId) -> (dispatch: bool)
        requires
            old(self).wf(),
        ensures
            final(self).wf(),
            dispatch == !(old(self).metadata@.contains_key(message_id@) && old(
                self,
            ).metadata@[message_id@] == Metadata::File(FileMeta::Loading)),
            dispatch ==> final(self).metadata@ == old(self).metadata@.insert(
                message_id@,
                Metadata::File(FileMeta::Loading),
            ),
            !dispatch ==> final(self).metadata == old(self).metadata,
            final(self).messages == old(self).messages,
            final(self).chats == old(self).chats,
            final(self).chat_messages == old(self).chat_messages,
            final(self).sorted_chats == old(self).sorted_chats,
            final(self).selected_chat_index == old(self).selected_chat_index,
            final(self).view_unchanged(*old(self)),
    {
        match self.file_state(&message_id) {
            Some(Metadata::File(FileMeta::Loading)) => false,
            _ => {
                self.apply_file_event(message_id, FileMeta::Loading);
                true
            },
        }
    }

    /// Gives the chat `jid` the name from the contact list, creating the
    /// chat if it is not known. Returns the chat as it is stored now.
    pub fn name_chat(&mut self, jid: JID, name: Option<String>) -> (stored: Chat)
        requires
            old(self).tables_wf(),
        ensures
            final(self).tables_wf(),
            chat_views(final(self).chats@) == named(
                chat_views(old(self).chats@),
                jid@,
                opt_view(name),
            ),
            final(self).chats.keys() == if old(self).chats.keys().contains(jid@) {
                old(self).chats.keys()
            } else {
                old(self).chats.keys().push(jid@)
            },
            stored@ == chat_views(final(self).chats@)[jid@],
            final(self).messages == old(self).messages,
            final(self).chat_messages == old(self).chat_messages,
            final(self).rest_unchanged(*old(self)),
    {
        let copy = match &name {
            Some(text) => Some(text.clone()),
            None => None,
        };
        proof {
            if old(self).chats.has(jid@) {
                let p = old(self).chats.pos(jid@);
                assert(old(self).chats.keys()[p] == jid@);
            }
        }
        let stored = self.add_or_update_chat(
            Chat { jid, name: copy, last_message_time: None },
            ChatUpdate::Named(name),
        );
        stored
    }

    /// Takes in the contacts and groups that the backend knows: each gets
    /// its name, and those not yet known become chats. Then the sorted list
    /// of chats is brought up to date and the selected chat is found in it
    /// again. Returns the chats touched, as they are stored now, for the
    /// persistent store.
    pub fn apply_contact_sync(&mut self, contacts: &Vec<(JID, Contact)>, groups: &Vec<GroupInfo>) -> (stored: Vec<Chat>)
        requires
            old(self).wf(),
        ensures
            final(self).wf(),
            chat_views(final(self).chats@) == synced(
                chat_views(old(self).chats@),
                contact_listing(contacts@, groups@),
            ),
            final(self).chats.keys() == listed_keys(
                old(self).chats.keys(),
                contact_listing(contacts@, groups@),
            ),
            stored@.len() == contacts@.len() + groups@.len(),
            forall|i: int|
                0 <= i < stored@.len() ==> (#[trigger] stored@[i])@ == synced(
                    chat_views(old(self).chats@),
                    contact_listing(contacts@, groups@).take(i + 1),
                )[contact_listing(contacts@, groups@)[i].0],
            final(self).messages == old(self).messages,
            final(self).chat_messages == old(self).chat_messages,
            final(self).metadata == old(self).metadata,
            final(self).view_unchanged(*old(self)),
    {
        proof {
            self.lemma_selected_is_chat();
        }
        let ghost listing = contact_listing(contacts@, groups@);
        let ghost selected = self.selected_view();
        let mut stored: Vec<Chat> = Vec::new();
        let mut i: usize = 0;
        while i < contacts.len()
            invariant
                i <= contacts@.len(),
                listing == contact_listing(contacts@, groups@),
                self.tables_wf(),
                chat_views(self.chats@) == synced(
                    chat_views(old(self).chats@),
                    listing.take(i as int),
                ),
                self.chats.keys() == listed_keys(old(self).chats.keys(), listing.take(i as int)),
                selected matches Some(jid) ==> self.chats@.contains_key(jid),
                stored@.len() == i,
                forall|k: int|
                    0 <= k < i ==> (#[trigger] stored@[k])@ == synced(
                        chat_views(old(self).chats@),
                        listing.take(k + 1),
                    )[listing[k].0],
                self.messages == old(self).messages,
                self.chat_messages == old(self).chat_messages,
                self.rest_unchanged(*old(self)),
            decreases contacts@.len() - i,
        {
            let name = get_contact_name(&contacts[i].1);
            proof {
                assert(listing.take(i + 1).drop_last() =~= listing.take(i as int));
            }
            let chat = self.name_chat(contacts[i].0.clone(), name);
            proof {
                assert(self.chats@.dom() =~= chat_views(self.chats@).dom());
            }
            stored.push(chat);
            i += 1;
        }
        let mut j: usize = 0;
        while j < groups.len()
            invariant
                j <= groups@.len(),
                i == contacts@.len(),
                listing == contact_listing(contacts@, groups@),
                self.tables_wf(),
                chat_views(self.chats@) == synced(
                    chat_views(old(self).chats@),
                    listing.take(i + j),
                ),
                self.chats.keys() == listed_keys(old(self).chats.keys(), listing.take(i + j)),
                selected matches Some(jid) ==> self.chats@.contains_key(jid),
                stored@.len() == i + j,
                forall|k: int|
                    0 <= k < i + j ==> (#[trigger] stored@[k])@ == synced(
                        chat_views(old(self).chats@),
                        listing.take(k + 1),
                    )[listing[k].0],
                self.messages == old(self).messages,
                self.chat_messages == old(self).chat_messages,
                self.rest_unchanged(*old(self)),
            decreases groups@.len() - j,
        {
            proof {
                assert(listing.take(i + j + 1).drop_last() =~= listing.take(i + j));
            }
            let chat = self.name_chat(groups[j].jid.clone(), Some(groups[j].name.clone()));
            proof {
                assert(self.chats@.dom() =~= chat_views(self.chats@).dom());
            }
            stored.push(chat);
            j += 1;
        }
        proof {
            assert(listing.take(i + j) =~= listing);
        }
        let ghost middle = *self;
        self.sort_chats();
        proof {
            self.lemma_index_frame(middle);
            if self.selected_chat_jid is Some {
                self.chats.lemma_has_key(self.selected_chat_jid->0@);
            }
        }
        self.reselect_chat();
        proof {
            assert forall|chat: Seq<char>| #[trigger] self.indexed(chat) == middle.indexed(chat) by {}
        }
        stored
    }

    /// Reads in what a persistent store holds: first the chats, each under
    /// its identifier, then the messages as if they arrived in turn. Then
    /// the sorted list of chats is brought up to date and the selected chat
    /// is found in it again.
    pub fn load(&mut self, chats: &Vec<Chat>, messages: &Vec<Message>)
        requires
            old(self).wf(),
        ensures
            final(self).wf(),
            final(self).messages@ == all_merged(old(self).messages@, messages@),
            forall|chat: Seq<char>| #[trigger]
                final(self).indexed(chat) == all_indexed(
                    old(self).indexed(chat),
                    old(self).messages@,
                    messages@,
                    chat,
                ),
            final(self).chats@ == all_seen(loaded_chats(old(self).chats@, chats@), messages@),
            final(self).chats.keys() == seen_keys(
                loaded_keys(old(self).chats.keys(), chats@),
                messages@,
            ),
            final(self).metadata == old(self).metadata,
            final(self).view_unchanged(*old(self)),
    {
        proof {
            self.lemma_selected_is_chat();
        }
        let ghost selected = self.selected_view();
        let mut i: usize = 0;
        while i < chats.len()
            invariant
                i <= chats@.len(),
                self.tables_wf(),
                self.chats@ == loaded_chats(old(self).chats@, chats@.take(i as int)),
                self.chats.keys() == loaded_keys(old(self).chats.keys(), chats@.take(i as int)),
                selected matches Some(jid) ==> self.chats@.contains_key(jid),
                self.messages == old(self).messages,
                self.chat_messages == old(self).chat_messages,
                self.rest_unchanged(*old(self)),
            decreases chats@.len() - i,
        {
            let ghost before = *self;
            let chat = chats[i].clone();
            self.chats.insert(chat.jid.0.clone(), chat);
            proof {
                before.chats.lemma_has_key(chat.jid@);
                assert(chats@.take(i + 1).drop_last() =~= chats@.take(i as int));
                self.lemma_index_frame(before);
            }
            i += 1;
        }
        proof {
            assert(chats@.take(chats@.len() as int) =~= chats@);
        }
        let ghost loaded = self.chats@;
        let ghost loaded_order = self.chats.keys();
        let mut n: usize = 0;
        while n < messages.len()
            invariant
                n <= messages@.len(),
                self.tables_wf(),
                self.messages@ == all_merged(old(self).messages@, messages@.take(n as int)),
                forall|chat: Seq<char>| #[trigger]
                    self.indexed(chat) == all_indexed(
                        old(self).indexed(chat),
                        old(self).messages@,
                        messages@.take(n as int),
                        chat,
                    ),
                self.chats@ == all_seen(loaded, messages@.take(n as int)),
                self.chats.keys() == seen_keys(loaded_order, messages@.take(n as int)),
                selected matches Some(jid) ==> self.chats@.contains_key(jid),
                self.rest_unchanged(*old(self)),
            decreases messages@.len() - n,
        {
            proof {
                assert(messages@.take(n + 1).drop_last() =~= messages@.take(n as int));
                self.chats.lemma_has_key(messages@[n as int].info.chat@);
            }
            self.add_message(messages[n].clone());
            n += 1;
        }
        proof {
            assert(messages@.take(messages@.len() as int) =~= messages@);
        }
        let ghost middle = *self;
        self.sort_chats();
        proof {
            self.lemma_index_frame(middle);
            if self.selected_chat_jid is Some {
                self.chats.lemma_has_key(self.selected_chat_jid->0@);
            }
        }
        self.reselect_chat();
        proof {
            assert forall|chat: Seq<char>| #[trigger] self.indexed(chat) == middle.indexed(chat) by {}
        }
    }
}

} // verus!
