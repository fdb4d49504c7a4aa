//! The chats and the messages of a chat, the newest first.

use crate::app::{by_recency, chat_times, message_times, newest_messages, App};
use crate::backend::{Message, JID};
use crate::chat::Chat;
use crate::order::{
    arrange, is_newest_first, lemma_newest_first, newest_first, newest_first_order, positions,
    rank,
};
use vstd::prelude::*;

verus! {

/// The sorted list holds every chat once, and no chat stands before one
/// with a newer message; chats without a message stand behind all others.
pub proof fn lemma_by_recency(chats: Seq<Chat>)
    ensures
        by_recency(chats).len() == chats.len(),
        forall|i: int, j: int|
            0 <= i < j < chats.len() ==> rank((#[trigger] by_recency(chats)[i]).last_message_time)
                >= rank((#[trigger] by_recency(chats)[j]).last_message_time),
        forall|p: int| 0 <= p < chats.len() ==> by_recency(chats).contains(#[trigger] chats[p]),
        is_newest_first(chat_times(chats), newest_first(chat_times(chats))),
{
    let times = chat_times(chats);
    let order = newest_first(times);
    lemma_newest_first(times);
    assert forall|p: int| 0 <= p < chats.len() implies by_recency(chats).contains(
        #[trigger] chats[p],
    ) by {
        assert(order.contains(p));
        let i = choose|i: int| 0 <= i < order.len() && order[i] == p;
        assert(by_recency(chats)[i] == chats[p]);
    }
}

/// The sorted list of chats that have different identifiers holds no
/// identifier twice.
pub proof fn lemma_by_recency_distinct(chats: Seq<Chat>)
    requires
        forall|p: int, q: int| 0 <= p < q < chats.len() ==> chats[p].jid@ != chats[q].jid@,
    ensures
        forall|i: int, j: int|
            0 <= i < j < chats.len() ==> (#[trigger] by_recency(chats)[i]).jid@ != (
            #[trigger] by_recency(chats)[j]).jid@,
{
    let times = chat_times(chats);
    lemma_newest_first(times);
}

/// Where the chat named `jid` stands in `chats`, if it is there.
pub fn find_chat(chats: &Vec<Chat>, jid: &JID) -> (res: Option<usize>)
    ensures
        res matches Some(i) ==> i < chats@.len() && chats@[i as int].jid@ == jid@ && forall|
            k: int,
        |
            0 <= k < i ==> chats@[k].jid@ != jid@,
        res is None ==> forall|k: int| 0 <= k < chats@.len() ==> chats@[k].jid@ != jid@,
{
    let mut i: usize = 0;
    while i < chats.len()
        invariant
            i <= chats@.len(),
            forall|k: int| 0 <= k < i ==> chats@[k].jid@ != jid@,
        decreases chats@.len() - i,
    {
        if chats[i].jid == *jid {
            return Some(i);
        }
        i += 1;
    }
    None
}

impl App {
    /// The state is sound except that the place noted for the selected chat
    /// may be out of date: tables and compose box are sound, the sorted list
    /// is up to date, and the selected chat, if there is one, is one of the
    /// chats.
    pub open spec fn stale_but_sound(&self) -> bool {
        &&& self.tables_wf()
        &&& self.vim.wf()
        &&& self.sorted_chats@ == by_recency(self.chats.values())
        &&& match self.selected_chat_jid {
            Some(jid) => self.chats.has(jid@),
            None => self.selected_chat_index is None,
        }
    }

    /// The chats, the one with the newest message first.
    pub fn sorted_chats(&self) -> (sorted: Vec<Chat>)
        ensures
            sorted@ == by_recency(self.chats.values()),
    {
        let mut times: Vec<Option<i64>> = Vec::new();
        let mut i: usize = 0;
        while i < self.chats.entries.len()
            invariant
                i <= self.chats.entries@.len(),
                times@ == chat_times(self.chats.values()).take(i as int),
            decreases self.chats.entries@.len() - i,
        {
            times.push(self.chats.entries[i].value.last_message_time);
            i += 1;
        }
        proof {
            assert(times@ =~= chat_times(self.chats.values()));
        }
        let order = newest_first_order(&times);
        let mut sorted: Vec<Chat> = Vec::new();
        let mut k: usize = 0;
        while k < order.len()
            invariant
                k <= order@.len(),
                is_newest_first(times@, positions(order@)),
                times@.len() == self.chats.entries@.len(),
                sorted@ == arrange(self.chats.values(), positions(order@)).take(k as int),
            decreases order@.len() - k,
        {
            proof {
                assert(0 <= positions(order@)[k as int] < times@.len());
            }
            sorted.push(self.chats.entries[order[k]].value.clone());
            k += 1;
        }
        sorted
    }

    /// Brings the sorted list of chats up to date. Only the sorted list is
    /// written; where the selected chat stands in it now is found again by
    /// `reselect_chat`.
    pub fn sort_chats(&mut self)
        ensures
            final(self).sorted_chats@ == by_recency(old(self).chats.values()),
            final(self).sorted_chats@.len() == old(self).chats.entries@.len(),
            final(self).messages == old(self).messages,
            final(self).chats == old(self).chats,
            final(self).chat_messages == old(self).chat_messages,
            final(self).metadata == old(self).metadata,
            final(self).selected_chat_index == old(self).selected_chat_index,
            final(self).view_unchanged(*old(self)),
    {
        let sorted = self.sorted_chats();
        proof {
            lemma_by_recency(self.chats.values());
        }
        self.sorted_chats = sorted;
    }

    /// Finds the selected chat in the sorted list again and notes where it
    /// stands: at the first place that holds its identifier, or nowhere if
    /// the list does not hold it. Without a selected chat nothing changes.
    /// In a state that is sound but for a stale place, this makes the state
    /// sound.
    pub fn reselect_chat(&mut self)
        ensures
            final(self).messages == old(self).messages,
            final(self).chats == old(self).chats,
            final(self).chat_messages == old(self).chat_messages,
            final(self).metadata == old(self).metadata,
            final(self).sorted_chats == old(self).sorted_chats,
            final(self).view_unchanged(*old(self)),
            old(self).selected_chat_jid is None ==> final(self).selected_chat_index == old(
                self,
            ).selected_chat_index,
            old(self).selected_chat_jid matches Some(jid) ==> match final(self).selected_chat_index {
                Some(i) => i < old(self).sorted_chats@.len() && old(self).sorted_chats@[i as int].jid@
                    == jid@ && forall|k: int|
                    0 <= k < i ==> old(self).sorted_chats@[k].jid@ != jid@,
                None => forall|k: int|
                    0 <= k < old(self).sorted_chats@.len() ==> old(self).sorted_chats@[k].jid@
                        != jid@,
            },
            old(self).stale_but_sound() ==> final(self).wf(),
    {
        let found = match &self.selected_chat_jid {
            Some(jid) => {
                let found = find_chat(&self.sorted_chats, jid);
                proof {
                    if self.stale_but_sound() {
                        let times = chat_times(self.chats.values());
                        lemma_newest_first(times);
                        let p = self.chats.pos(jid@);
                        assert(newest_first(times).contains(p));
                        let i = choose|i: int|
                            0 <= i < newest_first(times).len() && newest_first(times)[i] == p;
                        assert(self.sorted_chats@[i] == self.chats.values()[p]);
                    }
                }
                found
            },
            None => {
                return ;
            },
        };
        self.selected_chat_index = found;
        proof {
            if old(self).stale_but_sound() {
                self.lemma_index_frame(*old(self));
            }
        }
    }

    /// The messages of a chat, the newest first.
    pub fn sorted_messages(&self, chat: &JID) -> (sorted: Vec<Message>)
        requires
            self.tables_wf(),
        ensures
            sorted@ == newest_messages(self.listed_messages(chat@)),
    {
        let mut listed: Vec<Message> = Vec::new();
        let mut times: Vec<Option<i64>> = Vec::new();
        match self.chat_messages.position(&chat.0) {
            Some(c) => {
                let mut k: usize = 0;
                while k < self.chat_messages.entries[c].value.len()
                    invariant
                        self.tables_wf(),
                        c < self.chat_messages.entries@.len(),
                        self.chat_messages.has(chat@),
                        self.chat_messages.pos(chat@) == c,
                        k <= self.chat_messages.entries@[c as int].value@.len(),
                        listed@ == self.listed_messages(chat@).take(k as int),
                        times@ == message_times(self.listed_messages(chat@)).take(k as int),
                    decreases self.chat_messages.entries@[c as int].value@.len() - k,
                {
                    proof {
                        assert(self.indexed(chat@)[k as int]
                            == self.chat_messages.entries@[c as int].value@[k as int]@);
                    }
                    match self.messages.get(&self.chat_messages.entries[c].value[k]) {
                        Some(message) => {
                            listed.push(message.clone());
                            times.push(Some(message.info.timestamp));
                        },
                        None => {},
                    }
                    k += 1;
                }
                proof {
                    assert(times@ =~= message_times(self.listed_messages(chat@)));
                }
            },
            None => {
                proof {
                    assert(times@ =~= message_times(self.listed_messages(chat@)));
                }
            },
        }
        let order = newest_first_order(&times);
        let mut sorted: Vec<Message> = Vec::new();
        let mut n: usize = 0;
        while n < order.len()
            invariant
                n <= order@.len(),
                is_newest_first(times@, positions(order@)),
                times@.len() == listed@.len(),
                sorted@ == arrange(listed@, positions(order@)).take(n as int),
            decreases order@.len() - n,
        {
            proof {
                assert(0 <= positions(order@)[n as int] < times@.len());
            }
            sorted.push(listed[order[n]].clone());
            n += 1;
        }
        sorted
    }
}

} // verus!
