//! What waits to be written to the persistent store.

use crate::backend::Message;
use crate::chat::Chat;
use vstd::prelude::*;

verus! {

/// Chats and messages queued for the persistent store, in the order in
/// which they were queued.
#[derive(Debug)]
pub struct WriteQueue {
    pub chats: Vec<Chat>,
    pub messages: Vec<Message>,
    /// Whether the writer is to stop once the queue has been written out.
    pub should_stop: bool,
}

/// What is written to the persistent store in one go.
#[derive(Debug)]
pub struct Batch {
    pub chats: Vec<Chat>,
    pub messages: Vec<Message>,
    /// Whether the writer stops after this batch.
    pub last: bool,
}

impl WriteQueue {
    /// An empty queue whose writer goes on.
    pub fn new() -> (queue: Self)
        ensures
            queue.chats@.len() == 0,
            queue.messages@.len() == 0,
            !queue.should_stop,
    {
        WriteQueue { chats: Vec::new(), messages: Vec::new(), should_stop: false }
    }

    /// Queues a chat.
    pub fn add_chat(&mut self, chat: Chat)
        ensures
            final(self).chats@ == old(self).chats@.push(chat),
            final(self).messages == old(self).messages,
            final(self).should_stop == old(self).should_stop,
    {
        self.chats.push(chat);
    }

    /// Queues a message.
    pub fn add_message(&mut self, message: Message)
        ensures
            final(self).messages@ == old(self).messages@.push(message),
            final(self).chats == old(self).chats,
            final(self).should_stop == old(self).should_stop,
    {
        self.messages.push(message);
    }

    /// Tells the writer to stop once the queue has been written out.
    pub fn stop(&mut self)
        ensures
            final(self).should_stop,
            final(self).chats == old(self).chats,
            final(self).messages == old(self).messages,
    {
        self.should_stop = true;
    }

    /// Hands out everything queued, in the order in which it was queued,
    /// and leaves the queue empty. The batch is the last one if the writer
    /// has been told to stop, so nothing queued before that is lost.
    pub fn take_batch(&mut self) -> (batch: Batch)
        ensures
            batch.chats == old(self).chats,
            batch.messages == old(self).messages,
            batch.last == old(self).should_stop,
            final(self).chats@.len() == 0,
            final(self).messages@.len() == 0,
            final(self).should_stop == old(self).should_stop,
    {
        let mut chats: Vec<Chat> = Vec::new();
        let mut messages: Vec<Message> = Vec::new();
        std::mem::swap(&mut chats, &mut self.chats);
        std::mem::swap(&mut messages, &mut self.messages);
        Batch { chats, messages, last: self.should_stop }
    }
}

impl Batch {
    /// Whether the batch holds nothing to write.
    pub fn is_empty(&self) -> (res: bool)
        ensures
            res == (self.chats@.len() == 0 && self.messages@.len() == 0),
    {
        self.chats.len() == 0 && self.messages.len() == 0
    }
}

} // verus!
