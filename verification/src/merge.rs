//! What the news that arrives makes of the tables, as mathematics: one
//! message, a receipt, a contact list, the contents of a persistent store.

use crate::app::ChatUpdate;
use crate::backend::{Contact, GroupInfo, Message, MessageInfo, JID};
use crate::chat::{contact_name, Chat, ChatView};
use crate::order::rank;
use vstd::prelude::*;

verus! {

/// The message table after `message` has arrived: a message under a new
/// identifier is added, one under a known identifier replaces the stored
/// one only if it is strictly newer.
pub open spec fn merged_messages(table: Map<Seq<char>, Message>, message: Message) -> Map<
    Seq<char>,
    Message,
> {
    if table.contains_key(message.info.id@) && table[message.info.id@].info.timestamp
        >= message.info.timestamp {
        table
    } else {
        table.insert(message.info.id@, message)
    }
}

/// The identifiers indexed under `chat` after `message` has arrived, given
/// those indexed before: a message under a new identifier goes to the end
/// of its chat's list, and nothing else changes.
pub open spec fn merged_index(
    indexed: Seq<Seq<char>>,
    table: Map<Seq<char>, Message>,
    message: Message,
    chat: Seq<char>,
) -> Seq<Seq<char>> {
    if !table.contains_key(message.info.id@) && chat == message.info.chat@ {
        indexed.push(message.info.id@)
    } else {
        indexed
    }
}

/// The chat stored under `chat.jid` after `chat` has arrived with `update`:
/// a known chat is updated, an unknown one is stored as it arrives.
pub open spec fn updated_chat(chats: Map<Seq<char>, Chat>, chat: Chat, update: ChatUpdate) -> Chat {
    if chats.contains_key(chat.jid@) {
        let known = chats[chat.jid@];
        match update {
            ChatUpdate::Seen(timestamp) => Chat {
                jid: known.jid,
                name: known.name,
                last_message_time: Chat::later(known.last_message_time, timestamp),
            },
            ChatUpdate::Named(name) => Chat {
                jid: known.jid,
                name: name,
                last_message_time: known.last_message_time,
            },
        }
    } else {
        chat
    }
}

/// The chat table after `chat` has arrived with `update`.
pub open spec fn merged_chats(chats: Map<Seq<char>, Chat>, chat: Chat, update: ChatUpdate) -> Map<
    Seq<char>,
    Chat,
> {
    chats.insert(chat.jid@, updated_chat(chats, chat, update))
}

/// The chat that a message makes of its chat's identifier when the chat
/// is new.
pub open spec fn chat_of_message(message: Message) -> Chat {
    Chat {
        jid: message.info.chat,
        name: None,
        last_message_time: Some(message.info.timestamp),
    }
}

/// The chats of a table as text and numbers.
pub open spec fn chat_views(chats: Map<Seq<char>, Chat>) -> Map<Seq<char>, ChatView> {
    Map::new(|jid: Seq<char>| chats.contains_key(jid), |jid: Seq<char>| chats[jid]@)
}

/// The chats after the contact list has given `name` for `jid`: a known
/// chat has the new name and keeps its time, an unknown one is added
/// without a time.
pub open spec fn named(chats: Map<Seq<char>, ChatView>, jid: Seq<char>, name: Option<Seq<char>>) -> Map<
    Seq<char>,
    ChatView,
> {
    chats.insert(
        jid,
        ChatView {
            jid: jid,
            name: name,
            last_message_time: if chats.contains_key(jid) {
                chats[jid].last_message_time
            } else {
                None
            },
        },
    )
}

/// The chats after each line of a contact list has been applied in turn.
pub open spec fn synced(
    chats: Map<Seq<char>, ChatView>,
    listing: Seq<(Seq<char>, Option<Seq<char>>)>,
) -> Map<Seq<char>, ChatView>
    decreases listing.len(),
{
    if listing.len() == 0 {
        chats
    } else {
        named(synced(chats, listing.drop_last()), listing.last().0, listing.last().1)
    }
}

/// The order of arrival of the chats after a contact list: each identifier
/// that was not known goes to the end when the list first names it.
pub open spec fn listed_keys(
    keys: Seq<Seq<char>>,
    listing: Seq<(Seq<char>, Option<Seq<char>>)>,
) -> Seq<Seq<char>>
    decreases listing.len(),
{
    if listing.len() == 0 {
        keys
    } else {
        let before = listed_keys(keys, listing.drop_last());
        if before.contains(listing.last().0) {
            before
        } else {
            before.push(listing.last().0)
        }
    }
}

/// What a contact list says: for each contact its identifier and the name
/// to show for it, then for each group its identifier and its name.
pub open spec fn contact_listing(contacts: Seq<(JID, Contact)>, groups: Seq<GroupInfo>) -> Seq<
    (Seq<char>, Option<Seq<char>>),
> {
    Seq::new(
        contacts.len() + groups.len(),
        |i: int|
            if i < contacts.len() {
                (contacts[i].0@, contact_name(contacts[i].1))
            } else {
                (groups[i - contacts.len()].jid@, Some(groups[i - contacts.len()].name@))
            },
    )
}

/// The order of arrival after `key` has arrived: a key that was not there
/// goes to the end.
pub open spec fn keys_with(keys: Seq<Seq<char>>, key: Seq<char>) -> Seq<Seq<char>> {
    if keys.contains(key) {
        keys
    } else {
        keys.push(key)
    }
}

/// The order of arrival of the chats after the chats of a persistent store
/// have been read.
pub open spec fn loaded_keys(keys: Seq<Seq<char>>, stored: Seq<Chat>) -> Seq<Seq<char>>
    decreases stored.len(),
{
    if stored.len() == 0 {
        keys
    } else {
        keys_with(loaded_keys(keys, stored.drop_last()), stored.last().jid@)
    }
}

/// The order of arrival of the chats after the messages have arrived in
/// turn.
pub open spec fn seen_keys(keys: Seq<Seq<char>>, messages: Seq<Message>) -> Seq<Seq<char>>
    decreases messages.len(),
{
    if messages.len() == 0 {
        keys
    } else {
        keys_with(seen_keys(keys, messages.drop_last()), messages.last().info.chat@)
    }
}

/// The chat table after the chats of a persistent store have been read
/// into it, each under its identifier, a later one replacing an earlier.
pub open spec fn loaded_chats(chats: Map<Seq<char>, Chat>, stored: Seq<Chat>) -> Map<
    Seq<char>,
    Chat,
>
    decreases stored.len(),
{
    if stored.len() == 0 {
        chats
    } else {
        loaded_chats(chats, stored.drop_last()).insert(stored.last().jid@, stored.last())
    }
}

/// The message table after the messages have arrived in turn.
pub open spec fn all_merged(table: Map<Seq<char>, Message>, messages: Seq<Message>) -> Map<
    Seq<char>,
    Message,
>
    decreases messages.len(),
{
    if messages.len() == 0 {
        table
    } else {
        merged_messages(all_merged(table, messages.drop_last()), messages.last())
    }
}

/// The identifiers indexed under `chat` after the messages have arrived in
/// turn.
pub open spec fn all_indexed(
    indexed: Seq<Seq<char>>,
    table: Map<Seq<char>, Message>,
    messages: Seq<Message>,
    chat: Seq<char>,
) -> Seq<Seq<char>>
    decreases messages.len(),
{
    if messages.len() == 0 {
        indexed
    } else {
        merged_index(
            all_indexed(indexed, table, messages.drop_last(), chat),
            all_merged(table, messages.drop_last()),
            messages.last(),
            chat,
        )
    }
}

/// The chat table after the messages have arrived in turn.
pub open spec fn all_seen(chats: Map<Seq<char>, Chat>, messages: Seq<Message>) -> Map<
    Seq<char>,
    Chat,
>
    decreases messages.len(),
{
    if messages.len() == 0 {
        chats
    } else {
        merged_chats(
            all_seen(chats, messages.drop_last()),
            chat_of_message(messages.last()),
            ChatUpdate::Seen(messages.last().info.timestamp),
        )
    }
}

/// How often `id` occurs in `ids`.
pub open spec fn occurrences(ids: Seq<Seq<char>>, id: Seq<char>) -> nat
    decreases ids.len(),
{
    if ids.len() == 0 {
        0
    } else {
        occurrences(ids.drop_last(), id) + if ids.last() == id {
            1nat
        } else {
            0nat
        }
    }
}

/// The message after `reads` more receipts; the count stops at the largest
/// number it can hold.
pub open spec fn with_reads(message: Message, reads: nat) -> Message {
    Message {
        info: MessageInfo {
            id: message.info.id,
            chat: message.info.chat,
            sender: message.info.sender,
            timestamp: message.info.timestamp,
            is_from_me: message.info.is_from_me,
            quote_id: message.info.quote_id,
            read_count: if message.info.read_count + reads <= u64::MAX {
                (message.info.read_count + reads) as u64
            } else {
                u64::MAX
            },
        },
        message: message.message,
    }
}

/// The message table after a receipt for `ids`: each stored message has
/// one more read for each time the receipt names it.
pub open spec fn receipted(table: Map<Seq<char>, Message>, ids: Seq<Seq<char>>) -> Map<
    Seq<char>,
    Message,
> {
    Map::new(
        |id: Seq<char>| table.contains_key(id),
        |id: Seq<char>| with_reads(table[id], occurrences(ids, id)),
    )
}

/// A receipt that names only identifiers never seen changes no message.
pub proof fn lemma_receipt_of_unknown(table: Map<Seq<char>, Message>, ids: Seq<Seq<char>>)
    requires
        forall|k: int| 0 <= k < ids.len() ==> !table.contains_key(#[trigger] ids[k]),
    ensures
        receipted(table, ids) == table,
{
    assert forall|id: Seq<char>| table.contains_key(id) implies occurrences(ids, id) == 0 by {
        lemma_occurrences_none(ids, id);
    }
}

proof fn lemma_occurrences_none(ids: Seq<Seq<char>>, id: Seq<char>)
    requires
        forall|k: int| 0 <= k < ids.len() ==> #[trigger] ids[k] != id,
    ensures
        occurrences(ids, id) == 0,
    decreases ids.len(),
{
    if ids.len() > 0 {
        lemma_occurrences_none(ids.drop_last(), id);
    }
}

/// No message is ever lost: what the table holds it still holds after a
/// message has arrived and after a receipt.
pub proof fn lemma_messages_are_kept(
    table: Map<Seq<char>, Message>,
    message: Message,
    ids: Seq<Seq<char>>,
    id: Seq<char>,
)
    requires
        table.contains_key(id),
    ensures
        merged_messages(table, message).contains_key(id),
        receipted(table, ids).contains_key(id),
{
}

/// The time of a chat never goes back: whatever arrives for a chat, every
/// chat that is known stays known, under its identifier, with a time no
/// earlier than before.
pub proof fn lemma_chat_time_never_goes_back(
    chats: Map<Seq<char>, Chat>,
    chat: Chat,
    update: ChatUpdate,
    jid: Seq<char>,
)
    requires
        chats.contains_key(jid),
    ensures
        merged_chats(chats, chat, update).contains_key(jid),
        rank(merged_chats(chats, chat, update)[jid].last_message_time) >= rank(
            chats[jid].last_message_time,
        ),
        merged_chats(chats, chat, update)[jid].jid == chats[jid].jid,
{
}

/// Whether the contact list names `jid`.
pub open spec fn is_listed(listing: Seq<(Seq<char>, Option<Seq<char>>)>, jid: Seq<char>) -> bool {
    exists|i: int| 0 <= i < listing.len() && (#[trigger] listing[i]).0 == jid
}

/// What a contact list does to one chat. The chats afterwards are those
/// known before and those listed. A chat known before keeps its time, a
/// new one has none. A chat that the list does not name is as before, and
/// one that it names has the name from the last line that names it.
pub proof fn lemma_synced(
    chats: Map<Seq<char>, ChatView>,
    listing: Seq<(Seq<char>, Option<Seq<char>>)>,
    jid: Seq<char>,
)
    ensures
        synced(chats, listing).contains_key(jid) <==> chats.contains_key(jid) || is_listed(
            listing,
            jid,
        ),
        synced(chats, listing).contains_key(jid) ==> synced(chats, listing)[jid].last_message_time
            == if chats.contains_key(jid) {
            chats[jid].last_message_time
        } else {
            None
        },
        chats.contains_key(jid) && !is_listed(listing, jid) ==> synced(chats, listing)[jid]
            == chats[jid],
        forall|i: int|
            0 <= i < listing.len() && (#[trigger] listing[i]).0 == jid && (forall|j: int|
                i < j < listing.len() ==> (#[trigger] listing[j]).0 != jid) ==> synced(
                chats,
                listing,
            )[jid].name == listing[i].1,
    decreases listing.len(),
{
    if listing.len() > 0 {
        let before = listing.drop_last();
        let last = listing.len() - 1;
        lemma_synced(chats, before, jid);
        if is_listed(before, jid) {
            let i = choose|i: int| 0 <= i < before.len() && (#[trigger] before[i]).0 == jid;
            assert(listing[i].0 == jid);
        }
        if is_listed(listing, jid) && listing[last].0 != jid {
            let i = choose|i: int| 0 <= i < listing.len() && (#[trigger] listing[i]).0 == jid;
            assert(before[i].0 == jid);
        }
        assert forall|i: int|
            0 <= i < listing.len() && (#[trigger] listing[i]).0 == jid && (forall|j: int|
                i < j < listing.len() ==> (#[trigger] listing[j]).0 != jid) implies synced(
            chats,
            listing,
        )[jid].name == listing[i].1 by {
            if i < last {
                assert(before[i].0 == jid);
                assert forall|j: int| i < j < before.len() implies (#[trigger] before[j]).0
                    != jid by {}
            }
        }
    }
}

/// Taking in the same message a second time changes neither the message
/// table nor the index.
pub proof fn lemma_merge_idempotent(
    table: Map<Seq<char>, Message>,
    indexed: Seq<Seq<char>>,
    message: Message,
    chat: Seq<char>,
)
    ensures
        merged_messages(merged_messages(table, message), message) == merged_messages(
            table,
            message,
        ),
        merged_index(
            merged_index(indexed, table, message, chat),
            merged_messages(table, message),
            message,
            chat,
        ) == merged_index(indexed, table, message, chat),
{
}

/// The time of a chat after two messages does not depend on which of them
/// arrived first, and is no earlier than either.
pub proof fn lemma_later_commutes(last: Option<i64>, first: i64, second: i64)
    ensures
        Chat::later(Chat::later(last, first), second) == Chat::later(
            Chat::later(last, second),
            first,
        ),
        last is None ==> Chat::later(Chat::later(last, first), second) == Some(
            if first >= second {
                first
            } else {
                second
            },
        ),
{
}

/// The chat table after two messages of one chat holds the same time for
/// that chat whichever of the two arrived first: the later of the two, if
/// the chat was new.
pub proof fn lemma_chat_time_order_independent(
    chats: Map<Seq<char>, Chat>,
    first: Message,
    second: Message,
)
    requires
        first.info.chat@ == second.info.chat@,
    ensures
        ({
            let one = merged_chats(
                merged_chats(chats, chat_of_message(first), ChatUpdate::Seen(first.info.timestamp)),
                chat_of_message(second),
                ChatUpdate::Seen(second.info.timestamp),
            );
            let other = merged_chats(
                merged_chats(
                    chats,
                    chat_of_message(second),
                    ChatUpdate::Seen(second.info.timestamp),
                ),
                chat_of_message(first),
                ChatUpdate::Seen(first.info.timestamp),
            );
            let jid = first.info.chat@;
            &&& one[jid].last_message_time == other[jid].last_message_time
            &&& !chats.contains_key(jid) ==> one[jid].last_message_time == Some(
                if first.info.timestamp >= second.info.timestamp {
                    first.info.timestamp
                } else {
                    second.info.timestamp
                },
            )
        }),
{
}

} // verus!
