//! Chats and the names shown for them.

use crate::backend::{Contact, JID};
use crate::order::rank;
use vstd::prelude::*;
use vstd::string::*;

verus! {

/// One conversation, with a person or a group.
#[derive(Debug)]
pub struct Chat {
    pub jid: JID,
    /// The name to show; without one the identifier is shown.
    pub name: Option<String>,
    /// When the newest message of the chat was sent.
    pub last_message_time: Option<i64>,
}

/// A chat as text and numbers.
pub struct ChatView {
    pub jid: Seq<char>,
    pub name: Option<Seq<char>>,
    pub last_message_time: Option<i64>,
}

/// An optional text as characters.
pub open spec fn opt_view(text: Option<String>) -> Option<Seq<char>> {
    match text {
        Some(text) => Some(text@),
        None => None,
    }
}

impl View for Chat {
    type V = ChatView;

    open spec fn view(&self) -> ChatView {
        ChatView {
            jid: self.jid@,
            name: opt_view(self.name),
            last_message_time: self.last_message_time,
        }
    }
}

impl Clone for Chat {
    fn clone(&self) -> (res: Self)
        ensures
            res == *self,
    {
        Chat {
            jid: self.jid.clone(),
            name: match &self.name {
                Some(name) => Some(name.clone()),
                None => None,
            },
            last_message_time: self.last_message_time,
        }
    }
}

impl Chat {
    /// The text shown for the chat: its name, or else its identifier.
    pub open spec fn display_name(&self) -> Seq<char> {
        match self.name {
            Some(name) => name@,
            None => self.jid@,
        }
    }

    /// The text shown for the chat.
    pub fn get_name(&self) -> (res: String)
        ensures
            res@ == self.display_name(),
    {
        match &self.name {
            Some(name) => name.clone(),
            None => self.jid.0.clone(),
        }
    }

    /// The timestamp a chat has after a message sent at `timestamp` was
    /// seen: the later of the two.
    pub open spec fn later(last: Option<i64>, timestamp: i64) -> Option<i64> {
        if rank(Some(timestamp)) > rank(last) {
            Some(timestamp)
        } else {
            last
        }
    }

    /// Moves the chat's last-message time forward to `timestamp`; an older
    /// timestamp changes nothing.
    pub fn advance(&mut self, timestamp: i64)
        ensures
            final(self).jid == old(self).jid,
            final(self).name == old(self).name,
            final(self).last_message_time == Chat::later(old(self).last_message_time, timestamp),
    {
        let newer = match self.last_message_time {
            Some(last) => last < timestamp,
            None => true,
        };
        if newer {
            self.last_message_time = Some(timestamp);
        }
    }
}

/// The name to show for a contact, by the first of its names that is not
/// empty: the full name, the first name, the push name behind `~ `, the
/// business name behind `+ `.
pub open spec fn contact_name(contact: Contact) -> Option<Seq<char>> {
    if contact.full_name@.len() > 0 {
        Some(contact.full_name@)
    } else if contact.first_name@.len() > 0 {
        Some(contact.first_name@)
    } else if contact.push_name@.len() > 0 {
        Some("~ "@ + contact.push_name@)
    } else if contact.business_name@.len() > 0 {
        Some("+ "@ + contact.business_name@)
    } else {
        None
    }
}

/// The name to show for a contact, or `None` where it has no name at all.
pub fn get_contact_name(contact: &Contact) -> (res: Option<String>)
    ensures
        res is Some <==> contact_name(*contact) is Some,
        res matches Some(name) ==> Some(name@) == contact_name(*contact),
{
    if !contact.full_name.as_str().is_empty() {
        Some(contact.full_name.clone())
    } else if !contact.first_name.as_str().is_empty() {
        Some(contact.first_name.clone())
    } else if !contact.push_name.as_str().is_empty() {
        Some(String::from_str("~ ").concat(contact.push_name.as_str()))
    } else if !contact.business_name.as_str().is_empty() {
        Some(String::from_str("+ ").concat(contact.business_name.as_str()))
    } else {
        None
    }
}

/// The character for a digit.
pub open spec fn digit_of(value: int) -> char {
    if value == 0 {
        '0'
    } else if value == 1 {
        '1'
    } else if value == 2 {
        '2'
    } else if value == 3 {
        '3'
    } else if value == 4 {
        '4'
    } else if value == 5 {
        '5'
    } else if value == 6 {
        '6'
    } else if value == 7 {
        '7'
    } else if value == 8 {
        '8'
    } else {
        '9'
    }
}

/// A number in decimal digits.
pub open spec fn decimal(value: nat) -> Seq<char>
    decreases value,
{
    if value < 10 {
        seq![digit_of(value as int)]
    } else {
        decimal(value / 10).push(digit_of(value as int % 10))
    }
}

/// The heading of the chat list: while the history is being fetched, with
/// the percentage that has arrived.
pub open spec fn contacts_title_of(percent: Option<u8>) -> Seq<char> {
    match percent {
        Some(percent) => "Contacts ("@ + decimal(percent as nat) + "%)"@,
        None => "Contacts"@,
    }
}

fn digit(value: u8) -> (text: &'static str)
    requires
        value < 10,
    ensures
        text@ == seq![digit_of(value as int)],
{
    proof {
        reveal_strlit("0");
        reveal_strlit("1");
        reveal_strlit("2");
        reveal_strlit("3");
        reveal_strlit("4");
        reveal_strlit("5");
        reveal_strlit("6");
        reveal_strlit("7");
        reveal_strlit("8");
        reveal_strlit("9");
    }
    let text = match value {
        0 => "0",
        1 => "1",
        2 => "2",
        3 => "3",
        4 => "4",
        5 => "5",
        6 => "6",
        7 => "7",
        8 => "8",
        _ => "9",
    };
    text
}

/// A number below 256 in decimal digits.
pub fn percent_text(value: u8) -> (text: String)
    ensures
        text@ == decimal(value as nat),
{
    let ones = digit(value % 10);
    if value < 10 {
        String::from_str(ones)
    } else if value < 100 {
        let text = String::from_str(digit(value / 10)).concat(ones);
        proof {
            assert(decimal(value as nat / 10) == seq![digit_of(value as int / 10)]);
        }
        text
    } else {
        let text = String::from_str(digit(value / 100)).concat(digit(value / 10 % 10)).concat(
            ones,
        );
        proof {
            assert(decimal(value as nat / 100) == seq![digit_of(value as int / 100)]);
            assert(decimal(value as nat / 10) =~= seq![
                digit_of(value as int / 100),
                digit_of(value as int / 10 % 10),
            ]);
        }
        text
    }
}

/// The heading of the chat list.
pub fn contacts_title(percent: Option<u8>) -> (title: String)
    ensures
        title@ == contacts_title_of(percent),
{
    match percent {
        Some(percent) => String::from_str("Contacts (").concat(
            percent_text(percent).as_str(),
        ).concat("%)"),
        None => String::from_str("Contacts"),
    }
}

} // verus!
