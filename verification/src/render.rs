//! What a frame shows of the selected chat: which messages, where, and
//! what has to be fetched for them.

use crate::app::{newest_messages, App};
use crate::backend::{Message, MessageContent, JID};
use crate::events::AppEvent;
use crate::geometry::Rect;
use crate::media::Metadata;
use crate::message_list::{content_rows, is_plan, offset_showing, rows_below, rows_fit, MessageListState, Placement};
use crate::message_view::{
    get_quoted_text, header_rows, media_request, media_request_of, media_view, media_view_of,
    message_height, message_rows, quoted_text, MediaRequest, MediaView,
};
use vstd::prelude::*;
use vstd::string::*;

verus! {

/// The state of the file of the message `id`, if it has been asked for.
pub open spec fn meta_of(metadata: Map<Seq<char>, Metadata>, id: Seq<char>) -> Option<Metadata> {
    if metadata.contains_key(id) {
        Some(metadata[id])
    } else {
        None
    }
}

/// Rows that each of the messages takes at a width.
pub open spec fn row_counts(
    messages: Seq<Message>,
    width: nat,
    metadata: Map<Seq<char>, Metadata>,
) -> Seq<nat> {
    Seq::new(
        messages.len(),
        |i: int| message_rows(messages[i], width, meta_of(metadata, messages[i].info.id@)),
    )
}

/// Whether `heights` holds the given numbers of rows.
pub open spec fn holds_rows(heights: Seq<usize>, rows: Seq<nat>) -> bool {
    heights.len() == rows.len() && forall|i: int|
        0 <= i < heights.len() ==> #[trigger] heights[i] == rows[i]
}

/// Whether a `usize` can hold each of the numbers of rows.
pub open spec fn countable(rows: Seq<nat>) -> bool {
    forall|i: int| 0 <= i < rows.len() ==> #[trigger] rows[i] <= usize::MAX
}

/// The numbers of rows as machine numbers.
pub open spec fn as_heights(rows: Seq<nat>) -> Seq<usize> {
    Seq::new(rows.len(), |i: int| rows[i] as usize)
}

/// What has to be asked for when the message comes into view, given the
/// state of its file.
pub open spec fn request_of(message: Message, meta: Option<Metadata>) -> Option<AppEvent> {
    match message.message {
        MessageContent::Text(_) => None,
        MessageContent::File(file) => match media_request_of(file.kind, meta) {
            Some(MediaRequest::Download) => Some(
                AppEvent::DownloadFile(message.info.id, file.file_id),
            ),
            Some(MediaRequest::Preview) => Some(AppEvent::LoadPreview(message.info.id, file.path)),
            None => None,
        },
    }
}

/// What has to be asked for when the messages placed by `plan` come into
/// view, in the order in which they are placed.
pub open spec fn requests_of(
    messages: Seq<Message>,
    metadata: Map<Seq<char>, Metadata>,
    plan: Seq<Placement>,
) -> Seq<AppEvent>
    decreases plan.len(),
{
    if plan.len() == 0 {
        Seq::empty()
    } else {
        let before = requests_of(messages, metadata, plan.drop_last());
        let message = messages[plan.last().index as int];
        match request_of(message, meta_of(metadata, message.info.id@)) {
            Some(request) => before.push(request),
            None => before,
        }
    }
}

/// Whether the picture of a message is to be drawn in this frame: the
/// message carries a picture that is there, and the row at which the
/// picture starts, below the head of the message, is on screen. A picture
/// whose first row is out of view is not handed to the terminal at all.
pub open spec fn draws_picture(message: Message, meta: Option<Metadata>, placed: Placement) -> bool {
    match message.message {
        MessageContent::Text(_) => false,
        MessageContent::File(file) => media_view_of(file.kind, meta) == MediaView::Picture
            && placed.skipped <= header_rows(message) < placed.skipped + placed.rows,
    }
}

/// Whether the picture of a message is to be drawn in this frame.
pub fn picture_in_view(message: &Message, meta: Option<Metadata>, placed: &Placement) -> (res: bool)
    ensures
        res == draws_picture(*message, meta, *placed),
{
    match &message.message {
        MessageContent::Text(_) => false,
        MessageContent::File(file) => {
            let first_row: usize = if message.info.quote_id.is_some() {
                2
            } else {
                1
            };
            match media_view(file.kind, meta) {
                MediaView::Picture => placed.shows_row(first_row),
                _ => false,
            }
        },
    }
}

/// What a frame shows of the selected chat.
#[derive(Debug)]
pub struct MessagePlan {
    /// The heading of the message list.
    pub title: String,
    /// The messages of the chat, the newest first.
    pub messages: Vec<Message>,
    /// Where the messages in view go.
    pub placements: Vec<Placement>,
    /// What has to be asked for so that the messages in view can be shown
    /// in full.
    pub requests: Vec<AppEvent>,
}

/// What has to be asked for when the message comes into view, given the
/// state of its file.
pub fn request_for(message: &Message, meta: Option<Metadata>) -> (request: Option<AppEvent>)
    ensures
        request == request_of(*message, meta),
{
    match &message.message {
        MessageContent::Text(_) => None,
        MessageContent::File(file) => match media_request(file.kind, meta) {
            Some(MediaRequest::Download) => Some(
                AppEvent::DownloadFile(message.info.id.clone(), file.file_id.clone()),
            ),
            Some(MediaRequest::Preview) => Some(
                AppEvent::LoadPreview(message.info.id.clone(), file.path.clone()),
            ),
            None => None,
        },
    }
}

impl App {
    /// The name shown for the sender of a message: the name of the chat
    /// with the sender, or else the sender's identifier.
    pub open spec fn sender_name_of(&self, message: Message) -> Seq<char> {
        if self.chats@.contains_key(message.info.sender@) {
            self.chats@[message.info.sender@].display_name()
        } else {
            message.info.sender@
        }
    }

    /// The name shown for the sender of a message.
    pub fn sender_name(&self, message: &Message) -> (name: String)
        requires
            self.chats.wf(),
        ensures
            name@ == self.sender_name_of(*message),
    {
        match self.chats.get(&message.info.sender.0) {
            Some(chat) => chat.get_name(),
            None => message.info.sender.0.clone(),
        }
    }

    /// The line that shows what a message answers: the quoted message's
    /// text behind `> `, or a note that it is not there; nothing for a
    /// message that answers none.
    pub open spec fn quote_line_of(&self, message: Message) -> Option<Seq<char>> {
        match message.info.quote_id {
            Some(id) => Some(
                "> "@ + if self.messages@.contains_key(id@) {
                    quoted_text(self.messages@[id@])
                } else {
                    "not found"@
                },
            ),
            None => None,
        }
    }

    /// The line that shows what a message answers.
    pub fn quote_line(&self, message: &Message) -> (line: Option<String>)
        requires
            self.messages.wf(),
        ensures
            line is Some <==> self.quote_line_of(*message) is Some,
            line matches Some(text) ==> Some(text@) == self.quote_line_of(*message),
    {
        match &message.info.quote_id {
            Some(id) => {
                let start = String::from_str("> ");
                match self.messages.get(id) {
                    Some(quoted) => Some(start.concat(get_quoted_text(quoted).as_str())),
                    None => Some(start.concat("not found")),
                }
            },
            None => None,
        }
    }

    /// Rows that each of the messages takes at a width; `None` if a `usize`
    /// cannot hold the rows of one of them.
    pub fn message_heights(&self, messages: &Vec<Message>, width: usize) -> (heights: Option<
        Vec<usize>,
    >)
        requires
            self.metadata.wf(),
        ensures
            heights matches Some(found) ==> holds_rows(
                found@,
                row_counts(messages@, width as nat, self.metadata@),
            ),
            heights is None <==> exists|i: int|
                0 <= i < messages@.len() && #[trigger] row_counts(
                    messages@,
                    width as nat,
                    self.metadata@,
                )[i] > usize::MAX,
    {
        let ghost rows = row_counts(messages@, width as nat, self.metadata@);
        let mut heights: Vec<usize> = Vec::new();
        let mut i: usize = 0;
        while i < messages.len()
            invariant
                i <= messages@.len(),
                self.metadata.wf(),
                rows == row_counts(messages@, width as nat, self.metadata@),
                heights@.len() == i,
                forall|k: int| 0 <= k < i ==> #[trigger] heights@[k] == rows[k],
            decreases messages@.len() - i,
        {
            let meta = self.file_state(&messages[i].info.id);
            match message_height(&messages[i], width, meta) {
                Some(height) => {
                    heights.push(height);
                },
                None => {
                    proof {
                        assert(rows[i as int] > usize::MAX);
                    }
                    return None;
                },
            }
            i += 1;
        }
        proof {
            assert forall|k: int| 0 <= k < messages@.len() implies !(#[trigger] rows[k]
                > usize::MAX) by {
                assert(heights@[k] == rows[k]);
            }
        }
        Some(heights)
    }

    /// What has to be asked for when the messages placed by `plan` come
    /// into view.
    pub fn media_requests(&self, messages: &Vec<Message>, plan: &Vec<Placement>) -> (requests: Vec<
        AppEvent,
    >)
        requires
            self.metadata.wf(),
            forall|k: int| 0 <= k < plan@.len() ==> (#[trigger] plan@[k]).index < messages@.len(),
        ensures
            requests@ == requests_of(messages@, self.metadata@, plan@),
    {
        let mut requests: Vec<AppEvent> = Vec::new();
        let mut k: usize = 0;
        while k < plan.len()
            invariant
                k <= plan@.len(),
                self.metadata.wf(),
                forall|j: int|
                    0 <= j < plan@.len() ==> (#[trigger] plan@[j]).index < messages@.len(),
                requests@ == requests_of(messages@, self.metadata@, plan@.take(k as int)),
            decreases plan@.len() - k,
        {
            proof {
                assert(plan@.take(k + 1).drop_last() =~= plan@.take(k as int));
            }
            let message = &messages[plan[k].index];
            let meta = self.file_state(&message.info.id);
            match request_for(message, meta) {
                Some(request) => {
                    requests.push(request);
                },
                None => {},
            }
            k += 1;
        }
        proof {
            assert(plan@.take(plan@.len() as int) =~= plan@);
        }
        requests
    }

    /// What `plan_messages` makes of a state for a chat and an area: the
    /// plan, and the message list after it.
    ///
    /// The plan holds the chat's messages, the newest first. In an area
    /// without cells nothing is placed and the message list stays as it
    /// is. In any other area the selection is fitted to the messages: a
    /// chat without messages clears it, and a selection beyond the last
    /// message moves to the last message, which is noted by identifier.
    /// Then a new selection is scrolled into view, every message with a row
    /// inside the area is placed, and what the placed messages lack is
    /// asked for; only where a `usize` cannot count the rows is nothing
    /// scrolled or placed.
    pub open spec fn planned(
        &self,
        before: Self,
        chat: JID,
        area: Rect,
        plan: MessagePlan,
    ) -> bool {
        let messages = newest_messages(before.listed_messages(chat@));
        let rows = row_counts(messages, area.width as nat, before.metadata@);
        let state = before.message_list_state;
        let after = self.message_list_state;
        &&& plan.title@ == "Chat with "@ + before.chats@[chat@].display_name()
        &&& plan.messages@ == messages
        &&& if area.width == 0 || area.height == 0 {
            after == state && plan.placements@.len() == 0 && plan.requests@.len() == 0
        } else if messages.len() == 0 {
            &&& after.selected is None
            &&& after.offset == 0
            &&& after.selected_message == state.selected_message
            &&& after.update_selected == state.update_selected
            &&& plan.placements@.len() == 0
            &&& plan.requests@.len() == 0
        } else {
            let heights = as_heights(rows);
            &&& after.selected == MessageListState::clamped(state.selected, messages.len())
            &&& after.selected_message == (match after.selected {
                Some(index) => Some(messages[index as int].info.id),
                None => None,
            })
            &&& if !countable(rows) || content_rows(heights) > usize::MAX {
                &&& after.update_selected == state.update_selected
                &&& after.offset == state.offset
                &&& plan.placements@.len() == 0
                &&& plan.requests@.len() == 0
            } else {
                &&& after.update_selected == (state.update_selected && state.selected is None)
                &&& after.offset == (match after.selected {
                    Some(index) if state.update_selected => offset_showing(
                        state.offset as int,
                        rows_below(heights, index as int),
                        heights[index as int] as int,
                        area.height as int,
                    ),
                    _ => state.offset as int,
                })
                &&& is_plan(heights, after.offset as int, area, after.selected, plan.placements@)
                &&& plan.requests@ == requests_of(messages, before.metadata@, plan.placements@)
            }
        }
    }

    /// Works out what a frame shows of the selected chat in `area`, and
    /// brings selection and scroll position of the message list up to
    /// date. Without a selected chat there is nothing to show.
    pub fn plan_messages(&mut self, area: Rect) -> (plan: Option<MessagePlan>)
        requires
            old(self).wf(),
            area.wf(),
        ensures
            final(self).wf(),
            final(self).same_data(*old(self)),
            final(self).selected_chat_index == old(self).selected_chat_index,
            final(self).selected_chat_jid == old(self).selected_chat_jid,
            final(self).quoting_message == old(self).quoting_message,
            final(self).selected_widget == old(self).selected_widget,
            final(self).vim == old(self).vim,
            final(self).should_quit == old(self).should_quit,
            plan is Some <==> old(self).selected_chat_jid is Some,
            plan is None ==> final(self).message_list_state == old(self).message_list_state,
            plan matches Some(found) ==> final(self).planned(
                *old(self),
                old(self).selected_chat_jid->0,
                area,
                found,
            ),
            plan matches Some(found) ==> (area.width > 0 && area.height > 0 ==> final(self)
                .message_list_state.selected == MessageListState::clamped(
                old(self).message_list_state.selected,
                found.messages@.len(),
            )),
    {
        proof {
            self.lemma_selected_is_chat();
        }
        let chat = match &self.selected_chat_jid {
            Some(jid) => jid.clone(),
            None => {
                return None;
            },
        };
        let name = match self.chats.get(&chat.0) {
            Some(found) => found.get_name(),
            None => chat.0.clone(),
        };
        let title = String::from_str("Chat with ").concat(name.as_str());
        let messages = self.sorted_messages(&chat);
        let mut plan = MessagePlan {
            title,
            messages,
            placements: Vec::new(),
            requests: Vec::new(),
        };
        if area.is_empty() {
            return Some(plan);
        }
        if plan.messages.len() == 0 {
            self.message_list_state.clamp(0);
            proof {
                self.lemma_index_frame(*old(self));
            }
            return Some(plan);
        }
        self.message_list_state.clamp(plan.messages.len());
        self.message_list_state.selected_message = match self.message_list_state.selected {
            Some(index) => Some(plan.messages[index].info.id.clone()),
            None => None,
        };
        proof {
            self.lemma_index_frame(*old(self));
        }
        let ghost rows = row_counts(plan.messages@, area.width as nat, self.metadata@);
        let heights = match self.message_heights(&plan.messages, area.width as usize) {
            Some(heights) => heights,
            None => {
                return Some(plan);
            },
        };
        proof {
            assert(heights@ =~= as_heights(rows));
        }
        if !rows_fit(&heights) {
            return Some(plan);
        }
        let placements = self.message_list_state.layout(&heights, area);
        proof {
            self.lemma_index_frame(*old(self));
        }
        let requests = self.media_requests(&plan.messages, &placements);
        plan.placements = placements;
        plan.requests = requests;
        Some(plan)
    }
}

} // verus!
