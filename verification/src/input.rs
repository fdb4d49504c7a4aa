//! Which keys do what: moving between the panels, and the keys of each
//! panel.

use crate::app::{App, SelectedWidget};
use crate::backend::{FileId, Message, MessageId, JID};
use crate::chat::Chat;
use crate::chords::{begins_chord, completes_chord, sequences};
use crate::keys::{KeyCode, KeyEvent, KeyEventKind, TerminalEvent};
use crate::message_list::MessageListState;
use crate::vim::{
    is_plain_letter, lemma_first_letter_is_held, lemma_last_letter_fires,
    lemma_other_letter_starts_afresh, mode_after, vim_step, EditorCommand, Mode, Step,
    Transition,
};
use vstd::prelude::*;
use vstd::string::*;

verus! {

/// Something for the program around the client to do.
#[derive(Debug)]
pub enum Action {
    /// Write out what is queued for the persistent store and stop it.
    StopPersistence,
    /// Select everything in the compose box.
    SelectAllInput,
    /// Send this text to this chat, as an answer to the quoted message if
    /// there is one.
    SendInput { chat: JID, text: String, quoted: Option<Message> },
    /// Empty the compose box.
    ClearInput,
    /// Do this in the compose box.
    Edit(EditorCommand),
    /// Show the compose box as being in this mode.
    RestyleInput(Mode),
    /// Queue this chat for the persistent store.
    PersistChat(Chat),
    /// Queue this message for the persistent store.
    PersistMessage(Message),
    /// Fetch this file from the backend and report how it went.
    Download { message_id: MessageId, file_id: FileId },
    /// Decode this picture and report how it went.
    Decode { message_id: MessageId, path: String },
    /// Ask the backend for contacts and groups and hand them in.
    FetchContacts,
}

/// The lines of a text as one text, a line feed between each two.
pub open spec fn joined(lines: Seq<String>) -> Seq<char>
    decreases lines.len(),
{
    if lines.len() == 0 {
        Seq::empty()
    } else if lines.len() == 1 {
        lines[0]@
    } else {
        joined(lines.drop_last()) + seq!['\n'] + lines.last()@
    }
}

/// The lines of a text as one text, a line feed between each two.
pub fn join_lines(lines: &Vec<String>) -> (text: String)
    ensures
        text@ == joined(lines@),
{
    let mut text = String::new();
    if lines.len() == 0 {
        return text;
    }
    text = lines[0].clone();
    let mut i: usize = 1;
    proof {
        reveal_strlit("\n");
    }
    while i < lines.len()
        invariant
            1 <= i <= lines@.len(),
            "\n"@ == seq!['\n'],
            text@ == joined(lines@.take(i as int)),
        decreases lines@.len() - i,
    {
        proof {
            assert(lines@.take(i + 1).drop_last() =~= lines@.take(i as int));
        }
        text = text.concat("\n").concat(lines[i].as_str());
        i += 1;
    }
    proof {
        assert(lines@.take(lines@.len() as int) =~= lines@);
    }
    text
}

/// Where a key moves the focus from a panel, if it moves it.
pub open spec fn focus_move(widget: SelectedWidget, key: KeyEvent) -> Option<SelectedWidget> {
    match widget {
        SelectedWidget::ChatList => if key.is_ctrl('l') {
            Some(SelectedWidget::Input)
        } else {
            None
        },
        SelectedWidget::Input => if key.is_ctrl('k') {
            Some(SelectedWidget::MessageList)
        } else if key.is_ctrl('h') {
            Some(SelectedWidget::ChatList)
        } else {
            None
        },
        SelectedWidget::MessageList => if key.is_ctrl('j') {
            Some(SelectedWidget::Input)
        } else if key.is_ctrl('h') {
            Some(SelectedWidget::ChatList)
        } else {
            None
        },
        SelectedWidget::MessageView => if key.code == KeyCode::Esc {
            Some(SelectedWidget::MessageList)
        } else {
            None
        },
    }
}

/// Where a key moves the focus from a panel, if it moves it.
pub fn focus_after(widget: SelectedWidget, key: &KeyEvent) -> (res: Option<SelectedWidget>)
    ensures
        res == focus_move(widget, *key),
{
    match widget {
        SelectedWidget::ChatList => if key.has_ctrl('l') {
            Some(SelectedWidget::Input)
        } else {
            None
        },
        SelectedWidget::Input => if key.has_ctrl('k') {
            Some(SelectedWidget::MessageList)
        } else if key.has_ctrl('h') {
            Some(SelectedWidget::ChatList)
        } else {
            None
        },
        SelectedWidget::MessageList => if key.has_ctrl('j') {
            Some(SelectedWidget::Input)
        } else if key.has_ctrl('h') {
            Some(SelectedWidget::ChatList)
        } else {
            None
        },
        SelectedWidget::MessageView => match key.code {
            KeyCode::Esc => Some(SelectedWidget::MessageList),
            _ => None,
        },
    }
}

/// The place in a list of `len` chats one step down from `index`, the
/// first following the last.
pub open spec fn next_place(index: int, len: int) -> int {
    if index + 1 >= len {
        0
    } else {
        index + 1
    }
}

/// The place in a list of `len` chats one step up from `index`, the last
/// following the first.
pub open spec fn previous_place(index: int, len: int) -> int {
    if index == 0 {
        len - 1
    } else {
        index - 1
    }
}

/// A message list with nothing selected and scrolled to the newest
/// message.
pub open spec fn is_reset(state: MessageListState) -> bool {
    state.selected is None && state.offset == 0 && state.selected_message is None
        && !state.update_selected
}

impl App {
    /// Whether the tables, the sorted list of chats and what the program
    /// reports of sync and compose box are as in `before`.
    pub open spec fn same_data(&self, before: Self) -> bool {
        &&& self.compose == before.compose
        &&& self.messages == before.messages
        &&& self.chats == before.chats
        &&& self.chat_messages == before.chat_messages
        &&& self.metadata == before.metadata
        &&& self.sorted_chats == before.sorted_chats
        &&& self.history_sync_percent == before.history_sync_percent
    }

    /// Whether nothing at all differs from `before`.
    pub open spec fn unchanged(&self, before: Self) -> bool {
        &&& self.same_data(before)
        &&& self.selected_chat_index == before.selected_chat_index
        &&& self.view_unchanged(before)
    }

    /// What the chat list makes of a report from the terminal.
    ///
    /// `j` selects the next chat and `k` the one before, going round at the
    /// ends; with no chat selected both select the first. The message list
    /// starts afresh for the chat selected. `Enter` moves on to the compose
    /// box of the selected chat. Without chats, and on every other report,
    /// nothing happens.
    pub open spec fn chat_list_handled(&self, before: Self, event: TerminalEvent) -> bool {
        let len = before.sorted_chats@.len() as int;
        let moves = event matches TerminalEvent::Key(key) && key.kind == KeyEventKind::Press && (
        key.is_char('j') || key.is_char('k')) && len > 0;
        let enters = event matches TerminalEvent::Key(key) && key.kind == KeyEventKind::Press
            && key.code == KeyCode::Enter && before.selected_chat_index is Some;
        if moves {
            let key = event->Key_0;
            let place = match before.selected_chat_index {
                Some(index) => if key.is_char('j') {
                    next_place(index as int, len)
                } else {
                    previous_place(index as int, len)
                },
                None => 0,
            };
            &&& self.same_data(before)
            &&& self.selected_chat_index == Some(place as usize)
            &&& self.selected_chat_jid == Some(before.sorted_chats@[place].jid)
            &&& is_reset(self.message_list_state)
            &&& self.quoting_message == before.quoting_message
            &&& self.selected_widget == before.selected_widget
            &&& self.vim == before.vim
            &&& self.should_quit == before.should_quit
        } else if enters {
            &&& self.same_data(before)
            &&& self.selected_chat_index == before.selected_chat_index
            &&& self.selected_chat_jid == Some(
                before.sorted_chats@[before.selected_chat_index->0 as int].jid,
            )
            &&& is_reset(self.message_list_state)
            &&& self.quoting_message == before.quoting_message
            &&& self.selected_widget == SelectedWidget::Input
            &&& self.vim == before.vim
            &&& self.should_quit == before.should_quit
        } else {
            self.unchanged(before)
        }
    }

    /// Handles a report from the terminal while the chat list has the
    /// focus.
    pub fn chat_list_on_event(&mut self, event: &TerminalEvent)
        requires
            old(self).wf(),
        ensures
            final(self).wf(),
            final(self).chat_list_handled(*old(self), *event),
    {
        let key = match event {
            TerminalEvent::Key(key) => key,
            _ => {
                return ;
            },
        };
        if !key.is_press() {
            return ;
        }
        let len = self.sorted_chats.len();
        if key.has_char('j') || key.has_char('k') {
            if len == 0 {
                return ;
            }
            let place = match self.selected_chat_index {
                Some(index) => {
                    if key.has_char('j') {
                        if index + 1 >= len {
                            0
                        } else {
                            index + 1
                        }
                    } else if index == 0 {
                        len - 1
                    } else {
                        index - 1
                    }
                },
                None => 0,
            };
            self.selected_chat_jid = Some(self.sorted_chats[place].jid.clone());
            self.selected_chat_index = Some(place);
            self.message_list_state.reset();
            proof {
                self.lemma_index_frame(*old(self));
            }
        } else {
            match key.code {
                KeyCode::Enter => {
                    match self.selected_chat_index {
                        Some(index) => {
                            self.selected_chat_jid = Some(self.sorted_chats[index].jid.clone());
                            self.message_list_state.reset();
                            self.selected_widget = SelectedWidget::Input;
                            proof {
                                self.lemma_index_frame(*old(self));
                            }
                        },
                        None => {},
                    }
                },
                _ => {},
            }
        }
    }

    /// What the message list makes of a report from the terminal.
    ///
    /// `J` and `K` scroll by a row, `j` and `k` move the selection towards
    /// newer and older messages, `r` quotes the selected message and moves
    /// on to the compose box, `Enter` opens the selected message, `Esc`
    /// drops selection and scrolling. A key without a message to act on,
    /// and every other report, changes nothing.
    pub open spec fn message_list_handled(&self, before: Self, event: TerminalEvent) -> bool {
        let state = before.message_list_state;
        let pressed = event matches TerminalEvent::Key(key) && key.kind == KeyEventKind::Press;
        let key = event->Key_0;
        &&& self.same_data(before)
        &&& self.selected_chat_index == before.selected_chat_index
        &&& self.selected_chat_jid == before.selected_chat_jid
        &&& self.vim == before.vim
        &&& self.should_quit == before.should_quit
        &&& if pressed && key.is_char('J') {
            &&& self.message_list_state == (MessageListState {
                offset: if state.offset == 0 {
                    0
                } else {
                    (state.offset - 1) as usize
                },
                ..state
            })
            &&& self.quoting_message == before.quoting_message
            &&& self.selected_widget == before.selected_widget
        } else if pressed && key.is_char('K') {
            &&& self.message_list_state == (MessageListState {
                offset: if state.offset == usize::MAX {
                    usize::MAX
                } else {
                    (state.offset + 1) as usize
                },
                ..state
            })
            &&& self.quoting_message == before.quoting_message
            &&& self.selected_widget == before.selected_widget
        } else if pressed && key.is_char('j') {
            &&& self.message_list_state == (MessageListState {
                selected: Some(MessageListState::previous_of(state.selected)),
                update_selected: true,
                ..state
            })
            &&& self.quoting_message == before.quoting_message
            &&& self.selected_widget == before.selected_widget
        } else if pressed && key.is_char('k') {
            &&& self.message_list_state == (MessageListState {
                selected: Some(MessageListState::next_of(state.selected)),
                update_selected: true,
                ..state
            })
            &&& self.quoting_message == before.quoting_message
            &&& self.selected_widget == before.selected_widget
        } else if pressed && key.is_char('r') && state.selected_message is Some
            && before.messages@.contains_key(state.selected_message->0@) {
            &&& self.message_list_state == state
            &&& self.quoting_message == Some(before.messages@[state.selected_message->0@])
            &&& self.selected_widget == SelectedWidget::Input
        } else if pressed && key.code == KeyCode::Enter && state.selected_message is Some {
            &&& self.message_list_state == state
            &&& self.quoting_message == before.quoting_message
            &&& self.selected_widget == SelectedWidget::MessageView
        } else if pressed && key.code == KeyCode::Esc {
            &&& is_reset(self.message_list_state)
            &&& self.quoting_message == before.quoting_message
            &&& self.selected_widget == before.selected_widget
        } else {
            &&& self.message_list_state == state
            &&& self.quoting_message == before.quoting_message
            &&& self.selected_widget == before.selected_widget
        }
    }

    /// Handles a report from the terminal while the message list has the
    /// focus.
    pub fn message_list_on_event(&mut self, event: &TerminalEvent)
        requires
            old(self).wf(),
        ensures
            final(self).wf(),
            final(self).message_list_handled(*old(self), *event),
    {
        let key = match event {
            TerminalEvent::Key(key) => key,
            _ => {
                return ;
            },
        };
        if !key.is_press() {
            return ;
        }
        match key.code {
            KeyCode::Char(letter) => {
                if letter == 'J' {
                    self.message_list_state.offset = self.message_list_state.offset.saturating_sub(
                        1,
                    );
                } else if letter == 'K' {
                    self.message_list_state.offset = self.message_list_state.offset.saturating_add(
                        1,
                    );
                } else if letter == 'j' {
                    self.message_list_state.select_previous();
                } else if letter == 'k' {
                    self.message_list_state.select_next();
                } else if letter == 'r' {
                    let quoted = match &self.message_list_state.selected_message {
                        Some(id) => match self.messages.get(id) {
                            Some(message) => Some(message.clone()),
                            None => None,
                        },
                        None => None,
                    };
                    match quoted {
                        Some(message) => {
                            self.quoting_message = Some(message);
                            self.selected_widget = SelectedWidget::Input;
                        },
                        None => {},
                    }
                }
            },
            KeyCode::Enter => {
                if self.message_list_state.selected_message.is_some() {
                    self.selected_widget = SelectedWidget::MessageView;
                }
            },
            KeyCode::Esc => {
                self.message_list_state.reset();
            },
            _ => {},
        }
        proof {
            self.lemma_index_frame(*old(self));
        }
    }

    /// What the compose box makes of a report from the terminal, and what
    /// it asks the program to do.
    ///
    /// Control-r drops the quoted message. Control-x sends what the compose
    /// box holds, its lines joined, to the selected chat, if there is one,
    /// empties the box and drops the quoted message. Every other key goes
    /// to the modes of the compose box: the
    /// command it yields is passed on, and a change of mode is shown.
    pub open spec fn input_handled(
        &self,
        before: Self,
        event: TerminalEvent,
        actions: Seq<Action>,
    ) -> bool {
        let key = event->Key_0;
        &&& self.same_data(before)
        &&& self.selected_chat_index == before.selected_chat_index
        &&& self.selected_chat_jid == before.selected_chat_jid
        &&& self.message_list_state == before.message_list_state
        &&& self.selected_widget == before.selected_widget
        &&& self.should_quit == before.should_quit
        &&& self.vim.chords.registered == before.vim.chords.registered
        &&& self.vim.bindings == before.vim.bindings
        &&& if event is Key && key.is_ctrl('r') {
            &&& self.quoting_message is None
            &&& self.vim == before.vim
            &&& actions.len() == 0
        } else if event is Key && key.is_ctrl('x') {
            &&& self.quoting_message == (if before.selected_chat_jid is Some {
                None
            } else {
                before.quoting_message
            })
            &&& self.vim == before.vim
            &&& match before.selected_chat_jid {
                Some(chat) => {
                    &&& actions.len() == 2
                    &&& actions[0] matches Action::SendInput { chat: to, text, quoted }
                    &&& to == chat
                    &&& text@ == joined(before.compose@)
                    &&& quoted == before.quoting_message
                    &&& actions[1] is ClearInput
                },
                None => actions.len() == 0,
            }
        } else if event is Key && key.kind != KeyEventKind::Release {
            let (step, mode, held) = vim_step(
                sequences(before.vim.chords.registered@),
                before.vim.bindings@,
                before.vim.mode,
                before.vim.chords.buffer@,
                key,
            );
            &&& self.quoting_message == before.quoting_message
            &&& self.vim.mode == mode
            &&& self.vim.chords.buffer@ == held
            &&& actions == step_actions(step, before.vim.mode)
        } else {
            &&& self.quoting_message == before.quoting_message
            &&& self.vim == before.vim
            &&& actions.len() == 0
        }
    }

    /// Handles a report from the terminal while the compose box has the
    /// focus.
    pub fn input_on_event(&mut self, event: &TerminalEvent) -> (actions: Vec<Action>)
        requires
            old(self).wf(),
        ensures
            final(self).wf(),
            final(self).input_handled(*old(self), *event, actions@),
    {
        let mut actions: Vec<Action> = Vec::new();
        let key = match event {
            TerminalEvent::Key(key) => key,
            _ => {
                return actions;
            },
        };
        if key.has_ctrl('r') {
            self.quoting_message = None;
            proof {
                self.lemma_index_frame(*old(self));
            }
            return actions;
        }
        if key.has_ctrl('x') {
            let chat = match &self.selected_chat_jid {
                Some(jid) => Some(jid.clone()),
                None => None,
            };
            match chat {
                Some(chat) => {
                    let mut quoted: Option<Message> = None;
                    std::mem::swap(&mut quoted, &mut self.quoting_message);
                    let text = join_lines(&self.compose);
                    actions.push(Action::SendInput { chat, text, quoted });
                    actions.push(Action::ClearInput);

                },
                None => {},
            }
            proof {
                self.lemma_index_frame(*old(self));
            }
            return actions;
        }
        match key.kind {
            KeyEventKind::Release => {
                return actions;
            },
            _ => {},
        }
        let mode = self.vim.mode;
        let step = self.vim.transition(*key);
        match step.command {
            Some(command) => {
                actions.push(Action::Edit(command));
            },
            None => {},
        }
        match step.transition {
            Transition::Mode(next) => {
                if next != mode {
                    actions.push(Action::RestyleInput(next));
                }
            },
            _ => {},
        }
        proof {
            self.lemma_index_frame(*old(self));
        }
        actions
    }

    /// What the client makes of a report from the terminal, whichever
    /// panel has the focus, and what it asks the program to do.
    ///
    /// A key press is first looked at for what holds everywhere: control-q
    /// ends the program, and the keys of `focus_move` move the focus.
    /// Whatever is left goes to the panel that has the focus.
    pub open spec fn handled(&self, before: Self, event: TerminalEvent, actions: Seq<Action>) -> bool {
        let pressed = event matches TerminalEvent::Key(key) && key.kind == KeyEventKind::Press;
        let key = event->Key_0;
        if pressed && key.is_ctrl('q') {
            &&& self.same_data(before)
            &&& self.selected_chat_index == before.selected_chat_index
            &&& self.selected_chat_jid == before.selected_chat_jid
            &&& self.quoting_message == before.quoting_message
            &&& self.message_list_state == before.message_list_state
            &&& self.selected_widget == before.selected_widget
            &&& self.vim == before.vim
            &&& self.should_quit
            &&& actions == seq![Action::StopPersistence]
        } else if pressed && focus_move(before.selected_widget, key) is Some {
            &&& self.same_data(before)
            &&& self.selected_chat_index == before.selected_chat_index
            &&& self.selected_chat_jid == before.selected_chat_jid
            &&& self.quoting_message == before.quoting_message
            &&& self.message_list_state == before.message_list_state
            &&& self.selected_widget == focus_move(before.selected_widget, key)->0
            &&& self.vim == before.vim
            &&& self.should_quit == before.should_quit
            &&& actions == (if before.selected_widget == SelectedWidget::ChatList {
                seq![Action::SelectAllInput]
            } else {
                Seq::<Action>::empty()
            })
        } else {
            match before.selected_widget {
                SelectedWidget::ChatList => self.chat_list_handled(before, event) && actions.len()
                    == 0,
                SelectedWidget::MessageList => self.message_list_handled(before, event)
                    && actions.len() == 0,
                SelectedWidget::Input => self.input_handled(before, event, actions),
                SelectedWidget::MessageView => self.unchanged(before) && actions.len() == 0,
            }
        }
    }

    /// Handles a report from the terminal.
    pub fn on_event(&mut self, event: TerminalEvent) -> (actions: Vec<Action>)
        requires
            old(self).wf(),
        ensures
            final(self).wf(),
            final(self).handled(*old(self), event, actions@),
    {
        let mut actions: Vec<Action> = Vec::new();
        match &event {
            TerminalEvent::Key(key) => {
                if key.is_press() {
                    if key.has_ctrl('q') {
                        self.should_quit = true;
                        actions.push(Action::StopPersistence);
                        proof {
                            self.lemma_index_frame(*old(self));
                        }
                        return actions;
                    }
                    match focus_after(self.selected_widget, key) {
                        Some(widget) => {
                            match self.selected_widget {
                                SelectedWidget::ChatList => {
                                    actions.push(Action::SelectAllInput);
                                },
                                _ => {},
                            }
                            self.selected_widget = widget;
                            proof {
                                self.lemma_index_frame(*old(self));
                            }
                            return actions;
                        },
                        None => {},
                    }
                }
            },
            _ => {},
        }
        match self.selected_widget {
            SelectedWidget::ChatList => {
                self.chat_list_on_event(&event);
                actions
            },
            SelectedWidget::MessageList => {
                self.message_list_on_event(&event);
                actions
            },
            SelectedWidget::Input => self.input_on_event(&event),
            SelectedWidget::MessageView => actions,
        }
    }
}

/// Whether the key is a letter that the compose box, in normal mode, looks
/// at for commands of several keys.
pub open spec fn is_command_letter(before: App, key: KeyEvent) -> bool {
    is_plain_letter(key) && key.kind != KeyEventKind::Release && before.vim.mode == Mode::Normal
}

/// In the compose box in normal mode, with nothing held back, the first
/// letter of a registered command that is not a command of one key itself
/// is held back: nothing is asked of the program, and the single-key
/// meaning of the letter does not apply.
pub proof fn lemma_compose_box_holds_first_letter(
    after: App,
    before: App,
    key: KeyEvent,
    actions: Seq<Action>,
)
    requires
        is_command_letter(before, key),
        before.vim.chords.buffer@.len() == 0,
        begins_chord(sequences(before.vim.chords.registered@), seq![key.code->Char_0]),
        !completes_chord(sequences(before.vim.chords.registered@), seq![key.code->Char_0]),
        after.input_handled(before, TerminalEvent::Key(key), actions),
    ensures
        actions.len() == 0,
        after.vim.mode == Mode::Normal,
        after.vim.chords.buffer@ == seq![key.code->Char_0],
{
    assert(before.vim.chords.buffer@ =~= Seq::<char>::empty());
    lemma_first_letter_is_held(
        sequences(before.vim.chords.registered@),
        before.vim.bindings@,
        key,
    );
}

/// In the compose box in normal mode, the letter that completes a
/// registered command has exactly that command carried out, whatever other
/// commands begin with the same keys, and nothing is held back any more.
/// `index` is the first place at which the command is registered.
pub proof fn lemma_compose_box_fires_completed_command(
    after: App,
    before: App,
    key: KeyEvent,
    actions: Seq<Action>,
    index: int,
)
    requires
        before.vim.wf(),
        is_command_letter(before, key),
        0 <= index < before.vim.chords.registered@.len(),
        index <= usize::MAX,
        sequences(before.vim.chords.registered@)[index] == before.vim.chords.buffer@.push(
            key.code->Char_0,
        ),
        forall|j: int|
            0 <= j < index ==> sequences(before.vim.chords.registered@)[j]
                != before.vim.chords.buffer@.push(key.code->Char_0),
        after.input_handled(before, TerminalEvent::Key(key), actions),
    ensures
        actions == step_actions(before.vim.bindings@[index], Mode::Normal),
        after.vim.mode == mode_after(before.vim.bindings@[index]),
        after.vim.chords.buffer@.len() == 0,
{
    lemma_last_letter_fires(
        sequences(before.vim.chords.registered@),
        before.vim.bindings@,
        before.vim.chords.buffer@,
        key,
        index,
    );
}

/// In the compose box in normal mode, a letter that neither completes nor
/// continues what is held back is handled exactly as if nothing had been
/// held back: the same state follows and the same is asked of the program.
/// `fresh` is the state `before` with nothing held back.
pub proof fn lemma_compose_box_takes_other_letter_afresh(
    after: App,
    before: App,
    fresh: App,
    key: KeyEvent,
    actions: Seq<Action>,
)
    requires
        is_command_letter(before, key),
        !completes_chord(
            sequences(before.vim.chords.registered@),
            before.vim.chords.buffer@.push(key.code->Char_0),
        ),
        !begins_chord(
            sequences(before.vim.chords.registered@),
            before.vim.chords.buffer@.push(key.code->Char_0),
        ),
        fresh.same_data(before),
        fresh.selected_chat_index == before.selected_chat_index,
        fresh.selected_chat_jid == before.selected_chat_jid,
        fresh.quoting_message == before.quoting_message,
        fresh.message_list_state == before.message_list_state,
        fresh.selected_widget == before.selected_widget,
        fresh.should_quit == before.should_quit,
        fresh.vim.mode == before.vim.mode,
        fresh.vim.chords.registered == before.vim.chords.registered,
        fresh.vim.bindings == before.vim.bindings,
        fresh.vim.chords.buffer@.len() == 0,
    ensures
        after.input_handled(before, TerminalEvent::Key(key), actions) == after.input_handled(
            fresh,
            TerminalEvent::Key(key),
            actions,
        ),
        after.input_handled(before, TerminalEvent::Key(key), actions) ==> (
        after.vim.chords.buffer@.len() == 0 || after.vim.chords.buffer@ == seq![
            key.code->Char_0,
        ]),
{
    assert(fresh.vim.chords.buffer@ =~= Seq::<char>::empty());
    lemma_other_letter_starts_afresh(
        sequences(before.vim.chords.registered@),
        before.vim.bindings@,
        before.vim.chords.buffer@,
        key,
    );
}

/// What the program is asked to do after a step of the compose box taken
/// in mode `before`: the step's command, then the new look if the mode has
/// changed.
pub open spec fn step_actions(step: Step, before: Mode) -> Seq<Action> {
    let edit = match step.command {
        Some(command) => seq![Action::Edit(command)],
        None => Seq::<Action>::empty(),
    };
    match step.transition {
        Transition::Mode(mode) => if mode != before {
            edit.push(Action::RestyleInput(mode))
        } else {
            edit
        },
        _ => edit,
    }
}

} // verus!
