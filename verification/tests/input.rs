use wstui::app::{App, SelectedWidget};
use wstui::backend::{Message, MessageContent, MessageInfo, JID};
use wstui::chords::{ChordOutcome, KeyChords};
use wstui::events::AppInput;
use wstui::input::{focus_after, join_lines, Action};
use wstui::keys::{KeyCode, KeyEvent, KeyEventKind, KeyModifiers, TerminalEvent};
use wstui::vim::{normal_step, EditorCommand, Mode, Step, Transition, Vim};

fn letters(text: &str) -> Vec<char> {
    text.chars().collect()
}

fn chords_of(sequences: &[&str]) -> KeyChords {
    KeyChords::new(sequences.iter().map(|text| letters(text)).collect())
}

fn key(letter: char) -> TerminalEvent {
    TerminalEvent::Key(KeyEvent::press(KeyCode::Char(letter)))
}

fn ctrl(letter: char) -> TerminalEvent {
    TerminalEvent::Key(KeyEvent::ctrl(letter))
}

fn special(code: KeyCode) -> TerminalEvent {
    TerminalEvent::Key(KeyEvent::press(code))
}

fn note(id: &str, chat: &str, timestamp: i64) -> Message {
    Message {
        info: MessageInfo {
            id: id.to_string(),
            chat: JID(chat.to_string()),
            sender: JID(chat.to_string()),
            timestamp,
            is_from_me: false,
            quote_id: None,
            read_count: 0,
        },
        message: MessageContent::Text("text".to_string()),
    }
}

fn app_with_chats() -> App {
    let mut app = App::default();
    app.apply_inbound_message(note("m1", "a", 30));
    app.apply_inbound_message(note("m2", "b", 20));
    app.apply_inbound_message(note("m3", "c", 10));
    app
}

#[test]
fn chord_resolves_only_after_the_second_key() {
    let mut chords = chords_of(&["gg", "gq"]);
    assert_eq!(chords.press('g'), ChordOutcome::Pending);
    assert!(chords.is_pending());
    assert_eq!(chords.buffer, vec!['g']);
    assert_eq!(chords.press('g'), ChordOutcome::Matched(0));
    assert!(!chords.is_pending());
    assert_eq!(chords.press('g'), ChordOutcome::Pending);
    assert_eq!(chords.press('q'), ChordOutcome::Matched(1));
    assert!(chords.buffer.is_empty());
}

#[test]
fn key_that_matches_nothing_aborts_and_counts_by_itself() {
    let mut chords = chords_of(&["gg", "gq"]);
    assert_eq!(chords.press('g'), ChordOutcome::Pending);
    assert_eq!(chords.press('x'), ChordOutcome::Unbound);
    assert!(!chords.is_pending());
    assert!(chords.buffer.is_empty());
    assert_eq!(chords.press('x'), ChordOutcome::Unbound);
}

#[test]
fn aborting_key_may_begin_another_chord() {
    let mut chords = chords_of(&["gg", "dd"]);
    assert_eq!(chords.press('g'), ChordOutcome::Pending);
    assert_eq!(chords.press('d'), ChordOutcome::Pending);
    assert_eq!(chords.buffer, vec!['d']);
    assert_eq!(chords.press('d'), ChordOutcome::Matched(1));
}

#[test]
fn longest_suffix_wins_and_then_the_first_registered() {
    let mut chords = chords_of(&["c", "abc", "bc", "abc"]);
    assert_eq!(chords.press('a'), ChordOutcome::Pending);
    assert_eq!(chords.press('b'), ChordOutcome::Pending);
    assert_eq!(chords.press('c'), ChordOutcome::Matched(1));
    assert_eq!(chords.press('c'), ChordOutcome::Matched(0));
    assert_eq!(chords.press('b'), ChordOutcome::Pending);
    assert_eq!(chords.press('c'), ChordOutcome::Matched(2));
}

#[test]
fn escape_aborts_a_pending_chord() {
    let mut chords = chords_of(&["gg"]);
    assert!(!chords.abort());
    chords.press('g');
    assert!(chords.abort());
    assert!(!chords.is_pending());
    assert_eq!(chords.press('g'), ChordOutcome::Pending);
    assert_eq!(chords.completed(&letters("xgg")), Some(0));
    assert_eq!(chords.completed(&letters("g")), None);
    assert!(chords.begins_any(&letters("g")));
    assert!(!chords.begins_any(&letters("gg")));
    assert!(!chords.begins_any(&letters("")));
}

#[test]
fn vim_types_in_insert_mode_and_leaves_on_escape() {
    let mut vim = Vim::new(Mode::Insert);
    let typed = KeyEvent::press(KeyCode::Char('g'));
    assert_eq!(
        vim.transition(typed),
        Step { command: Some(EditorCommand::Type(typed)), transition: Transition::Mode(Mode::Insert) }
    );
    assert_eq!(
        vim.transition(KeyEvent::press(KeyCode::Esc)),
        Step { command: None, transition: Transition::Mode(Mode::Normal) }
    );
    assert_eq!(vim.mode, Mode::Normal);
    let mut vim = Vim::new(Mode::Insert);
    vim.transition(KeyEvent::ctrl('c'));
    assert_eq!(vim.mode, Mode::Normal);
}

#[test]
fn vim_normal_mode_commands() {
    let mut vim = Vim::new(Mode::Normal);
    assert_eq!(
        vim.transition(KeyEvent::press(KeyCode::Char('h'))),
        Step { command: Some(EditorCommand::MoveBack), transition: Transition::Nop }
    );
    assert_eq!(
        vim.transition(KeyEvent::press(KeyCode::Char('g'))),
        Step { command: None, transition: Transition::Pending }
    );
    assert_eq!(
        vim.transition(KeyEvent::press(KeyCode::Char('g'))),
        Step { command: Some(EditorCommand::MoveTop), transition: Transition::Nop }
    );
    assert_eq!(
        vim.transition(KeyEvent::press(KeyCode::Char('g'))),
        Step { command: None, transition: Transition::Pending }
    );
    assert_eq!(
        vim.transition(KeyEvent::press(KeyCode::Char('x'))),
        Step { command: Some(EditorCommand::DeleteNextChar), transition: Transition::Nop }
    );
    assert_eq!(
        vim.transition(KeyEvent::press(KeyCode::Char('d'))),
        Step { command: None, transition: Transition::Pending }
    );
    assert_eq!(
        vim.transition(KeyEvent::press(KeyCode::Esc)),
        Step { command: None, transition: Transition::Nop }
    );
    assert!(!vim.chords.is_pending());
    assert_eq!(
        vim.transition(KeyEvent::press(KeyCode::Char('d'))),
        Step { command: None, transition: Transition::Pending }
    );
    assert_eq!(
        vim.transition(KeyEvent::press(KeyCode::Char('d'))),
        Step { command: Some(EditorCommand::DeleteLine), transition: Transition::Nop }
    );
    assert_eq!(
        vim.transition(KeyEvent::ctrl('r')),
        Step { command: Some(EditorCommand::Redo), transition: Transition::Nop }
    );
    assert_eq!(
        vim.transition(KeyEvent::press(KeyCode::Char('c'))),
        Step { command: None, transition: Transition::Pending }
    );
    assert_eq!(
        vim.transition(KeyEvent::press(KeyCode::Char('c'))),
        Step { command: Some(EditorCommand::ClearLine), transition: Transition::Mode(Mode::Insert) }
    );
    assert_eq!(vim.mode, Mode::Insert);
}

#[test]
fn vim_tables() {
    let vim = Vim::new(Mode::Normal);
    assert_eq!(vim.chords.registered, vec![vec!['g', 'g'], vec!['d', 'd'], vec!['y', 'y'], vec!['c', 'c']]);
    assert_eq!(vim.bindings.len(), 4);
    assert_eq!(vim.bindings[2], Step { command: Some(EditorCommand::YankLine), transition: Transition::Nop });
    assert_eq!(normal_step('i'), Step { command: None, transition: Transition::Mode(Mode::Insert) });
    assert_eq!(
        normal_step('A'),
        Step { command: Some(EditorCommand::MoveEnd), transition: Transition::Mode(Mode::Insert) }
    );
    assert_eq!(normal_step('G'), Step { command: Some(EditorCommand::MoveBottom), transition: Transition::Nop });
    assert_eq!(normal_step('?'), Step { command: None, transition: Transition::Nop });
}

#[test]
fn focus_moves_between_panels() {
    let l = KeyEvent::ctrl('l');
    let h = KeyEvent::ctrl('h');
    let j = KeyEvent::ctrl('j');
    let k = KeyEvent::ctrl('k');
    let esc = KeyEvent::press(KeyCode::Esc);
    assert_eq!(focus_after(SelectedWidget::ChatList, &l), Some(SelectedWidget::Input));
    assert_eq!(focus_after(SelectedWidget::ChatList, &h), None);
    assert_eq!(focus_after(SelectedWidget::Input, &k), Some(SelectedWidget::MessageList));
    assert_eq!(focus_after(SelectedWidget::Input, &h), Some(SelectedWidget::ChatList));
    assert_eq!(focus_after(SelectedWidget::MessageList, &j), Some(SelectedWidget::Input));
    assert_eq!(focus_after(SelectedWidget::MessageList, &h), Some(SelectedWidget::ChatList));
    assert_eq!(focus_after(SelectedWidget::MessageList, &esc), None);
    assert_eq!(focus_after(SelectedWidget::MessageView, &esc), Some(SelectedWidget::MessageList));
    let shifted = KeyEvent {
        code: KeyCode::Char('l'),
        modifiers: KeyModifiers { shift: true, control: true, alt: false, other: false },
        kind: KeyEventKind::Press,
    };
    assert_eq!(focus_after(SelectedWidget::ChatList, &shifted), None);
}

#[test]
fn control_q_quits_from_anywhere() {
    let mut app = App::default();
    let actions = app.on_event(ctrl('q'));
    assert!(app.should_quit);
    assert_eq!(actions.len(), 1);
    assert!(matches!(&actions[0], Action::StopPersistence));
}

#[test]
fn released_keys_move_nothing() {
    let mut app = App::default();
    let released = TerminalEvent::Key(KeyEvent {
        code: KeyCode::Char('q'),
        modifiers: KeyModifiers::control(),
        kind: KeyEventKind::Release,
    });
    let actions = app.on_event(released);
    assert!(actions.is_empty());
    assert!(!app.should_quit);
    assert!(app.on_event(TerminalEvent::Resize(80, 24)).is_empty());
    assert!(app.on_event(TerminalEvent::Other).is_empty());
}

#[test]
fn chat_list_selection_goes_round() {
    let mut app = app_with_chats();
    assert!(app.on_event(key('j')).is_empty());
    assert_eq!(app.selected_chat_index, Some(0));
    assert_eq!(app.selected_chat_jid, Some(JID("a".to_string())));
    app.on_event(key('j'));
    assert_eq!(app.selected_chat_index, Some(1));
    app.on_event(key('j'));
    assert_eq!(app.selected_chat_jid, Some(JID("c".to_string())));
    app.on_event(key('j'));
    assert_eq!(app.selected_chat_index, Some(0));
    app.on_event(key('k'));
    assert_eq!(app.selected_chat_index, Some(2));
    assert_eq!(app.selected_chat_jid, Some(JID("c".to_string())));
    app.on_event(key('k'));
    assert_eq!(app.selected_chat_index, Some(1));
    assert_eq!(app.selected_widget, SelectedWidget::ChatList);
}

#[test]
fn chat_list_without_chats_ignores_keys() {
    let mut app = App::default();
    app.on_event(key('j'));
    assert_eq!(app.selected_chat_index, None);
    assert_eq!(app.selected_chat_jid, None);
    app.on_event(special(KeyCode::Enter));
    assert_eq!(app.selected_widget, SelectedWidget::ChatList);
}

#[test]
fn enter_opens_the_compose_box_of_the_chat() {
    let mut app = app_with_chats();
    app.on_event(special(KeyCode::Enter));
    assert_eq!(app.selected_widget, SelectedWidget::ChatList);
    app.on_event(key('k'));
    app.message_list_state.select(Some(3));
    app.on_event(special(KeyCode::Enter));
    assert_eq!(app.selected_widget, SelectedWidget::Input);
    assert_eq!(app.selected_chat_jid, Some(JID("a".to_string())));
    assert_eq!(app.message_list_state.selected, None);
}

#[test]
fn control_l_selects_the_input_text() {
    let mut app = App::default();
    let actions = app.on_event(ctrl('l'));
    assert_eq!(app.selected_widget, SelectedWidget::Input);
    assert_eq!(actions.len(), 1);
    assert!(matches!(&actions[0], Action::SelectAllInput));
    let actions = app.on_event(ctrl('k'));
    assert!(actions.is_empty());
    assert_eq!(app.selected_widget, SelectedWidget::MessageList);
    app.on_event(ctrl('j'));
    assert_eq!(app.selected_widget, SelectedWidget::Input);
    app.on_event(ctrl('h'));
    assert_eq!(app.selected_widget, SelectedWidget::ChatList);
}

#[test]
fn message_list_keys() {
    let mut app = app_with_chats();
    app.selected_widget = SelectedWidget::MessageList;
    app.on_event(key('K'));
    app.on_event(key('K'));
    assert_eq!(app.message_list_state.offset, 2);
    app.on_event(key('J'));
    assert_eq!(app.message_list_state.offset, 1);
    app.on_event(key('J'));
    app.on_event(key('J'));
    assert_eq!(app.message_list_state.offset, 0);
    app.on_event(key('k'));
    assert_eq!(app.message_list_state.selected, Some(0));
    app.on_event(key('k'));
    assert_eq!(app.message_list_state.selected, Some(1));
    app.on_event(key('j'));
    assert_eq!(app.message_list_state.selected, Some(0));
    assert!(app.message_list_state.update_selected);
    app.on_event(special(KeyCode::Enter));
    assert_eq!(app.selected_widget, SelectedWidget::MessageList);
    app.on_event(key('r'));
    assert!(app.quoting_message.is_none());
    app.message_list_state.selected_message = Some("m2".to_string());
    app.on_event(special(KeyCode::Enter));
    assert_eq!(app.selected_widget, SelectedWidget::MessageView);
    assert!(app.on_event(key('j')).is_empty());
    assert_eq!(app.message_list_state.selected, Some(0));
    app.on_event(special(KeyCode::Esc));
    assert_eq!(app.selected_widget, SelectedWidget::MessageList);
    app.on_event(key('r'));
    assert_eq!(app.selected_widget, SelectedWidget::Input);
    assert_eq!(app.quoting_message.as_ref().map(|message| message.info.id.clone()), Some("m2".to_string()));
    app.selected_widget = SelectedWidget::MessageList;
    app.on_event(special(KeyCode::Esc));
    assert_eq!(app.message_list_state.selected, None);
    assert_eq!(app.message_list_state.selected_message, None);
}

#[test]
fn quoting_an_unknown_message_does_nothing() {
    let mut app = app_with_chats();
    app.selected_widget = SelectedWidget::MessageList;
    app.message_list_state.selected_message = Some("gone".to_string());
    app.on_event(key('r'));
    assert!(app.quoting_message.is_none());
    assert_eq!(app.selected_widget, SelectedWidget::MessageList);
}

#[test]
fn compose_box_sends_and_drops_the_quote() {
    let mut app = app_with_chats();
    app.on_event(key('j'));
    app.selected_widget = SelectedWidget::Input;
    app.quoting_message = Some(note("m1", "a", 30));
    app.compose = vec!["hello".to_string(), "".to_string(), "world".to_string()];
    let actions = app.on_event(ctrl('x'));
    assert_eq!(actions.len(), 2);
    match &actions[0] {
        Action::SendInput { chat, text, quoted } => {
            assert_eq!(chat, &JID("a".to_string()));
            assert_eq!(text, "hello\n\nworld");
            assert_eq!(quoted.as_ref().map(|message| message.info.id.clone()), Some("m1".to_string()));
        }
        other => panic!("unexpected action {:?}", other),
    }
    assert!(matches!(&actions[1], Action::ClearInput));
    assert!(app.quoting_message.is_none());
    assert_eq!(join_lines(&Vec::new()), "");
    assert_eq!(join_lines(&vec!["one".to_string()]), "one");
    assert_eq!(join_lines(&vec!["".to_string(), "".to_string()]), "\n");
    app.quoting_message = Some(note("m1", "a", 30));
    assert!(app.on_event(ctrl('r')).is_empty());
    assert!(app.quoting_message.is_none());
}

#[test]
fn compose_box_without_a_chat_sends_nothing() {
    let mut app = App::default();
    app.selected_widget = SelectedWidget::Input;
    app.quoting_message = Some(note("m1", "a", 30));
    assert!(app.on_event(ctrl('x')).is_empty());
    assert!(app.quoting_message.is_some());
}

#[test]
fn compose_box_passes_keys_to_the_modes() {
    let mut app = App::default();
    app.selected_widget = SelectedWidget::Input;
    let typed = KeyEvent::press(KeyCode::Char('g'));
    let actions = app.on_event(TerminalEvent::Key(typed));
    assert_eq!(actions.len(), 1);
    assert!(matches!(&actions[0], Action::Edit(EditorCommand::Type(event)) if *event == typed));
    let actions = app.on_event(special(KeyCode::Esc));
    assert_eq!(actions.len(), 1);
    assert!(matches!(&actions[0], Action::RestyleInput(Mode::Normal)));
    assert_eq!(app.vim.mode, Mode::Normal);
    assert!(app.on_event(key('g')).is_empty());
    let actions = app.on_event(key('g'));
    assert_eq!(actions.len(), 1);
    assert!(matches!(&actions[0], Action::Edit(EditorCommand::MoveTop)));
    assert!(app.on_event(key('g')).is_empty());
    let actions = app.on_event(key('x'));
    assert_eq!(actions.len(), 1);
    assert!(matches!(&actions[0], Action::Edit(EditorCommand::DeleteNextChar)));
    let actions = app.on_event(key('a'));
    assert_eq!(actions.len(), 2);
    assert!(matches!(&actions[0], Action::Edit(EditorCommand::MoveForward)));
    assert!(matches!(&actions[1], Action::RestyleInput(Mode::Insert)));
    let released = TerminalEvent::Key(KeyEvent {
        code: KeyCode::Char('z'),
        modifiers: KeyModifiers::none(),
        kind: KeyEventKind::Release,
    });
    assert!(app.on_event(released).is_empty());
}

#[test]
fn terminal_input_redraws() {
    let mut app = app_with_chats();
    let outcome = app.handle(AppInput::Terminal(key('j')));
    assert!(outcome.should_draw);
    assert!(outcome.actions.is_empty());
    assert_eq!(app.selected_chat_index, Some(0));
}

fn app_with_gq() -> App {
    let mut app = App::default();
    app.selected_widget = SelectedWidget::Input;
    app.on_event(special(KeyCode::Esc));
    assert_eq!(app.vim.mode, Mode::Normal);
    app.vim.register(
        vec!['g', 'q'],
        Step { command: Some(EditorCommand::MoveBottom), transition: Transition::Nop },
    );
    app
}

#[test]
fn registered_command_is_added_behind_the_others() {
    let mut vim = Vim::new(Mode::Normal);
    vim.transition(KeyEvent::press(KeyCode::Char('g')));
    vim.register(vec!['g', 'q'], Step { command: Some(EditorCommand::Paste), transition: Transition::Nop });
    assert_eq!(vim.chords.registered.len(), 5);
    assert_eq!(vim.chords.registered[4], vec!['g', 'q']);
    assert_eq!(vim.bindings[4], Step { command: Some(EditorCommand::Paste), transition: Transition::Nop });
    assert_eq!(vim.chords.buffer, vec!['g']);
    assert_eq!(
        vim.transition(KeyEvent::press(KeyCode::Char('q'))),
        Step { command: Some(EditorCommand::Paste), transition: Transition::Nop }
    );
    assert!(vim.chords.buffer.is_empty());
}

#[test]
fn compose_box_fires_gg_only_after_the_second_g_with_gq_registered() {
    let mut app = app_with_gq();
    let first = app.on_event(key('g'));
    assert!(first.is_empty());
    assert_eq!(app.vim.chords.buffer, vec!['g']);
    let second = app.on_event(key('g'));
    assert_eq!(second.len(), 1);
    assert!(matches!(&second[0], Action::Edit(EditorCommand::MoveTop)));
    assert!(app.vim.chords.buffer.is_empty());
    assert!(app.on_event(key('g')).is_empty());
    let other = app.on_event(key('q'));
    assert_eq!(other.len(), 1);
    assert!(matches!(&other[0], Action::Edit(EditorCommand::MoveBottom)));
    assert!(app.vim.chords.buffer.is_empty());
}

#[test]
fn compose_box_drops_the_held_key_and_takes_the_next_afresh() {
    let mut app = app_with_gq();
    assert!(app.on_event(key('g')).is_empty());
    let aborted = app.on_event(key('x'));
    let mut fresh = app_with_gq();
    let alone = fresh.on_event(key('x'));
    assert_eq!(aborted.len(), 1);
    assert_eq!(alone.len(), 1);
    assert!(matches!(&aborted[0], Action::Edit(EditorCommand::DeleteNextChar)));
    assert!(matches!(&alone[0], Action::Edit(EditorCommand::DeleteNextChar)));
    assert!(app.vim.chords.buffer.is_empty());
    assert_eq!(app.vim.mode, fresh.vim.mode);
    assert!(app.on_event(key('q')).is_empty());
    assert!(app.vim.chords.buffer.is_empty());
    assert!(app.on_event(key('g')).is_empty());
    assert_eq!(app.vim.chords.buffer, vec!['g']);
}
