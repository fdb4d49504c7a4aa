use wstui::app::App;
use wstui::backend::{FileContent, FileKind, Message, MessageContent, MessageInfo, JID};
use wstui::chat::{contacts_title, percent_text, Chat};
use wstui::events::AppEvent;
use wstui::geometry::Rect;
use wstui::media::{file_content_height, FileMeta, Metadata, PICTURE_ROWS};
use wstui::message_view::{
    body_lines, get_quoted_text, media_label, media_request, media_view, message_height, stacked_rows,
    MediaRequest, MediaView,
};
use wstui::persist::WriteQueue;
use wstui::message_list::Placement;
use wstui::render::{picture_in_view, request_for};
use wstui::timestamp::{timestamp_style, LocalStamp, TimestampStyle};

fn info(id: &str, chat: &str, timestamp: i64, quote: Option<&str>) -> MessageInfo {
    MessageInfo {
        id: id.to_string(),
        chat: JID(chat.to_string()),
        sender: JID(chat.to_string()),
        timestamp,
        is_from_me: false,
        quote_id: quote.map(|id| id.to_string()),
        read_count: 0,
    }
}

fn words(id: &str, chat: &str, timestamp: i64, body: &str) -> Message {
    Message { info: info(id, chat, timestamp, None), message: MessageContent::Text(body.to_string()) }
}

fn file(id: &str, chat: &str, timestamp: i64, kind: FileKind, caption: Option<&str>) -> Message {
    Message {
        info: info(id, chat, timestamp, None),
        message: MessageContent::File(FileContent {
            kind,
            path: "cat.png".to_string(),
            file_id: "file-1".to_string(),
            caption: caption.map(|text| text.to_string()),
        }),
    }
}

fn meta(state: FileMeta) -> Option<Metadata> {
    Some(Metadata::File(state))
}

#[test]
fn text_message_height_counts_wrapped_lines() {
    let message = words("m1", "u1", 1, "foo bar baz");
    assert_eq!(message_height(&message, 5, None), Some(4));
    assert_eq!(message_height(&message, 20, None), Some(2));
    let long = words("m2", "u1", 1, "Memory safety without garbage collection.");
    assert_eq!(message_height(&long, 15, None), Some(4));
    let lines = words("m3", "u1", 1, "one\ntwo\nthree");
    assert_eq!(message_height(&lines, 40, None), Some(4));
}

#[test]
fn body_lines_are_the_wrapped_text_or_caption() {
    let message = words("m1", "u1", 1, "foo bar baz");
    assert_eq!(body_lines(&message, 5), vec!["foo".to_string(), "bar".to_string(), "baz".to_string()]);
    assert_eq!(body_lines(&message, 20), vec!["foo bar baz".to_string()]);
    let captioned = file("p", "u1", 1, FileKind::Image, Some("To be, or not"));
    assert_eq!(body_lines(&captioned, 6), vec!["To be,".to_string(), "or not".to_string()]);
    assert!(body_lines(&file("p", "u1", 1, FileKind::Image, None), 6).is_empty());
}

#[test]
fn contacts_title_shows_the_percentage() {
    assert_eq!(contacts_title(None), "Contacts");
    assert_eq!(contacts_title(Some(0)), "Contacts (0%)");
    assert_eq!(contacts_title(Some(7)), "Contacts (7%)");
    assert_eq!(contacts_title(Some(42)), "Contacts (42%)");
    assert_eq!(contacts_title(Some(100)), "Contacts (100%)");
    assert_eq!(contacts_title(Some(255)), "Contacts (255%)");
    for value in 0..=255u8 {
        assert_eq!(percent_text(value), value.to_string());
    }
}

#[test]
fn quoting_message_is_one_row_higher() {
    let mut message = words("m1", "u1", 1, "foo bar baz");
    message.info.quote_id = Some("m0".to_string());
    assert_eq!(message_height(&message, 5, None), Some(5));
}

#[test]
fn file_message_height_depends_on_kind_and_state() {
    let picture = file("p", "u1", 1, FileKind::Image, None);
    assert_eq!(message_height(&picture, 20, None), Some(2));
    assert_eq!(message_height(&picture, 20, meta(FileMeta::Downloading)), Some(2));
    assert_eq!(message_height(&picture, 20, meta(FileMeta::Downloaded)), Some(13));
    assert_eq!(message_height(&picture, 20, meta(FileMeta::Loaded)), Some(13));
    assert_eq!(message_height(&picture, 20, meta(FileMeta::LoadFailed)), Some(2));
    let captioned = file("p", "u1", 1, FileKind::Sticker, Some("foo bar baz"));
    assert_eq!(message_height(&captioned, 5, meta(FileMeta::Downloaded)), Some(16));
    let video = file("v", "u1", 1, FileKind::Video, Some("foo bar baz"));
    assert_eq!(message_height(&video, 5, meta(FileMeta::Downloaded)), Some(5));
}

#[test]
fn file_rows_by_kind_and_state() {
    assert_eq!(PICTURE_ROWS, 12);
    assert_eq!(file_content_height(FileKind::Image, None), 1);
    assert_eq!(file_content_height(FileKind::Image, meta(FileMeta::Downloaded)), 12);
    assert_eq!(file_content_height(FileKind::Sticker, meta(FileMeta::Loading)), 12);
    assert_eq!(file_content_height(FileKind::Sticker, meta(FileMeta::Loaded)), 12);
    assert_eq!(file_content_height(FileKind::Image, meta(FileMeta::DownloadFailed)), 1);
    assert_eq!(file_content_height(FileKind::Image, meta(FileMeta::LoadFailed)), 1);
    assert_eq!(file_content_height(FileKind::Image, meta(FileMeta::Downloading)), 1);
    assert_eq!(file_content_height(FileKind::Video, meta(FileMeta::Downloaded)), 1);
    assert_eq!(file_content_height(FileKind::Audio, meta(FileMeta::Downloaded)), 1);
    assert_eq!(file_content_height(FileKind::Document, meta(FileMeta::Loaded)), 1);
}

#[test]
fn stacked_rows_add_up_or_give_up() {
    assert_eq!(stacked_rows(false, 3, 0), Some(4));
    assert_eq!(stacked_rows(true, 3, 12), Some(17));
    assert_eq!(stacked_rows(false, usize::MAX - 1, 0), Some(usize::MAX));
    assert_eq!(stacked_rows(true, usize::MAX - 1, 0), None);
    assert_eq!(stacked_rows(false, usize::MAX, 1), None);
}

#[test]
fn quoted_text_of_text_and_file() {
    assert_eq!(get_quoted_text(&words("m", "u", 1, "hello")), "hello");
    assert_eq!(get_quoted_text(&file("f", "u", 1, FileKind::Image, Some("look"))), "cat.png: look");
    assert_eq!(get_quoted_text(&file("f", "u", 1, FileKind::Image, None)), "cat.png: ");
}

#[test]
fn media_views_and_requests() {
    assert_eq!(media_view(FileKind::Image, None), MediaView::Pending);
    assert_eq!(media_view(FileKind::Image, meta(FileMeta::Downloading)), MediaView::Pending);
    assert_eq!(media_view(FileKind::Image, meta(FileMeta::DownloadFailed)), MediaView::DownloadFailed);
    assert_eq!(media_view(FileKind::Image, meta(FileMeta::LoadFailed)), MediaView::LoadFailed);
    assert_eq!(media_view(FileKind::Image, meta(FileMeta::Downloaded)), MediaView::Picture);
    assert_eq!(media_view(FileKind::Sticker, meta(FileMeta::Loaded)), MediaView::Picture);
    assert_eq!(media_view(FileKind::Video, meta(FileMeta::Downloaded)), MediaView::Stored);
    assert_eq!(media_request(FileKind::Video, None), Some(MediaRequest::Download));
    assert_eq!(media_request(FileKind::Image, meta(FileMeta::Downloading)), None);
    assert_eq!(media_request(FileKind::Image, meta(FileMeta::Downloaded)), Some(MediaRequest::Preview));
    assert_eq!(media_request(FileKind::Audio, meta(FileMeta::Downloaded)), None);
    assert_eq!(media_request(FileKind::Image, meta(FileMeta::Loading)), None);
    assert_eq!(media_request(FileKind::Image, meta(FileMeta::DownloadFailed)), None);
    assert_eq!(media_request(FileKind::Image, meta(FileMeta::Loaded)), None);
}

#[test]
fn media_labels() {
    let path = "cat.png".to_string();
    assert_eq!(media_label(MediaView::Pending, &path), Some("🔗 cat.png +".to_string()));
    assert_eq!(
        media_label(MediaView::DownloadFailed, &path),
        Some("🔗 Failed to download cat.png".to_string())
    );
    assert_eq!(media_label(MediaView::LoadFailed, &path), Some("🔗 Failed to load cat.png".to_string()));
    assert_eq!(media_label(MediaView::Stored, &path), Some("🔗 cat.png ✓".to_string()));
    assert_eq!(media_label(MediaView::Picture, &path), None);
}

#[test]
fn requests_for_messages() {
    let picture = file("p", "u", 1, FileKind::Image, None);
    match request_for(&picture, None) {
        Some(AppEvent::DownloadFile(id, file_id)) => {
            assert_eq!(id, "p");
            assert_eq!(file_id, "file-1");
        }
        other => panic!("unexpected request {:?}", other),
    }
    match request_for(&picture, meta(FileMeta::Downloaded)) {
        Some(AppEvent::LoadPreview(id, path)) => {
            assert_eq!(id, "p");
            assert_eq!(path, "cat.png");
        }
        other => panic!("unexpected request {:?}", other),
    }
    assert!(request_for(&picture, meta(FileMeta::Downloading)).is_none());
    assert!(request_for(&words("m", "u", 1, "x"), None).is_none());
}

#[test]
fn picture_is_drawn_only_with_its_first_row_on_screen() {
    let picture = file("p", "u", 1, FileKind::Image, None);
    let state = meta(FileMeta::Loaded);
    let whole = Placement { index: 0, y: 0, rows: 13, skipped: 0, height: 13, is_selected: false };
    let head_cut = Placement { index: 0, y: 0, rows: 12, skipped: 1, height: 13, is_selected: false };
    let first_row_cut =
        Placement { index: 0, y: 0, rows: 11, skipped: 2, height: 13, is_selected: false };
    let bottom_only = Placement { index: 0, y: 9, rows: 1, skipped: 0, height: 13, is_selected: false };
    assert!(picture_in_view(&picture, state, &whole));
    assert!(picture_in_view(&picture, state, &head_cut));
    assert!(!picture_in_view(&picture, state, &first_row_cut));
    assert!(!picture_in_view(&picture, state, &bottom_only));
    assert!(!picture_in_view(&picture, None, &whole));
    assert!(!picture_in_view(&picture, meta(FileMeta::LoadFailed), &whole));
    let mut answer = file("p", "u", 1, FileKind::Sticker, None);
    answer.info.quote_id = Some("m0".to_string());
    assert!(picture_in_view(&answer, state, &first_row_cut));
    assert!(!picture_in_view(&file("v", "u", 1, FileKind::Video, None), state, &whole));
    assert!(!picture_in_view(&words("m", "u", 1, "x"), state, &whole));
}

#[test]
fn sender_name_and_quote_line() {
    let mut app = App::default();
    app.load(
        &vec![Chat { jid: JID("u1".to_string()), name: Some("Alice".to_string()), last_message_time: None }],
        &Vec::new(),
    );
    app.apply_inbound_message(words("m1", "u1", 1, "first"));
    let mut answer = words("m2", "u2", 2, "second");
    assert_eq!(app.quote_line(&answer), None);
    answer.info.quote_id = Some("m1".to_string());
    assert_eq!(app.quote_line(&answer), Some("> first".to_string()));
    answer.info.quote_id = Some("lost".to_string());
    assert_eq!(app.quote_line(&answer), Some("> not found".to_string()));
    assert_eq!(app.sender_name(&words("m3", "u1", 3, "x")), "Alice");
    assert_eq!(app.sender_name(&words("m3", "u9", 3, "x")), "u9");
}

#[test]
fn plan_without_a_chat_is_none() {
    let mut app = App::default();
    assert!(app.plan_messages(Rect::new(0, 0, 40, 10)).is_none());
}

#[test]
fn plan_places_messages_and_asks_for_files() {
    let mut app = App::default();
    app.apply_inbound_message(words("m1", "u1", 1, "foo bar baz"));
    app.apply_inbound_message(file("pic", "u1", 2, FileKind::Image, None));
    app.apply_inbound_message(words("m3", "u1", 3, "hello"));
    app.apply_contact_sync(
        &vec![(
            JID("u1".to_string()),
            wstui::backend::Contact {
                found: true,
                first_name: String::new(),
                full_name: "Alice".to_string(),
                push_name: String::new(),
                business_name: String::new(),
            },
        )],
        &Vec::new(),
    );
    app.on_event(wstui::keys::TerminalEvent::Key(wstui::keys::KeyEvent::press(
        wstui::keys::KeyCode::Char('j'),
    )));
    app.message_list_state.select(Some(7));
    let plan = app.plan_messages(Rect::new(1, 1, 5, 20)).unwrap();
    assert_eq!(plan.title, "Chat with Alice");
    let ids: Vec<String> = plan.messages.iter().map(|message| message.info.id.clone()).collect();
    assert_eq!(ids, vec!["m3".to_string(), "pic".to_string(), "m1".to_string()]);
    assert_eq!(app.message_list_state.selected, Some(2));
    assert_eq!(app.message_list_state.selected_message, Some("m1".to_string()));
    assert!(!app.message_list_state.update_selected);
    assert_eq!(app.message_list_state.offset, 0);
    assert_eq!(plan.placements.len(), 3);
    assert_eq!((plan.placements[0].y, plan.placements[0].rows), (19, 2));
    assert_eq!((plan.placements[1].y, plan.placements[1].rows), (16, 2));
    assert_eq!((plan.placements[2].y, plan.placements[2].rows), (11, 4));
    assert!(plan.placements[2].is_selected);
    assert_eq!(plan.requests.len(), 1);
    assert!(matches!(&plan.requests[0], AppEvent::DownloadFile(id, file) if id == "pic" && file == "file-1"));
    app.request_download("pic".to_string());
    let again = app.plan_messages(Rect::new(1, 1, 5, 20)).unwrap();
    assert!(again.requests.is_empty());
    app.apply_file_event("pic".to_string(), FileMeta::Downloaded);
    let grown = app.plan_messages(Rect::new(1, 1, 5, 20)).unwrap();
    assert_eq!(grown.placements[1].height, 13);
    assert_eq!(grown.requests.len(), 1);
    assert!(matches!(&grown.requests[0], AppEvent::LoadPreview(id, path) if id == "pic" && path == "cat.png"));
    let empty = app.plan_messages(Rect::new(1, 1, 0, 20)).unwrap();
    assert!(empty.placements.is_empty());
    assert_eq!(empty.messages.len(), 3);
}

#[test]
fn plan_of_a_chat_without_messages_clears_the_selection() {
    let mut app = App::default();
    app.load(
        &vec![Chat { jid: JID("u1".to_string()), name: None, last_message_time: None }],
        &Vec::new(),
    );
    app.on_event(wstui::keys::TerminalEvent::Key(wstui::keys::KeyEvent::press(
        wstui::keys::KeyCode::Char('j'),
    )));
    app.message_list_state.select(Some(3));
    app.message_list_state.offset = 9;
    let plan = app.plan_messages(Rect::new(0, 0, 40, 10)).unwrap();
    assert_eq!(plan.title, "Chat with u1");
    assert!(plan.messages.is_empty());
    assert!(plan.placements.is_empty());
    assert_eq!(app.message_list_state.selected, None);
    assert_eq!(app.message_list_state.offset, 0);
}

#[test]
fn timestamp_styles_by_age() {
    let now = LocalStamp { seconds: 1_000_000, day: 100, year: 2024 };
    let style = |seconds: i64, day: i32, year: i32| {
        timestamp_style(LocalStamp { seconds, day, year }, now, 99)
    };
    assert_eq!(style(999_000, 100, 2024), TimestampStyle::Time);
    assert_eq!(style(950_000, 99, 2024), TimestampStyle::Yesterday);
    assert_eq!(style(1_000_000 - 604_799, 93, 2024), TimestampStyle::Weekday);
    assert_eq!(style(1_000_000 - 604_800, 93, 2024), TimestampStyle::DayMonth);
    assert_eq!(style(100, 50, 2024), TimestampStyle::DayMonth);
    assert_eq!(style(100, 50, 2023), TimestampStyle::Full);
    assert_eq!(style(i64::MAX, 101, 2024), TimestampStyle::Weekday);
    let early = LocalStamp { seconds: i64::MIN, day: 1, year: 1 };
    assert_eq!(timestamp_style(LocalStamp { seconds: 5, day: 3, year: 1 }, early, 0), TimestampStyle::Weekday);
    assert_eq!(TimestampStyle::Time.pattern(), "%H:%M");
    assert_eq!(TimestampStyle::Yesterday.pattern(), "Yesterday %H:%M");
    assert_eq!(TimestampStyle::Weekday.pattern(), "%a %H:%M");
    assert_eq!(TimestampStyle::DayMonth.pattern(), "%d %b %H:%M");
    assert_eq!(TimestampStyle::Full.pattern(), "%Y %d %b %H:%M");
}

#[test]
fn write_queue_hands_out_batches_in_order() {
    let mut queue = WriteQueue::new();
    assert!(queue.take_batch().is_empty());
    queue.add_chat(Chat { jid: JID("a".to_string()), name: None, last_message_time: Some(1) });
    queue.add_message(words("m1", "a", 1, "x"));
    queue.add_chat(Chat { jid: JID("a".to_string()), name: None, last_message_time: Some(2) });
    queue.add_message(words("m2", "a", 2, "y"));
    let batch = queue.take_batch();
    assert!(!batch.last);
    assert!(!batch.is_empty());
    let times: Vec<Option<i64>> = batch.chats.iter().map(|chat| chat.last_message_time).collect();
    assert_eq!(times, vec![Some(1), Some(2)]);
    let ids: Vec<String> = batch.messages.iter().map(|message| message.info.id.clone()).collect();
    assert_eq!(ids, vec!["m1".to_string(), "m2".to_string()]);
    queue.add_message(words("m3", "a", 3, "z"));
    queue.stop();
    let last = queue.take_batch();
    assert!(last.last);
    assert_eq!(last.messages.len(), 1);
    assert!(queue.take_batch().is_empty());
}

#[test]
fn plan_clamps_a_selection_beyond_the_last_message() {
    let mut app = App::default();
    app.apply_inbound_message(words("m1", "u1", 1, "one"));
    app.apply_inbound_message(words("m2", "u1", 2, "two"));
    app.apply_inbound_message(words("m3", "u1", 3, "three"));
    app.on_event(wstui::keys::TerminalEvent::Key(wstui::keys::KeyEvent::press(
        wstui::keys::KeyCode::Char('j'),
    )));
    app.message_list_state.select(Some(5));
    let plan = app.plan_messages(Rect::new(0, 0, 30, 10)).unwrap();
    assert_eq!(plan.messages.len(), 3);
    assert_eq!(app.message_list_state.selected, Some(2));
    assert_eq!(app.message_list_state.selected_message, Some("m1".to_string()));
    app.message_list_state.select(Some(5));
    app.plan_messages(Rect::new(0, 0, 30, 0)).unwrap();
    assert_eq!(app.message_list_state.selected, Some(5));
}

#[test]
fn message_list_state_compares_and_copies() {
    let mut state = wstui::message_list::MessageListState::default();
    state.select(Some(3));
    state.selected_message = Some("m".to_string());
    let copy = state.clone();
    assert_eq!(copy, state);
    state.offset = 1;
    assert_ne!(copy, state);
}
