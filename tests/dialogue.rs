use multibot::admin::{self, AdminState};
use multibot::reader::{self, ReaderState};
use multibot::states::{
    command_reply, parse_command, schema, start_reply, Branch, Command, DialogueStore, Event, State,
};

fn message(chat: i64, text: &str) -> Event {
    Event { chat, is_message: true, text: Some(text.to_string()) }
}

const BOT: &str = "MyBot";

#[test]
fn help_routes_to_command_in_every_state() {
    let ev = message(1, "/help");
    for st in [State::Start, State::Admin(AdminState::Start), State::Reader(ReaderState::Start)] {
        assert_eq!(schema(&ev, st, BOT), Branch::Command(Command::Help));
    }
}

#[test]
fn admin_command_beats_start_handler() {
    let mut store = DialogueStore::new();
    let b = store.dispatch(&message(9, "/admin"), BOT);
    assert_eq!(b, Branch::Command(Command::Admin));
    assert_ne!(b, Branch::Start);
}

#[test]
fn plain_text_routes_to_start_and_stays() {
    let mut store = DialogueStore::new();
    let b = store.dispatch(&message(3, "hello"), BOT);
    assert_eq!(b, Branch::Start);
    store.commit(3, Ok(None));
    assert_eq!(store.state(3), State::Start);
}

#[test]
fn same_event_twice_keeps_start() {
    let mut store = DialogueStore::new();
    let ev = message(4, "hello again");
    for _ in 0..2 {
        assert_eq!(store.dispatch(&ev, BOT), Branch::Start);
        store.commit(4, Ok(None));
        assert_eq!(store.state(4), State::Start);
    }
}

#[test]
fn substates_route_to_their_schemas() {
    let mut store = DialogueStore::new();
    store.commit(5, Ok(Some(State::Admin(AdminState::Start))));
    assert_eq!(store.dispatch(&message(5, "hi"), BOT), Branch::Admin(AdminState::Start));
    store.commit(6, Ok(Some(State::Reader(ReaderState::Start))));
    assert_eq!(store.dispatch(&message(6, "hi"), BOT), Branch::Reader(ReaderState::Start));
    assert_eq!(store.dispatch(&message(5, "/start"), BOT), Branch::Command(Command::Start));
}

#[test]
fn failed_handler_leaves_state() {
    let mut store = DialogueStore::new();
    store.commit(7, Err(()));
    assert_eq!(store.state(7), State::Start);
    store.commit(7, Ok(Some(State::Reader(ReaderState::Start))));
    store.commit(7, Err(()));
    assert_eq!(store.state(7), State::Reader(ReaderState::Start));
}

#[test]
fn conversations_are_separate() {
    let mut store = DialogueStore::new();
    store.commit(1, Ok(Some(State::Admin(AdminState::Start))));
    assert_eq!(store.state(2), State::Start);
    assert_eq!(store.dispatch(&message(2, "x"), BOT), Branch::Start);
}

#[test]
fn non_message_is_dropped() {
    let mut store = DialogueStore::new();
    let ev = Event { chat: 1, is_message: false, text: None };
    assert_eq!(store.dispatch(&ev, BOT), Branch::Dropped);
}

#[test]
fn message_without_text_goes_by_state() {
    let ev = Event { chat: 1, is_message: true, text: None };
    assert_eq!(schema(&ev, State::Start, BOT), Branch::Start);
}

#[test]
fn command_parsing() {
    assert_eq!(parse_command("/help", BOT), Some(Command::Help));
    assert_eq!(parse_command("/start", BOT), Some(Command::Start));
    assert_eq!(parse_command("/admin", BOT), Some(Command::Admin));
    assert_eq!(parse_command("/help with args", BOT), Some(Command::Help));
    assert_eq!(parse_command("/help@mybot", BOT), Some(Command::Help));
    assert_eq!(parse_command("/help@MYBOT rest", BOT), Some(Command::Help));
    assert_eq!(parse_command("/help@other", BOT), None);
    assert_eq!(parse_command("/helpx", BOT), None);
    assert_eq!(parse_command("/Help", BOT), None);
    assert_eq!(parse_command("help", BOT), None);
    assert_eq!(parse_command("", BOT), None);
    assert_eq!(parse_command(" /help", BOT), None);
}

#[test]
fn handler_replies() {
    assert_eq!(command_reply(Command::Help), "no help for you");
    assert_eq!(command_reply(Command::Start), "starting, starting");
    assert_eq!(command_reply(Command::Admin), "you are not an admin");
    assert_eq!(start_reply("hi", "42", "42:T"), "start(hi)\nbot id: 42\nbot token: 42:T");
    assert_eq!(admin::schema(AdminState::Start), ("admin default".to_string(), None));
    assert_eq!(reader::schema(ReaderState::Start), ("reader".to_string(), None));
}

#[test]
fn defaults_are_start() {
    assert_eq!(State::default(), State::Start);
    assert_eq!(AdminState::default(), AdminState::Start);
    assert_eq!(ReaderState::default(), ReaderState::Start);
}
