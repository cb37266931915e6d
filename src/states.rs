//! The per-conversation dialogue state machine: command parsing, the ordered
//! branch selection, and the store that commits state transitions.
use vstd::prelude::*;
use vstd::string::*;
use std::collections::HashMap;
use crate::admin::AdminState;
use crate::reader::ReaderState;
use crate::text::{
    append, index_of, lemma_prefix_before, prefix_before, same_ignoring_ascii_case, same_text,
    same_text_ignoring_ascii_case,
};

verus! {

broadcast use vstd::std_specs::hash::group_hash_axioms;

/// The dialogue state of one conversation.
#[derive(Clone, Copy, PartialEq, Eq, Structural, Debug)]
pub enum State {
    Start,
    Admin(AdminState),
    Reader(ReaderState),
}

impl Default for State {
    fn default() -> (r: Self)
        ensures
            r == State::Start,
    {
        State::Start
    }
}

/// The commands a message can carry.
#[derive(Clone, Copy, PartialEq, Eq, Structural, Debug)]
pub enum Command {
    /// `/help`
    Help,
    /// `/start`
    Start,
    /// `/admin`
    Admin,
}

/// The branch an event is routed to.
#[derive(Clone, Copy, PartialEq, Eq, Structural, Debug)]
pub enum Branch {
    /// The command handler, with the parsed command.
    Command(Command),
    /// The start handler.
    Start,
    /// The admin sub-dialogue, with its sub-state.
    Admin(AdminState),
    /// The reader sub-dialogue, with its sub-state.
    Reader(ReaderState),
    /// No branch matches: the event is dropped.
    Dropped,
}

/// An inbound update.
pub struct Event {
    /// The conversation it belongs to.
    pub chat: i64,
    /// Whether the update is a message; other updates match no branch.
    pub is_message: bool,
    /// The message text, if it has one.
    pub text: Option<String>,
}

impl Event {
    pub open spec fn text_view(&self) -> Option<Seq<char>> {
        match self.text {
            Some(s) => Some(s@),
            None => None,
        }
    }
}

/// The command named by a command word (the word with its `/`).
pub open spec fn command_named(c: Seq<char>) -> Option<Command> {
    if c == seq!['/', 'h', 'e', 'l', 'p'] {
        Some(Command::Help)
    } else if c == seq!['/', 's', 't', 'a', 'r', 't'] {
        Some(Command::Start)
    } else if c == seq!['/', 'a', 'd', 'm', 'i', 'n'] {
        Some(Command::Admin)
    } else {
        None
    }
}

/// The command a message text carries for the bot named `bot_name`. The first
/// space-delimited word is `/name` or `/name@bot`; a given bot name must equal
/// `bot_name` up to ASCII case. Arguments after the word are ignored.
pub open spec fn command_of(text: Seq<char>, bot_name: Seq<char>) -> Option<Command> {
    let w = prefix_before(text, ' ');
    let c = prefix_before(w, '@');
    let user = prefix_before(w.skip(c.len() as int + 1), '@');
    if c.len() < w.len() && !same_ignoring_ascii_case(user, bot_name) {
        None
    } else {
        command_named(c)
    }
}

/// The branch an event takes, first match wins: a command in any state, then
/// the branch of the conversation's state. Updates that are not messages are dropped.
pub open spec fn branch_of(
    is_message: bool,
    text: Option<Seq<char>>,
    state: State,
    bot_name: Seq<char>,
) -> Branch {
    if !is_message {
        Branch::Dropped
    } else if text is Some && command_of(text->0, bot_name) is Some {
        Branch::Command(command_of(text->0, bot_name)->0)
    } else {
        match state {
            State::Start => Branch::Start,
            State::Admin(s) => Branch::Admin(s),
            State::Reader(s) => Branch::Reader(s),
        }
    }
}

fn command_named_exec(c: &str) -> (r: Option<Command>)
    ensures
        r == command_named(c@),
{
    proof {
        reveal_strlit("/help");
        reveal_strlit("/start");
        reveal_strlit("/admin");
        assert("/help"@ =~= seq!['/', 'h', 'e', 'l', 'p']);
        assert("/start"@ =~= seq!['/', 's', 't', 'a', 'r', 't']);
        assert("/admin"@ =~= seq!['/', 'a', 'd', 'm', 'i', 'n']);
    }
    if same_text(c, "/help") {
        Some(Command::Help)
    } else if same_text(c, "/start") {
        Some(Command::Start)
    } else if same_text(c, "/admin") {
        Some(Command::Admin)
    } else {
        None
    }
}

/// Parses the command a message text carries for the bot named `bot_name`.
pub fn parse_command(text: &str, bot_name: &str) -> (r: Option<Command>)
    ensures
        r == command_of(text@, bot_name@),
{
    let k = index_of(text, ' ');
    proof {
        lemma_prefix_before(text@, ' ');
    }
    let w = text.substring_char(0, k);
    let m = index_of(w, '@');
    proof {
        lemma_prefix_before(w@, '@');
    }
    let c = w.substring_char(0, m);
    if m < k {
        let rest = w.substring_char(m + 1, k);
        assert(rest@ =~= w@.skip(c@.len() as int + 1));
        let u = index_of(rest, '@');
        proof {
            lemma_prefix_before(rest@, '@');
        }
        let user = rest.substring_char(0, u);
        if !same_text_ignoring_ascii_case(user, bot_name) {
            return None;
        }
    }
    command_named_exec(c)
}

/// Selects the branch for `event` when its conversation is in `state`.
pub fn schema(event: &Event, state: State, bot_name: &str) -> (r: Branch)
    ensures
        r == branch_of(event.is_message, event.text_view(), state, bot_name@),
{
    if !event.is_message {
        return Branch::Dropped;
    }
    let cmd = match &event.text {
        Some(t) => parse_command(t.as_str(), bot_name),
        None => None,
    };
    match cmd {
        Some(c) => Branch::Command(c),
        None => match state {
            State::Start => Branch::Start,
            State::Admin(s) => Branch::Admin(s),
            State::Reader(s) => Branch::Reader(s),
        },
    }
}

/// The reply of the command handler.
pub fn command_reply(cmd: Command) -> (r: String)
    ensures
        r@ == match cmd {
            Command::Help => "no help for you"@,
            Command::Start => "starting, starting"@,
            Command::Admin => "you are not an admin"@,
        },
{
    match cmd {
        Command::Help => "no help for you".to_owned(),
        Command::Start => "starting, starting".to_owned(),
        Command::Admin => "you are not an admin".to_owned(),
    }
}

/// The reply of the start handler to a message with `text` (empty where it
/// has none), from the bot with numeric identity `id` and token `token`.
pub fn start_reply(text: &str, id: &str, token: &str) -> (r: String)
    ensures
        r@ == "start("@ + text@ + ")\nbot id: "@ + id@ + "\nbot token: "@ + token@,
{
    let mut r = "start(".to_owned();
    append(&mut r, text);
    append(&mut r, ")\nbot id: ");
    append(&mut r, id);
    append(&mut r, "\nbot token: ");
    append(&mut r, token);
    r
}

/// The state of `chat` in a store: `Start` for a conversation never seen.
pub open spec fn state_in(m: Map<i64, State>, chat: i64) -> State {
    if m.contains_key(chat) {
        m[chat]
    } else {
        State::Start
    }
}

/// The store once an event of `chat` has arrived: its state exists from then on.
pub open spec fn entered(m: Map<i64, State>, chat: i64) -> Map<i64, State> {
    m.insert(chat, state_in(m, chat))
}

/// The store once the handler of an event of `chat` has finished: a
/// transition is committed only where the handler succeeded and returned one.
pub open spec fn committed(m: Map<i64, State>, chat: i64, outcome: Result<Option<State>, ()>) -> Map<
    i64,
    State,
> {
    match outcome {
        Ok(Some(s)) => m.insert(chat, s),
        _ => m,
    }
}

/// The dialogue states of one bot's conversations.
pub struct DialogueStore {
    states: HashMap<i64, State>,
}

impl DialogueStore {
    pub closed spec fn view_map(&self) -> Map<i64, State> {
        self.states@
    }

    /// A store with no conversation.
    pub fn new() -> (r: Self)
        ensures
            r.view_map() == Map::<i64, State>::empty(),
    {
        DialogueStore { states: HashMap::new() }
    }

    /// The state of the conversation `chat`.
    pub fn state(&self, chat: i64) -> (r: State)
        ensures
            r == state_in(self.view_map(), chat),
    {
        match self.states.get(&chat) {
            Some(s) => *s,
            None => State::Start,
        }
    }

    /// Takes in an event: creates its conversation's state where there is
    /// none, and selects the branch to run.
    pub fn dispatch(&mut self, event: &Event, bot_name: &str) -> (r: Branch)
        ensures
            final(self).view_map() == entered(old(self).view_map(), event.chat),
            r == branch_of(
                event.is_message,
                event.text_view(),
                state_in(old(self).view_map(), event.chat),
                bot_name@,
            ),
    {
        let s = self.state(event.chat);
        self.states.insert(event.chat, s);
        schema(event, s, bot_name)
    }

    /// Applies the outcome of the handler that ran for an event of `chat`:
    /// `Err` for a failed handler, `Ok(None)` for one that made no transition.
    pub fn commit(&mut self, chat: i64, outcome: Result<Option<State>, ()>)
        ensures
            final(self).view_map() == committed(old(self).view_map(), chat, outcome),
    {
        match outcome {
            Ok(Some(s)) => {
                self.states.insert(chat, s);
            },
            _ => {},
        }
    }
}

/// A command routes to the command handler whatever the conversation's state.
pub proof fn lemma_command_first(text: Seq<char>, bot_name: Seq<char>, state: State)
    requires
        command_of(text, bot_name) is Some,
    ensures
        branch_of(true, Some(text), state, bot_name) == Branch::Command(
            command_of(text, bot_name)->0,
        ),
{
}

/// An event handled without a transition, taken in twice by a conversation in
/// `Start`, leaves the same store and the state `Start` each time.
pub proof fn lemma_repeat_without_transition(
    m: Map<i64, State>,
    chat: i64,
    text: Option<Seq<char>>,
    bot_name: Seq<char>,
)
    requires
        state_in(m, chat) == State::Start,
    ensures
        ({
            let once = committed(entered(m, chat), chat, Ok(None));
            let twice = committed(entered(once, chat), chat, Ok(None));
            &&& state_in(once, chat) == State::Start
            &&& state_in(twice, chat) == State::Start
            &&& twice == once
            &&& branch_of(true, text, state_in(m, chat), bot_name) == branch_of(
                true,
                text,
                state_in(once, chat),
                bot_name,
            )
        }),
{
    let once = committed(entered(m, chat), chat, Ok(None));
    assert(entered(once, chat) =~= once);
}

} // verus!
