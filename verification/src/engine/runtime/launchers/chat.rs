//! The console chat mode: lines typed at the server console either switch
//! chat mode on or off or, while it is on, become `tellraw` broadcasts.
use vstd::prelude::*;
use crate::json::{json_bool, json_string, push_json_string};
use crate::text::{has_prefix, push_str, replace_all, replace_str, starts_with, str_eq, trim_white, trim_ws};

verus! {

/// One styled piece of a chat line, as `tellraw` takes it.
pub struct RawText {
    pub text: String,
    pub color: Option<String>,
    pub bold: Option<bool>,
}

pub open spec fn opt_chars(o: Option<String>) -> Option<Seq<char>> {
    match o {
        Some(s) => Some(s@),
        None => None,
    }
}

/// The JSON object of a piece: `text` always, `color` and `bold` only where
/// they are set, in that order.
pub open spec fn raw_text_json(text: Seq<char>, color: Option<Seq<char>>, bold: Option<bool>) -> Seq<char> {
    "{\"text\":"@ + json_string(text) + match color {
        Some(c) => ",\"color\":"@ + json_string(c),
        None => Seq::empty(),
    } + match bold {
        Some(b) => ",\"bold\":"@ + json_bool(b),
        None => Seq::empty(),
    } + "}"@
}

impl RawText {
    pub fn new(text: &str) -> (r: RawText)
        ensures
            r.text@ == text@,
            r.color is None,
            r.bold is None,
    {
        RawText { text: text.to_string(), color: None, bold: None }
    }

    pub fn color(self, color: &str) -> (r: RawText)
        ensures
            r.text == self.text,
            opt_chars(r.color) == Some(color@),
            r.bold == self.bold,
    {
        RawText { text: self.text, color: Some(color.to_string()), bold: self.bold }
    }

    pub fn bold(self, is_bold: bool) -> (r: RawText)
        ensures
            r.text == self.text,
            r.color == self.color,
            r.bold == Some(is_bold),
    {
        RawText { text: self.text, color: self.color, bold: Some(is_bold) }
    }

    /// Appends this piece as a JSON object.
    pub fn push_json(&self, out: &mut String)
        ensures
            final(out)@ == old(out)@ + raw_text_json(self.text@, opt_chars(self.color), self.bold),
    {
        let ghost o = out@;
        push_str(out, "{\"text\":");
        push_json_string(out, self.text.as_str());
        match &self.color {
            Some(c) => {
                push_str(out, ",\"color\":");
                push_json_string(out, c.as_str());
            },
            None => {},
        }
        match self.bold {
            Some(b) => {
                push_str(out, ",\"bold\":");
                if b {
                    push_str(out, "true");
                } else {
                    push_str(out, "false");
                }
            },
            None => {},
        }
        push_str(out, "}");
        proof {
            assert(out@ =~= o + raw_text_json(self.text@, opt_chars(self.color), self.bold));
        }
    }
}

/// The console line that broadcasts `message` from `name`: a gold, bold
/// `<name> ` followed by the message in white, not bold.
pub open spec fn tellraw_command(name: Seq<char>, message: Seq<char>) -> Seq<char> {
    "tellraw @a "@ + "["@ + raw_text_json("<"@ + name + "> "@, Some("gold"@), Some(true)) + ","@
        + raw_text_json(message, Some("white"@), Some(false)) + "]"@
}

/// Whether chat mode is on, and under which name lines are sent.
pub struct ChatState {
    pub active: bool,
    pub name: Seq<char>,
}

/// What the console shows in answer to a line.
pub enum ChatEvent {
    ChatPromptRequested { sender: String },
    ChatModeStarted { sender: String },
    ChatModeStopped,
}

pub enum ChatSignal {
    Prompt(Seq<char>),
    Started(Seq<char>),
    Stopped,
}

impl View for ChatEvent {
    type V = ChatSignal;

    open spec fn view(&self) -> ChatSignal {
        match self {
            ChatEvent::ChatPromptRequested { sender } => ChatSignal::Prompt(sender@),
            ChatEvent::ChatModeStarted { sender } => ChatSignal::Started(sender@),
            ChatEvent::ChatModeStopped => ChatSignal::Stopped,
        }
    }
}

/// The answer to one console line: whether chat mode consumed it, the event
/// to show, and the command to send to the server.
pub struct ChatReply {
    pub handled: bool,
    pub event: Option<ChatEvent>,
    pub command: Option<String>,
}

pub struct ChatReplyView {
    pub handled: bool,
    pub event: Option<ChatSignal>,
    pub command: Option<Seq<char>>,
}

impl View for ChatReply {
    type V = ChatReplyView;

    open spec fn view(&self) -> ChatReplyView {
        ChatReplyView {
            handled: self.handled,
            event: match self.event {
                Some(e) => Some(e@),
                None => None,
            },
            command: opt_chars(self.command),
        }
    }
}

pub open spec fn is_chat_command(t: Seq<char>) -> bool {
    t == ":chat"@ || has_prefix(t, ":chat "@)
}

pub open spec fn is_exit_command(t: Seq<char>) -> bool {
    t == ":exit"@ || t == ":e"@ || t == ":q"@
}

/// The name that `:chat` switches to: what follows the command, trimmed, or
/// `Server` for a bare `:chat`.
pub open spec fn chat_name_of(t: Seq<char>) -> Seq<char> {
    if has_prefix(t, ":chat "@) {
        trim_ws(replace_all(t, ":chat "@, Seq::empty()))
    } else {
        "Server"@
    }
}

/// The state after a console line and the reply to it.
pub open spec fn chat_step(s: ChatState, input: Seq<char>) -> (ChatState, ChatReplyView) {
    let t = trim_ws(input);
    if t.len() == 0 {
        (s, ChatReplyView {
            handled: s.active,
            event: if s.active { Some(ChatSignal::Prompt(s.name)) } else { None },
            command: None,
        })
    } else if is_chat_command(t) {
        (ChatState { active: true, name: chat_name_of(t) }, ChatReplyView {
            handled: true,
            event: Some(ChatSignal::Started(chat_name_of(t))),
            command: None,
        })
    } else if is_exit_command(t) {
        (ChatState { active: false, name: s.name }, ChatReplyView {
            handled: s.active,
            event: if s.active { Some(ChatSignal::Stopped) } else { None },
            command: None,
        })
    } else if s.active {
        (s, ChatReplyView { handled: true, event: None, command: Some(tellraw_command(s.name, t)) })
    } else {
        (s, ChatReplyView { handled: false, event: None, command: None })
    }
}

/// A call that changes the chat mode: a console line, or `deactivate`.
pub enum ChatCall {
    Line(Seq<char>),
    Deactivate,
}

/// The state after one call.
pub open spec fn chat_call_step(s: ChatState, c: ChatCall) -> ChatState {
    match c {
        ChatCall::Line(input) => chat_step(s, input).0,
        ChatCall::Deactivate => ChatState { active: false, name: s.name },
    }
}

/// The state after a sequence of calls, the first applied first.
pub open spec fn chat_run(s: ChatState, calls: Seq<ChatCall>) -> ChatState
    decreases calls.len(),
{
    if calls.len() == 0 {
        s
    } else {
        chat_call_step(chat_run(s, calls.drop_last()), calls.last())
    }
}

/// A call that turns chat mode on: a `:chat` line, with or without a name.
pub open spec fn turns_on(c: ChatCall) -> bool {
    c matches ChatCall::Line(input) && is_chat_command(trim_ws(input))
}

/// A call that switches the mode either way: a `:chat` line, an `:exit`,
/// `:e` or `:q` line, or `deactivate`.
pub open spec fn switches_mode(c: ChatCall) -> bool {
    match c {
        ChatCall::Line(input) => is_chat_command(trim_ws(input)) || is_exit_command(trim_ws(input)),
        ChatCall::Deactivate => true,
    }
}

/// The name a call that turns chat mode on switches to.
pub open spec fn call_name(c: ChatCall) -> Seq<char> {
    match c {
        ChatCall::Line(input) => chat_name_of(trim_ws(input)),
        ChatCall::Deactivate => Seq::empty(),
    }
}

/// The console's chat mode.
pub struct ChatManager {
    active: bool,
    name: String,
}

impl View for ChatManager {
    type V = ChatState;

    closed spec fn view(&self) -> ChatState {
        ChatState { active: self.active, name: self.name@ }
    }
}

impl ChatManager {
    /// Chat mode off, under the name `Server`.
    pub fn new() -> (r: ChatManager)
        ensures
            r@ == (ChatState { active: false, name: "Server"@ }),
    {
        ChatManager { active: false, name: "Server".to_string() }
    }

    pub fn is_active(&self) -> (b: bool)
        ensures
            b == self@.active,
    {
        self.active
    }

    pub fn get_name(&self) -> (r: String)
        ensures
            r@ == self@.name,
    {
        self.name.clone()
    }

    pub fn deactivate(&mut self)
        ensures
            final(self)@ == (ChatState { active: false, name: old(self)@.name }),
            final(self)@ == chat_call_step(old(self)@, ChatCall::Deactivate),
    {
        self.active = false;
    }

    /// Handles one console line; see `chat_step`.
    pub fn handle_input(&mut self, input: &str) -> (r: ChatReply)
        ensures
            (final(self)@, r@) == chat_step(old(self)@, input@),
            final(self)@ == chat_call_step(old(self)@, ChatCall::Line(input@)),
    {
        proof {
            reveal_strlit("");
            reveal_strlit(":chat ");
            assert(""@ =~= Seq::<char>::empty());
        }
        let t = trim_white(input);
        if str_eq(t.as_str(), "") {
            if self.active {
                return ChatReply {
                    handled: true,
                    event: Some(ChatEvent::ChatPromptRequested { sender: self.name.clone() }),
                    command: None,
                };
            }
            return ChatReply { handled: false, event: None, command: None };
        }
        assert(t@.len() != 0) by {
            if t@.len() == 0 {
                assert(t@ =~= ""@);
            }
        }
        let with_name = starts_with(t.as_str(), ":chat ");
        if str_eq(t.as_str(), ":chat") || with_name {
            let name = if with_name {
                let removed = replace_str(t.as_str(), ":chat ", "");
                trim_white(removed.as_str())
            } else {
                "Server".to_string()
            };
            self.active = true;
            self.name = name.clone();
            return ChatReply {
                handled: true,
                event: Some(ChatEvent::ChatModeStarted { sender: name }),
                command: None,
            };
        }
        if str_eq(t.as_str(), ":exit") || str_eq(t.as_str(), ":e") || str_eq(t.as_str(), ":q") {
            if self.active {
                self.active = false;
                return ChatReply { handled: true, event: Some(ChatEvent::ChatModeStopped), command: None };
            }
            return ChatReply { handled: false, event: None, command: None };
        }
        if self.active {
            let mut head = String::new();
            push_str(&mut head, "<");
            push_str(&mut head, self.name.as_str());
            push_str(&mut head, "> ");
            let first = RawText::new(head.as_str()).color("gold").bold(true);
            let second = RawText::new(t.as_str()).color("white").bold(false);
            let mut command = String::new();
            push_str(&mut command, "tellraw @a ");
            push_str(&mut command, "[");
            first.push_json(&mut command);
            push_str(&mut command, ",");
            second.push_json(&mut command);
            push_str(&mut command, "]");
            proof {
                assert(head@ =~= "<"@ + self.name@ + "> "@);
                assert(command@ =~= tellraw_command(self.name@, t@));
            }
            return ChatReply { handled: true, event: None, command: Some(command) };
        }
        ChatReply { handled: false, event: None, command: None }
    }
}

} // verus!

verus! {

/// A broadcast is sent only while chat mode is on, and sending one changes
/// nothing of the mode.
pub proof fn lemma_broadcast_only_when_active(s: ChatState, input: Seq<char>)
    ensures
        chat_step(s, input).1.command is Some ==> s.active && chat_step(s, input).0 == s,
{
}

/// `:chat` (with or without a name) turns chat mode on under the name it
/// gives; `:exit`, `:e` and `:q` turn it off and keep the name.
pub proof fn lemma_mode_switches(s: ChatState, input: Seq<char>)
    ensures
        is_chat_command(trim_ws(input)) ==> chat_step(s, input).0 == (ChatState {
            active: true,
            name: chat_name_of(trim_ws(input)),
        }),
        !is_chat_command(trim_ws(input)) && is_exit_command(trim_ws(input)) ==> chat_step(s, input).0 == (ChatState {
            active: false,
            name: s.name,
        }),
{
    reveal_strlit(":chat");
    reveal_strlit(":exit");
    reveal_strlit(":e");
    reveal_strlit(":q");
    if trim_ws(input).len() == 0 {
        assert(!(trim_ws(input) == ":chat"@));
        assert(!has_prefix(trim_ws(input), ":chat "@)) by {
            reveal_strlit(":chat ");
        }
        assert(!(trim_ws(input) == ":exit"@));
        assert(!(trim_ws(input) == ":e"@));
        assert(!(trim_ws(input) == ":q"@));
    }
}

/// Over any sequence of calls, chat mode is on exactly when the latest call
/// that switches the mode was a `:chat` line, or, where no call switches it,
/// when it was on at the start; the name is the one the latest `:chat` line
/// gave, or the starting name where no line turned chat mode on. From
/// `ChatManager::new()` that is: off and `Server` until a `:chat` line.
pub proof fn lemma_chat_history(s: ChatState, calls: Seq<ChatCall>)
    ensures
        chat_run(s, calls).active <==> ((exists|i: int|
            0 <= i < calls.len() && turns_on(#[trigger] calls[i]) && forall|j: int|
                i < j < calls.len() ==> !switches_mode(#[trigger] calls[j])) || (s.active && forall|j: int|
            0 <= j < calls.len() ==> !switches_mode(#[trigger] calls[j]))),
        forall|i: int|
            0 <= i < calls.len() && turns_on(#[trigger] calls[i]) && (forall|j: int|
                i < j < calls.len() ==> !turns_on(#[trigger] calls[j])) ==> chat_run(s, calls).name == call_name(
                calls[i],
            ),
        (forall|j: int| 0 <= j < calls.len() ==> !turns_on(#[trigger] calls[j])) ==> chat_run(s, calls).name
            == s.name,
    decreases calls.len(),
{
    if calls.len() > 0 {
        let prev = calls.drop_last();
        let c = calls.last();
        let n = (calls.len() - 1) as int;
        lemma_chat_history(s, prev);
        let before = chat_run(s, prev);
        assert(calls[n] == c);
        assert forall|j: int| 0 <= j < prev.len() implies #[trigger] prev[j] == calls[j] by {}
        match c {
            ChatCall::Line(input) => {
                lemma_mode_switches(before, input);
                lemma_quiet_line(before, input);
            },
            ChatCall::Deactivate => {},
        }
        if switches_mode(c) {
            if turns_on(c) {
                assert(chat_run(s, calls).active);
            } else {
                assert(!chat_run(s, calls).active);
                assert forall|i: int| 0 <= i < calls.len() && turns_on(#[trigger] calls[i]) implies exists|j: int|
                    i < j < calls.len() && switches_mode(#[trigger] calls[j]) by {
                    assert(i < n);
                    assert(switches_mode(calls[n]));
                }
            }
        } else {
            assert(chat_run(s, calls) == before);
            assert(!turns_on(c));
            if chat_run(s, calls).active {
                if exists|i: int|
                    0 <= i < prev.len() && turns_on(#[trigger] prev[i]) && forall|j: int|
                        i < j < prev.len() ==> !switches_mode(#[trigger] prev[j]) {
                    let i = choose|i: int|
                        0 <= i < prev.len() && turns_on(#[trigger] prev[i]) && forall|j: int|
                            i < j < prev.len() ==> !switches_mode(#[trigger] prev[j]);
                    assert(turns_on(calls[i]));
                    assert forall|j: int| i < j < calls.len() implies !switches_mode(#[trigger] calls[j]) by {
                        if j < n {
                            assert(prev[j] == calls[j]);
                        }
                    }
                } else {
                    assert forall|j: int| 0 <= j < calls.len() implies !switches_mode(#[trigger] calls[j]) by {
                        if j < n {
                            assert(prev[j] == calls[j]);
                        }
                    }
                }
            } else {
                if exists|i: int|
                    0 <= i < calls.len() && turns_on(#[trigger] calls[i]) && forall|j: int|
                        i < j < calls.len() ==> !switches_mode(#[trigger] calls[j]) {
                    let i = choose|i: int|
                        0 <= i < calls.len() && turns_on(#[trigger] calls[i]) && forall|j: int|
                            i < j < calls.len() ==> !switches_mode(#[trigger] calls[j]);
                    assert(i < n);
                    assert(turns_on(prev[i]));
                    assert forall|j: int| i < j < prev.len() implies !switches_mode(#[trigger] prev[j]) by {
                        assert(prev[j] == calls[j]);
                    }
                }
                if s.active && forall|j: int| 0 <= j < calls.len() ==> !switches_mode(#[trigger] calls[j]) {
                    assert forall|j: int| 0 <= j < prev.len() implies !switches_mode(#[trigger] prev[j]) by {
                        assert(prev[j] == calls[j]);
                    }
                }
            }
        }
        assert forall|i: int|
            0 <= i < calls.len() && turns_on(#[trigger] calls[i]) && (forall|j: int|
                i < j < calls.len() ==> !turns_on(#[trigger] calls[j])) implies chat_run(s, calls).name == call_name(
            calls[i],
        ) by {
            if i < n {
                assert(!turns_on(c));
                assert(turns_on(prev[i]));
                assert forall|j: int| i < j < prev.len() implies !turns_on(#[trigger] prev[j]) by {
                    assert(prev[j] == calls[j]);
                }
            }
        }
        if forall|j: int| 0 <= j < calls.len() ==> !turns_on(#[trigger] calls[j]) {
            assert(!turns_on(calls[n]));
            assert forall|j: int| 0 <= j < prev.len() implies !turns_on(#[trigger] prev[j]) by {
                assert(prev[j] == calls[j]);
            }
        }
    }
}

/// A line that switches nothing leaves the state as it was.
proof fn lemma_quiet_line(s: ChatState, input: Seq<char>)
    ensures
        !is_chat_command(trim_ws(input)) && !is_exit_command(trim_ws(input)) ==> chat_step(s, input).0 == s,
        is_chat_command(trim_ws(input)) ==> !is_exit_command(trim_ws(input)),
{
    reveal_strlit(":chat");
    reveal_strlit(":chat ");
    reveal_strlit(":exit");
    reveal_strlit(":e");
    reveal_strlit(":q");
    let t = trim_ws(input);
    if is_chat_command(t) && is_exit_command(t) {
        if t == ":chat"@ {
            assert(t.len() == 5);
            assert(t[1] == 'c');
        } else {
            assert(has_prefix(t, ":chat "@));
            assert(t.len() >= 6);
            assert(t[1] == ":chat "@[1]);
        }
    }
}

} // verus!
