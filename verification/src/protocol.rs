//! The command protocol: one text frame is one command, a keyword followed by
//! a single space and an argument tail. A frame is read into a directive,
//! which says what the connection has to do for it.

use crate::decimal::{
    decimal, decimal_string, decimal_value, is_digit, lemma_decimal_is_digits,
    lemma_decimal_round_trip,
};
use crate::health::{overloaded, report_text, Sys};
use crate::text::{
    equal, first_word, get_cmd, lemma_split_spaces_step, split_on_spaces, split_once,
    split_spaces, views,
};
use vstd::prelude::*;
use vstd::string::*;

verus! {

/// What the service was started with, read once and never changed.
#[derive(Debug)]
pub struct Config {
    /// The names of the sessions, in the order in which they were listed.
    pub sessions: Vec<String>,
    /// Where the restart script lies, if one was given.
    pub restart_script: Option<String>,
}

impl Config {
    /// The path of the restart script, as a text.
    pub open spec fn restart_script_view(&self) -> Option<Seq<char>> {
        match self.restart_script {
            Some(path) => Some(path@),
            None => None,
        }
    }
}

/// What a connection has to do for one frame.
#[derive(Debug, PartialEq, Eq)]
pub enum Directive {
    /// Answer the sender with this text.
    Reply(String),
    /// Do nothing and answer nothing.
    Nothing,
    /// Tell every session this chat text.
    Broadcast(String),
    /// Hand `command` to the session named `target`.
    Command { target: String, command: String },
    /// Run the restart script at this path and answer with how it ended.
    Restart(String),
    /// Start `program` with `args`, and neither wait for it nor answer.
    Shell { program: String, args: Vec<String> },
    /// Answer with the system report.
    Check,
    /// Answer with the overload signal.
    Heartbeat,
    /// Answer with the time.
    Ping,
}

/// A directive, with its texts as sequences of characters.
pub enum DirectiveView {
    Reply(Seq<char>),
    Nothing,
    Broadcast(Seq<char>),
    Command { target: Seq<char>, command: Seq<char> },
    Restart(Seq<char>),
    Shell { program: Seq<char>, args: Seq<Seq<char>> },
    Check,
    Heartbeat,
    Ping,
}

impl View for Directive {
    type V = DirectiveView;

    open spec fn view(&self) -> DirectiveView {
        match self {
            Directive::Reply(text) => DirectiveView::Reply(text@),
            Directive::Nothing => DirectiveView::Nothing,
            Directive::Broadcast(text) => DirectiveView::Broadcast(text@),
            Directive::Command { target, command } => DirectiveView::Command {
                target: target@,
                command: command@,
            },
            Directive::Restart(path) => DirectiveView::Restart(path@),
            Directive::Shell { program, args } => DirectiveView::Shell {
                program: program@,
                args: views(args@),
            },
            Directive::Check => DirectiveView::Check,
            Directive::Heartbeat => DirectiveView::Heartbeat,
            Directive::Ping => DirectiveView::Ping,
        }
    }
}

/// How a run of the restart script ended.
#[derive(Clone, Copy, PartialEq, Eq, Debug)]
pub enum RestartOutcome {
    /// The script ran and reported success.
    Succeeded,
    /// The script ran and reported failure.
    Failed,
    /// The script could not be started at all.
    NotStarted,
}

/// The directive for a `MSG` frame: the text after the keyword goes to every
/// session. A frame without a text asks for nothing.
pub open spec fn message_directive(message: Seq<char>) -> DirectiveView {
    match split_once(message) {
        Some((_, text)) => DirectiveView::Broadcast(text),
        None => DirectiveView::Nothing,
    }
}

/// The directive for a `CMD` frame: the first word of the tail names the
/// session, the rest is the command, handed on as it stands. The bare keyword
/// is answered as invalid; a tail of one word asks for nothing.
pub open spec fn command_directive(message: Seq<char>) -> DirectiveView {
    match split_once(message) {
        None => DirectiveView::Reply("invalid command"@),
        Some((_, tail)) => match split_once(tail) {
            Some((target, command)) => DirectiveView::Command { target, command },
            None => DirectiveView::Nothing,
        },
    }
}

/// The directive for a `RESTART` frame: run the script, or say that there is
/// none.
pub open spec fn restart_directive(restart_script: Option<Seq<char>>) -> DirectiveView {
    match restart_script {
        Some(path) => DirectiveView::Restart(path),
        None => DirectiveView::Reply("no restart script found"@),
    }
}

/// The directive for a `SHELL` frame: the tail is cut at every space, its
/// first piece is the program and the others are its arguments. The bare
/// keyword names no program and asks for nothing.
pub open spec fn shell_directive(message: Seq<char>) -> DirectiveView {
    match split_once(message) {
        Some((_, tail)) => DirectiveView::Shell {
            program: split_spaces(tail)[0],
            args: split_spaces(tail).drop_first(),
        },
        None => DirectiveView::Nothing,
    }
}

/// The directive for a frame. The keyword is the first word of the frame and
/// is matched exactly, capitals included; a frame with any other keyword asks
/// for nothing.
pub open spec fn directive_of(message: Seq<char>, restart_script: Option<Seq<char>>)
    -> DirectiveView {
    let keyword = first_word(message);
    if keyword == "MSG"@ {
        message_directive(message)
    } else if keyword == "CMD"@ {
        command_directive(message)
    } else if keyword == "RESTART"@ {
        restart_directive(restart_script)
    } else if keyword == "SHELL"@ {
        shell_directive(message)
    } else if keyword == "CHECK"@ {
        DirectiveView::Check
    } else if keyword == "HEARTBEAT"@ {
        DirectiveView::Heartbeat
    } else if keyword == "PING"@ {
        DirectiveView::Ping
    } else {
        DirectiveView::Nothing
    }
}

/// The answer to a run of the restart script.
pub open spec fn restart_text(outcome: RestartOutcome) -> Seq<char> {
    match outcome {
        RestartOutcome::Succeeded => "restarting..."@,
        _ => "failed to execute restart script"@,
    }
}

/// The answer to `PING` at `millis` milliseconds since the epoch.
pub open spec fn pong_text(millis: nat) -> Seq<char> {
    "PONG "@ + decimal(millis)
}

/// The answer to `HEARTBEAT`.
pub open spec fn heartbeat_text(overloaded: bool) -> Seq<char> {
    if overloaded {
        "true"@
    } else {
        "false"@
    }
}

/// The command that shows `chat` to everyone in a session.
pub open spec fn chat_command_text(chat: Seq<char>) -> Seq<char> {
    "tellraw @a { \"text\": \""@ + chat + "\" }"@
}

/// Reads one frame into the directive for it.
pub fn handle_response(message: &str, config: &Config) -> (directive: Directive)
    ensures
        directive@ == directive_of(message@, config.restart_script_view()),
{
    let parts = get_cmd(message);
    let keyword: &str = match parts {
        Some((head, _)) => head,
        None => message,
    };
    if equal(keyword, "MSG") {
        match parts {
            Some((_, text)) => Directive::Broadcast(text.to_owned()),
            None => Directive::Nothing,
        }
    } else if equal(keyword, "CMD") {
        match parts {
            None => Directive::Reply("invalid command".to_owned()),
            Some((_, tail)) => match get_cmd(tail) {
                Some((target, command)) => Directive::Command {
                    target: target.to_owned(),
                    command: command.to_owned(),
                },
                None => Directive::Nothing,
            },
        }
    } else if equal(keyword, "RESTART") {
        match &config.restart_script {
            Some(path) => Directive::Restart(path.clone()),
            None => Directive::Reply("no restart script found".to_owned()),
        }
    } else if equal(keyword, "SHELL") {
        match parts {
            Some((_, tail)) => {
                let mut pieces = split_on_spaces(tail);
                proof {
                    lemma_split_spaces_step(tail@);
                }
                let ghost all = pieces@;
                let program = pieces.remove(0);
                assert(views(pieces@) =~= views(all).drop_first());
                Directive::Shell { program, args: pieces }
            },
            None => Directive::Nothing,
        }
    } else if equal(keyword, "CHECK") {
        Directive::Check
    } else if equal(keyword, "HEARTBEAT") {
        Directive::Heartbeat
    } else if equal(keyword, "PING") {
        Directive::Ping
    } else {
        Directive::Nothing
    }
}

/// The answer to a run of the restart script. A script that could not be
/// started is answered like one that failed.
pub fn restart_response(outcome: RestartOutcome) -> (text: String)
    ensures
        text@ == restart_text(outcome),
{
    match outcome {
        RestartOutcome::Succeeded => "restarting...".to_owned(),
        _ => "failed to execute restart script".to_owned(),
    }
}

/// The answer to `PING` at `millis` milliseconds since the epoch.
pub fn pong(millis: u128) -> (text: String)
    ensures
        text@ == pong_text(millis as nat),
{
    let mut text = "PONG ".to_owned();
    let number = decimal_string(millis);
    text.append(number.as_str());
    text
}

/// The answer to `HEARTBEAT`: `true` for an overloaded machine.
pub fn heartbeat(overloaded: bool) -> (text: String)
    ensures
        text@ == heartbeat_text(overloaded),
{
    if overloaded {
        "true".to_owned()
    } else {
        "false".to_owned()
    }
}

/// The answer to `HEARTBEAT` for a snapshot: `true` if and only if the
/// machine is overloaded.
pub fn heartbeat_response(sys: &Sys) -> (text: String)
    ensures
        text@ == heartbeat_text(overloaded(sys@)),
{
    heartbeat(sys.sys_health_check())
}

/// The answer to `CHECK` for a snapshot: its report.
pub fn check_response(sys: &Sys) -> (text: String)
    ensures
        text@ == report_text(sys@),
{
    sys.render()
}

/// The command that shows `chat` to everyone in a session.
pub fn chat_command(chat: &str) -> (command: String)
    ensures
        command@ == chat_command_text(chat@),
{
    let mut command = "tellraw @a { \"text\": \"".to_owned();
    command.append(chat);
    command.append("\" }");
    command
}

/// What a broadcast hands to the sessions: for each of them, in the order of
/// `sessions`, its name and the command that shows `chat`.
pub fn broadcast_plan(sessions: &Vec<String>, chat: &str) -> (plan: Vec<(String, String)>)
    ensures
        plan@.len() == sessions@.len(),
        forall|i: int|
            0 <= i < plan@.len() ==> (#[trigger] plan@[i]).0@ == sessions@[i]@ && plan@[i].1@
                == chat_command_text(chat@),
{
    let mut plan: Vec<(String, String)> = Vec::new();
    let mut i: usize = 0;
    while i < sessions.len()
        invariant
            i <= sessions@.len(),
            plan@.len() == i,
            forall|k: int|
                0 <= k < plan@.len() ==> (#[trigger] plan@[k]).0@ == sessions@[k]@ && plan@[k].1@
                    == chat_command_text(chat@),
        decreases sessions@.len() - i,
    {
        plan.push((sessions[i].clone(), chat_command(chat)));
        i = i + 1;
    }
    plan
}

/// The answer to `HEARTBEAT` is `true` for an overloaded machine and for no
/// other, and `false` for a machine that is not and for no other.
pub proof fn lemma_heartbeat_tells(overloaded: bool)
    ensures
        heartbeat_text(overloaded) == "true"@ <==> overloaded,
        heartbeat_text(overloaded) == "false"@ <==> !overloaded,
{
    reveal_strlit("true");
    reveal_strlit("false");
    assert("true"@.len() != "false"@.len());
}

/// The answer to `PING` is the word `PONG`, a space, and one decimal digit or
/// more.
pub proof fn lemma_pong_shape(millis: nat)
    ensures
        pong_text(millis).len() > 5,
        pong_text(millis).subrange(0, 5) == "PONG "@,
        forall|i: int|
            5 <= i < pong_text(millis).len() ==> is_digit(#[trigger] pong_text(millis)[i]),
        decimal_value(pong_text(millis).subrange(5, pong_text(millis).len() as int)) == millis,
{
    reveal_strlit("PONG ");
    lemma_decimal_is_digits(millis);
    lemma_decimal_round_trip(millis);
    let text = pong_text(millis);
    assert(text.subrange(5, text.len() as int) =~= decimal(millis));
    assert forall|i: int| 5 <= i < text.len() implies is_digit(#[trigger] text[i]) by {
        assert(text[i] == decimal(millis)[i - 5]);
    }
}

/// The later the clock, the greater the number in the answer to `PING`: the
/// answers to two readings of the clock stand in the order of the readings.
pub proof fn lemma_pong_monotonic(earlier: nat, later: nat)
    requires
        earlier <= later,
    ensures
        decimal_value(pong_text(earlier).subrange(5, pong_text(earlier).len() as int))
            <= decimal_value(pong_text(later).subrange(5, pong_text(later).len() as int)),
{
    lemma_pong_shape(earlier);
    lemma_pong_shape(later);
}

} // verus!
