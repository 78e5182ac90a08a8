//! What the server decides while it runs: where it listens, what a line
//! on the console asks for, and what follows from what happens.

use crate::text::{is_space, is_white_space, str_chars};
use vstd::prelude::*;

verus! {

/// The address the server listens on when it is told no other.
pub const DEFAULT_HOST: &'static str = "0.0.0.0";

/// The port the server listens on when it is told no other.
pub const DEFAULT_PORT: i64 = 25565;

/// The lowest port the server may be told to listen on.
pub const MIN_PORT: i64 = 1024;

/// The port above the highest the server may be told to listen on.
pub const MAX_PORT: i64 = 65535;

/// Whether `text` is nothing but white space.
pub open spec fn blank(text: Seq<char>) -> bool {
    forall|i: int| 0 <= i < text.len() ==> is_space(#[trigger] text[i])
}

/// Whether a server may listen on `host` and `port`: the host is not
/// blank and the port is at least 1024 and below 65535.
pub open spec fn acceptable(host: Seq<char>, port: i64) -> bool {
    !blank(host) && MIN_PORT <= port < MAX_PORT
}

/// The host of a configuration, or the default where it names none.
pub open spec fn host_or_default(host: Option<&str>) -> Seq<char> {
    match host {
        Some(h) => h@,
        None => DEFAULT_HOST@,
    }
}

/// The port of a configuration, or the default where it names none.
pub open spec fn port_or_default(port: Option<i64>) -> i64 {
    match port {
        Some(p) => p,
        None => DEFAULT_PORT,
    }
}

fn is_blank(text: &str) -> (b: bool)
    ensures
        b == blank(text@),
{
    let chars = str_chars(text);
    let mut i: usize = 0;
    while i < chars.len()
        invariant
            i <= chars@.len(),
            chars@ == text@,
            forall|k: int| 0 <= k < i ==> is_space(#[trigger] chars@[k]),
        decreases chars@.len() - i,
    {
        if !is_white_space(chars[i]) {
            assert(!is_space(chars@[i as int]));
            return false;
        }
        i += 1;
    }
    true
}

/// The host and port of a configuration, each the default where the
/// configuration does not name it, if the server may listen there.
pub fn assert_config(host: Option<&str>, port: Option<i64>) -> (address: Option<(String, i64)>)
    ensures
        match address {
            Some((h, p)) => acceptable(host_or_default(host), port_or_default(port)) && h@
                == host_or_default(host) && p == port_or_default(port),
            None => !acceptable(host_or_default(host), port_or_default(port)),
        },
{
    let host = match host {
        Some(h) => h,
        None => DEFAULT_HOST,
    };
    let port = match port {
        Some(p) => p,
        None => DEFAULT_PORT,
    };
    if is_blank(host) {
        return None;
    }
    if port < MIN_PORT || port >= MAX_PORT {
        return None;
    }
    Some((host.to_owned(), port))
}

/// Where the server listens: where its configuration says, or, if it may
/// not listen there, on the default host and port.
pub fn listen_address(host: Option<&str>, port: Option<i64>) -> (address: (String, i64))
    ensures
        acceptable(host_or_default(host), port_or_default(port)) ==> address.0@ == host_or_default(
            host,
        ) && address.1 == port_or_default(port),
        !acceptable(host_or_default(host), port_or_default(port)) ==> address.0@ == DEFAULT_HOST@
            && address.1 == DEFAULT_PORT,
{
    match assert_config(host, port) {
        Some(address) => address,
        None => (DEFAULT_HOST.to_owned(), DEFAULT_PORT),
    }
}

/// What a line on the operator's console asks for.
#[derive(Debug, Clone, Copy, PartialEq, Eq, Structural)]
pub enum ConsoleCommand {
    Stop,
    Reload,
    /// Any other line. It is ignored.
    Other,
}

/// What `line` asks for.
pub open spec fn command_of(line: Seq<char>) -> ConsoleCommand {
    if line == "stop"@ {
        ConsoleCommand::Stop
    } else if line == "reload"@ {
        ConsoleCommand::Reload
    } else {
        ConsoleCommand::Other
    }
}

/// What `line` asks for: `stop` and `reload` are commands, every other
/// line is ignored.
pub fn parse_command(line: &str) -> (command: ConsoleCommand)
    ensures
        command == command_of(line@),
{
    let chars = str_chars(line);
    assert(chars@.subrange(0, chars@.len() as int) =~= line@);
    if crate::text::spells(&chars, 0, chars.len(), "stop") {
        ConsoleCommand::Stop
    } else if crate::text::spells(&chars, 0, chars.len(), "reload") {
        ConsoleCommand::Reload
    } else {
        ConsoleCommand::Other
    }
}

/// What can happen to a running server.
#[derive(Debug, Clone, Copy, PartialEq, Eq, Structural)]
pub enum ServerEvent {
    /// A client connected.
    Accepted,
    /// Accepting a client failed.
    AcceptFailed,
    /// The operator entered a line.
    Command(ConsoleCommand),
    /// The console was closed.
    ConsoleClosed,
    /// Reading the console failed.
    ConsoleFailed,
    /// The process was told to stop.
    Interrupt,
}

/// What the server does about what happened.
#[derive(Debug, Clone, Copy, PartialEq, Eq, Structural)]
pub enum ServerAction {
    /// Serve the new connection in a task of its own.
    Serve,
    /// Call the host's reload hook.
    Reload,
    /// Leave the loop: tell every connection to end, wait for them, call
    /// the host's disable hook.
    Shutdown,
    /// Go on.
    Continue,
}

/// What the server does about `event`. It stops when the operator says
/// `stop`, when the console is closed and when the process is interrupted;
/// no failure of a connection or of the console stops it.
pub open spec fn reaction(event: ServerEvent) -> ServerAction {
    match event {
        ServerEvent::Accepted => ServerAction::Serve,
        ServerEvent::AcceptFailed => ServerAction::Continue,
        ServerEvent::Command(ConsoleCommand::Stop) => ServerAction::Shutdown,
        ServerEvent::Command(ConsoleCommand::Reload) => ServerAction::Reload,
        ServerEvent::Command(ConsoleCommand::Other) => ServerAction::Continue,
        ServerEvent::ConsoleClosed => ServerAction::Shutdown,
        ServerEvent::ConsoleFailed => ServerAction::Continue,
        ServerEvent::Interrupt => ServerAction::Shutdown,
    }
}

/// What the server does about `event`.
pub fn react(event: ServerEvent) -> (action: ServerAction)
    ensures
        action == reaction(event),
{
    match event {
        ServerEvent::Accepted => ServerAction::Serve,
        ServerEvent::AcceptFailed => ServerAction::Continue,
        ServerEvent::Command(ConsoleCommand::Stop) => ServerAction::Shutdown,
        ServerEvent::Command(ConsoleCommand::Reload) => ServerAction::Reload,
        ServerEvent::Command(ConsoleCommand::Other) => ServerAction::Continue,
        ServerEvent::ConsoleClosed => ServerAction::Shutdown,
        ServerEvent::ConsoleFailed => ServerAction::Continue,
        ServerEvent::Interrupt => ServerAction::Shutdown,
    }
}

/// The loop of a server: it runs until something asks it to shut down,
/// and then it has stopped for good.
#[derive(Debug, Clone, Copy, PartialEq, Eq, Structural)]
pub struct ServerLoop {
    pub stopped: bool,
}

/// What a loop that has stopped or not does about `event`, and whether it
/// has stopped afterwards. A loop that has stopped does nothing any more.
pub open spec fn loop_step(stopped: bool, event: ServerEvent) -> (ServerAction, bool) {
    if stopped {
        (ServerAction::Continue, true)
    } else {
        (reaction(event), reaction(event) == ServerAction::Shutdown)
    }
}

/// What a loop does, one after the other, about `events`.
pub open spec fn loop_actions(stopped: bool, events: Seq<ServerEvent>) -> Seq<ServerAction>
    decreases events.len(),
{
    if events.len() == 0 {
        Seq::empty()
    } else {
        let (action, after) = loop_step(stopped, events[0]);
        seq![action] + loop_actions(after, events.skip(1))
    }
}

/// How many of `actions` are shutdowns.
pub open spec fn shutdowns(actions: Seq<ServerAction>) -> nat
    decreases actions.len(),
{
    if actions.len() == 0 {
        0
    } else if actions[0] == ServerAction::Shutdown {
        1 + shutdowns(actions.skip(1))
    } else {
        shutdowns(actions.skip(1))
    }
}

impl ServerLoop {
    /// A loop that runs.
    pub fn new() -> (server: ServerLoop)
        ensures
            !server.stopped,
    {
        ServerLoop { stopped: false }
    }

    /// What the loop does about `event`.
    pub fn on(&mut self, event: ServerEvent) -> (action: ServerAction)
        ensures
            (action, final(self).stopped) == loop_step(old(self).stopped, event),
    {
        if self.stopped {
            return ServerAction::Continue;
        }
        let action = react(event);
        match action {
            ServerAction::Shutdown => {
                self.stopped = true;
            },
            _ => {},
        }
        action
    }
}

/// Whatever happens, and in whatever order, a server shuts down at most
/// once; and one that has stopped never shuts down again.
pub proof fn lemma_shuts_down_once(stopped: bool, events: Seq<ServerEvent>)
    ensures
        shutdowns(loop_actions(stopped, events)) <= 1,
        stopped ==> shutdowns(loop_actions(stopped, events)) == 0,
    decreases events.len(),
{
    if events.len() > 0 {
        let (action, after) = loop_step(stopped, events[0]);
        let later = loop_actions(after, events.skip(1));
        lemma_shuts_down_once(after, events.skip(1));
        assert((seq![action] + later).skip(1) =~= later);
    }
}

} // verus!
