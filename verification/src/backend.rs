//! The closed set of language servers the proxy can launch.

use crate::error::BackendError;
use crate::message::{IdModel, MessageModel, RpcId, RpcMessage};
use vstd::prelude::*;
use vstd::string::StringExecFns;

verus! {

/// A supported language server.
#[derive(Debug, Clone, Copy, PartialEq, Eq, Structural)]
pub enum BackendKind {
    Pyright,
    Ty,
    Pyrefly,
}

impl BackendKind {
    /// The short name of the kind, as the command line spells it.
    pub open spec fn name_text(self) -> Seq<char> {
        match self {
            BackendKind::Pyright => "pyright"@,
            BackendKind::Ty => "ty"@,
            BackendKind::Pyrefly => "pyrefly"@,
        }
    }

    /// The program that is launched for the kind.
    pub open spec fn command_text(self) -> Seq<char> {
        match self {
            BackendKind::Pyright => "pyright-langserver"@,
            BackendKind::Ty => "ty"@,
            BackendKind::Pyrefly => "pyrefly"@,
        }
    }

    /// The single fixed argument that puts the program into server mode.
    pub open spec fn argument_text(self) -> Seq<char> {
        match self {
            BackendKind::Pyright => "--stdio"@,
            BackendKind::Ty => "server"@,
            BackendKind::Pyrefly => "lsp"@,
        }
    }

    /// Short name for logs; equal to the command-line value.
    pub fn display_name(&self) -> (name: &'static str)
        ensures
            name@ == self.name_text(),
    {
        match self {
            BackendKind::Pyright => "pyright",
            BackendKind::Ty => "ty",
            BackendKind::Pyrefly => "pyrefly",
        }
    }

    /// The executable to launch.
    pub fn command(&self) -> (program: &'static str)
        ensures
            program@ == self.command_text(),
    {
        match self {
            BackendKind::Pyright => "pyright-langserver",
            BackendKind::Ty => "ty",
            BackendKind::Pyrefly => "pyrefly",
        }
    }

    /// The fixed argument vector: exactly one argument for every kind.
    pub fn args(&self) -> (argv: Vec<&'static str>)
        ensures
            argv@.len() == 1,
            argv@[0]@ == self.argument_text(),
    {
        let mut argv: Vec<&'static str> = Vec::new();
        match self {
            BackendKind::Pyright => argv.push("--stdio"),
            BackendKind::Ty => argv.push("server"),
            BackendKind::Pyrefly => argv.push("lsp"),
        }
        argv
    }

    /// The text a formatter would show for the kind.
    pub fn to_string(&self) -> (text: String)
        ensures
            text@ == self.name_text(),
    {
        self.display_name().to_string()
    }
}

/// A variable to set in the environment of a server.
#[derive(Debug)]
pub struct EnvOverride {
    pub name: String,
    pub value: String,
}

impl BackendKind {
    /// The environment of a server for the environment `venv`: the
    /// environment is named in `VIRTUAL_ENV`, and its `bin` directory comes
    /// first in `PATH`, before `current_path`, the search path so far.
    pub fn apply_env(&self, venv: &str, current_path: &str) -> (overrides: Vec<EnvOverride>)
        ensures
            overrides@.len() == 2,
            overrides@[0].name@ == "VIRTUAL_ENV"@,
            overrides@[0].value@ == venv@,
            overrides@[1].name@ == "PATH"@,
            overrides@[1].value@ == venv@ + "/bin:"@ + current_path@,
    {
        let mut path: String = venv.to_string();
        path.append("/bin:");
        path.append(current_path);
        let mut overrides: Vec<EnvOverride> = Vec::new();
        overrides.push(EnvOverride { name: "VIRTUAL_ENV".to_string(), value: venv.to_string() });
        overrides.push(EnvOverride { name: "PATH".to_string(), value: path });
        overrides
    }
}

/// The request or notification `method` without parameters, under `id`.
pub open spec fn bare_message(id: Option<IdModel>, method: Seq<char>) -> MessageModel {
    MessageModel {
        jsonrpc: "2.0"@,
        id,
        method: Some(method),
        params: None,
        result: None,
        error: None,
    }
}

/// The `shutdown` request with the id `id`.
pub open spec fn shutdown_message(id: u64) -> MessageModel {
    bare_message(Some(IdModel::Number(id as i64)), "shutdown"@)
}

/// The `exit` notification.
pub open spec fn exit_message() -> MessageModel {
    bare_message(None, "exit"@)
}

/// Seconds that a new server is given to answer `initialize`.
pub const INITIALIZE_TIMEOUT_SECS: u64 = 10;

/// Milliseconds between the `shutdown` request and the `exit` notification
/// of a shutdown that nobody waits for.
pub const DETACHED_SHUTDOWN_PAUSE_MILLIS: u64 = 100;

/// Milliseconds that a server shut down without anybody waiting is given to
/// end before it is killed.
pub const DETACHED_EXIT_WAIT_MILLIS: u64 = 2000;

/// Seconds between two sweeps for servers that have outlived their time to
/// live.
pub const TTL_SWEEP_SECS: u64 = 60;

/// Where a graceful shutdown stands.
#[derive(Debug, Clone, Copy, PartialEq, Eq, Structural)]
pub enum ShutdownPhase {
    /// The `shutdown` request is being written.
    Requesting,
    /// The answer to the `shutdown` request is awaited, for two seconds.
    AwaitingResponse,
    /// The `exit` notification is being written.
    Notifying,
    /// The end of the process is awaited, for one second.
    AwaitingExit,
    /// The process is being killed.
    Killing,
    /// The end of the killed process is awaited, for half a second.
    AwaitingKill,
}

impl ShutdownPhase {
    /// Milliseconds that the phase may last: two seconds for the answer to
    /// `shutdown`, one second for the end of the process, half a second for
    /// the end of a killed process. The phases that write or kill do not
    /// wait.
    pub fn wait_millis(&self) -> (millis: u64)
        ensures
            millis == match self {
                ShutdownPhase::AwaitingResponse => 2000u64,
                ShutdownPhase::AwaitingExit => 1000u64,
                ShutdownPhase::AwaitingKill => 500u64,
                _ => 0u64,
            },
    {
        match self {
            ShutdownPhase::AwaitingResponse => 2000,
            ShutdownPhase::AwaitingExit => 1000,
            ShutdownPhase::AwaitingKill => 500,
            _ => 0,
        }
    }
}

/// What happened while a shutdown waited.
#[derive(Debug)]
pub enum ShutdownEvent {
    /// A write succeeded, or the kill was started.
    Done,
    /// A write failed, or the kill could not be started.
    Failed,
    /// A message was read.
    Message(RpcMessage),
    /// Reading failed.
    ReadFailed,
    /// The wait ran out.
    TimedOut,
    /// The process ended.
    Exited,
    /// Waiting for the end of the process failed; why.
    WaitFailed(String),
}

/// What a shutdown does next.
#[derive(Debug)]
pub enum ShutdownCommand {
    /// Write the message, then report `Done` or `Failed` in phase `0`.
    Send(ShutdownPhase, RpcMessage),
    /// Read a message within what is left of the phase's time, then report it.
    Read(ShutdownPhase),
    /// Wait for the process to end within the phase's time.
    Wait(ShutdownPhase),
    /// Start killing the process, then report `Done` or `Failed`.
    Kill(ShutdownPhase),
    /// The shutdown is over.
    Finish(Result<(), BackendError>),
}

/// The kinds of command, and what the kinds carry apart from texts.
pub ghost enum CommandModel {
    Send(ShutdownPhase, MessageModel),
    Read(ShutdownPhase),
    Wait(ShutdownPhase),
    Kill(ShutdownPhase),
    Finished,
    Broken,
}

impl View for ShutdownCommand {
    type V = CommandModel;

    open spec fn view(&self) -> CommandModel {
        match self {
            ShutdownCommand::Send(phase, message) => CommandModel::Send(*phase, message@),
            ShutdownCommand::Read(phase) => CommandModel::Read(*phase),
            ShutdownCommand::Wait(phase) => CommandModel::Wait(*phase),
            ShutdownCommand::Kill(phase) => CommandModel::Kill(*phase),
            ShutdownCommand::Finish(Ok(_)) => CommandModel::Finished,
            ShutdownCommand::Finish(Err(_)) => CommandModel::Broken,
        }
    }
}

/// What happened, apart from texts.
pub ghost enum EventModel {
    Done,
    Failed,
    Message(MessageModel),
    ReadFailed,
    TimedOut,
    Exited,
    WaitFailed,
}

impl View for ShutdownEvent {
    type V = EventModel;

    open spec fn view(&self) -> EventModel {
        match self {
            ShutdownEvent::Done => EventModel::Done,
            ShutdownEvent::Failed => EventModel::Failed,
            ShutdownEvent::Message(message) => EventModel::Message(message@),
            ShutdownEvent::ReadFailed => EventModel::ReadFailed,
            ShutdownEvent::TimedOut => EventModel::TimedOut,
            ShutdownEvent::Exited => EventModel::Exited,
            ShutdownEvent::WaitFailed(_) => EventModel::WaitFailed,
        }
    }
}

/// Whether `message` is the answer to the `shutdown` request with id `id`.
pub open spec fn answers_shutdown(message: MessageModel, id: u64) -> bool {
    message.is_response() && message.id == Some(IdModel::Number(id as i64))
}

/// The step that follows `event` in phase `phase` of the shutdown whose
/// request has the id `id`.
///
/// A request that cannot be written leads straight to the kill. The answer
/// is awaited among whatever else the server sends; once it has come, or
/// reading has failed or taken too long, the server is told to exit, and
/// whether or not that could be written, its end is awaited. A server that
/// does not end in time is killed.
pub open spec fn shutdown_next(phase: ShutdownPhase, event: EventModel, id: u64) -> CommandModel {
    match phase {
        ShutdownPhase::Requesting => match event {
            EventModel::Done => CommandModel::Read(ShutdownPhase::AwaitingResponse),
            _ => CommandModel::Kill(ShutdownPhase::Killing),
        },
        ShutdownPhase::AwaitingResponse => match event {
            EventModel::Message(message) => if answers_shutdown(message, id) {
                CommandModel::Send(ShutdownPhase::Notifying, exit_message())
            } else {
                CommandModel::Read(ShutdownPhase::AwaitingResponse)
            },
            _ => CommandModel::Send(ShutdownPhase::Notifying, exit_message()),
        },
        ShutdownPhase::Notifying => CommandModel::Wait(ShutdownPhase::AwaitingExit),
        ShutdownPhase::AwaitingExit => match event {
            EventModel::Exited => CommandModel::Finished,
            _ => CommandModel::Kill(ShutdownPhase::Killing),
        },
        ShutdownPhase::Killing => match event {
            EventModel::Done => CommandModel::Wait(ShutdownPhase::AwaitingKill),
            _ => CommandModel::Broken,
        },
        ShutdownPhase::AwaitingKill => match event {
            EventModel::Exited => CommandModel::Finished,
            _ => CommandModel::Broken,
        },
    }
}

/// The message `method` without parameters, under `id`.
pub fn make_bare_message(id: Option<RpcId>, method: &str) -> (message: RpcMessage)
    ensures
        message@ == bare_message(
            match id {
                Some(i) => Some(i@),
                None => None,
            },
            method@,
        ),
{
    RpcMessage {
        jsonrpc: "2.0".to_string(),
        id,
        method: Some(method.to_string()),
        params: None,
        result: None,
        error: None,
    }
}

/// The books of one server's process from its start until it is handed to
/// the pool: the id that its next request will get.
#[derive(Debug)]
pub struct LspBackend {
    pub next_id: u64,
}

impl LspBackend {
    /// The books of a server that has just been started: its first request
    /// gets the id 1.
    pub fn spawn() -> (backend: Self)
        ensures
            backend.next_id == 1,
    {
        LspBackend { next_id: 1 }
    }

    /// Hands out the id for the next request.
    pub fn next_id(&mut self) -> (id: u64)
        requires
            old(self).next_id < u64::MAX,
        ensures
            id == old(self).next_id,
            final(self).next_id == id + 1,
    {
        let id: u64 = self.next_id;
        self.next_id = self.next_id + 1;
        id
    }

    /// The id counter, for the pool to go on with.
    pub fn into_split(self) -> (next_id: u64)
        ensures
            next_id == self.next_id,
    {
        self.next_id
    }

    /// Begins a graceful shutdown: takes the next id for the `shutdown`
    /// request and has the request written.
    pub fn begin_shutdown(&mut self) -> (command: ShutdownCommand)
        requires
            old(self).next_id < u64::MAX,
        ensures
            final(self).next_id == old(self).next_id + 1,
            command@ == CommandModel::Send(
                ShutdownPhase::Requesting,
                shutdown_message(old(self).next_id),
            ),
    {
        let id: u64 = self.next_id();
        let request: RpcMessage = make_bare_message(
            Some(
                RpcId::Number(
                    #[verifier::truncate]
                    (id as i64),
                ),
            ),
            "shutdown",
        );
        ShutdownCommand::Send(ShutdownPhase::Requesting, request)
    }

    /// The next step of the graceful shutdown whose request has the id
    /// `shutdown_id`, after `event` happened in phase `phase`; see
    /// `shutdown_next`. A failure carries the reason: that the kill could not
    /// be started, that waiting for the killed process failed, or that the
    /// process outlived its kill.
    pub fn shutdown_gracefully(
        phase: ShutdownPhase,
        event: ShutdownEvent,
        shutdown_id: u64,
    ) -> (command: ShutdownCommand)
        ensures
            command@ == shutdown_next(phase, event@, shutdown_id),
            command matches ShutdownCommand::Finish(Err(e)) ==> e is SpawnFailed,
    {
        match phase {
            ShutdownPhase::Requesting => match event {
                ShutdownEvent::Done => ShutdownCommand::Read(ShutdownPhase::AwaitingResponse),
                _ => ShutdownCommand::Kill(ShutdownPhase::Killing),
            },
            ShutdownPhase::AwaitingResponse => {
                let answered: bool = match &event {
                    ShutdownEvent::Message(message) => message.is_response() && match &message.id {
                        Some(RpcId::Number(n)) => *n == #[verifier::truncate]
                        (shutdown_id as i64),
                        _ => false,
                    },
                    _ => true,
                };
                if answered {
                    ShutdownCommand::Send(ShutdownPhase::Notifying, make_bare_message(None, "exit"))
                } else {
                    ShutdownCommand::Read(ShutdownPhase::AwaitingResponse)
                }
            },
            ShutdownPhase::Notifying => ShutdownCommand::Wait(ShutdownPhase::AwaitingExit),
            ShutdownPhase::AwaitingExit => match event {
                ShutdownEvent::Exited => ShutdownCommand::Finish(Ok(())),
                _ => ShutdownCommand::Kill(ShutdownPhase::Killing),
            },
            ShutdownPhase::Killing => match event {
                ShutdownEvent::Done => ShutdownCommand::Wait(ShutdownPhase::AwaitingKill),
                _ => ShutdownCommand::Finish(
                    Err(BackendError::SpawnFailed("Failed to kill backend".to_string())),
                ),
            },
            ShutdownPhase::AwaitingKill => match event {
                ShutdownEvent::Exited => ShutdownCommand::Finish(Ok(())),
                ShutdownEvent::WaitFailed(why) => ShutdownCommand::Finish(
                    Err(BackendError::SpawnFailed(why)),
                ),
                _ => ShutdownCommand::Finish(
                    Err(BackendError::SpawnFailed("Backend kill timeout".to_string())),
                ),
            },
        }
    }
}

/// The two messages of a shutdown that nobody waits for: the `shutdown`
/// request under `next_id`, and the `exit` notification that follows it a
/// moment later.
pub fn shutdown_fire_and_forget(next_id: u64) -> (messages: (RpcMessage, RpcMessage))
    ensures
        messages.0@ == shutdown_message(next_id),
        messages.1@ == exit_message(),
{
    let request: RpcMessage = make_bare_message(
        Some(
            RpcId::Number(
                #[verifier::truncate]
                (next_id as i64),
            ),
        ),
        "shutdown",
    );
    (request, make_bare_message(None, "exit"))
}

} // verus!
