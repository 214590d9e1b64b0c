//! The lifecycle of the managed process, and the dispatch of requests.
//!
//! The service does no outside work here. An operation that needs some (a
//! process spawned, a line written to its stdin, an archive made, files
//! deleted) hands out a [`Step`]; the caller performs it while it holds the
//! service exclusively, and reports the [`Outcome`], upon which the state
//! moves on. What is decided, in which state, is decided here.
use crate::backups::{
    backups_to_remove, evictions, excess, listing_of, paths_of, readable, texts_of, Listed,
    ListedModel,
};
use crate::common::{is_letter, ran_letters};
use crate::net::{ActionModel, ActionRequest, Request, RequestModel, Responce, ResponceModel};
use crate::tokens::{authorize_token, verify_token, with_token, without, TokenStore, TOKEN_BYTES};
use vstd::prelude::*;
use vstd::slice::*;
use vstd::string::*;
use vstd::utf8::*;

verus! {

/// How many backups the backup directory keeps where nothing else is set up.
pub const BACKUPS_KEPT: usize = 10;

/// How many letters the name of an archive has.
pub const ARCHIVE_NAME_LETTERS: usize = 32;

/// What the service is set up with.
#[derive(Debug, Clone, PartialEq, Eq)]
pub struct Config {
    /// Working directory of the managed server.
    pub minecraft_directory: String,
    /// Where backups are stored, relative to the working directory.
    pub backup_directory: String,
    /// The secret that clients share with the service.
    pub key: String,
    /// The address that the service listens on.
    pub socket: String,
    /// How many backups the backup directory keeps.
    pub retention: usize,
}

/// The phase that the managed process is in. A phase that has a process
/// holds the number by which the caller knows the child.
#[derive(Debug, Clone, Copy, PartialEq, Eq, Structural)]
pub enum ServerStates {
    Idle,
    Startup { procces: u32 },
    Running { procces: u32 },
    ShutingDown { procces: u32 },
    BackingUp,
}

/// The phase alone, without what it holds.
#[derive(Debug, Clone, Copy, PartialEq, Eq, Structural)]
pub enum ServerStateNames {
    Idle,
    Startup,
    Running,
    ShutingDown,
    BackingUp,
}

/// Why an operation was refused or failed.
#[derive(Debug, Clone, Copy, PartialEq, Eq, Structural)]
pub enum StateError {
    StillRunning,
    BackupInProgress,
    NotReady,
    PerformingBackup,
    ShutingDown,
    NoStdin,
    WriteFailed,
    LaunchFailed,
    ArchiveFailed,
    Unsupported,
    OutOfTurn,
}

/// How writing a line to the child's stdin went.
#[derive(Debug, Clone, Copy, PartialEq, Eq, Structural)]
pub enum Delivery {
    Delivered,
    NoStdin,
    Failed,
}

/// Outside work that an operation waits for.
#[derive(Debug, Clone, PartialEq, Eq)]
pub enum Step {
    /// Nothing: the operation has succeeded as it stands.
    Done,
    /// Spawn the child process with a piped stdin.
    Spawn,
    /// Write `line` to the child's stdin, then wait for the child to exit.
    Halt { procces: u32, line: Vec<u8>, relaunch: bool },
    /// Write `line` to the child's stdin.
    Write { procces: u32, line: Vec<u8> },
    /// Run the archiver to make `archive`, then list the backup directory.
    Archive { archive: String },
    /// Delete the files `doomed`, as far as that succeeds.
    Evict { doomed: Vec<String>, archived: bool },
}

/// What the caller reports of a step that it performed.
#[derive(Debug, Clone, PartialEq, Eq)]
pub enum Outcome {
    /// The child that was spawned, or `None` where spawning failed.
    Spawned(Option<u32>),
    /// The child has exited; how the line to its stdin went before.
    Halted(Delivery),
    /// How the line to the child's stdin went.
    Written(Delivery),
    /// Whether the archiver ran and succeeded, and the backup directory as
    /// listed afterwards.
    Archived(bool, Vec<Listed>),
    /// The files were deleted, as far as that succeeded.
    Evicted,
}

/// What the caller does next with a connection.
#[derive(Debug, Clone, PartialEq, Eq)]
pub enum Turn {
    /// Send this response; the exchange is over.
    Reply(Responce),
    /// Perform this step, then report with [`ServerState::complete`].
    Perform(Step),
}

/// The mathematical value of a [`Step`].
pub enum StepModel {
    Done,
    Spawn,
    Halt { procces: u32, line: Seq<u8>, relaunch: bool },
    Write { procces: u32, line: Seq<u8> },
    Archive { archive: Seq<char> },
    Evict { doomed: Seq<Seq<char>>, archived: bool },
}

/// The mathematical value of an [`Outcome`].
pub enum OutcomeModel {
    Spawned(Option<u32>),
    Halted(Delivery),
    Written(Delivery),
    Archived(bool, Seq<ListedModel>),
    Evicted,
}

/// The mathematical value of a [`Turn`].
pub enum TurnModel {
    Reply(ResponceModel),
    Perform(StepModel),
}

impl View for Step {
    type V = StepModel;

    open spec fn view(&self) -> StepModel {
        match self {
            Step::Done => StepModel::Done,
            Step::Spawn => StepModel::Spawn,
            Step::Halt { procces, line, relaunch } => StepModel::Halt {
                procces: *procces,
                line: line@,
                relaunch: *relaunch,
            },
            Step::Write { procces, line } => StepModel::Write { procces: *procces, line: line@ },
            Step::Archive { archive } => StepModel::Archive { archive: archive@ },
            Step::Evict { doomed, archived } => StepModel::Evict {
                doomed: texts_of(doomed@),
                archived: *archived,
            },
        }
    }
}

impl View for Outcome {
    type V = OutcomeModel;

    open spec fn view(&self) -> OutcomeModel {
        match self {
            Outcome::Spawned(child) => OutcomeModel::Spawned(*child),
            Outcome::Halted(delivery) => OutcomeModel::Halted(*delivery),
            Outcome::Written(delivery) => OutcomeModel::Written(*delivery),
            Outcome::Archived(archived, files) => OutcomeModel::Archived(
                *archived,
                listing_of(files@),
            ),
            Outcome::Evicted => OutcomeModel::Evicted,
        }
    }
}

impl View for Turn {
    type V = TurnModel;

    open spec fn view(&self) -> TurnModel {
        match self {
            Turn::Reply(responce) => TurnModel::Reply(responce@),
            Turn::Perform(step) => TurnModel::Perform(step@),
        }
    }
}

// ---------------------------------------------------------------------------
// The rules, as functions on values
// ---------------------------------------------------------------------------

/// The line that asks the managed server to stop.
pub open spec fn stop_line() -> Seq<u8> {
    seq![10u8, 115u8, 116u8, 111u8, 112u8, 10u8]
}

/// The path of an archive of the given name in the backup directory.
pub open spec fn archive_path_of(directory: Seq<char>, name: Seq<char>) -> Seq<char> {
    directory + "/"@ + name + ".tar.gz"@
}

/// The name that an archive may get: letters only, of the set length.
pub open spec fn is_archive_name(name: Seq<char>) -> bool {
    &&& name.len() == ARCHIVE_NAME_LETTERS
    &&& forall|i: int| 0 <= i < name.len() ==> is_letter(#[trigger] name[i])
}

/// The message of the response to an action whose token was not outstanding.
pub open spec fn not_verified() -> Seq<char> {
    "not verified"@
}

/// The value of a decision.
pub open spec fn decision_of(decision: Result<Step, StateError>) -> Result<
    StepModel,
    StateError,
> {
    match decision {
        Ok(step) => Ok(step@),
        Err(e) => Err(e),
    }
}

/// The process that a phase holds.
pub open spec fn process_of(state: ServerStates) -> Option<u32> {
    match state {
        ServerStates::Startup { procces } => Some(procces),
        ServerStates::Running { procces } => Some(procces),
        ServerStates::ShutingDown { procces } => Some(procces),
        _ => None,
    }
}

/// The phase after the liveness check: a process that has exited leaves the
/// service idle.
pub open spec fn checked(state: ServerStates, exited: bool) -> ServerStates {
    if exited && process_of(state) is Some {
        ServerStates::Idle
    } else {
        state
    }
}

/// The response that reports a result.
pub open spec fn responce_for(result: Result<(), StateError>) -> ResponceModel {
    match result {
        Ok(()) => ResponceModel::Success,
        Err(e) => ResponceModel::Error(e.text()),
    }
}

/// The turn that follows a decision: the step to perform, or the response
/// where nothing is left to do or the operation was refused.
pub open spec fn turn_of(decision: Result<StepModel, StateError>) -> TurnModel {
    match decision {
        Ok(StepModel::Done) => TurnModel::Reply(ResponceModel::Success),
        Ok(step) => TurnModel::Perform(step),
        Err(e) => TurnModel::Reply(ResponceModel::Error(e.text())),
    }
}

/// Launch: an idle service is to spawn the process; one whose process is
/// starting or running is satisfied; one that is backing up or shutting down
/// refuses.
pub open spec fn launch_rule(state: ServerStates) -> Result<StepModel, StateError> {
    match state {
        ServerStates::Idle => Ok(StepModel::Spawn),
        ServerStates::Running { .. } | ServerStates::Startup { .. } => Ok(StepModel::Done),
        ServerStates::BackingUp => Err(StateError::PerformingBackup),
        ServerStates::ShutingDown { .. } => Err(StateError::ShutingDown),
    }
}

/// The phase after a spawn was reported, and the result of the launch.
pub open spec fn launched_rule(state: ServerStates, child: Option<u32>) -> (
    ServerStates,
    Result<(), StateError>,
) {
    match (state, child) {
        (ServerStates::Idle, Some(procces)) => (ServerStates::Running { procces }, Ok(())),
        (ServerStates::Idle, None) => (ServerStates::Idle, Err(StateError::LaunchFailed)),
        _ => (state, Err(StateError::OutOfTurn)),
    }
}

/// Stop: a service with a process is shutting down from now on, and the stop
/// line is to be written to the process; a service without one has nothing
/// to do.
pub open spec fn stop_rule(state: ServerStates, relaunch: bool) -> (ServerStates, StepModel) {
    match process_of(state) {
        Some(procces) => (
            ServerStates::ShutingDown { procces },
            StepModel::Halt { procces, line: stop_line(), relaunch },
        ),
        None => (state, StepModel::Done),
    }
}

/// What a delivery means for the operation that asked for it.
pub open spec fn delivery_rule(delivery: Delivery) -> Result<(), StateError> {
    match delivery {
        Delivery::Delivered => Ok(()),
        Delivery::NoStdin => Err(StateError::NoStdin),
        Delivery::Failed => Err(StateError::WriteFailed),
    }
}

/// The phase after the child's exit was reported, and the result of the
/// stop: the service is idle however the delivery went.
pub open spec fn stopped_rule(state: ServerStates, delivery: Delivery) -> (
    ServerStates,
    Result<(), StateError>,
) {
    match state {
        ServerStates::ShutingDown { .. } => (ServerStates::Idle, delivery_rule(delivery)),
        _ => (state, Err(StateError::OutOfTurn)),
    }
}

/// Restart: a stop after which a launch follows; where there is no process
/// to stop, the launch is decided at once.
pub open spec fn restart_rule(state: ServerStates) -> (
    ServerStates,
    Result<StepModel, StateError>,
) {
    match process_of(state) {
        Some(_) => (stop_rule(state, true).0, Ok(stop_rule(state, true).1)),
        None => (state, launch_rule(state)),
    }
}

/// The launch that follows the stop of a restart: the error of a failed stop
/// stands; after a stop that succeeded the launch is decided.
pub open spec fn relaunch_rule(state: ServerStates, stopped: Result<(), StateError>) -> Result<
    StepModel,
    StateError,
> {
    match stopped {
        Err(e) => Err(e),
        Ok(()) => launch_rule(state),
    }
}

/// Command: its text is to be written to the stdin of a running process; in
/// any other phase the command is refused.
pub open spec fn command_rule(state: ServerStates, line: Seq<u8>) -> Result<
    StepModel,
    StateError,
> {
    match state {
        ServerStates::Running { procces } => Ok(StepModel::Write { procces, line }),
        _ => Err(StateError::NotReady),
    }
}

/// Backup: an idle service is backing up from now on, and the archive is to
/// be made; a service with a process, or with a backup in progress, refuses.
pub open spec fn backup_rule(state: ServerStates, archive: Seq<char>) -> (
    ServerStates,
    Result<StepModel, StateError>,
) {
    match state {
        ServerStates::Idle => (ServerStates::BackingUp, Ok(StepModel::Archive { archive })),
        ServerStates::BackingUp => (state, Err(StateError::BackupInProgress)),
        _ => (state, Err(StateError::StillRunning)),
    }
}

/// The step that follows the archiver, with the backup directory as listed
/// afterwards: the files that the retention rule gives up, so that no more
/// than `retention` entries stay, are to be deleted. Only a service that is
/// backing up has an archiver to hear of.
pub open spec fn archived_rule(
    state: ServerStates,
    retention: nat,
    archived: bool,
    files: Seq<ListedModel>,
) -> Result<StepModel, StateError> {
    match state {
        ServerStates::BackingUp => Ok(
            StepModel::Evict {
                doomed: paths_of(
                    evictions(readable(files), excess(files.len(), retention)),
                ),
                archived,
            },
        ),
        _ => Err(StateError::OutOfTurn),
    }
}

/// The phase after a backup's last step was reported, and the result of the
/// backup: the service is idle whether the archiver succeeded or not.
pub open spec fn backed_up_rule(state: ServerStates, archived: bool) -> (
    ServerStates,
    Result<(), StateError>,
) {
    match state {
        ServerStates::BackingUp => (
            ServerStates::Idle,
            if archived {
                Ok(())
            } else {
                Err(StateError::ArchiveFailed)
            },
        ),
        _ => (state, Err(StateError::OutOfTurn)),
    }
}

/// What an action begins with, in the phase that the liveness check left:
/// the next phase and the decision. `archive` is the path that a backup
/// would write to.
pub open spec fn begin_rule(state: ServerStates, action: ActionModel, archive: Seq<char>) -> (
    ServerStates,
    Result<StepModel, StateError>,
) {
    match action {
        ActionModel::Launch => (state, launch_rule(state)),
        ActionModel::Stop => (stop_rule(state, false).0, Ok(stop_rule(state, false).1)),
        ActionModel::Restart => restart_rule(state),
        ActionModel::Backup => backup_rule(state, archive),
        ActionModel::Command(text) => (state, command_rule(state, encode_utf8(text))),
        ActionModel::Download => (state, Err(StateError::Unsupported)),
    }
}

/// What becomes of an action: one whose token was not outstanding is
/// answered "not verified" and changes nothing; for one whose token was, the
/// liveness check is applied and the action begins.
pub open spec fn action_rule(
    state: ServerStates,
    outstanding: bool,
    exited: bool,
    action: ActionModel,
    archive: Seq<char>,
) -> (ServerStates, TurnModel) {
    if outstanding {
        let begun = begin_rule(checked(state, exited), action, archive);
        (begun.0, turn_of(begun.1))
    } else {
        (state, TurnModel::Reply(ResponceModel::Error(not_verified())))
    }
}

/// What the report of a step leads to: the next phase and the next turn. A
/// report that does not answer the step is out of turn and changes nothing.
/// `retention` is how many backups the backup directory keeps.
pub open spec fn complete_rule(
    state: ServerStates,
    retention: nat,
    step: StepModel,
    outcome: OutcomeModel,
) -> (ServerStates, TurnModel) {
    match (step, outcome) {
        (StepModel::Spawn, OutcomeModel::Spawned(child)) => (
            launched_rule(state, child).0,
            TurnModel::Reply(responce_for(launched_rule(state, child).1)),
        ),
        (StepModel::Halt { relaunch, .. }, OutcomeModel::Halted(delivery)) => {
            let after = stopped_rule(state, delivery);
            if relaunch {
                (after.0, turn_of(relaunch_rule(after.0, after.1)))
            } else {
                (after.0, TurnModel::Reply(responce_for(after.1)))
            }
        },
        (StepModel::Write { .. }, OutcomeModel::Written(delivery)) => (
            state,
            TurnModel::Reply(responce_for(delivery_rule(delivery))),
        ),
        (StepModel::Archive { .. }, OutcomeModel::Archived(archived, files)) => (
            state,
            turn_of(archived_rule(state, retention, archived, files)),
        ),
        (StepModel::Evict { archived, .. }, OutcomeModel::Evicted) => (
            backed_up_rule(state, archived).0,
            TurnModel::Reply(responce_for(backed_up_rule(state, archived).1)),
        ),
        _ => (state, TurnModel::Reply(ResponceModel::Error(StateError::OutOfTurn.text()))),
    }
}

// ---------------------------------------------------------------------------
// Laws of the rules
// ---------------------------------------------------------------------------

/// Of two backups asked for one after the other at an idle service, the
/// first begins and the second, which finds the first in progress, is
/// refused and changes nothing.
pub proof fn backups_exclude_each_other(first: Seq<char>, second: Seq<char>)
    ensures
        backup_rule(ServerStates::Idle, first) == (
            ServerStates::BackingUp,
            Ok::<StepModel, StateError>(StepModel::Archive { archive: first }),
        ),
        backup_rule(backup_rule(ServerStates::Idle, first).0, second) == (
            ServerStates::BackingUp,
            Err::<StepModel, StateError>(StateError::BackupInProgress),
        ),
{
}

/// While a backup is in progress, no action but a stop, which has nothing to
/// do, is let through: launch, restart, command and backup are refused, and
/// the phase stays.
pub proof fn backup_shuts_out_actions(action: ActionModel, archive: Seq<char>)
    ensures
        begin_rule(ServerStates::BackingUp, action, archive).0 == ServerStates::BackingUp,
        action is Stop ==> begin_rule(ServerStates::BackingUp, action, archive).1 == Ok::<
            StepModel,
            StateError,
        >(StepModel::Done),
        !(action is Stop) ==> begin_rule(ServerStates::BackingUp, action, archive).1 is Err,
{
}

/// A backup always gives the service back idle, whether the archiver
/// succeeded or not.
pub proof fn backup_returns_to_idle(archive: Seq<char>, archived: bool)
    ensures
        backed_up_rule(backup_rule(ServerStates::Idle, archive).0, archived).0
            == ServerStates::Idle,
{
}

/// The phase after a whole stop: asked for, performed, reported.
pub open spec fn after_stop(state: ServerStates, delivery: Delivery) -> ServerStates {
    match stop_rule(state, false).1 {
        StepModel::Done => stop_rule(state, false).0,
        _ => stopped_rule(stop_rule(state, false).0, delivery).0,
    }
}

/// A stop at an idle service succeeds and changes nothing. A whole stop
/// leaves any service idle that is not backing up, however the delivery
/// went, and a second stop after it finds the service idle and leaves it so.
pub proof fn stop_ends_idle(state: ServerStates, first: Delivery, second: Delivery)
    requires
        state != ServerStates::BackingUp,
    ensures
        stop_rule(ServerStates::Idle, false) == (ServerStates::Idle, StepModel::Done),
        after_stop(state, first) == ServerStates::Idle,
        after_stop(after_stop(state, first), second) == ServerStates::Idle,
{
}

/// A backup is refused with "still running" while the service has a
/// process, and the phase stays what it was.
pub proof fn backup_refused_while_running(state: ServerStates, archive: Seq<char>)
    requires
        process_of(state) is Some,
    ensures
        backup_rule(state, archive) == (
            state,
            Err::<StepModel, StateError>(StateError::StillRunning),
        ),
{
}

// ---------------------------------------------------------------------------
// The service
// ---------------------------------------------------------------------------

impl StateError {
    /// The message that a client is shown.
    pub open spec fn text(&self) -> Seq<char> {
        match self {
            StateError::StillRunning => "Server still running"@,
            StateError::BackupInProgress => "Another backup is in progress"@,
            StateError::NotReady => "Server not ready to receive commands"@,
            StateError::PerformingBackup => "Server performing backup"@,
            StateError::ShutingDown => "Server shutting down"@,
            StateError::NoStdin => "Unable to get childs stdin"@,
            StateError::WriteFailed => "Unable to write to childs stdin"@,
            StateError::LaunchFailed => "Unable to launch the server"@,
            StateError::ArchiveFailed => "Unable to archive the world"@,
            StateError::Unsupported => "Download is not available"@,
            StateError::OutOfTurn => "Step reported out of turn"@,
        }
    }

    /// The message that a client is shown.
    pub fn message(&self) -> (message: String)
        ensures
            message@ == self.text(),
    {
        match self {
            StateError::StillRunning => "Server still running".to_owned(),
            StateError::BackupInProgress => "Another backup is in progress".to_owned(),
            StateError::NotReady => "Server not ready to receive commands".to_owned(),
            StateError::PerformingBackup => "Server performing backup".to_owned(),
            StateError::ShutingDown => "Server shutting down".to_owned(),
            StateError::NoStdin => "Unable to get childs stdin".to_owned(),
            StateError::WriteFailed => "Unable to write to childs stdin".to_owned(),
            StateError::LaunchFailed => "Unable to launch the server".to_owned(),
            StateError::ArchiveFailed => "Unable to archive the world".to_owned(),
            StateError::Unsupported => "Download is not available".to_owned(),
            StateError::OutOfTurn => "Step reported out of turn".to_owned(),
        }
    }
}

impl ServerStateNames {
    /// The name of a phase.
    pub open spec fn of(state: ServerStates) -> ServerStateNames {
        match state {
            ServerStates::Idle => ServerStateNames::Idle,
            ServerStates::Startup { .. } => ServerStateNames::Startup,
            ServerStates::Running { .. } => ServerStateNames::Running,
            ServerStates::ShutingDown { .. } => ServerStateNames::ShutingDown,
            ServerStates::BackingUp => ServerStateNames::BackingUp,
        }
    }

    /// The name of a phase.
    pub fn from(state: &ServerStates) -> (name: ServerStateNames)
        ensures
            name == ServerStateNames::of(*state),
    {
        match state {
            ServerStates::Idle => ServerStateNames::Idle,
            ServerStates::Startup { .. } => ServerStateNames::Startup,
            ServerStates::Running { .. } => ServerStateNames::Running,
            ServerStates::ShutingDown { .. } => ServerStateNames::ShutingDown,
            ServerStates::BackingUp => ServerStateNames::BackingUp,
        }
    }
}

/// The path of an archive of the given name in the backup directory.
pub fn archive_path(directory: &str, name: &str) -> (path: String)
    ensures
        path@ == archive_path_of(directory@, name@),
{
    let mut path = directory.to_owned();
    path.append("/");
    path.append(name);
    path.append(".tar.gz");
    path
}

/// The response that reports a result.
pub fn respond(result: Result<(), StateError>) -> (responce: Responce)
    ensures
        responce@ == responce_for(result),
{
    match result {
        Ok(()) => Responce::Success,
        Err(e) => Responce::Error(e.message()),
    }
}

/// The turn that follows a decision.
pub fn turn_for(decision: Result<Step, StateError>) -> (turn: Turn)
    ensures
        turn@ == turn_of(decision_of(decision)),
{
    match decision {
        Ok(Step::Done) => Turn::Reply(Responce::Success),
        Ok(step) => Turn::Perform(step),
        Err(e) => Turn::Reply(Responce::Error(e.message())),
    }
}

/// The service: the phase of the managed process, the configuration, and
/// the outstanding tokens.
#[derive(Debug)]
pub struct ServerState {
    pub state: ServerStates,
    pub config: Config,
    pub tokens: TokenStore,
}

impl ServerState {
    /// The invariant of the service: that of its token store.
    pub open spec fn wf(&self) -> bool {
        self.tokens.wf()
    }

    /// Everything but the phase is as in `before`.
    pub open spec fn same_but_state(&self, before: &ServerState) -> bool {
        &&& self.config == before.config
        &&& self.tokens == before.tokens
    }

    /// An idle service with no token outstanding.
    pub fn new(config: Config, token_capacity: usize) -> (server: ServerState)
        ensures
            server.wf(),
            server.state == ServerStates::Idle,
            server.config == config,
            server.tokens@ == Seq::<Seq<u8>>::empty(),
            server.tokens.capacity_spec() == token_capacity,
    {
        ServerState { state: ServerStates::Idle, config, tokens: TokenStore::new(token_capacity) }
    }

    /// The process to poll for the liveness check, if the phase has one.
    pub fn polled(&self) -> (procces: Option<u32>)
        ensures
            procces == process_of(self.state),
    {
        match self.state {
            ServerStates::Startup { procces } => Some(procces),
            ServerStates::Running { procces } => Some(procces),
            ServerStates::ShutingDown { procces } => Some(procces),
            _ => None,
        }
    }

    /// The liveness check: where the phase has a process and the poll found
    /// that it has exited, the service is idle.
    pub fn check_stop(&mut self, exited: bool)
        ensures
            final(self).state == checked(old(self).state, exited),
            final(self).same_but_state(old(self)),
    {
        if exited && self.polled().is_some() {
            self.state = ServerStates::Idle;
        }
    }

    /// The phase that the service is in.
    pub fn get_state(&self) -> (name: ServerStateNames)
        ensures
            name == ServerStateNames::of(self.state),
    {
        ServerStateNames::from(&self.state)
    }

    /// Asks for a launch. The phase stays until the spawn is reported.
    pub fn launch(&self) -> (decision: Result<Step, StateError>)
        ensures
            decision_of(decision) == launch_rule(self.state),
    {
        match self.state {
            ServerStates::Idle => Ok(Step::Spawn),
            ServerStates::Running { .. } | ServerStates::Startup { .. } => Ok(Step::Done),
            ServerStates::BackingUp => Err(StateError::PerformingBackup),
            ServerStates::ShutingDown { .. } => Err(StateError::ShutingDown),
        }
    }

    /// Takes the report of a spawn: the process runs, or the launch failed
    /// and the service stays idle.
    pub fn launched(&mut self, child: Option<u32>) -> (result: Result<(), StateError>)
        ensures
            (final(self).state, result) == launched_rule(old(self).state, child),
            final(self).same_but_state(old(self)),
    {
        match (self.state, child) {
            (ServerStates::Idle, Some(procces)) => {
                self.state = ServerStates::Running { procces };
                Ok(())
            },
            (ServerStates::Idle, None) => Err(StateError::LaunchFailed),
            _ => Err(StateError::OutOfTurn),
        }
    }

    fn halt(&mut self, relaunch: bool) -> (step: Step)
        ensures
            (final(self).state, step@) == stop_rule(old(self).state, relaunch),
            final(self).same_but_state(old(self)),
    {
        match self.polled() {
            Some(procces) => {
                self.state = ServerStates::ShutingDown { procces };
                let line: Vec<u8> = vec![10u8, 115u8, 116u8, 111u8, 112u8, 10u8];
                assert(line@ =~= stop_line());
                Step::Halt { procces, line, relaunch }
            },
            None => Step::Done,
        }
    }

    /// Asks for a stop: the stop line is to be written to the stdin of the
    /// process, whose exit is then awaited.
    pub fn stop(&mut self) -> (step: Step)
        ensures
            (final(self).state, step@) == stop_rule(old(self).state, false),
            final(self).same_but_state(old(self)),
    {
        self.halt(false)
    }

    /// Takes the report that the child has exited: the service is idle, and
    /// the stop has failed only where the stop line could not be written.
    pub fn stopped(&mut self, delivery: Delivery) -> (result: Result<(), StateError>)
        ensures
            (final(self).state, result) == stopped_rule(old(self).state, delivery),
            final(self).same_but_state(old(self)),
    {
        match self.state {
            ServerStates::ShutingDown { .. } => {
                self.state = ServerStates::Idle;
                Self::command_sent(delivery)
            },
            _ => Err(StateError::OutOfTurn),
        }
    }

    /// Asks for a restart: a stop, after which a launch follows.
    pub fn restart(&mut self) -> (decision: Result<Step, StateError>)
        ensures
            (final(self).state, decision_of(decision)) == restart_rule(old(self).state),
            final(self).same_but_state(old(self)),
    {
        match self.polled() {
            Some(_) => Ok(self.halt(true)),
            None => self.launch(),
        }
    }

    /// Decides the launch that follows the stop of a restart.
    pub fn relaunch(&self, stopped: Result<(), StateError>) -> (decision: Result<
        Step,
        StateError,
    >)
        ensures
            decision_of(decision) == relaunch_rule(self.state, stopped),
    {
        match stopped {
            Err(e) => Err(e),
            Ok(()) => self.launch(),
        }
    }

    /// Asks for a command to be run: its text is to be written to the stdin
    /// of the running process.
    pub fn run_command(&self, cmd: &str) -> (decision: Result<Step, StateError>)
        ensures
            decision_of(decision) == command_rule(self.state, encode_utf8(cmd@)),
    {
        match self.state {
            ServerStates::Running { procces } => Ok(
                Step::Write { procces, line: slice_to_vec(cmd.as_bytes()) },
            ),
            _ => Err(StateError::NotReady),
        }
    }

    /// What a delivery means for the operation that asked for it.
    pub fn command_sent(delivery: Delivery) -> (result: Result<(), StateError>)
        ensures
            result == delivery_rule(delivery),
    {
        match delivery {
            Delivery::Delivered => Ok(()),
            Delivery::NoStdin => Err(StateError::NoStdin),
            Delivery::Failed => Err(StateError::WriteFailed),
        }
    }

    /// Asks for a backup into the archive `archive`.
    pub fn backup_into(&mut self, archive: String) -> (decision: Result<Step, StateError>)
        ensures
            (final(self).state, decision_of(decision)) == backup_rule(old(self).state, archive@),
            final(self).same_but_state(old(self)),
    {
        match self.state {
            ServerStates::Idle => {
                self.state = ServerStates::BackingUp;
                Ok(Step::Archive { archive })
            },
            ServerStates::BackingUp => Err(StateError::BackupInProgress),
            _ => Err(StateError::StillRunning),
        }
    }

    /// Asks for a backup: the archive gets a fresh random name in the backup
    /// directory.
    pub fn backup(&mut self) -> (decision: Result<Step, StateError>)
        ensures
            final(self).same_but_state(old(self)),
            exists|name: Seq<char>|
                #![trigger is_archive_name(name)]
                is_archive_name(name) && (final(self).state, decision_of(decision)) == backup_rule(
                    old(self).state,
                    archive_path_of(old(self).config.backup_directory@, name),
                ),
    {
        let name = ran_letters(ARCHIVE_NAME_LETTERS);
        let archive = archive_path(self.config.backup_directory.as_str(), name.as_str());
        assert(is_archive_name(name@));
        self.backup_into(archive)
    }

    /// Takes the report that the archiver is through, with the backup
    /// directory as listed afterwards.
    pub fn archived(&self, archived: bool, files: &Vec<Listed>) -> (decision: Result<
        Step,
        StateError,
    >)
        ensures
            decision_of(decision) == archived_rule(
                self.state,
                self.config.retention as nat,
                archived,
                listing_of(files@),
            ),
    {
        match self.state {
            ServerStates::BackingUp => Ok(
                Step::Evict { doomed: backups_to_remove(files, self.config.retention), archived },
            ),
            _ => Err(StateError::OutOfTurn),
        }
    }

    /// Takes the report of a backup's last step: the service is idle again,
    /// and the backup has failed where the archiver did.
    pub fn backed_up(&mut self, archived: bool) -> (result: Result<(), StateError>)
        ensures
            (final(self).state, result) == backed_up_rule(old(self).state, archived),
            final(self).same_but_state(old(self)),
    {
        match self.state {
            ServerStates::BackingUp => {
                self.state = ServerStates::Idle;
                if archived {
                    Ok(())
                } else {
                    Err(StateError::ArchiveFailed)
                }
            },
            _ => Err(StateError::OutOfTurn),
        }
    }

    /// Begins an action in the phase that the liveness check left.
    pub fn begin(&mut self, action: &ActionRequest) -> (decision: Result<Step, StateError>)
        ensures
            final(self).same_but_state(old(self)),
            exists|name: Seq<char>|
                #![trigger is_archive_name(name)]
                is_archive_name(name) && (final(self).state, decision_of(decision)) == begin_rule(
                    old(self).state,
                    action@,
                    archive_path_of(old(self).config.backup_directory@, name),
                ),
    {
        match action {
            ActionRequest::Backup => self.backup(),
            _ => {
                let decision = match action {
                    ActionRequest::Launch => self.launch(),
                    ActionRequest::Stop => Ok(self.stop()),
                    ActionRequest::Restart => self.restart(),
                    ActionRequest::Command(text) => self.run_command(text.as_str()),
                    _ => Err(StateError::Unsupported),
                };
                proof {
                    let name = Seq::new(ARCHIVE_NAME_LETTERS as nat, |i: int| 'A');
                    assert(is_archive_name(name));
                }
                decision
            },
        }
    }

    /// Handles the request of one connection. `exited` is what the poll of
    /// the process found, if the phase has one. A ping is answered with a
    /// ping; an authentication with a fresh token, which is outstanding from
    /// now on; an action uses its token up and, where that was outstanding,
    /// begins.
    pub fn handle_connection(&mut self, request: Request, exited: bool) -> (turn: Turn)
        requires
            old(self).wf(),
        ensures
            final(self).wf(),
            final(self).config == old(self).config,
            final(self).tokens.capacity_spec() == old(self).tokens.capacity_spec(),
            match request@ {
                RequestModel::Ping => {
                    &&& turn@ == TurnModel::Reply(ResponceModel::Ping)
                    &&& final(self).state == old(self).state
                    &&& final(self).tokens@ == old(self).tokens@
                },
                RequestModel::Auth => {
                    &&& final(self).state == old(self).state
                    &&& match turn@ {
                        TurnModel::Reply(ResponceModel::AuthToken(token)) => {
                            &&& token.len() == TOKEN_BYTES
                            &&& final(self).tokens@ == with_token(
                                old(self).tokens@,
                                old(self).tokens.capacity_spec(),
                                token,
                            )
                            &&& old(self).tokens.capacity_spec() > 0
                                ==> final(self).tokens@.contains(token)
                        },
                        _ => false,
                    }
                },
                RequestModel::Action(token, action) => {
                    &&& final(self).tokens@ == without(old(self).tokens@, token)
                    &&& exists|name: Seq<char>|
                        #![trigger is_archive_name(name)]
                        is_archive_name(name) && (final(self).state, turn@) == action_rule(
                            old(self).state,
                            old(self).tokens@.contains(token),
                            exited,
                            action,
                            archive_path_of(old(self).config.backup_directory@, name),
                        )
                },
            },
    {
        match request {
            Request::Ping => Turn::Reply(Responce::Ping),
            Request::Auth => Turn::Reply(Responce::AuthToken(authorize_token(&mut self.tokens))),
            Request::Action(token, action) => {
                if verify_token(token, &mut self.tokens) {
                    self.check_stop(exited);
                    let decision = self.begin(&action);
                    turn_for(decision)
                } else {
                    proof {
                        let name = Seq::new(ARCHIVE_NAME_LETTERS as nat, |i: int| 'A');
                        assert(is_archive_name(name));
                    }
                    Turn::Reply(Responce::Error("not verified".to_owned()))
                }
            },
        }
    }

    /// Takes the report of a step that was performed, and says what comes
    /// next.
    pub fn complete(&mut self, step: Step, outcome: Outcome) -> (turn: Turn)
        ensures
            (final(self).state, turn@) == complete_rule(
                old(self).state,
                old(self).config.retention as nat,
                step@,
                outcome@,
            ),
            final(self).same_but_state(old(self)),
    {
        match (step, outcome) {
            (Step::Spawn, Outcome::Spawned(child)) => Turn::Reply(respond(self.launched(child))),
            (Step::Halt { relaunch, .. }, Outcome::Halted(delivery)) => {
                let result = self.stopped(delivery);
                if relaunch {
                    turn_for(self.relaunch(result))
                } else {
                    Turn::Reply(respond(result))
                }
            },
            (Step::Write { .. }, Outcome::Written(delivery)) => Turn::Reply(
                respond(Self::command_sent(delivery)),
            ),
            (Step::Archive { .. }, Outcome::Archived(archived, files)) => turn_for(
                self.archived(archived, &files),
            ),
            (Step::Evict { archived, .. }, Outcome::Evicted) => Turn::Reply(
                respond(self.backed_up(archived)),
            ),
            _ => Turn::Reply(Responce::Error(StateError::OutOfTurn.message())),
        }
    }
}

} // verus!
