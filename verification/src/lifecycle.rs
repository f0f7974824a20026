//! Shard lifecycle: running, draining (no new connections, waiting for the
//! last client to leave) and stopped.

use vstd::prelude::*;

verus! {

/// Phase of a shard's lifecycle.
#[derive(Debug, Clone, Copy, PartialEq, Eq, Structural)]
pub enum ServerLifecyclePhase {
    Running,
    Draining,
    Stopped,
}

/// Published lifecycle state of a shard.
#[derive(Debug, Clone)]
pub struct ServerLifecycleState {
    pub shard_id: String,
    pub phase: ServerLifecyclePhase,
    pub accepting_new_connections: bool,
    pub latest_tick: u64,
    pub reason: Option<String>,
}

/// Runtime command sent to a shard's lifecycle control.
#[derive(Debug, Clone)]
pub enum ServerLifecycleCommand {
    BeginDrain { reason: String },
    Shutdown { reason: String },
}

/// What one command did to the lifecycle state.
#[derive(Debug, Clone, Copy, PartialEq, Eq, Structural)]
pub enum LifecycleStep {
    /// The command was ignored (a drain request after shutdown).
    Unchanged,
    /// The state changed and should be published; the shard keeps running.
    Changed,
    /// The state changed to stopped: publish it, disconnect every client and
    /// stop the server loop.
    Stop,
}

/// Mathematical value of a lifecycle state.
pub struct LifecycleView {
    pub shard_id: Seq<char>,
    pub phase: ServerLifecyclePhase,
    pub accepting_new_connections: bool,
    pub latest_tick: u64,
    pub reason: Option<Seq<char>>,
}

/// The view of an optional string.
pub open spec fn opt_text(text: Option<String>) -> Option<Seq<char>> {
    match text {
        Some(t) => Some(t@),
        None => None,
    }
}

impl View for ServerLifecycleState {
    type V = LifecycleView;

    open spec fn view(&self) -> LifecycleView {
        LifecycleView {
            shard_id: self.shard_id@,
            phase: self.phase,
            accepting_new_connections: self.accepting_new_connections,
            latest_tick: self.latest_tick,
            reason: opt_text(self.reason),
        }
    }
}

/// The reason carried by a command.
pub open spec fn command_reason(command: ServerLifecycleCommand) -> Seq<char> {
    match command {
        ServerLifecycleCommand::BeginDrain { reason } => reason@,
        ServerLifecycleCommand::Shutdown { reason } => reason@,
    }
}

/// The state after applying `command` at `tick`: a drain request is ignored
/// once stopped; otherwise both commands close the shard to new connections,
/// stamp the tick and record the reason.
pub open spec fn spec_after_command(
    state: LifecycleView,
    command: ServerLifecycleCommand,
    tick: u64,
) -> LifecycleView {
    match command {
        ServerLifecycleCommand::BeginDrain { reason } => {
            if state.phase == ServerLifecyclePhase::Stopped {
                state
            } else {
                LifecycleView {
                    phase: ServerLifecyclePhase::Draining,
                    accepting_new_connections: false,
                    latest_tick: tick,
                    reason: Some(reason@),
                    ..state
                }
            }
        },
        ServerLifecycleCommand::Shutdown { reason } => LifecycleView {
            phase: ServerLifecyclePhase::Stopped,
            accepting_new_connections: false,
            latest_tick: tick,
            reason: Some(reason@),
            ..state
        },
    }
}

/// What `command` reports when applied to a state in `phase`.
pub open spec fn spec_step(phase: ServerLifecyclePhase, command: ServerLifecycleCommand) -> LifecycleStep {
    match command {
        ServerLifecycleCommand::BeginDrain { .. } => {
            if phase == ServerLifecyclePhase::Stopped {
                LifecycleStep::Unchanged
            } else {
                LifecycleStep::Changed
            }
        },
        ServerLifecycleCommand::Shutdown { .. } => LifecycleStep::Stop,
    }
}

/// The state after a batch of commands, applied in order up to and
/// including the first shutdown; the flag says whether a shutdown was met.
pub open spec fn spec_after_commands(
    state: LifecycleView,
    commands: Seq<ServerLifecycleCommand>,
    tick: u64,
) -> (LifecycleView, bool)
    decreases commands.len(),
{
    if commands.len() == 0 {
        (state, false)
    } else {
        let next = spec_after_command(state, commands[0], tick);
        if commands[0] is Shutdown {
            (next, true)
        } else {
            spec_after_commands(next, commands.drop_first(), tick)
        }
    }
}

/// The state after the drain check: a draining shard with no clients left
/// stops at `tick`; anything else is unchanged.
pub open spec fn spec_after_drain_check(state: LifecycleView, client_count: nat, tick: u64) -> LifecycleView {
    if state.phase == ServerLifecyclePhase::Draining && client_count == 0 {
        LifecycleView { phase: ServerLifecyclePhase::Stopped, latest_tick: tick, ..state }
    } else {
        state
    }
}

/// Consistency of a lifecycle state: only a running shard accepts new
/// connections.
pub open spec fn lifecycle_consistent(state: LifecycleView) -> bool {
    state.accepting_new_connections ==> state.phase == ServerLifecyclePhase::Running
}

impl ServerLifecycleState {
    /// The initial state of a shard: running, accepting connections, at
    /// tick 0, with no reason recorded.
    pub fn running(shard_id: String) -> (res: Self)
        ensures
            res@.shard_id == shard_id@,
            res@.phase == ServerLifecyclePhase::Running,
            res@.accepting_new_connections,
            res@.latest_tick == 0,
            res@.reason is None,
    {
        ServerLifecycleState {
            shard_id,
            phase: ServerLifecyclePhase::Running,
            accepting_new_connections: true,
            latest_tick: 0,
            reason: None,
        }
    }

    /// Applies one runtime command at server tick `tick`.
    pub fn apply_command(&mut self, command: ServerLifecycleCommand, tick: u64) -> (step: LifecycleStep)
        ensures
            final(self)@ == spec_after_command(old(self)@, command, tick),
            step == spec_step(old(self).phase, command),
    {
        match command {
            ServerLifecycleCommand::BeginDrain { reason } => {
                if self.phase == ServerLifecyclePhase::Stopped {
                    return LifecycleStep::Unchanged;
                }
                self.phase = ServerLifecyclePhase::Draining;
                self.accepting_new_connections = false;
                self.latest_tick = tick;
                self.reason = Some(reason);
                LifecycleStep::Changed
            },
            ServerLifecycleCommand::Shutdown { reason } => {
                self.phase = ServerLifecyclePhase::Stopped;
                self.accepting_new_connections = false;
                self.latest_tick = tick;
                self.reason = Some(reason);
                LifecycleStep::Stop
            },
        }
    }

    /// Applies queued commands in order at server tick `tick`, stopping at
    /// the first shutdown (later commands are dropped). Returns whether the
    /// server must stop.
    pub fn apply_lifecycle_commands(&mut self, commands: Vec<ServerLifecycleCommand>, tick: u64) -> (stop: bool)
        ensures
            final(self)@ == spec_after_commands(old(self)@, commands@, tick).0,
            stop == spec_after_commands(old(self)@, commands@, tick).1,
    {
        let ghost original = old(self)@;
        let ghost all = commands@;
        assert(all.skip(0) =~= all);
        for command in it: commands.into_iter()
            invariant
                it.seq() == all,
                original == old(self)@,
                all == commands@,
                spec_after_commands(original, all, tick) == spec_after_commands(
                    self@,
                    all.skip(it.index() as int),
                    tick,
                ),
        {
            let ghost rest = all.skip(it.index() as int);
            proof {
                assert(it.index() < all.len());
                assert(command == rest[0]);
                assert(rest.drop_first() =~= all.skip(it.index() + 1));
            }
            let step = self.apply_command(command, tick);
            if step == LifecycleStep::Stop {
                assert(spec_after_commands(original, all, tick) == (self@, true));
                return true;
            }
        }
        proof {
            assert(all.skip(all.len() as int).len() == 0);
        }
        false
    }

    /// Finishes a drain once the last client is gone: a draining shard with
    /// `client_count == 0` stops at `tick`. Returns whether it stopped (the
    /// caller then publishes the state and leaves its loop).
    pub fn finish_drain_if_idle(&mut self, client_count: usize, tick: u64) -> (stopped: bool)
        ensures
            final(self)@ == spec_after_drain_check(old(self)@, client_count as nat, tick),
            stopped == (old(self).phase == ServerLifecyclePhase::Draining && client_count == 0),
    {
        if self.phase == ServerLifecyclePhase::Draining && client_count == 0 {
            self.phase = ServerLifecyclePhase::Stopped;
            self.latest_tick = tick;
            true
        } else {
            false
        }
    }
}

/// A stopped shard stays stopped: no command and no drain check brings it
/// back, and a drain request after shutdown leaves the state as it was.
pub proof fn lemma_stopped_is_final(
    state: LifecycleView,
    command: ServerLifecycleCommand,
    client_count: nat,
    tick: u64,
)
    requires
        state.phase == ServerLifecyclePhase::Stopped,
    ensures
        spec_after_command(state, command, tick).phase == ServerLifecyclePhase::Stopped,
        spec_after_drain_check(state, client_count, tick) == state,
        command is BeginDrain ==> spec_after_command(state, command, tick) == state,
{
}

/// Every command closes the shard to new connections and moves it out of
/// the running phase for good; the drain check never reopens it. Hence only
/// a running shard ever accepts connections.
pub proof fn lemma_commands_close_the_shard(
    state: LifecycleView,
    command: ServerLifecycleCommand,
    client_count: nat,
    tick: u64,
)
    requires
        lifecycle_consistent(state),
    ensures
        spec_after_command(state, command, tick).phase != ServerLifecyclePhase::Running,
        !spec_after_command(state, command, tick).accepting_new_connections,
        lifecycle_consistent(spec_after_command(state, command, tick)),
        lifecycle_consistent(spec_after_drain_check(state, client_count, tick)),
        spec_after_command(state, command, tick).shard_id == state.shard_id,
{
}

/// A drain request followed by the last client leaving stops the shard,
/// with the drain reason kept and the tick of the stop recorded.
pub proof fn lemma_drain_then_idle_stops(
    state: LifecycleView,
    reason: String,
    drain_tick: u64,
    stop_tick: u64,
)
    requires
        state.phase != ServerLifecyclePhase::Stopped,
    ensures
        ({
            let drained = spec_after_command(state, ServerLifecycleCommand::BeginDrain { reason }, drain_tick);
            let stopped = spec_after_drain_check(drained, 0, stop_tick);
            &&& drained.phase == ServerLifecyclePhase::Draining
            &&& stopped.phase == ServerLifecyclePhase::Stopped
            &&& stopped.latest_tick == stop_tick
            &&& stopped.reason == Some(reason@)
            &&& !stopped.accepting_new_connections
        }),
{
}

/// A drained shard keeps draining while any client is still connected.
pub proof fn lemma_drain_waits_for_clients(state: LifecycleView, client_count: nat, tick: u64)
    requires
        state.phase == ServerLifecyclePhase::Draining,
        client_count > 0,
    ensures
        spec_after_drain_check(state, client_count, tick) == state,
{
}

/// A shutdown in a batch ends processing: whatever follows it in the batch
/// has no effect, and the batch reports that the server must stop.
pub proof fn lemma_shutdown_ends_batch(
    state: LifecycleView,
    reason: String,
    later: Seq<ServerLifecycleCommand>,
    tick: u64,
)
    ensures
        ({
            let shutdown = ServerLifecycleCommand::Shutdown { reason };
            let batch = seq![shutdown].add(later);
            spec_after_commands(state, batch, tick) == (spec_after_command(state, shutdown, tick), true)
        }),
{
    let shutdown = ServerLifecycleCommand::Shutdown { reason };
    let batch = seq![shutdown].add(later);
    assert(batch[0] == shutdown);
}

} // verus!
