//! The watch supervisor: a state machine that reacts to content changes.
//!
//! The supervisor watches the content directory; on each change event it
//! has the site builder rebuild the output, then restarts the server:
//! first the previous server is stopped and joined — releasing the port —
//! and only then is a new one spawned for the same port. That ordering is
//! what keeps two listeners from ever racing for the port.
//!
//! The blocking work (waiting on the event channel, running the builder,
//! joining and spawning server threads) happens outside this crate. The
//! surrounding loop asks `step` what to do next, performs the returned
//! command, and feeds the completion back in as the next event.

use vstd::prelude::*;

verus! {

/// Where the supervisor stands in its cycle.
#[derive(Debug, PartialEq, Eq, Clone, Copy, Structural)]
pub enum Phase {
    /// Not yet started; no server is running.
    Idle,
    /// A server is running; the supervisor blocks on the event channel.
    Watching,
    /// A change arrived; the site builder is running.
    Rebuilding,
    /// The old server is being stopped and a new one started.
    Restarting,
    /// The event channel failed or the protocol was broken; the
    /// supervisor has given up.
    Terminated,
}

/// What the surrounding loop reports to the supervisor.
#[derive(Debug, PartialEq, Eq, Clone, Copy, Structural)]
pub enum Event {
    /// The supervisor is being started.
    Start,
    /// The watched content directory changed.
    Changed,
    /// The site builder finished, successfully or not.
    BuildDone(bool),
    /// The previous server has fully terminated and released the port.
    ServerJoined,
    /// A new server is running on the port.
    ServerSpawned,
    /// The event channel's producer side closed unexpectedly.
    ChannelError,
}

/// What the surrounding loop must do next.
#[derive(Debug, PartialEq, Eq, Clone, Copy, Structural)]
pub enum Command {
    /// Block on the event channel and report what arrives.
    AwaitEvent,
    /// Run the site builder and report its result.
    RunBuilder,
    /// Stop the running server, wait for its thread to terminate, and
    /// report once the port is released. Reported immediately when no
    /// server has run yet.
    JoinOldServer,
    /// Spawn a new server for the configured port and report it.
    SpawnServer,
    /// Tear everything down; the supervisor is done.
    Stop,
}

/// The transition relation: from a phase and an event to the next phase
/// and the command to perform.
///
/// One change event, in `Watching`, runs exactly one rebuild and exactly
/// one restart, and the restart joins the old server strictly before
/// spawning the new one. A failed build does not abort the cycle: the
/// server is restarted either way and keeps serving what exists. A channel
/// error is fatal; so is any event that breaks the driving protocol.
pub open spec fn spec_step(phase: Phase, event: Event) -> (Phase, Command) {
    match (phase, event) {
        (Phase::Idle, Event::Start) => (Phase::Restarting, Command::JoinOldServer),
        (Phase::Watching, Event::Changed) => (Phase::Rebuilding, Command::RunBuilder),
        (Phase::Watching, Event::ChannelError) => (Phase::Terminated, Command::Stop),
        (Phase::Rebuilding, Event::BuildDone(_)) => (Phase::Restarting, Command::JoinOldServer),
        (Phase::Restarting, Event::ServerJoined) => (Phase::Restarting, Command::SpawnServer),
        (Phase::Restarting, Event::ServerSpawned) => (Phase::Watching, Command::AwaitEvent),
        _ => (Phase::Terminated, Command::Stop),
    }
}

/// One supervisor step; the executable twin of `spec_step`.
pub fn step(phase: Phase, event: Event) -> (r: (Phase, Command))
    ensures
        r == spec_step(phase, event),
{
    match (phase, event) {
        (Phase::Idle, Event::Start) => (Phase::Restarting, Command::JoinOldServer),
        (Phase::Watching, Event::Changed) => (Phase::Rebuilding, Command::RunBuilder),
        (Phase::Watching, Event::ChannelError) => (Phase::Terminated, Command::Stop),
        (Phase::Rebuilding, Event::BuildDone(_)) => (Phase::Restarting, Command::JoinOldServer),
        (Phase::Restarting, Event::ServerJoined) => (Phase::Restarting, Command::SpawnServer),
        (Phase::Restarting, Event::ServerSpawned) => (Phase::Watching, Command::AwaitEvent),
        _ => (Phase::Terminated, Command::Stop),
    }
}

/// The commands `spec_step` emits along a sequence of events, starting
/// from the given phase.
pub open spec fn commands_along(phase: Phase, events: Seq<Event>) -> Seq<Command>
    decreases events.len(),
{
    if events.len() == 0 {
        Seq::empty()
    } else {
        let (next, cmd) = spec_step(phase, events[0]);
        Seq::empty().push(cmd) + commands_along(next, events.drop_first())
    }
}

/// The phase reached after a sequence of events.
pub open spec fn phase_after(phase: Phase, events: Seq<Event>) -> Phase
    decreases events.len(),
{
    if events.len() == 0 {
        phase
    } else {
        phase_after(spec_step(phase, events[0]).0, events.drop_first())
    }
}

/// One watched change, however the build went, drives exactly one full
/// cycle: the builder runs exactly once, the old server is joined exactly
/// once and strictly before the one spawn of the new server, and the
/// supervisor is back to watching.
pub proof fn lemma_change_runs_one_cycle(build_ok: bool)
    ensures
        ({
            let events = seq![
                Event::Changed,
                Event::BuildDone(build_ok),
                Event::ServerJoined,
                Event::ServerSpawned,
            ];
            commands_along(Phase::Watching, events) =~= seq![
                Command::RunBuilder,
                Command::JoinOldServer,
                Command::SpawnServer,
                Command::AwaitEvent,
            ] && phase_after(Phase::Watching, events) == Phase::Watching
        }),
{
    let events = seq![
        Event::Changed,
        Event::BuildDone(build_ok),
        Event::ServerJoined,
        Event::ServerSpawned,
    ];
    assert(events.drop_first() =~= seq![
        Event::BuildDone(build_ok),
        Event::ServerJoined,
        Event::ServerSpawned,
    ]);
    assert(events.drop_first().drop_first() =~= seq![Event::ServerJoined, Event::ServerSpawned]);
    assert(events.drop_first().drop_first().drop_first() =~= seq![Event::ServerSpawned]);
    assert(events.drop_first().drop_first().drop_first().drop_first() =~= Seq::<Event>::empty());
    reveal_with_fuel(commands_along, 5);
    reveal_with_fuel(phase_after, 5);
}

/// A failure of the event channel ends the supervisor: it stops, and no
/// rebuild or restart is commanded.
pub proof fn lemma_channel_error_is_fatal()
    ensures
        spec_step(Phase::Watching, Event::ChannelError) == (Phase::Terminated, Command::Stop),
{
}

/// A new server is spawned only in direct response to the report that the
/// previous one has fully terminated and released the port. With at most
/// one server live at a time, two listeners can never race for the port.
pub proof fn lemma_spawn_only_after_join(phase: Phase, event: Event)
    ensures
        spec_step(phase, event).1 == Command::SpawnServer ==> event == Event::ServerJoined,
{
}

/// The site builder runs only in direct response to a change of the
/// watched content: no event but a change can trigger a rebuild.
pub proof fn lemma_builder_runs_only_on_change(phase: Phase, event: Event)
    ensures
        spec_step(phase, event).1 == Command::RunBuilder ==> phase == Phase::Watching && event
            == Event::Changed,
{
}

/// How performing a command changes the number of live servers: joining
/// the old server leaves none, spawning adds one, everything else leaves
/// the count alone.
pub open spec fn live_after_command(cmd: Command, live: nat) -> nat {
    match cmd {
        Command::JoinOldServer => 0,
        Command::SpawnServer => live + 1,
        _ => live,
    }
}

/// Which events a faithful surrounding loop can report after performing a
/// command. Nothing follows a stop.
pub open spec fn protocol_event_for(cmd: Command, event: Event) -> bool {
    match cmd {
        Command::AwaitEvent => event == Event::Changed || event == Event::ChannelError,
        Command::RunBuilder => event is BuildDone,
        Command::JoinOldServer => event == Event::ServerJoined,
        Command::SpawnServer => event == Event::ServerSpawned,
        Command::Stop => false,
    }
}

/// What the phase and the pending event say about how many servers are
/// live at the moment the supervisor takes its next step. It starts with
/// none; one is live while watching or rebuilding; during a restart none
/// is live until the spawn is reported.
pub open spec fn one_server_invariant(phase: Phase, event: Event, live: nat) -> bool {
    match (phase, event) {
        (Phase::Idle, Event::Start) => live == 0,
        (Phase::Watching, _) => live == 1,
        (Phase::Rebuilding, _) => live == 1,
        (Phase::Restarting, Event::ServerJoined) => live == 0,
        (Phase::Restarting, Event::ServerSpawned) => live == 1,
        _ => live <= 1,
    }
}

/// At most one server is ever live. Under the driving protocol — each
/// event reports the completion of the command before it — every step
/// preserves `one_server_invariant`, and the count of live servers never
/// exceeds one, neither before a command runs nor after. The port can
/// therefore never be contested: a spawn happens only while no server is
/// live.
pub proof fn lemma_at_most_one_live_server(phase: Phase, event: Event, live: nat, event2: Event)
    requires
        one_server_invariant(phase, event, live),
        protocol_event_for(spec_step(phase, event).1, event2),
    ensures
        live <= 1,
        live_after_command(spec_step(phase, event).1, live) <= 1,
        one_server_invariant(
            spec_step(phase, event).0,
            event2,
            live_after_command(spec_step(phase, event).1, live),
        ),
{
}

} // verus!
