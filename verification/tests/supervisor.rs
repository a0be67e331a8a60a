use blog::supervisor::{step, Command, Event, Phase};

#[test]
fn startup_spawns_the_first_server() {
    let (ph, cmd) = step(Phase::Idle, Event::Start);
    assert_eq!(ph, Phase::Restarting);
    assert_eq!(cmd, Command::JoinOldServer);
    let (ph, cmd) = step(ph, Event::ServerJoined);
    assert_eq!(ph, Phase::Restarting);
    assert_eq!(cmd, Command::SpawnServer);
    let (ph, cmd) = step(ph, Event::ServerSpawned);
    assert_eq!(ph, Phase::Watching);
    assert_eq!(cmd, Command::AwaitEvent);
}

#[test]
fn one_change_runs_one_build_and_one_restart() {
    let events = [
        Event::Changed,
        Event::BuildDone(true),
        Event::ServerJoined,
        Event::ServerSpawned,
    ];
    let mut phase = Phase::Watching;
    let mut commands = Vec::new();
    for e in events {
        let (next, cmd) = step(phase, e);
        phase = next;
        commands.push(cmd);
    }
    assert_eq!(phase, Phase::Watching);
    assert_eq!(
        commands,
        vec![
            Command::RunBuilder,
            Command::JoinOldServer,
            Command::SpawnServer,
            Command::AwaitEvent,
        ]
    );
    // Exactly one builder invocation and one server spawn, and the old
    // server is joined strictly before the new one is spawned.
    let builds = commands.iter().filter(|c| **c == Command::RunBuilder).count();
    let spawns = commands.iter().filter(|c| **c == Command::SpawnServer).count();
    assert_eq!(builds, 1);
    assert_eq!(spawns, 1);
    let join_at = commands.iter().position(|c| *c == Command::JoinOldServer).unwrap();
    let spawn_at = commands.iter().position(|c| *c == Command::SpawnServer).unwrap();
    assert!(join_at < spawn_at);
}

#[test]
fn failed_build_still_restarts_the_server() {
    let (ph, cmd) = step(Phase::Rebuilding, Event::BuildDone(false));
    assert_eq!(ph, Phase::Restarting);
    assert_eq!(cmd, Command::JoinOldServer);
}

#[test]
fn channel_error_is_fatal() {
    let (ph, cmd) = step(Phase::Watching, Event::ChannelError);
    assert_eq!(ph, Phase::Terminated);
    assert_eq!(cmd, Command::Stop);
}

#[test]
fn protocol_violation_terminates() {
    let (ph, cmd) = step(Phase::Watching, Event::ServerSpawned);
    assert_eq!(ph, Phase::Terminated);
    assert_eq!(cmd, Command::Stop);
}
