use podcopy::command::{parse_exit_code, upload_command, upload_command_for, CommandError};
use podcopy::pump::pump;
use podcopy::readiness::{watch_until_ready, PodPhase, ReadinessWatcher, WatchEvent, WatchStatus};
use podcopy::session::{
    completion_of, surfaced_text, Completion, Direction, Directions, Orchestrator, Phase, PumpEnd,
    RemoteStatus, SetupError,
};
use podcopy::sink::CapturedSink;
use podcopy::source::MemorySource;

fn status(verdict: Option<&str>, code: Option<&str>) -> Option<RemoteStatus> {
    Some(RemoteStatus {
        status: verdict.map(|s| s.to_string()),
        exit_code: code.map(|s| s.to_string()),
    })
}

#[test]
fn upload_command_line() {
    let argv = upload_command("/data/in", "a.txt");
    assert_eq!(argv, vec!["sh", "-c", "mkdir -p /data/in && cd /data/in && cat > a.txt"]);
}

#[test]
fn upload_command_takes_final_path_component() {
    let argv = upload_command_for("/home/me/report.csv", "/srv").unwrap();
    assert_eq!(argv[2], "mkdir -p /srv && cd /srv && cat > report.csv");
    let argv = upload_command_for("notes", "out").unwrap();
    assert_eq!(argv[2], "mkdir -p out && cd out && cat > notes");
}

#[test]
fn upload_command_without_file_name() {
    assert!(matches!(upload_command_for("/", "/srv"), Err(CommandError::NoFileName)));
    assert!(matches!(upload_command_for("a/..", "/srv"), Err(CommandError::NoFileName)));
    assert!(matches!(upload_command_for("", "/srv"), Err(CommandError::NoFileName)));
}

#[test]
fn exit_code_parsing() {
    assert_eq!(parse_exit_code("0"), Some(0));
    assert_eq!(parse_exit_code("137"), Some(137));
    assert_eq!(parse_exit_code("4294967295"), Some(4294967295));
    assert_eq!(parse_exit_code("4294967296"), None);
    assert_eq!(parse_exit_code(""), None);
    assert_eq!(parse_exit_code("12a"), None);
    assert_eq!(parse_exit_code("-1"), None);
}

#[test]
fn completion_classification() {
    assert_eq!(completion_of(None), Completion::Disconnected);
    assert_eq!(completion_of(status(Some("Success"), None)), Completion::Exited { code: 0 });
    assert_eq!(completion_of(status(Some("Failure"), Some("2"))), Completion::Exited { code: 2 });
    assert_eq!(completion_of(status(Some("Failure"), None)), Completion::Failed);
    assert_eq!(completion_of(status(Some("Failure"), Some("x"))), Completion::Failed);
    assert_eq!(completion_of(status(None, None)), Completion::Failed);
}

#[test]
fn orchestrator_starts_one_pump_per_wanted_direction() {
    let mut o = Orchestrator::new(Directions { input: true, output: true, error: true });
    assert_eq!(o.attached(), vec![Direction::Input, Direction::Output, Direction::Error]);
    assert_eq!(o.phase, Phase::Running);
}

#[test]
fn output_only_session() {
    let wanted = Directions { input: false, output: true, error: false };
    let mut o = Orchestrator::new(wanted);
    let pumps = o.attached();
    assert_eq!(pumps, vec![Direction::Output]);
    let mut remote_out = MemorySource::new(b"done\n".to_vec());
    let mut out = CapturedSink::new();
    pump(&mut remote_out, &mut out, 64);
    o.pump_ended(Direction::Output, PumpEnd::Drained);
    o.completed(completion_of(status(Some("Success"), None)));
    assert_eq!(o.phase, Phase::Completed { outcome: Completion::Exited { code: 0 } });
    assert_eq!(o.started, wanted);
    assert!(!o.terminated_early(Direction::Output));
    assert_eq!(surfaced_text(&out), Some("done\n".to_string()));
}

#[test]
fn attach_failure_aborts_before_pumps() {
    let mut o = Orchestrator::new(Directions { input: true, output: true, error: true });
    o.attach_failed();
    assert_eq!(o.phase, Phase::Aborted { error: SetupError::AttachFailed });
    assert_eq!(o.started, Directions { input: false, output: false, error: false });
    let mut o = Orchestrator::new(Directions { input: true, output: false, error: false });
    o.not_ready();
    assert_eq!(o.phase, Phase::Aborted { error: SetupError::NotReady });
}

#[test]
fn empty_capture_is_not_surfaced() {
    let err = CapturedSink::new();
    assert_eq!(surfaced_text(&err), None);
}

#[test]
fn echo_of_a_million_bytes() {
    let data: Vec<u8> = (0..1_000_000u32).map(|i| (i % 256) as u8).collect();
    let mut o = Orchestrator::new(Directions { input: true, output: true, error: true });
    assert_eq!(o.attached().len(), 3);
    let mut local = MemorySource::new(data.clone());
    let mut echoed = CapturedSink::new();
    let r = pump(&mut local, &mut echoed, 8192);
    o.pump_ended(Direction::Input, PumpEnd::Drained);
    o.pump_ended(Direction::Output, PumpEnd::Drained);
    o.pump_ended(Direction::Error, PumpEnd::Drained);
    o.completed(completion_of(status(Some("Success"), None)));
    assert_eq!(echoed.len(), 1_000_000);
    assert_eq!(echoed.snapshot(), data);
    assert_eq!(r.last_progress, Some(1_000_000));
    assert_eq!(o.phase, Phase::Completed { outcome: Completion::Exited { code: 0 } });
}

#[test]
fn disconnect_after_partial_transfer() {
    let data: Vec<u8> = vec![7u8; 1_000_000];
    let mut o = Orchestrator::new(Directions { input: true, output: true, error: true });
    o.attached();
    let mut local = MemorySource::new(data);
    let mut remote = CapturedSink::new();
    let chunk = local.read(500);
    remote.write(&chunk.bytes);
    assert_eq!(chunk.progress, Some(500));
    o.pump_ended(Direction::Input, PumpEnd::TerminatedEarly);
    o.completed(completion_of(None));
    assert_eq!(o.phase, Phase::Completed { outcome: Completion::Disconnected });
    assert!(o.terminated_early(Direction::Input));
    assert!(!o.terminated_early(Direction::Output));
    assert_eq!(local.offset(), 500);
    assert_eq!(remote.len(), 500);
}

#[test]
fn watcher_observes_target_before_deadline() {
    let events = vec![
        WatchEvent::Notified { at: 1, phase: PodPhase::Pending },
        WatchEvent::Tick { now: 3 },
        WatchEvent::Notified { at: 5, phase: PodPhase::Running },
        WatchEvent::Failed { at: 6 },
    ];
    assert_eq!(watch_until_ready(PodPhase::Running, 10, &events), WatchStatus::Observed { at: 5 });
}

#[test]
fn watcher_times_out_at_deadline() {
    let events = vec![
        WatchEvent::Notified { at: 1, phase: PodPhase::Pending },
        WatchEvent::Tick { now: 9 },
        WatchEvent::Tick { now: 12 },
        WatchEvent::Notified { at: 13, phase: PodPhase::Running },
    ];
    assert_eq!(watch_until_ready(PodPhase::Running, 10, &events), WatchStatus::TimedOut { at: 10 });
}

#[test]
fn watcher_late_target_is_a_timeout() {
    let events = vec![WatchEvent::Notified { at: 10, phase: PodPhase::Running }];
    assert_eq!(watch_until_ready(PodPhase::Running, 10, &events), WatchStatus::TimedOut { at: 10 });
}

#[test]
fn watcher_reports_watch_error() {
    let mut w = ReadinessWatcher::new(PodPhase::Running, 10);
    w.observe(WatchEvent::Failed { at: 4 });
    assert!(w.is_done());
    assert_eq!(w.status, WatchStatus::WatchError { at: 4 });
    w.observe(WatchEvent::Notified { at: 5, phase: PodPhase::Running });
    assert_eq!(w.status, WatchStatus::WatchError { at: 4 });
}

#[test]
fn watcher_without_events_keeps_watching() {
    assert_eq!(watch_until_ready(PodPhase::Running, 10, &Vec::new()), WatchStatus::Watching);
}
