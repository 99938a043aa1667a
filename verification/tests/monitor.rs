use elevated_command::event::CommandEvent;
use elevated_command::monitor::{
    Monitor, MonitorCommand, MonitorConfig, MonitorInput, Phase, Round, Stream,
};

const TIMEOUT_MESSAGE: &str =
    "Timeout: Process did not start or complete. UAC may have been cancelled.";

/// A command as the monitor sees it: what each file holds at each moment.
struct Script {
    /// (time in ms, bytes appended to standard output at that time)
    stdout: Vec<(u64, Vec<u8>)>,
    stderr: Vec<(u64, Vec<u8>)>,
    /// (time in ms, content of the exit-code file from that time on)
    exit: Option<(u64, Vec<u8>)>,
    /// at most this many bytes come back from one read
    read_limit: usize,
}

impl Script {
    fn content(parts: &[(u64, Vec<u8>)], now: u64) -> Option<Vec<u8>> {
        let mut all = Vec::new();
        let mut exists = false;
        for (at, bytes) in parts {
            if *at <= now {
                exists = true;
                all.extend_from_slice(bytes);
            }
        }
        if exists {
            Some(all)
        } else {
            None
        }
    }
}

struct Trace {
    events: Vec<CommandEvent>,
    /// time at which each event was sent
    times: Vec<u64>,
    commands: Vec<MonitorCommand>,
    deleted: u32,
    end: u64,
}

/// Plays the driver's part against a simulated clock and file system.
fn drive(config: MonitorConfig, script: &Script) -> Trace {
    let mut monitor = Monitor::new(config);
    let mut now: u64 = 0;
    let mut trace = Trace { events: vec![], times: vec![], commands: vec![], deleted: 0, end: 0 };
    for _ in 0..1_000_000 {
        let command = monitor.command();
        trace.commands.push(command);
        let input = match command {
            MonitorCommand::Sleep { millis } => {
                now += millis;
                MonitorInput::Woke
            }
            MonitorCommand::ReadClock => MonitorInput::Elapsed { millis: now },
            MonitorCommand::StatOutput { stream } => {
                let parts = match stream {
                    Stream::Stdout => &script.stdout,
                    Stream::Stderr => &script.stderr,
                };
                MonitorInput::Length { len: Script::content(parts, now).map(|c| c.len() as u64) }
            }
            MonitorCommand::ReadOutput { stream, offset, count } => {
                let parts = match stream {
                    Stream::Stdout => &script.stdout,
                    Stream::Stderr => &script.stderr,
                };
                let content = Script::content(parts, now).unwrap();
                let from = offset as usize;
                let to = (from + (count as usize).min(script.read_limit)).min(content.len());
                MonitorInput::Data { bytes: Some(content[from..to].to_vec()) }
            }
            MonitorCommand::ReadExitCode => MonitorInput::ExitCode {
                content: match &script.exit {
                    Some((at, bytes)) if *at <= now => Some(bytes.clone()),
                    _ => None,
                },
            },
            MonitorCommand::DeleteArtifacts => {
                trace.deleted += 1;
                MonitorInput::Deleted
            }
            MonitorCommand::Stop => {
                trace.end = now;
                assert!(monitor.is_done());
                return trace;
            }
        };
        for event in monitor.handle(input) {
            trace.events.push(event);
            trace.times.push(now);
        }
    }
    panic!("the monitor did not stop");
}

fn stdout_of(events: &[CommandEvent]) -> Vec<u8> {
    let mut all = Vec::new();
    for event in events {
        if let CommandEvent::Stdout(bytes) = event {
            assert!(!bytes.is_empty());
            all.extend_from_slice(bytes);
        }
    }
    all
}

fn stderr_of(events: &[CommandEvent]) -> Vec<u8> {
    let mut all = Vec::new();
    for event in events {
        if let CommandEvent::Stderr(bytes) = event {
            assert!(!bytes.is_empty());
            all.extend_from_slice(bytes);
        }
    }
    all
}

fn assert_whole_stream(events: &[CommandEvent]) {
    assert!(!events.is_empty());
    for (i, event) in events.iter().enumerate() {
        assert_eq!(event.is_terminal(), i == events.len() - 1);
    }
}

#[test]
fn standard_delays() {
    let config = MonitorConfig::standard();
    assert_eq!(
        config,
        MonitorConfig { grace_ms: 1000, poll_ms: 100, settle_ms: 50, timeout_ms: 120_000 }
    );
}

#[test]
fn lines_written_with_delays_arrive_in_order() {
    let lines: Vec<(u64, Vec<u8>)> = (0..10u64)
        .map(|i| (500 + i * 700, format!("line number {}\r\n", i).into_bytes()))
        .collect();
    let mut expected = Vec::new();
    for (_, bytes) in &lines {
        expected.extend_from_slice(bytes);
    }
    let script = Script {
        stdout: lines,
        stderr: vec![(500, vec![])],
        exit: Some((7000, b"0\r\n".to_vec())),
        read_limit: usize::MAX,
    };
    let trace = drive(MonitorConfig::standard(), &script);
    assert_eq!(stdout_of(&trace.events), expected);
    assert_eq!(stderr_of(&trace.events), Vec::<u8>::new());
    assert_whole_stream(&trace.events);
    assert_eq!(trace.events.last(), Some(&CommandEvent::Terminated { code: Some(0) }));
    // more than one chunk: the output came in as it was written
    assert!(trace.events.len() > 5);
    assert_eq!(trace.deleted, 1);
}

#[test]
fn both_streams_are_followed() {
    let script = Script {
        stdout: vec![(0, b"a".to_vec()), (2000, b"bc".to_vec())],
        stderr: vec![(1500, b"warn: ".to_vec()), (2500, b"x\n".to_vec())],
        exit: Some((3000, b"17\r\n".to_vec())),
        read_limit: usize::MAX,
    };
    let trace = drive(MonitorConfig::standard(), &script);
    assert_eq!(stdout_of(&trace.events), b"abc".to_vec());
    assert_eq!(stderr_of(&trace.events), b"warn: x\n".to_vec());
    assert_whole_stream(&trace.events);
    assert_eq!(trace.events.last(), Some(&CommandEvent::Terminated { code: Some(17) }));
    assert_eq!(
        trace.events,
        vec![
            CommandEvent::Stdout(b"a".to_vec()),
            CommandEvent::Stderr(b"warn: ".to_vec()),
            CommandEvent::Stdout(b"bc".to_vec()),
            CommandEvent::Stderr(b"x\n".to_vec()),
            CommandEvent::Terminated { code: Some(17) },
        ]
    );
}

#[test]
fn streaming_reports_every_exit_code_of_one_byte() {
    for k in 0..=255 {
        let script = Script {
            stdout: vec![],
            stderr: vec![],
            exit: Some((1200, format!("{}\r\n", k).into_bytes())),
            read_limit: usize::MAX,
        };
        let trace = drive(MonitorConfig::standard(), &script);
        assert_eq!(trace.events, vec![CommandEvent::Terminated { code: Some(k) }]);
    }
}

#[test]
fn output_written_just_before_the_end_is_flushed() {
    // The last bytes land after the poll that sees the exit code has read
    // the output files, within the settle delay.
    let script = Script {
        stdout: vec![(1000, b"early ".to_vec()), (1020, b"late".to_vec())],
        stderr: vec![(1030, b"oops".to_vec())],
        exit: Some((1000, b"2".to_vec())),
        read_limit: usize::MAX,
    };
    let trace = drive(MonitorConfig::standard(), &script);
    assert_eq!(
        trace.events,
        vec![
            CommandEvent::Stdout(b"early ".to_vec()),
            CommandEvent::Stdout(b"late".to_vec()),
            CommandEvent::Stderr(b"oops".to_vec()),
            CommandEvent::Terminated { code: Some(2) },
        ]
    );
    assert_eq!(trace.end, 1050);
}

#[test]
fn partial_reads_lose_nothing() {
    let text = b"0123456789abcdefghijklmnopqrstuvwxyz".to_vec();
    let script = Script {
        stdout: vec![(0, text.clone())],
        stderr: vec![(0, text.clone())],
        exit: Some((5000, b"0".to_vec())),
        read_limit: 7,
    };
    let trace = drive(MonitorConfig::standard(), &script);
    assert_eq!(stdout_of(&trace.events), text);
    assert_eq!(stderr_of(&trace.events), text);
    assert_eq!(trace.events[0], CommandEvent::Stdout(b"0123456".to_vec()));
    assert_eq!(trace.events[1], CommandEvent::Stderr(b"0123456".to_vec()));
    assert_eq!(trace.events[2], CommandEvent::Stdout(b"789abcd".to_vec()));
    assert_whole_stream(&trace.events);
}

#[test]
fn an_exit_code_that_is_no_number_ends_the_stream_without_code() {
    let script = Script {
        stdout: vec![(0, b"x".to_vec())],
        stderr: vec![],
        exit: Some((1500, b"ECHO is off.\r\n".to_vec())),
        read_limit: usize::MAX,
    };
    let trace = drive(MonitorConfig::standard(), &script);
    assert_eq!(
        trace.events,
        vec![CommandEvent::Stdout(b"x".to_vec()), CommandEvent::Terminated { code: None }]
    );
}

#[test]
fn a_blank_exit_code_file_does_not_end_the_stream() {
    let config = MonitorConfig { grace_ms: 10, poll_ms: 10, settle_ms: 5, timeout_ms: 300 };
    for content in [b"".to_vec(), b" \r\n".to_vec(), vec![0xff, b'1']] {
        let script =
            Script { stdout: vec![], stderr: vec![], exit: Some((0, content)), read_limit: usize::MAX };
        let trace = drive(config, &script);
        assert_eq!(trace.events, vec![CommandEvent::Error(TIMEOUT_MESSAGE.to_string())]);
    }
}

#[test]
fn timeout_when_the_exit_code_never_appears() {
    // The command sleeps 130 s before it writes anything; the ceiling is 120 s.
    let script = Script {
        stdout: vec![(130_000, b"too late".to_vec())],
        stderr: vec![],
        exit: Some((130_000, b"0".to_vec())),
        read_limit: usize::MAX,
    };
    let trace = drive(MonitorConfig::standard(), &script);
    assert_eq!(trace.events, vec![CommandEvent::Error(TIMEOUT_MESSAGE.to_string())]);
    assert!(trace.times[0] > 120_000);
    assert!(trace.times[0] <= 120_000 + 100);
    assert_eq!(trace.deleted, 1);
    assert_eq!(trace.commands.last(), Some(&MonitorCommand::Stop));
}

#[test]
fn output_before_a_timeout_is_still_passed_on() {
    let config = MonitorConfig { grace_ms: 100, poll_ms: 50, settle_ms: 10, timeout_ms: 1000 };
    let script = Script {
        stdout: vec![(200, b"started\n".to_vec())],
        stderr: vec![],
        exit: None,
        read_limit: usize::MAX,
    };
    let trace = drive(config, &script);
    assert_eq!(
        trace.events,
        vec![
            CommandEvent::Stdout(b"started\n".to_vec()),
            CommandEvent::Error(TIMEOUT_MESSAGE.to_string()),
        ]
    );
    assert_whole_stream(&trace.events);
}

#[test]
fn the_ceiling_itself_is_not_yet_a_timeout() {
    let config = MonitorConfig::standard();
    let mut monitor = Monitor::new(config);
    assert_eq!(monitor.command(), MonitorCommand::Sleep { millis: 1000 });
    assert!(monitor.handle(MonitorInput::Woke).is_empty());
    assert_eq!(monitor.command(), MonitorCommand::ReadClock);
    assert!(monitor.handle(MonitorInput::Elapsed { millis: 120_000 }).is_empty());
    assert_eq!(monitor.phase(), Phase::Stat { stream: Stream::Stdout, round: Round::Poll });

    let mut monitor = Monitor::new(config);
    monitor.handle(MonitorInput::Woke);
    let events = monitor.handle(MonitorInput::Elapsed { millis: 120_001 });
    assert_eq!(events, vec![CommandEvent::Error(TIMEOUT_MESSAGE.to_string())]);
    assert_eq!(monitor.phase(), Phase::Deleting);
    assert_eq!(monitor.command(), MonitorCommand::DeleteArtifacts);
    assert!(monitor.handle(MonitorInput::Deleted).is_empty());
    assert_eq!(monitor.phase(), Phase::Done);
    assert_eq!(monitor.command(), MonitorCommand::Stop);
}

#[test]
fn one_poll_step_by_step() {
    let mut monitor = Monitor::new(MonitorConfig::standard());
    monitor.handle(MonitorInput::Woke);
    monitor.handle(MonitorInput::Elapsed { millis: 1000 });
    assert_eq!(monitor.command(), MonitorCommand::StatOutput { stream: Stream::Stdout });
    assert!(monitor.handle(MonitorInput::Length { len: Some(5) }).is_empty());
    assert_eq!(monitor.phase(), Phase::Read { stream: Stream::Stdout, round: Round::Poll, end: 5 });
    assert_eq!(
        monitor.command(),
        MonitorCommand::ReadOutput { stream: Stream::Stdout, offset: 0, count: 5 }
    );
    // three bytes came back, not five: the offset moves by three
    let events = monitor.handle(MonitorInput::Data { bytes: Some(b"abc".to_vec()) });
    assert_eq!(events, vec![CommandEvent::Stdout(b"abc".to_vec())]);
    assert_eq!(monitor.offset(Stream::Stdout), 3);
    assert_eq!(monitor.command(), MonitorCommand::StatOutput { stream: Stream::Stderr });
    // the file is missing
    assert!(monitor.handle(MonitorInput::Length { len: None }).is_empty());
    assert_eq!(monitor.command(), MonitorCommand::ReadExitCode);
    assert!(monitor.handle(MonitorInput::ExitCode { content: None }).is_empty());
    assert_eq!(monitor.command(), MonitorCommand::Sleep { millis: 100 });
    monitor.handle(MonitorInput::Woke);
    assert_eq!(monitor.command(), MonitorCommand::ReadClock);
    monitor.handle(MonitorInput::Elapsed { millis: 1100 });
    monitor.handle(MonitorInput::Length { len: Some(5) });
    assert_eq!(
        monitor.command(),
        MonitorCommand::ReadOutput { stream: Stream::Stdout, offset: 3, count: 2 }
    );
    let events = monitor.handle(MonitorInput::Data { bytes: Some(b"de".to_vec()) });
    assert_eq!(events, vec![CommandEvent::Stdout(b"de".to_vec())]);
    assert_eq!(monitor.offset(Stream::Stdout), 5);
    // nothing new on standard error
    monitor.handle(MonitorInput::Length { len: Some(0) });
    assert_eq!(monitor.offset(Stream::Stderr), 0);
    assert_eq!(monitor.command(), MonitorCommand::ReadExitCode);
    // the exit code is there: settle, then read both files once more
    assert!(monitor.handle(MonitorInput::ExitCode { content: Some(b"9\r\n".to_vec()) }).is_empty());
    assert_eq!(monitor.command(), MonitorCommand::Sleep { millis: 50 });
    monitor.handle(MonitorInput::Woke);
    assert_eq!(monitor.phase(), Phase::Stat { stream: Stream::Stdout, round: Round::Final });
    // the file has not grown
    assert!(monitor.handle(MonitorInput::Length { len: Some(5) }).is_empty());
    assert_eq!(monitor.phase(), Phase::Stat { stream: Stream::Stderr, round: Round::Final });
    monitor.handle(MonitorInput::Length { len: Some(4) });
    let events = monitor.handle(MonitorInput::Data { bytes: Some(b"fail".to_vec()) });
    assert_eq!(
        events,
        vec![CommandEvent::Stderr(b"fail".to_vec()), CommandEvent::Terminated { code: Some(9) }]
    );
    assert_eq!(monitor.command(), MonitorCommand::DeleteArtifacts);
    monitor.handle(MonitorInput::Deleted);
    assert!(monitor.is_done());
}

#[test]
fn a_read_that_fails_or_is_empty_sends_nothing() {
    let mut monitor = Monitor::new(MonitorConfig::standard());
    monitor.handle(MonitorInput::Woke);
    monitor.handle(MonitorInput::Elapsed { millis: 1000 });
    monitor.handle(MonitorInput::Length { len: Some(4) });
    assert!(monitor.handle(MonitorInput::Data { bytes: None }).is_empty());
    assert_eq!(monitor.offset(Stream::Stdout), 0);
    assert_eq!(monitor.phase(), Phase::Stat { stream: Stream::Stderr, round: Round::Poll });
    monitor.handle(MonitorInput::Length { len: Some(4) });
    assert!(monitor.handle(MonitorInput::Data { bytes: Some(vec![]) }).is_empty());
    assert_eq!(monitor.offset(Stream::Stderr), 0);
    assert_eq!(monitor.phase(), Phase::ExitCheck);
}

#[test]
fn more_bytes_than_asked_for_are_cut_to_the_new_suffix() {
    let mut monitor = Monitor::new(MonitorConfig::standard());
    monitor.handle(MonitorInput::Woke);
    monitor.handle(MonitorInput::Elapsed { millis: 1000 });
    monitor.handle(MonitorInput::Length { len: Some(3) });
    let events = monitor.handle(MonitorInput::Data { bytes: Some(b"abcdef".to_vec()) });
    assert_eq!(events, vec![CommandEvent::Stdout(b"abc".to_vec())]);
    assert_eq!(monitor.offset(Stream::Stdout), 3);
}

#[test]
fn a_file_that_has_shrunk_is_not_read() {
    let mut monitor = Monitor::new(MonitorConfig::standard());
    monitor.handle(MonitorInput::Woke);
    monitor.handle(MonitorInput::Elapsed { millis: 1000 });
    monitor.handle(MonitorInput::Length { len: Some(3) });
    monitor.handle(MonitorInput::Data { bytes: Some(b"abc".to_vec()) });
    monitor.handle(MonitorInput::Length { len: None });
    monitor.handle(MonitorInput::ExitCode { content: None });
    monitor.handle(MonitorInput::Woke);
    monitor.handle(MonitorInput::Elapsed { millis: 1100 });
    // equal length, then shorter: neither is read
    assert!(monitor.handle(MonitorInput::Length { len: Some(3) }).is_empty());
    assert_eq!(monitor.phase(), Phase::Stat { stream: Stream::Stderr, round: Round::Poll });
    monitor.handle(MonitorInput::Length { len: None });
    monitor.handle(MonitorInput::ExitCode { content: None });
    monitor.handle(MonitorInput::Woke);
    monitor.handle(MonitorInput::Elapsed { millis: 1200 });
    assert!(monitor.handle(MonitorInput::Length { len: Some(2) }).is_empty());
    assert_eq!(monitor.offset(Stream::Stdout), 3);
    assert_eq!(monitor.phase(), Phase::Stat { stream: Stream::Stderr, round: Round::Poll });
}

#[test]
fn a_monitor_report_out_of_turn_changes_nothing() {
    let mut monitor = Monitor::new(MonitorConfig::standard());
    for _ in 0..2 {
        assert!(monitor.handle(MonitorInput::Deleted).is_empty());
        assert!(monitor.handle(MonitorInput::Elapsed { millis: 999_999 }).is_empty());
        assert!(monitor.handle(MonitorInput::Length { len: Some(9) }).is_empty());
        assert!(monitor.handle(MonitorInput::Data { bytes: Some(vec![1]) }).is_empty());
        assert!(monitor.handle(MonitorInput::ExitCode { content: Some(b"1".to_vec()) }).is_empty());
        assert_eq!(monitor.phase(), Phase::Grace);
    }
    assert_eq!(monitor.offset(Stream::Stdout), 0);
    assert_eq!(monitor.offset(Stream::Stderr), 0);
}

#[test]
fn nothing_is_sent_after_the_terminal_event() {
    let mut monitor = Monitor::new(MonitorConfig::standard());
    monitor.handle(MonitorInput::Woke);
    let events = monitor.handle(MonitorInput::Elapsed { millis: 500_000 });
    assert_eq!(events.len(), 1);
    assert!(events[0].is_terminal());
    for _ in 0..3 {
        assert!(monitor.handle(MonitorInput::Woke).is_empty());
        assert!(monitor.handle(MonitorInput::Elapsed { millis: 600_000 }).is_empty());
        assert!(monitor.handle(MonitorInput::Length { len: Some(9) }).is_empty());
        assert!(monitor.handle(MonitorInput::Data { bytes: Some(vec![1]) }).is_empty());
        assert!(monitor.handle(MonitorInput::ExitCode { content: Some(b"1".to_vec()) }).is_empty());
    }
    assert_eq!(monitor.phase(), Phase::Deleting);
    assert!(monitor.handle(MonitorInput::Deleted).is_empty());
    assert!(monitor.handle(MonitorInput::Deleted).is_empty());
    assert!(monitor.handle(MonitorInput::Woke).is_empty());
    assert!(monitor.is_done());
}

#[test]
fn events_know_whether_they_end_the_stream() {
    assert!(!CommandEvent::Stdout(vec![1]).is_terminal());
    assert!(!CommandEvent::Stderr(vec![]).is_terminal());
    assert!(CommandEvent::Terminated { code: None }.is_terminal());
    assert!(CommandEvent::Terminated { code: Some(0) }.is_terminal());
    assert!(CommandEvent::Error("x".to_string()).is_terminal());
}
