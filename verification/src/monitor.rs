use crate::collector::content_view;
use crate::event::{event_views, CommandEvent, EventView};
use crate::exit_code::{read_exit_bytes, reading_of_bytes};
use vstd::prelude::*;
use vstd::string::*;

verus! {

/// One of the two output streams of the command.
#[derive(Clone, Copy, Debug, PartialEq, Eq)]
pub enum Stream {
    Stdout,
    Stderr,
}

/// Whether the output files are being read in an ordinary poll, or for the
/// last time after the command has finished.
#[derive(Clone, Copy, Debug, PartialEq, Eq)]
pub enum Round {
    Poll,
    Final,
}

/// The delays of the streaming monitor, in milliseconds.
#[derive(Clone, Copy, Debug, PartialEq, Eq)]
pub struct MonitorConfig {
    /// How long to wait before the first poll, so that the prompt can be
    /// answered and the script can start.
    pub grace_ms: u64,
    /// How long to wait between two polls.
    pub poll_ms: u64,
    /// How long to wait, once the exit code has been seen, before the
    /// output files are read for the last time.
    pub settle_ms: u64,
    /// The ceiling on the whole run: once more time than this has passed,
    /// the monitor gives up.
    pub timeout_ms: u64,
}

/// The usual delays: one second of grace, a poll every 100 milliseconds,
/// 50 milliseconds to settle, and a ceiling of two minutes.
pub open spec fn standard_config() -> MonitorConfig {
    MonitorConfig { grace_ms: 1000, poll_ms: 100, settle_ms: 50, timeout_ms: 120_000 }
}

/// What the monitor is waiting for.
#[derive(Clone, Copy, Debug, PartialEq, Eq)]
pub enum Phase {
    /// For the grace delay to pass.
    Grace,
    /// For the time that has passed since the start.
    Clock,
    /// For the length of an output file.
    Stat { stream: Stream, round: Round },
    /// For the bytes of an output file between the offset and `end`.
    Read { stream: Stream, round: Round, end: u64 },
    /// For the content of the exit-code file.
    ExitCheck,
    /// For the settle delay to pass.
    Settle,
    /// For the delay between two polls to pass.
    Pause,
    /// For the artifacts to be deleted.
    Deleting,
    /// For nothing: the monitor has stopped.
    Done,
}

/// What the driver has to do next.
#[derive(Clone, Copy, Debug, PartialEq, Eq)]
pub enum MonitorCommand {
    /// Sleep for this long, and report `Woke`.
    Sleep { millis: u64 },
    /// Report, with `Elapsed`, the time that has passed since the monitor
    /// was started.
    ReadClock,
    /// Report, with `Length`, the current length of the output file.
    StatOutput { stream: Stream },
    /// Read up to `count` bytes of the output file from `offset` on, and
    /// report them with `Data`.
    ReadOutput { stream: Stream, offset: u64, count: u64 },
    /// Report, with `ExitCode`, what the exit-code file holds.
    ReadExitCode,
    /// Delete the script and the three sentinel files, ignoring failures,
    /// and report `Deleted`.
    DeleteArtifacts,
    /// Stop: there is nothing left to do.
    Stop,
}

/// What the driver reports after a command.
#[derive(Clone, Debug, PartialEq, Eq)]
pub enum MonitorInput {
    /// The sleep is over.
    Woke,
    /// This much time has passed since the monitor was started.
    Elapsed { millis: u64 },
    /// The length of the output file; `None` where the file is missing or
    /// cannot be opened.
    Length { len: Option<u64> },
    /// The bytes read from the output file; `None` where reading failed.
    Data { bytes: Option<Vec<u8>> },
    /// The content of the exit-code file; `None` where the file is missing
    /// or cannot be read.
    ExitCode { content: Option<Vec<u8>> },
    /// The artifacts are gone.
    Deleted,
}

/// A `MonitorInput` as plain values.
pub enum MonitorInputView {
    Woke,
    Elapsed { millis: u64 },
    Length { len: Option<u64> },
    Data { bytes: Option<Seq<u8>> },
    ExitCode { content: Option<Seq<u8>> },
    Deleted,
}

impl View for MonitorInput {
    type V = MonitorInputView;

    open spec fn view(&self) -> MonitorInputView {
        match self {
            MonitorInput::Woke => MonitorInputView::Woke,
            MonitorInput::Elapsed { millis } => MonitorInputView::Elapsed { millis: *millis },
            MonitorInput::Length { len } => MonitorInputView::Length { len: *len },
            MonitorInput::Data { bytes } => MonitorInputView::Data { bytes: content_view(*bytes) },
            MonitorInput::ExitCode { content } => MonitorInputView::ExitCode {
                content: content_view(*content),
            },
            MonitorInput::Deleted => MonitorInputView::Deleted,
        }
    }
}

/// The message of the event that reports a timeout.
pub open spec fn timeout_message() -> Seq<char> {
    "Timeout: Process did not start or complete. UAC may have been cancelled."@
}

/// What the exit-code file says of the command. `None`: it has not
/// finished, since the file is missing, unreadable or blank. `Some(code)`:
/// it has finished, with the exit code where the file holds a number.
pub open spec fn completion_of(content: Option<Seq<u8>>) -> Option<Option<i32>> {
    match content {
        Some(bytes) => reading_of_bytes(bytes).completion(),
        None => None,
    }
}

/// The part of `bytes` that is taken from a read that asked for `room`
/// bytes: all of it, or its first `room` bytes where more came back.
pub open spec fn chunk_of(bytes: Seq<u8>, room: int) -> Seq<u8> {
    if room <= 0 {
        Seq::empty()
    } else if bytes.len() <= room {
        bytes
    } else {
        bytes.take(room)
    }
}

/// The event that carries `chunk` for `stream`.
pub open spec fn chunk_event(stream: Stream, chunk: Seq<u8>) -> EventView {
    match stream {
        Stream::Stdout => EventView::Stdout(chunk),
        Stream::Stderr => EventView::Stderr(chunk),
    }
}

/// The streaming monitor as plain values.
pub struct MonitorView {
    pub config: MonitorConfig,
    pub phase: Phase,
    pub stdout_pos: u64,
    pub stderr_pos: u64,
    pub exit_code: Option<i32>,
}

/// A monitor after one report, with the events that the report gave rise to.
pub struct Step {
    pub next: MonitorView,
    pub events: Seq<EventView>,
}

impl MonitorView {
    /// How many bytes of `stream` have been passed on.
    pub open spec fn offset(self, stream: Stream) -> u64 {
        match stream {
            Stream::Stdout => self.stdout_pos,
            Stream::Stderr => self.stderr_pos,
        }
    }

    /// The monitor with the offset of `stream` at `pos`.
    pub open spec fn with_offset(self, stream: Stream, pos: u64) -> MonitorView {
        match stream {
            Stream::Stdout => MonitorView { stdout_pos: pos, ..self },
            Stream::Stderr => MonitorView { stderr_pos: pos, ..self },
        }
    }

    /// The monitor in `phase`, otherwise unchanged.
    pub open spec fn at(self, phase: Phase) -> MonitorView {
        MonitorView { phase, ..self }
    }

    /// Whether the stream has come to its end: the terminal event is out.
    pub open spec fn is_over(self) -> bool {
        self.phase == Phase::Deleting || self.phase == Phase::Done
    }

    /// Whether the command has been seen to finish and the output files are
    /// being read for the last time.
    pub open spec fn is_closing(self) -> bool {
        match self.phase {
            Phase::Settle => true,
            Phase::Stat { round, .. } => round == Round::Final,
            Phase::Read { round, .. } => round == Round::Final,
            _ => false,
        }
    }

    /// What the driver has to do in this phase.
    pub open spec fn command(self) -> MonitorCommand {
        match self.phase {
            Phase::Grace => MonitorCommand::Sleep { millis: self.config.grace_ms },
            Phase::Clock => MonitorCommand::ReadClock,
            Phase::Stat { stream, .. } => MonitorCommand::StatOutput { stream },
            Phase::Read { stream, end, .. } => MonitorCommand::ReadOutput {
                stream,
                offset: self.offset(stream),
                count: if end > self.offset(stream) {
                    (end - self.offset(stream)) as u64
                } else {
                    0
                },
            },
            Phase::ExitCheck => MonitorCommand::ReadExitCode,
            Phase::Settle => MonitorCommand::Sleep { millis: self.config.settle_ms },
            Phase::Pause => MonitorCommand::Sleep { millis: self.config.poll_ms },
            Phase::Deleting => MonitorCommand::DeleteArtifacts,
            Phase::Done => MonitorCommand::Stop,
        }
    }

    /// What follows once `stream` has been dealt with, `events` having come
    /// of it. Standard error follows standard output. After standard error,
    /// an ordinary poll goes on to the exit-code file, and the last read
    /// ends the stream with the terminal event.
    pub open spec fn after_stream(self, stream: Stream, round: Round, events: Seq<EventView>) -> Step {
        match (stream, round) {
            (Stream::Stdout, _) => Step {
                next: self.at(Phase::Stat { stream: Stream::Stderr, round }),
                events,
            },
            (Stream::Stderr, Round::Poll) => Step { next: self.at(Phase::ExitCheck), events },
            (Stream::Stderr, Round::Final) => Step {
                next: self.at(Phase::Deleting),
                events: events.push(EventView::Terminated { code: self.exit_code }),
            },
        }
    }

    /// The monitor after the driver has reported `input`, and the events to
    /// send. A report that does not answer the command of the phase changes
    /// nothing and sends nothing.
    pub open spec fn step(self, input: MonitorInputView) -> Step {
        match (self.phase, input) {
            (Phase::Grace, MonitorInputView::Woke) => Step {
                next: self.at(Phase::Clock),
                events: Seq::empty(),
            },
            (Phase::Clock, MonitorInputView::Elapsed { millis }) => {
                if millis > self.config.timeout_ms {
                    Step {
                        next: self.at(Phase::Deleting),
                        events: seq![EventView::Error(timeout_message())],
                    }
                } else {
                    Step {
                        next: self.at(Phase::Stat { stream: Stream::Stdout, round: Round::Poll }),
                        events: Seq::empty(),
                    }
                }
            },
            (Phase::Stat { stream, round }, MonitorInputView::Length { len }) => {
                if len is Some && len->0 > self.offset(stream) {
                    Step {
                        next: self.at(Phase::Read { stream, round, end: len->0 }),
                        events: Seq::empty(),
                    }
                } else {
                    self.after_stream(stream, round, Seq::empty())
                }
            },
            (Phase::Read { stream, round, end }, MonitorInputView::Data { bytes }) => {
                match bytes {
                    Some(bytes) => {
                        let chunk = chunk_of(bytes, end - self.offset(stream));
                        let moved = self.with_offset(
                            stream,
                            (self.offset(stream) + chunk.len()) as u64,
                        );
                        if chunk.len() > 0 {
                            moved.after_stream(stream, round, seq![chunk_event(stream, chunk)])
                        } else {
                            moved.after_stream(stream, round, Seq::empty())
                        }
                    },
                    None => self.after_stream(stream, round, Seq::empty()),
                }
            },
            (Phase::ExitCheck, MonitorInputView::ExitCode { content }) => {
                match completion_of(content) {
                    Some(code) => Step {
                        next: MonitorView { phase: Phase::Settle, exit_code: code, ..self },
                        events: Seq::empty(),
                    },
                    None => Step { next: self.at(Phase::Pause), events: Seq::empty() },
                }
            },
            (Phase::Settle, MonitorInputView::Woke) => Step {
                next: self.at(Phase::Stat { stream: Stream::Stdout, round: Round::Final }),
                events: Seq::empty(),
            },
            (Phase::Pause, MonitorInputView::Woke) => Step {
                next: self.at(Phase::Clock),
                events: Seq::empty(),
            },
            (Phase::Deleting, MonitorInputView::Deleted) => Step {
                next: self.at(Phase::Done),
                events: Seq::empty(),
            },
            _ => Step { next: self, events: Seq::empty() },
        }
    }

    /// The monitor after the driver has reported `inputs`, one by one, and
    /// all the events sent on the way, in their order.
    pub open spec fn run(self, inputs: Seq<MonitorInputView>) -> Step
        decreases inputs.len(),
    {
        if inputs.len() == 0 {
            Step { next: self, events: Seq::empty() }
        } else {
            let before = self.run(inputs.drop_last());
            let last = before.next.step(inputs.last());
            Step { next: last.next, events: before.events + last.events }
        }
    }
}

/// The monitor before anything has been done.
pub open spec fn fresh_monitor(config: MonitorConfig) -> MonitorView {
    MonitorView { config, phase: Phase::Grace, stdout_pos: 0, stderr_pos: 0, exit_code: None }
}

impl MonitorConfig {
    /// The usual delays.
    pub fn standard() -> (config: MonitorConfig)
        ensures
            config == standard_config(),
    {
        MonitorConfig { grace_ms: 1000, poll_ms: 100, settle_ms: 50, timeout_ms: 120_000 }
    }
}

/// The streaming monitor: it says what to do next and takes the driver's
/// reports, and for each report gives the events to send to the caller.
#[derive(Clone, Copy, Debug)]
pub struct Monitor {
    config: MonitorConfig,
    phase: Phase,
    stdout_pos: u64,
    stderr_pos: u64,
    exit_code: Option<i32>,
}

impl View for Monitor {
    type V = MonitorView;

    closed spec fn view(&self) -> MonitorView {
        MonitorView {
            config: self.config,
            phase: self.phase,
            stdout_pos: self.stdout_pos,
            stderr_pos: self.stderr_pos,
            exit_code: self.exit_code,
        }
    }
}

/// Cuts `bytes` down to what a read that asked for `room` bytes may give.
fn take_chunk(bytes: Vec<u8>, room: u64) -> (chunk: Vec<u8>)
    ensures
        chunk@ == chunk_of(bytes@, room as int),
{
    let mut chunk = bytes;
    if room == 0 {
        chunk.truncate(0);
        assert(chunk@ =~= Seq::<u8>::empty());
    } else if chunk.len() as u64 > room {
        chunk.truncate(room as usize);
    }
    chunk
}

impl Monitor {
    /// A monitor that has not begun, with the given delays.
    pub fn new(config: MonitorConfig) -> (monitor: Monitor)
        ensures
            monitor@ == fresh_monitor(config),
    {
        Monitor { config, phase: Phase::Grace, stdout_pos: 0, stderr_pos: 0, exit_code: None }
    }

    /// What the monitor is waiting for.
    pub fn phase(&self) -> (phase: Phase)
        ensures
            phase == self@.phase,
    {
        self.phase
    }

    /// How many bytes of `stream` have been passed on.
    pub fn offset(&self, stream: Stream) -> (pos: u64)
        ensures
            pos == self@.offset(stream),
    {
        match stream {
            Stream::Stdout => self.stdout_pos,
            Stream::Stderr => self.stderr_pos,
        }
    }

    /// Whether the monitor has stopped.
    pub fn is_done(&self) -> (done: bool)
        ensures
            done == (self@.phase == Phase::Done),
    {
        match self.phase {
            Phase::Done => true,
            _ => false,
        }
    }

    /// What the driver has to do next.
    pub fn command(&self) -> (command: MonitorCommand)
        ensures
            command == self@.command(),
    {
        match self.phase {
            Phase::Grace => MonitorCommand::Sleep { millis: self.config.grace_ms },
            Phase::Clock => MonitorCommand::ReadClock,
            Phase::Stat { stream, .. } => MonitorCommand::StatOutput { stream },
            Phase::Read { stream, end, .. } => {
                let offset = self.offset(stream);
                let count: u64 = if end > offset {
                    end - offset
                } else {
                    0
                };
                MonitorCommand::ReadOutput { stream, offset, count }
            },
            Phase::ExitCheck => MonitorCommand::ReadExitCode,
            Phase::Settle => MonitorCommand::Sleep { millis: self.config.settle_ms },
            Phase::Pause => MonitorCommand::Sleep { millis: self.config.poll_ms },
            Phase::Deleting => MonitorCommand::DeleteArtifacts,
            Phase::Done => MonitorCommand::Stop,
        }
    }

    /// Moves on once `stream` has been dealt with.
    fn finish_stream(&mut self, stream: Stream, round: Round, events: Vec<CommandEvent>) -> (all: Vec<
        CommandEvent,
    >)
        ensures
            final(self)@ == old(self)@.after_stream(stream, round, event_views(events@)).next,
            event_views(all@) == old(self)@.after_stream(stream, round, event_views(events@)).events,
    {
        let mut all = events;
        match stream {
            Stream::Stdout => {
                self.phase = Phase::Stat { stream: Stream::Stderr, round };
            },
            Stream::Stderr => match round {
                Round::Poll => {
                    self.phase = Phase::ExitCheck;
                },
                Round::Final => {
                    self.phase = Phase::Deleting;
                    all.push(CommandEvent::Terminated { code: self.exit_code });
                    assert(event_views(all@) =~= event_views(events@).push(
                        EventView::Terminated { code: self.exit_code },
                    ));
                },
            },
        }
        all
    }

    /// Takes the driver's report on the command last given, and returns the
    /// events to send to the caller, in their order.
    pub fn handle(&mut self, input: MonitorInput) -> (events: Vec<CommandEvent>)
        ensures
            final(self)@ == old(self)@.step(input@).next,
            event_views(events@) == old(self)@.step(input@).events,
    {
        let mut events: Vec<CommandEvent> = Vec::new();
        assert(event_views(events@) =~= Seq::<EventView>::empty());
        match input {
            MonitorInput::Woke => match self.phase {
                Phase::Grace => {
                    self.phase = Phase::Clock;
                },
                Phase::Settle => {
                    self.phase = Phase::Stat { stream: Stream::Stdout, round: Round::Final };
                },
                Phase::Pause => {
                    self.phase = Phase::Clock;
                },
                _ => {},
            },
            MonitorInput::Elapsed { millis } => match self.phase {
                Phase::Clock => {
                    if millis > self.config.timeout_ms {
                        self.phase = Phase::Deleting;
                        let message =
                            "Timeout: Process did not start or complete. UAC may have been cancelled.".to_owned();
                        events.push(CommandEvent::Error(message));
                        assert(event_views(events@) =~= seq![EventView::Error(timeout_message())]);
                    } else {
                        self.phase = Phase::Stat { stream: Stream::Stdout, round: Round::Poll };
                    }
                },
                _ => {},
            },
            MonitorInput::Length { len } => match self.phase {
                Phase::Stat { stream, round } => {
                    let offset = self.offset(stream);
                    match len {
                        Some(end) => {
                            if end > offset {
                                self.phase = Phase::Read { stream, round, end };
                            } else {
                                events = self.finish_stream(stream, round, events);
                            }
                        },
                        None => {
                            events = self.finish_stream(stream, round, events);
                        },
                    }
                },
                _ => {},
            },
            MonitorInput::Data { bytes } => match self.phase {
                Phase::Read { stream, round, end } => {
                    match bytes {
                        Some(bytes) => {
                            let offset = self.offset(stream);
                            let room: u64 = if end > offset {
                                end - offset
                            } else {
                                0
                            };
                            let chunk = take_chunk(bytes, room);
                            assert(chunk@ == chunk_of(bytes@, end - offset));
                            let moved: u64 = offset + chunk.len() as u64;
                            match stream {
                                Stream::Stdout => {
                                    self.stdout_pos = moved;
                                },
                                Stream::Stderr => {
                                    self.stderr_pos = moved;
                                },
                            }
                            if chunk.len() > 0 {
                                let ghost piece = chunk@;
                                match stream {
                                    Stream::Stdout => {
                                        events.push(CommandEvent::Stdout(chunk));
                                    },
                                    Stream::Stderr => {
                                        events.push(CommandEvent::Stderr(chunk));
                                    },
                                }
                                assert(event_views(events@) =~= seq![chunk_event(stream, piece)]);
                            }
                            events = self.finish_stream(stream, round, events);
                        },
                        None => {
                            events = self.finish_stream(stream, round, events);
                        },
                    }
                },
                _ => {},
            },
            MonitorInput::ExitCode { content } => match self.phase {
                Phase::ExitCheck => {
                    let done = match content {
                        Some(bytes) => read_exit_bytes(bytes.as_slice()).finished(),
                        None => None,
                    };
                    match done {
                        Some(code) => {
                            self.exit_code = code;
                            self.phase = Phase::Settle;
                        },
                        None => {
                            self.phase = Phase::Pause;
                        },
                    }
                },
                _ => {},
            },
            MonitorInput::Deleted => match self.phase {
                Phase::Deleting => {
                    self.phase = Phase::Done;
                },
                _ => {},
            },
        }
        events
    }
}

} // verus!
