use crate::exit_code::{
    all_whitespace, lemma_exit_code_reads_back, read_exit_bytes, reading_of_bytes,
    rendered_exit_code,
};
use vstd::utf8::*;
use vstd::prelude::*;
use vstd::string::*;

verus! {

/// What the blocking collector returns for a command that ran: the raw exit
/// status and everything the command wrote to its two output streams.
#[derive(Clone, Debug, PartialEq, Eq)]
pub struct ExitOutcome {
    pub status: u32,
    pub stdout: Vec<u8>,
    pub stderr: Vec<u8>,
}

/// An `ExitOutcome` as plain values.
pub struct OutcomeView {
    pub status: u32,
    pub stdout: Seq<u8>,
    pub stderr: Seq<u8>,
}

impl View for ExitOutcome {
    type V = OutcomeView;

    open spec fn view(&self) -> OutcomeView {
        OutcomeView { status: self.status, stdout: self.stdout@, stderr: self.stderr@ }
    }
}

/// The raw status that stands for the exit code `code`: the same 32 bits,
/// read as an unsigned number.
pub open spec fn raw_status(code: i32) -> u32 {
    if code >= 0 {
        code as u32
    } else {
        (code + 0x1_0000_0000) as u32
    }
}

/// The exit code that the raw status `status` stands for.
pub open spec fn exit_code_of(status: u32) -> i32 {
    if status <= 0x7fff_ffff {
        status as i32
    } else {
        (status - 0x1_0000_0000) as i32
    }
}

/// What a file that may be missing holds; a missing file counts as empty.
pub open spec fn bytes_or_empty(content: Option<Seq<u8>>) -> Seq<u8> {
    match content {
        Some(bytes) => bytes,
        None => Seq::empty(),
    }
}

/// The exit code that the exit-code file stands for: the number in it, and
/// zero where the file is missing or holds anything else.
pub open spec fn exit_code_or_default(content: Option<Seq<u8>>) -> i32 {
    match content {
        Some(bytes) => reading_of_bytes(bytes).code_or_zero(),
        None => 0,
    }
}

/// The outcome assembled from the three sentinel files as they were found.
pub open spec fn collected(
    exit_code: Option<Seq<u8>>,
    stdout: Option<Seq<u8>>,
    stderr: Option<Seq<u8>>,
) -> OutcomeView {
    OutcomeView {
        status: raw_status(exit_code_or_default(exit_code)),
        stdout: bytes_or_empty(stdout),
        stderr: bytes_or_empty(stderr),
    }
}

/// The bytes of an optional buffer, as a plain value.
pub open spec fn content_view(content: Option<Vec<u8>>) -> Option<Seq<u8>> {
    match content {
        Some(bytes) => Some(bytes@),
        None => None,
    }
}

fn status_of_code(code: i32) -> (status: u32)
    ensures
        status == raw_status(code),
{
    if code >= 0 {
        code as u32
    } else {
        (code as i64 + 0x1_0000_0000) as u32
    }
}

impl ExitOutcome {
    /// Assembles the outcome from the three sentinel files. Each is given as
    /// it was found: `None` where it is missing or could not be read.
    pub fn collect(
        exit_code: Option<Vec<u8>>,
        stdout: Option<Vec<u8>>,
        stderr: Option<Vec<u8>>,
    ) -> (outcome: ExitOutcome)
        ensures
            outcome@ == collected(content_view(exit_code), content_view(stdout), content_view(stderr)),
    {
        let code = match exit_code {
            Some(bytes) => read_exit_bytes(bytes.as_slice()).exit_code_or_zero(),
            None => 0,
        };
        let out = match stdout {
            Some(bytes) => bytes,
            None => Vec::new(),
        };
        let err = match stderr {
            Some(bytes) => bytes,
            None => Vec::new(),
        };
        ExitOutcome { status: status_of_code(code), stdout: out, stderr: err }
    }

    /// The exit code of the command.
    pub fn code(&self) -> (code: i32)
        ensures
            code == exit_code_of(self.status),
    {
        if self.status <= 0x7fff_ffff {
            self.status as i32
        } else {
            (self.status as i64 - 0x1_0000_0000) as i32
        }
    }
}

/// The raw status keeps the exit code: reading it back gives the code.
pub proof fn lemma_status_keeps_code(code: i32)
    ensures
        exit_code_of(raw_status(code)) == code,
{
}

/// An exit code that the shell has written to the exit-code file is the
/// exit code of the outcome, whatever the two output files hold.
pub proof fn lemma_outcome_reports_exit_code(
    code: i32,
    lead: Seq<char>,
    trail: Seq<char>,
    stdout: Option<Seq<u8>>,
    stderr: Option<Seq<u8>>,
)
    requires
        all_whitespace(lead),
        all_whitespace(trail),
    ensures
        exit_code_of(
            collected(
                Some(encode_utf8(lead + rendered_exit_code(code as int) + trail)),
                stdout,
                stderr,
            ).status,
        ) == code,
{
    lemma_exit_code_reads_back(code, lead, trail);
}

/// Why the blocking collector returned no outcome.
#[derive(Clone, Copy, Debug, PartialEq, Eq)]
pub enum CollectError {
    /// The wrapper script could not be written.
    IoFailure,
    /// The request for elevation was declined or failed, or it gave no
    /// handle to wait on and no fallback was allowed.
    ElevationFailed,
}

impl CollectError {
    /// The error in words.
    pub open spec fn message_text(self) -> Seq<char> {
        match self {
            CollectError::IoFailure => "Failed to write the wrapper script"@,
            CollectError::ElevationFailed => "Failed to execute elevated command"@,
        }
    }

    /// The error in words.
    pub fn message(&self) -> (text: String)
        ensures
            text@ == self.message_text(),
    {
        match self {
            CollectError::IoFailure => "Failed to write the wrapper script".to_owned(),
            CollectError::ElevationFailed => "Failed to execute elevated command".to_owned(),
        }
    }
}

/// How far a blocking invocation has come.
#[derive(Clone, Copy, Debug, PartialEq, Eq)]
pub enum CollectorStage {
    /// Nothing has been done.
    Idle,
    /// The wrapper script is on disk.
    ScriptWritten,
    /// The operating system has accepted the request for elevation.
    Elevated,
    /// The broker's handle is valid and is being waited on.
    Waiting,
    /// There is no handle; a delay of this many milliseconds stands in for
    /// the wait.
    HeuristicSleep { millis: u64 },
    /// The sentinel files have been read and the outcome is assembled.
    Collected,
    /// A step has failed; the artifacts are still to be deleted.
    Failed,
    /// The artifacts have been deleted; the result can be handed out.
    CleanedUp,
}

/// What the driver has to do next.
#[derive(Clone, Copy, Debug, PartialEq, Eq)]
pub enum CollectorAction {
    /// Write the wrapper script to disk, and report `ScriptStored`.
    WriteScript,
    /// Ask the operating system to run the script with elevated rights,
    /// keeping the broker's handle, and report `ElevationRequested`.
    RequestElevation,
    /// See whether the broker's handle is valid, and report
    /// `HandleInspected`.
    InspectHandle,
    /// Block on the broker's handle until the broker exits, then read the
    /// three sentinel files and report `SentinelsRead`.
    WaitForBroker,
    /// Sleep for this long, then read the three sentinel files and report
    /// `SentinelsRead`.
    Sleep { millis: u64 },
    /// Delete the script and the three sentinel files, ignoring failures,
    /// and report `ArtifactsDeleted`.
    DeleteArtifacts,
    /// Take the result and return it to the caller.
    Return,
}

/// What the driver reports after an action.
#[derive(Clone, Debug, PartialEq, Eq)]
pub enum CollectorEvent {
    /// The script was written (`ok`), or writing it failed.
    ScriptStored { ok: bool },
    /// The request for elevation was accepted (`granted`), or was declined
    /// or failed.
    ElevationRequested { granted: bool },
    /// The broker's handle is valid, or is not.
    HandleInspected { valid: bool },
    /// The three sentinel files as they were found, each `None` where it is
    /// missing or could not be read.
    SentinelsRead { exit_code: Option<Vec<u8>>, stdout: Option<Vec<u8>>, stderr: Option<Vec<u8>> },
    /// The artifacts are gone.
    ArtifactsDeleted,
}

/// A `CollectorEvent` as plain values.
pub enum CollectorEventView {
    ScriptStored { ok: bool },
    ElevationRequested { granted: bool },
    HandleInspected { valid: bool },
    SentinelsRead { exit_code: Option<Seq<u8>>, stdout: Option<Seq<u8>>, stderr: Option<Seq<u8>> },
    ArtifactsDeleted,
}

impl View for CollectorEvent {
    type V = CollectorEventView;

    open spec fn view(&self) -> CollectorEventView {
        match self {
            CollectorEvent::ScriptStored { ok } => CollectorEventView::ScriptStored { ok: *ok },
            CollectorEvent::ElevationRequested { granted } => {
                CollectorEventView::ElevationRequested { granted: *granted }
            },
            CollectorEvent::HandleInspected { valid } => CollectorEventView::HandleInspected {
                valid: *valid,
            },
            CollectorEvent::SentinelsRead { exit_code, stdout, stderr } => {
                CollectorEventView::SentinelsRead {
                    exit_code: content_view(*exit_code),
                    stdout: content_view(*stdout),
                    stderr: content_view(*stderr),
                }
            },
            CollectorEvent::ArtifactsDeleted => CollectorEventView::ArtifactsDeleted,
        }
    }
}

/// The result of an invocation as plain values.
pub open spec fn result_view(result: Option<Result<ExitOutcome, CollectError>>) -> Option<
    Result<OutcomeView, CollectError>,
> {
    match result {
        Some(Ok(outcome)) => Some(Ok(outcome@)),
        Some(Err(error)) => Some(Err(error)),
        None => None,
    }
}

/// The blocking collector as plain values.
pub struct CollectorView {
    pub stage: CollectorStage,
    pub fallback_delay_ms: Option<u64>,
    pub result: Option<Result<OutcomeView, CollectError>>,
}

impl CollectorView {
    /// The result is there from the moment the invocation has either been
    /// collected or has failed, and not before; it is an outcome in the
    /// first case and an error in the second. A delay is slept only where
    /// one was allowed, and for as long as was allowed.
    pub open spec fn wf(self) -> bool {
        match self.stage {
            CollectorStage::Collected => self.result is Some && self.result->0 is Ok,
            CollectorStage::Failed => self.result is Some && self.result->0 is Err,
            CollectorStage::CleanedUp => self.result is Some,
            CollectorStage::HeuristicSleep { millis } => self.result is None
                && self.fallback_delay_ms == Some(millis),
            _ => self.result is None,
        }
    }

    /// The collector that has failed with `error`.
    pub open spec fn failed(self, error: CollectError) -> CollectorView {
        CollectorView { stage: CollectorStage::Failed, result: Some(Err(error)), ..self }
    }

    /// The collector at `stage`, otherwise unchanged.
    pub open spec fn at(self, stage: CollectorStage) -> CollectorView {
        CollectorView { stage, ..self }
    }

    /// What the driver has to do at this stage.
    pub open spec fn action(self) -> CollectorAction {
        match self.stage {
            CollectorStage::Idle => CollectorAction::WriteScript,
            CollectorStage::ScriptWritten => CollectorAction::RequestElevation,
            CollectorStage::Elevated => CollectorAction::InspectHandle,
            CollectorStage::Waiting => CollectorAction::WaitForBroker,
            CollectorStage::HeuristicSleep { millis } => CollectorAction::Sleep { millis },
            CollectorStage::Collected => CollectorAction::DeleteArtifacts,
            CollectorStage::Failed => CollectorAction::DeleteArtifacts,
            CollectorStage::CleanedUp => CollectorAction::Return,
        }
    }

    /// The collector after the driver has reported `event`. A report that
    /// does not answer the action of the stage changes nothing.
    pub open spec fn advance(self, event: CollectorEventView) -> CollectorView {
        match (self.stage, event) {
            (CollectorStage::Idle, CollectorEventView::ScriptStored { ok }) => if ok {
                self.at(CollectorStage::ScriptWritten)
            } else {
                self.failed(CollectError::IoFailure)
            },
            (
                CollectorStage::ScriptWritten,
                CollectorEventView::ElevationRequested { granted },
            ) => if granted {
                self.at(CollectorStage::Elevated)
            } else {
                self.failed(CollectError::ElevationFailed)
            },
            (CollectorStage::Elevated, CollectorEventView::HandleInspected { valid }) => if valid {
                self.at(CollectorStage::Waiting)
            } else {
                match self.fallback_delay_ms {
                    Some(millis) => self.at(CollectorStage::HeuristicSleep { millis }),
                    None => self.failed(CollectError::ElevationFailed),
                }
            },
            (
                CollectorStage::Waiting,
                CollectorEventView::SentinelsRead { exit_code, stdout, stderr },
            ) => CollectorView {
                stage: CollectorStage::Collected,
                result: Some(Ok(collected(exit_code, stdout, stderr))),
                ..self
            },
            (
                CollectorStage::HeuristicSleep { .. },
                CollectorEventView::SentinelsRead { exit_code, stdout, stderr },
            ) => CollectorView {
                stage: CollectorStage::Collected,
                result: Some(Ok(collected(exit_code, stdout, stderr))),
                ..self
            },
            (CollectorStage::Collected, CollectorEventView::ArtifactsDeleted) => self.at(
                CollectorStage::CleanedUp,
            ),
            (CollectorStage::Failed, CollectorEventView::ArtifactsDeleted) => self.at(
                CollectorStage::CleanedUp,
            ),
            _ => self,
        }
    }

    /// The collector after the driver has reported `events`, one by one.
    pub open spec fn advance_all(self, events: Seq<CollectorEventView>) -> CollectorView
        decreases events.len(),
    {
        if events.len() == 0 {
            self
        } else {
            self.advance_all(events.drop_last()).advance(events.last())
        }
    }
}

/// The collector before anything has been done.
pub open spec fn idle_collector(fallback_delay_ms: Option<u64>) -> CollectorView {
    CollectorView { stage: CollectorStage::Idle, fallback_delay_ms, result: None }
}

/// The blocking output collector: it says what to do next and takes the
/// driver's reports, and in the end holds the outcome or the error.
pub struct BlockingCollector {
    stage: CollectorStage,
    fallback_delay_ms: Option<u64>,
    result: Option<Result<ExitOutcome, CollectError>>,
}

impl View for BlockingCollector {
    type V = CollectorView;

    closed spec fn view(&self) -> CollectorView {
        CollectorView {
            stage: self.stage,
            fallback_delay_ms: self.fallback_delay_ms,
            result: result_view(self.result),
        }
    }
}

impl BlockingCollector {
    /// A collector for an invocation that waits on the broker's handle, and
    /// fails where there is none.
    pub fn new() -> (collector: BlockingCollector)
        ensures
            collector@ == idle_collector(None),
    {
        BlockingCollector { stage: CollectorStage::Idle, fallback_delay_ms: None, result: None }
    }

    /// A collector for an invocation that waits on the broker's handle, and
    /// where there is none sleeps for `millis` milliseconds instead.
    pub fn with_fallback_delay(millis: u64) -> (collector: BlockingCollector)
        ensures
            collector@ == idle_collector(Some(millis)),
    {
        BlockingCollector {
            stage: CollectorStage::Idle,
            fallback_delay_ms: Some(millis),
            result: None,
        }
    }

    /// How far the invocation has come.
    pub fn stage(&self) -> (stage: CollectorStage)
        ensures
            stage == self@.stage,
    {
        self.stage
    }

    /// What the driver has to do next.
    pub fn action(&self) -> (action: CollectorAction)
        ensures
            action == self@.action(),
    {
        match self.stage {
            CollectorStage::Idle => CollectorAction::WriteScript,
            CollectorStage::ScriptWritten => CollectorAction::RequestElevation,
            CollectorStage::Elevated => CollectorAction::InspectHandle,
            CollectorStage::Waiting => CollectorAction::WaitForBroker,
            CollectorStage::HeuristicSleep { millis } => CollectorAction::Sleep { millis },
            CollectorStage::Collected => CollectorAction::DeleteArtifacts,
            CollectorStage::Failed => CollectorAction::DeleteArtifacts,
            CollectorStage::CleanedUp => CollectorAction::Return,
        }
    }

    /// Takes the driver's report on the action last asked for.
    pub fn handle(&mut self, event: CollectorEvent)
        ensures
            final(self)@ == old(self)@.advance(event@),
    {
        match event {
            CollectorEvent::ScriptStored { ok } => match self.stage {
                CollectorStage::Idle => {
                    if ok {
                        self.stage = CollectorStage::ScriptWritten;
                    } else {
                        self.fail(CollectError::IoFailure);
                    }
                },
                _ => {},
            },
            CollectorEvent::ElevationRequested { granted } => match self.stage {
                CollectorStage::ScriptWritten => {
                    if granted {
                        self.stage = CollectorStage::Elevated;
                    } else {
                        self.fail(CollectError::ElevationFailed);
                    }
                },
                _ => {},
            },
            CollectorEvent::HandleInspected { valid } => match self.stage {
                CollectorStage::Elevated => {
                    if valid {
                        self.stage = CollectorStage::Waiting;
                    } else {
                        match self.fallback_delay_ms {
                            Some(millis) => {
                                self.stage = CollectorStage::HeuristicSleep { millis };
                            },
                            None => {
                                self.fail(CollectError::ElevationFailed);
                            },
                        }
                    }
                },
                _ => {},
            },
            CollectorEvent::SentinelsRead { exit_code, stdout, stderr } => match self.stage {
                CollectorStage::Waiting | CollectorStage::HeuristicSleep { .. } => {
                    self.result = Some(Ok(ExitOutcome::collect(exit_code, stdout, stderr)));
                    self.stage = CollectorStage::Collected;
                },
                _ => {},
            },
            CollectorEvent::ArtifactsDeleted => match self.stage {
                CollectorStage::Collected | CollectorStage::Failed => {
                    self.stage = CollectorStage::CleanedUp;
                },
                _ => {},
            },
        }
    }

    fn fail(&mut self, error: CollectError)
        ensures
            final(self)@ == old(self)@.failed(error),
    {
        self.stage = CollectorStage::Failed;
        self.result = Some(Err(error));
    }

    /// Hands out the result once the artifacts have been deleted, and
    /// nothing before that.
    pub fn into_result(self) -> (result: Option<Result<ExitOutcome, CollectError>>)
        ensures
            result_view(result) == if self@.stage == CollectorStage::CleanedUp {
                self@.result
            } else {
                None
            },
    {
        match self.stage {
            CollectorStage::CleanedUp => self.result,
            _ => None,
        }
    }
}

/// No result is handed out before the artifacts have been deleted: the
/// collector comes to its last stage only from a stage whose action is to
/// delete them, and on the report that they are gone. This holds on the
/// failure paths as on the path that collects an outcome.
pub proof fn lemma_cleanup_comes_first(before: CollectorView, event: CollectorEventView)
    requires
        before.stage != CollectorStage::CleanedUp,
        before.advance(event).stage == CollectorStage::CleanedUp,
    ensures
        before.action() == CollectorAction::DeleteArtifacts,
        event == CollectorEventView::ArtifactsDeleted,
        before.advance(event).result == before.result,
{
}

/// The report that the artifacts are gone may come twice: the second
/// changes nothing.
pub proof fn lemma_repeated_deletion_changes_nothing(before: CollectorView)
    ensures
        before.advance(CollectorEventView::ArtifactsDeleted).advance(
            CollectorEventView::ArtifactsDeleted,
        ) == before.advance(CollectorEventView::ArtifactsDeleted),
{
}

/// Whatever the driver reports, and in whatever order, a collector that
/// started idle stays well-formed: at its last stage it holds a result.
pub proof fn lemma_collector_stays_wf(
    fallback_delay_ms: Option<u64>,
    events: Seq<CollectorEventView>,
)
    ensures
        idle_collector(fallback_delay_ms).advance_all(events).wf(),
        idle_collector(fallback_delay_ms).advance_all(events).fallback_delay_ms
            == fallback_delay_ms,
    decreases events.len(),
{
    if events.len() > 0 {
        lemma_collector_stays_wf(fallback_delay_ms, events.drop_last());
    }
}

/// The invocation that goes well: the script is written, elevation is
/// granted with a valid handle, the broker exits and the sentinels are read,
/// the artifacts are deleted. The result is then the outcome assembled from
/// the sentinels.
pub proof fn lemma_collector_happy_path(
    fallback_delay_ms: Option<u64>,
    exit_code: Option<Seq<u8>>,
    stdout: Option<Seq<u8>>,
    stderr: Option<Seq<u8>>,
)
    ensures
        idle_collector(fallback_delay_ms).advance(
            CollectorEventView::ScriptStored { ok: true },
        ).advance(CollectorEventView::ElevationRequested { granted: true }).advance(
            CollectorEventView::HandleInspected { valid: true },
        ).advance(CollectorEventView::SentinelsRead { exit_code, stdout, stderr }).advance(
            CollectorEventView::ArtifactsDeleted,
        ) == (CollectorView {
            stage: CollectorStage::CleanedUp,
            fallback_delay_ms,
            result: Some(Ok(collected(exit_code, stdout, stderr))),
        }),
{
}

} // verus!
