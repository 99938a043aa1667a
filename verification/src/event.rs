use vstd::prelude::*;
use vstd::string::*;

verus! {

/// One item of the stream that reports on a command while it runs.
#[derive(Clone, Debug, PartialEq, Eq)]
pub enum CommandEvent {
    /// Bytes that the command has added to its standard output.
    Stdout(Vec<u8>),
    /// Bytes that the command has added to its standard error.
    Stderr(Vec<u8>),
    /// The command has finished, with this exit code where one was read.
    Terminated { code: Option<i32> },
    /// The command could not be followed to its end.
    Error(String),
}

/// A `CommandEvent` as plain values.
pub enum EventView {
    Stdout(Seq<u8>),
    Stderr(Seq<u8>),
    Terminated { code: Option<i32> },
    Error(Seq<char>),
}

impl View for CommandEvent {
    type V = EventView;

    open spec fn view(&self) -> EventView {
        match self {
            CommandEvent::Stdout(bytes) => EventView::Stdout(bytes@),
            CommandEvent::Stderr(bytes) => EventView::Stderr(bytes@),
            CommandEvent::Terminated { code } => EventView::Terminated { code: *code },
            CommandEvent::Error(message) => EventView::Error(message@),
        }
    }
}

impl EventView {
    /// Whether the event ends the stream.
    pub open spec fn is_terminal(self) -> bool {
        self is Terminated || self is Error
    }
}

impl CommandEvent {
    /// Whether the event ends the stream.
    pub fn is_terminal(&self) -> (terminal: bool)
        ensures
            terminal == self@.is_terminal(),
    {
        match self {
            CommandEvent::Terminated { .. } => true,
            CommandEvent::Error(_) => true,
            _ => false,
        }
    }
}

/// The events as plain values, in their order.
pub open spec fn event_views(events: Seq<CommandEvent>) -> Seq<EventView> {
    Seq::new(events.len(), |i: int| events[i]@)
}

/// Whether `events` can be the start of a stream: a terminal event, if there
/// is one, is the last.
pub open spec fn is_stream_prefix(events: Seq<EventView>) -> bool {
    forall|i: int| 0 <= i < events.len() && (#[trigger] events[i]).is_terminal() ==> i
        == events.len() - 1
}

/// Whether `events` is a whole stream: output chunks in any number, then
/// exactly one terminal event.
pub open spec fn is_whole_stream(events: Seq<EventView>) -> bool {
    events.len() > 0 && events.last().is_terminal() && is_stream_prefix(events)
}

/// The bytes of the standard-output chunks of `events`, in one piece.
pub open spec fn stdout_bytes(events: Seq<EventView>) -> Seq<u8>
    decreases events.len(),
{
    if events.len() == 0 {
        Seq::empty()
    } else {
        stdout_bytes(events.drop_last()) + match events.last() {
            EventView::Stdout(bytes) => bytes,
            _ => Seq::empty(),
        }
    }
}

/// The bytes of the standard-error chunks of `events`, in one piece.
pub open spec fn stderr_bytes(events: Seq<EventView>) -> Seq<u8>
    decreases events.len(),
{
    if events.len() == 0 {
        Seq::empty()
    } else {
        stderr_bytes(events.drop_last()) + match events.last() {
            EventView::Stderr(bytes) => bytes,
            _ => Seq::empty(),
        }
    }
}

} // verus!
