use crate::event::{is_stream_prefix, is_whole_stream, stderr_bytes, stdout_bytes, EventView};
use crate::exit_code::{all_whitespace, lemma_exit_code_reads_back, rendered_exit_code};
use crate::monitor::{
    chunk_of, completion_of, fresh_monitor, timeout_message, MonitorConfig, MonitorInputView,
    MonitorView, Phase, Round, Stream,
};
use vstd::prelude::*;
use vstd::utf8::*;

verus! {

/// One report sends at most one terminal event, as the last of its events,
/// and the stream is over from then on: a monitor whose stream is over
/// sends nothing more.
pub proof fn lemma_step_stream_shape(m: MonitorView, input: MonitorInputView)
    ensures
        m.is_over() ==> m.step(input).events.len() == 0 && m.step(input).next.is_over(),
        is_stream_prefix(m.step(input).events),
        !m.is_over() ==> (m.step(input).next.is_over() <==> m.step(input).events.len() > 0
            && m.step(input).events.last().is_terminal()),
{
}

/// However the driver's reports run, the events sent form the start of a
/// well-formed stream: output chunks, then at most one terminal event, and
/// nothing after it. The stream is over exactly when its terminal event is
/// out, and it is then a whole stream.
pub proof fn lemma_run_stream_shape(m: MonitorView, inputs: Seq<MonitorInputView>)
    requires
        !m.is_over(),
    ensures
        is_stream_prefix(m.run(inputs).events),
        m.run(inputs).next.is_over() <==> m.run(inputs).events.len() > 0 && m.run(
            inputs,
        ).events.last().is_terminal(),
        m.run(inputs).next.is_over() ==> is_whole_stream(m.run(inputs).events),
    decreases inputs.len(),
{
    if inputs.len() > 0 {
        lemma_run_stream_shape(m, inputs.drop_last());
        let before = m.run(inputs.drop_last());
        let last = before.next.step(inputs.last());
        lemma_step_stream_shape(before.next, inputs.last());
        let all = before.events + last.events;
        if before.next.is_over() {
            assert(all =~= before.events);
        } else {
            assert forall|i: int| 0 <= i < all.len() && (#[trigger] all[i]).is_terminal() implies i
                == all.len() - 1 by {
                if i < before.events.len() {
                    assert(before.events[i].is_terminal());
                } else {
                    assert(last.events[i - before.events.len()].is_terminal());
                }
            }
            if last.events.len() > 0 {
                assert(all.last() == last.events.last());
            } else {
                assert(all =~= before.events);
            }
        }
    }
}

/// The bytes of the standard-output chunks of two stretches of events, one
/// after the other, are the bytes of the first followed by those of the
/// second; and the same for standard error.
pub proof fn lemma_bytes_of_concat(a: Seq<EventView>, b: Seq<EventView>)
    ensures
        stdout_bytes(a + b) == stdout_bytes(a) + stdout_bytes(b),
        stderr_bytes(a + b) == stderr_bytes(a) + stderr_bytes(b),
    decreases b.len(),
{
    if b.len() == 0 {
        assert(a + b =~= a);
        assert(stdout_bytes(a) + stdout_bytes(b) =~= stdout_bytes(a));
        assert(stderr_bytes(a) + stderr_bytes(b) =~= stderr_bytes(a));
    } else {
        lemma_bytes_of_concat(a, b.drop_last());
        assert((a + b).drop_last() =~= a + b.drop_last());
        assert((a + b).last() == b.last());
        let more_out = match b.last() {
            EventView::Stdout(bytes) => bytes,
            _ => Seq::empty(),
        };
        let more_err = match b.last() {
            EventView::Stderr(bytes) => bytes,
            _ => Seq::empty(),
        };
        assert(stdout_bytes(a + b) =~= stdout_bytes(a) + (stdout_bytes(b.drop_last()) + more_out));
        assert(stderr_bytes(a + b) =~= stderr_bytes(a) + (stderr_bytes(b.drop_last()) + more_err));
    }
}

/// Whether a read that the driver reports agrees with the files: the bytes
/// that the monitor takes from it are the bytes that `out` (for standard
/// output) or `err` (for standard error) holds at the monitor's offset.
pub open spec fn read_is_faithful(
    m: MonitorView,
    input: MonitorInputView,
    out: Seq<u8>,
    err: Seq<u8>,
) -> bool {
    match (m.phase, input) {
        (Phase::Read { stream, end, .. }, MonitorInputView::Data { bytes: Some(bytes) }) => {
            let file = match stream {
                Stream::Stdout => out,
                Stream::Stderr => err,
            };
            let chunk = chunk_of(bytes, end - m.offset(stream));
            m.offset(stream) + chunk.len() <= file.len() && chunk == file.subrange(
                m.offset(stream) as int,
                m.offset(stream) + chunk.len(),
            )
        },
        _ => true,
    }
}

/// Whether every read of a run agrees with the files. This is what holds
/// where the files only grow and `out` and `err` are what they hold in the
/// end.
pub open spec fn run_is_faithful(
    m: MonitorView,
    inputs: Seq<MonitorInputView>,
    out: Seq<u8>,
    err: Seq<u8>,
) -> bool
    decreases inputs.len(),
{
    inputs.len() == 0 || (run_is_faithful(m, inputs.drop_last(), out, err) && read_is_faithful(
        m.run(inputs.drop_last()).next,
        inputs.last(),
        out,
        err,
    ))
}

/// One report moves each offset forward by exactly the bytes that it sends
/// for that stream; where the read is faithful, those are the bytes of the
/// file between the old offset and the new.
pub proof fn lemma_step_passes_bytes_on(
    m: MonitorView,
    input: MonitorInputView,
    out: Seq<u8>,
    err: Seq<u8>,
)
    requires
        m.stdout_pos <= out.len(),
        m.stderr_pos <= err.len(),
        read_is_faithful(m, input, out, err),
    ensures
        m.stdout_pos <= m.step(input).next.stdout_pos <= out.len(),
        m.stderr_pos <= m.step(input).next.stderr_pos <= err.len(),
        stdout_bytes(m.step(input).events) == out.subrange(
            m.stdout_pos as int,
            m.step(input).next.stdout_pos as int,
        ),
        stderr_bytes(m.step(input).events) == err.subrange(
            m.stderr_pos as int,
            m.step(input).next.stderr_pos as int,
        ),
{
    reveal_with_fuel(stdout_bytes, 3);
    reveal_with_fuel(stderr_bytes, 3);
    let s = m.step(input);
    let events = s.events;
    if events.len() == 0 {
        assert(stdout_bytes(events) =~= out.subrange(m.stdout_pos as int, s.next.stdout_pos as int));
        assert(stderr_bytes(events) =~= err.subrange(m.stderr_pos as int, s.next.stderr_pos as int));
    } else if events.len() == 1 {
        assert(events.drop_last() =~= Seq::<EventView>::empty());
        assert(stdout_bytes(events) =~= out.subrange(m.stdout_pos as int, s.next.stdout_pos as int));
        assert(stderr_bytes(events) =~= err.subrange(m.stderr_pos as int, s.next.stderr_pos as int));
    } else {
        assert(events.len() == 2);
        assert(events.drop_last().drop_last() =~= Seq::<EventView>::empty());
        assert(events.drop_last().last() == events[0]);
        assert(stdout_bytes(events) =~= out.subrange(m.stdout_pos as int, s.next.stdout_pos as int));
        assert(stderr_bytes(events) =~= err.subrange(m.stderr_pos as int, s.next.stderr_pos as int));
    }
}

/// For each stream, the chunks sent in a run, laid end to end, are the bytes
/// of the file from the offset at which the run began to the offset at
/// which it ended: nothing is lost, nothing is sent twice, and the order is
/// the order in the file.
pub proof fn lemma_run_passes_bytes_on(
    m: MonitorView,
    inputs: Seq<MonitorInputView>,
    out: Seq<u8>,
    err: Seq<u8>,
)
    requires
        m.stdout_pos <= out.len(),
        m.stderr_pos <= err.len(),
        run_is_faithful(m, inputs, out, err),
    ensures
        m.stdout_pos <= m.run(inputs).next.stdout_pos <= out.len(),
        m.stderr_pos <= m.run(inputs).next.stderr_pos <= err.len(),
        stdout_bytes(m.run(inputs).events) == out.subrange(
            m.stdout_pos as int,
            m.run(inputs).next.stdout_pos as int,
        ),
        stderr_bytes(m.run(inputs).events) == err.subrange(
            m.stderr_pos as int,
            m.run(inputs).next.stderr_pos as int,
        ),
    decreases inputs.len(),
{
    if inputs.len() == 0 {
        assert(stdout_bytes(m.run(inputs).events) =~= out.subrange(
            m.stdout_pos as int,
            m.stdout_pos as int,
        ));
        assert(stderr_bytes(m.run(inputs).events) =~= err.subrange(
            m.stderr_pos as int,
            m.stderr_pos as int,
        ));
    } else {
        lemma_run_passes_bytes_on(m, inputs.drop_last(), out, err);
        let before = m.run(inputs.drop_last());
        let last = before.next.step(inputs.last());
        lemma_step_passes_bytes_on(before.next, inputs.last(), out, err);
        lemma_bytes_of_concat(before.events, last.events);
        assert(out.subrange(m.stdout_pos as int, before.next.stdout_pos as int) + out.subrange(
            before.next.stdout_pos as int,
            last.next.stdout_pos as int,
        ) =~= out.subrange(m.stdout_pos as int, last.next.stdout_pos as int));
        assert(err.subrange(m.stderr_pos as int, before.next.stderr_pos as int) + err.subrange(
            before.next.stderr_pos as int,
            last.next.stderr_pos as int,
        ) =~= err.subrange(m.stderr_pos as int, last.next.stderr_pos as int));
    }
}

/// From a fresh monitor, the standard-output chunks laid end to end are the
/// start of the output file, up to the monitor's offset; and the same for
/// standard error.
pub proof fn lemma_chunks_reconstruct_output(
    config: MonitorConfig,
    inputs: Seq<MonitorInputView>,
    out: Seq<u8>,
    err: Seq<u8>,
)
    requires
        run_is_faithful(fresh_monitor(config), inputs, out, err),
    ensures
        stdout_bytes(fresh_monitor(config).run(inputs).events) == out.take(
            fresh_monitor(config).run(inputs).next.stdout_pos as int,
        ),
        stderr_bytes(fresh_monitor(config).run(inputs).events) == err.take(
            fresh_monitor(config).run(inputs).next.stderr_pos as int,
        ),
{
    lemma_run_passes_bytes_on(fresh_monitor(config), inputs, out, err);
}

/// A read that gives back all the bytes asked for brings the offset to the
/// length that was reported: after it, nothing of the file as it then stood
/// is left unread.
pub proof fn lemma_full_read_reaches_end(m: MonitorView, bytes: Seq<u8>)
    requires
        m.phase is Read,
        m.phase->Read_end >= m.offset(m.phase->Read_stream),
        bytes.len() >= m.phase->Read_end - m.offset(m.phase->Read_stream),
    ensures
        m.step(MonitorInputView::Data { bytes: Some(bytes) }).next.offset(m.phase->Read_stream)
            == m.phase->Read_end,
{
}

/// The timeout is reported exactly when the clock is read and shows more
/// than the ceiling: then, and only then, a report gives rise to an `Error`
/// event. It is the only event of that report, carries the timeout message,
/// and the artifacts are deleted next.
pub proof fn lemma_timeout_exactly_past_ceiling(m: MonitorView, input: MonitorInputView)
    ensures
        (exists|i: int| 0 <= i < m.step(input).events.len() && #[trigger] m.step(input).events[i]
            is Error) <==> (m.phase == Phase::Clock && input is Elapsed && input->millis
            > m.config.timeout_ms),
        (m.phase == Phase::Clock && input is Elapsed && input->millis > m.config.timeout_ms) ==> {
            &&& m.step(input).events == seq![EventView::Error(timeout_message())]
            &&& m.step(input).next.phase == Phase::Deleting
        },
        (m.phase == Phase::Clock && input is Elapsed && input->millis <= m.config.timeout_ms)
            ==> {
            &&& m.step(input).events.len() == 0
            &&& m.step(input).next.phase == Phase::Stat {
                stream: Stream::Stdout,
                round: Round::Poll,
            }
        },
{
    let events = m.step(input).events;
    if m.phase == Phase::Clock && input is Elapsed && input->millis > m.config.timeout_ms {
        assert(events[0] is Error);
    }
}

/// Whether `input` reports a clock within the ceiling, if it reports a clock.
pub open spec fn within_ceiling(input: MonitorInputView, config: MonitorConfig) -> bool {
    input matches MonitorInputView::Elapsed { millis } ==> millis <= config.timeout_ms
}

/// Whether `input` reports an exit-code file that does not show the command
/// finished, if it reports the exit-code file.
pub open spec fn shows_unfinished(input: MonitorInputView) -> bool {
    input matches MonitorInputView::ExitCode { content } ==> completion_of(content) is None
}

/// As long as the exit-code file does not show the command finished, the
/// stream can end in one way only: with the timeout. And as long as,
/// besides, the clock stays within the ceiling, the stream does not end:
/// the monitor keeps polling and sends output chunks only.
pub proof fn lemma_no_end_before_ceiling(config: MonitorConfig, inputs: Seq<MonitorInputView>)
    requires
        forall|j: int| 0 <= j < inputs.len() ==> shows_unfinished(#[trigger] inputs[j]),
    ensures
        !fresh_monitor(config).run(inputs).next.is_closing(),
        fresh_monitor(config).run(inputs).next.config == config,
        forall|i: int|
            0 <= i < fresh_monitor(config).run(inputs).events.len() && (
            #[trigger] fresh_monitor(config).run(inputs).events[i]).is_terminal()
                ==> fresh_monitor(config).run(inputs).events[i] == EventView::Error(
                timeout_message(),
            ),
        (forall|j: int| 0 <= j < inputs.len() ==> within_ceiling(#[trigger] inputs[j], config))
            ==> {
            &&& !fresh_monitor(config).run(inputs).next.is_over()
            &&& forall|i: int|
                0 <= i < fresh_monitor(config).run(inputs).events.len() ==> !(
                #[trigger] fresh_monitor(config).run(inputs).events[i]).is_terminal()
        },
    decreases inputs.len(),
{
    let m = fresh_monitor(config);
    if inputs.len() > 0 {
        let shorter = inputs.drop_last();
        assert forall|j: int| 0 <= j < shorter.len() implies shows_unfinished(
            #[trigger] shorter[j],
        ) by {
            assert(shorter[j] == inputs[j]);
        }
        lemma_no_end_before_ceiling(config, shorter);
        let before = m.run(shorter);
        let last = before.next.step(inputs.last());
        let all = before.events + last.events;
        assert(shows_unfinished(inputs[inputs.len() - 1]));
        assert forall|i: int| 0 <= i < all.len() && (#[trigger] all[i]).is_terminal() implies all[i]
            == EventView::Error(timeout_message()) by {
            if i < before.events.len() {
                assert(before.events[i].is_terminal());
            } else {
                assert(last.events[i - before.events.len()].is_terminal());
            }
        }
        if forall|j: int| 0 <= j < inputs.len() ==> within_ceiling(#[trigger] inputs[j], config) {
            assert forall|j: int| 0 <= j < shorter.len() implies within_ceiling(
                #[trigger] shorter[j],
                config,
            ) by {
                assert(shorter[j] == inputs[j]);
            }
            assert(within_ceiling(inputs[inputs.len() - 1], config));
            assert forall|i: int| 0 <= i < all.len() implies !(#[trigger] all[i]).is_terminal() by {
                if i < before.events.len() {
                    assert(!before.events[i].is_terminal());
                } else {
                    assert(last.events[i - before.events.len()] == all[i]);
                }
            }
        }
    }
}

/// Whether `input` reports an exit-code file that shows the command
/// finished with `code`.
pub open spec fn shows_finished(input: MonitorInputView, code: Option<i32>) -> bool {
    input matches MonitorInputView::ExitCode { content } && completion_of(content) == Some(code)
}

/// The exit code of a `Terminated` event is one that the driver reported:
/// some report of the run showed the exit-code file with that code in it
/// (or, for an event without code, with text in it that is no number).
pub proof fn lemma_terminated_carries_code_read(
    config: MonitorConfig,
    inputs: Seq<MonitorInputView>,
)
    ensures
        fresh_monitor(config).run(inputs).next.is_closing() ==> exists|j: int|
            0 <= j < inputs.len() && shows_finished(
                #[trigger] inputs[j],
                fresh_monitor(config).run(inputs).next.exit_code,
            ),
        forall|i: int|
            0 <= i < fresh_monitor(config).run(inputs).events.len() && (
            #[trigger] fresh_monitor(config).run(inputs).events[i]) is Terminated ==> exists|j: int|

                0 <= j < inputs.len() && shows_finished(
                    #[trigger] inputs[j],
                    fresh_monitor(config).run(inputs).events[i]->code,
                ),
    decreases inputs.len(),
{
    let m = fresh_monitor(config);
    if inputs.len() > 0 {
        let shorter = inputs.drop_last();
        lemma_terminated_carries_code_read(config, shorter);
        let before = m.run(shorter);
        let last = before.next.step(inputs.last());
        let all = before.events + last.events;
        let after = last.next;
        if before.next.is_closing() {
            let j = choose|j: int|
                0 <= j < shorter.len() && shows_finished(
                    #[trigger] shorter[j],
                    before.next.exit_code,
                );
            assert(inputs[j] == shorter[j]);
            assert(after.exit_code == before.next.exit_code);
        }
        if after.is_closing() && !before.next.is_closing() {
            assert(shows_finished(inputs[inputs.len() - 1], after.exit_code));
        }
        assert forall|i: int| 0 <= i < all.len() && (#[trigger] all[i]) is Terminated implies exists|
            j: int,
        |
            0 <= j < inputs.len() && shows_finished(#[trigger] inputs[j], all[i]->code) by {
            if i < before.events.len() {
                assert(before.events[i] is Terminated);
                let j = choose|j: int|
                    0 <= j < shorter.len() && shows_finished(
                        #[trigger] shorter[j],
                        before.events[i]->code,
                    );
                assert(inputs[j] == shorter[j]);
            } else {
                assert(last.events[i - before.events.len()] == all[i]);
                assert(before.next.is_closing());
                assert(all[i]->code == before.next.exit_code);
                let j = choose|j: int|
                    0 <= j < shorter.len() && shows_finished(
                        #[trigger] shorter[j],
                        before.next.exit_code,
                    );
                assert(inputs[j] == shorter[j]);
            }
        }
    }
}

/// The report that the artifacts are gone may come twice: the second
/// changes nothing and sends nothing.
pub proof fn lemma_repeated_deletion_changes_nothing(m: MonitorView)
    ensures
        m.step(MonitorInputView::Deleted).next.step(MonitorInputView::Deleted).next == m.step(
            MonitorInputView::Deleted,
        ).next,
        m.step(MonitorInputView::Deleted).next.step(MonitorInputView::Deleted).events.len() == 0,
{
}

/// An exit code that the shell has written to the exit-code file is seen by
/// the monitor as that code: the command counts as finished, and the
/// terminal event that follows the last read carries the code.
pub proof fn lemma_monitor_reports_exit_code(
    m: MonitorView,
    code: i32,
    lead: Seq<char>,
    trail: Seq<char>,
)
    requires
        m.phase == Phase::ExitCheck,
        all_whitespace(lead),
        all_whitespace(trail),
    ensures
        ({
            let content = encode_utf8(lead + rendered_exit_code(code as int) + trail);
            let seen = m.step(MonitorInputView::ExitCode { content: Some(content) }).next;
            &&& seen.phase == Phase::Settle
            &&& seen.exit_code == Some(code)
            &&& seen.run(
                seq![
                    MonitorInputView::Woke,
                    MonitorInputView::Length { len: None },
                    MonitorInputView::Length { len: None },
                ],
            ).events == seq![EventView::Terminated { code: Some(code) }]
        }),
{
    lemma_exit_code_reads_back(code, lead, trail);
    let content = encode_utf8(lead + rendered_exit_code(code as int) + trail);
    let seen = m.step(MonitorInputView::ExitCode { content: Some(content) }).next;
    let inputs = seq![
        MonitorInputView::Woke,
        MonitorInputView::Length { len: None },
        MonitorInputView::Length { len: None },
    ];
    let two = inputs.drop_last();
    let one = two.drop_last();
    assert(one.drop_last() =~= Seq::<MonitorInputView>::empty());
    reveal_with_fuel(MonitorView::run, 4);
    assert(seen.run(one.drop_last()).events =~= Seq::<EventView>::empty());
    assert(seen.run(inputs).events =~= seq![EventView::Terminated { code: Some(code) }]);
}

} // verus!
