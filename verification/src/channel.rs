//! What the messages of a channel mean to those who wait for them: a byte
//! pipe, the event stream of a shell, the output of a command, and the banner
//! of a forwarded port.
use crate::error::SshSpikeError;
use crate::model::{SshSpikeEvent, SshSpikeEventSink};
use vstd::prelude::*;

verus! {

/// A message that arrived on a channel, as far as it is told apart here.
#[derive(Debug)]
pub enum ChannelMessage {
    Data { data: Vec<u8> },
    ExtendedData { data: Vec<u8> },
    ExitStatus { code: u32 },
    Eof,
    Close,
    Other,
}

/// A message with its bytes as a sequence.
pub enum MessageView {
    Data(Seq<u8>),
    ExtendedData(Seq<u8>),
    ExitStatus(u32),
    Eof,
    Close,
    Other,
}

impl View for ChannelMessage {
    type V = MessageView;

    open spec fn view(&self) -> MessageView {
        match self {
            ChannelMessage::Data { data } => MessageView::Data(data@),
            ChannelMessage::ExtendedData { data } => MessageView::ExtendedData(data@),
            ChannelMessage::ExitStatus { code } => MessageView::ExitStatus(*code),
            ChannelMessage::Eof => MessageView::Eof,
            ChannelMessage::Close => MessageView::Close,
            ChannelMessage::Other => MessageView::Other,
        }
    }
}

/// What a wait for the next message gave: a message, or nothing because the
/// channel is gone.
pub open spec fn arrival(msg: Option<ChannelMessage>) -> Option<MessageView> {
    match msg {
        Some(m) => Some(m@),
        None => None,
    }
}

// ---------------------------------------------------------------- byte pipe

/// What a read of a byte pipe returns for an arrival: the bytes of either
/// stream, nothing at the end, and no return for any other message, nor for
/// one of data without a byte in it.
pub open spec fn chunk_of(msg: Option<MessageView>) -> Option<Seq<u8>> {
    match msg {
        Some(MessageView::Data(data)) => if data.len() > 0 {
            Some(data)
        } else {
            None
        },
        Some(MessageView::ExtendedData(data)) => if data.len() > 0 {
            Some(data)
        } else {
            None
        },
        Some(MessageView::Eof) => Some(Seq::empty()),
        Some(MessageView::Close) => Some(Seq::empty()),
        None => Some(Seq::empty()),
        Some(MessageView::ExitStatus(_)) => None,
        Some(MessageView::Other) => None,
    }
}

/// The chunk that a read of a byte pipe returns for an arrival, or `None` to
/// wait for the next one.
pub fn read_chunk(msg: Option<ChannelMessage>) -> (chunk: Option<Vec<u8>>)
    ensures
        match chunk {
            Some(bytes) => chunk_of(arrival(msg)) == Some(bytes@),
            None => chunk_of(arrival(msg)) is None,
        },
        match msg {
            Some(ChannelMessage::Data { data }) => if data@.len() > 0 {
                chunk matches Some(bytes) && bytes@ == data@
            } else {
                chunk is None
            },
            Some(ChannelMessage::ExtendedData { data }) => if data@.len() > 0 {
                chunk matches Some(bytes) && bytes@ == data@
            } else {
                chunk is None
            },
            Some(ChannelMessage::Eof) => chunk matches Some(bytes) && bytes@.len() == 0,
            Some(ChannelMessage::Close) => chunk matches Some(bytes) && bytes@.len() == 0,
            None => chunk matches Some(bytes) && bytes@.len() == 0,
            Some(ChannelMessage::ExitStatus { .. }) => chunk is None,
            Some(ChannelMessage::Other) => chunk is None,
        },
{
    match msg {
        Some(ChannelMessage::Data { data }) => if data.len() > 0 {
            Some(data)
        } else {
            None
        },
        Some(ChannelMessage::ExtendedData { data }) => if data.len() > 0 {
            Some(data)
        } else {
            None
        },
        Some(ChannelMessage::Eof) => Some(Vec::new()),
        Some(ChannelMessage::Close) => Some(Vec::new()),
        None => Some(Vec::new()),
        Some(ChannelMessage::ExitStatus { .. }) => None,
        Some(ChannelMessage::Other) => None,
    }
}

/// An empty chunk means that the remote side has half-closed or the channel is
/// closed, and nothing else.
pub proof fn an_empty_chunk_is_the_end(msg: Option<MessageView>)
    ensures
        chunk_of(msg) == Some(Seq::<u8>::empty()) <==> (msg is None || msg == Some(
            MessageView::Eof,
        ) || msg == Some(MessageView::Close)),
{
}

/// A chunk that is not empty is all the bytes of one message of data, and every
/// message of data with a byte in it is such a chunk.
pub proof fn a_chunk_is_a_whole_message(msg: Option<MessageView>, bytes: Seq<u8>)
    requires
        bytes.len() > 0,
    ensures
        chunk_of(msg) == Some(bytes) <==> (msg == Some(MessageView::Data(bytes)) || msg == Some(
            MessageView::ExtendedData(bytes),
        )),
{
}

/// A read waits on exactly at a message that neither has a byte of data nor
/// ends the stream.
pub proof fn a_read_waits_for_data_or_the_end(msg: Option<MessageView>)
    ensures
        chunk_of(msg) is None <==> (msg matches Some(m) && {
            ||| m == MessageView::Data(Seq::empty())
            ||| m == MessageView::ExtendedData(Seq::empty())
            ||| m is ExitStatus
            ||| m is Other
        }),
{
    assert forall|d: Seq<u8>| d.len() == 0 implies d == Seq::<u8>::empty() by {
        assert(d =~= Seq::<u8>::empty());
    }
}

/// What the reads of a byte pipe give for a run of arrivals, put together, up to
/// the first empty chunk.
pub open spec fn read_through(msgs: Seq<Option<MessageView>>) -> Seq<u8>
    decreases msgs.len(),
{
    if msgs.len() == 0 {
        Seq::empty()
    } else {
        match chunk_of(msgs.first()) {
            Some(bytes) => if bytes.len() == 0 {
                Seq::empty()
            } else {
                bytes + read_through(msgs.drop_first())
            },
            None => read_through(msgs.drop_first()),
        }
    }
}

/// The bytes of all the messages of data in a run of arrivals, up to the end of
/// data, the close of the channel, or its loss.
pub open spec fn bytes_sent(msgs: Seq<Option<MessageView>>) -> Seq<u8>
    decreases msgs.len(),
{
    if msgs.len() == 0 {
        Seq::empty()
    } else {
        match msgs.first() {
            Some(MessageView::Data(data)) => data + bytes_sent(msgs.drop_first()),
            Some(MessageView::ExtendedData(data)) => data + bytes_sent(msgs.drop_first()),
            Some(MessageView::Eof) => Seq::empty(),
            Some(MessageView::Close) => Seq::empty(),
            None => Seq::empty(),
            _ => bytes_sent(msgs.drop_first()),
        }
    }
}

/// Reading a byte pipe to its end gives every byte that was sent, in order and
/// once.
pub proof fn a_pipe_reads_every_byte(msgs: Seq<Option<MessageView>>)
    ensures
        read_through(msgs) == bytes_sent(msgs),
    decreases msgs.len(),
{
    if msgs.len() > 0 {
        a_pipe_reads_every_byte(msgs.drop_first());
        match msgs.first() {
            Some(MessageView::Data(data)) => {
                if data.len() == 0 {
                    assert(data + bytes_sent(msgs.drop_first()) =~= bytes_sent(msgs.drop_first()));
                }
            },
            Some(MessageView::ExtendedData(data)) => {
                if data.len() == 0 {
                    assert(data + bytes_sent(msgs.drop_first()) =~= bytes_sent(msgs.drop_first()));
                }
            },
            _ => {},
        }
    }
}

/// A message is viewed as what it is, with the very bytes or the very code that
/// it carries.
pub proof fn a_message_is_viewed_as_it_is(data: Vec<u8>, code: u32)
    ensures
        (ChannelMessage::Data { data })@ == MessageView::Data(data@),
        (ChannelMessage::ExtendedData { data })@ == MessageView::ExtendedData(data@),
        (ChannelMessage::ExitStatus { code })@ == MessageView::ExitStatus(code),
        ChannelMessage::Eof@ == MessageView::Eof,
        ChannelMessage::Close@ == MessageView::Close,
        ChannelMessage::Other@ == MessageView::Other,
        (SshSpikeEvent::Data { data })@ == EventView::Data(data@),
        (SshSpikeEvent::ExitStatus { code })@ == EventView::ExitStatus(code),
        SshSpikeEvent::Closed@ == EventView::Closed,
        SshSpikeEvent::Died@ == EventView::Died,
        arrival(Some((ChannelMessage::Data { data }))) == Some(MessageView::Data(data@)),
        arrival(Some((ChannelMessage::ExtendedData { data }))) == Some(
            MessageView::ExtendedData(data@),
        ),
        arrival(Some((ChannelMessage::ExitStatus { code }))) == Some(MessageView::ExitStatus(code)),
        arrival(Some(ChannelMessage::Eof)) == Some(MessageView::Eof),
        arrival(Some(ChannelMessage::Close)) == Some(MessageView::Close),
        arrival(Some(ChannelMessage::Other)) == Some(MessageView::Other),
        arrival(None) is None,
{
}

// -------------------------------------------------------------- event stream

/// A session event with its bytes as a sequence.
pub enum EventView {
    Data(Seq<u8>),
    ExitStatus(u32),
    Closed,
    Died,
}

impl View for SshSpikeEvent {
    type V = EventView;

    open spec fn view(&self) -> EventView {
        match self {
            SshSpikeEvent::Data { data } => EventView::Data(data@),
            SshSpikeEvent::ExitStatus { code } => EventView::ExitStatus(*code),
            SshSpikeEvent::Closed => EventView::Closed,
            SshSpikeEvent::Died => EventView::Died,
        }
    }
}

impl EventView {
    /// Whether nothing follows this event.
    pub open spec fn terminal(self) -> bool {
        self is Closed || self is Died
    }
}

/// The event that an arrival on the shell channel is reported as, if any.
pub open spec fn event_of(msg: Option<MessageView>) -> Option<EventView> {
    match msg {
        Some(MessageView::Data(data)) => Some(EventView::Data(data)),
        Some(MessageView::ExtendedData(data)) => Some(EventView::Data(data)),
        Some(MessageView::ExitStatus(code)) => Some(EventView::ExitStatus(code)),
        Some(MessageView::Close) => Some(EventView::Closed),
        None => Some(EventView::Died),
        Some(MessageView::Eof) => None,
        Some(MessageView::Other) => None,
    }
}

/// Whether an arrival ends the event stream.
pub open spec fn ends_stream(msg: Option<MessageView>) -> bool {
    msg is None || msg == Some(MessageView::Close)
}

/// What an arrival on the shell channel leads to.
pub struct PumpStep {
    /// The event to report.
    pub event: Option<SshSpikeEvent>,
    /// Whether the stream is over.
    pub ended: bool,
}

/// Whether a step is what an arrival leads to.
pub open spec fn is_pump_step(msg: Option<MessageView>, step: PumpStep) -> bool {
    &&& match step.event {
        Some(event) => event_of(msg) == Some(event@),
        None => event_of(msg) is None,
    }
    &&& step.ended == ends_stream(msg)
}

/// The event to report for an arrival on the shell channel, and whether the
/// stream is over.
pub fn pump_step(msg: Option<ChannelMessage>) -> (step: PumpStep)
    ensures
        is_pump_step(arrival(msg), step),
        match msg {
            Some(ChannelMessage::Data { data }) => {
                &&& step.event matches Some(SshSpikeEvent::Data { data: bytes }) && bytes@ == data@
                &&& !step.ended
            },
            Some(ChannelMessage::ExtendedData { data }) => {
                &&& step.event matches Some(SshSpikeEvent::Data { data: bytes }) && bytes@ == data@
                &&& !step.ended
            },
            Some(ChannelMessage::ExitStatus { code }) => {
                &&& step.event matches Some(SshSpikeEvent::ExitStatus { code: c }) && c == code
                &&& !step.ended
            },
            Some(ChannelMessage::Close) => {
                &&& step.event matches Some(SshSpikeEvent::Closed)
                &&& step.ended
            },
            None => {
                &&& step.event matches Some(SshSpikeEvent::Died)
                &&& step.ended
            },
            Some(ChannelMessage::Eof) => step.event is None && !step.ended,
            Some(ChannelMessage::Other) => step.event is None && !step.ended,
        },
{
    match msg {
        Some(ChannelMessage::Data { data }) => PumpStep {
            event: Some(SshSpikeEvent::Data { data }),
            ended: false,
        },
        Some(ChannelMessage::ExtendedData { data }) => PumpStep {
            event: Some(SshSpikeEvent::Data { data }),
            ended: false,
        },
        Some(ChannelMessage::ExitStatus { code }) => PumpStep {
            event: Some(SshSpikeEvent::ExitStatus { code }),
            ended: false,
        },
        Some(ChannelMessage::Close) => PumpStep {
            event: Some(SshSpikeEvent::Closed),
            ended: true,
        },
        None => PumpStep { event: Some(SshSpikeEvent::Died), ended: true },
        Some(ChannelMessage::Eof) => PumpStep { event: None, ended: false },
        Some(ChannelMessage::Other) => PumpStep { event: None, ended: false },
    }
}

/// Whether the sink was handed an event.
pub open spec fn delivered<S: SshSpikeEventSink + ?Sized>(sink: &S, event: EventView) -> bool {
    exists|e: SshSpikeEvent| #[trigger] call_ensures(S::on_event, (sink, e), ()) && e@ == event
}

/// Reports an arrival on the shell channel to the sink, where it is an event,
/// and tells whether the stream is over. The sink need admit that one event and
/// no other, so it is handed nothing else.
pub fn pump_message<S: SshSpikeEventSink + ?Sized>(
    sink: &S,
    msg: Option<ChannelMessage>,
) -> (ended: bool)
    requires
        event_of(arrival(msg)) matches Some(event) ==> sink.admits(event),
    ensures
        ended == ends_stream(arrival(msg)),
        event_of(arrival(msg)) matches Some(event) ==> delivered(sink, event),
        ended <==> (msg is None || msg matches Some(ChannelMessage::Close)),
        match msg {
            Some(ChannelMessage::Data { data }) => delivered(sink, EventView::Data(data@)),
            Some(ChannelMessage::ExtendedData { data }) => delivered(sink, EventView::Data(data@)),
            Some(ChannelMessage::ExitStatus { code }) => delivered(
                sink,
                EventView::ExitStatus(code),
            ),
            Some(ChannelMessage::Close) => delivered(sink, EventView::Closed),
            None => delivered(sink, EventView::Died),
            Some(ChannelMessage::Eof) => true,
            Some(ChannelMessage::Other) => true,
        },
{
    let step = pump_step(msg);
    if let Some(event) = step.event {
        let ghost view = event@;
        sink.on_event(event);
        assert(delivered(sink, view));
    }
    step.ended
}

/// The events that a run of arrivals is reported as, up to and with the one
/// that ends the stream.
pub open spec fn events_of(msgs: Seq<Option<MessageView>>) -> Seq<EventView>
    decreases msgs.len(),
{
    if msgs.len() == 0 {
        Seq::empty()
    } else {
        let head = match event_of(msgs.first()) {
            Some(event) => seq![event],
            None => Seq::empty(),
        };
        if ends_stream(msgs.first()) {
            head
        } else {
            head + events_of(msgs.drop_first())
        }
    }
}

/// An event tells what arrived: data as the very bytes of a message of data, an
/// exit status as the very code that arrived, a clean end for a close alone and
/// a death for a lost channel alone. Nothing is reported for the end of data and
/// for other messages, and for nothing else.
pub proof fn an_event_tells_what_arrived(msg: Option<MessageView>, bytes: Seq<u8>, code: u32)
    ensures
        event_of(msg) == Some(EventView::Data(bytes)) <==> (msg == Some(MessageView::Data(bytes))
            || msg == Some(MessageView::ExtendedData(bytes))),
        event_of(msg) == Some(EventView::ExitStatus(code)) <==> msg == Some(
            MessageView::ExitStatus(code),
        ),
        event_of(msg) == Some(EventView::Closed) <==> msg == Some(MessageView::Close),
        event_of(msg) == Some(EventView::Died) <==> msg is None,
        event_of(msg) is None <==> (msg == Some(MessageView::Eof) || msg == Some(
            MessageView::Other,
        )),
{
}

/// A close and the loss of the channel end the stream, and nothing else does.
pub proof fn only_a_close_or_a_loss_ends_the_stream(msg: Option<MessageView>)
    ensures
        ends_stream(msg) <==> (msg is None || msg == Some(MessageView::Close)),
{
}

/// The exit codes among arrivals before a close or the loss of the channel.
pub open spec fn codes_sent(msgs: Seq<Option<MessageView>>) -> Seq<u32>
    decreases msgs.len(),
{
    if msgs.len() == 0 {
        Seq::empty()
    } else {
        match msgs.first() {
            Some(MessageView::ExitStatus(code)) => seq![code] + codes_sent(msgs.drop_first()),
            Some(MessageView::Close) => Seq::empty(),
            None => Seq::empty(),
            _ => codes_sent(msgs.drop_first()),
        }
    }
}

/// The exit codes that events report.
pub open spec fn codes_reported(events: Seq<EventView>) -> Seq<u32>
    decreases events.len(),
{
    if events.len() == 0 {
        Seq::empty()
    } else {
        match events.first() {
            EventView::ExitStatus(code) => seq![code] + codes_reported(events.drop_first()),
            _ => codes_reported(events.drop_first()),
        }
    }
}

/// Every exit code that arrives before the end is reported as it is, in order
/// and once.
pub proof fn exit_codes_are_reported_unchanged(msgs: Seq<Option<MessageView>>)
    ensures
        codes_reported(events_of(msgs)) == codes_sent(msgs),
    decreases msgs.len(),
{
    if msgs.len() > 0 {
        let events = events_of(msgs);
        let rest = events_of(msgs.drop_first());
        exit_codes_are_reported_unchanged(msgs.drop_first());
        match event_of(msgs.first()) {
            Some(event) => {
                assert(events.first() == event);
                if ends_stream(msgs.first()) {
                    assert(events.drop_first() =~= Seq::empty());
                    assert(codes_reported(events.drop_first()) =~= Seq::empty());
                } else {
                    assert(events.drop_first() =~= rest);
                }
            },
            None => {
                assert(events =~= rest);
            },
        }
    }
}

/// The bytes of both streams among arrivals before a close or the loss of the
/// channel. The end of data of one side does not stop them.
pub open spec fn shell_bytes_sent(msgs: Seq<Option<MessageView>>) -> Seq<u8>
    decreases msgs.len(),
{
    if msgs.len() == 0 {
        Seq::empty()
    } else {
        match msgs.first() {
            Some(MessageView::Data(data)) => data + shell_bytes_sent(msgs.drop_first()),
            Some(MessageView::ExtendedData(data)) => data + shell_bytes_sent(msgs.drop_first()),
            Some(MessageView::Close) => Seq::empty(),
            None => Seq::empty(),
            _ => shell_bytes_sent(msgs.drop_first()),
        }
    }
}

/// Every byte that arrives on the shell before the end is reported as it is, in
/// order and once.
pub proof fn shell_bytes_are_reported_unchanged(msgs: Seq<Option<MessageView>>)
    ensures
        event_bytes(events_of(msgs)) == shell_bytes_sent(msgs),
    decreases msgs.len(),
{
    events_carry_every_byte(msgs);
    if msgs.len() > 0 {
        shell_bytes_are_reported_unchanged(msgs.drop_first());
        events_carry_every_byte(msgs.drop_first());
        assert(payload_of(msgs) =~= shell_bytes_sent(msgs));
    }
}

/// The events of steps.
pub open spec fn reported(steps: Seq<PumpStep>) -> Seq<EventView>
    decreases steps.len(),
{
    if steps.len() == 0 {
        Seq::empty()
    } else {
        let head = match steps.first().event {
            Some(event) => seq![event@],
            None => Seq::empty(),
        };
        head + reported(steps.drop_first())
    }
}

/// Taking step after step for a run of arrivals, until one ends the stream,
/// reports exactly the events of the run.
pub proof fn steps_report_the_events_of_a_run(
    msgs: Seq<Option<MessageView>>,
    steps: Seq<PumpStep>,
)
    requires
        steps.len() == msgs.len(),
        forall|k: int| 0 <= k < steps.len() ==> is_pump_step(msgs[k], #[trigger] steps[k]),
        forall|k: int| 0 <= k < steps.len() - 1 ==> !(#[trigger] steps[k]).ended,
    ensures
        reported(steps) == events_of(msgs),
    decreases steps.len(),
{
    if steps.len() > 0 {
        let rest = steps.drop_first();
        let later = msgs.drop_first();
        assert(is_pump_step(msgs[0], steps[0]));
        assert forall|k: int| 0 <= k < rest.len() implies is_pump_step(
            later[k],
            #[trigger] rest[k],
        ) by {
            assert(rest[k] == steps[k + 1]);
        }
        assert forall|k: int| 0 <= k < rest.len() - 1 implies !(#[trigger] rest[k]).ended by {
            assert(rest[k] == steps[k + 1]);
        }
        steps_report_the_events_of_a_run(later, rest);
        if steps[0].ended {
            assert(rest.len() == 0);
            assert(reported(rest) =~= Seq::empty());
            assert(reported(steps) =~= events_of(msgs));
        } else {
            assert(reported(steps) =~= events_of(msgs));
        }
    }
}

/// The bytes of both streams in a run of arrivals, up to its end.
pub open spec fn payload_of(msgs: Seq<Option<MessageView>>) -> Seq<u8>
    decreases msgs.len(),
{
    if msgs.len() == 0 || ends_stream(msgs.first()) {
        Seq::empty()
    } else {
        let head = match msgs.first() {
            Some(MessageView::Data(data)) => data,
            Some(MessageView::ExtendedData(data)) => data,
            _ => Seq::empty(),
        };
        head + payload_of(msgs.drop_first())
    }
}

/// The bytes that events carry.
pub open spec fn event_bytes(events: Seq<EventView>) -> Seq<u8>
    decreases events.len(),
{
    if events.len() == 0 {
        Seq::empty()
    } else {
        let head = match events.first() {
            EventView::Data(data) => data,
            _ => Seq::empty(),
        };
        head + event_bytes(events.drop_first())
    }
}

/// Every byte of both streams is reported, in order and once.
pub proof fn events_carry_every_byte(msgs: Seq<Option<MessageView>>)
    ensures
        event_bytes(events_of(msgs)) == payload_of(msgs),
    decreases msgs.len(),
{
    if msgs.len() > 0 {
        let events = events_of(msgs);
        events_carry_every_byte(msgs.drop_first());
        match event_of(msgs.first()) {
            Some(event) => {
                if ends_stream(msgs.first()) {
                    assert(events.drop_first() =~= Seq::empty());
                    assert(event_bytes(events.drop_first()) =~= Seq::empty());
                    assert(event_bytes(events) =~= payload_of(msgs));
                } else {
                    assert(events.drop_first() =~= events_of(msgs.drop_first()));
                }
            },
            None => {
                assert(events =~= events_of(msgs.drop_first()));
                assert(payload_of(msgs) =~= payload_of(msgs.drop_first()));
            },
        }
    }
}

/// The steps taken for a run of arrivals, until one ends the stream, report the
/// bytes and the exit codes that arrived, each as it was, in order and once.
pub proof fn steps_report_what_arrived(msgs: Seq<Option<MessageView>>, steps: Seq<PumpStep>)
    requires
        steps.len() == msgs.len(),
        forall|k: int| 0 <= k < steps.len() ==> is_pump_step(msgs[k], #[trigger] steps[k]),
        forall|k: int| 0 <= k < steps.len() - 1 ==> !(#[trigger] steps[k]).ended,
    ensures
        event_bytes(reported(steps)) == shell_bytes_sent(msgs),
        codes_reported(reported(steps)) == codes_sent(msgs),
{
    steps_report_the_events_of_a_run(msgs, steps);
    shell_bytes_are_reported_unchanged(msgs);
    exit_codes_are_reported_unchanged(msgs);
}

/// A step for an arrival carries what arrived, and ends the stream for a close
/// or a loss alone.
pub proof fn a_step_carries_what_arrived(msg: Option<MessageView>, step: PumpStep)
    requires
        is_pump_step(msg, step),
    ensures
        match msg {
            Some(MessageView::Data(data)) => step.event matches Some(SshSpikeEvent::Data { data: d })
                && d@ == data,
            Some(MessageView::ExtendedData(data)) => step.event matches Some(
                SshSpikeEvent::Data { data: d },
            ) && d@ == data,
            Some(MessageView::ExitStatus(code)) => step.event matches Some(
                SshSpikeEvent::ExitStatus { code: c },
            ) && c == code,
            Some(MessageView::Close) => step.event matches Some(SshSpikeEvent::Closed),
            None => step.event matches Some(SshSpikeEvent::Died),
            Some(MessageView::Eof) => step.event is None,
            Some(MessageView::Other) => step.event is None,
        },
        step.ended <==> (msg is None || msg == Some(MessageView::Close)),
{
}

/// An event that was delivered was handed to the sink in a call.
pub proof fn a_delivered_event_was_handed_over<S: SshSpikeEventSink + ?Sized>(
    sink: &S,
    event: EventView,
)
    requires
        delivered(sink, event),
    ensures
        exists|e: SshSpikeEvent|
            #[trigger] call_ensures(S::on_event, (sink, e), ()) && match event {
                EventView::Data(bytes) => e matches SshSpikeEvent::Data { data } && data@ == bytes,
                EventView::ExitStatus(code) => e matches SshSpikeEvent::ExitStatus { code: c }
                    && c == code,
                EventView::Closed => e matches SshSpikeEvent::Closed,
                EventView::Died => e matches SshSpikeEvent::Died,
            },
{
    let e = choose|e: SshSpikeEvent| #[trigger]
        call_ensures(S::on_event, (sink, e), ()) && e@ == event;
    assert(call_ensures(S::on_event, (sink, e), ()));
}

/// A clean close and a death are the terminal events, and nothing else is.
pub proof fn only_closed_and_died_are_terminal(event: EventView)
    ensures
        event.terminal() <==> (event == EventView::Closed || event == EventView::Died),
{
}

/// As long as a stream has not ended, no terminal event is reported.
pub proof fn a_running_stream_has_no_terminal_event(msgs: Seq<Option<MessageView>>)
    requires
        forall|i: int| 0 <= i < msgs.len() ==> !ends_stream(#[trigger] msgs[i]),
    ensures
        forall|i: int|
            0 <= i < events_of(msgs).len() ==> !(#[trigger] events_of(msgs)[i]).terminal(),
    decreases msgs.len(),
{
    if msgs.len() > 0 {
        let rest = msgs.drop_first();
        assert forall|i: int| 0 <= i < rest.len() implies !ends_stream(#[trigger] rest[i]) by {
            assert(rest[i] == msgs[i + 1]);
        }
        a_running_stream_has_no_terminal_event(rest);
        let events = events_of(msgs);
        assert(!ends_stream(msgs[0]));
        assert forall|i: int| 0 <= i < events.len() implies !(#[trigger] events[i]).terminal() by {
            if event_of(msgs.first()) is Some {
                if i > 0 {
                    assert(events[i] == events_of(rest)[i - 1]);
                }
            } else {
                assert(events[i] == events_of(rest)[i]);
            }
        }
    }
}

/// A stream that ends at arrival `n` has one terminal event, its last: a clean
/// close if the server closed the channel, and a death otherwise.
pub proof fn a_stream_ends_with_one_terminal_event(msgs: Seq<Option<MessageView>>, n: int)
    requires
        0 <= n < msgs.len(),
        ends_stream(msgs[n]),
        forall|i: int| 0 <= i < n ==> !ends_stream(#[trigger] msgs[i]),
    ensures
        events_of(msgs).len() > 0,
        events_of(msgs).last() == if msgs[n] is None {
            EventView::Died
        } else {
            EventView::Closed
        },
        forall|i: int|
            0 <= i < events_of(msgs).len() - 1 ==> !(#[trigger] events_of(msgs)[i]).terminal(),
    decreases msgs.len(),
{
    let events = events_of(msgs);
    if n > 0 {
        let rest = msgs.drop_first();
        assert(rest[n - 1] == msgs[n]);
        assert forall|i: int| 0 <= i < n - 1 implies !ends_stream(#[trigger] rest[i]) by {
            assert(rest[i] == msgs[i + 1]);
        }
        a_stream_ends_with_one_terminal_event(rest, n - 1);
        assert(!ends_stream(msgs[0]));
        assert forall|i: int| 0 <= i < events.len() - 1 implies !(
        #[trigger] events[i]).terminal() by {
            if event_of(msgs.first()) is Some {
                if i > 0 {
                    assert(events[i] == events_of(rest)[i - 1]);
                }
            } else {
                assert(events[i] == events_of(rest)[i]);
            }
        }
    }
}

/// Nothing that arrives after the end is reported.
pub proof fn nothing_is_reported_after_the_end(
    msgs: Seq<Option<MessageView>>,
    n: int,
    later: Seq<Option<MessageView>>,
)
    requires
        0 <= n < msgs.len(),
        ends_stream(msgs[n]),
    ensures
        events_of(msgs + later) == events_of(msgs),
    decreases msgs.len(),
{
    let all = msgs + later;
    assert(all.first() == msgs.first());
    if !ends_stream(msgs.first()) {
        assert(all.drop_first() =~= msgs.drop_first() + later);
        assert(msgs.drop_first()[n - 1] == msgs[n]);
        nothing_is_reported_after_the_end(msgs.drop_first(), n - 1, later);
    }
}

// ------------------------------------------------------------ command output

/// Milliseconds that a command may stay quiet once its exit status is known.
pub const EXEC_QUIET_MILLIS: u64 = 300;

/// What a wait for the output of a command gave.
#[derive(Debug)]
pub enum ExecEvent {
    Message { msg: ChannelMessage },
    /// The channel is gone.
    Ended,
    /// Nothing arrived for as long as was waited.
    Quiet,
}

/// An exec event with its bytes as a sequence.
pub enum ExecEventView {
    Message(MessageView),
    Ended,
    Quiet,
}

impl View for ExecEvent {
    type V = ExecEventView;

    open spec fn view(&self) -> ExecEventView {
        match self {
            ExecEvent::Message { msg } => ExecEventView::Message(msg@),
            ExecEvent::Ended => ExecEventView::Ended,
            ExecEvent::Quiet => ExecEventView::Quiet,
        }
    }
}

impl ExecEventView {
    /// Whether the command is over with this event.
    pub open spec fn ends(self) -> bool {
        match self {
            ExecEventView::Message(msg) => msg is Close,
            ExecEventView::Ended => true,
            ExecEventView::Quiet => true,
        }
    }

    /// The output that this event brings.
    pub open spec fn output(self) -> Seq<u8> {
        match self {
            ExecEventView::Message(MessageView::Data(data)) => data,
            _ => Seq::empty(),
        }
    }

    /// Whether this event is the exit status.
    pub open spec fn is_status(self) -> bool {
        match self {
            ExecEventView::Message(msg) => msg is ExitStatus,
            _ => false,
        }
    }
}

/// How long to wait for the next message.
#[derive(Debug, Clone, Copy, PartialEq, Eq)]
pub enum Patience {
    Forever,
    Millis { millis: u64 },
}

/// The output of a command so far.
pub struct ExecOutput {
    got: Vec<u8>,
    status_seen: bool,
}

impl ExecOutput {
    /// The bytes collected so far.
    pub closed spec fn got(self) -> Seq<u8> {
        self.got@
    }

    /// Whether the exit status has arrived.
    pub closed spec fn status_seen(self) -> bool {
        self.status_seen
    }

    /// Nothing collected, and no exit status yet.
    pub fn new() -> (output: Self)
        ensures
            output.got() == Seq::<u8>::empty(),
            !output.status_seen(),
    {
        ExecOutput { got: Vec::new(), status_seen: false }
    }

    /// How long to wait for the next message: without a limit until the exit
    /// status is known. After that the command is over, and since a server
    /// may never close the channel, only as long as output still trickles in.
    pub fn patience(&self) -> (patience: Patience)
        ensures
            patience == if self.status_seen() {
                Patience::Millis { millis: 300 }
            } else {
                Patience::Forever
            },
            patience is Forever <==> !self.status_seen(),
            patience matches Patience::Millis { millis } ==> millis == 300,
    {
        if self.status_seen {
            Patience::Millis { millis: EXEC_QUIET_MILLIS }
        } else {
            Patience::Forever
        }
    }

    /// Takes in an event, and tells whether the command is over. The exit
    /// status does not end it: output may still be on its way.
    pub fn take_in(&mut self, event: ExecEvent) -> (over: bool)
        ensures
            takes_in(*old(self), event@, *final(self), over),
            match event {
                ExecEvent::Message { msg: ChannelMessage::Data { data } } => {
                    &&& !over
                    &&& final(self).got() == old(self).got() + data@
                    &&& final(self).status_seen() == old(self).status_seen()
                },
                ExecEvent::Message { msg: ChannelMessage::ExitStatus { .. } } => {
                    &&& !over
                    &&& final(self).got() == old(self).got()
                    &&& final(self).status_seen()
                },
                ExecEvent::Message { msg: ChannelMessage::Close } => {
                    &&& over
                    &&& final(self).got() == old(self).got()
                },
                ExecEvent::Message { msg: ChannelMessage::ExtendedData { .. } } => {
                    &&& !over
                    &&& final(self).got() == old(self).got()
                    &&& final(self).status_seen() == old(self).status_seen()
                },
                ExecEvent::Message { msg: ChannelMessage::Eof } => {
                    &&& !over
                    &&& final(self).got() == old(self).got()
                    &&& final(self).status_seen() == old(self).status_seen()
                },
                ExecEvent::Message { msg: ChannelMessage::Other } => {
                    &&& !over
                    &&& final(self).got() == old(self).got()
                    &&& final(self).status_seen() == old(self).status_seen()
                },
                ExecEvent::Ended => over && final(self).got() == old(self).got(),
                ExecEvent::Quiet => over && final(self).got() == old(self).got(),
            },
    {
        let ghost before = self.got@;
        match event {
            ExecEvent::Message { msg } => match msg {
                ChannelMessage::Data { data } => {
                    self.got.extend_from_slice(data.as_slice());
                    assert(self.got@ =~= before + data@);
                    false
                },
                ChannelMessage::ExitStatus { .. } => {
                    self.status_seen = true;
                    assert(self.got@ =~= before + Seq::<u8>::empty());
                    false
                },
                ChannelMessage::Close => {
                    assert(self.got@ =~= before + Seq::<u8>::empty());
                    true
                },
                ChannelMessage::ExtendedData { .. } | ChannelMessage::Eof
                | ChannelMessage::Other => {
                    assert(self.got@ =~= before + Seq::<u8>::empty());
                    false
                },
            },
            ExecEvent::Ended | ExecEvent::Quiet => {
                assert(self.got@ =~= before + Seq::<u8>::empty());
                true
            },
        }
    }

    /// The output as text.
    pub fn finish(self) -> (r: Result<String, SshSpikeError>)
        ensures
            is_text_of(self.got(), r),
            r is Ok <==> vstd::utf8::valid_utf8(self.got()),
            r matches Ok(text) ==> text@ == vstd::utf8::decode_utf8(self.got()),
            r matches Err(e) ==> (e matches SshSpikeError::Channel(text)
                && vstd::string::to_string_from_display_ensures::<std::string::FromUtf8Error>(
                &crate::text::utf8_error(self.got()),
                text,
            )),
    {
        output_text(self.got)
    }
}

/// Whether taking in an event leads from one state of a command to another, and
/// whether the command is over with it.
pub open spec fn takes_in(
    before: ExecOutput,
    event: ExecEventView,
    after: ExecOutput,
    over: bool,
) -> bool {
    &&& over == event.ends()
    &&& after.got() == before.got() + event.output()
    &&& after.status_seen() == (before.status_seen() || event.is_status())
}

/// Whether `r` is the text of the bytes: their UTF-8 decoding, or the error of
/// a channel whose bytes are not UTF-8.
pub open spec fn is_text_of(bytes: Seq<u8>, r: Result<String, SshSpikeError>) -> bool {
    if vstd::utf8::valid_utf8(bytes) {
        r matches Ok(text) && text@ == vstd::utf8::decode_utf8(bytes)
    } else {
        r matches Err(SshSpikeError::Channel(text))
            && vstd::string::to_string_from_display_ensures::<std::string::FromUtf8Error>(
            &crate::text::utf8_error(bytes),
            text,
        )
    }
}

/// The text of bytes that arrived on a channel.
pub fn output_text(bytes: Vec<u8>) -> (r: Result<String, SshSpikeError>)
    ensures
        is_text_of(bytes@, r),
        r is Ok <==> vstd::utf8::valid_utf8(bytes@),
        r matches Ok(text) ==> text@ == vstd::utf8::decode_utf8(bytes@),
        r matches Err(e) ==> (e matches SshSpikeError::Channel(text)
            && vstd::string::to_string_from_display_ensures::<std::string::FromUtf8Error>(
            &crate::text::utf8_error(bytes@),
            text,
        )),
{
    match String::from_utf8(bytes) {
        Ok(text) => Ok(text),
        Err(e) => Err(SshSpikeError::Channel(e.to_string())),
    }
}

/// The bytes that a command is found to have written, given every event from
/// its start: what [`ExecOutput::take_in`] collects until it says that the
/// command is over.
pub open spec fn exec_collects(events: Seq<ExecEventView>) -> Seq<u8>
    decreases events.len(),
{
    if events.len() == 0 {
        Seq::empty()
    } else if events.first().ends() {
        events.first().output()
    } else {
        events.first().output() + exec_collects(events.drop_first())
    }
}

/// The events without the exit status.
pub open spec fn without_status(events: Seq<ExecEventView>) -> Seq<ExecEventView>
    decreases events.len(),
{
    if events.len() == 0 {
        Seq::empty()
    } else if events.first().is_status() {
        without_status(events.drop_first())
    } else {
        seq![events.first()] + without_status(events.drop_first())
    }
}

/// No output is lost to an exit status that arrives before it: what is
/// collected is the same wherever the status stands among the events.
pub proof fn an_early_exit_status_loses_no_output(events: Seq<ExecEventView>)
    ensures
        exec_collects(events) == exec_collects(without_status(events)),
    decreases events.len(),
{
    if events.len() > 0 {
        let rest = events.drop_first();
        an_early_exit_status_loses_no_output(rest);
        if events.first().is_status() {
            assert(exec_collects(events) =~= exec_collects(rest));
        } else {
            assert(without_status(events).drop_first() =~= without_status(rest));
        }
    }
}

/// All the output that arrives before the command is over is collected, in
/// order: that of a run, and then that of what follows it.
pub proof fn output_accumulates_until_the_end(a: Seq<ExecEventView>, b: Seq<ExecEventView>)
    requires
        forall|i: int| 0 <= i < a.len() ==> !(#[trigger] a[i]).ends(),
    ensures
        exec_collects(a + b) == exec_collects(a) + exec_collects(b),
    decreases a.len(),
{
    if a.len() == 0 {
        assert(a + b =~= b);
        assert(exec_collects(a) + exec_collects(b) =~= exec_collects(b));
    } else {
        let rest = a.drop_first();
        assert(!a[0].ends());
        assert forall|i: int| 0 <= i < rest.len() implies !(#[trigger] rest[i]).ends() by {
            assert(rest[i] == a[i + 1]);
        }
        output_accumulates_until_the_end(rest, b);
        assert((a + b).drop_first() =~= rest + b);
        assert((a + b).first() == a.first());
        assert(exec_collects(a + b) =~= exec_collects(a) + exec_collects(b));
    }
}

/// Taking in the events of a command one after the other, until one says that
/// it is over, collects exactly what the events bring.
pub proof fn a_command_collects_what_its_events_bring(
    states: Seq<ExecOutput>,
    events: Seq<ExecEventView>,
    overs: Seq<bool>,
)
    requires
        states.len() == events.len() + 1,
        overs.len() == events.len(),
        states[0].got() == Seq::<u8>::empty(),
        forall|k: int|
            #![trigger events[k]]
            0 <= k < events.len() ==> takes_in(states[k], events[k], states[k + 1], overs[k]),
        forall|k: int| 0 <= k < overs.len() - 1 ==> !(#[trigger] overs[k]),
    ensures
        states.last().got() == exec_collects(events),
    decreases events.len(),
{
    if events.len() == 0 {
        assert(exec_collects(events) =~= Seq::empty());
    } else {
        let n = events.len() - 1;
        let before = events.drop_last();
        let last = events[n];
        assert forall|k: int| 0 <= k < before.len() implies !(#[trigger] before[k]).ends() by {
            let event = events[k];
            assert(takes_in(states[k], event, states[k + 1], overs[k]));
            assert(!overs[k]);
        }
        assert forall|k: int|
            #![trigger before[k]]
            0 <= k < before.len() implies takes_in(
            states.drop_last()[k],
            before[k],
            states.drop_last()[k + 1],
            overs.drop_last()[k],
        ) by {
            let event = events[k];
            assert(takes_in(states[k], event, states[k + 1], overs[k]));
        }
        a_command_collects_what_its_events_bring(states.drop_last(), before, overs.drop_last());
        assert(takes_in(states[n], last, states[n + 1], overs[n]));
        let tail = seq![last];
        assert(events =~= before + tail);
        output_accumulates_until_the_end(before, tail);
        assert(tail.drop_first() =~= Seq::empty());
        assert(exec_collects(tail.drop_first()) =~= Seq::empty());
        assert(exec_collects(tail) =~= last.output());
    }
}

// -------------------------------------------------------------------- banner

/// The number of bytes that make a banner.
pub const BANNER_LEN: usize = 4;

/// The first bytes that the target of a forwarded port sent.
pub struct Banner {
    got: Vec<u8>,
}

/// Whether the wait for a banner is over with an arrival, when the bytes
/// collected with it are `got`.
pub open spec fn banner_over(got: Seq<u8>, msg: Option<MessageView>) -> bool {
    match msg {
        Some(MessageView::Data(_)) => got.len() >= 4,
        Some(MessageView::Close) => true,
        Some(MessageView::Eof) => true,
        None => true,
        _ => false,
    }
}

/// The bytes that an arrival adds to a banner.
pub open spec fn banner_bytes(msg: Option<MessageView>) -> Seq<u8> {
    match msg {
        Some(MessageView::Data(data)) => data,
        _ => Seq::empty(),
    }
}

impl Banner {
    /// The bytes collected so far.
    pub closed spec fn got(self) -> Seq<u8> {
        self.got@
    }

    /// Nothing collected yet.
    pub fn new() -> (banner: Self)
        ensures
            banner.got() == Seq::<u8>::empty(),
    {
        Banner { got: Vec::new() }
    }

    /// Takes in an arrival, and tells whether the wait is over: as soon as
    /// there are four bytes, or nothing more will come.
    pub fn take_in(&mut self, msg: Option<ChannelMessage>) -> (over: bool)
        ensures
            banner_takes_in(*old(self), arrival(msg), *final(self), over),
            match msg {
                Some(ChannelMessage::Data { data }) => {
                    &&& final(self).got() == old(self).got() + data@
                    &&& over == (old(self).got().len() + data@.len() >= 4)
                },
                Some(ChannelMessage::Close) => over && final(self).got() == old(self).got(),
                Some(ChannelMessage::Eof) => over && final(self).got() == old(self).got(),
                None => over && final(self).got() == old(self).got(),
                Some(ChannelMessage::ExtendedData { .. }) => !over && final(self).got() == old(
                    self,
                ).got(),
                Some(ChannelMessage::ExitStatus { .. }) => !over && final(self).got() == old(
                    self,
                ).got(),
                Some(ChannelMessage::Other) => !over && final(self).got() == old(self).got(),
            },
    {
        let ghost before = self.got@;
        match msg {
            Some(ChannelMessage::Data { data }) => {
                self.got.extend_from_slice(data.as_slice());
                assert(self.got@ =~= before + data@);
                self.got.len() >= BANNER_LEN
            },
            Some(ChannelMessage::Close) | Some(ChannelMessage::Eof) | None => {
                assert(self.got@ =~= before + Seq::<u8>::empty());
                true
            },
            Some(ChannelMessage::ExtendedData { .. }) | Some(ChannelMessage::ExitStatus { .. })
            | Some(ChannelMessage::Other) => {
                assert(self.got@ =~= before + Seq::<u8>::empty());
                false
            },
        }
    }

    /// The banner as text.
    pub fn finish(self) -> (r: Result<String, SshSpikeError>)
        ensures
            is_text_of(self.got(), r),
            r is Ok <==> vstd::utf8::valid_utf8(self.got()),
            r matches Ok(text) ==> text@ == vstd::utf8::decode_utf8(self.got()),
            r matches Err(e) ==> (e matches SshSpikeError::Channel(text)
                && vstd::string::to_string_from_display_ensures::<std::string::FromUtf8Error>(
                &crate::text::utf8_error(self.got()),
                text,
            )),
    {
        output_text(self.got)
    }
}

/// Where a wait for a banner gets to with a run of arrivals, from the bytes
/// collected before it: the bytes then, and whether the wait is over.
pub open spec fn banner_run(got: Seq<u8>, msgs: Seq<Option<MessageView>>) -> (Seq<u8>, bool)
    decreases msgs.len(),
{
    if msgs.len() == 0 {
        (got, false)
    } else {
        let next = got + banner_bytes(msgs.first());
        if banner_over(next, msgs.first()) {
            (next, true)
        } else {
            banner_run(next, msgs.drop_first())
        }
    }
}

/// Whether taking in an arrival leads from one state of a banner to another, and
/// whether the wait is over with it.
pub open spec fn banner_takes_in(
    before: Banner,
    msg: Option<MessageView>,
    after: Banner,
    over: bool,
) -> bool {
    &&& after.got() == before.got() + banner_bytes(msg)
    &&& over == banner_over(after.got(), msg)
}

/// Taking in arrival after arrival, until one says that the wait is over, gets
/// exactly to where the run gets.
pub proof fn a_banner_gets_where_its_run_gets(
    states: Seq<Banner>,
    msgs: Seq<Option<MessageView>>,
    overs: Seq<bool>,
)
    requires
        states.len() == msgs.len() + 1,
        overs.len() == msgs.len(),
        forall|k: int|
            #![trigger msgs[k]]
            0 <= k < msgs.len() ==> banner_takes_in(states[k], msgs[k], states[k + 1], overs[k]),
        forall|k: int| 0 <= k < overs.len() - 1 ==> !(#[trigger] overs[k]),
    ensures
        banner_run(states[0].got(), msgs) == (
            states.last().got(),
            overs.len() > 0 && overs.last(),
        ),
    decreases msgs.len(),
{
    if msgs.len() > 0 {
        let msg = msgs[0];
        assert(banner_takes_in(states[0], msg, states[1], overs[0]));
        if msgs.len() > 1 {
            let later = msgs.drop_first();
            assert forall|k: int|
                #![trigger later[k]]
                0 <= k < later.len() implies banner_takes_in(
                states.drop_first()[k],
                later[k],
                states.drop_first()[k + 1],
                overs.drop_first()[k],
            ) by {
                let next = msgs[k + 1];
                assert(banner_takes_in(states[k + 1], next, states[k + 2], overs[k + 1]));
            }
            assert forall|k: int| 0 <= k < overs.drop_first().len() - 1 implies !(
            #[trigger] overs.drop_first()[k]) by {
                assert(!overs[k + 1]);
            }
            assert(!overs[0]);
            a_banner_gets_where_its_run_gets(states.drop_first(), later, overs.drop_first());
        } else {
            let later = msgs.drop_first();
            assert(banner_run(states[1].got(), later) == (states[1].got(), false));
        }
    }
}

/// All the bytes that a run of arrivals would add to a banner.
pub open spec fn banner_data(msgs: Seq<Option<MessageView>>) -> Seq<u8>
    decreases msgs.len(),
{
    if msgs.len() == 0 {
        Seq::empty()
    } else {
        banner_bytes(msgs.first()) + banner_data(msgs.drop_first())
    }
}

/// The wait for a banner goes on only as long as it is short of four bytes.
pub proof fn a_banner_wait_stops_at_four_bytes(got: Seq<u8>, msgs: Seq<Option<MessageView>>)
    requires
        got.len() < 4,
    ensures
        !banner_run(got, msgs).1 ==> banner_run(got, msgs).0.len() < 4,
    decreases msgs.len(),
{
    if msgs.len() > 0 {
        let next = got + banner_bytes(msgs.first());
        if !banner_over(next, msgs.first()) {
            a_banner_wait_stops_at_four_bytes(next, msgs.drop_first());
        }
    }
}

/// A banner is the beginning of what the target sent.
pub proof fn a_banner_begins_the_data(got: Seq<u8>, msgs: Seq<Option<MessageView>>)
    ensures
        banner_run(got, msgs).0.is_prefix_of(got + banner_data(msgs)),
    decreases msgs.len(),
{
    if msgs.len() > 0 {
        let head = banner_bytes(msgs.first());
        let rest = msgs.drop_first();
        assert(got + banner_data(msgs) =~= (got + head) + banner_data(rest));
        a_banner_begins_the_data(got + head, rest);
        assert((got + head).is_prefix_of((got + head) + banner_data(rest)));
    } else {
        assert(got + banner_data(msgs) =~= got);
    }
}

/// The text of bytes is written as those very bytes in UTF-8, none more and none
/// less, and bytes that are no UTF-8 have none: they fail the channel.
pub proof fn a_text_is_written_as_its_bytes(bytes: Seq<u8>, r: Result<String, SshSpikeError>)
    requires
        is_text_of(bytes, r),
    ensures
        r is Ok <==> vstd::utf8::valid_utf8(bytes),
        r matches Ok(text) ==> vstd::utf8::encode_utf8(text@) == bytes,
        r matches Err(e) ==> e is Channel,
{
    if vstd::utf8::valid_utf8(bytes) {
        vstd::utf8::decode_utf8_encode_utf8(bytes);
    }
}

/// The command is over with a close, the loss of the channel, or a silence that
/// was long enough, and with nothing else. An exit status is an exit status and
/// nothing else.
pub proof fn only_an_end_ends_a_command(event: ExecEventView)
    ensures
        event.ends() <==> (event == ExecEventView::Message(MessageView::Close) || event is Ended
            || event is Quiet),
        event.is_status() <==> (event matches ExecEventView::Message(m) && m is ExitStatus),
{
}

/// An event is viewed as what it is.
pub proof fn an_exec_event_is_viewed_as_it_is(msg: ChannelMessage)
    ensures
        (ExecEvent::Message { msg })@ == ExecEventView::Message(msg@),
        ExecEvent::Ended@ == ExecEventView::Ended,
        ExecEvent::Quiet@ == ExecEventView::Quiet,
{
}

/// The bytes of all the messages of data, on the standard output, among events.
pub open spec fn stdout_sent(events: Seq<ExecEventView>) -> Seq<u8>
    decreases events.len(),
{
    if events.len() == 0 {
        Seq::empty()
    } else {
        match events.first() {
            ExecEventView::Message(MessageView::Data(data)) => data + stdout_sent(
                events.drop_first(),
            ),
            _ => stdout_sent(events.drop_first()),
        }
    }
}

/// For events of which none but the last may be a close, a loss or a silence,
/// what is collected is the bytes of all the messages of data, whole and in
/// order.
pub proof fn all_the_output_is_collected(events: Seq<ExecEventView>)
    requires
        forall|k: int|
            0 <= k < events.len() - 1 ==> !(#[trigger] events[k] == ExecEventView::Message(
                MessageView::Close,
            ) || events[k] is Ended || events[k] is Quiet),
    ensures
        exec_collects(events) == stdout_sent(events),
    decreases events.len(),
{
    if events.len() > 0 {
        let rest = events.drop_first();
        assert forall|k: int| 0 <= k < rest.len() - 1 implies !(#[trigger] rest[k]
            == ExecEventView::Message(MessageView::Close) || rest[k] is Ended
            || rest[k] is Quiet) by {
            assert(rest[k] == events[k + 1]);
        }
        all_the_output_is_collected(rest);
        if events.first().ends() {
            if events.len() > 1 {
                assert(events[0] == events.first());
            }
            assert(rest.len() == 0);
            assert(stdout_sent(rest) =~= Seq::empty());
        }
        assert(exec_collects(events) =~= stdout_sent(events));
    }
}

/// A command that takes in events until one ends it has collected the bytes of
/// all the messages of data among them, whole and in order.
pub proof fn a_command_collects_all_its_output(
    states: Seq<ExecOutput>,
    events: Seq<ExecEventView>,
    overs: Seq<bool>,
)
    requires
        states.len() == events.len() + 1,
        overs.len() == events.len(),
        states[0].got() == Seq::<u8>::empty(),
        forall|k: int|
            #![trigger events[k]]
            0 <= k < events.len() ==> takes_in(states[k], events[k], states[k + 1], overs[k]),
        forall|k: int| 0 <= k < overs.len() - 1 ==> !(#[trigger] overs[k]),
    ensures
        states.last().got() == stdout_sent(events),
{
    assert forall|k: int| 0 <= k < events.len() - 1 implies !(#[trigger] events[k]
        == ExecEventView::Message(MessageView::Close) || events[k] is Ended
        || events[k] is Quiet) by {
        let event = events[k];
        assert(takes_in(states[k], event, states[k + 1], overs[k]));
        assert(!overs[k]);
    }
    a_command_collects_what_its_events_bring(states, events, overs);
    all_the_output_is_collected(events);
}

/// Among the events that a command took in, the exit status is seen exactly if it
/// was one of them.
pub proof fn the_status_is_seen_once_it_arrived(
    states: Seq<ExecOutput>,
    events: Seq<ExecEventView>,
    overs: Seq<bool>,
    k: int,
)
    requires
        states.len() == events.len() + 1,
        overs.len() == events.len(),
        !states[0].status_seen(),
        forall|i: int|
            #![trigger events[i]]
            0 <= i < events.len() ==> takes_in(states[i], events[i], states[i + 1], overs[i]),
        0 <= k < states.len(),
    ensures
        states[k].status_seen() <==> exists|i: int|
            0 <= i < k && (#[trigger] events[i] matches ExecEventView::Message(m)
                && m is ExitStatus),
    decreases k,
{
    if k > 0 {
        the_status_is_seen_once_it_arrived(states, events, overs, k - 1);
        let event = events[k - 1];
        assert(takes_in(states[k - 1], event, states[k], overs[k - 1]));
        a_command_takes_in_whole_messages(states[k - 1], states[k], event, overs[k - 1]);
    }
}

/// Taking in a message of data adds exactly its bytes, and taking in anything
/// else adds none.
pub proof fn a_command_takes_in_whole_messages(
    before: ExecOutput,
    after: ExecOutput,
    event: ExecEventView,
    over: bool,
)
    requires
        takes_in(before, event, after, over),
    ensures
        match event {
            ExecEventView::Message(MessageView::Data(data)) => after.got() == before.got() + data,
            _ => after.got() == before.got(),
        },
        after.status_seen() <==> (before.status_seen() || (event matches ExecEventView::Message(m)
            && m is ExitStatus)),
        over <==> (event == ExecEventView::Message(MessageView::Close) || event is Ended
            || event is Quiet),
{
    assert(before.got() + Seq::<u8>::empty() =~= before.got());
}

/// A message of data adds exactly its bytes to a banner and ends the wait from
/// the fourth byte on; the end of data, a close or a loss ends it; and nothing
/// else does either.
pub proof fn a_banner_takes_in_whole_messages(
    before: Banner,
    after: Banner,
    msg: Option<MessageView>,
    over: bool,
)
    requires
        banner_takes_in(before, msg, after, over),
    ensures
        match msg {
            Some(MessageView::Data(data)) => {
                &&& after.got() == before.got() + data
                &&& over <==> before.got().len() + data.len() >= 4
            },
            _ => {
                &&& after.got() == before.got()
                &&& over <==> (msg is None || msg == Some(MessageView::Eof) || msg == Some(
                    MessageView::Close,
                ))
            },
        },
{
    assert(before.got() + Seq::<u8>::empty() =~= before.got());
}

/// As long as the wait for a banner goes on, it is every byte of the messages of
/// data that arrived.
pub proof fn a_short_banner_is_all_that_was_sent(got: Seq<u8>, msgs: Seq<Option<MessageView>>)
    requires
        !banner_run(got, msgs).1,
    ensures
        banner_run(got, msgs).0 == got + banner_data(msgs),
    decreases msgs.len(),
{
    if msgs.len() == 0 {
        assert(got + banner_data(msgs) =~= got);
    } else {
        let next = got + banner_bytes(msgs.first());
        a_short_banner_is_all_that_was_sent(next, msgs.drop_first());
        assert(next + banner_data(msgs.drop_first()) =~= got + banner_data(msgs));
    }
}

} // verus!
