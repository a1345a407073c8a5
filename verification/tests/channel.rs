//! What channel messages mean to a pipe, a shell, a command and a banner.
use ssh_transport::channel::{
    output_text, pump_message, pump_step, read_chunk, Banner, ChannelMessage, ExecEvent,
    ExecOutput, Patience,
};
use ssh_transport::{SshSpikeError, SshSpikeEvent, SshSpikeEventSink};
use std::sync::Mutex;

fn data(bytes: &[u8]) -> ChannelMessage {
    ChannelMessage::Data { data: bytes.to_vec() }
}

fn extended(bytes: &[u8]) -> ChannelMessage {
    ChannelMessage::ExtendedData { data: bytes.to_vec() }
}

struct Collector(Mutex<Vec<SshSpikeEvent>>);

impl SshSpikeEventSink for Collector {
    fn on_event(&self, event: SshSpikeEvent) {
        self.0.lock().unwrap().push(event);
    }
}

/// Feeds arrivals to the pump until it ends; tells how many it took.
fn run_pump(sink: &Collector, arrivals: Vec<Option<ChannelMessage>>) -> usize {
    let mut taken = 0;
    for arrival in arrivals {
        taken += 1;
        if pump_message(sink, arrival) {
            break;
        }
    }
    taken
}

/// Feeds events to a command until it is over.
fn run_exec(events: Vec<ExecEvent>) -> Result<String, SshSpikeError> {
    let mut output = ExecOutput::new();
    for event in events {
        if output.take_in(event) {
            break;
        }
    }
    output.finish()
}

fn message(msg: ChannelMessage) -> ExecEvent {
    ExecEvent::Message { msg }
}

#[test]
fn a_pipe_reads_both_streams_and_ends_at_eof() {
    assert_eq!(read_chunk(Some(data(b"out"))), Some(b"out".to_vec()));
    assert_eq!(read_chunk(Some(extended(b"err"))), Some(b"err".to_vec()));
    assert_eq!(read_chunk(Some(ChannelMessage::Eof)), Some(Vec::new()));
    assert_eq!(read_chunk(Some(ChannelMessage::Close)), Some(Vec::new()));
    assert_eq!(read_chunk(None), Some(Vec::new()));
    assert_eq!(read_chunk(Some(ChannelMessage::ExitStatus { code: 1 })), None);
    assert_eq!(read_chunk(Some(ChannelMessage::Other)), None);
}

#[test]
fn a_message_without_data_is_not_the_end_of_a_pipe() {
    assert_eq!(read_chunk(Some(data(b""))), None);
    assert_eq!(read_chunk(Some(extended(b""))), None);
}

#[test]
fn a_shell_that_is_closed_reports_it_last() {
    let sink = Collector(Mutex::new(Vec::new()));
    let taken = run_pump(
        &sink,
        vec![
            Some(data(b"ok-")),
            Some(ChannelMessage::Other),
            Some(extended(b"session")),
            Some(ChannelMessage::ExitStatus { code: 3 }),
            Some(ChannelMessage::Eof),
            Some(ChannelMessage::Close),
            Some(data(b"late")),
        ],
    );
    assert_eq!(taken, 6);
    assert_eq!(
        *sink.0.lock().unwrap(),
        vec![
            SshSpikeEvent::Data { data: b"ok-".to_vec() },
            SshSpikeEvent::Data { data: b"session".to_vec() },
            SshSpikeEvent::ExitStatus { code: 3 },
            SshSpikeEvent::Closed,
        ]
    );
}

#[test]
fn a_transport_that_goes_away_is_a_death() {
    let sink = Collector(Mutex::new(Vec::new()));
    let taken = run_pump(&sink, vec![Some(data(b"x")), None, Some(data(b"y"))]);
    assert_eq!(taken, 2);
    assert_eq!(
        *sink.0.lock().unwrap(),
        vec![SshSpikeEvent::Data { data: b"x".to_vec() }, SshSpikeEvent::Died]
    );
}

#[test]
fn messages_without_an_event_do_not_end_the_stream() {
    for msg in [ChannelMessage::Eof, ChannelMessage::Other] {
        let step = pump_step(Some(msg));
        assert_eq!(step.event, None);
        assert!(!step.ended);
    }
}

#[test]
fn exec_returns_command_output() {
    let out = run_exec(vec![
        message(data(b"ok-exec\n")),
        message(ChannelMessage::Eof),
        message(ChannelMessage::ExitStatus { code: 0 }),
        message(ChannelMessage::Close),
    ])
    .expect("exec");
    assert_eq!(out.trim(), "ok-exec");
}

#[test]
fn exec_does_not_lose_output_when_exit_status_arrives_early() {
    let lines = 200_000;
    let mut events = Vec::new();
    for i in 1..=lines {
        if i == 1000 {
            // the status overtakes the rest of the output
            events.push(message(ChannelMessage::ExitStatus { code: 0 }));
        }
        events.push(message(data(format!("{i}\n").as_bytes())));
    }
    events.push(message(ChannelMessage::Close));
    let out = run_exec(events).expect("exec");
    let produced = out.lines().filter(|l| !l.is_empty()).count();
    assert_eq!(produced, lines, "output was truncated");
    assert_eq!(out.lines().next(), Some("1"));
    assert_eq!(out.lines().last(), Some(lines.to_string()).as_deref());
}

#[test]
fn a_command_is_waited_for_until_its_status_is_known() {
    let mut output = ExecOutput::new();
    assert_eq!(output.patience(), Patience::Forever);
    assert!(!output.take_in(message(data(b"a"))));
    assert_eq!(output.patience(), Patience::Forever);
    assert!(!output.take_in(message(ChannelMessage::ExitStatus { code: 0 })));
    assert_eq!(output.patience(), Patience::Millis { millis: 300 });
    assert!(!output.take_in(message(data(b"b"))));
    assert_eq!(output.patience(), Patience::Millis { millis: 300 });
    assert!(output.take_in(ExecEvent::Quiet));
    assert_eq!(output.finish().expect("text"), "ab");
}

#[test]
fn a_command_collects_standard_output_alone() {
    let out = run_exec(vec![
        message(data(b"out")),
        message(extended(b"err")),
        message(ChannelMessage::Other),
        message(ChannelMessage::Eof),
        message(data(b"put")),
        ExecEvent::Ended,
        message(data(b"late")),
    ]);
    assert_eq!(out.expect("text"), "output");
}

#[test]
fn output_that_is_not_text_is_a_channel_failure() {
    let bytes = vec![b'a', 0xff];
    let expected = String::from_utf8(bytes.clone()).err().expect("not text").to_string();
    match output_text(bytes) {
        Err(SshSpikeError::Channel(text)) => assert_eq!(text, expected),
        other => panic!("expected a channel failure, got {other:?}"),
    }
    assert_eq!(output_text("h\u{e9}".as_bytes().to_vec()).expect("text"), "h\u{e9}");
}

#[test]
fn direct_tcpip_reaches_the_inner_sshd_banner() {
    let mut banner = Banner::new();
    assert!(!banner.take_in(Some(data(b"SSH"))));
    assert!(!banner.take_in(Some(extended(b"noise"))));
    assert!(!banner.take_in(Some(ChannelMessage::ExitStatus { code: 0 })));
    assert!(!banner.take_in(Some(ChannelMessage::Other)));
    assert!(banner.take_in(Some(data(b"-2.0-OpenSSH_9.7\r\n"))));
    let text = banner.finish().expect("text");
    assert!(
        text.starts_with("SSH-2.0-OpenSSH"),
        "expected the inner sshd banner, got {text:?}"
    );
}

#[test]
fn a_banner_of_four_bytes_is_enough() {
    let mut banner = Banner::new();
    assert!(banner.take_in(Some(data(b"SSH-"))));
    let mut short = Banner::new();
    assert!(!short.take_in(Some(data(b"SSH"))));
    assert!(short.take_in(None));
    assert_eq!(short.finish().expect("text"), "SSH");
}

#[test]
fn a_target_that_ends_without_a_banner_gives_what_it_sent() {
    for end in [Some(ChannelMessage::Eof), Some(ChannelMessage::Close), None] {
        let mut banner = Banner::new();
        assert!(banner.take_in(end));
        assert_eq!(banner.finish().expect("text"), "");
    }
}
