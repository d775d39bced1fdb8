use serial_relay::baud::parse_baud_rate;
use serial_relay::input::line_text;
use serial_relay::frame::{frame_line, read_len, ByteCount, CARRIAGE_RETURN, READ_CAPACITY};
use serial_relay::poller::{ChannelPoll, InboundAction, OutboundAction, Phase, Poller, ReadOutcome};

fn sent_bytes(action: OutboundAction) -> Vec<u8> {
    match action {
        OutboundAction::Send(frame) => {
            let mut all = frame.payload.clone();
            all.push(frame.terminator);
            all
        }
        _ => panic!("expected a frame to send"),
    }
}

#[test]
fn baud_rate_plain_decimal() {
    assert_eq!(parse_baud_rate("9600"), Some(9600));
    assert_eq!(parse_baud_rate("115200"), Some(115200));
    assert_eq!(parse_baud_rate("0"), Some(0));
    assert_eq!(parse_baud_rate("007"), Some(7));
}

#[test]
fn baud_rate_leading_plus() {
    assert_eq!(parse_baud_rate("+19200"), Some(19200));
    assert_eq!(parse_baud_rate("+"), None);
    assert_eq!(parse_baud_rate("++1"), None);
}

#[test]
fn baud_rate_rejects_non_numeric() {
    assert_eq!(parse_baud_rate(""), None);
    assert_eq!(parse_baud_rate("fast"), None);
    assert_eq!(parse_baud_rate("96o0"), None);
    assert_eq!(parse_baud_rate(" 9600"), None);
    assert_eq!(parse_baud_rate("9600 "), None);
    assert_eq!(parse_baud_rate("-1"), None);
    assert_eq!(parse_baud_rate("٣"), None);
}

#[test]
fn baud_rate_bounds() {
    assert_eq!(parse_baud_rate("4294967295"), Some(u32::MAX));
    assert_eq!(parse_baud_rate("4294967296"), None);
    assert_eq!(parse_baud_rate("99999999999999999999"), None);
    assert_eq!(parse_baud_rate("99999999999x"), None);
}

#[test]
fn baud_rate_agrees_with_std() {
    for text in ["1", "+2", "", "+", "12a", "4294967295", "4294967296", "-0", "00"] {
        assert_eq!(parse_baud_rate(text), text.parse::<u32>().ok());
    }
}

#[test]
fn frame_of_ascii_line() {
    let frame = frame_line("hello");
    assert_eq!(frame.payload, vec![104, 101, 108, 108, 111]);
    assert_eq!(frame.terminator, 13);
    assert_eq!(CARRIAGE_RETURN, 0x0D);
}

#[test]
fn frame_of_non_ascii_line() {
    let frame = frame_line("é€");
    assert_eq!(frame.payload, vec![0xC3, 0xA9, 0xE2, 0x82, 0xAC]);
    assert_eq!(frame.terminator, 13);
}

#[test]
fn frame_of_empty_line() {
    let frame = frame_line("");
    assert!(frame.payload.is_empty());
    assert_eq!(frame.terminator, 13);
}

#[test]
fn read_len_follows_count() {
    assert_eq!(read_len(ByteCount::Available(0)), None);
    assert_eq!(read_len(ByteCount::QueryFailed), None);
    assert_eq!(read_len(ByteCount::Available(1)), Some(1));
    assert_eq!(read_len(ByteCount::Available(999)), Some(999));
    assert_eq!(read_len(ByteCount::Available(1000)), Some(1000));
    assert_eq!(read_len(ByteCount::Available(1001)), Some(READ_CAPACITY));
    assert_eq!(read_len(ByteCount::Available(u32::MAX)), Some(1000));
}

#[test]
fn hello_is_sent_with_carriage_return() {
    let mut p = Poller::new();
    let action = p.on_channel(ChannelPoll::Line("hello".to_string()));
    assert_eq!(sent_bytes(action), vec![b'h', b'e', b'l', b'l', b'o', 13]);
    assert_eq!(p.phase(), Phase::Querying);
}

#[test]
fn line_bytes_are_utf8_then_one_carriage_return() {
    let mut p = Poller::new();
    let line = "grüß 1".to_string();
    let mut expected = line.as_bytes().to_vec();
    expected.push(0x0D);
    let action = p.on_channel(ChannelPoll::Line(line));
    assert_eq!(sent_bytes(action), expected);
}

#[test]
fn empty_channel_writes_nothing() {
    let mut p = Poller::new();
    assert!(matches!(p.on_channel(ChannelPoll::Empty), OutboundAction::Idle));
    assert_eq!(p.phase(), Phase::Querying);
    assert_eq!(p.exit_code(), None);
}

#[test]
fn silent_device_is_never_read() {
    let mut p = Poller::new();
    for _ in 0..5 {
        assert!(matches!(p.on_channel(ChannelPoll::Empty), OutboundAction::Idle));
        assert_eq!(p.on_byte_count(ByteCount::Available(0)), None);
        assert_eq!(p.phase(), Phase::Receiving);
    }
}

#[test]
fn failed_query_counts_as_nothing_waiting() {
    let mut p = Poller::new();
    p.on_channel(ChannelPoll::Empty);
    assert_eq!(p.on_byte_count(ByteCount::QueryFailed), None);
    assert_eq!(p.phase(), Phase::Receiving);
}

#[test]
fn waiting_bytes_request_one_bounded_read() {
    let mut p = Poller::new();
    p.on_channel(ChannelPoll::Empty);
    assert_eq!(p.on_byte_count(ByteCount::Available(4)), Some(4));
    assert_eq!(p.phase(), Phase::Reading(4));
    let action = p.on_read(ReadOutcome::Data(b"ok\r\n".to_vec()));
    match action {
        InboundAction::Print(text) => assert_eq!(text, "ok\r\n"),
        _ => panic!("expected text to print"),
    }
    assert_eq!(p.phase(), Phase::Receiving);

    p.on_channel(ChannelPoll::Empty);
    assert_eq!(p.on_byte_count(ByteCount::Available(5000)), Some(1000));
    assert_eq!(p.phase(), Phase::Reading(1000));
}

#[test]
fn end_of_input_stops_with_exit_code_zero() {
    let mut p = Poller::new();
    assert!(matches!(p.on_channel(ChannelPoll::Closed), OutboundAction::Stop));
    assert_eq!(p.phase(), Phase::Stopped);
    assert_eq!(p.exit_code(), Some(0));
}

#[test]
fn pending_lines_are_sent_before_stopping() {
    let mut p = Poller::new();
    let mut queue = vec!["one", "two", "three"];
    let mut sent: Vec<Vec<u8>> = Vec::new();
    loop {
        let poll = if queue.is_empty() {
            ChannelPoll::Closed
        } else {
            ChannelPoll::Line(queue.remove(0).to_string())
        };
        match p.on_channel(poll) {
            OutboundAction::Send(frame) => {
                let mut all = frame.payload.clone();
                all.push(frame.terminator);
                sent.push(all);
            }
            OutboundAction::Idle => panic!("a queued line was not sent"),
            OutboundAction::Stop => break,
        }
        assert_eq!(p.on_byte_count(ByteCount::Available(0)), None);
    }
    assert_eq!(sent, vec![b"one\r".to_vec(), b"two\r".to_vec(), b"three\r".to_vec()]);
    assert_eq!(p.exit_code(), Some(0));
}

#[test]
fn invalid_utf8_is_fatal() {
    let mut p = Poller::new();
    p.on_channel(ChannelPoll::Empty);
    p.on_byte_count(ByteCount::Available(3));
    let action = p.on_read(ReadOutcome::Data(vec![b'a', 0xFF, 0xFE]));
    assert!(matches!(action, InboundAction::Fatal));
    assert_eq!(p.phase(), Phase::Crashed);
    assert_eq!(p.exit_code(), None);
}

#[test]
fn non_ascii_text_is_decoded() {
    let mut p = Poller::new();
    p.on_channel(ChannelPoll::Empty);
    p.on_byte_count(ByteCount::Available(2));
    match p.on_read(ReadOutcome::Data(vec![0xC3, 0xA9])) {
        InboundAction::Print(text) => assert_eq!(text, "é"),
        _ => panic!("expected text to print"),
    }
}

#[test]
fn timeout_is_ignored_and_errors_reported() {
    let mut p = Poller::new();
    p.on_channel(ChannelPoll::Empty);
    p.on_byte_count(ByteCount::Available(10));
    assert!(matches!(p.on_read(ReadOutcome::TimedOut), InboundAction::Ignore));
    assert_eq!(p.phase(), Phase::Receiving);
    p.on_channel(ChannelPoll::Empty);
    p.on_byte_count(ByteCount::Available(10));
    assert!(matches!(p.on_read(ReadOutcome::Failed), InboundAction::Report));
    assert_eq!(p.phase(), Phase::Receiving);
}

#[test]
fn input_line_loses_its_newline() {
    assert_eq!(line_text("hello\n"), "hello");
    assert_eq!(line_text("a b\r\n"), "a b\r");
    assert_eq!(line_text("\n"), "");
}

#[test]
fn input_line_without_newline_is_kept() {
    assert_eq!(line_text("tail"), "tail");
    assert_eq!(line_text(""), "");
    assert_eq!(line_text("ü"), "ü");
    assert_eq!(line_text("ü\n"), "ü");
}
