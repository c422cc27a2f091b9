use bytes::Bytes;
use xbnet::ser::{LineRead, XBSerReader, XBSerWriter};
use xbnet::text::{decimal_bytes, parse_hex};
use xbnet::xb::{
    assert_response, ends_with_ok, mkerror, unexpected_response, writerthread, StartupStatus,
    StartupStep, XBStartup, XB, XBTX,
};
use xbnet::xbpacket::{xbchecksum, PacketStream, XBDestAddr};

#[test]
fn readln_trims_and_consumes_through_the_carriage_return() {
    let mut ser = XBSerReader::new();
    ser.feed(b"  OK \rnext");
    assert_eq!(ser.readln(), LineRead::Line(String::from("OK")));
    assert_eq!(ser.peek(), b"next");
    assert_eq!(ser.readln(), LineRead::Pending);
    assert_eq!(ser.peek(), b"next");
}

#[test]
fn readln_replaces_ill_formed_bytes() {
    let mut ser = XBSerReader::new();
    ser.feed(&[b'a', 0xff, b'b', 0x0d]);
    assert_eq!(ser.readln(), LineRead::Line(String::from("a\u{fffd}b")));
}

#[test]
fn readln_reports_the_end_of_the_stream() {
    let mut ser = XBSerReader::new();
    ser.feed(b"tail");
    ser.close();
    assert_eq!(ser.readln(), LineRead::Line(String::from("tail")));
    assert_eq!(ser.readln(), LineRead::Eof);
    assert_eq!(ser.readln(), LineRead::Eof);
}

#[test]
fn read_exact_takes_all_or_nothing() {
    let mut ser = XBSerReader::new();
    ser.feed(&[1, 2, 3]);
    assert_eq!(ser.read_exact(4), None);
    assert_eq!(ser.pending_len(), 3);
    assert_eq!(ser.read_exact(2), Some(vec![1, 2]));
    assert_eq!(ser.read_exact(0), Some(vec![]));
    assert_eq!(ser.read_exact(1), Some(vec![3]));
}

#[test]
fn writeln_appends_carriage_return_and_line_feed() {
    let mut ser = XBSerWriter::new();
    ser.writeln("ATAP 1");
    ser.write_all(&[0x7e]);
    assert_eq!(ser.take(), b"ATAP 1\r\n\x7e".to_vec());
    assert_eq!(ser.take(), Vec::<u8>::new());
}

#[test]
fn parse_hex_reads_both_cases_and_a_plus_sign() {
    assert_eq!(parse_hex(b"13A200", u64::MAX), Some(0x13a200));
    assert_eq!(parse_hex(b"40aaBBcc", u64::MAX), Some(0x40aabbcc));
    assert_eq!(parse_hex(b"+ff", u64::MAX), Some(255));
    assert_eq!(parse_hex(b"0", u64::MAX), Some(0));
    assert_eq!(parse_hex(b"000000000000000000001", 0xffff), Some(1));
    assert_eq!(parse_hex(b"ffffffffffffffff", u64::MAX), Some(u64::MAX));
}

#[test]
fn parse_hex_refuses_what_is_no_number_or_too_large() {
    assert_eq!(parse_hex(b"", u64::MAX), None);
    assert_eq!(parse_hex(b"+", u64::MAX), None);
    assert_eq!(parse_hex(b"-1", u64::MAX), None);
    assert_eq!(parse_hex(b"OK", u64::MAX), None);
    assert_eq!(parse_hex(b"12 ", u64::MAX), None);
    assert_eq!(parse_hex(b"0x12", u64::MAX), None);
    assert_eq!(parse_hex(b"10000000000000000", u64::MAX), None);
    assert_eq!(parse_hex(b"10000", 0xffff), None);
    assert_eq!(parse_hex(b"ffff", 0xffff), Some(0xffff));
    assert_eq!(parse_hex(b"1000g", 0xffff), None);
}

#[test]
fn decimal_bytes_writes_without_leading_zeros() {
    assert_eq!(decimal_bytes(0), b"0".to_vec());
    assert_eq!(decimal_bytes(7), b"7".to_vec());
    assert_eq!(decimal_bytes(1234567890), b"1234567890".to_vec());
    assert_eq!(decimal_bytes(u64::MAX), b"18446744073709551615".to_vec());
}

#[test]
fn assert_response_compares_the_texts() {
    assert!(assert_response(String::from("OK"), String::from("OK")).is_ok());
    let err = assert_response(String::from("ERROR"), String::from("OK")).unwrap_err();
    assert_eq!(err.kind(), std::io::ErrorKind::Other);
    assert_eq!(err.to_string(), "Unexpected response: got ERROR, expected OK");
    assert_eq!(
        unexpected_response("a", "b"),
        "Unexpected response: got a, expected b"
    );
}

#[test]
fn mkerror_carries_the_message() {
    let err = mkerror("boom");
    assert_eq!(err.kind(), std::io::ErrorKind::Other);
    assert_eq!(err.to_string(), "boom");
}

#[test]
fn ends_with_ok_looks_at_the_last_two_letters() {
    assert!(ends_with_ok("OK"));
    assert!(ends_with_ok("noise\u{fffd}OK"));
    assert!(!ends_with_ok("OK "));
    assert!(!ends_with_ok("K"));
    assert!(!ends_with_ok(""));
    assert!(!ends_with_ok("ok"));
}

fn expect_send(step: StartupStep, command: &str) -> XBStartup {
    match step {
        StartupStep::Continue(next, Some(text)) => {
            assert_eq!(text, command);
            next
        }
        _ => panic!("expected the command {}", command),
    }
}

#[test]
fn dialogue_walks_through_every_command() {
    let mut writer = XBSerWriter::new();
    let lines = vec![String::from("ATID 7FFF"), String::new(), String::from("ATCE 0")];
    let st = XBStartup::begin(lines, &mut writer);
    assert_eq!(writer.take(), b"+++".to_vec());
    let st = match st.on_line("garbage") {
        StartupStep::Continue(next, None) => next,
        _ => panic!("noise must be passed over"),
    };
    let st = expect_send(st.on_line("xxOK"), "ATID 7FFF");
    let st = expect_send(st.on_line("OK"), "ATCE 0");
    let st = expect_send(st.on_line("OK"), "ATAP 1");
    let st = expect_send(st.on_line("OK"), "ATAO 0");
    let st = expect_send(st.on_line("OK"), "ATSH");
    let st = expect_send(st.on_line("13A200"), "ATSL");
    let st = expect_send(st.on_line("40AAAAAA"), "ATNP");
    let st = expect_send(st.on_line("100"), "ATCN");
    match st.on_line("OK") {
        StartupStep::Ready(xb) => {
            assert_eq!(xb, XB { mymac: 0x0013a200_40aaaaaa, maxpacketsize: 256 })
        }
        _ => panic!("expected the radio to be ready"),
    }
}

#[test]
fn dialogue_fails_on_an_unexpected_answer() {
    let mut writer = XBSerWriter::new();
    let st = XBStartup::begin(vec![], &mut writer);
    let st = expect_send(st.on_line("OK"), "ATAP 1");
    match st.on_line("ERROR") {
        StartupStep::Failed(e) => {
            assert_eq!(e.to_string(), "Unexpected response: got ERROR, expected OK")
        }
        _ => panic!("expected a failure"),
    }
    let st = XBStartup::begin(vec![String::from("ATXX")], &mut writer);
    let st = expect_send(st.on_line("OK"), "ATXX");
    assert!(matches!(st.on_line("xxOK"), StartupStep::Failed(_)));
}

#[test]
fn dialogue_fails_on_a_number_that_is_none() {
    let mut writer = XBSerWriter::new();
    let st = XBStartup::begin(vec![], &mut writer);
    let st = expect_send(st.on_line("OK"), "ATAP 1");
    let st = expect_send(st.on_line("OK"), "ATAO 0");
    let st = expect_send(st.on_line("OK"), "ATSH");
    assert!(matches!(st.on_line("zz"), StartupStep::Failed(_)));
    let st = XBStartup::begin(vec![], &mut writer);
    let st = expect_send(st.on_line("OK"), "ATAP 1");
    let st = expect_send(st.on_line("OK"), "ATAO 0");
    let st = expect_send(st.on_line("OK"), "ATSH");
    let st = expect_send(st.on_line("1"), "ATSL");
    let st = expect_send(st.on_line("2"), "ATNP");
    assert!(matches!(st.on_line("10000"), StartupStep::Failed(_)));
}

#[test]
fn driver_runs_the_dialogue_over_the_queues() {
    let mut reader = XBSerReader::new();
    let mut writer = XBSerWriter::new();
    let st = XBStartup::begin(vec![], &mut writer);
    let st = match XB::new(st, &mut reader, &mut writer) {
        StartupStatus::Pending(st) => st,
        _ => panic!("nothing has arrived yet"),
    };
    assert_eq!(writer.take(), b"+++".to_vec());
    reader.feed(b"junk\rOK\rOK\rOK\r13A2");
    let st = match XB::new(st, &mut reader, &mut writer) {
        StartupStatus::Pending(st) => st,
        _ => panic!("the answer to ATSH is not whole yet"),
    };
    assert_eq!(writer.take(), b"ATAP 1\r\nATAO 0\r\nATSH\r\n".to_vec());
    assert_eq!(reader.peek(), b"13A2");
    reader.feed(b"00\r40123456\rFF\rOK\r\x7e\x00");
    match XB::new(st, &mut reader, &mut writer) {
        StartupStatus::Ready(xb) => {
            assert_eq!(xb.mymac, 0x0013a200_40123456);
            assert_eq!(xb.maxpacketsize, 255);
        }
        _ => panic!("expected the radio to be ready"),
    }
    assert_eq!(writer.take(), b"ATSL\r\nATNP\r\nATCN\r\n".to_vec());
    assert_eq!(reader.peek(), b"\x7e\x00");
}

#[test]
fn driver_fails_at_the_end_of_the_stream() {
    let mut reader = XBSerReader::new();
    let mut writer = XBSerWriter::new();
    let st = XBStartup::begin(vec![], &mut writer);
    reader.feed(b"OK\r");
    reader.close();
    assert!(matches!(
        XB::new(st, &mut reader, &mut writer),
        StartupStatus::Failed(_)
    ));
}

#[test]
fn writer_puts_the_chunks_on_the_wire_in_order() {
    let mut ser = XBSerWriter::new();
    let mut stream = PacketStream::new();
    let data: Vec<u8> = (0..300u32).map(|i| i as u8).collect();
    let item = XBTX::TXData(XBDestAddr::U64(0x42), Bytes::from(data.clone()));
    assert!(writerthread(&mut ser, &mut stream, 200, item, false, true));
    let wire = ser.take();
    let first_len = 14 + 200;
    assert_eq!(&wire[..3], &[0x7e, 0x00, first_len as u8]);
    assert_eq!(wire[4], 1);
    assert_eq!(wire[17], 1);
    assert_eq!(&wire[18..18 + 199], &data[..199]);
    assert_eq!(wire[3 + first_len], xbchecksum(&wire[3..3 + first_len]));
    let second = &wire[4 + first_len..];
    assert_eq!(&second[..3], &[0x7e, 0x00, (14 + 102) as u8]);
    assert_eq!(second[4], 2);
    assert_eq!(second[17], 0);
    assert_eq!(&second[18..second.len() - 1], &data[199..]);
    assert_eq!(stream.get_and_incr_framecounter(), 3);
}

#[test]
fn writer_drops_what_cannot_be_sent() {
    let mut ser = XBSerWriter::new();
    let mut stream = PacketStream::new();
    let big = XBTX::TXData(XBDestAddr::U64(1), Bytes::from(vec![0u8; 256]));
    assert!(writerthread(&mut ser, &mut stream, 2, big, false, false));
    assert!(ser.take().is_empty());
    let wide = XBTX::TXData(XBDestAddr::U64(1), Bytes::from(vec![0u8; 65530]));
    assert!(writerthread(&mut ser, &mut stream, 65535, wide, false, false));
    assert!(ser.take().is_empty());
    let empty = XBTX::TXData(XBDestAddr::U64(1), Bytes::new());
    assert!(writerthread(&mut ser, &mut stream, 100, empty, false, false));
    assert!(ser.take().is_empty());
}

#[test]
fn pipe_shutdown() {
    let mut ser = XBSerWriter::new();
    let mut stream = PacketStream::new();
    let item = xbnet::pipe::stdin_processor(0x42, &[]);
    assert_eq!(item, XBTX::Shutdown);
    assert!(!writerthread(&mut ser, &mut stream, 100, item, false, true));
    assert!(ser.take().is_empty());
}
