use sms_engine::channel::{
    is_settled, Drain, DrainStep, ReadOutcome, READ_CHUNK_BYTES, READ_TIMEOUT_MILLIS,
};

#[test]
fn a_response_settles_on_each_terminator() {
    assert!(is_settled("\r\nOK\r\n"));
    assert!(is_settled("+CMS ERROR: 500"));
    assert!(is_settled("\r\n> "));
    assert!(!is_settled(""));
    assert!(!is_settled("+CREG: 0,1"));
    assert!(!is_settled("RING"));
}

#[test]
fn read_limits_are_one_kibibyte_and_a_fifth_of_a_second() {
    assert_eq!(READ_CHUNK_BYTES, 1024);
    assert_eq!(READ_TIMEOUT_MILLIS, 200);
}

#[test]
fn drain_reads_on_until_a_terminator_shows() {
    let mut drain = Drain::new();
    assert_eq!(drain.accept(&ReadOutcome::Data(b"\r\n+CREG: 0,1\r\n".to_vec())), DrainStep::ReadMore);
    assert_eq!(drain.accept(&ReadOutcome::Data(b"\r\nOK\r\n".to_vec())), DrainStep::Settled);
    assert_eq!(drain.response(), "\r\n+CREG: 0,1\r\n\r\nOK\r\n");
}

#[test]
fn drain_sees_a_terminator_that_two_chunks_make_up() {
    let mut drain = Drain::new();
    assert_eq!(drain.accept(&ReadOutcome::Data(b"ERR".to_vec())), DrainStep::ReadMore);
    assert_eq!(drain.accept(&ReadOutcome::Data(b"OR".to_vec())), DrainStep::Settled);
    assert_eq!(drain.into_response(), "ERROR");
}

#[test]
fn drain_stops_when_the_line_is_quiet() {
    let mut drain = Drain::new();
    assert_eq!(drain.accept(&ReadOutcome::Data(b"RING".to_vec())), DrainStep::ReadMore);
    assert_eq!(drain.accept(&ReadOutcome::Quiet), DrainStep::Settled);
    assert_eq!(drain.response(), "RING");
}

#[test]
fn drain_stops_on_a_read_without_bytes() {
    let mut drain = Drain::new();
    assert_eq!(drain.accept(&ReadOutcome::Data(Vec::new())), DrainStep::Settled);
    assert_eq!(drain.response(), "");
}

#[test]
fn drain_tolerates_unsolicited_codes_before_the_terminator() {
    let mut drain = Drain::new();
    assert_eq!(drain.accept(&ReadOutcome::Data(b"\r\n+CMTI: \"SM\",3\r\n".to_vec())), DrainStep::ReadMore);
    assert_eq!(drain.accept(&ReadOutcome::Data(b"\r\n> ".to_vec())), DrainStep::Settled);
}

#[test]
fn drain_decodes_bytes_as_utf8() {
    let mut drain = Drain::new();
    assert_eq!(drain.accept(&ReadOutcome::Data("é😀".as_bytes().to_vec())), DrainStep::ReadMore);
    assert_eq!(drain.response(), "é😀");
}

#[test]
fn drain_replaces_ill_formed_bytes() {
    let mut drain = Drain::new();
    assert_eq!(drain.accept(&ReadOutcome::Data(vec![0x4f, 0xff, 0x4b])), DrainStep::ReadMore);
    assert_eq!(drain.response(), "O\u{fffd}K");
    assert_eq!(drain.accept(&ReadOutcome::Data(vec![0xc3, 0x4f, 0x4b])), DrainStep::Settled);
    assert_eq!(drain.response(), "O\u{fffd}K\u{fffd}OK");
}

#[test]
fn accept_text_adds_to_the_response() {
    let mut drain = Drain::new();
    assert_eq!(drain.accept_text("+CMGS: "), DrainStep::ReadMore);
    assert_eq!(drain.accept_text("12"), DrainStep::ReadMore);
    assert_eq!(drain.accept_text(""), DrainStep::ReadMore);
    assert_eq!(drain.accept_text("\r\nOK"), DrainStep::Settled);
    assert_eq!(drain.response(), "+CMGS: 12\r\nOK");
    assert_eq!(drain.accept_text("more"), DrainStep::Settled);
}
