use pi_os::interceptor::{filled_part, is_parseable, holds_rtcp, InterceptorError, TwccInterceptor};

/// A receiver report without report blocks, then two stray bytes.
const RECEIVER_REPORT: [u8; 10] = [0x80, 0xc9, 0x00, 0x01, 0x90, 0x2f, 0x9e, 0x2e, 0xff, 0xff];

#[test]
fn rtcp_reader_returns_what_the_wrapped_reader_returned() {
    let interceptor = TwccInterceptor::builder().build("twcc").unwrap();
    let reader = interceptor.bind_rtcp_reader(7u32);
    assert_eq!(*reader.parent(), 7);
    // well-formed, malformed and over-long reads alike come back unchanged
    for n in [8usize, 10, 3, 0, 28] {
        let ok: Result<(usize, Vec<(usize, usize)>), InterceptorError> = Ok((n, vec![(1, 2)]));
        assert_eq!(reader.relay(ok), Ok((n, vec![(1, 2)])));
    }
    let err: Result<(usize, Vec<(usize, usize)>), InterceptorError> = Err(InterceptorError::Io);
    assert_eq!(reader.relay(err), Err(InterceptorError::Io));
}

#[test]
fn rtp_reader_returns_what_the_wrapped_reader_returned() {
    let interceptor = TwccInterceptor::builder().build("twcc").unwrap();
    let reader = interceptor.bind_remote_stream(&"stream", pi_os::interceptor::TwccInterceptorRtpReader::new(3u8));
    assert_eq!(reader.parent_reader, 3);
    let r: Result<(usize, u8), InterceptorError> = Ok((0, 9));
    assert_eq!(reader.relay(r), Ok((0, 9)));
    let r: Result<(usize, u8), InterceptorError> = Err(InterceptorError::Malformed);
    assert_eq!(reader.relay(r), Err(InterceptorError::Malformed));
}

#[test]
fn other_hooks_pass_through() {
    let i = TwccInterceptor::builder().build("").unwrap();
    assert_eq!(i.bind_rtcp_writer("writer"), "writer");
    assert_eq!(i.bind_local_stream(&1u32, 5u64), 5);
    i.unbind_local_stream(&1u32);
    i.unbind_remote_stream(&1u32);
    assert_eq!(i.close(), Ok(()));
}

#[test]
fn filled_part_takes_the_read_bytes() {
    let buf = [1u8, 2, 3, 4];
    assert_eq!(filled_part(&buf, 2), Some(&buf[..2]));
    assert_eq!(filled_part(&buf, 4), Some(&buf[..]));
    assert_eq!(filled_part(&buf, 0), Some(&buf[..0]));
    assert_eq!(filled_part(&buf, 5), None);
}

#[test]
fn control_packets_are_recognised() {
    assert!(holds_rtcp(&RECEIVER_REPORT, 8));
    assert!(!holds_rtcp(&RECEIVER_REPORT, 10));
    assert!(!holds_rtcp(&RECEIVER_REPORT, 0));
    assert!(!holds_rtcp(&RECEIVER_REPORT, 11));
    assert!(!holds_rtcp(&[0x12, 0x34, 0x56], 3));
}

/// A transport-wide feedback packet announcing 0xffff statuses: eight
/// run-length chunks of 8191 statuses, then a status vector chunk of 14.
fn overlong_feedback() -> Vec<u8> {
    let mut b = vec![0x8f, 0xcd, 0x00, 0x09, 0, 0, 0, 1, 0, 0, 0, 2, 0x00, 0x00, 0xff, 0xff, 0, 0, 0, 0];
    for _ in 0..8 {
        b.extend_from_slice(&[0x1f, 0xff]);
    }
    b.extend_from_slice(&[0x80, 0x00, 0x00, 0x00]);
    b
}

#[test]
fn overlong_feedback_is_not_parsed_and_passes_through() {
    let b = overlong_feedback();
    assert_eq!(b.len(), 40);
    assert!(!is_parseable(&b));
    assert!(!holds_rtcp(&b, 40));
    // behind a well-formed report the header is found too
    let mut both = RECEIVER_REPORT[..8].to_vec();
    both.extend_from_slice(&b);
    assert!(!is_parseable(&both));
    assert!(!holds_rtcp(&both, both.len()));

    let reader = TwccInterceptor::builder().build("twcc").unwrap().bind_rtcp_reader(());
    let ok: Result<(usize, u8), InterceptorError> = Ok((40, 1));
    assert_eq!(reader.relay(ok), Ok((40, 1)));
}

#[test]
fn feedback_with_countable_statuses_is_parsed() {
    let mut b = overlong_feedback();
    b[14] = 0xff;
    b[15] = 0xf1; // 65521 statuses
    assert!(is_parseable(&b));
    assert!(is_parseable(&RECEIVER_REPORT));
    assert!(is_parseable(&[]));
}

#[test]
fn frames_that_would_stop_the_parser_are_not_parsed() {
    // generic NACK whose length leaves no room for the media source
    let nack = [0x81u8, 0xcd, 0x00, 0x01, 0, 0, 0, 1];
    assert!(!is_parseable(&nack));
    assert!(!holds_rtcp(&nack, 8));
    // full intra request with half an entry
    let fir = [0x84u8, 0xce, 0x00, 0x03, 0, 0, 0, 1, 0, 0, 0, 2, 0, 0, 0, 3];
    assert!(!is_parseable(&fir));
    assert!(!holds_rtcp(&fir, 16));
    // a whole entry is fine to hand over
    let fir = [0x84u8, 0xce, 0x00, 0x04, 0, 0, 0, 1, 0, 0, 0, 2, 0, 0, 0, 3, 7, 0, 0, 0];
    assert!(is_parseable(&fir));
    assert!(holds_rtcp(&fir, 20));
    // a long transport-wide feedback with an empty status count
    let mut twcc = vec![0u8; 65540];
    twcc[..4].copy_from_slice(&[0x8f, 0xcd, 0x3f, 0xff]);
    assert!(!is_parseable(&twcc));
    assert!(!holds_rtcp(&twcc, twcc.len()));
    // the frame after a well-formed one is walked to as well
    let mut two = RECEIVER_REPORT[..8].to_vec();
    two.extend_from_slice(&nack);
    assert!(!is_parseable(&two));
    assert!(holds_rtcp(&two, 8));
}
