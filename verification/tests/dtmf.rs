use obelisk::dtmf::{read_dtmf_event, DtmfEventError, DtmfFilter, DtmfFilterDecision};

#[test]
fn dtmf_event_payloads() {
    assert_eq!(read_dtmf_event(&[5, 0x8a, 0x01, 0x40]), Ok(5));
    assert_eq!(read_dtmf_event(&[11, 0, 0, 0, 99]), Ok(11));
    assert_eq!(read_dtmf_event(&[]), Err(DtmfEventError::Event));
    assert_eq!(read_dtmf_event(&[1]), Err(DtmfEventError::IsEnd));
    assert_eq!(read_dtmf_event(&[1, 2]), Err(DtmfEventError::Duration));
    assert_eq!(read_dtmf_event(&[1, 2, 3]), Err(DtmfEventError::Duration));
}

#[test]
fn dtmf_filter_reports_each_event_once() {
    let mut f = DtmfFilter { media_pt: 8, dtmf_pt: Some(101), last_dtmf_timestamp: None };
    assert_eq!(f.filter_packet(8, 100, &[1, 2, 3]), DtmfFilterDecision::Forward);
    assert_eq!(f.filter_packet(101, 160, &[7, 0, 0, 160]), DtmfFilterDecision::Digit(7));
    assert_eq!(f.last_dtmf_timestamp, Some(160));
    // the same event repeated, and its end packets
    assert_eq!(f.filter_packet(101, 160, &[7, 0, 0, 160]), DtmfFilterDecision::Drop);
    assert_eq!(f.filter_packet(101, 160, &[7, 0x80, 1, 64]), DtmfFilterDecision::Drop);
    // an older timestamp is dropped too
    assert_eq!(f.filter_packet(101, 100, &[3, 0, 0, 160]), DtmfFilterDecision::Drop);
    assert_eq!(f.filter_packet(101, 480, &[3, 0, 0, 160]), DtmfFilterDecision::Digit(3));
    // broken payloads and unknown payload types are dropped
    assert_eq!(f.filter_packet(101, 800, &[3]), DtmfFilterDecision::Drop);
    assert_eq!(f.filter_packet(96, 900, &[3, 0, 0, 0]), DtmfFilterDecision::Drop);
    assert_eq!(f.last_dtmf_timestamp, Some(480));
}

#[test]
fn dtmf_filter_without_telephone_events() {
    let mut f = DtmfFilter { media_pt: 0, dtmf_pt: None, last_dtmf_timestamp: None };
    assert_eq!(f.filter_packet(101, 1, &[1, 0, 0, 0]), DtmfFilterDecision::Drop);
    assert_eq!(f.filter_packet(0, 1, &[]), DtmfFilterDecision::Forward);
}
