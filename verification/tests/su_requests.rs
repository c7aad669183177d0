use ksud::ksucalls::OsError;
use ksud::su::{
    handle_su_requests, package_index, parse_event_header, parse_su_request, request_to_json,
    split_records, su_request_reader, EventHeader, SuFdEnd, SuFdEvent, SuFdStep, WebState,
};
use std::collections::HashMap;

const PACKAGES: &str = "com.a 10001 0 /data/a\n\ncom.b 10002\nbad\nworse x\n \tcom.c\t10001 z\r\ncom.d 4294967296\ncom.e +10003\n";

fn payload(id: u64, uid: u32) -> Vec<u8> {
    let mut p = vec![0u8; 444];
    p[8..16].copy_from_slice(&id.to_le_bytes());
    p[16..24].copy_from_slice(&77u64.to_le_bytes());
    for (i, n) in [uid, 2, 3, 4, 5].iter().enumerate() {
        p[24 + 4 * i..28 + 4 * i].copy_from_slice(&n.to_le_bytes());
    }
    p[44..46].copy_from_slice(b"sh");
    p[60..67].copy_from_slice(b"/bin/sh");
    p[188..193].copy_from_slice(b"sh -c");
    p
}

fn record(record_type: u16, payload: &[u8]) -> Vec<u8> {
    let mut r = vec![0x55u8; 24];
    r[0..2].copy_from_slice(&record_type.to_le_bytes());
    r[4..8].copy_from_slice(&(payload.len() as u32).to_le_bytes());
    r.extend_from_slice(payload);
    r
}

#[test]
fn packages_are_listed_by_user() {
    let index = package_index(Some(PACKAGES));
    assert_eq!(index.len(), 3);
    assert_eq!(index[&10001], ["com.a", "com.c"]);
    assert_eq!(index[&10002], ["com.b"]);
    assert_eq!(index[&10003], ["com.e"]);
    assert!(package_index(None).is_empty());
    assert!(package_index(Some("")).is_empty());
}

#[test]
fn a_record_header_is_read() {
    let bytes = record(7, &[0; 300]);
    assert_eq!(
        parse_event_header(&bytes[..24]),
        Some(EventHeader { record_type: 7, payload_len: 300 })
    );
    assert_eq!(parse_event_header(&bytes[..7]), None);
}

#[test]
fn a_request_for_root_is_read() {
    let index = package_index(Some(PACKAGES));
    let p = payload(9, 10001);
    let request = parse_su_request(&p, &index).unwrap();
    assert_eq!(request.request_id, 9);
    assert_eq!(request.deadline_ms, 77);
    assert_eq!(
        (request.uid, request.euid, request.pid, request.tgid, request.ppid),
        (10001, 2, 3, 4, 5)
    );
    assert_eq!(request.comm, "sh");
    assert_eq!(request.path, "/bin/sh");
    assert_eq!(request.argv, "sh -c");
    assert_eq!(request.packages, ["com.a", "com.c"]);
    assert!(parse_su_request(&p[..443], &index).is_none());
    assert!(parse_su_request(&payload(9, 1), &index).unwrap().packages.is_empty());
    let copy = request.clone();
    assert_eq!(copy.packages, request.packages);
    assert_eq!(copy.argv, request.argv);
}

#[test]
fn texts_of_a_request_fill_their_places() {
    let mut p = payload(1, 1);
    p[44..60].fill(b'c');
    p[60..188].fill(b'p');
    p[188..444].fill(b'a');
    let request = parse_su_request(&p, &HashMap::new()).unwrap();
    assert_eq!(request.comm, "c".repeat(16));
    assert_eq!(request.path, "p".repeat(128));
    assert_eq!(request.argv, "a".repeat(256));
}

#[test]
fn a_request_is_written_as_json() {
    let index = package_index(Some(PACKAGES));
    let request = parse_su_request(&payload(u64::MAX, 10001), &index).unwrap();
    let json = request_to_json(&request);
    assert_eq!(
        json.to_string(),
        "{\"argv\":\"sh -c\",\"comm\":\"sh\",\"deadline_ms\":77,\"euid\":2,\"packages\":[\"com.a\",\
         \"com.c\"],\"path\":\"/bin/sh\",\"pid\":3,\"ppid\":5,\"request_id\":18446744073709551615,\
         \"tgid\":4,\"uid\":10001}"
    );
}

#[test]
fn records_are_split() {
    let mut buf = record(1, b"first");
    buf.extend(record(0xffff, b"lost"));
    buf.extend(record(2, b""));
    buf.extend(record(3, b"third"));
    let whole = buf.clone();
    let expected: [&[u8]; 3] = [b"first", b"", b"third"];
    assert_eq!(split_records(&whole), expected);
    buf.extend(&record(4, b"cut off")[..30]);
    assert_eq!(split_records(&buf), expected);
    assert_eq!(split_records(&whole[..whole.len() - 1]), expected[..2]);
    assert!(split_records(&whole[..23]).is_empty());
    assert!(split_records(&[]).is_empty());
}

#[test]
fn a_record_may_claim_more_than_there_is() {
    let mut buf = record(1, b"x");
    buf[4..8].copy_from_slice(&u32::MAX.to_le_bytes());
    assert!(split_records(&buf).is_empty());
}

#[test]
fn the_reader_goes_on_or_stops() {
    assert!(matches!(su_request_reader(SuFdEvent::Opened(Ok(5))), SuFdStep::Read));
    assert!(matches!(
        su_request_reader(SuFdEvent::Opened(Err(OsError { code: 1 }))),
        SuFdStep::Stop(SuFdEnd::NotOpened)
    ));
    assert!(matches!(
        su_request_reader(SuFdEvent::ReadFailed { interrupted: true }),
        SuFdStep::Read
    ));
    assert!(matches!(
        su_request_reader(SuFdEvent::ReadFailed { interrupted: false }),
        SuFdStep::Stop(SuFdEnd::ReadFailed)
    ));
    assert!(matches!(su_request_reader(SuFdEvent::Read(&[])), SuFdStep::Stop(SuFdEnd::Closed)));
    let buf = record(1, b"x");
    match su_request_reader(SuFdEvent::Read(&buf)) {
        SuFdStep::Record(found) => assert_eq!(found, [b"x"]),
        _ => panic!("nothing to record"),
    }
}

#[test]
fn the_last_request_of_a_read_waits() {
    let mut buf = record(1, &payload(1, 11));
    buf.extend(record(1, &payload(2, 12)));
    buf.extend(record(0xffff, &payload(2, 99)));
    buf.extend(record(1, &payload(1, 13)));
    buf.extend(record(1, b"short"));
    let mut state = WebState::new();
    state.record(&payload(3, 10), &HashMap::new());
    for payload in split_records(&buf) {
        state.record(payload, &HashMap::new());
    }
    let uid = |id| state.get(id).map(|r| r.uid);
    assert_eq!((uid(1), uid(2), uid(3), uid(4)), (Some(13), Some(12), Some(10), None));
}

#[test]
fn requests_wait_under_their_ids() {
    let index = package_index(Some(PACKAGES));
    let mut state = WebState::new();
    assert_eq!(handle_su_requests(&state).to_string(), "{\"requests\":[]}");
    state.record(&payload(1, 10001), &index);
    state.record(&payload(2, 10002), &index);
    state.record(&[0; 443], &index);
    state.record(&payload(1, 10003), &index);
    assert_eq!(state.get(1).map(|r| r.uid), Some(10003));
    assert_eq!(state.get(2).map(|r| r.packages), Some(vec!["com.b".to_string()]));
    assert!(state.get(3).is_none());
    let listed = handle_su_requests(&state);
    let mut ids: Vec<u64> = listed["requests"]
        .as_array()
        .unwrap()
        .iter()
        .map(|r| r["request_id"].as_u64().unwrap())
        .collect();
    ids.sort();
    assert_eq!(ids, [1, 2]);
    state.remove(1);
    state.remove(7);
    assert!(state.get(1).is_none());
    assert!(state.get(2).is_some());
    assert!(WebState::default().get(2).is_none());
}
