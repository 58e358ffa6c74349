use lan_relay::envelope::{
    Envelope, GET_BASE_PATH_LIST_REQUEST, REQUEST_TRANSFER_FILE, TRANSFER_DATA,
};
use lan_relay::session::{
    heartbeat_timed_out, Delivery, Disconnect, Routed, SessionMessage, SessionServer,
    CLIENT_TIMEOUT_MILLIS,
};

fn texts_for(deliveries: &[Delivery]) -> Vec<(usize, String)> {
    deliveries
        .iter()
        .map(|d| {
            assert!(d.frame.binary.is_none());
            (d.session_id, d.frame.text.clone().expect("a text frame"))
        })
        .collect()
}

fn broker_with(ids: &[usize]) -> SessionServer {
    let mut broker = SessionServer::new();
    for id in ids {
        assert!(broker.register(*id).is_some());
    }
    broker
}

fn deliveries_of(routed: Routed) -> Vec<Delivery> {
    match routed {
        Routed::Deliveries(d) => d,
        Routed::ToKernel(e) => panic!("sent to the kernel: {:?}", e),
    }
}

#[test]
fn new_broker_is_empty() {
    let broker = SessionServer::new();
    assert_eq!(broker.visitor_count(), 0);
    assert!(broker.session_ids().is_empty());
    assert!(broker.send_message("anyone?").is_empty());
}

#[test]
fn register_announces_join_and_new_total() {
    let mut broker = SessionServer::new();
    let first = broker.register(7).expect("7 is free");
    assert_eq!(texts_for(&first), vec![(7, "Total visitors 1".to_string())]);
    let second = broker.register(9).expect("9 is free");
    assert_eq!(
        texts_for(&second),
        vec![
            (7, "Someone joined".to_string()),
            (7, "Total visitors 2".to_string()),
            (9, "Total visitors 2".to_string()),
        ]
    );
    assert_eq!(broker.visitor_count(), 2);
    assert_eq!(broker.session_ids(), vec![7, 9]);
}

#[test]
fn register_refuses_an_identifier_in_use() {
    let mut broker = broker_with(&[7, 9]);
    assert!(broker.register(7).is_none());
    assert_eq!(broker.visitor_count(), 2);
    assert_eq!(broker.session_ids(), vec![7, 9]);
}

#[test]
fn register_refuses_the_identifier_of_a_closed_session() {
    let mut broker = broker_with(&[7, 9]);
    broker.disconnect(Disconnect { id: 7 });
    assert!(broker.is_closed(7));
    assert!(!broker.is_closed(9));
    assert!(broker.register(7).is_none());
    assert_eq!(broker.visitor_count(), 1);
    assert_eq!(broker.session_ids(), vec![9]);
    assert!(broker.register(8).is_some());
}

#[test]
fn connect_draws_distinct_identifiers() {
    let mut broker = SessionServer::new();
    let mut seen: Vec<usize> = Vec::new();
    for round in 1..=20usize {
        let (id, notices) = broker.connect().expect("a free identifier");
        assert!(!seen.contains(&id));
        assert!(broker.is_open(id));
        seen.push(id);
        assert_eq!(broker.visitor_count(), round);
        assert_eq!(notices.len(), 2 * round - 1);
        let last = notices.last().expect("a notice for the newcomer");
        assert_eq!(last.session_id, id);
        assert_eq!(last.frame.text, Some(format!("Total visitors {}", round)));
    }
    assert_eq!(broker.session_ids(), seen);
}

#[test]
fn counter_follows_connects_and_disconnects() {
    let mut broker = SessionServer::new();
    let steps: Vec<(bool, usize)> = vec![
        (true, 1),
        (true, 2),
        (false, 5),
        (true, 2),
        (false, 1),
        (true, 3),
        (false, 1),
        (false, 3),
        (false, 2),
        (false, 2),
    ];
    let mut open: Vec<usize> = Vec::new();
    for (connect, id) in steps {
        if connect {
            let fresh = !open.contains(&id);
            assert_eq!(broker.register(id).is_some(), fresh);
            if fresh {
                open.push(id);
            }
        } else {
            broker.disconnect(Disconnect { id });
            open.retain(|x| *x != id);
        }
        assert_eq!(broker.visitor_count(), open.len());
        assert_eq!(broker.session_ids(), open);
    }
    assert_eq!(broker.visitor_count(), 0);
}

#[test]
fn disconnect_announces_the_count_after_removal() {
    let mut broker = broker_with(&[4, 5, 6]);
    let notices = broker.disconnect(Disconnect { id: 5 });
    assert_eq!(
        texts_for(&notices),
        vec![
            (4, "Disconnect $ remove 5 2left".to_string()),
            (6, "Disconnect $ remove 5 2left".to_string()),
        ]
    );
    assert_eq!(broker.visitor_count(), 2);
    assert!(!broker.is_open(5));
}

#[test]
fn disconnect_of_last_session_leaves_zero() {
    let mut broker = broker_with(&[12]);
    let notices = broker.disconnect(Disconnect { id: 12 });
    assert!(notices.is_empty());
    assert_eq!(broker.visitor_count(), 0);
}

#[test]
fn disconnect_of_unknown_session_changes_nothing() {
    let mut broker = broker_with(&[4, 5]);
    let notices = broker.disconnect(Disconnect { id: 99 });
    assert!(notices.is_empty());
    assert_eq!(broker.visitor_count(), 2);
    assert_eq!(broker.session_ids(), vec![4, 5]);
}

#[test]
fn broadcast_reaches_exactly_the_registered_sessions() {
    let broker = broker_with(&[30, 10, 20]);
    let sent = broker.send_message("hello");
    assert_eq!(
        texts_for(&sent),
        vec![
            (30, "hello".to_string()),
            (10, "hello".to_string()),
            (20, "hello".to_string()),
        ]
    );
}

#[test]
fn binary_goes_to_one_session_or_nowhere() {
    let broker = broker_with(&[1, 2, 3]);
    let sent = broker.send_binary(vec![9, 8, 7], 2);
    assert_eq!(sent.len(), 1);
    assert_eq!(sent[0].session_id, 2);
    assert_eq!(sent[0].frame.binary, Some(vec![9, 8, 7]));
    assert!(sent[0].frame.text.is_none());
    assert!(broker.send_binary(vec![9, 8, 7], 4).is_empty());
}

#[test]
fn text_for_one_recipient() {
    let broker = broker_with(&[1, 2, 3]);
    let sent = broker.send_message_to_specific_recipient(3, "psst");
    assert_eq!(texts_for(&sent), vec![(3, "psst".to_string())]);
    assert!(broker.send_message_to_specific_recipient(8, "psst").is_empty());
}

#[test]
fn malformed_message_is_broadcast_with_its_mark() {
    let broker = broker_with(&[1, 2]);
    let routed = broker.handle_message(SessionMessage {
        session_id: 1,
        json_msg: "not json".to_string(),
    });
    assert_eq!(
        texts_for(&deliveries_of(routed)),
        vec![(1, "not json2!!!".to_string()), (2, "not json2!!!".to_string())]
    );
}

#[test]
fn envelope_with_a_missing_field_counts_as_malformed() {
    let broker = broker_with(&[1]);
    let raw = r#"{"uuid":"a","code":3,"content":"x"}"#;
    let routed = broker.handle_message(SessionMessage {
        session_id: 1,
        json_msg: raw.to_string(),
    });
    assert_eq!(
        texts_for(&deliveries_of(routed)),
        vec![(1, format!("{}2!!!", raw))]
    );
}

#[test]
fn list_root_request_goes_to_the_kernel() {
    let broker = broker_with(&[1, 2]);
    let raw = format!(
        r#"{{"uuid":"tok","code":{},"content":"","content_type":0}}"#,
        GET_BASE_PATH_LIST_REQUEST
    );
    match broker.handle_message(SessionMessage { session_id: 2, json_msg: raw }) {
        Routed::ToKernel(e) => {
            assert_eq!(e.uuid, "tok");
            assert_eq!(e.code, GET_BASE_PATH_LIST_REQUEST);
            assert_eq!(e.content, "");
            assert_eq!(e.content_type, 0);
        }
        Routed::Deliveries(d) => panic!("delivered to sessions: {:?}", d),
    }
}

#[test]
fn transfer_data_is_broadcast_as_it_came() {
    let broker = broker_with(&[1, 2]);
    let raw = format!(
        r#"{{"uuid":"tok","code":{},"content":"hi all","content_type":0}}"#,
        TRANSFER_DATA
    );
    let routed = broker.handle_message(SessionMessage { session_id: 2, json_msg: raw.clone() });
    assert_eq!(
        texts_for(&deliveries_of(routed)),
        vec![(1, raw.clone()), (2, raw)]
    );
}

#[test]
fn unhandled_opcode_is_broadcast_with_its_mark() {
    let broker = broker_with(&[1, 2]);
    let raw = r#"{"uuid":"tok","code":4711,"content":"?","content_type":0}"#.to_string();
    let routed = broker.handle_message(SessionMessage { session_id: 1, json_msg: raw.clone() });
    assert_eq!(
        texts_for(&deliveries_of(routed)),
        vec![(1, format!("{}1!!!", raw)), (2, format!("{}1!!!", raw))]
    );
}

#[test]
fn file_request_answers_the_sender_with_an_opening_frame() {
    let broker = broker_with(&[1, 2]);
    let raw = format!(
        r#"{{"uuid":"tok","code":{},"content":"a.mp4","content_type":0}}"#,
        REQUEST_TRANSFER_FILE
    );
    let sent = deliveries_of(broker.handle_message(SessionMessage { session_id: 2, json_msg: raw }));
    assert_eq!(sent.len(), 1);
    assert_eq!(sent[0].session_id, 2);
    assert!(sent[0].frame.text.is_none());
    let bytes = sent[0].frame.binary.clone().expect("a binary frame");
    assert_eq!(bytes.len(), 8 + 36 + 4 + 5);
    assert_eq!(&bytes[0..8], &[36, 0, 0, 0, 0, 0, 0, 0]);
    let id = std::str::from_utf8(&bytes[8..44]).expect("an identifier in UTF-8");
    assert_eq!(id.matches('-').count(), 4);
    assert_eq!(&bytes[44..48], &[0, 0, 0, 0]);
    assert_eq!(&bytes[48..], b"a.mp4");
}

#[test]
fn file_request_from_an_unknown_session_is_dropped() {
    let broker = broker_with(&[1, 2]);
    let raw = format!(
        r#"{{"uuid":"tok","code":{},"content":"a.mp4","content_type":0}}"#,
        REQUEST_TRANSFER_FILE
    );
    let sent = deliveries_of(broker.handle_message(SessionMessage { session_id: 3, json_msg: raw }));
    assert!(sent.is_empty());
}

#[test]
fn route_uses_the_content_id_it_is_given() {
    let broker = broker_with(&[5]);
    let envelope = Envelope {
        uuid: "tok".to_string(),
        code: REQUEST_TRANSFER_FILE,
        content: "f".to_string(),
        content_type: 0,
    };
    let sent = deliveries_of(broker.route(5, "ignored", Some(envelope), "id".to_string()));
    assert_eq!(sent.len(), 1);
    assert_eq!(
        sent[0].frame.binary,
        Some(vec![2, 0, 0, 0, 0, 0, 0, 0, b'i', b'd', 0, 0, 0, 0, b'f'])
    );
}

#[test]
fn session_times_out_after_the_allowed_silence() {
    assert!(!heartbeat_timed_out(0));
    assert!(!heartbeat_timed_out(CLIENT_TIMEOUT_MILLIS));
    assert!(heartbeat_timed_out(CLIENT_TIMEOUT_MILLIS + 1));
    assert!(heartbeat_timed_out(u64::MAX));
}
