use fileshare::consent::{request_channel_id, DecisionCell, RequestCounter};
use fileshare::protocol::{
    classify_message, decision_of_reply, reply_code, Decision, MessageKind, ALLOW_REPLY,
    DENY_REPLY, FILE_TAG, TEXT_TAG,
};
use fileshare::sender::{
    file_name_of_path, prepare_file_handshake, payload_to_send, send_succeeds, transfer_outcome,
    SendOutcome, Sender,
};

#[test]
fn tags_classify_connections() {
    assert!(matches!(classify_message(FILE_TAG), MessageKind::File));
    assert!(matches!(classify_message(TEXT_TAG), MessageKind::ClipboardText));
    assert!(matches!(classify_message(0), MessageKind::Unknown));
    assert!(matches!(classify_message(-7), MessageKind::Unknown));
    assert!(matches!(classify_message(3), MessageKind::Unknown));
}

#[test]
fn replies_carry_decisions() {
    assert_eq!(reply_code(Decision::Allow), ALLOW_REPLY);
    assert_eq!(reply_code(Decision::Deny), DENY_REPLY);
    assert_eq!(decision_of_reply(ALLOW_REPLY), Some(Decision::Allow));
    assert_eq!(decision_of_reply(DENY_REPLY), Some(Decision::Deny));
    assert_eq!(decision_of_reply(5), None);
}

#[test]
fn channel_ids_follow_indices() {
    assert_eq!(request_channel_id(0), b"auth0".to_vec());
    assert_eq!(request_channel_id(17), b"auth17".to_vec());
}

#[test]
fn channel_ids_are_distinct() {
    let a = request_channel_id(1);
    let b = request_channel_id(2);
    let c = request_channel_id(12);
    assert_ne!(a, b);
    assert_ne!(b, c);
    assert_ne!(a, c);
}

#[test]
fn request_counter_is_monotonic() {
    let mut c = RequestCounter::new();
    assert_eq!(c.fresh_index(), 0);
    assert_eq!(c.fresh_index(), 1);
    assert_eq!(c.fresh_index(), 2);
}

#[test]
fn decision_cell_reacts_once() {
    let mut cell = DecisionCell::new();
    assert_eq!(cell.decided_choice(), None);
    cell.react(1);
    assert_eq!(cell.decided_choice(), Some(1));
    cell.react(0);
    assert_eq!(cell.decided_choice(), Some(1));
}

#[test]
fn paths_lose_their_directories() {
    assert_eq!(file_name_of_path(&b"/home/user/a.txt".to_vec()), b"a.txt".to_vec());
    assert_eq!(file_name_of_path(&b"a.txt".to_vec()), b"a.txt".to_vec());
    assert_eq!(file_name_of_path(&b"/ends/with/slash/".to_vec()), b"".to_vec());
}

#[test]
fn handshake_frames_both_names() {
    let h = prepare_file_handshake(&b"a.txt".to_vec(), &b"myhost".to_vec()).unwrap();
    assert_eq!(h.tag, FILE_TAG);
    assert_eq!(h.name_field.len(), 255);
    assert_eq!(&h.name_field[..5], b"a.txt");
    assert_eq!(h.sender_field.len(), 255);
    assert_eq!(&h.sender_field[..6], b"myhost");
}

#[test]
fn handshake_rejects_oversize_names() {
    let long = vec![b'n'; 256];
    assert!(prepare_file_handshake(&long, &b"host".to_vec()).is_err());
    assert!(prepare_file_handshake(&b"a.txt".to_vec(), &long).is_err());
}

#[test]
fn denied_transfer_sends_nothing_and_is_no_error() {
    let file = b"payload".to_vec();
    assert!(payload_to_send(DENY_REPLY, &file).is_empty());
    assert!(matches!(transfer_outcome(DENY_REPLY, &file), SendOutcome::Rejected));
}

#[test]
fn allowed_transfer_sends_whole_file() {
    let file = b"payload".to_vec();
    assert_eq!(payload_to_send(ALLOW_REPLY, &file), file);
    match transfer_outcome(ALLOW_REPLY, &file) {
        SendOutcome::Completed { bytes_sent } => assert_eq!(bytes_sent, 7),
        SendOutcome::Rejected => panic!("allowed transfer reported as rejected"),
    }
}

#[test]
fn queue_is_drained_back_to_front() {
    let mut s = Sender::new();
    s.add_file(b"/tmp/a.txt".to_vec());
    s.add_file(b"/tmp/b.bin".to_vec());
    s.add_file(b"/tmp/c.dat".to_vec());
    let q = s.take_transfer_queue();
    assert_eq!(q.len(), 3);
    assert_eq!(q[0], b"/tmp/c.dat".to_vec());
    assert_eq!(q[1], b"/tmp/b.bin".to_vec());
    assert_eq!(q[2], b"/tmp/a.txt".to_vec());
    assert_eq!(s.take_transfer_queue().len(), 0);
}

#[test]
fn one_failed_unit_fails_the_send() {
    assert!(send_succeeds(&vec![]));
    assert!(send_succeeds(&vec![true, true, true]));
    assert!(!send_succeeds(&vec![true, false, true]));
}

#[test]
fn sender_address_is_recorded() {
    let mut s = Sender::new();
    s.set_receiver_addr(b"192.168.0.9".to_vec(), b"9000".to_vec());
    assert_eq!(s.receiver_ip, b"192.168.0.9".to_vec());
    assert_eq!(s.receiver_port, b"9000".to_vec());
    s.record_stream_addr(b"192.168.0.9:9000".to_vec());
    assert_eq!(s.my_streams_addr.len(), 1);
}
