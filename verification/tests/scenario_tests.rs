use fileshare::codec::encode_field;
use fileshare::protocol::{reply_code, Decision, ALLOW_REPLY, FILE_TAG, TEXT_TAG};
use fileshare::receiver::{
    connection_step, file_receive_outcome, parse_file_request, ConnAction, ConnEvent, ConnPhase,
    ReceiveOutcome, Receiver,
};
use fileshare::sender::{payload_to_send, prepare_file_handshake, transfer_outcome, SendOutcome, Sender};

#[test]
fn receiver_defaults_to_all_interfaces() {
    let mut r = Receiver::new();
    assert_eq!(r.my_ip, b"0.0.0.0".to_vec());
    assert_eq!(r.my_port, b"8080".to_vec());
    r.set_port(b"9000".to_vec());
    assert_eq!(r.my_port, b"9000".to_vec());
}

#[test]
fn metadata_fields_parse_into_a_request() {
    let name_field = encode_field(&b"a.txt".to_vec()).unwrap();
    let sender_field = encode_field(&b"myhost".to_vec()).unwrap();
    let req = parse_file_request(&name_field, &sender_field, &b"10.0.0.2:41000".to_vec()).unwrap();
    assert_eq!(req.file_name, b"a.txt".to_vec());
    assert_eq!(req.sender_name, b"myhost".to_vec());
    assert_eq!(req.peer_address, b"10.0.0.2:41000".to_vec());
}

#[test]
fn malformed_metadata_is_rejected() {
    let short = vec![b'a'; 10];
    let good = encode_field(&b"ok".to_vec()).unwrap();
    assert!(parse_file_request(&short, &good, &b"p".to_vec()).is_err());
    assert!(parse_file_request(&good, &short, &b"p".to_vec()).is_err());
}

#[test]
fn file_tag_leads_to_metadata_read() {
    let s = ConnPhase::Accepted { peer: b"10.0.0.2:41000".to_vec() };
    let (n, a) = connection_step(s, ConnEvent::TagRead { tag: FILE_TAG });
    assert!(matches!(n, ConnPhase::AwaitingFileMeta { .. }));
    assert!(matches!(a, ConnAction::ReadMetadata));
}

#[test]
fn text_tag_raises_synthetic_request() {
    let s = ConnPhase::Accepted { peer: b"10.0.0.2:41000".to_vec() };
    let (n, a) = connection_step(s, ConnEvent::TagRead { tag: TEXT_TAG });
    match n {
        ConnPhase::AwaitingConsent { request } => {
            assert_eq!(request.file_name, b"clip txt".to_vec());
            assert_eq!(request.sender_name, b"10.0.0.2:41000".to_vec());
        }
        _ => panic!("text tag did not await consent"),
    }
    assert!(matches!(a, ConnAction::RequestConsent));
}

#[test]
fn unknown_tag_is_rejected_and_closed() {
    let s = ConnPhase::Accepted { peer: b"10.0.0.2:41000".to_vec() };
    let (n, a) = connection_step(s, ConnEvent::TagRead { tag: 9 });
    assert!(matches!(n, ConnPhase::Closed));
    assert!(matches!(a, ConnAction::Drop));
}

#[test]
fn connection_failure_closes_only_that_connection() {
    let s = ConnPhase::AwaitingFileMeta { peer: b"p".to_vec() };
    let (n, a) = connection_step(s, ConnEvent::ConnFailed);
    assert!(matches!(n, ConnPhase::Closed));
    assert!(matches!(a, ConnAction::Drop));
}

fn consent_state(file_name: &[u8]) -> ConnPhase {
    let name_field = encode_field(&file_name.to_vec()).unwrap();
    let sender_field = encode_field(&b"peerhost".to_vec()).unwrap();
    let s = ConnPhase::AwaitingFileMeta { peer: b"10.0.0.2:41000".to_vec() };
    let (n, _) = connection_step(s, ConnEvent::MetaRead { name_field, sender_field });
    n
}

#[test]
fn allowed_file_starts_receiving() {
    let s = consent_state(b"a.txt");
    let (n, a) = connection_step(s, ConnEvent::Decided { decision: Decision::Allow });
    match n {
        ConnPhase::ReceivingFile { file_name, sender_name } => {
            assert_eq!(file_name, b"a.txt".to_vec());
            assert_eq!(sender_name, b"peerhost".to_vec());
        }
        _ => panic!("allowed file transfer did not start receiving"),
    }
    assert!(matches!(a, ConnAction::ReplyAllowFile));
}

#[test]
fn denied_transfer_writes_nothing() {
    // The receiver side refuses "secret.zip"; the sender side ends the
    // unit without error and the downloads directory gains nothing.
    let s = consent_state(b"secret.zip");
    let (n, a) = connection_step(s, ConnEvent::Decided { decision: Decision::Deny });
    assert!(matches!(n, ConnPhase::Closed));
    assert!(matches!(a, ConnAction::ReplyDeny));

    let existing = vec![b"other.txt".to_vec()];
    let outcome = file_receive_outcome(
        Decision::Deny,
        &existing,
        &b"secret.zip".to_vec(),
        &b"contents".to_vec(),
    );
    assert!(matches!(outcome, ReceiveOutcome::Refused));

    let reply = reply_code(Decision::Deny);
    assert!(payload_to_send(reply, &b"contents".to_vec()).is_empty());
    assert!(matches!(
        transfer_outcome(reply, &b"contents".to_vec()),
        SendOutcome::Rejected
    ));
}

#[test]
fn stream_end_reports_byte_count() {
    let s = ConnPhase::ReceivingFile {
        file_name: b"a.txt".to_vec(),
        sender_name: b"peerhost".to_vec(),
    };
    let (n, a) = connection_step(s, ConnEvent::StreamEnded { bytes: 42 });
    match n {
        ConnPhase::Done { bytes } => assert_eq!(bytes, 42),
        _ => panic!("stream end did not finish the connection"),
    }
    assert!(matches!(a, ConnAction::FinishConnection));
}

#[test]
fn allowed_receive_writes_stream_to_fresh_name() {
    let existing = vec![b"b.bin".to_vec()];
    let stream = b"file contents here".to_vec();
    match file_receive_outcome(Decision::Allow, &existing, &b"a.txt".to_vec(), &stream) {
        ReceiveOutcome::Written { name, contents, count } => {
            assert_eq!(name, b"a.txt".to_vec());
            assert_eq!(contents, stream);
            assert_eq!(count, stream.len() as u64);
        }
        ReceiveOutcome::Refused => panic!("allowed receive was refused"),
    }
}

#[test]
fn existing_file_is_not_overwritten() {
    // The downloads directory already holds "a.txt"; the incoming file of
    // the same name lands beside it under a fresh name.
    let existing = vec![b"a.txt".to_vec()];
    let stream = b"new contents".to_vec();
    match file_receive_outcome(Decision::Allow, &existing, &b"a.txt".to_vec(), &stream) {
        ReceiveOutcome::Written { name, contents, .. } => {
            assert_eq!(name, b"a (1).txt".to_vec());
            assert!(!existing.contains(&name));
            assert_eq!(contents, stream);
        }
        ReceiveOutcome::Refused => panic!("allowed receive was refused"),
    }
}

#[test]
fn two_files_end_to_end_with_consent() {
    // Sender enqueues a.txt and b.bin; the receiver grants consent for
    // both; afterwards both files exist with their original contents and
    // two completion events carry matching byte counts.
    let mut sender = Sender::new();
    sender.set_receiver_addr(b"127.0.0.1".to_vec(), b"9000".to_vec());
    sender.add_file(b"/tmp/a.txt".to_vec());
    sender.add_file(b"/tmp/b.bin".to_vec());

    let sources: &[(&[u8], &[u8])] =
        &[(b"/tmp/a.txt", b"alpha contents"), (b"/tmp/b.bin", b"\x00\x01\x02binary")];

    let queue = sender.take_transfer_queue();
    assert_eq!(queue.len(), 2);

    let mut downloads: Vec<Vec<u8>> = Vec::new();
    let mut completions: Vec<(Vec<u8>, u64)> = Vec::new();

    for path in &queue {
        let file_bytes: Vec<u8> = sources
            .iter()
            .find(|(p, _)| p == &path.as_slice())
            .map(|(_, c)| c.to_vec())
            .unwrap();
        let file_name = fileshare::sender::file_name_of_path(path);
        let handshake = prepare_file_handshake(&file_name, &sender.name).unwrap();
        assert_eq!(handshake.tag, FILE_TAG);

        // Receiver side: metadata arrives, consent is granted.
        let peer = b"127.0.0.1:9000".to_vec();
        let s = ConnPhase::Accepted { peer };
        let (s, _) = connection_step(s, ConnEvent::TagRead { tag: handshake.tag });
        let (s, _) = connection_step(
            s,
            ConnEvent::MetaRead {
                name_field: handshake.name_field.clone(),
                sender_field: handshake.sender_field.clone(),
            },
        );
        let (_, action) = connection_step(s, ConnEvent::Decided { decision: Decision::Allow });
        assert!(matches!(action, ConnAction::ReplyAllowFile));

        let reply = reply_code(Decision::Allow);
        assert_eq!(reply, ALLOW_REPLY);
        let stream = payload_to_send(reply, &file_bytes);
        match file_receive_outcome(Decision::Allow, &downloads, &file_name, &stream) {
            ReceiveOutcome::Written { name, contents, count } => {
                assert_eq!(contents, file_bytes);
                assert_eq!(count, file_bytes.len() as u64);
                downloads.push(name.clone());
                completions.push((name, count));
            }
            ReceiveOutcome::Refused => panic!("granted transfer was refused"),
        }
    }

    assert_eq!(downloads.len(), 2);
    assert_eq!(completions.len(), 2);
    assert!(downloads.contains(&b"a.txt".to_vec()));
    assert!(downloads.contains(&b"b.bin".to_vec()));
    assert_eq!(completions[0].1, b"\x00\x01\x02binary".len() as u64);
    assert_eq!(completions[1].1, b"alpha contents".len() as u64);
}
