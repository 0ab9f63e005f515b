//! Receiver: listens for connections, classifies each by its leading tag,
//! gates it on a consent decision, and hands allowed file transfers to a
//! concurrent receive unit. The per-connection lifecycle is a state
//! machine; the transport layer drives it with one event at a time and
//! performs the action each step asks for.

use vstd::prelude::*;

use crate::codec::FrameError;
use crate::codec::decode_field;
use crate::codec::field_error;
use crate::codec::field_ok;
use crate::codec::strip_trailing;
use crate::namer::copy_bytes;
use crate::namer::name_views;
use crate::namer::resolve_name;
use crate::namer::resolves_to;
use crate::protocol::clip_label;
use crate::protocol::clip_text_label;
use crate::protocol::classify_message;
use crate::protocol::Decision;
use crate::protocol::FILE_TAG;
use crate::protocol::MessageKind;
use crate::protocol::TEXT_TAG;

verus! {

/// The listening side: bound address and port.
pub struct Receiver {
    /// Interface the listener binds to.
    pub my_ip: Vec<u8>,
    /// Port the listener binds to.
    pub my_port: Vec<u8>,
}

/// The bytes of `0.0.0.0`: the receiver listens on all interfaces.
pub open spec fn all_interfaces() -> Seq<u8> {
    seq![48u8, 46u8, 48u8, 46u8, 48u8, 46u8, 48u8]
}

/// The bytes of `8080`, the port before any is chosen.
pub open spec fn default_port() -> Seq<u8> {
    seq![56u8, 48u8, 56u8, 48u8]
}

impl Receiver {
    /// A receiver bound to all interfaces on the default port.
    pub fn new() -> (r: Receiver)
        ensures
            r.my_ip@ == all_interfaces(),
            r.my_port@ == default_port(),
    {
        let mut ip: Vec<u8> = Vec::new();
        ip.push(48);
        ip.push(46);
        ip.push(48);
        ip.push(46);
        ip.push(48);
        ip.push(46);
        ip.push(48);
        let mut port: Vec<u8> = Vec::new();
        port.push(56);
        port.push(48);
        port.push(56);
        port.push(48);
        proof {
            assert(ip@ =~= all_interfaces());
            assert(port@ =~= default_port());
        }
        Receiver { my_ip: ip, my_port: port }
    }

    /// Chooses the port to listen on.
    pub fn set_port(&mut self, port: Vec<u8>)
        ensures
            final(self).my_port == port,
            final(self).my_ip == old(self).my_ip,
    {
        self.my_port = port;
    }
}

/// An inbound transfer awaiting a consent decision.
pub struct TransferRequest {
    /// What the connection announced.
    pub kind: MessageKind,
    /// The file's name; for clipboard text, the fixed label instead.
    pub file_name: Vec<u8>,
    /// Who is sending; for clipboard text, the peer address instead.
    pub sender_name: Vec<u8>,
    /// The remote end of the connection.
    pub peer_address: Vec<u8>,
}

/// Reads the two framed metadata fields of a file transfer into a request.
/// A field of the wrong width or holding invalid text rejects the
/// connection; the first bad field names the error.
pub fn parse_file_request(name_field: &Vec<u8>, sender_field: &Vec<u8>, peer: &Vec<u8>) -> (r:
    Result<TransferRequest, FrameError>)
    ensures
        r is Ok <==> field_ok(name_field@) && field_ok(sender_field@),
        r matches Ok(req) ==> req.kind is File && req.file_name@ == strip_trailing(name_field@)
            && req.sender_name@ == strip_trailing(sender_field@) && req.peer_address@ == peer@,
        r matches Err(e) ==> e == if !field_ok(name_field@) {
            field_error(name_field@)
        } else {
            field_error(sender_field@)
        },
{
    let file_name = match decode_field(name_field) {
        Ok(n) => n,
        Err(e) => {
            return Err(e);
        },
    };
    let sender_name = match decode_field(sender_field) {
        Ok(n) => n,
        Err(e) => {
            return Err(e);
        },
    };
    Ok(
        TransferRequest {
            kind: MessageKind::File,
            file_name,
            sender_name,
            peer_address: copy_bytes(peer),
        },
    )
}

/// The synthetic request a clipboard-text connection raises: the fixed
/// label in place of a file name, the peer address in place of a sender.
pub fn clip_request(peer: &Vec<u8>) -> (r: TransferRequest)
    ensures
        r.kind is ClipboardText,
        r.file_name@ == clip_text_label(),
        r.sender_name@ == peer@,
        r.peer_address@ == peer@,
{
    TransferRequest {
        kind: MessageKind::ClipboardText,
        file_name: clip_label(),
        sender_name: copy_bytes(peer),
        peer_address: copy_bytes(peer),
    }
}

/// Where one accepted connection stands.
pub enum ConnPhase {
    /// Accepted; the leading tag is still to be read.
    Accepted { peer: Vec<u8> },
    /// A file transfer was announced; its metadata is still to be read.
    AwaitingFileMeta { peer: Vec<u8> },
    /// A request was raised and awaits the consent decision.
    AwaitingConsent { request: TransferRequest },
    /// Consent granted; the file's bytes are being streamed to disk.
    ReceivingFile { file_name: Vec<u8>, sender_name: Vec<u8> },
    /// Consent granted; the text is being read off the connection.
    ReceivingText,
    /// The stream ended after `bytes` bytes.
    Done { bytes: u64 },
    /// The connection is finished with, successfully or not.
    Closed,
}

/// What the transport layer reports to the state machine.
pub enum ConnEvent {
    /// The leading 4-byte tag was read.
    TagRead { tag: i32 },
    /// Both fixed-width metadata fields were read.
    MetaRead { name_field: Vec<u8>, sender_field: Vec<u8> },
    /// The consent surface decided.
    Decided { decision: Decision },
    /// The peer closed its write side after `bytes` bytes of payload.
    StreamEnded { bytes: u64 },
    /// Reading or writing this connection failed.
    ConnFailed,
}

/// What the transport layer must do after a step.
pub enum ConnAction {
    /// Read the two fixed-width metadata fields.
    ReadMetadata,
    /// Raise the pending request with the consent surface and wait.
    RequestConsent,
    /// Write the allow reply, then stream the payload to disk off the
    /// accept loop.
    ReplyAllowFile,
    /// Write the allow reply, then read the text.
    ReplyAllowText,
    /// Write the deny reply and close; nothing touches the disk.
    ReplyDeny,
    /// Report the completed transfer and close.
    FinishConnection,
    /// Close without a reply; the accept loop itself carries on.
    Drop,
}

/// The connection lifecycle, as a relation between a state, an event, and
/// the next state with its action. An unknown tag, a malformed metadata
/// field, an event out of order, and an I/O failure all close the one
/// connection and nothing else.
pub open spec fn steps_to(s: ConnPhase, e: ConnEvent, n: ConnPhase, a: ConnAction) -> bool {
    match (s, e) {
        (ConnPhase::Accepted { peer }, ConnEvent::TagRead { tag }) => {
            if tag == FILE_TAG {
                n == (ConnPhase::AwaitingFileMeta { peer }) && a is ReadMetadata
            } else if tag == TEXT_TAG {
                &&& n matches ConnPhase::AwaitingConsent { request }
                &&& request.kind is ClipboardText
                &&& request.file_name@ == clip_text_label()
                &&& request.sender_name@ == peer@
                &&& request.peer_address@ == peer@
                &&& a is RequestConsent
            } else {
                n is Closed && a is Drop
            }
        },
        (ConnPhase::AwaitingFileMeta { peer }, ConnEvent::MetaRead { name_field, sender_field }) => {
            if field_ok(name_field@) && field_ok(sender_field@) {
                &&& n matches ConnPhase::AwaitingConsent { request }
                &&& request.kind is File
                &&& request.file_name@ == strip_trailing(name_field@)
                &&& request.sender_name@ == strip_trailing(sender_field@)
                &&& request.peer_address@ == peer@
                &&& a is RequestConsent
            } else {
                n is Closed && a is Drop
            }
        },
        (ConnPhase::AwaitingConsent { request }, ConnEvent::Decided { decision }) => {
            match decision {
                Decision::Allow => {
                    if request.kind is File {
                        &&& n matches ConnPhase::ReceivingFile { file_name, sender_name }
                        &&& file_name@ == request.file_name@
                        &&& sender_name@ == request.sender_name@
                        &&& a is ReplyAllowFile
                    } else {
                        n is ReceivingText && a is ReplyAllowText
                    }
                },
                Decision::Deny => n is Closed && a is ReplyDeny,
            }
        },
        (ConnPhase::ReceivingFile { .. }, ConnEvent::StreamEnded { bytes }) => {
            n == (ConnPhase::Done { bytes }) && a is FinishConnection
        },
        (ConnPhase::ReceivingText, ConnEvent::StreamEnded { bytes }) => {
            n == (ConnPhase::Done { bytes }) && a is FinishConnection
        },
        _ => n is Closed && a is Drop,
    }
}

/// Advances one connection by one event and names the action to perform.
pub fn connection_step(s: ConnPhase, e: ConnEvent) -> (r: (ConnPhase, ConnAction))
    ensures
        steps_to(s, e, r.0, r.1),
{
    match (s, e) {
        (ConnPhase::Accepted { peer }, ConnEvent::TagRead { tag }) => {
            match classify_message(tag) {
                MessageKind::File => (
                    ConnPhase::AwaitingFileMeta { peer },
                    ConnAction::ReadMetadata,
                ),
                MessageKind::ClipboardText => (
                    ConnPhase::AwaitingConsent { request: clip_request(&peer) },
                    ConnAction::RequestConsent,
                ),
                MessageKind::Unknown => (ConnPhase::Closed, ConnAction::Drop),
            }
        },
        (ConnPhase::AwaitingFileMeta { peer }, ConnEvent::MetaRead { name_field, sender_field }) => {
            match parse_file_request(&name_field, &sender_field, &peer) {
                Ok(request) => (
                    ConnPhase::AwaitingConsent { request },
                    ConnAction::RequestConsent,
                ),
                Err(_) => (ConnPhase::Closed, ConnAction::Drop),
            }
        },
        (ConnPhase::AwaitingConsent { request }, ConnEvent::Decided { decision }) => {
            match decision {
                Decision::Allow => {
                    if let MessageKind::File = request.kind {
                        (
                            ConnPhase::ReceivingFile {
                                file_name: request.file_name,
                                sender_name: request.sender_name,
                            },
                            ConnAction::ReplyAllowFile,
                        )
                    } else {
                        (ConnPhase::ReceivingText, ConnAction::ReplyAllowText)
                    }
                },
                Decision::Deny => (ConnPhase::Closed, ConnAction::ReplyDeny),
            }
        },
        (ConnPhase::ReceivingFile { .. }, ConnEvent::StreamEnded { bytes }) => (
            ConnPhase::Done { bytes },
            ConnAction::FinishConnection,
        ),
        (ConnPhase::ReceivingText, ConnEvent::StreamEnded { bytes }) => (
            ConnPhase::Done { bytes },
            ConnAction::FinishConnection,
        ),
        _ => (ConnPhase::Closed, ConnAction::Drop),
    }
}

/// What an allowed receive unit writes for a given inbound stream, and a
/// denied one does not: the whole stream, byte for byte, or nothing.
pub open spec fn received_write(decision: Decision, stream: Seq<u8>) -> Option<Seq<u8>> {
    if decision is Allow {
        Some(stream)
    } else {
        None
    }
}

/// How one inbound file ends.
pub enum ReceiveOutcome {
    /// Consent was refused: the deny reply went out and no bytes reached
    /// the disk.
    Refused,
    /// Consent was granted: the stream was written to a freshly resolved
    /// destination name, and its length reported.
    Written { name: Vec<u8>, contents: Vec<u8>, count: u64 },
}

/// The file-receive unit, once the decision is in: on Deny nothing is
/// written; on Allow a collision-free destination name is resolved against
/// the names already on disk and the whole inbound stream is written
/// there, its byte count reported.
pub fn file_receive_outcome(
    decision: Decision,
    existing: &Vec<Vec<u8>>,
    desired: &Vec<u8>,
    stream: &Vec<u8>,
) -> (r: ReceiveOutcome)
    requires
        existing@.len() < usize::MAX,
    ensures
        decision is Deny <==> r is Refused,
        r matches ReceiveOutcome::Written { name, contents, count } ==> resolves_to(
            name_views(existing@),
            desired@,
            name@,
        ) && Some(contents@) == received_write(decision, stream@) && count as nat == stream@.len(),
{
    match decision {
        Decision::Deny => ReceiveOutcome::Refused,
        Decision::Allow => {
            let name = resolve_name(existing, desired);
            let contents = copy_bytes(stream);
            let count = contents.len() as u64;
            ReceiveOutcome::Written { name, contents, count }
        },
    }
}

/// A connection only ever replies "allow" and starts writing on an Allow
/// decision from the consent surface; no other event can reach a writing
/// state.
pub proof fn lemma_no_write_without_allow(s: ConnPhase, e: ConnEvent, n: ConnPhase, a: ConnAction)
    requires
        steps_to(s, e, n, a),
        a is ReplyAllowFile || a is ReplyAllowText,
    ensures
        e == (ConnEvent::Decided { decision: Decision::Allow }),
        s is AwaitingConsent,
{
}

/// A Deny decision closes the connection with the deny reply: no receive
/// unit starts and nothing is written.
pub proof fn lemma_deny_closes(s: ConnPhase, e: ConnEvent, n: ConnPhase, a: ConnAction)
    requires
        steps_to(s, e, n, a),
        e == (ConnEvent::Decided { decision: Decision::Deny }),
        s is AwaitingConsent,
    ensures
        n is Closed,
        a is ReplyDeny,
        received_write(Decision::Deny, Seq::<u8>::empty()) is None,
{
}

/// A failure on one connection closes that connection without a reply;
/// every state absorbs it, so the accept loop never inherits the failure.
pub proof fn lemma_failure_is_isolated(s: ConnPhase, e: ConnEvent, n: ConnPhase, a: ConnAction)
    requires
        steps_to(s, e, n, a),
        e is ConnFailed,
    ensures
        n is Closed,
        a is Drop,
{
}

/// A consented file transfer walks exactly the documented lifecycle:
/// accepted, metadata awaited, consent awaited, file streamed, done — and
/// the file name the receive unit gets is the one the metadata carried.
pub proof fn lemma_file_session_lifecycle(
    peer: Vec<u8>,
    name_field: Vec<u8>,
    sender_field: Vec<u8>,
    bytes: u64,
    s1: ConnPhase,
    a1: ConnAction,
    s2: ConnPhase,
    a2: ConnAction,
    s3: ConnPhase,
    a3: ConnAction,
    s4: ConnPhase,
    a4: ConnAction,
)
    requires
        field_ok(name_field@),
        field_ok(sender_field@),
        steps_to(ConnPhase::Accepted { peer }, ConnEvent::TagRead { tag: FILE_TAG }, s1, a1),
        steps_to(s1, ConnEvent::MetaRead { name_field, sender_field }, s2, a2),
        steps_to(s2, ConnEvent::Decided { decision: Decision::Allow }, s3, a3),
        steps_to(s3, ConnEvent::StreamEnded { bytes }, s4, a4),
    ensures
        s1 is AwaitingFileMeta && a1 is ReadMetadata,
        s2 is AwaitingConsent && a2 is RequestConsent,
        s3 matches ConnPhase::ReceivingFile { file_name, sender_name } && file_name@
            == strip_trailing(name_field@) && sender_name@ == strip_trailing(sender_field@),
        a3 is ReplyAllowFile,
        s4 == (ConnPhase::Done { bytes }) && a4 is FinishConnection,
{
}

/// End to end: on an Allow decision the sender streams the whole file and
/// the receive unit writes its stream out unchanged, so the bytes on disk
/// equal the bytes of the source file.
pub proof fn lemma_allowed_transfer_round_trip(file: Seq<u8>)
    ensures
        received_write(
            Decision::Allow,
            crate::sender::sent_payload(crate::protocol::ALLOW_REPLY, file),
        ) == Some(file),
{
}

} // verus!
