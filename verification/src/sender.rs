//! Sender: accumulates files to send, and models the per-connection
//! handshake and byte transfer that the transport layer performs. Each
//! enqueued file gets a dedicated connection; the receiver's consent reply
//! decides whether the file's bytes are streamed at all.

use vstd::prelude::*;

use crate::codec::FrameError;
use crate::codec::FIELD_WIDTH;
use crate::codec::encode_field;
use crate::codec::padded;
use crate::namer::copy_bytes;
use crate::protocol::DENY_REPLY;
use crate::protocol::FILE_TAG;

verus! {

/// Relies on hostname::get, which reads this machine's host name: the
/// result depends on the machine, so nothing is promised of it beyond
/// being delivered as plain bytes when it is valid text.
#[verifier::external_body]
fn local_hostname() -> (r: Option<Vec<u8>>) {
    match hostname::get() {
        Ok(name) => name.to_str().map(|s| s.as_bytes().to_vec()),
        Err(_) => None,
    }
}

/// The sending side: a local identity, the receiver's address, the queue
/// of files still to send, and the peer addresses of opened connections.
pub struct Sender {
    /// This host's name, sent as the framed sender identity.
    pub name: Vec<u8>,
    /// Peer addresses of the connections opened so far.
    pub my_streams_addr: Vec<Vec<u8>>,
    /// IP of the receiving host.
    pub receiver_ip: Vec<u8>,
    /// Port of the receiving host.
    pub receiver_port: Vec<u8>,
    /// Files enqueued for sending, in enqueue order.
    pub files: Vec<Vec<u8>>,
}

/// The terminal outcome of one file's transfer unit.
#[derive(Clone, Copy, PartialEq, Eq, Structural, Debug)]
pub enum SendOutcome {
    /// The receiver refused consent; nothing was streamed, and this is no
    /// error.
    Rejected,
    /// The whole file was streamed; `bytes_sent` counts its bytes.
    Completed { bytes_sent: u64 },
}

/// The three values a sender writes before awaiting the consent reply:
/// the file tag, the framed file name, the framed sender name.
pub struct Handshake {
    pub tag: i32,
    pub name_field: Vec<u8>,
    pub sender_field: Vec<u8>,
}

impl Sender {
    /// A sender with an empty queue, named after this host. A host whose
    /// name cannot be read gets an empty identity.
    pub fn new() -> (s: Sender)
        ensures
            s.files@.len() == 0,
            s.my_streams_addr@.len() == 0,
            s.receiver_ip@.len() == 0,
            s.receiver_port@.len() == 0,
    {
        let name = match local_hostname() {
            Some(n) => n,
            None => Vec::new(),
        };
        Sender {
            name,
            my_streams_addr: Vec::new(),
            receiver_ip: Vec::new(),
            receiver_port: Vec::new(),
            files: Vec::new(),
        }
    }

    /// Enqueues one more file to send.
    pub fn add_file(&mut self, file_name: Vec<u8>)
        ensures
            final(self).files@ == old(self).files@.push(file_name),
            final(self).name == old(self).name,
            final(self).my_streams_addr == old(self).my_streams_addr,
            final(self).receiver_ip == old(self).receiver_ip,
            final(self).receiver_port == old(self).receiver_port,
    {
        self.files.push(file_name);
    }

    /// Points the sender at the receiving host.
    pub fn set_receiver_addr(&mut self, receiver_ip: Vec<u8>, receiver_port: Vec<u8>)
        ensures
            final(self).receiver_ip == receiver_ip,
            final(self).receiver_port == receiver_port,
            final(self).name == old(self).name,
            final(self).my_streams_addr == old(self).my_streams_addr,
            final(self).files == old(self).files,
    {
        self.receiver_ip = receiver_ip;
        self.receiver_port = receiver_port;
    }

    /// Records the peer address of a freshly opened connection.
    pub fn record_stream_addr(&mut self, addr: Vec<u8>)
        ensures
            final(self).my_streams_addr@ == old(self).my_streams_addr@.push(addr),
            final(self).name == old(self).name,
            final(self).receiver_ip == old(self).receiver_ip,
            final(self).receiver_port == old(self).receiver_port,
            final(self).files == old(self).files,
    {
        self.my_streams_addr.push(addr);
    }

    /// Empties the queue and hands back the files in dispatch order: the
    /// queue is drained back to front, so each enqueued file gets exactly
    /// one connection, last enqueued first.
    pub fn take_transfer_queue(&mut self) -> (q: Vec<Vec<u8>>)
        ensures
            q@.len() == old(self).files@.len(),
            forall|i: int|
                0 <= i < q@.len() ==> q@[i] == old(self).files@[old(self).files@.len() - 1 - i],
            final(self).files@.len() == 0,
            final(self).name == old(self).name,
            final(self).my_streams_addr == old(self).my_streams_addr,
            final(self).receiver_ip == old(self).receiver_ip,
            final(self).receiver_port == old(self).receiver_port,
    {
        let mut q: Vec<Vec<u8>> = Vec::new();
        let ghost orig = self.files@;
        while self.files.len() != 0
            invariant
                q@.len() + self.files@.len() == orig.len(),
                self.files@ == orig.subrange(0, self.files@.len() as int),
                forall|i: int| 0 <= i < q@.len() ==> q@[i] == orig[orig.len() - 1 - i],
                self.name == old(self).name,
                self.my_streams_addr == old(self).my_streams_addr,
                self.receiver_ip == old(self).receiver_ip,
                self.receiver_port == old(self).receiver_port,
            decreases self.files@.len(),
        {
            let file = self.files.pop().unwrap();
            proof {
                assert(self.files@ =~= orig.subrange(0, self.files@.len() as int));
            }
            q.push(file);
        }
        q
    }
}

/// The file name inside a path: everything after the last `/`, or the
/// whole path if it has none.
pub open spec fn base_name(path: Seq<u8>) -> Seq<u8>
    decreases path.len(),
{
    if path.len() == 0 {
        path
    } else if path.last() == 47 {
        Seq::empty()
    } else {
        base_name(path.drop_last()).push(path.last())
    }
}

/// Extracts the file name from a path.
pub fn file_name_of_path(path: &Vec<u8>) -> (r: Vec<u8>)
    ensures
        r@ == base_name(path@),
{
    let mut start: usize = path.len();
    while start > 0 && path[start - 1] != 47
        invariant
            start <= path@.len(),
            forall|j: int| start <= j < path@.len() ==> path@[j] != 47,
        decreases start,
    {
        start -= 1;
    }
    proof {
        lemma_base_name_tail(path@, start as int);
    }
    let mut out: Vec<u8> = Vec::new();
    let mut i: usize = start;
    while i < path.len()
        invariant
            start <= i <= path@.len(),
            out@ == path@.subrange(start as int, i as int),
        decreases path@.len() - i,
    {
        out.push(path[i]);
        proof {
            assert(out@ =~= path@.subrange(start as int, i + 1));
        }
        i += 1;
    }
    proof {
        assert(out@ =~= path@.subrange(start as int, path@.len() as int));
    }
    out
}

/// When no `/` occurs at or after `start`, and either `start` is 0 or a
/// `/` stands just before it, the base name is the tail from `start`.
proof fn lemma_base_name_tail(path: Seq<u8>, start: int)
    requires
        0 <= start <= path.len(),
        forall|j: int| start <= j < path.len() ==> path[j] != 47,
        start == 0 || path[start - 1] == 47,
    ensures
        base_name(path) == path.subrange(start, path.len() as int),
    decreases path.len() - start,
{
    if start == path.len() {
        if start == 0 {
            assert(path.subrange(0, 0) =~= path);
        } else {
            assert(path.last() == 47);
            assert(base_name(path) =~= path.subrange(start, path.len() as int));
        }
    } else {
        lemma_base_name_tail(path.drop_last(), start);
        assert(path.drop_last() =~= path.subrange(0, path.len() - 1));
        assert(path.drop_last().subrange(start, path.len() - 1).push(path.last()) =~= path.subrange(
            start,
            path.len() as int,
        ));
        assert(path.last() != 47);
    }
}

/// Frames the handshake for one file transfer: the file tag and the two
/// fixed-width name fields. A name too long for its field is rejected.
pub fn prepare_file_handshake(file_name: &Vec<u8>, sender_name: &Vec<u8>) -> (r: Result<
    Handshake,
    FrameError,
>)
    ensures
        r is Ok <==> file_name@.len() <= FIELD_WIDTH && sender_name@.len() <= FIELD_WIDTH,
        r matches Ok(h) ==> h.tag == FILE_TAG && h.name_field@ == padded(file_name@)
            && h.sender_field@ == padded(sender_name@),
        r matches Err(e) ==> e == FrameError::Oversize,
{
    let name_field = match encode_field(file_name) {
        Ok(f) => f,
        Err(e) => {
            return Err(e);
        },
    };
    let sender_field = match encode_field(sender_name) {
        Ok(f) => f,
        Err(e) => {
            return Err(e);
        },
    };
    Ok(Handshake { tag: FILE_TAG, name_field, sender_field })
}

/// The payload one connection streams after the consent reply: nothing
/// when the receiver refused, the whole file otherwise.
pub open spec fn sent_payload(reply: i32, file: Seq<u8>) -> Seq<u8> {
    if reply == DENY_REPLY {
        Seq::empty()
    } else {
        file
    }
}

/// Builds the bytes this connection streams for the given consent reply.
pub fn payload_to_send(reply: i32, file: &Vec<u8>) -> (out: Vec<u8>)
    ensures
        out@ == sent_payload(reply, file@),
{
    if reply == DENY_REPLY {
        Vec::new()
    } else {
        copy_bytes(file)
    }
}

/// Whether a whole send succeeded, given each file unit's success: there
/// is no partial success, one unit's failure fails the send as a whole.
pub fn send_succeeds(unit_ok: &Vec<bool>) -> (r: bool)
    ensures
        r <==> forall|i: int| 0 <= i < unit_ok@.len() ==> unit_ok@[i],
{
    let mut i: usize = 0;
    while i < unit_ok.len()
        invariant
            i <= unit_ok@.len(),
            forall|j: int| 0 <= j < i ==> unit_ok@[j],
        decreases unit_ok@.len() - i,
    {
        if !unit_ok[i] {
            return false;
        }
        i += 1;
    }
    true
}

/// A refused transfer streams nothing: with the deny reply the payload is
/// empty, so no byte of the file ever leaves the sender.
pub proof fn lemma_denied_transfer_sends_nothing(file: Seq<u8>)
    ensures
        sent_payload(DENY_REPLY, file) == Seq::<u8>::empty(),
{
}

/// The outcome of one file's transfer unit for the given consent reply: a
/// refusal ends the unit without error and without bytes; anything else
/// streams the file and reports its byte count.
pub fn transfer_outcome(reply: i32, file: &Vec<u8>) -> (r: SendOutcome)
    ensures
        reply == DENY_REPLY <==> r is Rejected,
        r matches SendOutcome::Completed { bytes_sent } ==> bytes_sent as nat == sent_payload(
            reply,
            file@,
        ).len(),
{
    if reply == DENY_REPLY {
        SendOutcome::Rejected
    } else {
        SendOutcome::Completed { bytes_sent: file.len() as u64 }
    }
}

} // verus!
