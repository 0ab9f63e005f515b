//! Wire protocol constants and the vocabulary shared by sender and
//! receiver: message tags, consent decisions, and consent replies.

use vstd::prelude::*;

verus! {

/// Wire tag announcing a file transfer.
pub const FILE_TAG: i32 = 1;

/// Wire tag announcing clipboard text.
pub const TEXT_TAG: i32 = 2;

/// Consent reply granting a transfer.
pub const ALLOW_REPLY: i32 = 1;

/// Consent reply refusing a transfer.
pub const DENY_REPLY: i32 = 0;

/// What an inbound connection announces.
#[derive(Clone, Copy, PartialEq, Eq, Structural, Debug)]
pub enum MessageKind {
    File,
    ClipboardText,
    Unknown,
}

/// Classifies a connection by its leading wire tag. Unknown tags are kept
/// apart so the receiver can reject and close such connections.
pub fn classify_message(tag: i32) -> (k: MessageKind)
    ensures
        k is File <==> tag == FILE_TAG,
        k is ClipboardText <==> tag == TEXT_TAG,
        k is Unknown <==> tag != FILE_TAG && tag != TEXT_TAG,
{
    if tag == FILE_TAG {
        MessageKind::File
    } else if tag == TEXT_TAG {
        MessageKind::ClipboardText
    } else {
        MessageKind::Unknown
    }
}

/// A consent decision over one transfer request.
#[derive(Clone, Copy, PartialEq, Eq, Structural, Debug)]
pub enum Decision {
    Allow,
    Deny,
}

/// The 4-byte reply a receiver writes back for a decision.
pub fn reply_code(d: Decision) -> (r: i32)
    ensures
        r == ALLOW_REPLY <==> d is Allow,
        r == DENY_REPLY <==> d is Deny,
{
    match d {
        Decision::Allow => ALLOW_REPLY,
        Decision::Deny => DENY_REPLY,
    }
}

/// Reads a consent decision back out of a reply code. Anything but the two
/// agreed codes is no decision at all.
pub fn decision_of_reply(code: i32) -> (d: Option<Decision>)
    ensures
        code == ALLOW_REPLY <==> d == Some(Decision::Allow),
        code == DENY_REPLY <==> d == Some(Decision::Deny),
        d is None <==> code != ALLOW_REPLY && code != DENY_REPLY,
{
    if code == ALLOW_REPLY {
        Some(Decision::Allow)
    } else if code == DENY_REPLY {
        Some(Decision::Deny)
    } else {
        None
    }
}

/// The label a clipboard-text request shows in place of a file name.
pub open spec fn clip_text_label() -> Seq<u8> {
    seq![99u8, 108u8, 105u8, 112u8, 32u8, 116u8, 120u8, 116u8]
}

/// Builds the clipboard-text label, the bytes of `clip txt`.
pub fn clip_label() -> (r: Vec<u8>)
    ensures
        r@ == clip_text_label(),
{
    let mut v: Vec<u8> = Vec::new();
    v.push(99);
    v.push(108);
    v.push(105);
    v.push(112);
    v.push(32);
    v.push(116);
    v.push(120);
    v.push(116);
    proof {
        assert(v@ =~= clip_text_label());
    }
    v
}

} // verus!
