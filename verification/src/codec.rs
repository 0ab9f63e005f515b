//! Framing codec: file and sender names travel as fixed-width fields,
//! right-padded with a sentinel byte and trimmed again on decode.

use vstd::prelude::*;

verus! {

/// Width in bytes of every framed metadata field on the wire.
pub const FIELD_WIDTH: usize = 255;

/// Padding byte filling the tail of a framed field. It never occurs in a
/// legitimate name.
pub const SENTINEL: u8 = 0;

/// How a name looks on the wire: the name followed by sentinel padding up
/// to the field width.
pub open spec fn padded(name: Seq<u8>) -> Seq<u8> {
    name + Seq::new((FIELD_WIDTH - name.len()) as nat, |i: int| SENTINEL)
}

/// The name carried by a framed field: the field with all trailing
/// sentinel bytes removed.
pub open spec fn strip_trailing(s: Seq<u8>) -> Seq<u8>
    decreases s.len(),
{
    if s.len() > 0 && s.last() == SENTINEL {
        strip_trailing(s.drop_last())
    } else {
        s
    }
}

/// True of a UTF-8 continuation byte.
pub open spec fn is_cont(b: u8) -> bool {
    0x80 <= b && b < 0xC0
}

/// True if the bytes of `s` from position `i` on are well-formed UTF-8.
pub open spec fn is_utf8_from(s: Seq<u8>, i: int) -> bool
    decreases s.len() - i,
{
    if i >= s.len() || i < 0 {
        true
    } else {
        let b0 = s[i];
        if b0 < 0x80 {
            is_utf8_from(s, i + 1)
        } else if 0xC2 <= b0 && b0 <= 0xDF {
            i + 2 <= s.len() && is_cont(s[i + 1]) && is_utf8_from(s, i + 2)
        } else if b0 == 0xE0 {
            i + 3 <= s.len() && 0xA0 <= s[i + 1] && s[i + 1] <= 0xBF && is_cont(s[i + 2])
                && is_utf8_from(s, i + 3)
        } else if 0xE1 <= b0 && b0 <= 0xEC {
            i + 3 <= s.len() && is_cont(s[i + 1]) && is_cont(s[i + 2]) && is_utf8_from(s, i + 3)
        } else if b0 == 0xED {
            i + 3 <= s.len() && 0x80 <= s[i + 1] && s[i + 1] <= 0x9F && is_cont(s[i + 2])
                && is_utf8_from(s, i + 3)
        } else if 0xEE <= b0 && b0 <= 0xEF {
            i + 3 <= s.len() && is_cont(s[i + 1]) && is_cont(s[i + 2]) && is_utf8_from(s, i + 3)
        } else if b0 == 0xF0 {
            i + 4 <= s.len() && 0x90 <= s[i + 1] && s[i + 1] <= 0xBF && is_cont(s[i + 2])
                && is_cont(s[i + 3]) && is_utf8_from(s, i + 4)
        } else if 0xF1 <= b0 && b0 <= 0xF3 {
            i + 4 <= s.len() && is_cont(s[i + 1]) && is_cont(s[i + 2]) && is_cont(s[i + 3])
                && is_utf8_from(s, i + 4)
        } else if b0 == 0xF4 {
            i + 4 <= s.len() && 0x80 <= s[i + 1] && s[i + 1] <= 0x8F && is_cont(s[i + 2])
                && is_cont(s[i + 3]) && is_utf8_from(s, i + 4)
        } else {
            false
        }
    }
}

/// True if `s` is well-formed UTF-8 text.
pub open spec fn is_utf8(s: Seq<u8>) -> bool {
    is_utf8_from(s, 0)
}

/// Why a field could not be framed or unframed.
#[derive(Clone, Copy, PartialEq, Eq, Structural, Debug)]
pub enum FrameError {
    /// A name longer than the field width cannot be framed.
    Oversize,
    /// A field of the wrong width cannot be decoded.
    BadWidth,
    /// The field's content is not valid text.
    InvalidText,
}

/// True of a field a receiver can decode: full width, and valid text once
/// the padding is trimmed.
pub open spec fn field_ok(s: Seq<u8>) -> bool {
    s.len() == FIELD_WIDTH && is_utf8(strip_trailing(s))
}

/// The error decoding a bad field reports.
pub open spec fn field_error(s: Seq<u8>) -> FrameError {
    if s.len() != FIELD_WIDTH {
        FrameError::BadWidth
    } else {
        FrameError::InvalidText
    }
}

/// Checks well-formed UTF-8 from position `i` on.
fn utf8_check_from(s: &Vec<u8>, i: usize) -> (r: bool)
    requires
        i <= s@.len(),
    ensures
        r == is_utf8_from(s@, i as int),
    decreases s@.len() - i,
{
    let n = s.len();
    if i >= n {
        return true;
    }
    let b0 = s[i];
    if b0 < 0x80 {
        utf8_check_from(s, i + 1)
    } else if 0xC2 <= b0 && b0 <= 0xDF {
        n - i >= 2 && is_cont_byte(s[i + 1]) && utf8_check_from(s, i + 2)
    } else if b0 == 0xE0 {
        n - i >= 3 && 0xA0 <= s[i + 1] && s[i + 1] <= 0xBF && is_cont_byte(s[i + 2])
            && utf8_check_from(s, i + 3)
    } else if 0xE1 <= b0 && b0 <= 0xEC {
        n - i >= 3 && is_cont_byte(s[i + 1]) && is_cont_byte(s[i + 2]) && utf8_check_from(s, i + 3)
    } else if b0 == 0xED {
        n - i >= 3 && 0x80 <= s[i + 1] && s[i + 1] <= 0x9F && is_cont_byte(s[i + 2])
            && utf8_check_from(s, i + 3)
    } else if 0xEE <= b0 && b0 <= 0xEF {
        n - i >= 3 && is_cont_byte(s[i + 1]) && is_cont_byte(s[i + 2]) && utf8_check_from(s, i + 3)
    } else if b0 == 0xF0 {
        n - i >= 4 && 0x90 <= s[i + 1] && s[i + 1] <= 0xBF && is_cont_byte(s[i + 2])
            && is_cont_byte(s[i + 3]) && utf8_check_from(s, i + 4)
    } else if 0xF1 <= b0 && b0 <= 0xF3 {
        n - i >= 4 && is_cont_byte(s[i + 1]) && is_cont_byte(s[i + 2]) && is_cont_byte(s[i + 3])
            && utf8_check_from(s, i + 4)
    } else if b0 == 0xF4 {
        n - i >= 4 && 0x80 <= s[i + 1] && s[i + 1] <= 0x8F && is_cont_byte(s[i + 2])
            && is_cont_byte(s[i + 3]) && utf8_check_from(s, i + 4)
    } else {
        false
    }
}

/// Tests for a UTF-8 continuation byte.
fn is_cont_byte(b: u8) -> (r: bool)
    ensures
        r == is_cont(b),
{
    0x80 <= b && b < 0xC0
}

/// Checks that `s` is well-formed UTF-8 text.
pub fn is_valid_utf8(s: &Vec<u8>) -> (r: bool)
    ensures
        r == is_utf8(s@),
{
    utf8_check_from(s, 0)
}

/// Frames `name` into a fixed-width field: the name itself, then sentinel
/// padding. A name longer than the field width is rejected rather than
/// truncated, since truncation would corrupt the frame.
pub fn encode_field(name: &Vec<u8>) -> (r: Result<Vec<u8>, FrameError>)
    ensures
        name@.len() <= FIELD_WIDTH <==> r is Ok,
        r matches Ok(buf) ==> buf@ == padded(name@) && buf@.len() == FIELD_WIDTH,
        r matches Err(e) ==> e == FrameError::Oversize,
{
    if name.len() > FIELD_WIDTH {
        return Err(FrameError::Oversize);
    }
    let mut buf: Vec<u8> = Vec::new();
    let mut i: usize = 0;
    while i < name.len()
        invariant
            i <= name@.len() <= FIELD_WIDTH,
            buf@ == name@.subrange(0, i as int),
        decreases name@.len() - i,
    {
        buf.push(name[i]);
        proof {
            assert(buf@ =~= name@.subrange(0, i + 1));
        }
        i += 1;
    }
    proof {
        assert(buf@ =~= name@);
    }
    while buf.len() < FIELD_WIDTH
        invariant
            name@.len() <= buf@.len() <= FIELD_WIDTH,
            buf@.subrange(0, name@.len() as int) == name@,
            forall|j: int| name@.len() <= j < buf@.len() ==> buf@[j] == SENTINEL,
        decreases FIELD_WIDTH - buf@.len(),
    {
        buf.push(SENTINEL);
        proof {
            assert(buf@.subrange(0, name@.len() as int) =~= name@);
        }
    }
    proof {
        assert(buf@ =~= padded(name@));
    }
    Ok(buf)
}

/// Unframes a fixed-width field: trailing sentinel bytes are trimmed and
/// the remainder must be valid text.
pub fn decode_field(buf: &Vec<u8>) -> (r: Result<Vec<u8>, FrameError>)
    ensures
        r is Ok <==> field_ok(buf@),
        r matches Ok(name) ==> name@ == strip_trailing(buf@),
        r matches Err(e) ==> e == field_error(buf@),
{
    if buf.len() != FIELD_WIDTH {
        return Err(FrameError::BadWidth);
    }
    let mut end: usize = buf.len();
    proof {
        assert(buf@.subrange(0, end as int) =~= buf@);
    }
    while end > 0 && buf[end - 1] == SENTINEL
        invariant
            end <= buf@.len(),
            strip_trailing(buf@) == strip_trailing(buf@.subrange(0, end as int)),
        decreases end,
    {
        proof {
            assert(buf@.subrange(0, end as int).drop_last() =~= buf@.subrange(0, end - 1));
        }
        end -= 1;
    }
    proof {
        assert(strip_trailing(buf@.subrange(0, end as int)) == buf@.subrange(0, end as int));
    }
    let mut name: Vec<u8> = Vec::new();
    let mut i: usize = 0;
    while i < end
        invariant
            i <= end <= buf@.len(),
            name@ == buf@.subrange(0, i as int),
        decreases end - i,
    {
        name.push(buf[i]);
        proof {
            assert(name@ =~= buf@.subrange(0, i + 1));
        }
        i += 1;
    }
    proof {
        assert(name@ =~= buf@.subrange(0, end as int));
    }
    if is_valid_utf8(&name) {
        Ok(name)
    } else {
        Err(FrameError::InvalidText)
    }
}

/// Trimming the padding off a freshly padded name gives the name back, as
/// long as the name itself ends in no sentinel byte.
pub proof fn lemma_strip_padded(name: Seq<u8>, k: nat)
    requires
        name.len() == 0 || name.last() != SENTINEL,
    ensures
        strip_trailing(name + Seq::new(k, |i: int| SENTINEL)) == name,
    decreases k,
{
    if k == 0 {
        assert(name + Seq::new(0, |i: int| SENTINEL) =~= name);
    } else {
        let s = name + Seq::new(k, |i: int| SENTINEL);
        assert(s.last() == SENTINEL);
        assert(s.drop_last() =~= name + Seq::new((k - 1) as nat, |i: int| SENTINEL));
        lemma_strip_padded(name, (k - 1) as nat);
    }
}

/// Round trip: a name of at most the field width that holds no sentinel
/// byte is recovered exactly by decoding its encoding.
pub proof fn lemma_codec_round_trip(name: Seq<u8>)
    requires
        name.len() <= FIELD_WIDTH,
        forall|i: int| 0 <= i < name.len() ==> name[i] != SENTINEL,
        is_utf8(name),
    ensures
        padded(name).len() == FIELD_WIDTH,
        strip_trailing(padded(name)) == name,
        is_utf8(strip_trailing(padded(name))),
{
    lemma_strip_padded(name, (FIELD_WIDTH - name.len()) as nat);
}

} // verus!
