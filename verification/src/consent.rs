//! Consent gate: every inbound transfer raises a request on the consent
//! surface and blocks until exactly one decision comes back. Responses are
//! correlated by a channel identifier derived from a monotonically
//! increasing request index, so no two pending requests can ever share a
//! channel.
//!
//! There is no timeout: a request whose decision never arrives blocks its
//! handling unit forever. The wait must be event-driven — a blocking or
//! async notification primitive — never a spin on shared state.

use vstd::prelude::*;

use crate::decimal::dec_digits;
use crate::decimal::lemma_dec_digits_injective;
use crate::decimal::u64_to_dec;

verus! {

/// The channel identifier of request `index`: the bytes of `auth`
/// followed by the index in decimal.
pub open spec fn channel_id(index: nat) -> Seq<u8> {
    seq![97u8, 117u8, 116u8, 104u8] + dec_digits(index)
}

/// Builds the channel identifier on which request `index` awaits its
/// decision.
pub fn request_channel_id(index: u64) -> (r: Vec<u8>)
    ensures
        r@ == channel_id(index as nat),
{
    let mut v: Vec<u8> = Vec::new();
    v.push(97);
    v.push(117);
    v.push(116);
    v.push(104);
    let digits = u64_to_dec(index);
    let mut i: usize = 0;
    while i < digits.len()
        invariant
            i <= digits@.len(),
            digits@ == dec_digits(index as nat),
            v@ == seq![97u8, 117u8, 116u8, 104u8] + digits@.subrange(0, i as int),
        decreases digits@.len() - i,
    {
        v.push(digits[i]);
        proof {
            assert(digits@.subrange(0, i as int).push(digits@[i as int]) =~= digits@.subrange(
                0,
                i + 1,
            ));
            assert(v@ =~= seq![97u8, 117u8, 116u8, 104u8] + digits@.subrange(0, i + 1));
        }
        i += 1;
    }
    proof {
        assert(digits@.subrange(0, digits@.len() as int) =~= digits@);
        assert(v@ =~= channel_id(index as nat));
    }
    v
}

/// Distinct request indices get distinct channels: a decision can never
/// reach any request but its own.
pub proof fn lemma_channel_ids_unique(i: nat, j: nat)
    requires
        i != j,
    ensures
        channel_id(i) != channel_id(j),
{
    if channel_id(i) == channel_id(j) {
        let ci = channel_id(i);
        let cj = channel_id(j);
        assert(ci.len() == 4 + dec_digits(i).len());
        assert(cj.len() == 4 + dec_digits(j).len());
        assert(dec_digits(i).len() == dec_digits(j).len());
        assert forall|m: int| 0 <= m < dec_digits(i).len() implies dec_digits(i)[m] == dec_digits(
            j,
        )[m] by {
            assert(ci[4 + m] == dec_digits(i)[m]);
            assert(cj[4 + m] == dec_digits(j)[m]);
        }
        assert(dec_digits(i) =~= dec_digits(j));
        lemma_dec_digits_injective(i, j);
    }
}

/// Hands out request indices, each exactly once, in increasing order.
pub struct RequestCounter {
    /// The index the next request will get.
    pub next: u64,
}

impl RequestCounter {
    /// A counter starting at zero, as the accept loop does.
    pub fn new() -> (c: RequestCounter)
        ensures
            c.next == 0,
    {
        RequestCounter { next: 0 }
    }

    /// Takes the next request index. Every call returns a fresh value,
    /// one more than the last.
    pub fn fresh_index(&mut self) -> (i: u64)
        requires
            old(self).next < u64::MAX,
        ensures
            i == old(self).next,
            final(self).next == old(self).next + 1,
    {
        let i = self.next;
        self.next = self.next + 1;
        i
    }
}

/// One pending request's decision cell: the consent surface reacts at most
/// once, and the waiting unit reads the decision only after the reaction.
pub struct DecisionCell {
    /// Whether the consent surface has reacted yet.
    pub reacted: bool,
    /// The chosen reply code; meaningful only once `reacted` holds.
    pub choice: i32,
}

impl DecisionCell {
    /// A cell with no decision yet.
    pub fn new() -> (c: DecisionCell)
        ensures
            !c.reacted,
            c.choice == 0,
    {
        DecisionCell { reacted: false, choice: 0 }
    }

    /// Records the one decision. A cell that has already reacted refuses a
    /// second decision: the first stands.
    pub fn react(&mut self, choice: i32)
        ensures
            final(self).reacted,
            !old(self).reacted ==> final(self).choice == choice,
            old(self).reacted ==> final(self).choice == old(self).choice,
    {
        if !self.reacted {
            self.reacted = true;
            self.choice = choice;
        }
    }

    /// The decision, once one arrived.
    pub fn decided_choice(&self) -> (r: Option<i32>)
        ensures
            self.reacted <==> r == Some(self.choice),
            !self.reacted <==> r is None,
    {
        if self.reacted {
            Some(self.choice)
        } else {
            None
        }
    }
}

} // verus!
