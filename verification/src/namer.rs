//! Destination namer: resolves a collision-free name for an incoming file.
//! If the desired name is taken, a numeric suffix ` (k)` is inserted before
//! the extension, probing k = 1, 2, ... until a free name is found.
//!
//! Resolution is against a snapshot of the names already present: two
//! concurrent resolutions of the same desired name can both see the same
//! free slot, so the caller must serialize resolution with creation (or
//! create exclusively and retry).

use vstd::prelude::*;

use crate::decimal::dec_digits;
use crate::decimal::lemma_dec_digits_injective;
use crate::decimal::u64_to_dec;

verus! {

/// The position of the last `.` in the name, or -1 if it has none.
pub open spec fn last_dot(name: Seq<u8>) -> int
    decreases name.len(),
{
    if name.len() == 0 {
        -1
    } else if name.last() == 46 {
        name.len() - 1
    } else {
        last_dot(name.drop_last())
    }
}

/// Where the extension starts: the position of the last `.` in the name,
/// or the name's length if it has none.
pub open spec fn stem_end(name: Seq<u8>) -> int {
    if last_dot(name) < 0 {
        name.len() as int
    } else {
        last_dot(name)
    }
}

pub proof fn lemma_stem_end_bounds(name: Seq<u8>)
    ensures
        0 <= stem_end(name) <= name.len(),
        last_dot(name) < name.len(),
    decreases name.len(),
{
    if name.len() != 0 && name.last() != 46 {
        lemma_stem_end_bounds(name.drop_last());
    }
}

/// The k-th collision candidate for `name`: ` (k)` inserted between stem
/// and extension.
pub open spec fn candidate(name: Seq<u8>, k: nat) -> Seq<u8> {
    name.subrange(0, stem_end(name)) + seq![32u8, 40u8] + dec_digits(k) + seq![41u8]
        + name.subrange(stem_end(name), name.len() as int)
}

/// Distinct suffix numbers give distinct candidate names.
pub proof fn lemma_candidate_injective(name: Seq<u8>, k1: nat, k2: nat)
    requires
        candidate(name, k1) == candidate(name, k2),
    ensures
        k1 == k2,
{
    lemma_stem_end_bounds(name);
    let se = stem_end(name);
    let c1 = candidate(name, k1);
    let c2 = candidate(name, k2);
    let d1 = dec_digits(k1);
    let d2 = dec_digits(k2);
    assert(c1.len() == se + 2 + d1.len() + 1 + (name.len() - se));
    assert(c2.len() == se + 2 + d2.len() + 1 + (name.len() - se));
    assert(d1.len() == d2.len());
    assert forall|i: int| 0 <= i < d1.len() implies d1[i] == d2[i] by {
        assert(c1[se + 2 + i] == d1[i]);
        assert(c2[se + 2 + i] == d2[i]);
    }
    assert(d1 =~= d2);
    lemma_dec_digits_injective(k1, k2);
}

/// Among the candidates numbered `lo` through `lo + existing.len()` there
/// is one that `existing` does not contain: there are more candidates than
/// existing names, and candidates are pairwise distinct.
pub proof fn lemma_exists_free_candidate(existing: Seq<Seq<u8>>, name: Seq<u8>, lo: nat)
    ensures
        exists|k: nat|
            lo <= k <= lo + existing.len() && !existing.contains(candidate(name, k)),
    decreases existing.len(),
{
    if !existing.contains(candidate(name, lo)) {
        assert(lo <= lo <= lo + existing.len() && !existing.contains(candidate(name, lo)));
    } else {
        let j = choose|j: int| 0 <= j < existing.len() && existing[j] == candidate(name, lo);
        let ex2 = existing.subrange(0, j) + existing.subrange(j + 1, existing.len() as int);
        lemma_exists_free_candidate(ex2, name, lo + 1);
        let k = choose|k: nat|
            lo + 1 <= k <= lo + 1 + ex2.len() && !ex2.contains(candidate(name, k));
        assert forall|i: int| 0 <= i < existing.len() implies existing[i] != candidate(name, k) by {
            if i == j {
                if existing[i] == candidate(name, k) {
                    lemma_candidate_injective(name, lo, k);
                }
            } else if i < j {
                assert(ex2[i] == existing[i]);
                if existing[i] == candidate(name, k) {
                    assert(ex2.contains(candidate(name, k)));
                }
            } else {
                assert(ex2[i - 1] == existing[i]);
                if existing[i] == candidate(name, k) {
                    assert(ex2.contains(candidate(name, k)));
                }
            }
        }
        assert(!existing.contains(candidate(name, k)));
        assert(lo <= k <= lo + existing.len());
    }
}

/// The names held by a list of byte vectors.
pub open spec fn name_views(list: Seq<Vec<u8>>) -> Seq<Seq<u8>> {
    Seq::new(list.len(), |i: int| list[i]@)
}

/// What the namer must return for `desired` against `existing`: a name not
/// yet present; the desired name itself when that is free, and otherwise
/// the first free numbered candidate.
pub open spec fn resolves_to(existing: Seq<Seq<u8>>, desired: Seq<u8>, r: Seq<u8>) -> bool {
    &&& !existing.contains(r)
    &&& (!existing.contains(desired) ==> r == desired)
    &&& (existing.contains(desired) ==> exists|k: nat|
        1 <= k && r == candidate(desired, k) && !existing.contains(candidate(desired, k)) && (
        forall|j: nat| 1 <= j < k ==> existing.contains(candidate(desired, j))))
}

/// Byte-for-byte equality of two names.
pub fn bytes_eq(a: &Vec<u8>, b: &Vec<u8>) -> (r: bool)
    ensures
        r <==> a@ == b@,
{
    if a.len() != b.len() {
        return false;
    }
    let mut i: usize = 0;
    while i < a.len()
        invariant
            i <= a@.len(),
            a@.len() == b@.len(),
            forall|j: int| 0 <= j < i ==> a@[j] == b@[j],
        decreases a@.len() - i,
    {
        if a[i] != b[i] {
            return false;
        }
        i += 1;
    }
    proof {
        assert(a@ =~= b@);
    }
    true
}

/// Copies a name.
pub fn copy_bytes(src: &Vec<u8>) -> (r: Vec<u8>)
    ensures
        r@ == src@,
{
    let mut out: Vec<u8> = Vec::new();
    let mut i: usize = 0;
    while i < src.len()
        invariant
            i <= src@.len(),
            out@ == src@.subrange(0, i as int),
        decreases src@.len() - i,
    {
        out.push(src[i]);
        proof {
            assert(out@ =~= src@.subrange(0, i + 1));
        }
        i += 1;
    }
    proof {
        assert(out@ =~= src@);
    }
    out
}

/// Whether `x` is among the names in `list`.
pub fn contains_name(list: &Vec<Vec<u8>>, x: &Vec<u8>) -> (r: bool)
    ensures
        r == name_views(list@).contains(x@),
{
    let mut i: usize = 0;
    while i < list.len()
        invariant
            i <= list@.len(),
            forall|j: int| 0 <= j < i ==> list@[j]@ != x@,
        decreases list@.len() - i,
    {
        if bytes_eq(&list[i], x) {
            proof {
                assert(name_views(list@)[i as int] == x@);
            }
            return true;
        }
        i += 1;
    }
    proof {
        assert forall|j: int| 0 <= j < name_views(list@).len() implies name_views(list@)[j]
            != x@ by {
            assert(name_views(list@)[j] == list@[j]@);
        }
    }
    false
}

/// Where the extension of `name` starts, as an index.
fn stem_split(name: &Vec<u8>) -> (r: usize)
    ensures
        r as int == stem_end(name@),
{
    let mut j: usize = name.len();
    proof {
        assert(name@.subrange(0, j as int) =~= name@);
    }
    while j > 0
        invariant
            j <= name@.len(),
            last_dot(name@) == last_dot(name@.subrange(0, j as int)),
        decreases j,
    {
        if name[j - 1] == 46 {
            proof {
                assert(name@.subrange(0, j as int).last() == 46);
            }
            return j - 1;
        }
        proof {
            assert(name@.subrange(0, j as int).drop_last() =~= name@.subrange(0, j - 1));
        }
        j -= 1;
    }
    proof {
        assert(name@.subrange(0, 0) =~= Seq::<u8>::empty());
        assert(last_dot(name@) == -1);
    }
    name.len()
}

/// Builds the k-th collision candidate for `name`.
pub fn build_candidate(name: &Vec<u8>, k: u64) -> (r: Vec<u8>)
    ensures
        r@ == candidate(name@, k as nat),
{
    proof {
        lemma_stem_end_bounds(name@);
    }
    let se = stem_split(name);
    let ghost stem = name@.subrange(0, se as int);
    let mut out: Vec<u8> = Vec::new();
    let mut i: usize = 0;
    while i < se
        invariant
            i <= se,
            se as int == stem_end(name@),
            se <= name@.len(),
            out@ == name@.subrange(0, i as int),
        decreases se - i,
    {
        out.push(name[i]);
        proof {
            assert(out@ =~= name@.subrange(0, i + 1));
        }
        i += 1;
    }
    out.push(32);
    out.push(40);
    proof {
        assert(out@ =~= stem + seq![32u8, 40u8]);
    }
    let digits = u64_to_dec(k);
    let mut i2: usize = 0;
    while i2 < digits.len()
        invariant
            i2 <= digits@.len(),
            digits@ == dec_digits(k as nat),
            out@ == stem + seq![32u8, 40u8] + digits@.subrange(0, i2 as int),
        decreases digits@.len() - i2,
    {
        out.push(digits[i2]);
        proof {
            assert(digits@.subrange(0, i2 as int).push(digits@[i2 as int]) =~= digits@.subrange(
                0,
                i2 + 1,
            ));
            assert(out@ =~= stem + seq![32u8, 40u8] + digits@.subrange(0, i2 + 1));
        }
        i2 += 1;
    }
    proof {
        assert(digits@.subrange(0, digits@.len() as int) =~= digits@);
        assert(out@ =~= stem + seq![32u8, 40u8] + dec_digits(k as nat));
    }
    out.push(41);
    proof {
        assert(out@ =~= stem + seq![32u8, 40u8] + dec_digits(k as nat) + seq![41u8]);
    }
    let ghost mid = stem + seq![32u8, 40u8] + dec_digits(k as nat) + seq![41u8];
    let mut i3: usize = se;
    while i3 < name.len()
        invariant
            se <= i3 <= name@.len(),
            se as int == stem_end(name@),
            out@ == mid + name@.subrange(se as int, i3 as int),
        decreases name@.len() - i3,
    {
        out.push(name[i3]);
        proof {
            assert(name@.subrange(se as int, i3 as int).push(name@[i3 as int]) =~= name@.subrange(
                se as int,
                i3 + 1,
            ));
            assert(out@ =~= mid + name@.subrange(se as int, i3 + 1));
        }
        i3 += 1;
    }
    proof {
        assert(out@ =~= candidate(name@, k as nat));
    }
    out
}

/// Resolves a free on-disk name for `desired` against the names in
/// `existing`: `desired` itself when free, otherwise the first free
/// numbered candidate.
pub fn resolve_name(existing: &Vec<Vec<u8>>, desired: &Vec<u8>) -> (r: Vec<u8>)
    requires
        existing@.len() < usize::MAX,
    ensures
        resolves_to(name_views(existing@), desired@, r@),
{
    let ghost ex = name_views(existing@);
    if !contains_name(existing, desired) {
        return copy_bytes(desired);
    }
    proof {
        lemma_exists_free_candidate(ex, desired@, 1);
    }
    let ghost kf = choose|kk: nat|
        1 <= kk <= 1 + ex.len() && !ex.contains(candidate(desired@, kk));
    let mut k: usize = 1;
    loop
        invariant
            1 <= k <= kf,
            kf <= existing@.len() + 1,
            existing@.len() < usize::MAX,
            ex == name_views(existing@),
            ex.contains(desired@),
            !ex.contains(candidate(desired@, kf)),
            forall|j: nat| 1 <= j < k ==> ex.contains(candidate(desired@, j)),
        decreases kf - k,
    {
        let cand = build_candidate(desired, k as u64);
        if !contains_name(existing, &cand) {
            proof {
                assert(1 <= k as nat && cand@ == candidate(desired@, k as nat) && !ex.contains(
                    candidate(desired@, k as nat),
                ) && (forall|j: nat|
                    1 <= j < k as nat ==> ex.contains(candidate(desired@, j))));
            }
            return cand;
        }
        proof {
            assert(k != kf);
        }
        k += 1;
    }
}

/// Resolving the same desired name twice against the same existing names
/// yields the same answer: the namer is deterministic.
pub proof fn lemma_resolve_deterministic(
    existing: Seq<Seq<u8>>,
    desired: Seq<u8>,
    r1: Seq<u8>,
    r2: Seq<u8>,
)
    requires
        resolves_to(existing, desired, r1),
        resolves_to(existing, desired, r2),
    ensures
        r1 == r2,
{
    if existing.contains(desired) {
        let k1 = choose|k: nat|
            1 <= k && r1 == candidate(desired, k) && !existing.contains(candidate(desired, k))
                && (forall|j: nat| 1 <= j < k ==> existing.contains(candidate(desired, j)));
        let k2 = choose|k: nat|
            1 <= k && r2 == candidate(desired, k) && !existing.contains(candidate(desired, k))
                && (forall|j: nat| 1 <= j < k ==> existing.contains(candidate(desired, j)));
        if k1 < k2 {
            assert(existing.contains(candidate(desired, k1)));
        } else if k2 < k1 {
            assert(existing.contains(candidate(desired, k2)));
        }
    }
}

/// Once the name resolved first is itself taken, resolving the same
/// desired name again yields a different name, and one never previously
/// present.
pub proof fn lemma_resolve_fresh(
    existing: Seq<Seq<u8>>,
    desired: Seq<u8>,
    r1: Seq<u8>,
    r2: Seq<u8>,
)
    requires
        resolves_to(existing, desired, r1),
        resolves_to(existing.push(r1), desired, r2),
    ensures
        r2 != r1,
        !existing.contains(r2),
{
    assert(existing.push(r1)[existing.len() as int] == r1);
    if r2 == r1 {
        assert(existing.push(r1).contains(r2));
    }
    if existing.contains(r2) {
        let i = choose|i: int| 0 <= i < existing.len() && existing[i] == r2;
        assert(existing.push(r1)[i] == r2);
        assert(existing.push(r1).contains(r2));
    }
}

} // verus!
