//! Relays and contacts as named GPIO lines.
//!
//! Line names are one-based: `relay1` is the terminal labelled 1 on the back of
//! the box. Everything inside counts from zero.
use crate::num::{dec, dec_string};
use crate::text::cat2;
use vstd::prelude::*;
use vstd::string::*;

verus! {

/// The chip the kernel driver registers, for diagnostics only. It is not how the
/// lines are found.
pub const CHIP_LABEL: &'static str = "ohc-iomcu";

pub open spec fn relay_name(index: nat) -> Seq<char> {
    "relay"@ + dec(index + 1)
}

pub open spec fn contact_name(index: nat) -> Seq<char> {
    "contact"@ + dec(index + 1)
}

pub fn relay_line(index: u8) -> (r: String)
    ensures
        r@ == relay_name(index as nat),
{
    cat2("relay", dec_string(index as u64 + 1).as_str())
}

pub fn contact_line(index: u8) -> (r: String)
    ensures
        r@ == contact_name(index as nat),
{
    cat2("contact", dec_string(index as u64 + 1).as_str())
}

/// Bit `i` of a mask.
pub open spec fn bit(mask: u32, i: int) -> bool {
    (mask >> (i as u32)) & 1 == 1
}

/// A bitmask that has bit N set where contact N is closed, and no other.
pub open spec fn mask_of(mask: u32, closed: Seq<bool>) -> bool {
    &&& forall|i: int| 0 <= i < closed.len() ==> #[trigger] bit(mask, i) == closed[i]
    &&& forall|i: int| closed.len() <= i < 32 ==> !#[trigger] bit(mask, i)
}

/// What the reads of a row of lines come to: every state, or the first failure.
pub open spec fn all_read(reads: Seq<Result<bool, String>>) -> Result<Seq<bool>, Seq<char>>
    decreases reads.len(),
{
    if reads.len() == 0 {
        Ok(seq![])
    } else {
        match all_read(reads.drop_last()) {
            Err(e) => Err(e),
            Ok(closed) => match reads.last() {
                Ok(b) => Ok(closed.push(b)),
                Err(e) => Err(e@),
            },
        }
    }
}

proof fn lemma_first_failure(reads: Seq<Result<bool, String>>, n: int)
    requires
        0 <= n <= reads.len(),
        all_read(reads.take(n)) is Err,
    ensures
        all_read(reads) == all_read(reads.take(n)),
    decreases reads.len(),
{
    if n < reads.len() {
        assert(reads.drop_last().take(n) =~= reads.take(n));
        lemma_first_failure(reads.drop_last(), n);
    } else {
        assert(reads.take(n) =~= reads);
    }
}

/// The states of a row of lines, from their reads in order. One read that failed
/// makes the whole a failure, and the first decides which.
pub fn read_all(reads: &Vec<Result<bool, String>>) -> (r: Result<Vec<bool>, String>)
    ensures
        match all_read(reads@) {
            Ok(on) => r is Ok && r->Ok_0@ == on && on.len() == reads@.len(),
            Err(e) => r is Err && r->Err_0@ == e,
        },
        r is Ok <==> forall|i: int| 0 <= i < reads@.len() ==> #[trigger] reads@[i] is Ok,
{
    let mut on: Vec<bool> = Vec::new();
    let mut i: usize = 0;
    assert(reads@.take(0) =~= seq![]);
    while i < reads.len()
        invariant
            i <= reads@.len(),
            on@.len() == i,
            all_read(reads@.take(i as int)) == Ok::<Seq<bool>, Seq<char>>(on@),
            forall|k: int| 0 <= k < i ==> #[trigger] reads@[k] is Ok,
        decreases reads@.len() - i,
    {
        assert(reads@.take(i + 1).drop_last() =~= reads@.take(i as int));
        match &reads[i] {
            Ok(b) => on.push(*b),
            Err(e) => {
                proof {
                    lemma_first_failure(reads@, i + 1);
                }
                assert(reads@[i as int] is Err);
                return Err(e.clone());
            },
        }
        i += 1;
    }
    assert(reads@.take(i as int) =~= reads@);
    Ok(on)
}

/// The level that toggles a relay, from the read of its line: the other one. A read
/// that failed drives nothing.
pub fn relay_toggle(read: Result<bool, String>) -> (r: Result<bool, String>)
    ensures
        match read {
            Ok(now) => r is Ok && r->Ok_0 == !now,
            Err(e) => r is Err && r->Err_0@ == e@,
        },
{
    match read {
        Ok(now) => Ok(!now),
        Err(e) => Err(e),
    }
}

/// Every contact as a bitmask, from the reads of their lines in order: bit N is
/// contact N, set when it is closed. One read that failed makes the whole a failure,
/// and the first decides which. A mask has room for 32.
pub fn contacts_mask(reads: &Vec<Result<bool, String>>) -> (r: Result<u32, String>)
    requires
        reads@.len() <= 32,
    ensures
        match all_read(reads@) {
            Ok(closed) => r is Ok && mask_of(r->Ok_0, closed),
            Err(e) => r is Err && r->Err_0@ == e,
        },
        r is Ok <==> forall|i: int| 0 <= i < reads@.len() ==> #[trigger] reads@[i] is Ok,
{
    match read_all(reads) {
        Ok(closed) => Ok(to_mask(&closed)),
        Err(e) => Err(e),
    }
}

fn to_mask(closed: &Vec<bool>) -> (r: u32)
    requires
        closed@.len() <= 32,
    ensures
        mask_of(r, closed@),
{
    let mut mask: u32 = 0;
    let mut i: usize = 0;
    assert forall|k: int| 0 <= k < 32 implies !#[trigger] bit(mask, k) by {
        let s = k as u32;
        assert((0u32 >> s) & 1 == 0) by (bit_vector)
            requires
                s < 32,
        ;
    }
    while i < closed.len()
        invariant
            i <= closed@.len() <= 32,
            forall|k: int| 0 <= k < i ==> #[trigger] bit(mask, k) == closed@[k],
            forall|k: int| i <= k < 32 ==> !#[trigger] bit(mask, k),
        decreases closed@.len() - i,
    {
        if closed[i] {
            let n: u32 = i as u32;
            let next: u32 = mask | (1u32 << n);
            assert forall|k: int| 0 <= k < 32 implies #[trigger] bit(next, k) == (bit(mask, k) || k == i) by {
                let s = k as u32;
                assert((((mask | (1u32 << n)) >> s) & 1 == 1) == ((mask >> s) & 1 == 1 || s == n)) by (bit_vector)
                    requires
                        s < 32,
                        n < 32,
                ;
            }
            mask = next;
        }
        i += 1;
    }
    mask
}

/// Which contacts of a board are closed, from its mask.
pub fn closed(mask: u32, count: u8) -> (r: Vec<bool>)
    requires
        count <= 32,
    ensures
        r@.len() == count,
        forall|i: int| 0 <= i < count ==> #[trigger] r@[i] == bit(mask, i),
{
    let mut out: Vec<bool> = Vec::new();
    let mut i: u8 = 0;
    while i < count
        invariant
            i <= count <= 32,
            out@.len() == i,
            forall|k: int| 0 <= k < i ==> #[trigger] out@[k] == bit(mask, k),
        decreases count - i,
    {
        let n: u32 = i as u32;
        out.push((mask >> n) & 1 == 1);
        i += 1;
    }
    out
}

} // verus!
