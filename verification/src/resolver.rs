//! Payload-length resolution from the group and field selectors.
//!
//! The group-selector byte says which groups are present (bit `i` = group
//! `i`, lowest 7 bits significant). Each present group then contributes one
//! big-endian 16-bit field selector, and each set field bit contributes the
//! byte width of that field, looked up in the device's fixed width table. The
//! payload length of a frame is the sum of those widths.

use vstd::prelude::*;

use crate::be16;

verus! {

/// Byte width of field slot `j` of group `g` in the device's width table.
/// A zero width means the slot is reserved; selecting it adds nothing.
/// Groups outside 0..6 and slots outside 0..16 are not in the table.
pub open spec fn vn_field_width(g: u8, j: u8) -> u8 {
    if g == 0 {
        if j == 0 { 8 } else if j == 1 { 8 } else if j == 2 { 8 } else if j == 3 { 12 } else if j == 4 { 16 } else if j == 5 { 12 } else if j == 6 { 24 } else if j == 7 { 12 } else if j == 8 { 12 } else if j == 9 { 24 } else if j == 10 { 20 } else if j == 11 { 28 } else if j == 12 { 2 } else if j == 13 { 4 } else if j == 14 { 8 } else { 0 }
    } else if g == 1 {
        if j == 0 { 8 } else if j == 1 { 8 } else if j == 2 { 8 } else if j == 3 { 2 } else if j == 4 { 8 } else if j == 5 { 8 } else if j == 6 { 8 } else if j == 7 { 4 } else { 0 }
    } else if g == 2 {
        if j == 0 { 2 } else if j == 1 { 12 } else if j == 2 { 12 } else if j == 3 { 12 } else if j == 4 { 4 } else if j == 5 { 4 } else if j == 6 { 16 } else if j == 7 { 12 } else if j == 8 { 12 } else if j == 9 { 12 } else if j == 10 { 12 } else if j == 11 { 2 } else if j == 12 { 40 } else { 0 }
    } else if g == 3 {
        if j == 0 { 8 } else if j == 1 { 8 } else if j == 2 { 2 } else if j == 3 { 1 } else if j == 4 { 1 } else if j == 5 { 24 } else if j == 6 { 24 } else if j == 7 { 12 } else if j == 8 { 12 } else if j == 9 { 12 } else if j == 10 { 4 } else if j == 11 { 4 } else if j == 12 { 32 } else { 0 }
    } else if g == 4 {
        if j == 0 { 2 } else if j == 1 { 12 } else if j == 2 { 16 } else if j == 3 { 36 } else if j == 4 { 12 } else if j == 5 { 12 } else if j == 6 { 12 } else if j == 7 { 12 } else if j == 8 { 12 } else if j == 9 { 12 } else if j == 10 { 28 } else if j == 11 { 24 } else { 0 }
    } else if g == 5 {
        if j == 0 { 2 } else if j == 1 { 24 } else if j == 2 { 24 } else if j == 3 { 12 } else if j == 4 { 12 } else if j == 5 { 12 } else if j == 6 { 12 } else if j == 7 { 12 } else if j == 8 { 12 } else if j == 9 { 4 } else if j == 10 { 4 } else if j == 11 { 68 } else if j == 12 { 64 } else { 0 }
    } else {
        0
    }
}

/// Width-table lookup, as executable code.
pub fn field_width(g: u8, j: u8) -> (w: u8)
    ensures
        w == vn_field_width(g, j),
{
    if g == 0 {
        if j == 0 { 8 } else if j == 1 { 8 } else if j == 2 { 8 } else if j == 3 { 12 } else if j == 4 { 16 } else if j == 5 { 12 } else if j == 6 { 24 } else if j == 7 { 12 } else if j == 8 { 12 } else if j == 9 { 24 } else if j == 10 { 20 } else if j == 11 { 28 } else if j == 12 { 2 } else if j == 13 { 4 } else if j == 14 { 8 } else { 0 }
    } else if g == 1 {
        if j == 0 { 8 } else if j == 1 { 8 } else if j == 2 { 8 } else if j == 3 { 2 } else if j == 4 { 8 } else if j == 5 { 8 } else if j == 6 { 8 } else if j == 7 { 4 } else { 0 }
    } else if g == 2 {
        if j == 0 { 2 } else if j == 1 { 12 } else if j == 2 { 12 } else if j == 3 { 12 } else if j == 4 { 4 } else if j == 5 { 4 } else if j == 6 { 16 } else if j == 7 { 12 } else if j == 8 { 12 } else if j == 9 { 12 } else if j == 10 { 12 } else if j == 11 { 2 } else if j == 12 { 40 } else { 0 }
    } else if g == 3 {
        if j == 0 { 8 } else if j == 1 { 8 } else if j == 2 { 2 } else if j == 3 { 1 } else if j == 4 { 1 } else if j == 5 { 24 } else if j == 6 { 24 } else if j == 7 { 12 } else if j == 8 { 12 } else if j == 9 { 12 } else if j == 10 { 4 } else if j == 11 { 4 } else if j == 12 { 32 } else { 0 }
    } else if g == 4 {
        if j == 0 { 2 } else if j == 1 { 12 } else if j == 2 { 16 } else if j == 3 { 36 } else if j == 4 { 12 } else if j == 5 { 12 } else if j == 6 { 12 } else if j == 7 { 12 } else if j == 8 { 12 } else if j == 9 { 12 } else if j == 10 { 28 } else if j == 11 { 24 } else { 0 }
    } else if g == 5 {
        if j == 0 { 2 } else if j == 1 { 24 } else if j == 2 { 24 } else if j == 3 { 12 } else if j == 4 { 12 } else if j == 5 { 12 } else if j == 6 { 12 } else if j == 7 { 12 } else if j == 8 { 12 } else if j == 9 { 4 } else if j == 10 { 4 } else if j == 11 { 68 } else if j == 12 { 64 } else { 0 }
    } else {
        0
    }
}

/// The ascending list of group indices whose bit is set among the lowest `n`
/// bits of the selector byte.
pub open spec fn group_indices_upto(sel: u8, n: int) -> Seq<u8>
    decreases n,
{
    if n <= 0 {
        Seq::empty()
    } else {
        group_indices_upto(sel, n - 1) + if (sel >> ((n - 1) as u8)) & 1 == 1 {
            seq![(n - 1) as u8]
        } else {
            Seq::empty()
        }
    }
}

/// The ascending list of group indices selected by a group-selector byte;
/// only the lowest 7 bits are significant.
pub open spec fn group_indices(sel: u8) -> Seq<u8> {
    group_indices_upto(sel, 7)
}

/// Holds when the sequence is strictly ascending.
pub open spec fn strictly_increasing(s: Seq<u8>) -> bool {
    forall|i: int, j: int| 0 <= i < j < s.len() ==> s[i] < s[j]
}

/// `group_indices_upto` lists indices below `n`, in strictly ascending order.
pub proof fn lemma_group_indices_upto_props(sel: u8, n: int)
    requires
        0 <= n <= 8,
    ensures
        forall|i: int|
            0 <= i < group_indices_upto(sel, n).len() ==> #[trigger] group_indices_upto(sel, n)[i]
                < n,
        strictly_increasing(group_indices_upto(sel, n)),
        group_indices_upto(sel, n).len() <= n,
    decreases n,
{
    if n > 0 {
        lemma_group_indices_upto_props(sel, n - 1);
    }
}

/// The selected group list is strictly ascending, holds only indices below 7,
/// and has at most 7 entries.
pub proof fn lemma_group_indices_props(sel: u8)
    ensures
        forall|i: int|
            0 <= i < group_indices(sel).len() ==> #[trigger] group_indices(sel)[i] < 7,
        strictly_increasing(group_indices(sel)),
        group_indices(sel).len() <= 7,
{
    lemma_group_indices_upto_props(sel, 7);
}

/// A strictly ascending sequence grows at least as fast as its index.
pub proof fn lemma_strictly_increasing_lower(s: Seq<u8>, i: int)
    requires
        strictly_increasing(s),
        0 <= i < s.len(),
    ensures
        s[i] >= i,
    decreases i,
{
    if i > 0 {
        lemma_strictly_increasing_lower(s, i - 1);
    }
}

/// Decodes a group-selector byte into the ascending list of selected group
/// indices; only the lowest 7 bits are significant.
pub fn get_groups(group: u8) -> (groups: Vec<u8>)
    ensures
        groups@ == group_indices(group),
{
    let mut groups: Vec<u8> = Vec::new();
    for idx in 0..7u8
        invariant
            groups@ == group_indices_upto(group, idx as int),
    {
        if ((group >> idx) & 0x1) == 1u8 {
            groups.push(idx);
        }
        proof {
            if (group >> idx) & 1 == 1 {
                assert(groups@ =~= group_indices_upto(group, idx + 1));
            } else {
                assert(groups@ =~= group_indices_upto(group, idx + 1));
            }
        }
    }
    groups
}

/// Total width contributed by the set bits of `mask` among its lowest `n`
/// bits, for group `g`.
pub open spec fn mask_len_upto(g: u8, mask: u16, n: int) -> nat
    decreases n,
{
    if n <= 0 {
        0
    } else {
        mask_len_upto(g, mask, n - 1) + if (mask >> ((n - 1) as u16)) & 1 == 1 {
            vn_field_width(g, (n - 1) as u8) as nat
        } else {
            0
        }
    }
}

/// Total width contributed by all set bits of a group's field selector.
pub open spec fn mask_len(g: u8, mask: u16) -> nat {
    mask_len_upto(g, mask, 16)
}

/// Payload length of a frame: each group in order consumes two selector
/// bytes, read big endian, and contributes the widths of its set field bits.
pub open spec fn resolved_len(groups: Seq<u8>, bytes: Seq<u8>) -> nat
    decreases groups.len(),
{
    if groups.len() == 0 {
        0
    } else {
        mask_len(groups[0], be16(bytes[0], bytes[1])) + resolved_len(groups.skip(1), bytes.skip(2))
    }
}

/// An upper bound used for overflow reasoning: the widths of at most 16 field
/// slots, each at most 255 bytes wide.
proof fn lemma_mask_len_upto_bound(g: u8, mask: u16, n: int)
    requires
        0 <= n <= 16,
    ensures
        mask_len_upto(g, mask, n) <= 255 * n,
    decreases n,
{
    if n > 0 {
        lemma_mask_len_upto_bound(g, mask, n - 1);
    }
}

/// Resolves the payload length selected by an ascending list of group
/// indices and their field-selector bytes, two per group in the same order.
/// Callers reject resolved lengths outside the supported configuration;
/// resolution itself only sums the table widths.
pub fn get_payload_length(groups: &Vec<u8>, group_bytes: &Vec<u8>) -> (len: u16)
    requires
        strictly_increasing(groups@),
        forall|i: int| 0 <= i < groups@.len() ==> groups@[i] < 6,
        group_bytes@.len() >= 2 * groups@.len(),
    ensures
        len as nat == resolved_len(groups@, group_bytes@),
{
    proof {
        if groups@.len() > 6 {
            lemma_strictly_increasing_lower(groups@, 6);
        }
    }
    let n = groups.len();
    proof {
        assert(groups@.skip(0) =~= groups@);
        assert(group_bytes@.skip(0) =~= group_bytes@);
    }
    let mut total: u16 = 0;
    for k in 0..n
        invariant
            n == groups@.len() <= 6,
            strictly_increasing(groups@),
            forall|i: int| 0 <= i < groups@.len() ==> groups@[i] < 6,
            group_bytes@.len() >= 2 * groups@.len(),
            total <= 4080 * k,
            resolved_len(groups@, group_bytes@) == total + resolved_len(
                groups@.skip(k as int),
                group_bytes@.skip(2 * k as int),
            ),
    {
        let g = groups[k];
        let hi = group_bytes[2 * k];
        let lo = group_bytes[2 * k + 1];
        let mask: u16 = ((hi as u16) << 8) | (lo as u16);
        let mut sub: u16 = 0;
        for j in 0..16u16
            invariant
                g < 6,
                sub as nat == mask_len_upto(g, mask, j as int),
                sub <= 255 * j,
        {
            if ((mask >> j) & 1) == 1 {
                let w = field_width(g, j as u8);
                sub = sub + w as u16;
            }
        }
        proof {
            let rest = groups@.skip(k as int);
            let rest_bytes = group_bytes@.skip(2 * k as int);
            assert(rest[0] == groups@[k as int]);
            assert(rest_bytes[0] == group_bytes@[2 * k as int]);
            assert(rest_bytes[1] == group_bytes@[2 * k + 1]);
            assert(rest.skip(1) =~= groups@.skip(k + 1));
            assert(rest_bytes.skip(2) =~= group_bytes@.skip(2 * (k + 1)));
            lemma_mask_len_upto_bound(g, mask, 16);
        }
        total = total + sub;
    }
    proof {
        assert(groups@.skip(n as int).len() == 0);
    }
    total
}

} // verus!
