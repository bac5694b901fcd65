//! Which skills are currently applied, as a 64-bit mask.
//!
//! From the least significant bit: one bit each for boss, self and enemy (the tag), then
//! `3 * students` bits for the students' skills, then the boss's skills (the data).
use core::ops::{BitAnd, BitOr, Deref, DerefMut};
use vstd::prelude::*;
use vstd::std_specs::bits::{u64_leading_zeros, u64_trailing_zeros};
use vstd::std_specs::ops::{BitAndSpec, BitAndSpecImpl, BitOrSpec, BitOrSpecImpl};

verus! {

broadcast use vstd::std_specs::bits::group_bits_axioms;

/// Bit `i` of `v`, counted from the least significant bit.
pub open spec fn bit(v: u64, i: u64) -> bool {
    (v >> i) & 1u64 == 1u64
}

/// Number of set bits of `v`.
pub open spec fn popcount(v: u64) -> nat
    decreases v,
{
    if v == 0 {
        0
    } else {
        (v % 2) as nat + popcount(v / 2)
    }
}

/// Which skills are currently applied.
#[derive(Debug, Clone, Copy, PartialEq, Eq, PartialOrd, Ord, Default, Hash, Structural)]
pub struct SkillsBitMask(pub u64);

impl SkillsBitMask {
    pub const BOSS_BIT: u64 = 1u64;

    pub const SELF_BIT: u64 = 2u64;

    pub const ENEMY_BIT: u64 = 4u64;

    /// Every bit but the three tag bits.
    pub const DATA_MASK: u64 = 0xffff_ffff_ffff_fff8u64;

    /// The three tag bits.
    pub const TAG_MASK: u64 = 7u64;

    pub const DATA_BITS_COUNT: u64 = 3u64;

    pub fn is_boss(&self) -> (r: bool)
        ensures
            r == bit(self.0, 0),
    {
        let v = self.0;
        assert((v & 1u64 != 0) == ((v >> 0u64) & 1u64 == 1u64)) by (bit_vector);
        (self.0 & SkillsBitMask::BOSS_BIT) != 0
    }

    pub fn is_self(&self) -> (r: bool)
        ensures
            r == bit(self.0, 1),
    {
        let v = self.0;
        assert((v & 2u64 != 0) == ((v >> 1u64) & 1u64 == 1u64)) by (bit_vector);
        (self.0 & SkillsBitMask::SELF_BIT) != 0
    }

    pub fn is_enemy(&self) -> (r: bool)
        ensures
            r == bit(self.0, 2),
    {
        let v = self.0;
        assert((v & 4u64 != 0) == ((v >> 2u64) & 1u64 == 1u64)) by (bit_vector);
        (self.0 & SkillsBitMask::ENEMY_BIT) != 0
    }

    /// The mask with its three tag bits cleared.
    pub fn data(&self) -> (r: u64)
        ensures
            r == self.0 & SkillsBitMask::DATA_MASK,
            r == self.0 - self.0 % 8,
    {
        let v = self.0;
        assert(v & 0xffff_ffff_ffff_fff8u64 == v - v % 8) by (bit_vector);
        self.0 & SkillsBitMask::DATA_MASK
    }

    pub fn mask_enermy(self) -> (r: Self)
        ensures
            r.0 == self.0 & !SkillsBitMask::ENEMY_BIT,
    {
        SkillsBitMask(self.0 & !SkillsBitMask::ENEMY_BIT)
    }

    pub fn mask_boss(self) -> (r: Self)
        ensures
            r.0 == self.0 & !SkillsBitMask::BOSS_BIT,
    {
        SkillsBitMask(self.0 & !SkillsBitMask::BOSS_BIT)
    }

    pub fn remove_flag(self, flag: SkillsBitMaskFlags) -> (r: Self)
        ensures
            r.0 == self.0 & !flag.spec_bits(),
    {
        SkillsBitMask(self.0 & !flag.bits())
    }

    /// The bits among the three tag bits that `clone_with_tag` clears.
    pub open spec fn cleared_tags(is_boss: bool, is_self: bool, is_enemy: bool) -> u64 {
        (if is_boss { 0u64 } else { 1u64 }) | (if is_self { 0u64 } else { 2u64 }) | (if is_enemy {
            0u64
        } else {
            4u64
        })
    }

    /// A copy whose tag bits are kept only where the matching argument is `true`.
    pub fn clone_with_tag(&self, is_boss: bool, is_self: bool, is_enemy: bool) -> (r: Self)
        ensures
            r.0 == self.0 & !Self::cleared_tags(is_boss, is_self, is_enemy),
    {
        let mut mask = *self;
        let b: u64 = if is_boss { 1 } else { 0 };
        let s: u64 = if is_self { 1 } else { 0 };
        let e: u64 = if is_enemy { 1 } else { 0 };
        let v = mask.0;
        let mb = (0u64).wrapping_sub(b);
        let ms = (0u64).wrapping_sub(s);
        let me = (0u64).wrapping_sub(e);
        let r = v & (mb | !SkillsBitMask::BOSS_BIT) & (ms | !SkillsBitMask::SELF_BIT) & (me
            | !SkillsBitMask::ENEMY_BIT);
        let ghost c = Self::cleared_tags(is_boss, is_self, is_enemy);
        assert(r == v & !c) by (bit_vector)
            requires
                b <= 1,
                s <= 1,
                e <= 1,
                mb == (if b == 1 { 0xffff_ffff_ffff_ffffu64 } else { 0u64 }),
                ms == (if s == 1 { 0xffff_ffff_ffff_ffffu64 } else { 0u64 }),
                me == (if e == 1 { 0xffff_ffff_ffff_ffffu64 } else { 0u64 }),
                r == v & (mb | !1u64) & (ms | !2u64) & (me | !4u64),
                c == (if b == 1 { 0u64 } else { 1u64 }) | (if s == 1 { 0u64 } else { 2u64 }) | (
                if e == 1 {
                    0u64
                } else {
                    4u64
                }),
        ;
        mask.0 = r;
        mask
    }

    /// `self | rhs` as an operator would compute it: data bits of `rhs` only.
    pub fn bitor_assign(&mut self, rhs: u64)
        ensures
            final(self).0 == old(self).0 | (rhs & SkillsBitMask::DATA_MASK),
    {
        self.0 = self.0 | (rhs & SkillsBitMask::DATA_MASK);
    }

    /// `self & rhs` as an operator would compute it: the tag bits are never cleared.
    pub fn bitand_assign(&mut self, rhs: u64)
        ensures
            final(self).0 == old(self).0 & (rhs | SkillsBitMask::TAG_MASK),
    {
        self.0 = self.0 & (rhs | SkillsBitMask::TAG_MASK);
    }

    /// The applied skills, lowest bit first.
    pub fn iter(&self) -> (r: SkillsBitMaskIter)
        ensures
            r.0 == self.0,
    {
        SkillsBitMaskIter(self.0)
    }
}

impl From<u64> for SkillsBitMask {
    fn from(value: u64) -> (r: Self) {
        SkillsBitMask(value)
    }
}

impl vstd::std_specs::convert::FromSpecImpl<u64> for SkillsBitMask {
    open spec fn obeys_from_spec() -> bool {
        true
    }

    open spec fn from_spec(v: u64) -> Self {
        SkillsBitMask(v)
    }
}

impl BitOr<u64> for SkillsBitMask {
    type Output = Self;

    fn bitor(self, rhs: u64) -> (r: Self::Output) {
        SkillsBitMask(self.0 | (rhs & SkillsBitMask::DATA_MASK))
    }
}

impl BitOrSpecImpl<u64> for SkillsBitMask {
    open spec fn obeys_bitor_spec() -> bool {
        true
    }

    open spec fn bitor_req(self, rhs: u64) -> bool {
        true
    }

    open spec fn bitor_spec(self, rhs: u64) -> Self {
        SkillsBitMask(self.0 | (rhs & SkillsBitMask::DATA_MASK))
    }
}

impl BitAnd<u64> for SkillsBitMask {
    type Output = Self;

    fn bitand(self, rhs: u64) -> (r: Self::Output) {
        SkillsBitMask(self.0 & (rhs | SkillsBitMask::TAG_MASK))
    }
}

impl BitAndSpecImpl<u64> for SkillsBitMask {
    open spec fn obeys_bitand_spec() -> bool {
        true
    }

    open spec fn bitand_req(self, rhs: u64) -> bool {
        true
    }

    open spec fn bitand_spec(self, rhs: u64) -> Self {
        SkillsBitMask(self.0 & (rhs | SkillsBitMask::TAG_MASK))
    }
}

impl Deref for SkillsBitMask {
    type Target = u64;

    fn deref(&self) -> (r: &Self::Target)
        ensures
            *r == self.0,
    {
        &self.0
    }
}

impl DerefMut for SkillsBitMask {
    fn deref_mut(&mut self) -> (r: &mut Self::Target)
        ensures
            *r == old(self).0,
            final(self).0 == *final(r),
    {
        &mut self.0
    }
}

/// One applied skill: a mask with exactly one bit set.
#[derive(Clone, Copy, PartialEq, Eq, PartialOrd, Ord, Hash, Debug, Structural)]
pub struct SkillsBitMaskItem(pub u64);

impl SkillsBitMaskItem {
    pub fn from_index(pos: u32) -> (r: Self)
        requires
            pos < 64,
        ensures
            r.0 == 1u64 << pos,
    {
        SkillsBitMaskItem(1u64 << pos)
    }

    /// The inner mask as it is.
    pub fn mask(self) -> (r: u64)
        ensures
            r == self.0,
    {
        self.0
    }

    /// The position of the lowest set bit, 64 for an empty mask.
    pub fn index(self) -> (r: u32)
        ensures
            r == u64_trailing_zeros(self.0),
    {
        self.0.trailing_zeros()
    }
}

/// Walks the set bits of a mask.
pub struct SkillsBitMaskIter(pub u64);

impl SkillsBitMaskIter {
    /// The lowest remaining bit, removed from the iterator.
    pub fn next(&mut self) -> (r: Option<SkillsBitMaskItem>)
        ensures
            old(self).0 == 0 ==> r is None && final(self).0 == 0,
            old(self).0 != 0 ==> r == Some(
                SkillsBitMaskItem(1u64 << u64_trailing_zeros(old(self).0)),
            ) && final(self).0 == old(self).0 - (1u64 << u64_trailing_zeros(old(self).0)),
            old(self).0 != 0 ==> forward_items(old(self).0) == seq![(r->0).0] + forward_items(final(self).0),
    {
        if self.0 == 0 {
            return None;
        }
        let v = self.0;
        assert(!v < 0xffff_ffff_ffff_ffffu64) by (bit_vector)
            requires
                v != 0,
        ;
        let lowest = v & (!v + 1);
        proof {
            lemma_lowest_bit(v);
        }
        self.0 = v & (v - 1);
        Some(SkillsBitMaskItem(lowest))
    }

    /// The highest remaining bit, removed from the iterator.
    pub fn next_back(&mut self) -> (r: Option<SkillsBitMaskItem>)
        ensures
            old(self).0 == 0 ==> r is None && final(self).0 == 0,
            old(self).0 != 0 ==> r == Some(
                SkillsBitMaskItem(1u64 << (63 - u64_leading_zeros(old(self).0)) as u64),
            ) && final(self).0 == old(self).0 - (1u64 << (63 - u64_leading_zeros(old(self).0)) as u64),
            old(self).0 != 0 ==> backward_items(old(self).0) == seq![(r->0).0] + backward_items(final(self).0),
    {
        if self.0 == 0 {
            return None;
        }
        let v = self.0;
        let lz = v.leading_zeros();
        let t: u32 = 63 - lz;
        let highest = 1u64 << t;
        proof {
            lemma_highest_bit(v);
        }
        self.0 = v ^ highest;
        Some(SkillsBitMaskItem(highest))
    }

    /// Exactly the number of bits left.
    pub fn size_hint(&self) -> (r: (usize, Option<usize>))
        ensures
            r.0 == popcount(self.0),
            r.1 == Some(r.0),
    {
        let v = self.0;
        let mut x = v;
        let mut n: usize = 0;
        let mut i: u64 = 0;
        assert(v == v >> 0u64) by (bit_vector);
        while x != 0
            invariant
                n + popcount(x) == popcount(v),
                i <= 64,
                n <= i,
                x == v >> i,
            decreases x,
        {
            assert(x != 0 ==> i < 64) by (bit_vector)
                requires
                    x == v >> i,
            ;
            assert(x / 2 == x >> 1u64) by (bit_vector);
            assert(x & 1 == x % 2) by (bit_vector);
            assert((v >> i) >> 1u64 == v >> ((i + 1) as u64)) by (bit_vector)
                requires
                    i < 64,
            ;
            n = n + (x & 1) as usize;
            x = x >> 1;
            i = i + 1;
        }
        (n, Some(n))
    }
}

/// `v & -v` isolates the lowest set bit, and `v & (v - 1)` clears it.
pub proof fn lemma_lowest_bit(v: u64)
    requires
        v != 0,
    ensures
        u64_trailing_zeros(v) < 64,
        bit(v, u64_trailing_zeros(v) as u64),
        v & ((!v + 1) as u64) == 1u64 << u64_trailing_zeros(v),
        v & ((v - 1) as u64) == v - (1u64 << u64_trailing_zeros(v)),
        forall|j: u64| j < u64_trailing_zeros(v) ==> !bit(v, j),
{
    let t = u64_trailing_zeros(v) as u64;
    assert(t < 64);
    assert(v << ((64 - t) as u64) == 0);
    assert((v >> t) & 1u64 == 1u64);
    assert(v & ((!v + 1) as u64) == 1u64 << t) by (bit_vector)
        requires
            t < 64,
            v << ((64 - t) as u64) == 0,
            (v >> t) & 1u64 == 1u64,
    ;
    assert(v & ((v - 1) as u64) == v - (1u64 << t)) by (bit_vector)
        requires
            t < 64,
            v << ((64 - t) as u64) == 0,
            (v >> t) & 1u64 == 1u64,
    ;
}

/// The bit `63 - leading_zeros(v)` is the highest set bit of `v`.
pub proof fn lemma_highest_bit(v: u64)
    requires
        v != 0,
    ensures
        0 <= u64_leading_zeros(v) < 64,
        bit(v, (63 - u64_leading_zeros(v)) as u64),
        v ^ (1u64 << (63 - u64_leading_zeros(v)) as u64) == v - (1u64 << (63
            - u64_leading_zeros(v)) as u64),
        forall|j: u64| 63 - u64_leading_zeros(v) < j < 64 ==> !bit(v, j),
{
    let t = (63 - u64_leading_zeros(v)) as u64;
    assert(t < 64);
    assert((v >> t) & 1u64 != 0u64);
    assert(v >> ((t + 1) as u64) == 0);
    assert(v ^ (1u64 << t) == v - (1u64 << t)) by (bit_vector)
        requires
            t < 64,
            (v >> t) & 1u64 != 0u64,
    ;
    assert((v >> t) & 1u64 == 1u64) by (bit_vector)
        requires
            (v >> t) & 1u64 != 0u64,
    ;
}

/// Setting bit `p` and asking for the lowest set bit gives `p` back.
pub proof fn lemma_item_index_roundtrip(p: u64)
    requires
        p < 64,
    ensures
        u64_trailing_zeros(1u64 << p) == p,
        bit(1u64 << p, p),
{
    let v = 1u64 << p;
    assert(v != 0) by (bit_vector)
        requires
            p < 64,
            v == 1u64 << p,
    ;
    let t = u64_trailing_zeros(v) as u64;
    assert(t < 64);
    assert((v >> t) & 1u64 == 1u64);
    assert(t == p) by (bit_vector)
        requires
            p < 64,
            t < 64,
            v == 1u64 << p,
            (v >> t) & 1u64 == 1u64,
    ;
    assert((v >> p) & 1u64 == 1u64) by (bit_vector)
        requires
            p < 64,
            v == 1u64 << p,
    ;
}

/// Clearing the lowest set bit lowers the bit count by exactly one, so an iterator over a
/// mask yields exactly `popcount` items.
pub proof fn lemma_popcount_clear_lowest(v: u64)
    requires
        v != 0,
    ensures
        popcount(v & ((v - 1) as u64)) + 1 == popcount(v),
    decreases v,
{
    let u = v & ((v - 1) as u64);
    assert(v / 2 == v >> 1u64) by (bit_vector);
    if v % 2 == 1 {
        assert(u == v - 1) by (bit_vector)
            requires
                v % 2 == 1,
                u == v & ((v - 1) as u64),
        ;
        assert((v - 1) as u64 / 2 == v / 2);
        assert(popcount(v) == 1 + popcount(v / 2));
        if v - 1 != 0 {
            assert(popcount((v - 1) as u64) == popcount(((v - 1) as u64) / 2));
        }
    } else {
        let w = v / 2;
        assert(w != 0);
        let uw = w & ((w - 1) as u64);
        assert(u % 2 == 0 && u / 2 == uw) by (bit_vector)
            requires
                v % 2 == 0,
                v != 0,
                w == v >> 1u64,
                u == v & ((v - 1) as u64),
                uw == w & ((w - 1) as u64),
        ;
        lemma_popcount_clear_lowest(w);
        assert(popcount(v) == popcount(w));
        if u != 0 {
            assert(popcount(u) == popcount(u / 2));
        } else {
            assert(uw == 0);
        }
    }
}

/// The lowest set bit of `v`, as a mask: what `next` hands out.
pub open spec fn lowest_bit(v: u64) -> u64 {
    1u64 << u64_trailing_zeros(v)
}

/// The highest set bit of `v`, as a mask: what `next_back` hands out.
pub open spec fn highest_bit(v: u64) -> u64 {
    1u64 << (63 - u64_leading_zeros(v)) as u64
}

/// A set bit of `v`, as a mask, is at most `v` and is not zero, and taking it away clears it.
pub proof fn lemma_set_bit_fits(v: u64, t: u64)
    requires
        t < 64,
        bit(v, t),
    ensures
        0 < 1u64 << t <= v,
        v - (1u64 << t) == v ^ (1u64 << t),
{
    assert(0 < 1u64 << t <= v && v - (1u64 << t) == v ^ (1u64 << t)) by (bit_vector)
        requires
            t < 64,
            (v >> t) & 1u64 == 1u64,
    ;
}

/// The masks that calling `next` on an iterator over `v` hands out, one by one until the
/// iterator is empty.
pub open spec fn forward_items(v: u64) -> Seq<u64>
    decreases v,
{
    if v == 0 {
        Seq::empty()
    } else {
        proof {
            lemma_lowest_bit(v);
            lemma_set_bit_fits(v, u64_trailing_zeros(v) as u64);
        }
        seq![lowest_bit(v)] + forward_items((v - lowest_bit(v)) as u64)
    }
}

/// The masks that calling `next_back` on an iterator over `v` hands out, one by one until the
/// iterator is empty.
pub open spec fn backward_items(v: u64) -> Seq<u64>
    decreases v,
{
    if v == 0 {
        Seq::empty()
    } else {
        proof {
            lemma_highest_bit(v);
            lemma_set_bit_fits(v, (63 - u64_leading_zeros(v)) as u64);
        }
        seq![highest_bit(v)] + backward_items((v - highest_bit(v)) as u64)
    }
}

/// The union of the masks of `s`.
pub open spec fn union_of(s: Seq<u64>) -> u64
    decreases s.len(),
{
    if s.len() == 0 {
        0
    } else {
        s[0] | union_of(s.drop_first())
    }
}

/// `s` holds single bits, each set in `v`.
pub open spec fn single_bits_of(s: Seq<u64>, v: u64) -> bool {
    forall|k: int|
        0 <= k < s.len() ==> {
            &&& u64_trailing_zeros(#[trigger] s[k]) < 64
            &&& s[k] == 1u64 << u64_trailing_zeros(s[k])
            &&& bit(v, u64_trailing_zeros(s[k]) as u64)
        }
}

/// Clearing a set bit `t` keeps every other bit and clears only that one.
proof fn lemma_clear_bit(v: u64, t: u64, j: u64)
    requires
        t < 64,
        j < 64,
        bit(v, t),
    ensures
        bit((v - (1u64 << t)) as u64, j) == (bit(v, j) && j != t),
{
    lemma_set_bit_fits(v, t);
    let w = v ^ (1u64 << t);
    assert((((w >> j) & 1u64) == 1u64) == (((v >> j) & 1u64) == 1u64 && j != t)) by (bit_vector)
        requires
            t < 64,
            j < 64,
            (v >> t) & 1u64 == 1u64,
            w == v ^ (1u64 << t),
    ;
}

/// A single bit: `1 << p` has `p` trailing zeros, one set bit, and its order is that of `p`.
proof fn lemma_single_bit(p: u64)
    requires
        p < 64,
    ensures
        u64_trailing_zeros(1u64 << p) == p,
        popcount(1u64 << p) == 1,
        forall|q: u64| q < 64 ==> (p < q <==> #[trigger] (1u64 << q) > 1u64 << p),
    decreases p,
{
    lemma_item_index_roundtrip(p);
    assert forall|q: u64| q < 64 implies (p < q <==> #[trigger] (1u64 << q) > 1u64 << p) by {
        assert((p < q) == ((1u64 << q) > (1u64 << p))) by (bit_vector)
            requires
                p < 64,
                q < 64,
        ;
    }
    let x = 1u64 << p;
    if p == 0 {
        assert(x == 1) by (bit_vector)
            requires
                x == 1u64 << p,
                p == 0,
        ;
        assert(popcount(1) == (1u64 % 2) as nat + popcount(0));
    } else {
        lemma_single_bit((p - 1) as u64);
        let y = 1u64 << (p - 1) as u64;
        assert(x % 2 == 0 && x / 2 == y && x != 0) by (bit_vector)
            requires
                0 < p < 64,
                x == 1u64 << p,
                y == 1u64 << ((p - 1) as u64),
        ;
    }
}

/// Iterating a mask forward hands out each of its set bits once, lowest first: as many masks
/// as the mask has bits, each a single bit of the mask, in increasing order, together making
/// up the whole mask.
pub proof fn lemma_forward_iteration(v: u64)
    ensures
        forward_items(v).len() == popcount(v),
        single_bits_of(forward_items(v), v),
        forall|k: int| 0 <= k < forward_items(v).len() ==> popcount(#[trigger] forward_items(v)[k]) == 1,
        forall|i: int, j: int|
            0 <= i < j < forward_items(v).len() ==> #[trigger] forward_items(v)[i] < #[trigger] forward_items(v)[j]
                && u64_trailing_zeros(forward_items(v)[i]) < u64_trailing_zeros(forward_items(v)[j]),
        forall|p: u64| p < 64 && bit(v, p) ==> forward_items(v).contains(#[trigger] (1u64 << p)),
        union_of(forward_items(v)) == v,
    decreases v,
{
    let items = forward_items(v);
    if v == 0 {
        assert(popcount(0) == 0);
        assert forall|p: u64| p < 64 && bit(v, p) implies items.contains(#[trigger] (1u64 << p)) by {
            assert(((0u64 >> p) & 1u64) == 0u64) by (bit_vector);
        }
    } else {
        lemma_lowest_bit(v);
        let t = u64_trailing_zeros(v) as u64;
        let lo = lowest_bit(v);
        lemma_set_bit_fits(v, t);
        let rest = (v - lo) as u64;
        lemma_forward_iteration(rest);
        lemma_popcount_clear_lowest(v);
        lemma_single_bit(t);
        let tail = forward_items(rest);
        assert(items == seq![lo] + tail);
        assert forall|k: int| 0 <= k < tail.len() implies bit(v, u64_trailing_zeros(#[trigger] tail[k]) as u64)
            && u64_trailing_zeros(tail[k]) > t by {
            let p = u64_trailing_zeros(tail[k]) as u64;
            lemma_clear_bit(v, t, p);
        }
        assert forall|k: int| 0 <= k < items.len() implies popcount(#[trigger] items[k]) == 1 by {
            if k > 0 {
                assert(items[k] == tail[k - 1]);
            }
        }
        assert forall|i: int, j: int| 0 <= i < j < items.len() implies #[trigger] items[i] < #[trigger] items[j]
            && u64_trailing_zeros(items[i]) < u64_trailing_zeros(items[j]) by {
            assert(items[j] == tail[j - 1]);
            let q = u64_trailing_zeros(tail[j - 1]) as u64;
            lemma_single_bit(q);
            if i > 0 {
                assert(items[i] == tail[i - 1]);
            } else {
                assert(tail[j - 1] == 1u64 << q);
            }
        }
        assert forall|p: u64| p < 64 && bit(v, p) implies items.contains(#[trigger] (1u64 << p)) by {
            if p == t {
                assert(items[0] == 1u64 << p);
            } else {
                lemma_clear_bit(v, t, p);
                let k = choose|k: int| 0 <= k < tail.len() && tail[k] == 1u64 << p;
                assert(items[k + 1] == 1u64 << p);
            }
        }
        assert(items.drop_first() == tail);
        assert(lo | rest == v) by (bit_vector)
            requires
                t < 64,
                lo == 1u64 << t,
                (v >> t) & 1u64 == 1u64,
                rest == v - lo,
        ;
    }
}

/// Iterating a mask backward hands out the same masks as iterating it forward, in the
/// opposite order: highest first.
pub proof fn lemma_backward_is_reversed(v: u64)
    ensures
        backward_items(v) == forward_items(v).reverse(),
    decreases v,
{
    if v != 0 {
        lemma_highest_bit(v);
        let h = (63 - u64_leading_zeros(v)) as u64;
        lemma_set_bit_fits(v, h);
        let rest = (v - highest_bit(v)) as u64;
        lemma_backward_is_reversed(rest);
        lemma_forward_ends_with_highest(v);
        assert(backward_items(v) =~= forward_items(v).reverse());
    }
}

/// The last mask that iterating forward hands out is the highest bit, and before it come the
/// masks of the rest.
proof fn lemma_forward_ends_with_highest(v: u64)
    requires
        v != 0,
    ensures
        forward_items(v) == forward_items((v - highest_bit(v)) as u64).push(highest_bit(v)),
    decreases v,
{
    lemma_lowest_bit(v);
    lemma_highest_bit(v);
    let t = u64_trailing_zeros(v) as u64;
    let h = (63 - u64_leading_zeros(v)) as u64;
    lemma_set_bit_fits(v, t);
    lemma_set_bit_fits(v, h);
    let lo = lowest_bit(v);
    let hi = highest_bit(v);
    let rest = (v - lo) as u64;
    let top = (v - hi) as u64;
    if t == h {
        assert(rest == 0) by {
            if rest != 0 {
                lemma_lowest_bit(rest);
                let k = u64_trailing_zeros(rest) as u64;
                lemma_clear_bit(v, t, k);
            }
        }
        assert(forward_items(v) =~= forward_items(top).push(hi));
    } else {
        assert(t < h);
        lemma_clear_bit(v, t, h);
        lemma_clear_bit(v, h, t);
        assert(rest != 0) by {
            assert(((rest >> h) & 1u64 == 1u64) ==> rest != 0) by (bit_vector);
        }
        assert(top != 0) by {
            assert(((top >> t) & 1u64 == 1u64) ==> top != 0) by (bit_vector);
        }
        // The rest keeps the highest bit, and the top keeps the lowest.
        lemma_highest_bit(rest);
        lemma_lowest_bit(top);
        let h2 = (63 - u64_leading_zeros(rest)) as u64;
        let t2 = u64_trailing_zeros(top) as u64;
        lemma_clear_bit(v, t, h2);
        lemma_clear_bit(v, h, t2);
        assert(h2 == h);
        assert(t2 == t);
        lemma_forward_ends_with_highest(rest);
        assert((rest - hi) as u64 == (top - lo) as u64);
        assert(forward_items(top) == seq![lo] + forward_items((top - lo) as u64));
        assert(forward_items(v) =~= forward_items(top).push(hi));
    }
}

/// The data bits and the tag bits split a mask exactly.
pub proof fn lemma_data_tag_partition(m: SkillsBitMask)
    ensures
        (m.0 & SkillsBitMask::DATA_MASK) | (m.0 & SkillsBitMask::TAG_MASK) == m.0,
        (m.0 & SkillsBitMask::DATA_MASK) & (m.0 & SkillsBitMask::TAG_MASK) == 0,
{
    let v = m.0;
    assert((v & 0xffff_ffff_ffff_fff8u64) | (v & 7u64) == v) by (bit_vector);
    assert((v & 0xffff_ffff_ffff_fff8u64) & (v & 7u64) == 0) by (bit_vector);
}

/// `|` adds data bits only: the tag bits stay as they were.
pub proof fn lemma_bitor_keeps_tags(m: SkillsBitMask, rhs: u64)
    ensures
        BitOrSpec::bitor_spec(m, rhs).0 & SkillsBitMask::TAG_MASK == m.0 & SkillsBitMask::TAG_MASK,
        BitOrSpec::bitor_spec(m, rhs).0 & SkillsBitMask::DATA_MASK == (m.0 | rhs) & SkillsBitMask::DATA_MASK,
{
    let v = m.0;
    let r = BitOrSpec::bitor_spec(m, rhs).0;
    assert(r == v | (rhs & 0xffff_ffff_ffff_fff8u64));
    assert(r & 7u64 == v & 7u64) by (bit_vector)
        requires
            r == v | (rhs & 0xffff_ffff_ffff_fff8u64),
    ;
    assert(r & 0xffff_ffff_ffff_fff8u64 == (v | rhs) & 0xffff_ffff_ffff_fff8u64) by (bit_vector)
        requires
            r == v | (rhs & 0xffff_ffff_ffff_fff8u64),
    ;
}

/// `&` removes data bits only: the tag bits stay as they were.
pub proof fn lemma_bitand_keeps_tags(m: SkillsBitMask, rhs: u64)
    ensures
        BitAndSpec::bitand_spec(m, rhs).0 & SkillsBitMask::TAG_MASK == m.0 & SkillsBitMask::TAG_MASK,
        BitAndSpec::bitand_spec(m, rhs).0 & SkillsBitMask::DATA_MASK == (m.0 & rhs) & SkillsBitMask::DATA_MASK,
{
    let v = m.0;
    let r = BitAndSpec::bitand_spec(m, rhs).0;
    assert(r == v & (rhs | 7u64));
    assert(r & 7u64 == v & 7u64) by (bit_vector)
        requires
            r == v & (rhs | 7u64),
    ;
    assert(r & 0xffff_ffff_ffff_fff8u64 == (v & rhs) & 0xffff_ffff_ffff_fff8u64) by (bit_vector)
        requires
            r == v & (rhs | 7u64),
    ;
}

/// Retagging keeps the data bits and keeps each tag bit only where it is asked for.
pub proof fn lemma_clone_with_tag_meaning(
    m: SkillsBitMask,
    is_boss: bool,
    is_self: bool,
    is_enemy: bool,
)
    ensures
        ({
            let r = m.0 & !SkillsBitMask::cleared_tags(is_boss, is_self, is_enemy);
            &&& r & SkillsBitMask::DATA_MASK == m.0 & SkillsBitMask::DATA_MASK
            &&& bit(r, 0) == (bit(m.0, 0) && is_boss)
            &&& bit(r, 1) == (bit(m.0, 1) && is_self)
            &&& bit(r, 2) == (bit(m.0, 2) && is_enemy)
        }),
{
    let v = m.0;
    let c = SkillsBitMask::cleared_tags(is_boss, is_self, is_enemy);
    let r = v & !c;
    let b: u64 = if is_boss { 1 } else { 0 };
    let s: u64 = if is_self { 1 } else { 0 };
    let e: u64 = if is_enemy { 1 } else { 0 };
    assert(r & 0xffff_ffff_ffff_fff8u64 == v & 0xffff_ffff_ffff_fff8u64 && ((r >> 0u64) & 1u64
        == 1u64) == (((v >> 0u64) & 1u64 == 1u64) && b == 1) && ((r >> 1u64) & 1u64 == 1u64) == ((
    (v >> 1u64) & 1u64 == 1u64) && s == 1) && ((r >> 2u64) & 1u64 == 1u64) == (((v >> 2u64)
        & 1u64 == 1u64) && e == 1)) by (bit_vector)
        requires
            b <= 1,
            s <= 1,
            e <= 1,
            c == (if b == 1 { 0u64 } else { 1u64 }) | (if s == 1 { 0u64 } else { 2u64 }) | (if e
                == 1 {
                0u64
            } else {
                4u64
            }),
            r == v & !c,
    ;
}

/// Kinds of tag bit that `remove_flag` takes.
#[derive(Debug, Clone, Copy, PartialEq, Eq, Structural)]
pub enum SkillsBitMaskFlags {
    BossBit,
    SelfBit,
    EnemyBit,
}

impl SkillsBitMaskFlags {
    pub open spec fn spec_bits(self) -> u64 {
        match self {
            SkillsBitMaskFlags::BossBit => SkillsBitMask::BOSS_BIT,
            SkillsBitMaskFlags::SelfBit => SkillsBitMask::SELF_BIT,
            SkillsBitMaskFlags::EnemyBit => SkillsBitMask::ENEMY_BIT,
        }
    }

    /// The tag bit this flag stands for.
    pub fn bits(self) -> (r: u64)
        ensures
            r == self.spec_bits(),
    {
        match self {
            SkillsBitMaskFlags::BossBit => SkillsBitMask::BOSS_BIT,
            SkillsBitMaskFlags::SelfBit => SkillsBitMask::SELF_BIT,
            SkillsBitMaskFlags::EnemyBit => SkillsBitMask::ENEMY_BIT,
        }
    }
}

} // verus!
