//! Bitboard for the 13x13 board (169 squares).
//!
//! A `u128` and a `u64` give 192 bits, of which 169 are used:
//! squares 0-127 are the bits of `lo`, squares 128-168 the bits 0-40 of `hi`.
use vstd::prelude::*;
use vstd::string::StringExecFns;
use crate::types::{Square, Side, SQUARES, RIVER_RANK, FILES, RANKS, rank_of, file_of, own_side_rank, bank_rank, palace_square, promotion_rank};

verus! {

/// Bit `i` of `x` is set.
pub open spec fn bit128(x: u128, i: int) -> bool {
    0 <= i < 128 && (x >> (i as u128)) & 1u128 == 1u128
}

/// Bit `i` of `x` is set.
pub open spec fn bit64(x: u64, i: int) -> bool {
    0 <= i < 64 && (x >> (i as u64)) & 1u64 == 1u64
}

/// The valid bits of `hi`: squares 128-168, 41 bits.
pub const HI_MASK: u64 = 0x1FF_FFFF_FFFF;

/// A set of squares, as two words: 128 + 64 bits.
#[derive(Clone, Copy, PartialEq, Eq, Default, Debug, Structural)]
pub struct Bitboard {
    pub lo: u128,
    pub hi: u64,
}

impl Bitboard {
    /// Bit `i` of the 192-bit word is set.
    pub open spec fn has(self, i: int) -> bool {
        if i < 128 {
            bit128(self.lo, i)
        } else {
            bit64(self.hi, i - 128)
        }
    }

    /// No bit beyond square 168 is set.
    pub open spec fn on_board(self) -> bool {
        self.hi <= HI_MASK
    }
}

impl View for Bitboard {
    type V = Set<int>;

    /// The squares whose bits are set.
    open spec fn view(&self) -> Set<int> {
        Set::new(|i: int| self.has(i))
    }
}

/// All squares of the board.
pub open spec fn board_squares() -> Set<int> {
    Set::new(|i: int| 0 <= i < SQUARES as int)
}

// ---------------------------------------------------------------------------
// Bit-level facts
// ---------------------------------------------------------------------------

proof fn lemma_bits128(x: u128, y: u128, i: u128, n: u128)
    by (bit_vector)
    requires
        i < 128,
        n < 128,
    ensures
        ((x & y) >> i) & 1u128 == 1u128 <==> ((x >> i) & 1u128 == 1u128 && (y >> i) & 1u128
            == 1u128),
        ((x | y) >> i) & 1u128 == 1u128 <==> ((x >> i) & 1u128 == 1u128 || (y >> i) & 1u128
            == 1u128),
        ((x ^ y) >> i) & 1u128 == 1u128 <==> ((x >> i) & 1u128 == 1u128) != ((y >> i) & 1u128
            == 1u128),
        ((!x) >> i) & 1u128 == 1u128 <==> !((x >> i) & 1u128 == 1u128),
        ((1u128 << n) >> i) & 1u128 == 1u128 <==> i == n,
        (0u128 >> i) & 1u128 != 1u128,
{
}

proof fn lemma_bits64(x: u64, y: u64, i: u64, n: u64)
    by (bit_vector)
    requires
        i < 64,
        n < 64,
    ensures
        ((x & y) >> i) & 1u64 == 1u64 <==> ((x >> i) & 1u64 == 1u64 && (y >> i) & 1u64 == 1u64),
        ((x | y) >> i) & 1u64 == 1u64 <==> ((x >> i) & 1u64 == 1u64 || (y >> i) & 1u64 == 1u64),
        ((x ^ y) >> i) & 1u64 == 1u64 <==> ((x >> i) & 1u64 == 1u64) != ((y >> i) & 1u64 == 1u64),
        (((!x) & 0x1FF_FFFF_FFFFu64) >> i) & 1u64 == 1u64 <==> (i < 41 && !((x >> i) & 1u64
            == 1u64)),
        ((1u64 << n) >> i) & 1u64 == 1u64 <==> i == n,
        (0u64 >> i) & 1u64 != 1u64,
        x & y <= x,
        x & y <= y,
        x <= 0x1FF_FFFF_FFFFu64 && y <= 0x1FF_FFFF_FFFFu64 ==> x | y <= 0x1FF_FFFF_FFFFu64 && x ^ y
            <= 0x1FF_FFFF_FFFFu64,
        (!x) & 0x1FF_FFFF_FFFFu64 <= 0x1FF_FFFF_FFFFu64,
        x <= 0x1FF_FFFF_FFFFu64 && i >= 41 ==> (x >> i) & 1u64 != 1u64,
{
}

/// A nonzero word has a set bit.
proof fn lemma_nonzero128(x: u128) -> (i: int)
    requires
        x != 0,
    ensures
        bit128(x, i),
    decreases x,
{
    if x & 1 == 1 {
        assert((x >> 0u128) & 1u128 == x & 1u128) by (bit_vector);
        0
    } else {
        assert(x != 0 && x & 1u128 != 1u128 ==> (x >> 1u128) != 0 && (x >> 1u128) < x)
            by (bit_vector);
        let j = lemma_nonzero128(x >> 1);
        let ju = j as u128;
        assert(ju < 128 && ((x >> 1u128) >> ju) & 1u128 == 1u128 ==> ju < 127 && (x >> (ju
            + 1u128)) & 1u128 == 1u128) by (bit_vector);
        j + 1
    }
}

/// A nonzero word has a set bit.
proof fn lemma_nonzero64(x: u64) -> (i: int)
    requires
        x != 0,
    ensures
        bit64(x, i),
    decreases x,
{
    if x & 1 == 1 {
        assert((x >> 0u64) & 1u64 == x & 1u64) by (bit_vector);
        0
    } else {
        assert(x != 0 && x & 1u64 != 1u64 ==> (x >> 1u64) != 0 && (x >> 1u64) < x)
            by (bit_vector);
        let j = lemma_nonzero64(x >> 1);
        let ju = j as u64;
        assert(ju < 64 && ((x >> 1u64) >> ju) & 1u64 == 1u64 ==> ju < 63 && (x >> (ju + 1u64))
            & 1u64 == 1u64) by (bit_vector);
        j + 1
    }
}

/// The board is empty exactly when both words are zero.
proof fn lemma_empty_iff_zero(b: Bitboard)
    ensures
        (b.lo == 0 && b.hi == 0) <==> b@ =~= Set::<int>::empty(),
{
    if b.lo != 0 {
        let i = lemma_nonzero128(b.lo);
        assert(b@.contains(i));
    } else if b.hi != 0 {
        let i = lemma_nonzero64(b.hi);
        assert(b@.contains(i + 128));
    } else {
        assert forall|i: int| !b.has(i) by {
            if 0 <= i < 128 {
                lemma_bits128(0, 0, i as u128, 0);
            } else if 128 <= i < 192 {
                lemma_bits64(0, 0, (i - 128) as u64, 0);
            }
        }
    }
}

/// An on-board bitboard holds only squares of the board.
pub proof fn lemma_on_board_subset(b: Bitboard)
    requires
        b.on_board(),
    ensures
        b@.subset_of(board_squares()),
{
    assert forall|i: int| b@.contains(i) implies board_squares().contains(i) by {
        if 169 <= i < 192 {
            lemma_bits64(b.hi, 0, (i - 128) as u64, 0);
        }
    }
}

// ---------------------------------------------------------------------------
// Construction and queries
// ---------------------------------------------------------------------------

impl Bitboard {
    /// The empty set.
    pub fn empty() -> (b: Self)
        ensures
            b.lo == 0 && b.hi == 0,
            b@ == Set::<int>::empty(),
            b.on_board(),
    {
        let b = Bitboard { lo: 0, hi: 0 };
        proof {
            lemma_empty_iff_zero(b);
        }
        b
    }

    /// The set of the one square `sq`.
    pub fn from_square(sq: Square) -> (b: Self)
        requires
            sq.0 < 192,
        ensures
            b@ == Set::<int>::empty().insert(sq.0 as int),
            sq.0 < 169 ==> b.on_board(),
    {
        let idx = sq.0 as usize;
        let b = if idx < 128 {
            Bitboard { lo: 1u128 << (idx as u128), hi: 0 }
        } else {
            Bitboard { lo: 0, hi: 1u64 << ((idx - 128) as u64) }
        };
        proof {
            assert forall|i: int| b.has(i) <==> i == sq.0 as int by {
                if 0 <= i < 128 {
                    if idx < 128 {
                        lemma_bits128(0, 0, i as u128, idx as u128);
                    } else {
                        lemma_bits128(0, 0, i as u128, 0);
                    }
                } else if 128 <= i < 192 {
                    if idx < 128 {
                        lemma_bits64(0, 0, (i - 128) as u64, 0);
                    } else {
                        lemma_bits64(0, 0, (i - 128) as u64, (idx - 128) as u64);
                    }
                }
            }
            assert(b@ =~= Set::<int>::empty().insert(sq.0 as int));
            if sq.0 < 169 && idx >= 128 {
                let n = (idx - 128) as u64;
                assert(n < 41 ==> (1u64 << n) <= 0x1FF_FFFF_FFFFu64) by (bit_vector);
            }
        }
        b
    }

    pub fn is_empty(self) -> (e: bool)
        ensures
            e == (self@ == Set::<int>::empty()),
    {
        proof {
            lemma_empty_iff_zero(self);
        }
        self.lo == 0 && self.hi == 0
    }

    pub fn is_not_empty(self) -> (e: bool)
        ensures
            e == (self@ != Set::<int>::empty()),
    {
        !self.is_empty()
    }
}

// ---------------------------------------------------------------------------
// Bitwise operators
// ---------------------------------------------------------------------------

pub open spec fn and_spec(a: Bitboard, b: Bitboard) -> Bitboard {
    Bitboard { lo: a.lo & b.lo, hi: a.hi & b.hi }
}

pub open spec fn or_spec(a: Bitboard, b: Bitboard) -> Bitboard {
    Bitboard { lo: a.lo | b.lo, hi: a.hi | b.hi }
}

pub open spec fn xor_spec(a: Bitboard, b: Bitboard) -> Bitboard {
    Bitboard { lo: a.lo ^ b.lo, hi: a.hi ^ b.hi }
}

pub open spec fn not_spec(a: Bitboard) -> Bitboard {
    Bitboard { lo: !a.lo, hi: (!a.hi) & HI_MASK }
}

proof fn lemma_bitwise_at(a: Bitboard, b: Bitboard, i: int)
    ensures
        and_spec(a, b).has(i) == (a.has(i) && b.has(i)),
        or_spec(a, b).has(i) == (a.has(i) || b.has(i)),
        xor_spec(a, b).has(i) == (a.has(i) != b.has(i)),
        not_spec(a).has(i) == (0 <= i < 169 && !a.has(i)),
{
    if 0 <= i < 128 {
        lemma_bits128(a.lo, b.lo, i as u128, 0);
    } else if 128 <= i < 192 {
        lemma_bits64(a.hi, b.hi, (i - 128) as u64, 0);
    }
}

/// The set operations that the bitwise operators compute.
pub proof fn lemma_bitwise_views(a: Bitboard, b: Bitboard)
    ensures
        and_spec(a, b)@ == a@.intersect(b@),
        or_spec(a, b)@ == a@.union(b@),
        xor_spec(a, b)@ == a@.difference(b@).union(b@.difference(a@)),
        not_spec(a)@ == board_squares().difference(a@),
        a.on_board() || b.on_board() ==> and_spec(a, b).on_board(),
        a.on_board() && b.on_board() ==> or_spec(a, b).on_board() && xor_spec(a, b).on_board(),
        not_spec(a).on_board(),
{
    assert forall|i: int| #[trigger] and_spec(a, b)@.contains(i) == a@.intersect(b@).contains(i) by {
        lemma_bitwise_at(a, b, i);
    }
    assert forall|i: int| #[trigger] or_spec(a, b)@.contains(i) == a@.union(b@).contains(i) by {
        lemma_bitwise_at(a, b, i);
    }
    assert forall|i: int|
        #[trigger] xor_spec(a, b)@.contains(i) == a@.difference(b@).union(
            b@.difference(a@),
        ).contains(i) by {
        lemma_bitwise_at(a, b, i);
    }
    assert forall|i: int|
        #[trigger] not_spec(a)@.contains(i) == board_squares().difference(a@).contains(i) by {
        lemma_bitwise_at(a, b, i);
    }
    lemma_bits64(a.hi, b.hi, 0, 0);
    assert(and_spec(a, b)@ =~= a@.intersect(b@));
    assert(or_spec(a, b)@ =~= a@.union(b@));
    assert(xor_spec(a, b)@ =~= a@.difference(b@).union(b@.difference(a@)));
    assert(not_spec(a)@ =~= board_squares().difference(a@));
}

impl core::ops::BitAnd for Bitboard {
    type Output = Self;

    fn bitand(self, rhs: Self) -> (r: Self)
        ensures
            r == and_spec(self, rhs),
            r@ == self@.intersect(rhs@),
            self.on_board() || rhs.on_board() ==> r.on_board(),
    {
        proof {
            lemma_bitwise_views(self, rhs);
        }
        Bitboard { lo: self.lo & rhs.lo, hi: self.hi & rhs.hi }
    }
}

impl vstd::std_specs::ops::BitAndSpecImpl for Bitboard {
    open spec fn obeys_bitand_spec() -> bool {
        true
    }

    open spec fn bitand_req(self, rhs: Self) -> bool {
        true
    }

    open spec fn bitand_spec(self, rhs: Self) -> Self {
        and_spec(self, rhs)
    }
}

impl core::ops::BitOr for Bitboard {
    type Output = Self;

    fn bitor(self, rhs: Self) -> (r: Self)
        ensures
            r == or_spec(self, rhs),
            r@ == self@.union(rhs@),
            self.on_board() && rhs.on_board() ==> r.on_board(),
    {
        proof {
            lemma_bitwise_views(self, rhs);
        }
        Bitboard { lo: self.lo | rhs.lo, hi: self.hi | rhs.hi }
    }
}

impl vstd::std_specs::ops::BitOrSpecImpl for Bitboard {
    open spec fn obeys_bitor_spec() -> bool {
        true
    }

    open spec fn bitor_req(self, rhs: Self) -> bool {
        true
    }

    open spec fn bitor_spec(self, rhs: Self) -> Self {
        or_spec(self, rhs)
    }
}

impl core::ops::BitXor for Bitboard {
    type Output = Self;

    fn bitxor(self, rhs: Self) -> (r: Self)
        ensures
            r == xor_spec(self, rhs),
            r@ == self@.difference(rhs@).union(rhs@.difference(self@)),
            self.on_board() && rhs.on_board() ==> r.on_board(),
    {
        proof {
            lemma_bitwise_views(self, rhs);
        }
        Bitboard { lo: self.lo ^ rhs.lo, hi: self.hi ^ rhs.hi }
    }
}

impl vstd::std_specs::ops::BitXorSpecImpl for Bitboard {
    open spec fn obeys_bitxor_spec() -> bool {
        true
    }

    open spec fn bitxor_req(self, rhs: Self) -> bool {
        true
    }

    open spec fn bitxor_spec(self, rhs: Self) -> Self {
        xor_spec(self, rhs)
    }
}

impl core::ops::Not for Bitboard {
    type Output = Self;

    fn not(self) -> (r: Self)
        ensures
            r == not_spec(self),
            r@ == board_squares().difference(self@),
            r.on_board(),
    {
        proof {
            lemma_bitwise_views(self, self);
        }
        Bitboard { lo: !self.lo, hi: (!self.hi) & HI_MASK }
    }
}

impl vstd::std_specs::ops::NotSpecImpl for Bitboard {
    open spec fn obeys_not_spec() -> bool {
        true
    }

    open spec fn not_req(self) -> bool {
        true
    }

    open spec fn not_spec(self) -> Self {
        not_spec(self)
    }
}

impl core::ops::BitAndAssign for Bitboard {
    fn bitand_assign(&mut self, rhs: Self)
        ensures
            *final(self) == and_spec(*old(self), rhs),
            final(self)@ == old(self)@.intersect(rhs@),
    {
        proof {
            lemma_bitwise_views(*self, rhs);
        }
        self.lo = self.lo & rhs.lo;
        self.hi = self.hi & rhs.hi;
    }
}

impl core::ops::BitOrAssign for Bitboard {
    fn bitor_assign(&mut self, rhs: Self)
        ensures
            *final(self) == or_spec(*old(self), rhs),
            final(self)@ == old(self)@.union(rhs@),
    {
        proof {
            lemma_bitwise_views(*self, rhs);
        }
        self.lo = self.lo | rhs.lo;
        self.hi = self.hi | rhs.hi;
    }
}

impl core::ops::BitXorAssign for Bitboard {
    fn bitxor_assign(&mut self, rhs: Self)
        ensures
            *final(self) == xor_spec(*old(self), rhs),
            final(self)@ == old(self)@.difference(rhs@).union(rhs@.difference(old(self)@)),
    {
        proof {
            lemma_bitwise_views(*self, rhs);
        }
        self.lo = self.lo ^ rhs.lo;
        self.hi = self.hi ^ rhs.hi;
    }
}

// ---------------------------------------------------------------------------
// Counting
// ---------------------------------------------------------------------------

/// The number of set bits of `x` below bit `n`.
pub open spec fn ones128(x: u128, n: nat) -> nat
    decreases n,
{
    if n == 0 {
        0
    } else {
        ones128(x, (n - 1) as nat) + if bit128(x, n - 1) {
            1nat
        } else {
            0nat
        }
    }
}

/// The number of set bits of `x` below bit `n`.
pub open spec fn ones64(x: u64, n: nat) -> nat
    decreases n,
{
    if n == 0 {
        0
    } else {
        ones64(x, (n - 1) as nat) + if bit64(x, n - 1) {
            1nat
        } else {
            0nat
        }
    }
}

/// `u128::count_ones`: the number of ones in the binary representation of `x`.
#[verifier::external_body]
fn count_ones128(x: u128) -> (n: u32)
    ensures
        n == ones128(x, 128),
{
    x.count_ones()
}

/// `u64::count_ones`: the number of ones in the binary representation of `x`.
#[verifier::external_body]
fn count_ones64(x: u64) -> (n: u32)
    ensures
        n == ones64(x, 64),
{
    x.count_ones()
}

/// The number of squares below `n` that the bitboard holds.
spec fn count_below(b: Bitboard, n: nat) -> nat
    decreases n,
{
    if n == 0 {
        0
    } else {
        count_below(b, (n - 1) as nat) + if b.has(n - 1) {
            1nat
        } else {
            0nat
        }
    }
}

proof fn lemma_count_below_set(b: Bitboard, n: nat)
    ensures
        Set::new(|i: int| 0 <= i < n && b.has(i)).finite(),
        Set::new(|i: int| 0 <= i < n && b.has(i)).len() == count_below(b, n),
    decreases n,
{
    let s = Set::new(|i: int| 0 <= i < n && b.has(i));
    if n == 0 {
        assert(s =~= Set::<int>::empty());
    } else {
        let m = (n - 1) as nat;
        let t = Set::new(|i: int| 0 <= i < m && b.has(i));
        lemma_count_below_set(b, m);
        if b.has(m as int) {
            assert(s =~= t.insert(m as int));
        } else {
            assert(s =~= t);
        }
    }
}

proof fn lemma_count_below_lo(b: Bitboard, n: nat)
    requires
        n <= 128,
    ensures
        count_below(b, n) == ones128(b.lo, n),
    decreases n,
{
    if n > 0 {
        lemma_count_below_lo(b, (n - 1) as nat);
    }
}

proof fn lemma_count_below_hi(b: Bitboard, m: nat)
    requires
        m <= 64,
    ensures
        count_below(b, 128 + m) == ones128(b.lo, 128) + ones64(b.hi, m),
    decreases m,
{
    if m == 0 {
        lemma_count_below_lo(b, 128);
    } else {
        lemma_count_below_hi(b, (m - 1) as nat);
        assert(count_below(b, 128 + m) == count_below(b, (128 + m - 1) as nat) + if b.has(
            128 + m - 1,
        ) {
            1nat
        } else {
            0nat
        });
    }
}

/// A bitboard holds finitely many squares, as many as its two words have set bits.
pub proof fn lemma_view_len(b: Bitboard)
    ensures
        b@.finite(),
        b@.len() == ones128(b.lo, 128) + ones64(b.hi, 64),
        b@.len() <= 192,
{
    lemma_count_below_set(b, 192);
    lemma_count_below_hi(b, 64);
    assert(b@ =~= Set::new(|i: int| 0 <= i < 192nat && b.has(i)));
    assert(b@.subset_of(vstd::set_lib::set_int_range(0, 192)));
    vstd::set_lib::lemma_int_range(0, 192);
    vstd::set_lib::lemma_len_subset(b@, vstd::set_lib::set_int_range(0, 192));
}

impl Bitboard {
    /// The bitboard holds `sq`.
    pub fn contains(self, sq: Square) -> (b: bool)
        requires
            sq.0 < 192,
        ensures
            b == self@.contains(sq.0 as int),
    {
        let r = (self & Bitboard::from_square(sq)).is_not_empty();
        proof {
            if self@.contains(sq.0 as int) {
                assert((self@.intersect(Set::<int>::empty().insert(sq.0 as int))).contains(
                    sq.0 as int,
                ));
            } else {
                assert(self@.intersect(Set::<int>::empty().insert(sq.0 as int)) =~= Set::<
                    int,
                >::empty());
            }
        }
        r
    }

    /// The number of squares in the bitboard.
    pub fn popcount(self) -> (n: u32)
        ensures
            self@.finite(),
            n == self@.len(),
    {
        proof {
            lemma_view_len(self);
        }
        count_ones128(self.lo) + count_ones64(self.hi)
    }
}

// ---------------------------------------------------------------------------
// Lowest square
// ---------------------------------------------------------------------------

proof fn lemma_trailing_zeros_low(x: u128, t: u64)
    by (bit_vector)
    requires
        t < 64,
        (x as u64) << ((64 - t) as u64) == 0,
        ((x as u64) >> t) & 1u64 == 1u64,
    ensures
        (x >> (t as u128)) << (t as u128) == x,
        (x >> (t as u128)) & 1u128 == 1u128,
{
}

proof fn lemma_trailing_zeros_high(x: u128, t: u64)
    by (bit_vector)
    requires
        t < 64,
        (x as u64) == 0,
        ((x >> 64u128) as u64) << ((64 - t) as u64) == 0,
        (((x >> 64u128) as u64) >> t) & 1u64 == 1u64,
    ensures
        (x >> ((t as u128) + 64u128)) << ((t as u128) + 64u128) == x,
        (x >> ((t as u128) + 64u128)) & 1u128 == 1u128,
{
}

proof fn lemma_halves_zero(x: u128)
    by (bit_vector)
    ensures
        x == 0 <==> ((x as u64) == 0 && ((x >> 64u128) as u64) == 0),
{
}

/// The number of zero bits below the lowest set bit of `x` (128 for zero), from
/// the two 64-bit halves: `x` is a multiple of `2^t` whose bit `t` is set.
fn trailing_zeros128(x: u128) -> (t: u32)
    ensures
        t <= 128,
        x == 0 <==> t == 128,
        x != 0 ==> (x >> (t as u128)) << (t as u128) == x && (x >> (t as u128)) & 1u128 == 1u128,
{
    let low = #[verifier::truncate] (x as u64);
    if low != 0 {
        let t = low.trailing_zeros();
        proof {
            vstd::std_specs::bits::axiom_u64_trailing_zeros(low);
            assert(low << ((64 - t) as u64) == 0);
            lemma_trailing_zeros_low(x, t as u64);
            lemma_halves_zero(x);
        }
        t
    } else {
        let high = #[verifier::truncate] ((x >> 64u128) as u64);
        proof {
            lemma_halves_zero(x);
        }
        if high != 0 {
            let t = high.trailing_zeros();
            proof {
                vstd::std_specs::bits::axiom_u64_trailing_zeros(high);
                assert(high << ((64 - t) as u64) == 0);
                lemma_trailing_zeros_high(x, t as u64);
            }
            64 + t
        } else {
            128
        }
    }
}

proof fn lemma_lowest_bit128(x: u128, t: u128, j: u128)
    by (bit_vector)
    requires
        t < 128,
        j < 128,
        (x >> t) << t == x,
        (x >> t) & 1u128 == 1u128,
    ensures
        x >= 1,
        ((x & ((x - 1) as u128)) >> j) & 1u128 == 1u128 <==> ((x >> j) & 1u128 == 1u128 && j != t),
        j < t ==> (x >> j) & 1u128 != 1u128,
{
}

proof fn lemma_lowest_bit64(x: u64, t: u64, j: u64)
    by (bit_vector)
    requires
        t < 64,
        j < 64,
        x << ((64 - t) as u64) == 0,
        (x >> t) & 1u64 == 1u64,
    ensures
        x >= 1,
        ((x & ((x - 1) as u64)) >> j) & 1u64 == 1u64 <==> ((x >> j) & 1u64 == 1u64 && j != t),
        j < t ==> (x >> j) & 1u64 != 1u64,
{
}

/// `i` is the smallest element of `s`.
pub open spec fn is_least(s: Set<int>, i: int) -> bool {
    s.contains(i) && forall|j: int| s.contains(j) ==> i <= j
}

impl Bitboard {
    /// Removes and returns the lowest square; `None` when the bitboard is empty.
    pub fn pop_lsb(&mut self) -> (r: Option<Square>)
        ensures
            old(self)@ == Set::<int>::empty() ==> r is None && *final(self) == *old(self),
            old(self)@ != Set::<int>::empty() ==> (r matches Some(sq) && is_least(
                old(self)@,
                sq.0 as int,
            ) && final(self)@ == old(self)@.remove(sq.0 as int)),
            old(self)@ != Set::<int>::empty() ==> final(self)@.len() + 1 == old(self)@.len(),
            old(self).on_board() ==> final(self).on_board(),
    {
        proof {
            lemma_empty_iff_zero(*self);
            lemma_view_len(*self);
        }
        if self.lo != 0 {
            let idx = trailing_zeros128(self.lo);
            let ghost old_b = *self;
            self.lo = self.lo & (self.lo - 1);
            proof {
                assert forall|i: int| #[trigger] self.has(i) == (old_b.has(i) && i != idx) by {
                    if 0 <= i < 128 {
                        lemma_lowest_bit128(old_b.lo, idx as u128, i as u128);
                    }
                }
                assert forall|j: int| old_b@.contains(j) implies idx <= j by {
                    if 0 <= j < idx {
                        lemma_lowest_bit128(old_b.lo, idx as u128, j as u128);
                    }
                }
                assert(self@ =~= old_b@.remove(idx as int));
                lemma_lowest_bit128(old_b.lo, idx as u128, idx as u128);
            }
            Some(Square(idx as u8))
        } else if self.hi != 0 {
            let idx = self.hi.trailing_zeros();
            let ghost old_b = *self;
            proof {
                vstd::std_specs::bits::axiom_u64_trailing_zeros(old_b.hi);
                assert(old_b.hi << ((64 - idx) as u64) == 0);
            }
            self.hi = self.hi & (self.hi - 1);
            proof {
                assert forall|i: int| #[trigger] self.has(i) == (old_b.has(i) && i != 128 + idx) by {
                    if 128 <= i < 192 {
                        lemma_lowest_bit64(old_b.hi, idx as u64, (i - 128) as u64);
                    }
                }
                assert forall|j: int| old_b@.contains(j) implies 128 + idx <= j by {
                    if 128 <= j < 128 + idx {
                        lemma_lowest_bit64(old_b.hi, idx as u64, (j - 128) as u64);
                    } else if 0 <= j < 128 {
                        lemma_bits128(0, 0, j as u128, 0);
                    }
                }
                assert(self@ =~= old_b@.remove(128 + idx));
                lemma_lowest_bit64(old_b.hi, idx as u64, idx as u64);
                lemma_bits64(old_b.hi, (old_b.hi - 1) as u64, 0, 0);
            }
            Some(Square((128 + idx) as u8))
        } else {
            None
        }
    }

    /// The lowest square, without removing it; `None` when the bitboard is empty.
    pub fn lsb(self) -> (r: Option<Square>)
        ensures
            self@ == Set::<int>::empty() ==> r is None,
            self@ != Set::<int>::empty() ==> (r matches Some(sq) && is_least(self@, sq.0 as int)),
    {
        proof {
            lemma_empty_iff_zero(self);
        }
        if self.lo != 0 {
            let idx = trailing_zeros128(self.lo);
            proof {
                assert forall|j: int| self@.contains(j) implies idx <= j by {
                    if 0 <= j < idx {
                        lemma_lowest_bit128(self.lo, idx as u128, j as u128);
                    }
                }
                lemma_lowest_bit128(self.lo, idx as u128, idx as u128);
            }
            Some(Square(idx as u8))
        } else if self.hi != 0 {
            let idx = self.hi.trailing_zeros();
            proof {
                vstd::std_specs::bits::axiom_u64_trailing_zeros(self.hi);
                assert(self.hi << ((64 - idx) as u64) == 0);
                assert forall|j: int| self@.contains(j) implies 128 + idx <= j by {
                    if 128 <= j < 128 + idx {
                        lemma_lowest_bit64(self.hi, idx as u64, (j - 128) as u64);
                    } else if 0 <= j < 128 {
                        lemma_bits128(0, 0, j as u128, 0);
                    }
                }
                lemma_lowest_bit64(self.hi, idx as u64, idx as u64);
            }
            Some(Square((128 + idx) as u8))
        } else {
            None
        }
    }
}

// ---------------------------------------------------------------------------
// Edge masks
// ---------------------------------------------------------------------------

/// The squares of the board that satisfy `p`.
pub open spec fn squares_where(p: spec_fn(int) -> bool) -> Set<int> {
    Set::new(|i: int| 0 <= i < SQUARES as int && p(i))
}

proof fn lemma_not_file_a_bits(i: u128, k: u64)
    by (bit_vector)
    requires
        i < 128,
        k < 64,
    ensures
        (0xffdf_fefff7ff_bffdffef_ff7ffbff_dffeu128 >> i) & 1u128 == 1u128 <==> !(i == 0 || i == 13
            || i == 26 || i == 39 || i == 52 || i == 65 || i == 78 || i == 91 || i == 104 || i
            == 117),
        (0x1ff_efff_7ffbu64 >> k) & 1u64 == 1u64 <==> (k < 41 && !(k == 2 || k == 15 || k == 28)),
{
}

proof fn lemma_not_file_m_bits(i: u128, k: u64)
    by (bit_vector)
    requires
        i < 128,
        k < 64,
    ensures
        (0xffef_ff7ffbff_dffefff7_ffbffdff_efffu128 >> i) & 1u128 == 1u128 <==> !(i == 12 || i
            == 25 || i == 38 || i == 51 || i == 64 || i == 77 || i == 90 || i == 103 || i == 116),
        (0xff_f7ff_bffdu64 >> k) & 1u64 == 1u64 <==> (k < 41 && !(k == 1 || k == 14 || k == 27 || k
            == 40)),
{
}

/// Every square except those of file a (file 0); used by `shift_east`.
pub fn not_file_a() -> (b: Bitboard)
    ensures
        b@ == squares_where(|i: int| file_of(i) != 0),
        b.on_board(),
{
    let b = Bitboard { lo: 0xffdf_fefff7ff_bffdffef_ff7ffbff_dffe, hi: 0x1ff_efff_7ffb };
    proof {
        assert forall|i: int| #[trigger] b@.contains(i) == squares_where(|i: int| file_of(i) != 0).contains(i) by {
            if 0 <= i < 128 {
                lemma_not_file_a_bits(i as u128, 0);
            } else if 128 <= i < 192 {
                lemma_not_file_a_bits(0, (i - 128) as u64);
            }
        }
        assert(b@ =~= squares_where(|i: int| file_of(i) != 0));
    }
    b
}

/// Every square except those of file m (file 12); used by `shift_west`.
pub fn not_file_m() -> (b: Bitboard)
    ensures
        b@ == squares_where(|i: int| file_of(i) != 12),
        b.on_board(),
{
    let b = Bitboard { lo: 0xffef_ff7ffbff_dffefff7_ffbffdff_efff, hi: 0xff_f7ff_bffd };
    proof {
        assert forall|i: int| #[trigger] b@.contains(i) == squares_where(|i: int| file_of(i) != 12).contains(i) by {
            if 0 <= i < 128 {
                lemma_not_file_m_bits(i as u128, 0);
            } else if 128 <= i < 192 {
                lemma_not_file_m_bits(0, (i - 128) as u64);
            }
        }
        assert(b@ =~= squares_where(|i: int| file_of(i) != 12));
    }
    b
}

// ---------------------------------------------------------------------------
// Shifts
// ---------------------------------------------------------------------------
// The board is 13 files wide: one rank is 13 bits, one file is 1 bit. A shift
// by one file masks the edge file so that squares do not wrap to the other side.

proof fn lemma_south_bits(lo: u128, hi: u64, i: u128, k: u64)
    by (bit_vector)
    requires
        i < 128,
        k < 64,
    ensures
        ((lo << 13u128) >> i) & 1u128 == 1u128 <==> (i >= 13 && (lo >> ((i - 13) as u128)) & 1u128
            == 1u128),
        ((((hi << 13u64) | ((lo >> 115u128) as u64)) & 0x1FF_FFFF_FFFFu64) >> k) & 1u64 == 1u64 <==> (
        k < 41 && if k >= 13 {
            (hi >> ((k - 13) as u64)) & 1u64 == 1u64
        } else {
            (lo >> ((k as u128) + 115u128)) & 1u128 == 1u128
        }),
        ((hi << 13u64) | ((lo >> 115u128) as u64)) & 0x1FF_FFFF_FFFFu64 <= 0x1FF_FFFF_FFFFu64,
{
}

proof fn lemma_north_bits(lo: u128, hi: u64, i: u128, k: u64)
    by (bit_vector)
    requires
        i < 128,
        k < 64,
    ensures
        (((lo >> 13u128) | (((hi & 0x1FFFu64) as u128) << 115u128)) >> i) & 1u128 == 1u128 <==> (
        if i < 115 {
            (lo >> (i + 13u128)) & 1u128 == 1u128
        } else {
            (hi >> ((i - 115) as u64)) & 1u64 == 1u64
        }),
        ((hi >> 13u64) >> k) & 1u64 == 1u64 <==> (k < 51 && (hi >> (k + 13u64)) & 1u64 == 1u64),
        hi <= 0x1FF_FFFF_FFFFu64 ==> hi >> 13u64 <= 0x1FF_FFFF_FFFFu64,
{
}

proof fn lemma_east_bits(lo: u128, hi: u64, i: u128, k: u64)
    by (bit_vector)
    requires
        i < 128,
        k < 64,
    ensures
        ((lo << 1u128) >> i) & 1u128 == 1u128 <==> (i >= 1 && (lo >> ((i - 1) as u128)) & 1u128
            == 1u128),
        ((((hi << 1u64) | ((lo >> 127u128) as u64)) & 0x1FF_FFFF_FFFFu64) >> k) & 1u64 == 1u64 <==> (
        k < 41 && if k >= 1 {
            (hi >> ((k - 1) as u64)) & 1u64 == 1u64
        } else {
            (lo >> 127u128) & 1u128 == 1u128
        }),
{
}

proof fn lemma_west_bits(lo: u128, hi: u64, i: u128, k: u64)
    by (bit_vector)
    requires
        i < 128,
        k < 64,
    ensures
        (((lo >> 1u128) | (((hi & 1u64) as u128) << 127u128)) >> i) & 1u128 == 1u128 <==> (if i
            < 127 {
            (lo >> (i + 1u128)) & 1u128 == 1u128
        } else {
            hi & 1u64 == 1u64
        }),
        ((hi >> 1u64) >> k) & 1u64 == 1u64 <==> (k < 63 && (hi >> (k + 1u64)) & 1u64 == 1u64),
        (hi >> 0u64) & 1u64 == hi & 1u64,
{
}

impl Bitboard {
    /// Shifts one rank down (rank + 1, towards the white side): 13 bits up.
    pub fn shift_south(self) -> (r: Self)
        ensures
            r@ == squares_where(|j: int| j >= 13 && self.has(j - 13)),
            r.on_board(),
    {
        // the bits that leave lo (115-127) enter hi
        let lo_shifted = self.lo << 13u128;
        let carry = (self.lo >> 115u128) as u64;
        let hi_shifted = ((self.hi << 13u64) | carry) & HI_MASK;
        let r = Bitboard { lo: lo_shifted, hi: hi_shifted };
        proof {
            lemma_south_bits(self.lo, self.hi, 0, 0);
            assert forall|j: int| #[trigger] r@.contains(j) == squares_where(|j: int| j >= 13 && self.has(j - 13)).contains(j) by {
                if 0 <= j < 128 {
                    lemma_south_bits(self.lo, self.hi, j as u128, 0);
                } else if 128 <= j < 192 {
                    lemma_south_bits(self.lo, self.hi, 0, (j - 128) as u64);
                }
            }
            assert(r@ =~= squares_where(|j: int| j >= 13 && self.has(j - 13)));
        }
        r
    }

    /// Shifts one rank up (rank - 1, towards the black side): 13 bits down.
    pub fn shift_north(self) -> (r: Self)
        ensures
            r@ == Set::new(|j: int| 0 <= j && self.has(j + 13)),
            self.on_board() ==> r.on_board(),
    {
        let hi_shifted = self.hi >> 13u64;
        // the low bits of hi (0-12) enter the high bits of lo
        let carry = (self.hi & 0x1FFF) as u128;
        let lo_shifted = (self.lo >> 13u128) | (carry << 115u128);
        let r = Bitboard { lo: lo_shifted, hi: hi_shifted };
        proof {
            lemma_north_bits(self.lo, self.hi, 0, 0);
            assert forall|j: int| #[trigger] r@.contains(j) == Set::new(|j: int| 0 <= j && self.has(j + 13)).contains(j) by {
                if 0 <= j < 128 {
                    lemma_north_bits(self.lo, self.hi, j as u128, 0);
                } else if 128 <= j < 192 {
                    lemma_north_bits(self.lo, self.hi, 0, (j - 128) as u64);
                }
            }
            assert(r@ =~= Set::new(|j: int| 0 <= j && self.has(j + 13)));
        }
        r
    }

    /// Shifts one file to the right (file + 1); nothing lands on file a.
    pub fn shift_east(self) -> (r: Self)
        ensures
            r@ == squares_where(|j: int| file_of(j) != 0 && self.has(j - 1)),
            r.on_board(),
    {
        let moved = Bitboard {
            lo: self.lo << 1u128,
            hi: ((self.hi << 1u64) | ((self.lo >> 127u128) as u64)) & HI_MASK,
        };
        proof {
            assert forall|j: int| #[trigger] moved.has(j) == (0 <= j < 169 && j >= 1 && self.has(j - 1)) by {
                if 0 <= j < 128 {
                    lemma_east_bits(self.lo, self.hi, j as u128, 0);
                } else if 128 <= j < 192 {
                    lemma_east_bits(self.lo, self.hi, 0, (j - 128) as u64);
                }
            }
        }
        let mask = not_file_a();
        let r = moved & mask;
        proof {
            lemma_bitwise_views(moved, mask);
            assert(r@ =~= squares_where(|j: int| file_of(j) != 0 && self.has(j - 1)));
        }
        r
    }

    /// Shifts one file to the left (file - 1); nothing lands on file m.
    pub fn shift_west(self) -> (r: Self)
        ensures
            r@ == squares_where(|j: int| file_of(j) != 12 && self.has(j + 1)),
            r.on_board(),
    {
        // bit 0 of hi (square 128) moves to bit 127 of lo (square 127)
        let moved = Bitboard {
            lo: (self.lo >> 1u128) | (((self.hi & 1) as u128) << 127u128),
            hi: self.hi >> 1u64,
        };
        proof {
            assert forall|j: int| #[trigger] moved.has(j) == (0 <= j && self.has(j + 1)) by {
                if 0 <= j < 128 {
                    lemma_west_bits(self.lo, self.hi, j as u128, 0);
                } else if 128 <= j < 192 {
                    lemma_west_bits(self.lo, self.hi, 0, (j - 128) as u64);
                }
            }
        }
        let mask = not_file_m();
        let r = moved & mask;
        proof {
            lemma_bitwise_views(moved, mask);
            assert(r@ =~= squares_where(|j: int| file_of(j) != 12 && self.has(j + 1)));
        }
        r
    }
}

// ---------------------------------------------------------------------------
// Board regions
// ---------------------------------------------------------------------------

proof fn lemma_river_bits(i: u128, k: u64)
    by (bit_vector)
    requires
        i < 128,
        k < 64,
    ensures
        (0x7ffc0000000000000000000u128 >> i) & 1u128 == 1u128 <==> (78 <= i && i < 91),
        (0x0u64 >> k) & 1u64 == 1u64 <==> (false),
{
}

/// The squares of rank 6, which no piece may occupy.
pub fn river() -> (b: Bitboard)
    ensures
        b@ == squares_where(|i: int| rank_of(i) == RIVER_RANK as int),
        b.on_board(),
{
    let b = Bitboard { lo: 0x7ffc0000000000000000000, hi: 0x0 };
    proof {
        assert forall|i: int| #[trigger] b@.contains(i) == squares_where(|i: int| rank_of(i) == RIVER_RANK as int).contains(i) by {
            if 0 <= i < 128 {
                lemma_river_bits(i as u128, 0);
            } else if 128 <= i < 192 {
                lemma_river_bits(0, (i - 128) as u64);
            }
        }
        assert(b@ =~= squares_where(|i: int| rank_of(i) == RIVER_RANK as int));
    }
    b
}

proof fn lemma_black_side_bits(i: u128, k: u64)
    by (bit_vector)
    requires
        i < 128,
        k < 64,
    ensures
        (0x3fffffffffffffffffffu128 >> i) & 1u128 == 1u128 <==> (i < 78),
        (0x0u64 >> k) & 1u64 == 1u64 <==> (false),
{
}

/// The squares of black's side of the river: ranks 0-5.
pub fn black_side() -> (b: Bitboard)
    ensures
        b@ == squares_where(|i: int| own_side_rank(Side::Black, rank_of(i))),
        b.on_board(),
{
    let b = Bitboard { lo: 0x3fffffffffffffffffff, hi: 0x0 };
    proof {
        assert forall|i: int| #[trigger] b@.contains(i) == squares_where(|i: int| own_side_rank(Side::Black, rank_of(i))).contains(i) by {
            if 0 <= i < 128 {
                lemma_black_side_bits(i as u128, 0);
            } else if 128 <= i < 192 {
                lemma_black_side_bits(0, (i - 128) as u64);
            }
        }
        assert(b@ =~= squares_where(|i: int| own_side_rank(Side::Black, rank_of(i))));
    }
    b
}

proof fn lemma_white_side_bits(i: u128, k: u64)
    by (bit_vector)
    requires
        i < 128,
        k < 64,
    ensures
        (0xfffffffff80000000000000000000000u128 >> i) & 1u128 == 1u128 <==> (91 <= i && i < 128),
        (0x1ffffffffffu64 >> k) & 1u64 == 1u64 <==> (k < 41),
{
}

/// The squares of white's side of the river: ranks 7-12.
pub fn white_side() -> (b: Bitboard)
    ensures
        b@ == squares_where(|i: int| own_side_rank(Side::White, rank_of(i))),
        b.on_board(),
{
    let b = Bitboard { lo: 0xfffffffff80000000000000000000000, hi: 0x1ffffffffff };
    proof {
        assert forall|i: int| #[trigger] b@.contains(i) == squares_where(|i: int| own_side_rank(Side::White, rank_of(i))).contains(i) by {
            if 0 <= i < 128 {
                lemma_white_side_bits(i as u128, 0);
            } else if 128 <= i < 192 {
                lemma_white_side_bits(0, (i - 128) as u64);
            }
        }
        assert(b@ =~= squares_where(|i: int| own_side_rank(Side::White, rank_of(i))));
    }
    b
}

proof fn lemma_black_palace_bits(i: u128, k: u64)
    by (bit_vector)
    requires
        i < 128,
        k < 64,
    ensures
        (0x3801c00e0u128 >> i) & 1u128 == 1u128 <==> ((i == 5 || i == 6 || i == 7 || i == 18 || i == 19 || i == 20 || i == 31 || i == 32 || i == 33)),
        (0x0u64 >> k) & 1u64 == 1u64 <==> (false),
{
}

/// The squares of the black palace: ranks 0-2, files 5-7.
pub fn black_palace() -> (b: Bitboard)
    ensures
        b@ == squares_where(|i: int| palace_square(Side::Black, i)),
        b.on_board(),
{
    let b = Bitboard { lo: 0x3801c00e0, hi: 0x0 };
    proof {
        assert forall|i: int| #[trigger] b@.contains(i) == squares_where(|i: int| palace_square(Side::Black, i)).contains(i) by {
            if 0 <= i < 128 {
                lemma_black_palace_bits(i as u128, 0);
            } else if 128 <= i < 192 {
                lemma_black_palace_bits(0, (i - 128) as u64);
            }
        }
        assert(b@ =~= squares_where(|i: int| palace_square(Side::Black, i)));
    }
    b
}

proof fn lemma_white_palace_bits(i: u128, k: u64)
    by (bit_vector)
    requires
        i < 128,
        k < 64,
    ensures
        (0x0u128 >> i) & 1u128 == 1u128 <==> (false),
        (0xe00700380u64 >> k) & 1u64 == 1u64 <==> ((k == 7 || k == 8 || k == 9 || k == 20 || k == 21 || k == 22 || k == 33 || k == 34 || k == 35)),
{
}

/// The squares of the white palace: ranks 10-12, files 5-7.
pub fn white_palace() -> (b: Bitboard)
    ensures
        b@ == squares_where(|i: int| palace_square(Side::White, i)),
        b.on_board(),
{
    let b = Bitboard { lo: 0x0, hi: 0xe00700380 };
    proof {
        assert forall|i: int| #[trigger] b@.contains(i) == squares_where(|i: int| palace_square(Side::White, i)).contains(i) by {
            if 0 <= i < 128 {
                lemma_white_palace_bits(i as u128, 0);
            } else if 128 <= i < 192 {
                lemma_white_palace_bits(0, (i - 128) as u64);
            }
        }
        assert(b@ =~= squares_where(|i: int| palace_square(Side::White, i)));
    }
    b
}

proof fn lemma_black_promotion_zone_bits(i: u128, k: u64)
    by (bit_vector)
    requires
        i < 128,
        k < 64,
    ensures
        (0x0u128 >> i) & 1u128 == 1u128 <==> (false),
        (0x1fffffffffcu64 >> k) & 1u64 == 1u64 <==> (2 <= k && k < 41),
{
}

/// The squares of where black promotes: the last three ranks of white's side, ranks 10-12.
pub fn black_promotion_zone() -> (b: Bitboard)
    ensures
        b@ == squares_where(|i: int| promotion_rank(Side::Black, rank_of(i))),
        b.on_board(),
{
    let b = Bitboard { lo: 0x0, hi: 0x1fffffffffc };
    proof {
        assert forall|i: int| #[trigger] b@.contains(i) == squares_where(|i: int| promotion_rank(Side::Black, rank_of(i))).contains(i) by {
            if 0 <= i < 128 {
                lemma_black_promotion_zone_bits(i as u128, 0);
            } else if 128 <= i < 192 {
                lemma_black_promotion_zone_bits(0, (i - 128) as u64);
            }
        }
        assert(b@ =~= squares_where(|i: int| promotion_rank(Side::Black, rank_of(i))));
    }
    b
}

proof fn lemma_white_promotion_zone_bits(i: u128, k: u64)
    by (bit_vector)
    requires
        i < 128,
        k < 64,
    ensures
        (0x7fffffffffu128 >> i) & 1u128 == 1u128 <==> (i < 39),
        (0x0u64 >> k) & 1u64 == 1u64 <==> (false),
{
}

/// The squares of where white promotes: the last three ranks of black's side, ranks 0-2.
pub fn white_promotion_zone() -> (b: Bitboard)
    ensures
        b@ == squares_where(|i: int| promotion_rank(Side::White, rank_of(i))),
        b.on_board(),
{
    let b = Bitboard { lo: 0x7fffffffff, hi: 0x0 };
    proof {
        assert forall|i: int| #[trigger] b@.contains(i) == squares_where(|i: int| promotion_rank(Side::White, rank_of(i))).contains(i) by {
            if 0 <= i < 128 {
                lemma_white_promotion_zone_bits(i as u128, 0);
            } else if 128 <= i < 192 {
                lemma_white_promotion_zone_bits(0, (i - 128) as u64);
            }
        }
        assert(b@ =~= squares_where(|i: int| promotion_rank(Side::White, rank_of(i))));
    }
    b
}

proof fn lemma_black_bank_bits(i: u128, k: u64)
    by (bit_vector)
    requires
        i < 128,
        k < 64,
    ensures
        (0x3ffe0000000000000000u128 >> i) & 1u128 == 1u128 <==> (65 <= i && i < 78),
        (0x0u64 >> k) & 1u64 == 1u64 <==> (false),
{
}

/// The squares of black's bank of the river: rank 5.
pub fn black_bank() -> (b: Bitboard)
    ensures
        b@ == squares_where(|i: int| bank_rank(Side::Black, rank_of(i))),
        b.on_board(),
{
    let b = Bitboard { lo: 0x3ffe0000000000000000, hi: 0x0 };
    proof {
        assert forall|i: int| #[trigger] b@.contains(i) == squares_where(|i: int| bank_rank(Side::Black, rank_of(i))).contains(i) by {
            if 0 <= i < 128 {
                lemma_black_bank_bits(i as u128, 0);
            } else if 128 <= i < 192 {
                lemma_black_bank_bits(0, (i - 128) as u64);
            }
        }
        assert(b@ =~= squares_where(|i: int| bank_rank(Side::Black, rank_of(i))));
    }
    b
}

proof fn lemma_white_bank_bits(i: u128, k: u64)
    by (bit_vector)
    requires
        i < 128,
        k < 64,
    ensures
        (0xfff80000000000000000000000u128 >> i) & 1u128 == 1u128 <==> (91 <= i && i < 104),
        (0x0u64 >> k) & 1u64 == 1u64 <==> (false),
{
}

/// The squares of white's bank of the river: rank 7.
pub fn white_bank() -> (b: Bitboard)
    ensures
        b@ == squares_where(|i: int| bank_rank(Side::White, rank_of(i))),
        b.on_board(),
{
    let b = Bitboard { lo: 0xfff80000000000000000000000, hi: 0x0 };
    proof {
        assert forall|i: int| #[trigger] b@.contains(i) == squares_where(|i: int| bank_rank(Side::White, rank_of(i))).contains(i) by {
            if 0 <= i < 128 {
                lemma_white_bank_bits(i as u128, 0);
            } else if 128 <= i < 192 {
                lemma_white_bank_bits(0, (i - 128) as u64);
            }
        }
        assert(b@ =~= squares_where(|i: int| bank_rank(Side::White, rank_of(i))));
    }
    b
}

pub fn bank_bb(side: Side) -> (b: Bitboard)
    ensures
        b@ == squares_where(|i: int| bank_rank(side, rank_of(i))),
        b.on_board(),
{
    match side {
        Side::Black => black_bank(),
        Side::White => white_bank(),
    }
}

pub fn palace_bb(side: Side) -> (b: Bitboard)
    ensures
        b@ == squares_where(|i: int| palace_square(side, i)),
        b.on_board(),
{
    match side {
        Side::Black => black_palace(),
        Side::White => white_palace(),
    }
}

pub fn promotion_zone_bb(side: Side) -> (b: Bitboard)
    ensures
        b@ == squares_where(|i: int| promotion_rank(side, rank_of(i))),
        b.on_board(),
{
    match side {
        Side::Black => black_promotion_zone(),
        Side::White => white_promotion_zone(),
    }
}

pub fn own_side_bb(side: Side) -> (b: Bitboard)
    ensures
        b@ == squares_where(|i: int| own_side_rank(side, rank_of(i))),
        b.on_board(),
{
    match side {
        Side::Black => black_side(),
        Side::White => white_side(),
    }
}

// ---------------------------------------------------------------------------
// Masks of single squares, ranks and files
// ---------------------------------------------------------------------------

/// Mask of a single square.
pub fn square_bb(sq: Square) -> (b: Bitboard)
    requires
        sq.0 < 192,
    ensures
        b@ == Set::<int>::empty().insert(sq.0 as int),
        sq.0 < 169 ==> b.on_board(),
{
    Bitboard::from_square(sq)
}

proof fn lemma_rank_bits(s: u128, i: u128, n: u64, t: u64, k: u64)
    by (bit_vector)
    requires
        i < 128,
        k < 64,
    ensures
        s <= 115 ==> (((0x1FFFu128 << s) >> i) & 1u128 == 1u128 <==> (s <= i && i < s + 13)),
        s < 128 ==> (((!0u128 << s) >> i) & 1u128 == 1u128 <==> i >= s),
        n < 64 ==> (((((1u64 << n) - 1) as u64) >> k) & 1u64 == 1u64 <==> k < n),
        n < 64 ==> (1u64 << n) >= 1,
        n <= 41 ==> (((1u64 << n) - 1) as u64) <= 0x1FF_FFFF_FFFFu64,
        t < 64 ==> ((((0x1FFFu64 << t) & 0x1FF_FFFF_FFFFu64) >> k) & 1u64 == 1u64 <==> (t <= k && k
            < t + 13 && k < 41)),
        (0x1FFFu64 << t) & 0x1FF_FFFF_FFFFu64 <= 0x1FF_FFFF_FFFFu64,
{
}

/// Mask of a whole rank: 13 consecutive bits from `rank * 13`. Ranks past the
/// board (13 and 14) give the empty mask.
pub fn rank_bb(rank: usize) -> (b: Bitboard)
    requires
        rank <= 14,
    ensures
        b@ == squares_where(|i: int| rank_of(i) == rank),
        b.on_board(),
{
    let start = rank * FILES;
    let b = if start < 128 {
        let end = start + FILES;
        if end <= 128 {
            Bitboard { lo: 0x1FFFu128 << (start as u128), hi: 0 }
        } else {
            // the rank crosses the lo/hi boundary
            let lo_bits = !0u128 << (start as u128);
            proof {
                lemma_rank_bits(0, 0, (end - 128) as u64, 0, 0);
            }
            let hi_bits = (1u64 << ((end - 128) as u64)) - 1;
            Bitboard { lo: lo_bits, hi: hi_bits }
        }
    } else {
        Bitboard { lo: 0, hi: (0x1FFFu64 << ((start - 128) as u64)) & HI_MASK }
    };
    proof {
        assert forall|i: int| #[trigger] b@.contains(i) == squares_where(|i: int| rank_of(i) == rank).contains(i) by {
            if 0 <= i < 128 {
                if start < 128 {
                    lemma_rank_bits(start as u128, i as u128, (start + 13 - 128) as u64, 0, 0);
                } else {
                    lemma_bits128(0, 0, i as u128, 0);
                }
            } else if 128 <= i < 192 {
                if start < 128 {
                    if start + 13 <= 128 {
                        lemma_bits64(0, 0, (i - 128) as u64, 0);
                    } else {
                        lemma_rank_bits(0, 0, (start + 13 - 128) as u64, 0, (i - 128) as u64);
                    }
                } else {
                    lemma_rank_bits(0, 0, 0, (start - 128) as u64, (i - 128) as u64);
                }
            }
        }
        assert(b@ =~= squares_where(|i: int| rank_of(i) == rank));
        if start < 128 {
            if start + 13 > 128 {
                lemma_rank_bits(0, 0, (start + 13 - 128) as u64, 0, 0);
            }
        } else {
            lemma_rank_bits(0, 0, 0, (start - 128) as u64, 0);
        }
    }
    b
}

/// The squares `file + 13 * r` for the 13 ranks `r`: for a file of the board,
/// that file.
pub open spec fn file_squares(file: int) -> Set<int> {
    Set::new(|i: int| file <= i < file + 169 && (i - file) % 13 == 0)
}

/// Mask of a whole file: the squares `file`, `file + 13`, ..., `file + 156`.
pub fn file_bb(file: usize) -> (b: Bitboard)
    requires
        file < 36,
    ensures
        b@ == file_squares(file as int),
        file < FILES ==> b@ == squares_where(|i: int| file_of(i) == file),
        file < FILES ==> b.on_board(),
{
    let mut b = Bitboard::empty();
    let mut rank: usize = 0;
    while rank < RANKS
        invariant
            file < 36,
            rank <= RANKS,
            b@ == Set::new(|i: int| file <= i < file + 13 * rank && (i - file) % 13 == 0),
            file < FILES ==> b.on_board(),
        decreases RANKS - rank,
    {
        let idx = rank * FILES + file;
        let sq = Bitboard::from_square(Square(idx as u8));
        let ghost prev = b;
        b = b | sq;
        proof {
            lemma_bitwise_views(prev, sq);
            assert forall|i: int| #[trigger] b@.contains(i) == (file <= i < file + 13 * (rank + 1) && (i - file) % 13 == 0) by {
                if file <= i < file + 13 * (rank + 1) && (i - file) % 13 == 0 {
                    if i >= file + 13 * rank {
                        assert(i == idx);
                    }
                }
            }
            assert(b@ =~= Set::new(|i: int| file <= i < file + 13 * (rank + 1) && (i - file) % 13 == 0));
        }
        rank = rank + 1;
    }
    proof {
        assert(b@ =~= file_squares(file as int));
        if file < FILES {
            assert(b@ =~= squares_where(|i: int| file_of(i) == file));
        }
    }
    b
}

// ---------------------------------------------------------------------------
// Iteration
// ---------------------------------------------------------------------------

/// Walks the squares of a bitboard from the lowest up.
pub struct BitboardIter(Bitboard);

impl BitboardIter {
    /// The squares not yet returned.
    pub closed spec fn remaining(self) -> Set<int> {
        self.0@
    }

    /// The next square, lowest first; `None` once all have been returned.
    pub fn next(&mut self) -> (r: Option<Square>)
        ensures
            old(self).remaining() == Set::<int>::empty() ==> r is None && final(self).remaining()
                == old(self).remaining(),
            old(self).remaining() != Set::<int>::empty() ==> (r matches Some(sq) && is_least(
                old(self).remaining(),
                sq.0 as int,
            ) && final(self).remaining() == old(self).remaining().remove(sq.0 as int)),
    {
        self.0.pop_lsb()
    }
}

impl Bitboard {
    /// Iterates over the squares of the bitboard.
    pub fn iter(self) -> (it: BitboardIter)
        ensures
            it.remaining() == self@,
    {
        BitboardIter(self)
    }
}

// ---------------------------------------------------------------------------
// Laws of the board geometry
// ---------------------------------------------------------------------------

/// The board has 169 squares.
pub proof fn lemma_board_len()
    ensures
        board_squares().finite(),
        board_squares().len() == 169,
{
    vstd::set_lib::lemma_int_range(0, 169);
    assert(board_squares() =~= vstd::set_lib::set_int_range(0, 169));
}

/// Every rank of the board holds 13 squares; the ranks past the board hold none.
pub proof fn lemma_rank_len(rank: int)
    requires
        0 <= rank <= 14,
    ensures
        squares_where(|i: int| rank_of(i) == rank).finite(),
        squares_where(|i: int| rank_of(i) == rank).len() == if rank < 13 {
            13int
        } else {
            0int
        },
{
    let s = squares_where(|i: int| rank_of(i) == rank);
    if rank < 13 {
        vstd::set_lib::lemma_int_range(13 * rank, 13 * rank + 13);
        assert(s =~= vstd::set_lib::set_int_range(13 * rank, 13 * rank + 13));
    } else {
        assert(s =~= Set::<int>::empty());
    }
}

proof fn lemma_file_prefix_len(file: int, n: int)
    requires
        0 <= n,
    ensures
        Set::new(|i: int| file <= i < file + 13 * n && (i - file) % 13 == 0).finite(),
        Set::new(|i: int| file <= i < file + 13 * n && (i - file) % 13 == 0).len() == n,
    decreases n,
{
    let s = Set::new(|i: int| file <= i < file + 13 * n && (i - file) % 13 == 0);
    if n == 0 {
        assert(s =~= Set::<int>::empty());
    } else {
        let t = Set::new(|i: int| file <= i < file + 13 * (n - 1) && (i - file) % 13 == 0);
        lemma_file_prefix_len(file, n - 1);
        assert(s =~= t.insert(file + 13 * (n - 1)));
    }
}

/// Every file mask holds 13 squares.
pub proof fn lemma_file_len(file: int)
    ensures
        file_squares(file).finite(),
        file_squares(file).len() == 13,
{
    lemma_file_prefix_len(file, 13);
    assert(file_squares(file) =~= Set::new(
        |i: int| file <= i < file + 13 * 13 && (i - file) % 13 == 0,
    ));
}

/// The ranks of the board together cover every square.
pub proof fn lemma_ranks_cover_board()
    ensures
        squares_where(|i: int| 0 <= rank_of(i) < RANKS as int) == board_squares(),
{
    assert(squares_where(|i: int| 0 <= rank_of(i) < RANKS as int) =~= board_squares());
}

/// Each palace holds 9 squares, and the two palaces share none.
pub proof fn lemma_palaces(side: Side)
    ensures
        squares_where(|i: int| palace_square(side, i)).finite(),
        squares_where(|i: int| palace_square(side, i)).len() == 9,
        squares_where(|i: int| palace_square(Side::Black, i)).disjoint(
            squares_where(|i: int| palace_square(Side::White, i)),
        ),
{
    let s = squares_where(|i: int| palace_square(side, i));
    let base: int = match side {
        Side::Black => 0,
        Side::White => 130,
    };
    let e = Set::<int>::empty().insert(base + 5).insert(base + 6).insert(base + 7).insert(
        base + 18,
    ).insert(base + 19).insert(base + 20).insert(base + 31).insert(base + 32).insert(base + 33);
    assert(s =~= e);
    assert(e.len() == 9);
}

/// Black's side, the river and white's side split the board: they share no
/// square and together hold all 169.
pub proof fn lemma_sides_and_river()
    ensures
        ({
            let b = squares_where(|i: int| own_side_rank(Side::Black, rank_of(i)));
            let r = squares_where(|i: int| rank_of(i) == RIVER_RANK as int);
            let w = squares_where(|i: int| own_side_rank(Side::White, rank_of(i)));
            &&& b.disjoint(r)
            &&& b.disjoint(w)
            &&& w.disjoint(r)
            &&& b.union(r).union(w) == board_squares()
            &&& b.union(r).union(w).len() == 169
        }),
{
    let b = squares_where(|i: int| own_side_rank(Side::Black, rank_of(i)));
    let r = squares_where(|i: int| rank_of(i) == RIVER_RANK as int);
    let w = squares_where(|i: int| own_side_rank(Side::White, rank_of(i)));
    assert(b.union(r).union(w) =~= board_squares());
    lemma_board_len();
}

/// A square's own mask holds that square and nothing else.
pub proof fn lemma_single_square(i: int)
    ensures
        Set::<int>::empty().insert(i).finite(),
        Set::<int>::empty().insert(i).len() == 1,
        Set::<int>::empty().insert(i).contains(i),
        forall|j: int| j != i ==> !Set::<int>::empty().insert(i).contains(j),
{
}

/// Shifting a rank south gives the next rank, and shifting it north the one
/// before: `shift_south` of rank `r` is rank `r + 1`, `shift_north` of rank `r` is
/// rank `r - 1` (nothing for rank 0).
pub proof fn lemma_shift_ranks(rank: int)
    requires
        0 <= rank < 13,
    ensures
        squares_where(
            |j: int|
                j >= 13 && squares_where(|i: int| rank_of(i) == rank).contains(j - 13),
        ) == squares_where(|i: int| rank_of(i) == rank + 1),
        Set::new(|j: int| 0 <= j && squares_where(|i: int| rank_of(i) == rank).contains(j + 13))
            == squares_where(|i: int| rank_of(i) == rank - 1),
{
    assert(squares_where(
        |j: int| j >= 13 && squares_where(|i: int| rank_of(i) == rank).contains(j - 13),
    ) =~= squares_where(|i: int| rank_of(i) == rank + 1));
    assert(Set::new(
        |j: int| 0 <= j && squares_where(|i: int| rank_of(i) == rank).contains(j + 13),
    ) =~= squares_where(|i: int| rank_of(i) == rank - 1));
}

/// A square of file m has nowhere to go east, and a square of file a nowhere to
/// go west: the shifts never wrap around to the other edge.
pub proof fn lemma_shifts_do_not_wrap(b: Bitboard, j: int)
    ensures
        squares_where(|j: int| file_of(j) != 0 && b.has(j - 1)).contains(j) ==> file_of(j - 1)
            != 12,
        squares_where(|j: int| file_of(j) != 12 && b.has(j + 1)).contains(j) ==> file_of(j + 1)
            != 0,
{
}

/// Shifting south then north gives back every square but those of the last
/// rank; shifting east then west gives back every square but those of file m.
pub proof fn lemma_shifts_undo(b: Bitboard)
    requires
        b.on_board(),
    ensures
        ({
            let s = squares_where(|j: int| j >= 13 && b.has(j - 13));
            Set::new(|j: int| 0 <= j && s.contains(j + 13)) == b@.difference(
                squares_where(|i: int| rank_of(i) == 12),
            )
        }),
        ({
            let e = squares_where(|j: int| file_of(j) != 0 && b.has(j - 1));
            squares_where(|j: int| file_of(j) != 12 && e.contains(j + 1)) == b@.difference(
                squares_where(|i: int| file_of(i) == 12),
            )
        }),
{
    lemma_on_board_subset(b);
    let s = squares_where(|j: int| j >= 13 && b.has(j - 13));
    assert(Set::new(|j: int| 0 <= j && s.contains(j + 13)) =~= b@.difference(
        squares_where(|i: int| rank_of(i) == 12),
    ));
    let e = squares_where(|j: int| file_of(j) != 0 && b.has(j - 1));
    assert(squares_where(|j: int| file_of(j) != 12 && e.contains(j + 1)) =~= b@.difference(
        squares_where(|i: int| file_of(i) == 12),
    ));
}

// ---------------------------------------------------------------------------
// Text picture
// ---------------------------------------------------------------------------

/// A rank number right-aligned in two columns (0..=12).
pub open spec fn rank_pad(r: int) -> Seq<char> {
    if r == 0 {
        " 0"@
    } else if r == 1 {
        " 1"@
    } else if r == 2 {
        " 2"@
    } else if r == 3 {
        " 3"@
    } else if r == 4 {
        " 4"@
    } else if r == 5 {
        " 5"@
    } else if r == 6 {
        " 6"@
    } else if r == 7 {
        " 7"@
    } else if r == 8 {
        " 8"@
    } else if r == 9 {
        " 9"@
    } else if r == 10 {
        "10"@
    } else if r == 11 {
        "11"@
    } else {
        "12"@
    }
}

fn rank_pad_str(r: usize) -> (s: &'static str)
    requires
        r < 13,
    ensures
        s@ == rank_pad(r as int),
{
    if r == 0 {
        " 0"
    } else if r == 1 {
        " 1"
    } else if r == 2 {
        " 2"
    } else if r == 3 {
        " 3"
    } else if r == 4 {
        " 4"
    } else if r == 5 {
        " 5"
    } else if r == 6 {
        " 6"
    } else if r == 7 {
        " 7"
    } else if r == 8 {
        " 8"
    } else if r == 9 {
        " 9"
    } else if r == 10 {
        "10"
    } else if r == 11 {
        "11"
    } else {
        "12"
    }
}

/// The first `n` cells of a rank: "X" for a square the bitboard holds, "." else.
pub open spec fn grid_cells(b: Bitboard, rank: int, n: int) -> Seq<char>
    decreases n,
{
    if n <= 0 {
        Seq::empty()
    } else {
        grid_cells(b, rank, n - 1) + if b@.contains(rank * 13 + n - 1) {
            "X"@
        } else {
            "."@
        }
    }
}

/// The first `n` rank lines of the picture.
pub open spec fn grid_rows(b: Bitboard, n: int) -> Seq<char>
    decreases n,
{
    if n <= 0 {
        Seq::empty()
    } else {
        grid_rows(b, n - 1) + "  rank "@ + rank_pad(n - 1) + " |"@ + grid_cells(b, n - 1, 13) + "|\n"@
    }
}

/// The picture of a bitboard: one line per rank, top rank first.
pub open spec fn grid_text(b: Bitboard) -> Seq<char> {
    "Bitboard {\n"@ + grid_rows(b, 13) + "}"@
}

impl Bitboard {
    /// A picture of the board, one line per rank, "X" on the squares held.
    pub fn grid_string(&self) -> (s: String)
        ensures
            s@ == grid_text(*self),
    {
        let mut s = String::from_str("Bitboard {\n");
        let ghost head = s@;
        let mut rank: usize = 0;
        while rank < RANKS
            invariant
                rank <= RANKS,
                head == "Bitboard {\n"@,
                s@ == head + grid_rows(*self, rank as int),
            decreases RANKS - rank,
        {
            let ghost before = s@;
            s.append("  rank ");
            s.append(rank_pad_str(rank));
            s.append(" |");
            let ghost row_start = s@;
            let mut file: usize = 0;
            while file < FILES
                invariant
                    rank < RANKS,
                    file <= FILES,
                    s@ == row_start + grid_cells(*self, rank as int, file as int),
                decreases FILES - file,
            {
                let sq = Square::new(rank, file);
                if self.contains(sq) {
                    s.append("X");
                } else {
                    s.append(".");
                }
                file = file + 1;
            }
            s.append("|\n");
            rank = rank + 1;
        }
        s.append("}");
        s
    }
}

} // verus!
