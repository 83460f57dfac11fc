use vstd::prelude::*;

verus! {

/// `x` with the bits of `f` cleared, then set again when `on` holds.
pub open spec fn put_bit(x: u32, f: u32, on: bool) -> u32 {
    (x & !f) | (if on { f } else { 0u32 })
}

/// Whether any bit of `f` is set in `x`.
pub open spec fn bit_set(x: u32, f: u32) -> bool {
    x & f != 0
}

/// The single-bit masks that the library uses as flags.
pub open spec fn is_flag_mask(f: u32) -> bool {
    ||| f == 0x8000_0000
    ||| f == 0x4000_0000
    ||| f == 0x2000_0000
    ||| f == 0x1000_0000
    ||| f == 0x80
    ||| f == 0x40
    ||| f == 0x20
}

/// Sets or clears the bits of `f` in `x`.
pub fn put_bit_exec(x: u32, f: u32, on: bool) -> (r: u32)
    ensures
        r == put_bit(x, f, on),
{
    (x & !f) | (if on { f } else { 0u32 })
}

/// Reading back a flag that was just written gives the written value; no other
/// flag moves, and writing a flag's own value leaves the word unchanged.
pub proof fn lemma_put_bit(x: u32, f: u32, g: u32, on: bool)
    requires
        is_flag_mask(f),
        is_flag_mask(g),
    ensures
        bit_set(put_bit(x, f, on), f) == on,
        f != g ==> bit_set(put_bit(x, f, on), g) == bit_set(x, g),
        put_bit(x, f, bit_set(x, f)) == x,
        put_bit(x, f, on) & !f == x & !f,
        put_bit(x, f, on) & 0x1F == x & 0x1F,
{
    assert({
        &&& bit_set(put_bit(x, f, on), f) == on
        &&& (f != g ==> bit_set(put_bit(x, f, on), g) == bit_set(x, g))
        &&& put_bit(x, f, bit_set(x, f)) == x
        &&& put_bit(x, f, on) & !f == x & !f
        &&& put_bit(x, f, on) & 0x1F == x & 0x1F
    }) by (bit_vector)
        requires
            is_flag_mask(f),
            is_flag_mask(g),
    ;
}

/// Extracts the bit field `(x >> shift) & mask`.
pub fn field(x: u32, shift: u32, mask: u32) -> (r: u32)
    requires
        shift < 32,
    ensures
        r == (x >> shift) & mask,
        r <= mask,
{
    proof {
        assert((x >> shift) & mask <= mask) by (bit_vector);
    }
    (x >> shift) & mask
}

/// Rotation of `x` right by `n` bit positions (taken modulo 32).
pub open spec fn rotr(x: u32, n: u32) -> u32 {
    let k = n % 32;
    if k == 0 {
        x
    } else {
        (x >> k) | (x << ((32 - k) as u32))
    }
}

/// Rotates `x` right by `n` bit positions.
pub fn rotate_right(x: u32, n: u32) -> (r: u32)
    ensures
        r == rotr(x, n),
{
    let k = n % 32;
    if k == 0 {
        x
    } else {
        (x >> k) | (x << (32 - k))
    }
}

/// The number of set bits among the lowest `n` bits of `x`.
pub open spec fn popcount(x: u32, n: nat) -> nat
    decreases n,
{
    if n == 0 {
        0
    } else {
        popcount(x, (n - 1) as nat) + (if (x >> ((n - 1) as u32)) & 1 == 1 { 1nat } else { 0nat })
    }
}

proof fn lemma_popcount_bound(x: u32, n: nat)
    ensures
        popcount(x, n) <= n,
    decreases n,
{
    if n > 0 {
        lemma_popcount_bound(x, (n - 1) as nat);
    }
}

/// One more bit counted: it adds one exactly when it is set.
pub proof fn lemma_popcount_step(x: u32, i: nat)
    requires
        i < 32,
    ensures
        popcount(x, i + 1) == popcount(x, i) + (if x & (1u32 << (i as u32)) != 0 { 1nat } else { 0nat }),
{
    let k = i as u32;
    assert(((x >> k) & 1 == 1) == (x & (1u32 << k) != 0)) by (bit_vector)
        requires
            k < 32,
    ;
    assert(popcount(x, i + 1) == popcount(x, i) + (if (x >> k) & 1 == 1 { 1nat } else { 0nat }));
}

/// The count never falls as more bits are counted.
pub proof fn lemma_popcount_mono(x: u32, i: nat, j: nat)
    requires
        i <= j <= 32,
    ensures
        popcount(x, i) <= popcount(x, j),
    decreases j - i,
{
    if i < j {
        lemma_popcount_mono(x, i, (j - 1) as nat);
        lemma_popcount_step(x, (j - 1) as nat);
    }
}

/// A word with no set bit from bit `m` up counts no more bits above `m`.
pub proof fn lemma_popcount_top(x: u32, m: u32, n: nat)
    requires
        m < 32,
        m <= n <= 32,
        x >> m == 0,
    ensures
        popcount(x, n) == popcount(x, m as nat),
    decreases n,
{
    if n > m {
        let k = (n - 1) as u32;
        assert((x >> k) & 1 == 0) by (bit_vector)
            requires
                x >> m == 0,
                m <= k < 32,
        ;
        lemma_popcount_top(x, m, (n - 1) as nat);
    }
}

/// A word with no set bit from bit `m` up lists no register from `m` to 15.
pub proof fn lemma_no_bits_above(x: u32, m: u32)
    requires
        m < 32,
        m <= 16,
        x >> m == 0,
    ensures
        forall|j: nat| m <= j < 16 ==> #[trigger] (x & (1u32 << (j as u32))) == 0,
{
    lemma_popcount_top(x, m, 16);
    assert forall|j: nat| m <= j < 16 implies #[trigger] (x & (1u32 << (j as u32))) == 0 by {
        lemma_popcount_step(x, j);
        lemma_popcount_mono(x, m as nat, j);
        lemma_popcount_mono(x, j + 1, 16);
    }
}

/// A value below 2^m has no set bit from bit `m` up.
pub proof fn lemma_below_pow2(x: u32, m: u32)
    requires
        m < 32,
        x < vstd::arithmetic::power2::pow2(m as nat),
    ensures
        x >> m == 0,
{
    vstd::bits::lemma_u32_shr_is_div(x, m);
    vstd::arithmetic::power2::lemma_pow2_pos(m as nat);
    vstd::arithmetic::div_mod::lemma_fundamental_div_mod_converse(
        x as int,
        vstd::arithmetic::power2::pow2(m as nat) as int,
        0,
        x as int,
    );
}

/// Counts the set bits among the lowest `n` bits of `x`.
pub fn count_low_ones(x: u32, n: u32) -> (r: u32)
    requires
        n <= 32,
    ensures
        r == popcount(x, n as nat),
        r <= n,
{
    let mut count: u32 = 0;
    let mut i: u32 = 0;
    while i < n
        invariant
            i <= n <= 32,
            count == popcount(x, i as nat),
            count <= i,
        decreases n - i,
    {
        proof {
            lemma_popcount_bound(x, (i + 1) as nat);
        }
        if (x >> i) & 1 == 1 {
            count = count + 1;
        }
        i = i + 1;
    }
    count
}

/// The value of the low 28 bits of `v` read as a two's-complement number.
pub open spec fn sext28(v: u32) -> int {
    let low = v & 0x0FFF_FFFF;
    if low >= 0x0800_0000 {
        low - 0x1000_0000
    } else {
        low as int
    }
}

/// Sign-extends the low 28 bits of `val`.
pub fn sign_extend_28(val: u32) -> (r: i32)
    ensures
        r as int == sext28(val),
{
    let v = val & 0x0FFF_FFFF;
    proof {
        assert({
            &&& v <= 0x0FFF_FFFF
            &&& (v & 0x0800_0000 != 0) == (v >= 0x0800_0000)
            &&& (v & 0x0800_0000 != 0 ==> ((v | 0xF000_0000) as i32) as int == v - 0x1000_0000)
        }) by (bit_vector)
            requires
                v == val & 0x0FFF_FFFF,
        ;
    }
    if v & 0x0800_0000 != 0 {
        (v | 0xF000_0000) as i32
    } else {
        v as i32
    }
}

/// Little-endian combination of two bytes.
pub open spec fn le16(b0: u8, b1: u8) -> u16 {
    (b0 as u16) | ((b1 as u16) << 8u16)
}

/// Little-endian combination of four bytes.
pub open spec fn le32(b0: u8, b1: u8, b2: u8, b3: u8) -> u32 {
    (b0 as u32) | ((b1 as u32) << 8u32) | ((b2 as u32) << 16u32) | ((b3 as u32) << 24u32)
}

pub fn from_le16(b0: u8, b1: u8) -> (r: u16)
    ensures
        r == le16(b0, b1),
{
    (b0 as u16) | ((b1 as u16) << 8u16)
}

pub fn from_le32(b0: u8, b1: u8, b2: u8, b3: u8) -> (r: u32)
    ensures
        r == le32(b0, b1, b2, b3),
{
    (b0 as u32) | ((b1 as u32) << 8u32) | ((b2 as u32) << 16u32) | ((b3 as u32) << 24u32)
}

/// The low byte and the next byte of a 16-bit value give it back.
pub proof fn lemma_le16_bytes(v: u16)
    ensures
        le16(v as u8, (v >> 8u16) as u8) == v,
{
    assert(le16(v as u8, (v >> 8u16) as u8) == v) by (bit_vector);
}

/// The four bytes of a 32-bit value give it back.
pub proof fn lemma_le32_bytes(v: u32)
    ensures
        le32(v as u8, (v >> 8u32) as u8, (v >> 16u32) as u8, (v >> 24u32) as u8) == v,
{
    assert(le32(v as u8, (v >> 8u32) as u8, (v >> 16u32) as u8, (v >> 24u32) as u8) == v)
        by (bit_vector);
}


/// Masks of low bits are remainders.
pub proof fn lemma_low_bits_mod(x: u32)
    ensures
        x & 1 == x % 2,
        x & 7 == x % 8,
        x & 31 == x % 32,
        x & 0x3FF == x % 0x400,
{
    assert(x & 1 == x % 2 && x & 7 == x % 8 && x & 31 == x % 32 && x & 0x3FF == x % 0x400)
        by (bit_vector);
}

/// A masked word is bounded by the mask and by the word.
pub broadcast proof fn lemma_and_le_u32(x: u32, m: u32)
    ensures
        #[trigger] (x & m) <= m,
        x & m <= x,
{
    assert(x & m <= m && x & m <= x) by (bit_vector);
}

/// A masked half-word is bounded by the mask and by the half-word.
pub broadcast proof fn lemma_and_le_u16(x: u16, m: u16)
    ensures
        #[trigger] (x & m) <= m,
        x & m <= x,
{
    assert(x & m <= m && x & m <= x) by (bit_vector);
}

/// A masked byte is bounded by the mask and by the byte.
pub broadcast proof fn lemma_and_le_u8(x: u8, m: u8)
    ensures
        #[trigger] (x & m) <= m,
        x & m <= x,
{
    assert(x & m <= m && x & m <= x) by (bit_vector);
}

/// A right shift never grows a word.
pub broadcast proof fn lemma_shr_le_u32(x: u32, k: u32)
    ensures
        #[trigger] (x >> k) <= x,
{
    assert(x >> k <= x) by (bit_vector);
}

/// A right shift never grows a half-word.
pub broadcast proof fn lemma_shr_le_u16(x: u16, k: u16)
    ensures
        #[trigger] (x >> k) <= x,
{
    assert(x >> k <= x) by (bit_vector);
}

/// A right shift never grows a byte.
pub broadcast proof fn lemma_shr_le_u8(x: u8, k: u8)
    ensures
        #[trigger] (x >> k) <= x,
{
    assert(x >> k <= x) by (bit_vector);
}

pub broadcast group group_bounds {
    lemma_shr_le_u8,
    lemma_shr_le_u16,
    lemma_and_le_u32,
    lemma_and_le_u16,
    lemma_and_le_u8,
    lemma_shr_le_u32,
}

} // verus!
