//! Fixed-width integers as bytes, little-endian and big-endian.

use vstd::prelude::*;

verus! {

/// `count` zero bytes.
pub open spec fn zeros(count: nat) -> Seq<u8> {
    Seq::new(count, |i: int| 0u8)
}

/// Appends `count` zero bytes to `out`.
pub fn push_zeros(out: &mut Vec<u8>, count: usize)
    ensures
        final(out)@ == old(out)@ + zeros(count as nat),
{
    let mut i: usize = 0;
    assert(out@ =~= old(out)@ + zeros(0));
    while i < count
        invariant
            i <= count,
            out@ == old(out)@ + zeros(i as nat),
        decreases count - i,
    {
        out.push(0u8);
        assert(out@ =~= old(out)@ + zeros((i + 1) as nat));
        i += 1;
    }
}

/// Whether the bytes of `bytes` from `from` up to `to` are all zero.
pub fn all_zero(bytes: &[u8], from: usize, to: usize) -> (res: bool)
    requires
        from <= to <= bytes@.len(),
    ensures
        res == (bytes@.subrange(from as int, to as int) == zeros((to - from) as nat)),
{
    let mut i: usize = from;
    while i < to
        invariant
            from <= i <= to <= bytes@.len(),
            forall|j: int| from <= j < i ==> bytes@[j] == 0,
        decreases to - i,
    {
        if bytes[i] != 0 {
            assert(bytes@.subrange(from as int, to as int)[i - from] != zeros(
                (to - from) as nat,
            )[i - from]);
            return false;
        }
        i += 1;
    }
    assert(bytes@.subrange(from as int, to as int) =~= zeros((to - from) as nat));
    true
}

/// The `width` low bytes of `value`, the lowest first.
pub open spec fn le_bytes(value: nat, width: nat) -> Seq<u8>
    decreases width,
{
    if width == 0 {
        Seq::empty()
    } else {
        seq![(value % 256) as u8] + le_bytes(value / 256, (width - 1) as nat)
    }
}

/// The `width` low bytes of `value`, the highest first.
pub open spec fn be_bytes(value: nat, width: nat) -> Seq<u8>
    decreases width,
{
    if width == 0 {
        Seq::empty()
    } else {
        be_bytes(value / 256, (width - 1) as nat).push((value % 256) as u8)
    }
}

/// The number that `bytes` are the little-endian digits of.
pub open spec fn le_value(bytes: Seq<u8>) -> nat
    decreases bytes.len(),
{
    if bytes.len() == 0 {
        0
    } else {
        bytes.first() as nat + 256 * le_value(bytes.drop_first())
    }
}

/// `le_bytes` and `be_bytes` give `width` bytes.
pub proof fn lemma_bytes_len(value: nat, width: nat)
    ensures
        le_bytes(value, width).len() == width,
        be_bytes(value, width).len() == width,
    decreases width,
{
    if width > 0 {
        lemma_bytes_len(value / 256, (width - 1) as nat);
    }
}

/// Writing the number of some bytes in as many bytes gives the bytes back.
pub proof fn lemma_le_bytes_of_value(bytes: Seq<u8>)
    ensures
        le_bytes(le_value(bytes), bytes.len()) == bytes,
    decreases bytes.len(),
{
    if bytes.len() > 0 {
        let rest = bytes.drop_first();
        lemma_le_bytes_of_value(rest);
        let value = le_value(bytes);
        assert(value % 256 == bytes.first() as nat && value / 256 == le_value(rest)) by {
            assert(value == bytes.first() as nat + 256 * le_value(rest));
        }
        assert(seq![bytes.first()] + rest =~= bytes);
    } else {
        assert(le_bytes(le_value(bytes), 0) =~= bytes);
    }
}

/// The number of `width` bytes is below `256` to the power of `width`;
/// stated for the widths in use.
pub proof fn lemma_le_value_bound(bytes: Seq<u8>)
    ensures
        bytes.len() == 2 ==> le_value(bytes) <= u16::MAX,
        bytes.len() == 4 ==> le_value(bytes) <= u32::MAX,
        bytes.len() == 8 ==> le_value(bytes) <= u64::MAX,
{
    reveal_with_fuel(le_value, 9);
}

/// How the number of the `width` low bytes of a number is made up of its
/// lowest byte and the number of the others.
pub proof fn lemma_le_value_of_bytes(value: nat, width: nat)
    ensures
        width == 0 ==> le_value(le_bytes(value, width)) == 0,
        width > 0 ==> le_value(le_bytes(value, width)) == value % 256 + 256 * le_value(
            le_bytes(value / 256, (width - 1) as nat),
        ),
    decreases width,
{
    if width > 0 {
        let b = le_bytes(value, width);
        assert(b.first() == (value % 256) as u8);
        assert(b.drop_first() =~= le_bytes(value / 256, (width - 1) as nat));
    }
}

/// Reading back the two bytes of a `u16` gives the number.
pub proof fn lemma_le_value_of_u16(value: u16)
    ensures
        le_value(le_bytes(value as nat, 2)) == value,
{
    let v = value as nat;
    lemma_le_value_of_bytes(v, 2);
    lemma_le_value_of_bytes(v / 256, 1);
    lemma_le_value_of_bytes(v / 256 / 256, 0);
}

/// Reading back the four bytes of a `u32` gives the number.
pub proof fn lemma_le_value_of_u32(value: u32)
    ensures
        le_value(le_bytes(value as nat, 4)) == value,
{
    let v = value as nat;
    lemma_le_value_of_bytes(v, 4);
    lemma_le_value_of_bytes(v / 256, 3);
    lemma_le_value_of_bytes(v / 256 / 256, 2);
    lemma_le_value_of_bytes(v / 256 / 256 / 256, 1);
    lemma_le_value_of_bytes(v / 256 / 256 / 256 / 256, 0);
}

/// Reading back the eight bytes of a `u64` gives the number.
pub proof fn lemma_le_value_of_u64(value: u64)
    ensures
        le_value(le_bytes(value as nat, 8)) == value,
{
    let v = value as nat;
    lemma_le_value_of_bytes(v, 8);
    let v1 = v / 256;
    lemma_le_value_of_bytes(v1, 7);
    let v2 = v1 / 256;
    lemma_le_value_of_bytes(v2, 6);
    let v3 = v2 / 256;
    lemma_le_value_of_bytes(v3, 5);
    let v4 = v3 / 256;
    lemma_le_value_of_bytes(v4, 4);
    let v5 = v4 / 256;
    lemma_le_value_of_bytes(v5, 3);
    let v6 = v5 / 256;
    lemma_le_value_of_bytes(v6, 2);
    let v7 = v6 / 256;
    lemma_le_value_of_bytes(v7, 1);
    lemma_le_value_of_bytes(v7 / 256, 0);
}

/// Appends the `width` low bytes of `value` to `out`, the lowest first.
pub fn push_le(out: &mut Vec<u8>, value: u64, width: usize)
    ensures
        final(out)@ == old(out)@ + le_bytes(value as nat, width as nat),
{
    let mut rest = value;
    let mut i: usize = 0;
    while i < width
        invariant
            i <= width,
            out@ + le_bytes(rest as nat, (width - i) as nat) == old(out)@ + le_bytes(
                value as nat,
                width as nat,
            ),
        decreases width - i,
    {
        let ghost before = out@;
        out.push((rest % 256) as u8);
        proof {
            let tail = le_bytes(rest as nat / 256, (width - i - 1) as nat);
            assert(before + le_bytes(rest as nat, (width - i) as nat) =~= before.push(
                (rest % 256) as u8,
            ) + tail);
        }
        rest = rest / 256;
        i += 1;
    }
    assert(out@ + le_bytes(rest as nat, 0) =~= out@);
}

/// The number that the `width` bytes of `bytes` from `at` on are the
/// little-endian digits of.
pub fn read_le(bytes: &[u8], at: usize, width: usize) -> (res: u64)
    requires
        width <= 8,
        at + width <= bytes@.len(),
    ensures
        res == le_value(bytes@.subrange(at as int, at + width)),
{
    let mut value: u64 = 0;
    let mut i: usize = width;
    let length = bytes.len();
    proof {
        assert(bytes@.subrange(at + width, at + width) =~= Seq::<u8>::empty());
    }
    while i > 0
        invariant
            i <= width <= 8,
            at + width <= length == bytes@.len(),
            value == le_value(bytes@.subrange(at + i, at + width)),
            value < pow256((width - i) as nat),
        decreases i,
    {
        i -= 1;
        proof {
            let tail = bytes@.subrange(at + i, at + width);
            assert(tail.drop_first() =~= bytes@.subrange(at + i + 1, at + width));
            assert(tail.first() == bytes@[at + i]);
            lemma_pow256_values();
        }
        value = value * 256 + bytes[at + i] as u64;
    }
    value
}

/// `256` to the power of `n`.
pub open spec fn pow256(n: nat) -> nat
    decreases n,
{
    if n == 0 {
        1
    } else {
        256 * pow256((n - 1) as nat)
    }
}

/// The powers of `256` up to the eighth.
pub proof fn lemma_pow256_values()
    ensures
        pow256(0) == 1,
        pow256(1) == 0x100,
        pow256(2) == 0x1_0000,
        pow256(3) == 0x100_0000,
        pow256(4) == 0x1_0000_0000,
        pow256(5) == 0x100_0000_0000,
        pow256(6) == 0x1_0000_0000_0000,
        pow256(7) == 0x100_0000_0000_0000,
        pow256(8) == 0x1_0000_0000_0000_0000,
{
    reveal_with_fuel(pow256, 9);
}

} // verus!

verus! {

/// The array that holds the `N` bytes of `bytes`.
pub fn array_from_slice<const N: usize>(bytes: &[u8]) -> (res: [u8; N])
    requires
        bytes@.len() == N,
    ensures
        res@ == bytes@,
{
    let mut array = [0u8; N];
    let mut i: usize = 0;
    while i < N
        invariant
            i <= N,
            bytes@.len() == N,
            forall|j: int| 0 <= j < i ==> array@[j] == bytes@[j],
        decreases N - i,
    {
        array[i] = bytes[i];
        i += 1;
    }
    assert(array@ =~= bytes@);
    array
}

/// Whether `bytes` begins with `prefix`.
pub open spec fn begins_with(bytes: Seq<u8>, prefix: Seq<u8>) -> bool {
    bytes.len() >= prefix.len() && bytes.take(prefix.len() as int) == prefix
}

/// Computes `begins_with`.
pub fn starts_with(bytes: &[u8], prefix: &[u8]) -> (res: bool)
    ensures
        res == begins_with(bytes@, prefix@),
{
    if bytes.len() < prefix.len() {
        return false;
    }
    let mut i: usize = 0;
    while i < prefix.len()
        invariant
            i <= prefix@.len() <= bytes@.len(),
            forall|j: int| 0 <= j < i ==> bytes@[j] == prefix@[j],
        decreases prefix@.len() - i,
    {
        if bytes[i] != prefix[i] {
            assert(bytes@.take(prefix@.len() as int)[i as int] != prefix@[i as int]);
            return false;
        }
        i += 1;
    }
    assert(bytes@.take(prefix@.len() as int) =~= prefix@);
    true
}

} // verus!
