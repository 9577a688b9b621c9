//! Small operations on byte strings.

use vstd::prelude::*;

verus! {

/// Compares two byte strings.
pub fn bytes_equal(a: &[u8], b: &[u8]) -> (same: bool)
    ensures
        same == (a@ == b@),
{
    if a.len() != b.len() {
        return false;
    }
    let mut i: usize = 0;
    while i < a.len()
        invariant
            i <= a@.len(),
            a@.len() == b@.len(),
            forall|j: int| 0 <= j < i ==> a@[j] == b@[j],
        decreases a@.len() - i,
    {
        if a[i] != b[i] {
            return false;
        }
        i += 1;
    }
    assert(a@ =~= b@);
    true
}

/// Appends `src` to `dst`.
pub fn append_bytes(dst: &mut Vec<u8>, src: &[u8])
    ensures
        final(dst)@ == old(dst)@ + src@,
{
    let mut i: usize = 0;
    while i < src.len()
        invariant
            i <= src@.len(),
            dst@ == old(dst)@ + src@.subrange(0, i as int),
        decreases src@.len() - i,
    {
        dst.push(src[i]);
        assert(dst@ =~= old(dst)@ + src@.subrange(0, i + 1));
        i += 1;
    }
    assert(src@.subrange(0, src@.len() as int) =~= src@);
}

/// Copies bytes `from..to` of `src`.
pub fn copy_range(src: &[u8], from: usize, to: usize) -> (out: Vec<u8>)
    requires
        from <= to <= src@.len(),
    ensures
        out@ == src@.subrange(from as int, to as int),
{
    let mut out: Vec<u8> = Vec::new();
    let mut i: usize = from;
    while i < to
        invariant
            from <= i <= to <= src@.len(),
            out@ == src@.subrange(from as int, i as int),
        decreases to - i,
    {
        out.push(src[i]);
        assert(out@ =~= src@.subrange(from as int, i + 1));
        i += 1;
    }
    out
}

/// Copies the 32 bytes of `src` that start at `from`.
pub fn array32_at(src: &[u8], from: usize) -> (out: [u8; 32])
    requires
        from + 32 <= src@.len(),
    ensures
        out@ == src@.subrange(from as int, from + 32),
{
    let len = src.len();
    let mut out = [0u8; 32];
    let mut i: usize = 0;
    while i < 32
        invariant
            i <= 32,
            len == src@.len(),
            from + 32 <= len,
            forall|j: int| 0 <= j < i ==> out@[j] == src@[from + j],
        decreases 32 - i,
    {
        out[i] = src[from + i];
        i += 1;
    }
    assert(out@ =~= src@.subrange(from as int, from + 32));
    out
}

/// Copies the 16 bytes of `src` that start at `from`.
pub fn array16_at(src: &[u8], from: usize) -> (out: [u8; 16])
    requires
        from + 16 <= src@.len(),
    ensures
        out@ == src@.subrange(from as int, from + 16),
{
    let len = src.len();
    let mut out = [0u8; 16];
    let mut i: usize = 0;
    while i < 16
        invariant
            i <= 16,
            len == src@.len(),
            from + 16 <= len,
            forall|j: int| 0 <= j < i ==> out@[j] == src@[from + j],
        decreases 16 - i,
    {
        out[i] = src[from + i];
        i += 1;
    }
    assert(out@ =~= src@.subrange(from as int, from + 16));
    out
}

/// Copies the 64 bytes of `src` that start at `from`.
pub fn array64_at(src: &[u8], from: usize) -> (out: [u8; 64])
    requires
        from + 64 <= src@.len(),
    ensures
        out@ == src@.subrange(from as int, from + 64),
{
    let len = src.len();
    let mut out = [0u8; 64];
    let mut i: usize = 0;
    while i < 64
        invariant
            i <= 64,
            len == src@.len(),
            from + 64 <= len,
            forall|j: int| 0 <= j < i ==> out@[j] == src@[from + j],
        decreases 64 - i,
    {
        out[i] = src[from + i];
        i += 1;
    }
    assert(out@ =~= src@.subrange(from as int, from + 64));
    out
}

/// True when every byte is zero.
pub fn all_zero(bytes: &[u8]) -> (zero: bool)
    ensures
        zero <==> forall|i: int| 0 <= i < bytes@.len() ==> bytes@[i] == 0,
{
    let mut i: usize = 0;
    while i < bytes.len()
        invariant
            i <= bytes@.len(),
            forall|j: int| 0 <= j < i ==> bytes@[j] == 0,
        decreases bytes@.len() - i,
    {
        if bytes[i] != 0 {
            return false;
        }
        i += 1;
    }
    true
}

/// Compares two texts.
pub fn text_equal(a: &str, b: &str) -> (same: bool)
    ensures
        same == (a@ == b@),
{
    let left = a.to_owned();
    let right = b.to_owned();
    left == right
}

/// 256 to the power of `n`.
pub open spec fn pow256(n: nat) -> int
    decreases n,
{
    if n == 0 {
        1
    } else {
        256 * pow256((n - 1) as nat)
    }
}

/// The number that bytes stand for, the first byte counting most.
pub open spec fn be_value(bytes: Seq<u8>) -> int
    decreases bytes.len(),
{
    if bytes.len() == 0 {
        0
    } else {
        be_value(bytes.drop_last()) * 256 + bytes.last()
    }
}

/// The `len` bytes that stand for `value`, the first byte counting most.
pub open spec fn be_bytes(value: int, len: nat) -> Seq<u8>
    decreases len,
{
    if len == 0 {
        Seq::empty()
    } else {
        be_bytes(value / 256, (len - 1) as nat).push((value % 256) as u8)
    }
}

/// Sixteen bytes count up to the limit of a `u128`.
pub proof fn lemma_pow256_sixteen()
    ensures
        pow256(16) == 0x1_0000_0000_0000_0000_0000_0000_0000_0000,
{
    reveal_with_fuel(pow256, 17);
}

/// The number of `n` bytes is below 256 to the `n`.
pub proof fn lemma_be_value_bound(bytes: Seq<u8>)
    ensures
        0 <= be_value(bytes) < pow256(bytes.len()),
    decreases bytes.len(),
{
    if bytes.len() > 0 {
        lemma_be_value_bound(bytes.drop_last());
    }
}

/// `len` bytes are `len` bytes.
pub proof fn lemma_be_bytes_len(value: int, len: nat)
    ensures
        be_bytes(value, len).len() == len,
    decreases len,
{
    if len > 0 {
        lemma_be_bytes_len(value / 256, (len - 1) as nat);
    }
}

/// Writing a number that fits and reading it back gives the number.
pub proof fn lemma_be_round_trip(value: int, len: nat)
    requires
        0 <= value < pow256(len),
    ensures
        be_value(be_bytes(value, len)) == value,
    decreases len,
{
    if len > 0 {
        let rest = be_bytes(value / 256, (len - 1) as nat);
        lemma_be_round_trip(value / 256, (len - 1) as nat);
        assert(be_bytes(value, len).drop_last() =~= rest);
    }
}

/// Writes a number as 16 bytes, the first byte counting most.
pub fn u128_to_be_bytes(value: u128) -> (out: [u8; 16])
    ensures
        out@ == be_bytes(value as int, 16),
        be_value(out@) == value,
{
    let mut out = [0u8; 16];
    let mut rest: u128 = value;
    let mut filled: usize = 0;
    assert(be_bytes(rest as int, 16) + out@.subrange(16, 16) =~= be_bytes(value as int, 16));
    while filled < 16
        invariant
            filled <= 16,
            be_bytes(value as int, 16) == be_bytes(rest as int,
                (16 - filled) as nat) + out@.subrange(
                16 - filled,
                16,
            ),
        decreases 16 - filled,
    {
        let ghost before = out@;
        let ghost head = be_bytes((rest / 256) as int, (16 - filled - 1) as nat);
        out[16 - filled - 1] = (rest % 256) as u8;
        proof {
            assert(be_bytes(rest as int, (16 - filled) as nat) == head.push((rest % 256) as u8));
            assert(out@.subrange(16 - filled - 1,
                16) =~= seq![(rest % 256) as u8] + before.subrange(
                16 - filled,
                16,
            ));
            assert(head.push((rest % 256) as u8) + before.subrange(16 - filled, 16) =~= head
                + out@.subrange(16 - filled - 1, 16));
        }
        rest = rest / 256;
        filled += 1;
    }
    proof {
        assert(be_bytes(rest as int, 0) + out@.subrange(0, 16) =~= out@);
        lemma_pow256_sixteen();
        lemma_be_round_trip(value as int, 16);
    }
    out
}

/// Reads the number that the 16 bytes from `from` on stand for.
pub fn be_u128_at(bytes: &[u8], from: usize) -> (value: u128)
    requires
        from + 16 <= bytes@.len(),
    ensures
        value == be_value(bytes@.subrange(from as int, from + 16)),
{
    let len = bytes.len();
    let mut value: u128 = 0;
    let mut i: usize = 0;
    assert(bytes@.subrange(from as int, from as int) =~= Seq::<u8>::empty());
    while i < 16
        invariant
            i <= 16,
            len == bytes@.len(),
            from + 16 <= len,
            value == be_value(bytes@.subrange(from as int, from + i)),
        decreases 16 - i,
    {
        proof {
            let read = bytes@.subrange(from as int, from + i);
            let more = bytes@.subrange(from as int, from + i + 1);
            assert(more.drop_last() =~= read);
            lemma_be_value_bound(read);
            lemma_be_value_bound(more);
            lemma_pow256_grows((i + 1) as nat, 16);
            lemma_pow256_sixteen();
        }
        value = value * 256 + bytes[from + i] as u128;
        i += 1;
    }
    value
}

/// A greater power is a greater number.
pub proof fn lemma_pow256_grows(low: nat, high: nat)
    requires
        low <= high,
    ensures
        0 < pow256(low) <= pow256(high),
    decreases high,
{
    if low < high {
        lemma_pow256_grows(low, (high - 1) as nat);
    } else if low > 0 {
        lemma_pow256_grows((low - 1) as nat, (low - 1) as nat);
    }
}

} // verus!
