//! Unsigned LEB128: seven bits of the number in each byte, least significant
//! group first, and the high bit of a byte set while more bytes follow.

use vstd::prelude::*;

verus! {

/// The LEB128 encoding of `v`.
pub open spec fn varint(v: nat) -> Seq<u8>
    decreases v,
{
    if v < 128 {
        seq![v as u8]
    } else {
        seq![(128 + v % 128) as u8] + varint(v / 128)
    }
}

/// How many bytes `varint(v)` has.
pub open spec fn varint_len(v: nat) -> nat
    decreases v,
{
    if v < 128 {
        1
    } else {
        1 + varint_len(v / 128)
    }
}

/// The index of the first byte of `s` whose high bit is clear: the byte that
/// ends a number. `None` where every byte of `s` asks for another.
pub open spec fn varint_stop(s: Seq<u8>) -> Option<int>
    decreases s.len(),
{
    if s.len() == 0 {
        None
    } else if s[0] < 128 {
        Some(0)
    } else {
        match varint_stop(s.skip(1)) {
            Some(k) => Some(k + 1),
            None => None,
        }
    }
}

/// The number that the low seven bits of the first `n` bytes of `s` spell,
/// least significant group first.
pub open spec fn varint_value(s: Seq<u8>, n: nat) -> nat
    decreases n,
{
    if n == 0 || s.len() == 0 {
        0
    } else {
        (s[0] % 128) as nat + 128 * varint_value(s.skip(1), (n - 1) as nat)
    }
}

/// What reading one number from the front of `s` gives.
pub enum VarintRead {
    /// A number, and how many bytes it took.
    Value { value: nat, len: nat },
    /// The bytes spell a number that 64 bits cannot hold.
    Overflow,
    /// `s` ends before the number does.
    Truncated,
}

/// Reads one number from the front of `s`. A number has at most ten bytes,
/// and a tenth byte may only be 0 or 1: anything else does not fit in 64
/// bits, however many bytes follow.
pub open spec fn varint_read(s: Seq<u8>) -> VarintRead {
    match varint_stop(s) {
        None => VarintRead::Truncated,
        Some(k) => if k < 9 || (k == 9 && s[9] <= 1) {
            VarintRead::Value { value: varint_value(s, (k + 1) as nat), len: (k + 1) as nat }
        } else {
            VarintRead::Overflow
        },
    }
}

/// Why a number could not be read.
#[derive(Clone, Copy, Debug, PartialEq, Eq, Structural)]
pub enum VarintError {
    /// The input ended inside the number.
    UnexpectedEof,
    /// The number does not fit in 64 bits.
    Overflow,
}

/// `varint_len` is the length of `varint`, and no number takes less than a
/// byte.
pub proof fn lemma_varint_len(v: nat)
    ensures
        varint(v).len() == varint_len(v),
        1 <= varint_len(v),
    decreases v,
{
    if v >= 128 {
        lemma_varint_len(v / 128);
    }
}

/// 128 to the power `k`.
pub open spec fn pow128(k: nat) -> nat
    decreases k,
{
    if k == 0 {
        1
    } else {
        128 * pow128((k - 1) as nat)
    }
}

/// A number below `128^k` takes at most `k` bytes.
pub proof fn lemma_varint_len_bound(v: nat, k: nat)
    requires
        k >= 1,
        v < pow128(k),
    ensures
        varint_len(v) <= k,
    decreases k,
{
    if v >= 128 {
        assert(k >= 2) by {
            reveal_with_fuel(pow128, 2);
        }
        lemma_varint_len_bound(v / 128, (k - 1) as nat);
    }
}

/// Where `v` takes exactly `k` bytes and is below `2 * 128^(k-1)`, the last of
/// them is 0 or 1.
pub proof fn lemma_varint_last_byte(v: nat, k: nat)
    requires
        k >= 1,
        varint_len(v) == k,
        v < 2 * pow128((k - 1) as nat),
    ensures
        varint(v).len() == k,
        varint(v)[k - 1] <= 1,
    decreases k,
{
    lemma_varint_len(v);
    if v < 128 {
        reveal_with_fuel(pow128, 1);
    } else {
        lemma_varint_len(v / 128);
        lemma_varint_last_byte(v / 128, (k - 1) as nat);
        assert(varint(v)[k - 1] == varint(v / 128)[k - 2]);
    }
}

/// Every 64-bit number takes at most ten bytes, and where it takes ten the
/// tenth is 0 or 1.
pub proof fn lemma_varint_u64(v: u64)
    ensures
        1 <= varint_len(v as nat) <= 10,
        varint(v as nat).len() == varint_len(v as nat),
        varint_len(v as nat) == 10 ==> varint(v as nat)[9] <= 1,
{
    let n = v as nat;
    lemma_varint_len(n);
    assert(pow128(9) == 0x8000_0000_0000_0000) by {
        reveal_with_fuel(pow128, 10);
    }
    assert(pow128(10) == 128 * pow128(9)) by {
        reveal_with_fuel(pow128, 2);
    }
    lemma_varint_len_bound(n, 10);
    if varint_len(n) == 10 {
        lemma_varint_last_byte(n, 10);
    }
}

/// The bytes of `varint(v)` all ask for another but the last.
pub proof fn lemma_varint_stop(v: nat, rest: Seq<u8>)
    ensures
        varint_stop(varint(v) + rest) == Some(varint_len(v) - 1),
    decreases v,
{
    let s = varint(v) + rest;
    if v >= 128 {
        lemma_varint_stop(v / 128, rest);
        assert(s.skip(1) =~= varint(v / 128) + rest);
        assert(s[0] >= 128);
    } else {
        assert(s[0] == v);
    }
}

/// The bytes of `varint(v)` spell `v`, whatever follows them.
pub proof fn lemma_varint_value(v: nat, rest: Seq<u8>)
    ensures
        varint_value(varint(v) + rest, varint_len(v)) == v,
    decreases v,
{
    let s = varint(v) + rest;
    lemma_varint_len(v);
    if v >= 128 {
        lemma_varint_value(v / 128, rest);
        assert(s.skip(1) =~= varint(v / 128) + rest);
        assert(s[0] == 128 + v % 128);
    } else {
        assert(s[0] == v);
        assert(varint_value(s.skip(1), 0) == 0);
    }
}

/// Reading gives back what was written: the encoding of a 64-bit number,
/// followed by anything, reads as that number and its own length.
pub proof fn lemma_varint_round_trip(v: u64, rest: Seq<u8>)
    ensures
        varint_read(varint(v as nat) + rest) == (VarintRead::Value {
            value: v as nat,
            len: varint_len(v as nat),
        }),
{
    let n = v as nat;
    let s = varint(n) + rest;
    lemma_varint_u64(v);
    lemma_varint_stop(n, rest);
    lemma_varint_value(n, rest);
    if varint_len(n) == 10 {
        assert(s[9] == varint(n)[9]);
    }
}

/// What `n` bytes spell lies below `128^n`.
pub proof fn lemma_varint_value_bound(s: Seq<u8>, n: nat)
    ensures
        varint_value(s, n) < pow128(n),
    decreases n,
{
    if n == 0 || s.len() == 0 {
        lemma_pow128_positive(n);
    } else {
        lemma_varint_value_bound(s.skip(1), (n - 1) as nat);
    }
}

/// No power of 128 is zero.
pub proof fn lemma_pow128_positive(k: nat)
    ensures
        pow128(k) >= 1,
    decreases k,
{
    if k > 0 {
        lemma_pow128_positive((k - 1) as nat);
    }
}

/// What reads as a number fits in 64 bits and lies inside `s`.
pub proof fn lemma_varint_read_fits(s: Seq<u8>)
    ensures
        match varint_read(s) {
            VarintRead::Value { value, len } => value <= u64::MAX && 1 <= len <= 10 && len
                <= s.len(),
            _ => true,
        },
{
    lemma_varint_stop_in_range(s);
    match varint_stop(s) {
        Some(k) => {
            assert(pow128(9) == 0x8000_0000_0000_0000) by {
                reveal_with_fuel(pow128, 10);
            }
            if k < 9 {
                lemma_varint_value_bound(s, (k + 1) as nat);
                lemma_pow128_monotonic((k + 1) as nat, 9);
            } else if k == 9 && s[9] <= 1 {
                lemma_varint_value_split(s, 9);
                lemma_varint_value_bound(s, 9);
                assert(varint_value(s.skip(9), 1) == s[9] % 128) by {
                    assert(s.skip(9)[0] == s[9]);
                    assert(varint_value(s.skip(9).skip(1), 0) == 0);
                }
            }
        },
        None => {},
    }
}

/// What `varint_stop` finds is the first byte of `s` below 128; where it
/// finds none, `s` has none.
pub proof fn lemma_varint_stop_in_range(s: Seq<u8>)
    ensures
        match varint_stop(s) {
            Some(k) => 0 <= k < s.len() && s[k] < 128 && forall|j: int|
                0 <= j < k ==> s[j] >= 128,
            None => forall|j: int| 0 <= j < s.len() ==> s[j] >= 128,
        },
    decreases s.len(),
{
    if s.len() > 0 && s[0] >= 128 {
        let t = s.skip(1);
        lemma_varint_stop_in_range(t);
        match varint_stop(t) {
            Some(k) => {
                assert(s[k + 1] == t[k]);
                assert forall|j: int| 0 <= j < k + 1 implies s[j] >= 128 by {
                    if j > 0 {
                        assert(s[j] == t[j - 1]);
                    }
                }
            },
            None => {
                assert forall|j: int| 0 <= j < s.len() implies s[j] >= 128 by {
                    if j > 0 {
                        assert(s[j] == t[j - 1]);
                    }
                }
            },
        }
    }
}

/// The powers of 128 grow with the exponent.
pub proof fn lemma_pow128_monotonic(a: nat, b: nat)
    requires
        a <= b,
    ensures
        pow128(a) <= pow128(b),
    decreases b,
{
    if a < b {
        lemma_pow128_monotonic(a, (b - 1) as nat);
        lemma_pow128_positive((b - 1) as nat);
    }
}

/// The first `a + 1` bytes spell what the first `a` spell, plus `128^a`
/// times what the byte after them spells.
pub proof fn lemma_varint_value_split(s: Seq<u8>, a: nat)
    requires
        a < s.len(),
    ensures
        varint_value(s, a + 1) == varint_value(s, a) + pow128(a) * varint_value(s.skip(a as int), 1),
    decreases a,
{
    if a == 0 {
        assert(s.skip(0) =~= s);
        assert(pow128(0) == 1);
        assert(varint_value(s, 0) == 0);
    } else {
        let t = s.skip(1);
        lemma_varint_value_split(t, (a - 1) as nat);
        assert(t.skip(a - 1) =~= s.skip(a as int));
        let x = varint_value(s.skip(a as int), 1);
        assert(128 * (pow128((a - 1) as nat) * x) == pow128(a) * x) by (nonlinear_arith)
            requires
                pow128(a) == 128 * pow128((a - 1) as nat),
        ;
    }
}

/// A number that ends inside `s` is not changed by what follows `s`: it
/// reads the same, or overflows the same, from `s + more`.
pub proof fn lemma_varint_read_extends(s: Seq<u8>, more: Seq<u8>)
    requires
        !(varint_read(s) is Truncated),
    ensures
        varint_read(s + more) == varint_read(s),
{
    lemma_varint_stop_extends(s, more);
    lemma_varint_stop_in_range(s);
    let k = varint_stop(s)->0;
    lemma_varint_value_extends(s, more, (k + 1) as nat);
    if k >= 9 {
        assert((s + more)[9] == s[9]);
    }
}

proof fn lemma_varint_stop_extends(s: Seq<u8>, more: Seq<u8>)
    requires
        varint_stop(s) is Some,
    ensures
        varint_stop(s + more) == varint_stop(s),
    decreases s.len(),
{
    assert((s + more)[0] == s[0]);
    if s[0] >= 128 {
        assert((s + more).skip(1) =~= s.skip(1) + more);
        lemma_varint_stop_extends(s.skip(1), more);
    }
}

proof fn lemma_varint_value_extends(s: Seq<u8>, more: Seq<u8>, n: nat)
    requires
        n <= s.len(),
    ensures
        varint_value(s + more, n) == varint_value(s, n),
    decreases n,
{
    if n > 0 {
        assert((s + more)[0] == s[0]);
        assert((s + more).skip(1) =~= s.skip(1) + more);
        lemma_varint_value_extends(s.skip(1), more, (n - 1) as nat);
    }
}

/// `leb128::write::unsigned_len`: the number of bytes that the encoding of
/// `val` takes. The crate counts one byte, and one more for each further
/// group of seven bits that is not all zero above it.
pub assume_specification[ leb128::write::unsigned_len ](val: u64) -> (n: usize)
    ensures
        n == varint_len(val as nat),
;

/// `leb128::read::unsigned` on the bytes of `data` from `start` on. The crate
/// takes one byte at a time until one has its high bit clear, and gives the
/// number that their low seven bits spell. A tenth byte other than 0 or 1 is
/// an overflow, reported once the number's last byte has been passed. Where
/// the bytes run out first, the reader's end-of-input error comes back
/// instead. The second part of the result is how many bytes were left unread.
#[verifier::external_body]
fn read_unsigned(data: &[u8], start: usize) -> (r: (Result<u64, VarintError>, usize))
    requires
        start <= data.len(),
    ensures
        match varint_read(data@.skip(start as int)) {
            VarintRead::Value { value, len } => r.0 == Ok::<u64, VarintError>(value as u64)
                && r.1 + len + start == data.len(),
            VarintRead::Overflow => r.0 == Err::<u64, VarintError>(VarintError::Overflow),
            VarintRead::Truncated => r.0 == Err::<u64, VarintError>(VarintError::UnexpectedEof),
        },
{
    let mut rest = &data[start..];
    let value = match leb128::read::unsigned(&mut rest) {
        Ok(v) => Ok(v),
        Err(leb128::read::Error::Overflow) => Err(VarintError::Overflow),
        Err(leb128::read::Error::IoError(_)) => Err(VarintError::UnexpectedEof),
    };
    (value, rest.len())
}

/// The bytes of `s` from `start` on; none where `start` lies past the end.
pub open spec fn tail(s: Seq<u8>, start: int) -> Seq<u8> {
    if 0 <= start <= s.len() {
        s.skip(start)
    } else {
        Seq::empty()
    }
}

/// Reads one number from `data` at `start`, and says where the next byte
/// after it lies.
pub fn read_u64(data: &[u8], start: usize) -> (r: Result<(u64, usize), VarintError>)
    ensures
        match varint_read(tail(data@, start as int)) {
            VarintRead::Value { value, len } => r matches Ok((v, next)) && v == value && next
                == start + len && next <= data@.len(),
            VarintRead::Overflow => r == Err::<(u64, usize), VarintError>(VarintError::Overflow),
            VarintRead::Truncated => r == Err::<(u64, usize), VarintError>(
                VarintError::UnexpectedEof,
            ),
        },
{
    if start > data.len() {
        return Err(VarintError::UnexpectedEof);
    }
    proof {
        lemma_varint_read_fits(data@.skip(start as int));
    }
    let (value, left) = read_unsigned(data, start);
    match value {
        Ok(v) => Ok((v, data.len() - left)),
        Err(e) => Err(e),
    }
}

/// Appends the encoding of `value` to `buf` and returns how many bytes that
/// took.
pub fn write_unsigned(buf: &mut Vec<u8>, value: u64) -> (n: usize)
    ensures
        final(buf)@ == old(buf)@ + varint(value as nat),
        n == varint_len(value as nat),
{
    let ghost start = buf@;
    let mut val: u64 = value;
    let mut n: usize = 0;
    proof {
        lemma_varint_u64(value);
    }
    loop
        invariant
            start == old(buf)@,
            start + varint(value as nat) == buf@ + varint(val as nat),
            n + varint_len(val as nat) == varint_len(value as nat),
            varint_len(value as nat) <= 10,
        decreases val,
    {
        assert(val & 0x7f == val % 128 && val >> 7 == val / 128) by (bit_vector);
        let low: u8 = (val & 0x7f) as u8;
        let next: u64 = val >> 7;
        n = n + 1;
        if next == 0 {
            buf.push(low);
            assert(buf@ =~= start + varint(value as nat));
            return n;
        }
        assert(low | 0x80 == 128 + low) by (bit_vector)
            requires
                low < 128,
        ;
        let ghost before = buf@;
        buf.push(low | 0x80);
        assert(buf@ + varint(next as nat) =~= before + varint(val as nat));
        val = next;
    }
}

} // verus!
