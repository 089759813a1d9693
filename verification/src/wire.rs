//! Variable-length integers and byte strings as they stand on the wire.
//!
//! An unsigned integer is written in base 128, least significant digit
//! first; every byte but the last has its high bit set. A byte string is its
//! length written that way, followed by the bytes.

use vstd::prelude::*;

verus! {

/// The longest accepted encoding of a 32 bit integer, in bytes.
pub const VARINT_MAX_U32: usize = 5;

/// The longest accepted encoding of a 64 bit integer, in bytes.
pub const VARINT_MAX_U64: usize = 10;

/// The longest accepted encoding of a 128 bit integer, in bytes.
pub const VARINT_MAX_U128: usize = 19;

/// The bytes that `n` is written as.
pub open spec fn varint_bytes(n: nat) -> Seq<u8>
    decreases n,
{
    if n < 128 {
        seq![n as u8]
    } else {
        seq![(n % 128 + 128) as u8] + varint_bytes(n / 128)
    }
}

/// The integer at the front of `bytes` and the number of bytes it takes, if
/// it ends within `limit` bytes. Leading digits may be followed by zero
/// digits: an encoding need not be the shortest one.
pub open spec fn varint_at(bytes: Seq<u8>, limit: nat) -> Option<(nat, nat)>
    decreases limit,
{
    if limit == 0 || bytes.len() == 0 {
        None
    } else if bytes[0] < 128 {
        Some((bytes[0] as nat, 1nat))
    } else {
        match varint_at(bytes.skip(1), (limit - 1) as nat) {
            Some((value, taken)) => Some(((bytes[0] - 128) as nat + 128 * value, taken + 1)),
            None => None,
        }
    }
}

/// `varint_at`, accepted only when the value is at most `max`.
pub open spec fn bounded_varint_at(bytes: Seq<u8>, limit: nat, max: nat) -> Option<(nat, nat)> {
    match varint_at(bytes, limit) {
        Some((value, taken)) => if value <= max {
            Some((value, taken))
        } else {
            None
        },
        None => None,
    }
}

/// 128 to the power `k`.
pub open spec fn pow128(k: nat) -> nat
    decreases k,
{
    if k == 0 {
        1
    } else {
        128 * pow128((k - 1) as nat)
    }
}

/// A number below `128^k` is written in at most `k` bytes.
pub proof fn lemma_varint_bytes_len(n: nat, k: nat)
    requires
        k >= 1,
        n < pow128(k),
    ensures
        1 <= varint_bytes(n).len() <= k,
    decreases k,
{
    reveal_with_fuel(pow128, 2);
    if n >= 128 {
        lemma_varint_bytes_len(n / 128, (k - 1) as nat);
    }
}

/// Reading what was written gives the number back, whatever follows it.
pub proof fn lemma_varint_round_trip(n: nat, rest: Seq<u8>, limit: nat)
    requires
        varint_bytes(n).len() <= limit,
    ensures
        varint_at(varint_bytes(n) + rest, limit) == Some((n, varint_bytes(n).len())),
    decreases n,
{
    if n >= 128 {
        let all = varint_bytes(n) + rest;
        assert(all.skip(1) =~= varint_bytes(n / 128) + rest);
        lemma_varint_round_trip(n / 128, rest, (limit - 1) as nat);
    }
}

/// What the front of `bytes` reads as when the first `count` digits, worth
/// `low` together, have been passed and `inner` is what follows them.
spec fn with_low_digits(inner: Option<(nat, nat)>, low: nat, count: nat) -> Option<(nat, nat)> {
    match inner {
        Some((value, taken)) => Some((low + pow128(count) * value, taken + count)),
        None => None,
    }
}

/// Passing one more digit that has its high bit set.
proof fn lemma_pass_digit(bytes: Seq<u8>, limit: nat, low: nat, count: nat)
    requires
        count < limit,
        count < bytes.len(),
        bytes[count as int] >= 128,
    ensures
        with_low_digits(varint_at(bytes.skip(count as int), (limit - count) as nat), low, count)
            == with_low_digits(
            varint_at(bytes.skip(count as int + 1), (limit - count - 1) as nat),
            low + pow128(count) * (bytes[count as int] - 128) as nat,
            count + 1,
        ),
{
    let here = bytes.skip(count as int);
    assert(here.skip(1) =~= bytes.skip(count as int + 1));
    let digit = (bytes[count as int] - 128) as nat;
    let scale = pow128(count);
    assert(pow128(count + 1) == 128 * scale);
    match varint_at(bytes.skip(count as int + 1), (limit - count - 1) as nat) {
        Some((value, taken)) => {
            assert(low + scale * (digit + 128 * value) == low + scale * digit + (128 * scale)
                * value) by (nonlinear_arith);
        },
        None => {},
    }
}

/// `128^18` and every lower power fit in 128 bits.
proof fn lemma_pow128_fits(k: nat)
    requires
        k <= 18,
    ensures
        pow128(k) <= 0x4000_0000_0000_0000_0000_0000_0000_0000,
        pow128(k) >= 1,
    decreases 18 - k,
{
    if k == 18 {
        reveal_with_fuel(pow128, 19);
    } else {
        lemma_pow128_fits(k + 1);
    }
}

/// Appends `n` as a variable-length integer.
pub fn write_varint(out: &mut Vec<u8>, n: u128)
    ensures
        final(out)@ == old(out)@ + varint_bytes(n as nat),
{
    let mut rest: u128 = n;
    while rest >= 128
        invariant
            out@ + varint_bytes(rest as nat) == old(out)@ + varint_bytes(n as nat),
        decreases rest,
    {
        let digit: u8 = (rest % 128) as u8 + 128;
        proof {
            assert(out@.push(digit) + varint_bytes((rest / 128) as nat) =~= out@ + varint_bytes(
                rest as nat,
            ));
        }
        out.push(digit);
        rest = rest / 128;
    }
    out.push(rest as u8);
}

/// Reads the variable-length integer that starts at `start`, of at most
/// `limit` bytes and at most `max` in value. Returns the value and the
/// position behind it.
pub fn read_varint(bytes: &[u8], start: usize, limit: usize, max: u128) -> (found: Option<
    (u128, usize),
>)
    requires
        start <= bytes@.len(),
        limit <= VARINT_MAX_U128,
    ensures
        match bounded_varint_at(bytes@.skip(start as int), limit as nat, max as nat) {
            Some((value, taken)) => found == Some((value as u128, (start + taken) as usize))
                && start + taken <= bytes@.len(),
            None => found is None,
        },
{
    let ghost tail = bytes@.skip(start as int);
    let mut low: u128 = 0;
    let mut scale: u128 = 1;
    let mut count: usize = 0;
    proof {
        assert(tail.skip(0) =~= tail);
        match varint_at(tail, limit as nat) {
            Some((value, taken)) => {
                assert(pow128(0) * value == value) by (nonlinear_arith)
                    requires
                        pow128(0) == 1,
                ;
            },
            None => {},
        }
    }
    while count < limit && count < bytes.len() - start
        invariant
            start <= bytes@.len(),
            limit <= VARINT_MAX_U128,
            tail == bytes@.skip(start as int),
            count <= limit,
            count <= tail.len(),
            scale == pow128(count as nat),
            low <= max,
            count <= 18,
            varint_at(tail, limit as nat) == with_low_digits(
                varint_at(tail.skip(count as int), (limit - count) as nat),
                low as nat,
                count as nat,
            ),
        decreases limit - count,
    {
        let byte: u8 = bytes[start + count];
        proof {
            lemma_pow128_fits(count as nat);
        }
        // The largest digit that may stand here without passing `max`.
        let room: u128 = (max - low) / scale;
        if byte < 128 {
            assert(varint_at(tail.skip(count as int), (limit - count) as nat) == Some(
                (byte as nat, 1nat),
            ));
            if byte as u128 > room {
                assert(low + scale * byte > max) by (nonlinear_arith)
                    requires
                        byte > (max - low) / (scale as int),
                        scale >= 1,
                        low <= max,
                ;
                return None;
            }
            assert(low + scale * byte <= max) by (nonlinear_arith)
                requires
                    byte <= (max - low) / (scale as int),
                    scale >= 1,
                    low <= max,
            ;
            return Some((low + scale * (byte as u128), start + count + 1));
        }
        let digit: u8 = byte - 128;
        proof {
            lemma_pass_digit(tail, limit as nat, low as nat, count as nat);
        }
        if digit as u128 > room {
            assert(low + scale * digit > max) by (nonlinear_arith)
                requires
                    digit > (max - low) / (scale as int),
                    scale >= 1,
                    low <= max,
            ;
            proof {
                let inner = varint_at(tail.skip(count as int + 1), (limit - count - 1) as nat);
                if let Some((value, taken)) = inner {
                    assert(pow128(count as nat + 1) * value >= 0) by (nonlinear_arith)
                        requires
                            pow128(count as nat + 1) >= 0,
                            value >= 0,
                    ;
                }
            }
            return None;
        }
        assert(low + scale * digit <= max) by (nonlinear_arith)
            requires
                digit <= (max - low) / (scale as int),
                scale >= 1,
                low <= max,
        ;
        if count + 1 == limit {
            return None;
        }
        low = low + scale * (digit as u128);
        proof {
            lemma_pow128_fits(count as nat + 1);
        }
        scale = scale * 128;
        count = count + 1;
    }
    None
}

/// A byte string on the wire: its length, then its bytes.
pub open spec fn byte_string(data: Seq<u8>) -> Seq<u8> {
    varint_bytes(data.len()) + data
}

/// The byte string at the front of `bytes` and the number of bytes that it
/// takes with its length, if `bytes` holds all of it.
pub open spec fn byte_string_at(bytes: Seq<u8>) -> Option<(Seq<u8>, nat)> {
    match bounded_varint_at(bytes, VARINT_MAX_U64 as nat, u64::MAX as nat) {
        Some((len, taken)) => if taken + len <= bytes.len() {
            Some((bytes.subrange(taken as int, (taken + len) as int), taken + len))
        } else {
            None
        },
        None => None,
    }
}

/// What `varint_at` takes is part of what it was given.
pub proof fn lemma_varint_at_taken(bytes: Seq<u8>, limit: nat)
    ensures
        varint_at(bytes, limit) matches Some((_, taken)) ==> 1 <= taken <= bytes.len() && taken
            <= limit,
    decreases limit,
{
    if limit > 0 && bytes.len() > 0 && bytes[0] >= 128 {
        lemma_varint_at_taken(bytes.skip(1), (limit - 1) as nat);
    }
}

/// A 32, 64 or 128 bit number is written in at most 5, 10 or 19 bytes.
pub proof fn lemma_varint_bytes_fit(n: nat)
    ensures
        n <= u32::MAX ==> varint_bytes(n).len() <= VARINT_MAX_U32,
        n <= u64::MAX ==> varint_bytes(n).len() <= VARINT_MAX_U64,
        n <= u128::MAX ==> varint_bytes(n).len() <= VARINT_MAX_U128,
{
    if n <= u32::MAX {
        assert(pow128(5) == 0x8_0000_0000) by {
            reveal_with_fuel(pow128, 6);
        }
        lemma_varint_bytes_len(n, 5);
    }
    if n <= u64::MAX {
        assert(pow128(10) == 0x40_0000_0000_0000_0000) by {
            reveal_with_fuel(pow128, 11);
        }
        lemma_varint_bytes_len(n, 10);
    }
    if n <= u128::MAX {
        assert(pow128(19) == 0x20_0000_0000_0000_0000_0000_0000_0000_0000) by {
            reveal_with_fuel(pow128, 20);
        }
        lemma_varint_bytes_len(n, 19);
    }
}

/// Reading a written number that is within the bound gives it back.
pub proof fn lemma_bounded_varint_round_trip(n: nat, rest: Seq<u8>, limit: nat, max: nat)
    requires
        n <= max,
        varint_bytes(n).len() <= limit,
    ensures
        bounded_varint_at(varint_bytes(n) + rest, limit, max) == Some(
            (n, varint_bytes(n).len()),
        ),
{
    lemma_varint_round_trip(n, rest, limit);
}

/// Reading a written byte string gives it back, whatever follows it.
pub proof fn lemma_byte_string_round_trip(data: Seq<u8>, rest: Seq<u8>)
    requires
        data.len() <= u64::MAX,
    ensures
        byte_string_at(byte_string(data) + rest) == Some((data, byte_string(data).len())),
{
    let head = varint_bytes(data.len());
    let all = byte_string(data) + rest;
    lemma_varint_bytes_fit(data.len());
    assert(all =~= head + (data + rest));
    lemma_bounded_varint_round_trip(
        data.len(),
        data + rest,
        VARINT_MAX_U64 as nat,
        u64::MAX as nat,
    );
}

/// Whether two byte strings are equal.
pub fn bytes_equal(left: &[u8], right: &[u8]) -> (same: bool)
    ensures
        same == (left@ == right@),
{
    if left.len() != right.len() {
        return false;
    }
    let mut at: usize = 0;
    while at < left.len()
        invariant
            left@.len() == right@.len(),
            at <= left@.len(),
            left@.take(at as int) == right@.take(at as int),
        decreases left@.len() - at,
    {
        if left[at] != right[at] {
            return false;
        }
        at = at + 1;
    }
    proof {
        assert(left@ =~= left@.take(at as int));
        assert(right@ =~= right@.take(at as int));
    }
    true
}

/// Appends `data`.
pub fn append_bytes(out: &mut Vec<u8>, data: &[u8])
    ensures
        final(out)@ == old(out)@ + data@,
{
    let mut at: usize = 0;
    while at < data.len()
        invariant
            at <= data@.len(),
            out@ == old(out)@ + data@.take(at as int),
        decreases data@.len() - at,
    {
        proof {
            assert((old(out)@ + data@.take(at as int)).push(data@[at as int]) =~= old(out)@
                + data@.take(at + 1));
        }
        out.push(data[at]);
        at = at + 1;
    }
}

/// Appends `data` as a byte string: its length, then its bytes.
pub fn write_byte_string(out: &mut Vec<u8>, data: &[u8])
    ensures
        final(out)@ == old(out)@ + byte_string(data@),
{
    write_varint(out, data.len() as u128);
    append_bytes(out, data);
}

/// Finds the byte string that starts at `start`. Returns the positions at
/// which its bytes begin and end.
pub fn read_byte_string(bytes: &[u8], start: usize) -> (found: Option<(usize, usize)>)
    requires
        start <= bytes@.len(),
    ensures
        match byte_string_at(bytes@.skip(start as int)) {
            Some((data, taken)) => found matches Some((begin, end)) && start <= begin <= end
                <= bytes@.len() && end == start + taken && bytes@.subrange(
                begin as int,
                end as int,
            ) == data,
            None => found is None,
        },
{
    let ghost tail = bytes@.skip(start as int);
    match read_varint(bytes, start, VARINT_MAX_U64, u64::MAX as u128) {
        Some((len, begin)) => {
            if len > (bytes.len() - begin) as u128 {
                None
            } else {
                let end: usize = begin + len as usize;
                proof {
                    let taken = (begin - start) as nat;
                    assert(tail.subrange(taken as int, (taken + len) as int) =~= bytes@.subrange(
                        begin as int,
                        end as int,
                    ));
                }
                Some((begin, end))
            }
        },
        None => None,
    }
}

/// Copies the 32 bytes that start at `start`.
pub fn read_array_32(bytes: &[u8], start: usize) -> (out: [u8; 32])
    requires
        start + 32 <= bytes@.len(),
    ensures
        out@ == bytes@.subrange(start as int, start + 32),
{
    let total: usize = bytes.len();
    let mut out: [u8; 32] = [0u8; 32];
    let mut at: usize = 0;
    while at < 32
        invariant
            start + 32 <= total,
            total == bytes@.len(),
            at <= 32,
            forall|k: int| 0 <= k < at ==> out@[k] == bytes@[start + k],
        decreases 32 - at,
    {
        out[at] = bytes[start + at];
        at = at + 1;
    }
    out
}

/// Copies the 64 bytes that start at `start`.
pub fn read_array_64(bytes: &[u8], start: usize) -> (out: [u8; 64])
    requires
        start + 64 <= bytes@.len(),
    ensures
        out@ == bytes@.subrange(start as int, start + 64),
{
    let total: usize = bytes.len();
    let mut out: [u8; 64] = [0u8; 64];
    let mut at: usize = 0;
    while at < 64
        invariant
            start + 64 <= total,
            total == bytes@.len(),
            at <= 64,
            forall|k: int| 0 <= k < at ==> out@[k] == bytes@[start + k],
        decreases 64 - at,
    {
        out[at] = bytes[start + at];
        at = at + 1;
    }
    out
}

} // verus!
