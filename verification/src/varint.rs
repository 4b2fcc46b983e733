//! Model of the LEB128 variable-length integer encoding.
//!
//! A varint stores an unsigned integer in little-endian base-128 groups:
//! each byte carries seven data bits, and its high bit says whether another
//! byte follows.  The model has three parts: the canonical bytes of a value
//! (`varint_bytes`), the value carried by a given number of leading bytes
//! (`group_value`), and a scan (`scan_from` and its instances) that says
//! whether a byte sequence begins with a complete varint within the byte and
//! bit-width limits of a target integer size.

use vstd::prelude::*;

verus! {

/// Outcome of scanning a byte sequence for one leading varint.
pub enum VarintScan {
    /// A complete varint occupies exactly this many leading bytes.
    Found(nat),
    /// The sequence ends before the varint's last byte.
    Short,
    /// The varint exceeds the byte-count or bit-width limit.
    TooBig,
}

/// Whether a LEB128 byte carries the continuation bit.
pub open spec fn has_cont(b: u8) -> bool {
    b >= 0x80
}

/// 128 raised to the power `n`: the weight of the `n`th seven-bit group.
pub open spec fn pow128(n: nat) -> nat
    decreases n,
{
    if n == 0 {
        1
    } else {
        0x80 * pow128((n - 1) as nat)
    }
}

/// The value carried by the low seven bits of the first `n` bytes,
/// least-significant group first.
pub open spec fn group_value(s: Seq<u8>, n: int) -> nat
    decreases n,
{
    if n <= 0 {
        0
    } else {
        (s[0] as nat % 0x80) + 0x80 * group_value(s.skip(1), n - 1)
    }
}

/// Scan position `i` of `s` for the varint's remaining bytes.  The varint
/// may occupy at most `max` bytes in all, and its last possible byte must
/// stay below `last_cap`: a data portion at or above the cap would carry
/// bits past the width of the target integer.
pub open spec fn scan_from(s: Seq<u8>, i: int, max: int, last_cap: u8) -> VarintScan
    decreases max - i,
{
    if i >= max {
        VarintScan::TooBig
    } else if i >= s.len() {
        VarintScan::Short
    } else if i == max - 1 {
        if s[i] < last_cap {
            VarintScan::Found((i + 1) as nat)
        } else {
            VarintScan::TooBig
        }
    } else if !has_cont(s[i]) {
        VarintScan::Found((i + 1) as nat)
    } else {
        scan_from(s, i + 1, max, last_cap)
    }
}

/// Scan for a varint holding a 32-bit value: at most five bytes, and the
/// fifth byte may carry only four data bits and no continuation bit.
pub open spec fn scan32(s: Seq<u8>) -> VarintScan {
    scan_from(s, 0, 5, 0x10)
}

/// Scan for a varint holding a 64-bit value: at most ten bytes, and the
/// tenth byte may carry only bit 63 and no continuation bit.
pub open spec fn scan64(s: Seq<u8>) -> VarintScan {
    scan_from(s, 0, 10, 0x02)
}

/// Scan as the stream framer reads a length prefix: at most ten bytes, with
/// no bound on the tenth byte's data bits, whose excess wraps at 64 bits.
pub open spec fn scan_frame(s: Seq<u8>) -> VarintScan {
    scan_from(s, 0, 10, 0x80)
}

/// The canonical LEB128 bytes of `v`: seven data bits per byte, the
/// continuation bit on every byte but the last.
pub open spec fn varint_bytes(v: nat) -> Seq<u8>
    decreases v,
{
    if v < 0x80 {
        seq![v as u8]
    } else {
        seq![(0x80 + v % 0x80) as u8] + varint_bytes(v / 0x80)
    }
}

/// Shape of the canonical encoding: at least one byte, the continuation bit
/// on all but the last byte and clear on the last, and the seven-bit groups
/// reassembling exactly the encoded value.
pub proof fn lemma_varint_bytes_shape(v: nat)
    ensures
        varint_bytes(v).len() >= 1,
        !has_cont(varint_bytes(v).last()),
        forall|k: int| 0 <= k < varint_bytes(v).len() - 1 ==> has_cont(#[trigger] varint_bytes(v)[k]),
        group_value(varint_bytes(v), varint_bytes(v).len() as int) == v,
    decreases v,
{
    let s = varint_bytes(v);
    if v < 0x80 {
        assert(s == seq![v as u8]);
        assert(group_value(s, 1) == (s[0] as nat % 0x80) + 0x80 * group_value(s.skip(1), 0));
    } else {
        let tail = varint_bytes(v / 0x80);
        assert(v / 0x80 < v) by {
            vstd::arithmetic::div_mod::lemma_div_is_strictly_smaller(v as int, 0x80);
        }
        lemma_varint_bytes_shape(v / 0x80);
        assert(s == seq![(0x80 + v % 0x80) as u8] + tail);
        assert(s.skip(1) =~= tail);
        assert(s.last() == tail.last());
        assert(forall|k: int| 1 <= k < s.len() - 1 ==> s[k] == tail[k - 1]);
        assert(v % 0x80 < 0x80);
        assert(s[0] == (0x80 + v % 0x80) as u8);
        assert(has_cont(s[0]));
        assert(s[0] as nat % 0x80 == v % 0x80);
        assert(group_value(s, s.len() as int) == (v % 0x80) + 0x80 * (v / 0x80));
        assert((v % 0x80) + 0x80 * (v / 0x80) == v) by {
            vstd::arithmetic::div_mod::lemma_fundamental_div_mod(v as int, 0x80);
        }
    }
}

/// A value below `128^n` encodes into at most `n` bytes.
pub proof fn lemma_varint_bytes_len(v: nat, n: nat)
    requires
        1 <= n,
        v < pow128(n),
    ensures
        varint_bytes(v).len() <= n,
    decreases n,
{
    if v >= 0x80 {
        assert(n >= 2) by {
            reveal_with_fuel(pow128, 2);
        }
        assert(v / 0x80 < pow128((n - 1) as nat)) by {
            assert(v < 0x80 * pow128((n - 1) as nat));
            vstd::arithmetic::div_mod::lemma_multiply_divide_lt(
                v as int,
                0x80,
                pow128((n - 1) as nat) as int,
            );
        }
        lemma_varint_bytes_len(v / 0x80, (n - 1) as nat);
    }
}

/// When a value below `c * 128^(n-1)` takes all of `n` bytes, the last
/// byte's data stays below `c`.
pub proof fn lemma_varint_bytes_last(v: nat, n: nat, c: nat)
    requires
        varint_bytes(v).len() == n,
        v < c * pow128((n - 1) as nat),
        1 <= n,
    ensures
        (varint_bytes(v).last() as nat) < c,
    decreases n,
{
    if v < 0x80 {
        assert(varint_bytes(v).last() == v as u8);
        assert(pow128(0) == 1);
        assert(v as u8 as nat == v);
        assert(c * 1 == c);
    } else {
        let tail = varint_bytes(v / 0x80);
        assert(v / 0x80 < v) by {
            vstd::arithmetic::div_mod::lemma_div_is_strictly_smaller(v as int, 0x80);
        }
        assert(varint_bytes(v) == seq![(0x80 + v % 0x80) as u8] + tail);
        assert(tail.len() == n - 1);
        assert(n >= 2);
        assert(varint_bytes(v).last() == tail.last());
        assert(v / 0x80 < c * pow128((n - 2) as nat)) by {
            assert(pow128((n - 1) as nat) == 0x80 * pow128((n - 2) as nat));
            assert(c * (0x80 * pow128((n - 2) as nat)) == 0x80 * (c * pow128((n - 2) as nat)))
                by (nonlinear_arith);
            vstd::arithmetic::div_mod::lemma_multiply_divide_lt(
                v as int,
                0x80,
                (c * pow128((n - 2) as nat)) as int,
            );
        }
        lemma_varint_bytes_last(v / 0x80, (n - 1) as nat, c);
    }
}

/// The first `n` seven-bit groups carry a value below `128^n`.
pub proof fn lemma_group_value_bound(s: Seq<u8>, n: int)
    requires
        0 <= n,
    ensures
        group_value(s, n) < pow128(n as nat),
    decreases n,
{
    if n > 0 {
        lemma_group_value_bound(s.skip(1), n - 1);
        assert(group_value(s, n) == (s[0] as nat % 0x80) + 0x80 * group_value(s.skip(1), n - 1));
        assert((s[0] as nat % 0x80) < 0x80);
        assert(0x80 * group_value(s.skip(1), n - 1) + 0x80 <= 0x80 * pow128((n - 1) as nat)) by {
            vstd::arithmetic::mul::lemma_mul_inequality(
                (group_value(s.skip(1), n - 1) + 1) as int,
                pow128((n - 1) as nat) as int,
                0x80,
            );
            assert(0x80 * (group_value(s.skip(1), n - 1) + 1)
                == 0x80 * group_value(s.skip(1), n - 1) + 0x80) by (nonlinear_arith);
        }
    }
}

/// When the `n`th byte's data portion stays below `c`, the first `n` groups
/// carry a value below `c * 128^(n-1)`.
pub proof fn lemma_group_value_cap(s: Seq<u8>, n: int, c: nat)
    requires
        1 <= n <= s.len(),
        (s[n - 1] as nat) % 0x80 < c,
    ensures
        group_value(s, n) < c * pow128((n - 1) as nat),
    decreases n,
{
    if n == 1 {
        assert((n - 1) as nat == 0nat);
        assert(pow128(0) == 1);
        let p = pow128((n - 1) as nat);
        assert(c * p == c) by (nonlinear_arith)
            requires
                p == 1,
        ;
        assert(group_value(s.skip(1), 0) == 0);
        assert(group_value(s, 1) == (s[0] as nat % 0x80) + 0x80 * group_value(s.skip(1), 0));
    } else {
        let t = s.skip(1);
        assert(t[n - 2] == s[n - 1]);
        lemma_group_value_cap(t, n - 1, c);
        assert(group_value(s, n) == (s[0] as nat % 0x80) + 0x80 * group_value(t, n - 1));
        assert((s[0] as nat % 0x80) < 0x80);
        let g = group_value(t, n - 1);
        let p = pow128((n - 2) as nat);
        assert(pow128((n - 1) as nat) == 0x80 * p);
        assert(g + 1 <= c * p);
        assert(0x80 * g + 0x80 <= 0x80 * (c * p)) by {
            vstd::arithmetic::mul::lemma_mul_inequality((g + 1) as int, (c * p) as int, 0x80);
            assert(0x80 * (g + 1) == 0x80 * g + 0x80) by (nonlinear_arith);
        }
        assert(0x80 * (c * p) == c * (0x80 * p)) by (nonlinear_arith);
    }
}

/// Reading one more byte adds its data bits at the next group's weight.
pub proof fn lemma_group_value_step(s: Seq<u8>, n: int)
    requires
        0 <= n < s.len(),
    ensures
        group_value(s, n + 1) == group_value(s, n) + pow128(n as nat) * (s[n] as nat % 0x80),
    decreases n,
{
    if n == 0 {
        assert(group_value(s, 1) == (s[0] as nat % 0x80) + 0x80 * group_value(s.skip(1), 0));
        assert(group_value(s.skip(1), 0) == 0);
        assert(group_value(s, 0) == 0);
        assert(n as nat == 0nat);
        assert(pow128(0) == 1);
        let q = pow128(n as nat);
        let d = s[n] as nat % 0x80;
        assert(q * d == d) by (nonlinear_arith)
            requires
                q == 1,
        ;
    } else {
        let t = s.skip(1);
        lemma_group_value_step(t, n - 1);
        assert(t[n - 1] == s[n]);
        assert(group_value(s, n + 1) == (s[0] as nat % 0x80) + 0x80 * group_value(t, n));
        assert(group_value(s, n) == (s[0] as nat % 0x80) + 0x80 * group_value(t, n - 1));
        let g = group_value(t, n - 1);
        let w = pow128((n - 1) as nat) * (s[n] as nat % 0x80);
        assert(group_value(t, n) == g + w);
        assert(0x80 * (g + w) == 0x80 * g + 0x80 * w) by (nonlinear_arith);
        assert(0x80 * (pow128((n - 1) as nat) * (s[n] as nat % 0x80))
            == (0x80 * pow128((n - 1) as nat)) * (s[n] as nat % 0x80)) by (nonlinear_arith);
        assert(pow128(n as nat) == 0x80 * pow128((n - 1) as nat));
    }
}

/// The value of the first `n` groups depends only on those `n` bytes.
pub proof fn lemma_group_value_agree(s1: Seq<u8>, s2: Seq<u8>, n: int)
    requires
        0 <= n <= s1.len(),
        n <= s2.len(),
        forall|k: int| 0 <= k < n ==> #[trigger] s1[k] == s2[k],
    ensures
        group_value(s1, n) == group_value(s2, n),
    decreases n,
{
    if n > 0 {
        assert(forall|k: int| 0 <= k < n - 1 ==> #[trigger] s1.skip(1)[k] == s2.skip(1)[k]);
        lemma_group_value_agree(s1.skip(1), s2.skip(1), n - 1);
    }
}

/// A scan that completes or overflows read no byte past the end of `s1`, so
/// it reports the same on any extension of `s1`.
pub proof fn lemma_scan_extend(s1: Seq<u8>, s2: Seq<u8>, i: int, max: int, last_cap: u8)
    requires
        s1.len() <= s2.len(),
        forall|k: int| 0 <= k < s1.len() ==> #[trigger] s1[k] == s2[k],
        !(scan_from(s1, i, max, last_cap) is Short),
        0 <= i,
    ensures
        scan_from(s2, i, max, last_cap) == scan_from(s1, i, max, last_cap),
    decreases max - i,
{
    if i >= max {
    } else if i >= s1.len() {
        assert(scan_from(s1, i, max, last_cap) is Short);
    } else if i == max - 1 {
    } else if !has_cont(s1[i]) {
    } else {
        lemma_scan_extend(s1, s2, i + 1, max, last_cap);
    }
}

/// A canonical encoding that fits the limits scans as one complete varint.
proof fn lemma_scan_canonical_from(s: Seq<u8>, i: int, max: int, last_cap: u8)
    requires
        0 <= i < s.len() <= max,
        forall|k: int| 0 <= k < s.len() - 1 ==> has_cont(#[trigger] s[k]),
        !has_cont(s.last()),
        s.len() == max ==> s.last() < last_cap,
        last_cap <= 0x80,
    ensures
        scan_from(s, i, max, last_cap) == VarintScan::Found(s.len() as nat),
    decreases max - i,
{
    if i == s.len() - 1 {
        if i == max - 1 {
            assert(s[i] < last_cap);
        } else {
            assert(!has_cont(s[i]));
        }
    } else {
        assert(has_cont(s[i]));
        assert(i < max - 1);
        lemma_scan_canonical_from(s, i + 1, max, last_cap);
    }
}

/// A sequence of continuation bytes that ends before the byte limit scans
/// as short.
proof fn lemma_scan_all_cont_short(s: Seq<u8>, i: int, max: int, last_cap: u8)
    requires
        0 <= i <= s.len(),
        s.len() < max,
        forall|k: int| 0 <= k < s.len() ==> has_cont(#[trigger] s[k]),
    ensures
        scan_from(s, i, max, last_cap) == VarintScan::Short,
    decreases max - i,
{
    if i < s.len() {
        lemma_scan_all_cont_short(s, i + 1, max, last_cap);
    }
}

/// Round trip of the 64-bit varint codec: the canonical bytes of `v`,
/// followed by anything at all, scan as one complete varint whose seven-bit
/// groups reassemble exactly `v`.
pub proof fn lemma_varint64_roundtrip(v: u64, rest: Seq<u8>)
    ensures
        1 <= varint_bytes(v as nat).len() <= 10,
        scan64(varint_bytes(v as nat) + rest) == VarintScan::Found(varint_bytes(v as nat).len() as nat),
        group_value(varint_bytes(v as nat) + rest, varint_bytes(v as nat).len() as int) == v as nat,
{
    let enc = varint_bytes(v as nat);
    lemma_varint_bytes_shape(v as nat);
    assert(pow128(10) == 0x400000000000000000) by {
        reveal_with_fuel(pow128, 11);
    }
    lemma_varint_bytes_len(v as nat, 10);
    if enc.len() == 10 {
        assert(pow128(9) == 0x8000000000000000) by {
            reveal_with_fuel(pow128, 10);
        }
        assert((v as nat) < 2 * pow128(9));
        lemma_varint_bytes_last(v as nat, 10, 2);
    }
    lemma_scan_canonical_from(enc, 0, 10, 0x02);
    assert(forall|k: int| 0 <= k < enc.len() ==> #[trigger] enc[k] == (enc + rest)[k]);
    lemma_scan_extend(enc, enc + rest, 0, 10, 0x02);
    lemma_group_value_agree(enc, enc + rest, enc.len() as int);
}

/// Round trip of the 32-bit varint codec, in the same form.
pub proof fn lemma_varint32_roundtrip(v: u32, rest: Seq<u8>)
    ensures
        1 <= varint_bytes(v as nat).len() <= 5,
        scan32(varint_bytes(v as nat) + rest) == VarintScan::Found(varint_bytes(v as nat).len() as nat),
        group_value(varint_bytes(v as nat) + rest, varint_bytes(v as nat).len() as int) == v as nat,
{
    let enc = varint_bytes(v as nat);
    lemma_varint_bytes_shape(v as nat);
    assert(pow128(5) == 0x800000000) by {
        reveal_with_fuel(pow128, 6);
    }
    lemma_varint_bytes_len(v as nat, 5);
    if enc.len() == 5 {
        assert(pow128(4) == 0x10000000) by {
            reveal_with_fuel(pow128, 5);
        }
        assert((v as nat) < 0x10 * pow128(4));
        lemma_varint_bytes_last(v as nat, 5, 0x10);
    }
    lemma_scan_canonical_from(enc, 0, 5, 0x10);
    assert(forall|k: int| 0 <= k < enc.len() ==> #[trigger] enc[k] == (enc + rest)[k]);
    lemma_scan_extend(enc, enc + rest, 0, 5, 0x10);
    lemma_group_value_agree(enc, enc + rest, enc.len() as int);
}

/// Round trip of the stream framer's length varint, in the same form.
pub proof fn lemma_varint_frame_roundtrip(v: u64, rest: Seq<u8>)
    ensures
        1 <= varint_bytes(v as nat).len() <= 10,
        scan_frame(varint_bytes(v as nat) + rest) == VarintScan::Found(
            varint_bytes(v as nat).len() as nat,
        ),
        group_value(varint_bytes(v as nat) + rest, varint_bytes(v as nat).len() as int) == v as nat,
{
    let enc = varint_bytes(v as nat);
    lemma_varint_bytes_shape(v as nat);
    assert(pow128(10) == 0x400000000000000000) by {
        reveal_with_fuel(pow128, 11);
    }
    lemma_varint_bytes_len(v as nat, 10);
    lemma_scan_canonical_from(enc, 0, 10, 0x80);
    assert(forall|k: int| 0 <= k < enc.len() ==> #[trigger] enc[k] == (enc + rest)[k]);
    lemma_scan_extend(enc, enc + rest, 0, 10, 0x80);
    lemma_group_value_agree(enc, enc + rest, enc.len() as int);
}

/// Truncation safety for 64-bit varints: a canonical encoding cut anywhere
/// before its last byte scans as short, never as a complete varint.
pub proof fn lemma_varint64_truncation(v: u64, n: int)
    requires
        0 <= n < varint_bytes(v as nat).len(),
    ensures
        scan64(varint_bytes(v as nat).take(n)) == VarintScan::Short,
{
    let enc = varint_bytes(v as nat);
    lemma_varint_bytes_shape(v as nat);
    assert(pow128(10) == 0x400000000000000000) by {
        reveal_with_fuel(pow128, 11);
    }
    lemma_varint_bytes_len(v as nat, 10);
    assert(forall|k: int| 0 <= k < n ==> has_cont(#[trigger] enc.take(n)[k]));
    lemma_scan_all_cont_short(enc.take(n), 0, 10, 0x02);
}

/// Truncation safety for 32-bit varints, in the same form.
pub proof fn lemma_varint32_truncation(v: u32, n: int)
    requires
        0 <= n < varint_bytes(v as nat).len(),
    ensures
        scan32(varint_bytes(v as nat).take(n)) == VarintScan::Short,
{
    let enc = varint_bytes(v as nat);
    lemma_varint_bytes_shape(v as nat);
    assert(pow128(5) == 0x800000000) by {
        reveal_with_fuel(pow128, 6);
    }
    lemma_varint_bytes_len(v as nat, 5);
    assert(forall|k: int| 0 <= k < n ==> has_cont(#[trigger] enc.take(n)[k]));
    lemma_scan_all_cont_short(enc.take(n), 0, 5, 0x10);
}

/// `pow128` grows with its exponent.
pub proof fn lemma_pow128_increases(a: nat, b: nat)
    requires
        a <= b,
    ensures
        pow128(a) <= pow128(b),
    decreases b,
{
    if a < b {
        lemma_pow128_increases(a, (b - 1) as nat);
        assert(pow128(b) == 0x80 * pow128((b - 1) as nat));
        assert(0x80 * pow128((b - 1) as nat) >= 1 * pow128((b - 1) as nat)) by (nonlinear_arith);
    }
}

/// What a completed scan says of the bytes it walked: every byte before the
/// last carries the continuation bit, and the last stays within its cap.
pub proof fn lemma_scan_found_facts(s: Seq<u8>, i: int, max: int, last_cap: u8, n: nat)
    requires
        0 <= i,
        scan_from(s, i, max, last_cap) == VarintScan::Found(n),
    ensures
        i < n <= max,
        n <= s.len(),
        n == max ==> s[n - 1] < last_cap,
        n < max ==> !has_cont(s[n - 1]),
        forall|k: int| i <= k < n - 1 ==> has_cont(#[trigger] s[k]),
    decreases max - i,
{
    if i >= max {
    } else if i >= s.len() {
    } else if i == max - 1 {
    } else if !has_cont(s[i]) {
    } else {
        lemma_scan_found_facts(s, i + 1, max, last_cap, n);
    }
}

/// Reads one varint of at most `max` bytes from `data`, starting at `from`,
/// with `last_cap` bounding the last possible byte.  Returns the value,
/// reduced modulo 2^64, and the count of bytes the varint occupied.
pub(crate) fn take_varint(data: &[u8], from: usize, max: usize, last_cap: u8) -> (r: Result<
    (u64, usize),
    crate::error::Error,
>)
    requires
        from <= data@.len(),
        1 <= max <= 10,
        last_cap <= 0x80,
    ensures
        (match scan_from(data@.skip(from as int), 0, max as int, last_cap) {
            VarintScan::Found(n) => (r matches Ok(p) && p.1 == n && from + n <= data@.len()
                && p.0 as nat == group_value(data@.skip(from as int), n as int)
                % 0x10000000000000000),
            VarintScan::Short => r == Err::<(u64, usize), crate::error::Error>(
                crate::error::Error::BufferUnderflow { needed: 1, available: 0 },
            ),
            VarintScan::TooBig => r == Err::<(u64, usize), crate::error::Error>(
                crate::error::Error::VarintOverflow,
            ),
        }),
{
    let ghost s = data@.skip(from as int);
    let mut i: usize = 0;
    let mut result: u64 = 0;
    let mut m: u64 = 1;
    proof {
        assert(pow128(9) == 0x8000000000000000) by {
            reveal_with_fuel(pow128, 10);
        }
    }
    while i < max
        invariant
            s == data@.skip(from as int),
            from <= data@.len(),
            1 <= max <= 10,
            last_cap <= 0x80,
            0 <= i <= max - 1,
            from + i <= data@.len(),
            pow128(9) == 0x8000000000000000,
            result as nat == group_value(s, i as int),
            m as nat == pow128(i as nat),
            scan_from(s, 0, max as int, last_cap) == scan_from(s, i as int, max as int, last_cap),
            forall|k: int| 0 <= k < i ==> has_cont(#[trigger] s[k]),
        decreases max - i,
    {
        proof {
            lemma_group_value_bound(s, i as int);
            lemma_pow128_increases(i as nat, 9);
        }
        if data.len() - from <= i {
            return Err(crate::error::Error::BufferUnderflow { needed: 1, available: 0 });
        }
        let b = data[from + i];
        assert(b == s[i as int]);
        proof {
            lemma_group_value_step(s, i as int);
        }
        if i == max - 1 {
            if b < last_cap {
                proof {
                    vstd::arithmetic::mul::lemma_mul_upper_bound(
                        m as int,
                        0x8000000000000000,
                        b as int,
                        0xff,
                    );
                }
                let wide: u128 = (result as u128) + (m as u128) * (b as u128);
                let v: u64 = (wide % 0x10000000000000000) as u64;
                proof {
                    assert(b < 0x80);
                    assert(b as nat % 0x80 == b as nat);
                    assert(wide as nat == group_value(s, i as int + 1));
                    assert(v as nat == wide as nat % 0x10000000000000000);
                }
                return Ok((v, i + 1));
            } else {
                return Err(crate::error::Error::VarintOverflow);
            }
        }
        if b < 0x80 {
            proof {
                lemma_group_value_bound(s, i as int + 1);
                lemma_pow128_increases((i + 1) as nat, 9);
                assert(b as nat % 0x80 == b as nat);
                assert(group_value(s, i as int + 1) < pow128((i + 1) as nat));
                assert(group_value(s, i as int + 1) == result as nat + m as nat * b as nat);
            }
            let v: u64 = result + m * b as u64;
            proof {
                assert(v as nat % 0x10000000000000000 == v as nat);
            }
            return Ok((v, i + 1));
        }
        proof {
            lemma_group_value_bound(s, i as int + 1);
            lemma_pow128_increases((i + 1) as nat, 9);
            assert(has_cont(b));
            assert(b as nat % 0x80 == (b - 0x80) as nat);
            assert(group_value(s, i as int + 1) < pow128((i + 1) as nat));
            assert(group_value(s, i as int + 1) == result as nat + m as nat * (b - 0x80) as nat);
            assert(pow128((i + 1) as nat) == 0x80 * pow128(i as nat));
        }
        result = result + m * ((b - 0x80) as u64);
        m = m * 0x80;
        i = i + 1;
    }
    Err(crate::error::Error::VarintOverflow)
}

/// Appends the canonical LEB128 bytes of `v` to `buf`.
pub(crate) fn push_varint(buf: &mut Vec<u8>, v: u64)
    ensures
        final(buf)@ == old(buf)@ + varint_bytes(v as nat),
{
    let mut x: u64 = v;
    while x >= 0x80
        invariant
            old(buf)@ + varint_bytes(v as nat) == buf@ + varint_bytes(x as nat),
        decreases x,
    {
        let b: u8 = 0x80 + (x % 0x80) as u8;
        proof {
            assert(varint_bytes(x as nat) == seq![b] + varint_bytes(x as nat / 0x80));
            assert(buf@ + varint_bytes(x as nat) == (buf@ + seq![b]) + varint_bytes(
                x as nat / 0x80,
            ));
            assert(x as nat / 0x80 == (x / 0x80) as nat);
            vstd::arithmetic::div_mod::lemma_div_is_strictly_smaller(x as int, 0x80);
        }
        buf.push(b);
        x = x / 0x80;
    }
    proof {
        assert(varint_bytes(x as nat) == seq![x as u8]);
    }
    buf.push(x as u8);
    proof {
        assert(buf@ == old(buf)@ + varint_bytes(v as nat));
    }
}

/// A complete 32-bit scan yields a value that fits in 32 bits.
pub proof fn lemma_scan32_value(s: Seq<u8>, n: nat)
    requires
        scan32(s) == VarintScan::Found(n),
    ensures
        group_value(s, n as int) < 0x100000000,
{
    lemma_scan_found_facts(s, 0, 5, 0x10, n);
    assert(pow128(4) == 0x10000000) by {
        reveal_with_fuel(pow128, 5);
    }
    if n == 5 {
        assert(s[4] as nat % 0x80 < 0x10);
        lemma_group_value_cap(s, 5, 0x10);
    } else {
        lemma_group_value_bound(s, n as int);
        lemma_pow128_increases(n, 4);
    }
}

/// A complete 64-bit scan yields a value that fits in 64 bits.
pub proof fn lemma_scan64_value(s: Seq<u8>, n: nat)
    requires
        scan64(s) == VarintScan::Found(n),
    ensures
        group_value(s, n as int) < 0x10000000000000000,
{
    lemma_scan_found_facts(s, 0, 10, 0x02, n);
    assert(pow128(9) == 0x8000000000000000) by {
        reveal_with_fuel(pow128, 10);
    }
    if n == 10 {
        assert(s[9] as nat % 0x80 < 0x02);
        lemma_group_value_cap(s, 10, 0x02);
    } else {
        lemma_group_value_bound(s, n as int);
        lemma_pow128_increases(n, 9);
    }
}

} // verus!
