//! Little- and big-endian integer fields, length-prefixed strings and byte
//! blocks: the primitive fields every wire structure of this crate is built
//! from, each with an exact byte-level specification and a proof that
//! decoding inverts encoding.

use vstd::prelude::*;

verus! {

/// 256 raised to `n`: the number of values a little-endian field of `n`
/// bytes can hold.
pub open spec fn pow256(n: nat) -> int
    decreases n,
{
    if n == 0 {
        1
    } else {
        256 * pow256((n - 1) as nat)
    }
}

pub proof fn lemma_pow256_pos(n: nat)
    ensures
        pow256(n) >= 1,
    decreases n,
{
    if n > 0 {
        lemma_pow256_pos((n - 1) as nat);
    }
}

/// The `n` little-endian bytes of `x`, lowest byte first.
pub open spec fn le_bytes(x: int, n: nat) -> Seq<u8>
    decreases n,
{
    if n == 0 {
        Seq::empty()
    } else {
        seq![(x % 256) as u8] + le_bytes(x / 256, (n - 1) as nat)
    }
}

/// The value of a little-endian byte string, lowest byte first.
pub open spec fn le_val(s: Seq<u8>) -> int
    decreases s.len(),
{
    if s.len() == 0 {
        0
    } else {
        s[0] + 256 * le_val(s.skip(1))
    }
}

pub proof fn lemma_le_bytes_len(x: int, n: nat)
    ensures
        le_bytes(x, n).len() == n,
    decreases n,
{
    if n > 0 {
        lemma_le_bytes_len(x / 256, (n - 1) as nat);
    }
}

pub proof fn lemma_le_val_bound(s: Seq<u8>)
    ensures
        0 <= le_val(s) < pow256(s.len()),
    decreases s.len(),
{
    if s.len() == 0 {
    } else {
        lemma_le_val_bound(s.skip(1));
    }
}

/// Decoding the `n`-byte little-endian form of `x` gives back `x`.
pub proof fn lemma_le_round_trip(x: int, n: nat)
    requires
        0 <= x < pow256(n),
    ensures
        le_val(le_bytes(x, n)) == x,
    decreases n,
{
    if n > 0 {
        lemma_le_bytes_len(x / 256, (n - 1) as nat);
        assert(le_bytes(x, n).skip(1) =~= le_bytes(x / 256, (n - 1) as nat));
        lemma_le_round_trip(x / 256, (n - 1) as nat);
    }
}

pub proof fn lemma_pow256_mono(a: nat, b: nat)
    requires
        a <= b,
    ensures
        pow256(a) <= pow256(b),
    decreases b,
{
    if a < b {
        lemma_pow256_mono(a, (b - 1) as nat);
        lemma_pow256_pos((b - 1) as nat);
    }
}

/// The field widths used on the wire, as concrete powers of 256.
pub proof fn lemma_pow256_values()
    ensures
        pow256(1) == 0x100,
        pow256(2) == 0x10000,
        pow256(4) == 0x1_0000_0000,
        pow256(8) == 0x1_0000_0000_0000_0000,
        pow256(16) == 0x1_00000000_00000000_00000000_00000000,
{
    reveal_with_fuel(pow256, 17);
}

/// Append the `n` little-endian bytes of `x` to `out`.
pub fn enc_le(x: u128, n: usize, out: &mut Vec<u8>)
    requires
        n <= 16,
        x < pow256(n as nat),
    ensures
        final(out)@ == old(out)@ + le_bytes(x as int, n as nat),
{
    proof {
        lemma_le_bytes_len(x as int, n as nat);
    }
    let mut cur: u128 = x;
    let mut k: usize = 0;
    while k < n
        invariant
            k <= n,
            out@ + le_bytes(cur as int, (n - k) as nat) == old(out)@ + le_bytes(
                x as int,
                n as nat,
            ),
        decreases n - k,
    {
        proof {
            lemma_le_bytes_len(cur as int, (n - k) as nat);
            lemma_le_bytes_len((cur / 256) as int, (n - k - 1) as nat);
        }
        let b: u8 = (cur % 256) as u8;
        out.push(b);
        assert(out@ + le_bytes((cur / 256) as int, (n - k - 1) as nat) =~= old(out)@ + le_bytes(
            x as int,
            n as nat,
        ));
        cur = cur / 256;
        k = k + 1;
    }
    assert(out@ =~= old(out)@ + le_bytes(x as int, n as nat));
}

/// Read an `n`-byte little-endian field of `b` starting at `i`.
pub fn dec_le(b: &Vec<u8>, i: usize, n: usize) -> (r: u128)
    requires
        i + n <= b.len(),
        n <= 16,
    ensures
        r == le_val(b@.subrange(i as int, (i + n) as int)),
{
    let mut cur: u128 = 0;
    let mut k: usize = 0;
    proof {
        lemma_le_val_bound(b@.subrange(i as int, (i + n) as int));
    }
    while k < n
        invariant
            k <= n,
            i + n <= b.len(),
            n <= 16,
            cur == le_val(b@.subrange((i + n - k) as int, (i + n) as int)),
            cur < pow256(k as nat),
        decreases n - k,
    {
        let j: usize = i + n - 1 - k;
        proof {
            lemma_le_val_bound(b@.subrange((i + n - k) as int, (i + n) as int));
            lemma_pow256_pos(k as nat);
            assert(pow256((k + 1) as nat) == 256 * pow256(k as nat));
            lemma_pow256_mono((k + 1) as nat, 16);
            lemma_pow256_values();
            assert(b@.subrange(j as int, (i + n) as int).skip(1) =~= b@.subrange(
                (i + n - k) as int,
                (i + n) as int,
            ));
        }
        assert(cur * 256 + b@[j as int] < pow256((k + 1) as nat)) by (nonlinear_arith)
            requires
                cur < pow256(k as nat),
                b@[j as int] < 256,
                pow256((k + 1) as nat) == 256 * pow256(k as nat),
        ;
        cur = cur * 256 + (b[j] as u128);
        assert(cur == le_val(b@.subrange(j as int, (i + n) as int)));
        k = k + 1;
    }
    assert(b@.subrange((i + n - n) as int, (i + n) as int) =~= b@.subrange(
        i as int,
        (i + n) as int,
    ));
    cur
}

/// Splitting a suffix twice is one longer skip.
pub proof fn lemma_skip_skip(s: Seq<u8>, i: int, n: int)
    requires
        0 <= i,
        0 <= n,
        i + n <= s.len(),
    ensures
        s.skip(i).skip(n) =~= s.skip(i + n),
{
}

/// Parse an `n`-byte little-endian field from the front of `s`, returning
/// its value and the remaining suffix.
pub open spec fn sd_le(s: Seq<u8>, n: nat) -> Option<(int, Seq<u8>)> {
    if s.len() >= n {
        Some((le_val(s.subrange(0, n as int)), s.skip(n as int)))
    } else {
        None
    }
}

/// A little-endian field reads back as the value it was written from.
pub proof fn lemma_sd_le(x: int, n: nat, rest: Seq<u8>)
    requires
        0 <= x < pow256(n),
    ensures
        sd_le(le_bytes(x, n) + rest, n) == Some((x, rest)),
{
    lemma_le_bytes_len(x, n);
    let s = le_bytes(x, n) + rest;
    assert(s.subrange(0, n as int) =~= le_bytes(x, n));
    assert(s.skip(n as int) =~= rest);
    lemma_le_round_trip(x, n);
}

/// Read an `n`-byte little-endian field at cursor `i`, advancing it.
pub fn rd_le(b: &Vec<u8>, i: &mut usize, n: usize) -> (r: Option<u128>)
    requires
        *old(i) <= b.len(),
        n <= 16,
    ensures
        match r {
            Some(v) => *final(i) == *old(i) + n && *final(i) <= b.len() && sd_le(
                b@.skip(*old(i) as int),
                n as nat,
            ) == Some((v as int, b@.skip(*final(i) as int))),
            None => *final(i) == *old(i) && sd_le(b@.skip(*old(i) as int), n as nat) is None,
        },
{
    if b.len() - *i < n {
        return None;
    }
    let v: u128 = dec_le(b, *i, n);
    proof {
        let s = b@.skip(*i as int);
        assert(s.subrange(0, n as int) =~= b@.subrange(*i as int, (*i + n) as int));
        lemma_skip_skip(b@, *i as int, n as int);
    }
    *i = *i + n;
    Some(v)
}

/// The `n` big-endian bytes of `x`, highest byte first.
pub open spec fn be_bytes(x: int, n: nat) -> Seq<u8>
    decreases n,
{
    if n == 0 {
        Seq::empty()
    } else {
        be_bytes(x / 256, (n - 1) as nat) + seq![(x % 256) as u8]
    }
}

/// The value of a big-endian byte string, highest byte first.
pub open spec fn be_val(s: Seq<u8>) -> int
    decreases s.len(),
{
    if s.len() == 0 {
        0
    } else {
        256 * be_val(s.drop_last()) + s.last()
    }
}

pub proof fn lemma_be_bytes_len(x: int, n: nat)
    ensures
        be_bytes(x, n).len() == n,
    decreases n,
{
    if n > 0 {
        lemma_be_bytes_len(x / 256, (n - 1) as nat);
    }
}

pub proof fn lemma_be_val_bound(s: Seq<u8>)
    ensures
        0 <= be_val(s) < pow256(s.len()),
    decreases s.len(),
{
    if s.len() == 0 {
    } else {
        lemma_be_val_bound(s.drop_last());
        lemma_pow256_pos((s.len() - 1) as nat);
        assert(pow256(s.len()) == 256 * pow256((s.len() - 1) as nat));
        assert(256 * be_val(s.drop_last()) + s.last() < 256 * pow256((s.len() - 1) as nat))
            by (nonlinear_arith)
            requires
                be_val(s.drop_last()) < pow256((s.len() - 1) as nat),
                s.last() < 256,
        ;
    }
}

/// Decoding the `n`-byte big-endian form of `x` gives back `x`.
pub proof fn lemma_be_round_trip(x: int, n: nat)
    requires
        0 <= x < pow256(n),
    ensures
        be_val(be_bytes(x, n)) == x,
    decreases n,
{
    if n > 0 {
        lemma_be_bytes_len(x / 256, (n - 1) as nat);
        assert(be_bytes(x, n).drop_last() =~= be_bytes(x / 256, (n - 1) as nat));
        assert(be_bytes(x, n).last() == (x % 256) as u8);
        lemma_be_round_trip(x / 256, (n - 1) as nat);
    }
}

/// Append the `n` big-endian bytes of `x` to `out`.
pub fn enc_be(x: u128, n: usize, out: &mut Vec<u8>)
    requires
        n <= 16,
        x < pow256(n as nat),
    ensures
        final(out)@ == old(out)@ + be_bytes(x as int, n as nat),
    decreases n,
{
    if n == 0 {
        assert(out@ =~= old(out)@ + be_bytes(x as int, 0));
        return;
    }
    proof {
        lemma_pow256_pos((n - 1) as nat);
        assert(pow256(n as nat) == 256 * pow256((n - 1) as nat));
        assert(x / 256 < pow256((n - 1) as nat)) by (nonlinear_arith)
            requires
                x < 256 * pow256((n - 1) as nat),
                pow256((n - 1) as nat) >= 1,
        ;
    }
    enc_be(x / 256, n - 1, out);
    out.push((x % 256) as u8);
    assert(out@ =~= old(out)@ + be_bytes(x as int, n as nat));
}

/// Read an `n`-byte big-endian field of `b` starting at `i`.
pub fn dec_be(b: &Vec<u8>, i: usize, n: usize) -> (r: u128)
    requires
        i + n <= b.len(),
        n <= 16,
    ensures
        r == be_val(b@.subrange(i as int, (i + n) as int)),
{
    let mut cur: u128 = 0;
    let mut k: usize = 0;
    while k < n
        invariant
            k <= n,
            i + n <= b.len(),
            n <= 16,
            cur == be_val(b@.subrange(i as int, (i + k) as int)),
            cur < pow256(k as nat),
        decreases n - k,
    {
        proof {
            lemma_pow256_pos(k as nat);
            assert(pow256((k + 1) as nat) == 256 * pow256(k as nat));
            lemma_pow256_mono((k + 1) as nat, 16);
            lemma_pow256_values();
            assert(b@.subrange(i as int, (i + k + 1) as int).drop_last() =~= b@.subrange(
                i as int,
                (i + k) as int,
            ));
        }
        assert(256 * cur + b@[(i + k) as int] < pow256((k + 1) as nat)) by (nonlinear_arith)
            requires
                cur < pow256(k as nat),
                b@[(i + k) as int] < 256,
                pow256((k + 1) as nat) == 256 * pow256(k as nat),
        ;
        cur = cur * 256 + (b[i + k] as u128);
        k = k + 1;
    }
    cur
}

/// One byte holding a strict boolean: 1 for true, 0 for false.
pub open spec fn bool_byte(v: bool) -> Seq<u8> {
    seq![if v { 1u8 } else { 0u8 }]
}

/// Parse a strict boolean byte; any value other than 0 or 1 is rejected.
pub open spec fn sd_bool(s: Seq<u8>) -> Option<(bool, Seq<u8>)> {
    if s.len() >= 1 && (s[0] == 0 || s[0] == 1) {
        Some((s[0] == 1, s.skip(1)))
    } else {
        None
    }
}

pub proof fn lemma_sd_bool(v: bool, rest: Seq<u8>)
    ensures
        sd_bool(bool_byte(v) + rest) == Some((v, rest)),
{
    assert((bool_byte(v) + rest).skip(1) =~= rest);
}

pub fn enc_bool(v: bool, out: &mut Vec<u8>)
    ensures
        final(out)@ == old(out)@ + bool_byte(v),
{
    out.push(if v { 1 } else { 0 });
    assert(out@ =~= old(out)@ + bool_byte(v));
}

pub fn rd_bool(b: &Vec<u8>, i: &mut usize) -> (r: Option<bool>)
    requires
        *old(i) <= b.len(),
    ensures
        match r {
            Some(v) => *final(i) == *old(i) + 1 && *final(i) <= b.len() && sd_bool(
                b@.skip(*old(i) as int),
            ) == Some((v, b@.skip(*final(i) as int))),
            None => *final(i) == *old(i) && sd_bool(b@.skip(*old(i) as int)) is None,
        },
{
    if *i >= b.len() {
        return None;
    }
    let byte: u8 = b[*i];
    if byte > 1 {
        return None;
    }
    proof {
        lemma_skip_skip(b@, *i as int, 1);
    }
    *i = *i + 1;
    Some(byte == 1)
}

/// An unsigned LEB128 varint: seven value bits per byte, low group first,
/// high bit set on every byte but the last.
pub open spec fn varint_bytes(x: nat) -> Seq<u8>
    decreases x,
{
    if x < 128 {
        seq![x as u8]
    } else {
        seq![(x % 128 + 128) as u8] + varint_bytes((x / 128) as nat)
    }
}

/// Parse a varint from the front of `s`.
pub open spec fn sd_varint(s: Seq<u8>) -> Option<(int, Seq<u8>)>
    decreases s.len(),
{
    if s.len() == 0 {
        None
    } else if s[0] < 128 {
        Some((s[0] as int, s.skip(1)))
    } else {
        match sd_varint(s.skip(1)) {
            None => None,
            Some((v, r)) => Some(((s[0] - 128) + 128 * v, r)),
        }
    }
}

pub proof fn lemma_sd_varint(x: nat, rest: Seq<u8>)
    ensures
        sd_varint(varint_bytes(x) + rest) == Some((x as int, rest)),
    decreases x,
{
    if x < 128 {
        assert((varint_bytes(x) + rest).skip(1) =~= rest);
    } else {
        assert((varint_bytes(x) + rest).skip(1) =~= varint_bytes((x / 128) as nat) + rest);
        lemma_sd_varint((x / 128) as nat, rest);
    }
}

/// Append the varint form of `x` to `out`.
pub fn enc_varint(x: u64, out: &mut Vec<u8>)
    ensures
        final(out)@ == old(out)@ + varint_bytes(x as nat),
    decreases x,
{
    if x < 128 {
        out.push(x as u8);
        assert(out@ =~= old(out)@ + varint_bytes(x as nat));
    } else {
        out.push((x % 128 + 128) as u8);
        enc_varint(x / 128, out);
        assert(out@ =~= old(out)@ + varint_bytes(x as nat));
    }
}

/// Read a varint at cursor `i`, advancing it.  Values above `u64::MAX` are
/// rejected.
pub fn rd_varint(b: &Vec<u8>, i: &mut usize) -> (r: Option<u64>)
    requires
        *old(i) <= b.len(),
    ensures
        match r {
            Some(v) => *old(i) < *final(i) <= b.len() && sd_varint(b@.skip(*old(i) as int))
                == Some((v as int, b@.skip(*final(i) as int))),
            None => sd_varint(b@.skip(*old(i) as int)) is None || (sd_varint(
                b@.skip(*old(i) as int),
            ) matches Some((v, _)) && v > u64::MAX),
        },
    decreases b.len() - *old(i),
{
    if *i >= b.len() {
        return None;
    }
    let byte: u8 = b[*i];
    proof {
        lemma_skip_skip(b@, *i as int, 1);
    }
    if byte < 128 {
        *i = *i + 1;
        return Some(byte as u64);
    }
    *i = *i + 1;
    match rd_varint(b, i) {
        None => None,
        Some(v) => {
            if v > (u64::MAX - 127) / 128 {
                return None;
            }
            Some((byte - 128) as u64 + 128 * v)
        },
    }
}

/// A value between 0 and 0x10FFFF that is not a UTF-16 surrogate: exactly
/// the values a `char` can hold.
pub open spec fn char_value(v: int) -> bool {
    (0 <= v < 0xD800) || (0xE000 <= v <= 0x10FFFF)
}

/// Relies on char::from_u32 of std: it returns Some exactly for unicode
/// scalar values (not a surrogate, at most 0x10FFFF), and the char it
/// returns has the given value.
pub assume_specification [ char::from_u32 ](v: u32) -> (r: Option<char>)
    ensures
        match r {
            Some(c) => c as u32 == v && char_value(v as int),
            None => !char_value(v as int),
        },
;

/// Relies on String::push of std: it appends the given character to the
/// end of the string.
pub assume_specification [ String::push ](s: &mut String, c: char)
    ensures
        final(s)@ == old(s)@.push(c),
;

/// Each character as a four-byte little-endian scalar value.
pub open spec fn chars_bytes(s: Seq<char>) -> Seq<u8>
    decreases s.len(),
{
    if s.len() == 0 {
        Seq::empty()
    } else {
        le_bytes(s[0] as u32 as int, 4) + chars_bytes(s.skip(1))
    }
}

/// Parse `count` characters from the front of `s`.
pub open spec fn sd_chars(s: Seq<u8>, count: nat) -> Option<(Seq<char>, Seq<u8>)>
    decreases count,
{
    if count == 0 {
        Some((Seq::empty(), s))
    } else {
        match sd_le(s, 4) {
            None => None,
            Some((v, s1)) => if char_value(v) {
                match sd_chars(s1, (count - 1) as nat) {
                    None => None,
                    Some((cs, s2)) => Some((seq![(v as u32) as char] + cs, s2)),
                }
            } else {
                None
            },
        }
    }
}

/// A character-count prefix, then the characters.
pub open spec fn string_bytes(s: Seq<char>) -> Seq<u8> {
    le_bytes(s.len() as int, 4) + chars_bytes(s)
}

/// Parse a length-prefixed string from the front of `s`.
pub open spec fn sd_string(s: Seq<u8>) -> Option<(Seq<char>, Seq<u8>)> {
    match sd_le(s, 4) {
        None => None,
        Some((n, s1)) => sd_chars(s1, n as nat),
    }
}

pub proof fn lemma_sd_chars(s: Seq<char>, rest: Seq<u8>)
    ensures
        sd_chars(chars_bytes(s) + rest, s.len()) == Some((s, rest)),
    decreases s.len(),
{
    if s.len() == 0 {
        assert(chars_bytes(s) + rest =~= rest);
        assert(s =~= Seq::<char>::empty());
    } else {
        let c = s[0];
        let v = (c as u32) as int;
        vstd::utf8::char_is_scalar(c);
        lemma_pow256_values();
        assert(chars_bytes(s) + rest =~= le_bytes(v, 4) + (chars_bytes(s.skip(1)) + rest));
        lemma_sd_le(v, 4, chars_bytes(s.skip(1)) + rest);
        lemma_sd_chars(s.skip(1), rest);
        vstd::utf8::char_u32_cast(c, c as u32);
        assert(seq![(v as u32) as char] + s.skip(1) =~= s);
    }
}

/// A length-prefixed string reads back as the characters it was written
/// from.
pub proof fn lemma_sd_string(s: Seq<char>, rest: Seq<u8>)
    requires
        s.len() < 0x1_0000_0000,
    ensures
        sd_string(string_bytes(s) + rest) == Some((s, rest)),
{
    lemma_pow256_values();
    assert(string_bytes(s) + rest =~= le_bytes(s.len() as int, 4) + (chars_bytes(s) + rest));
    lemma_sd_le(s.len() as int, 4, chars_bytes(s) + rest);
    lemma_sd_chars(s, rest);
}

pub proof fn lemma_chars_bytes_push(s: Seq<char>, c: char)
    ensures
        chars_bytes(s.push(c)) == chars_bytes(s) + le_bytes(c as u32 as int, 4),
    decreases s.len(),
{
    if s.len() == 0 {
        reveal_with_fuel(chars_bytes, 3);
        assert(s.push(c)[0] == c);
        assert(s.push(c).skip(1) =~= Seq::<char>::empty());
        assert(chars_bytes(s.push(c)) =~= chars_bytes(s) + le_bytes(c as u32 as int, 4));
    } else {
        assert(s.push(c).skip(1) =~= s.skip(1).push(c));
        lemma_chars_bytes_push(s.skip(1), c);
        assert(chars_bytes(s.push(c)) =~= chars_bytes(s) + le_bytes(c as u32 as int, 4));
    }
}

/// Append the length-prefixed form of `v` to `out`.
pub fn enc_string(v: &String, out: &mut Vec<u8>)
    requires
        v@.len() < 0x1_0000_0000,
    ensures
        final(out)@ == old(out)@ + string_bytes(v@),
{
    proof {
        lemma_pow256_values();
    }
    let n: usize = v.as_str().unicode_len();
    enc_le(n as u128, 4, out);
    let mut k: usize = 0;
    while k < n
        invariant
            k <= n,
            n == v@.len(),
            out@ == old(out)@ + le_bytes(n as int, 4) + chars_bytes(v@.take(k as int)),
        decreases n - k,
    {
        let c: char = v.as_str().get_char(k);
        proof {
            vstd::utf8::char_is_scalar(c);
            lemma_pow256_values();
        }
        enc_le((c as u32) as u128, 4, out);
        proof {
            assert(v@.take((k + 1) as int) =~= v@.take(k as int).push(c));
            lemma_chars_bytes_push(v@.take(k as int), c);
            assert(out@ =~= old(out)@ + le_bytes(n as int, 4) + chars_bytes(
                v@.take((k + 1) as int),
            ));
        }
        k = k + 1;
    }
    proof {
        assert(v@.take(n as int) =~= v@);
        assert(out@ =~= old(out)@ + string_bytes(v@));
    }
}

/// Read a length-prefixed string at cursor `i`, advancing it.
pub fn rd_string(b: &Vec<u8>, i: &mut usize) -> (r: Option<String>)
    requires
        *old(i) <= b.len(),
    ensures
        r is None ==> sd_string(b@.skip(*old(i) as int)) is None,
        r matches Some(v) ==> *old(i) <= *final(i) <= b.len() && sd_string(
            b@.skip(*old(i) as int),
        ) == Some((v@, b@.skip(*final(i) as int))),
{
    let ghost start = *i;
    let n128: u128 = match rd_le(b, i, 4) {
        None => {
            return None;
        },
        Some(v) => v,
    };
    proof {
        let s0 = b@.skip(start as int);
        lemma_le_val_bound(s0.subrange(0, 4));
        lemma_pow256_values();
    }
    let n: u64 = n128 as u64;
    let ghost chars_start = *i;
    assert(sd_string(b@.skip(start as int)) == sd_chars(b@.skip(chars_start as int), n as nat));
    let mut acc: String = String::new();
    let mut k: u64 = 0;
    #[verifier::loop_isolation(false)]
    while k < n
        invariant
            k <= n,
            *i <= b.len(),
            start == *old(i),
            start <= *i,
            acc@.len() == k,
            sd_string(b@.skip(start as int)) == sd_chars(b@.skip(chars_start as int), n as nat),
            match sd_chars(b@.skip(*i as int), (n - k) as nat) {
                None => sd_chars(b@.skip(chars_start as int), n as nat) is None,
                Some((cs, r)) => sd_chars(b@.skip(chars_start as int), n as nat) == Some(
                    (acc@ + cs, r),
                ),
            },
        decreases n - k,
    {
        let ghost cur = *i;
        let v128: u128 = match rd_le(b, i, 4) {
            None => {
                proof {
                    assert(sd_chars(b@.skip(cur as int), (n - k) as nat) is None);
                    assert(sd_chars(b@.skip(chars_start as int), n as nat) is None);
                    assert(sd_string(b@.skip(start as int)) is None);
                }
                return None;
            },
            Some(v) => v,
        };
        proof {
            lemma_le_val_bound(b@.skip(cur as int).subrange(0, 4));
            lemma_pow256_values();
        }
        let v32: u32 = v128 as u32;
        let c: char = match char::from_u32(v32) {
            None => {
                proof {
                    assert(sd_chars(b@.skip(cur as int), (n - k) as nat) is None);
                    assert(sd_chars(b@.skip(chars_start as int), n as nat) is None);
                }
                return None;
            },
            Some(c) => c,
        };
        let ghost acc_old = acc@;
        acc.push(c);
        proof {
            vstd::utf8::char_u32_cast(c, v32);
            let scur = b@.skip(cur as int);
            let snext = b@.skip(*i as int);
            if sd_chars(snext, (n - k - 1) as nat) is Some {
                let (cs2, r2) = sd_chars(snext, (n - k - 1) as nat)->Some_0;
                assert(sd_chars(scur, (n - k) as nat) == Some((seq![c] + cs2, r2)));
                assert(acc_old + (seq![c] + cs2) =~= acc@ + cs2);
            } else {
                assert(sd_chars(scur, (n - k) as nat) is None);
            }
        }
        k = k + 1;
    }
    proof {
        assert(sd_chars(b@.skip(*i as int), (n - k) as nat) == Some(
            (Seq::<char>::empty(), b@.skip(*i as int)),
        ));
        assert(acc@ + Seq::<char>::empty() =~= acc@);
        assert(sd_chars(b@.skip(chars_start as int), n as nat) == Some(
            (acc@, b@.skip(*i as int)),
        ));
    }
    Some(acc)
}

/// A byte-count prefix, then the bytes themselves.
pub open spec fn bytes_block(p: Seq<u8>) -> Seq<u8> {
    le_bytes(p.len() as int, 4) + p
}

/// Parse a length-prefixed byte block from the front of `s`.
pub open spec fn sd_bytes(s: Seq<u8>) -> Option<(Seq<u8>, Seq<u8>)> {
    match sd_le(s, 4) {
        None => None,
        Some((n, s1)) => if s1.len() >= n {
            Some((s1.subrange(0, n), s1.skip(n)))
        } else {
            None
        },
    }
}

/// A length-prefixed byte block reads back as the bytes it was written
/// from.
pub proof fn lemma_sd_bytes(p: Seq<u8>, rest: Seq<u8>)
    requires
        p.len() < 0x1_0000_0000,
    ensures
        sd_bytes(bytes_block(p) + rest) == Some((p, rest)),
{
    lemma_pow256_values();
    assert(bytes_block(p) + rest =~= le_bytes(p.len() as int, 4) + (p + rest));
    lemma_sd_le(p.len() as int, 4, p + rest);
    assert((p + rest).subrange(0, p.len() as int) =~= p);
    assert((p + rest).skip(p.len() as int) =~= rest);
}

/// Append the length-prefixed form of `p` to `out`.
pub fn enc_bytes(p: &Vec<u8>, out: &mut Vec<u8>)
    requires
        p.len() < 0x1_0000_0000,
    ensures
        final(out)@ == old(out)@ + bytes_block(p@),
{
    proof {
        lemma_pow256_values();
    }
    enc_le(p.len() as u128, 4, out);
    let mut k: usize = 0;
    while k < p.len()
        invariant
            k <= p.len(),
            out@ == old(out)@ + le_bytes(p.len() as int, 4) + p@.subrange(0, k as int),
        decreases p.len() - k,
    {
        out.push(p[k]);
        assert(out@ =~= old(out)@ + le_bytes(p@.len() as int, 4) + p@.subrange(0, (k + 1) as int));
        k = k + 1;
    }
    assert(p@.subrange(0, p.len() as int) =~= p@);
    assert(out@ =~= old(out)@ + bytes_block(p@));
}

/// Read a length-prefixed byte block at cursor `i`, advancing it.
pub fn rd_bytes(b: &Vec<u8>, i: &mut usize) -> (r: Option<Vec<u8>>)
    requires
        *old(i) <= b.len(),
    ensures
        r is None ==> sd_bytes(b@.skip(*old(i) as int)) is None,
        r matches Some(v) ==> *old(i) <= *final(i) <= b.len() && sd_bytes(
            b@.skip(*old(i) as int),
        ) == Some((v@, b@.skip(*final(i) as int))),
{
    let ghost start = *i;
    let n128: u128 = match rd_le(b, i, 4) {
        None => {
            return None;
        },
        Some(v) => v,
    };
    proof {
        lemma_le_val_bound(b@.skip(start as int).subrange(0, 4));
        lemma_pow256_values();
    }
    let ghost payload_start = *i;
    let n: usize = if n128 <= usize::MAX as u128 {
        n128 as usize
    } else {
        proof {
            assert(b@.skip(payload_start as int).len() < n128);
        }
        return None;
    };
    if b.len() - *i < n {
        proof {
            assert(b@.skip(payload_start as int).len() < n128);
        }
        return None;
    }
    let mut v: Vec<u8> = Vec::new();
    let mut k: usize = 0;
    #[verifier::loop_isolation(false)]
    while k < n
        invariant
            k <= n,
            payload_start + n <= b.len(),
            *i == payload_start + k,
            v@ == b@.skip(payload_start as int).subrange(0, k as int),
        decreases n - k,
    {
        v.push(b[*i]);
        assert(v@ =~= b@.skip(payload_start as int).subrange(0, (k + 1) as int));
        *i = *i + 1;
        k = k + 1;
    }
    proof {
        lemma_skip_skip(b@, payload_start as int, n as int);
        assert(b@.skip(payload_start as int).skip(n as int) =~= b@.skip(*i as int));
    }
    Some(v)
}

/// An optional four-byte field: a presence byte, then the value if present.
pub open spec fn opt_u32_bytes(o: Option<u32>) -> Seq<u8> {
    match o {
        None => bool_byte(false),
        Some(v) => bool_byte(true) + le_bytes(v as int, 4),
    }
}

/// Parse an optional four-byte field from the front of `s`.
pub open spec fn sd_opt_u32(s: Seq<u8>) -> Option<(Option<u32>, Seq<u8>)> {
    match sd_bool(s) {
        None => None,
        Some((present, s1)) => if present {
            match sd_le(s1, 4) {
                None => None,
                Some((v, s2)) => Some((Some(v as u32), s2)),
            }
        } else {
            Some((None, s1))
        },
    }
}

pub proof fn lemma_sd_opt_u32(o: Option<u32>, rest: Seq<u8>)
    ensures
        sd_opt_u32(opt_u32_bytes(o) + rest) == Some((o, rest)),
{
    lemma_pow256_values();
    match o {
        None => {
            lemma_sd_bool(false, rest);
        },
        Some(v) => {
            assert(opt_u32_bytes(o) + rest =~= bool_byte(true) + (le_bytes(v as int, 4) + rest));
            lemma_sd_bool(true, le_bytes(v as int, 4) + rest);
            lemma_sd_le(v as int, 4, rest);
        },
    }
}

/// An optional eight-byte field: a presence byte, then the value if present.
pub open spec fn opt_u64_bytes(o: Option<u64>) -> Seq<u8> {
    match o {
        None => bool_byte(false),
        Some(v) => bool_byte(true) + le_bytes(v as int, 8),
    }
}

/// Parse an optional eight-byte field from the front of `s`.
pub open spec fn sd_opt_u64(s: Seq<u8>) -> Option<(Option<u64>, Seq<u8>)> {
    match sd_bool(s) {
        None => None,
        Some((present, s1)) => if present {
            match sd_le(s1, 8) {
                None => None,
                Some((v, s2)) => Some((Some(v as u64), s2)),
            }
        } else {
            Some((None, s1))
        },
    }
}

pub proof fn lemma_sd_opt_u64(o: Option<u64>, rest: Seq<u8>)
    ensures
        sd_opt_u64(opt_u64_bytes(o) + rest) == Some((o, rest)),
{
    lemma_pow256_values();
    match o {
        None => {
            lemma_sd_bool(false, rest);
        },
        Some(v) => {
            assert(opt_u64_bytes(o) + rest =~= bool_byte(true) + (le_bytes(v as int, 8) + rest));
            lemma_sd_bool(true, le_bytes(v as int, 8) + rest);
            lemma_sd_le(v as int, 8, rest);
        },
    }
}

/// Append the wire form of an optional four-byte field to `out`.
pub fn enc_opt_u32(o: &Option<u32>, out: &mut Vec<u8>)
    ensures
        final(out)@ == old(out)@ + opt_u32_bytes(*o),
{
    match o {
        None => {
            enc_bool(false, out);
        },
        Some(v) => {
            enc_bool(true, out);
            proof {
                lemma_pow256_values();
            }
            enc_le(*v as u128, 4, out);
            assert(out@ =~= old(out)@ + opt_u32_bytes(Some(*v)));
        },
    }
}

/// Append the wire form of an optional eight-byte field to `out`.
pub fn enc_opt_u64(o: &Option<u64>, out: &mut Vec<u8>)
    ensures
        final(out)@ == old(out)@ + opt_u64_bytes(*o),
{
    match o {
        None => {
            enc_bool(false, out);
        },
        Some(v) => {
            enc_bool(true, out);
            proof {
                lemma_pow256_values();
            }
            enc_le(*v as u128, 8, out);
            assert(out@ =~= old(out)@ + opt_u64_bytes(Some(*v)));
        },
    }
}

/// Read an optional four-byte field at cursor `i`, advancing it.
pub fn rd_opt_u32(b: &Vec<u8>, i: &mut usize) -> (r: Option<Option<u32>>)
    requires
        *old(i) <= b.len(),
    ensures
        r is None ==> sd_opt_u32(b@.skip(*old(i) as int)) is None,
        r matches Some(v) ==> *old(i) <= *final(i) <= b.len() && sd_opt_u32(
            b@.skip(*old(i) as int),
        ) == Some((v, b@.skip(*final(i) as int))),
{
    match rd_bool(b, i) {
        None => None,
        Some(present) => {
            if present {
                match rd_u32(b, i) {
                    None => None,
                    Some(v) => Some(Some(v)),
                }
            } else {
                Some(None)
            }
        },
    }
}

/// Read an optional eight-byte field at cursor `i`, advancing it.
pub fn rd_opt_u64(b: &Vec<u8>, i: &mut usize) -> (r: Option<Option<u64>>)
    requires
        *old(i) <= b.len(),
    ensures
        r is None ==> sd_opt_u64(b@.skip(*old(i) as int)) is None,
        r matches Some(v) ==> *old(i) <= *final(i) <= b.len() && sd_opt_u64(
            b@.skip(*old(i) as int),
        ) == Some((v, b@.skip(*final(i) as int))),
{
    match rd_bool(b, i) {
        None => None,
        Some(present) => {
            if present {
                match rd_u64(b, i) {
                    None => None,
                    Some(v) => Some(Some(v)),
                }
            } else {
                Some(None)
            }
        },
    }
}

/// Append the two-byte little-endian form of `x` to `out`.
pub fn enc_u16(x: u16, out: &mut Vec<u8>)
    ensures
        final(out)@ == old(out)@ + le_bytes(x as int, 2),
{
    proof {
        lemma_pow256_values();
    }
    enc_le(x as u128, 2, out);
}

/// Append the four-byte little-endian form of `x` to `out`.
pub fn enc_u32(x: u32, out: &mut Vec<u8>)
    ensures
        final(out)@ == old(out)@ + le_bytes(x as int, 4),
{
    proof {
        lemma_pow256_values();
    }
    enc_le(x as u128, 4, out);
}

/// Append the eight-byte little-endian form of `x` to `out`.
pub fn enc_u64(x: u64, out: &mut Vec<u8>)
    ensures
        final(out)@ == old(out)@ + le_bytes(x as int, 8),
{
    proof {
        lemma_pow256_values();
    }
    enc_le(x as u128, 8, out);
}

/// Append the sixteen-byte little-endian form of `x` to `out`.
pub fn enc_u128(x: u128, out: &mut Vec<u8>)
    ensures
        final(out)@ == old(out)@ + le_bytes(x as int, 16),
{
    proof {
        lemma_pow256_values();
    }
    enc_le(x, 16, out);
}

/// Read a one-byte field at cursor `i`, advancing it.
pub fn rd_u8(b: &Vec<u8>, i: &mut usize) -> (r: Option<u8>)
    requires
        *old(i) <= b.len(),
    ensures
        r is None ==> sd_le(b@.skip(*old(i) as int), 1) is None,
        r matches Some(v) ==> *final(i) == *old(i) + 1 && *final(i) <= b.len() && sd_le(
            b@.skip(*old(i) as int),
            1,
        ) == Some((v as int, b@.skip(*final(i) as int))),
{
    let ghost start = *i;
    match rd_le(b, i, 1) {
        None => None,
        Some(v) => {
            proof {
                lemma_le_val_bound(b@.skip(start as int).subrange(0, 1));
                lemma_pow256_values();
            }
            Some(v as u8)
        },
    }
}

/// Read a two-byte little-endian field at cursor `i`, advancing it.
pub fn rd_u16(b: &Vec<u8>, i: &mut usize) -> (r: Option<u16>)
    requires
        *old(i) <= b.len(),
    ensures
        r is None ==> sd_le(b@.skip(*old(i) as int), 2) is None,
        r matches Some(v) ==> *final(i) == *old(i) + 2 && *final(i) <= b.len() && sd_le(
            b@.skip(*old(i) as int),
            2,
        ) == Some((v as int, b@.skip(*final(i) as int))),
{
    let ghost start = *i;
    match rd_le(b, i, 2) {
        None => None,
        Some(v) => {
            proof {
                lemma_le_val_bound(b@.skip(start as int).subrange(0, 2));
                lemma_pow256_values();
            }
            Some(v as u16)
        },
    }
}

/// Read a four-byte little-endian field at cursor `i`, advancing it.
pub fn rd_u32(b: &Vec<u8>, i: &mut usize) -> (r: Option<u32>)
    requires
        *old(i) <= b.len(),
    ensures
        r is None ==> sd_le(b@.skip(*old(i) as int), 4) is None,
        r matches Some(v) ==> *final(i) == *old(i) + 4 && *final(i) <= b.len() && sd_le(
            b@.skip(*old(i) as int),
            4,
        ) == Some((v as int, b@.skip(*final(i) as int))),
{
    let ghost start = *i;
    match rd_le(b, i, 4) {
        None => None,
        Some(v) => {
            proof {
                lemma_le_val_bound(b@.skip(start as int).subrange(0, 4));
                lemma_pow256_values();
            }
            Some(v as u32)
        },
    }
}

/// Read an eight-byte little-endian field at cursor `i`, advancing it.
pub fn rd_u64(b: &Vec<u8>, i: &mut usize) -> (r: Option<u64>)
    requires
        *old(i) <= b.len(),
    ensures
        r is None ==> sd_le(b@.skip(*old(i) as int), 8) is None,
        r matches Some(v) ==> *final(i) == *old(i) + 8 && *final(i) <= b.len() && sd_le(
            b@.skip(*old(i) as int),
            8,
        ) == Some((v as int, b@.skip(*final(i) as int))),
{
    let ghost start = *i;
    match rd_le(b, i, 8) {
        None => None,
        Some(v) => {
            proof {
                lemma_le_val_bound(b@.skip(start as int).subrange(0, 8));
                lemma_pow256_values();
            }
            Some(v as u64)
        },
    }
}

/// Read a sixteen-byte little-endian field at cursor `i`, advancing it.
pub fn rd_u128(b: &Vec<u8>, i: &mut usize) -> (r: Option<u128>)
    requires
        *old(i) <= b.len(),
    ensures
        r is None ==> sd_le(b@.skip(*old(i) as int), 16) is None,
        r matches Some(v) ==> *final(i) == *old(i) + 16 && *final(i) <= b.len() && sd_le(
            b@.skip(*old(i) as int),
            16,
        ) == Some((v as int, b@.skip(*final(i) as int))),
{
    rd_le(b, i, 16)
}

} // verus!
