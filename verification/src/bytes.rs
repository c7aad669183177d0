//! Bytes as numbers, as hexadecimal digits, and as text.
use vstd::prelude::*;
use vstd::utf8::*;

verus! {

/// The number that `bytes` hold, the least significant byte first.
pub open spec fn le_number(bytes: Seq<u8>) -> nat
    decreases bytes.len(),
{
    if bytes.len() == 0 {
        0
    } else {
        bytes[0] as nat + 256 * le_number(bytes.drop_first())
    }
}

/// The number in the `n` bytes of `bytes` from `off` on.
pub open spec fn le_number_at(bytes: Seq<u8>, off: int, n: int) -> Option<nat> {
    if 0 <= off && off + n <= bytes.len() {
        Some(le_number(bytes.subrange(off, off + n)))
    } else {
        None
    }
}

proof fn lemma_le_number_1(bytes: Seq<u8>, off: int, n: int)
    requires
        0 <= off,
        0 < n,
        off + n <= bytes.len(),
    ensures
        le_number(bytes.subrange(off, off + n)) == bytes[off] as nat + 256 * le_number(
            bytes.subrange(off + 1, off + n),
        ),
{
    assert(bytes.subrange(off, off + n).drop_first() == bytes.subrange(off + 1, off + n));
}

proof fn lemma_le_number_2(bytes: Seq<u8>, off: int, n: int)
    requires
        0 <= off,
        1 < n,
        off + n <= bytes.len(),
    ensures
        le_number(bytes.subrange(off, off + n)) == bytes[off] as nat + 256 * bytes[off + 1] as nat
            + 65536 * le_number(bytes.subrange(off + 2, off + n)),
{
    lemma_le_number_1(bytes, off, n);
    lemma_le_number_1(bytes, off + 1, n - 1);
}

/// Reads a 16-bit number.
#[verifier::allow_in_spec]
pub fn read_u16_le(bytes: &[u8], off: usize) -> (r: Option<u16>)
    ensures
        match r {
            Some(v) => le_number_at(bytes@, off as int, 2) == Some(v as nat),
            None => le_number_at(bytes@, off as int, 2) is None,
        },
    returns
        match le_number_at(bytes@, off as int, 2) {
            Some(v) => Some(v as u16),
            None => None,
        },
{
    let n = bytes.len();
    if n < 2 || off > n - 2 {
        return None;
    }
    proof {
        lemma_le_number_2(bytes@, off as int, 2);
        assert(bytes@.subrange(off + 2, off + 2) == Seq::<u8>::empty());
    }
    Some(bytes[off] as u16 + 256 * bytes[off + 1] as u16)
}

/// Reads a 32-bit number.
#[verifier::allow_in_spec]
pub fn read_u32_le(bytes: &[u8], off: usize) -> (r: Option<u32>)
    ensures
        match r {
            Some(v) => le_number_at(bytes@, off as int, 4) == Some(v as nat),
            None => le_number_at(bytes@, off as int, 4) is None,
        },
    returns
        match le_number_at(bytes@, off as int, 4) {
            Some(v) => Some(v as u32),
            None => None,
        },
{
    let n = bytes.len();
    if n < 4 || off > n - 4 {
        return None;
    }
    proof {
        lemma_le_number_2(bytes@, off as int, 4);
        lemma_le_number_2(bytes@, off + 2, 2);
        assert(bytes@.subrange(off + 4, off + 4) == Seq::<u8>::empty());
    }
    Some(
        bytes[off] as u32 + 256 * bytes[off + 1] as u32 + 65536 * bytes[off + 2] as u32 + 16777216
            * bytes[off + 3] as u32,
    )
}

/// Reads a 64-bit number.
#[verifier::allow_in_spec]
pub fn read_u64_le(bytes: &[u8], off: usize) -> (r: Option<u64>)
    ensures
        match r {
            Some(v) => le_number_at(bytes@, off as int, 8) == Some(v as nat),
            None => le_number_at(bytes@, off as int, 8) is None,
        },
    returns
        match le_number_at(bytes@, off as int, 8) {
            Some(v) => Some(v as u64),
            None => None,
        },
{
    let n = bytes.len();
    if n < 8 || off > n - 8 {
        return None;
    }
    proof {
        lemma_le_number_2(bytes@, off as int, 8);
        lemma_le_number_2(bytes@, off + 2, 6);
        lemma_le_number_2(bytes@, off + 4, 4);
        lemma_le_number_2(bytes@, off + 6, 2);
        lemma_le_number_2(bytes@, off as int, 4);
        lemma_le_number_2(bytes@, off + 2, 2);
        assert(bytes@.subrange(off + 4, off + 4) == Seq::<u8>::empty());
        assert(bytes@.subrange(off + 8, off + 8) == Seq::<u8>::empty());
    }
    let low = read_u32_le(bytes, off)?;
    let high = read_u32_le(bytes, off + 4)?;
    Some(low as u64 + 4294967296 * high as u64)
}

/// The hexadecimal digit for `n`.
pub open spec fn hex_digit(n: nat) -> char {
    if n < 10 {
        ('0' as int + n) as char
    } else {
        ('a' as int + n - 10) as char
    }
}

/// `bytes` in hexadecimal digits, two for each byte, the more significant one
/// first.
pub open spec fn hex(bytes: Seq<u8>) -> Seq<char> {
    Seq::new(
        2 * bytes.len(),
        |i: int|
            hex_digit(
                if i % 2 == 0 {
                    bytes[i / 2] as nat / 16
                } else {
                    bytes[i / 2] as nat % 16
                },
            ),
    )
}

fn hex_char(n: u8) -> (c: char)
    requires
        n < 16,
    ensures
        c == hex_digit(n as nat),
{
    if n < 10 {
        (48 + n) as char
    } else {
        (87 + n) as char
    }
}

/// Writes `bytes` in hexadecimal digits.
pub fn to_hex(bytes: &[u8]) -> (out: String)
    ensures
        out@ == hex(bytes@),
{
    let mut out = String::new();
    for i in 0..bytes.len()
        invariant
            out@ == hex(bytes@.take(i as int)),
    {
        let byte = bytes[i];
        out.push(hex_char(byte / 16));
        out.push(hex_char(byte % 16));
        assert(out@ =~= hex(bytes@.take(i + 1)));
    }
    assert(bytes@.take(bytes@.len() as int) == bytes@);
    out
}

/// Different bytes have different hexadecimal digits, and none of the digits
/// is anything but `0` to `9` and `a` to `f`.
pub proof fn law_hex_is_faithful(a: Seq<u8>, b: Seq<u8>)
    ensures
        hex(a) == hex(b) ==> a == b,
        forall|i: int|
            0 <= i < hex(a).len() ==> ('0' <= #[trigger] hex(a)[i] <= '9' || 'a' <= hex(a)[i]
                <= 'f'),
{
    if hex(a) == hex(b) {
        assert(hex(a).len() == 2 * a.len());
        assert(hex(b).len() == 2 * b.len());
        assert forall|k: int| 0 <= k < a.len() implies a[k] == b[k] by {
            assert(hex(a)[2 * k] == hex(b)[2 * k]);
            assert(hex(a)[2 * k + 1] == hex(b)[2 * k + 1]);
        }
        assert(a =~= b);
    }
}

/// The text that `String::from_utf8_lossy` makes of bytes that are not UTF-8.
pub uninterp spec fn lossy_text(bytes: Seq<u8>) -> Seq<char>;

/// The text that `bytes` stand for.
pub open spec fn text_of(bytes: Seq<u8>) -> Seq<char> {
    if valid_utf8(bytes) {
        decode_utf8(bytes)
    } else {
        lossy_text(bytes)
    }
}

/// `String::from_utf8_lossy` gives, on UTF-8, the text that the bytes encode,
/// and on other bytes a text that depends on them alone.
#[verifier::external_body]
fn text_lossy(bytes: &[u8]) -> (r: String)
    ensures
        r@ == if valid_utf8(bytes@) {
            decode_utf8(bytes@)
        } else {
            lossy_text(bytes@)
        },
{
    String::from_utf8_lossy(bytes).to_string()
}

/// The bytes before the first 0.
pub open spec fn until_nul(bytes: Seq<u8>) -> Seq<u8> {
    match crate::text::find(bytes, seq![0u8]) {
        Some(i) => bytes.take(i),
        None => bytes,
    }
}

/// Takes the bytes before the first 0 for text.
pub fn string_from_nul(bytes: &[u8]) -> (r: String)
    ensures
        r@ == text_of(until_nul(bytes@)),
{
    let n = bytes.len();
    let mut i: usize = 0;
    while i < n && bytes[i] != 0
        invariant
            n == bytes@.len(),
            i <= n,
            forall|j: int| 0 <= j < i ==> bytes@[j] != 0,
        decreases n - i,
    {
        i += 1;
    }
    let text = vstd::slice::slice_subrange(bytes, 0, i);
    proof {
        lemma_until_nul(bytes@, i as int);
        assert(text@ == bytes@.take(i as int));
    }
    text_lossy(text)
}

/// Bytes that are not 0 up to a 0, or up to the end, are those before the
/// first 0.
pub proof fn lemma_until_nul(bytes: Seq<u8>, n: int)
    requires
        0 <= n <= bytes.len(),
        forall|j: int| 0 <= j < n ==> bytes[j] != 0,
        n < bytes.len() ==> bytes[n] == 0,
    ensures
        until_nul(bytes) == bytes.take(n),
{
    let pat = seq![0u8];
    assert forall|j: int| 0 <= j < n implies !#[trigger] crate::text::occurs_at(bytes, pat, j) by {
        if crate::text::occurs_at(bytes, pat, j) {
            assert(bytes.subrange(j, j + 1)[0] == pat[0]);
        }
    }
    if n < bytes.len() {
        assert(bytes.subrange(n, n + 1) == pat);
        crate::text::lemma_find_is(bytes, pat, n);
    } else {
        crate::text::lemma_find_from(bytes, pat, 0);
        assert(bytes.take(n) == bytes);
    }
}

/// `n` in `k` bytes, the least significant one first.
pub open spec fn le_bytes(n: nat, k: nat) -> Seq<u8>
    decreases k,
{
    if k == 0 {
        seq![]
    } else {
        seq![(n % 256) as u8] + le_bytes(n / 256, (k - 1) as nat)
    }
}

/// Whether `k` bytes are enough for `n`.
pub open spec fn fits(n: nat, k: nat) -> bool
    decreases k,
{
    if k == 0 {
        n == 0
    } else {
        fits(n / 256, (k - 1) as nat)
    }
}

/// A number that is written in bytes, the least significant one first, is read
/// as that number, whatever stands before and behind them.
pub proof fn law_number_reads_back(front: Seq<u8>, n: nat, k: nat, end: Seq<u8>)
    requires
        fits(n, k),
    ensures
        le_bytes(n, k).len() == k,
        le_number(le_bytes(n, k)) == n,
        le_number_at(front + le_bytes(n, k) + end, front.len() as int, k as int) == Some(n),
{
    lemma_le_bytes(n, k);
    assert((front + le_bytes(n, k) + end).subrange(
        front.len() as int,
        (front.len() + k) as int,
    ) =~= le_bytes(n, k));
}

proof fn lemma_le_bytes(n: nat, k: nat)
    requires
        fits(n, k),
    ensures
        le_bytes(n, k).len() == k,
        le_number(le_bytes(n, k)) == n,
    decreases k,
{
    if k > 0 {
        lemma_le_bytes(n / 256, (k - 1) as nat);
        assert(le_bytes(n, k).drop_first() =~= le_bytes(n / 256, (k - 1) as nat));
    }
}

/// Every number of 16, 32 or 64 bits fits into 2, 4 or 8 bytes.
pub proof fn law_bits_fit_into_bytes(a: u16, b: u32, c: u64)
    ensures
        fits(a as nat, 2),
        fits(b as nat, 4),
        fits(c as nat, 8),
{
    reveal_with_fuel(fits, 9);
}

/// A number is read only where all of its bytes are there.
pub proof fn law_number_needs_all_its_bytes(bytes: Seq<u8>, off: nat, k: nat)
    ensures
        le_number_at(bytes, off as int, k as int) is Some <==> off + k <= bytes.len(),
{
}

/// A number of 16, 32 or 64 bits that stands at a place of some bytes is what is
/// read there.
pub proof fn law_place_reads_as_its_number(
    bytes: &[u8],
    off: usize,
    front: Seq<u8>,
    a: u16,
    b: u32,
    c: u64,
    end: Seq<u8>,
)
    requires
        off == front.len(),
    ensures
        bytes@ == front + le_bytes(a as nat, 2) + end ==> read_u16_le(bytes, off) == Some(a),
        bytes@ == front + le_bytes(b as nat, 4) + end ==> read_u32_le(bytes, off) == Some(b),
        bytes@ == front + le_bytes(c as nat, 8) + end ==> read_u64_le(bytes, off) == Some(c),
        read_u16_le(bytes, off) is None <==> off + 2 > bytes@.len(),
        read_u32_le(bytes, off) is None <==> off + 4 > bytes@.len(),
        read_u64_le(bytes, off) is None <==> off + 8 > bytes@.len(),
{
    law_bits_fit_into_bytes(a, b, c);
    law_number_reads_back(front, a as nat, 2, end);
    law_number_reads_back(front, b as nat, 4, end);
    law_number_reads_back(front, c as nat, 8, end);
}

/// What a hexadecimal digit stands for.
pub open spec fn hex_value(c: char) -> int {
    if '0' <= c <= '9' {
        c as int - '0' as int
    } else {
        c as int - 'a' as int + 10
    }
}

/// Each byte is sixteen times its first hexadecimal digit and its second.
pub proof fn law_hex_reads_back(bytes: Seq<u8>, k: int)
    requires
        0 <= k < bytes.len(),
    ensures
        hex(bytes).len() == 2 * bytes.len(),
        bytes[k] == 16 * hex_value(hex(bytes)[2 * k]) + hex_value(hex(bytes)[2 * k + 1]),
{
}

/// Bytes without a 0 are taken whole, up to the end or up to a 0, whatever
/// follows it; and the bytes of text stand for that text.
pub proof fn law_text_ends_at_the_first_nul(s: Seq<char>, rest: Seq<u8>)
    requires
        !encode_utf8(s).contains(0),
    ensures
        until_nul(encode_utf8(s)) == encode_utf8(s),
        until_nul(encode_utf8(s) + seq![0u8] + rest) == encode_utf8(s),
        text_of(encode_utf8(s)) == s,
{
    let b = encode_utf8(s);
    let t = b + seq![0u8] + rest;
    assert forall|j: int| 0 <= j < b.len() implies b[j] != 0 by {
        assert(b.contains(b[j]));
    }
    lemma_until_nul(b, b.len() as int);
    assert(b.take(b.len() as int) =~= b);
    lemma_until_nul(t, b.len() as int);
    assert(t.take(b.len() as int) =~= b);
    encode_utf8_valid_utf8(s);
    encode_utf8_decode_utf8(s);
}

/// The bytes of text, with as many 0 behind them as make `n` bytes.
pub open spec fn padded(s: Seq<char>, n: nat) -> Seq<u8> {
    Seq::new(
        n,
        |i: int|
            if i < encode_utf8(s).len() {
                encode_utf8(s)[i]
            } else {
                0
            },
    )
}

/// Text that fills its place, or has 0 behind it, is read as that text.
pub proof fn law_padded_text_reads_back(s: Seq<char>, n: nat)
    requires
        !encode_utf8(s).contains(0),
        encode_utf8(s).len() <= n,
    ensures
        text_of(until_nul(padded(s, n))) == s,
{
    let b = encode_utf8(s);
    let zeros = Seq::new((n - b.len() - 1) as nat, |i: int| 0u8);
    law_text_ends_at_the_first_nul(s, zeros);
    if b.len() == n {
        assert(padded(s, n) =~= b);
    } else {
        assert(padded(s, n) =~= b + seq![0u8] + zeros);
    }
}

} // verus!
