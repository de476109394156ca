//! Byte-level text encodings used by the gateway: fixed-width hexadecimal
//! rendering (for the serial suffix of minted tokens) and percent-encoding
//! (for query parameters of provider URLs and form bodies).

use vstd::prelude::*;

verus! {

use vstd::arithmetic::div_mod::lemma_fundamental_div_mod;
use vstd::arithmetic::mul::lemma_mul_inequality;
use vstd::string::StringSliceAdditionalSpecFns;

/// Every byte of the sequence is in the ASCII range.
pub open spec fn ascii_bytes(s: Seq<u8>) -> bool {
    forall|i: int| 0 <= i < s.len() ==> s[i] < 128
}

/// The characters that a sequence of ASCII bytes reads as.
pub open spec fn chars_of(s: Seq<u8>) -> Seq<char> {
    Seq::new(s.len(), |i: int| s[i] as char)
}

/// The hexadecimal digit (`0`-`9`, `A`-`F`) for a value below sixteen, as a byte.
pub open spec fn hex_byte_of(d: int) -> u8 {
    if 0 <= d < 10 {
        (48 + d) as u8
    } else if 10 <= d < 16 {
        (55 + d) as u8
    } else {
        48
    }
}

/// `n` written with exactly `w` hexadecimal digits, most significant first
/// (the value is taken modulo `16^w`).
pub open spec fn hex_bytes(n: nat, w: nat) -> Seq<u8>
    decreases w,
{
    if w == 0 {
        Seq::empty()
    } else {
        hex_bytes(n / 16, (w - 1) as nat) + seq![hex_byte_of((n % 16) as int)]
    }
}

/// `16^w`.
pub open spec fn pow16(w: nat) -> nat
    decreases w,
{
    if w == 0 {
        1
    } else {
        16 * pow16((w - 1) as nat)
    }
}

pub proof fn lemma_hex_bytes_len(n: nat, w: nat)
    ensures
        hex_bytes(n, w).len() == w,
    decreases w,
{
    if w > 0 {
        lemma_hex_bytes_len(n / 16, (w - 1) as nat);
    }
}

pub proof fn lemma_hex_bytes_ascii(n: nat, w: nat)
    ensures
        ascii_bytes(hex_bytes(n, w)),
    decreases w,
{
    if w > 0 {
        lemma_hex_bytes_ascii(n / 16, (w - 1) as nat);
        lemma_hex_bytes_len(n / 16, (w - 1) as nat);
        assert forall|i: int| 0 <= i < hex_bytes(n, w).len() implies hex_bytes(n, w)[i]
            < 128 by {
            if i < w - 1 {
                assert(hex_bytes(n, w)[i] == hex_bytes(n / 16, (w - 1) as nat)[i]);
            }
        }
    }
}

/// Any `u64` value lies below `16^16`.
pub proof fn lemma_pow16_16()
    ensures
        pow16(16) == 0x10000000000000000,
{
    assert(pow16(0) == 1);
    assert(pow16(1) == 16);
    assert(pow16(2) == 0x100);
    assert(pow16(3) == 0x1000);
    assert(pow16(4) == 0x10000);
    assert(pow16(5) == 0x100000);
    assert(pow16(6) == 0x1000000);
    assert(pow16(7) == 0x10000000);
    assert(pow16(8) == 0x100000000);
    assert(pow16(9) == 0x1000000000);
    assert(pow16(10) == 0x10000000000);
    assert(pow16(11) == 0x100000000000);
    assert(pow16(12) == 0x1000000000000);
    assert(pow16(13) == 0x10000000000000);
    assert(pow16(14) == 0x100000000000000);
    assert(pow16(15) == 0x1000000000000000);
}

/// Distinct values below `16^w` have distinct `w`-digit renderings.
pub proof fn lemma_hex_bytes_injective(a: nat, b: nat, w: nat)
    requires
        a < pow16(w),
        b < pow16(w),
        hex_bytes(a, w) == hex_bytes(b, w),
    ensures
        a == b,
    decreases w,
{
    if w == 0 {
    } else {
        let wl = (w - 1) as nat;
        lemma_hex_bytes_len(a / 16, wl);
        lemma_hex_bytes_len(b / 16, wl);
        let sa = hex_bytes(a, w);
        let sb = hex_bytes(b, w);
        assert(sa[w - 1] == hex_byte_of((a % 16) as int));
        assert(sb[w - 1] == hex_byte_of((b % 16) as int));
        assert(a % 16 == b % 16);
        assert(sa.subrange(0, w - 1) =~= hex_bytes(a / 16, wl));
        assert(sb.subrange(0, w - 1) =~= hex_bytes(b / 16, wl));
        if a / 16 >= pow16(wl) {
            lemma_mul_inequality(pow16(wl) as int, (a / 16) as int, 16);
            lemma_fundamental_div_mod(a as int, 16);
            assert(false);
        }
        if b / 16 >= pow16(wl) {
            lemma_mul_inequality(pow16(wl) as int, (b / 16) as int, 16);
            lemma_fundamental_div_mod(b as int, 16);
            assert(false);
        }
        lemma_hex_bytes_injective(a / 16, b / 16, wl);
        lemma_fundamental_div_mod(a as int, 16);
        lemma_fundamental_div_mod(b as int, 16);
    }
}

/// Reading ASCII bytes as characters loses nothing: equal readings come from
/// equal bytes.
pub proof fn lemma_chars_of_injective(x: Seq<u8>, y: Seq<u8>)
    requires
        chars_of(x) == chars_of(y),
    ensures
        x == y,
{
    assert(chars_of(x).len() == x.len());
    assert(chars_of(y).len() == y.len());
    assert(x.len() == y.len());
    assert forall|i: int| 0 <= i < x.len() implies x[i] == y[i] by {
        assert(chars_of(x)[i] == x[i] as char);
        assert(chars_of(y)[i] == y[i] as char);
        assert(chars_of(x)[i] == chars_of(y)[i]);
        assert((x[i] as char) as int == x[i] as int);
        assert((y[i] as char) as int == y[i] as int);
    }
    assert(x =~= y);
}

/// Bytes that percent-encoding passes through unchanged: ASCII letters,
/// digits, `-`, `.`, `_` and `~`.
pub open spec fn is_unreserved_byte(b: u8) -> bool {
    (65 <= b <= 90) || (97 <= b <= 122) || (48 <= b <= 57) || b == 45 || b == 46 || b == 95
        || b == 126
}

/// The percent-encoding of one byte: the byte itself if unreserved, else
/// `%` followed by its two hexadecimal digits.
pub open spec fn pct_byte(b: u8) -> Seq<u8> {
    if is_unreserved_byte(b) {
        seq![b]
    } else {
        seq![37u8, hex_byte_of(b as int / 16), hex_byte_of(b as int % 16)]
    }
}

/// The percent-encoding of a byte sequence.
pub open spec fn pct_encoded(s: Seq<u8>) -> Seq<u8>
    decreases s.len(),
{
    if s.len() == 0 {
        Seq::empty()
    } else {
        pct_byte(s[0]) + pct_encoded(s.drop_first())
    }
}

pub proof fn lemma_pct_encoded_snoc(s: Seq<u8>, b: u8)
    ensures
        pct_encoded(s.push(b)) == pct_encoded(s) + pct_byte(b),
    decreases s.len(),
{
    if s.len() == 0 {
        assert(s.push(b).drop_first() =~= Seq::<u8>::empty());
        assert(s.push(b).len() == 1);
        assert(s.push(b)[0] == b);
        assert(pct_encoded(s.push(b)) == pct_byte(b) + pct_encoded(Seq::<u8>::empty()));
        assert(pct_encoded(s.push(b)) =~= pct_encoded(s) + pct_byte(b));
    } else {
        assert(s.push(b).drop_first() =~= s.drop_first().push(b));
        lemma_pct_encoded_snoc(s.drop_first(), b);
        assert(s.push(b)[0] == s[0]);
        assert(s.push(b).len() == s.len() + 1);
        assert(pct_encoded(s.push(b)) == pct_byte(s[0]) + pct_encoded(s.drop_first().push(b)));
        assert(pct_encoded(s.push(b)) == pct_byte(s[0]) + (pct_encoded(s.drop_first())
            + pct_byte(b)));
        assert(pct_encoded(s.push(b)) =~= pct_encoded(s) + pct_byte(b));
    }
}

pub proof fn lemma_pct_encoded_ascii(s: Seq<u8>)
    ensures
        ascii_bytes(pct_encoded(s)),
    decreases s.len(),
{
    if s.len() > 0 {
        lemma_pct_encoded_ascii(s.drop_first());
        assert forall|i: int| 0 <= i < pct_encoded(s).len() implies pct_encoded(s)[i]
            < 128 by {
            let head = pct_byte(s[0]);
            if i >= head.len() {
                assert(pct_encoded(s)[i] == pct_encoded(s.drop_first())[i - head.len()]);
            }
        }
    }
}

/// Percent-encoding passes a sequence of unreserved bytes through
/// unchanged.
pub proof fn lemma_pct_unreserved(s: Seq<u8>)
    requires
        forall|i: int| 0 <= i < s.len() ==> is_unreserved_byte(#[trigger] s[i]),
    ensures
        pct_encoded(s) == s,
    decreases s.len(),
{
    if s.len() > 0 {
        assert(is_unreserved_byte(s[0]));
        assert(forall|i: int|
            0 <= i < s.drop_first().len() ==> is_unreserved_byte(#[trigger] s.drop_first()[i]));
        lemma_pct_unreserved(s.drop_first());
        assert(pct_encoded(s) =~= s);
    }
}

/// Percent-encoding distributes over concatenation.
pub proof fn lemma_pct_concat(a: Seq<u8>, b: Seq<u8>)
    ensures
        pct_encoded(a + b) == pct_encoded(a) + pct_encoded(b),
    decreases a.len(),
{
    if a.len() == 0 {
        assert(a + b =~= b);
        assert(pct_encoded(a) =~= Seq::<u8>::empty());
        assert(pct_encoded(a + b) =~= pct_encoded(a) + pct_encoded(b));
    } else {
        assert((a + b).drop_first() =~= a.drop_first() + b);
        lemma_pct_concat(a.drop_first(), b);
        assert((a + b)[0] == a[0]);
        assert((a + b).len() > 0);
        assert(pct_encoded(a + b) =~= pct_encoded(a) + pct_encoded(b));
    }
}

/// `needle` occurs contiguously inside `hay`.
pub open spec fn contains_chars(hay: Seq<char>, needle: Seq<char>) -> bool {
    exists|k: int|
        0 <= k && k + needle.len() <= hay.len() && #[trigger] hay.subrange(
            k,
            k + needle.len() as int,
        ) == needle
}

/// A sequence assembled around a middle piece contains that piece.
pub proof fn lemma_concat_contains(a: Seq<char>, b: Seq<char>, c: Seq<char>)
    ensures
        contains_chars(a + b + c, b),
{
    let h = a + b + c;
    assert(h.subrange(a.len() as int, (a.len() + b.len()) as int) =~= b);
}

fn hex_byte(d: u8) -> (r: u8)
    requires
        d < 16,
    ensures
        r == hex_byte_of(d as int),
{
    if d < 10 {
        48 + d
    } else {
        55 + d
    }
}

/// `n` written with exactly `w` hexadecimal digits, most significant first.
pub fn render_hex(n: u64, w: u8) -> (r: Vec<u8>)
    ensures
        r@ == hex_bytes(n as nat, w as nat),
    decreases w,
{
    if w == 0 {
        Vec::new()
    } else {
        let mut v = render_hex(n / 16, w - 1);
        let d = hex_byte((n % 16) as u8);
        v.push(d);
        proof {
            assert(v@ =~= hex_bytes(n as nat / 16, (w - 1) as nat) + seq![
                hex_byte_of((n as nat % 16) as int),
            ]);
        }
        v
    }
}

/// Reads a vector of ASCII bytes as a `String`.
///
/// Relies on `String::from_utf8`: ASCII bytes are valid UTF-8 and decode to
/// the characters with the same code points.
#[verifier::external_body]
pub fn ascii_to_string(v: Vec<u8>) -> (r: String)
    requires
        ascii_bytes(v@),
    ensures
        r@ == chars_of(v@),
{
    String::from_utf8(v).unwrap()
}

/// The percent-encoding of the UTF-8 bytes of a string, as a `String`.
pub fn pct_encode(s: &str) -> (r: String)
    ensures
        r@ == chars_of(pct_encoded(s.spec_bytes())),
{
    let bytes = s.as_bytes();
    let mut out: Vec<u8> = Vec::new();
    let mut i: usize = 0;
    while i < bytes.len()
        invariant
            i <= bytes.len(),
            bytes@ == s.spec_bytes(),
            out@ == pct_encoded(bytes@.take(i as int)),
        decreases bytes.len() - i,
    {
        let b = bytes[i];
        proof {
            assert(bytes@.take(i + 1) =~= bytes@.take(i as int).push(b));
            lemma_pct_encoded_snoc(bytes@.take(i as int), b);
        }
        if (65 <= b && b <= 90) || (97 <= b && b <= 122) || (48 <= b && b <= 57) || b == 45
            || b == 46 || b == 95 || b == 126 {
            out.push(b);
            proof {
                assert(out@ =~= pct_encoded(bytes@.take(i + 1)));
            }
        } else {
            out.push(37);
            let hi = hex_byte(b / 16);
            out.push(hi);
            let lo = hex_byte(b % 16);
            out.push(lo);
            proof {
                assert(out@ =~= pct_encoded(bytes@.take(i + 1)));
            }
        }
        i = i + 1;
    }
    proof {
        assert(bytes@.take(bytes@.len() as int) =~= bytes@);
        lemma_pct_encoded_ascii(bytes@);
    }
    ascii_to_string(out)
}

} // verus!
