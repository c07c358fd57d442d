//! The two small codecs of the stream URL: base64url and percent escapes.

use vstd::prelude::*;
use vstd::utf8::*;

verus! {

// ---------------------------------------------------------------------------
// base64url
// ---------------------------------------------------------------------------

/// The six bits that a character of the URL-safe alphabet stands for.
pub open spec fn sextet(c: u8) -> Option<int> {
    if 'A' as u8 <= c <= 'Z' as u8 {
        Some(c - 'A' as u8)
    } else if 'a' as u8 <= c <= 'z' as u8 {
        Some(c - 'a' as u8 + 26)
    } else if '0' as u8 <= c <= '9' as u8 {
        Some(c - '0' as u8 + 52)
    } else if c == '-' as u8 {
        Some(62int)
    } else if c == '_' as u8 {
        Some(63int)
    } else {
        None
    }
}

/// The character of the URL-safe alphabet that stands for six bits.
pub open spec fn letter(v: int) -> u8 {
    if v < 26 {
        ('A' as u8 + v) as u8
    } else if v < 52 {
        ('a' as u8 + (v - 26)) as u8
    } else if v < 62 {
        ('0' as u8 + (v - 52)) as u8
    } else if v == 62 {
        '-' as u8
    } else {
        '_' as u8
    }
}

/// The text before its padding.
pub open spec fn unpadded(s: Seq<u8>) -> Seq<u8>
    decreases s.len(),
{
    if s.len() == 0 || s[0] == '=' as u8 {
        Seq::empty()
    } else {
        seq![s[0]] + unpadded(s.skip(1))
    }
}

/// Whether every character is of the alphabet.
pub open spec fn in_alphabet(s: Seq<u8>) -> bool {
    forall|i: int| 0 <= i < s.len() ==> sextet(#[trigger] s[i]) is Some
}

/// Byte `k` of the bits that the characters of `s` write, six apiece.
#[verifier::opaque]
pub open spec fn byte_of(s: Seq<u8>, k: int) -> int {
    let j = k / 3 * 4;
    if k % 3 == 0 {
        sextet(s[j])->0 * 4 + sextet(s[j + 1])->0 / 16
    } else if k % 3 == 1 {
        sextet(s[j + 1])->0 % 16 * 16 + sextet(s[j + 2])->0 / 4
    } else {
        sextet(s[j + 2])->0 % 4 * 64 + sextet(s[j + 3])->0
    }
}

/// The whole bytes that `s` writes in base64url. Bits short of a byte are
/// dropped, and so is padding with all that follows it.
pub open spec fn base64url(s: Seq<u8>) -> Option<Seq<u8>> {
    let body = unpadded(s);
    if in_alphabet(body) {
        Some(Seq::new((body.len() * 6 / 8) as nat, |k: int| byte_of(body, k) as u8))
    } else {
        None
    }
}

/// Six bits, number `k`, of `b`, with zeros past its end.
pub open spec fn sextet_of(b: Seq<u8>, k: int) -> int {
    let j = k / 4 * 3;
    let b0 = b[j] as int;
    let b1: int = if j + 1 < b.len() {
        b[j + 1] as int
    } else {
        0
    };
    let b2: int = if j + 2 < b.len() {
        b[j + 2] as int
    } else {
        0
    };
    if k % 4 == 0 {
        b0 / 4
    } else if k % 4 == 1 {
        b0 % 4 * 16 + b1 / 16
    } else if k % 4 == 2 {
        b1 % 16 * 4 + b2 / 64
    } else {
        b2 % 64
    }
}

/// `b` written in base64url, without padding.
pub open spec fn base64url_text(b: Seq<u8>) -> Seq<u8> {
    Seq::new(((b.len() * 4 + 2) / 3) as nat, |k: int| letter(sextet_of(b, k)))
}

proof fn lemma_letter(v: int)
    requires
        0 <= v < 64,
    ensures
        sextet(letter(v)) == Some(v),
        letter(v) != '=' as u8,
{
}

proof fn lemma_unpadded_prefix(s: Seq<u8>, n: int)
    requires
        0 <= n <= s.len(),
        forall|i: int| 0 <= i < n ==> #[trigger] s[i] != '=' as u8,
        n < s.len() ==> s[n] == '=' as u8,
    ensures
        unpadded(s) == s.take(n),
    decreases n,
{
    if n > 0 {
        let t = s.skip(1);
        assert forall|i: int| 0 <= i < n - 1 implies #[trigger] t[i] != '=' as u8 by {
            assert(t[i] == s[i + 1]);
        }
        lemma_unpadded_prefix(t, n - 1);
        assert(seq![s[0]] + t.take(n - 1) =~= s.take(n));
    } else {
        assert(s.take(0) =~= Seq::<u8>::empty());
    }
}

/// Character `k` of an encoded text stands for the six bits it was made from.
proof fn lemma_text_sextet(b: Seq<u8>, k: int)
    requires
        0 <= k < base64url_text(b).len(),
    ensures
        sextet(base64url_text(b)[k]) == Some(sextet_of(b, k)),
        base64url_text(b)[k] != '=' as u8,
{
    assert(0 <= k / 4 * 3 < b.len());
    assert(0 <= sextet_of(b, k) < 64);
    lemma_letter(sextet_of(b, k));
}

/// An encoded text is ASCII, and has neither padding nor separators in it.
pub proof fn lemma_base64url_text_is_plain(b: Seq<u8>)
    ensures
        forall|i: int|
            0 <= i < base64url_text(b).len() ==> #[trigger] base64url_text(b)[i] < 128
                && base64url_text(b)[i] != '&' as u8,
{
    let t = base64url_text(b);
    assert forall|i: int| 0 <= i < t.len() implies #[trigger] t[i] < 128 && t[i]
        != '&' as u8 by {
        lemma_text_sextet(b, i);
        assert(sextet(t[i]) is Some);
    }
}

/// Byte `k` of an encoded text is byte `k` of what was encoded.
proof fn lemma_text_byte(b: Seq<u8>, k: int)
    requires
        0 <= k < b.len(),
    ensures
        byte_of(base64url_text(b), k) == b[k],
{
    reveal(byte_of);
    let t = base64url_text(b);
    let q = k / 3;
    let j = q * 4;
    assert(k == q * 3 + k % 3);
    assert(t.len() == (b.len() * 4 + 2) / 3);
    lemma_text_sextet(b, j);
    lemma_text_sextet(b, j + 1);
    if k % 3 >= 1 {
        lemma_text_sextet(b, j + 2);
    }
    if k % 3 == 2 {
        lemma_text_sextet(b, j + 3);
    }
    assert(j / 4 == q && (j + 1) / 4 == q && (j + 2) / 4 == q && (j + 3) / 4 == q);
}

/// Decoding what an encoder wrote gives back the bytes, for every length,
/// whether or not padding follows.
pub proof fn law_base64url_round_trip(b: Seq<u8>, padding: Seq<u8>)
    requires
        padding.len() > 0 ==> padding[0] == '=' as u8,
    ensures
        base64url(base64url_text(b) + padding) == Some(b),
{
    let t = base64url_text(b);
    let s = t + padding;
    assert forall|i: int| 0 <= i < t.len() implies #[trigger] s[i] != '=' as u8 by {
        lemma_text_sextet(b, i);
    }
    lemma_unpadded_prefix(s, t.len() as int);
    assert(s.take(t.len() as int) =~= t);
    assert forall|i: int| 0 <= i < t.len() implies sextet(#[trigger] t[i]) is Some by {
        lemma_text_sextet(b, i);
    }
    assert(in_alphabet(t));
    let out = Seq::new((t.len() * 6 / 8) as nat, |k: int| byte_of(t, k) as u8);
    assert forall|k: int| 0 <= k < b.len() implies out[k] == b[k] by {
        lemma_text_byte(b, k);
    }
    assert(out =~= b);
}

/// The bytes that a group of four characters writes.
proof fn lemma_group(s: Seq<u8>, q: int)
    requires
        0 <= q,
    ensures
        byte_of(s, 3 * q) == sextet(s[4 * q])->0 * 4 + sextet(s[4 * q + 1])->0 / 16,
        byte_of(s, 3 * q + 1) == sextet(s[4 * q + 1])->0 % 16 * 16 + sextet(s[4 * q + 2])->0 / 4,
        byte_of(s, 3 * q + 2) == sextet(s[4 * q + 2])->0 % 4 * 64 + sextet(s[4 * q + 3])->0,
{
    reveal(byte_of);
}

/// A byte is written by its own group of characters alone.
proof fn lemma_byte_prefix(s: Seq<u8>, n: int, k: int)
    requires
        0 <= k < n * 6 / 8,
        n <= s.len(),
    ensures
        byte_of(s.take(n), k) == byte_of(s, k),
{
    reveal(byte_of);
}

/// The six bits that a character stands for.
fn sextet_value(c: u8) -> (v: Option<u32>)
    ensures
        match v {
            Some(x) => sextet(c) == Some(x as int) && x < 64,
            None => sextet(c) is None,
        },
{
    if 65 <= c && c <= 90 {
        Some(c as u32 - 65)
    } else if 97 <= c && c <= 122 {
        Some(c as u32 - 97 + 26)
    } else if 48 <= c && c <= 57 {
        Some(c as u32 - 48 + 52)
    } else if c == 45 {
        Some(62)
    } else if c == 95 {
        Some(63)
    } else {
        None
    }
}

/// Decode base64url. Padding is tolerated, though no encoder of ours emits it.
pub fn base64url_decode(s: &str) -> (r: Option<Vec<u8>>)
    ensures
        match r {
            Some(v) => base64url(encode_utf8(s@)) == Some(v@),
            None => base64url(encode_utf8(s@)) is None,
        },
{
    let b = s.as_bytes();
    let ghost text = b@;
    let mut out: Vec<u8> = Vec::new();
    let mut acc: u32 = 0;
    let mut bits: u32 = 0;
    let mut i: usize = 0;
    let ghost mut q: int = 0;
    while i < b.len() && b[i] != 61
        invariant
            i <= b.len(),
            b@ == text,
            text == encode_utf8(s@),
            forall|j: int| 0 <= j < i ==> #[trigger] text[j] != '=' as u8 && sextet(text[j]) is Some,
            forall|k: int| 0 <= k < out@.len() ==> #[trigger] out@[k] == byte_of(text, k),
            0 <= q,
            bits == 0 || bits == 6 || bits == 4 || bits == 2,
            bits == 0 ==> i == 4 * q && out@.len() == 3 * q && acc == 0,
            bits == 6 ==> i == 4 * q + 1 && out@.len() == 3 * q && acc == sextet(text[4 * q])->0
                && acc < 64,
            bits == 4 ==> i == 4 * q + 2 && out@.len() == 3 * q + 1 && acc == sextet(
                text[4 * q + 1],
            )->0 % 16 && acc < 16,
            bits == 2 ==> i == 4 * q + 3 && out@.len() == 3 * q + 2 && acc == sextet(
                text[4 * q + 2],
            )->0 % 4 && acc < 4,
        decreases b.len() - i,
    {
        let v: u32 = match sextet_value(b[i]) {
            Some(v) => v,
            None => {
                proof {
                    lemma_unpadded_reaches(text, i as int);
                    assert(sextet(unpadded(text)[i as int]) is None);
                }
                return None;
            },
        };
        proof {
            lemma_group(text, q);
        }
        let wide: u32 = acc * 64 + v;
        if bits == 0 {
            acc = wide;
            bits = 6;
        } else if bits == 6 {
            out.push((wide / 16) as u8);
            acc = wide % 16;
            bits = 4;
        } else if bits == 4 {
            out.push((wide / 4) as u8);
            acc = wide % 4;
            bits = 2;
        } else {
            out.push(wide as u8);
            acc = 0;
            bits = 0;
            proof {
                q = q + 1;
            }
        }
        i += 1;
    }
    proof {
        lemma_unpadded_prefix(text, i as int);
        let body = text.take(i as int);
        assert(in_alphabet(body));
        assert(out@.len() == i * 6 / 8);
        assert forall|k: int| 0 <= k < out@.len() implies out@[k] == byte_of(body, k) as u8 by {
            lemma_byte_prefix(text, i as int, k);
        }
        assert(base64url(text)->0 =~= out@);
    }
    Some(out)
}

/// A character before any padding is part of the unpadded text.
proof fn lemma_unpadded_reaches(s: Seq<u8>, n: int)
    requires
        0 <= n < s.len(),
        forall|i: int| 0 <= i <= n ==> #[trigger] s[i] != '=' as u8,
    ensures
        n < unpadded(s).len(),
        unpadded(s)[n] == s[n],
    decreases n,
{
    if n > 0 {
        let t = s.skip(1);
        assert forall|i: int| 0 <= i <= n - 1 implies #[trigger] t[i] != '=' as u8 by {
            assert(t[i] == s[i + 1]);
        }
        lemma_unpadded_reaches(t, n - 1);
    }
}

// ---------------------------------------------------------------------------
// Percent escapes
// ---------------------------------------------------------------------------

/// The value of a hexadecimal digit.
pub open spec fn hex(c: u8) -> Option<int> {
    if '0' as u8 <= c <= '9' as u8 {
        Some(c - '0' as u8)
    } else if 'a' as u8 <= c <= 'f' as u8 {
        Some(c - 'a' as u8 + 10)
    } else if 'A' as u8 <= c <= 'F' as u8 {
        Some(c - 'A' as u8 + 10)
    } else {
        None
    }
}

/// Whether `b` begins with a `%` and two hexadecimal digits.
pub open spec fn escape_ahead(b: Seq<u8>) -> bool {
    b.len() > 2 && b[0] == '%' as u8 && hex(b[1]) is Some && hex(b[2]) is Some
}

/// `b` with its `%XX` escapes replaced by the bytes they stand for. All else
/// stands for itself: a `+` is a plus, and a `%` without two digits a `%`.
pub open spec fn unescaped(b: Seq<u8>) -> Seq<u8>
    decreases b.len(),
{
    if b.len() == 0 {
        Seq::empty()
    } else if escape_ahead(b) {
        seq![(hex(b[1])->0 * 16 + hex(b[2])->0) as u8] + unescaped(b.skip(3))
    } else {
        seq![b[0]] + unescaped(b.skip(1))
    }
}

/// The text that the standard library's lossy UTF-8 decoder makes of bytes.
pub uninterp spec fn utf8_lossy(bytes: Seq<u8>) -> Seq<char>;

/// `String::from_utf8_lossy`: the same bytes always give the same text, and
/// bytes that are valid UTF-8 give the text that they encode. Which
/// replacement characters stand for other bytes is left unsaid.
#[verifier::external_body]
pub(crate) fn lossy_text(bytes: &[u8]) -> (s: String)
    ensures
        s@ == utf8_lossy(bytes@),
        valid_utf8(bytes@) ==> s@ == decode_utf8(bytes@),
{
    String::from_utf8_lossy(bytes).into_owned()
}

/// The text that bytes stand for: what they encode, where they are valid
/// UTF-8, and what the lossy decoder makes of them otherwise.
pub open spec fn lossy(bytes: Seq<u8>) -> Seq<char> {
    if valid_utf8(bytes) {
        decode_utf8(bytes)
    } else {
        utf8_lossy(bytes)
    }
}

/// The text that a percent-escaped text stands for.
pub open spec fn percent_decoded(s: Seq<char>) -> Seq<char> {
    lossy(unescaped(encode_utf8(s)))
}

/// The value of a hexadecimal digit.
fn hex_value(c: u8) -> (v: Option<u8>)
    ensures
        match v {
            Some(x) => hex(c) == Some(x as int) && x < 16,
            None => hex(c) is None,
        },
{
    if 48 <= c && c <= 57 {
        Some(c - 48)
    } else if 97 <= c && c <= 102 {
        Some(c - 97 + 10)
    } else if 65 <= c && c <= 70 {
        Some(c - 65 + 10)
    } else {
        None
    }
}

/// The bytes that percent-escaped bytes stand for.
pub fn unescape(b: &[u8]) -> (r: Vec<u8>)
    ensures
        r@ == unescaped(b@),
{
    let mut out: Vec<u8> = Vec::new();
    let mut i: usize = 0;
    assert(b@.skip(0) =~= b@);
    while i < b.len()
        invariant
            i <= b.len(),
            unescaped(b@) == out@ + unescaped(b@.skip(i as int)),
        decreases b.len() - i,
    {
        let ghost rest = b@.skip(i as int);
        let ghost done = out@;
        let mut wide: usize = 1;
        let mut byte: u8 = b[i];
        if b[i] == 37 && b.len() - i > 2 {
            let h = hex_value(b[i + 1]);
            let l = hex_value(b[i + 2]);
            if let (Some(h), Some(l)) = (h, l) {
                byte = h * 16 + l;
                wide = 3;
            }
        }
        proof {
            assert(rest[0] == b@[i as int]);
            if rest.len() > 2 {
                assert(rest[1] == b@[i + 1]);
                assert(rest[2] == b@[i + 2]);
            }
            assert(rest.skip(wide as int) =~= b@.skip(i + wide));
            assert(unescaped(rest) == seq![byte] + unescaped(rest.skip(wide as int)));
            assert(done + (seq![byte] + unescaped(b@.skip(i + wide))) =~= done.push(byte)
                + unescaped(b@.skip(i + wide)));
        }
        out.push(byte);
        i += wide;
    }
    assert(b@.skip(i as int) =~= Seq::<u8>::empty());
    out
}

/// Decode `%XX` escapes. A `+` is not a space: a space is written `%20`.
pub fn percent_decode(s: &str) -> (r: String)
    ensures
        r@ == percent_decoded(s@),
{
    let bytes = unescape(s.as_bytes());
    lossy_text(bytes.as_slice())
}

/// The hexadecimal digit, in upper case, of a value.
pub open spec fn hex_digit(v: int) -> u8 {
    if v < 10 {
        ('0' as u8 + v) as u8
    } else {
        ('A' as u8 + (v - 10)) as u8
    }
}

/// `b` percent-escaped: the bytes that satisfy `plain` as they are, all others
/// as `%XX`.
pub open spec fn escaped(b: Seq<u8>, plain: spec_fn(u8) -> bool) -> Seq<u8>
    decreases b.len(),
{
    if b.len() == 0 {
        Seq::empty()
    } else if plain(b[0]) {
        seq![b[0]] + escaped(b.skip(1), plain)
    } else {
        seq!['%' as u8, hex_digit(b[0] as int / 16), hex_digit(b[0] as int % 16)] + escaped(
            b.skip(1),
            plain,
        )
    }
}

proof fn lemma_hex_digit(v: int)
    requires
        0 <= v < 16,
    ensures
        hex(hex_digit(v)) == Some(v),
{
}

/// Decoding what an encoder escaped gives back the bytes, whichever bytes it
/// leaves as they are, as long as `%` is not among them.
pub proof fn law_unescape_inverts_escape(b: Seq<u8>, plain: spec_fn(u8) -> bool)
    requires
        !plain('%' as u8),
    ensures
        unescaped(escaped(b, plain)) == b,
    decreases b.len(),
{
    let e = escaped(b, plain);
    if b.len() > 0 {
        let rest = b.skip(1);
        let tail = escaped(rest, plain);
        law_unescape_inverts_escape(rest, plain);
        assert(seq![b[0]] + rest =~= b);
        if plain(b[0]) {
            assert(e[0] == b[0]);
            assert(e.skip(1) =~= tail);
        } else {
            let hi = b[0] as int / 16;
            let lo = b[0] as int % 16;
            lemma_hex_digit(hi);
            lemma_hex_digit(lo);
            assert(e[0] == '%' as u8 && e[1] == hex_digit(hi) && e[2] == hex_digit(lo));
            assert(e.skip(3) =~= tail);
        }
    }
}

/// The text that ASCII bytes write.
pub open spec fn ascii_text(b: Seq<u8>) -> Seq<char> {
    Seq::new(b.len(), |i: int| b[i] as char)
}

/// ASCII bytes are their own text's encoding.
pub proof fn lemma_ascii_text(b: Seq<u8>)
    requires
        forall|i: int| 0 <= i < b.len() ==> #[trigger] b[i] < 128,
    ensures
        encode_utf8(ascii_text(b)) == b,
{
    let t = ascii_text(b);
    assert forall|i: int| 0 <= i < t.len() implies '\0' <= #[trigger] t[i] <= '\u{7f}' by {
        assert(b[i] < 128);
    }
    assert(is_ascii_chars(t));
    is_ascii_chars_encode_utf8(t);
    assert(encode_utf8(t) =~= b) by {
        assert forall|i: int| 0 <= i < b.len() implies encode_utf8(t)[i] == b[i] by {
            assert(b[i] < 128);
        }
    }
}

/// A text's encoding is that of its parts, one after the other.
pub proof fn lemma_encode_concat(a: Seq<char>, b: Seq<char>)
    ensures
        encode_utf8(a + b) == encode_utf8(a) + encode_utf8(b),
    decreases a.len(),
{
    if a.len() == 0 {
        assert(a + b =~= b);
        assert(encode_utf8(a) + encode_utf8(b) =~= encode_utf8(b));
    } else {
        let rest = a.drop_first();
        lemma_encode_concat(rest, b);
        assert((a + b).drop_first() =~= rest + b);
        let head = encode_scalar(a[0] as u32);
        assert(head + (encode_utf8(rest) + encode_utf8(b)) =~= (head + encode_utf8(rest))
            + encode_utf8(b));
    }
}

/// Escaping leaves ASCII only, where the bytes left as they are are ASCII.
pub proof fn lemma_escaped_is_ascii(b: Seq<u8>, plain: spec_fn(u8) -> bool)
    requires
        forall|c: u8| #[trigger] plain(c) ==> c < 128,
    ensures
        forall|i: int| 0 <= i < escaped(b, plain).len() ==> #[trigger] escaped(b, plain)[i] < 128,
    decreases b.len(),
{
    if b.len() > 0 {
        lemma_escaped_is_ascii(b.skip(1), plain);
        let tail = escaped(b.skip(1), plain);
        let e = escaped(b, plain);
        let n = e.len() - tail.len();
        assert forall|i: int| 0 <= i < e.len() implies #[trigger] e[i] < 128 by {
            if i >= n {
                assert(e[i] == tail[i - n]);
            } else if plain(b[0]) {
                assert(e[i] == b[0]);
            } else {
                assert(hex_digit(b[0] as int / 16) < 128 && hex_digit(b[0] as int % 16) < 128);
            }
        }
    }
}

/// `text`, escaped as it is written into a URL.
pub open spec fn percent_text(text: Seq<char>, plain: spec_fn(u8) -> bool) -> Seq<char> {
    ascii_text(escaped(encode_utf8(text), plain))
}

/// An escaped text stands for itself again once decoded.
pub proof fn law_percent_round_trip(text: Seq<char>, plain: spec_fn(u8) -> bool)
    requires
        !plain('%' as u8),
        forall|c: u8| #[trigger] plain(c) ==> c < 128,
    ensures
        percent_decoded(percent_text(text, plain)) == text,
{
    let b = encode_utf8(text);
    lemma_escaped_is_ascii(b, plain);
    lemma_ascii_text(escaped(b, plain));
    law_unescape_inverts_escape(b, plain);
    encode_utf8_valid_utf8(text);
    encode_utf8_decode_utf8(text);
}

/// Whether `e` writes the bytes `b`, each as it is or as `%XX`, with digits of
/// either case. A `%` is never written as it is.
pub open spec fn writes(e: Seq<u8>, b: Seq<u8>) -> bool
    decreases b.len(),
{
    if b.len() == 0 {
        e.len() == 0
    } else {
        ||| {
            &&& e.len() > 0
            &&& e[0] == b[0]
            &&& e[0] != '%' as u8
            &&& writes(e.skip(1), b.skip(1))
        }
        ||| {
            &&& escape_ahead(e)
            &&& hex(e[1])->0 * 16 + hex(e[2])->0 == b[0]
            &&& writes(e.skip(3), b.skip(1))
        }
    }
}

/// Bytes are decoded to what they write.
pub proof fn law_unescape_inverts_writing(e: Seq<u8>, b: Seq<u8>)
    requires
        writes(e, b),
    ensures
        unescaped(e) == b,
    decreases b.len(),
{
    if b.len() > 0 {
        assert(seq![b[0]] + b.skip(1) =~= b);
        if escape_ahead(e) {
            law_unescape_inverts_writing(e.skip(3), b.skip(1));
        } else {
            law_unescape_inverts_writing(e.skip(1), b.skip(1));
        }
    }
}

/// A text is decoded to the one that it writes, whichever characters it leaves
/// as they are, ASCII or not, and whichever case its digits have.
pub proof fn law_percent_texts_read_back(written: Seq<char>, text: Seq<char>)
    requires
        writes(encode_utf8(written), encode_utf8(text)),
    ensures
        percent_decoded(written) == text,
{
    law_unescape_inverts_writing(encode_utf8(written), encode_utf8(text));
    encode_utf8_valid_utf8(text);
    encode_utf8_decode_utf8(text);
}

/// A text without a `%` stands for itself.
pub proof fn law_plain_texts_stand_for_themselves(text: Seq<char>)
    requires
        forall|i: int| 0 <= i < text.len() ==> #[trigger] text[i] != '%',
    ensures
        percent_decoded(text) == text,
{
    lemma_encoding_lacks_escapes(text);
    lemma_writes_itself(encode_utf8(text));
    law_percent_texts_read_back(text, text);
}

proof fn lemma_writes_itself(b: Seq<u8>)
    requires
        forall|i: int| 0 <= i < b.len() ==> #[trigger] b[i] != '%' as u8,
    ensures
        writes(b, b),
    decreases b.len(),
{
    if b.len() > 0 {
        let rest = b.skip(1);
        assert forall|i: int| 0 <= i < rest.len() implies #[trigger] rest[i] != '%' as u8 by {
            assert(rest[i] == b[i + 1]);
        }
        assert(b[0] != '%' as u8);
        lemma_writes_itself(rest);
    }
}

proof fn lemma_scalar_lacks_escapes(c: char)
    requires
        c != '%',
    ensures
        forall|i: int|
            0 <= i < encode_scalar(c as u32).len() ==> #[trigger] encode_scalar(c as u32)[i]
                != '%' as u8,
{
    let n = c as u32;
    assert(n != 37);
    assert(n <= 0x7F ==> (n & 0x7F) as u8 as u32 == n) by (bit_vector);
    assert(0xC0u8 | ((n >> 6) & 0x1F) as u8 >= 0x80) by (bit_vector);
    assert(0xE0u8 | ((n >> 12) & 0x0F) as u8 >= 0x80) by (bit_vector);
    assert(0xF0u8 | ((n >> 18) & 0x7) as u8 >= 0x80) by (bit_vector);
    assert(0x80u8 | (n & 0x3F) as u8 >= 0x80) by (bit_vector);
    assert(0x80u8 | ((n >> 6) & 0x3F) as u8 >= 0x80) by (bit_vector);
    assert(0x80u8 | ((n >> 12) & 0x3F) as u8 >= 0x80) by (bit_vector);
}

/// Only a `%` is encoded with the byte of a `%`.
proof fn lemma_encoding_lacks_escapes(text: Seq<char>)
    requires
        forall|i: int| 0 <= i < text.len() ==> #[trigger] text[i] != '%',
    ensures
        forall|i: int|
            0 <= i < encode_utf8(text).len() ==> #[trigger] encode_utf8(text)[i] != '%' as u8,
    decreases text.len(),
{
    if text.len() > 0 {
        let rest = text.drop_first();
        assert forall|i: int| 0 <= i < rest.len() implies #[trigger] rest[i] != '%' by {
            assert(rest[i] == text[i + 1]);
        }
        lemma_encoding_lacks_escapes(rest);
        let head = encode_scalar(text[0] as u32);
        assert(text[0] != '%');
        lemma_scalar_lacks_escapes(text[0]);
        let e = encode_utf8(text);
        assert forall|i: int| 0 <= i < e.len() implies #[trigger] e[i] != '%' as u8 by {
            if i >= head.len() {
                assert(e[i] == encode_utf8(rest)[i - head.len()]);
            } else {
                assert(e[i] == head[i]);
            }
        }
    }
}

} // verus!
