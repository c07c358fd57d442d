//! Laws of reading metadata: what is made of the texts that a station sends,
//! of those that are as they should be and of those that are not.

use crate::codec;
use crate::codec::{base64url_decode, percent_decode, unescape};
use crate::icy;
use crate::icy::{
    accept_payload, decode_payload, open_block, open_url, parse_block, parse_stream_url, Block,
    LooseNum, Payload, StreamUrl, PAYLOAD_VERSION, TERM, TITLE_TAG, URL_TAG,
};
use crate::icy_laws;
use crate::number;
use crate::text;
use crate::text_laws;
use vstd::prelude::*;
use vstd::utf8::*;

verus! {

/// The marks of a block, and the version of a schedule that is understood.
pub proof fn law_marks()
    ensures
        TITLE_TAG@ == "StreamTitle='"@,
        URL_TAG@ == "';StreamUrl='"@,
        TERM@ == "';"@,
        PAYLOAD_VERSION == 1,
{
}

// ---------------------------------------------------------------------------
// Base64
// ---------------------------------------------------------------------------

/// Whether `v` is what a character of the alphabet counts: the capitals, the
/// small letters, the digits, the hyphen and the underscore, in this order.
pub open spec fn counts(c: char, v: int) -> bool {
    ||| 'A' <= c <= 'Z' && v == c as int - 'A' as int
    ||| 'a' <= c <= 'z' && v == c as int - 'a' as int + 26
    ||| '0' <= c <= '9' && v == c as int - '0' as int + 52
    ||| c == '-' && v == 62
    ||| c == '_' && v == 63
}

/// Whether a character is of the alphabet.
pub open spec fn alphabetic(c: char) -> bool {
    'A' <= c <= 'Z' || 'a' <= c <= 'z' || '0' <= c <= '9' || c == '-' || c == '_'
}

/// Four characters write three bytes, six bits each and the first ones first;
/// bits short of a byte are dropped.
pub proof fn law_four_characters_write_three_bytes(
    s: &str,
    r: Option<Vec<u8>>,
    v: Seq<int>,
    g: int,
)
    requires
        call_ensures(base64url_decode, (s,), r),
        v.len() == s@.len(),
        forall|i: int| 0 <= i < v.len() ==> counts(s@[i], #[trigger] v[i]),
        0 <= g,
    ensures
        r is Some,
        r->0@.len() == v.len() * 6 / 8,
        3 * g < r->0@.len() ==> r->0@[3 * g] == 4 * v[4 * g] + v[4 * g + 1] / 16,
        3 * g + 1 < r->0@.len() ==> r->0@[3 * g + 1] == 16 * (v[4 * g + 1] % 16) + v[4 * g + 2]
            / 4,
        3 * g + 2 < r->0@.len() ==> r->0@[3 * g + 2] == 64 * (v[4 * g + 2] % 4) + v[4 * g + 3],
{
    let b = Seq::new(s@.len(), |i: int| s@[i] as u8);
    assert forall|i: int| 0 <= i < b.len() implies #[trigger] b[i] < 128 && b[i] as int
        == s@[i] as int by {
        assert(counts(s@[i], v[i]));
    }
    assert(codec::ascii_text(b) =~= s@);
    codec::lemma_ascii_text(b);
    assert forall|i: int| 0 <= i < b.len() implies #[trigger] b[i] != '=' as u8 && codec::sextet(
        b[i],
    ) == Some(v[i]) && 0 <= v[i] < 64 by {
        assert(counts(s@[i], v[i]));
    }
    lemma_nothing_padded(b);
    assert(codec::unpadded(b) == b);
    assert(codec::in_alphabet(b));
    let n = r->0@.len();
    reveal(codec::byte_of);
    if 3 * g < n {
        assert(codec::byte_of(b, 3 * g) == 4 * v[4 * g] + v[4 * g + 1] / 16) by {
            assert((3 * g) / 3 == g && (3 * g) % 3 == 0);
            assert(codec::sextet(b[4 * g]) == Some(v[4 * g]));
            assert(codec::sextet(b[4 * g + 1]) == Some(v[4 * g + 1]));
        }
        assert(codec::sextet(b[4 * g]) == Some(v[4 * g]));
        assert(codec::sextet(b[4 * g + 1]) == Some(v[4 * g + 1]));
    }
    if 3 * g + 1 < n {
        assert((3 * g + 1) / 3 == g && (3 * g + 1) % 3 == 1);
        assert(codec::sextet(b[4 * g + 1]) == Some(v[4 * g + 1]));
        assert(codec::sextet(b[4 * g + 2]) == Some(v[4 * g + 2]));
    }
    if 3 * g + 2 < n {
        assert((3 * g + 2) / 3 == g && (3 * g + 2) % 3 == 2);
        assert(codec::sextet(b[4 * g + 2]) == Some(v[4 * g + 2]));
        assert(codec::sextet(b[4 * g + 3]) == Some(v[4 * g + 3]));
    }
}

proof fn lemma_nothing_padded(b: Seq<u8>)
    requires
        forall|i: int| 0 <= i < b.len() ==> #[trigger] b[i] != '=' as u8,
    ensures
        codec::unpadded(b) == b,
    decreases b.len(),
{
    if b.len() == 0 {
        assert(codec::unpadded(b) =~= b);
    } else {
        let rest = b.skip(1);
        assert forall|i: int| 0 <= i < rest.len() implies #[trigger] rest[i] != '=' as u8 by {
            assert(rest[i] == b[i + 1]);
        }
        assert(b[0] != '=' as u8);
        lemma_nothing_padded(rest);
        assert(codec::unpadded(b) =~= b);
    }
}

/// From the first padding on nothing matters.
pub proof fn law_padding_ends_the_text(
    s: &str,
    r: Option<Vec<u8>>,
    t: &str,
    q: Option<Vec<u8>>,
    tail: Seq<char>,
)
    requires
        call_ensures(base64url_decode, (s,), r),
        call_ensures(base64url_decode, (t,), q),
        s@ == t@ + (seq!['='] + tail),
    ensures
        r is Some <==> q is Some,
        r is Some ==> r->0@ == q->0@,
{
    let a = encode_utf8(t@);
    let pad = seq!['='] + tail;
    codec::lemma_encode_concat(t@, pad);
    codec::lemma_encode_concat(seq!['='], tail);
    let eq = seq!['=' as u8];
    codec::lemma_ascii_text(eq);
    assert(codec::ascii_text(eq) =~= seq!['=']);
    assert(encode_utf8(s@) =~= a + (eq + encode_utf8(tail)));
    lemma_padding_ends(a, encode_utf8(tail));
}

proof fn lemma_padding_ends(a: Seq<u8>, tail: Seq<u8>)
    ensures
        codec::unpadded(a + (seq!['=' as u8] + tail)) == codec::unpadded(a),
    decreases a.len(),
{
    let pad = seq!['=' as u8] + tail;
    let s = a + pad;
    if a.len() == 0 {
        assert(s =~= pad);
        assert(s[0] == '=' as u8);
    } else {
        assert(s[0] == a[0]);
        assert(s.skip(1) =~= a.skip(1) + pad);
        lemma_padding_ends(a.skip(1), tail);
    }
}

/// A text with any other character in it, before its padding, is none.
pub proof fn law_other_characters_are_refused(s: &str, r: Option<Vec<u8>>, i: int)
    requires
        call_ensures(base64url_decode, (s,), r),
        forall|j: int| 0 <= j < s@.len() ==> '\0' <= #[trigger] s@[j] <= '\u{7f}',
        0 <= i < s@.len(),
        !alphabetic(s@[i]),
        forall|j: int| 0 <= j <= i ==> #[trigger] s@[j] != '=',
    ensures
        r is None,
{
    let b = Seq::new(s@.len(), |j: int| s@[j] as u8);
    assert forall|j: int| 0 <= j < b.len() implies #[trigger] b[j] < 128 && b[j] as int
        == s@[j] as int by {
        assert('\0' <= s@[j] <= '\u{7f}');
    }
    assert(codec::ascii_text(b) =~= s@);
    codec::lemma_ascii_text(b);
    assert forall|j: int| 0 <= j <= i implies #[trigger] b[j] != '=' as u8 by {
        assert(s@[j] != '=');
    }
    lemma_before_padding(b, i);
    assert(codec::sextet(codec::unpadded(b)[i]) is None);
}

proof fn lemma_before_padding(b: Seq<u8>, i: int)
    requires
        0 <= i < b.len(),
        forall|j: int| 0 <= j <= i ==> #[trigger] b[j] != '=' as u8,
    ensures
        i < codec::unpadded(b).len(),
        codec::unpadded(b)[i] == b[i],
    decreases b.len(),
{
    assert(b[0] != '=' as u8);
    if i > 0 {
        let rest = b.skip(1);
        assert forall|j: int| 0 <= j <= i - 1 implies #[trigger] rest[j] != '=' as u8 by {
            assert(rest[j] == b[j + 1]);
        }
        lemma_before_padding(rest, i - 1);
        assert(codec::unpadded(b)[i] == codec::unpadded(rest)[i - 1]);
    }
}

// ---------------------------------------------------------------------------
// Escapes
// ---------------------------------------------------------------------------

/// Whether `v` is what a hexadecimal digit counts, of either case.
pub open spec fn hex_counts(c: u8, v: int) -> bool {
    ||| 48 <= c <= 57 && v == c - 48
    ||| 65 <= c <= 70 && v == c - 55
    ||| 97 <= c <= 102 && v == c - 87
}

/// A per cent sign and two hexadecimal digits stand for one byte, and what
/// follows is read on from behind them.
pub proof fn law_escapes_stand_for_bytes(
    b: &[u8],
    r: Vec<u8>,
    rest: &[u8],
    q: Vec<u8>,
    hi: int,
    lo: int,
)
    requires
        call_ensures(unescape, (b,), r),
        call_ensures(unescape, (rest,), q),
        b@.len() >= 3,
        b@[0] == 37,
        hex_counts(b@[1], hi),
        hex_counts(b@[2], lo),
        rest@ == b@.skip(3),
    ensures
        r@.len() == q@.len() + 1,
        r@[0] == 16 * hi + lo,
        r@.skip(1) == q@,
{
    assert(codec::escape_ahead(b@));
    assert(r@ == seq![(16 * hi + lo) as u8] + q@);
    assert(r@.skip(1) =~= q@);
}

/// Any other byte stands for itself: a plus is a plus, and a per cent sign
/// without two digits behind it a per cent sign.
pub proof fn law_other_bytes_stand_for_themselves(b: &[u8], r: Vec<u8>, rest: &[u8], q: Vec<u8>)
    requires
        call_ensures(unescape, (b,), r),
        call_ensures(unescape, (rest,), q),
        b@.len() >= 1,
        b@[0] != 37 || b@.len() < 3 || (forall|v: int| !hex_counts(b@[1], v)) || (forall|v: int|
            !hex_counts(b@[2], v)),
        rest@ == b@.skip(1),
    ensures
        r@.len() == q@.len() + 1,
        r@[0] == b@[0],
        r@.skip(1) == q@,
{
    if codec::escape_ahead(b@) {
        assert(hex_counts(b@[1], codec::hex(b@[1])->0));
        assert(hex_counts(b@[2], codec::hex(b@[2])->0));
    }
    assert(r@ == seq![b@[0]] + q@);
    assert(r@.skip(1) =~= q@);
}

/// Nothing stands for nothing.
pub proof fn law_no_bytes_stand_for_none(b: &[u8], r: Vec<u8>)
    requires
        call_ensures(unescape, (b,), r),
    ensures
        b@.len() == 0 ==> r@.len() == 0,
{
}

/// A text is decoded as its bytes are: where they then are a text, that is it.
pub proof fn law_texts_are_decoded_by_their_bytes(
    s: &str,
    r: String,
    b: &[u8],
    q: Vec<u8>,
    t: Seq<char>,
)
    requires
        call_ensures(percent_decode, (s,), r),
        call_ensures(unescape, (b,), q),
        b@ == encode_utf8(s@),
        q@ == encode_utf8(t),
    ensures
        r@ == t,
{
    encode_utf8_valid_utf8(t);
    encode_utf8_decode_utf8(t);
}

// ---------------------------------------------------------------------------
// The schedule
// ---------------------------------------------------------------------------

/// A schedule is accepted, as it is, in the version that is understood and in
/// no other.
pub proof fn law_one_version_is_understood(parsed: Option<Payload>, r: Option<Payload>)
    requires
        call_ensures(accept_payload, (parsed,), r),
    ensures
        r is Some <==> parsed is Some && parsed->0.v == 1,
        r is Some ==> r == parsed,
{
}

/// A schedule is what its document was read as, where there is a document.
pub proof fn law_schedules_come_from_documents(
    d: &str,
    parsed: Option<Payload>,
    r: Option<Payload>,
    document: Option<Vec<u8>>,
)
    requires
        call_ensures(decode_payload, (d, parsed), r),
        call_ensures(base64url_decode, (d,), document),
    ensures
        r is Some <==> document is Some && parsed is Some && parsed->0.v == 1,
        r is Some ==> r == parsed,
{
}

/// A number is what it says, whether it was written as a number or as a text;
/// a text that is no number counts as nought.
pub proof fn law_loose_numbers(x: LooseNum, n: i64, u: u64, t: Seq<char>, v: int, k: int)
    requires
        call_ensures(LooseNum::to_i64, (&x,), n),
        call_ensures(LooseNum::to_u64, (&x,), u),
    ensures
        x matches LooseNum::Int(m) ==> n == m,
        x matches LooseNum::Text(s) ==> {
            &&& s@ == icy_laws::signed_text(v) && i64::MIN <= v <= i64::MAX ==> n == v
            &&& 0 <= k < s@.len() && 'a' <= s@[k] <= 'z' ==> n == 0
            &&& s@.len() == 0 ==> n == 0
        },
        n >= 0 ==> u == n,
        n < 0 ==> u == 0,
{
    if let LooseNum::Text(s) = x {
        if s@ == icy_laws::signed_text(v) && i64::MIN <= v <= i64::MAX {
            lemma_signed(s@, v);
        }
        if 0 <= k < s@.len() && 'a' <= s@[k] <= 'z' {
            lemma_no_number(s@, k);
        }
    }
}

/// A number that was written down is read back, with nothing to trim.
proof fn lemma_signed(t: Seq<char>, v: int)
    requires
        t == icy_laws::signed_text(v),
        i64::MIN <= v <= i64::MAX,
    ensures
        text::trimmed(t) == t,
        number::signed(t) == Some(v),
        0 <= v ==> number::unsigned(t, u64::MAX as int) == Some(v),
        0 <= v <= u32::MAX ==> number::unsigned(t, u32::MAX as int) == Some(v),
{
    let m: nat = if v < 0 {
        (-v) as nat
    } else {
        v as nat
    };
    let digits = icy_laws::decimal_text(m);
    icy_laws::lemma_decimal_text(m);
    assert(number::is_digit(digits[0]));
    assert(number::is_digit(digits[digits.len() - 1]));
    assert(t.last() == digits.last());
    if v < 0 {
        assert(t.skip(1) =~= digits);
        assert(t[0] == '-');
    }
    text_laws::lemma_nothing_to_trim(t);
}

/// A text with a letter in it is no number, trimmed or not.
proof fn lemma_no_number(t: Seq<char>, k: int)
    requires
        0 <= k < t.len(),
        'a' <= t[k] <= 'z',
    ensures
        number::signed(t) is None,
        number::signed(text::trimmed(t)) is None,
        number::unsigned(t, u64::MAX as int) is None,
        number::unsigned(t, u32::MAX as int) is None,
{
    lemma_letter_is_no_digit(t, k);
    let r = text::trimmed(t);
    text_laws::lemma_trims_to(t);
    let n = choose|n: int| text_laws::stands_alone(t, r, n);
    assert(!text_laws::blank(t[k]));
    assert(n <= k < n + r.len());
    assert(r[k - n] == t[k]);
    lemma_letter_is_no_digit(r, k - n);
}

proof fn lemma_letter_is_no_digit(t: Seq<char>, k: int)
    requires
        0 <= k < t.len(),
        'a' <= t[k] <= 'z',
    ensures
        number::signed(t) is None,
        number::unsigned(t, u64::MAX as int) is None,
        number::unsigned(t, u32::MAX as int) is None,
{
    assert(!number::is_digit(t[k]));
    if t[0] == '-' || t[0] == '+' {
        assert(t.skip(1)[k - 1] == t[k]);
        assert(!number::is_digit(t.skip(1)[k - 1]));
    }
}

/// A schedule that is read later joins its block, and changes nothing else.
pub proof fn law_schedules_join_later(
    u: StreamUrl,
    parsed: Option<Payload>,
    v: StreamUrl,
    b: Block,
    c: Block,
)
    requires
        call_ensures(StreamUrl::scheduled, (u, parsed), v),
        call_ensures(Block::scheduled, (b, parsed), c),
    ensures
        joins(u, v, parsed),
        c.title@ == b.title@,
        c.url is Some <==> b.url is Some,
        b.url is Some ==> joins(b.url->0, c.url->0, parsed),
{
}

/// Whether `v` is `u` with the schedule that was read.
pub open spec fn joins(u: StreamUrl, v: StreamUrl, parsed: Option<Payload>) -> bool {
    &&& v.seq == u.seq
    &&& v.playhead_ms == u.playhead_ms
    &&& v.wall_ms == u.wall_ms
    &&& v.kind@ == u.kind@
    &&& v.item_id@ == u.item_id@
    &&& parsed is Some && parsed->0.v == 1 ==> v.payload == parsed
    &&& parsed is None || parsed->0.v != 1 ==> v.payload is None
}

// ---------------------------------------------------------------------------
// URLs
// ---------------------------------------------------------------------------

/// Whether a pair has a key, with or without a value behind it.
pub open spec fn has_key(pair: Seq<char>, key: char) -> bool {
    pair.len() > 0 && pair[0] == key && (pair.len() == 1 || pair[1] == '=')
}

/// The value of a pair.
pub open spec fn value_in(pair: Seq<char>) -> Seq<char> {
    if pair.len() < 2 {
        Seq::empty()
    } else {
        pair.skip(2)
    }
}

/// Whether no pair has a key.
pub open spec fn absent(pairs: Seq<Seq<char>>, key: char) -> bool {
    forall|i: int| 0 <= i < pairs.len() ==> !has_key(#[trigger] pairs[i], key)
}

/// Whether a pair is the last one with its key.
pub open spec fn decides(pairs: Seq<Seq<char>>, key: char, i: int) -> bool {
    &&& 0 <= i < pairs.len()
    &&& has_key(pairs[i], key)
    &&& forall|j: int| i < j < pairs.len() ==> !has_key(#[trigger] pairs[j], key)
}

proof fn lemma_has_key(pair: Seq<char>, key: char)
    requires
        key != '=',
    ensures
        has_key(pair, key) <==> icy::key_value(pair).0 == seq![key],
        has_key(pair, key) ==> icy::key_value(pair).1 == value_in(pair),
{
    text::lemma_find_char(pair, '=');
    let kv = icy::key_value(pair);
    if has_key(pair, key) {
        if pair.len() == 1 {
            text::lemma_find_char_none(pair, '=');
            assert(pair =~= seq![key]);
        } else {
            text::lemma_find_char_is(pair, '=', 1);
            assert(pair.take(1) =~= seq![key]);
        }
    } else if kv.0 == seq![key] {
        assert(seq![key].len() == 1 && seq![key][0] == key);
        assert(kv.0[0] == key);
        match text::find(pair, seq!['=']) {
            Some(i) => {
                assert(kv.0 == pair.take(i));
                assert(i == 1);
                assert(pair[0] == kv.0[0]);
            },
            None => {
                assert(pair == kv.0);
            },
        }
    }
}

proof fn lemma_absent(pairs: Seq<Seq<char>>, key: char)
    requires
        key != '=',
        absent(pairs, key),
    ensures
        icy::last_value(pairs, key) is None,
    decreases pairs.len(),
{
    if pairs.len() > 0 {
        let rest = pairs.drop_last();
        lemma_has_key(pairs[pairs.len() - 1], key);
        assert forall|i: int| 0 <= i < rest.len() implies !has_key(#[trigger] rest[i], key) by {
            assert(rest[i] == pairs[i]);
        }
        lemma_absent(rest, key);
    }
}

proof fn lemma_decides(pairs: Seq<Seq<char>>, key: char, i: int)
    requires
        key != '=',
        decides(pairs, key, i),
    ensures
        icy::last_value(pairs, key) == Some(value_in(pairs[i])),
    decreases pairs.len(),
{
    let n = pairs.len() - 1;
    lemma_has_key(pairs[n], key);
    if i < n {
        let rest = pairs.drop_last();
        assert(!has_key(pairs[n], key));
        assert(rest[i] == pairs[i]);
        assert forall|j: int| i < j < rest.len() implies !has_key(#[trigger] rest[j], key) by {
            assert(rest[j] == pairs[j]);
        }
        lemma_decides(rest, key, i);
    }
}

/// Whether a URL carries these pairs behind its question mark.
pub open spec fn carries(url: Seq<char>, base: Seq<char>, pairs: Seq<Seq<char>>) -> bool {
    &&& url == base + seq!['?'] + icy_laws::joined(pairs, '&')
    &&& icy_laws::lacks(base, '?')
    &&& pairs.len() > 0
    &&& forall|i: int| 0 <= i < pairs.len() ==> icy_laws::lacks(#[trigger] pairs[i], '&')
}

proof fn lemma_carries(
    url: Seq<char>,
    base: Seq<char>,
    pairs: Seq<Seq<char>>,
    parsed: Option<Payload>,
)
    requires
        carries(url, base, pairs),
    ensures
        icy::url_says(url, parsed) == icy::query_says(icy_laws::joined(pairs, '&'), parsed),
        text::split(icy_laws::joined(pairs, '&'), '&') == pairs,
{
    let query = icy_laws::joined(pairs, '&');
    let n = base.len() as int;
    assert forall|j: int| 0 <= j < n implies url[j] != '?' by {
        assert(url[j] == base[j]);
    }
    text::lemma_find_char_is(url, '?', n);
    assert(url.skip(n + 1) =~= query);
    icy_laws::law_split_inverts_join(pairs, '&');
}

/// A URL is read where it says so in the version that is understood: its last
/// word on that counts. One that says nothing of it, or anything else, is not
/// read; nor is one without a question mark.
pub proof fn law_which_urls_are_read(
    url: &str,
    parsed: Option<Payload>,
    r: Option<StreamUrl>,
    base: Seq<char>,
    pairs: Seq<Seq<char>>,
    i: int,
    n: int,
    k: int,
)
    requires
        call_ensures(parse_stream_url, (url, parsed), r),
    ensures
        icy_laws::lacks(url@, '?') ==> r is None,
        carries(url@, base, pairs) && absent(pairs, 'v') ==> r is None,
        carries(url@, base, pairs) && decides(pairs, 'v', i) ==> {
            let v = value_in(pairs[i]);
            &&& v == icy_laws::signed_text(n) && n == 1 ==> r is Some
            &&& v == icy_laws::signed_text(n) && 0 <= n <= u32::MAX && n != 1 ==> r is None
            &&& 0 <= k < v.len() && 'a' <= v[k] <= 'z' ==> r is None
            &&& v.len() == 0 ==> r is None
        },
{
    if icy_laws::lacks(url@, '?') {
        text::lemma_find_char_none(url@, '?');
    }
    if carries(url@, base, pairs) {
        lemma_carries(url@, base, pairs, parsed);
        if absent(pairs, 'v') {
            lemma_absent(pairs, 'v');
        }
        if decides(pairs, 'v', i) {
            lemma_decides(pairs, 'v', i);
            let v = value_in(pairs[i]);
            if v == icy_laws::signed_text(n) && 0 <= n <= u32::MAX {
                lemma_signed(v, n);
            }
            if 0 <= k < v.len() && 'a' <= v[k] <= 'z' {
                lemma_no_number(v, k);
            }
        }
    }
}

/// Whether a number that was asked for is the one in a value: the one that is
/// written there, or nought where none is.
pub open spec fn number_in(value: Seq<char>, n: int, k: int, told: int) -> bool {
    &&& value == icy_laws::signed_text(n) && i64::MIN <= n <= i64::MAX ==> told == n
    &&& 0 <= k < value.len() && 'a' <= value[k] <= 'z' ==> told == 0
    &&& value.len() == 0 ==> told == 0
}

/// The counter and the two times of a URL are what the last pairs with their
/// keys say, and nought where there is none.
pub proof fn law_numbers_of_a_url(
    url: &str,
    parsed: Option<Payload>,
    u: StreamUrl,
    base: Seq<char>,
    pairs: Seq<Seq<char>>,
    i: int,
    n: int,
    k: int,
)
    requires
        call_ensures(parse_stream_url, (url, parsed), Some(u)),
        carries(url@, base, pairs),
    ensures
        absent(pairs, 's') ==> u.seq == 0,
        decides(pairs, 's', i) && n >= 0 ==> number_in(value_in(pairs[i]), n, k, u.seq as int),
        absent(pairs, 'p') ==> u.playhead_ms == 0,
        decides(pairs, 'p', i) ==> number_in(value_in(pairs[i]), n, k, u.playhead_ms as int),
        absent(pairs, 't') ==> u.wall_ms == 0,
        decides(pairs, 't', i) ==> number_in(value_in(pairs[i]), n, k, u.wall_ms as int),
{
    lemma_carries(url@, base, pairs, parsed);
    lemma_asked(pairs, 's', i, n, k);
    lemma_asked(pairs, 'p', i, n, k);
    lemma_asked(pairs, 't', i, n, k);
}

proof fn lemma_asked(pairs: Seq<Seq<char>>, key: char, i: int, n: int, k: int)
    requires
        key != '=',
    ensures
        absent(pairs, key) ==> icy::last_value(pairs, key) is None,
        decides(pairs, key, i) ==> icy::last_value(pairs, key) == Some(value_in(pairs[i])),
        decides(pairs, key, i) && n >= 0 ==> number_in(
            value_in(pairs[i]),
            n,
            k,
            icy::counter_of(Some(value_in(pairs[i]))),
        ),
        decides(pairs, key, i) ==> number_in(
            value_in(pairs[i]),
            n,
            k,
            icy::time_of(Some(value_in(pairs[i]))),
        ),
{
    if absent(pairs, key) {
        lemma_absent(pairs, key);
    }
    if decides(pairs, key, i) {
        lemma_decides(pairs, key, i);
        let v = value_in(pairs[i]);
        if v == icy_laws::signed_text(n) && i64::MIN <= n <= i64::MAX {
            lemma_signed(v, n);
        }
        if 0 <= k < v.len() && 'a' <= v[k] <= 'z' {
            lemma_no_number(v, k);
        }
    }
}

/// The kind and the item of a URL are what the last pairs with their keys say,
/// decoded, and empty where there is none.
pub proof fn law_names_of_a_url(
    url: &str,
    parsed: Option<Payload>,
    u: StreamUrl,
    base: Seq<char>,
    pairs: Seq<Seq<char>>,
    i: int,
    value: &str,
    decoded: String,
)
    requires
        call_ensures(parse_stream_url, (url, parsed), Some(u)),
        carries(url@, base, pairs),
        call_ensures(percent_decode, (value,), decoded),
    ensures
        absent(pairs, 'k') ==> u.kind@.len() == 0,
        decides(pairs, 'k', i) && value@ == value_in(pairs[i]) ==> u.kind@ == decoded@,
        absent(pairs, 'i') ==> u.item_id@.len() == 0,
        decides(pairs, 'i', i) && value@ == value_in(pairs[i]) ==> u.item_id@ == decoded@,
{
    lemma_carries(url@, base, pairs, parsed);
    lemma_asked(pairs, 'k', i, 0, 0);
    lemma_asked(pairs, 'i', i, 0, 0);
}

/// The schedule of a URL is what its document was read as, in the version that
/// is understood; without a document that can be decoded there is none.
pub proof fn law_the_schedule_of_a_url(
    url: &str,
    parsed: Option<Payload>,
    u: StreamUrl,
    base: Seq<char>,
    pairs: Seq<Seq<char>>,
    i: int,
    value: &str,
    document: Option<Vec<u8>>,
)
    requires
        call_ensures(parse_stream_url, (url, parsed), Some(u)),
        carries(url@, base, pairs),
        call_ensures(base64url_decode, (value,), document),
    ensures
        absent(pairs, 'd') ==> u.payload is None,
        decides(pairs, 'd', i) && value@ == value_in(pairs[i]) ==> {
            &&& u.payload is Some <==> document is Some && parsed is Some && parsed->0.v == 1
            &&& u.payload is Some ==> u.payload == parsed
        },
{
    lemma_carries(url@, base, pairs, parsed);
    lemma_asked(pairs, 'd', i, 0, 0);
}

/// To open a URL and to have its document read later is to read it at once.
pub proof fn law_opening_and_reading(
    url: &str,
    opened: Option<(StreamUrl, Option<Vec<u8>>)>,
    parsed: Option<Payload>,
    r: Option<StreamUrl>,
    later: StreamUrl,
)
    requires
        call_ensures(open_url, (url,), opened),
        call_ensures(parse_stream_url, (url, parsed), r),
        opened is Some ==> call_ensures(
            StreamUrl::scheduled,
            ((opened->0).0, parsed),
            later,
        ),
    ensures
        r is Some <==> opened is Some,
        opened matches Some((u, document)) ==> {
            &&& u.payload is None
            &&& document is Some ==> r->0@ == later@
            &&& document is None ==> r->0@ == u@
        },
{
}

// ---------------------------------------------------------------------------
// Blocks
// ---------------------------------------------------------------------------

/// The title of a block is what is written between its marks, trimmed; its URL
/// is read by itself, and one that cannot be read takes nothing from the
/// title. A block that gives neither is none.
pub proof fn law_titles_and_urls_of_a_block(
    raw: &str,
    parsed: Option<Payload>,
    r: Option<Block>,
    title: Seq<char>,
    url: &str,
    u: Option<StreamUrl>,
    tail: Seq<char>,
)
    requires
        call_ensures(parse_block, (raw, parsed), r),
        call_ensures(parse_stream_url, (url, parsed), u),
        raw@ == "StreamTitle='"@ + (title + "';StreamUrl='"@ + (url@ + "';"@ + tail)),
        icy_laws::ends_first_at(title, "';StreamUrl='"@),
        icy_laws::ends_first_at(url@, "';"@),
    ensures
        r matches Some(b) ==> {
            &&& text_laws::trims_to(title, b.title@)
            &&& b.url is Some <==> u is Some
            &&& u is Some ==> b.url->0@ == u->0@
        },
        u is Some ==> r is Some,
        r is None ==> text_laws::trims_to(title, Seq::empty()),
{
    assert(raw@ == icy_laws::full_block(title, url@, tail));
    icy_laws::law_full_blocks_read_back(title, url@, tail);
    text_laws::lemma_trims_to(title);
    if r is None {
        assert(text::trimmed(title) =~= Seq::<char>::empty());
    }
}

/// A block without a URL gives its title, trimmed.
pub proof fn law_titles_of_a_block(
    raw: &str,
    parsed: Option<Payload>,
    r: Option<Block>,
    title: Seq<char>,
    tail: Seq<char>,
)
    requires
        call_ensures(parse_block, (raw, parsed), r),
        raw@ == "StreamTitle='"@ + (title + "';"@ + tail),
        icy_laws::ends_first_at(title, "';"@),
        forall|i: int|
            !(#[trigger] text_laws::stands_at(title + "';"@ + tail, "';StreamUrl='"@, i)),
    ensures
        r matches Some(b) ==> text_laws::trims_to(title, b.title@) && b.url is None,
        r is None ==> text_laws::trims_to(title, Seq::empty()),
{
    let rest = title + "';"@ + tail;
    text::lemma_find_from(rest, URL_TAG@, 0);
    match text::find(rest, URL_TAG@) {
        Some(i) => {
            text_laws::lemma_stands_at(rest, URL_TAG@, i);
            assert(!text_laws::stands_at(rest, "';StreamUrl='"@, i));
        },
        None => {},
    }
    assert(raw@ == icy_laws::title_block(title, tail));
    icy_laws::law_title_blocks_read_back(title, tail);
    text_laws::lemma_trims_to(title);
    if r is None {
        assert(text::trimmed(title) =~= Seq::<char>::empty());
    }
}

/// To open a block and to have its document read later is to read it at once.
pub proof fn law_opening_and_reading_a_block(
    raw: &str,
    opened: Option<(Block, Option<Vec<u8>>)>,
    parsed: Option<Payload>,
    r: Option<Block>,
    later: Block,
)
    requires
        call_ensures(open_block, (raw,), opened),
        call_ensures(parse_block, (raw, parsed), r),
        opened is Some ==> call_ensures(Block::scheduled, ((opened->0).0, parsed), later),
    ensures
        r is Some <==> opened is Some,
        opened matches Some((b, document)) ==> {
            &&& document is Some ==> r->0@ == later@
            &&& document is None ==> r->0@ == b@
        },
{
    icy::lemma_schedule_joins(raw@, parsed);
}

} // verus!
