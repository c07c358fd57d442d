//! Laws of the stream metadata: what a station writes into a block is what is
//! read out of it.

use crate::codec;
use crate::icy;
use crate::icy::{Payload, PAYLOAD_VERSION, TERM, TITLE_TAG, URL_TAG};
use crate::number;
use crate::text;
use vstd::prelude::*;
use vstd::utf8::*;

verus! {

// ---------------------------------------------------------------------------
// Blocks
// ---------------------------------------------------------------------------

/// Whether `end` stands in `s` followed by `end` nowhere but behind `s`.
pub open spec fn ends_first_at(s: Seq<char>, end: Seq<char>) -> bool {
    forall|j: int| 0 <= j < s.len() ==> !#[trigger] text::occurs_at(s + end, end, j)
}

/// What is written in front of its end mark is found to end there, whatever
/// follows.
proof fn lemma_end_is_found(s: Seq<char>, end: Seq<char>, tail: Seq<char>)
    requires
        ends_first_at(s, end),
    ensures
        text::find(s + end + tail, end) == Some(s.len() as int),
{
    let hay = s + end + tail;
    let n = s.len() as int;
    assert(hay.subrange(n, n + end.len()) =~= end);
    assert forall|j: int| 0 <= j < n implies !text::occurs_at(hay, end, j) by {
        assert(!text::occurs_at(s + end, end, j));
        if text::occurs_at(hay, end, j) {
            assert(hay.subrange(j, j + end.len()) =~= (s + end).subrange(j, j + end.len()));
        }
    }
    text::lemma_find_from_is(hay, end, 0, n);
}

/// A block with a title and a URL, as it is written.
pub open spec fn full_block(title: Seq<char>, url: Seq<char>, tail: Seq<char>) -> Seq<char> {
    TITLE_TAG@ + (title + URL_TAG@ + (url + TERM@ + tail))
}

/// A block with a title alone, as it is written.
pub open spec fn title_block(title: Seq<char>, tail: Seq<char>) -> Seq<char> {
    TITLE_TAG@ + (title + TERM@ + tail)
}

/// Texts behind a title tag are framed by what follows the tag.
proof fn lemma_title_tag(rest: Seq<char>)
    ensures
        text::find(TITLE_TAG@ + rest, TITLE_TAG@) == Some(0int),
        (TITLE_TAG@ + rest).skip(TITLE_TAG@.len() as int) == rest,
{
    let raw = TITLE_TAG@ + rest;
    assert(raw.subrange(0, TITLE_TAG@.len() as int) =~= TITLE_TAG@);
    text::lemma_find_from_is(raw, TITLE_TAG@, 0, 0);
    assert(raw.skip(TITLE_TAG@.len() as int) =~= rest);
}

/// A title and a URL are read back as they were written, even where the title
/// itself contains the terminator. They only must not contain the marks that
/// end them.
pub proof fn law_full_blocks_read_back(title: Seq<char>, url: Seq<char>, tail: Seq<char>)
    requires
        ends_first_at(title, URL_TAG@),
        ends_first_at(url, TERM@),
    ensures
        icy::framed(full_block(title, url, tail)) == Some((title, Some(url))),
{
    let behind = url + TERM@ + tail;
    let rest = title + URL_TAG@ + behind;
    lemma_title_tag(rest);
    lemma_end_is_found(title, URL_TAG@, behind);
    lemma_end_is_found(url, TERM@, tail);
    assert(rest.take(title.len() as int) =~= title);
    assert(rest.skip((title.len() + URL_TAG@.len()) as int) =~= behind);
    assert(behind.take(url.len() as int) =~= url);
}

/// A block that carries no URL still gives its title.
pub proof fn law_title_blocks_read_back(title: Seq<char>, tail: Seq<char>)
    requires
        ends_first_at(title, TERM@),
        text::find(title + TERM@ + tail, URL_TAG@) is None,
    ensures
        icy::framed(title_block(title, tail)) == Some((title, None::<Seq<char>>)),
{
    let rest = title + TERM@ + tail;
    lemma_title_tag(rest);
    lemma_end_is_found(title, TERM@, tail);
    assert(rest.take(title.len() as int) =~= title);
}

/// Without a title tag there is no block, and the metadata shown stays.
pub proof fn law_no_title_tag_no_block(raw: Seq<char>, parsed: Option<Payload>)
    requires
        text::find(raw, TITLE_TAG@) is None,
    ensures
        icy::block_says(raw, parsed) is None,
{
}

/// A block never blanks the display: it brings a title or a position in the
/// schedule.
pub proof fn law_blocks_say_something(raw: Seq<char>, parsed: Option<Payload>)
    ensures
        icy::block_says(raw, parsed) matches Some(b) ==> b.title.len() > 0 || b.url is Some,
{
}

// ---------------------------------------------------------------------------
// URLs
// ---------------------------------------------------------------------------

/// The digit of a value.
pub open spec fn digit(v: int) -> char {
    ('0' as int + v) as char
}

/// `n` written in base ten.
pub open spec fn decimal_text(n: nat) -> Seq<char>
    decreases n,
{
    if n < 10 {
        seq![digit(n as int)]
    } else {
        decimal_text(n / 10).push(digit(n as int % 10))
    }
}

/// `n` written in base ten, with a sign where it is negative.
pub open spec fn signed_text(n: int) -> Seq<char> {
    if n < 0 {
        seq!['-'] + decimal_text((-n) as nat)
    } else {
        decimal_text(n as nat)
    }
}

/// A number is read back as it was written.
pub proof fn lemma_decimal_text(n: nat)
    ensures
        number::all_digits(decimal_text(n)),
        number::decimal(decimal_text(n)) == n,
    decreases n,
{
    let t = decimal_text(n);
    if n < 10 {
        assert(t.drop_last() =~= Seq::<char>::empty());
        assert(number::decimal(t.drop_last()) == 0);
    } else {
        let head = decimal_text(n / 10);
        lemma_decimal_text(n / 10);
        assert(t.drop_last() =~= head);
        assert forall|i: int| 0 <= i < t.len() implies number::is_digit(#[trigger] t[i]) by {
            if i < head.len() {
                assert(t[i] == head[i]);
            }
        }
    }
}

proof fn lemma_unsigned_text(n: nat, max: int)
    requires
        n <= max,
    ensures
        number::unsigned(decimal_text(n), max) == Some(n as int),
{
    lemma_decimal_text(n);
    assert(number::is_digit(decimal_text(n)[0]));
}

proof fn lemma_signed_text(n: int)
    requires
        i64::MIN <= n <= i64::MAX,
    ensures
        number::signed(signed_text(n)) == Some(n),
{
    if n < 0 {
        let digits = decimal_text((-n) as nat);
        lemma_decimal_text((-n) as nat);
        assert(signed_text(n).skip(1) =~= digits);
    } else {
        lemma_unsigned_text(n as nat, i64::MAX as int);
        lemma_decimal_text(n as nat);
        assert(number::is_digit(decimal_text(n as nat)[0]));
    }
}

/// `key=value`.
pub open spec fn pair_text(key: char, value: Seq<char>) -> Seq<char> {
    seq![key, '='] + value
}

/// Parts with a separator between each two.
pub open spec fn joined(parts: Seq<Seq<char>>, sep: char) -> Seq<char>
    decreases parts.len(),
{
    if parts.len() == 0 {
        Seq::empty()
    } else if parts.len() == 1 {
        parts[0]
    } else {
        parts[0] + (seq![sep] + joined(parts.skip(1), sep))
    }
}

/// Whether `c` does not stand in `s`.
pub open spec fn lacks(s: Seq<char>, c: char) -> bool {
    forall|i: int| 0 <= i < s.len() ==> #[trigger] s[i] != c
}

/// Splitting what was joined gives back the parts, where none of them
/// contains the separator.
pub proof fn law_split_inverts_join(parts: Seq<Seq<char>>, sep: char)
    requires
        parts.len() > 0,
        forall|i: int| 0 <= i < parts.len() ==> lacks(#[trigger] parts[i], sep),
    ensures
        text::split(joined(parts, sep), sep) == parts,
    decreases parts.len(),
{
    let s = joined(parts, sep);
    assert(lacks(parts[0], sep));
    if parts.len() == 1 {
        text::lemma_find_char_none(s, sep);
        assert(seq![s] =~= parts);
    } else {
        let rest = parts.skip(1);
        let n = parts[0].len() as int;
        assert forall|i: int| 0 <= i < rest.len() implies lacks(#[trigger] rest[i], sep) by {
            assert(rest[i] == parts[i + 1]);
        }
        law_split_inverts_join(rest, sep);
        assert forall|j: int| 0 <= j < n implies s[j] != sep by {
            assert(s[j] == parts[0][j]);
        }
        assert(s[n] == sep);
        text::lemma_find_char_is(s, sep, n);
        assert(s.take(n) =~= parts[0]);
        assert(s.skip(n + 1) =~= joined(rest, sep));
        assert(seq![parts[0]] + rest =~= parts);
    }
}

/// The key and the value of a pair are read back as they were written.
proof fn lemma_pair(key: char, value: Seq<char>)
    requires
        key != '=',
    ensures
        icy::key_value(pair_text(key, value)) == (seq![key], value),
{
    let p = pair_text(key, value);
    text::lemma_find_char_is(p, '=', 1);
    assert(p.take(1) =~= seq![key]);
    assert(p.skip(2) =~= value);
}

/// The last pair with a key decides; pairs with other keys do not matter.
proof fn lemma_last_pair(pairs: Seq<Seq<char>>, key: char, value: Seq<char>, asked: char)
    requires
        key != '=',
    ensures
        icy::last_value(pairs.push(pair_text(key, value)), asked) == (if key == asked {
            Some(value)
        } else {
            icy::last_value(pairs, asked)
        }),
{
    let more = pairs.push(pair_text(key, value));
    lemma_pair(key, value);
    assert(more.drop_last() =~= pairs);
    assert(seq![key][0] == key && seq![asked][0] == asked);
    if key == asked {
        assert(seq![key] =~= seq![asked]);
    }
}

/// The pairs that a station writes for a position, behind those that its base
/// URL carries already.
pub open spec fn url_pairs(
    foreign: Seq<Seq<char>>,
    u: icy::UrlView,
    document: Option<Seq<u8>>,
    plain: spec_fn(u8) -> bool,
) -> Seq<Seq<char>> {
    let counted = foreign.push(pair_text('v', decimal_text(PAYLOAD_VERSION as nat))).push(
        pair_text('s', decimal_text(u.seq as nat)),
    );
    let timed = counted.push(pair_text('p', signed_text(u.playhead_ms))).push(
        pair_text('t', signed_text(u.wall_ms)),
    );
    let named = timed.push(pair_text('k', codec::percent_text(u.kind, plain))).push(
        pair_text('i', codec::percent_text(u.item_id, plain)),
    );
    match document {
        Some(d) => named.push(
            pair_text('d', codec::ascii_text(codec::base64url_text(d))),
        ),
        None => named,
    }
}

/// The URL that a station writes for a position.
pub open spec fn url_text(
    base: Seq<char>,
    foreign: Seq<Seq<char>>,
    u: icy::UrlView,
    document: Option<Seq<u8>>,
    plain: spec_fn(u8) -> bool,
) -> Seq<char> {
    base + seq!['?'] + joined(url_pairs(foreign, u, document, plain), '&')
}

/// Digits and signs are no separators.
proof fn lemma_numbers_lack_separators(n: int)
    ensures
        lacks(signed_text(n), '&'),
        n >= 0 ==> signed_text(n) == decimal_text(n as nat),
{
    let m = (if n < 0 {
        -n
    } else {
        n
    }) as nat;
    let digits = decimal_text(m);
    lemma_decimal_text(m);
    assert forall|i: int| 0 <= i < signed_text(n).len() implies #[trigger] signed_text(n)[i]
        != '&' by {
        if n < 0 {
            if i > 0 {
                assert(signed_text(n)[i] == digits[i - 1]);
                assert(number::is_digit(digits[i - 1]));
            }
        } else {
            assert(number::is_digit(digits[i]));
        }
    }
}

/// Escaping hides separators.
proof fn lemma_escaped_lacks(b: Seq<u8>, plain: spec_fn(u8) -> bool)
    requires
        !plain('&' as u8),
    ensures
        forall|i: int|
            0 <= i < codec::escaped(b, plain).len() ==> #[trigger] codec::escaped(b, plain)[i]
                != '&' as u8,
    decreases b.len(),
{
    if b.len() > 0 {
        lemma_escaped_lacks(b.skip(1), plain);
        let tail = codec::escaped(b.skip(1), plain);
        let e = codec::escaped(b, plain);
        let n = e.len() - tail.len();
        assert forall|i: int| 0 <= i < e.len() implies #[trigger] e[i] != '&' as u8 by {
            if i >= n {
                assert(e[i] == tail[i - n]);
            } else if plain(b[0]) {
                assert(e[i] == b[0]);
            } else {
                assert(codec::hex_digit(b[0] as int / 16) != '&' as u8);
                assert(codec::hex_digit(b[0] as int % 16) != '&' as u8);
            }
        }
    }
}

/// A text of ASCII bytes without a character lacks it.
proof fn lemma_ascii_lacks(b: Seq<u8>)
    requires
        forall|i: int| 0 <= i < b.len() ==> #[trigger] b[i] != '&' as u8 && b[i] < 128,
    ensures
        lacks(codec::ascii_text(b), '&'),
{
    let t = codec::ascii_text(b);
    assert forall|i: int| 0 <= i < t.len() implies #[trigger] t[i] != '&' by {
        assert(b[i] != '&' as u8);
    }
}

/// A pair lacks what its key and value lack.
proof fn lemma_pair_lacks(key: char, value: Seq<char>)
    requires
        key != '&',
        lacks(value, '&'),
    ensures
        lacks(pair_text(key, value), '&'),
{
    let p = pair_text(key, value);
    assert forall|i: int| 0 <= i < p.len() implies #[trigger] p[i] != '&' by {
        if i >= 2 {
            assert(p[i] == value[i - 2]);
        }
    }
}

/// None of the pairs that a station writes contains a separator.
proof fn lemma_url_pairs_lack(
    foreign: Seq<Seq<char>>,
    u: icy::UrlView,
    document: Option<Seq<u8>>,
    plain: spec_fn(u8) -> bool,
)
    requires
        u.seq >= 0,
        !plain('&' as u8),
        forall|c: u8| #[trigger] plain(c) ==> c < 128,
        forall|i: int| 0 <= i < foreign.len() ==> lacks(#[trigger] foreign[i], '&'),
    ensures
        forall|i: int|
            0 <= i < url_pairs(foreign, u, document, plain).len() ==> lacks(
                #[trigger] url_pairs(foreign, u, document, plain)[i],
                '&',
            ),
{
    lemma_numbers_lack_separators(PAYLOAD_VERSION as int);
    lemma_numbers_lack_separators(u.seq);
    lemma_numbers_lack_separators(u.playhead_ms);
    lemma_numbers_lack_separators(u.wall_ms);
    let kind = encode_utf8(u.kind);
    let id = encode_utf8(u.item_id);
    lemma_escaped_lacks(kind, plain);
    lemma_escaped_lacks(id, plain);
    codec::lemma_escaped_is_ascii(kind, plain);
    codec::lemma_escaped_is_ascii(id, plain);
    lemma_ascii_lacks(codec::escaped(kind, plain));
    lemma_ascii_lacks(codec::escaped(id, plain));
    lemma_pair_lacks('v', decimal_text(PAYLOAD_VERSION as nat));
    lemma_pair_lacks('s', decimal_text(u.seq as nat));
    lemma_pair_lacks('p', signed_text(u.playhead_ms));
    lemma_pair_lacks('t', signed_text(u.wall_ms));
    lemma_pair_lacks('k', codec::percent_text(u.kind, plain));
    lemma_pair_lacks('i', codec::percent_text(u.item_id, plain));
    match document {
        Some(d) => {
            codec::lemma_base64url_text_is_plain(d);
            lemma_ascii_lacks(codec::base64url_text(d));
            lemma_pair_lacks('d', codec::ascii_text(codec::base64url_text(d)));
        },
        None => {},
    }
    let pairs = url_pairs(foreign, u, document, plain);
    assert forall|i: int| 0 <= i < pairs.len() implies lacks(#[trigger] pairs[i], '&') by {
        if i < foreign.len() {
            assert(pairs[i] == foreign[i]);
        }
    }
}

/// The value of each key among the pairs that a station writes.
proof fn lemma_url_values(
    foreign: Seq<Seq<char>>,
    u: icy::UrlView,
    document: Option<Seq<u8>>,
    plain: spec_fn(u8) -> bool,
    key: char,
)
    requires
        document is None ==> icy::last_value(foreign, 'd') is None,
    ensures
        ({
            let value = icy::last_value(url_pairs(foreign, u, document, plain), key);
            &&& key == 'v' ==> value == Some(decimal_text(PAYLOAD_VERSION as nat))
            &&& key == 's' ==> value == Some(decimal_text(u.seq as nat))
            &&& key == 'p' ==> value == Some(signed_text(u.playhead_ms))
            &&& key == 't' ==> value == Some(signed_text(u.wall_ms))
            &&& key == 'k' ==> value == Some(codec::percent_text(u.kind, plain))
            &&& key == 'i' ==> value == Some(codec::percent_text(u.item_id, plain))
            &&& key == 'd' ==> value == (match document {
                Some(d) => Some(codec::ascii_text(codec::base64url_text(d))),
                None => None,
            })
        }),
{
    let vv = decimal_text(PAYLOAD_VERSION as nat);
    let sv = decimal_text(u.seq as nat);
    let pv = signed_text(u.playhead_ms);
    let tv = signed_text(u.wall_ms);
    let kv = codec::percent_text(u.kind, plain);
    let iv = codec::percent_text(u.item_id, plain);
    let p1 = foreign.push(pair_text('v', vv));
    let p2 = p1.push(pair_text('s', sv));
    let p3 = p2.push(pair_text('p', pv));
    let p4 = p3.push(pair_text('t', tv));
    let p5 = p4.push(pair_text('k', kv));
    let p6 = p5.push(pair_text('i', iv));
    lemma_last_pair(foreign, 'v', vv, key);
    lemma_last_pair(p1, 's', sv, key);
    lemma_last_pair(p2, 'p', pv, key);
    lemma_last_pair(p3, 't', tv, key);
    lemma_last_pair(p4, 'k', kv, key);
    lemma_last_pair(p5, 'i', iv, key);
    match document {
        Some(d) => {
            lemma_last_pair(
                p6,
                'd',
                codec::ascii_text(codec::base64url_text(d)),
                key,
            );
        },
        None => {},
    }
}

/// What is told of a position that was written with a document, or without.
pub open spec fn told(
    u: icy::UrlView,
    document: Option<Seq<u8>>,
    parsed: Option<Payload>,
) -> icy::UrlView {
    icy::UrlView {
        payload: if document is Some {
            icy::accepted(parsed)
        } else {
            None
        },
        ..u
    }
}

/// A position that a station writes into a URL is read back as it was written,
/// and so is its document, whatever other pairs its base URL carries. The
/// schedule is what the document is read as, in the version that is understood.
pub proof fn law_urls_read_back(
    base: Seq<char>,
    foreign: Seq<Seq<char>>,
    u: icy::UrlView,
    document: Option<Seq<u8>>,
    plain: spec_fn(u8) -> bool,
    parsed: Option<Payload>,
)
    requires
        lacks(base, '?'),
        forall|i: int| 0 <= i < foreign.len() ==> lacks(#[trigger] foreign[i], '&'),
        document is None ==> icy::last_value(foreign, 'd') is None,
        0 <= u.seq <= u64::MAX,
        i64::MIN <= u.playhead_ms <= i64::MAX,
        i64::MIN <= u.wall_ms <= i64::MAX,
        !plain('%' as u8),
        !plain('&' as u8),
        forall|c: u8| #[trigger] plain(c) ==> c < 128,
    ensures
        icy::url_document(url_text(base, foreign, u, document, plain)) == document,
        icy::url_says(url_text(base, foreign, u, document, plain), parsed) == Some(
            told(u, document, parsed),
        ),
{
    let pairs = url_pairs(foreign, u, document, plain);
    let query = joined(pairs, '&');
    lemma_query_found(base, query, parsed);

    lemma_url_pairs_lack(foreign, u, document, plain);
    law_split_inverts_join(pairs, '&');
    lemma_url_values(foreign, u, document, plain, 'v');
    lemma_url_values(foreign, u, document, plain, 's');
    lemma_url_values(foreign, u, document, plain, 'p');
    lemma_url_values(foreign, u, document, plain, 't');
    lemma_url_values(foreign, u, document, plain, 'k');
    lemma_url_values(foreign, u, document, plain, 'i');
    lemma_url_values(foreign, u, document, plain, 'd');

    lemma_unsigned_text(PAYLOAD_VERSION as nat, u32::MAX as int);
    lemma_unsigned_text(u.seq as nat, u64::MAX as int);
    lemma_signed_text(u.playhead_ms);
    lemma_signed_text(u.wall_ms);
    codec::law_percent_round_trip(u.kind, plain);
    codec::law_percent_round_trip(u.item_id, plain);
    match document {
        Some(d) => {
            let t = codec::base64url_text(d);
            codec::lemma_base64url_text_is_plain(d);
            codec::lemma_ascii_text(t);
            codec::law_base64url_round_trip(d, Seq::empty());
            assert(t + Seq::<u8>::empty() =~= t);
        },
        None => {},
    }
}

/// A whole block is read back as a station wrote it: its title, and the
/// position behind it.
pub proof fn law_blocks_read_back(
    title: Seq<char>,
    base: Seq<char>,
    foreign: Seq<Seq<char>>,
    u: icy::UrlView,
    document: Option<Seq<u8>>,
    plain: spec_fn(u8) -> bool,
    tail: Seq<char>,
    parsed: Option<Payload>,
)
    requires
        text::trimmed(title) == title,
        ends_first_at(title, URL_TAG@),
        ends_first_at(url_text(base, foreign, u, document, plain), TERM@),
        lacks(base, '?'),
        forall|i: int| 0 <= i < foreign.len() ==> lacks(#[trigger] foreign[i], '&'),
        document is None ==> icy::last_value(foreign, 'd') is None,
        0 <= u.seq <= u64::MAX,
        i64::MIN <= u.playhead_ms <= i64::MAX,
        i64::MIN <= u.wall_ms <= i64::MAX,
        !plain('%' as u8),
        !plain('&' as u8),
        forall|c: u8| #[trigger] plain(c) ==> c < 128,
    ensures
        ({
            let raw = full_block(title, url_text(base, foreign, u, document, plain), tail);
            &&& icy::block_document(raw) == document
            &&& icy::block_says(raw, parsed) == Some(
                icy::BlockView { title, url: Some(told(u, document, parsed)) },
            )
        }),
{
    law_full_blocks_read_back(title, url_text(base, foreign, u, document, plain), tail);
    law_urls_read_back(base, foreign, u, document, plain, parsed);
}

/// Whether a key is one that is looked for.
pub open spec fn known(key: char) -> bool {
    key == 'v' || key == 's' || key == 'p' || key == 't' || key == 'k' || key == 'i' || key == 'd'
}

/// Whether a pair has a key.
pub open spec fn keyed(pair: Seq<char>, key: char) -> bool {
    icy::key_value(pair).0 == seq![key]
}

/// Whether a query can be made of these pairs, without any known key twice.
pub open spec fn unambiguous(pairs: Seq<Seq<char>>) -> bool {
    &&& forall|i: int| 0 <= i < pairs.len() ==> lacks(#[trigger] pairs[i], '&')
    &&& forall|i: int, j: int, key: char|
        0 <= i < j < pairs.len() && known(key) && #[trigger] keyed(pairs[i], key)
            ==> !#[trigger] keyed(pairs[j], key)
}

/// Whether each pair with a known key that is among some is among others too.
pub open spec fn carried_over(pairs: Seq<Seq<char>>, others: Seq<Seq<char>>) -> bool {
    forall|i: int, key: char|
        0 <= i < pairs.len() && known(key) && #[trigger] keyed(pairs[i], key) ==> others.contains(
            pairs[i],
        )
}

/// The value of a key is that of a pair with this key; there is none where no
/// pair has it.
proof fn lemma_last_value(pairs: Seq<Seq<char>>, key: char)
    ensures
        match icy::last_value(pairs, key) {
            Some(v) => exists|i: int|
                0 <= i < pairs.len() && #[trigger] keyed(pairs[i], key) && icy::key_value(
                    pairs[i],
                ).1 == v,
            None => forall|i: int| 0 <= i < pairs.len() ==> !#[trigger] keyed(pairs[i], key),
        },
    decreases pairs.len(),
{
    if pairs.len() > 0 {
        let n = pairs.len() - 1;
        let rest = pairs.drop_last();
        lemma_last_value(rest, key);
        if keyed(pairs[n], key) {
        } else {
            match icy::last_value(rest, key) {
                Some(v) => {
                    let i = choose|i: int|
                        0 <= i < rest.len() && #[trigger] keyed(rest[i], key) && icy::key_value(
                            rest[i],
                        ).1 == v;
                    assert(keyed(pairs[i], key));
                },
                None => {
                    assert forall|i: int| 0 <= i < pairs.len() implies !#[trigger] keyed(
                        pairs[i],
                        key,
                    ) by {
                        if i < n {
                            assert(!keyed(rest[i], key));
                        }
                    }
                },
            }
        }
    }
}

/// A known key has the same value wherever its pair stands.
proof fn lemma_same_value(pairs: Seq<Seq<char>>, others: Seq<Seq<char>>, key: char)
    requires
        known(key),
        unambiguous(others),
        carried_over(pairs, others),
        carried_over(others, pairs),
    ensures
        icy::last_value(pairs, key) == icy::last_value(others, key),
{
    lemma_last_value(pairs, key);
    lemma_last_value(others, key);
    match icy::last_value(pairs, key) {
        Some(v) => {
            let i = choose|i: int|
                0 <= i < pairs.len() && #[trigger] keyed(pairs[i], key) && icy::key_value(
                    pairs[i],
                ).1 == v;
            let k = choose|k: int| 0 <= k < others.len() && others[k] == pairs[i];
            assert(keyed(others[k], key));
            let w = icy::last_value(others, key)->0;
            let j = choose|j: int|
                0 <= j < others.len() && #[trigger] keyed(others[j], key) && icy::key_value(
                    others[j],
                ).1 == w;
            if j < k {
                assert(!keyed(others[k], key));
            } else if k < j {
                assert(!keyed(others[j], key));
            }
        },
        None => {
            if icy::last_value(others, key) is Some {
                let j = choose|j: int| 0 <= j < others.len() && #[trigger] keyed(others[j], key);
                let k = choose|k: int| 0 <= k < pairs.len() && pairs[k] == others[j];
                assert(keyed(pairs[k], key));
            }
        },
    }
}

/// Splitting a query gives each known key the value that it has among the
/// pairs, of which there may be none.
proof fn lemma_query_values(pairs: Seq<Seq<char>>, key: char)
    requires
        known(key),
        forall|i: int| 0 <= i < pairs.len() ==> lacks(#[trigger] pairs[i], '&'),
    ensures
        icy::last_value(text::split(joined(pairs, '&'), '&'), key) == icy::last_value(pairs, key),
{
    if pairs.len() > 0 {
        law_split_inverts_join(pairs, '&');
    } else {
        let nothing = Seq::<char>::empty();
        text::lemma_find_char_none(nothing, '&');
        text::lemma_find_char_none(nothing, '=');
        let parts = text::split(nothing, '&');
        assert(parts =~= seq![nothing]);
        assert(icy::key_value(nothing).0.len() == 0);
        assert(seq![key].len() == 1);
        assert(parts.drop_last() =~= pairs);
    }
}

/// The order of the pairs in a query does not matter, nor do pairs with keys
/// that are not looked for, wherever they stand.
pub proof fn law_order_and_foreign_pairs_do_not_matter(
    base: Seq<char>,
    pairs: Seq<Seq<char>>,
    other_base: Seq<char>,
    others: Seq<Seq<char>>,
    parsed: Option<Payload>,
)
    requires
        lacks(base, '?'),
        lacks(other_base, '?'),
        unambiguous(pairs),
        unambiguous(others),
        carried_over(pairs, others),
        carried_over(others, pairs),
    ensures
        icy::url_says(base + seq!['?'] + joined(pairs, '&'), parsed) == icy::url_says(
            other_base + seq!['?'] + joined(others, '&'),
            parsed,
        ),
        icy::url_document(base + seq!['?'] + joined(pairs, '&')) == icy::url_document(
            other_base + seq!['?'] + joined(others, '&'),
        ),
{
    lemma_query_found(base, joined(pairs, '&'), parsed);
    lemma_query_found(other_base, joined(others, '&'), parsed);
    assert forall|key: char| known(key) implies icy::last_value(
        text::split(joined(pairs, '&'), '&'),
        key,
    ) == #[trigger] icy::last_value(text::split(joined(others, '&'), '&'), key) by {
        lemma_query_values(pairs, key);
        lemma_query_values(others, key);
        lemma_same_value(pairs, others, key);
    }
}

/// The query begins behind the first `?`.
proof fn lemma_query_found(base: Seq<char>, query: Seq<char>, parsed: Option<Payload>)
    requires
        lacks(base, '?'),
    ensures
        icy::url_says(base + seq!['?'] + query, parsed) == icy::query_says(query, parsed),
        icy::url_document(base + seq!['?'] + query) == icy::query_document(query),
{
    let url = base + seq!['?'] + query;
    let n = base.len() as int;
    assert forall|j: int| 0 <= j < n implies url[j] != '?' by {
        assert(url[j] == base[j]);
    }
    text::lemma_find_char_is(url, '?', n);
    assert(url.skip(n + 1) =~= query);
}

/// A URL of another version, or of none, is ignored outright: a later version
/// may reuse keys with other meanings.
pub proof fn law_other_versions_are_ignored(
    base: Seq<char>,
    query: Seq<char>,
    parsed: Option<Payload>,
)
    requires
        lacks(base, '?'),
        icy::version_of(icy::last_value(text::split(query, '&'), 'v')) != Some(
            PAYLOAD_VERSION as int,
        ),
    ensures
        icy::url_says(base + seq!['?'] + query, parsed) is None,
{
    lemma_query_found(base, query, parsed);
}

/// A URL without a query is ignored.
pub proof fn law_urls_without_a_query_are_ignored(url: Seq<char>, parsed: Option<Payload>)
    requires
        lacks(url, '?'),
    ensures
        icy::url_says(url, parsed) is None,
{
    text::lemma_find_char_none(url, '?');
}

} // verus!
