//! Laws of finding, splitting and trimming text, and of numbers in it.

use crate::icy_laws;
use crate::number;
use crate::number::{parse_i64, parse_u32, parse_u64, parse_usize};
use crate::text;
use crate::text::{
    after, chars, cut, part, pieces, position, trim, trim_end_matches, trim_start_matches, until,
    whitespace,
};
use vstd::prelude::*;

verus! {

/// Whether `needle` stands in `hay` at a place, character by character.
pub open spec fn stands_at(hay: Seq<char>, needle: Seq<char>, at: int) -> bool {
    &&& 0 <= at
    &&& at + needle.len() <= hay.len()
    &&& forall|k: int| 0 <= k < needle.len() ==> #[trigger] needle[k] == hay[at + k]
}

/// To stand somewhere is to occur there.
pub proof fn lemma_stands_at(hay: Seq<char>, needle: Seq<char>, at: int)
    ensures
        stands_at(hay, needle, at) <==> text::occurs_at(hay, needle, at),
{
    if 0 <= at && at + needle.len() <= hay.len() {
        let w = hay.subrange(at, at + needle.len());
        if stands_at(hay, needle, at) {
            assert(w =~= needle);
        }
        if w == needle {
            assert forall|k: int| 0 <= k < needle.len() implies #[trigger] needle[k] == hay[at
                + k] by {
                assert(w[k] == hay[at + k]);
            }
        }
    }
}

/// The first occurrence is found, and one is found wherever there is one.
pub proof fn law_the_first_occurrence_is_found(
    hay: &str,
    needle: &str,
    at: Option<usize>,
    i: int,
)
    requires
        call_ensures(position, (hay, needle), at),
    ensures
        at is Some ==> stands_at(hay@, needle@, at->0 as int),
        stands_at(hay@, needle@, i) ==> at is Some && at->0 <= i,
{
    text::lemma_find_from(hay@, needle@, 0);
    lemma_stands_at(hay@, needle@, i);
    if at is Some {
        lemma_stands_at(hay@, needle@, at->0 as int);
    }
}

/// Characters and parts of a text are what stands there.
pub proof fn law_parts_of_a_text(
    s: &str,
    v: Vec<char>,
    from: usize,
    to: usize,
    middle: &str,
    tail: &str,
)
    requires
        call_ensures(chars, (s,), v),
        call_ensures(part, (s, from, to), middle),
        call_ensures(after, (s, from), tail),
        from <= to <= s@.len(),
    ensures
        v@ == s@,
        middle@.len() == to - from,
        forall|k: int| 0 <= k < to - from ==> #[trigger] middle@[k] == s@[from + k],
        tail@.len() == s@.len() - from,
        forall|k: int| 0 <= k < s@.len() - from ==> #[trigger] tail@[k] == s@[from + k],
{
}

/// What stands before an end mark does not contain it; without one it is all
/// of the text.
pub proof fn law_the_end_mark_ends(s: &str, end: &str, r: &str, i: int)
    requires
        call_ensures(until, (s, end), r),
        end@.len() > 0,
    ensures
        r@ == s@.take(r@.len() as int),
        r@.len() == s@.len() || stands_at(s@, end@, r@.len() as int),
        stands_at(s@, end@, i) ==> r@.len() <= i,
{
    text::lemma_find_from(s@, end@, 0);
    lemma_stands_at(s@, end@, i);
    lemma_stands_at(s@, end@, r@.len() as int);
    if text::find(s@, end@) is None {
        assert(s@.take(s@.len() as int) =~= s@);
    }
}

/// A text is cut at the first separator, which goes; without one it is not
/// cut.
pub proof fn law_cutting(s: &str, sep: char, r: Option<(&str, &str)>)
    requires
        call_ensures(cut, (s, sep), r),
    ensures
        r is None <==> icy_laws::lacks(s@, sep),
        r matches Some((a, b)) ==> s@ == a@ + seq![sep] + b@ && icy_laws::lacks(a@, sep),
{
    text::lemma_find_char(s@, sep);
    if let Some((a, b)) = r {
        assert(s@ =~= a@ + seq![sep] + b@);
    }
}

/// The pieces are without separators, and joined again they are the text.
pub proof fn law_pieces_join_again(s: &str, sep: char, r: Vec<&str>, parts: Seq<Seq<char>>)
    requires
        call_ensures(pieces, (s, sep), r),
        parts.len() == r@.len(),
        forall|i: int| 0 <= i < r@.len() ==> #[trigger] parts[i] == r@[i]@,
    ensures
        parts.len() > 0,
        icy_laws::joined(parts, sep) == s@,
        forall|i: int| 0 <= i < parts.len() ==> icy_laws::lacks(#[trigger] parts[i], sep),
{
    let all = text::split(s@, sep);
    assert forall|i: int| 0 <= i < all.len() implies #[trigger] parts[i] == all[i] by {
        assert(r@[i]@ == all[i]);
    }
    assert(parts =~= all);
    lemma_split_joins(s@, sep);
}

/// Joining what was split gives back the text.
proof fn lemma_split_joins(s: Seq<char>, sep: char)
    ensures
        text::split(s, sep).len() > 0,
        icy_laws::joined(text::split(s, sep), sep) == s,
        forall|i: int|
            0 <= i < text::split(s, sep).len() ==> icy_laws::lacks(
                #[trigger] text::split(s, sep)[i],
                sep,
            ),
    decreases s.len(),
{
    text::lemma_find_char(s, sep);
    let all = text::split(s, sep);
    match text::find(s, seq![sep]) {
        Some(i) => {
            let rest = s.skip(i + 1);
            let tail = text::split(rest, sep);
            lemma_split_joins(rest, sep);
            assert(all =~= seq![s.take(i)] + tail);
            assert(all.skip(1) =~= tail);
            assert(icy_laws::joined(all, sep) =~= s.take(i) + seq![sep] + rest);
            assert(s =~= s.take(i) + seq![sep] + rest);
            assert forall|k: int| 0 <= k < all.len() implies icy_laws::lacks(
                #[trigger] all[k],
                sep,
            ) by {
                if k > 0 {
                    assert(all[k] == tail[k - 1]);
                }
            }
        },
        None => {
            assert(all =~= seq![s]);
        },
    }
}

/// Whether every character is dropped.
pub open spec fn all_are(s: Seq<char>, drop: spec_fn(char) -> bool) -> bool {
    forall|i: int| 0 <= i < s.len() ==> drop(#[trigger] s[i])
}

/// Stripping the start drops all that is to be dropped there, and no more.
proof fn lemma_strip_start(s: Seq<char>, drop: spec_fn(char) -> bool)
    ensures
        text::strip_start(s, drop).len() <= s.len(),
        s.skip(s.len() - text::strip_start(s, drop).len()) == text::strip_start(s, drop),
        all_are(s.take(s.len() - text::strip_start(s, drop).len()), drop),
        text::strip_start(s, drop).len() > 0 ==> !drop(text::strip_start(s, drop)[0]),
    decreases s.len(),
{
    let r = text::strip_start(s, drop);
    if s.len() > 0 && drop(s[0]) {
        let t = s.skip(1);
        lemma_strip_start(t, drop);
        let n = t.len() - r.len();
        assert(s.skip(n + 1) =~= t.skip(n));
        assert forall|i: int| 0 <= i < n + 1 implies drop(#[trigger] s.take(n + 1)[i]) by {
            if i > 0 {
                assert(s.take(n + 1)[i] == t.take(n)[i - 1]);
            }
        }
    } else {
        assert(s.skip(0) =~= s);
    }
}

/// Stripping the end drops all that is to be dropped there, and no more.
proof fn lemma_strip_end(s: Seq<char>, drop: spec_fn(char) -> bool)
    ensures
        text::strip_end(s, drop).len() <= s.len(),
        s.take(text::strip_end(s, drop).len() as int) == text::strip_end(s, drop),
        all_are(s.skip(text::strip_end(s, drop).len() as int), drop),
        text::strip_end(s, drop).len() > 0 ==> !drop(text::strip_end(s, drop).last()),
    decreases s.len(),
{
    let r = text::strip_end(s, drop);
    if s.len() > 0 && drop(s.last()) {
        let t = s.drop_last();
        lemma_strip_end(t, drop);
        let n = r.len() as int;
        assert(s.take(n) =~= t.take(n));
        assert forall|i: int| 0 <= i < s.len() - n implies drop(#[trigger] s.skip(n)[i]) by {
            if i < t.len() - n {
                assert(s.skip(n)[i] == t.skip(n)[i]);
            }
        }
    } else {
        assert(s.take(s.len() as int) =~= s);
    }
}

/// Whether a character is white space.
pub open spec fn blank(c: char) -> bool {
    let n = c as int;
    ||| 9 <= n <= 13
    ||| n == 32
    ||| n == 133
    ||| n == 160
    ||| n == 5_760
    ||| 8_192 <= n <= 8_202
    ||| n == 8_232
    ||| n == 8_233
    ||| n == 8_239
    ||| n == 8_287
    ||| n == 12_288
}

/// White space is known as such.
pub proof fn law_white_space(c: char, b: bool)
    requires
        call_ensures(whitespace, (c,), b),
    ensures
        b <==> blank(c),
{
}

/// Trimming drops the white space at both ends and nothing else: in front of
/// what is left there was only white space, and behind it too, and at neither
/// end is any now.
pub proof fn law_trimming_drops_white_space(s: &str, r: &str)
    requires
        call_ensures(trim, (s,), r),
    ensures
        trims_to(s@, r@),
{
    lemma_trims_to(s@);
}

/// Whether `r` stands in `s` with only white space in front of it, so many
/// characters, and only white space behind it.
pub open spec fn stands_alone(s: Seq<char>, r: Seq<char>, n: int) -> bool {
    &&& 0 <= n
    &&& n + r.len() <= s.len()
    &&& s.subrange(n, n + r.len()) == r
    &&& forall|i: int| 0 <= i < n ==> blank(#[trigger] s[i])
    &&& forall|i: int| n + r.len() <= i < s.len() ==> blank(#[trigger] s[i])
}

/// Whether `r` is `s` without the white space at its ends.
pub open spec fn trims_to(s: Seq<char>, r: Seq<char>) -> bool {
    &&& exists|n: int| stands_alone(s, r, n)
    &&& r.len() > 0 ==> !blank(r[0]) && !blank(r.last())
}

/// A trimmed text is one without white space at its ends.
pub proof fn lemma_trims_to(s: Seq<char>)
    ensures
        trims_to(s, text::trimmed(s)),
{
    let drop = text::spaces();
    let front = text::strip_start(s, drop);
    let r = text::trimmed(s);
    lemma_strip_start(s, drop);
    lemma_strip_end(front, drop);
    let n = s.len() - front.len();
    assert(front == s.skip(n));
    assert(s.subrange(n, n + r.len()) =~= front.take(r.len() as int));
    assert forall|i: int| 0 <= i < n implies blank(#[trigger] s[i]) by {
        assert(drop(s.take(n)[i]));
    }
    assert forall|i: int| n + r.len() <= i < s.len() implies blank(#[trigger] s[i]) by {
        assert(drop(front.skip(r.len() as int)[i - n - r.len()]));
    }
    assert(stands_alone(s, r, n));
    if r.len() > 0 {
        assert(r[0] == front[0]);
        assert(!drop(front[0]));
        assert(!drop(r.last()));
    }
}

/// Where there is no white space at the ends, nothing is trimmed.
pub proof fn lemma_nothing_to_trim(s: Seq<char>)
    requires
        s.len() > 0,
        !blank(s[0]),
        !blank(s.last()),
    ensures
        text::trimmed(s) == s,
{
    let drop = text::spaces();
    assert(!drop(s[0]));
    assert(!drop(s.last()));
}

/// A character is dropped from the start, or from the end, as often as it
/// stands there.
pub proof fn law_trimming_drops_a_character(s: &str, c: char, front: &str, back: &str)
    requires
        call_ensures(trim_start_matches, (s, c), front),
        call_ensures(trim_end_matches, (s, c), back),
    ensures
        front@.len() <= s@.len(),
        s@.skip(s@.len() - front@.len()) == front@,
        forall|i: int| 0 <= i < s@.len() - front@.len() ==> #[trigger] s@[i] == c,
        front@.len() > 0 ==> front@[0] != c,
        back@.len() <= s@.len(),
        s@.take(back@.len() as int) == back@,
        forall|i: int| back@.len() <= i < s@.len() ==> #[trigger] s@[i] == c,
        back@.len() > 0 ==> back@.last() != c,
{
    let drop = text::just(c);
    lemma_strip_start(s@, drop);
    lemma_strip_end(s@, drop);
    let n = s@.len() - front@.len();
    assert forall|i: int| 0 <= i < n implies #[trigger] s@[i] == c by {
        assert(drop(s@.take(n)[i]));
    }
    assert forall|i: int| back@.len() <= i < s@.len() implies #[trigger] s@[i] == c by {
        assert(drop(s@.skip(back@.len() as int)[i - back@.len()]));
    }
}

/// A number that was written down is read back, within its limits.
pub proof fn law_numbers_read_back(
    s: &str,
    n: int,
    small: Option<u32>,
    size: Option<usize>,
    large: Option<u64>,
    signed: Option<i64>,
)
    requires
        call_ensures(parse_u32, (s,), small),
        call_ensures(parse_usize, (s,), size),
        call_ensures(parse_u64, (s,), large),
        call_ensures(parse_i64, (s,), signed),
        s@ == icy_laws::signed_text(n),
    ensures
        0 <= n <= u32::MAX ==> small is Some && small->0 == n,
        n < 0 || n > u32::MAX ==> small is None,
        0 <= n <= usize::MAX ==> size is Some && size->0 == n,
        n < 0 || n > usize::MAX ==> size is None,
        0 <= n <= u64::MAX ==> large is Some && large->0 == n,
        n < 0 || n > u64::MAX ==> large is None,
        i64::MIN <= n <= i64::MAX ==> signed is Some && signed->0 == n,
        n < i64::MIN || n > i64::MAX ==> signed is None,
{
    if n < 0 {
        let digits = icy_laws::decimal_text((-n) as nat);
        icy_laws::lemma_decimal_text((-n) as nat);
        assert(s@.skip(1) =~= digits);
        assert(s@[0] == '-');
        assert(!number::is_digit(s@[0]));
    } else {
        icy_laws::lemma_decimal_text(n as nat);
        assert(number::is_digit(s@[0]));
    }
}

/// A plus sign before a number changes nothing.
pub proof fn law_plus_signs_are_passed_over(
    s: &str,
    n: int,
    small: Option<u32>,
    size: Option<usize>,
    large: Option<u64>,
    signed: Option<i64>,
)
    requires
        call_ensures(parse_u32, (s,), small),
        call_ensures(parse_usize, (s,), size),
        call_ensures(parse_u64, (s,), large),
        call_ensures(parse_i64, (s,), signed),
        n >= 0,
        s@ == seq!['+'] + icy_laws::decimal_text(n as nat),
    ensures
        n <= u32::MAX ==> small is Some && small->0 == n,
        n <= usize::MAX ==> size is Some && size->0 == n,
        n <= u64::MAX ==> large is Some && large->0 == n,
        n <= i64::MAX ==> signed is Some && signed->0 == n,
{
    icy_laws::lemma_decimal_text(n as nat);
    assert(s@.skip(1) =~= icy_laws::decimal_text(n as nat));
    assert(s@[0] == '+');
}

/// What is no number is not read as one.
pub proof fn law_other_texts_are_no_numbers(
    s: &str,
    i: int,
    small: Option<u32>,
    size: Option<usize>,
    large: Option<u64>,
    signed: Option<i64>,
)
    requires
        call_ensures(parse_u32, (s,), small),
        call_ensures(parse_usize, (s,), size),
        call_ensures(parse_u64, (s,), large),
        call_ensures(parse_i64, (s,), signed),
        s@.len() == 0 || 0 <= i < s@.len() && !('0' <= s@[i] <= '9') && (i > 0 || s@.len() == 1
            || s@[0] != '+' && s@[0] != '-'),
    ensures
        small is None,
        size is None,
        large is None,
        signed is None,
{
    if s@.len() > 0 {
        let t = s@.skip(1);
        if i > 0 {
            assert(t[i - 1] == s@[i]);
            assert(!number::is_digit(t[i - 1]));
        }
        assert(!number::is_digit(s@[i]));
        assert(!number::all_digits(s@));
        assert(s@[0] == '+' || s@[0] == '-' ==> !number::all_digits(t));
    }
}

} // verus!
