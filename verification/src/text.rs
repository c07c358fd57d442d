//! Text primitives: searching, splitting and trimming.
//!
//! A text is modelled as the sequence of its characters.

use vstd::prelude::*;

verus! {

/// Whether `needle` stands in `hay` at character `at`.
pub open spec fn occurs_at(hay: Seq<char>, needle: Seq<char>, at: int) -> bool {
    &&& 0 <= at
    &&& at + needle.len() <= hay.len()
    &&& hay.subrange(at, at + needle.len()) == needle
}

/// The first position of `needle` in `hay`, at or after `from`.
pub open spec fn find_from(hay: Seq<char>, needle: Seq<char>, from: int) -> Option<int>
    decreases hay.len() + 1 - from,
{
    if from < 0 || from + needle.len() > hay.len() {
        None
    } else if occurs_at(hay, needle, from) {
        Some(from)
    } else {
        find_from(hay, needle, from + 1)
    }
}

/// The first position of `needle` in `hay`.
pub open spec fn find(hay: Seq<char>, needle: Seq<char>) -> Option<int> {
    find_from(hay, needle, 0)
}

/// `s` up to the first `end`, or the whole of it.
pub open spec fn before(s: Seq<char>, end: Seq<char>) -> Seq<char> {
    match find(s, end) {
        Some(i) => s.take(i),
        None => s,
    }
}

/// The two sides of the first `sep` in `s`.
pub open spec fn split_once(s: Seq<char>, sep: char) -> Option<(Seq<char>, Seq<char>)> {
    match find(s, seq![sep]) {
        Some(i) => Some((s.take(i), s.skip(i + 1))),
        None => None,
    }
}

/// The parts of `s` between its separators.
pub open spec fn split(s: Seq<char>, sep: char) -> Seq<Seq<char>>
    decreases s.len(),
{
    match find(s, seq![sep]) {
        Some(i) => if 0 <= i < s.len() {
            seq![s.take(i)] + split(s.skip(i + 1), sep)
        } else {
            seq![s]
        },
        None => seq![s],
    }
}

/// `find_from` gives the least position at which the needle stands, or none
/// when there is no such position.
pub proof fn lemma_find_from(hay: Seq<char>, needle: Seq<char>, from: int)
    requires
        0 <= from,
    ensures
        match find_from(hay, needle, from) {
            Some(i) => {
                &&& from <= i
                &&& occurs_at(hay, needle, i)
                &&& forall|j: int| from <= j < i ==> !occurs_at(hay, needle, j)
            },
            None => forall|j: int| from <= j ==> !occurs_at(hay, needle, j),
        },
    decreases hay.len() + 1 - from,
{
    if from + needle.len() <= hay.len() && !occurs_at(hay, needle, from) {
        lemma_find_from(hay, needle, from + 1);
    }
}

/// A least occurrence is what `find_from` returns.
pub proof fn lemma_find_from_is(hay: Seq<char>, needle: Seq<char>, from: int, at: int)
    requires
        0 <= from <= at,
        occurs_at(hay, needle, at),
        forall|j: int| from <= j < at ==> !occurs_at(hay, needle, j),
    ensures
        find_from(hay, needle, from) == Some(at),
    decreases at - from,
{
    if from < at {
        lemma_find_from_is(hay, needle, from + 1, at);
    }
}

/// The characters of `s`.
pub fn chars(s: &str) -> (v: Vec<char>)
    ensures
        v@ == s@,
{
    let mut v: Vec<char> = Vec::new();
    for c in it: s.chars()
        invariant
            it.seq() == s@,
            v@ == s@.take(it.index() as int),
    {
        v.push(c);
    }
    v
}

/// Whether `needle` stands in `hay` at `at`.
fn matches_at(hay: &Vec<char>, needle: &Vec<char>, at: usize) -> (b: bool)
    requires
        at + needle.len() <= hay.len(),
    ensures
        b == occurs_at(hay@, needle@, at as int),
{
    let mut k: usize = 0;
    while k < needle.len()
        invariant
            k <= needle.len(),
            at + needle.len() <= hay.len(),
            forall|j: int| 0 <= j < k ==> hay[at + j] == needle[j],
        decreases needle.len() - k,
    {
        if hay[at + k] != needle[k] {
            proof {
                let w = hay@.subrange(at as int, at + needle@.len());
                assert(w[k as int] != needle@[k as int]);
            }
            return false;
        }
        k += 1;
    }
    assert(hay@.subrange(at as int, at + needle@.len()) =~= needle@);
    true
}

/// Position, in characters, of the first `needle` in `hay`.
pub fn position(hay: &str, needle: &str) -> (at: Option<usize>)
    ensures
        match at {
            Some(i) => {
                &&& find(hay@, needle@) == Some(i as int)
                &&& i + needle@.len() <= hay@.len() <= usize::MAX
            },
            None => find(hay@, needle@) is None,
        },
{
    let h = chars(hay);
    let n = chars(needle);
    if n.len() > h.len() {
        return None;
    }
    let last: usize = h.len() - n.len();
    let mut i: usize = 0;
    while i <= last
        invariant
            i <= last + 1,
            last + n.len() == h.len(),
            h@ == hay@,
            n@ == needle@,
            find(hay@, needle@) == find_from(hay@, needle@, i as int),
        decreases last + 1 - i,
    {
        if matches_at(&h, &n, i) {
            return Some(i);
        }
        if i == last {
            assert(find_from(hay@, needle@, i + 1) is None);
            return None;
        }
        i += 1;
    }
    None
}

/// The part of `s` from character `from` to character `to`.
pub fn part<'a>(s: &'a str, from: usize, to: usize) -> (r: &'a str)
    requires
        from <= to <= s@.len(),
    ensures
        r@ == s@.subrange(from as int, to as int),
{
    s.substring_char(from, to)
}

/// `s` from character `from` on.
pub fn after<'a>(s: &'a str, from: usize) -> (r: &'a str)
    requires
        from <= s@.len(),
    ensures
        r@ == s@.skip(from as int),
{
    let n = s.unicode_len();
    s.substring_char(from, n)
}

/// `s` up to the first `end`, or the whole of it.
pub fn until<'a>(s: &'a str, end: &str) -> (r: &'a str)
    ensures
        r@ == before(s@, end@),
{
    match position(s, end) {
        Some(i) => s.substring_char(0, i),
        None => s,
    }
}

/// Position of the first `c` in `s` at or after `from`.
fn char_position(s: &Vec<char>, c: char, from: usize) -> (at: Option<usize>)
    requires
        from <= s.len(),
    ensures
        match at {
            Some(i) => {
                &&& from <= i < s.len()
                &&& s[i as int] == c
                &&& forall|j: int| from <= j < i ==> s[j] != c
            },
            None => forall|j: int| from <= j < s.len() ==> s[j] != c,
        },
{
    let mut i: usize = from;
    while i < s.len()
        invariant
            from <= i <= s.len(),
            forall|j: int| from <= j < i ==> s[j] != c,
        decreases s.len() - i,
    {
        if s[i] == c {
            return Some(i);
        }
        i += 1;
    }
    None
}

/// A single character occurs exactly where it stands.
proof fn lemma_occurs_char(s: Seq<char>, c: char)
    ensures
        forall|i: int|
            #![trigger occurs_at(s, seq![c], i)]
            occurs_at(s, seq![c], i) <==> (0 <= i < s.len() && s[i] == c),
{
    assert forall|i: int|
        #![trigger occurs_at(s, seq![c], i)]
        occurs_at(s, seq![c], i) <==> (0 <= i < s.len() && s[i] == c) by {
        if 0 <= i < s.len() {
            let w = s.subrange(i, i + 1);
            if s[i] == c {
                assert(w =~= seq![c]);
            } else {
                assert(w[0] != seq![c][0]);
            }
        }
    }
}

/// Finding a single character: the first place where it stands.
pub proof fn lemma_find_char(s: Seq<char>, c: char)
    ensures
        match find(s, seq![c]) {
            Some(i) => {
                &&& 0 <= i < s.len()
                &&& s[i] == c
                &&& forall|j: int| 0 <= j < i ==> s[j] != c
            },
            None => forall|j: int| 0 <= j < s.len() ==> s[j] != c,
        },
{
    lemma_occurs_char(s, c);
    lemma_find_from(s, seq![c], 0);
    if find(s, seq![c]) is None {
        assert forall|j: int| 0 <= j < s.len() implies s[j] != c by {
            assert(!occurs_at(s, seq![c], j));
        }
    } else {
        let i = find(s, seq![c])->0;
        assert forall|j: int| 0 <= j < i implies s[j] != c by {
            assert(!occurs_at(s, seq![c], j));
        }
    }
}

/// A first occurrence of a character is where `find` finds it.
pub proof fn lemma_find_char_is(s: Seq<char>, c: char, at: int)
    requires
        0 <= at < s.len(),
        s[at] == c,
        forall|j: int| 0 <= j < at ==> s[j] != c,
    ensures
        find(s, seq![c]) == Some(at),
{
    lemma_occurs_char(s, c);
    assert(occurs_at(s, seq![c], at));
    lemma_find_from_is(s, seq![c], 0, at);
}

/// A text without the character: `find` finds nothing.
pub proof fn lemma_find_char_none(s: Seq<char>, c: char)
    requires
        forall|j: int| 0 <= j < s.len() ==> s[j] != c,
    ensures
        find(s, seq![c]) is None,
{
    lemma_find_char(s, c);
}

/// The two sides of the first `sep` in `s`.
pub fn cut<'a>(s: &'a str, sep: char) -> (r: Option<(&'a str, &'a str)>)
    ensures
        match r {
            Some((a, b)) => split_once(s@, sep) == Some((a@, b@)),
            None => split_once(s@, sep) is None,
        },
{
    let v = chars(s);
    match char_position(&v, sep, 0) {
        Some(i) => {
            proof {
                lemma_find_char_is(s@, sep, i as int);
                assert(s@.subrange(0, i as int) =~= s@.take(i as int));
            }
            Some((part(s, 0, i), after(s, i + 1)))
        },
        None => {
            proof {
                lemma_find_char_none(s@, sep);
            }
            None
        },
    }
}

/// The parts of `s` between its separators.
pub fn pieces<'a>(s: &'a str, sep: char) -> (r: Vec<&'a str>)
    ensures
        r@.len() == split(s@, sep).len(),
        forall|i: int| 0 <= i < r@.len() ==> (#[trigger] r@[i])@ == split(s@, sep)[i],
{
    let mut out: Vec<&'a str> = Vec::new();
    let mut rest: &'a str = s;
    loop
        invariant
            out@.len() + split(rest@, sep).len() == split(s@, sep).len(),
            forall|i: int| 0 <= i < out@.len() ==> (#[trigger] out@[i])@ == split(s@, sep)[i],
            forall|i: int| 0 <= i < split(rest@, sep).len() ==>
                #[trigger] split(rest@, sep)[i] == split(s@, sep)[out@.len() + i],
        decreases rest@.len(),
    {
        let ghost whole = rest@;
        let ghost n = out@.len() as int;
        match cut(rest, sep) {
            Some((a, b)) => {
                proof {
                    lemma_find_char(whole, sep);
                    let tail = split(b@, sep);
                    assert(split(whole, sep) == seq![a@] + tail);
                    assert(split(whole, sep)[0] == a@);
                    assert forall|i: int| 0 <= i < tail.len() implies
                        #[trigger] tail[i] == split(s@, sep)[n + 1 + i] by {
                        assert(split(whole, sep)[i + 1] == tail[i]);
                    }
                }
                out.push(a);
                rest = b;
            },
            None => {
                proof {
                    lemma_find_char(whole, sep);
                    assert(split(whole, sep) == seq![whole]);
                    assert(split(whole, sep)[0] == whole);
                }
                out.push(rest);
                return out;
            },
        }
    }
}

// ---------------------------------------------------------------------------
// Trimming
// ---------------------------------------------------------------------------

/// The characters with the Unicode property `White_Space`.
pub open spec fn is_space(c: char) -> bool {
    ||| '\u{9}' <= c <= '\u{d}'
    ||| c == ' '
    ||| c == '\u{85}'
    ||| c == '\u{a0}'
    ||| c == '\u{1680}'
    ||| '\u{2000}' <= c <= '\u{200a}'
    ||| c == '\u{2028}'
    ||| c == '\u{2029}'
    ||| c == '\u{202f}'
    ||| c == '\u{205f}'
    ||| c == '\u{3000}'
}

/// `s` without the characters at its start that satisfy `drop`.
pub open spec fn strip_start(s: Seq<char>, drop: spec_fn(char) -> bool) -> Seq<char>
    decreases s.len(),
{
    if s.len() > 0 && drop(s[0]) {
        strip_start(s.skip(1), drop)
    } else {
        s
    }
}

/// `s` without the characters at its end that satisfy `drop`.
pub open spec fn strip_end(s: Seq<char>, drop: spec_fn(char) -> bool) -> Seq<char>
    decreases s.len(),
{
    if s.len() > 0 && drop(s.last()) {
        strip_end(s.drop_last(), drop)
    } else {
        s
    }
}

/// The test for white space.
pub open spec fn spaces() -> spec_fn(char) -> bool {
    |c: char| is_space(c)
}

/// The test for the character `c`.
pub open spec fn just(c: char) -> spec_fn(char) -> bool {
    |x: char| x == c
}

/// `s` without white space at either end.
pub open spec fn trimmed(s: Seq<char>) -> Seq<char> {
    strip_end(strip_start(s, spaces()), spaces())
}

/// `s` without the `c`s at its start.
pub open spec fn without_leading(s: Seq<char>, c: char) -> Seq<char> {
    strip_start(s, just(c))
}

/// `s` without the `c`s at its end.
pub open spec fn without_trailing(s: Seq<char>, c: char) -> Seq<char> {
    strip_end(s, just(c))
}

/// Whether `c` is white space.
pub fn whitespace(c: char) -> (b: bool)
    ensures
        b == is_space(c),
{
    let n = c as u32;
    (0x9 <= n && n <= 0xd) || n == 0x20 || n == 0x85 || n == 0xa0 || n == 0x1680
        || (0x2000 <= n && n <= 0x200a) || n == 0x2028 || n == 0x2029 || n == 0x202f
        || n == 0x205f || n == 0x3000
}

/// `s` without white space at either end.
pub fn trim<'a>(s: &'a str) -> (r: &'a str)
    ensures
        r@ == trimmed(s@),
{
    let v = chars(s);
    let mut from: usize = 0;
    assert(s@.skip(0) =~= s@);
    while from < v.len() && whitespace(v[from])
        invariant
            from <= v.len(),
            v@ == s@,
            strip_start(s@, spaces()) == strip_start(s@.skip(from as int), spaces()),
        decreases v.len() - from,
    {
        assert(s@.skip(from as int).skip(1) =~= s@.skip(from + 1));
        from += 1;
    }
    let ghost front = s@.skip(from as int);
    assert(strip_start(s@, spaces()) == front);
    let mut to: usize = v.len();
    assert(s@.subrange(from as int, to as int) =~= front);
    while from < to && whitespace(v[to - 1])
        invariant
            from <= to <= v.len(),
            v@ == s@,
            strip_end(front, spaces()) == strip_end(s@.subrange(from as int, to as int), spaces()),
        decreases to - from,
    {
        assert(s@.subrange(from as int, to as int).drop_last() =~= s@.subrange(from as int, to - 1));
        to -= 1;
    }
    part(s, from, to)
}

/// `s` without the `c`s at its start.
pub fn trim_start_matches<'a>(s: &'a str, c: char) -> (r: &'a str)
    ensures
        r@ == without_leading(s@, c),
{
    let v = chars(s);
    let mut from: usize = 0;
    assert(s@.skip(0) =~= s@);
    while from < v.len() && v[from] == c
        invariant
            from <= v.len(),
            v@ == s@,
            strip_start(s@, just(c)) == strip_start(s@.skip(from as int), just(c)),
        decreases v.len() - from,
    {
        assert(s@.skip(from as int).skip(1) =~= s@.skip(from + 1));
        from += 1;
    }
    after(s, from)
}

/// `s` without the `c`s at its end.
pub fn trim_end_matches<'a>(s: &'a str, c: char) -> (r: &'a str)
    ensures
        r@ == without_trailing(s@, c),
{
    let v = chars(s);
    let mut to: usize = v.len();
    assert(s@.subrange(0, to as int) =~= s@);
    while 0 < to && v[to - 1] == c
        invariant
            to <= v.len(),
            v@ == s@,
            strip_end(s@, just(c)) == strip_end(s@.subrange(0, to as int), just(c)),
        decreases to,
    {
        assert(s@.subrange(0, to as int).drop_last() =~= s@.subrange(0, to - 1));
        to -= 1;
    }
    part(s, 0, to)
}

} // verus!
