//! Laws of updates: which versions are newer, and what is made of them.

use crate::icy_laws;
use crate::number;
use crate::text;
use crate::text_laws;
use crate::update;
use crate::update::{
    announce, is_newer, on_download_finished, on_installed, open_download_page, open_external,
    published_version, supports_in_app_install, tidy_version, AfterInstall, Install, Launch,
    Platform, Progress, UpdateState, CHECK_INTERVAL_S, DOWNLOAD_PAGE, FIRST_CHECK_DELAY_S,
    HOME_PAGE, LATEST_URL, STATE_EVENT,
};
use vstd::prelude::*;

verus! {

/// Where updates are asked for, and how often: a few seconds after the start,
/// and every four hours from then on.
pub proof fn law_where_and_when_updates_are_asked_for()
    ensures
        LATEST_URL@ == "https://www.ltbr.fm/api/player/latest"@,
        DOWNLOAD_PAGE@ == "https://www.ltbr.fm/player#download"@,
        HOME_PAGE@ == "https://www.ltbr.fm"@,
        STATE_EVENT@ == "update://state"@,
        CHECK_INTERVAL_S == 4 * 60 * 60,
        FIRST_CHECK_DELAY_S == 3,
{
}

// ---------------------------------------------------------------------------
// Versions
// ---------------------------------------------------------------------------

/// Whether a segment of a version counts as a number: it is that number
/// written down, or it has a letter in it and counts as nought.
pub open spec fn counts_as(piece: Seq<char>, n: int) -> bool {
    ||| 0 <= n <= u64::MAX && piece == icy_laws::decimal_text(n as nat)
    ||| n == 0 && exists|k: int| 0 <= k < piece.len() && 'a' <= #[trigger] piece[k] <= 'z'
}

/// Whether a version is written with these segments and counts as these
/// numbers.
pub open spec fn reads_as(version: Seq<char>, pieces: Seq<Seq<char>>, numbers: Seq<int>) -> bool {
    &&& pieces.len() > 0
    &&& pieces.len() == numbers.len()
    &&& version == icy_laws::joined(pieces, '.')
    &&& version.len() > 0 ==> version[0] != 'v'
    &&& forall|i: int|
        0 <= i < pieces.len() ==> icy_laws::lacks(#[trigger] pieces[i], '.') && counts_as(
            pieces[i],
            numbers[i],
        )
}

/// The number of a version at a place; places that are not written are nought.
pub open spec fn number_at(numbers: Seq<int>, i: int) -> int {
    if i < numbers.len() {
        numbers[i]
    } else {
        0
    }
}

/// A version is newer where its first number that differs is larger, number by
/// number, and not text by text: 1.10 is newer than 1.9, and no version is
/// newer than itself.
pub proof fn law_versions_go_by_their_numbers(
    latest: &str,
    current: &str,
    r: bool,
    p: Seq<Seq<char>>,
    a: Seq<int>,
    q: Seq<Seq<char>>,
    b: Seq<int>,
    i: int,
)
    requires
        call_ensures(is_newer, (latest, current), r),
        reads_as(latest@, p, a),
        reads_as(current@, q, b),
        0 <= i,
        forall|j: int| 0 <= j < i ==> #[trigger] number_at(a, j) == number_at(b, j),
    ensures
        number_at(a, i) > number_at(b, i) ==> r,
        number_at(a, i) < number_at(b, i) ==> !r,
        i >= a.len() && i >= b.len() ==> !r,
{
    lemma_reads_as(latest@, p, a);
    lemma_reads_as(current@, q, b);
    assert forall|j: int| 0 <= j implies #[trigger] number_at(a, j) == update::segment(a, j) by {}
    assert forall|j: int| 0 <= j implies #[trigger] number_at(b, j) == update::segment(b, j) by {}
    assert forall|j: int| 0 <= j < i implies #[trigger] update::segment(a, j) == update::segment(
        b,
        j,
    ) by {
        assert(number_at(a, j) == number_at(b, j));
    }
    assert(number_at(a, i) == update::segment(a, i));
    assert(number_at(b, i) == update::segment(b, i));
    if number_at(a, i) > number_at(b, i) {
        assert(update::exceeds_at(a, b, i));
    } else if r {
        let k = choose|k: int| #[trigger] update::exceeds_at(a, b, k);
        if k < i {
            assert(update::segment(a, k) == update::segment(b, k));
        } else if k > i {
            assert(update::segment(a, i) == update::segment(b, i));
        }
    }
}

proof fn lemma_reads_as(version: Seq<char>, pieces: Seq<Seq<char>>, numbers: Seq<int>)
    requires
        reads_as(version, pieces, numbers),
    ensures
        update::release(version) == numbers,
{
    let bare = text::without_leading(version, 'v');
    assert(bare == version);
    icy_laws::law_split_inverts_join(pieces, '.');
    assert(text::split(version, '.') == pieces);
    assert forall|i: int| 0 <= i < pieces.len() implies update::segment_number(
        #[trigger] pieces[i],
    ) == numbers[i] by {
        lemma_counts_as(pieces[i], numbers[i]);
    }
    assert(update::release(version) =~= numbers);
}

proof fn lemma_counts_as(piece: Seq<char>, n: int)
    requires
        counts_as(piece, n),
    ensures
        update::segment_number(piece) == n,
{
    if 0 <= n <= u64::MAX && piece == icy_laws::decimal_text(n as nat) {
        icy_laws::lemma_decimal_text(n as nat);
        assert(number::is_digit(piece[0]));
        assert(number::is_digit(piece[piece.len() - 1]));
        text_laws::lemma_nothing_to_trim(piece);
    } else {
        let k = choose|k: int| 0 <= k < piece.len() && 'a' <= #[trigger] piece[k] <= 'z';
        let t = text::trimmed(piece);
        text_laws::lemma_trims_to(piece);
        let n = choose|n: int| text_laws::stands_alone(piece, t, n);
        assert(!text_laws::blank(piece[k]));
        assert(n <= k < n + t.len());
        assert(t[k - n] == piece[k]);
        assert(!number::is_digit(t[k - n]));
        if t[0] == '+' {
            assert(t.skip(1)[k - n - 1] == piece[k]);
            assert(!number::is_digit(t.skip(1)[k - n - 1]));
        }
    }
}

/// A version is told where it is newer than the one that runs, as it is.
pub proof fn law_newer_versions_are_announced(
    latest: Option<String>,
    current: &str,
    r: Option<String>,
    told: &str,
    newer: bool,
)
    requires
        call_ensures(announce, (latest, current), r),
        latest is Some ==> told@ == latest->0@,
        call_ensures(is_newer, (told, current), newer),
    ensures
        r is Some <==> latest is Some && newer,
        r is Some ==> r == latest,
{
}

/// Whether `version` is `bare` with a `v` or several before it, and white space
/// around.
pub open spec fn dressed(
    version: Seq<char>,
    before: Seq<char>,
    vs: Seq<char>,
    bare: Seq<char>,
    behind: Seq<char>,
) -> bool {
    &&& version == before + (vs + bare) + behind
    &&& forall|i: int| 0 <= i < before.len() ==> text_laws::blank(#[trigger] before[i])
    &&& forall|i: int| 0 <= i < behind.len() ==> text_laws::blank(#[trigger] behind[i])
    &&& forall|i: int| 0 <= i < vs.len() ==> #[trigger] vs[i] == 'v'
    &&& bare.len() > 0
    &&& bare[0] != 'v'
    &&& !text_laws::blank(bare[0])
    &&& !text_laws::blank(bare.last())
}

/// A version is told bare: without the white space around it, and without the
/// `v` before it.
pub proof fn law_versions_are_told_bare(
    version: &str,
    r: String,
    before: Seq<char>,
    vs: Seq<char>,
    bare: Seq<char>,
    behind: Seq<char>,
)
    requires
        call_ensures(tidy_version, (version,), r),
        dressed(version@, before, vs, bare, behind),
    ensures
        r@ == bare,
{
    lemma_undressed(version@, before, vs, bare, behind);
}

/// What the station publishes is told bare too, where it publishes a version.
pub proof fn law_published_versions_are_told_bare(
    body: &str,
    r: Option<String>,
    before: Seq<char>,
    vs: Seq<char>,
    bare: Seq<char>,
    behind: Seq<char>,
)
    requires
        call_ensures(published_version, (body,), r),
    ensures
        ({
            let told = update::json_string(body@, "version"@);
            &&& r is Some <==> told is Some
            &&& told is Some && dressed(told->0, before, vs, bare, behind) ==> r->0@ == bare
        }),
{
    let told = update::json_string(body@, "version"@);
    if told is Some && dressed(told->0, before, vs, bare, behind) {
        lemma_undressed(told->0, before, vs, bare, behind);
    }
}

proof fn lemma_undressed(
    version: Seq<char>,
    before: Seq<char>,
    vs: Seq<char>,
    bare: Seq<char>,
    behind: Seq<char>,
)
    requires
        dressed(version, before, vs, bare, behind),
    ensures
        text::without_leading(text::trimmed(version), 'v') == bare,
{
    let core = vs + bare;
    assert(core.last() == bare.last());
    if vs.len() > 0 {
        assert(core[0] == vs[0]);
    } else {
        assert(core[0] == bare[0]);
    }
    assert(!text_laws::blank(core[0]));
    assert(version =~= before + (core + behind));
    lemma_strip_front(before, core + behind, text::spaces());
    lemma_strip_back(core, behind, text::spaces());
    lemma_strip_front(vs, bare, text::just('v'));
}

proof fn lemma_strip_front(front: Seq<char>, rest: Seq<char>, drop: spec_fn(char) -> bool)
    requires
        forall|i: int| 0 <= i < front.len() ==> drop(#[trigger] front[i]),
        rest.len() > 0,
        !drop(rest[0]),
    ensures
        text::strip_start(front + rest, drop) == rest,
    decreases front.len(),
{
    let s = front + rest;
    if front.len() == 0 {
        assert(s =~= rest);
    } else {
        let less = front.skip(1);
        assert forall|i: int| 0 <= i < less.len() implies drop(#[trigger] less[i]) by {
            assert(less[i] == front[i + 1]);
        }
        assert(drop(front[0]));
        assert(s.skip(1) =~= less + rest);
        lemma_strip_front(less, rest, drop);
    }
}

proof fn lemma_strip_back(rest: Seq<char>, back: Seq<char>, drop: spec_fn(char) -> bool)
    requires
        forall|i: int| 0 <= i < back.len() ==> drop(#[trigger] back[i]),
        rest.len() > 0,
        !drop(rest.last()),
    ensures
        text::strip_end(rest + back, drop) == rest,
    decreases back.len(),
{
    let s = rest + back;
    if back.len() == 0 {
        assert(s =~= rest);
    } else {
        let less = back.drop_last();
        assert forall|i: int| 0 <= i < less.len() implies drop(#[trigger] less[i]) by {
            assert(less[i] == back[i]);
        }
        assert(drop(back[back.len() - 1]));
        assert(s.drop_last() =~= rest + less);
        lemma_strip_back(rest, less, drop);
    }
}

// ---------------------------------------------------------------------------
// Installing
// ---------------------------------------------------------------------------

/// An installation replaces itself unless a package manager owns it, which on
/// Linux all do but the self-contained one.
pub proof fn law_who_installs(linux: bool, appimage: bool, b: bool)
    requires
        call_ensures(supports_in_app_install, (linux, appimage), b),
    ensures
        !linux ==> b,
        linux ==> (b <==> appimage),
{
}

/// Progress is the sum of what was downloaded.
pub proof fn law_progress_adds_up(
    fresh: Progress,
    q: Progress,
    n: u64,
    p: &mut Progress,
    chunk: usize,
    total: Option<u64>,
    s: UpdateState,
)
    requires
        call_ensures(Progress::new, (), fresh),
        call_ensures(Progress::downloaded, (&q,), n),
        call_ensures(Progress::on_chunk, (p, chunk, total), s),
    ensures
        fresh@ == 0,
        n == q@,
        final(p)@ == old(p)@ + chunk,
        s.phase@ == "downloading"@,
        s.downloaded == old(p)@ + chunk,
        s.total == total,
{
}

/// What is shown of an installation: that it goes on, and that it is gone
/// where it failed. One that succeeded restarts.
pub proof fn law_what_follows_an_installation(
    s: UpdateState,
    outcome: Install,
    a: Option<AfterInstall>,
)
    requires
        call_ensures(on_download_finished, (), s),
        call_ensures(on_installed, (outcome,), a),
    ensures
        s.phase@ == "installing"@,
        s.downloaded == 0,
        s.total is None,
        a is None <==> outcome is NothingNewer,
        outcome is Installed ==> a->0 is Restart,
        outcome is Failed ==> a->0 is Show && a->0->0.phase@ == "dismiss"@ && a->0->0.downloaded
            == 0 && a->0->0.total is None,
{
}

// ---------------------------------------------------------------------------
// The browser
// ---------------------------------------------------------------------------

/// Whether a launch opens a page in the browser of a platform: the page is the
/// last argument, and on Windows the title of the window before it is empty.
pub open spec fn opens(l: Launch, platform: Platform, page: Seq<char>) -> bool {
    &&& l.args@.len() > 0
    &&& l.args@.last()@ == page
    &&& platform is Linux ==> l.program@ == "xdg-open"@ && l.args@.len() == 1
    &&& platform is Macos ==> l.program@ == "open"@ && l.args@.len() == 1
    &&& platform is Windows ==> {
        &&& l.program@ == "cmd"@
        &&& l.args@.len() == 4
        &&& l.args@[0]@ == "/C"@
        &&& l.args@[1]@ == "start"@
        &&& l.args@[2]@ == ""@
    }
}

/// Pages open in the browser of the platform.
pub proof fn law_pages_open_in_the_browser(
    platform: Platform,
    url: &str,
    l: Launch,
    download: Launch,
)
    requires
        call_ensures(open_external, (platform, url), l),
        call_ensures(open_download_page, (platform,), download),
    ensures
        opens(l, platform, url@),
        opens(download, platform, "https://www.ltbr.fm/player#download"@),
{
    lemma_opens(l, platform, url@);
    lemma_opens(download, platform, DOWNLOAD_PAGE@);
}

proof fn lemma_opens(l: Launch, platform: Platform, page: Seq<char>)
    requires
        update::words(l) == update::browser_words(platform, page),
    ensures
        opens(l, platform, page),
{
    let said = update::words(l);
    let wanted = update::browser_words(platform, page);
    let args = l.args@.map_values(|a: String| a@);
    assert(said.len() == 1 + l.args@.len());
    assert(said[0] == l.program@);
    assert forall|i: int| 0 <= i < l.args@.len() implies (#[trigger] l.args@[i])@ == wanted[i
        + 1] by {
        assert(said[i + 1] == args[i]);
    }
}

} // verus!
