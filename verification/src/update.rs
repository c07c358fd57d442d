//! Self-update, with a passive fallback.
//!
//! Wherever the installation can replace itself, an update is downloaded and
//! installed in place; where a package manager owns the files, the player only
//! lights an indicator. Either way failure is invisible: the player keeps
//! playing.

use crate::number;
use crate::text;
use vstd::prelude::*;

verus! {

pub const LATEST_URL: &'static str = "https://www.ltbr.fm/api/player/latest";

pub const DOWNLOAD_PAGE: &'static str = "https://www.ltbr.fm/player#download";

pub const HOME_PAGE: &'static str = "https://www.ltbr.fm";

/// Channel on which the progress of an update is shown.
pub const STATE_EVENT: &'static str = "update://state";

/// Seconds between checks while the player is running.
pub const CHECK_INTERVAL_S: u64 = 14_400;

/// Seconds before the first check, so that startup stays snappy.
pub const FIRST_CHECK_DELAY_S: u64 = 3;

// ---------------------------------------------------------------------------
// Versions
// ---------------------------------------------------------------------------

/// The number of one segment of a version. One that is no number counts as 0.
pub open spec fn segment_number(part: Seq<char>) -> int {
    match number::unsigned(text::trimmed(part), u64::MAX as int) {
        Some(n) => n,
        None => 0,
    }
}

/// The numbers of a version, such as `v1.2.3`.
pub open spec fn release(version: Seq<char>) -> Seq<int> {
    text::split(text::without_leading(version, 'v'), '.').map_values(
        |p: Seq<char>| segment_number(p),
    )
}

/// Segment `i` of a version. Missing ones count as 0.
pub open spec fn segment(v: Seq<int>, i: int) -> int {
    if 0 <= i < v.len() {
        v[i]
    } else {
        0
    }
}

/// Whether `a` exceeds `b` at segment `i`, after equal ones.
pub open spec fn exceeds_at(a: Seq<int>, b: Seq<int>, i: int) -> bool {
    &&& 0 <= i
    &&& segment(a, i) > segment(b, i)
    &&& forall|j: int| 0 <= j < i ==> #[trigger] segment(a, j) == segment(b, j)
}

/// Whether version `a` is newer than version `b`.
pub open spec fn newer(a: Seq<int>, b: Seq<int>) -> bool {
    exists|i: int| #[trigger] exceeds_at(a, b, i)
}

/// The numbers of a version.
fn parts(s: &str) -> (v: Vec<u64>)
    ensures
        v@.map_values(|n: u64| n as int) == release(s@),
{
    let pieces = text::pieces(text::trim_start_matches(s, 'v'), '.');
    let ghost all = text::split(text::without_leading(s@, 'v'), '.');
    let mut v: Vec<u64> = Vec::new();
    let mut i: usize = 0;
    while i < pieces.len()
        invariant
            i <= pieces.len(),
            pieces@.len() == all.len(),
            forall|j: int| 0 <= j < all.len() ==> (#[trigger] pieces@[j])@ == all[j],
            v@.len() == i,
            forall|j: int| 0 <= j < i ==> #[trigger] v@[j] == segment_number(all[j]),
        decreases pieces.len() - i,
    {
        let n: u64 = match number::parse_u64(text::trim(pieces[i])) {
            Some(n) => n,
            None => 0,
        };
        assert(pieces@[i as int]@ == all[i as int]);
        v.push(n);
        i += 1;
    }
    assert(v@.map_values(|n: u64| n as int) =~= release(s@));
    v
}

/// Segment `i` of a version.
fn at(v: &Vec<u64>, i: usize) -> (n: u64)
    ensures
        n == segment(v@.map_values(|n: u64| n as int), i as int),
{
    if i < v.len() {
        v[i]
    } else {
        0
    }
}

/// Numeric comparison of two versions; unparseable segments count as 0.
pub fn is_newer(latest: &str, current: &str) -> (b: bool)
    ensures
        b == newer(release(latest@), release(current@)),
{
    let l = parts(latest);
    let c = parts(current);
    let ghost ls = release(latest@);
    let ghost cs = release(current@);
    let n: usize = if l.len() < c.len() {
        c.len()
    } else {
        l.len()
    };
    let mut i: usize = 0;
    while i < n
        invariant
            i <= n,
            n >= ls.len(),
            n >= cs.len(),
            ls == l@.map_values(|n: u64| n as int),
            cs == c@.map_values(|n: u64| n as int),
            ls == release(latest@),
            cs == release(current@),
            forall|j: int| 0 <= j < i ==> #[trigger] segment(ls, j) == segment(cs, j),
        decreases n - i,
    {
        let a: u64 = at(&l, i);
        let b: u64 = at(&c, i);
        if a != b {
            proof {
                if a > b {
                    assert(exceeds_at(ls, cs, i as int));
                } else if newer(ls, cs) {
                    let k = choose|k: int| #[trigger] exceeds_at(ls, cs, k);
                    if k > i {
                        assert(segment(ls, i as int) == segment(cs, i as int));
                    } else if k < i {
                        assert(segment(ls, k) == segment(cs, k));
                    }
                }
            }
            return a > b;
        }
        i += 1;
    }
    proof {
        if newer(ls, cs) {
            let k = choose|k: int| #[trigger] exceeds_at(ls, cs, k);
            if k < n {
                assert(segment(ls, k) == segment(cs, k));
            }
        }
    }
    false
}

/// No version is newer than itself.
pub proof fn law_newer_is_irreflexive(a: Seq<int>)
    ensures
        !newer(a, a),
{
}

/// Of two versions at most one is newer.
pub proof fn law_newer_is_asymmetric(a: Seq<int>, b: Seq<int>)
    requires
        newer(a, b),
    ensures
        !newer(b, a),
{
    let i = choose|i: int| #[trigger] exceeds_at(a, b, i);
    if newer(b, a) {
        let j = choose|j: int| #[trigger] exceeds_at(b, a, j);
        if i < j {
            assert(segment(b, i) == segment(a, i));
        } else if j < i {
            assert(segment(a, j) == segment(b, j));
        }
    }
}

/// A version newer than a newer one is newer.
pub proof fn law_newer_is_transitive(a: Seq<int>, b: Seq<int>, c: Seq<int>)
    requires
        newer(a, b),
        newer(b, c),
    ensures
        newer(a, c),
{
    let i = choose|i: int| #[trigger] exceeds_at(a, b, i);
    let j = choose|j: int| #[trigger] exceeds_at(b, c, j);
    let k = if i < j {
        i
    } else {
        j
    };
    assert forall|m: int| 0 <= m < k implies #[trigger] segment(a, m) == segment(c, m) by {
        assert(segment(a, m) == segment(b, m));
        assert(segment(b, m) == segment(c, m));
    }
    if i < j {
        assert(segment(b, i) == segment(c, i));
    } else if j < i {
        assert(segment(a, j) == segment(b, j));
    }
    assert(exceeds_at(a, c, k));
}

/// Two versions of which neither is newer have the same numbers, up to zeros
/// at the end.
pub proof fn law_neither_newer_means_equal(a: Seq<int>, b: Seq<int>, i: int)
    requires
        !newer(a, b),
        !newer(b, a),
        0 <= i,
    ensures
        segment(a, i) == segment(b, i),
    decreases i,
{
    assert forall|j: int| 0 <= j < i implies #[trigger] segment(a, j) == segment(b, j) by {
        law_neither_newer_means_equal(a, b, j);
    }
    assert(!exceeds_at(a, b, i));
    assert(!exceeds_at(b, a, i));
}

/// A `v` before a version changes nothing.
pub proof fn law_a_leading_v_does_not_count(version: Seq<char>)
    ensures
        release(seq!['v'] + version) == release(version),
{
    assert((seq!['v'] + version).skip(1) =~= version);
}

/// The text `.0`.
pub open spec fn zero_segment() -> Seq<char> {
    seq!['.', '0']
}

/// A `.0` behind a version changes no comparison with any other.
pub proof fn law_a_trailing_zero_does_not_count(version: Seq<char>, other: Seq<int>)
    ensures
        release(version + zero_segment()) == release(version).push(0),
        newer(release(version + zero_segment()), other) == newer(release(version), other),
        newer(other, release(version + zero_segment())) == newer(other, release(version)),
{
    let bare = text::without_leading(version, 'v');
    let pieces = text::split(bare, '.');
    lemma_strip_before_zero(version);
    lemma_split_before_zero(bare);
    lemma_zero_segment();
    let short = release(version);
    let long = release(version + zero_segment());
    assert(long =~= short.push(0));
    assert forall|i: int| #[trigger] segment(long, i) == segment(short, i) by {}
    lemma_same_segments(short, long, other);
    lemma_same_segments(long, short, other);
}

/// Versions with the same segments compare alike.
proof fn lemma_same_segments(a: Seq<int>, b: Seq<int>, other: Seq<int>)
    requires
        forall|i: int| #[trigger] segment(b, i) == segment(a, i),
    ensures
        newer(a, other) ==> newer(b, other),
        newer(other, a) ==> newer(other, b),
{
    if newer(a, other) {
        let i = choose|i: int| #[trigger] exceeds_at(a, other, i);
        assert(segment(b, i) == segment(a, i));
        assert forall|j: int| 0 <= j < i implies #[trigger] segment(b, j) == segment(other, j) by {
            assert(segment(a, j) == segment(other, j));
        }
        assert(exceeds_at(b, other, i));
    }
    if newer(other, a) {
        let i = choose|i: int| #[trigger] exceeds_at(other, a, i);
        assert(segment(b, i) == segment(a, i));
        assert(exceeds_at(other, b, i));
    }
}

proof fn lemma_zero_segment()
    ensures
        segment_number(seq!['0']) == 0,
{
    let zero = seq!['0'];
    assert(text::trimmed(zero) == zero);
    assert(zero.drop_last() =~= Seq::<char>::empty());
    assert(number::decimal(zero.drop_last()) == 0);
    assert(number::decimal(zero) == 0);
}

proof fn lemma_strip_before_zero(s: Seq<char>)
    ensures
        text::without_leading(s + zero_segment(), 'v') == text::without_leading(s, 'v')
            + zero_segment(),
    decreases s.len(),
{
    if s.len() > 0 && s[0] == 'v' {
        lemma_strip_before_zero(s.skip(1));
        assert((s + zero_segment()).skip(1) =~= s.skip(1) + zero_segment());
    } else if s.len() == 0 {
        assert(s + zero_segment() =~= zero_segment());
    }
}

proof fn lemma_split_before_zero(s: Seq<char>)
    ensures
        text::split(s + zero_segment(), '.') == text::split(s, '.').push(seq!['0']),
    decreases s.len(),
{
    let long = s + zero_segment();
    text::lemma_find_char(s, '.');
    match text::find(s, seq!['.']) {
        Some(i) => {
            text::lemma_find_char_is(long, '.', i);
            assert(long.take(i) =~= s.take(i));
            assert(long.skip(i + 1) =~= s.skip(i + 1) + zero_segment());
            lemma_split_before_zero(s.skip(i + 1));
            assert(text::split(long, '.') =~= text::split(s, '.').push(seq!['0']));
        },
        None => {
            let zero = seq!['0'];
            text::lemma_find_char_is(long, '.', s.len() as int);
            text::lemma_find_char_none(zero, '.');
            assert(long.take(s.len() as int) =~= s);
            assert(long.skip(s.len() as int + 1) =~= zero);
            assert(text::split(zero, '.') == seq![zero]);
            assert(text::split(long, '.') =~= text::split(s, '.').push(zero));
        },
    }
}

// ---------------------------------------------------------------------------
// The release API
// ---------------------------------------------------------------------------

/// The string that a JSON object text holds under a key, as `serde_json` reads
/// it.
pub uninterp spec fn json_string(text: Seq<char>, key: Seq<char>) -> Option<Seq<char>>;

/// `serde_json::from_str` into a `serde_json::Value`, then `Value::get` and
/// `Value::as_str`: the same text and key always give the same answer. There
/// is none where the text is no JSON, holds no object, or holds no string
/// under the key; what counts as JSON is left to `serde_json`.
#[verifier::external_body]
fn json_member(text: &str, key: &str) -> (r: Option<String>)
    ensures
        match r {
            Some(s) => json_string(text@, key@) == Some(s@),
            None => json_string(text@, key@) is None,
        },
{
    let data: serde_json::Value = serde_json::from_str(text).ok()?;
    data.get(key)?.as_str().map(str::to_owned)
}

/// A version without the white space around it or the `v` before it.
pub fn tidy_version(version: &str) -> (r: String)
    ensures
        r@ == text::without_leading(text::trimmed(version@), 'v'),
{
    text::trim_start_matches(text::trim(version), 'v').to_owned()
}

/// The version that an answer of the release API names.
pub fn published_version(body: &str) -> (r: Option<String>)
    ensures
        match json_string(body@, "version"@) {
            Some(v) => r is Some && r->0@ == text::without_leading(text::trimmed(v), 'v'),
            None => r is None,
        },
{
    match json_member(body, "version") {
        Some(v) => Some(tidy_version(v.as_str())),
        None => None,
    }
}

/// The version to announce: the latest one, where it is newer than ours.
pub fn announce(latest: Option<String>, current: &str) -> (r: Option<String>)
    ensures
        r == (match latest {
            Some(v) => if newer(release(v@), release(current@)) {
                latest
            } else {
                None
            },
            None => None,
        }),
{
    match latest {
        Some(v) => if is_newer(v.as_str(), current) {
            Some(v)
        } else {
            None
        },
        None => None,
    }
}

// ---------------------------------------------------------------------------
// Installing
// ---------------------------------------------------------------------------

/// True where the installation can replace itself in place. On Linux only an
/// AppImage can; elsewhere an installation always can.
pub fn supports_in_app_install(linux: bool, appimage: bool) -> (b: bool)
    ensures
        b == (linux ==> appimage),
{
    if linux {
        appimage
    } else {
        true
    }
}

/// Progress of an update. `phase` is one of `downloading`, `installing`,
/// `dismiss`.
#[derive(Debug, Clone)]
pub struct UpdateState {
    pub phase: &'static str,
    pub downloaded: u64,
    /// Absent when the server does not tell the size.
    pub total: Option<u64>,
}

/// How an attempt to install came out.
#[derive(Debug, Clone, Copy, PartialEq, Eq, Structural)]
pub enum Install {
    /// There is no newer version.
    NothingNewer,
    /// It could not be found out, downloaded or installed.
    Failed,
    /// The new version is in place.
    Installed,
}

/// What follows an attempt to install.
#[derive(Debug, Clone)]
pub enum AfterInstall {
    /// The new version is in place: restart into it.
    Restart,
    /// The attempt failed: hide the progress and carry on.
    Show(UpdateState),
}

/// A download under way.
pub struct Progress {
    downloaded: u64,
}

impl View for Progress {
    type V = int;

    /// The bytes downloaded so far.
    closed spec fn view(&self) -> int {
        self.downloaded as int
    }
}

impl Progress {
    pub fn new() -> (p: Progress)
        ensures
            p@ == 0,
    {
        Progress { downloaded: 0 }
    }

    /// The bytes downloaded so far.
    pub fn downloaded(&self) -> (n: u64)
        ensures
            n == self@,
    {
        self.downloaded
    }

    /// Another chunk has arrived.
    pub fn on_chunk(&mut self, chunk: usize, total: Option<u64>) -> (s: UpdateState)
        requires
            old(self)@ + chunk <= u64::MAX,
        ensures
            final(self)@ == old(self)@ + chunk,
            s.phase@ == "downloading"@,
            s.downloaded == final(self)@,
            s.total == total,
    {
        self.downloaded = self.downloaded + chunk as u64;
        UpdateState { phase: "downloading", downloaded: self.downloaded, total }
    }
}

/// The download is complete and the installation begins.
pub fn on_download_finished() -> (s: UpdateState)
    ensures
        s.phase@ == "installing"@,
        s.downloaded == 0,
        s.total is None,
{
    UpdateState { phase: "installing", downloaded: 0, total: None }
}

/// The attempt to install is over. Any failure hides the progress, so that it
/// never lingers half-drawn; finding nothing newer shows nothing.
pub fn on_installed(outcome: Install) -> (a: Option<AfterInstall>)
    ensures
        match outcome {
            Install::NothingNewer => a is None,
            Install::Failed => {
                &&& a matches Some(AfterInstall::Show(s)) && s.phase@ == "dismiss"@
                    && s.downloaded == 0 && s.total is None
            },
            Install::Installed => a == Some(AfterInstall::Restart),
        },
{
    match outcome {
        Install::NothingNewer => None,
        Install::Failed => Some(
            AfterInstall::Show(UpdateState { phase: "dismiss", downloaded: 0, total: None }),
        ),
        Install::Installed => Some(AfterInstall::Restart),
    }
}

// ---------------------------------------------------------------------------
// The browser
// ---------------------------------------------------------------------------

#[derive(Debug, Clone, Copy, PartialEq, Eq, Structural)]
pub enum Platform {
    Linux,
    Macos,
    Windows,
}

/// A program to run, with its arguments.
#[derive(Debug, Clone)]
pub struct Launch {
    pub program: &'static str,
    pub args: Vec<String>,
}

/// What a [`Launch`] runs: the program, then its arguments.
pub open spec fn words(launch: Launch) -> Seq<Seq<char>> {
    seq![launch.program@] + launch.args@.map_values(|a: String| a@)
}

/// The words that open a URL in the system browser.
pub open spec fn browser_words(platform: Platform, url: Seq<char>) -> Seq<Seq<char>> {
    match platform {
        Platform::Linux => seq!["xdg-open"@, url],
        Platform::Macos => seq!["open"@, url],
        Platform::Windows => seq!["cmd"@, "/C"@, "start"@, ""@, url],
    }
}

/// Open an arbitrary URL in the system browser.
pub fn open_external(platform: Platform, url: &str) -> (l: Launch)
    ensures
        words(l) == browser_words(platform, url@),
{
    let mut args: Vec<String> = Vec::new();
    let program: &'static str = match platform {
        Platform::Linux => "xdg-open",
        Platform::Macos => "open",
        Platform::Windows => {
            args.push("/C".to_owned());
            args.push("start".to_owned());
            args.push("".to_owned());
            "cmd"
        },
    };
    args.push(url.to_owned());
    let l = Launch { program, args };
    assert(words(l) =~= browser_words(platform, url@));
    l
}

/// Open the download page in the system browser.
pub fn open_download_page(platform: Platform) -> (l: Launch)
    ensures
        words(l) == browser_words(platform, DOWNLOAD_PAGE@),
{
    open_external(platform, DOWNLOAD_PAGE)
}

} // verus!
