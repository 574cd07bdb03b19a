//! Links that turn up in the clipboard.

use vstd::prelude::*;

use crate::outside::{self, parse_url};
use crate::text::{
    self, chars_of, contains, ends_with, lowered_chars, same_text, starts_with, string_of, trim,
    Edge,
};

verus! {

/// What a text from the clipboard leads to.
#[derive(Debug, Clone, Copy, PartialEq, Eq, Structural)]
pub enum DetectedKind {
    Magnet,
    TorrentUrl,
    DirectFile,
}

/// The endings of the files that are worth fetching.
pub open spec fn file_endings() -> Seq<Seq<char>> {
    seq![
        ".iso"@,
        ".zip"@,
        ".tar.gz"@,
        ".tar.xz"@,
        ".tgz"@,
        ".7z"@,
        ".rar"@,
        ".bin"@,
        ".appimage"@,
        ".dmg"@,
        ".pkg"@,
        ".deb"@,
        ".rpm"@,
        ".exe"@,
        ".msi"@,
        ".mkv"@,
        ".mp4"@,
        ".mov"@,
        ".flac"@,
        ".mp3"@,
    ]
}

/// Whether a path ends like a file that is worth fetching.
pub open spec fn is_file(path: Seq<char>) -> bool {
    exists|i: int| 0 <= i < file_endings().len() && (#[trigger] file_endings()[i]).is_suffix_of(path)
}

/// What a URL leads to; the case of its path, which is ASCII, does not matter.
pub open spec fn url_kind(scheme: Seq<char>, path: Seq<char>) -> Option<DetectedKind> {
    if scheme == "http"@ || scheme == "https"@ || scheme == "ftp"@ {
        let p = text::lowered(path);
        if ".torrent"@.is_suffix_of(p) {
            Some(DetectedKind::TorrentUrl)
        } else if is_file(p) {
            Some(DetectedKind::DirectFile)
        } else {
            None
        }
    } else {
        None
    }
}

/// What a text leads to.
pub open spec fn kind_of(s: Seq<char>) -> Option<DetectedKind> {
    let t = text::trimmed(s, Edge::Space);
    if "magnet:?"@.is_prefix_of(t) && text::occurs(t, "xt=urn:btih:"@) {
        Some(DetectedKind::Magnet)
    } else {
        match outside::url_parts(t) {
            Some((scheme, path)) => url_kind(scheme, path),
            None => None,
        }
    }
}

fn has_file_ending(path: &[char]) -> (r: bool)
    ensures
        r == is_file(path@),
{
    let endings: [&str; 20] = [
        ".iso",
        ".zip",
        ".tar.gz",
        ".tar.xz",
        ".tgz",
        ".7z",
        ".rar",
        ".bin",
        ".appimage",
        ".dmg",
        ".pkg",
        ".deb",
        ".rpm",
        ".exe",
        ".msi",
        ".mkv",
        ".mp4",
        ".mov",
        ".flac",
        ".mp3",
    ];
    assert(endings@.map_values(|e: &str| e@) =~= file_endings());
    let mut i: usize = 0;
    while i < 20
        invariant
            i <= 20,
            endings@.map_values(|e: &str| e@) == file_endings(),
            forall|j: int| 0 <= j < i ==> !(#[trigger] file_endings()[j]).is_suffix_of(path@),
        decreases 20 - i,
    {
        assert(file_endings()[i as int] == endings@[i as int]@);
        if ends_with(path, &chars_of(endings[i])) {
            return true;
        }
        i += 1;
    }
    assert(file_endings().len() == 20);
    false
}

/// How long the same text is not captured again, in milliseconds.
pub const QUIET_MILLIS: u64 = 30000;

/// How long the listener waits when the program that it listens to could not be started, in
/// milliseconds.
pub const RETRY_MILLIS: u64 = 5000;

/// How long the listener waits when the program that it listens to has ended, in milliseconds.
pub const RESTART_MILLIS: u64 = 2000;

/// Why there is nothing to listen to.
#[derive(Debug, Clone, Copy, PartialEq, Eq, Structural)]
pub enum Silence {
    /// The program could not be started.
    NotStarted,
    /// The program has ended.
    Ended,
}

/// How long the listener waits, in milliseconds, before it starts the program again.
pub open spec fn wait_for(why: Silence) -> u64 {
    match why {
        Silence::NotStarted => RETRY_MILLIS,
        Silence::Ended => RESTART_MILLIS,
    }
}

/// How long the listener waits, in milliseconds, before it starts the program again.
pub fn listener_wait(why: Silence) -> (r: u64)
    ensures
        r == wait_for(why),
{
    match why {
        Silence::NotStarted => RETRY_MILLIS,
        Silence::Ended => RESTART_MILLIS,
    }
}

/// Watches the clipboard.
#[derive(Debug, PartialEq, Eq)]
pub struct ClipboardWatcher {
    /// The text that was captured last.
    pub last_captured: String,
    pub enabled: bool,
}

/// A watcher, with its text as characters.
#[verifier::ext_equal]
pub struct WatcherView {
    pub last_captured: Seq<char>,
    pub enabled: bool,
}

impl View for ClipboardWatcher {
    type V = WatcherView;

    open spec fn view(&self) -> WatcherView {
        WatcherView { last_captured: self.last_captured@, enabled: self.enabled }
    }
}

/// What was captured, as characters.
pub open spec fn captured(r: Option<(String, DetectedKind)>) -> Option<(Seq<char>, DetectedKind)> {
    match r {
        Some((s, kind)) => Some((s@, kind)),
        None => None,
    }
}

/// What is captured of a text that leads to `kind`, and the watcher afterwards: a text that was
/// captured a short while ago is passed over.
pub open spec fn taken(w: WatcherView, t: Seq<char>, kind: DetectedKind, since_last: u64) -> (
    Option<(Seq<char>, DetectedKind)>,
    WatcherView,
) {
    if w.last_captured == t && since_last < QUIET_MILLIS {
        (None, w)
    } else {
        (Some((t, kind)), WatcherView { last_captured: t, ..w })
    }
}

/// What is captured of a line, and the watcher afterwards.
pub open spec fn after_line(w: WatcherView, line: Seq<char>, since_last: u64) -> (
    Option<(Seq<char>, DetectedKind)>,
    WatcherView,
) {
    let t = text::trimmed(line, Edge::Space);
    if !w.enabled {
        (None, w)
    } else {
        match kind_of(t) {
            Some(kind) => taken(w, t, kind, since_last),
            None => (None, w),
        }
    }
}

impl ClipboardWatcher {
    /// A watcher that has captured nothing yet.
    pub fn new(enabled: bool) -> (r: Self)
        ensures
            r@ == (WatcherView { last_captured: seq![], enabled }),
    {
        ClipboardWatcher { last_captured: String::new(), enabled }
    }

    pub fn set_enabled(&mut self, enabled: bool)
        ensures
            final(self)@ == (WatcherView { enabled, ..old(self)@ }),
    {
        self.enabled = enabled;
    }

    pub fn is_enabled(&self) -> (r: bool)
        ensures
            r == self.enabled,
    {
        self.enabled
    }

    /// What a URL with this scheme and this path, which is ASCII, leads to.
    pub fn detect_url(scheme: &str, path: &str) -> (r: Option<DetectedKind>)
        requires
            vstd::utf8::is_ascii_chars(path@),
        ensures
            r == url_kind(scheme@, path@),
    {
        if same_text(scheme, "http") || same_text(scheme, "https") || same_text(scheme, "ftp") {
            let p = lowered_chars(&chars_of(path));
            if ends_with(&p, &chars_of(".torrent")) {
                return Some(DetectedKind::TorrentUrl);
            }
            if has_file_ending(&p) {
                return Some(DetectedKind::DirectFile);
            }
        }
        None
    }

    /// What a text leads to.
    pub fn is_downloadable(text: &str) -> (r: Option<DetectedKind>)
        ensures
            r == kind_of(text@),
    {
        let cs = chars_of(text);
        let t = trim(&cs, Edge::Space);
        if starts_with(t, &chars_of("magnet:?")) && contains(t, &chars_of("xt=urn:btih:")) {
            return Some(DetectedKind::Magnet);
        }
        match parse_url(&string_of(t)) {
            Some(u) => Self::detect_url(&u.scheme, &u.path),
            None => None,
        }
    }

    /// Takes a text that leads to `kind`, unless it is a repeat.
    pub fn take(&mut self, text: String, kind: DetectedKind, since_last: u64) -> (r: Option<
        (String, DetectedKind),
    >)
        ensures
            (captured(r), final(self)@) == taken(old(self)@, text@, kind, since_last),
    {
        if since_last < QUIET_MILLIS && same_text(&self.last_captured, &text) {
            return None;
        }
        self.last_captured = text.clone();
        Some((text, kind))
    }

    /// Takes a line from the clipboard: what is captured of it and what it leads to. Since the
    /// last capture `since_last` milliseconds have passed.
    pub fn capture(&mut self, line: &str, since_last: u64) -> (r: Option<(String, DetectedKind)>)
        ensures
            (captured(r), final(self)@) == after_line(old(self)@, line@, since_last),
    {
        if !self.enabled {
            return None;
        }
        let t = string_of(trim(&chars_of(line), Edge::Space));
        match Self::is_downloadable(&t) {
            Some(kind) => self.take(t, kind, since_last),
            None => None,
        }
    }
}

/// While the watcher is off nothing is captured, and nothing changes.
pub proof fn nothing_is_captured_when_off(w: WatcherView, line: Seq<char>, since_last: u64)
    requires
        !w.enabled,
    ensures
        after_line(w, line, since_last) == (None::<(Seq<char>, DetectedKind)>, w),
{
}

/// What was captured is not captured again within the quiet time, with whatever space around it.
pub proof fn nothing_is_captured_twice_in_a_row(
    w: WatcherView,
    first: Seq<char>,
    since_first: u64,
    second: Seq<char>,
    since_second: u64,
)
    requires
        after_line(w, first, since_first).0 is Some,
        text::trimmed(second, Edge::Space) == text::trimmed(first, Edge::Space),
        since_second < QUIET_MILLIS,
    ensures
        after_line(after_line(w, first, since_first).1, second, since_second).0 is None,
{
}

/// After the quiet time the same text is captured again.
pub proof fn after_the_quiet_time_a_text_counts_again(
    w: WatcherView,
    line: Seq<char>,
    since_first: u64,
    since_second: u64,
)
    requires
        after_line(w, line, since_first).0 is Some,
        since_second >= QUIET_MILLIS,
    ensures
        after_line(after_line(w, line, since_first).1, line, since_second).0 == after_line(
            w,
            line,
            since_first,
        ).0,
{
}

/// A text with a magnet link in it, whatever else the link says and with whatever white space
/// around it, leads to a magnet link, where the link names a torrent by its hash.
pub proof fn magnet_links_are_detected(x: Seq<char>, a: Seq<char>, b: Seq<char>, y: Seq<char>)
    requires
        forall|i: int| 0 <= i < x.len() ==> text::is_space(#[trigger] x[i]),
        forall|i: int| 0 <= i < y.len() ==> text::is_space(#[trigger] y[i]),
        b.len() > 0 ==> !text::is_space(b.last()),
    ensures
        kind_of(x + ("magnet:?"@ + a + "xt=urn:btih:"@ + b) + y) == Some(DetectedKind::Magnet),
{
    reveal_strlit("magnet:?");
    reveal_strlit("xt=urn:btih:");
    let m = "magnet:?"@;
    let mark = "xt=urn:btih:"@;
    let link = m + a + mark + b;
    assert(link[0] == 'm');
    if b.len() > 0 {
        assert(link.last() == b.last());
    } else {
        assert(link.last() == mark[11]);
    }
    text::trimming_takes_off_the_edges(x, link, y, Edge::Space);
    assert(link.subrange(0, 8) =~= m);
    text::a_text_occurs_where_it_was_put(m + a, mark, b);
}

/// Any other text, with whatever white space around it, leads where it leads as a URL, and nowhere
/// where it is none; so does a magnet link that names no torrent.
pub proof fn other_texts_are_read_as_urls(x: Seq<char>, t: Seq<char>, y: Seq<char>)
    requires
        forall|i: int| 0 <= i < x.len() ==> text::is_space(#[trigger] x[i]),
        forall|i: int| 0 <= i < y.len() ==> text::is_space(#[trigger] y[i]),
        t.len() > 0 ==> !text::is_space(t[0]) && !text::is_space(t.last()),
        !"magnet:?"@.is_prefix_of(t) || !text::occurs(t, "xt=urn:btih:"@),
    ensures
        outside::url_parts(t) is None ==> kind_of(x + t + y) is None,
        outside::url_parts(t) matches Some((scheme, path)) ==> kind_of(x + t + y) == url_kind(
            scheme,
            path,
        ),
{
    text::trimming_takes_off_the_edges(x, t, y, Edge::Space);
}

proof fn lemma_ending(p: Seq<char>, a: Seq<char>, ending: Seq<char>, i: int)
    requires
        0 <= i < file_endings().len(),
        file_endings()[i] == ending,
        ending.len() > 0,
        ending.last() != 't',
    ensures
        p == a + ending ==> is_file(p) && !".torrent"@.is_suffix_of(p),
{
    reveal_strlit(".torrent");
    if p == a + ending {
        let n = p.len() as int;
        assert(p.subrange(n - ending.len(), n) =~= ending);
        assert(file_endings()[i].is_suffix_of(p));
        assert(p.last() == ending.last());
        if ".torrent"@.is_suffix_of(p) {
            assert(p.subrange(n - 8, n)[7] == 't');
        }
    }
}

/// A URL whose path, in whatever case and whatever stands before, ends as a torrent leads to a
/// torrent, and one that ends as a file of a kind worth fetching to a file.
pub proof fn torrents_and_files_are_detected(scheme: Seq<char>, path: Seq<char>, a: Seq<char>)
    requires
        scheme == "http"@ || scheme == "https"@ || scheme == "ftp"@,
    ensures
        text::lowered(path) == a + ".torrent"@ ==> url_kind(scheme, path) == Some(
            DetectedKind::TorrentUrl,
        ),
        text::lowered(path) == a + ".iso"@ ==> url_kind(scheme, path) == Some(
            DetectedKind::DirectFile,
        ),
        text::lowered(path) == a + ".zip"@ ==> url_kind(scheme, path) == Some(
            DetectedKind::DirectFile,
        ),
        text::lowered(path) == a + ".tar.gz"@ ==> url_kind(scheme, path) == Some(
            DetectedKind::DirectFile,
        ),
        text::lowered(path) == a + ".tar.xz"@ ==> url_kind(scheme, path) == Some(
            DetectedKind::DirectFile,
        ),
        text::lowered(path) == a + ".tgz"@ ==> url_kind(scheme, path) == Some(
            DetectedKind::DirectFile,
        ),
        text::lowered(path) == a + ".7z"@ ==> url_kind(scheme, path) == Some(
            DetectedKind::DirectFile,
        ),
        text::lowered(path) == a + ".rar"@ ==> url_kind(scheme, path) == Some(
            DetectedKind::DirectFile,
        ),
        text::lowered(path) == a + ".bin"@ ==> url_kind(scheme, path) == Some(
            DetectedKind::DirectFile,
        ),
        text::lowered(path) == a + ".appimage"@ ==> url_kind(scheme, path) == Some(
            DetectedKind::DirectFile,
        ),
        text::lowered(path) == a + ".dmg"@ ==> url_kind(scheme, path) == Some(
            DetectedKind::DirectFile,
        ),
        text::lowered(path) == a + ".pkg"@ ==> url_kind(scheme, path) == Some(
            DetectedKind::DirectFile,
        ),
        text::lowered(path) == a + ".deb"@ ==> url_kind(scheme, path) == Some(
            DetectedKind::DirectFile,
        ),
        text::lowered(path) == a + ".rpm"@ ==> url_kind(scheme, path) == Some(
            DetectedKind::DirectFile,
        ),
        text::lowered(path) == a + ".exe"@ ==> url_kind(scheme, path) == Some(
            DetectedKind::DirectFile,
        ),
        text::lowered(path) == a + ".msi"@ ==> url_kind(scheme, path) == Some(
            DetectedKind::DirectFile,
        ),
        text::lowered(path) == a + ".mkv"@ ==> url_kind(scheme, path) == Some(
            DetectedKind::DirectFile,
        ),
        text::lowered(path) == a + ".mp4"@ ==> url_kind(scheme, path) == Some(
            DetectedKind::DirectFile,
        ),
        text::lowered(path) == a + ".mov"@ ==> url_kind(scheme, path) == Some(
            DetectedKind::DirectFile,
        ),
        text::lowered(path) == a + ".flac"@ ==> url_kind(scheme, path) == Some(
            DetectedKind::DirectFile,
        ),
        text::lowered(path) == a + ".mp3"@ ==> url_kind(scheme, path) == Some(
            DetectedKind::DirectFile,
        ),
{
    reveal_strlit(".iso");
    reveal_strlit(".zip");
    reveal_strlit(".tar.gz");
    reveal_strlit(".tar.xz");
    reveal_strlit(".tgz");
    reveal_strlit(".7z");
    reveal_strlit(".rar");
    reveal_strlit(".bin");
    reveal_strlit(".appimage");
    reveal_strlit(".dmg");
    reveal_strlit(".pkg");
    reveal_strlit(".deb");
    reveal_strlit(".rpm");
    reveal_strlit(".exe");
    reveal_strlit(".msi");
    reveal_strlit(".mkv");
    reveal_strlit(".mp4");
    reveal_strlit(".mov");
    reveal_strlit(".flac");
    reveal_strlit(".mp3");
    let t = ".torrent"@;
    let n = (a + t).len() as int;
    assert((a + t).subrange(n - t.len(), n) =~= t);
    lemma_ending(text::lowered(path), a, ".iso"@, 0);
    lemma_ending(text::lowered(path), a, ".zip"@, 1);
    lemma_ending(text::lowered(path), a, ".tar.gz"@, 2);
    lemma_ending(text::lowered(path), a, ".tar.xz"@, 3);
    lemma_ending(text::lowered(path), a, ".tgz"@, 4);
    lemma_ending(text::lowered(path), a, ".7z"@, 5);
    lemma_ending(text::lowered(path), a, ".rar"@, 6);
    lemma_ending(text::lowered(path), a, ".bin"@, 7);
    lemma_ending(text::lowered(path), a, ".appimage"@, 8);
    lemma_ending(text::lowered(path), a, ".dmg"@, 9);
    lemma_ending(text::lowered(path), a, ".pkg"@, 10);
    lemma_ending(text::lowered(path), a, ".deb"@, 11);
    lemma_ending(text::lowered(path), a, ".rpm"@, 12);
    lemma_ending(text::lowered(path), a, ".exe"@, 13);
    lemma_ending(text::lowered(path), a, ".msi"@, 14);
    lemma_ending(text::lowered(path), a, ".mkv"@, 15);
    lemma_ending(text::lowered(path), a, ".mp4"@, 16);
    lemma_ending(text::lowered(path), a, ".mov"@, 17);
    lemma_ending(text::lowered(path), a, ".flac"@, 18);
    lemma_ending(text::lowered(path), a, ".mp3"@, 19);
}

/// A URL whose path ends otherwise leads nowhere, whatever its scheme.
pub proof fn nothing_else_is_detected(scheme: Seq<char>, path: Seq<char>)
    requires
        !".torrent"@.is_suffix_of(text::lowered(path)),
        !".iso"@.is_suffix_of(text::lowered(path)),
        !".zip"@.is_suffix_of(text::lowered(path)),
        !".tar.gz"@.is_suffix_of(text::lowered(path)),
        !".tar.xz"@.is_suffix_of(text::lowered(path)),
        !".tgz"@.is_suffix_of(text::lowered(path)),
        !".7z"@.is_suffix_of(text::lowered(path)),
        !".rar"@.is_suffix_of(text::lowered(path)),
        !".bin"@.is_suffix_of(text::lowered(path)),
        !".appimage"@.is_suffix_of(text::lowered(path)),
        !".dmg"@.is_suffix_of(text::lowered(path)),
        !".pkg"@.is_suffix_of(text::lowered(path)),
        !".deb"@.is_suffix_of(text::lowered(path)),
        !".rpm"@.is_suffix_of(text::lowered(path)),
        !".exe"@.is_suffix_of(text::lowered(path)),
        !".msi"@.is_suffix_of(text::lowered(path)),
        !".mkv"@.is_suffix_of(text::lowered(path)),
        !".mp4"@.is_suffix_of(text::lowered(path)),
        !".mov"@.is_suffix_of(text::lowered(path)),
        !".flac"@.is_suffix_of(text::lowered(path)),
        !".mp3"@.is_suffix_of(text::lowered(path)),
    ensures
        url_kind(scheme, path) is None,
{
    if is_file(text::lowered(path)) {
        let i = choose|i: int|
            0 <= i < file_endings().len() && (#[trigger] file_endings()[i]).is_suffix_of(
                text::lowered(path),
            );
        assert(file_endings().len() == 20);
        assert(0 <= i < 20);
    }
}

/// A URL of any other scheme leads nowhere, whatever its path.
pub proof fn other_schemes_lead_nowhere(scheme: Seq<char>, path: Seq<char>)
    requires
        scheme != "http"@,
        scheme != "https"@,
        scheme != "ftp"@,
    ensures
        url_kind(scheme, path) is None,
{
}

/// While the watcher is on, every text that leads somewhere is captured as it is, but for the white
/// space around it, unless it is the one that was captured last and less than thirty seconds have
/// passed; then nothing is captured and nothing changes.
pub proof fn what_leads_somewhere_is_captured(
    w: WatcherView,
    x: Seq<char>,
    t: Seq<char>,
    y: Seq<char>,
    since_last: u64,
)
    requires
        w.enabled,
        forall|i: int| 0 <= i < x.len() ==> text::is_space(#[trigger] x[i]),
        forall|i: int| 0 <= i < y.len() ==> text::is_space(#[trigger] y[i]),
        t.len() > 0 ==> !text::is_space(t[0]) && !text::is_space(t.last()),
    ensures
        ({
            let (found, after) = after_line(w, x + t + y, since_last);
            &&& kind_of(t) is Some && (t != w.last_captured || since_last >= 30000) ==> found
                == Some((t, kind_of(t)->0)) && after.last_captured == t && after.enabled
            &&& kind_of(t) is Some && t == w.last_captured && since_last < 30000 ==> found is None
                && after == w
            &&& kind_of(t) is None ==> found is None && after == w
        }),
{
    text::trimming_takes_off_the_edges(x, t, y, Edge::Space);
}

/// The listener waits five seconds where its program could not be started, and two where it has
/// ended.
pub proof fn the_listener_waits(why: Silence)
    ensures
        why == Silence::NotStarted ==> wait_for(why) == 5000,
        why == Silence::Ended ==> wait_for(why) == 2000,
{
}

} // verus!
