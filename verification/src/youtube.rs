//! Videos, which another program fetches: what it is told, and what its output says.

use vstd::prelude::*;

use crate::outside::{self, regex_captures};
use crate::paths::{self, join};
use crate::text::{self, chars_of, joined, same, starts_with, string_of, trim, Edge};

verus! {

/// The side of the downloader that fetches videos.
pub struct YoutubeManager {}

/// The lines that tell how far a download is: a percentage, a size and its unit.
pub open spec fn progress_pattern() -> Seq<char> {
    r"\[download\]\s+([\d\.]+)%\s+of\s+[~]?\s*([\d\.]+)(KiB|MiB|GiB|B|TiB)"@
}

/// What a line tells of how far a download is.
#[derive(Debug, PartialEq, Eq)]
pub struct Progress {
    pub percent: String,
    pub size: String,
    pub unit: String,
}

/// The percentage, the size and the unit among the groups of a match.
pub open spec fn progress_in(groups: Option<Seq<Option<Seq<char>>>>) -> Option<
    (Seq<char>, Seq<char>, Seq<char>),
> {
    match groups {
        Some(g) => if g.len() > 3 && g[1] is Some && g[2] is Some && g[3] is Some {
            Some((g[1]->0, g[2]->0, g[3]->0))
        } else {
            None
        },
        None => None,
    }
}

/// What a line tells, as characters.
pub open spec fn progress_text(p: Option<Progress>) -> Option<(Seq<char>, Seq<char>, Seq<char>)> {
    match p {
        Some(p) => Some((p.percent@, p.size@, p.unit@)),
        None => None,
    }
}

/// The groups of a match, as characters.
pub open spec fn opt_groups(groups: Option<Vec<Option<String>>>) -> Option<
    Seq<Option<Seq<char>>>,
> {
    match groups {
        Some(g) => Some(outside::group_views(g@)),
        None => None,
    }
}

/// A text without its tildes.
pub open spec fn without_tilde(s: Seq<char>) -> Seq<char>
    decreases s.len(),
{
    if s.len() == 0 {
        s
    } else if s.last() == '~' {
        without_tilde(s.drop_last())
    } else {
        without_tilde(s.drop_last()).push(s.last())
    }
}

/// By what a number is multiplied that comes with a unit. Any other unit counts as one byte.
pub open spec fn factor_of(unit: Seq<char>) -> u64 {
    if unit == "KiB"@ {
        1024
    } else if unit == "MiB"@ {
        1048576
    } else if unit == "GiB"@ {
        1073741824
    } else {
        1
    }
}

/// The number in the text of a size: no space around it, and no tilde.
pub open spec fn number_in(size: Seq<char>) -> Seq<char> {
    without_tilde(text::trimmed(size, Edge::Space))
}

/// By what a number is multiplied that comes with a unit, with space around it or not.
pub open spec fn factor_in(unit: Seq<char>) -> u64 {
    factor_of(text::trimmed(unit, Edge::Space))
}

/// The file that a line says is being written: one that is fetched, or one into which others are
/// merged.
pub open spec fn file_named(line: Seq<char>) -> Option<Seq<char>> {
    let fetched = "[download] Destination: "@;
    let merged = "[Merger] Merging formats into \""@;
    if fetched.is_prefix_of(line) {
        if line.len() > fetched.len() {
            Some(line.skip(fetched.len() as int))
        } else {
            None
        }
    } else if merged.is_prefix_of(line) {
        if line.len() > merged.len() + 1 && line.last() == '"' {
            Some(line.subrange(merged.len() as int, line.len() - 1))
        } else {
            None
        }
    } else {
        None
    }
}

/// What the program is told that fetches a video into a directory.
pub open spec fn fetched_with(uri: Seq<char>, output_dir: Seq<char>) -> Seq<Seq<char>> {
    seq!["--newline"@, "-o"@, paths::join_spec(output_dir, "%(title)s.%(ext)s"@), uri]
}

/// What the program is told that is asked for the title of a video.
pub open spec fn asked_with(uri: Seq<char>) -> Seq<Seq<char>> {
    seq!["--get-title"@, uri]
}

/// Why a download failed whose program has ended.
pub open spec fn why_failed(success: bool, status_text: Seq<char>) -> Option<Seq<char>> {
    if success {
        None
    } else {
        Some("yt-dlp failed with status "@ + status_text)
    }
}

/// The title of a video in the output of the program that was asked for it.
pub open spec fn title_in(success: bool, output: Seq<char>) -> Option<Seq<char>> {
    if success && text::trimmed(output, Edge::Space).len() > 0 {
        Some(text::trimmed(output, Edge::Space))
    } else {
        None
    }
}

impl YoutubeManager {
    pub fn new() -> (r: Self)
        ensures
            r == (YoutubeManager {  }),
    {
        YoutubeManager {  }
    }

    /// What the program is told that fetches a video into a directory.
    pub fn download_args(uri: &str, output_dir: &str) -> (r: Vec<String>)
        ensures
            text::texts(r@) == fetched_with(uri@, output_dir@),
    {
        let mut r: Vec<String> = Vec::new();
        r.push("--newline".to_owned());
        r.push("-o".to_owned());
        r.push(join(output_dir, "%(title)s.%(ext)s"));
        r.push(uri.to_owned());
        assert(text::texts(r@) =~= seq![
            "--newline"@,
            "-o"@,
            paths::join_spec(output_dir@, "%(title)s.%(ext)s"@),
            uri@,
        ]);
        r
    }

    /// What the program is told that is asked for the title of a video.
    pub fn title_args(uri: &str) -> (r: Vec<String>)
        ensures
            text::texts(r@) == asked_with(uri@),
    {
        let mut r: Vec<String> = Vec::new();
        r.push("--get-title".to_owned());
        r.push(uri.to_owned());
        assert(text::texts(r@) =~= seq!["--get-title"@, uri@]);
        r
    }

    /// The percentage, the size and the unit among the groups of a match.
    pub fn read_progress(groups: &Option<Vec<Option<String>>>) -> (r: Option<Progress>)
        ensures
            progress_text(r) == progress_in(opt_groups(*groups)),
    {
        match groups {
            Some(g) => {
                if g.len() > 3 {
                    if let (Some(percent), Some(size), Some(unit)) = (&g[1], &g[2], &g[3]) {
                        return Some(
                            Progress {
                                percent: percent.clone(),
                                size: size.clone(),
                                unit: unit.clone(),
                            },
                        );
                    }
                }
                None
            },
            None => None,
        }
    }

    /// What a line of the output tells of how far the download is.
    pub fn progress(line: &str) -> (r: Option<Progress>)
        ensures
            progress_text(r) == progress_in(outside::regex_groups(progress_pattern(), line@)),
    {
        let groups = regex_captures(
            r"\[download\]\s+([\d\.]+)%\s+of\s+[~]?\s*([\d\.]+)(KiB|MiB|GiB|B|TiB)",
            line,
        );
        Self::read_progress(&groups)
    }

    /// The number in the text of a size: no space around it, and no tilde.
    pub fn size_number(size_str: &str) -> (r: String)
        ensures
            r@ == number_in(size_str@),
    {
        let cs = chars_of(size_str);
        let t = trim(&cs, Edge::Space);
        let mut r: String = String::new();
        let mut i: usize = 0;
        while i < t.len()
            invariant
                i <= t.len(),
                r@ == without_tilde(t@.take(i as int)),
            decreases t.len() - i,
        {
            assert(t@.take(i + 1).drop_last() == t@.take(i as int));
            if t[i] != '~' {
                r.push(t[i]);
            }
            i += 1;
        }
        assert(t@.take(t@.len() as int) == t@);
        r
    }

    /// By what a number is multiplied that comes with a unit.
    pub fn unit_factor(unit: &str) -> (r: u64)
        ensures
            r == factor_in(unit@),
    {
        let cs = chars_of(unit);
        let u = trim(&cs, Edge::Space);
        if same(u, &chars_of("KiB")) {
            1024
        } else if same(u, &chars_of("MiB")) {
            1048576
        } else if same(u, &chars_of("GiB")) {
            1073741824
        } else {
            1
        }
    }

    /// The file that a line of the output says is being written.
    pub fn written_file(line: &str) -> (r: Option<String>)
        ensures
            text::opt_text(r) == file_named(line@),
    {
        let cs = chars_of(line);
        let n: usize = cs.len();
        let fetched = chars_of("[download] Destination: ");
        let merged = chars_of("[Merger] Merging formats into \"");
        let from: usize = fetched.len();
        let inner: usize = merged.len();
        if starts_with(&cs, &fetched) {
            if n > from {
                assert(cs@.subrange(from as int, n as int) == cs@.skip(from as int));
                return Some(string_of(&cs[from..n]));
            }
        } else if starts_with(&cs, &merged) {
            if n - inner > 1 && cs[n - 1] == '"' {
                return Some(string_of(&cs[inner..n - 1]));
            }
        }
        None
    }

    /// What becomes of a download when the program that fetched it has ended: why it failed.
    pub fn failure(success: bool, status_text: &str) -> (r: Option<String>)
        ensures
            text::opt_text(r) == why_failed(success, status_text@),
    {
        if success {
            None
        } else {
            Some(joined("yt-dlp failed with status ", status_text))
        }
    }

    /// The title of a video in the output of the program that was asked for it.
    pub fn get_title(success: bool, output: &str) -> (r: Option<String>)
        ensures
            text::opt_text(r) == title_in(success, output@),
    {
        if !success {
            return None;
        }
        let cs = chars_of(output);
        let t = trim(&cs, Edge::Space);
        if t.len() > 0 {
            Some(string_of(t))
        } else {
            None
        }
    }
}

/// The program is given the link as it is, whatever it is, and puts the video into the directory
/// under its title.
pub proof fn the_program_is_given_the_link(uri: Seq<char>, dir: Seq<char>)
    requires
        dir.len() > 0,
        dir.last() != '/',
    ensures
        fetched_with(uri, dir).len() == 4,
        fetched_with(uri, dir)[0] == "--newline"@,
        fetched_with(uri, dir)[1] == "-o"@,
        fetched_with(uri, dir)[2] == dir + "/%(title)s.%(ext)s"@,
        fetched_with(uri, dir)[3] == uri,
        asked_with(uri).len() == 2,
        asked_with(uri)[0] == "--get-title"@,
        asked_with(uri)[1] == uri,
{
    reveal_strlit("%(title)s.%(ext)s");
    reveal_strlit("/%(title)s.%(ext)s");
    assert(dir.push('/') + "%(title)s.%(ext)s"@ =~= dir + "/%(title)s.%(ext)s"@);
}

/// Progress is told by three groups behind the whole match, each as it is, where all three took
/// part.
pub proof fn three_groups_tell_progress(
    whole: Option<Seq<char>>,
    percent: Seq<char>,
    size: Seq<char>,
    unit: Seq<char>,
    rest: Seq<Option<Seq<char>>>,
    g: Seq<Option<Seq<char>>>,
    i: int,
)
    ensures
        progress_in(Some(seq![whole, Some(percent), Some(size), Some(unit)] + rest)) == Some(
            (percent, size, unit),
        ),
        progress_in(None) is None,
        g.len() < 4 ==> progress_in(Some(g)) is None,
        1 <= i <= 3 && i < g.len() && g[i] is None ==> progress_in(Some(g)) is None,
{
    let all = seq![whole, Some(percent), Some(size), Some(unit)] + rest;
    assert(all[1] == Some(percent) && all[2] == Some(size) && all[3] == Some(unit));
}

/// Taking out tildes keeps every other character, in order.
pub proof fn only_tildes_are_taken_out(a: Seq<char>, c: char, b: Seq<char>)
    ensures
        without_tilde(Seq::<char>::empty()).len() == 0,
        c != '~' ==> without_tilde(a.push(c)) == without_tilde(a).push(c),
        without_tilde(a.push('~')) == without_tilde(a),
        (forall|i: int| 0 <= i < b.len() ==> #[trigger] b[i] != '~') ==> without_tilde(b) == b,
    decreases b.len(),
{
    assert(a.push(c).drop_last() =~= a);
    assert(a.push('~').drop_last() =~= a);
    if b.len() > 0 && forall|i: int| 0 <= i < b.len() ==> #[trigger] b[i] != '~' {
        let rest = b.drop_last();
        assert forall|i: int| 0 <= i < rest.len() implies #[trigger] rest[i] != '~' by {
            assert(rest[i] == b[i]);
        }
        only_tildes_are_taken_out(a, c, rest);
        assert(b.last() != '~');
        assert(without_tilde(b) =~= b);
    }
}

/// Each unit is 1024 of the one below it, and any other counts as one byte.
pub proof fn each_unit_is_1024_of_the_one_below(unit: Seq<char>)
    ensures
        factor_of("KiB"@) == 1024,
        factor_of("MiB"@) == 1024 * factor_of("KiB"@),
        factor_of("GiB"@) == 1024 * factor_of("MiB"@),
        unit != "KiB"@ && unit != "MiB"@ && unit != "GiB"@ ==> factor_of(unit) == 1,
{
    reveal_strlit("KiB");
    reveal_strlit("MiB");
    reveal_strlit("GiB");
    assert("KiB"@[0] == 'K' && "MiB"@[0] == 'M' && "GiB"@[0] == 'G');
}

/// A line that says where a video is written gives that path, whatever it is and of whatever
/// length; any other line gives none.
pub proof fn a_line_names_the_file_written(path: Seq<char>, line: Seq<char>)
    requires
        path.len() > 0,
    ensures
        file_named("[download] Destination: "@ + path) == Some(path),
        file_named("[Merger] Merging formats into \""@ + path.push('"')) == Some(path),
        file_named("[download] Destination: "@) is None,
        !"[download] Destination: "@.is_prefix_of(line)
            && !"[Merger] Merging formats into \""@.is_prefix_of(line) ==> file_named(line) is None,
{
    reveal_strlit("[download] Destination: ");
    reveal_strlit("[Merger] Merging formats into \"");
    let d = "[download] Destination: "@;
    let m = "[Merger] Merging formats into \""@;
    let fetched = d + path;
    let merged = m + path.push('"');
    assert(fetched.subrange(0, d.len() as int) =~= d);
    assert(fetched.skip(d.len() as int) =~= path);
    assert(merged.subrange(0, m.len() as int) =~= m);
    if d.is_prefix_of(merged) {
        assert(merged.subrange(0, d.len() as int)[1] == merged[1]);
        assert(merged[1] == 'M' && d[1] == 'd');
    }
    assert(merged.last() == '"');
    assert(merged.subrange(m.len() as int, merged.len() - 1) =~= path);
    assert(d.subrange(0, d.len() as int) =~= d);
}

/// A program that failed is named with its status, whatever it is; one that succeeded has not
/// failed.
pub proof fn a_failure_names_the_status(status_text: Seq<char>)
    ensures
        why_failed(true, status_text) is None,
        why_failed(false, status_text) == Some("yt-dlp failed with status "@ + status_text),
{
}

/// The title is all that the program wrote, but for the white space around it, where it succeeded
/// and wrote anything else.
pub proof fn the_title_is_what_was_written(x: Seq<char>, t: Seq<char>, y: Seq<char>)
    requires
        forall|i: int| 0 <= i < x.len() ==> text::is_space(#[trigger] x[i]),
        forall|i: int| 0 <= i < y.len() ==> text::is_space(#[trigger] y[i]),
        t.len() > 0 ==> !text::is_space(t[0]) && !text::is_space(t.last()),
    ensures
        t.len() > 0 ==> title_in(true, x + t + y) == Some(t),
        t.len() == 0 ==> title_in(true, x + t + y) is None,
        title_in(false, x + t + y) is None,
{
    text::trimming_takes_off_the_edges(x, t, y, Edge::Space);
}

/// White space around a size or a unit changes nothing, nor does a tilde before a size.
pub proof fn space_around_a_size_changes_nothing(x: Seq<char>, s: Seq<char>, y: Seq<char>)
    requires
        forall|i: int| 0 <= i < x.len() ==> text::is_space(#[trigger] x[i]),
        forall|i: int| 0 <= i < y.len() ==> text::is_space(#[trigger] y[i]),
        s.len() > 0,
        !text::is_space(s[0]) && !text::is_space(s.last()),
    ensures
        number_in(x + s + y) == without_tilde(s),
        factor_in(x + s + y) == factor_of(s),
        (forall|i: int| 0 <= i < s.len() ==> #[trigger] s[i] != '~') ==> number_in(x + s + y) == s,
{
    text::trimming_takes_off_the_edges(x, s, y, Edge::Space);
    only_tildes_are_taken_out(s, ' ', s);
}

/// The lines that tell progress are those with a percentage, then a size, estimated or not, and
/// then one of the units.
pub proof fn the_lines_that_tell_progress()
    ensures
        progress_pattern() == r"\[download\]\s+([\d\.]+)%"@ + r"\s+of\s+[~]?\s*([\d\.]+)"@
            + r"(KiB|MiB|GiB|B|TiB)"@,
{
    reveal_strlit(r"\[download\]\s+([\d\.]+)%\s+of\s+[~]?\s*([\d\.]+)(KiB|MiB|GiB|B|TiB)");
    reveal_strlit(r"\[download\]\s+([\d\.]+)%");
    reveal_strlit(r"\s+of\s+[~]?\s*([\d\.]+)");
    reveal_strlit(r"(KiB|MiB|GiB|B|TiB)");
    assert(progress_pattern() =~= r"\[download\]\s+([\d\.]+)%"@
        + r"\s+of\s+[~]?\s*([\d\.]+)"@ + r"(KiB|MiB|GiB|B|TiB)"@);
}

} // verus!
