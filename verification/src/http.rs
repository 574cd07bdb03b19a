//! Downloads over HTTP: what a server says of a file, what the file is called, and into
//! which parts it is cut.

use vstd::prelude::*;

use crate::outside::{self, parse_url, percent_decode};
use crate::text::{
    self, chars_of, count_before, find, same, starts_with, string_of, strip, tail_after_last, trim,
    Edge,
};

verus! {

/// The HTTP side of the downloader.
pub struct HttpDownloader {}

/// Whether a status code says that a request succeeded.
pub open spec fn is_success(status: u16) -> bool {
    200 <= status <= 299
}

/// The characters that no file name may hold, made harmless.
pub open spec fn harmless(c: char) -> char {
    if c == '/' || c == '\\' || c == '\0' {
        '_'
    } else {
        c
    }
}

/// A text as a file name: harmless characters, no dots, spaces or dashes at the ends, and a
/// name of its own where nothing is left.
pub open spec fn sanitized(name: Seq<char>) -> Seq<char> {
    let clean = text::trimmed(name.map_values(|c: char| harmless(c)), Edge::Ornament);
    if clean.len() == 0 {
        "download.bin"@
    } else {
        clean
    }
}

/// The file name that one part of a `Content-Disposition` header gives: `filename*` with a
/// percent-encoded value after two single quotes, or `filename` with a plain one.
pub open spec fn part_name(part: Seq<char>) -> Option<Seq<char>> {
    let p = text::trimmed(part, Edge::Space);
    if "filename*="@.is_prefix_of(p) {
        let val = text::trimmed(text::stripped(p, "filename*="@), Edge::Quote);
        match text::first_at(val, "''"@) {
            Some(i) => outside::percent_decoded(val.skip(i + 2)),
            None => None,
        }
    } else if "filename="@.is_prefix_of(p) {
        Some(text::trimmed(text::stripped(p, "filename="@), Edge::Quote))
    } else {
        None
    }
}

/// The first of the parts that gives a name.
pub open spec fn first_name(parts: Seq<Seq<char>>) -> Option<Seq<char>>
    decreases parts.len(),
{
    if parts.len() == 0 {
        None
    } else {
        match part_name(parts[0]) {
            Some(name) => Some(name),
            None => first_name(parts.drop_first()),
        }
    }
}

/// The file name that a `Content-Disposition` header gives.
pub open spec fn disposition_name(cd: Seq<char>) -> Option<Seq<char>> {
    first_name(text::split(cd, ';'))
}

/// The file name that the path of a URL gives: its last segment, decoded where that can be.
pub open spec fn path_name(path: Seq<char>) -> Seq<char> {
    if path.len() > 0 && path[0] == '/' {
        let last = text::after_last(path, '/');
        let decoded = match outside::percent_decoded(last) {
            Some(d) => d,
            None => last,
        };
        let name = text::trimmed(decoded, Edge::Space);
        if name.len() > 0 && name != "/"@ {
            sanitized(name)
        } else {
            "download.bin"@
        }
    } else {
        "download.bin"@
    }
}

/// The file name of a download: from the header, else from the URL, else a fixed one.
pub open spec fn chosen_name(url: Seq<char>, disposition: Option<Seq<char>>) -> Seq<char> {
    let named = match disposition {
        Some(cd) => disposition_name(cd),
        None => None,
    };
    if named is Some && text::trimmed(named->0, Edge::Space).len() > 0 {
        sanitized(named->0)
    } else {
        match outside::url_parts(url) {
            Some((_, path)) => path_name(path),
            None => "download.bin"@,
        }
    }
}

proof fn lemma_first_name(s: Seq<char>)
    ensures
        first_name(text::split(s, ';')) == ({
            let k = text::before(s, ';');
            match part_name(s.take(k)) {
                Some(name) => Some(name),
                None => if k < s.len() {
                    first_name(text::split(s.skip(k + 1), ';'))
                } else {
                    None
                },
            }
        }),
{
    let k = text::before(s, ';');
    text::lemma_before(s, ';');
    if k < s.len() {
        assert(text::split(s, ';').drop_first() == text::split(s.skip(k + 1), ';'));
    } else {
        assert(s.take(k) == s);
        assert(text::split(s, ';').drop_first() == Seq::<Seq<char>>::empty());
        assert(first_name(text::split(s, ';').drop_first()) is None);
    }
}

fn name_in_part(part: &[char]) -> (r: Option<String>)
    ensures
        match r {
            Some(name) => part_name(part@) == Some(name@),
            None => part_name(part@) is None,
        },
{
    let p = trim(part, Edge::Space);
    let extended = chars_of("filename*=");
    let plain = chars_of("filename=");
    if starts_with(p, &extended) {
        let val = trim(strip(p, &extended), Edge::Quote);
        let quotes = chars_of("''");
        proof {
            reveal_strlit("''");
            text::first_at_is_first(val@, quotes@);
        }
        let n: usize = val.len();
        match find(val, &quotes) {
            Some(i) => {
                assert(val@.subrange(i + 2, val@.len() as int) == val@.skip(i + 2));
                percent_decode(&string_of(&val[i + 2..n]))
            },
            None => None,
        }
    } else if starts_with(p, &plain) {
        Some(string_of(trim(strip(p, &plain), Edge::Quote)))
    } else {
        None
    }
}

impl HttpDownloader {
    /// The file name that a `Content-Disposition` header gives.
    pub fn parse_content_disposition(cd: &str) -> (r: Option<String>)
        ensures
            match r {
                Some(name) => disposition_name(cd@) == Some(name@),
                None => disposition_name(cd@) is None,
            },
    {
        let s = chars_of(cd);
        let mut pos: usize = 0;
        assert(s@.skip(0) == s@);
        loop
            invariant
                pos <= s.len(),
                s@ == cd@,
                disposition_name(cd@) == first_name(text::split(s@.skip(pos as int), ';')),
            decreases s.len() - pos,
        {
            let ghost rest = s@.skip(pos as int);
            assert(s@.subrange(pos as int, s@.len() as int) == rest);
            let k = count_before(&s[pos..s.len()], ';');
            proof {
                lemma_first_name(rest);
                assert(s@.subrange(pos as int, pos + k) == rest.take(k as int));
            }
            match name_in_part(&s[pos..pos + k]) {
                Some(name) => {
                    return Some(name);
                },
                None => {},
            }
            if pos + k == s.len() {
                return None;
            }
            assert(rest.skip(k + 1) == s@.skip(pos + k + 1));
            pos = pos + k + 1;
        }
    }

    /// A text as a file name.
    pub fn sanitize_filename(name: &str) -> (r: String)
        ensures
            r@ == sanitized(name@),
    {
        let cs = chars_of(name);
        let mut clean: Vec<char> = Vec::new();
        let mut i: usize = 0;
        while i < cs.len()
            invariant
                i <= cs.len(),
                clean@ == cs@.take(i as int).map_values(|c: char| harmless(c)),
            decreases cs.len() - i,
        {
            let c = cs[i];
            assert(cs@.take(i + 1) == cs@.take(i as int).push(c));
            clean.push(
                if c == '/' || c == '\\' || c == '\0' {
                    '_'
                } else {
                    c
                },
            );
            assert(clean@ =~= cs@.take(i + 1).map_values(|c: char| harmless(c)));
            i += 1;
        }
        assert(cs@.take(cs@.len() as int) == cs@);
        let kept = trim(&clean, Edge::Ornament);
        if kept.len() == 0 {
            "download.bin".to_owned()
        } else {
            string_of(kept)
        }
    }

    /// The file name that the path of a URL gives.
    pub fn filename_from_path(path: &str) -> (r: String)
        ensures
            r@ == path_name(path@),
    {
        let cs = chars_of(path);
        if cs.len() > 0 && cs[0] == '/' {
            let last = string_of(tail_after_last(&cs, '/'));
            let decoded = match percent_decode(&last) {
                Some(d) => d,
                None => last,
            };
            let d = chars_of(&decoded);
            let name = trim(&d, Edge::Space);
            let slash = chars_of("/");
            if name.len() > 0 && !same(name, &slash) {
                return Self::sanitize_filename(&string_of(name));
            }
        }
        "download.bin".to_owned()
    }

    /// The file name of a download: from the header, else from the URL, else a fixed one.
    pub fn extract_filename(url: &str, disposition: &Option<String>) -> (r: String)
        ensures
            r@ == chosen_name(url@, text::opt_text(*disposition)),
    {
        if let Some(cd) = disposition {
            if let Some(name) = Self::parse_content_disposition(cd) {
                if trim(&chars_of(&name), Edge::Space).len() > 0 {
                    return Self::sanitize_filename(&name);
                }
            }
        }
        match parse_url(url) {
            Some(u) => Self::filename_from_path(&u.path),
            None => "download.bin".to_owned(),
        }
    }
}

/// A file name made from any text can be one: it is not empty, holds no separator and no NUL,
/// and neither begins nor ends with a dot, a space or a dash. So it names neither a directory
/// above nor the directory itself.
pub proof fn sanitized_names_a_file(name: Seq<char>)
    ensures
        sanitized(name).len() > 0,
        forall|i: int|
            0 <= i < sanitized(name).len() ==> {
                let c = #[trigger] sanitized(name)[i];
                c != '/' && c != '\\' && c != '\0'
            },
        !Edge::Ornament.spec_holds(sanitized(name)[0]),
        !Edge::Ornament.spec_holds(sanitized(name).last()),
        sanitized(name) != seq!['.'],
        sanitized(name) != seq!['.', '.'],
{
    reveal_strlit("download.bin");
    let mapped = name.map_values(|c: char| harmless(c));
    let (a, b) = text::trimmed_is_a_stretch(mapped, Edge::Ornament);
    let t = text::trimmed(mapped, Edge::Ornament);
    if t.len() > 0 {
        assert forall|i: int| 0 <= i < t.len() implies {
            let c = #[trigger] t[i];
            c != '/' && c != '\\' && c != '\0'
        } by {
            assert(t[i] == mapped[a + i]);
        }
    }
    if sanitized(name) == seq!['.'] {
        assert(sanitized(name)[0] == '.');
    }
    if sanitized(name) == seq!['.', '.'] {
        assert(sanitized(name)[0] == '.');
    }
}

/// Whatever a server says, and whatever the link, the name that is chosen can be that of a file.
pub proof fn chosen_name_is_a_file_name(url: Seq<char>, disposition: Option<Seq<char>>)
    ensures
        chosen_name(url, disposition).len() > 0,
        forall|i: int|
            0 <= i < chosen_name(url, disposition).len() ==> {
                let c = #[trigger] chosen_name(url, disposition)[i];
                c != '/' && c != '\\' && c != '\0'
            },
        chosen_name(url, disposition) != seq!['.'],
        chosen_name(url, disposition) != seq!['.', '.'],
{
    let name = chosen_name(url, disposition);
    let nothing = Seq::<char>::empty();
    assert(nothing.map_values(|c: char| harmless(c)) =~= nothing);
    assert(sanitized(nothing) == "download.bin"@);
    assert(exists|s: Seq<char>| name == #[trigger] sanitized(s));
    let s = choose|s: Seq<char>| name == #[trigger] sanitized(s);
    sanitized_names_a_file(s);
}

/// Making a file name of a file name changes nothing.
pub proof fn sanitizing_is_idempotent(name: Seq<char>)
    ensures
        sanitized(sanitized(name)) == sanitized(name),
{
    sanitized_names_a_file(name);
    let s = sanitized(name);
    let mapped = s.map_values(|c: char| harmless(c));
    assert forall|i: int| 0 <= i < s.len() implies mapped[i] == s[i] by {
        let c = s[i];
    }
    assert(mapped =~= s);
    text::trimmed_leaves_alone(s, Edge::Ornament);
}

/// Whether a character stands for itself in a file name.
pub open spec fn stands_for_itself(c: char) -> bool {
    c as u32 != 0x2f && c as u32 != 0x5c && c as u32 != 0
}

/// A file name keeps all of a text, of whatever length, from the first character to the last that
/// is no dot, space or dash: each as it is, or an underscore in the place of a separator or NUL.
/// Where there is no such character, the name is a fixed one.
pub proof fn a_file_name_keeps_the_text(name: Seq<char>) -> (bounds: (int, int))
    ensures
        0 <= bounds.0 <= bounds.1 <= name.len(),
        forall|i: int|
            0 <= i < name.len() && !(bounds.0 <= i < bounds.1) ==> (#[trigger] name[i] == '.'
                || name[i] == ' ' || name[i] == '-'),
        bounds.0 < bounds.1 ==> {
            &&& sanitized(name).len() == bounds.1 - bounds.0
            &&& name[bounds.0] != '.' && name[bounds.0] != ' ' && name[bounds.0] != '-'
            &&& name[bounds.1 - 1] != '.' && name[bounds.1 - 1] != ' ' && name[bounds.1 - 1] != '-'
            &&& forall|i: int|
                0 <= i < sanitized(name).len() ==> #[trigger] sanitized(name)[i]
                    == if stands_for_itself(name[bounds.0 + i]) {
                    name[bounds.0 + i]
                } else {
                    '_'
                }
        },
        bounds.0 == bounds.1 ==> sanitized(name) == "download.bin"@,
{
    let mapped = name.map_values(|c: char| harmless(c));
    let (a, b) = text::trimmed_is_a_stretch(mapped, Edge::Ornament);
    let t = text::trimmed(mapped, Edge::Ornament);
    assert('/' as u32 == 0x2f && '\\' as u32 == 0x5c && '\0' as u32 == 0);
    assert forall|i: int| 0 <= i < name.len() && !(a <= i < b) implies (#[trigger] name[i] == '.'
        || name[i] == ' ' || name[i] == '-') by {
        assert(mapped[i] == harmless(name[i]));
        assert(Edge::Ornament.spec_holds(mapped[i]));
    }
    if a < b {
        assert(t.len() == b - a);
        assert(t[0] == mapped[a] && t.last() == mapped[b - 1]);
        assert forall|i: int| 0 <= i < t.len() implies #[trigger] t[i] == if stands_for_itself(
            name[a + i],
        ) {
            name[a + i]
        } else {
            '_'
        } by {
            assert(t[i] == mapped[a + i]);
        }
    }
    (a, b)
}

/// A text that can be a file name is kept as it is, whatever its length.
pub proof fn plain_names_are_kept(name: Seq<char>)
    requires
        name.len() > 0,
        forall|i: int| 0 <= i < name.len() ==> stands_for_itself(#[trigger] name[i]),
        name[0] != '.' && name[0] != ' ' && name[0] != '-',
        name.last() != '.' && name.last() != ' ' && name.last() != '-',
    ensures
        sanitized(name) == name,
{
    let (a, b) = a_file_name_keeps_the_text(name);
    assert(a == 0 && b == name.len());
    assert(sanitized(name) =~= name);
}

/// A path whose last segment, decoded where that can be, is `d` gives the file name of `d` without
/// the white space around it; of white space alone, or of a slash, the fixed name.
pub proof fn the_last_segment_names_the_file(
    front: Seq<char>,
    segment: Seq<char>,
    x: Seq<char>,
    d: Seq<char>,
    y: Seq<char>,
)
    requires
        front.len() > 0 ==> front[0] == '/',
        forall|i: int| 0 <= i < segment.len() ==> #[trigger] segment[i] != '/',
        forall|i: int| 0 <= i < x.len() ==> text::is_space(#[trigger] x[i]),
        forall|i: int| 0 <= i < y.len() ==> text::is_space(#[trigger] y[i]),
        d.len() > 0 ==> !text::is_space(d[0]) && !text::is_space(d.last()),
        outside::percent_decoded(segment) == Some(x + d + y) || (outside::percent_decoded(
            segment,
        ) is None && segment == x + d + y),
    ensures
        path_name(front.push('/') + segment) == if d.len() == 0 || d == seq!['/'] {
            "download.bin"@
        } else {
            sanitized(d)
        },
{
    reveal_strlit("/");
    let path = front.push('/') + segment;
    assert(path[0] == '/');
    text::taking_what_follows_the_last(front, '/', segment);
    text::trimming_takes_off_the_edges(x, d, y, Edge::Space);
    assert("/"@ =~= seq!['/']);
}

/// A link whose last segment decodes to a text that can be a file name gives that name, character
/// for character, where the server names none.
pub proof fn a_link_names_its_file(
    url: Seq<char>,
    scheme: Seq<char>,
    front: Seq<char>,
    segment: Seq<char>,
    name: Seq<char>,
)
    requires
        outside::url_parts(url) == Some((scheme, front.push('/') + segment)),
        front.len() > 0 ==> front[0] == '/',
        forall|i: int| 0 <= i < segment.len() ==> #[trigger] segment[i] != '/',
        outside::percent_decoded(segment) == Some(name),
        name.len() > 0,
        forall|i: int| 0 <= i < name.len() ==> stands_for_itself(#[trigger] name[i]),
        name[0] != '.' && name[0] != '-' && !text::is_space(name[0]),
        name.last() != '.' && name.last() != '-' && !text::is_space(name.last()),
    ensures
        path_name(front.push('/') + segment) == name,
        chosen_name(url, None) == name,
{
    let none = Seq::<char>::empty();
    assert(none + name + none =~= name);
    assert('/' as u32 == 0x2f);
    if name == seq!['/'] {
        assert(stands_for_itself(name[0]));
    }
    the_last_segment_names_the_file(front, segment, none, name, none);
    plain_names_are_kept(name);
}

/// So does a link whose last segment needs no decoding.
pub proof fn a_plain_segment_is_the_name(front: Seq<char>, name: Seq<char>)
    requires
        front.len() > 0 ==> front[0] == '/',
        name.len() > 0,
        vstd::utf8::is_ascii_chars(name),
        forall|i: int|
            0 <= i < name.len() ==> stands_for_itself(#[trigger] name[i]) && name[i] != '%',
        name[0] != '.' && name[0] != '-' && !text::is_space(name[0]),
        name.last() != '.' && name.last() != '-' && !text::is_space(name.last()),
    ensures
        path_name(front.push('/') + name) == name,
{
    let none = Seq::<char>::empty();
    assert(none + name + none =~= name);
    assert('/' as u32 == 0x2f);
    assert forall|i: int| 0 <= i < name.len() implies #[trigger] name[i] != '/' by {
        assert(stands_for_itself(name[i]));
    }
    if name == seq!['/'] {
        assert(name[0] != '/');
    }
    outside::plain_text_is_kept(name);
    the_last_segment_names_the_file(front, name, none, name, none);
    plain_names_are_kept(name);
}

/// A path that is none, and a link that is none, give the fixed name.
pub proof fn what_names_nothing_gets_the_fixed_name(url: Seq<char>, path: Seq<char>)
    ensures
        path.len() == 0 || path[0] != '/' ==> path_name(path) == "download.bin"@,
        outside::url_parts(url) is None ==> chosen_name(url, None) == "download.bin"@,
        outside::url_parts(url) matches Some((_, p)) ==> chosen_name(url, None) == path_name(p),
{
}

/// A name in the header comes before the link, whatever the link is; a header without one, or
/// with one of white space, is as none.
pub proof fn the_header_comes_before_the_link(url: Seq<char>, cd: Seq<char>)
    ensures
        match disposition_name(cd) {
            Some(n) => if exists|i: int| 0 <= i < n.len() && !text::is_space(#[trigger] n[i]) {
                chosen_name(url, Some(cd)) == sanitized(n)
            } else {
                chosen_name(url, Some(cd)) == chosen_name(url, None)
            },
            None => chosen_name(url, Some(cd)) == chosen_name(url, None),
        },
{
    match disposition_name(cd) {
        Some(n) => {
            let (a, b) = text::trimmed_is_a_stretch(n, Edge::Space);
            if exists|i: int| 0 <= i < n.len() && !text::is_space(#[trigger] n[i]) {
                let i = choose|i: int| 0 <= i < n.len() && !text::is_space(#[trigger] n[i]);
                assert(a <= i < b);
            } else if a < b {
                assert(text::trimmed(n, Edge::Space)[0] == n[a]);
            }
        },
        None => {},
    }
}

/// A header is read piece by piece, from semicolon to semicolon, until one of them gives a name.
pub proof fn a_header_is_read_piece_by_piece(piece: Seq<char>, rest: Seq<char>)
    requires
        forall|i: int| 0 <= i < piece.len() ==> #[trigger] piece[i] != ';',
    ensures
        disposition_name(piece) == part_name(piece),
        disposition_name(piece.push(';') + rest) == match part_name(piece) {
            Some(name) => Some(name),
            None => disposition_name(rest),
        },
{
    text::splitting_at_a_character(piece, ';', rest);
    let one = seq![piece];
    assert(one.drop_first() =~= Seq::<Seq<char>>::empty());
    assert(first_name(one.drop_first()) is None);
    let all = one + text::split(rest, ';');
    assert(all[0] == piece);
    assert(all.drop_first() =~= text::split(rest, ';'));
}

/// A plain piece gives what stands in it behind the equals sign, without the quotes around it.
pub proof fn a_plain_piece_gives_its_value(
    x: Seq<char>,
    q: Seq<char>,
    value: Seq<char>,
    r: Seq<char>,
    y: Seq<char>,
)
    requires
        forall|i: int| 0 <= i < x.len() ==> text::is_space(#[trigger] x[i]),
        forall|i: int| 0 <= i < y.len() ==> text::is_space(#[trigger] y[i]),
        forall|i: int| 0 <= i < q.len() ==> #[trigger] q[i] == '"',
        forall|i: int| 0 <= i < r.len() ==> #[trigger] r[i] == '"',
        value.len() > 0 ==> value[0] != '"' && value.last() != '"',
        value.len() > 0 && r.len() == 0 ==> !text::is_space(value.last()),
        !"filename="@.is_prefix_of(q + value + r),
    ensures
        part_name(x + ("filename="@ + (q + value + r)) + y) == Some(value),
{
    reveal_strlit("filename=");
    reveal_strlit("filename*=");
    let key = "filename="@;
    let tail = q + value + r;
    let s = key + tail;
    assert(s[0] == 'f');
    if r.len() > 0 {
        assert(s.last() == r.last());
    } else if value.len() > 0 {
        assert(s.last() == value.last());
    } else if q.len() > 0 {
        assert(s.last() == q.last());
    } else {
        assert(s.last() == '=');
    }
    text::trimming_takes_off_the_edges(x, s, y, Edge::Space);
    assert(s[8] == '=');
    if "filename*="@.is_prefix_of(s) {
        assert(s.subrange(0, 10)[8] == '*');
    }
    assert(s.subrange(0, 9) =~= key);
    text::stripping_takes_off_what_was_put_in_front(key, tail);
    text::trimming_takes_off_the_edges(q, value, r, Edge::Quote);
}

/// An extended piece gives what stands behind the two single quotes, decoded.
pub proof fn an_extended_piece_gives_its_value(
    x: Seq<char>,
    q: Seq<char>,
    charset: Seq<char>,
    encoded: Seq<char>,
    r: Seq<char>,
    y: Seq<char>,
)
    requires
        forall|i: int| 0 <= i < x.len() ==> text::is_space(#[trigger] x[i]),
        forall|i: int| 0 <= i < y.len() ==> text::is_space(#[trigger] y[i]),
        forall|i: int| 0 <= i < q.len() ==> #[trigger] q[i] == '"',
        forall|i: int| 0 <= i < r.len() ==> #[trigger] r[i] == '"',
        forall|i: int| 0 <= i < charset.len() ==> #[trigger] charset[i] != '\'',
        charset.len() > 0 ==> charset[0] != '"',
        encoded.len() > 0 ==> encoded.last() != '"',
        encoded.len() > 0 && r.len() == 0 ==> !text::is_space(encoded.last()),
        !"filename*="@.is_prefix_of(q + (charset + "''"@ + encoded) + r),
    ensures
        part_name(x + ("filename*="@ + (q + (charset + "''"@ + encoded) + r)) + y)
            == outside::percent_decoded(encoded),
{
    reveal_strlit("filename*=");
    reveal_strlit("''");
    let key = "filename*="@;
    let marks = "''"@;
    let value = charset + marks + encoded;
    let tail = q + value + r;
    let s = key + tail;
    assert(s[0] == 'f');
    if encoded.len() > 0 {
        assert(value.last() == encoded.last());
    } else {
        assert(value.last() == '\'');
    }
    if r.len() > 0 {
        assert(s.last() == r.last());
    } else {
        assert(s.last() == value.last());
    }
    if charset.len() > 0 {
        assert(value[0] == charset[0]);
    } else {
        assert(value[0] == '\'');
    }
    text::trimming_takes_off_the_edges(x, s, y, Edge::Space);
    assert(s.subrange(0, 10) =~= key);
    text::stripping_takes_off_what_was_put_in_front(key, tail);
    text::trimming_takes_off_the_edges(q, value, r, Edge::Quote);
    text::first_at_is_first(value, marks);
    text::a_text_occurs_where_it_was_put(charset, marks, encoded);
    let k = text::first_at(value, marks)->0;
    if k < charset.len() {
        text::occurring_is_having_the_characters(value, marks, k);
        assert(marks[0] == '\'');
        assert(value[k] == charset[k]);
    }
    assert(value.skip(k + 2) =~= encoded);
}

/// A piece that begins, but for white space, with neither key gives nothing.
pub proof fn another_piece_gives_nothing(x: Seq<char>, s: Seq<char>, y: Seq<char>)
    requires
        forall|i: int| 0 <= i < x.len() ==> text::is_space(#[trigger] x[i]),
        forall|i: int| 0 <= i < y.len() ==> text::is_space(#[trigger] y[i]),
        s.len() > 0 ==> !text::is_space(s[0]) && !text::is_space(s.last()),
        !"filename="@.is_prefix_of(s),
        !"filename*="@.is_prefix_of(s),
    ensures
        part_name(x + s + y) is None,
{
    text::trimming_takes_off_the_edges(x, s, y, Edge::Space);
}

/// An extended piece without two single quotes in its value gives nothing.
pub proof fn an_extended_piece_without_quotes_gives_nothing(
    x: Seq<char>,
    value: Seq<char>,
    y: Seq<char>,
)
    requires
        forall|i: int| 0 <= i < x.len() ==> text::is_space(#[trigger] x[i]),
        forall|i: int| 0 <= i < y.len() ==> text::is_space(#[trigger] y[i]),
        value.len() > 0,
        value[0] != '"' && value.last() != '"' && !text::is_space(value.last()),
        !text::occurs(value, "''"@),
        !"filename*="@.is_prefix_of(value),
    ensures
        part_name(x + ("filename*="@ + value) + y) is None,
{
    reveal_strlit("filename*=");
    let key = "filename*="@;
    let s = key + value;
    assert(s[0] == 'f');
    assert(s.last() == value.last());
    text::trimming_takes_off_the_edges(x, s, y, Edge::Space);
    assert(s.subrange(0, 10) =~= key);
    text::stripping_takes_off_what_was_put_in_front(key, value);
    text::trimmed_leaves_alone(value, Edge::Quote);
    text::first_at_is_first(value, "''"@);
    if text::first_at(value, "''"@) is Some {
        assert(text::occurs_at(value, "''"@, text::first_at(value, "''"@)->0));
    }
}

/// A status is one of success from 200 to 299.
pub proof fn success_is_two_hundred_and_some(status: u16)
    ensures
        is_success(status) <==> status / 100 == 2,
{
}

} // verus!
