//! The calls into other crates, with what is taken to hold of their results.

use vstd::prelude::*;

verus! {

/// The value of a hexadecimal digit, in either case.
pub open spec fn nibble(b: u8) -> Option<u8> {
    if 48 <= b <= 57 {
        Some((b - 48) as u8)
    } else if 65 <= b <= 70 {
        Some((b - 55) as u8)
    } else if 97 <= b <= 102 {
        Some((b - 87) as u8)
    } else {
        None
    }
}

/// Bytes with every `%` that two hexadecimal digits follow replaced, digits and all, by the
/// byte that they write; all else stays as it is.
pub open spec fn unescaped(b: Seq<u8>) -> Seq<u8>
    decreases b.len(),
{
    if b.len() == 0 {
        seq![]
    } else if b.len() >= 3 && b[0] == 37 && nibble(b[1]) is Some && nibble(b[2]) is Some {
        seq![(nibble(b[1])->0 * 16 + nibble(b[2])->0) as u8] + unescaped(b.skip(3))
    } else {
        seq![b[0]] + unescaped(b.skip(1))
    }
}

/// The text that a percent-encoded text stands for, where it is text.
pub open spec fn percent_decoded(s: Seq<char>) -> Option<Seq<char>> {
    let bytes = unescaped(vstd::utf8::encode_utf8(s));
    if vstd::utf8::valid_utf8(bytes) {
        Some(vstd::utf8::decode_utf8(bytes))
    } else {
        None
    }
}

/// Calls `urlencoding::decode`. Taken to hold: it replaces every escape in the UTF-8 bytes of
/// the text by its byte, keeps every other byte (a `+` too, and a `%` that starts no escape),
/// and fails exactly where what comes out is no UTF-8.
#[verifier::external_body]
pub(crate) fn percent_decode(data: &str) -> (r: Option<String>)
    ensures
        match r {
            Some(s) => percent_decoded(data@) == Some(s@),
            None => percent_decoded(data@) is None,
        },
{
    urlencoding::decode(data).ok().map(|text| text.into_owned())
}

/// The scheme and the path of an absolute URL, as the URL standard reads a text.
pub uninterp spec fn url_parts(text: Seq<char>) -> Option<(Seq<char>, Seq<char>)>;

/// The scheme and the path of a URL.
pub struct UrlParts {
    pub scheme: String,
    pub path: String,
}

/// Calls `url::Url::parse`, and `scheme` and `path` of what it gives. Taken to hold: whether
/// the text is a URL, and its scheme and path, depend on the text alone, and the path is ASCII.
#[verifier::external_body]
pub(crate) fn parse_url(text: &str) -> (r: Option<UrlParts>)
    ensures
        match r {
            Some(u) => url_parts(text@) == Some((u.scheme@, u.path@)) && vstd::utf8::is_ascii_chars(
                u.path@,
            ),
            None => url_parts(text@) is None,
        },
{
    let url = url::Url::parse(text).ok()?;
    Some(UrlParts { scheme: url.scheme().to_string(), path: url.path().to_string() })
}

/// A lower-case hexadecimal digit.
pub open spec fn is_hex(c: char) -> bool {
    '0' <= c <= '9' || 'a' <= c <= 'f'
}

/// A random UUID as text: five groups of digits with hyphens between them, the third group
/// beginning with the version and the fourth with the variant.
pub open spec fn is_random_uuid(s: Seq<char>) -> bool {
    &&& s.len() == 36
    &&& s[8] == '-' && s[13] == '-' && s[18] == '-' && s[23] == '-'
    &&& s[14] == '4'
    &&& s[19] == '8' || s[19] == '9' || s[19] == 'a' || s[19] == 'b'
    &&& forall|i: int|
        0 <= i < 36 && i != 8 && i != 13 && i != 18 && i != 23 ==> is_hex(#[trigger] s[i])
}

/// Calls `uuid::Uuid::new_v4`. Taken to hold: what comes back is the text of a random UUID.
/// Which one is left to chance, so no more is said; that two of them differ is not said
/// either. Where the machine has no source of randomness the call panics.
#[verifier::external_body]
pub(crate) fn random_uuid() -> (r: String)
    ensures
        is_random_uuid(r@),
{
    uuid::Uuid::new_v4().to_string()
}

/// What the groups of a regular expression, the whole match first, hold at its first match in
/// a text; a group that took no part holds nothing. No match, or no regular expression: `None`.
pub uninterp spec fn regex_groups(pattern: Seq<char>, text: Seq<char>) -> Option<
    Seq<Option<Seq<char>>>,
>;

/// The texts of the groups of a match.
pub open spec fn group_views(groups: Seq<Option<String>>) -> Seq<Option<Seq<char>>> {
    groups.map_values(
        |g: Option<String>|
            match g {
                Some(s) => Some(s@),
                None => None,
            },
    )
}

/// Calls `regex::Regex::new` and `captures`. Taken to hold: what they find depends on the
/// pattern and the text alone.
#[verifier::external_body]
pub(crate) fn regex_captures(pattern: &str, text: &str) -> (r: Option<Vec<Option<String>>>)
    ensures
        match r {
            Some(groups) => regex_groups(pattern@, text@) == Some(group_views(groups@)),
            None => regex_groups(pattern@, text@) is None,
        },
{
    let found = regex::Regex::new(pattern).ok()?.captures(text)?;
    Some(found.iter().map(|g| g.map(|m| m.as_str().to_string())).collect())
}

/// A text in double quotes, with what cannot stand there as it is escaped, as the `Debug` of a
/// string writes it.
pub uninterp spec fn quoted_text(text: Seq<char>) -> Seq<char>;

/// Calls the `Debug` of `str`. Taken to hold: what it writes depends on the text alone.
#[verifier::external_body]
pub(crate) fn quoted(text: &str) -> (r: String)
    ensures
        r@ == quoted_text(text@),
{
    format!("{:?}", text)
}

/// Calls `dirs::home_dir`. It reads the environment and the user database of the machine;
/// nothing is taken to hold of the result.
#[verifier::external_body]
pub(crate) fn home_dir() -> Option<Vec<u8>> {
    dirs::home_dir().map(|p| p.into_os_string().into_encoded_bytes())
}

/// Calls `dirs::data_dir`. It reads the environment; nothing is taken to hold of the result.
#[verifier::external_body]
pub(crate) fn data_dir() -> Option<Vec<u8>> {
    dirs::data_dir().map(|p| p.into_os_string().into_encoded_bytes())
}

/// Calls `dirs::config_dir`. It reads the environment; nothing is taken to hold of the result.
#[verifier::external_body]
pub(crate) fn config_dir() -> Option<Vec<u8>> {
    dirs::config_dir().map(|p| p.into_os_string().into_encoded_bytes())
}

/// Bytes without a `%` stand for themselves.
pub proof fn plain_bytes_are_kept(b: Seq<u8>)
    requires
        forall|i: int| 0 <= i < b.len() ==> #[trigger] b[i] != 37,
    ensures
        unescaped(b) == b,
    decreases b.len(),
{
    if b.len() > 0 {
        let rest = b.skip(1);
        assert forall|i: int| 0 <= i < rest.len() implies #[trigger] rest[i] != 37 by {
            assert(rest[i] == b[i + 1]);
        }
        assert(b[0] != 37);
        plain_bytes_are_kept(rest);
        assert(seq![b[0]] + rest =~= b);
    } else {
        assert(unescaped(b) =~= b);
    }
}

/// An escape stands for the byte whose higher and lower half its digits write; what stands before
/// it is kept, and what follows is read on.
pub proof fn an_escape_stands_for_its_byte(
    a: Seq<u8>,
    high: u8,
    low: u8,
    rest: Seq<u8>,
    upper: bool,
)
    requires
        forall|i: int| 0 <= i < a.len() ==> #[trigger] a[i] != 37,
        high < 16,
        low < 16,
    ensures
        ({
            let letters: int = if upper { 55 } else { 87 };
            let h = (if high < 10 { 48 + high } else { letters + high }) as u8;
            let l = (if low < 10 { 48 + low } else { letters + low }) as u8;
            unescaped(a + seq![37u8, h, l] + rest) == a + seq![(16 * high + low) as u8] + unescaped(
                rest,
            )
        }),
    decreases a.len(),
{
    let letters: int = if upper { 55 } else { 87 };
    let h = (if high < 10 { 48 + high } else { letters + high }) as u8;
    let l = (if low < 10 { 48 + low } else { letters + low }) as u8;
    let w = a + seq![37u8, h, l] + rest;
    if a.len() == 0 {
        assert(w[0] == 37 && w[1] == h && w[2] == l);
        assert(w.skip(3) =~= rest);
        assert(a + seq![(16 * high + low) as u8] + unescaped(rest) =~= seq![
            (16 * high + low) as u8,
        ] + unescaped(rest));
    } else {
        let b = a.skip(1);
        assert forall|i: int| 0 <= i < b.len() implies #[trigger] b[i] != 37 by {
            assert(b[i] == a[i + 1]);
        }
        an_escape_stands_for_its_byte(b, high, low, rest, upper);
        assert(w[0] == a[0] && a[0] != 37);
        assert(w.skip(1) =~= b + seq![37u8, h, l] + rest);
        assert(seq![a[0]] + (b + seq![(16 * high + low) as u8] + unescaped(rest)) =~= a + seq![
            (16 * high + low) as u8,
        ] + unescaped(rest));
    }
}

/// ASCII text without a `%` stands for itself.
pub proof fn plain_text_is_kept(s: Seq<char>)
    requires
        vstd::utf8::is_ascii_chars(s),
        forall|i: int| 0 <= i < s.len() ==> #[trigger] s[i] != '%',
    ensures
        percent_decoded(s) == Some(s),
{
    let bytes = vstd::utf8::encode_utf8(s);
    vstd::utf8::is_ascii_chars_encode_utf8(s);
    assert forall|i: int| 0 <= i < bytes.len() implies #[trigger] bytes[i] != 37 by {
        assert(bytes[i] == s[i] as u8);
        assert('%' as u32 == 37);
    }
    plain_bytes_are_kept(bytes);
    vstd::utf8::encode_utf8_valid_utf8(s);
    vstd::utf8::encode_utf8_decode_utf8(s);
}

} // verus!
