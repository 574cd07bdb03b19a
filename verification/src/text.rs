//! Text as sequences of characters: searching, trimming and comparing.

use vstd::prelude::*;

verus! {

/// Appends one character, as the documentation of `String::push` says.
pub assume_specification[ String::push ](s: &mut String, c: char)
    ensures
        final(s)@ == old(s)@.push(c),
;

/// The characters with the Unicode property `White_Space`.
pub open spec fn is_space(c: char) -> bool {
    ||| '\u{9}' <= c <= '\u{d}'
    ||| c == ' '
    ||| c == '\u{85}'
    ||| c == '\u{a0}'
    ||| c == '\u{1680}'
    ||| '\u{2000}' <= c <= '\u{200a}'
    ||| c == '\u{2028}'
    ||| c == '\u{2029}'
    ||| c == '\u{202f}'
    ||| c == '\u{205f}'
    ||| c == '\u{3000}'
}

/// A class of characters that is trimmed off the ends of a text.
#[derive(Clone, Copy)]
pub enum Edge {
    /// White space.
    Space,
    /// The double quote.
    Quote,
    /// Dots, spaces and dashes.
    Ornament,
}

impl Edge {
    pub open spec fn spec_holds(self, c: char) -> bool {
        match self {
            Edge::Space => is_space(c),
            Edge::Quote => c == '"',
            Edge::Ornament => c == '.' || c == ' ' || c == '-',
        }
    }

    pub fn holds(self, c: char) -> (r: bool)
        ensures
            r == self.spec_holds(c),
    {
        match self {
            Edge::Space => ('\u{9}' <= c && c <= '\u{d}') || c == ' ' || c == '\u{85}'
                || c == '\u{a0}' || c == '\u{1680}' || ('\u{2000}' <= c && c <= '\u{200a}')
                || c == '\u{2028}' || c == '\u{2029}' || c == '\u{202f}' || c == '\u{205f}'
                || c == '\u{3000}',
            Edge::Quote => c == '"',
            Edge::Ornament => c == '.' || c == ' ' || c == '-',
        }
    }
}

/// `s` without the leading characters of the class.
pub open spec fn trimmed_start(s: Seq<char>, e: Edge) -> Seq<char>
    decreases s.len(),
{
    if s.len() > 0 && e.spec_holds(s[0]) {
        trimmed_start(s.drop_first(), e)
    } else {
        s
    }
}

/// `s` without the trailing characters of the class.
pub open spec fn trimmed_end(s: Seq<char>, e: Edge) -> Seq<char>
    decreases s.len(),
{
    if s.len() > 0 && e.spec_holds(s.last()) {
        trimmed_end(s.drop_last(), e)
    } else {
        s
    }
}

/// `s` without the characters of the class at both ends.
pub open spec fn trimmed(s: Seq<char>, e: Edge) -> Seq<char> {
    trimmed_end(trimmed_start(s, e), e)
}

proof fn lemma_trimmed_start(s: Seq<char>, e: Edge) -> (a: int)
    ensures
        0 <= a <= s.len(),
        trimmed_start(s, e) == s.skip(a),
        a < s.len() ==> !e.spec_holds(s[a]),
        forall|i: int| 0 <= i < a ==> e.spec_holds(#[trigger] s[i]),
    decreases s.len(),
{
    if s.len() > 0 && e.spec_holds(s[0]) {
        let a = lemma_trimmed_start(s.drop_first(), e);
        assert(s.drop_first().skip(a) == s.skip(a + 1));
        assert forall|i: int| 0 <= i < a + 1 implies e.spec_holds(#[trigger] s[i]) by {
            if i > 0 {
                assert(s[i] == s.drop_first()[i - 1]);
            }
        }
        a + 1
    } else {
        assert(s.skip(0) == s);
        0
    }
}

proof fn lemma_trimmed_end(s: Seq<char>, e: Edge) -> (b: int)
    ensures
        0 <= b <= s.len(),
        trimmed_end(s, e) == s.take(b),
        b > 0 ==> !e.spec_holds(s[b - 1]),
        forall|i: int| b <= i < s.len() ==> e.spec_holds(#[trigger] s[i]),
    decreases s.len(),
{
    if s.len() > 0 && e.spec_holds(s.last()) {
        let b = lemma_trimmed_end(s.drop_last(), e);
        assert(s.drop_last().take(b) == s.take(b));
        assert forall|i: int| b <= i < s.len() implies e.spec_holds(#[trigger] s[i]) by {
            if i < s.len() - 1 {
                assert(s[i] == s.drop_last()[i]);
            }
        }
        b
    } else {
        assert(s.take(s.len() as int) == s);
        s.len() as int
    }
}

/// What is left of a trimmed text is a stretch of it that neither begins nor ends with a
/// character of the class, and all that was cut off is of the class.
pub proof fn trimmed_is_a_stretch(s: Seq<char>, e: Edge) -> (bounds: (int, int))
    ensures
        0 <= bounds.0 <= bounds.1 <= s.len(),
        trimmed(s, e) == s.subrange(bounds.0, bounds.1),
        trimmed(s, e).len() > 0 ==> !e.spec_holds(trimmed(s, e)[0]) && !e.spec_holds(
            trimmed(s, e).last(),
        ),
        forall|i: int| 0 <= i < bounds.0 ==> e.spec_holds(#[trigger] s[i]),
        forall|i: int| bounds.1 <= i < s.len() ==> e.spec_holds(#[trigger] s[i]),
{
    let a = lemma_trimmed_start(s, e);
    let rest = s.skip(a);
    let b = lemma_trimmed_end(rest, e);
    assert(rest.take(b) == s.subrange(a, a + b));
    assert forall|i: int| a + b <= i < s.len() implies e.spec_holds(#[trigger] s[i]) by {
        assert(s[i] == rest[i - a]);
    }
    (a, a + b)
}

/// A text that neither begins nor ends with a character of the class stays as it is.
pub proof fn trimmed_leaves_alone(s: Seq<char>, e: Edge)
    requires
        s.len() > 0 ==> !e.spec_holds(s[0]) && !e.spec_holds(s.last()),
    ensures
        trimmed(s, e) == s,
{
}

/// Trimming twice is trimming once.
pub proof fn trimming_is_idempotent(s: Seq<char>, e: Edge)
    ensures
        trimmed(trimmed(s, e), e) == trimmed(s, e),
{
    trimmed_is_a_stretch(s, e);
    trimmed_leaves_alone(trimmed(s, e), e);
}

/// The characters of a string.
pub fn chars_of(s: &str) -> (r: Vec<char>)
    ensures
        r@ == s@,
{
    let mut r: Vec<char> = Vec::new();
    for c in it: s.chars()
        invariant
            it.seq() == s@,
            r@ == s@.take(it.index() as int),
    {
        r.push(c);
    }
    assert(s@.take(s@.len() as int) == s@);
    r
}

/// The string made of the given characters.
pub fn string_of(cs: &[char]) -> (r: String)
    ensures
        r@ == cs@,
{
    let mut r: String = String::new();
    let mut i: usize = 0;
    while i < cs.len()
        invariant
            i <= cs.len(),
            r@ == cs@.take(i as int),
        decreases cs.len() - i,
    {
        r.push(cs[i]);
        i += 1;
    }
    assert(cs@.take(cs@.len() as int) == cs@);
    r
}

/// The text without the class of characters at both ends.
pub fn trim(cs: &[char], e: Edge) -> (r: &[char])
    ensures
        r@ == trimmed(cs@, e),
{
    let mut a: usize = 0;
    assert(cs@.skip(0) == cs@);
    while a < cs.len() && e.holds(cs[a])
        invariant
            a <= cs.len(),
            trimmed_start(cs@, e) == trimmed_start(cs@.skip(a as int), e),
        decreases cs.len() - a,
    {
        assert(cs@.skip(a as int).drop_first() == cs@.skip(a + 1));
        a += 1;
    }
    let mut b: usize = cs.len();
    assert(cs@.subrange(a as int, b as int) == cs@.skip(a as int));
    while b > a && e.holds(cs[b - 1])
        invariant
            a <= b <= cs.len(),
            trimmed(cs@, e) == trimmed_end(cs@.subrange(a as int, b as int), e),
        decreases b - a,
    {
        assert(cs@.subrange(a as int, b as int).drop_last() == cs@.subrange(a as int, b - 1));
        b -= 1;
    }
    &cs[a..b]
}

/// Whether two texts are the same.
pub fn same(a: &[char], b: &[char]) -> (r: bool)
    ensures
        r == (a@ == b@),
{
    if a.len() != b.len() {
        return false;
    }
    let mut i: usize = 0;
    while i < a.len()
        invariant
            a.len() == b.len(),
            i <= a.len(),
            forall|j: int| 0 <= j < i ==> a@[j] == b@[j],
        decreases a.len() - i,
    {
        if a[i] != b[i] {
            return false;
        }
        i += 1;
    }
    assert(a@ =~= b@);
    true
}

/// Whether `p` is at the start of `s`.
pub fn starts_with(s: &[char], p: &[char]) -> (r: bool)
    ensures
        r == p@.is_prefix_of(s@),
{
    p.len() <= s.len() && same(&s[0..p.len()], p)
}

/// Whether `p` is at the end of `s`.
pub fn ends_with(s: &[char], p: &[char]) -> (r: bool)
    ensures
        r == p@.is_suffix_of(s@),
{
    p.len() <= s.len() && same(&s[s.len() - p.len()..s.len()], p)
}

/// Whether `p` stands in `s` at position `i`.
pub open spec fn occurs_at(s: Seq<char>, p: Seq<char>, i: int) -> bool {
    0 <= i && i + p.len() <= s.len() && s.subrange(i, i + p.len()) == p
}

/// Whether `p` stands anywhere in `s`.
pub open spec fn occurs(s: Seq<char>, p: Seq<char>) -> bool {
    exists|i: int| occurs_at(s, p, i)
}

/// The first position from `i` on at which `p` stands in `s`.
pub open spec fn first_from(s: Seq<char>, p: Seq<char>, i: int) -> Option<int>
    decreases s.len() + 1 - i,
{
    if i + p.len() > s.len() {
        None
    } else if s.subrange(i, i + p.len()) == p {
        Some(i)
    } else {
        first_from(s, p, i + 1)
    }
}

/// The first position at which `p` stands in `s`.
pub open spec fn first_at(s: Seq<char>, p: Seq<char>) -> Option<int> {
    first_from(s, p, 0)
}

proof fn lemma_first_from(s: Seq<char>, p: Seq<char>, i: int)
    requires
        0 <= i,
    ensures
        match first_from(s, p, i) {
            Some(k) => i <= k && occurs_at(s, p, k) && (forall|j: int|
                i <= j < k ==> !#[trigger] occurs_at(s, p, j)),
            None => forall|j: int| i <= j ==> !#[trigger] occurs_at(s, p, j),
        },
    decreases s.len() + 1 - i,
{
    if i + p.len() <= s.len() && s.subrange(i, i + p.len()) != p {
        lemma_first_from(s, p, i + 1);
    }
}

/// The position found is an occurrence, nothing before it is one, and one is found
/// whenever there is one.
pub proof fn first_at_is_first(s: Seq<char>, p: Seq<char>)
    ensures
        match first_at(s, p) {
            Some(k) => occurs_at(s, p, k) && (forall|j: int| #[trigger]
                occurs_at(s, p, j) ==> k <= j),
            None => !occurs(s, p),
        },
{
    lemma_first_from(s, p, 0);
}

/// The first position at which `p` stands in `s`.
pub fn find(s: &[char], p: &[char]) -> (r: Option<usize>)
    ensures
        match r {
            Some(i) => first_at(s@, p@) == Some(i as int),
            None => first_at(s@, p@) is None,
        },
{
    let mut i: usize = 0;
    while i <= s.len() && p.len() <= s.len() - i
        invariant
            i <= s.len() + 1,
            first_at(s@, p@) == first_from(s@, p@, i as int),
        decreases s.len() + 1 - i,
    {
        if same(&s[i..i + p.len()], p) {
            return Some(i);
        }
        if i == s.len() {
            assert(first_from(s@, p@, i + 1) is None);
            return None;
        }
        i += 1;
    }
    None
}

/// Whether `p` stands anywhere in `s`.
pub fn contains(s: &[char], p: &[char]) -> (r: bool)
    ensures
        r == occurs(s@, p@),
{
    proof {
        first_at_is_first(s@, p@);
    }
    find(s, p).is_some()
}

/// The number of characters before the first `c`, or before the end.
pub open spec fn before(s: Seq<char>, c: char) -> int
    decreases s.len(),
{
    if s.len() == 0 || s[0] == c {
        0
    } else {
        1 + before(s.drop_first(), c)
    }
}

/// What lies between the occurrences of `c`.
pub open spec fn split(s: Seq<char>, c: char) -> Seq<Seq<char>>
    decreases s.len(),
{
    let k = before(s, c);
    if 0 <= k < s.len() {
        seq![s.take(k)] + split(s.skip(k + 1), c)
    } else {
        seq![s]
    }
}

pub proof fn lemma_before(s: Seq<char>, c: char)
    ensures
        0 <= before(s, c) <= s.len(),
        before(s, c) < s.len() ==> s[before(s, c)] == c,
        forall|j: int| 0 <= j < before(s, c) ==> s[j] != c,
    decreases s.len(),
{
    if s.len() > 0 && s[0] != c {
        lemma_before(s.drop_first(), c);
        assert forall|j: int| 0 <= j < before(s, c) implies s[j] != c by {
            if j > 0 {
                assert(s[j] == s.drop_first()[j - 1]);
            }
        }
    }
}

/// The number of characters before the first `c`, or before the end.
pub fn count_before(s: &[char], c: char) -> (r: usize)
    ensures
        r == before(s@, c),
        r <= s.len(),
{
    let mut i: usize = 0;
    assert(s@.skip(0) == s@);
    while i < s.len() && s[i] != c
        invariant
            i <= s.len(),
            before(s@, c) == i + before(s@.skip(i as int), c),
        decreases s.len() - i,
    {
        assert(s@.skip(i as int).drop_first() == s@.skip(i + 1));
        i += 1;
    }
    i
}

/// What follows the last `c`, or all of `s`.
pub open spec fn after_last(s: Seq<char>, c: char) -> Seq<char>
    decreases s.len(),
{
    if s.len() == 0 || s.last() == c {
        seq![]
    } else {
        after_last(s.drop_last(), c).push(s.last())
    }
}

proof fn lemma_after_last(s: Seq<char>, c: char, k: int)
    requires
        0 <= k <= s.len(),
        k > 0 ==> s[k - 1] == c,
        forall|j: int| k <= j < s.len() ==> s[j] != c,
    ensures
        after_last(s, c) == s.skip(k),
    decreases s.len(),
{
    if k < s.len() {
        lemma_after_last(s.drop_last(), c, k);
        assert(s.drop_last().skip(k).push(s.last()) == s.skip(k));
    } else {
        assert(s.skip(k) == Seq::<char>::empty());
    }
}

/// What follows the last `c`, or all of `s`.
pub fn tail_after_last(s: &[char], c: char) -> (r: &[char])
    ensures
        r@ == after_last(s@, c),
{
    let mut k: usize = s.len();
    while k > 0 && s[k - 1] != c
        invariant
            k <= s.len(),
            forall|j: int| k <= j < s.len() ==> s@[j] != c,
        decreases k,
    {
        k -= 1;
    }
    proof {
        lemma_after_last(s@, c, k as int);
        assert(s@.subrange(k as int, s@.len() as int) == s@.skip(k as int));
    }
    &s[k..s.len()]
}

/// `s` without `p` at its start, however often it stands there.
pub open spec fn stripped(s: Seq<char>, p: Seq<char>) -> Seq<char>
    decreases s.len(),
{
    if p.len() > 0 && p.is_prefix_of(s) {
        stripped(s.skip(p.len() as int), p)
    } else {
        s
    }
}

/// `s` without `p` at its start, however often it stands there.
pub fn strip<'a>(s: &'a [char], p: &[char]) -> (r: &'a [char])
    ensures
        r@ == stripped(s@, p@),
{
    let mut i: usize = 0;
    assert(s@.skip(0) == s@);
    assert(s@.subrange(0, s@.len() as int) == s@);
    while p.len() > 0 && starts_with(&s[i..s.len()], p)
        invariant
            i <= s.len(),
            stripped(s@, p@) == stripped(s@.skip(i as int), p@),
            s@.subrange(i as int, s@.len() as int) == s@.skip(i as int),
        decreases s.len() - i,
    {
        assert(s@.skip(i as int).skip(p@.len() as int) == s@.skip(i + p@.len()));
        i += p.len();
        assert(s@.subrange(i as int, s@.len() as int) == s@.skip(i as int));
    }
    &s[i..s.len()]
}

/// The lower-case form of an ASCII letter; any other character itself.
pub open spec fn ascii_lower(c: char) -> char {
    if 'A' <= c <= 'Z' {
        (c as u8 + 32) as char
    } else {
        c
    }
}

/// Whether two texts are the same but for the case of ASCII letters.
pub open spec fn same_but_case(a: Seq<char>, b: Seq<char>) -> bool {
    a.len() == b.len() && forall|i: int|
        0 <= i < a.len() ==> ascii_lower(#[trigger] a[i]) == ascii_lower(b[i])
}

fn lower(c: char) -> (r: char)
    ensures
        r == ascii_lower(c),
{
    if 'A' <= c && c <= 'Z' {
        (c as u8 + 32) as char
    } else {
        c
    }
}

/// A text with its ASCII letters in lower case.
pub open spec fn lowered(s: Seq<char>) -> Seq<char> {
    s.map_values(|c: char| ascii_lower(c))
}

/// A text with its ASCII letters in lower case.
pub fn lowered_chars(s: &[char]) -> (r: Vec<char>)
    ensures
        r@ == lowered(s@),
{
    let mut r: Vec<char> = Vec::new();
    let mut i: usize = 0;
    while i < s.len()
        invariant
            i <= s.len(),
            r@ == lowered(s@.take(i as int)),
        decreases s.len() - i,
    {
        r.push(lower(s[i]));
        assert(r@ =~= lowered(s@.take(i + 1)));
        i += 1;
    }
    assert(s@.take(s@.len() as int) == s@);
    r
}

/// Whether two texts are the same but for the case of ASCII letters.
pub fn same_ignoring_case(a: &[char], b: &[char]) -> (r: bool)
    ensures
        r == same_but_case(a@, b@),
{
    if a.len() != b.len() {
        return false;
    }
    let mut i: usize = 0;
    while i < a.len()
        invariant
            a.len() == b.len(),
            i <= a.len(),
            forall|j: int| 0 <= j < i ==> ascii_lower(#[trigger] a@[j]) == ascii_lower(b@[j]),
        decreases a.len() - i,
    {
        if lower(a[i]) != lower(b[i]) {
            return false;
        }
        i += 1;
    }
    true
}

/// An optional string, as characters.
pub open spec fn opt_text(s: Option<String>) -> Option<Seq<char>> {
    match s {
        Some(t) => Some(t@),
        None => None,
    }
}

/// The texts of a list of strings.
pub open spec fn texts(v: Seq<String>) -> Seq<Seq<char>> {
    v.map_values(|s: String| s@)
}

/// The texts of an optional list of strings.
pub open spec fn opt_texts(v: Option<Vec<String>>) -> Option<Seq<Seq<char>>> {
    match v {
        Some(list) => Some(texts(list@)),
        None => None,
    }
}

/// A copy of a list of strings.
pub fn copy_texts(v: &Vec<String>) -> (r: Vec<String>)
    ensures
        texts(r@) == texts(v@),
{
    let mut r: Vec<String> = Vec::new();
    let mut i: usize = 0;
    while i < v.len()
        invariant
            i <= v@.len(),
            texts(r@) == texts(v@).take(i as int),
        decreases v.len() - i,
    {
        let ghost before = texts(r@);
        r.push(v[i].clone());
        assert(texts(r@) =~= before.push(texts(v@)[i as int]));
        assert(texts(v@).take(i + 1) =~= texts(v@).take(i as int).push(texts(v@)[i as int]));
        i += 1;
    }
    assert(texts(v@).take(v@.len() as int) =~= texts(v@));
    r
}

/// Two strings put together.
pub fn joined(a: &str, b: &str) -> (r: String)
    ensures
        r@ == a@ + b@,
{
    let mut r: String = a.to_owned();
    r.append(b);
    r
}

/// Whether two strings hold the same text.
pub fn same_text(a: &str, b: &str) -> (r: bool)
    ensures
        r == (a@ == b@),
{
    same(&chars_of(a), &chars_of(b))
}

/// The characters that are trimmed: double quotes; dots, spaces and dashes; and as white space
/// those that Unicode counts as such, of the ASCII characters the space and those from the tab to
/// the carriage return.
pub proof fn edges_are_these(c: char)
    ensures
        Edge::Quote.spec_holds(c) <==> c as u32 == 0x22,
        Edge::Ornament.spec_holds(c) <==> c as u32 == 0x2e || c as u32 == 0x20 || c as u32 == 0x2d,
        c as u32 <= 0x7f ==> (Edge::Space.spec_holds(c) <==> c as u32 == 0x20 || 0x09 <= c as u32
            <= 0x0d),
        c as u32 > 0x7f ==> (Edge::Space.spec_holds(c) <==> c as u32 == 0x85 || c as u32 == 0xa0
            || c as u32 == 0x1680 || 0x2000 <= c as u32 <= 0x200a || c as u32 == 0x2028 || c as u32
            == 0x2029 || c as u32 == 0x202f || c as u32 == 0x205f || c as u32 == 0x3000),
        is_space(c) == Edge::Space.spec_holds(c),
{
}

/// What stands between two stretches of the class is what is left when they are trimmed off.
pub proof fn trimming_takes_off_the_edges(x: Seq<char>, s: Seq<char>, y: Seq<char>, e: Edge)
    requires
        forall|i: int| 0 <= i < x.len() ==> e.spec_holds(#[trigger] x[i]),
        forall|i: int| 0 <= i < y.len() ==> e.spec_holds(#[trigger] y[i]),
        s.len() > 0 ==> !e.spec_holds(s[0]) && !e.spec_holds(s.last()),
    ensures
        trimmed(x + s + y, e) == s,
{
    let w = x + s + y;
    let (a, b) = trimmed_is_a_stretch(w, e);
    let n = x.len() as int;
    let m = n + s.len();
    assert forall|i: int| 0 <= i < n implies e.spec_holds(#[trigger] w[i]) by {
        assert(w[i] == x[i]);
    }
    assert forall|i: int| m <= i < w.len() implies e.spec_holds(#[trigger] w[i]) by {
        assert(w[i] == y[i - m]);
    }
    if s.len() > 0 {
        assert(w[n] == s[0] && w[m - 1] == s.last());
        assert(a <= n && m <= b);
        assert(trimmed(w, e)[0] == w[a] && trimmed(w, e).last() == w[b - 1]);
        assert(a == n && b == m);
        assert(w.subrange(n, m) =~= s);
    } else if a < b {
        assert(trimmed(w, e)[0] == w[a]);
    } else {
        assert(trimmed(w, e) =~= s);
    }
}

/// A text stands in another at a position where, from there on, the characters are the same.
pub proof fn occurring_is_having_the_characters(s: Seq<char>, p: Seq<char>, i: int)
    ensures
        occurs_at(s, p, i) <==> 0 <= i && i + p.len() <= s.len() && (forall|j: int|
            0 <= j < p.len() ==> s[i + j] == #[trigger] p[j]),
{
    if 0 <= i && i + p.len() <= s.len() {
        let piece = s.subrange(i, i + p.len());
        if piece == p {
            assert forall|j: int| 0 <= j < p.len() implies s[i + j] == #[trigger] p[j] by {
                assert(piece[j] == s[i + j]);
            }
        }
        if forall|j: int| 0 <= j < p.len() ==> s[i + j] == #[trigger] p[j] {
            assert(piece =~= p);
        }
    }
}

/// A text stands in every text that is made of it with something before and after it.
pub proof fn a_text_occurs_where_it_was_put(a: Seq<char>, p: Seq<char>, b: Seq<char>)
    ensures
        occurs(a + p + b, p),
        occurs_at(a + p + b, p, a.len() as int),
{
    assert((a + p + b).subrange(a.len() as int, (a.len() + p.len()) as int) =~= p);
    assert(occurs_at(a + p + b, p, a.len() as int));
}

/// Where a text stands in another, that other is made of it with something before and after it.
pub proof fn what_occurs_was_put_there(s: Seq<char>, p: Seq<char>) -> (around: (
    Seq<char>,
    Seq<char>,
))
    requires
        occurs(s, p),
    ensures
        s == around.0 + p + around.1,
{
    let i = choose|i: int| occurs_at(s, p, i);
    let a = s.take(i);
    let b = s.skip(i + p.len());
    assert(s =~= a + s.subrange(i, i + p.len()) + b);
    (a, b)
}

/// The count before a character is the length of what was put before its first occurrence.
pub proof fn counting_before_a_character(a: Seq<char>, c: char, b: Seq<char>)
    requires
        forall|i: int| 0 <= i < a.len() ==> #[trigger] a[i] != c,
    ensures
        before(a.push(c) + b, c) == a.len(),
        before(a, c) == a.len(),
{
    let s = a.push(c) + b;
    lemma_before(s, c);
    lemma_before(a, c);
    let k = before(s, c);
    assert(s[a.len() as int] == c);
    if k < a.len() {
        assert(s[k] == a[k]);
    }
}

/// Splitting takes off, one after the other, what stands before the character.
pub proof fn splitting_at_a_character(a: Seq<char>, c: char, b: Seq<char>)
    requires
        forall|i: int| 0 <= i < a.len() ==> #[trigger] a[i] != c,
    ensures
        split(a, c) == seq![a],
        split(a.push(c) + b, c) == seq![a] + split(b, c),
{
    counting_before_a_character(a, c, b);
    let s = a.push(c) + b;
    assert(s.take(a.len() as int) =~= a);
    assert(s.skip(a.len() as int + 1) =~= b);
}

/// What follows the last of a character is what was put behind it, or all where there is none.
pub proof fn taking_what_follows_the_last(a: Seq<char>, c: char, b: Seq<char>)
    requires
        forall|i: int| 0 <= i < b.len() ==> #[trigger] b[i] != c,
    ensures
        after_last(a.push(c) + b, c) == b,
        after_last(b, c) == b,
{
    let s = a.push(c) + b;
    assert forall|j: int| a.len() + 1 <= j < s.len() implies s[j] != c by {
        assert(s[j] == b[j - a.len() - 1]);
    }
    lemma_after_last(s, c, a.len() as int + 1);
    assert(s.skip(a.len() as int + 1) =~= b);
    lemma_after_last(b, c, 0);
    assert(b.skip(0) =~= b);
}

/// Stripping takes off what was put in front, however often, and nothing else.
pub proof fn stripping_takes_off_what_was_put_in_front(p: Seq<char>, s: Seq<char>)
    requires
        p.len() > 0,
    ensures
        stripped(p + s, p) == stripped(s, p),
        !p.is_prefix_of(s) ==> stripped(s, p) == s,
{
    assert((p + s).subrange(0, p.len() as int) =~= p);
    assert((p + s).skip(p.len() as int) =~= s);
}

/// Lowering changes the capital letters of ASCII, each into the letter 32 places on, and nothing
/// else.
pub proof fn lowering_changes_capitals_only(s: Seq<char>, i: int)
    requires
        0 <= i < s.len(),
    ensures
        lowered(s).len() == s.len(),
        0x41 <= s[i] as u32 <= 0x5a ==> lowered(s)[i] as u32 == s[i] as u32 + 0x20,
        !(0x41 <= s[i] as u32 <= 0x5a) ==> lowered(s)[i] == s[i],
{
}

/// Two texts are the same but for case where they are the same when lowered.
pub proof fn same_but_case_is_same_when_lowered(a: Seq<char>, b: Seq<char>)
    ensures
        same_but_case(a, b) <==> lowered(a) == lowered(b),
{
    if same_but_case(a, b) {
        assert(lowered(a) =~= lowered(b));
    }
    if lowered(a) == lowered(b) {
        assert(lowered(a).len() == a.len() && lowered(b).len() == b.len());
        assert forall|i: int| 0 <= i < a.len() implies ascii_lower(#[trigger] a[i]) == ascii_lower(
            b[i],
        ) by {
            assert(lowered(a)[i] == ascii_lower(a[i]));
            assert(lowered(b)[i] == ascii_lower(b[i]));
        }
    }
}

} // verus!
