//! File system paths as text, with `/` between their components.

use vstd::prelude::*;

use crate::text::{chars_of, same, string_of};

verus! {

/// `rest` taken from the directory `base`: an absolute `rest` stands for itself.
pub open spec fn join_spec(base: Seq<char>, rest: Seq<char>) -> Seq<char> {
    if rest.len() > 0 && rest[0] == '/' {
        rest
    } else if base.len() == 0 || base.last() == '/' {
        base + rest
    } else {
        base.push('/') + rest
    }
}

/// Where the piece between slashes that ends at `n` begins.
pub open spec fn piece_start(s: Seq<char>, n: int) -> int
    decreases n,
{
    if n <= 0 {
        0
    } else if s[n - 1] == '/' {
        n
    } else {
        piece_start(s, n - 1)
    }
}

/// The bounds of the last component within the first `n` characters. Empty pieces are none,
/// nor is a single dot unless the path begins with it.
pub open spec fn component_before(s: Seq<char>, n: int) -> Option<(int, int)>
    decreases n,
{
    if n <= 0 {
        None
    } else if s[n - 1] == '/' {
        component_before(s, n - 1)
    } else {
        let b = piece_start(s, n);
        if 0 < b < n && s.subrange(b, n) == seq!['.'] {
            component_before(s, b)
        } else {
            Some((b, n))
        }
    }
}

/// The last component, unless it is a dot or two.
pub open spec fn file_name_spec(s: Seq<char>) -> Option<Seq<char>> {
    match component_before(s, s.len() as int) {
        Some((a, b)) => {
            let name = s.subrange(a, b);
            if name == seq!['.'] || name == seq!['.', '.'] {
                None
            } else {
                Some(name)
            }
        },
        None => None,
    }
}

/// The path without its last component; the root and the empty path have none.
pub open spec fn parent_spec(s: Seq<char>) -> Option<Seq<char>> {
    match component_before(s, s.len() as int) {
        Some((a, _)) => Some(
            match component_before(s, a) {
                Some((_, e)) => s.take(e),
                None => if s[0] == '/' {
                    s.take(1)
                } else {
                    s.take(0)
                },
            },
        ),
        None => None,
    }
}

/// The position of the last dot of a file name that has something before it.
pub open spec fn dot_in(name: Seq<char>, n: int) -> Option<int>
    decreases n,
{
    if n <= 1 {
        None
    } else if name[n - 1] == '.' {
        Some(n - 1)
    } else {
        dot_in(name, n - 1)
    }
}

/// What stands before the last dot of the file name, or all of it.
pub open spec fn stem_spec(s: Seq<char>) -> Option<Seq<char>> {
    match file_name_spec(s) {
        Some(name) => Some(
            match dot_in(name, name.len() as int) {
                Some(k) => name.take(k),
                None => name,
            },
        ),
        None => None,
    }
}

/// What follows the last dot of the file name.
pub open spec fn extension_spec(s: Seq<char>) -> Option<Seq<char>> {
    match file_name_spec(s) {
        Some(name) => match dot_in(name, name.len() as int) {
            Some(k) => Some(name.skip(k + 1)),
            None => None,
        },
        None => None,
    }
}

/// `rest` taken from the directory `base`.
pub fn join(base: &str, rest: &str) -> (r: String)
    ensures
        r@ == join_spec(base@, rest@),
{
    let b = chars_of(base);
    let c = chars_of(rest);
    if c.len() > 0 && c[0] == '/' {
        return rest.to_owned();
    }
    let mut r: String = base.to_owned();
    if b.len() > 0 && b[b.len() - 1] != '/' {
        r.push('/');
    }
    r.append(rest);
    r
}

pub proof fn lemma_piece_start(s: Seq<char>, n: int)
    requires
        0 <= n <= s.len(),
    ensures
        0 <= piece_start(s, n) <= n,
        n > 0 && s[n - 1] != '/' ==> piece_start(s, n) < n,
        piece_start(s, n) > 0 ==> s[piece_start(s, n) - 1] == '/',
        forall|i: int| piece_start(s, n) <= i < n ==> s[i] != '/',
    decreases n,
{
    if n > 0 && s[n - 1] != '/' {
        lemma_piece_start(s, n - 1);
    }
}

pub proof fn lemma_component(s: Seq<char>, n: int)
    requires
        0 <= n <= s.len(),
    ensures
        component_before(s, n) matches Some((a, b)) ==> 0 <= a < b <= n && (forall|i: int|
            a <= i < b ==> s[i] != '/'),
        n > 0 && component_before(s, n) is None ==> s[0] == '/',
    decreases n,
{
    if n > 0 {
        if s[n - 1] == '/' {
            lemma_component(s, n - 1);
        } else {
            let b = piece_start(s, n);
            lemma_piece_start(s, n);
            if 0 < b {
                lemma_component(s, b);
            }
        }
    }
}

fn last_component(s: &[char], end: usize) -> (r: Option<(usize, usize)>)
    requires
        end <= s.len(),
    ensures
        match r {
            Some((a, b)) => component_before(s@, end as int) == Some((a as int, b as int)) && a < b
                <= end,
            None => component_before(s@, end as int) is None,
        },
{
    let mut n: usize = end;
    while n > 0
        invariant
            n <= end <= s.len(),
            component_before(s@, end as int) == component_before(s@, n as int),
        decreases n,
    {
        if s[n - 1] == '/' {
            n -= 1;
        } else {
            let mut b: usize = n;
            while b > 0 && s[b - 1] != '/'
                invariant
                    b <= n <= s.len(),
                    piece_start(s@, n as int) == piece_start(s@, b as int),
                decreases b,
            {
                b -= 1;
            }
            proof {
                lemma_piece_start(s@, n as int);
            }
            if b > 0 && n - b == 1 && s[b] == '.' {
                assert(s@.subrange(b as int, n as int) == seq!['.']);
                n = b;
            } else {
                proof {
                    let piece = s@.subrange(b as int, n as int);
                    if piece == seq!['.'] {
                        assert(piece.len() == 1 && piece[0] == s@[b as int]);
                    }
                }
                return Some((b, n));
            }
        }
    }
    None
}

/// The last component of a path, unless it is a dot or two.
pub fn file_name(path: &str) -> (r: Option<String>)
    ensures
        match r {
            Some(name) => file_name_spec(path@) == Some(name@),
            None => file_name_spec(path@) is None,
        },
{
    let s = chars_of(path);
    match last_component(&s, s.len()) {
        Some((a, b)) => {
            let name = &s[a..b];
            let dot: [char; 1] = ['.'];
            let dots: [char; 2] = ['.', '.'];
            assert(dot@ == seq!['.']);
            assert(dots@ == seq!['.', '.']);
            if same(name, &dot) || same(name, &dots) {
                None
            } else {
                Some(string_of(name))
            }
        },
        None => None,
    }
}

/// The path without its last component.
pub fn parent(path: &str) -> (r: Option<String>)
    ensures
        match r {
            Some(p) => parent_spec(path@) == Some(p@),
            None => parent_spec(path@) is None,
        },
{
    let s = chars_of(path);
    match last_component(&s, s.len()) {
        Some((a, _)) => {
            let e: usize = match last_component(&s, a) {
                Some((_, e)) => e,
                None => if s[0] == '/' {
                    1
                } else {
                    0
                },
            };
            assert(s@.subrange(0, e as int) == s@.take(e as int));
            Some(string_of(&s[0..e]))
        },
        None => None,
    }
}

fn last_dot(name: &[char]) -> (r: Option<usize>)
    ensures
        match r {
            Some(k) => dot_in(name@, name@.len() as int) == Some(k as int) && k < name.len(),
            None => dot_in(name@, name@.len() as int) is None,
        },
{
    let mut n: usize = name.len();
    while n > 1
        invariant
            n <= name.len(),
            dot_in(name@, name@.len() as int) == dot_in(name@, n as int),
        decreases n,
    {
        if name[n - 1] == '.' {
            return Some(n - 1);
        }
        n -= 1;
    }
    None
}

/// What stands before the last dot of the file name.
pub fn stem(path: &str) -> (r: Option<String>)
    ensures
        match r {
            Some(p) => stem_spec(path@) == Some(p@),
            None => stem_spec(path@) is None,
        },
{
    match file_name(path) {
        Some(name) => {
            let s = chars_of(&name);
            match last_dot(&s) {
                Some(k) => {
                    assert(s@.subrange(0, k as int) == s@.take(k as int));
                    Some(string_of(&s[0..k]))
                },
                None => Some(name),
            }
        },
        None => None,
    }
}

/// What follows the last dot of the file name.
pub fn extension(path: &str) -> (r: Option<String>)
    ensures
        match r {
            Some(p) => extension_spec(path@) == Some(p@),
            None => extension_spec(path@) is None,
        },
{
    match file_name(path) {
        Some(name) => {
            let s = chars_of(&name);
            match last_dot(&s) {
                Some(k) => {
                    assert(s@.subrange(k + 1, s@.len() as int) == s@.skip(k + 1));
                    Some(string_of(&s[k + 1..s.len()]))
                },
                None => None,
            }
        },
        None => None,
    }
}

pub proof fn lemma_dot_in(name: Seq<char>, n: int)
    requires
        n <= name.len(),
    ensures
        dot_in(name, n) matches Some(k) ==> 0 < k < n && name[k] == '.',
    decreases n,
{
    if n > 1 && name[n - 1] != '.' {
        lemma_dot_in(name, n - 1);
    }
}

/// A file name with an extension is its stem, a dot and its extension; one without is its stem.
pub proof fn stem_and_extension_make_the_name(s: Seq<char>)
    requires
        file_name_spec(s) is Some,
    ensures
        stem_spec(s) is Some,
        match extension_spec(s) {
            Some(e) => file_name_spec(s)->0 == stem_spec(s)->0.push('.') + e,
            None => file_name_spec(s) == stem_spec(s),
        },
{
    let name = file_name_spec(s)->0;
    lemma_dot_in(name, name.len() as int);
    match dot_in(name, name.len() as int) {
        Some(k) => {
            assert(name == name.take(k).push('.') + name.skip(k + 1));
        },
        None => {},
    }
}

proof fn lemma_single(f: Seq<char>, s: Seq<char>, d: int)
    requires
        0 <= d < s.len(),
        s.skip(d) == f,
        d > 0 ==> s[d - 1] == '/',
        forall|i: int| 0 <= i < f.len() ==> f[i] != '/',
        f != seq!['.'],
    ensures
        component_before(s, s.len() as int) == Some((d, s.len() as int)),
{
    let n = s.len() as int;
    assert forall|i: int| d <= i < n implies s[i] != '/' by {
        assert(s[i] == f[i - d]);
    }
    lemma_piece_start(s, n);
    let b = piece_start(s, n);
    if b < d {
        assert(s[d - 1] != '/');
    }
    if b > d {
        assert(s[b - 1] == '/');
    }
    assert(s.subrange(d, n) == s.skip(d));
}

/// A plain name taken from a directory is a child of it: the name is the file name of the
/// path, and what comes before it is the directory with at most one slash added.
pub proof fn joined_name_stays_inside(dir: Seq<char>, name: Seq<char>)
    requires
        name.len() > 0,
        forall|i: int| 0 <= i < name.len() ==> name[i] != '/',
        name != seq!['.'],
        name != seq!['.', '.'],
    ensures
        dir.is_prefix_of(join_spec(dir, name)),
        file_name_spec(join_spec(dir, name)) == Some(name),
{
    let s = join_spec(dir, name);
    let d = s.len() - name.len();
    assert(s.skip(d) == name);
    lemma_single(name, s, d);
    assert(s.subrange(d, s.len() as int) == s.skip(d));
    assert(s.subrange(0, dir.len() as int) == dir);
}

/// A relative path taken from a directory is put behind it, with one slash between them; an
/// absolute one stands for itself.
pub proof fn joining_puts_behind(base: Seq<char>, rest: Seq<char>)
    requires
        rest.len() > 0 ==> rest[0] != '/',
    ensures
        base.len() > 0 && base.last() != '/' ==> join_spec(base, rest) == base + seq!['/'] + rest,
        join_spec(base.push('/'), rest) == base.push('/') + rest,
        join_spec(Seq::<char>::empty(), rest) == rest,
        join_spec(base, seq!['/'] + rest) == seq!['/'] + rest,
{
    assert(Seq::<char>::empty() + rest =~= rest);
    assert(base.push('/') + rest =~= base + seq!['/'] + rest);
    assert((seq!['/'] + rest)[0] == '/');
}

/// What follows the last slash is the file name, where it is something other than a dot or two.
pub proof fn the_file_name_follows_the_last_slash(dir: Seq<char>, name: Seq<char>)
    requires
        name.len() > 0,
        forall|i: int| 0 <= i < name.len() ==> #[trigger] name[i] != '/',
        name != seq!['.'],
        name != seq!['.', '.'],
    ensures
        file_name_spec(dir.push('/') + name) == Some(name),
        file_name_spec(name) == Some(name),
{
    let s = dir.push('/') + name;
    let d = dir.len() as int + 1;
    assert(s.skip(d) =~= name);
    lemma_single(name, s, d);
    assert(s.subrange(d, s.len() as int) =~= name);
    assert(name.skip(0) =~= name);
    lemma_single(name, name, 0);
    assert(name.subrange(0, name.len() as int) =~= name);
}

/// What follows the last dot of a file name is its extension, and what stands before it the stem.
pub proof fn the_extension_follows_the_last_dot(s: Seq<char>, front: Seq<char>, ext: Seq<char>)
    requires
        front.len() > 0,
        forall|i: int| 0 <= i < ext.len() ==> #[trigger] ext[i] != '.',
        file_name_spec(s) == Some(front.push('.') + ext),
    ensures
        extension_spec(s) == Some(ext),
        stem_spec(s) == Some(front),
{
    let name = front.push('.') + ext;
    lemma_last_dot(name, front.len() as int, name.len() as int);
    assert(name.skip(front.len() as int + 1) =~= ext);
    assert(name.take(front.len() as int) =~= front);
}

/// A file name without a dot, or with one at its start only, has no extension and is its stem.
pub proof fn without_a_dot_there_is_no_extension(s: Seq<char>, name: Seq<char>)
    requires
        forall|i: int| 1 <= i < name.len() ==> #[trigger] name[i] != '.',
        file_name_spec(s) == Some(name),
    ensures
        extension_spec(s) is None,
        stem_spec(s) == Some(name),
{
    lemma_no_dot(name, name.len() as int);
}

proof fn lemma_last_dot(name: Seq<char>, k: int, n: int)
    requires
        0 < k < n <= name.len(),
        name[k] == '.',
        forall|i: int| k < i < n ==> #[trigger] name[i] != '.',
    ensures
        dot_in(name, n) == Some(k),
    decreases n,
{
    if n - 1 > k {
        assert(name[n - 1] != '.');
        lemma_last_dot(name, k, n - 1);
    }
}

proof fn lemma_no_dot(name: Seq<char>, n: int)
    requires
        n <= name.len(),
        forall|i: int| 1 <= i < n ==> #[trigger] name[i] != '.',
    ensures
        dot_in(name, n) is None,
    decreases n,
{
    if n > 1 {
        assert(name[n - 1] != '.');
        lemma_no_dot(name, n - 1);
    }
}

/// The parent of a file in a directory is the directory.
pub proof fn the_parent_is_the_directory(dir: Seq<char>, name: Seq<char>)
    requires
        dir.len() > 0,
        dir.last() != '/',
        dir.len() > 1 ==> !(dir.last() == '.' && dir[dir.len() - 2] == '/'),
        name.len() > 0,
        forall|i: int| 0 <= i < name.len() ==> #[trigger] name[i] != '/',
        name != seq!['.'],
    ensures
        parent_spec(dir.push('/') + name) == Some(dir),
        parent_spec(seq!['/'] + name) == Some(seq!['/']),
        parent_spec(name) == Some(Seq::<char>::empty()),
{
    let s = dir.push('/') + name;
    let d = dir.len() as int + 1;
    assert(s.skip(d) =~= name);
    lemma_single(name, s, d);
    assert(component_before(s, d) == component_before(s, d - 1));
    lemma_piece_start(s, d - 1);
    let b = piece_start(s, d - 1);
    if 0 < b < d - 1 && s.subrange(b, d - 1) == seq!['.'] {
        assert(s.subrange(b, d - 1)[0] == s[b]);
        assert(s.subrange(b, d - 1).len() == seq!['.'].len());
        assert(b == d - 2);
        assert(s[b] == dir[b] && s[b - 1] == dir[b - 1]);
        assert(false);
    }
    assert(component_before(s, d - 1) == Some((b, d - 1)));
    assert(s.take(d - 1) =~= dir);

    let r = seq!['/'] + name;
    assert(r.skip(1) =~= name);
    lemma_single(name, r, 1);
    assert(component_before(r, 1) == component_before(r, 0));
    assert(r.take(1) =~= seq!['/']);

    assert(name.skip(0) =~= name);
    lemma_single(name, name, 0);
    assert(component_before(name, 0) is None);
    assert(name.take(0) =~= Seq::<char>::empty());
}

proof fn lemma_same_front(s: Seq<char>, t: Seq<char>, n: int)
    requires
        0 <= n <= s.len(),
        s.is_prefix_of(t),
    ensures
        piece_start(t, n) == piece_start(s, n),
        component_before(t, n) == component_before(s, n),
    decreases n,
{
    if n > 0 {
        assert forall|i: int| 0 <= i < s.len() implies s[i] == t[i] by {
            assert(s[i] == t.subrange(0, s.len() as int)[i]);
        }
        lemma_same_front(s, t, n - 1);
        lemma_piece_start(s, n);
        let b = piece_start(s, n);
        if s[n - 1] != '/' {
            assert(b < n);
            lemma_same_front(s, t, b);
            assert(s.subrange(b, n) =~= t.subrange(b, n));
        }
    }
}

/// A slash at the end, and a single dot behind one, change nothing of what a path leads to.
pub proof fn slashes_and_dots_at_the_end_are_passed_over(s: Seq<char>)
    ensures
        file_name_spec(s.push('/')) == file_name_spec(s),
        file_name_spec(s.push('/').push('.')) == file_name_spec(s),
        parent_spec(s.push('/')) == parent_spec(s),
        file_name_spec(s.push('/').push('.').push('.')) is None,
        file_name_spec(Seq::<char>::empty()) is None,
{
    let n = s.len() as int;
    let a = s.push('/');
    let b = a.push('.');
    let c = b.push('.');
    assert(a.subrange(0, n) =~= s);
    assert(b.subrange(0, n) =~= s);
    assert(c.subrange(0, n) =~= s);
    lemma_same_front(s, a, n);
    lemma_same_front(s, b, n);
    lemma_same_front(s, c, n);
    assert(component_before(a, n + 1) == component_before(a, n));
    assert(piece_start(b, n + 2) == piece_start(b, n + 1));
    assert(piece_start(b, n + 1) == n + 1);
    assert(b.subrange(n + 1, n + 2) =~= seq!['.']);
    assert(component_before(b, n + 1) == component_before(b, n));
    lemma_component(s, n);
    match component_before(s, n) {
        Some((x, y)) => {
            assert(a.subrange(x, y) =~= s.subrange(x, y));
            assert(b.subrange(x, y) =~= s.subrange(x, y));
            lemma_same_front(s, a, x);
            lemma_component(s, x);
            match component_before(s, x) {
                Some((_, e)) => {
                    assert(a.take(e) =~= s.take(e));
                },
                None => {
                    assert(a[0] == s[0]);
                    assert(a.take(1) =~= s.take(1));
                    assert(a.take(0) =~= s.take(0));
                },
            }
        },
        None => {},
    }
    assert(piece_start(c, n + 1) == n + 1);
    assert(piece_start(c, n + 2) == n + 1);
    assert(piece_start(c, n + 3) == n + 1);
    assert(c.subrange(n + 1, n + 3) =~= seq!['.', '.']);
    assert(seq!['.', '.'].len() == 2 && seq!['.'].len() == 1);
}

} // verus!
