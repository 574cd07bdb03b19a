//! A path for a new file that no file has yet.

use vstd::prelude::*;

use crate::http::{self, HttpDownloader};
use crate::number::{self, decimal_string};
use crate::outside::{self, random_uuid};
use crate::paths::{self, extension, join, stem};
use crate::text::joined;

verus! {

/// How many numbers are tried.
pub const LAST_NUMBER: u64 = 9999;

/// What stands before the number in a numbered name.
pub open spec fn base_of(filename: Seq<char>) -> Seq<char> {
    match paths::stem_spec(filename) {
        Some(s) => s,
        None => "download"@,
    }
}

/// What stands after the number in a numbered name.
pub open spec fn suffix_of(filename: Seq<char>) -> Seq<char> {
    match paths::extension_spec(filename) {
        Some(e) => "."@ + e,
        None => ""@,
    }
}

/// A file name with a number in it.
pub open spec fn numbered(filename: Seq<char>, n: int) -> Seq<char> {
    base_of(filename) + " ("@ + number::decimal(n as nat) + ")"@ + suffix_of(filename)
}

/// The n-th path that is tried: the plain name first, then with numbers from one on.
pub open spec fn candidate(dir: Seq<char>, filename: Seq<char>, n: int) -> Seq<char> {
    if n <= 0 {
        paths::join_spec(dir, filename)
    } else {
        paths::join_spec(dir, numbered(filename, n))
    }
}

/// A search for a path that no file has.
#[derive(Debug, PartialEq, Eq)]
pub struct UniquePath {
    pub dir: String,
    pub filename: String,
    /// Which of the paths is being tried.
    pub number: u64,
}

/// What comes of trying a path: it is taken if no file has it, and else the next one is tried.
/// When all numbers are used up, a random name is taken.
pub open spec fn settled(
    before: UniquePath,
    exists: bool,
    after: UniquePath,
    r: Option<String>,
) -> bool {
    &&& after.dir == before.dir
    &&& after.filename == before.filename
    &&& if !exists {
        &&& after.number == before.number
        &&& r matches Some(path) && path@ == before.current()
    } else if before.number < LAST_NUMBER {
        &&& after.number == before.number + 1
        &&& r is None
    } else {
        &&& after.number == before.number
        &&& r matches Some(path) && is_random_path(before.dir@, before.filename@, path@)
    }
}

/// A path in a directory with a random name before that of the file.
pub open spec fn is_random_path(dir: Seq<char>, filename: Seq<char>, path: Seq<char>) -> bool {
    exists|id: Seq<char>|
        outside::is_random_uuid(id) && path == #[trigger] paths::join_spec(
            dir,
            id + "_"@ + filename,
        )
}

impl UniquePath {
    /// The path that is being tried.
    pub open spec fn current(self) -> Seq<char> {
        candidate(self.dir@, self.filename@, self.number as int)
    }

    /// The path that is being tried.
    pub fn candidate(&self) -> (r: String)
        ensures
            r@ == self.current(),
    {
        if self.number == 0 {
            return join(&self.dir, &self.filename);
        }
        let base = match stem(&self.filename) {
            Some(s) => s,
            None => "download".to_owned(),
        };
        let suffix = match extension(&self.filename) {
            Some(e) => joined(".", &e),
            None => "".to_owned(),
        };
        let mut name: String = joined(&base, " (");
        name.append(&decimal_string(self.number));
        name.append(")");
        name.append(&suffix);
        join(&self.dir, &name)
    }

    /// Takes the path that is being tried if no file has it, and else turns to the next one.
    /// When all numbers are used up, a random name is taken.
    pub fn settle(&mut self, exists: bool) -> (r: Option<String>)
        ensures
            settled(*old(self), exists, *final(self), r),
    {
        if !exists {
            return Some(self.candidate());
        }
        if self.number < LAST_NUMBER {
            self.number = self.number + 1;
            return None;
        }
        let id = random_uuid();
        let ghost g = id@;
        let mut name: String = joined(&id, "_");
        name.append(&self.filename);
        let path = join(&self.dir, &name);
        assert(path@ == paths::join_spec(self.dir@, g + "_"@ + self.filename@));
        Some(path)
    }
}

impl HttpDownloader {
    /// Begins the search for a path in a directory, with the plain name.
    pub fn resolve_unique_path(dir: &str, filename: &str) -> (r: UniquePath)
        ensures
            r.dir@ == dir@,
            r.filename@ == filename@,
            r.number == 0,
    {
        UniquePath { dir: dir.to_owned(), filename: filename.to_owned(), number: 0 }
    }
}

proof fn lemma_stem_is_plain(s: Seq<char>)
    ensures
        paths::stem_spec(s) matches Some(t) ==> t.len() > 0 && (forall|i: int|
            0 <= i < t.len() ==> t[i] != '/'),
        paths::extension_spec(s) matches Some(t) ==> (forall|i: int|
            0 <= i < t.len() ==> t[i] != '/'),
{
    paths::lemma_component(s, s.len() as int);
    match paths::file_name_spec(s) {
        Some(name) => {
            paths::lemma_dot_in(name, name.len() as int);
            assert(forall|i: int| 0 <= i < name.len() ==> name[i] != '/');
        },
        None => {},
    }
}

/// A numbered path lies in the directory for which it was made, under the numbered name.
pub proof fn numbered_paths_stay_inside(dir: Seq<char>, filename: Seq<char>, n: int)
    requires
        n >= 1,
    ensures
        dir.is_prefix_of(candidate(dir, filename, n)),
        paths::file_name_spec(candidate(dir, filename, n)) == Some(numbered(filename, n)),
{
    reveal_strlit("download");
    reveal_strlit(" (");
    reveal_strlit(")");
    reveal_strlit(".");
    reveal_strlit("");
    lemma_stem_is_plain(filename);
    number::lemma_decimal(n as nat);
    let name = numbered(filename, n);
    let b = base_of(filename);
    let d = number::decimal(n as nat);
    let x = suffix_of(filename);
    assert forall|i: int| 0 <= i < name.len() implies name[i] != '/' by {
        if i < b.len() {
            assert(name[i] == b[i]);
        } else if i < b.len() + 2 {
            assert(name[i] == " ("@[i - b.len()]);
        } else if i < b.len() + 2 + d.len() {
            assert(name[i] == d[i - b.len() - 2]);
        } else if i < b.len() + 2 + d.len() + 1 {
            assert(name[i] == ')');
        } else {
            assert(name[i] == x[i - b.len() - 2 - d.len() - 1]);
        }
    }
    assert(name.len() >= 5);
    assert(seq!['.'].len() == 1 && seq!['.', '.'].len() == 2);
    paths::joined_name_stays_inside(dir, name);
}

/// Whatever a server says, and whatever the link, the file of a download lies in the directory
/// for which it was meant, under one name.
pub proof fn a_download_stays_in_its_directory(
    dir: Seq<char>,
    url: Seq<char>,
    disposition: Option<Seq<char>>,
    n: int,
)
    requires
        n >= 0,
    ensures
        ({
            let name = http::chosen_name(url, disposition);
            let path = candidate(dir, name, n);
            &&& dir.is_prefix_of(path)
            &&& paths::file_name_spec(path) == Some(
                if n == 0 {
                    name
                } else {
                    numbered(name, n)
                },
            )
        }),
{
    let name = http::chosen_name(url, disposition);
    http::chosen_name_is_a_file_name(url, disposition);
    if n == 0 {
        paths::joined_name_stays_inside(dir, name);
    } else {
        numbered_paths_stay_inside(dir, name, n);
    }
}

/// So does a file under a random name.
pub proof fn a_random_name_stays_in_its_directory(
    dir: Seq<char>,
    url: Seq<char>,
    disposition: Option<Seq<char>>,
    id: Seq<char>,
)
    requires
        outside::is_random_uuid(id),
    ensures
        ({
            let name = id + "_"@ + http::chosen_name(url, disposition);
            let path = paths::join_spec(dir, name);
            &&& dir.is_prefix_of(path)
            &&& paths::file_name_spec(path) == Some(name)
        }),
{
    reveal_strlit("_");
    http::chosen_name_is_a_file_name(url, disposition);
    let chosen = http::chosen_name(url, disposition);
    let name = id + "_"@ + chosen;
    assert forall|i: int| 0 <= i < name.len() implies name[i] != '/' by {
        if i < 36 {
            assert(name[i] == id[i]);
            assert(i == 8 || i == 13 || i == 18 || i == 23 || outside::is_hex(id[i]));
        } else if i > 36 {
            assert(name[i] == chosen[i - 37]);
        }
    }
    assert(seq!['.'].len() == 1 && seq!['.', '.'].len() == 2);
    paths::joined_name_stays_inside(dir, name);
}

/// A whole search: it begins with the plain name, each path is tried once, against the same files
/// (`taken` says which paths a file has), until one is settled on.
pub open spec fn is_search(
    states: Seq<UniquePath>,
    results: Seq<Option<String>>,
    taken: spec_fn(Seq<char>) -> bool,
) -> bool {
    &&& results.len() > 0
    &&& states.len() == results.len() + 1
    &&& states[0].number == 0
    &&& forall|i: int|
        0 <= i < results.len() ==> settled(
            states[i],
            taken((#[trigger] states[i]).current()),
            states[i + 1],
            results[i],
        )
    &&& forall|i: int| 0 <= i < results.len() - 1 ==> #[trigger] results[i] is None
    &&& results.last() is Some
}

proof fn lemma_search(
    states: Seq<UniquePath>,
    results: Seq<Option<String>>,
    taken: spec_fn(Seq<char>) -> bool,
    n: int,
)
    requires
        is_search(states, results, taken),
        0 <= n < results.len(),
    ensures
        states[n].dir == states[0].dir,
        states[n].filename == states[0].filename,
        states[n].number == n,
        n <= LAST_NUMBER,
        forall|j: int|
            0 <= j < n ==> taken(#[trigger] candidate(states[0].dir@, states[0].filename@, j)),
    decreases n,
{
    if n > 0 {
        lemma_search(states, results, taken, n - 1);
        assert(results[n - 1] is None);
        assert(settled(
            states[n - 1],
            taken(states[n - 1].current()),
            states[n],
            results[n - 1],
        ));
        assert forall|j: int| 0 <= j < n implies taken(
            #[trigger] candidate(states[0].dir@, states[0].filename@, j),
        ) by {
            if j == n - 1 {
                assert(states[n - 1].current() == candidate(
                    states[0].dir@,
                    states[0].filename@,
                    j,
                ));
            }
        }
    }
}

/// A search settles on the first path that no file has; only where a file has the plain path and
/// every numbered one is it a path with a random name.
pub proof fn a_search_finds_the_first_free_path(
    states: Seq<UniquePath>,
    results: Seq<Option<String>>,
    taken: spec_fn(Seq<char>) -> bool,
)
    requires
        is_search(states, results, taken),
    ensures
        ({
            let dir = states[0].dir@;
            let filename = states[0].filename@;
            let n = results.len() - 1;
            let path = results.last()->0@;
            &&& 0 <= n <= LAST_NUMBER
            &&& forall|j: int| 0 <= j < n ==> taken(#[trigger] candidate(dir, filename, j))
            &&& !taken(candidate(dir, filename, n)) ==> path == candidate(dir, filename, n)
                && !taken(path)
            &&& taken(candidate(dir, filename, n)) ==> n == LAST_NUMBER && is_random_path(
                dir,
                filename,
                path,
            )
        }),
{
    let n = results.len() - 1;
    lemma_search(states, results, taken, n);
    assert(states[n].current() == candidate(states[0].dir@, states[0].filename@, n));
    assert(settled(states[n], taken(states[n].current()), states[n + 1], results[n]));
}

proof fn lemma_numbered_names_are_new(dir: Seq<char>, filename: Seq<char>, n: int)
    requires
        n >= 1,
    ensures
        candidate(dir, filename, n) != candidate(dir, filename, 0),
{
    let name = numbered(filename, n);
    let empty = Seq::<char>::empty();
    numbered_paths_stay_inside(dir, filename, n);
    numbered_paths_stay_inside(empty, filename, n);
    reveal_strlit(" (");
    reveal_strlit(")");
    reveal_strlit(".");
    reveal_strlit("");
    if candidate(dir, filename, n) == candidate(dir, filename, 0) {
        if !(filename.len() > 0 && filename[0] == '/') {
            let whole = candidate(dir, filename, n);
            let k = if dir.len() == 0 || dir.last() == '/' {
                dir.len() as int
            } else {
                dir.len() as int + 1
            };
            lemma_starts_plain(filename, n);
            assert(filename =~= whole.skip(k));
            assert(name =~= whole.skip(k));
            assert(empty + name =~= name);
        }
        assert(paths::file_name_spec(filename) == Some(name));
        paths::stem_and_extension_make_the_name(filename);
        assert(false);
    }
}

proof fn lemma_starts_plain(filename: Seq<char>, n: int)
    ensures
        numbered(filename, n).len() > 0,
        numbered(filename, n)[0] != '/',
{
    reveal_strlit("download");
    lemma_stem_is_plain(filename);
    assert(numbered(filename, n)[0] == base_of(filename)[0]);
}

/// No path is tried twice.
pub proof fn candidates_differ(dir: Seq<char>, filename: Seq<char>, m: int, n: int)
    requires
        0 <= m,
        0 <= n,
        candidate(dir, filename, m) == candidate(dir, filename, n),
    ensures
        m == n,
{
    if m == 0 || n == 0 {
        if m >= 1 {
            lemma_numbered_names_are_new(dir, filename, m);
        }
        if n >= 1 {
            lemma_numbered_names_are_new(dir, filename, n);
        }
    } else {
        numbered_paths_stay_inside(dir, filename, m);
        numbered_paths_stay_inside(dir, filename, n);
        let b = base_of(filename) + " ("@;
        let x = ")"@ + suffix_of(filename);
        let dm = number::decimal(m as nat);
        let dn = number::decimal(n as nat);
        let name = numbered(filename, m);
        assert(name =~= b + dm + x);
        assert(name =~= b + dn + x);
        assert(dm.len() == dn.len());
        assert(dm =~= name.subrange(b.len() as int, (b.len() + dm.len()) as int));
        assert(dn =~= name.subrange(b.len() as int, (b.len() + dn.len()) as int));
        number::decimal_is_injective(m as nat, n as nat);
    }
}

/// A numbered name is the stem, the number in brackets and the extension, for every name that has
/// both, whatever their length; for one without an extension, also where it begins with a dot, it
/// is the name and the number in brackets.
pub proof fn a_numbered_name_keeps_stem_and_extension(front: Seq<char>, ext: Seq<char>, n: int)
    requires
        n >= 1,
        front.len() > 0,
        forall|i: int| 0 <= i < front.len() ==> #[trigger] front[i] != '/',
        forall|i: int| 0 <= i < ext.len() ==> #[trigger] ext[i] != '/' && ext[i] != '.',
        front.push('.') + ext != seq!['.', '.'],
    ensures
        numbered(front.push('.') + ext, n) == front + seq![' ', '('] + number::decimal(n as nat)
            + seq![')', '.'] + ext,
        (forall|i: int| 1 <= i < front.len() ==> #[trigger] front[i] != '.') && front != seq!['.']
            ==> numbered(front, n) == front + seq![' ', '('] + number::decimal(n as nat) + seq![
            ')',
        ],
{
    reveal_strlit(" (");
    reveal_strlit(")");
    reveal_strlit(".");
    reveal_strlit("");
    let name = front.push('.') + ext;
    assert forall|i: int| 0 <= i < name.len() implies #[trigger] name[i] != '/' by {
        if i < front.len() {
            assert(name[i] == front[i]);
        } else if i > front.len() {
            assert(name[i] == ext[i - front.len() - 1]);
        }
    }
    assert(name != seq!['.']) by {
        assert(name.len() >= 2 && seq!['.'].len() == 1);
    }
    paths::the_file_name_follows_the_last_slash(Seq::<char>::empty(), name);
    paths::the_extension_follows_the_last_dot(name, front, ext);
    assert(" ("@ =~= seq![' ', '(']);
    assert(numbered(name, n) =~= front + seq![' ', '('] + number::decimal(n as nat) + seq![')', '.']
        + ext);
    if (forall|i: int| 1 <= i < front.len() ==> #[trigger] front[i] != '.') && front != seq!['.'] {
        if front == seq!['.', '.'] {
            assert(front[1] == '.');
        }
        paths::the_file_name_follows_the_last_slash(Seq::<char>::empty(), front);
        paths::without_a_dot_there_is_no_extension(front, front);
        assert(numbered(front, n) =~= front + seq![' ', '('] + number::decimal(n as nat) + seq![
            ')',
        ]);
    }
}

/// The plain name is tried first, then the numbered ones, up to 9999.
pub proof fn the_plain_name_is_tried_first(dir: Seq<char>, filename: Seq<char>, n: int)
    ensures
        candidate(dir, filename, 0) == paths::join_spec(dir, filename),
        n >= 1 ==> candidate(dir, filename, n) == paths::join_spec(dir, numbered(filename, n)),
        LAST_NUMBER == 9999,
{
}

/// A path that no file has is taken, whichever number it has; one that a file has gives way to the
/// next, up to the last number, and then to a random name before that of the file. Where and under
/// what name is looked for stays the same.
pub proof fn a_free_path_is_taken(
    before: UniquePath,
    taken: bool,
    after: UniquePath,
    r: Option<String>,
)
    requires
        settled(before, taken, after, r),
    ensures
        after.dir == before.dir && after.filename == before.filename,
        !taken ==> r is Some && r->0@ == before.current() && after.number == before.number,
        taken && before.number < 9999 ==> r is None && after.number == before.number + 1,
        taken && before.number >= 9999 ==> r is Some && (exists|id: Seq<char>|
            outside::is_random_uuid(id) && r->0@ == #[trigger] paths::join_spec(
                before.dir@,
                id + "_"@ + before.filename@,
            )),
        before.number == 0 ==> before.current() == paths::join_spec(
            before.dir@,
            before.filename@,
        ),
        before.number > 0 ==> before.current() == paths::join_spec(
            before.dir@,
            numbered(before.filename@, before.number as int),
        ),
{
}

/// What names no file is numbered under a fixed name.
pub proof fn what_names_no_file_is_numbered_under_a_fixed_name(filename: Seq<char>, n: int)
    requires
        n >= 1,
        paths::file_name_spec(filename) is None,
    ensures
        numbered(filename, n) == "download ("@ + number::decimal(n as nat) + ")"@,
{
    reveal_strlit("download");
    reveal_strlit(" (");
    reveal_strlit(")");
    reveal_strlit("");
    reveal_strlit("download (");
    assert("download ("@ =~= "download"@ + " ("@);
    assert(numbered(filename, n) =~= "download ("@ + number::decimal(n as nat) + ")"@);
}

} // verus!
