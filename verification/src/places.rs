//! Where the files of the daemon are: paths below the directories of the user, as bytes, for a
//! directory need not be Unicode.

use vstd::prelude::*;

verus! {

/// An optional path, as bytes.
pub open spec fn opt_place(p: Option<Vec<u8>>) -> Option<Seq<u8>> {
    match p {
        Some(bytes) => Some(bytes@),
        None => None,
    }
}

/// `rest` taken from the directory `base`: an absolute `rest` stands for itself.
pub open spec fn below_spec(base: Seq<u8>, rest: Seq<char>) -> Seq<u8> {
    let r = vstd::utf8::encode_utf8(rest);
    if r.len() > 0 && r[0] == 47 {
        r
    } else if base.len() == 0 || base.last() == 47 {
        base + r
    } else {
        base.push(47) + r
    }
}

/// The bytes of a text.
fn bytes_of(s: &str) -> (r: Vec<u8>)
    ensures
        r@ == vstd::utf8::encode_utf8(s@),
{
    let mut r: Vec<u8> = Vec::new();
    r.extend_from_slice(s.as_bytes());
    assert(r@ =~= vstd::utf8::encode_utf8(s@));
    r
}

/// `rest` taken from the directory `base`.
pub fn below(base: Vec<u8>, rest: &str) -> (r: Vec<u8>)
    ensures
        r@ == below_spec(base@, rest@),
{
    let bytes = bytes_of(rest);
    if bytes.len() > 0 && bytes[0] == 47 {
        return bytes;
    }
    let mut r: Vec<u8> = base;
    if r.len() > 0 && r[r.len() - 1] != 47 {
        r.push(47);
    }
    let ghost before = r@;
    r.extend_from_slice(&bytes);
    assert(r@ =~= before + bytes@);
    r
}

/// A directory of the user's: the one that is known, else one below the home directory, else
/// a fixed one.
pub open spec fn user_place(
    known: Option<Seq<u8>>,
    home: Option<Seq<u8>>,
    below_home: Seq<char>,
    fixed: Seq<char>,
) -> Seq<u8> {
    match known {
        Some(d) => d,
        None => match home {
            Some(h) => below_spec(h, below_home),
            None => vstd::utf8::encode_utf8(fixed),
        },
    }
}

/// A directory of the user's, as `user_place` says.
pub fn choose_place(
    known: Option<Vec<u8>>,
    home: Option<Vec<u8>>,
    below_home: &str,
    fixed: &str,
) -> (r: Vec<u8>)
    ensures
        r@ == user_place(opt_place(known), opt_place(home), below_home@, fixed@),
{
    match known {
        Some(d) => d,
        None => match home {
            Some(h) => below(h, below_home),
            None => bytes_of(fixed),
        },
    }
}

/// A file of the daemon's below a directory.
pub open spec fn own_file(base: Seq<u8>, name: Seq<char>) -> Seq<u8> {
    below_spec(below_spec(base, "panda-dl"@), name)
}

/// A file of the daemon's below a directory.
pub fn own_file_in(base: Vec<u8>, name: &str) -> (r: Vec<u8>)
    ensures
        r@ == own_file(base@, name@),
{
    below(below(base, "panda-dl"), name)
}

/// ASCII text is written byte for byte, and text behind text byte behind byte.
pub proof fn plain_text_is_its_bytes(a: Seq<char>, b: Seq<char>)
    requires
        vstd::utf8::is_ascii_chars(a),
        vstd::utf8::is_ascii_chars(b),
    ensures
        vstd::utf8::encode_utf8(a + b) == vstd::utf8::encode_utf8(a) + vstd::utf8::encode_utf8(b),
        vstd::utf8::encode_utf8(a).len() == a.len(),
        a.len() > 0 ==> vstd::utf8::encode_utf8(a)[0] == a[0] as u8,
{
    let c = a + b;
    assert forall|i: int| 0 <= i < c.len() implies '\0' <= #[trigger] c[i] <= '\u{7f}' by {
        if i < a.len() {
            assert(c[i] == a[i]);
        } else {
            assert(c[i] == b[i - a.len()]);
        }
    }
    vstd::utf8::is_ascii_chars_encode_utf8(a);
    vstd::utf8::is_ascii_chars_encode_utf8(b);
    vstd::utf8::is_ascii_chars_encode_utf8(c);
    let (x, y, z) = (
        vstd::utf8::encode_utf8(a),
        vstd::utf8::encode_utf8(b),
        vstd::utf8::encode_utf8(c),
    );
    assert forall|i: int| 0 <= i < z.len() implies z[i] == (x + y)[i] by {
        assert(z[i] == c[i] as u8);
        if i < a.len() {
            assert(x[i] == a[i] as u8);
        } else {
            assert(y[i - a.len()] == b[i - a.len()] as u8);
        }
    }
    assert(z =~= x + y);
}

/// What is taken from a directory, whatever the directory, is put behind it with one slash between
/// them; what begins with a slash stands for itself.
pub proof fn taking_from_a_directory_puts_behind(base: Seq<u8>, rest: Seq<char>)
    requires
        rest.len() > 0,
        vstd::utf8::is_ascii_chars(rest),
    ensures
        rest[0] != '/' && base.len() > 0 && base.last() != 47 ==> below_spec(base, rest) == base
            + vstd::utf8::encode_utf8(seq!['/'] + rest),
        rest[0] != '/' && base.len() > 0 && base.last() == 47 ==> below_spec(base, rest) == base
            + vstd::utf8::encode_utf8(rest),
        rest[0] == '/' ==> below_spec(base, rest) == vstd::utf8::encode_utf8(rest),
{
    let slash = seq!['/'];
    assert('/' as u8 == 47);
    plain_text_is_its_bytes(rest, Seq::empty());
    plain_text_is_its_bytes(slash, rest);
    vstd::utf8::is_ascii_chars_encode_utf8(slash);
    vstd::utf8::is_ascii_chars_encode_utf8(rest);
    let r = vstd::utf8::encode_utf8(rest);
    assert(r[0] == rest[0] as u8);
    if rest[0] != '/' {
        assert(rest[0] as u8 != 47) by {
            assert('\0' <= rest[0] <= '\u{7f}');
        }
    }
    assert(vstd::utf8::encode_utf8(slash) =~= seq![47u8]);
    assert(base.push(47) + r =~= base + (seq![47u8] + r));
}

/// A file of the daemon's, in whatever directory of the user's that does not end with a slash, lies
/// below it in a directory of the daemon's own.
pub proof fn files_lie_in_a_directory_of_their_own(base: Seq<u8>, name: Seq<char>)
    requires
        base.len() > 0,
        base.last() != 47,
        name.len() > 0,
        name[0] != '/',
        vstd::utf8::is_ascii_chars(name),
    ensures
        own_file(base, name) == base + vstd::utf8::encode_utf8("/panda-dl/"@ + name),
        own_file(base.push(47), name) == base + vstd::utf8::encode_utf8("/panda-dl/"@ + name),
{
    reveal_strlit("panda-dl");
    reveal_strlit("/panda-dl/");
    let p = "panda-dl"@;
    let slash = seq!['/'];
    assert("/panda-dl/"@ =~= slash + p + slash);
    assert('/' as u8 == 47);
    taking_from_a_directory_puts_behind(base, p);
    taking_from_a_directory_puts_behind(base.push(47), p);
    let own = below_spec(base, p);
    plain_text_is_its_bytes(slash, p);
    plain_text_is_its_bytes(p, Seq::empty());
    vstd::utf8::is_ascii_chars_encode_utf8(slash);
    vstd::utf8::is_ascii_chars_encode_utf8(p);
    assert(vstd::utf8::encode_utf8(slash) =~= seq![47u8]);
    assert(own.last() == vstd::utf8::encode_utf8(p)[7]);
    assert(p[7] == 'l');
    assert('l' as u8 != 47);
    taking_from_a_directory_puts_behind(own, name);
    assert(below_spec(base.push(47), p) =~= own);
    let sp = slash + p;
    let sn = slash + name;
    assert(vstd::utf8::is_ascii_chars(sp));
    assert forall|i: int| 0 <= i < sn.len() implies '\0' <= #[trigger] sn[i] <= '\u{7f}' by {
        if i > 0 {
            assert(sn[i] == name[i - 1]);
        }
    }
    plain_text_is_its_bytes(sp, sn);
    assert("/panda-dl/"@ + name =~= sp + sn);
    assert(own + vstd::utf8::encode_utf8(sn) =~= base + (vstd::utf8::encode_utf8(sp)
        + vstd::utf8::encode_utf8(sn)));
}

/// The directory of the user's that is known is taken as it is, whatever it is; else one below the
/// home directory, else the fixed one.
pub proof fn the_known_directory_is_taken(
    known: Seq<u8>,
    home: Seq<u8>,
    any: Option<Seq<u8>>,
    below_home: Seq<char>,
    fixed: Seq<char>,
)
    ensures
        user_place(Some(known), any, below_home, fixed) == known,
        user_place(None, Some(home), below_home, fixed) == below_spec(home, below_home),
        user_place(None, None, below_home, fixed) == vstd::utf8::encode_utf8(fixed),
{
}

} // verus!
