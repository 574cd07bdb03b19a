//! Numbers as text: decimal and hexadecimal.

use vstd::prelude::*;

use crate::text::string_of;

verus! {

/// Whether every character is one of the ten ASCII digits.
pub open spec fn all_digits(s: Seq<char>) -> bool {
    forall|i: int| 0 <= i < s.len() ==> '0' <= #[trigger] s[i] <= '9'
}

/// The number that a sequence of digits writes.
pub open spec fn value(s: Seq<char>) -> nat
    decreases s.len(),
{
    if s.len() == 0 {
        0
    } else {
        value(s.drop_last()) * 10 + (s.last() as nat - '0' as nat) as nat
    }
}

/// What a text says as an unsigned number of 64 bits: digits, with one plus sign before them
/// at most, that write a number in range.
pub open spec fn number(s: Seq<char>) -> Option<u64> {
    let d = if s.len() > 0 && s[0] == '+' {
        s.skip(1)
    } else {
        s
    };
    if d.len() > 0 && all_digits(d) && value(d) <= u64::MAX {
        Some(value(d) as u64)
    } else {
        None
    }
}

/// The digit for a number below ten.
pub open spec fn digit(n: nat) -> char {
    ('0' as nat + n) as char
}

/// A number written in decimal, without leading zeros.
pub open spec fn decimal(n: nat) -> Seq<char>
    decreases n,
{
    if n < 10 {
        seq![digit(n)]
    } else {
        decimal(n / 10).push(digit(n % 10))
    }
}

/// The hexadecimal digit, in lower case, for a number below sixteen.
pub open spec fn hex_digit(n: nat) -> char {
    if n < 10 {
        digit(n)
    } else {
        ('a' as nat + (n - 10)) as char
    }
}

/// Bytes written as two hexadecimal digits each.
pub open spec fn hex(b: Seq<u8>) -> Seq<char>
    decreases b.len(),
{
    if b.len() == 0 {
        seq![]
    } else {
        hex(b.drop_last()).push(hex_digit(b.last() as nat / 16)).push(
            hex_digit(b.last() as nat % 16),
        )
    }
}

proof fn lemma_value_grows(s: Seq<char>, k: int)
    requires
        0 <= k <= s.len(),
        all_digits(s),
    ensures
        value(s.take(k)) <= value(s),
    decreases s.len(),
{
    if k < s.len() {
        assert(s.drop_last().take(k) == s.take(k));
        lemma_value_grows(s.drop_last(), k);
    } else {
        assert(s.take(k) == s);
    }
}

/// Reads a number, as `number` says.
pub fn parse_number(s: &[char]) -> (r: Option<u64>)
    ensures
        r == number(s@),
{
    let from: usize = if s.len() > 0 && s[0] == '+' {
        1
    } else {
        0
    };
    let ghost d = s@.skip(from as int);
    assert(s@.skip(0) == s@);
    if from == s.len() {
        return None;
    }
    let mut n: u64 = 0;
    let mut i: usize = from;
    assert(d.take(0) == Seq::<char>::empty());
    while i < s.len()
        invariant
            from <= i <= s.len(),
            from <= 1,
            d == s@.skip(from as int),
            n == value(d.take(i - from)),
            forall|j: int| 0 <= j < i - from ==> '0' <= #[trigger] d[j] <= '9',
            number(s@) == (if d.len() > 0 && all_digits(d) && value(d) <= u64::MAX {
                Some(value(d) as u64)
            } else {
                None
            }),
        decreases s.len() - i,
    {
        let c = s[i];
        assert(d[i - from] == c);
        if c < '0' || c > '9' {
            assert(!all_digits(d));
            return None;
        }
        let v: u64 = c as u64 - '0' as u64;
        assert(d.take(i - from + 1).drop_last() == d.take(i - from));
        assert(value(d.take(i - from + 1)) == n * 10 + v);
        if n > (u64::MAX - v) / 10 {
            proof {
                if all_digits(d) {
                    lemma_value_grows(d, i - from + 1);
                }
            }
            return None;
        }
        n = n * 10 + v;
        i += 1;
    }
    assert(d.take(d.len() as int) == d);
    Some(n)
}

fn digit_char(n: u64) -> (r: char)
    requires
        n < 10,
    ensures
        r == digit(n as nat),
{
    (48 + n as u8) as char
}

fn hex_char(n: u8) -> (r: char)
    requires
        n < 16,
    ensures
        r == hex_digit(n as nat),
{
    if n < 10 {
        (48 + n) as char
    } else {
        (97 + (n - 10)) as char
    }
}

/// Writes a number in decimal.
pub fn decimal_chars(n: u64) -> (r: Vec<char>)
    ensures
        r@ == decimal(n as nat),
    decreases n,
{
    if n < 10 {
        let mut r: Vec<char> = Vec::new();
        r.push(digit_char(n));
        r
    } else {
        let mut r = decimal_chars(n / 10);
        r.push(digit_char(n % 10));
        r
    }
}

/// Writes a number in decimal.
pub fn decimal_string(n: u64) -> (r: String)
    ensures
        r@ == decimal(n as nat),
{
    string_of(&decimal_chars(n))
}

/// Writes bytes in hexadecimal.
pub fn hex_string(b: &[u8]) -> (r: String)
    ensures
        r@ == hex(b@),
{
    let mut r: String = String::new();
    let mut i: usize = 0;
    while i < b.len()
        invariant
            i <= b.len(),
            r@ == hex(b@.take(i as int)),
        decreases b.len() - i,
    {
        assert(b@.take(i + 1).drop_last() == b@.take(i as int));
        r.push(hex_char(b[i] / 16));
        r.push(hex_char(b[i] % 16));
        i += 1;
    }
    assert(b@.take(b@.len() as int) == b@);
    r
}

/// What is written in decimal reads back as the same number.
pub proof fn decimal_reads_back(n: nat)
    requires
        n <= u64::MAX,
    ensures
        number(decimal(n)) == Some(n as u64),
{
    lemma_decimal(n);
    assert('0' as nat == 48 && '9' as nat == 57 && '+' as nat == 43);
    assert(decimal(n)[0] != '+');
}

pub proof fn lemma_decimal(n: nat)
    ensures
        decimal(n).len() > 0,
        all_digits(decimal(n)),
        value(decimal(n)) == n,
    decreases n,
{
    if n < 10 {
        assert(decimal(n).drop_last() == Seq::<char>::empty());
        assert(value(decimal(n).drop_last()) == 0);
    } else {
        lemma_decimal(n / 10);
        assert(decimal(n).drop_last() == decimal(n / 10));
    }
}

/// Two different numbers are never written alike.
pub proof fn decimal_is_injective(m: nat, n: nat)
    requires
        decimal(m) == decimal(n),
    ensures
        m == n,
{
    lemma_decimal(m);
    lemma_decimal(n);
}

/// Two different byte sequences are never written alike, and each byte takes two digits.
pub proof fn hex_is_injective(a: Seq<u8>, b: Seq<u8>)
    requires
        hex(a) == hex(b),
    ensures
        a == b,
    decreases a.len(),
{
    lemma_hex_len(a);
    lemma_hex_len(b);
    if a.len() > 0 {
        let n = hex(a).len();
        assert(hex(a).drop_last().drop_last() == hex(a.drop_last()));
        assert(hex(b).drop_last().drop_last() == hex(b.drop_last()));
        hex_is_injective(a.drop_last(), b.drop_last());
        assert(hex(a)[n - 1] == hex_digit(a.last() as nat % 16));
        assert(hex(b)[n - 1] == hex_digit(b.last() as nat % 16));
        assert(hex(a)[n - 2] == hex_digit(a.last() as nat / 16));
        assert(hex(b)[n - 2] == hex_digit(b.last() as nat / 16));
        lemma_hex_digit(a.last() as nat % 16, b.last() as nat % 16);
        lemma_hex_digit(a.last() as nat / 16, b.last() as nat / 16);
        assert(a.last() == b.last());
        assert(a == a.drop_last().push(a.last()));
        assert(b == b.drop_last().push(b.last()));
    } else {
        assert(a == b);
    }
}

proof fn lemma_hex_digit(m: nat, n: nat)
    requires
        m < 16,
        n < 16,
        hex_digit(m) == hex_digit(n),
    ensures
        m == n,
{
    assert('0' as nat == 48 && 'a' as nat == 97);
    assert(hex_digit(m) as nat == if m < 10 { 48 + m } else { (87 + m) as nat });
    assert(hex_digit(n) as nat == if n < 10 { 48 + n } else { (87 + n) as nat });
}

proof fn lemma_hex_len(a: Seq<u8>)
    ensures
        hex(a).len() == 2 * a.len(),
    decreases a.len(),
{
    if a.len() > 0 {
        lemma_hex_len(a.drop_last());
    }
}

/// A number is written digit by digit: all but the last digit write the tenth of it, and the last
/// one what is left.
pub proof fn decimal_is_written_digit_by_digit(n: nat)
    ensures
        decimal(n).len() > 0,
        decimal(n).last() as nat == 48 + n % 10,
        n < 10 ==> decimal(n).len() == 1,
        n >= 10 ==> decimal(n).drop_last() == decimal(n / 10),
{
    if n >= 10 {
        assert(decimal(n).drop_last() =~= decimal(n / 10));
    }
}

proof fn lemma_value_zero(s: Seq<char>)
    requires
        all_digits(s),
    ensures
        value(seq!['0'] + s) == value(s),
    decreases s.len(),
{
    let z = seq!['0'] + s;
    if s.len() > 0 {
        assert(z.drop_last() =~= seq!['0'] + s.drop_last());
        assert(z.last() == s.last());
        lemma_value_zero(s.drop_last());
    } else {
        assert(z =~= seq!['0']);
        assert(z.drop_last() =~= Seq::<char>::empty());
        assert(value(z.drop_last()) == 0);
        assert('0' as nat == 48);
    }
}

/// What a text says as a number: a number too large for 64 bits says nothing, zeros in front
/// change nothing, nor does one plus sign; and a text that is empty, or has anything else in it,
/// says nothing.
pub proof fn only_digits_say_a_number(n: nat, s: Seq<char>, i: int)
    ensures
        n > u64::MAX ==> number(decimal(n)) is None,
        s.len() > 0 && all_digits(s) ==> number(seq!['0'] + s) == number(s),
        s.len() > 0 && s[0] != '+' ==> number(seq!['+'] + s) == number(s),
        number(Seq::<char>::empty()) is None,
        number(seq!['+']) is None,
        0 <= i < s.len() && !('0' <= s[i] <= '9') && !(i == 0 && s[0] == '+') ==> number(s) is None,
{
    assert('0' as nat == 48 && '9' as nat == 57 && '+' as nat == 43);
    lemma_decimal(n);
    assert('0' <= decimal(n)[0] <= '9');
    if s.len() > 0 && all_digits(s) {
        let z = seq!['0'] + s;
        lemma_value_zero(s);
        assert forall|k: int| 0 <= k < z.len() implies '0' <= #[trigger] z[k] <= '9' by {
            if k > 0 {
                assert(z[k] == s[k - 1]);
            }
        }
        assert('0' <= s[0] <= '9');
    }
    if s.len() > 0 && s[0] != '+' {
        assert((seq!['+'] + s).skip(1) =~= s);
    }
    assert(seq!['+'].skip(1) =~= Seq::<char>::empty());
    if 0 <= i < s.len() && !('0' <= s[i] <= '9') && !(i == 0 && s[0] == '+') {
        if s[0] == '+' {
            assert(s.skip(1)[i - 1] == s[i]);
            assert(!all_digits(s.skip(1)));
        } else {
            assert(!all_digits(s));
        }
    }
}

/// Bytes are written one after the other, each as its two digits, the higher one first.
pub proof fn hex_is_written_byte_by_byte(a: Seq<u8>, b: u8)
    ensures
        hex(Seq::<u8>::empty()) == Seq::<char>::empty(),
        ({
            let high = (b / 16) as nat;
            let low = (b % 16) as nat;
            let h = hex(a.push(b));
            &&& h.len() == hex(a).len() + 2
            &&& h.take(hex(a).len() as int) == hex(a)
            &&& h[hex(a).len() as int] as nat == high + if high < 10 { 48nat } else { 87nat }
            &&& h[hex(a).len() as int + 1] as nat == low + if low < 10 { 48nat } else { 87nat }
        }),
{
    let h = hex(a.push(b));
    assert(a.push(b).drop_last() =~= a);
    assert(h.take(hex(a).len() as int) =~= hex(a));
    assert('0' as nat == 48 && 'a' as nat == 97);
}

} // verus!
