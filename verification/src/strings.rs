//! Verified text utilities: equality, lexicographic order, and rendering
//! integers as decimal strings.

use vstd::prelude::*;

verus! {

/// Lexicographic "less than or equal" on character sequences, comparing by
/// Unicode scalar value from position `i` on.
pub open spec fn lex_le_from(a: Seq<char>, b: Seq<char>, i: int) -> bool
    decreases a.len() - i,
{
    if i >= a.len() {
        true
    } else if i >= b.len() {
        false
    } else if (a[i] as u32) < (b[i] as u32) {
        true
    } else if (a[i] as u32) > (b[i] as u32) {
        false
    } else {
        lex_le_from(a, b, i + 1)
    }
}

/// Lexicographic "less than or equal" on whole character sequences.
pub open spec fn lex_le(a: Seq<char>, b: Seq<char>) -> bool {
    lex_le_from(a, b, 0)
}

/// Strict lexicographic order.
pub open spec fn lex_lt(a: Seq<char>, b: Seq<char>) -> bool {
    lex_le(a, b) && a != b
}

/// Whether two strings hold the same characters.
pub fn str_eq(a: &str, b: &str) -> (r: bool)
    ensures
        r == (a@ == b@),
{
    let sa = String::from_str(a);
    let sb = String::from_str(b);
    sa == sb
}

/// Decides `lex_le(a@, b@)` by walking both strings.
pub fn str_le(a: &str, b: &str) -> (r: bool)
    ensures
        r == lex_le(a@, b@),
{
    let alen = a.unicode_len();
    let blen = b.unicode_len();
    let mut i: usize = 0;
    loop
        invariant
            i <= alen,
            alen == a@.len(),
            blen == b@.len(),
            lex_le(a@, b@) == lex_le_from(a@, b@, i as int),
        decreases alen - i,
    {
        if i >= alen {
            return true;
        }
        if i >= blen {
            return false;
        }
        let ca = a.get_char(i) as u32;
        let cb = b.get_char(i) as u32;
        if ca < cb {
            return true;
        }
        if ca > cb {
            return false;
        }
        i = i + 1;
    }
}

proof fn lemma_lex_le_from_total(a: Seq<char>, b: Seq<char>, i: int)
    requires
        0 <= i,
    ensures
        lex_le_from(a, b, i) || lex_le_from(b, a, i),
    decreases a.len() - i,
{
    if i < a.len() && i < b.len() && (a[i] as u32) == (b[i] as u32) {
        lemma_lex_le_from_total(a, b, i + 1);
    }
}

/// The order is total: of any two strings, one sorts no later than the other.
pub proof fn lemma_lex_le_total(a: Seq<char>, b: Seq<char>)
    ensures
        lex_le(a, b) || lex_le(b, a),
{
    lemma_lex_le_from_total(a, b, 0);
}

proof fn lemma_lex_le_from_trans(a: Seq<char>, b: Seq<char>, c: Seq<char>, i: int)
    requires
        0 <= i,
        lex_le_from(a, b, i),
        lex_le_from(b, c, i),
    ensures
        lex_le_from(a, c, i),
    decreases a.len() - i,
{
    if i < a.len() {
        assert(i < b.len());
        assert(i < c.len());
        if (a[i] as u32) == (b[i] as u32) && (b[i] as u32) == (c[i] as u32) {
            lemma_lex_le_from_trans(a, b, c, i + 1);
        }
    }
}

/// The order is transitive.
pub proof fn lemma_lex_le_trans(a: Seq<char>, b: Seq<char>, c: Seq<char>)
    requires
        lex_le(a, b),
        lex_le(b, c),
    ensures
        lex_le(a, c),
{
    lemma_lex_le_from_trans(a, b, c, 0);
}

/// Decides strict lexicographic order.
pub fn str_lt(a: &str, b: &str) -> (r: bool)
    ensures
        r == lex_lt(a@, b@),
{
    str_le(a, b) && !str_eq(a, b)
}

/// The decimal digits of `n`, most significant first.
pub open spec fn spec_decimal(n: nat) -> Seq<char>
    decreases n,
{
    let last = seq![spec_digit_char((n % 10) as nat)];
    if n < 10 {
        last
    } else {
        spec_decimal((n / 10) as nat) + last
    }
}

/// The character for a single decimal digit.
pub open spec fn spec_digit_char(d: nat) -> char {
    if d == 0 {
        '0'
    } else if d == 1 {
        '1'
    } else if d == 2 {
        '2'
    } else if d == 3 {
        '3'
    } else if d == 4 {
        '4'
    } else if d == 5 {
        '5'
    } else if d == 6 {
        '6'
    } else if d == 7 {
        '7'
    } else if d == 8 {
        '8'
    } else {
        '9'
    }
}

/// The one-character string for a decimal digit.
pub fn digit_str(d: u64) -> (r: &'static str)
    requires
        d < 10,
    ensures
        r@ =~= seq![spec_digit_char(d as nat)],
{
    let r = match d {
        0 => "0",
        1 => "1",
        2 => "2",
        3 => "3",
        4 => "4",
        5 => "5",
        6 => "6",
        7 => "7",
        8 => "8",
        _ => "9",
    };
    proof {
        reveal_strlit("0");
        reveal_strlit("1");
        reveal_strlit("2");
        reveal_strlit("3");
        reveal_strlit("4");
        reveal_strlit("5");
        reveal_strlit("6");
        reveal_strlit("7");
        reveal_strlit("8");
        reveal_strlit("9");
    }
    r
}

/// The decimal rendering of a possibly negative integer.
pub open spec fn spec_decimal_int(v: int) -> Seq<char> {
    if v < 0 {
        "-"@ + spec_decimal((-v) as nat)
    } else {
        spec_decimal(v as nat)
    }
}

/// Renders `v` in decimal, with a leading minus sign when negative.
pub fn i64_to_string(v: i64) -> (r: String)
    ensures
        r@ == spec_decimal_int(v as int),
{
    if v >= 0 {
        u64_to_string(v as u64)
    } else {
        let mag: u64 = if v == i64::MIN {
            9223372036854775808
        } else {
            (-v) as u64
        };
        String::from_str("-").concat(u64_to_string(mag).as_str())
    }
}

/// Renders `n` in decimal.
pub fn u64_to_string(n: u64) -> (r: String)
    ensures
        r@ == spec_decimal(n as nat),
    decreases n,
{
    if n < 10 {
        String::from_str(digit_str(n))
    } else {
        let prefix = u64_to_string(n / 10);
        let r = prefix.concat(digit_str(n % 10));
        r
    }
}

/// Whether `c` is a decimal digit.
pub open spec fn spec_is_digit(c: char) -> bool {
    '0' <= c <= '9'
}

/// The value of a digit character (zero for non-digits).
pub open spec fn spec_digit_val(c: char) -> nat {
    if spec_is_digit(c) {
        ((c as int) - ('0' as int)) as nat
    } else {
        0
    }
}

/// A non-empty run of decimal digits.
pub open spec fn spec_is_digit_seq(s: Seq<char>) -> bool {
    s.len() > 0 && forall|i: int| 0 <= i < s.len() ==> spec_is_digit(#[trigger] s[i])
}

/// The number a digit run denotes.
pub open spec fn spec_digits_val(s: Seq<char>) -> nat
    decreases s.len(),
{
    if s.len() == 0 {
        0
    } else {
        spec_digits_val(s.drop_last()) * 10 + spec_digit_val(s.last())
    }
}

/// The largest magnitude the digit scanner accepts: the magnitude of the
/// most negative 64-bit value, so the whole signed range is covered.
pub open spec fn spec_parse_bound() -> nat {
    9223372036854775808
}

/// What parsing a signed decimal string yields: `None` for anything that is
/// not an optional minus sign followed by digits, and for values outside
/// the signed 64-bit range.
pub open spec fn spec_parse_i64(s: Seq<char>) -> Option<i64> {
    let neg = s.len() > 0 && s[0] == '-';
    let d = if neg {
        s.subrange(1, s.len() as int)
    } else {
        s
    };
    if !spec_is_digit_seq(d) {
        None
    } else if neg && spec_digits_val(d) <= 9223372036854775808 {
        Some((0 - spec_digits_val(d) as int) as i64)
    } else if !neg && spec_digits_val(d) <= 9223372036854775807 {
        Some(spec_digits_val(d) as i64)
    } else {
        None
    }
}

proof fn lemma_digits_prefix_le(s: Seq<char>, i: int)
    requires
        0 <= i <= s.len(),
    ensures
        spec_digits_val(s.subrange(0, i)) <= spec_digits_val(s),
    decreases s.len() - i,
{
    if i < s.len() {
        assert(s.subrange(0, i + 1).drop_last() =~= s.subrange(0, i));
        assert(s.subrange(0, i + 1).last() == s[i]);
        lemma_digits_prefix_le(s, i + 1);
    } else {
        assert(s.subrange(0, i) =~= s);
    }
}

/// Parses the digit run `s[start..]` into its value, refusing magnitudes
/// beyond the signed 64-bit range.
fn parse_digits(s: &str, start: usize) -> (r: Option<u64>)
    requires
        start <= s@.len(),
    ensures
        ({
            let d = s@.subrange(start as int, s@.len() as int);
            match r {
                Some(v) => spec_is_digit_seq(d) && v == spec_digits_val(d) && v
                    <= spec_parse_bound(),
                None => !spec_is_digit_seq(d) || spec_digits_val(d) > spec_parse_bound(),
            }
        }),
{
    let n = s.unicode_len();
    let ghost d = s@.subrange(start as int, n as int);
    if start >= n {
        return None;
    }
    let mut acc: u64 = 0;
    let mut i = start;
    while i < n
        invariant
            start <= i <= n,
            n == s@.len(),
            start < n,
            d == s@.subrange(start as int, n as int),
            acc == spec_digits_val(d.subrange(0, i - start)),
            acc <= spec_parse_bound(),
            forall|j: int| 0 <= j < i - start ==> spec_is_digit(#[trigger] d[j]),
        decreases n - i,
    {
        let c = s.get_char(i);
        if c < '0' || c > '9' {
            proof {
                assert(d[i - start] == c);
                assert(!spec_is_digit_seq(d));
            }
            return None;
        }
        let dv: u64 = (c as u32 as u64) - 48;
        proof {
            assert(spec_digit_val(c) == dv);
            assert(d.subrange(0, i + 1 - start).drop_last() =~= d.subrange(0, i - start));
            assert(d.subrange(0, i + 1 - start).last() == d[i - start]);
        }
        if acc > 922337203685477580 {
            proof {
                lemma_digits_prefix_le(d, i + 1 - start);
            }
            return None;
        }
        acc = acc * 10 + dv;
        i = i + 1;
        if acc > 9223372036854775808 {
            proof {
                lemma_digits_prefix_le(d, i - start);
            }
            return None;
        }
    }
    proof {
        assert(d.subrange(0, n - start) =~= d);
    }
    Some(acc)
}

/// Parses a signed decimal string: an optional minus sign, then digits.
pub fn parse_i64(s: &str) -> (r: Option<i64>)
    ensures
        r == spec_parse_i64(s@),
{
    let n = s.unicode_len();
    let neg = n > 0 && s.get_char(0) == '-';
    let start: usize = if neg {
        1
    } else {
        0
    };
    proof {
        if !neg {
            assert(s@.subrange(0, s@.len() as int) =~= s@);
        }
    }
    match parse_digits(s, start) {
        Some(v) => {
            if neg {
                if v == 9223372036854775808 {
                    Some(i64::MIN)
                } else {
                    Some(0i64 - (v as i64))
                }
            } else {
                if v <= 9223372036854775807 {
                    Some(v as i64)
                } else {
                    None
                }
            }
        },
        None => None,
    }
}

/// Shell glob matching from positions `i` of the pattern and `j` of the
/// text: `*` matches any run of characters, `?` any single character, and
/// anything else itself.
pub open spec fn spec_glob_from(p: Seq<char>, i: int, t: Seq<char>, j: int) -> bool
    decreases p.len() - i, t.len() - j,
{
    if i < 0 || j < 0 {
        false
    } else if i >= p.len() {
        j >= t.len()
    } else if p[i] == '*' {
        spec_glob_from(p, i + 1, t, j) || (j < t.len() && spec_glob_from(p, i, t, j + 1))
    } else if j >= t.len() {
        false
    } else if p[i] == '?' || p[i] == t[j] {
        spec_glob_from(p, i + 1, t, j + 1)
    } else {
        false
    }
}

/// Whether a glob pattern matches a whole text.
pub open spec fn spec_glob_match(pattern: Seq<char>, text: Seq<char>) -> bool {
    spec_glob_from(pattern, 0, text, 0)
}

fn glob_from(p: &str, i: usize, t: &str, j: usize) -> (r: bool)
    requires
        i <= p@.len(),
        j <= t@.len(),
    ensures
        r == spec_glob_from(p@, i as int, t@, j as int),
    decreases p@.len() - i, t@.len() - j,
{
    let plen = p.unicode_len();
    let tlen = t.unicode_len();
    if i >= plen {
        return j >= tlen;
    }
    let pc = p.get_char(i);
    if pc == '*' {
        if glob_from(p, i + 1, t, j) {
            return true;
        }
        if j < tlen {
            return glob_from(p, i, t, j + 1);
        }
        return false;
    }
    if j >= tlen {
        return false;
    }
    let tc = t.get_char(j);
    if pc == '?' || pc == tc {
        glob_from(p, i + 1, t, j + 1)
    } else {
        false
    }
}

/// Decides whether a glob pattern matches a text.
pub fn glob_match(pattern: &str, text: &str) -> (r: bool)
    ensures
        r == spec_glob_match(pattern@, text@),
{
    glob_from(pattern, 0, text, 0)
}

/// Relies on char::to_string: a one-character string holding exactly `c`.
#[verifier::external_body]
pub fn char_to_string(c: char) -> (r: String)
    ensures
        r@ =~= seq![c],
{
    c.to_string()
}

/// Copies a vector of strings; the copies hold the same characters.
pub fn clone_string_vec(v: &Vec<String>) -> (r: Vec<String>)
    ensures
        r@.len() == v@.len(),
        forall|i: int| 0 <= i < v@.len() ==> (#[trigger] r@[i])@ == v@[i]@,
{
    let n = v.len();
    let mut out: Vec<String> = Vec::new();
    let mut i: usize = 0;
    while i < n
        invariant
            i <= n,
            n == v@.len(),
            out@.len() == i,
            forall|j: int| 0 <= j < i ==> (#[trigger] out@[j])@ == v@[j]@,
        decreases n - i,
    {
        out.push(v[i].clone());
        i = i + 1;
    }
    out
}

} // verus!
