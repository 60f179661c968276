//! Primitive pieces of the structured-text encoding: quoted strings with
//! escapes, and decimal numbers.  Encoding is canonical (the form the
//! channel itself writes); parsing accepts exactly what a peer running the
//! same codec produces, and rejects everything else as malformed.

use vstd::prelude::*;

verus! {

/// The sixteen hexadecimal digit characters, lower case.
pub open spec fn hex_digit(n: int) -> char {
    if n == 0 {
        '0'
    } else if n == 1 {
        '1'
    } else if n == 2 {
        '2'
    } else if n == 3 {
        '3'
    } else if n == 4 {
        '4'
    } else if n == 5 {
        '5'
    } else if n == 6 {
        '6'
    } else if n == 7 {
        '7'
    } else if n == 8 {
        '8'
    } else if n == 9 {
        '9'
    } else if n == 10 {
        'a'
    } else if n == 11 {
        'b'
    } else if n == 12 {
        'c'
    } else if n == 13 {
        'd'
    } else if n == 14 {
        'e'
    } else {
        'f'
    }
}

/// Numeric value of a hexadecimal digit character, or 16 for any other
/// character.
pub open spec fn hex_val(c: char) -> int {
    if c == '0' {
        0
    } else if c == '1' {
        1
    } else if c == '2' {
        2
    } else if c == '3' {
        3
    } else if c == '4' {
        4
    } else if c == '5' {
        5
    } else if c == '6' {
        6
    } else if c == '7' {
        7
    } else if c == '8' {
        8
    } else if c == '9' {
        9
    } else if c == 'a' {
        10
    } else if c == 'b' {
        11
    } else if c == 'c' {
        12
    } else if c == 'd' {
        13
    } else if c == 'e' {
        14
    } else if c == 'f' {
        15
    } else {
        16
    }
}

pub open spec fn is_dec_digit(c: char) -> bool {
    c == '0' || c == '1' || c == '2' || c == '3' || c == '4' || c == '5' || c == '6' || c == '7'
        || c == '8' || c == '9'
}

/// Numeric value of a decimal digit character.
pub open spec fn dec_val(c: char) -> int {
    hex_val(c)
}

// ------------------------------------------------------------------
// string escaping
// ------------------------------------------------------------------

/// The wire spelling of one character inside a quoted string: the quote and
/// the backslash get a backslash escape, the common control characters get
/// their short escapes, the remaining control characters are spelled
/// `\u00XX`, and everything else stands as itself.
pub open spec fn escape_char(c: char) -> Seq<char> {
    if c == '"' {
        seq!['\\', '"']
    } else if c == '\\' {
        seq!['\\', '\\']
    } else if c == '\u{08}' {
        seq!['\\', 'b']
    } else if c == '\u{09}' {
        seq!['\\', 't']
    } else if c == '\u{0A}' {
        seq!['\\', 'n']
    } else if c == '\u{0C}' {
        seq!['\\', 'f']
    } else if c == '\u{0D}' {
        seq!['\\', 'r']
    } else if (c as u32) < 0x20 {
        seq![
            '\\',
            'u',
            '0',
            '0',
            hex_digit((c as u32) as int / 16),
            hex_digit((c as u32) as int % 16),
        ]
    } else {
        seq![c]
    }
}

/// The wire spelling of a whole string body, escape by escape.
pub open spec fn escape_str(s: Seq<char>) -> Seq<char>
    decreases s.len(),
{
    if s.len() == 0 {
        Seq::empty()
    } else {
        escape_char(s[0]) + escape_str(s.drop_first())
    }
}

/// A complete quoted string unit: quote, escaped body, quote.
pub open spec fn quote_str(s: Seq<char>) -> Seq<char> {
    seq!['"'] + escape_str(s) + seq!['"']
}

/// Appending one character to a string appends its escape to the wire
/// spelling.
pub proof fn lemma_escape_str_snoc(s: Seq<char>, c: char)
    ensures
        escape_str(s.push(c)) == escape_str(s) + escape_char(c),
    decreases s.len(),
{
    if s.len() == 0 {
        assert(s.push(c).len() == 1);
        assert(s.push(c)[0] == c);
        assert(s.push(c).drop_first() =~= Seq::<char>::empty());
        assert(escape_str(Seq::<char>::empty()) =~= Seq::<char>::empty());
        assert(escape_str(s) =~= Seq::<char>::empty());
        assert(escape_str(s.push(c)) =~= escape_str(s) + escape_char(c));
    } else {
        assert(s.push(c).drop_first() =~= s.drop_first().push(c));
        lemma_escape_str_snoc(s.drop_first(), c);
        assert(escape_str(s.push(c)) =~= escape_str(s) + escape_char(c));
    }
}

/// Parses the body of a quoted string starting at `i` (just past the
/// opening quote), undoing the escapes, up to the closing quote.  Yields
/// the decoded content and the index one past the closing quote; `None` on
/// a malformed escape or if the text ends first.
pub open spec fn parse_string_body(s: Seq<char>, i: int) -> Option<(Seq<char>, int)>
    decreases s.len() - i,
{
    if i < 0 || i >= s.len() {
        None
    } else if s[i] == '"' {
        Some((Seq::empty(), i + 1))
    } else if s[i] == '\\' {
        if i + 1 >= s.len() {
            None
        } else {
            let e = s[i + 1];
            if e == '"' || e == '\\' {
                cons_parsed(e, parse_string_body(s, i + 2))
            } else if e == 'b' {
                cons_parsed('\u{08}', parse_string_body(s, i + 2))
            } else if e == 't' {
                cons_parsed('\u{09}', parse_string_body(s, i + 2))
            } else if e == 'n' {
                cons_parsed('\u{0A}', parse_string_body(s, i + 2))
            } else if e == 'f' {
                cons_parsed('\u{0C}', parse_string_body(s, i + 2))
            } else if e == 'r' {
                cons_parsed('\u{0D}', parse_string_body(s, i + 2))
            } else if e == 'u' {
                if i + 5 >= s.len() {
                    None
                } else if s[i + 2] == '0' && s[i + 3] == '0' && hex_val(s[i + 4]) < 16 && hex_val(
                    s[i + 5],
                ) < 16 && hex_val(s[i + 4]) * 16 + hex_val(s[i + 5]) < 0x20 {
                    cons_parsed(
                        ((hex_val(s[i + 4]) * 16 + hex_val(s[i + 5])) as u8) as char,
                        parse_string_body(s, i + 6),
                    )
                } else {
                    None
                }
            } else {
                None
            }
        }
    } else {
        cons_parsed(s[i], parse_string_body(s, i + 1))
    }
}

/// Prepends a decoded character to the result of parsing the rest of a
/// string body.
pub open spec fn cons_parsed(c: char, rest: Option<(Seq<char>, int)>) -> Option<(Seq<char>, int)> {
    match rest {
        Some((t, j)) => Some((seq![c] + t, j)),
        None => None,
    }
}

/// Undoing the escapes recovers the original string: parsing a spelled-out
/// body from anywhere inside a larger text yields exactly the string that
/// was escaped, ending just past its closing quote.
pub proof fn lemma_parse_escaped(pre: Seq<char>, s: Seq<char>, post: Seq<char>)
    ensures
        parse_string_body(pre + escape_str(s) + seq!['"'] + post, pre.len() as int) == Some(
            (s, pre.len() + escape_str(s).len() + 1 as int),
        ),
    decreases s.len(),
{
    let t = pre + escape_str(s) + seq!['"'] + post;
    if s.len() == 0 {
        assert(t[pre.len() as int] == '"');
    } else {
        let c = s[0];
        let e = escape_char(c);
        let s1 = s.drop_first();
        let pre1 = pre + e;
        assert(escape_str(s) == e + escape_str(s1));
        assert(t =~= pre1 + escape_str(s1) + seq!['"'] + post);
        lemma_parse_escaped(pre1, s1, post);
        let i = pre.len() as int;
        assert forall|k: int| 0 <= k < e.len() implies t[i + k] == e[k] by {
            assert(t =~= pre + e + (escape_str(s1) + seq!['"'] + post));
        }
        assert(seq![c] + s1 =~= s);
        if c == '"' || c == '\\' {
            assert(t[i] == '\\' && t[i + 1] == c);
        } else if c == '\u{08}' || c == '\u{09}' || c == '\u{0A}' || c == '\u{0C}' || c
            == '\u{0D}' {
            assert(t[i] == '\\');
        } else if (c as u32) < 0x20 {
            let v = (c as u32) as int;
            assert(t[i] == '\\' && t[i + 1] == 'u' && t[i + 2] == '0' && t[i + 3] == '0');
            assert(t[i + 4] == hex_digit(v / 16) && t[i + 5] == hex_digit(v % 16));
            assert(hex_val(hex_digit(v / 16)) == v / 16);
            assert(hex_val(hex_digit(v % 16)) == v % 16);
            assert(hex_val(t[i + 4]) * 16 + hex_val(t[i + 5]) == v);
            vstd::utf8::char_u32_cast(c, c as u32);
            assert(((v as u8) as char) == c);
        } else {
            assert(t[i] == c);
            assert(c != '"' && c != '\\');
        }
    }
}

/// A quoted string unit scans exactly to its own closing quote: the
/// escaped body never holds an unescaped quote, so the scanner's notion of
/// the unit end and the parser's agree.
pub proof fn lemma_scan_escaped(pre: Seq<char>, s: Seq<char>, post: Seq<char>)
    ensures
        crate::scan::scan_string(pre + escape_str(s) + seq!['"'] + post, pre.len() as int) == Some(
            pre.len() + escape_str(s).len() + 1 as int,
        ),
    decreases s.len(),
{
    let t = pre + escape_str(s) + seq!['"'] + post;
    if s.len() == 0 {
        assert(t[pre.len() as int] == '"');
    } else {
        let c = s[0];
        let e = escape_char(c);
        let s1 = s.drop_first();
        let pre1 = pre + e;
        assert(escape_str(s) == e + escape_str(s1));
        assert(t =~= pre1 + escape_str(s1) + seq!['"'] + post);
        lemma_scan_escaped(pre1, s1, post);
        let i = pre.len() as int;
        assert forall|k: int| 0 <= k < e.len() implies t[i + k] == e[k] by {
            assert(t =~= pre + e + (escape_str(s1) + seq!['"'] + post));
        }
        if c == '"' || c == '\\' {
            assert(t[i] == '\\');
            assert(crate::scan::scan_string(t, i) == crate::scan::scan_string(t, i + 2));
        } else if c == '\u{08}' || c == '\u{09}' || c == '\u{0A}' || c == '\u{0C}' || c
            == '\u{0D}' {
            assert(t[i] == '\\');
            assert(crate::scan::scan_string(t, i) == crate::scan::scan_string(t, i + 2));
        } else if (c as u32) < 0x20 {
            assert(t[i] == '\\');
            assert(t[i + 1] == 'u' && t[i + 2] == '0' && t[i + 3] == '0');
            assert(t[i + 4] != '"' && t[i + 4] != '\\');
            assert(t[i + 5] != '"' && t[i + 5] != '\\');
            assert(crate::scan::scan_string(t, i) == crate::scan::scan_string(t, i + 2));
            assert(crate::scan::scan_string(t, i + 2) == crate::scan::scan_string(t, i + 3));
            assert(crate::scan::scan_string(t, i + 3) == crate::scan::scan_string(t, i + 4));
            assert(crate::scan::scan_string(t, i + 4) == crate::scan::scan_string(t, i + 5));
            assert(crate::scan::scan_string(t, i + 5) == crate::scan::scan_string(t, i + 6));
        } else {
            assert(t[i] == c);
            assert(crate::scan::scan_string(t, i) == crate::scan::scan_string(t, i + 1));
        }
    }
}

// ------------------------------------------------------------------
// decimal numbers
// ------------------------------------------------------------------

/// The decimal digits of a non-negative number, most significant first.
pub open spec fn dec_digits(n: int) -> Seq<char>
    decreases n,
{
    if n < 10 {
        seq![hex_digit(if n >= 0 {
            n
        } else {
            0
        })]
    } else {
        dec_digits(n / 10) + seq![hex_digit(n % 10)]
    }
}

/// Powers of ten.
pub open spec fn pow10(k: nat) -> int
    decreases k,
{
    if k == 0 {
        1
    } else {
        10 * pow10((k - 1) as nat)
    }
}

/// Reads decimal digits from `i` on, folding them into `acc`; stops at the
/// first non-digit or the end of the text.
pub open spec fn parse_digits(s: Seq<char>, i: int, acc: int) -> (int, int)
    decreases s.len() - i,
{
    if 0 <= i < s.len() && is_dec_digit(s[i]) {
        parse_digits(s, i + 1, acc * 10 + dec_val(s[i]))
    } else {
        (acc, i)
    }
}

/// Reads one non-negative decimal number starting exactly at `i`; `None`
/// if `i` does not hold a digit.
pub open spec fn parse_number(s: Seq<char>, i: int) -> Option<(int, int)> {
    if 0 <= i < s.len() && is_dec_digit(s[i]) {
        Some(parse_digits(s, i, 0))
    } else {
        None
    }
}

pub proof fn lemma_dec_digits_are_digits(n: int)
    ensures
        dec_digits(n).len() >= 1,
        forall|k: int| 0 <= k < dec_digits(n).len() ==> is_dec_digit(#[trigger] dec_digits(n)[k]),
    decreases n,
{
    if n >= 10 {
        lemma_dec_digits_are_digits(n / 10);
        assert(forall|k: int|
            0 <= k < dec_digits(n / 10).len() ==> dec_digits(n)[k] == dec_digits(n / 10)[k]);
        assert(dec_digits(n)[dec_digits(n).len() - 1] == hex_digit(n % 10));
    }
}

/// Folding the digits of `n` into an accumulator shifts the accumulator up
/// by one decimal place per digit and adds `n`; the fold continues from
/// whatever follows.
pub proof fn lemma_fold_dec_digits(pre: Seq<char>, n: int, post: Seq<char>, acc: int)
    requires
        n >= 0,
    ensures
        parse_digits(pre + dec_digits(n) + post, pre.len() as int, acc) == parse_digits(
            pre + dec_digits(n) + post,
            pre.len() + dec_digits(n).len() as int,
            acc * pow10(dec_digits(n).len()) + n,
        ),
    decreases n,
{
    let t = pre + dec_digits(n) + post;
    lemma_dec_digits_are_digits(n);
    if n < 10 {
        assert(t[pre.len() as int] == hex_digit(n));
        assert(dec_val(hex_digit(n)) == n);
        assert(pow10(0) == 1);
        assert(pow10(1) == 10);
        assert(parse_digits(t, pre.len() as int, acc) == parse_digits(
            t,
            pre.len() + 1 as int,
            acc * 10 + n,
        ));
    } else {
        let hi = n / 10;
        let lo = n % 10;
        let last = seq![hex_digit(lo)];
        let post1 = last + post;
        let k = dec_digits(hi).len();
        assert(dec_digits(n) == dec_digits(hi) + last);
        assert(t =~= pre + dec_digits(hi) + post1);
        lemma_fold_dec_digits(pre, hi, post1, acc);
        let j = pre.len() + k as int;
        let mid = acc * pow10(k) + hi;
        assert(parse_digits(t, pre.len() as int, acc) == parse_digits(t, j, mid));
        assert(t[j] == hex_digit(lo)) by {
            assert(t =~= (pre + dec_digits(hi)) + (last + post));
        }
        assert(dec_val(hex_digit(lo)) == lo);
        assert(parse_digits(t, j, mid) == parse_digits(t, j + 1, mid * 10 + lo));
        lemma_pow10_shift(k);
        assert(mid * 10 + lo == acc * pow10(k + 1) + n) by (nonlinear_arith)
            requires
                mid == acc * pow10(k) + hi,
                pow10(k + 1) == pow10(k) * 10,
                hi == n / 10,
                lo == n % 10,
                n >= 10,
        ;
        assert(dec_digits(n).len() == k + 1);
    }
}

/// Helper: `pow10` grows by a factor of ten per digit.
proof fn lemma_pow10_shift(k: nat)
    ensures
        pow10((k + 1) as nat) == pow10(k) * 10,
    decreases k,
{
    if k > 0 {
        lemma_pow10_shift((k - 1) as nat);
    }
}

/// Parsing the spelled-out digits of `n` from inside a larger text yields
/// exactly `n`, stopping right after them, provided no digit follows.
pub proof fn lemma_parse_number_of_digits(pre: Seq<char>, n: int, post: Seq<char>)
    requires
        n >= 0,
        post.len() == 0 || !is_dec_digit(post[0]),
    ensures
        parse_number(pre + dec_digits(n) + post, pre.len() as int) == Some(
            (n, pre.len() + dec_digits(n).len() as int),
        ),
{
    let t = pre + dec_digits(n) + post;
    lemma_dec_digits_are_digits(n);
    assert(t[pre.len() as int] == dec_digits(n)[0]);
    lemma_fold_dec_digits(pre, n, post, 0);
    let end = pre.len() + dec_digits(n).len();
    if post.len() == 0 {
        assert(end >= t.len());
    } else {
        assert(t[end as int] == post[0]) by {
            assert(t =~= (pre + dec_digits(n)) + post);
        }
    }
    assert(parse_digits(t, end as int, 0 * pow10(dec_digits(n).len()) + n) == (n, end as int));
}

// ------------------------------------------------------------------
// executable twins
// ------------------------------------------------------------------

/// Executable twin of [`is_dec_digit`].
pub fn is_dec_digit_x(c: char) -> (r: bool)
    ensures
        r == is_dec_digit(c),
{
    c == '0' || c == '1' || c == '2' || c == '3' || c == '4' || c == '5' || c == '6' || c == '7'
        || c == '8' || c == '9'
}

/// Executable twin of [`dec_val`] on decimal digits.
pub fn dec_val_x(c: char) -> (r: u32)
    requires
        is_dec_digit(c),
    ensures
        r == dec_val(c),
{
    if c == '0' {
        0
    } else if c == '1' {
        1
    } else if c == '2' {
        2
    } else if c == '3' {
        3
    } else if c == '4' {
        4
    } else if c == '5' {
        5
    } else if c == '6' {
        6
    } else if c == '7' {
        7
    } else if c == '8' {
        8
    } else {
        9
    }
}

/// Executable twin of [`hex_digit`].
pub fn hex_digit_x(n: u32) -> (r: char)
    requires
        n < 16,
    ensures
        r == hex_digit(n as int),
{
    if n == 0 {
        '0'
    } else if n == 1 {
        '1'
    } else if n == 2 {
        '2'
    } else if n == 3 {
        '3'
    } else if n == 4 {
        '4'
    } else if n == 5 {
        '5'
    } else if n == 6 {
        '6'
    } else if n == 7 {
        '7'
    } else if n == 8 {
        '8'
    } else if n == 9 {
        '9'
    } else if n == 10 {
        'a'
    } else if n == 11 {
        'b'
    } else if n == 12 {
        'c'
    } else if n == 13 {
        'd'
    } else if n == 14 {
        'e'
    } else {
        'f'
    }
}

/// Executable twin of [`hex_val`].
pub fn hex_val_x(c: char) -> (r: u32)
    ensures
        r == hex_val(c),
{
    if c == '0' {
        0
    } else if c == '1' {
        1
    } else if c == '2' {
        2
    } else if c == '3' {
        3
    } else if c == '4' {
        4
    } else if c == '5' {
        5
    } else if c == '6' {
        6
    } else if c == '7' {
        7
    } else if c == '8' {
        8
    } else if c == '9' {
        9
    } else if c == 'a' {
        10
    } else if c == 'b' {
        11
    } else if c == 'c' {
        12
    } else if c == 'd' {
        13
    } else if c == 'e' {
        14
    } else if c == 'f' {
        15
    } else {
        16
    }
}

/// Appends the decimal digits of `n` to `out`.
pub fn push_dec_u64(out: &mut Vec<char>, n: u64)
    ensures
        final(out)@ == old(out)@ + dec_digits(n as int),
    decreases n,
{
    if n < 10 {
        out.push(hex_digit_x(n as u32));
        proof {
            assert(out@ =~= old(out)@ + dec_digits(n as int));
        }
    } else {
        push_dec_u64(out, n / 10);
        out.push(hex_digit_x((n % 10) as u32));
        proof {
            assert(out@ =~= old(out)@ + dec_digits(n as int));
        }
    }
}

/// Appends the wire spelling of one string-body character to `out`.
pub fn push_escaped_char(out: &mut Vec<char>, c: char)
    ensures
        final(out)@ == old(out)@ + escape_char(c),
{
    if c == '"' {
        out.push('\\');
        out.push('"');
    } else if c == '\\' {
        out.push('\\');
        out.push('\\');
    } else if c == '\u{08}' {
        out.push('\\');
        out.push('b');
    } else if c == '\u{09}' {
        out.push('\\');
        out.push('t');
    } else if c == '\u{0A}' {
        out.push('\\');
        out.push('n');
    } else if c == '\u{0C}' {
        out.push('\\');
        out.push('f');
    } else if c == '\u{0D}' {
        out.push('\\');
        out.push('r');
    } else if (c as u32) < 0x20 {
        let v: u32 = c as u32;
        out.push('\\');
        out.push('u');
        out.push('0');
        out.push('0');
        out.push(hex_digit_x(v / 16));
        out.push(hex_digit_x(v % 16));
    } else {
        out.push(c);
    }
    proof {
        assert(out@ =~= old(out)@ + escape_char(c));
    }
}

/// Appends the quoted wire spelling of a whole string to `out`.
pub fn push_quoted_str(out: &mut Vec<char>, s: &str)
    ensures
        final(out)@ == old(out)@ + quote_str(s@),
{
    out.push('"');
    let ghost opened = out@;
    let n: usize = s.unicode_len();
    let mut i: usize = 0;
    proof {
        assert(escape_str(s@.subrange(0, 0)) =~= Seq::<char>::empty());
        assert(out@ =~= opened + escape_str(s@.subrange(0, 0)));
    }
    while i < n
        invariant
            n == s@.len(),
            i <= n,
            out@ == opened + escape_str(s@.subrange(0, i as int)),
        decreases n - i,
    {
        let c = s.get_char(i);
        proof {
            assert(s@.subrange(0, i + 1) =~= s@.subrange(0, i as int).push(c));
            lemma_escape_str_snoc(s@.subrange(0, i as int), c);
        }
        push_escaped_char(out, c);
        i = i + 1;
    }
    out.push('"');
    proof {
        assert(s@.subrange(0, s@.len() as int) =~= s@);
        assert(out@ =~= old(out)@ + quote_str(s@));
    }
}

/// Executable twin of [`parse_string_body`]; the decoded content is
/// appended to `out`.
pub fn parse_string_body_at(s: &[char], i: usize, out: &mut Vec<char>) -> (r: Option<usize>)
    ensures
        match r {
            Some(j) => parse_string_body(s@, i as int) matches Some((content, jj))
                && final(out)@ == old(out)@ + content && jj == j as int,
            None => parse_string_body(s@, i as int) is None,
        },
    decreases s@.len() - i,
{
    if i >= s.len() {
        None
    } else if s[i] == '"' {
        proof {
            assert(out@ =~= old(out)@ + Seq::<char>::empty());
        }
        Some(i + 1)
    } else if s[i] == '\\' {
        if i + 1 >= s.len() {
            None
        } else {
            let e = s[i + 1];
            let decoded: char;
            let next: usize;
            if e == '"' || e == '\\' {
                decoded = e;
                next = i + 2;
            } else if e == 'b' {
                decoded = '\u{08}';
                next = i + 2;
            } else if e == 't' {
                decoded = '\u{09}';
                next = i + 2;
            } else if e == 'n' {
                decoded = '\u{0A}';
                next = i + 2;
            } else if e == 'f' {
                decoded = '\u{0C}';
                next = i + 2;
            } else if e == 'r' {
                decoded = '\u{0D}';
                next = i + 2;
            } else if e == 'u' {
                if s.len() - i <= 5 {
                    return None;
                }
                let h1 = hex_val_x(s[i + 4]);
                let h2 = hex_val_x(s[i + 5]);
                if !(s[i + 2] == '0' && s[i + 3] == '0' && h1 < 16 && h2 < 16 && h1 * 16 + h2
                    < 0x20) {
                    return None;
                }
                decoded = (h1 * 16 + h2) as u8 as char;
                next = i + 6;
            } else {
                return None;
            }
            out.push(decoded);
            let r = parse_string_body_at(s, next, out);
            proof {
                match parse_string_body(s@, next as int) {
                    Some((content, jj)) => {
                        assert(out@ =~= old(out)@ + (seq![decoded] + content));
                    },
                    None => {},
                }
            }
            r
        }
    } else {
        let c = s[i];
        out.push(c);
        let r = parse_string_body_at(s, i + 1, out);
        proof {
            match parse_string_body(s@, i + 1 as int) {
                Some((content, jj)) => {
                    assert(out@ =~= old(out)@ + (seq![c] + content));
                },
                None => {},
            }
        }
        r
    }
}

/// Executable twin of [`parse_number`] for values that fit in a `u64`:
/// yields `None` both where the text holds no number and where the number
/// would not fit.
pub fn parse_u64_at(s: &[char], i: usize) -> (r: Option<(u64, usize)>)
    ensures
        match r {
            Some((v, j)) => parse_number(s@, i as int) == Some((v as int, j as int)),
            None => parse_number(s@, i as int) is None || (parse_number(s@, i as int)
                matches Some((v, j)) && v > u64::MAX),
        },
{
    if i >= s.len() || !is_dec_digit_x(s[i]) {
        return None;
    }
    let mut acc: u64 = 0;
    let mut j: usize = i;
    while j < s.len() && is_dec_digit_x(s[j])
        invariant
            i <= j <= s@.len(),
            parse_digits(s@, i as int, 0) == parse_digits(s@, j as int, acc as int),
            0 <= i < s@.len() && is_dec_digit(s@[i as int]),
        decreases s@.len() - j,
    {
        let d = dec_val_x(s[j]);
        if acc > (u64::MAX - d as u64) / 10 {
            proof {
                let dv = dec_val(s@[j as int]);
                assert(acc as int * 10 + dv > u64::MAX);
                lemma_parse_digits_lower_bound(s@, j + 1, acc as int * 10 + dv);
                assert(parse_digits(s@, j as int, acc as int) == parse_digits(
                    s@,
                    j + 1,
                    acc as int * 10 + dv,
                ));
            }
            return None;
        }
        acc = acc * 10 + d as u64;
        j = j + 1;
    }
    Some((acc, j))
}

/// A digit fold never shrinks a non-negative accumulator, so an overflow
/// observed mid-fold dooms the final value too.
proof fn lemma_parse_digits_lower_bound(s: Seq<char>, i: int, acc: int)
    requires
        acc >= 0,
    ensures
        parse_digits(s, i, acc).0 >= acc,
    decreases s.len() - i,
{
    if 0 <= i < s.len() && is_dec_digit(s[i]) {
        lemma_parse_digits_lower_bound(s, i + 1, acc * 10 + dec_val(s[i]));
    }
}

/// The decimal spelling of a signed number: a leading minus sign for
/// negative values.
pub open spec fn int_digits(n: int) -> Seq<char> {
    if n < 0 {
        seq!['-'] + dec_digits(-n)
    } else {
        dec_digits(n)
    }
}

/// Appends the decimal spelling of `i` to `out`.
pub fn push_int_i8(out: &mut Vec<char>, i: i8)
    ensures
        final(out)@ == old(out)@ + int_digits(i as int),
{
    if i < 0 {
        out.push('-');
        let m: i16 = -(i as i16);
        push_dec_u64(out, m as u64);
        proof {
            assert(out@ =~= old(out)@ + int_digits(i as int));
        }
    } else {
        push_dec_u64(out, i as u64);
    }
}

/// A quoted string spelled at `[i, i + quote_str(s).len())` parses back to
/// exactly `s`, ending just past its closing quote.
pub proof fn lemma_parse_quoted_sub(t: Seq<char>, i: int, s: Seq<char>)
    requires
        0 <= i,
        i + quote_str(s).len() <= t.len(),
        t.subrange(i, i + quote_str(s).len()) == quote_str(s),
    ensures
        t[i] == '"',
        parse_string_body(t, i + 1) == Some((s, i + quote_str(s).len())),
{
    let q = quote_str(s);
    let esc = escape_str(s);
    let pre = t.subrange(0, i + 1);
    let post = t.subrange(i + q.len(), t.len() as int);
    assert(t[i] == q[0]);
    assert(q.len() == esc.len() + 2);
    assert forall|k: int| 0 <= k < t.len() implies t[k] == (pre + esc + seq!['"'] + post)[k] by {
        if i <= k < i + q.len() {
            assert(t[k] == t.subrange(i, i + q.len())[k - i]);
            assert(q[k - i] == (seq!['"'] + esc + seq!['"'])[k - i]);
        }
    }
    assert(t =~= pre + esc + seq!['"'] + post);
    lemma_parse_escaped(pre, s, post);
}

/// The decimal digits of `n` spelled at `[i, ...)`, not followed by another
/// digit, parse back to exactly `n`.
pub proof fn lemma_parse_number_sub(t: Seq<char>, i: int, n: int)
    requires
        n >= 0,
        0 <= i,
        i + dec_digits(n).len() <= t.len(),
        t.subrange(i, i + dec_digits(n).len()) == dec_digits(n),
        i + dec_digits(n).len() == t.len() || !is_dec_digit(t[i + dec_digits(n).len()]),
    ensures
        parse_number(t, i) == Some((n, i + dec_digits(n).len())),
{
    let d = dec_digits(n);
    let pre = t.subrange(0, i);
    let post = t.subrange(i + d.len(), t.len() as int);
    assert(t =~= pre + d + post);
    if post.len() > 0 {
        assert(post[0] == t[i + d.len()]);
    }
    lemma_parse_number_of_digits(pre, n, post);
}

} // verus!
