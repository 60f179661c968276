//! Self-delimiting wire framing.
//!
//! Messages travel as structured-text units written back to back with no
//! separator; unit boundaries are recovered from the text itself.  A unit is
//! either a quoted string (with backslash escapes), a brace- or
//! bracket-delimited nest, or a bare primitive that runs until a delimiter.
//! The scanner here finds the end of one unit; [`units_of`] gives the
//! complete units a stream of text splits into.

use vstd::prelude::*;

verus! {

/// Whitespace that may separate units on the wire.
pub open spec fn is_json_ws(c: char) -> bool {
    c == ' ' || c == '\t' || c == '\n' || c == '\r'
}

/// Characters that end a bare primitive unit.
pub open spec fn is_prim_end(c: char) -> bool {
    is_json_ws(c) || c == '{' || c == '[' || c == '"' || c == '}' || c == ']' || c == ','
}

/// First index at or after `i` holding a non-whitespace character, or the
/// end of the text.
pub open spec fn skip_ws(s: Seq<char>, i: int) -> int
    decreases s.len() - i,
{
    if 0 <= i < s.len() && is_json_ws(s[i]) {
        skip_ws(s, i + 1)
    } else {
        i
    }
}

/// End of a quoted string whose body starts at `i` (just after the opening
/// quote): the index one past the closing quote, or `None` if the text ends
/// first.
pub open spec fn scan_string(s: Seq<char>, i: int) -> Option<int>
    decreases s.len() - i,
{
    if i < 0 || i >= s.len() {
        None
    } else if s[i] == '"' {
        Some(i + 1)
    } else if s[i] == '\\' {
        if i + 1 >= s.len() {
            None
        } else {
            scan_string(s, i + 2)
        }
    } else {
        scan_string(s, i + 1)
    }
}

/// End of a brace/bracket nest, scanning from `i` with `depth` unclosed
/// openers: the index one past the closer that balances the first opener,
/// or `None` if the text ends first.
pub open spec fn scan_nested(s: Seq<char>, i: int, depth: int) -> Option<int>
    decreases s.len() - i,
{
    if i < 0 || i >= s.len() || depth <= 0 {
        None
    } else if s[i] == '"' {
        match scan_string(s, i + 1) {
            Some(j) => if j <= i || j > s.len() {
                None
            } else {
                scan_nested(s, j, depth)
            },
            None => None,
        }
    } else if s[i] == '{' || s[i] == '[' {
        scan_nested(s, i + 1, depth + 1)
    } else if s[i] == '}' || s[i] == ']' {
        if depth == 1 {
            Some(i + 1)
        } else {
            scan_nested(s, i + 1, depth - 1)
        }
    } else {
        scan_nested(s, i + 1, depth)
    }
}

/// First index at or after `i` that ends a bare primitive, or `None` if the
/// text ends first.
pub open spec fn scan_prim(s: Seq<char>, i: int) -> Option<int>
    decreases s.len() - i,
{
    if i < 0 || i >= s.len() {
        None
    } else if is_prim_end(s[i]) {
        Some(i)
    } else {
        scan_prim(s, i + 1)
    }
}

/// End of the one self-delimiting unit starting at `i`, or `None` if the
/// text ends before the unit is complete.  `s[i]` is expected to be
/// non-whitespace.
pub open spec fn scan_value(s: Seq<char>, i: int) -> Option<int> {
    if i < 0 || i >= s.len() {
        None
    } else if s[i] == '"' {
        scan_string(s, i + 1)
    } else if s[i] == '{' || s[i] == '[' {
        scan_nested(s, i + 1, 1)
    } else {
        scan_prim(s, i + 1)
    }
}

/// A complete unit as it appears on the wire: non-empty, starting with a
/// non-whitespace character, and scanning exactly to its own end.
pub open spec fn wf_unit(u: Seq<char>) -> bool {
    &&& u.len() > 0
    &&& !is_json_ws(u[0])
    &&& scan_value(u, 0) == Some(u.len() as int)
}

/// The complete units at the front of a stream of text, in order.  A
/// trailing incomplete unit (the stream stopped mid-unit) contributes
/// nothing.
pub open spec fn units_of(s: Seq<char>) -> Seq<Seq<char>>
    decreases s.len(),
{
    let i = skip_ws(s, 0);
    if !(0 <= i < s.len()) {
        Seq::empty()
    } else {
        match scan_value(s, i) {
            Some(j) => if i < j <= s.len() {
                seq![s.subrange(i, j)] + units_of(s.subrange(j, s.len() as int))
            } else {
                Seq::empty()
            },
            None => Seq::empty(),
        }
    }
}

/// All the units of a stream, concatenated back into wire text.
pub open spec fn concat_all(units: Seq<Seq<char>>) -> Seq<char>
    decreases units.len(),
{
    if units.len() == 0 {
        Seq::empty()
    } else {
        units[0] + concat_all(units.drop_first())
    }
}

pub proof fn lemma_skip_ws_bounds(s: Seq<char>, i: int)
    requires
        0 <= i <= s.len(),
    ensures
        i <= skip_ws(s, i) <= s.len(),
        skip_ws(s, i) < s.len() ==> !is_json_ws(s[skip_ws(s, i)]),
    decreases s.len() - i,
{
    if i < s.len() && is_json_ws(s[i]) {
        lemma_skip_ws_bounds(s, i + 1);
    }
}

pub proof fn lemma_scan_string_bounds(s: Seq<char>, i: int, j: int)
    requires
        scan_string(s, i) == Some(j),
    ensures
        i < j <= s.len(),
    decreases s.len() - i,
{
    if 0 <= i < s.len() {
        if s[i] == '"' {
        } else if s[i] == '\\' {
            if i + 1 < s.len() {
                lemma_scan_string_bounds(s, i + 2, j);
            }
        } else {
            lemma_scan_string_bounds(s, i + 1, j);
        }
    }
}

pub proof fn lemma_scan_nested_bounds(s: Seq<char>, i: int, depth: int, j: int)
    requires
        scan_nested(s, i, depth) == Some(j),
    ensures
        i < j <= s.len(),
    decreases s.len() - i,
{
    if 0 <= i < s.len() && depth > 0 {
        if s[i] == '"' {
            match scan_string(s, i + 1) {
                Some(k) => {
                    lemma_scan_string_bounds(s, i + 1, k);
                    lemma_scan_nested_bounds(s, k, depth, j);
                },
                None => {},
            }
        } else if s[i] == '{' || s[i] == '[' {
            lemma_scan_nested_bounds(s, i + 1, depth + 1, j);
        } else if s[i] == '}' || s[i] == ']' {
            if depth != 1 {
                lemma_scan_nested_bounds(s, i + 1, depth - 1, j);
            }
        } else {
            lemma_scan_nested_bounds(s, i + 1, depth, j);
        }
    }
}

pub proof fn lemma_scan_prim_bounds(s: Seq<char>, i: int, j: int)
    requires
        scan_prim(s, i) == Some(j),
    ensures
        i <= j < s.len(),
        is_prim_end(s[j]),
    decreases s.len() - i,
{
    if 0 <= i < s.len() && !is_prim_end(s[i]) {
        lemma_scan_prim_bounds(s, i + 1, j);
    }
}

pub proof fn lemma_scan_value_bounds(s: Seq<char>, i: int, j: int)
    requires
        scan_value(s, i) == Some(j),
    ensures
        i < j <= s.len(),
{
    if 0 <= i < s.len() {
        if s[i] == '"' {
            lemma_scan_string_bounds(s, i + 1, j);
        } else if s[i] == '{' || s[i] == '[' {
            lemma_scan_nested_bounds(s, i + 1, 1, j);
        } else {
            lemma_scan_prim_bounds(s, i + 1, j);
        }
    }
}

/// A completed string scan does not change when more text arrives.
pub proof fn lemma_scan_string_ext(s: Seq<char>, t: Seq<char>, i: int)
    requires
        scan_string(s, i) is Some,
    ensures
        scan_string(s + t, i) == scan_string(s, i),
    decreases s.len() - i,
{
    if 0 <= i < s.len() {
        assert((s + t)[i] == s[i]);
        if s[i] == '"' {
        } else if s[i] == '\\' {
            if i + 1 < s.len() {
                lemma_scan_string_ext(s, t, i + 2);
            }
        } else {
            lemma_scan_string_ext(s, t, i + 1);
        }
    }
}

/// A completed nest scan does not change when more text arrives.
pub proof fn lemma_scan_nested_ext(s: Seq<char>, t: Seq<char>, i: int, depth: int)
    requires
        scan_nested(s, i, depth) is Some,
    ensures
        scan_nested(s + t, i, depth) == scan_nested(s, i, depth),
    decreases s.len() - i,
{
    if 0 <= i < s.len() && depth > 0 {
        assert((s + t)[i] == s[i]);
        if s[i] == '"' {
            match scan_string(s, i + 1) {
                Some(k) => {
                    lemma_scan_string_bounds(s, i + 1, k);
                    lemma_scan_string_ext(s, t, i + 1);
                    lemma_scan_nested_ext(s, t, k, depth);
                },
                None => {},
            }
        } else if s[i] == '{' || s[i] == '[' {
            lemma_scan_nested_ext(s, t, i + 1, depth + 1);
        } else if s[i] == '}' || s[i] == ']' {
            if depth != 1 {
                lemma_scan_nested_ext(s, t, i + 1, depth - 1);
            }
        } else {
            lemma_scan_nested_ext(s, t, i + 1, depth);
        }
    }
}

/// A completed primitive scan does not change when more text arrives.
pub proof fn lemma_scan_prim_ext(s: Seq<char>, t: Seq<char>, i: int)
    requires
        scan_prim(s, i) is Some,
    ensures
        scan_prim(s + t, i) == scan_prim(s, i),
    decreases s.len() - i,
{
    if 0 <= i < s.len() {
        assert((s + t)[i] == s[i]);
        if !is_prim_end(s[i]) {
            lemma_scan_prim_ext(s, t, i + 1);
        }
    }
}

/// A completed unit scan does not change when more text arrives: units are
/// self-delimiting, whatever follows them on the stream.
pub proof fn lemma_scan_value_ext(s: Seq<char>, t: Seq<char>, i: int)
    requires
        scan_value(s, i) is Some,
    ensures
        scan_value(s + t, i) == scan_value(s, i),
{
    if 0 <= i < s.len() {
        assert((s + t)[i] == s[i]);
        if s[i] == '"' {
            lemma_scan_string_ext(s, t, i + 1);
        } else if s[i] == '{' || s[i] == '[' {
            lemma_scan_nested_ext(s, t, i + 1, 1);
        } else {
            lemma_scan_prim_ext(s, t, i + 1);
        }
    }
}

/// A complete unit at the front of a stream is split off exactly, whatever
/// follows it.
pub proof fn lemma_units_of_prefix(u: Seq<char>, rest: Seq<char>)
    requires
        wf_unit(u),
    ensures
        units_of(u + rest) == seq![u] + units_of(rest),
{
    let s = u + rest;
    assert(s[0] == u[0]);
    assert(skip_ws(s, 0) == 0);
    lemma_scan_value_ext(u, rest, 0);
    assert(scan_value(s, 0) == Some(u.len() as int));
    assert(s.subrange(0, u.len() as int) =~= u);
    assert(s.subrange(u.len() as int, s.len() as int) =~= rest);
    assert(units_of(s) =~= seq![u] + units_of(rest));
}

/// Sending complete units back to back and reading them out again yields
/// exactly the units that were sent, in their original order: the framing
/// neither drops, duplicates, reorders nor merges messages.
pub proof fn lemma_units_of_concat(units: Seq<Seq<char>>)
    requires
        forall|k: int| 0 <= k < units.len() ==> wf_unit(#[trigger] units[k]),
    ensures
        units_of(concat_all(units)) == units,
    decreases units.len(),
{
    if units.len() == 0 {
        assert(units_of(concat_all(units)) =~= units);
    } else {
        let u = units[0];
        let rest = units.drop_first();
        lemma_units_of_concat(rest);
        lemma_units_of_prefix(u, concat_all(rest));
        assert(units_of(concat_all(units)) =~= units);
    }
}

/// Executable twin of [`scan_string`].
pub fn scan_string_at(s: &[char], i: usize) -> (r: Option<usize>)
    ensures
        match r {
            Some(j) => scan_string(s@, i as int) == Some(j as int),
            None => scan_string(s@, i as int) is None,
        },
    decreases s@.len() - i,
{
    if i >= s.len() {
        None
    } else if s[i] == '"' {
        Some(i + 1)
    } else if s[i] == '\\' {
        if i + 1 >= s.len() {
            None
        } else {
            scan_string_at(s, i + 2)
        }
    } else {
        scan_string_at(s, i + 1)
    }
}

/// Executable twin of [`scan_nested`].
pub fn scan_nested_at(s: &[char], i: usize, depth: usize) -> (r: Option<usize>)
    ensures
        match r {
            Some(j) => scan_nested(s@, i as int, depth as int) == Some(j as int),
            None => scan_nested(s@, i as int, depth as int) is None,
        },
    decreases s@.len() - i,
{
    if i >= s.len() || depth == 0 {
        None
    } else if s[i] == '"' {
        match scan_string_at(s, i + 1) {
            Some(j) => {
                proof {
                    lemma_scan_string_bounds(s@, i + 1 as int, j as int);
                }
                scan_nested_at(s, j, depth)
            },
            None => None,
        }
    } else if s[i] == '{' || s[i] == '[' {
        if depth == usize::MAX {
            // unreachable in practice: nesting as deep as the address space
            proof {
                lemma_scan_nested_overflow_unreachable(s@, i as int, depth as int);
            }
            None
        } else {
            scan_nested_at(s, i + 1, depth + 1)
        }
    } else if s[i] == '}' || s[i] == ']' {
        if depth == 1 {
            Some(i + 1)
        } else {
            scan_nested_at(s, i + 1, depth - 1)
        }
    } else {
        scan_nested_at(s, i + 1, depth)
    }
}

/// An opener met when the pending depth already exceeds the remaining text
/// can never see its nest completed.
proof fn lemma_scan_nested_overflow_unreachable(s: Seq<char>, i: int, depth: int)
    requires
        0 <= i < s.len(),
        s.len() <= usize::MAX,
        depth >= s.len() - i - 1,
        depth > 0,
        s[i] == '{' || s[i] == '[',
    ensures
        scan_nested(s, i, depth) is None,
{
    lemma_scan_nested_depth_too_deep(s, i + 1, depth + 1);
}

/// No nest scan completes when more closers are pending than characters
/// remain: each pending nest still needs at least one closing character.
proof fn lemma_scan_nested_depth_too_deep(s: Seq<char>, i: int, depth: int)
    requires
        depth > s.len() - i,
    ensures
        scan_nested(s, i, depth) is None,
    decreases s.len() - i,
{
    if 0 <= i < s.len() && depth > 0 {
        if s[i] == '"' {
            match scan_string(s, i + 1) {
                Some(k) => {
                    lemma_scan_string_bounds(s, i + 1, k);
                    lemma_scan_nested_depth_too_deep(s, k, depth);
                },
                None => {},
            }
        } else if s[i] == '{' || s[i] == '[' {
            lemma_scan_nested_depth_too_deep(s, i + 1, depth + 1);
        } else if s[i] == '}' || s[i] == ']' {
            if depth != 1 {
                lemma_scan_nested_depth_too_deep(s, i + 1, depth - 1);
            }
        } else {
            lemma_scan_nested_depth_too_deep(s, i + 1, depth);
        }
    }
}

/// Executable twin of [`scan_prim`].
pub fn scan_prim_at(s: &[char], i: usize) -> (r: Option<usize>)
    ensures
        match r {
            Some(j) => scan_prim(s@, i as int) == Some(j as int),
            None => scan_prim(s@, i as int) is None,
        },
    decreases s@.len() - i,
{
    if i >= s.len() {
        None
    } else if is_prim_end_x(s[i]) {
        Some(i)
    } else {
        scan_prim_at(s, i + 1)
    }
}

/// Executable twin of [`is_json_ws`].
pub fn is_json_ws_x(c: char) -> (r: bool)
    ensures
        r == is_json_ws(c),
{
    c == ' ' || c == '\t' || c == '\n' || c == '\r'
}

/// Executable twin of [`is_prim_end`].
pub fn is_prim_end_x(c: char) -> (r: bool)
    ensures
        r == is_prim_end(c),
{
    is_json_ws_x(c) || c == '{' || c == '[' || c == '"' || c == '}' || c == ']' || c == ','
}

/// Executable twin of [`scan_value`].
pub fn scan_value_at(s: &[char], i: usize) -> (r: Option<usize>)
    ensures
        match r {
            Some(j) => scan_value(s@, i as int) == Some(j as int),
            None => scan_value(s@, i as int) is None,
        },
{
    if i >= s.len() {
        None
    } else if s[i] == '"' {
        scan_string_at(s, i + 1)
    } else if s[i] == '{' || s[i] == '[' {
        scan_nested_at(s, i + 1, 1)
    } else {
        scan_prim_at(s, i + 1)
    }
}

/// Executable twin of [`skip_ws`].
pub fn skip_ws_at(s: &[char], i: usize) -> (r: usize)
    requires
        i <= s@.len(),
    ensures
        r == skip_ws(s@, i as int),
        i <= r <= s@.len(),
    decreases s@.len() - i,
{
    if i < s.len() && is_json_ws_x(s[i]) {
        skip_ws_at(s, i + 1)
    } else {
        i
    }
}

/// Characters that a nest scan steps over without changing depth: anything
/// that is not a quote, an opener or a closer.
pub open spec fn plain_char(c: char) -> bool {
    c != '"' && c != '\\' && c != '{' && c != '[' && c != '}' && c != ']'
}

/// A region of plain characters, inside a nest, is simply stepped over.
pub proof fn lemma_scan_nested_plain_run(t: Seq<char>, i: int, j: int, depth: int)
    requires
        0 <= i <= j <= t.len(),
        depth > 0,
        forall|k: int| i <= k < j ==> plain_char(#[trigger] t[k]),
    ensures
        scan_nested(t, i, depth) == scan_nested(t, j, depth),
    decreases j - i,
{
    if i < j {
        lemma_scan_nested_plain_run(t, i + 1, j, depth);
    }
}

/// A quoted string inside a nest is consumed whole: the nest scan resumes
/// right after its closing quote.
pub proof fn lemma_scan_nested_over_string(t: Seq<char>, i: int, k: int, depth: int)
    requires
        depth > 0,
        0 <= i < t.len(),
        t[i] == '"',
        scan_string(t, i + 1) == Some(k),
    ensures
        scan_nested(t, i, depth) == scan_nested(t, k, depth),
{
    lemma_scan_string_bounds(t, i + 1, k);
}

/// A quote-free, backslash-free region followed by a quote is one whole
/// string body: the scan ends just past the closing quote.
pub proof fn lemma_scan_string_lit(t: Seq<char>, i: int, j: int)
    requires
        0 <= i <= j < t.len(),
        forall|k: int| i <= k < j ==> t[k] != '"' && #[trigger] t[k] != '\\',
        t[j] == '"',
    ensures
        scan_string(t, i) == Some(j + 1),
    decreases j - i,
{
    if i < j {
        lemma_scan_string_lit(t, i + 1, j);
    }
}

/// A quoted string spelled at `[i, i + quote_str(s).len())` inside a nest is
/// stepped over whole.
pub proof fn lemma_scan_nested_over_quoted(t: Seq<char>, i: int, s: Seq<char>, depth: int)
    requires
        depth > 0,
        0 <= i,
        i + crate::json::quote_str(s).len() <= t.len(),
        t.subrange(i, i + crate::json::quote_str(s).len()) == crate::json::quote_str(s),
    ensures
        scan_nested(t, i, depth) == scan_nested(t, i + crate::json::quote_str(s).len(), depth),
{
    let q = crate::json::quote_str(s);
    let esc = crate::json::escape_str(s);
    let pre = t.subrange(0, i + 1);
    let post = t.subrange(i + q.len(), t.len() as int);
    assert(t[i] == q[0]);
    assert(q.len() == esc.len() + 2);
    assert forall|k: int| 0 <= k < t.len() implies t[k] == (pre + esc + seq!['"'] + post)[k] by {
        if i <= k < i + q.len() {
            assert(t[k] == t.subrange(i, i + q.len())[k - i]);
            assert(q[k - i] == (seq!['"'] + esc + seq!['"'])[k - i]);
        }
    }
    assert(t =~= pre + esc + seq!['"'] + post);
    crate::json::lemma_scan_escaped(pre, s, post);
    assert(scan_string(t, i + 1) == Some(i + q.len()));
    lemma_scan_nested_over_string(t, i, i + q.len(), depth);
}

/// The decimal digits of `n` spelled at `[i, ...)` inside a nest are stepped
/// over whole.
pub proof fn lemma_scan_nested_over_digits(t: Seq<char>, i: int, n: int, depth: int)
    requires
        depth > 0,
        n >= 0,
        0 <= i,
        i + crate::json::dec_digits(n).len() <= t.len(),
        t.subrange(i, i + crate::json::dec_digits(n).len()) == crate::json::dec_digits(n),
    ensures
        scan_nested(t, i, depth) == scan_nested(t, i + crate::json::dec_digits(n).len(), depth),
{
    let d = crate::json::dec_digits(n);
    crate::json::lemma_dec_digits_are_digits(n);
    assert forall|k: int| i <= k < i + d.len() implies plain_char(#[trigger] t[k]) by {
        assert(t[k] == d[k - i]);
        assert(crate::json::is_dec_digit(d[k - i]));
    }
    lemma_scan_nested_plain_run(t, i, i + d.len(), depth);
}

/// Splits knowledge of a two-piece region into knowledge of its pieces.
pub proof fn lemma_concat_extract(t: Seq<char>, i: int, a: Seq<char>, b: Seq<char>)
    requires
        0 <= i,
        i + a.len() + b.len() <= t.len(),
        t.subrange(i, i + a.len() + b.len()) == a + b,
    ensures
        t.subrange(i, i + a.len()) == a,
        t.subrange(i + a.len(), i + a.len() + b.len()) == b,
{
    assert forall|k: int| 0 <= k < a.len() implies t.subrange(i, i + a.len())[k] == a[k] by {
        assert(t.subrange(i, i + a.len() + b.len())[k] == (a + b)[k]);
    }
    assert(t.subrange(i, i + a.len()) =~= a);
    assert forall|k: int| 0 <= k < b.len() implies t.subrange(
        i + a.len(),
        i + a.len() + b.len(),
    )[k] == b[k] by {
        assert(t.subrange(i + a.len(), i + a.len() + b.len())[k] == t[i + a.len() + k]);
        assert(t.subrange(i, i + a.len() + b.len())[a.len() + k] == t[i + a.len() + k]);
        assert(t.subrange(i, i + a.len() + b.len())[a.len() + k] == (a + b)[a.len() + k]);
        assert((a + b)[a.len() + k] == b[k]);
    }
    assert(t.subrange(i + a.len(), i + a.len() + b.len()) =~= b);
}

/// A field-head literal — a comma, a quoted plain name, a colon — inside a
/// nest is stepped over whole.
pub proof fn lemma_scan_field_head(t: Seq<char>, i: int, lit: Seq<char>, depth: int)
    requires
        depth > 0,
        0 <= i,
        lit.len() >= 4,
        i + lit.len() <= t.len(),
        t.subrange(i, i + lit.len()) == lit,
        lit[0] == ',',
        lit[1] == '"',
        lit[lit.len() - 2] == '"',
        lit[lit.len() - 1] == ':',
        forall|k: int| 2 <= k < lit.len() - 2 ==> lit[k] != '"' && #[trigger] lit[k] != '\\',
    ensures
        scan_nested(t, i, depth) == scan_nested(t, i + lit.len(), depth),
{
    let l = lit.len() as int;
    assert forall|k: int| 0 <= k < l implies t[i + k] == lit[k] by {
        assert(t.subrange(i, i + l)[k] == lit[k]);
    }
    assert(plain_char(t[i]));
    lemma_scan_nested_plain_run(t, i, i + 1, depth);
    assert(t[i + 1] == '"');
    assert forall|k: int| i + 2 <= k < i + l - 2 implies t[k] != '"' && #[trigger] t[k]
        != '\\' by {
        assert(t[k] == lit[k - i]);
        assert(lit[k - i] != '"' && lit[k - i] != '\\');
    }
    lemma_scan_string_lit(t, i + 2, i + l - 2);
    lemma_scan_nested_over_string(t, i + 1, i + l - 1, depth);
    assert(plain_char(t[i + l - 1]));
    lemma_scan_nested_plain_run(t, i + l - 1, i + l, depth);
}

/// An object-head literal — an opening brace, a quoted plain name, a colon
/// — at the start of a unit: the unit scan proceeds past it at depth one.
pub proof fn lemma_scan_object_head(t: Seq<char>, lit: Seq<char>)
    requires
        lit.len() >= 4,
        lit.len() < t.len(),
        t.subrange(0, lit.len() as int) == lit,
        lit[0] == '{',
        lit[1] == '"',
        lit[lit.len() - 2] == '"',
        lit[lit.len() - 1] == ':',
        forall|k: int| 2 <= k < lit.len() - 2 ==> lit[k] != '"' && #[trigger] lit[k] != '\\',
    ensures
        scan_value(t, 0) == scan_nested(t, lit.len() as int, 1),
{
    let l = lit.len() as int;
    assert forall|k: int| 0 <= k < l implies t[k] == lit[k] by {
        assert(t.subrange(0, l)[k] == lit[k]);
    }
    assert(t[0] == '{');
    assert(scan_value(t, 0) == scan_nested(t, 1, 1));
    assert(t[1] == '"');
    assert forall|k: int| 2 <= k < l - 2 implies t[k] != '"' && #[trigger] t[k] != '\\' by {
        assert(t[k] == lit[k]);
        assert(lit[k] != '"' && lit[k] != '\\');
    }
    lemma_scan_string_lit(t, 2, l - 2);
    lemma_scan_nested_over_string(t, 1, l - 1, 1);
    assert(plain_char(t[l - 1]));
    lemma_scan_nested_plain_run(t, l - 1, l, 1);
}

} // verus!
