//! Character-sequence helpers: moving between `String`/`&str` and the
//! `Vec<char>` form the codecs work on, and comparisons against literals.

use vstd::prelude::*;

verus! {

/// Appends every character of `s` to `out`.
pub fn push_chars(out: &mut Vec<char>, s: &str)
    ensures
        final(out)@ == old(out)@ + s@,
{
    let n: usize = s.unicode_len();
    let mut i: usize = 0;
    while i < n
        invariant
            n == s@.len(),
            i <= n,
            out@ == old(out)@ + s@.subrange(0, i as int),
        decreases n - i,
    {
        let c = s.get_char(i);
        out.push(c);
        proof {
            assert(out@ =~= old(out)@ + s@.subrange(0, i + 1));
        }
        i = i + 1;
    }
    proof {
        assert(old(out)@ + s@.subrange(0, s@.len() as int) =~= old(out)@ + s@);
    }
}

/// The characters of `s`, as a vector.
pub fn str_to_chars(s: &str) -> (r: Vec<char>)
    ensures
        r@ == s@,
{
    let mut out: Vec<char> = Vec::new();
    push_chars(&mut out, s);
    proof {
        assert(Seq::<char>::empty() + s@ =~= s@);
    }
    out
}

/// Relies on `String::from_iter` over characters: the resulting string
/// holds exactly the given characters, in order.
#[verifier::external_body]
pub fn chars_to_string(v: &Vec<char>) -> (r: String)
    ensures
        r@ == v@,
{
    v.iter().collect()
}

/// Whether the characters `u[i..]` start with the text of `s`.
pub fn starts_with_str(u: &[char], i: usize, s: &str) -> (r: bool)
    requires
        i <= u@.len(),
    ensures
        r == (i + s@.len() <= u@.len() && u@.subrange(i as int, i + s@.len()) == s@),
{
    let n: usize = s.unicode_len();
    let ulen: usize = u.len();
    if n > ulen - i {
        return false;
    }
    let mut k: usize = 0;
    while k < n
        invariant
            n == s@.len(),
            ulen == u@.len(),
            i + n <= ulen,
            k <= n,
            forall|m: int| 0 <= m < k ==> u@[i + m] == s@[m],
        decreases n - k,
    {
        let idx: usize = i + k;
        if u[idx] != s.get_char(k) {
            proof {
                assert(u@.subrange(i as int, i + s@.len())[k as int] != s@[k as int]);
            }
            return false;
        }
        k = k + 1;
    }
    proof {
        assert(u@.subrange(i as int, i + s@.len()) =~= s@);
    }
    true
}

/// Whether the characters of `v` are exactly the text of `s`.
pub fn chars_eq_str(v: &Vec<char>, s: &str) -> (r: bool)
    ensures
        r == (v@ == s@),
{
    let n: usize = s.unicode_len();
    if v.len() != n {
        proof {
            assert(v@ != s@);
        }
        return false;
    }
    let mut k: usize = 0;
    while k < n
        invariant
            n == s@.len(),
            v@.len() == n,
            k <= n,
            forall|m: int| 0 <= m < k ==> v@[m] == s@[m],
        decreases n - k,
    {
        if v[k] != s.get_char(k) {
            return false;
        }
        k = k + 1;
    }
    proof {
        assert(v@ =~= s@);
    }
    true
}

/// The characters `u[a..b]`, as a fresh vector.
pub fn copy_range(u: &[char], a: usize, b: usize) -> (r: Vec<char>)
    requires
        a <= b <= u@.len(),
    ensures
        r@ == u@.subrange(a as int, b as int),
{
    let mut out: Vec<char> = Vec::new();
    let mut k: usize = a;
    proof {
        assert(out@ =~= u@.subrange(a as int, a as int));
    }
    while k < b
        invariant
            a <= k <= b <= u@.len(),
            out@ == u@.subrange(a as int, k as int),
        decreases b - k,
    {
        out.push(u[k]);
        proof {
            assert(out@ =~= u@.subrange(a as int, k + 1));
        }
        k = k + 1;
    }
    out
}

} // verus!
