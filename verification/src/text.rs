//! Small verified string utilities: character-wise string comparison and
//! decimal rendering of numbers, used when building diagnostic messages.

use vstd::prelude::*;
use vstd::string::*;

verus! {

/// Whether two string slices hold the same characters.
pub fn str_eq(a: &str, b: &str) -> (r: bool)
    ensures
        r == (a@ == b@),
{
    let n = a.unicode_len();
    if n != b.unicode_len() {
        proof {
            assert(a@.len() != b@.len());
        }
        return false;
    }
    let mut k: usize = 0;
    while k < n
        invariant
            k <= n,
            n == a@.len(),
            n == b@.len(),
            forall|m: int| 0 <= m < k ==> a@[m] == b@[m],
        decreases n - k,
    {
        if a.get_char(k) != b.get_char(k) {
            return false;
        }
        k = k + 1;
    }
    proof {
        assert(a@ =~= b@);
    }
    true
}

/// The character for one decimal digit.
pub open spec fn dec_digit(d: int) -> char {
    if d == 0 { '0' }
    else if d == 1 { '1' }
    else if d == 2 { '2' }
    else if d == 3 { '3' }
    else if d == 4 { '4' }
    else if d == 5 { '5' }
    else if d == 6 { '6' }
    else if d == 7 { '7' }
    else if d == 8 { '8' }
    else { '9' }
}

/// The decimal rendering of a nonnegative number, without leading zeros
/// (except for the number zero itself).
pub open spec fn dec_str(n: int) -> Seq<char>
    decreases n when n >= 0
{
    if n < 10 {
        seq![dec_digit(n)]
    } else {
        dec_str(n / 10).push(dec_digit(n % 10))
    }
}

fn digit_str(d: usize) -> (r: &'static str)
    requires
        d < 10,
    ensures
        r@ == seq![dec_digit(d as int)],
{
    proof {
        reveal_strlit("0");
        reveal_strlit("1");
        reveal_strlit("2");
        reveal_strlit("3");
        reveal_strlit("4");
        reveal_strlit("5");
        reveal_strlit("6");
        reveal_strlit("7");
        reveal_strlit("8");
        reveal_strlit("9");
    }
    let r = if d == 0 { "0" }
    else if d == 1 { "1" }
    else if d == 2 { "2" }
    else if d == 3 { "3" }
    else if d == 4 { "4" }
    else if d == 5 { "5" }
    else if d == 6 { "6" }
    else if d == 7 { "7" }
    else if d == 8 { "8" }
    else { "9" };
    proof {
        assert(r@ =~= seq![dec_digit(d as int)]);
    }
    r
}

/// Renders a number in decimal.
pub fn usize_to_string(n: usize) -> (r: String)
    ensures
        r@ == dec_str(n as int),
    decreases n,
{
    if n < 10 {
        digit_str(n).to_owned()
    } else {
        let mut s = usize_to_string(n / 10);
        s.append(digit_str(n % 10));
        proof {
            assert(dec_str((n / 10) as int).push(dec_digit((n % 10) as int))
                =~= dec_str((n / 10) as int) + seq![dec_digit((n % 10) as int)]);
        }
        s
    }
}

/// The result of replacing every occurrence of `pat` in `s` by `rep`,
/// scanning left to right without overlap.
pub open spec fn replace_seq(s: Seq<char>, pat: Seq<char>, rep: Seq<char>) -> Seq<char>
    decreases s.len() when pat.len() >= 1
{
    if s.len() == 0 {
        Seq::empty()
    } else if s.len() >= pat.len() && s.take(pat.len() as int) == pat {
        rep + replace_seq(s.skip(pat.len() as int), pat, rep)
    } else {
        seq![s[0]] + replace_seq(s.drop_first(), pat, rep)
    }
}

/// Whether `pat` occurs in `s` starting at character `k`.
fn matches_at(s: &str, k: usize, pat: &str) -> (r: bool)
    requires
        k <= s@.len(),
    ensures
        r == (s@.len() - k >= pat@.len()
            && s@.skip(k as int).take(pat@.len() as int) == pat@),
{
    let n = pat.unicode_len();
    let total = s.unicode_len();
    if total - k < n {
        return false;
    }
    let mut m: usize = 0;
    while m < n
        invariant
            m <= n,
            n == pat@.len(),
            total == s@.len(),
            k <= s@.len(),
            s@.len() - k >= n,
            forall|q: int| 0 <= q < m ==> s@[k + q] == pat@[q],
        decreases n - m,
    {
        if s.get_char(k + m) != pat.get_char(m) {
            proof {
                assert(s@.skip(k as int).take(pat@.len() as int)[m as int] != pat@[m as int]);
            }
            return false;
        }
        m = m + 1;
    }
    proof {
        assert(s@.skip(k as int).take(pat@.len() as int) =~= pat@);
    }
    true
}

/// Replaces every occurrence of `pat` in `s` by `rep`, scanning left to
/// right without overlap.
pub fn replace_str(s: &str, pat: &str, rep: &str) -> (r: String)
    requires
        pat@.len() >= 1,
    ensures
        r@ == replace_seq(s@, pat@, rep@),
{
    let n = s.unicode_len();
    let mut out = String::new();
    let mut k: usize = 0;
    proof {
        assert(s@.skip(0) =~= s@);
        assert(out@ + replace_seq(s@, pat@, rep@) =~= replace_seq(s@, pat@, rep@));
    }
    while k < n
        invariant
            k <= n,
            n == s@.len(),
            pat@.len() >= 1,
            replace_seq(s@, pat@, rep@) == out@ + replace_seq(s@.skip(k as int), pat@, rep@),
        decreases n - k,
    {
        let ghost pre = out@;
        if matches_at(s, k, pat) {
            out.append(rep);
            proof {
                assert(s@.skip(k as int).skip(pat@.len() as int)
                    =~= s@.skip(k as int + pat@.len() as int));
                assert(pre + (rep@ + replace_seq(s@.skip(k as int + pat@.len() as int), pat@, rep@))
                    =~= out@ + replace_seq(s@.skip(k as int + pat@.len() as int), pat@, rep@));
            }
            k = k + pat.unicode_len();
        } else {
            let piece = s.substring_char(k, k + 1);
            out.append(piece);
            proof {
                assert(s@.skip(k as int)[0] == s@[k as int]);
                assert(piece@ =~= seq![s@.skip(k as int)[0]]);
                assert(s@.skip(k as int).drop_first() =~= s@.skip(k as int + 1));
                assert(pre + (seq![s@.skip(k as int)[0]] + replace_seq(s@.skip(k as int + 1), pat@, rep@))
                    =~= out@ + replace_seq(s@.skip(k as int + 1), pat@, rep@));
            }
            k = k + 1;
        }
    }
    proof {
        assert(s@.skip(n as int) =~= Seq::<char>::empty());
        assert(out@ + replace_seq(s@.skip(n as int), pat@, rep@) =~= out@);
    }
    out
}

} // verus!
