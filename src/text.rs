//! Text operations used to form ids, URLs and manifest lines.

use vstd::prelude::*;

verus! {

/// The decimal digit for `d < 10`.
pub open spec fn digit(d: nat) -> char {
    if d == 0 { '0' }
    else if d == 1 { '1' }
    else if d == 2 { '2' }
    else if d == 3 { '3' }
    else if d == 4 { '4' }
    else if d == 5 { '5' }
    else if d == 6 { '6' }
    else if d == 7 { '7' }
    else if d == 8 { '8' }
    else { '9' }
}

/// The decimal form of `n`, without leading zeros.
pub open spec fn decimal(n: nat) -> Seq<char>
    decreases n,
{
    if n < 10 {
        seq![digit(n)]
    } else {
        decimal(n / 10) + seq![digit(n % 10)]
    }
}

/// The decimal form of the leading digits of a number: empty when there are none.
spec fn leading(m: nat) -> Seq<char> {
    if m == 0 { Seq::empty() } else { decimal(m) }
}

fn digit_text(d: u64) -> (r: &'static str)
    requires
        d < 10,
    ensures
        r@ == seq![digit(d as nat)],
{
    proof {
        reveal_strlit("0");
        reveal_strlit("1");
        reveal_strlit("2");
        reveal_strlit("3");
        reveal_strlit("4");
        reveal_strlit("5");
        reveal_strlit("6");
        reveal_strlit("7");
        reveal_strlit("8");
        reveal_strlit("9");
    }
    let r = if d == 0 { "0" }
    else if d == 1 { "1" }
    else if d == 2 { "2" }
    else if d == 3 { "3" }
    else if d == 4 { "4" }
    else if d == 5 { "5" }
    else if d == 6 { "6" }
    else if d == 7 { "7" }
    else if d == 8 { "8" }
    else { "9" };
    assert(r@ =~= seq![digit(d as nat)]);
    r
}

/// Renders `n` in decimal.
pub fn decimal_text(n: u64) -> (r: String)
    ensures
        r@ == decimal(n as nat),
{
    let mut m: u64 = n / 10;
    let mut s = String::from_str(digit_text(n % 10));
    while m > 0
        invariant
            decimal(n as nat) == leading(m as nat) + s@,
        decreases m,
    {
        let d = digit_text(m % 10);
        let t = String::from_str(d).concat(s.as_str());
        proof {
            assert(leading(m as nat) == leading((m / 10) as nat) + seq![digit((m % 10) as nat)]);
            assert(leading(m as nat) + s@ =~= leading((m / 10) as nat) + t@);
        }
        s = t;
        m = m / 10;
    }
    assert(leading(0) + s@ =~= s@);
    s
}

/// `s` with each occurrence of `pat` replaced by `rep`, matches taken from the
/// left and never overlapping.
pub open spec fn replaced(s: Seq<char>, pat: Seq<char>, rep: Seq<char>) -> Seq<char>
    decreases s.len(),
{
    if s.len() == 0 || pat.len() == 0 {
        s
    } else if pat.len() <= s.len() && s.subrange(0, pat.len() as int) == pat {
        rep + replaced(s.skip(pat.len() as int), pat, rep)
    } else {
        seq![s[0]] + replaced(s.skip(1), pat, rep)
    }
}

/// Whether `s` begins with `p`.
pub open spec fn has_prefix(s: Seq<char>, p: Seq<char>) -> bool {
    p.len() <= s.len() && s.subrange(0, p.len() as int) == p
}

/// Replaces each occurrence of `pat` in `s` by `rep`.
pub fn replace_all(s: &str, pat: &str, rep: &str) -> (r: String)
    requires
        pat@.len() > 0,
    ensures
        r@ == replaced(s@, pat@, rep@),
{
    let n = s.unicode_len();
    let pl = pat.unicode_len();
    let pattern = String::from_str(pat);
    let mut out = String::new();
    let mut i: usize = 0;
    assert(s@.skip(0) =~= s@);
    while i < n
        invariant
            i <= n,
            n == s@.len(),
            pl == pat@.len(),
            pl > 0,
            pattern@ == pat@,
            replaced(s@, pat@, rep@) == out@ + replaced(s@.skip(i as int), pat@, rep@),
        decreases n - i,
    {
        let ghost rest = s@.skip(i as int);
        if n - i >= pl && String::from_str(s.substring_char(i, i + pl)) == pattern {
            proof {
                assert(rest.subrange(0, pl as int) =~= s@.subrange(i as int, i + pl));
                assert(rest.skip(pl as int) =~= s@.skip(i + pl));
                assert(out@ + replaced(rest, pat@, rep@) =~= (out@ + rep@) + replaced(
                    s@.skip(i + pl),
                    pat@,
                    rep@,
                ));
            }
            out.append(rep);
            i = i + pl;
        } else {
            let c = s.substring_char(i, i + 1);
            proof {
                if pl <= rest.len() {
                    assert(rest.subrange(0, pl as int) =~= s@.subrange(i as int, i + pl));
                }
                assert(rest.skip(1) =~= s@.skip(i + 1));
                assert(c@ =~= seq![rest[0]]);
                assert(out@ + replaced(rest, pat@, rep@) =~= (out@ + c@) + replaced(
                    s@.skip(i + 1),
                    pat@,
                    rep@,
                ));
            }
            out.append(c);
            i = i + 1;
        }
    }
    assert(out@ + replaced(s@.skip(n as int), pat@, rep@) =~= out@);
    out
}

/// Tells whether `s` begins with `p`.
pub fn starts_with(s: &str, p: &str) -> (r: bool)
    ensures
        r == has_prefix(s@, p@),
{
    let n = s.unicode_len();
    let pl = p.unicode_len();
    if pl > n {
        return false;
    }
    String::from_str(s.substring_char(0, pl)) == String::from_str(p)
}

/// The lower-case form that std gives a text.
pub uninterp spec fn lower_of(s: Seq<char>) -> Seq<char>;

/// Relies on str::to_lowercase: the result depends on the characters alone.
#[verifier::external_body]
pub fn lowercase(s: &str) -> (r: String)
    ensures
        r@ == lower_of(s@),
{
    s.to_lowercase()
}

} // verus!
