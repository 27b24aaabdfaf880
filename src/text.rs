use vstd::prelude::*;
use vstd::string::*;

verus! {

/// The character of digit `d`, for `d < 16`, in lower case.
pub open spec fn digit_char(d: nat) -> char {
    "0123456789abcdef"@[d as int]
}

/// A natural number in decimal, without leading zeros.
pub open spec fn decimal_text(n: nat) -> Seq<char>
    decreases n,
{
    if n < 10 {
        seq![digit_char(n)]
    } else {
        decimal_text(n / 10).push(digit_char(n % 10))
    }
}

/// A natural number in lower-case hexadecimal, without leading zeros.
pub open spec fn hex_text(n: nat) -> Seq<char>
    decreases n,
{
    if n < 16 {
        seq![digit_char(n)]
    } else {
        hex_text(n / 16).push(digit_char(n % 16))
    }
}

/// `s` begins with the non-empty pattern `p`.
pub open spec fn begins_with(s: Seq<char>, p: Seq<char>) -> bool {
    0 < p.len() <= s.len() && s.subrange(0, p.len() as int) == p
}

/// The first pair, from index `k` on, whose pattern `s` begins with, or `pairs.len()`
/// where there is none.
pub open spec fn first_pattern_from(
    s: Seq<char>,
    pairs: Seq<(Seq<char>, Seq<char>)>,
    k: int,
) -> int
    decreases pairs.len() - k,
{
    if k >= pairs.len() {
        pairs.len() as int
    } else if begins_with(s, pairs[k].0) {
        k
    } else {
        first_pattern_from(s, pairs, k + 1)
    }
}

/// `s` with each occurrence of a pattern replaced by its value, in one scan from the
/// left: where a pattern begins, the first such pair's value is emitted and the scan
/// resumes after the pattern, so no text that a value brings in is scanned again.
/// Empty patterns match nothing.
pub open spec fn substitute(s: Seq<char>, pairs: Seq<(Seq<char>, Seq<char>)>) -> Seq<char>
    decreases s.len(),
{
    if s.len() == 0 {
        s
    } else {
        let k = first_pattern_from(s, pairs, 0);
        if 0 <= k < pairs.len() && begins_with(s, pairs[k].0) {
            pairs[k].1 + substitute(s.subrange(pairs[k].0.len() as int, s.len() as int), pairs)
        } else {
            seq![s[0]] + substitute(s.subrange(1, s.len() as int), pairs)
        }
    }
}

/// The texts of pairs of pattern and value.
pub open spec fn pattern_pairs(pairs: Seq<(&str, &str)>) -> Seq<(Seq<char>, Seq<char>)> {
    pairs.map_values(|p: (&str, &str)| (p.0@, p.1@))
}

fn push_digit(out: &mut String, d: u32)
    requires
        d < 16,
    ensures
        final(out)@ == old(out)@.push(digit_char(d as nat)),
{
    let digits = "0123456789abcdef";
    proof {
        reveal_strlit("0123456789abcdef");
    }
    let c = digits.substring_char(d as usize, d as usize + 1);
    assert(c@ =~= seq![digit_char(d as nat)]);
    out.append(c);
}

/// Appends `n` in decimal.
pub fn push_decimal(out: &mut String, n: u32)
    ensures
        final(out)@ == old(out)@ + decimal_text(n as nat),
    decreases n,
{
    if n >= 10 {
        push_decimal(out, n / 10);
    }
    push_digit(out, n % 10);
    assert(final(out)@ =~= old(out)@ + decimal_text(n as nat));
}

/// Appends `n` in lower-case hexadecimal.
pub fn push_hex(out: &mut String, n: u32)
    ensures
        final(out)@ == old(out)@ + hex_text(n as nat),
    decreases n,
{
    if n >= 16 {
        push_hex(out, n / 16);
    }
    push_digit(out, n % 16);
    assert(final(out)@ =~= old(out)@ + hex_text(n as nat));
}

/// `n` in decimal.
pub fn decimal_string(n: u32) -> (r: String)
    ensures
        r@ == decimal_text(n as nat),
{
    let mut out = String::new();
    push_decimal(&mut out, n);
    assert(out@ =~= decimal_text(n as nat));
    out
}

/// Whether `pat` occurs in `s` at character position `i`.
fn occurs_at(s: &str, i: usize, pat: &str) -> (r: bool)
    requires
        i <= s@.len(),
    ensures
        r == (pat@.len() <= s@.len() - i && s@.subrange(i as int, i + pat@.len()) == pat@),
{
    let n = s.unicode_len();
    let m = pat.unicode_len();
    if m > n - i {
        false
    } else {
        s.substring_char(i, i + m).to_owned() == pat.to_owned()
    }
}

proof fn lemma_first_pattern_from_is_first(
    s: Seq<char>,
    pairs: Seq<(Seq<char>, Seq<char>)>,
    k: int,
)
    requires
        0 <= k,
    ensures
        k <= first_pattern_from(s, pairs, k) <= pairs.len() || (k > pairs.len()
            && first_pattern_from(s, pairs, k) == pairs.len()),
        first_pattern_from(s, pairs, k) < pairs.len() ==> begins_with(
            s,
            pairs[first_pattern_from(s, pairs, k)].0,
        ),
    decreases pairs.len() - k,
{
    if k < pairs.len() && !begins_with(s, pairs[k].0) {
        lemma_first_pattern_from_is_first(s, pairs, k + 1);
    }
}

/// The first pair whose non-empty pattern occurs in `s` at position `i`, or
/// `pairs.len()` where there is none.
fn first_pattern_at(s: &str, i: usize, pairs: &Vec<(&str, &str)>) -> (r: usize)
    requires
        i <= s@.len(),
    ensures
        r as int == first_pattern_from(
            s@.subrange(i as int, s@.len() as int),
            pattern_pairs(pairs@),
            0,
        ),
{
    let ghost rest = s@.subrange(i as int, s@.len() as int);
    let ghost pv = pattern_pairs(pairs@);
    let mut k: usize = 0;
    while k < pairs.len()
        invariant
            i <= s@.len(),
            k <= pairs@.len(),
            rest == s@.subrange(i as int, s@.len() as int),
            pv == pattern_pairs(pairs@),
            first_pattern_from(rest, pv, 0) == first_pattern_from(rest, pv, k as int),
        decreases pairs@.len() - k,
    {
        let pat = pairs[k].0;
        assert(pv[k as int] == (pairs@[k as int].0@, pairs@[k as int].1@));
        proof {
            if pat@.len() <= rest.len() {
                assert(rest.subrange(0, pat@.len() as int) =~= s@.subrange(
                    i as int,
                    i + pat@.len(),
                ));
            }
        }
        if pat.unicode_len() > 0 && occurs_at(s, i, pat) {
            return k;
        }
        k = k + 1;
    }
    k
}

/// `s` with each occurrence of a pattern replaced by its value, in one scan from the
/// left (see `substitute`).
pub fn substitute_all(s: &str, pairs: &Vec<(&str, &str)>) -> (r: String)
    ensures
        r@ == substitute(s@, pattern_pairs(pairs@)),
{
    let ghost pv = pattern_pairs(pairs@);
    let n = s.unicode_len();
    let mut out = String::new();
    let mut start: usize = 0;
    let mut i: usize = 0;
    assert(s@.subrange(0, n as int) =~= s@);
    assert(out@ + s@.subrange(0, 0) =~= Seq::<char>::empty());
    while i < n
        invariant
            start <= i <= n,
            n == s@.len(),
            pv == pattern_pairs(pairs@),
            out@ + s@.subrange(start as int, i as int) + substitute(
                s@.subrange(i as int, n as int),
                pv,
            ) == substitute(s@, pv),
        decreases n - i,
    {
        let ghost rest = s@.subrange(i as int, n as int);
        let ghost before = out@;
        let ghost old_start = start;
        let ghost old_i = i;
        let k = first_pattern_at(s, i, pairs);
        proof {
            lemma_first_pattern_from_is_first(rest, pv, 0);
        }
        if k < pairs.len() {
            let (pat, value) = pairs[k];
            assert(pv[k as int] == (pat@, value@));
            let m = pat.unicode_len();
            assert(rest.subrange(m as int, rest.len() as int) =~= s@.subrange(
                i + m,
                n as int,
            ));
            out.append(s.substring_char(start, i));
            out.append(value);
            i = i + m;
            start = i;
            assert(out@ + s@.subrange(start as int, i as int) + substitute(
                s@.subrange(i as int, n as int),
                pv,
            ) =~= before + s@.subrange(old_start as int, old_i as int) + substitute(rest, pv));
        } else {
            assert(rest.subrange(1, rest.len() as int) =~= s@.subrange(i + 1, n as int));
            i = i + 1;
            assert(out@ + s@.subrange(start as int, i as int) + substitute(
                s@.subrange(i as int, n as int),
                pv,
            ) =~= before + s@.subrange(old_start as int, old_i as int) + substitute(rest, pv));
        }
    }
    out.append(s.substring_char(start, n));
    assert(s@.subrange(n as int, n as int) =~= Seq::<char>::empty());
    out
}

} // verus!
