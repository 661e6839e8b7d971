use vstd::prelude::*;

use crate::timer::{digit_value, is_digit};

verus! {

/// Whether `c` is white space in the Unicode sense (`char::is_whitespace`).
pub open spec fn is_whitespace(c: char) -> bool {
    ('\t' <= c && c <= '\r') || c == ' ' || c == '\u{85}' || c == '\u{a0}' || c == '\u{1680}' || (
    '\u{2000}' <= c && c <= '\u{200a}') || c == '\u{2028}' || c == '\u{2029}' || c == '\u{202f}'
        || c == '\u{205f}' || c == '\u{3000}'
}

/// The words of `s` from index `i` on, where `word` holds the characters of the word begun so far.
pub open spec fn words_from(s: Seq<char>, i: int, word: Seq<char>) -> Seq<Seq<char>>
    decreases s.len() - i,
{
    if i >= s.len() {
        if word.len() > 0 {
            seq![word]
        } else {
            seq![]
        }
    } else if is_whitespace(s[i]) {
        (if word.len() > 0 {
            seq![word]
        } else {
            seq![]
        }) + words_from(s, i + 1, seq![])
    } else {
        words_from(s, i + 1, word.push(s[i]))
    }
}

/// The non-empty runs of non-space characters of `s`, in order.
pub open spec fn words(s: Seq<char>) -> Seq<Seq<char>> {
    words_from(s, 0, seq![])
}

/// The value of a run of decimal digits.
pub open spec fn digits_value(s: Seq<char>) -> nat
    decreases s.len(),
{
    if s.len() == 0 {
        0
    } else {
        digits_value(s.drop_last()) * 10 + digit_value(s.last())
    }
}

/// `s` without a leading `+`.
pub open spec fn unsigned_part(s: Seq<char>) -> Seq<char> {
    if s.len() > 0 && s[0] == '+' {
        s.drop_first()
    } else {
        s
    }
}

pub open spec fn all_digits(d: Seq<char>) -> bool {
    forall|k: int| 0 <= k < d.len() ==> is_digit(#[trigger] d[k])
}

/// The value of `s` read as a `usize` (an optional `+`, then one or more decimal digits), if it
/// is one and fits.
pub open spec fn parse_usize(s: Seq<char>) -> Option<nat> {
    let d = unsigned_part(s);
    if d.len() > 0 && all_digits(d) && digits_value(d) <= usize::MAX {
        Some(digits_value(d))
    } else {
        None
    }
}

/// `s` with each occurrence of `pat`, leftmost first and without overlap, replaced by `rep`.
pub open spec fn replace_all(s: Seq<char>, pat: Seq<char>, rep: Seq<char>) -> Seq<char>
    decreases s.len(),
{
    if s.len() == 0 {
        seq![]
    } else if 0 < pat.len() <= s.len() && s.take(pat.len() as int) == pat {
        rep + replace_all(s.skip(pat.len() as int), pat, rep)
    } else {
        seq![s[0]] + replace_all(s.skip(1), pat, rep)
    }
}

/// The characters of `s`.
pub fn chars_of(s: &str) -> (r: Vec<char>)
    ensures
        r@ == s@,
{
    let n = s.unicode_len();
    let mut r: Vec<char> = Vec::new();
    let mut i: usize = 0;
    while i < n
        invariant
            n == s@.len(),
            i <= n,
            r@ == s@.take(i as int),
        decreases n - i,
    {
        r.push(s.get_char(i));
        i = i + 1;
        assert(r@ =~= s@.take(i as int));
    }
    assert(s@.take(n as int) =~= s@);
    r
}

/// Relies on `String::push`: it appends one character.
#[verifier::external_body]
fn push_char(s: &mut String, c: char)
    ensures
        final(s)@ == old(s)@.push(c),
{
    s.push(c)
}

/// The string of the characters `v`.
pub fn string_of(v: &Vec<char>) -> (r: String)
    ensures
        r@ == v@,
{
    let mut r = String::new();
    let mut i: usize = 0;
    while i < v.len()
        invariant
            i <= v@.len(),
            r@ == v@.take(i as int),
        decreases v@.len() - i,
    {
        push_char(&mut r, v[i]);
        i = i + 1;
        assert(r@ =~= v@.take(i as int));
    }
    assert(v@.take(v@.len() as int) =~= v@);
    r
}

/// The words of `s` (see `words`).
pub fn split_whitespace(s: &Vec<char>) -> (r: Vec<Vec<char>>)
    ensures
        r@.map_values(|w: Vec<char>| w@) == words(s@),
{
    let mut out: Vec<Vec<char>> = Vec::new();
    let mut word: Vec<char> = Vec::new();
    let mut i: usize = 0;
    while i < s.len()
        invariant
            i <= s@.len(),
            words(s@) == out@.map_values(|w: Vec<char>| w@) + words_from(s@, i as int, word@),
        decreases s@.len() - i,
    {
        let c = s[i];
        if ('\t' <= c && c <= '\r') || c == ' ' || c == '\u{85}' || c == '\u{a0}' || c
            == '\u{1680}' || ('\u{2000}' <= c && c <= '\u{200a}') || c == '\u{2028}' || c
            == '\u{2029}' || c == '\u{202f}' || c == '\u{205f}' || c == '\u{3000}' {
            if word.len() > 0 {
                let ghost before = out@.map_values(|w: Vec<char>| w@);
                let ghost wv = word@;
                out.push(word);
                word = Vec::new();
                assert(out@.map_values(|w: Vec<char>| w@) =~= before + seq![wv]);
            } else {
                assert(out@.map_values(|w: Vec<char>| w@) + Seq::<Seq<char>>::empty()
                    =~= out@.map_values(|w: Vec<char>| w@));
            }
            assert(word@ =~= Seq::<char>::empty());
        } else {
            word.push(c);
        }
        i = i + 1;
    }
    if word.len() > 0 {
        let ghost before = out@.map_values(|w: Vec<char>| w@);
        let ghost wv = word@;
        out.push(word);
        assert(out@.map_values(|w: Vec<char>| w@) =~= before + seq![wv]);
    } else {
        assert(out@.map_values(|w: Vec<char>| w@) + Seq::<Seq<char>>::empty() =~= out@.map_values(
            |w: Vec<char>| w@,
        ));
    }
    out
}

proof fn lemma_digits_value_grows(s: Seq<char>, c: char)
    ensures
        digits_value(s.push(c)) >= digits_value(s),
        digits_value(s.push(c)) == digits_value(s) * 10 + digit_value(c),
{
    assert(s.push(c).drop_last() =~= s);
}

/// Reads `s` as a `usize` (see `parse_usize`).
pub fn parse_usize_chars(s: &Vec<char>) -> (r: Option<usize>)
    ensures
        r is Some <==> parse_usize(s@) is Some,
        r is Some ==> r->0 == parse_usize(s@)->0,
{
    let start: usize = if s.len() > 0 && s[0] == '+' {
        1
    } else {
        0
    };
    let ghost d = unsigned_part(s@);
    assert(d =~= s@.skip(start as int));
    if start >= s.len() {
        return None;
    }
    let mut value: usize = 0;
    let mut too_big = false;
    let mut i: usize = start;
    while i < s.len()
        invariant
            start <= i <= s@.len(),
            d == s@.skip(start as int),
            d == unsigned_part(s@),
            forall|k: int| start <= k < i ==> is_digit(#[trigger] s@[k]),
            too_big ==> digits_value(s@.subrange(start as int, i as int)) > usize::MAX,
            !too_big ==> value == digits_value(s@.subrange(start as int, i as int)),
        decreases s@.len() - i,
    {
        let c = s[i];
        if !('0' <= c && c <= '9') {
            assert(d[i - start] == c);
            assert(!is_digit(d[i - start]));
            return None;
        }
        let digit = (c as u32 - '0' as u32) as usize;
        proof {
            assert(s@.subrange(start as int, i + 1) =~= s@.subrange(start as int, i as int).push(c));
            lemma_digits_value_grows(s@.subrange(start as int, i as int), c);
        }
        if too_big || value > (usize::MAX - digit) / 10 {
            too_big = true;
        } else {
            value = value * 10 + digit;
        }
        i = i + 1;
    }
    assert(s@.subrange(start as int, s@.len() as int) =~= d);
    assert(all_digits(d)) by {
        assert forall|k: int| 0 <= k < d.len() implies is_digit(#[trigger] d[k]) by {
            assert(d[k] == s@[k + start]);
        }
    }
    if too_big {
        None
    } else {
        Some(value)
    }
}

/// Whether `pat` occurs in `s` at index `k`.
fn occurs_at(s: &Vec<char>, k: usize, pat: &Vec<char>) -> (r: bool)
    requires
        k <= s@.len(),
    ensures
        r == (pat@.len() <= s@.len() - k && s@.skip(k as int).take(pat@.len() as int) == pat@),
{
    let n = s.len();
    if pat.len() > n - k {
        return false;
    }
    let mut j: usize = 0;
    while j < pat.len()
        invariant
            n == s@.len(),
            k <= s@.len(),
            pat@.len() <= s@.len() - k,
            j <= pat@.len(),
            forall|m: int| 0 <= m < j ==> s@[k + m] == pat@[m],
        decreases pat@.len() - j,
    {
        if s[k + j] != pat[j] {
            assert(s@.skip(k as int).take(pat@.len() as int)[j as int] != pat@[j as int]);
            return false;
        }
        j = j + 1;
    }
    assert(s@.skip(k as int).take(pat@.len() as int) =~= pat@);
    true
}

/// `s` with each occurrence of `pat` replaced by `rep` (see `replace_all`).
pub fn replace_chars(s: &Vec<char>, pat: &Vec<char>, rep: &Vec<char>) -> (r: Vec<char>)
    requires
        pat@.len() > 0,
    ensures
        r@ == replace_all(s@, pat@, rep@),
{
    let mut out: Vec<char> = Vec::new();
    let mut k: usize = 0;
    assert(s@.skip(0) =~= s@);
    assert(out@ + replace_all(s@, pat@, rep@) =~= replace_all(s@, pat@, rep@));
    while k < s.len()
        invariant
            pat@.len() > 0,
            k <= s@.len(),
            replace_all(s@, pat@, rep@) == out@ + replace_all(s@.skip(k as int), pat@, rep@),
        decreases s@.len() - k,
    {
        let rest = Ghost(s@.skip(k as int));
        if occurs_at(s, k, pat) {
            let mut m: usize = 0;
            let ghost base = out@;
            while m < rep.len()
                invariant
                    m <= rep@.len(),
                    out@ == base + rep@.take(m as int),
                decreases rep@.len() - m,
            {
                out.push(rep[m]);
                m = m + 1;
                assert(out@ =~= base + rep@.take(m as int));
            }
            assert(rep@.take(rep@.len() as int) =~= rep@);
            assert(rest@.skip(pat@.len() as int) =~= s@.skip(k + pat@.len()));
            assert(out@ + replace_all(s@.skip(k + pat@.len()), pat@, rep@) =~= base + (rep@
                + replace_all(rest@.skip(pat@.len() as int), pat@, rep@)));
            k = k + pat.len();
        } else {
            let ghost base = out@;
            out.push(s[k]);
            assert(rest@.skip(1) =~= s@.skip(k + 1));
            assert(rest@[0] == s@[k as int]);
            assert(out@ + replace_all(s@.skip(k + 1), pat@, rep@) =~= base + (seq![rest@[0]]
                + replace_all(rest@.skip(1), pat@, rep@)));
            k = k + 1;
        }
    }
    assert(s@.skip(s@.len() as int) =~= Seq::<char>::empty());
    assert(out@ + Seq::<char>::empty() =~= out@);
    out
}

} // verus!
