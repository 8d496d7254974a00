//! Character-sequence utilities: conversion between strings and
//! character vectors, substring search, replacement and decimal numbers.

use vstd::prelude::*;

verus! {

/// Appends one character to a string (std `String::push`).
#[verifier::external_body]
fn push_char(s: &mut String, c: char)
    ensures
        final(s)@ == old(s)@.push(c),
{
    s.push(c);
}

/// The characters of a string, in order.
pub fn chars_of(s: &str) -> (v: Vec<char>)
    ensures
        v@ == s@,
{
    let mut v: Vec<char> = Vec::new();
    for c in it: s.chars()
        invariant
            v@ == it.seq().take(it.index() as int),
            it.seq() == s@,
    {
        v.push(c);
    }
    v
}

/// The string made of the given characters.
pub fn string_of(v: &Vec<char>) -> (s: String)
    ensures
        s@ == v@,
{
    let mut s = String::new();
    for i in 0..v.len()
        invariant
            s@ == v@.take(i as int),
    {
        push_char(&mut s, v[i]);
        assert(v@.take(i as int).push(v@[i as int]) =~= v@.take(i + 1));
    }
    assert(v@.take(v.len() as int) =~= v@);
    s
}


/// `pat` occurs in `s` starting at position `i`.
pub open spec fn occurs_at(s: Seq<char>, pat: Seq<char>, i: int) -> bool {
    0 <= i && i + pat.len() <= s.len() && s.subrange(i, i + pat.len()) == pat
}

/// `pat` occurs somewhere in `s` (the empty pattern occurs in every string).
pub open spec fn occurs_in(s: Seq<char>, pat: Seq<char>) -> bool {
    exists|i: int| occurs_at(s, pat, i)
}

/// `s` with every occurrence of `pat` replaced by `rep`, occurrences
/// taken from left to right without overlap; the empty pattern occurs
/// before every character and at the end.
pub open spec fn replaced(s: Seq<char>, pat: Seq<char>, rep: Seq<char>) -> Seq<char>
    decreases s.len(),
{
    if pat.len() == 0 {
        if s.len() == 0 {
            rep
        } else {
            rep + seq![s[0]] + replaced(s.skip(1), pat, rep)
        }
    } else if s.len() < pat.len() {
        s
    } else if s.take(pat.len() as int) == pat {
        rep + replaced(s.skip(pat.len() as int), pat, rep)
    } else {
        seq![s[0]] + replaced(s.skip(1), pat, rep)
    }
}

/// Appends the characters of `w` to `v`.
pub fn push_all(v: &mut Vec<char>, w: &Vec<char>)
    ensures
        final(v)@ == old(v)@ + w@,
{
    let mut k: usize = 0;
    while k < w.len()
        invariant
            k <= w.len(),
            v@ == old(v)@ + w@.take(k as int),
        decreases w.len() - k,
    {
        v.push(w[k]);
        assert(old(v)@ + w@.take(k as int) + seq![w@[k as int]] =~= old(v)@ + w@.take(k + 1));
        k = k + 1;
    }
    assert(w@.take(w.len() as int) =~= w@);
}

/// Whether `pat` occurs in `s` at position `i`.
pub fn matches_at(s: &Vec<char>, i: usize, pat: &Vec<char>) -> (r: bool)
    ensures
        r == occurs_at(s@, pat@, i as int),
{
    if i > s.len() || pat.len() > s.len() - i {
        return false;
    }
    let mut k: usize = 0;
    while k < pat.len()
        invariant
            i + pat.len() <= s.len(),
            k <= pat.len(),
            forall|j: int| 0 <= j < k ==> s@[i + j] == pat@[j],
        decreases pat.len() - k,
    {
        if s[i + k] != pat[k] {
            assert(s@.subrange(i as int, i + pat.len())[k as int] != pat@[k as int]);
            return false;
        }
        k = k + 1;
    }
    assert(s@.subrange(i as int, i + pat.len()) =~= pat@);
    true
}

/// Whether `pat` occurs anywhere in `s`.
pub fn contains(s: &Vec<char>, pat: &Vec<char>) -> (r: bool)
    ensures
        r == occurs_in(s@, pat@),
{
    let mut i: usize = 0;
    while i < s.len()
        invariant
            i <= s.len(),
            forall|j: int| 0 <= j < i ==> !occurs_at(s@, pat@, j),
        decreases s.len() - i,
    {
        if matches_at(s, i, pat) {
            return true;
        }
        i = i + 1;
    }
    if matches_at(s, i, pat) {
        return true;
    }
    assert forall|j: int| !occurs_at(s@, pat@, j) by {
        if 0 <= j <= s.len() {
        }
    }
    false
}

proof fn lemma_replaced_step(s: Seq<char>, pat: Seq<char>, rep: Seq<char>, i: int)
    requires
        pat.len() > 0,
        0 <= i < s.len(),
    ensures
        occurs_at(s, pat, i) ==> replaced(s.skip(i), pat, rep) == rep + replaced(
            s.skip(i + pat.len()),
            pat,
            rep,
        ),
        !occurs_at(s, pat, i) ==> replaced(s.skip(i), pat, rep) == seq![s[i]] + replaced(
            s.skip(i + 1),
            pat,
            rep,
        ),
{
    let t = s.skip(i);
    assert(t.skip(1) =~= s.skip(i + 1));
    if i + pat.len() <= s.len() {
        assert(t.skip(pat.len() as int) =~= s.skip(i + pat.len()));
        assert(t.take(pat.len() as int) =~= s.subrange(i, i + pat.len()));
    } else {
        assert(s.skip(i + 1).len() < pat.len());
        assert(replaced(t, pat, rep) == t);
        assert(replaced(s.skip(i + 1), pat, rep) == s.skip(i + 1));
        assert(t =~= seq![s[i]] + s.skip(i + 1));
    }
}

/// `s` with the empty pattern replaced by `rep`: `rep` before every
/// character and at the end.
fn interleave(s: &Vec<char>, rep: &Vec<char>) -> (r: Vec<char>)
    ensures
        r@ == replaced(s@, Seq::<char>::empty(), rep@),
{
    let ghost e = Seq::<char>::empty();
    let mut out: Vec<char> = Vec::new();
    let mut i: usize = 0;
    assert(s@.skip(0) =~= s@);
    while i < s.len()
        invariant
            i <= s.len(),
            e == Seq::<char>::empty(),
            replaced(s@, e, rep@) == out@ + replaced(s@.skip(i as int), e, rep@),
        decreases s.len() - i,
    {
        let ghost before = out@;
        push_all(&mut out, rep);
        out.push(s[i]);
        assert(s@.skip(i as int).skip(1) =~= s@.skip(i + 1));
        assert(s@.skip(i as int)[0] == s@[i as int]);
        assert(replaced(s@.skip(i as int), e, rep@) == rep@ + seq![s@.skip(i as int)[0]] + replaced(
            s@.skip(i as int).skip(1),
            e,
            rep@,
        ));
        assert(replaced(s@.skip(i as int), e, rep@) == rep@ + seq![s@[i as int]] + replaced(
            s@.skip(i + 1),
            e,
            rep@,
        ));
        assert(out@ + replaced(s@.skip(i + 1), e, rep@) =~= before + (rep@ + seq![s@[i as int]]
            + replaced(s@.skip(i + 1), e, rep@)));
        i = i + 1;
    }
    assert(s@.skip(i as int) =~= e);
    push_all(&mut out, rep);
    out
}

/// `s` with every occurrence of `pat` replaced by `rep` (as `str::replace`).
pub fn replace(s: &Vec<char>, pat: &Vec<char>, rep: &Vec<char>) -> (r: Vec<char>)
    ensures
        r@ == replaced(s@, pat@, rep@),
{
    if pat.len() == 0 {
        assert(pat@ =~= Seq::<char>::empty());
        return interleave(s, rep);
    }
    let mut out: Vec<char> = Vec::new();
    let mut i: usize = 0;
    assert(s@.skip(0) =~= s@);
    while i < s.len()
        invariant
            pat@.len() > 0,
            i <= s.len(),
            replaced(s@, pat@, rep@) == out@ + replaced(s@.skip(i as int), pat@, rep@),
        decreases s.len() - i,
    {
        proof {
            lemma_replaced_step(s@, pat@, rep@, i as int);
        }
        if matches_at(s, i, pat) {
            let mut k: usize = 0;
            let ghost before = out@;
            while k < rep.len()
                invariant
                    k <= rep.len(),
                    out@ == before + rep@.take(k as int),
                decreases rep.len() - k,
            {
                out.push(rep[k]);
                assert(rep@.take(k as int).push(rep@[k as int]) =~= rep@.take(k + 1));
                k = k + 1;
            }
            assert(rep@.take(rep.len() as int) =~= rep@);
            assert(out@ + replaced(s@.skip(i + pat.len()), pat@, rep@) =~= before + (rep@
                + replaced(s@.skip(i + pat.len()), pat@, rep@)));
            i = i + pat.len();
        } else {
            let ghost before = out@;
            out.push(s[i]);
            assert(out@ + replaced(s@.skip(i + 1), pat@, rep@) =~= before + (seq![s@[i as int]]
                + replaced(s@.skip(i + 1), pat@, rep@)));
            i = i + 1;
        }
    }
    assert(s@.skip(i as int).len() == 0);
    assert(out@ + replaced(s@.skip(i as int), pat@, rep@) =~= out@);
    out
}


/// The ASCII digit for `d < 10`.
pub open spec fn digit_char(d: nat) -> char {
    (d + 48) as char
}

/// `c` is an ASCII digit.
pub open spec fn is_digit(c: char) -> bool {
    '0' <= c && c <= '9'
}

/// Every character of `d` is an ASCII digit.
pub open spec fn all_digits(d: Seq<char>) -> bool {
    forall|i: int| 0 <= i < d.len() ==> is_digit(#[trigger] d[i])
}

/// The decimal rendering of `n`, without leading zeros.
pub open spec fn decimal(n: nat) -> Seq<char>
    decreases n,
{
    if n < 10 {
        seq![digit_char(n)]
    } else {
        decimal(n / 10).push(digit_char(n % 10))
    }
}

/// The number that a string of decimal digits denotes.
pub open spec fn digits_value(d: Seq<char>) -> nat
    decreases d.len(),
{
    if d.len() == 0 {
        0
    } else {
        digits_value(d.drop_last()) * 10 + ((d.last() as int - 48) as nat)
    }
}

/// Appends the decimal rendering of `n`.
pub fn push_decimal(out: &mut Vec<char>, n: u64)
    ensures
        final(out)@ == old(out)@ + decimal(n as nat),
    decreases n,
{
    if n >= 10 {
        push_decimal(out, n / 10);
    }
    let d: u8 = (n % 10) as u8;
    let c: char = (48u8 + d) as char;
    out.push(c);
    proof {
        if n >= 10 {
            assert(old(out)@ + decimal((n / 10) as nat) + seq![c] =~= old(out)@ + decimal(
                n as nat,
            ));
        } else {
            assert(old(out)@ + seq![c] =~= old(out)@ + decimal(n as nat));
        }
    }
}

/// The decimal rendering of `n` (as `n.to_string()`).
pub fn decimal_of(n: u64) -> (v: Vec<char>)
    ensures
        v@ == decimal(n as nat),
{
    let mut v: Vec<char> = Vec::new();
    push_decimal(&mut v, n);
    assert(Seq::<char>::empty() + decimal(n as nat) =~= decimal(n as nat));
    v
}

/// A digit string extended by one digit is worth at least as much.
proof fn lemma_digits_value_prefix(d: Seq<char>, i: int, j: int)
    requires
        0 <= i <= j <= d.len(),
        all_digits(d),
    ensures
        digits_value(d.take(i)) <= digits_value(d.take(j)),
    decreases j - i,
{
    if i < j {
        lemma_digits_value_prefix(d, i, j - 1);
        assert(d.take(j).drop_last() =~= d.take(j - 1));
        assert(is_digit(d[j - 1]));
    }
}

/// The value of the digit string `d`, or `None` where it exceeds `u64::MAX`.
pub fn parse_digits(d: &Vec<char>) -> (r: Option<u64>)
    requires
        all_digits(d@),
    ensures
        r matches Some(v) ==> v as nat == digits_value(d@),
        r is None <==> digits_value(d@) > u64::MAX,
{
    let mut acc: u64 = 0;
    let mut i: usize = 0;
    assert(d@.take(0) =~= Seq::<char>::empty());
    while i < d.len()
        invariant
            i <= d.len(),
            all_digits(d@),
            acc as nat == digits_value(d@.take(i as int)),
        decreases d.len() - i,
    {
        let c = d[i];
        assert(is_digit(d@[i as int]));
        let v: u64 = (c as u32 - 48u32) as u64;
        assert(d@.take(i + 1).drop_last() =~= d@.take(i as int));
        if acc > (u64::MAX - v) / 10 {
            proof {
                lemma_digits_value_prefix(d@, i + 1, d@.len() as int);
                assert(d@.take(d@.len() as int) =~= d@);
            }
            return None;
        }
        acc = acc * 10 + v;
        i = i + 1;
    }
    assert(d@.take(d@.len() as int) =~= d@);
    Some(acc)
}

/// Reading back a rendered number gives the number.
pub proof fn law_decimal_round_trip(n: nat)
    ensures
        all_digits(decimal(n)),
        decimal(n).len() > 0,
        digits_value(decimal(n)) == n,
    decreases n,
{
    assert(digit_char(n % 10) as int == n % 10 + 48);
    if n >= 10 {
        law_decimal_round_trip(n / 10);
        assert(decimal(n).drop_last() =~= decimal(n / 10));
        assert(decimal(n).last() == digit_char(n % 10));
        assert((n / 10) * 10 + n % 10 == n);
        assert forall|i: int| 0 <= i < decimal(n).len() implies is_digit(#[trigger] decimal(n)[i]) by {
            if i < decimal(n / 10).len() {
                assert(decimal(n)[i] == decimal(n / 10)[i]);
            }
        }
    } else {
        assert(decimal(n).drop_last() =~= Seq::<char>::empty());
        assert(digits_value(Seq::<char>::empty()) == 0);
    }
}


/// Whether `a` and `b` hold the same characters.
pub fn same_chars(a: &Vec<char>, b: &Vec<char>) -> (r: bool)
    ensures
        r == (a@ == b@),
{
    if a.len() != b.len() {
        return false;
    }
    let mut k: usize = 0;
    while k < a.len()
        invariant
            a.len() == b.len(),
            k <= a.len(),
            forall|j: int| 0 <= j < k ==> a@[j] == b@[j],
        decreases a.len() - k,
    {
        if a[k] != b[k] {
            return false;
        }
        k = k + 1;
    }
    assert(a@ =~= b@);
    true
}

/// The pieces of `s` between the occurrences of `sep` (as `str::split`
/// with a character): one more piece than there are separators.
pub open spec fn split(s: Seq<char>, sep: char) -> Seq<Seq<char>>
    decreases s.len(),
{
    if s.len() == 0 {
        seq![Seq::<char>::empty()]
    } else if s[0] == sep {
        seq![Seq::<char>::empty()] + split(s.drop_first(), sep)
    } else {
        let rest = split(s.drop_first(), sep);
        rest.update(0, seq![s[0]] + rest[0])
    }
}

/// Splitting never gives an empty list.
pub proof fn lemma_split_nonempty(s: Seq<char>, sep: char)
    ensures
        split(s, sep).len() >= 1,
    decreases s.len(),
{
    if s.len() > 0 {
        lemma_split_nonempty(s.drop_first(), sep);
    }
}

/// Splitting a text that begins with a separator-free `c`: `c` joins the first piece.
proof fn lemma_split_prefix(c: Seq<char>, t: Seq<char>, sep: char)
    requires
        forall|i: int| 0 <= i < c.len() ==> c[i] != sep,
    ensures
        split(c + t, sep) == split(t, sep).update(0, c + split(t, sep)[0]),
    decreases c.len(),
{
    lemma_split_nonempty(t, sep);
    if c.len() == 0 {
        assert(c + t =~= t);
        assert(split(t, sep).update(0, c + split(t, sep)[0]) =~= split(t, sep));
    } else {
        let c1 = c.drop_first();
        lemma_split_prefix(c1, t, sep);
        assert((c + t).drop_first() =~= c1 + t);
        assert((c + t)[0] == c[0]);
        let r = split(c1 + t, sep);
        assert(seq![c[0]] + (c1 + split(t, sep)[0]) =~= c + split(t, sep)[0]);
        assert(r.update(0, seq![c[0]] + r[0]) =~= split(t, sep).update(0, c + split(t, sep)[0]));
    }
}

/// A text without the separator is a single piece.
pub proof fn lemma_split_whole(s: Seq<char>, sep: char)
    requires
        forall|i: int| 0 <= i < s.len() ==> s[i] != sep,
    ensures
        split(s, sep) == seq![s],
{
    lemma_split_prefix(s, Seq::<char>::empty(), sep);
    assert(s + Seq::<char>::empty() =~= s);
    assert(split(Seq::<char>::empty(), sep).update(0, s + Seq::<char>::empty()) =~= seq![s]);
}

/// The pieces of `s` between the occurrences of `sep`.
pub fn split_chars(s: &Vec<char>, sep: char) -> (r: Vec<Vec<char>>)
    ensures
        r@.len() == split(s@, sep).len(),
        forall|k: int| 0 <= k < r@.len() ==> #[trigger] r@[k]@ == split(s@, sep)[k],
{
    let mut done: Vec<Vec<char>> = Vec::new();
    let ghost mut done_view: Seq<Seq<char>> = Seq::empty();
    let mut cur: Vec<char> = Vec::new();
    let mut i: usize = 0;
    assert(cur@ + s@.skip(0) =~= s@);
    while i < s.len()
        invariant
            i <= s.len(),
            done@.len() == done_view.len(),
            forall|k: int| 0 <= k < done@.len() ==> #[trigger] done@[k]@ == done_view[k],
            forall|j: int| 0 <= j < cur@.len() ==> cur@[j] != sep,
            split(s@, sep) == done_view + split(cur@ + s@.skip(i as int), sep),
        decreases s.len() - i,
    {
        let x = s[i];
        let ghost rest = s@.skip(i + 1);
        assert(s@.skip(i as int) =~= seq![x] + rest);
        if x == sep {
            proof {
                lemma_split_prefix(cur@, seq![x] + rest, sep);
                assert((seq![x] + rest).drop_first() =~= rest);
                let after = split(seq![x] + rest, sep);
                assert(after == seq![Seq::<char>::empty()] + split(rest, sep));
                assert(cur@ + Seq::<char>::empty() =~= cur@);
                assert(split(cur@ + s@.skip(i as int), sep) =~= seq![cur@] + split(rest, sep));
                assert(done_view + (seq![cur@] + split(rest, sep)) =~= done_view.push(cur@) + split(
                    Seq::<char>::empty() + rest,
                    sep,
                ));
                assert(Seq::<char>::empty() + rest =~= rest);
                done_view = done_view.push(cur@);
            }
            done.push(cur);
            cur = Vec::new();
        } else {
            let ghost before = cur@;
            cur.push(x);
            assert(before + (seq![x] + rest) =~= cur@ + rest);
        }
        i = i + 1;
    }
    proof {
        assert(s@.skip(i as int) =~= Seq::<char>::empty());
        assert(cur@ + Seq::<char>::empty() =~= cur@);
        lemma_split_prefix(cur@, Seq::<char>::empty(), sep);
        assert(split(Seq::<char>::empty(), sep) == seq![Seq::<char>::empty()]);
        assert(split(cur@, sep) =~= seq![cur@]);
        done_view = done_view.push(cur@);
    }
    done.push(cur);
    done
}


/// What `str::parse::<u16>` gives: an optional `+`, then one or more ASCII
/// digits whose value is at most 65535.
pub open spec fn parsed_u16(s: Seq<char>) -> Option<u16> {
    let d = if s.len() > 1 && s[0] == '+' {
        s.skip(1)
    } else {
        s
    };
    if d.len() > 0 && all_digits(d) && digits_value(d) <= u16::MAX {
        Some(digits_value(d) as u16)
    } else {
        None
    }
}

/// `s` read as a `u16`, as `str::parse::<u16>`.
pub fn parse_u16(s: &Vec<char>) -> (r: Option<u16>)
    ensures
        r == parsed_u16(s@),
{
    let mut d: Vec<char> = Vec::new();
    let start: usize = if s.len() > 1 && s[0] == '+' { 1 } else { 0 };
    let mut k: usize = start;
    while k < s.len()
        invariant
            start <= k <= s.len(),
            d@ == s@.subrange(start as int, k as int),
        decreases s.len() - k,
    {
        d.push(s[k]);
        assert(s@.subrange(start as int, k as int).push(s@[k as int]) =~= s@.subrange(
            start as int,
            k + 1,
        ));
        k = k + 1;
    }
    assert(d@ =~= (if s@.len() > 1 && s@[0] == '+' { s@.skip(1) } else { s@ }));
    if d.len() == 0 {
        return None;
    }
    let mut j: usize = 0;
    while j < d.len()
        invariant
            j <= d.len(),
            d@ == (if s@.len() > 1 && s@[0] == '+' { s@.skip(1) } else { s@ }),
            forall|i: int| 0 <= i < j ==> is_digit(#[trigger] d@[i]),
        decreases d.len() - j,
    {
        if !('0' <= d[j] && d[j] <= '9') {
            assert(!is_digit(d@[j as int]));
            assert(!all_digits(d@));
            return None;
        }
        j = j + 1;
    }
    match parse_digits(&d) {
        Some(v) => {
            if v <= 65535 {
                Some(v as u16)
            } else {
                None
            }
        },
        None => None,
    }
}


/// Replacing a pattern that does not occur leaves the text unchanged.
pub proof fn law_replace_absent(s: Seq<char>, pat: Seq<char>, rep: Seq<char>)
    requires
        !occurs_in(s, pat),
    ensures
        replaced(s, pat, rep) == s,
    decreases s.len(),
{
    if pat.len() == 0 {
        assert(s.subrange(0, 0) =~= pat);
        assert(occurs_at(s, pat, 0));
    }
    if pat.len() > 0 && s.len() >= pat.len() {
        assert(!occurs_at(s, pat, 0));
        assert(s.take(pat.len() as int) =~= s.subrange(0, pat.len() as int));
        let t = s.skip(1);
        assert(!occurs_in(t, pat)) by {
            if exists|i: int| occurs_at(t, pat, i) {
                let i = choose|i: int| occurs_at(t, pat, i);
                assert(t.subrange(i, i + pat.len()) =~= s.subrange(i + 1, i + 1 + pat.len()));
                assert(occurs_at(s, pat, i + 1));
            }
        }
        law_replace_absent(t, pat, rep);
        assert(seq![s[0]] + t =~= s);
    }
}

/// Replacing a pattern by itself leaves the text unchanged.
pub proof fn law_replace_by_itself(s: Seq<char>, pat: Seq<char>)
    ensures
        replaced(s, pat, pat) == s,
    decreases s.len(),
{
    if pat.len() == 0 {
        if s.len() > 0 {
            law_replace_by_itself(s.skip(1), pat);
            assert(pat + seq![s[0]] + s.skip(1) =~= s);
        } else {
            assert(pat =~= s);
        }
    } else if s.len() >= pat.len() {
        if s.take(pat.len() as int) == pat {
            law_replace_by_itself(s.skip(pat.len() as int), pat);
            assert(pat + s.skip(pat.len() as int) =~= s);
        } else {
            law_replace_by_itself(s.skip(1), pat);
            assert(seq![s[0]] + s.skip(1) =~= s);
        }
    }
}


/// A text that is exactly the (non-empty) pattern becomes the replacement.
pub proof fn law_replace_whole(s: Seq<char>, rep: Seq<char>)
    requires
        s.len() > 0,
    ensures
        replaced(s, s, rep) == rep,
{
    assert(s.take(s.len() as int) =~= s);
    assert(s.skip(s.len() as int).len() == 0);
    assert(replaced(s.skip(s.len() as int), s, rep) == s.skip(s.len() as int));
    assert(rep + s.skip(s.len() as int) =~= rep);
}

/// A pattern that occurs neither in `a` nor can reach into `b` (no
/// character of `b` is a character of the pattern) does not occur in `a + b`.
pub proof fn lemma_no_occurrence_concat(a: Seq<char>, b: Seq<char>, pat: Seq<char>)
    requires
        pat.len() > 0,
        !occurs_in(a, pat),
        forall|j: int, k: int| 0 <= j < b.len() && 0 <= k < pat.len() ==> b[j] != pat[k],
    ensures
        !occurs_in(a + b, pat),
{
    if exists|i: int| occurs_at(a + b, pat, i) {
        let i = choose|i: int| occurs_at(a + b, pat, i);
        let last = i + pat.len() - 1;
        assert((a + b).subrange(i, i + pat.len())[pat.len() - 1] == (a + b)[last]);
        if last >= a.len() {
            assert((a + b)[last] == b[last - a.len()]);
        } else {
            assert((a + b).subrange(i, i + pat.len()) =~= a.subrange(i, i + pat.len()));
            assert(occurs_at(a, pat, i));
        }
    }
}


/// A number written in decimal, with or without a leading `+`, reads as a
/// `u16` exactly when it is at most 65535; a leading `-` or nothing at all
/// never reads.
pub proof fn law_parse_u16(n: nat)
    ensures
        parsed_u16(decimal(n)) == (if n <= 65535 { Some(n as u16) } else { None::<u16> }),
        parsed_u16(seq!['+'] + decimal(n)) == (if n <= 65535 { Some(n as u16) } else { None::<u16> }),
        parsed_u16(seq!['-'] + decimal(n)) is None,
        parsed_u16(Seq::<char>::empty()) is None,
        parsed_u16(seq!['+']) is None,
{
    let d = decimal(n);
    law_decimal_round_trip(n);
    assert(is_digit(d[0]));
    let p = seq!['+'] + d;
    assert(p.skip(1) =~= d);
    let m = seq!['-'] + d;
    assert(!is_digit(m[0]));
    assert(!is_digit(seq!['+'][0]));
}

/// The pieces joined again with the separator between them.
pub open spec fn joined(pieces: Seq<Seq<char>>, sep: char) -> Seq<char>
    decreases pieces.len(),
{
    if pieces.len() == 0 {
        Seq::empty()
    } else if pieces.len() == 1 {
        pieces[0]
    } else {
        pieces[0] + seq![sep] + joined(pieces.drop_first(), sep)
    }
}

/// Splitting loses nothing: joining the pieces with the separator gives the
/// text back, and no piece holds the separator.
pub proof fn law_split_join(s: Seq<char>, sep: char)
    ensures
        joined(split(s, sep), sep) == s,
        forall|k: int, j: int|
            0 <= k < split(s, sep).len() && 0 <= j < split(s, sep)[k].len() ==> #[trigger] split(
                s,
                sep,
            )[k][j] != sep,
    decreases s.len(),
{
    if s.len() > 0 {
        let rest = split(s.drop_first(), sep);
        law_split_join(s.drop_first(), sep);
        lemma_split_nonempty(s.drop_first(), sep);
        if s[0] == sep {
            let p = seq![Seq::<char>::empty()] + rest;
            assert(split(s, sep) == p);
            assert(p.drop_first() =~= rest);
            assert(p[0] =~= Seq::<char>::empty());
            assert(joined(p, sep) == p[0] + seq![sep] + joined(rest, sep));
            assert(Seq::<char>::empty() + seq![sep] + s.drop_first() =~= s);
            assert forall|k: int, j: int|
                0 <= k < p.len() && 0 <= j < p[k].len() implies #[trigger] p[k][j] != sep by {
                if k > 0 {
                    assert(p[k] == rest[k - 1]);
                    assert(rest[k - 1][j] != sep);
                }
            }
        } else {
            let first = seq![s[0]] + rest[0];
            let p = rest.update(0, first);
            assert(split(s, sep) == p);
            assert(p.drop_first() =~= rest.drop_first());
            if rest.len() == 1 {
                assert(joined(rest, sep) == rest[0]);
                assert(joined(p, sep) == first);
                assert(first =~= s);
            } else {
                assert(joined(rest, sep) == rest[0] + seq![sep] + joined(rest.drop_first(), sep));
                assert(joined(p, sep) == first + seq![sep] + joined(rest.drop_first(), sep));
                assert(first + seq![sep] + joined(rest.drop_first(), sep) =~= seq![s[0]] + (rest[0]
                    + seq![sep] + joined(rest.drop_first(), sep)));
                assert(seq![s[0]] + s.drop_first() =~= s);
            }
            assert forall|k: int, j: int|
                0 <= k < p.len() && 0 <= j < p[k].len() implies #[trigger] p[k][j] != sep by {
                if k > 0 {
                    assert(p[k] == rest[k]);
                    assert(rest[k][j] != sep);
                } else if j > 0 {
                    assert(p[0][j] == rest[0][j - 1]);
                    assert(rest[0][j - 1] != sep);
                }
            }
        }
    }
}

} // verus!
