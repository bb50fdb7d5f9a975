//! Searching and rewriting text, modelled as sequences of characters.

use crate::text_laws::{
    lemma_occurs_at_skip, lemma_replaced_at_first_occurrence, lemma_replaced_without_occurrence,
};
use vstd::prelude::*;
use vstd::std_specs::iter::IteratorSpec;
use vstd::string::StrSliceExecFns;
use vstd::string::StringExecFns;

verus! {

/// `pat` stands in `text` at position `at`.
pub open spec fn occurs_at(text: Seq<char>, pat: Seq<char>, at: int) -> bool {
    &&& 0 <= at
    &&& at + pat.len() <= text.len()
    &&& text.subrange(at, at + pat.len()) == pat
}

/// `pat` stands somewhere in `text`.
pub open spec fn occurs(text: Seq<char>, pat: Seq<char>) -> bool {
    exists|at: int| occurs_at(text, pat, at)
}

/// `text` with every occurrence of `pat` replaced by `with`, reading from the
/// left and never looking again at characters that an occurrence has used up.
/// An empty pattern occurs nowhere for this purpose: the text stays as it is.
pub open spec fn replaced(text: Seq<char>, pat: Seq<char>, with: Seq<char>) -> Seq<char>
    decreases text.len(),
{
    if pat.len() == 0 || text.len() < pat.len() {
        text
    } else if occurs_at(text, pat, 0) {
        with + replaced(text.skip(pat.len() as int), pat, with)
    } else {
        seq![text[0]] + replaced(text.skip(1), pat, with)
    }
}

/// The text holds no line break.
pub open spec fn single_line(text: Seq<char>) -> bool {
    forall|i: int| 0 <= i < text.len() ==> text[i] != '\n'
}

/// The lines of a text: what stands between its line breaks. Every line break
/// ends one line and begins the next, so a text that ends with a line break has
/// an empty last line.
pub open spec fn lines(text: Seq<char>) -> Seq<Seq<char>>
    decreases text.len(),
{
    if text.len() == 0 {
        seq![Seq::empty()]
    } else {
        let before = lines(text.drop_last());
        if text.last() == '\n' {
            before.push(Seq::empty())
        } else {
            before.drop_last().push(before.last().push(text.last()))
        }
    }
}

/// The ten decimal digits, by value.
pub open spec fn digits() -> Seq<char> {
    seq!['0', '1', '2', '3', '4', '5', '6', '7', '8', '9']
}

/// A natural number in decimal, without leading zeros.
pub open spec fn decimal_of_nat(n: nat) -> Seq<char>
    decreases n,
{
    if n < 10 {
        seq![digits()[n as int]]
    } else {
        decimal_of_nat(n / 10).push(digits()[(n % 10) as int])
    }
}

/// An integer in decimal, with a minus sign in front where it is negative.
pub open spec fn decimal(n: int) -> Seq<char> {
    if n < 0 {
        seq!['-'] + decimal_of_nat((-n) as nat)
    } else {
        decimal_of_nat(n as nat)
    }
}

/// The characters of `s`, in order.
pub fn chars_of(s: &str) -> (v: Vec<char>)
    ensures
        v@ == s@,
{
    broadcast use vstd::string::group_string_axioms;

    let mut v: Vec<char> = Vec::new();
    for c in it: s.chars()
        invariant
            it.seq() == s@,
            v@ == s@.take(it.index()),
    {
        v.push(c);
        assert(s@.take(it.index() + 1) == s@.take(it.index()).push(c));
    }
    assert(s@.take(s@.len() as int) == s@);
    v
}

/// Whether `pat` stands in `text` at `at`.
pub fn matches_at(text: &Vec<char>, pat: &Vec<char>, at: usize) -> (b: bool)
    ensures
        b == occurs_at(text@, pat@, at as int),
{
    if pat.len() > text.len() || at > text.len() - pat.len() {
        return false;
    }
    let mut k: usize = 0;
    while k < pat.len()
        invariant
            k <= pat.len(),
            at + pat.len() <= text.len(),
            forall|j: int| 0 <= j < k ==> text@[at + j] == pat@[j],
        decreases pat.len() - k,
    {
        if text[at + k] != pat[k] {
            assert(text@.subrange(at as int, at + pat.len())[k as int] == text@[at + k]);
            return false;
        }
        k += 1;
    }
    assert(text@.subrange(at as int, at + pat.len()) =~= pat@);
    true
}

/// The first position at or behind `from` where `pat` stands in `text`.
pub fn find_from(text: &Vec<char>, pat: &Vec<char>, from: usize) -> (found: Option<usize>)
    ensures
        match found {
            Some(at) => {
                &&& from <= at
                &&& occurs_at(text@, pat@, at as int)
                &&& forall|j: int| from <= j < at ==> !occurs_at(text@, pat@, j)
            },
            None => forall|j: int| from <= j ==> !occurs_at(text@, pat@, j),
        },
{
    if pat.len() > text.len() || from > text.len() - pat.len() {
        return None;
    }
    let last: usize = text.len() - pat.len();
    let mut at: usize = from;
    loop
        invariant
            from <= at <= last,
            last == text.len() - pat.len(),
            forall|j: int| from <= j < at ==> !occurs_at(text@, pat@, j),
        decreases last - at,
    {
        if matches_at(text, pat, at) {
            return Some(at);
        }
        if at == last {
            return None;
        }
        at += 1;
    }
}

/// Whether `pat` stands somewhere in `text`.
pub fn contains(text: &str, pat: &str) -> (b: bool)
    ensures
        b == occurs(text@, pat@),
{
    let t = chars_of(text);
    let p = chars_of(pat);
    find_from(&t, &p, 0).is_some()
}

/// `text` with every occurrence of `pat` replaced by `with`.
pub fn replace_all(text: &str, pat: &str, with: &str) -> (out: String)
    ensures
        out@ == replaced(text@, pat@, with@),
{
    let t = chars_of(text);
    let p = chars_of(pat);
    let n: usize = t.len();
    let m: usize = p.len();
    let mut out = String::new();
    if m == 0 {
        out.append(text);
        return out;
    }
    let mut from: usize = 0;
    assert(out@ + text@.skip(0) =~= text@);
    loop
        invariant
            t@ == text@,
            p@ == pat@,
            n == t.len(),
            m == p.len(),
            m > 0,
            from <= n,
            out@ + replaced(text@.skip(from as int), pat@, with@) == replaced(text@, pat@, with@),
        decreases n - from,
    {
        let ghost rest = text@.skip(from as int);
        match find_from(&t, &p, from) {
            Some(at) => {
                proof {
                    lemma_occurs_at_skip(text@, pat@, from as int, at - from);
                    assert forall|j: int| 0 <= j < at - from implies !occurs_at(rest, pat@, j) by {
                        lemma_occurs_at_skip(text@, pat@, from as int, j);
                    }
                    lemma_replaced_at_first_occurrence(rest, pat@, with@, at - from);
                    assert(rest.take(at - from) =~= text@.subrange(from as int, at as int));
                    assert(rest.skip(at - from + m) =~= text@.skip(at + m));
                }
                out.append(text.substring_char(from, at));
                out.append(with);
                from = at + m;
            },
            None => {
                proof {
                    assert forall|j: int| !occurs_at(rest, pat@, j) by {
                        if 0 <= j {
                            lemma_occurs_at_skip(text@, pat@, from as int, j);
                        }
                    }
                    lemma_replaced_without_occurrence(rest, pat@, with@);
                    assert(rest =~= text@.subrange(from as int, n as int));
                }
                out.append(text.substring_char(from, n));
                return out;
            },
        }
    }
}

/// Whether `a` and `b` hold the same characters.
pub fn same_text(a: &str, b: &str) -> (same: bool)
    ensures
        same == (a@ == b@),
{
    let x = chars_of(a);
    let y = chars_of(b);
    if x.len() != y.len() {
        return false;
    }
    let same = matches_at(&x, &y, 0);
    assert(x@.subrange(0, x@.len() as int) =~= x@);
    same
}

/// The text of one decimal digit.
fn digit_text(d: u64) -> (text: &'static str)
    requires
        d < 10,
    ensures
        text@ == seq![digits()[d as int]],
{
    proof {
        reveal_strlit("0");
        reveal_strlit("1");
        reveal_strlit("2");
        reveal_strlit("3");
        reveal_strlit("4");
        reveal_strlit("5");
        reveal_strlit("6");
        reveal_strlit("7");
        reveal_strlit("8");
        reveal_strlit("9");
    }
    let text = if d == 0 {
        "0"
    } else if d == 1 {
        "1"
    } else if d == 2 {
        "2"
    } else if d == 3 {
        "3"
    } else if d == 4 {
        "4"
    } else if d == 5 {
        "5"
    } else if d == 6 {
        "6"
    } else if d == 7 {
        "7"
    } else if d == 8 {
        "8"
    } else {
        "9"
    };
    assert(text@ =~= seq![digits()[d as int]]);
    text
}

/// Appends `n` in decimal to `out`.
fn append_decimal_of_nat(out: &mut String, n: u64)
    ensures
        final(out)@ == old(out)@ + decimal_of_nat(n as nat),
    decreases n,
{
    if n >= 10 {
        append_decimal_of_nat(out, n / 10);
    }
    out.append(digit_text(n % 10));
    assert(final(out)@ =~= old(out)@ + decimal_of_nat(n as nat));
}

/// `n` in decimal.
pub fn decimal_text(n: i32) -> (text: String)
    ensures
        text@ == decimal(n as int),
{
    let mut text = String::new();
    let wide: i64 = n as i64;
    if wide < 0 {
        proof {
            reveal_strlit("-");
        }
        text.append("-");
        append_decimal_of_nat(&mut text, (-wide) as u64);
        assert(text@ =~= decimal(n as int));
    } else {
        append_decimal_of_nat(&mut text, wide as u64);
        assert(text@ =~= decimal(n as int));
    }
    text
}

} // verus!
