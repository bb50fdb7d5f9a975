//! What holds of searching and rewriting text: where a pattern is found, what
//! rewriting keeps, and how it goes line by line.

use crate::text::{lines, occurs, occurs_at, replaced, single_line};
use vstd::prelude::*;

verus! {

/// An occurrence in a suffix is an occurrence in the whole text, shifted.
pub proof fn lemma_occurs_at_skip(text: Seq<char>, pat: Seq<char>, k: int, at: int)
    requires
        0 <= k <= text.len(),
        0 <= at,
    ensures
        occurs_at(text.skip(k), pat, at) == occurs_at(text, pat, k + at),
{
    if at + pat.len() <= text.len() - k {
        assert(text.skip(k).subrange(at, at + pat.len()) =~= text.subrange(
            k + at,
            k + at + pat.len(),
        ));
    }
}

/// Text that does not hold the pattern is left as it is.
pub proof fn lemma_replaced_without_occurrence(text: Seq<char>, pat: Seq<char>, with: Seq<char>)
    requires
        !occurs(text, pat),
    ensures
        replaced(text, pat, with) == text,
    decreases text.len(),
{
    if pat.len() == 0 || text.len() < pat.len() {
    } else {
        assert(!occurs_at(text, pat, 0));
        let rest = text.skip(1);
        assert forall|at: int| !occurs_at(rest, pat, at) by {
            if 0 <= at {
                lemma_occurs_at_skip(text, pat, 1, at);
            }
            assert(!occurs_at(text, pat, 1 + at));
        }
        lemma_replaced_without_occurrence(rest, pat, with);
        assert(seq![text[0]] + rest =~= text);
    }
}

/// Up to the first occurrence the text is kept, the occurrence itself gives way
/// to `with`, and the rewriting goes on behind it.
pub proof fn lemma_replaced_at_first_occurrence(
    text: Seq<char>,
    pat: Seq<char>,
    with: Seq<char>,
    at: int,
)
    requires
        pat.len() > 0,
        occurs_at(text, pat, at),
        forall|j: int| 0 <= j < at ==> !occurs_at(text, pat, j),
    ensures
        replaced(text, pat, with) == text.take(at) + with + replaced(
            text.skip(at + pat.len()),
            pat,
            with,
        ),
    decreases at,
{
    if at == 0 {
        assert(text.take(0) + with =~= with);
    } else {
        let rest = text.skip(1);
        assert(!occurs_at(text, pat, 0));
        lemma_occurs_at_skip(text, pat, 1, at - 1);
        assert forall|j: int| 0 <= j < at - 1 implies !occurs_at(rest, pat, j) by {
            lemma_occurs_at_skip(text, pat, 1, j);
        }
        lemma_replaced_at_first_occurrence(rest, pat, with, at - 1);
        assert(rest.skip(at - 1 + pat.len()) =~= text.skip(at + pat.len()));
        assert(seq![text[0]] + (rest.take(at - 1) + with + replaced(
            text.skip(at + pat.len()),
            pat,
            with,
        )) =~= text.take(at) + with + replaced(text.skip(at + pat.len()), pat, with));
    }
}

/// A pattern stands where it was put.
pub proof fn lemma_occurs_between(before: Seq<char>, pat: Seq<char>, after: Seq<char>)
    ensures
        occurs_at(before + pat + after, pat, before.len() as int),
        occurs(before + pat + after, pat),
{
    let at = before.len() as int;
    assert((before + pat + after).subrange(at, at + pat.len()) =~= pat);
}

/// A pattern behind a lead that holds the pattern's first character nowhere: the
/// lead stays, and the pattern gives way to the replacement.
pub proof fn lemma_replaced_behind_lead(lead: Seq<char>, pat: Seq<char>, with: Seq<char>)
    requires
        pat.len() > 0,
        forall|i: int| 0 <= i < lead.len() ==> lead[i] != pat[0],
    ensures
        replaced(lead + pat, pat, with) == lead + with,
{
    let text = lead + pat;
    let at = lead.len() as int;
    assert(text.subrange(at, at + pat.len()) =~= pat);
    assert forall|j: int| 0 <= j < at implies !occurs_at(text, pat, j) by {
        if occurs_at(text, pat, j) {
            assert(text.subrange(j, j + pat.len())[0] == lead[j]);
        }
    }
    lemma_replaced_at_first_occurrence(text, pat, with, at);
    assert(text.skip(at + pat.len()) =~= Seq::<char>::empty());
    assert(text.take(at) =~= lead);
    assert(lead + with + Seq::<char>::empty() =~= lead + with);
}

/// The first position at which `pat` stands in a text that holds it.
pub proof fn lemma_first_occurrence(text: Seq<char>, pat: Seq<char>) -> (at: int)
    requires
        occurs(text, pat),
    ensures
        occurs_at(text, pat, at),
        forall|j: int| 0 <= j < at ==> !occurs_at(text, pat, j),
{
    let some = choose|at: int| occurs_at(text, pat, at);
    lemma_first_occurrence_upto(text, pat, 0, some)
}

proof fn lemma_first_occurrence_upto(text: Seq<char>, pat: Seq<char>, from: int, some: int) -> (at:
    int)
    requires
        0 <= from <= some,
        occurs_at(text, pat, some),
        forall|j: int| 0 <= j < from ==> !occurs_at(text, pat, j),
    ensures
        occurs_at(text, pat, at),
        forall|j: int| 0 <= j < at ==> !occurs_at(text, pat, j),
    decreases some - from,
{
    if occurs_at(text, pat, from) {
        from
    } else {
        lemma_first_occurrence_upto(text, pat, from + 1, some)
    }
}

/// Where the pattern stands in the text, the replacement stands in the result.
pub proof fn lemma_replaced_holds_replacement(text: Seq<char>, pat: Seq<char>, with: Seq<char>)
    requires
        pat.len() > 0,
        occurs(text, pat),
    ensures
        occurs(replaced(text, pat, with), with),
{
    let at = lemma_first_occurrence(text, pat);
    lemma_replaced_at_first_occurrence(text, pat, with, at);
    let rest = replaced(text.skip(at + pat.len()), pat, with);
    assert((text.take(at) + with + rest).subrange(at, at + with.len()) =~= with);
    assert(occurs_at(replaced(text, pat, with), with, at));
}

/// A text has at least one line.
pub proof fn lemma_lines_nonempty(text: Seq<char>)
    ensures
        lines(text).len() >= 1,
    decreases text.len(),
{
    if text.len() > 0 {
        lemma_lines_nonempty(text.drop_last());
    }
}

/// A text without a line break is one line.
pub proof fn lemma_lines_of_single_line(text: Seq<char>)
    requires
        single_line(text),
    ensures
        lines(text) == seq![text],
    decreases text.len(),
{
    if text.len() == 0 {
        assert(text =~= Seq::<char>::empty());
    } else {
        let before = text.drop_last();
        lemma_lines_of_single_line(before);
        assert(before.push(text.last()) =~= text);
        assert(seq![before].drop_last().push(text) =~= seq![text]);
    }
}

/// The lines of two texts joined by a line break are the lines of the first
/// followed by the lines of the second.
pub proof fn lemma_lines_of_joined(first: Seq<char>, second: Seq<char>)
    ensures
        lines(first + seq!['\n'] + second) == lines(first) + lines(second),
    decreases second.len(),
{
    let joined = first + seq!['\n'] + second;
    if second.len() == 0 {
        assert(joined.drop_last() =~= first);
        assert(lines(first).push(Seq::<char>::empty()) =~= lines(first) + lines(second));
    } else {
        let shorter = second.drop_last();
        lemma_lines_of_joined(first, shorter);
        lemma_lines_nonempty(shorter);
        assert(joined.drop_last() =~= first + seq!['\n'] + shorter);
        assert(joined.last() == second.last());
        let before = lines(first) + lines(shorter);
        if second.last() == '\n' {
            assert(before.push(Seq::<char>::empty()) =~= lines(first) + lines(second));
        } else {
            assert(before.last() == lines(shorter).last());
            assert(before.drop_last() =~= lines(first) + lines(shorter).drop_last());
            assert(before.drop_last().push(before.last().push(second.last())) =~= lines(first)
                + lines(second));
        }
    }
}

/// Rewriting a text without a line break, with a replacement without one, gives
/// a text without one.
pub proof fn lemma_replaced_single_line(text: Seq<char>, pat: Seq<char>, with: Seq<char>)
    requires
        single_line(text),
        single_line(with),
    ensures
        single_line(replaced(text, pat, with)),
    decreases text.len(),
{
    if pat.len() == 0 || text.len() < pat.len() {
    } else if occurs_at(text, pat, 0) {
        lemma_replaced_single_line(text.skip(pat.len() as int), pat, with);
    } else {
        lemma_replaced_single_line(text.skip(1), pat, with);
    }
}

/// A pattern without a line break never reaches across one: two texts joined by
/// a line break are rewritten each by itself.
pub proof fn lemma_replaced_of_joined(
    first: Seq<char>,
    second: Seq<char>,
    pat: Seq<char>,
    with: Seq<char>,
)
    requires
        single_line(pat),
    ensures
        replaced(first + seq!['\n'] + second, pat, with) == replaced(first, pat, with) + seq!['\n']
            + replaced(second, pat, with),
    decreases first.len(),
{
    let joined = first + seq!['\n'] + second;
    let m = pat.len() as int;
    if m == 0 || joined.len() < m {
    } else if occurs_at(joined, pat, 0) {
        if m > first.len() {
            assert(joined.subrange(0, m)[first.len() as int] == '\n');
        }
        assert(first.subrange(0, m) =~= joined.subrange(0, m));
        assert(joined.skip(m) =~= first.skip(m) + seq!['\n'] + second);
        lemma_replaced_of_joined(first.skip(m), second, pat, with);
        assert(with + (replaced(first.skip(m), pat, with) + seq!['\n'] + replaced(
            second,
            pat,
            with,
        )) =~= with + replaced(first.skip(m), pat, with) + seq!['\n'] + replaced(
            second,
            pat,
            with,
        ));
    } else if first.len() == 0 {
        assert(joined.skip(1) =~= second);
        assert(first + seq!['\n'] =~= seq![joined[0]]);
        if second.len() < m {
        }
    } else {
        assert(joined.skip(1) =~= first.skip(1) + seq!['\n'] + second);
        lemma_replaced_of_joined(first.skip(1), second, pat, with);
        if first.len() >= m {
            assert(first.subrange(0, m) =~= joined.subrange(0, m));
        } else {
            assert(seq![first[0]] + first.skip(1) =~= first);
        }
        assert(seq![joined[0]] + (replaced(first.skip(1), pat, with) + seq!['\n'] + replaced(
            second,
            pat,
            with,
        )) =~= seq![first[0]] + replaced(first.skip(1), pat, with) + seq!['\n'] + replaced(
            second,
            pat,
            with,
        ));
    }
}

/// A pattern without a line break stands in two texts joined by a line break
/// only where it stands in one of them.
pub proof fn lemma_occurs_in_joined(first: Seq<char>, second: Seq<char>, pat: Seq<char>)
    requires
        single_line(pat),
    ensures
        occurs(first + seq!['\n'] + second, pat) == (occurs(first, pat) || occurs(second, pat)),
{
    let joined = first + seq!['\n'] + second;
    let m = pat.len() as int;
    let cut = first.len() as int;
    if occurs(first, pat) {
        let at = choose|at: int| occurs_at(first, pat, at);
        assert(joined.subrange(at, at + m) =~= first.subrange(at, at + m));
        assert(occurs_at(joined, pat, at));
    }
    if occurs(second, pat) {
        let at = choose|at: int| occurs_at(second, pat, at);
        assert(joined.subrange(cut + 1 + at, cut + 1 + at + m) =~= second.subrange(at, at + m));
        assert(occurs_at(joined, pat, cut + 1 + at));
    }
    if occurs(joined, pat) {
        let at = choose|at: int| occurs_at(joined, pat, at);
        if at + m <= cut {
            assert(first.subrange(at, at + m) =~= joined.subrange(at, at + m));
            assert(occurs_at(first, pat, at));
        } else if at > cut {
            assert(second.subrange(at - cut - 1, at - cut - 1 + m) =~= joined.subrange(
                at,
                at + m,
            ));
            assert(occurs_at(second, pat, at - cut - 1));
        } else {
            assert(joined.subrange(at, at + m)[cut - at] == '\n');
        }
    }
}

/// Rewriting goes line by line: where neither the pattern nor the replacement
/// holds a line break, the lines of the rewritten text are the rewritten lines
/// of the text, one for one.
pub proof fn lemma_replaced_line_by_line(text: Seq<char>, pat: Seq<char>, with: Seq<char>)
    requires
        single_line(pat),
        single_line(with),
    ensures
        lines(replaced(text, pat, with)) == lines(text).map_values(
            |line: Seq<char>| replaced(line, pat, with),
        ),
    decreases text.len(),
{
    let rewrite = |line: Seq<char>| replaced(line, pat, with);
    if single_line(text) {
        lemma_lines_of_single_line(text);
        lemma_replaced_single_line(text, pat, with);
        lemma_lines_of_single_line(replaced(text, pat, with));
        assert(seq![text].map_values(rewrite) =~= seq![replaced(text, pat, with)]);
    } else {
        let k = choose|k: int| 0 <= k < text.len() && text[k] == '\n';
        let first = text.take(k);
        let second = text.skip(k + 1);
        assert(text =~= first + seq!['\n'] + second);
        lemma_replaced_of_joined(first, second, pat, with);
        lemma_lines_of_joined(first, second);
        lemma_lines_of_joined(replaced(first, pat, with), replaced(second, pat, with));
        lemma_replaced_line_by_line(first, pat, with);
        lemma_replaced_line_by_line(second, pat, with);
        assert(lines(first).map_values(rewrite) + lines(second).map_values(rewrite) =~= (lines(
            first,
        ) + lines(second)).map_values(rewrite));
    }
}

} // verus!
