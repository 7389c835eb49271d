//! Substring search and replacement on sequences of characters.
//!
//! Matching is literal and case-sensitive. Replacement walks the text from
//! left to right and rewrites every occurrence that does not overlap an
//! earlier one.

use vstd::prelude::*;

verus! {

/// `pat` stands in `s` at index `i`.
pub open spec fn occurs_at(s: Seq<char>, pat: Seq<char>, i: int) -> bool {
    &&& 0 <= i
    &&& i + pat.len() <= s.len()
    &&& s.subrange(i, i + pat.len()) == pat
}

/// `pat` is a contiguous part of `s`. The empty pattern is part of every
/// sequence.
pub open spec fn contains(s: Seq<char>, pat: Seq<char>) -> bool {
    exists|i: int| occurs_at(s, pat, i)
}

/// `s` with every occurrence of `from` replaced by `to`, scanning from the
/// left; an occurrence that overlaps one already replaced is not seen.
///
/// An empty `from` occurs before every character and at the end, so `to` is
/// put at each of these places.
pub open spec fn replace_all(s: Seq<char>, from: Seq<char>, to: Seq<char>) -> Seq<char>
    decreases s.len(),
{
    if from.len() == 0 {
        if s.len() == 0 {
            to
        } else {
            to + s.take(1) + replace_all(s.skip(1), from, to)
        }
    } else if s.len() < from.len() {
        s
    } else if s.take(from.len() as int) == from {
        to + replace_all(s.skip(from.len() as int), from, to)
    } else {
        s.take(1) + replace_all(s.skip(1), from, to)
    }
}

/// The empty pattern occurs in every text.
pub proof fn lemma_contains_empty(s: Seq<char>)
    ensures
        contains(s, Seq::empty()),
{
    assert(s.subrange(0, 0) =~= Seq::<char>::empty());
    assert(occurs_at(s, Seq::empty(), 0));
}

/// Occurrences in a suffix are the occurrences in the whole text, shifted.
pub proof fn lemma_occurs_in_suffix(s: Seq<char>, pat: Seq<char>, i: int, k: int)
    requires
        0 <= i <= s.len(),
        0 <= k,
    ensures
        occurs_at(s.skip(i), pat, k) == occurs_at(s, pat, i + k),
{
    if i + k + pat.len() <= s.len() {
        assert(s.skip(i).subrange(k, k + pat.len()) =~= s.subrange(i + k, i + k + pat.len()));
    }
}

/// A text in which `from` does not occur is left as it is.
pub proof fn lemma_replace_without_occurrence(s: Seq<char>, from: Seq<char>, to: Seq<char>)
    requires
        !contains(s, from),
    ensures
        replace_all(s, from, to) == s,
    decreases s.len(),
{
    if from.len() == 0 {
        assert(from =~= Seq::empty());
        lemma_contains_empty(s);
    } else if s.len() >= from.len() {
        assert(!occurs_at(s, from, 0));
        let rest = s.skip(1);
        assert forall|j: int| !occurs_at(rest, from, j) by {
            if 0 <= j {
                lemma_occurs_in_suffix(s, from, 1, j);
                assert(!occurs_at(s, from, 1 + j));
            }
        }
        lemma_replace_without_occurrence(rest, from, to);
    }
}

/// Replacing a pattern by itself changes nothing.
pub proof fn lemma_replace_by_itself(s: Seq<char>, pat: Seq<char>)
    ensures
        replace_all(s, pat, pat) == s,
    decreases s.len(),
{
    if pat.len() == 0 {
        if s.len() > 0 {
            lemma_replace_by_itself(s.skip(1), pat);
        }
    } else if s.len() >= pat.len() {
        if s.take(pat.len() as int) == pat {
            lemma_replace_by_itself(s.skip(pat.len() as int), pat);
        } else {
            lemma_replace_by_itself(s.skip(1), pat);
        }
    }
}

/// Up to the first occurrence of a non-empty pattern the text is kept; the
/// occurrence becomes `to`, and replacement goes on behind it.
pub proof fn lemma_replace_first_occurrence(
    s: Seq<char>,
    from: Seq<char>,
    to: Seq<char>,
    j: int,
)
    requires
        from.len() > 0,
        occurs_at(s, from, j),
        forall|k: int| 0 <= k < j ==> !occurs_at(s, from, k),
    ensures
        replace_all(s, from, to) == s.take(j) + to + replace_all(
            s.skip(j + from.len()),
            from,
            to,
        ),
    decreases j,
{
    if j > 0 {
        assert(!occurs_at(s, from, 0));
        let rest = s.skip(1);
        assert forall|k: int| 0 <= k < j - 1 implies !occurs_at(rest, from, k) by {
            lemma_occurs_in_suffix(s, from, 1, k);
        }
        lemma_occurs_in_suffix(s, from, 1, j - 1);
        lemma_replace_first_occurrence(rest, from, to, j - 1);
        assert(rest.skip(j - 1 + from.len()) =~= s.skip(j + from.len()));
        assert(s.take(1) + (rest.take(j - 1) + to + replace_all(
            s.skip(j + from.len()),
            from,
            to,
        )) =~= s.take(j) + to + replace_all(s.skip(j + from.len()), from, to));
    }
}

/// The characters of a string, in order.
pub fn to_chars(s: &str) -> (chars: Vec<char>)
    ensures
        chars@ == s@,
{
    let mut chars: Vec<char> = Vec::new();
    for c in it: s.chars()
        invariant
            it.seq() == s@,
            chars@ == it.seq().take(it.index()),
    {
        chars.push(c);
    }
    chars
}

/// Whether `needle` stands in `hay` at index `i`.
pub fn matches_at(hay: &Vec<char>, needle: &Vec<char>, i: usize) -> (found: bool)
    ensures
        found == occurs_at(hay@, needle@, i as int),
{
    if needle.len() > hay.len() || i > hay.len() - needle.len() {
        return false;
    }
    let mut k: usize = 0;
    while k < needle.len()
        invariant
            i + needle.len() <= hay.len(),
            k <= needle.len(),
            forall|j: int| 0 <= j < k ==> hay@[i + j] == needle@[j],
        decreases needle.len() - k,
    {
        if hay[i + k] != needle[k] {
            return false;
        }
        k += 1;
    }
    assert(hay@.subrange(i as int, i + needle@.len()) =~= needle@);
    true
}

/// The least index at or after `start` at which `needle` stands in `hay`.
pub fn find_from(hay: &Vec<char>, needle: &Vec<char>, start: usize) -> (found: Option<usize>)
    ensures
        match found {
            Some(i) => {
                &&& start <= i
                &&& occurs_at(hay@, needle@, i as int)
                &&& forall|j: int| start <= j < i ==> !occurs_at(hay@, needle@, j)
            },
            None => forall|j: int| start <= j ==> !occurs_at(hay@, needle@, j),
        },
{
    if needle.len() > hay.len() || start > hay.len() - needle.len() {
        return None;
    }
    let last: usize = hay.len() - needle.len();
    let mut i: usize = start;
    while i < last
        invariant
            start <= i <= last,
            last == hay.len() - needle.len(),
            forall|j: int| start <= j < i ==> !occurs_at(hay@, needle@, j),
        decreases last - i,
    {
        if matches_at(hay, needle, i) {
            return Some(i);
        }
        i += 1;
    }
    if matches_at(hay, needle, last) {
        Some(last)
    } else {
        None
    }
}

/// Whether `needle` is a contiguous part of `hay`.
pub fn contains_str(hay: &str, needle: &str) -> (found: bool)
    ensures
        found == contains(hay@, needle@),
{
    let hay_chars = to_chars(hay);
    let needle_chars = to_chars(needle);
    find_from(&hay_chars, &needle_chars, 0).is_some()
}

/// `s` with every occurrence of `from` replaced by `to`.
pub fn replace_str(s: &str, from: &str, to: &str) -> (out: String)
    ensures
        out@ == replace_all(s@, from@, to@),
{
    let text = to_chars(s);
    let pat = to_chars(from);
    let n: usize = text.len();
    let m: usize = pat.len();
    let mut out = String::new();
    let mut i: usize = 0;
    proof {
        assert(s@.skip(0) =~= s@);
    }
    if m == 0 {
        while i < n
            invariant
                i <= n,
                n == s@.len(),
                from@.len() == 0,
                out@ + replace_all(s@.skip(i as int), from@, to@) == replace_all(s@, from@, to@),
            decreases n - i,
        {
            out.append(to);
            out.append(s.substring_char(i, i + 1));
            proof {
                let rest = s@.skip(i as int);
                assert(rest.skip(1) =~= s@.skip(i + 1));
                assert(out@ + replace_all(s@.skip(i + 1), from@, to@) =~= replace_all(
                    s@,
                    from@,
                    to@,
                ));
            }
            i += 1;
        }
        out.append(to);
        return out;
    }
    loop
        invariant
            i <= n,
            n == s@.len(),
            m == from@.len(),
            m > 0,
            text@ == s@,
            pat@ == from@,
            out@ + replace_all(s@.skip(i as int), from@, to@) == replace_all(s@, from@, to@),
        decreases n - i,
    {
        let ghost rest = s@.skip(i as int);
        match find_from(&text, &pat, i) {
            None => {
                out.append(s.substring_char(i, n));
                proof {
                    assert forall|k: int| !occurs_at(rest, from@, k) by {
                        if 0 <= k {
                            lemma_occurs_in_suffix(s@, from@, i as int, k);
                        }
                    }
                    lemma_replace_without_occurrence(rest, from@, to@);
                }
                return out;
            },
            Some(j) => {
                out.append(s.substring_char(i, j));
                out.append(to);
                proof {
                    assert forall|k: int| 0 <= k < j - i implies !occurs_at(rest, from@, k) by {
                        lemma_occurs_in_suffix(s@, from@, i as int, k);
                    }
                    lemma_occurs_in_suffix(s@, from@, i as int, j - i);
                    lemma_replace_first_occurrence(rest, from@, to@, j - i);
                    assert(rest.skip(j - i + m) =~= s@.skip(j + m));
                    assert(out@ + replace_all(s@.skip(j + m), from@, to@) =~= replace_all(
                        s@,
                        from@,
                        to@,
                    ));
                }
                i = j + m;
            },
        }
    }
}

} // verus!
