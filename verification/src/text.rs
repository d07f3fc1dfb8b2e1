//! Text primitives the protocol is built from: trimming, splitting into
//! tokens, prefix and case-insensitive comparison, all proved here, over the
//! standard library's notions of whitespace and of upper and lower case,
//! which are called through contracts that name their results.

use vstd::prelude::*;
use vstd::string::{StrSliceExecFns, StringExecFns};

verus! {

/// The upper-cased form of a text, as `str::to_uppercase` computes it.
pub uninterp spec fn uppercase(s: Seq<char>) -> Seq<char>;

/// The lower-cased form of a text, as `str::to_lowercase` computes it.
pub uninterp spec fn lowercase(s: Seq<char>) -> Seq<char>;

/// Whether a character is whitespace, as `char::is_whitespace` tells it.
pub uninterp spec fn is_whitespace(c: char) -> bool;

/// The views of a vector of strings, element by element.
pub open spec fn views(v: Seq<String>) -> Seq<Seq<char>> {
    Seq::new(v.len(), |i: int| v[i]@)
}

/// A text without the whitespace it begins with.
pub open spec fn trimmed_start(s: Seq<char>) -> Seq<char>
    decreases s.len(),
{
    if s.len() > 0 && is_whitespace(s[0]) {
        trimmed_start(s.drop_first())
    } else {
        s
    }
}

/// A text without the whitespace it ends with.
pub open spec fn trimmed_end(s: Seq<char>) -> Seq<char>
    decreases s.len(),
{
    if s.len() > 0 && is_whitespace(s.last()) {
        trimmed_end(s.drop_last())
    } else {
        s
    }
}

/// A text without its leading and trailing whitespace.
pub open spec fn trimmed(s: Seq<char>) -> Seq<char> {
    trimmed_end(trimmed_start(s))
}

/// The maximal runs of non-whitespace characters of a text, in order. A
/// character that is not whitespace goes on the run before it, if the
/// character before it is no whitespace either, and begins a new run if not.
pub open spec fn whitespace_tokens(s: Seq<char>) -> Seq<Seq<char>>
    decreases s.len(),
{
    if s.len() == 0 {
        Seq::empty()
    } else {
        let before = whitespace_tokens(s.drop_last());
        if is_whitespace(s.last()) {
            before
        } else if s.len() >= 2 && !is_whitespace(s[s.len() - 2]) {
            before.drop_last().push(before.last().push(s.last()))
        } else {
            before.push(seq![s.last()])
        }
    }
}

/// Every token is a run of one or more characters, none of them whitespace.
pub proof fn lemma_tokens_hold_no_whitespace(s: Seq<char>)
    ensures
        forall|i: int|
            0 <= i < whitespace_tokens(s).len() ==> (#[trigger] whitespace_tokens(s)[i]).len() > 0,
        forall|i: int, j: int|
            0 <= i < whitespace_tokens(s).len() && 0 <= j < whitespace_tokens(s)[i].len()
                ==> !is_whitespace(#[trigger] whitespace_tokens(s)[i][j]),
        s.len() > 0 && !is_whitespace(s.last()) ==> whitespace_tokens(s).len() > 0,
    decreases s.len(),
{
    if s.len() > 0 {
        lemma_tokens_hold_no_whitespace(s.drop_last());
        let before = whitespace_tokens(s.drop_last());
        let tokens = whitespace_tokens(s);
        if !is_whitespace(s.last()) {
            if s.len() >= 2 && !is_whitespace(s[s.len() - 2]) {
                assert(s.drop_last().last() == s[s.len() - 2]);
                let grown = before.last().push(s.last());
                assert(tokens == before.drop_last().push(grown));
                assert forall|i: int, j: int|
                    0 <= i < tokens.len() && 0 <= j < tokens[i].len() implies !is_whitespace(
                    #[trigger] tokens[i][j],
                ) by {
                    if i < tokens.len() - 1 {
                        assert(tokens[i] == before[i]);
                    } else if j < grown.len() - 1 {
                        assert(grown[j] == before[before.len() - 1][j]);
                    }
                }
                assert forall|i: int| 0 <= i < tokens.len() implies (#[trigger] tokens[i]).len()
                    > 0 by {
                    if i < tokens.len() - 1 {
                        assert(tokens[i] == before[i]);
                    }
                }
            } else {
                assert(tokens == before.push(seq![s.last()]));
                assert forall|i: int, j: int|
                    0 <= i < tokens.len() && 0 <= j < tokens[i].len() implies !is_whitespace(
                    #[trigger] tokens[i][j],
                ) by {
                    if i < tokens.len() - 1 {
                        assert(tokens[i] == before[i]);
                    }
                }
                assert forall|i: int| 0 <= i < tokens.len() implies (#[trigger] tokens[i]).len()
                    > 0 by {
                    if i < tokens.len() - 1 {
                        assert(tokens[i] == before[i]);
                    }
                }
            }
        }
    }
}

/// What is left of a text once its leading whitespace is gone is its tail
/// from some point on, and does not begin with whitespace.
pub proof fn lemma_trimmed_start(s: Seq<char>)
    ensures
        exists|from: int| 0 <= from <= s.len() && trimmed_start(s) == #[trigger] s.skip(from),
        trimmed_start(s).len() > 0 ==> !is_whitespace(trimmed_start(s)[0]),
    decreases s.len(),
{
    if s.len() > 0 && is_whitespace(s[0]) {
        lemma_trimmed_start(s.drop_first());
        let from = choose|from: int|
            0 <= from <= s.drop_first().len() && trimmed_start(s.drop_first())
                == #[trigger] s.drop_first().skip(from);
        assert(s.drop_first().skip(from) =~= s.skip(from + 1));
    } else {
        assert(s.skip(0) =~= s);
    }
}

/// What is left of a text once its trailing whitespace is gone is its head
/// up to some point, and does not end in whitespace.
pub proof fn lemma_trimmed_end(s: Seq<char>)
    ensures
        exists|to: int| 0 <= to <= s.len() && trimmed_end(s) == #[trigger] s.take(to),
        trimmed_end(s).len() > 0 ==> !is_whitespace(trimmed_end(s).last()),
    decreases s.len(),
{
    if s.len() > 0 && is_whitespace(s.last()) {
        lemma_trimmed_end(s.drop_last());
        let to = choose|to: int|
            0 <= to <= s.drop_last().len() && trimmed_end(s.drop_last())
                == #[trigger] s.drop_last().take(to);
        assert(s.drop_last().take(to) =~= s.take(to));
    } else {
        assert(s.take(s.len() as int) =~= s);
    }
}

/// A trimmed text neither begins nor ends with whitespace.
pub proof fn lemma_trimmed_has_no_outer_whitespace(s: Seq<char>)
    ensures
        trimmed(s).len() > 0 ==> !is_whitespace(trimmed(s)[0]) && !is_whitespace(
            trimmed(s).last(),
        ),
{
    lemma_trimmed_start(s);
    lemma_trimmed_end(trimmed_start(s));
}

/// Calls `str::to_uppercase`. Not proved: the result is only given its name,
/// [`uppercase`] of the argument.
#[verifier::external_body]
pub(crate) fn to_uppercase(s: &str) -> (r: String)
    ensures
        r@ == uppercase(s@),
{
    s.to_uppercase()
}

/// Calls `str::to_lowercase`. Not proved: the result is only given its name,
/// [`lowercase`] of the argument.
#[verifier::external_body]
pub(crate) fn to_lowercase(s: &str) -> (r: String)
    ensures
        r@ == lowercase(s@),
{
    s.to_lowercase()
}

/// Calls `char::is_whitespace`. Not proved: the result is only given its
/// name, [`is_whitespace`] of the argument.
#[verifier::external_body]
pub(crate) fn whitespace(c: char) -> (r: bool)
    ensures
        r == is_whitespace(c),
{
    c.is_whitespace()
}

/// A copy of `s` without its leading and trailing whitespace.
pub fn trim(s: &str) -> (r: String)
    ensures
        r@ == trimmed(s@),
{
    let chars = chars_of(s);
    let n: usize = chars.len();
    let mut from: usize = 0;
    assert(s@.skip(0) =~= s@);
    while from < n && whitespace(chars[from])
        invariant
            from <= n,
            n == s@.len(),
            chars@ == s@,
            trimmed_start(s@) == trimmed_start(s@.skip(from as int)),
        decreases n - from,
    {
        assert(s@.skip(from as int).drop_first() =~= s@.skip(from + 1));
        from += 1;
    }
    assert(trimmed_start(s@) == s@.skip(from as int));
    let mut to: usize = n;
    while to > from && whitespace(chars[to - 1])
        invariant
            from <= to <= n,
            n == s@.len(),
            chars@ == s@,
            trimmed(s@) == trimmed_end(s@.subrange(from as int, to as int)),
        decreases to,
    {
        assert(s@.subrange(from as int, to as int).drop_last() =~= s@.subrange(
            from as int,
            to - 1,
        ));
        to -= 1;
    }
    assert(trimmed(s@) == s@.subrange(from as int, to as int));
    String::from_str(s.substring_char(from, to))
}

/// The maximal runs of non-whitespace characters of `s`, in order.
pub fn split_whitespace(s: &str) -> (tokens: Vec<String>)
    ensures
        views(tokens@) == whitespace_tokens(s@),
{
    let chars = chars_of(s);
    let n: usize = chars.len();
    let mut tokens: Vec<String> = Vec::new();
    let mut start: usize = 0;
    let mut inside: bool = false;
    let mut i: usize = 0;
    assert(views(tokens@) =~= whitespace_tokens(s@.take(0)));
    while i < n
        invariant
            i <= n,
            n == s@.len(),
            chars@ == s@,
            inside == (i > 0 && !is_whitespace(s@[i - 1])),
            inside ==> start < i,
            whitespace_tokens(s@.take(i as int)) == if inside {
                views(tokens@).push(s@.subrange(start as int, i as int))
            } else {
                views(tokens@)
            },
        decreases n - i,
    {
        let ghost before = views(tokens@);
        proof {
            assert(s@.take(i + 1).drop_last() =~= s@.take(i as int));
        }
        if whitespace(chars[i]) {
            if inside {
                tokens.push(String::from_str(s.substring_char(start, i)));
                assert(views(tokens@) =~= before.push(s@.subrange(start as int, i as int)));
                inside = false;
            }
        } else {
            if inside {
                proof {
                    let run = s@.subrange(start as int, i as int);
                    assert(before.push(run).drop_last() =~= before);
                    assert(run.push(s@[i as int]) =~= s@.subrange(start as int, i + 1));
                }
            } else {
                start = i;
                inside = true;
                assert(seq![s@[i as int]] =~= s@.subrange(i as int, i + 1));
            }
        }
        i += 1;
    }
    assert(s@.take(n as int) =~= s@);
    if inside {
        let ghost before = views(tokens@);
        tokens.push(String::from_str(s.substring_char(start, n)));
        assert(views(tokens@) =~= before.push(s@.subrange(start as int, n as int)));
    }
    tokens
}

/// The characters of a text, one by one.
pub fn chars_of(s: &str) -> (chars: Vec<char>)
    ensures
        chars@ == s@,
{
    let mut chars: Vec<char> = Vec::new();
    for c in it: s.chars()
        invariant
            it.seq() == s@,
            chars@ == s@.take(it.index() as int),
    {
        chars.push(c);
        assert(chars@ =~= s@.take(it.index() + 1));
    }
    assert(chars@ =~= s@);
    chars
}

/// Whether `c` is one of the letters `A` to `Z`.
pub open spec fn is_ascii_upper(c: char) -> bool {
    'A' <= c && c <= 'Z'
}

/// Whether `c` is one of the letters `a` to `z`.
pub open spec fn is_ascii_lower(c: char) -> bool {
    'a' <= c && c <= 'z'
}

/// Whether two characters are equal once ASCII letters are folded to one
/// case: equal, or the upper- and lower-case form of one ASCII letter.
pub open spec fn same_ignoring_ascii_case(a: char, b: char) -> bool {
    ||| a == b
    ||| is_ascii_upper(a) && is_ascii_lower(b) && b as int - a as int == 32
    ||| is_ascii_lower(a) && is_ascii_upper(b) && a as int - b as int == 32
}

/// Whether two texts are equal once ASCII letters are folded to one case.
pub open spec fn equal_ignoring_ascii_case(a: Seq<char>, b: Seq<char>) -> bool {
    &&& a.len() == b.len()
    &&& forall|i: int| 0 <= i < a.len() ==> same_ignoring_ascii_case(#[trigger] a[i], b[i])
}

fn chars_match(a: char, b: char) -> (same: bool)
    ensures
        same == same_ignoring_ascii_case(a, b),
{
    if a == b {
        true
    } else if 'A' <= a && a <= 'Z' && 'a' <= b && b <= 'z' {
        b as u32 - a as u32 == 32
    } else if 'a' <= a && a <= 'z' && 'A' <= b && b <= 'Z' {
        a as u32 - b as u32 == 32
    } else {
        false
    }
}

/// Whether two texts are the same.
pub fn same_text(a: &str, b: &str) -> (same: bool)
    ensures
        same == (a@ == b@),
{
    let left = String::from_str(a);
    let right = String::from_str(b);
    left == right
}

/// Whether `s` begins with `prefix`.
pub fn starts_with(s: &str, prefix: &str) -> (found: bool)
    ensures
        found == prefix@.is_prefix_of(s@),
{
    let n: usize = s.unicode_len();
    let m: usize = prefix.unicode_len();
    if n < m {
        return false;
    }
    let mut i: usize = 0;
    while i < m
        invariant
            i <= m <= n,
            n == s@.len(),
            m == prefix@.len(),
            forall|j: int| 0 <= j < i ==> s@[j] == prefix@[j],
        decreases m - i,
    {
        if s.get_char(i) != prefix.get_char(i) {
            assert(s@.subrange(0, m as int)[i as int] != prefix@[i as int]);
            return false;
        }
        i += 1;
    }
    assert(s@.subrange(0, m as int) =~= prefix@);
    true
}

/// Whether `a` and `b` are equal once ASCII letters are folded to one case.
pub fn eq_ignore_ascii_case(a: &str, b: &str) -> (same: bool)
    ensures
        same == equal_ignoring_ascii_case(a@, b@),
{
    let n: usize = a.unicode_len();
    if n != b.unicode_len() {
        return false;
    }
    let mut i: usize = 0;
    while i < n
        invariant
            i <= n,
            n == a@.len(),
            n == b@.len(),
            forall|j: int| 0 <= j < i ==> same_ignoring_ascii_case(#[trigger] a@[j], b@[j]),
        decreases n - i,
    {
        if !chars_match(a.get_char(i), b.get_char(i)) {
            return false;
        }
        i += 1;
    }
    true
}

} // verus!
