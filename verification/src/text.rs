//! Character-level text primitives: the punctuation set that is stripped from
//! answer keys, and whitespace trimming.

use vstd::prelude::*;

verus! {

/// Relies on String::push: appends exactly one character at the end.
pub assume_specification[ String::push ](s: &mut String, c: char)
    ensures
        final(s)@ == old(s)@.push(c),
;

/// The punctuation marks removed when a unit is turned into an answer key:
/// ASCII and common non-English marks, the full-width period, and the space
/// (a unit may carry its trailing space or span several characters).
pub open spec fn is_stripped_char(c: char) -> bool {
    c == '(' || c == ')' || c == ',' || c == '.' || c == ';' || c == ':' || c == '?' || c == '\u{bf}'
        || c == '!' || c == '\u{a1}' || c == '"' || c == '\u{ab}' || c == '\u{bb}' || c == '\u{3002}'
        || c == ' '
}

/// Executable test for membership in the stripped-punctuation set.
pub fn is_stripped(c: char) -> (r: bool)
    ensures
        r == is_stripped_char(c),
{
    c == '(' || c == ')' || c == ',' || c == '.' || c == ';' || c == ':' || c == '?' || c == '\u{bf}'
        || c == '!' || c == '\u{a1}' || c == '"' || c == '\u{ab}' || c == '\u{bb}' || c == '\u{3002}'
        || c == ' '
}

/// The view of a string after punctuation (and internal spaces) are removed.
pub open spec fn strip_view(s: Seq<char>) -> Seq<char> {
    s.filter(|c: char| !is_stripped_char(c))
}

/// Removes the fixed punctuation set, and spaces, from a word, producing the
/// answer key that grading compares against.
pub fn remove_punctuation(word: &String) -> (r: String)
    ensures
        r@ == strip_view(word@),
{
    let w = word.as_str();
    let n = w.unicode_len();
    let mut r = String::new();
    let mut i: usize = 0;
    while i < n
        invariant
            n == w@.len(),
            i <= n,
            w@ == word@,
            r@ == strip_view(w@.take(i as int)),
        decreases n - i,
    {
        let c = w.get_char(i);
        proof {
            reveal(Seq::filter);
            assert(w@.take(i + 1).drop_last() =~= w@.take(i as int));
            assert(w@.take(i + 1).last() == c);
        }
        if !is_stripped(c) {
            r.push(c);
        }
        i = i + 1;
    }
    proof {
        assert(w@.take(n as int) =~= w@);
    }
    r
}

/// The characters with the Unicode `White_Space` property, which trimming
/// removes from both ends of a sentence.
pub open spec fn is_whitespace_char(c: char) -> bool {
    (9 <= c as u32 && c as u32 <= 13) || c as u32 == 0x20 || c as u32 == 0x85 || c as u32 == 0xa0
        || c as u32 == 0x1680 || (0x2000 <= c as u32 && c as u32 <= 0x200a) || c as u32 == 0x2028
        || c as u32 == 0x2029 || c as u32 == 0x202f || c as u32 == 0x205f || c as u32 == 0x3000
}

/// Executable test for the Unicode `White_Space` property.
pub fn is_whitespace(c: char) -> (r: bool)
    ensures
        r == is_whitespace_char(c),
{
    let u = c as u32;
    (9 <= u && u <= 13) || u == 0x20 || u == 0x85 || u == 0xa0 || u == 0x1680
        || (0x2000 <= u && u <= 0x200a) || u == 0x2028 || u == 0x2029 || u == 0x202f || u == 0x205f
        || u == 0x3000
}

/// The view of a string with leading whitespace removed.
pub open spec fn trim_start_view(s: Seq<char>) -> Seq<char>
    decreases s.len(),
{
    if s.len() > 0 && is_whitespace_char(s[0]) {
        trim_start_view(s.drop_first())
    } else {
        s
    }
}

/// The view of a string with trailing whitespace removed.
pub open spec fn trim_end_view(s: Seq<char>) -> Seq<char>
    decreases s.len(),
{
    if s.len() > 0 && is_whitespace_char(s.last()) {
        trim_end_view(s.drop_last())
    } else {
        s
    }
}

/// The view of a string with whitespace removed from both ends.
pub open spec fn trim_view(s: Seq<char>) -> Seq<char> {
    trim_end_view(trim_start_view(s))
}

proof fn lemma_trim_start_skip(s: Seq<char>, a: int)
    requires
        0 <= a <= s.len(),
        forall|k: int| 0 <= k < a ==> is_whitespace_char(s[k]),
        a == s.len() || !is_whitespace_char(s[a]),
    ensures
        trim_start_view(s) == s.skip(a),
    decreases a,
{
    if a == 0 {
        assert(s.skip(0) =~= s);
    } else {
        lemma_trim_start_skip(s.drop_first(), a - 1);
        assert(s.drop_first().skip(a - 1) =~= s.skip(a));
    }
}

proof fn lemma_trim_end_take(s: Seq<char>, b: int)
    requires
        0 <= b <= s.len(),
        forall|k: int| b <= k < s.len() ==> is_whitespace_char(s[k]),
        b == 0 || !is_whitespace_char(s[b - 1]),
    ensures
        trim_end_view(s) == s.take(b),
    decreases s.len() - b,
{
    if b == s.len() {
        assert(s.take(b) =~= s);
    } else {
        lemma_trim_end_take(s.drop_last(), b);
        assert(s.drop_last().take(b) =~= s.take(b));
    }
}

/// Removes leading and trailing whitespace, as the engine does to a sentence's
/// raw text before segmenting it.
pub fn trim_str(s: &str) -> (r: String)
    ensures
        r@ == trim_view(s@),
{
    let n = s.unicode_len();
    let mut a: usize = 0;
    while a < n && is_whitespace(s.get_char(a))
        invariant
            n == s@.len(),
            a <= n,
            forall|k: int| 0 <= k < a ==> is_whitespace_char(s@[k]),
        decreases n - a,
    {
        a = a + 1;
    }
    proof {
        lemma_trim_start_skip(s@, a as int);
    }
    if a == n {
        proof {
            assert(s@.skip(a as int) =~= Seq::<char>::empty());
        }
        return String::new();
    }
    let mut b: usize = n;
    while b > a && is_whitespace(s.get_char(b - 1))
        invariant
            n == s@.len(),
            a <= b <= n,
            a < n,
            !is_whitespace_char(s@[a as int]),
            forall|k: int| b <= k < n ==> is_whitespace_char(s@[k]),
        decreases b,
    {
        b = b - 1;
    }
    proof {
        let t = s@.skip(a as int);
        assert(forall|k: int|
            b - a <= k < t.len() ==> is_whitespace_char(#[trigger] t[k]) == is_whitespace_char(
                s@[k + a],
            ));
        assert(!is_whitespace_char(t[b - a - 1]));
        lemma_trim_end_take(t, b - a);
    }
    let mut r = String::new();
    let mut i: usize = a;
    while i < b
        invariant
            n == s@.len(),
            a <= i <= b <= n,
            r@ == s@.subrange(a as int, i as int),
        decreases b - i,
    {
        let c = s.get_char(i);
        r.push(c);
        proof {
            assert(s@.subrange(a as int, i as int).push(c) =~= s@.subrange(a as int, i + 1));
        }
        i = i + 1;
    }
    proof {
        assert(s@.subrange(a as int, b as int) =~= s@.skip(a as int).take(b - a));
    }
    r
}

/// Stripping punctuation is idempotent: a second pass removes nothing.
pub proof fn lemma_strip_idempotent(s: Seq<char>)
    ensures
        strip_view(strip_view(s)) == strip_view(s),
    decreases s.len(),
{
    reveal(Seq::filter);
    let p = |c: char| !is_stripped_char(c);
    if s.len() == 0 {
        assert(s.filter(p) =~= s);
    } else {
        lemma_strip_idempotent(s.drop_last());
        if p(s.last()) {
            assert(s.filter(p) == s.drop_last().filter(p).push(s.last()));
            assert(s.filter(p).drop_last() =~= s.drop_last().filter(p));
            assert(s.filter(p).last() == s.last());
        } else {
            assert(s.filter(p) == s.drop_last().filter(p));
        }
    }
}

} // verus!
