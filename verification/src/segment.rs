//! Script-aware segmentation of a sentence into addressable units.
//!
//! A unit is either a space-delimited token that keeps its trailing space, or
//! a single character, depending on the language's script.  Keeping the
//! trailing space guarantees that concatenating all units reproduces the
//! trimmed text exactly, which prompt reconstruction relies on.

use vstd::prelude::*;
use crate::text::{trim_str, trim_view};

verus! {

/// How a language's script delimits words: by spaces, or not at all (in which
/// case every character is its own unit).  Resolved once per language.
#[derive(Clone, Copy, PartialEq, Eq, Structural, Debug)]
pub enum Script {
    SpaceDelimited,
    UnitPerCharacter,
}

/// The corpus codes of the languages written without spaces between words.
pub open spec fn spec_is_non_spaced(lang: Seq<char>) -> bool {
    lang == "cmn"@ || lang == "lzh"@ || lang == "hak"@ || lang == "cjy"@ || lang == "nan"@
        || lang == "hsn"@ || lang == "gan"@ || lang == "jpn"@ || lang == "tha"@ || lang == "khm"@
        || lang == "lao"@ || lang == "mya"@
}

/// Character-by-character string equality.
pub fn str_eq_chars(a: &str, b: &str) -> (r: bool)
    ensures
        r == (a@ == b@),
{
    let na = a.unicode_len();
    let nb = b.unicode_len();
    if na != nb {
        return false;
    }
    let mut i: usize = 0;
    while i < na
        invariant
            na == a@.len(),
            na == b@.len(),
            i <= na,
            forall|k: int| 0 <= k < i ==> a@[k] == b@[k],
        decreases na - i,
    {
        if a.get_char(i) != b.get_char(i) {
            return false;
        }
        i = i + 1;
    }
    proof {
        assert(a@ =~= b@);
    }
    true
}

/// Resolves a corpus language code to its script classification.
pub fn script_for(language: &str) -> (s: Script)
    ensures
        (s is UnitPerCharacter) == spec_is_non_spaced(language@),
{
    let non_spaced = str_eq_chars(language, "cmn") || str_eq_chars(language, "lzh")
        || str_eq_chars(language, "hak") || str_eq_chars(language, "cjy")
        || str_eq_chars(language, "nan") || str_eq_chars(language, "hsn")
        || str_eq_chars(language, "gan") || str_eq_chars(language, "jpn")
        || str_eq_chars(language, "tha") || str_eq_chars(language, "khm")
        || str_eq_chars(language, "lao") || str_eq_chars(language, "mya");
    if non_spaced {
        Script::UnitPerCharacter
    } else {
        Script::SpaceDelimited
    }
}

/// The concatenation of a sequence of units, with no separator.
pub open spec fn concat_units(us: Seq<Seq<char>>) -> Seq<char>
    decreases us.len(),
{
    if us.len() == 0 {
        Seq::empty()
    } else {
        us[0] + concat_units(us.drop_first())
    }
}

/// Concatenation distributes over appending unit sequences.
pub proof fn lemma_concat_add(a: Seq<Seq<char>>, b: Seq<Seq<char>>)
    ensures
        concat_units(a + b) == concat_units(a) + concat_units(b),
    decreases a.len(),
{
    if a.len() == 0 {
        assert(a + b =~= b);
        assert(concat_units(a) + concat_units(b) =~= concat_units(b));
    } else {
        lemma_concat_add(a.drop_first(), b);
        assert((a + b).drop_first() =~= a.drop_first() + b);
        assert((a + b)[0] == a[0]);
        assert(a[0] + (concat_units(a.drop_first()) + concat_units(b)) =~= (a[0] + concat_units(
            a.drop_first(),
        )) + concat_units(b));
    }
}

/// Concatenation of a single unit is that unit.
pub proof fn lemma_concat_singleton(x: Seq<char>)
    ensures
        concat_units(seq![x]) == x,
{
    assert(seq![x].len() == 1);
    assert(seq![x][0] == x);
    assert(seq![x].drop_first() =~= Seq::<Seq<char>>::empty());
    assert(concat_units(seq![x]) == x + concat_units(Seq::<Seq<char>>::empty()));
    assert(x + Seq::<char>::empty() =~= x);
}

/// Appending one unit appends its characters to the concatenation.
pub proof fn lemma_concat_push(us: Seq<Seq<char>>, x: Seq<char>)
    ensures
        concat_units(us.push(x)) == concat_units(us) + x,
{
    assert(us.push(x) =~= us + seq![x]);
    lemma_concat_add(us, seq![x]);
    lemma_concat_singleton(x);
}

/// The length of the first space-delimited unit of `s`: everything up to and
/// including the first space, or all of `s` if it has no space.
pub open spec fn unit_len(s: Seq<char>) -> nat
    decreases s.len(),
{
    if s.len() == 0 {
        0
    } else if s[0] == ' ' {
        1
    } else {
        1 + unit_len(s.drop_first())
    }
}

/// A first unit exists in non-empty text and never outruns it.
pub proof fn lemma_unit_len_bounds(s: Seq<char>)
    ensures
        unit_len(s) <= s.len(),
        s.len() > 0 ==> 1 <= unit_len(s),
    decreases s.len(),
{
    if s.len() > 0 && s[0] != ' ' {
        lemma_unit_len_bounds(s.drop_first());
    }
}

/// Splits on the space character, each unit keeping its trailing space.
pub open spec fn split_spaced(s: Seq<char>) -> Seq<Seq<char>>
    decreases s.len(),
    via split_spaced_decreases
{
    if s.len() == 0 {
        Seq::empty()
    } else {
        seq![s.take(unit_len(s) as int)] + split_spaced(s.skip(unit_len(s) as int))
    }
}

#[via_fn]
proof fn split_spaced_decreases(s: Seq<char>) {
    lemma_unit_len_bounds(s);
}

proof fn lemma_unit_len_chars(s: Seq<char>)
    ensures
        forall|k: int| 0 <= k < unit_len(s) - 1 ==> s[k] != ' ',
        unit_len(s) < s.len() ==> s[unit_len(s) - 1] == ' ',
    decreases s.len(),
{
    if s.len() > 0 && s[0] != ' ' {
        lemma_unit_len_chars(s.drop_first());
        lemma_unit_len_bounds(s);
        assert(unit_len(s) == 1 + unit_len(s.drop_first()));
        assert forall|k: int| 0 <= k < unit_len(s) - 1 implies s[k] != ' ' by {
            if k >= 1 {
                assert(s.drop_first()[k - 1] == s[k]);
                assert(s.drop_first()[k - 1] != ' ');
            }
        }
        if unit_len(s) < s.len() {
            assert(s.drop_first()[unit_len(s.drop_first()) - 1] == s[unit_len(s) - 1]);
        }
    }
}

/// The shape of a space-delimited segmentation: every unit is non-empty,
/// every unit but the last ends with a space, and no unit holds a space
/// before its final character.
pub proof fn lemma_split_spaced_shape(s: Seq<char>)
    ensures
        forall|j: int| 0 <= j < split_spaced(s).len() ==> (#[trigger] split_spaced(s)[j]).len()
            > 0,
        forall|j: int|
            0 <= j < split_spaced(s).len() - 1 ==> (#[trigger] split_spaced(s)[j]).last() == ' ',
        forall|j: int, k: int| #![trigger split_spaced(s)[j][k]]
            0 <= j < split_spaced(s).len() && 0 <= k < split_spaced(s)[j].len() - 1
                ==> split_spaced(s)[j][k] != ' ',
    decreases s.len(),
{
    if s.len() > 0 {
        lemma_unit_len_bounds(s);
        lemma_unit_len_chars(s);
        let u = unit_len(s) as int;
        let head = s.take(u);
        let rest = s.skip(u);
        lemma_split_spaced_shape(rest);
        assert(split_spaced(s) == seq![head] + split_spaced(rest));
        assert(split_spaced(s)[0] == head);
        assert forall|j: int| 0 <= j < split_spaced(s).len() implies (#[trigger] split_spaced(
            s,
        )[j]).len() > 0 by {
            if j > 0 {
                assert(split_spaced(s)[j] == split_spaced(rest)[j - 1]);
            }
        }
        assert forall|j: int| 0 <= j < split_spaced(s).len() - 1 implies (#[trigger] split_spaced(
            s,
        )[j]).last() == ' ' by {
            if j == 0 {
                if rest.len() == 0 {
                    assert(split_spaced(rest) =~= Seq::<Seq<char>>::empty());
                }
                assert(u < s.len());
                assert(head.last() == s[u - 1]);
            } else {
                assert(split_spaced(s)[j] == split_spaced(rest)[j - 1]);
            }
        }
        assert forall|j: int, k: int| #![trigger split_spaced(s)[j][k]]
            0 <= j < split_spaced(s).len() && 0 <= k < split_spaced(s)[j].len()
                - 1 implies split_spaced(s)[j][k] != ' ' by {
            if j == 0 {
                assert(head[k] == s[k]);
            } else {
                assert(split_spaced(s)[j] == split_spaced(rest)[j - 1]);
            }
        }
    }
}

/// One unit per character, in original order.
pub open spec fn split_chars(s: Seq<char>) -> Seq<Seq<char>> {
    Seq::new(s.len(), |i: int| seq![s[i]])
}

/// Round trip for space-delimited segmentation: the units concatenate back to
/// the segmented text exactly.
pub proof fn lemma_concat_split_spaced(s: Seq<char>)
    ensures
        concat_units(split_spaced(s)) == s,
    decreases s.len(),
{
    if s.len() == 0 {
        assert(concat_units(split_spaced(s)) =~= s);
    } else {
        lemma_unit_len_bounds(s);
        let u = unit_len(s) as int;
        lemma_concat_split_spaced(s.skip(u));
        lemma_concat_add(seq![s.take(u)], split_spaced(s.skip(u)));
        lemma_concat_singleton(s.take(u));
        assert(s.take(u) + s.skip(u) =~= s);
    }
}

/// Round trip for unit-per-character segmentation.
pub proof fn lemma_concat_split_chars(s: Seq<char>)
    ensures
        concat_units(split_chars(s)) == s,
    decreases s.len(),
{
    if s.len() == 0 {
        assert(concat_units(split_chars(s)) =~= s);
    } else {
        lemma_concat_split_chars(s.drop_first());
        assert(split_chars(s).drop_first() =~~= split_chars(s.drop_first()));
        assert(split_chars(s)[0] =~= seq![s[0]]);
        assert(seq![s[0]] + s.drop_first() =~= s);
    }
}

spec fn space_free(w: Seq<char>) -> bool {
    forall|k: int| 0 <= k < w.len() ==> w[k] != ' '
}

proof fn lemma_unit_len_space_free(w: Seq<char>)
    requires
        space_free(w),
    ensures
        unit_len(w) == w.len(),
    decreases w.len(),
{
    if w.len() > 0 {
        lemma_unit_len_space_free(w.drop_first());
    }
}

proof fn lemma_unit_len_prefix(w: Seq<char>, rest: Seq<char>)
    requires
        space_free(w),
        rest.len() > 0,
        rest[0] == ' ',
    ensures
        unit_len(w + rest) == w.len() + 1,
    decreases w.len(),
{
    if w.len() == 0 {
        assert(w + rest =~= rest);
    } else {
        assert((w + rest)[0] == w[0]);
        assert((w + rest).drop_first() =~= w.drop_first() + rest);
        lemma_unit_len_prefix(w.drop_first(), rest);
    }
}

/// A non-empty unit without spaces forms a single-unit segmentation.
proof fn lemma_split_space_free(w: Seq<char>)
    requires
        space_free(w),
        w.len() > 0,
    ensures
        split_spaced(w) == seq![w],
{
    lemma_unit_len_space_free(w);
    assert(w.take(w.len() as int) =~= w);
    assert(w.skip(w.len() as int) =~= Seq::<char>::empty());
    assert(seq![w] + split_spaced(Seq::<char>::empty()) =~= seq![w]);
}

/// Closing a unit at a space peels one unit off the segmentation.
proof fn lemma_split_step(w: Seq<char>, rest: Seq<char>)
    requires
        space_free(w),
        rest.len() > 0,
        rest[0] == ' ',
    ensures
        split_spaced(w + rest) == seq![w.push(' ')] + split_spaced(rest.drop_first()),
{
    lemma_unit_len_prefix(w, rest);
    let s = w + rest;
    assert(s.len() > 0);
    assert(s.take(w.len() as int + 1) =~= w.push(' '));
    assert(s.skip(w.len() as int + 1) =~= rest.drop_first());
}

/// Splits a sentence's text into an ordered sequence of units.  The text is
/// trimmed first; the units concatenate back to the trimmed text exactly.
pub fn segment(text: &str, script: Script) -> (units: Vec<String>)
    ensures
        script is SpaceDelimited ==> units.deep_view() == split_spaced(trim_view(text@)),
        script is UnitPerCharacter ==> units.deep_view() == split_chars(trim_view(text@)),
        concat_units(units.deep_view()) == trim_view(text@),
{
    let t = trim_str(text);
    let ts = t.as_str();
    let n = ts.unicode_len();
    let mut units: Vec<String> = Vec::new();
    match script {
        Script::UnitPerCharacter => {
            let mut j: usize = 0;
            while j < n
                invariant
                    n == t@.len(),
                    ts@ == t@,
                    j <= n,
                    units@.len() == j,
                    forall|i: int| 0 <= i < j ==> (#[trigger] units@[i])@ == seq![t@[i]],
                decreases n - j,
            {
                let c = ts.get_char(j);
                let mut u = String::new();
                u.push(c);
                proof {
                    assert(u@ =~= seq![c]);
                }
                let ghost prevv = units@;
                units.push(u);
                proof {
                    assert forall|i: int| 0 <= i < j + 1 implies (#[trigger] units@[i])@ == seq![
                        t@[i],
                    ] by {
                        assert(units@[i] == prevv.push(u)[i]);
                        if i < j {
                            assert(prevv.push(u)[i] == prevv[i]);
                        } else {
                            assert(prevv.push(u)[i] == u);
                        }
                    }
                }
                j = j + 1;
            }
            proof {
                assert forall|i: int| 0 <= i < units@.len() implies units.deep_view()[i]
                    == split_chars(t@)[i] by {
                    assert(units.deep_view()[i] == units@[i].deep_view());
                }
                assert(units.deep_view().len() == units@.len());
                assert(units.deep_view() =~~= split_chars(t@));
                lemma_concat_split_chars(t@);
            }
            units
        },
        Script::SpaceDelimited => {
            let mut cur = String::new();
            let mut j: usize = 0;
            proof {
                assert(units.deep_view() =~~= Seq::<Seq<char>>::empty());
                assert(cur@ + t@.skip(0) =~= t@);
                assert(Seq::<Seq<char>>::empty() + split_spaced(t@) =~= split_spaced(t@));
            }
            while j < n
                invariant
                    n == t@.len(),
                    ts@ == t@,
                    j <= n,
                    space_free(cur@),
                    split_spaced(t@) == units.deep_view() + split_spaced(cur@ + t@.skip(j as int)),
                decreases n - j,
            {
                let ghost w = cur@;
                let ghost rest = t@.skip(j as int);
                let c = ts.get_char(j);
                proof {
                    assert(rest[0] == c);
                }
                cur.push(c);
                if c == ' ' {
                    proof {
                        lemma_split_step(w, rest);
                        assert(units.deep_view().push(w.push(' ')) + split_spaced(
                            rest.drop_first(),
                        ) =~~= units.deep_view() + (seq![w.push(' ')] + split_spaced(
                            rest.drop_first(),
                        )));
                    }
                    units.push(cur);
                    cur = String::new();
                    proof {
                        assert(units.deep_view() =~~= units.deep_view().drop_last().push(
                            w.push(' '),
                        ));
                        assert(rest.drop_first() =~= t@.skip(j + 1));
                        assert(cur@ + t@.skip(j + 1) =~= t@.skip(j + 1));
                    }
                } else {
                    proof {
                        assert(cur@ + t@.skip(j + 1) =~= w + rest);
                    }
                }
                j = j + 1;
            }
            proof {
                assert(t@.skip(n as int) =~= Seq::<char>::empty());
                assert(cur@ + Seq::<char>::empty() =~= cur@);
            }
            if !cur.as_str().is_empty() {
                proof {
                    lemma_split_space_free(cur@);
                }
                units.push(cur);
                proof {
                    assert(units.deep_view() =~~= units.deep_view().drop_last() + seq![
                        units.deep_view().last(),
                    ]);
                }
            } else {
                proof {
                    assert(split_spaced(cur@) =~= Seq::<Seq<char>>::empty());
                    assert(units.deep_view() + Seq::<Seq<char>>::empty() =~= units.deep_view());
                }
            }
            proof {
                lemma_concat_split_spaced(t@);
            }
            units
        },
    }
}

} // verus!
