//! Tiered grading of a learner's guess against the answer key.
//!
//! Both sides are normalized the same way — lowercased, trimmed, punctuation
//! stripped — and classified by their Levenshtein distance.

use vstd::prelude::*;
use crate::distance::{edit_distance, lemma_edit_distance_self, lemma_edit_distance_zero,
    levenshtein_str};
use crate::text::{remove_punctuation, strip_view, trim_str, trim_view};

verus! {

/// Guesses strictly closer than this edit distance count as close.
pub const DISTANCE_FOR_CLOSE: usize = 3;

/// The grading tiers for one guess.
#[derive(Clone, Copy, PartialEq, Eq, Structural, Debug)]
pub enum Grade {
    Correct,
    Close,
    Wrong,
}

/// What str::to_lowercase returns; it depends on the characters alone.
pub uninterp spec fn lower_of(s: Seq<char>) -> Seq<char>;

/// Relies on str::to_lowercase: the Unicode lowercase mapping of the string,
/// a function of its characters alone; an empty string stays empty.
#[verifier::external_body]
fn lowercase(s: &str) -> (r: String)
    ensures
        r@ == lower_of(s@),
        s@.len() == 0 ==> r@.len() == 0,
{
    s.to_lowercase()
}

/// A guess or key as grading sees it: lowercased, trimmed of surrounding
/// whitespace, punctuation and spaces stripped.
pub open spec fn normalize_view(s: Seq<char>) -> Seq<char> {
    strip_view(trim_view(lower_of(s)))
}

/// The tier for a given edit distance: zero is correct, below the threshold
/// is close, anything else is wrong.
pub open spec fn classify(d: nat) -> Grade {
    if d == 0 {
        Grade::Correct
    } else if d < DISTANCE_FOR_CLOSE as nat {
        Grade::Close
    } else {
        Grade::Wrong
    }
}

/// The grade owed to a raw guess against a raw answer key.
pub open spec fn grade_spec(guess: Seq<char>, key: Seq<char>) -> Grade {
    classify(edit_distance(normalize_view(guess), normalize_view(key)))
}

/// Grades a raw guess against the answer key.  Pure: no side effects, and the
/// result is determined by the two strings.
pub fn grade(guess: &str, key: &str) -> (g: Grade)
    ensures
        g == grade_spec(guess@, key@),
{
    let lg = lowercase(guess);
    let tg = trim_str(lg.as_str());
    let ng = remove_punctuation(&tg);
    let lk = lowercase(key);
    let tk = trim_str(lk.as_str());
    let nk = remove_punctuation(&tk);
    let d = levenshtein_str(ng.as_str(), nk.as_str());
    if d == 0 {
        Grade::Correct
    } else if d < DISTANCE_FOR_CLOSE {
        Grade::Close
    } else {
        Grade::Wrong
    }
}

/// Grading any string against itself is Correct.
pub proof fn lemma_grade_self(x: Seq<char>)
    ensures
        grade_spec(x, x) == Grade::Correct,
{
    lemma_edit_distance_self(normalize_view(x));
}

/// The grade is Correct exactly when the two sides normalize to the same
/// characters.
pub proof fn lemma_grade_correct_iff(guess: Seq<char>, key: Seq<char>)
    ensures
        grade_spec(guess, key) == Grade::Correct <==> normalize_view(guess) == normalize_view(key),
{
    lemma_edit_distance_zero(normalize_view(guess), normalize_view(key));
}

/// The close threshold is strict: a guess at edit distance exactly two from
/// the key grades Close, at exactly three grades Wrong.
pub proof fn lemma_threshold_boundary(guess: Seq<char>, key: Seq<char>)
    ensures
        edit_distance(normalize_view(guess), normalize_view(key)) == 2 ==> grade_spec(guess, key)
            == Grade::Close,
        edit_distance(normalize_view(guess), normalize_view(key)) == 3 ==> grade_spec(guess, key)
            == Grade::Wrong,
{
}

} // verus!
