//! Sentence pairs from the corpus and the cloze prompts cut from them.
//!
//! A sentence carries its English text and ordered groups of translations;
//! the engine selects a text, segments it into units, excises one unit at a
//! random index, and hands back a three-part prompt whose gap token, stripped
//! of punctuation, is the answer key.

use vstd::prelude::*;
use crate::segment::{concat_units, lemma_concat_add, lemma_concat_push, lemma_concat_singleton,
    script_for, segment, spec_is_non_spaced, split_chars, split_spaced, Script};
use crate::text::{remove_punctuation, strip_view, trim_view};

verus! {

/// A translation of a sentence; `id` is its corpus identifier.
#[derive(Clone)]
pub struct Translation {
    pub id: i32,
    pub text: String,
}

/// A sentence pair: the corpus identifier, the English reference text, and
/// the ordered groups of translations.  The corpus guarantees that one of the
/// first two groups is non-empty, but the engine does not assume it.
#[derive(Clone)]
pub struct Sentence {
    pub id: i32,
    pub text: String,
    pub translations: Vec<Vec<Translation>>,
}

/// The entire corpus response: the sentences found.
pub struct Json {
    pub results: Vec<Sentence>,
}

/// A cloze prompt: the text before the gap, the answer key cut from the gap,
/// and the text after the gap.
#[derive(Clone)]
pub struct Prompt {
    pub first_half: String,
    pub word: String,
    pub second_half: String,
}

impl Prompt {
    /// The gap marker shown in place of the excised word: one underscore per
    /// character of the answer key.
    pub fn underscores(&self) -> (u: String)
        ensures
            u@ == Seq::new(self.word@.len(), |k: int| '_'),
    {
        let n = self.word.as_str().unicode_len();
        let mut u = String::new();
        let mut i: usize = 0;
        while i < n
            invariant
                i <= n,
                u@ == Seq::new(i as nat, |k: int| '_'),
            decreases n - i,
        {
            u.push('_');
            proof {
                assert(u@ =~= Seq::new((i + 1) as nat, |k: int| '_'));
            }
            i = i + 1;
        }
        u
    }
}

impl Sentence {
    /// The first translation group exists and is non-empty.
    pub open spec fn first_group_nonempty(&self) -> bool {
        self.translations@.len() > 0 && self.translations@[0]@.len() > 0
    }

    /// The second translation group exists and is non-empty.
    pub open spec fn second_group_nonempty(&self) -> bool {
        self.translations@.len() > 1 && self.translations@[1]@.len() > 0
    }

    /// The translation the engine works with: the head of the first
    /// non-empty group among the first two, if any.
    pub open spec fn spec_translation(&self) -> Option<Translation> {
        if self.first_group_nonempty() {
            Some(self.translations@[0]@[0])
        } else if self.second_group_nonempty() {
            Some(self.translations@[1]@[0])
        } else {
            None
        }
    }

    /// One of the first two translation groups is non-empty.
    pub open spec fn has_translation(&self) -> bool {
        self.spec_translation() is Some
    }

    /// The sentence's translation: the head of the first group, or of the
    /// second when the first is empty.  Absence of both is reported, not a
    /// crash.
    pub fn get_translation(&self) -> (t: Option<&Translation>)
        ensures
            match t {
                Some(tr) => self.spec_translation() == Some(*tr),
                None => !self.has_translation(),
            },
    {
        if self.translations.len() > 0 && self.translations[0].len() > 0 {
            Some(&self.translations[0][0])
        } else if self.translations.len() > 1 && self.translations[1].len() > 0 {
            Some(&self.translations[1][0])
        } else {
            None
        }
    }

    /// The text the prompt is cut from: the English text in the inverse
    /// direction, the target-language translation otherwise.
    pub open spec fn spec_selected_text(&self, inverse: bool) -> Seq<char> {
        if inverse {
            self.text@
        } else {
            match self.spec_translation() {
                Some(tr) => tr.text@,
                None => Seq::empty(),
            }
        }
    }

    /// Whether the selected text is segmented one unit per character: only in
    /// the forward direction, and only for a non-spaced language; English is
    /// always space-delimited.
    pub open spec fn spec_unit_per_char(language: Seq<char>, inverse: bool) -> bool {
        !inverse && spec_is_non_spaced(language)
    }

    /// The unit sequence the selected text segments into.
    pub open spec fn spec_units(&self, language: Seq<char>, inverse: bool) -> Seq<Seq<char>> {
        if Sentence::spec_unit_per_char(language, inverse) {
            split_chars(trim_view(self.spec_selected_text(inverse)))
        } else {
            split_spaced(trim_view(self.spec_selected_text(inverse)))
        }
    }

    /// Splits the selected text into units: one per character for non-spaced
    /// languages, space-delimited (units keeping their trailing space)
    /// otherwise.
    pub fn as_words(&self, language: &str, inverse: bool) -> (units: Vec<String>)
        requires
            inverse || self.has_translation(),
        ensures
            units.deep_view() == self.spec_units(language@, inverse),
            concat_units(units.deep_view()) == trim_view(self.spec_selected_text(inverse)),
    {
        let text: &str = if inverse {
            self.text.as_str()
        } else {
            self.get_translation().unwrap().text.as_str()
        };
        let script = if inverse {
            Script::SpaceDelimited
        } else {
            script_for(language)
        };
        segment(text, script)
    }

    /// Cuts a prompt from this sentence around a random unit of the selected
    /// text.  Every outcome excises one unit at some valid index.
    pub fn generate_prompt(&self, language: &str, inverse: bool) -> (p: Prompt)
        requires
            inverse || self.has_translation(),
            trim_view(self.spec_selected_text(inverse)).len() > 0,
        ensures
            exists|i: int| is_prompt_for(p, self.spec_units(language@, inverse), i),
    {
        let units = self.as_words(language, inverse);
        proof {
            if units@.len() == 0 {
                assert(units.deep_view() =~~= Seq::<Seq<char>>::empty());
                assert(concat_units(units.deep_view()) =~= Seq::<char>::empty());
            }
        }
        let index = random_below(units.len());
        let p = prompt_at(&units, index);
        proof {
            assert(is_prompt_for(p, self.spec_units(language@, inverse), index as int));
        }
        p
    }
}

/// Relies on rand::random_range: a draw from the half-open range of indices
/// below `n`; the range is non-empty by the precondition.
#[verifier::external_body]
fn random_below(n: usize) -> (r: usize)
    requires
        n > 0,
    ensures
        r < n,
{
    rand::random_range(0..n)
}

/// `p` is the prompt that excises unit `i`: the first half concatenates the
/// units before `i`, the gap word is unit `i` stripped of punctuation and
/// spaces, and the second half concatenates the units after `i`.
pub open spec fn is_prompt_for(p: Prompt, units: Seq<Seq<char>>, i: int) -> bool {
    &&& 0 <= i < units.len()
    &&& p.first_half@ == concat_units(units.take(i))
    &&& p.word@ == strip_view(units[i])
    &&& p.second_half@ == concat_units(units.skip(i + 1))
}

/// Builds the prompt that excises the unit at `index`.
pub fn prompt_at(units: &Vec<String>, index: usize) -> (p: Prompt)
    requires
        index < units@.len(),
    ensures
        is_prompt_for(p, units.deep_view(), index as int),
{
    let ghost dv = units.deep_view();
    let n_units = units.len();
    let mut first = String::new();
    let mut i: usize = 0;
    proof {
        assert(concat_units(dv.take(0)) =~= Seq::<char>::empty());
    }
    while i < index
        invariant
            dv == units.deep_view(),
            i <= index < units@.len(),
            dv.len() == units@.len(),
            first@ == concat_units(dv.take(i as int)),
        decreases index - i,
    {
        first.append(units[i].as_str());
        proof {
            assert(dv[i as int] == units@[i as int]@);
            lemma_concat_push(dv.take(i as int), dv[i as int]);
            assert(dv.take(i as int).push(dv[i as int]) =~= dv.take(i + 1));
        }
        i = i + 1;
    }
    let word = remove_punctuation(&units[index]);
    proof {
        assert(dv[index as int] == units@[index as int]@);
    }
    let mut second = String::new();
    let mut j: usize = index + 1;
    proof {
        assert(concat_units(dv.subrange(index + 1, index + 1)) =~= Seq::<char>::empty());
    }
    while j < n_units
        invariant
            n_units == units@.len(),
            dv == units.deep_view(),
            index < j <= units@.len(),
            dv.len() == units@.len(),
            second@ == concat_units(dv.subrange(index + 1, j as int)),
        decreases units@.len() - j,
    {
        second.append(units[j].as_str());
        proof {
            assert(dv[j as int] == units@[j as int]@);
            lemma_concat_push(dv.subrange(index + 1, j as int), dv[j as int]);
            assert(dv.subrange(index + 1, j as int).push(dv[j as int]) =~= dv.subrange(
                index + 1,
                j + 1,
            ));
        }
        j = j + 1;
    }
    proof {
        assert(dv.subrange(index + 1, dv.len() as int) =~= dv.skip(index + 1));
    }
    Prompt { first_half: first, word, second_half: second }
}

/// Prompt reconstruction: the first half, the raw excised unit, and the
/// second half concatenate back to the joined text exactly.
pub proof fn lemma_prompt_reconstruction(p: Prompt, units: Seq<Seq<char>>, i: int)
    requires
        is_prompt_for(p, units, i),
    ensures
        p.first_half@ + units[i] + p.second_half@ == concat_units(units),
{
    assert(units =~= units.take(i) + (seq![units[i]] + units.skip(i + 1)));
    lemma_concat_add(units.take(i), seq![units[i]] + units.skip(i + 1));
    lemma_concat_add(seq![units[i]], units.skip(i + 1));
    lemma_concat_singleton(units[i]);
    assert(p.first_half@ + units[i] + p.second_half@ =~= p.first_half@ + (units[i]
        + p.second_half@));
}

} // verus!
