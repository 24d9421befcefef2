use minicloze::batch::{generate_sentences, needs_supplemental, FetchError, BATCH_TARGET};
use minicloze::sentence::{prompt_at, Sentence, Translation};

fn sentence(id: i32, english: &str, translated: &str) -> Sentence {
    Sentence {
        id,
        text: String::from(english),
        translations: vec![vec![Translation { id: id + 1000, text: String::from(translated) }]],
    }
}

fn batch_of(n: i32) -> Vec<Sentence> {
    (0..n).map(|i| sentence(i, "hello", "hola")).collect()
}

#[test]
fn supplemental_needed_only_below_target() {
    assert_eq!(BATCH_TARGET, 10);
    assert!(needs_supplemental(0));
    assert!(needs_supplemental(7));
    assert!(needs_supplemental(9));
    assert!(!needs_supplemental(10));
    assert!(!needs_supplemental(11));
}

#[test]
fn short_primary_topped_up_from_supplemental() {
    // Primary returns 7 of the requested 10, the supplemental fetch returns 5:
    // the batch has exactly 10, the last 3 from the supplemental in order.
    let primary: Vec<Sentence> = (0..7).map(|i| sentence(i, "p", "p")).collect();
    let supplemental: Vec<Sentence> = (100..105).map(|i| sentence(i, "s", "s")).collect();
    let batch = generate_sentences(Ok(primary), Some(Ok(supplemental))).unwrap();
    assert_eq!(batch.len(), 10);
    let ids: Vec<i32> = batch.iter().map(|s| s.id).collect();
    assert_eq!(ids, vec![0, 1, 2, 3, 4, 5, 6, 100, 101, 102]);
}

#[test]
fn full_primary_passes_through() {
    let batch = generate_sentences(Ok(batch_of(10)), None).unwrap();
    assert_eq!(batch.len(), 10);
}

#[test]
fn full_primary_ignores_supplemental() {
    let batch = generate_sentences(Ok(batch_of(10)), Some(Ok(batch_of(5)))).unwrap();
    assert_eq!(batch.len(), 10);
    let over = generate_sentences(Ok(batch_of(12)), Some(Ok(batch_of(5)))).unwrap();
    assert_eq!(over.len(), 12);
}

#[test]
fn spanish_sentence_segments_by_spaces() {
    let s = sentence(1, "the cat", "el gato");
    assert_eq!(s.as_words("spa", false), vec!["el ", "gato"]);
}

#[test]
fn short_supplemental_leaves_batch_short() {
    let primary: Vec<Sentence> = (0..4).map(|i| sentence(i, "p", "p")).collect();
    let supplemental: Vec<Sentence> = (100..102).map(|i| sentence(i, "s", "s")).collect();
    let batch = generate_sentences(Ok(primary), Some(Ok(supplemental))).unwrap();
    let ids: Vec<i32> = batch.iter().map(|s| s.id).collect();
    assert_eq!(ids, vec![0, 1, 2, 3, 100, 101]);
}

#[test]
fn primary_failure_is_fatal() {
    let r = generate_sentences(Err(FetchError::Network(String::from("timed out"))), None);
    assert!(matches!(r, Err(FetchError::Network(_))));
    let r = generate_sentences(
        Err(FetchError::Decode(String::from("bad shape"))),
        Some(Ok(batch_of(10))),
    );
    assert!(matches!(r, Err(FetchError::Decode(_))));
}

#[test]
fn supplemental_failure_is_swallowed() {
    let batch = generate_sentences(
        Ok(batch_of(7)),
        Some(Err(FetchError::Network(String::from("timed out")))),
    )
    .unwrap();
    assert_eq!(batch.len(), 7);
}

#[test]
fn translation_fallback_to_second_group() {
    // An empty first translation group falls back to the second.
    let s = Sentence {
        id: 0,
        text: String::from("Hello"),
        translations: vec![vec![], vec![Translation { id: 1, text: String::from("Hola") }]],
    };
    assert_eq!(s.get_translation().unwrap().text, "Hola");
}

#[test]
fn translation_prefers_first_group() {
    let s = Sentence {
        id: 0,
        text: String::from("Hello"),
        translations: vec![
            vec![Translation { id: 1, text: String::from("Hola") }],
            vec![Translation { id: 2, text: String::from("Buenas") }],
        ],
    };
    assert_eq!(s.get_translation().unwrap().text, "Hola");
}

#[test]
fn translation_absent_in_first_two_groups() {
    let s = Sentence { id: 0, text: String::from("Hello"), translations: vec![vec![], vec![]] };
    assert!(s.get_translation().is_none());
    let empty = Sentence { id: 0, text: String::from("Hello"), translations: vec![] };
    assert!(empty.get_translation().is_none());
}

#[test]
fn prompt_excises_chosen_unit() {
    let units = vec![String::from("el "), String::from("gato "), String::from("negro")];
    let p = prompt_at(&units, 1);
    assert_eq!(p.first_half, "el ");
    assert_eq!(p.word, "gato");
    assert_eq!(p.second_half, "negro");
    // Reconstruction: first half + raw unit + second half is the joined text.
    assert_eq!(format!("{}{}{}", p.first_half, "gato ", p.second_half), "el gato negro");
}

#[test]
fn prompt_at_ends() {
    let units = vec![String::from("el "), String::from("gato")];
    let first = prompt_at(&units, 0);
    assert_eq!(first.first_half, "");
    assert_eq!(first.word, "el");
    assert_eq!(first.second_half, "gato");
    let last = prompt_at(&units, 1);
    assert_eq!(last.first_half, "el ");
    assert_eq!(last.word, "gato");
    assert_eq!(last.second_half, "");
}

#[test]
fn prompt_word_is_stripped_answer_key() {
    let units = vec![String::from("gato, ")];
    let p = prompt_at(&units, 0);
    assert_eq!(p.word, "gato");
}

#[test]
fn generated_prompt_is_consistent_with_some_unit() {
    let s = sentence(1, "the black cat", "el gato negro");
    for _ in 0..20 {
        let p = s.generate_prompt("spa", false);
        let joined = format!("{}{}{}", p.first_half, p.word, p.second_half);
        let ok = (p.first_half == "" && p.word == "el" && joined == "elgato negro")
            || (p.first_half == "el " && p.word == "gato" && p.second_half == "negro")
            || (p.first_half == "el gato " && p.word == "negro" && p.second_half == "");
        assert!(ok);
    }
}

#[test]
fn generated_prompt_unit_per_character() {
    let s = Sentence {
        id: 7,
        text: String::from("I am a cat."),
        translations: vec![vec![Translation { id: 8, text: String::from("猫です") }]],
    };
    let p = s.generate_prompt("jpn", false);
    assert_eq!(p.word.chars().count(), 1);
    assert_eq!(format!("{}{}{}", p.first_half, p.word, p.second_half), "猫です");
}

#[test]
fn underscores_match_answer_key_length() {
    let units = vec![String::from("gato ")];
    let p = prompt_at(&units, 0);
    assert_eq!(p.underscores(), "____");
}
