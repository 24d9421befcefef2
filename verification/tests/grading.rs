use minicloze::grade::{grade, Grade, DISTANCE_FOR_CLOSE};
use minicloze::score::Score;
use minicloze::text::remove_punctuation;

#[test]
fn identical_guess_is_correct() {
    assert_eq!(grade("casa", "casa"), Grade::Correct);
    assert_eq!(grade("猫", "猫"), Grade::Correct);
    assert_eq!(grade("", ""), Grade::Correct);
}

#[test]
fn normalization_ignores_case_whitespace_and_punctuation() {
    assert_eq!(grade("  Casa!", "casa"), Grade::Correct);
    assert_eq!(grade("casa", "Casa."), Grade::Correct);
    assert_eq!(grade("QUE", "¿qué?"), Grade::Close);
}

#[test]
fn surrounding_whitespace_ignored_on_both_sides() {
    assert_eq!(grade("casa ", " casa"), Grade::Correct);
    assert_eq!(grade("\tcasa\n", "casa"), Grade::Correct);
}

#[test]
fn grading_is_symmetric() {
    let pairs = [("casa", "cassa"), ("abc", "abd"), ("gato", "perro"), ("", "ab")];
    for (a, b) in pairs {
        assert_eq!(grade(a, b), grade(b, a));
    }
}

#[test]
fn distance_one_is_close() {
    assert_eq!(grade("cassa", "casa"), Grade::Close);
}

#[test]
fn distance_two_is_close() {
    // "abc" is at edit distance exactly 2 from "abcde".
    assert_eq!(grade("abc", "abcde"), Grade::Close);
}

#[test]
fn distance_three_is_wrong() {
    // "ab" is at edit distance exactly 3 from "abcde": the threshold is strict.
    assert_eq!(DISTANCE_FOR_CLOSE, 3);
    assert_eq!(grade("ab", "abcde"), Grade::Wrong);
}

#[test]
fn unicode_distance_counts_scalars_not_bytes() {
    // One substituted character, nine bytes apart: still Close.
    assert_eq!(grade("猫は白", "犬は白"), Grade::Close);
    assert_eq!(grade("あいうえお", "かきくけこ"), Grade::Wrong);
}

#[test]
fn empty_guess_against_long_key_is_wrong() {
    assert_eq!(grade("", "palabra"), Grade::Wrong);
    assert_eq!(grade("", "ab"), Grade::Close);
}

#[test]
fn punctuation_stripping_exact_values() {
    assert_eq!(remove_punctuation(&String::from("(hola),")), "hola");
    assert_eq!(remove_punctuation(&String::from("¿Qué?")), "Qué");
    assert_eq!(remove_punctuation(&String::from("です。")), "です");
    assert_eq!(remove_punctuation(&String::from("un gato ")), "ungato");
    assert_eq!(remove_punctuation(&String::from("«cita»; ¡sí!:\"")), "citasí");
}

#[test]
fn punctuation_stripping_is_idempotent() {
    let samples = ["(hola),", "¿Qué?", "です。", "a b c", "", "!!!", "ya"];
    for s in samples {
        let once = remove_punctuation(&String::from(s));
        let twice = remove_punctuation(&once);
        assert_eq!(twice, once);
    }
}

#[test]
fn score_records_only_correct_answers() {
    let mut score = Score::new();
    score.record(Grade::Correct);
    score.record(Grade::Close);
    score.record(Grade::Wrong);
    score.record(Grade::Correct);
    assert_eq!(score.batch_correct, 2);
    assert_eq!(score.overall_correct, 0);
    assert_eq!(score.overall_total, 0);
}

#[test]
fn score_carries_across_batches() {
    let mut score = Score::new();
    score.record(Grade::Correct);
    score.finish_batch(10);
    assert!(score.only_one_batch(10));
    assert_eq!(score.batch_correct, 0);
    score.record(Grade::Correct);
    score.record(Grade::Correct);
    score.finish_batch(10);
    assert_eq!(score.overall_correct, 3);
    assert_eq!(score.overall_total, 20);
    assert!(!score.only_one_batch(10));
}
