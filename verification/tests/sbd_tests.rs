use keytweak::sbd::split_sentences;

#[test]
fn simple_sentences() {
    let result = split_sentences("Hello world. How are you?");
    assert_eq!(result, vec!["Hello world.", "How are you?"]);
}

#[test]
fn exclamation_and_question() {
    let result = split_sentences("Wow! Really? Yes.");
    assert_eq!(result, vec!["Wow!", "Really?", "Yes."]);
}

#[test]
fn abbreviation_protection() {
    let result = split_sentences("Dr. Smith went home. He was tired.");
    assert_eq!(result.len(), 2);
    assert!(result[0].contains("Dr. Smith"));
}

#[test]
fn newline_splitting() {
    let result = split_sentences("First line\nSecond line");
    assert_eq!(result, vec!["First line", "Second line"]);
}

#[test]
fn empty_input() {
    let result = split_sentences("");
    assert!(result.is_empty());
}

#[test]
fn single_sentence() {
    let result = split_sentences("Just one sentence");
    assert_eq!(result, vec!["Just one sentence"]);
}

#[test]
fn multiple_abbreviations() {
    let result = split_sentences("Mr. and Mrs. Smith went to Dr. Jones. They were happy.");
    assert!(result.len() >= 2);
}

#[test]
fn sentences_are_trimmed_single_lines() {
    let result = split_sentences("  One.   Two!\n\n  Three?  \t Four ");
    assert_eq!(result, vec!["One.", "Two!", "Three?", "Four"]);
    for s in &result {
        assert!(!s.is_empty());
        assert_eq!(s.trim(), s);
        assert!(!s.contains('\n'));
    }
}

#[test]
fn only_white_space_gives_no_sentence() {
    assert!(split_sentences(" \t\n ").is_empty());
}

#[test]
fn abbreviation_case_is_ignored() {
    let result = split_sentences("see FIG. 3 here. Done.");
    assert_eq!(result, vec!["see FIG. 3 here.", "Done."]);
}

#[test]
fn abbreviation_inside_a_word_is_not_protected() {
    let result = split_sentences("AbcDr. Smith went. Yes.");
    assert_eq!(result, vec!["AbcDr.", "Smith went.", "Yes."]);
}

#[test]
fn marks_and_connectors_belong_to_words() {
    let result = split_sentences("x\u{301}Dr. Smith went. Yes.");
    assert_eq!(result, vec!["x\u{301}Dr.", "Smith went.", "Yes."]);
    let result = split_sentences("a\u{203F}Mr. Jones left. Bye.");
    assert_eq!(result, vec!["a\u{203F}Mr.", "Jones left.", "Bye."]);
}
