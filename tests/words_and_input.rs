use hangman::input::{letter_from_cleaned, parse_guess};
use hangman::words::WordBank;

#[test]
fn standard_bank_in_order() {
    let bank = WordBank::standard();
    assert_eq!(bank.len(), 5);
    let words: Vec<String> = (0..5).map(|i| bank.word(i)).collect();
    assert_eq!(words, vec!["RUST", "JAVA", "SWIFT", "PYTHON", "GOLANG"]);
}

#[test]
fn bank_lookup() {
    let bank = WordBank::standard();
    assert_eq!(
        bank.description_of(&"PYTHON".to_string()),
        Some("Known for its simplicity".to_string())
    );
    assert_eq!(
        bank.description_of(&"JAVA".to_string()),
        Some("Write once, run anywhere".to_string())
    );
    assert_eq!(bank.description_of(&"COBOL".to_string()), None);
    assert_eq!(bank.description_of(&"swift".to_string()), None);
}

#[test]
fn guess_is_trimmed_and_uppercased() {
    assert_eq!(parse_guess("a\n"), Some('A'));
    assert_eq!(parse_guess("  q  "), Some('Q'));
    assert_eq!(parse_guess("Z"), Some('Z'));
}

#[test]
fn guess_must_be_one_letter() {
    assert_eq!(parse_guess(""), None);
    assert_eq!(parse_guess("   \n"), None);
    assert_eq!(parse_guess("ab"), None);
    assert_eq!(parse_guess("a b"), None);
    assert_eq!(parse_guess("7"), None);
    assert_eq!(parse_guess("?"), None);
    assert_eq!(parse_guess("é"), None);
    assert_eq!(parse_guess("ß"), None);
}

#[test]
fn cleaned_entry_check() {
    assert_eq!(letter_from_cleaned("x"), Some('x'));
    assert_eq!(letter_from_cleaned("X"), Some('X'));
    assert_eq!(letter_from_cleaned("XY"), None);
    assert_eq!(letter_from_cleaned("_"), None);
    assert_eq!(letter_from_cleaned("Ω"), None);
    assert_eq!(letter_from_cleaned(""), None);
}
