use hangman::game::{
    partial_reveal, GameStatus, GuessOutcome, HangmanGame, HINT_THRESHOLD, MAX_WRONG,
};

fn play(game: &mut HangmanGame, letters: &str) -> Vec<bool> {
    let mut hits = Vec::new();
    for c in letters.chars() {
        hits.push(game.process_guess(c));
    }
    hits
}

#[test]
fn new_game_is_on_swift() {
    let game = HangmanGame::new();
    assert_eq!(game.secret_word(), "SWIFT");
    assert_eq!(game.display_word(), &vec!['_'; 5]);
    assert!(game.guessed_letters().is_empty());
    assert_eq!(game.wrong_guesses(), 0);
    assert_eq!(game.max_wrong(), MAX_WRONG);
    assert_eq!(game.status(), GameStatus::Playing);
}

#[test]
fn correct_guess_reveals_every_position() {
    let mut game = HangmanGame::with_word(1);
    assert_eq!(game.secret_word(), "JAVA");
    assert!(game.process_guess('A'));
    assert_eq!(game.display_word(), &vec!['_', 'A', '_', 'A']);
    assert_eq!(game.wrong_guesses(), 0);
    assert_eq!(game.guessed_letters(), &vec!['A']);
}

#[test]
fn wrong_guess_counts_once() {
    let mut game = HangmanGame::new();
    assert!(!game.process_guess('Z'));
    assert_eq!(game.wrong_guesses(), 1);
    assert_eq!(game.display_word(), &vec!['_'; 5]);
    assert!(!game.process_guess('X'));
    assert_eq!(game.wrong_guesses(), 2);
}

#[test]
fn swift_guessed_in_order_wins() {
    let mut game = HangmanGame::new();
    let hits = play(&mut game, "SWIFT");
    assert_eq!(hits, vec![true; 5]);
    assert!(game.is_won());
    assert_eq!(game.wrong_guesses(), 0);
    assert_eq!(game.status(), GameStatus::Won);
    assert_eq!(game.remaining_guesses(), 6);
}

#[test]
fn won_only_when_every_letter_guessed() {
    let mut game = HangmanGame::new();
    play(&mut game, "SWIF");
    assert!(!game.is_won());
    play(&mut game, "QT");
    assert!(game.is_won());
}

#[test]
fn six_misses_lose() {
    let mut game = HangmanGame::new();
    let hits = play(&mut game, "ZXQBNM");
    assert_eq!(hits, vec![false; 6]);
    assert!(game.is_lost());
    assert!(!game.is_won());
    assert_eq!(game.status(), GameStatus::Lost);
    assert_eq!(game.remaining_guesses(), 0);
}

#[test]
fn lost_exactly_at_six_and_stays_lost() {
    let mut game = HangmanGame::new();
    play(&mut game, "ZXQBN");
    assert!(!game.is_lost());
    play(&mut game, "M");
    assert!(game.is_lost());
    play(&mut game, "SP");
    assert!(game.is_lost());
    assert_eq!(game.wrong_guesses(), 7);
    assert_eq!(game.stage_index(), 6);
}

#[test]
fn win_takes_precedence_over_loss() {
    let mut game = HangmanGame::new();
    play(&mut game, "ZXQBNMSWIFT");
    assert!(game.is_lost());
    assert!(game.is_won());
    assert_eq!(game.status(), GameStatus::Won);
}

#[test]
fn hint_appears_at_threshold_and_stays() {
    let mut game = HangmanGame::new();
    assert_eq!(game.hint(), None);
    play(&mut game, "ZX");
    assert_eq!(game.hint(), None);
    play(&mut game, "Q");
    assert_eq!(game.wrong_guesses(), HINT_THRESHOLD);
    assert_eq!(game.hint(), Some("Apple's programming language".to_string()));
    play(&mut game, "S");
    assert_eq!(game.hint(), Some("Apple's programming language".to_string()));
    play(&mut game, "BNM");
    assert_eq!(game.hint(), Some("Apple's programming language".to_string()));
}

#[test]
fn description_of_secret() {
    let game = HangmanGame::with_word(0);
    assert_eq!(game.description(), Some("A systems programming language".to_string()));
    let game = HangmanGame::with_word(4);
    assert_eq!(game.description(), Some("Created by Google".to_string()));
}

#[test]
fn partial_reveal_names_first_and_last() {
    let game = HangmanGame::new();
    assert_eq!(game.reveal_partial_word(), "Starts with 'S', ends with 'T'");
    let game = HangmanGame::with_word(3);
    assert_eq!(game.reveal_partial_word(), "Starts with 'P', ends with 'N'");
}

#[test]
fn partial_reveal_short_word() {
    assert_eq!(partial_reveal("GO"), "Word is too short for hints");
    assert_eq!(partial_reveal(""), "Word is too short for hints");
    assert_eq!(partial_reveal("ADA"), "Starts with 'A', ends with 'A'");
}

#[test]
fn partial_reveal_offered_at_two_misses() {
    let mut game = HangmanGame::new();
    play(&mut game, "Z");
    assert!(!game.offers_partial_reveal());
    play(&mut game, "X");
    assert!(game.offers_partial_reveal());
    play(&mut game, "Q");
    assert!(!game.offers_partial_reveal());
}

#[test]
fn submit_refuses_repeated_letter() {
    let mut game = HangmanGame::new();
    assert_eq!(game.submit_guess('S'), GuessOutcome::Correct);
    assert_eq!(game.submit_guess('Z'), GuessOutcome::Wrong);
    assert!(game.has_guessed('Z'));
    assert!(!game.has_guessed('Q'));
    assert_eq!(game.submit_guess('Z'), GuessOutcome::AlreadyGuessed);
    assert_eq!(game.submit_guess('S'), GuessOutcome::AlreadyGuessed);
    assert_eq!(game.wrong_guesses(), 1);
    assert_eq!(game.guessed_letters(), &vec!['S', 'Z']);
}

#[test]
fn stage_follows_wrong_guesses() {
    let mut game = HangmanGame::new();
    assert_eq!(game.stage_index(), 0);
    play(&mut game, "ZXQ");
    assert_eq!(game.stage_index(), 3);
    assert_eq!(game.remaining_guesses(), 3);
}
