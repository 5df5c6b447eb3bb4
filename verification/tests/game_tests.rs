use parlor::ClueSet;
use parlor::Game;
use parlor::GameStatus;
use parlor::GuessOutcome;
use parlor::ValidationError;
use parlor::clue_text;
use parlor::generate_secret;
use parlor::get_clues;
use parlor::score;
use parlor::validate_guess;

fn assert_is_secret(s: &str, length: usize) {
    let chars: Vec<char> = s.chars().collect();
    assert_eq!(chars.len(), length);
    for c in chars.iter() {
        assert!(c.is_ascii_digit());
    }
    for i in 0..chars.len() {
        for j in 0..chars.len() {
            if i != j {
                assert_ne!(chars[i], chars[j]);
            }
        }
    }
}

#[test]
fn generated_secret_has_distinct_digits() {
    for _ in 0..50 {
        let s = generate_secret(2);
        assert_is_secret(&s, 2);
    }
}

#[test]
fn generated_secret_of_full_alphabet_length() {
    let s = generate_secret(10);
    assert_is_secret(&s, 10);
}

#[test]
fn generated_secret_of_length_one() {
    let s = generate_secret(1);
    assert_is_secret(&s, 1);
}

#[test]
fn clues_for_spec_example() {
    // The example the game explains to the player: secret 248, guess 843.
    assert_eq!(get_clues("843", "248"), "Fermi Pico");
}

#[test]
fn clues_for_guess_equal_to_secret_are_all_fermi() {
    assert_eq!(get_clues("12", "12"), "Fermi Fermi");
    assert_eq!(get_clues("0123456789", "0123456789"),
        "Fermi Fermi Fermi Fermi Fermi Fermi Fermi Fermi Fermi Fermi");
}

#[test]
fn clues_for_disjoint_guess_are_bagels() {
    assert_eq!(get_clues("13", "24"), "Bagels");
    assert_eq!(get_clues("000", "123"), "Bagels");
}

#[test]
fn clues_for_swapped_digits_are_all_pico() {
    // A permutation of the secret that matches it at no position.
    assert_eq!(get_clues("21", "12"), "Pico Pico");
    assert_eq!(get_clues("312", "123"), "Pico Pico Pico");
}

#[test]
fn repeated_guess_digit_scores_once_per_position() {
    // Each guess position contributes at most one clue.
    assert_eq!(get_clues("22", "24"), "Fermi Pico");
}

#[test]
fn score_counts_signals_per_position() {
    let c: ClueSet = score("843", "248");
    assert_eq!(c.fermis, 1);
    assert_eq!(c.picos, 1);
    let b = score("13", "24");
    assert_eq!(b.fermis, 0);
    assert_eq!(b.picos, 0);
}

#[test]
fn clue_text_formats_counts_sorted() {
    assert_eq!(clue_text(ClueSet { fermis: 0, picos: 0 }), "Bagels");
    assert_eq!(clue_text(ClueSet { fermis: 2, picos: 0 }), "Fermi Fermi");
    assert_eq!(clue_text(ClueSet { fermis: 0, picos: 1 }), "Pico");
    assert_eq!(clue_text(ClueSet { fermis: 1, picos: 2 }), "Fermi Pico Pico");
}

#[test]
fn validate_guess_rejects_wrong_length() {
    assert_eq!(validate_guess("123", 2), Err(ValidationError::WrongLength));
    assert_eq!(validate_guess("", 2), Err(ValidationError::WrongLength));
}

#[test]
fn validate_guess_rejects_non_numeric() {
    assert_eq!(validate_guess("ab", 2), Err(ValidationError::NotNumeric));
    assert_eq!(validate_guess("1x", 2), Err(ValidationError::NotNumeric));
    assert_eq!(validate_guess("-1", 2), Err(ValidationError::NotNumeric));
}

#[test]
fn validate_guess_accepts_numeric_of_expected_length() {
    assert_eq!(validate_guess("12", 2), Ok(String::from("12")));
    // Leading zeros still parse as a number of the expected length.
    assert_eq!(validate_guess("07", 2), Ok(String::from("07")));
}

#[test]
fn game_win_on_matching_guess() {
    let mut game = Game::new(String::from("12"), 10);
    assert!(game.is_awaiting());
    let r = game.guess("12");
    assert!(matches!(r, GuessOutcome::Win));
    assert_eq!(game.status(), GameStatus::Won);
    assert!(!game.is_awaiting());
}

#[test]
fn game_reports_clues_and_counts_attempts() {
    let mut game = Game::new(String::from("12"), 10);
    match game.guess("21") {
        GuessOutcome::Clues { clues } => assert_eq!(clues, "Pico Pico"),
        _ => panic!("expected clues"),
    }
    assert_eq!(game.status(), GameStatus::AwaitingGuess);
}

#[test]
fn game_lost_when_attempts_run_out() {
    let mut game = Game::new(String::from("12"), 1);
    match game.guess("34") {
        GuessOutcome::Loss { secret } => assert_eq!(secret, "12"),
        _ => panic!("expected loss"),
    }
    assert_eq!(game.status(), GameStatus::Lost);
    assert!(!game.is_awaiting());
}

#[test]
fn game_full_session_to_loss() {
    let mut game = Game::start(2, 3);
    let mut steps: usize = 0;
    while game.is_awaiting() {
        // "00" has a repeated digit, so it can never equal the secret.
        let r = game.guess("00");
        steps += 1;
        match r {
            GuessOutcome::Win => panic!("secret digits are distinct"),
            GuessOutcome::Loss { secret } => assert_is_secret(&secret, 2),
            GuessOutcome::Clues { clues } => assert!(!clues.is_empty()),
        }
        assert!(steps <= 3);
    }
    assert_eq!(steps, 3);
    assert_eq!(game.status(), GameStatus::Lost);
}
