use deet::hangman::{pick_a_random_word, word_at, Game, NUM_INCORRECT_GUESSES};

fn word(game: &Game) -> String {
    game.guessed_word().iter().collect()
}

#[test]
fn new_game_hides_every_letter() {
    let secret: Vec<char> = "apple".chars().collect();
    let game = Game::new(&secret);
    assert_eq!(word(&game), "-----");
    assert_eq!(game.guesses_left(), NUM_INCORRECT_GUESSES);
    assert!(game.in_progress());
    assert!(!game.is_won());
}

#[test]
fn a_guess_reveals_one_occurrence() {
    let secret: Vec<char> = "apple".chars().collect();
    let mut game = Game::new(&secret);
    assert!(game.guess('p'));
    assert_eq!(word(&game), "-p---");
    assert!(game.guess('p'));
    assert_eq!(word(&game), "-pp--");
    assert!(!game.guess('p'));
    assert_eq!(game.guesses_left(), NUM_INCORRECT_GUESSES - 1);
    assert_eq!(game.guessed_letters().iter().collect::<String>(), "ppp");
}

#[test]
fn winning_and_losing() {
    let secret: Vec<char> = "ab".chars().collect();
    let mut game = Game::new(&secret);
    game.guess('a');
    game.guess('b');
    assert!(game.is_won());
    assert!(!game.in_progress());

    let mut game = Game::new(&secret);
    for c in ['x', 'y', 'z', 'q', 'w'] {
        assert!(!game.guess(c));
    }
    assert_eq!(game.guesses_left(), 0);
    assert!(!game.in_progress());
    assert!(!game.is_won());
}

#[test]
fn picked_word_is_a_trimmed_line() {
    let words = "alpha \n  beta\ngamma\r";
    for _ in 0..20 {
        let w = pick_a_random_word(words);
        assert!(w == "alpha" || w == "beta" || w == "gamma", "{}", w);
    }
    assert_eq!(pick_a_random_word("  single  "), "single");
}

#[test]
fn word_at_trims_the_chosen_line() {
    let words = "alpha \n  beta\ngamma\r";
    assert_eq!(word_at(words, 0), Some("alpha".to_string()));
    assert_eq!(word_at(words, 1), Some("beta".to_string()));
    assert_eq!(word_at(words, 2), Some("gamma".to_string()));
    assert_eq!(word_at(words, 3), None);
    assert_eq!(word_at("", 0), Some(String::new()));
}
