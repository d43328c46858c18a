use hangman::Game;
use hangman::Letter;
use hangman::Outcome;

fn session(word: &str) -> Game {
    Game::new(String::from(word))
}

#[test]
fn fresh_session_is_all_blanks() {
    let g = session("horse");
    assert_eq!(g.lives, 6);
    assert_eq!(g.word, "horse");
    assert_eq!(g.guess, vec!['_', '_', '_', '_', '_']);
    assert_eq!(g.left.len(), 5);
    for (i, c) in "horse".chars().enumerate() {
        assert_eq!(g.left[i], Letter(c, i));
    }
    assert!(!g.is_won());
    assert!(!g.is_lost());
    assert!(!g.is_finished());
}

#[test]
fn correct_guess_reveals_all_occurrences() {
    let mut g = session("panda");
    let r = g.apply_guess("a");
    assert_eq!(r, Outcome::Revealed);
    assert_eq!(g.lives, 6);
    assert_eq!(g.guess, vec!['_', 'a', '_', '_', 'a']);
    assert_eq!(g.left, vec![Letter('p', 0), Letter('n', 2), Letter('d', 3)]);
}

#[test]
fn wrong_guess_costs_exactly_one_life() {
    let mut g = session("dog");
    let r = g.apply_guess("z");
    assert_eq!(r, Outcome::LifeLost);
    assert_eq!(g.lives, 5);
    assert_eq!(g.guess, vec!['_', '_', '_']);
    assert_eq!(g.left.len(), 3);
}

#[test]
fn long_input_is_a_free_turn() {
    let mut g = session("dog");
    let r = g.apply_guess("ab");
    assert_eq!(r, Outcome::TooManyLetters);
    assert_eq!(g.lives, 6);
    assert_eq!(g.guess, vec!['_', '_', '_']);
    assert_eq!(g.left.len(), 3);
}

#[test]
fn empty_input_costs_a_life() {
    let mut g = session("dog");
    let r = g.apply_guess("");
    assert_eq!(r, Outcome::LifeLost);
    assert_eq!(g.lives, 5);
    assert_eq!(g.guess, vec!['_', '_', '_']);
    assert_eq!(g.left.len(), 3);
}

#[test]
fn repeated_correct_guess_changes_nothing() {
    let mut g = session("cat");
    assert_eq!(g.apply_guess("c"), Outcome::Revealed);
    let lives = g.lives;
    let guess = g.guess.clone();
    let left = g.left.clone();
    assert_eq!(g.apply_guess("c"), Outcome::Revealed);
    assert_eq!(g.lives, lives);
    assert_eq!(g.guess, guess);
    assert_eq!(g.left, left);
}

#[test]
fn won_game_scenario() {
    let mut g = session("cat");
    assert_eq!(g.apply_guess("z"), Outcome::LifeLost);
    assert_eq!(g.lives, 5);
    assert_eq!(g.apply_guess("c"), Outcome::Revealed);
    assert_eq!(g.guess, vec!['c', '_', '_']);
    assert_eq!(g.apply_guess("a"), Outcome::Revealed);
    assert_eq!(g.guess, vec!['c', 'a', '_']);
    assert_eq!(g.apply_guess("t"), Outcome::Revealed);
    assert_eq!(g.guess, vec!['c', 'a', 't']);
    assert_eq!(g.left.len(), 0);
    assert_eq!(g.lives, 5);
    assert!(g.is_won());
    assert!(!g.is_lost());
    assert!(g.is_finished());
}

#[test]
fn lost_game_scenario() {
    let mut g = session("dog");
    for wrong in ["x", "y", "z", "q", "w", "e"] {
        assert!(g.lives > 0);
        assert_eq!(g.apply_guess(wrong), Outcome::LifeLost);
    }
    assert_eq!(g.lives, 0);
    assert!(g.is_lost());
    assert!(!g.is_won());
    assert!(g.is_finished());
    assert_eq!(g.word, "dog");
}

#[test]
fn is_correct_letter_cases() {
    let g = session("cat");
    assert!(g.is_correct_letter("c"));
    assert!(g.is_correct_letter("a"));
    assert!(g.is_correct_letter("t"));
    assert!(!g.is_correct_letter("z"));
    assert!(!g.is_correct_letter(""));
    assert!(!g.is_correct_letter("ca"));
}

#[test]
fn update_guess_sets_one_slot() {
    let mut g = session("dog");
    g.update_guess(&Letter('d', 0));
    assert_eq!(g.guess, vec!['d', '_', '_']);
    g.update_guess(&Letter('g', 2));
    assert_eq!(g.guess, vec!['d', '_', 'g']);
}

#[test]
fn remove_from_left_keeps_order() {
    let mut g = session("panda");
    g.remove_from_left("a");
    assert_eq!(g.left, vec![Letter('p', 0), Letter('n', 2), Letter('d', 3)]);
    g.remove_from_left("p");
    assert_eq!(g.left, vec![Letter('n', 2), Letter('d', 3)]);
}

#[test]
fn decrease_live_takes_one() {
    let mut g = session("cat");
    g.decrease_live();
    assert_eq!(g.lives, 5);
    g.decrease_live();
    assert_eq!(g.lives, 4);
}
