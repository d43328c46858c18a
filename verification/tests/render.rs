use hangman::art;
use hangman::Game;

fn session(word: &str) -> Game {
    Game::new(String::from(word))
}

#[test]
fn art_follows_lives() {
    let mut g = session("cat");
    assert_eq!(g.lives_art(), art::ART_SIX);
    g.apply_guess("z");
    assert_eq!(g.lives_art(), art::ART_FIVE);
    g.apply_guess("y");
    assert_eq!(g.lives_art(), art::ART_FOUR);
    g.apply_guess("x");
    assert_eq!(g.lives_art(), art::ART_THREE);
    g.apply_guess("w");
    assert_eq!(g.lives_art(), art::ART_TWO);
    g.apply_guess("v");
    assert_eq!(g.lives_art(), art::ART_ONE);
    g.apply_guess("u");
    assert_eq!(g.lives_art(), art::ART_ZERO);
}

#[test]
fn the_seven_drawings_differ() {
    let drawings = [
        art::ART_SIX,
        art::ART_FIVE,
        art::ART_FOUR,
        art::ART_THREE,
        art::ART_TWO,
        art::ART_ONE,
        art::ART_ZERO,
    ];
    for i in 0..drawings.len() {
        for j in 0..i {
            assert_ne!(drawings[i], drawings[j]);
        }
    }
    // The figure is complete only once the last life is gone.
    assert!(art::ART_ZERO.contains("/ \\"));
    assert!(!art::ART_ONE.contains("/ \\"));
}

#[test]
fn guess_line_joins_with_spaces() {
    let mut g = session("cat");
    assert_eq!(g.guess_line(), vec!['_', ' ', '_', ' ', '_']);
    g.apply_guess("c");
    assert_eq!(g.guess_line(), vec!['c', ' ', '_', ' ', '_']);
    g.apply_guess("a");
    g.apply_guess("t");
    assert_eq!(g.guess_line(), vec!['c', ' ', 'a', ' ', 't']);
    let line: String = g.guess_line().iter().collect();
    assert_eq!(line, "c a t");
}
