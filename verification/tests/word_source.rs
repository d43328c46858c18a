use hangman::words;
use hangman::Game;

#[test]
fn the_candidate_list_is_fixed() {
    let words = words::word_list();
    let expected = [
        "cat", "dog", "horse", "monkey", "tiger", "rabbit", "eagle", "shark", "whale", "zebra",
        "lion", "panda",
    ];
    assert_eq!(words.len(), expected.len());
    for (got, want) in words.iter().zip(expected.iter()) {
        assert_eq!(got, want);
    }
}

#[test]
fn random_word_is_always_playable() {
    let candidates = [
        "cat", "dog", "horse", "monkey", "tiger", "rabbit", "eagle", "shark", "whale", "zebra",
        "lion", "panda",
    ];
    for _ in 0..50 {
        let w = Game::random_word();
        assert!(!w.is_empty());
        assert!(!w.contains('_'));
        assert!(candidates.contains(&w.as_str()));
    }
}

#[test]
fn instance_starts_fresh_over_a_random_word() {
    for _ in 0..20 {
        let g = Game::instance();
        assert_eq!(g.lives, 6);
        let len = g.word.chars().count();
        assert!(len > 0);
        assert_eq!(g.guess.len(), len);
        assert!(g.guess.iter().all(|c| *c == '_'));
        assert_eq!(g.left.len(), len);
        for (i, c) in g.word.chars().enumerate() {
            assert_eq!(g.left[i], hangman::Letter(c, i));
        }
    }
}
