use guess_word::game::{Reply, Verdict, WordGame, STARTING_GUESSES};
use guess_word::input::{is_quit, is_single_code_point, normalize};
use guess_word::words::{choose_secret, word_at, WORD_COUNT};

fn text(v: &[char]) -> String {
    v.iter().collect()
}

fn expect_guess(r: Reply) -> (bool, String, Verdict) {
    match r {
        Reply::Guess { correct, progress, verdict } => (correct, text(&progress), verdict),
        other => panic!("expected a guess, got {:?}", other),
    }
}

#[test]
fn new_game_starts_with_five_guesses_and_nothing_guessed() {
    let g = WordGame::new("apple");
    assert_eq!(g.remaining_guesses(), STARTING_GUESSES);
    assert_eq!(g.remaining_guesses(), 5);
    assert!(g.guessed().is_empty());
    assert_eq!(text(g.secret()), "apple");
    assert_eq!(text(&g.masked_progress()), "_____");
    assert_eq!(g.verdict(), Verdict::Left(5));
}

#[test]
fn each_guess_adds_one_guessed_character_repeats_included() {
    let mut g = WordGame::new("library");
    for (n, c) in ["l", "x", "l", "r", "x"].iter().enumerate() {
        g.submit(c);
        assert_eq!(g.guessed().len(), n + 1);
    }
    assert_eq!(g.guessed(), &vec!['l', 'x', 'l', 'r', 'x']);
    assert_eq!(g.remaining_guesses(), 3);
}

#[test]
fn masked_progress_has_the_secret_length() {
    let mut g = WordGame::new("abra-kadabra");
    assert_eq!(g.masked_progress().len(), 12);
    let (correct, progress, _) = expect_guess(g.submit("a"));
    assert!(correct);
    assert_eq!(progress, "a__a__a_a__a");
    assert_eq!(progress.chars().count(), "abra-kadabra".chars().count());
    let (_, progress, _) = expect_guess(g.submit("z"));
    assert_eq!(progress.chars().count(), 12);
}

#[test]
fn masked_progress_shows_every_occurrence() {
    let mut g = WordGame::new("potato");
    let (correct, progress, verdict) = expect_guess(g.submit("o"));
    assert!(correct);
    assert_eq!(progress, "_o___o");
    assert_eq!(verdict, Verdict::Left(5));
}

#[test]
fn five_wrong_guesses_lose_on_the_fifth() {
    let mut g = WordGame::new("apple");
    let misses = ["z", "x", "q", "w", "v"];
    for (n, c) in misses.iter().enumerate() {
        let (correct, progress, verdict) = expect_guess(g.submit(c));
        assert!(!correct);
        assert_eq!(progress, "_____");
        if n < 4 {
            assert_eq!(verdict, Verdict::Left(4 - n as i8));
        } else {
            assert_eq!(verdict, Verdict::Lost);
        }
    }
    assert_eq!(g.remaining_guesses(), 0);
}

#[test]
fn one_guess_left_is_reported() {
    let mut g = WordGame::new("volcano");
    for c in ["x", "y", "z"] {
        g.submit(c);
    }
    let (_, _, verdict) = expect_guess(g.submit("q"));
    assert_eq!(verdict, Verdict::Left(1));
}

#[test]
fn quit_ends_the_session_without_changes() {
    let mut g = WordGame::new("apple");
    g.submit("a");
    assert!(matches!(g.submit("quit"), Reply::Quit));
    assert_eq!(g.remaining_guesses(), 5);
    assert_eq!(g.guessed(), &vec!['a']);
    assert!(matches!(g.submit_line("  quit \n"), Reply::Quit));
}

#[test]
fn guessing_every_distinct_character_wins() {
    let mut g = WordGame::new("apple");
    for c in ["p", "e", "a"] {
        let (correct, _, verdict) = expect_guess(g.submit(c));
        assert!(correct);
        assert_eq!(verdict, Verdict::Left(5));
    }
    let (correct, progress, verdict) = expect_guess(g.submit("l"));
    assert!(correct);
    assert_eq!(progress, "apple");
    assert_eq!(verdict, Verdict::Won);
    assert!(g.is_won());
}

#[test]
fn repeated_guesses_still_win() {
    let mut g = WordGame::new("apple");
    for c in ["a", "a", "p", "l"] {
        expect_guess(g.submit(c));
    }
    let (_, progress, verdict) = expect_guess(g.submit("e"));
    assert_eq!(progress, "apple");
    assert_eq!(verdict, Verdict::Won);
}

#[test]
fn completing_the_word_on_the_last_guess_wins() {
    let mut g = WordGame::new("potato");
    for c in ["p", "o", "t", "x", "y", "z", "w"] {
        expect_guess(g.submit(c));
    }
    assert_eq!(g.remaining_guesses(), 1);
    let (_, progress, verdict) = expect_guess(g.submit("a"));
    assert_eq!(progress, "potato");
    assert_eq!(verdict, Verdict::Won);
}

#[test]
fn invalid_input_changes_nothing() {
    let mut g = WordGame::new("apple");
    g.submit("z");
    for bad in ["ab", "", "apple", "qui"] {
        assert!(matches!(g.submit(bad), Reply::NotSingle));
        assert_eq!(g.remaining_guesses(), 4);
        assert_eq!(g.guessed(), &vec!['z']);
    }
    assert!(matches!(g.submit_line("   \n"), Reply::NotSingle));
    assert!(matches!(g.submit_line("a b\n"), Reply::NotSingle));
    assert_eq!(g.remaining_guesses(), 4);
    assert_eq!(g.guessed().len(), 1);
}

#[test]
fn raw_lines_are_trimmed_before_playing() {
    let mut g = WordGame::new("apple");
    let (correct, progress, _) = expect_guess(g.submit_line("  a\r\n"));
    assert!(correct);
    assert_eq!(progress, "a____");
    assert_eq!(g.guessed(), &vec!['a']);
}

#[test]
fn a_multibyte_character_is_one_guess() {
    let mut g = WordGame::new("caf\u{e9}");
    let (correct, progress, _) = expect_guess(g.submit("\u{e9}"));
    assert!(correct);
    assert_eq!(progress, "___\u{e9}");
    assert_eq!(g.remaining_guesses(), 5);
}

#[test]
fn single_code_point_check() {
    assert!(is_single_code_point("a"));
    assert!(is_single_code_point("\u{e9}"));
    assert!(!is_single_code_point(""));
    assert!(!is_single_code_point("ab"));
    assert!(!is_single_code_point("e\u{301}"));
}

#[test]
fn quit_command_check() {
    assert!(is_quit("quit"));
    assert!(!is_quit("Quit"));
    assert!(!is_quit("quits"));
    assert!(!is_quit(" quit"));
    assert!(!is_quit(""));
}

#[test]
fn normalize_strips_surrounding_whitespace() {
    assert_eq!(normalize("  hello \t\r\n"), "hello");
    assert_eq!(normalize("a b"), "a b");
    assert_eq!(normalize("\n"), "");
}

#[test]
fn word_list_is_fixed() {
    assert_eq!(WORD_COUNT, 5);
    assert_eq!(word_at(0), "apple");
    assert_eq!(word_at(1), "library");
    assert_eq!(word_at(2), "potato");
    assert_eq!(word_at(3), "abra-kadabra");
    assert_eq!(word_at(4), "volcano");
}

#[test]
fn the_first_word_is_never_chosen() {
    let others = ["library", "potato", "abra-kadabra", "volcano"];
    for _ in 0..200 {
        let w = choose_secret();
        assert!(others.contains(&w), "unexpected secret {}", w);
    }
}
