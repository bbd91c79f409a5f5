use sixty_challenge_days::guess::{judge, parse_guess, Verdict};

#[test]
fn judge_compares_with_the_secret() {
    assert_eq!(judge(500, 500), Verdict::Correct);
    assert_eq!(judge(1000, 500), Verdict::TooHigh);
    assert_eq!(judge(1, 500), Verdict::TooLow);
}

#[test]
fn parse_guess_trims_and_reads_numbers() {
    assert_eq!(parse_guess("500\n"), Some(500));
    assert_eq!(parse_guess("  7 "), Some(7));
    assert_eq!(parse_guess("not a number\n"), None);
    assert_eq!(parse_guess("-1"), None);
}
