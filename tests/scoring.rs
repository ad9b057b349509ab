use gb_tetris::config::{SCORE_DOUBLE, SCORE_SINGLE, SCORE_TETRIS, SCORE_TRIPLE};
use gb_tetris::Scoring;

#[test]
fn test_scoring_creation() {
    let scoring = Scoring::new();
    assert_eq!(scoring.score, 0);
    assert_eq!(scoring.level, 1);
}

#[test]
fn test_single_line_score() {
    let mut scoring = Scoring::new();
    scoring.add_lines(1);
    assert_eq!(scoring.score, SCORE_SINGLE);
    assert_eq!(scoring.lines_cleared, 1);
}

#[test]
fn test_tetris_score() {
    let mut scoring = Scoring::new();
    scoring.add_lines(4);
    assert_eq!(scoring.score, SCORE_TETRIS);
}

#[test]
fn test_level_progression() {
    let mut scoring = Scoring::new();
    scoring.add_lines(10);
    assert_eq!(scoring.level, 2);
}

#[test]
fn test_score_multiplier() {
    let mut scoring = Scoring::new();
    scoring.add_lines(10);
    let initial_score = scoring.score;

    scoring.add_lines(1);
    assert_eq!(scoring.score, initial_score + SCORE_SINGLE * 2);
}

#[test]
fn test_drop_speed() {
    let mut scoring = Scoring::new();
    let initial_speed = scoring.get_drop_speed();

    scoring.add_lines(10);
    let new_speed = scoring.get_drop_speed();

    assert!(new_speed < initial_speed);
}

#[test]
fn ten_single_lines_reach_level_two() {
    let mut scoring = Scoring::new();
    scoring.add_lines(1);
    assert_eq!(scoring.score, 40);
    assert_eq!(scoring.level, 1);
    let speed_level_one = scoring.get_drop_speed();
    for _ in 1..10 {
        scoring.add_lines(1);
    }
    assert_eq!(scoring.lines_cleared, 10);
    assert_eq!(scoring.level, 2);
    assert_eq!(scoring.score, 400);
    assert!(scoring.get_drop_speed() < speed_level_one);
}

#[test]
fn awards_per_line_count() {
    for (n, award) in [(0u32, 0u32), (1, SCORE_SINGLE), (2, SCORE_DOUBLE), (3, SCORE_TRIPLE), (4, SCORE_TETRIS), (5, 0)] {
        let mut scoring = Scoring::new();
        scoring.add_lines(n);
        assert_eq!(scoring.score, award);
        assert_eq!(scoring.lines_cleared, n);
    }
}

#[test]
fn drop_speed_formula_and_floor() {
    let mut scoring = Scoring::new();
    assert_eq!(scoring.get_drop_speed(), 800);
    scoring.level = 2;
    assert_eq!(scoring.get_drop_speed(), 730);
    scoring.level = 11;
    assert_eq!(scoring.get_drop_speed(), 100);
    scoring.level = 40;
    assert_eq!(scoring.get_drop_speed(), 100);
}

#[test]
fn counters_stop_at_their_largest_value() {
    let mut scoring = Scoring::new();
    scoring.lines_cleared = u32::MAX - 1;
    scoring.score = u32::MAX - 10;
    scoring.add_lines(4);
    assert_eq!(scoring.lines_cleared, u32::MAX);
    assert_eq!(scoring.score, u32::MAX);
    assert_eq!(scoring.level, u32::MAX / 10 + 1);
}

#[test]
fn reset_clears_progress() {
    let mut scoring = Scoring::new();
    scoring.add_lines(12);
    scoring.reset();
    assert_eq!(scoring.score, 0);
    assert_eq!(scoring.lines_cleared, 0);
    assert_eq!(scoring.level, 1);
}
