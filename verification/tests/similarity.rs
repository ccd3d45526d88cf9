use rag_parsing::error::RagError;
use rag_parsing::similarity::{argmax, check_dimensions, saturate_lower, Float};

#[derive(Clone, Copy, Debug, PartialEq, PartialOrd)]
struct Score(f32);

impl std::ops::Div for Score {
    type Output = Score;

    fn div(self, other: Score) -> Score {
        Score(self.0 / other.0)
    }
}

impl Float for Score {
    fn from_usize(n: usize) -> Self {
        Score(n as f32)
    }
}

#[test]
fn argmax_first_of_equal_maxima() {
    let scores = vec![Score(0.5), Score(0.9), Score(0.9), Score(0.1)];
    assert_eq!(argmax(&scores), Some(1));
}

#[test]
fn argmax_of_integers_takes_the_first_maximum() {
    let scores: Vec<u64> = vec![5, 9, 9, 1];
    assert_eq!(argmax(&scores), Some(1));
}

#[test]
fn argmax_of_nothing_is_none() {
    let scores: Vec<u64> = Vec::new();
    assert_eq!(argmax(&scores), None);
}

#[test]
fn argmax_of_one_score_is_zero() {
    assert_eq!(argmax(&vec![Score(-3.5)]), Some(0));
}

#[test]
fn argmax_finds_a_maximum_at_the_end() {
    let scores: Vec<i128> = vec![-4, -9, 0, 7];
    assert_eq!(argmax(&scores), Some(3));
}

#[test]
fn argmax_keeps_the_first_of_all_equal() {
    let scores: Vec<u64> = vec![2, 2, 2];
    assert_eq!(argmax(&scores), Some(0));
}

#[test]
fn from_usize_of_the_integers() {
    assert_eq!(<u64 as Float>::from_usize(7), 7u64);
    assert_eq!(<i128 as Float>::from_usize(7), 7i128);
}

#[test]
fn saturate_lower_raises_what_is_below() {
    let mut values: Vec<i128> = vec![-2, 5, 0, 1, -7];
    saturate_lower(&mut values, 1);
    assert_eq!(values, vec![1, 5, 1, 1, 1]);
}

#[test]
fn saturate_lower_of_floats() {
    let mut values = vec![Score(0.25), Score(-1.0), Score(0.5)];
    saturate_lower(&mut values, Score(0.3));
    assert_eq!(values, vec![Score(0.3), Score(0.3), Score(0.5)]);
}

#[test]
fn dimensions_that_agree_are_admitted() {
    let query = vec![1.0f32, 0.0];
    let candidates = vec![vec![1.0f32, 0.0], vec![0.0, 1.0], vec![1.0, 1.0]];
    assert_eq!(check_dimensions(&query, &candidates), Ok(()));
}

#[test]
fn dimension_mismatch_is_refused() {
    let query = vec![1.0f32, 0.0];
    let candidates = vec![vec![1.0f32, 0.0, 0.0]];
    assert_eq!(check_dimensions(&query, &candidates), Err(RagError::DimensionMismatch));
}

#[test]
fn dimension_mismatch_of_a_later_candidate_is_refused() {
    let query: Vec<u64> = vec![1, 2];
    let candidates: Vec<Vec<u64>> = vec![vec![1, 2], vec![3]];
    assert_eq!(check_dimensions(&query, &candidates), Err(RagError::DimensionMismatch));
}

#[test]
fn no_candidates_have_no_mismatch() {
    let query: Vec<u64> = vec![1, 2];
    let candidates: Vec<Vec<u64>> = Vec::new();
    assert_eq!(check_dimensions(&query, &candidates), Ok(()));
}
