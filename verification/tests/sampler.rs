//! Random numbers and the highest scores.
use taraference::sampler::{next_random, repeated, top_candidates, SamplingOptions, ONE};

#[test]
fn next_random_is_deterministic() {
    let mut a = 12345u64;
    let mut b = 12345u64;
    assert_eq!(next_random(&mut a), next_random(&mut b));
    assert_ne!(next_random(&mut a), next_random(&mut a));
}

#[test]
fn random_numbers_have_known_values() {
    let mut s = 1u64;
    let first = next_random(&mut s);
    assert_eq!(first, 0x0000_0000_4082_2041);
    assert_eq!(s, first);
    let mut z = 0u64;
    assert_eq!(next_random(&mut z), first);
}

#[test]
fn different_states_never_meet() {
    let mut seen = Vec::new();
    for i in 1..200u64 {
        let mut s = i;
        let r = next_random(&mut s);
        assert_ne!(r, 0);
        assert!(!seen.contains(&r));
        seen.push(r);
    }
}

#[test]
fn default_is_the_highest_score() {
    let d = SamplingOptions::default();
    assert!(d.is_greedy());
    assert_eq!(d.top_k, 256);
    assert_eq!(d.top_p, 1.0f32.to_bits());
    assert_eq!(ONE, 1.0f32.to_bits());
    let warm = SamplingOptions { temperature: 0.7f32.to_bits(), ..d };
    assert!(!warm.is_greedy());
    let below = SamplingOptions { temperature: (-0.5f32).to_bits(), ..d };
    assert!(below.is_greedy());
    let nan = SamplingOptions { temperature: f32::NAN.to_bits(), ..d };
    assert!(!nan.is_greedy());
}

#[test]
fn repeated_marks_what_was_said() {
    let scores = vec![(1, 0), (2, 0), (3, 0)];
    assert_eq!(repeated(&scores, &[3, 1, 9]), vec![true, false, true]);
    assert_eq!(repeated(&scores, &[]), vec![false, false, false]);
}

#[test]
fn top_candidates_descend() {
    let scores = vec![
        (7, 3.0f32.to_bits()),
        (8, 9.0f32.to_bits()),
        (9, (-1.0f32).to_bits()),
        (10, 5.5f32.to_bits()),
    ];
    let top = top_candidates(&scores, 3);
    assert_eq!(
        top,
        vec![(8, 9.0f32.to_bits()), (10, 5.5f32.to_bits()), (7, 3.0f32.to_bits())]
    );
    assert_eq!(top_candidates(&scores, 1), vec![(8, 9.0f32.to_bits())]);
    assert_eq!(top_candidates(&scores, 10).len(), 4);
}
