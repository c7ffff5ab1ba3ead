use spaz::chance::{bernoulli, trial_outcome};
use spaz::config::Probability;

#[test]
fn trial_outcome_compares_the_reduced_draw_to_the_probability() {
    let p = Probability::from_ppm(200);
    assert!(trial_outcome(199, p));
    assert!(!trial_outcome(200, p));
    assert!(trial_outcome(2_000_199, p));
    assert!(!trial_outcome(2_000_200, p));
}

#[test]
fn impossible_trials_never_succeed() {
    let p = Probability::from_ppm(0);
    for _ in 0..10_000 {
        assert!(!bernoulli(p));
    }
}

#[test]
fn certain_trials_always_succeed() {
    let p = Probability::from_ppm(1_000_000);
    for _ in 0..10_000 {
        assert!(bernoulli(p));
    }
}

#[test]
fn observed_rate_converges_to_the_probability() {
    // A quarter-probability trial over many independent draws: the observed
    // rate stays within a generous binomial confidence band. With n=200000
    // and p=0.25 the standard deviation of the rate is about 0.001, so a
    // 0.01 tolerance is over nine standard deviations.
    let p = Probability::from_ppm(250_000);
    let n = 200_000u32;
    let mut hits = 0u32;
    for _ in 0..n {
        if bernoulli(p) {
            hits += 1;
        }
    }
    let rate = f64::from(hits) / f64::from(n);
    assert!((rate - 0.25).abs() < 0.01, "observed rate {rate} strays from 0.25");
}
