use hitprob::Regime;
use hitprob::update_regime;
use rand::Rng;

#[test]
fn test_regime_switching() {
    let mut rng = rand::thread_rng();
    // transition-rate matrix and initial distribution of the two-state chain
    let p = [[0.95_f64, 0.05], [0.10, 0.90]];

    let dt = 1.0 / 24.0;
    let mut bull_count = 0;
    let mut current = Regime::Bull;

    for _ in 0..1000 {
        let u: f64 = rng.gen();
        let transition_prob = match current {
            Regime::Bull => p[0][1] * dt,
            Regime::Bear => p[1][0] * dt,
        };
        current = update_regime(current, u < transition_prob);
        if matches!(current, Regime::Bull) {
            bull_count += 1;
        }
    }

    // Should spend more time in Bull regime
    assert!(bull_count > 500);
}
