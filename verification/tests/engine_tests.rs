use hitprob::BatchTally;
use hitprob::ResolvedTarget;
use hitprob::RunTally;
use hitprob::SimError;
use hitprob::Target;
use hitprob::count_hits;
use hitprob::evaluate_batched;
use hitprob::evaluate_run;

fn keys(prices: &[f64]) -> Vec<u64> {
    prices.iter().map(|p| p.to_bits()).collect()
}

fn above_100() -> Target {
    Target { kind: String::from("above"), K: Some(100.0_f64.to_bits()), L: None, U: None }
}

#[test]
fn count_hits_counts_exactly() {
    let prices = keys(&[105.0, 95.0, 100.5, 100.0, 99.9, 200.0]);
    let t = ResolvedTarget::Above { k: 100.0_f64.to_bits() };
    assert_eq!(count_hits(&prices, &t), 3);
    assert_eq!(count_hits(&Vec::new(), &t), 0);
}

#[test]
fn run_tallies_hits_over_all_paths() {
    let prices = keys(&[105.0, 95.0, 101.0, 99.0]);
    let r = evaluate_run(&above_100(), &prices);
    assert_eq!(r, Ok(RunTally { hits: 2, n: 4 }));
}

#[test]
fn run_over_no_paths() {
    let r = evaluate_run(&above_100(), &Vec::new());
    assert_eq!(r, Ok(RunTally { hits: 0, n: 0 }));
}

#[test]
fn run_rejects_malformed_targets() {
    let no_strike = Target { kind: String::from("above"), K: None, L: None, U: None };
    let prices = keys(&[105.0]);
    assert_eq!(evaluate_run(&no_strike, &prices), Err(SimError::MissingStrike));

    let unknown = Target { kind: String::from("unknown"), K: Some(1), L: None, U: None };
    assert_eq!(evaluate_run(&unknown, &prices), Err(SimError::InvalidTargetKind));
}

#[test]
fn batched_rejects_malformed_targets() {
    let no_strike = Target { kind: String::from("above"), K: None, L: None, U: None };
    let prices = keys(&[105.0]);
    assert_eq!(evaluate_batched(&no_strike, &prices, 1), Err(SimError::MissingStrike));
}

#[test]
fn batched_partitions_the_run() {
    // ten paths at four per batch: batches of 4, 4, and a remainder of 2
    let prices = keys(&[105.0, 95.0, 101.0, 99.0, 150.0, 50.0, 100.5, 100.0, 120.0, 80.0]);
    let r = evaluate_batched(&above_100(), &prices, 4).unwrap();
    assert_eq!(r.len(), 3);
    assert_eq!(
        r[0],
        BatchTally { batch: 1, total_paths: 4, total_hits: 2 }
    );
    assert_eq!(
        r[1],
        BatchTally { batch: 2, total_paths: 8, total_hits: 4 }
    );
    assert_eq!(
        r[2],
        BatchTally { batch: 3, total_paths: 10, total_hits: 5 }
    );
    // every batch but the last consumes the batch size; together they
    // consume the whole run
    let mut prev = 0;
    let mut emitted = Vec::new();
    for tally in &r {
        emitted.push(tally.total_paths - prev);
        prev = tally.total_paths;
    }
    assert_eq!(emitted, vec![4, 4, 2]);
    assert_eq!(emitted.iter().sum::<u32>(), 10);
}

#[test]
fn batched_final_tally_equals_single_run() {
    let prices = keys(&[105.0, 95.0, 101.0, 99.0, 150.0, 50.0, 100.5]);
    let single = evaluate_run(&above_100(), &prices).unwrap();
    for batch_size in 1..9 {
        let batched = evaluate_batched(&above_100(), &prices, batch_size).unwrap();
        let last = batched.last().unwrap();
        assert_eq!(last.total_paths, single.n);
        assert_eq!(last.total_hits, single.hits);
    }
}

#[test]
fn batched_with_batch_size_beyond_run() {
    let prices = keys(&[105.0, 95.0]);
    let r = evaluate_batched(&above_100(), &prices, 100).unwrap();
    assert_eq!(r, vec![BatchTally { batch: 1, total_paths: 2, total_hits: 1 }]);
}

#[test]
fn batched_over_no_paths() {
    let r = evaluate_batched(&above_100(), &Vec::new(), 5).unwrap();
    assert!(r.is_empty());
}
