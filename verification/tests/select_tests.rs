use yalt::config::Target;
use yalt::select::{pick_index, select_target};

fn targets(weights: &[u32]) -> Vec<Target> {
    weights
        .iter()
        .enumerate()
        .map(|(i, w)| Target { host: format!("h{}", i), port: 1, weight: *w })
        .collect()
}

#[test]
fn pick_index_walks_the_weights() {
    let ts = targets(&[66, 33]);
    assert_eq!(pick_index(&ts, 0), 0);
    assert_eq!(pick_index(&ts, 65), 0);
    assert_eq!(pick_index(&ts, 66), 1);
    assert_eq!(pick_index(&ts, 98), 1);
}

#[test]
fn pick_index_skips_zero_weight_slots() {
    let ts = targets(&[10, 0, 5]);
    assert_eq!(pick_index(&ts, 9), 0);
    assert_eq!(pick_index(&ts, 10), 2);
    assert_eq!(pick_index(&ts, 14), 2);
}

#[test]
fn zero_weight_target_is_never_selected() {
    // 100:0 bias: the weightless slot is structurally unreachable.
    let ts = targets(&[100, 0]);
    for _ in 0..10_000 {
        assert_eq!(select_target(&ts, 100), 0);
    }
    let ts = targets(&[0, 5]);
    for _ in 0..10_000 {
        assert_eq!(select_target(&ts, 5), 1);
    }
}

#[test]
fn selection_share_tracks_weights() {
    // 66:33 bias over 10,000 draws: the observed share of the first target
    // stays within three points of 66/99.
    let ts = targets(&[66, 33]);
    let n = 10_000;
    let mut first = 0u32;
    for _ in 0..n {
        if select_target(&ts, 99) == 0 {
            first += 1;
        }
    }
    let share = first as f64 / n as f64;
    let expected = 66.0 / 99.0;
    assert!(
        (share - expected).abs() <= 0.03,
        "observed share {} too far from {}",
        share,
        expected
    );
}

#[test]
fn even_split_is_roughly_even() {
    let ts = targets(&[50, 50]);
    let n = 10_000;
    let mut first = 0u32;
    for _ in 0..n {
        if select_target(&ts, 100) == 0 {
            first += 1;
        }
    }
    let share = first as f64 / n as f64;
    assert!((share - 0.5).abs() <= 0.03, "observed share {}", share);
}
