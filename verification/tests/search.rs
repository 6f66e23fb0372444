use qrgen::search::{step_of, Ascent, Bisection, MAX_ROUNDS, RUNGS, SEARCH_WINDOW};

fn climb_with(n: usize, threshold: usize) -> (usize, Vec<usize>) {
    let mut tried = Vec::new();
    let mut state = Ascent::start(n);
    while let Some(len) = state.trial() {
        tried.push(len);
        state = state.advance(len <= threshold);
    }
    (state.reached, tried)
}

fn bisect_with(n: usize, threshold: usize) -> (usize, Vec<usize>) {
    let mut tried = Vec::new();
    let mut state = Bisection::start(n);
    while let Some(len) = state.trial() {
        tried.push(len);
        state = state.advance(len <= threshold);
    }
    (state.low, tried)
}

#[test]
fn step_sizes_descend() {
    assert_eq!(RUNGS, 7);
    assert_eq!(SEARCH_WINDOW, 1000);
    let steps: Vec<usize> = (0..RUNGS).map(step_of).collect();
    assert_eq!(steps, vec![200, 100, 50, 25, 10, 5, 1]);
}

#[test]
fn ascent_finds_the_threshold() {
    let (reached, tried) = climb_with(100, 777);
    assert_eq!(reached, 777);
    assert_eq!(
        tried,
        vec![300, 500, 700, 900, 800, 750, 800, 775, 800, 785, 780, 776, 777, 778]
    );
}

#[test]
fn ascent_goes_on_from_the_last_length_that_fitted() {
    // After 400 fails the search returns to 200 and tries 300, not 500.
    let (reached, tried) = climb_with(0, 350);
    assert_eq!(reached, 350);
    assert_eq!(tried[0..4], [200, 400, 300, 400]);
}

#[test]
fn ascent_stops_at_the_window() {
    let (reached, tried) = climb_with(50, 100_000);
    assert_eq!(reached, 1050);
    assert_eq!(tried, vec![250, 450, 650, 850, 1050]);
    assert!(tried.iter().all(|len| *len <= 50 + 1000));
}

#[test]
fn ascent_stops_at_the_theoretical_maximum() {
    let (reached, tried) = climb_with(2900, 100_000);
    assert_eq!(reached, 2953);
    assert_eq!(tried, vec![2950, 2951, 2952, 2953]);
}

#[test]
fn ascent_tries_nothing_above_the_maximum() {
    let (reached, tried) = climb_with(2953, 100_000);
    assert_eq!(reached, 2953);
    assert!(tried.is_empty());
    let (reached, tried) = climb_with(5000, 100_000);
    assert_eq!(reached, 5000);
    assert!(tried.is_empty());
}

#[test]
fn ascent_stays_put_when_nothing_longer_fits() {
    let (reached, tried) = climb_with(300, 300);
    assert_eq!(reached, 300);
    assert_eq!(tried, vec![500, 400, 350, 325, 310, 305, 301]);
}

#[test]
fn ascent_result_is_a_tested_boundary() {
    for threshold in [0usize, 1, 199, 200, 201, 999, 1000, 1234, 2952, 2953] {
        for n in [0usize, 1, 150, 1000, 2000, 2953] {
            if threshold < n {
                continue;
            }
            let (reached, tried) = climb_with(n, threshold);
            let ceiling = std::cmp::min(2953, n + 1000);
            assert_eq!(reached, std::cmp::min(threshold, ceiling), "n={} t={}", n, threshold);
            assert!(tried.iter().all(|len| n < *len && *len <= ceiling));
            if reached < ceiling {
                assert!(tried.contains(&(reached + 1)));
            }
        }
    }
}

#[test]
fn bisection_finds_the_threshold() {
    let (found, tried) = bisect_with(5000, 2000);
    assert_eq!(found, 2000);
    assert_eq!(tried[0], 1477);
    assert!(tried.len() <= MAX_ROUNDS);
    assert!(tried.iter().all(|len| 0 < *len && *len <= 2953));
}

#[test]
fn bisection_trace() {
    let (found, tried) = bisect_with(10, 3);
    assert_eq!(found, 3);
    assert_eq!(tried, vec![5, 2, 3, 4]);
}

#[test]
fn bisection_reports_zero_when_nothing_fits() {
    let (found, tried) = bisect_with(3000, 0);
    assert_eq!(found, 0);
    assert_eq!(*tried.last().unwrap(), 1);
    let (found, tried) = bisect_with(0, 0);
    assert_eq!(found, 0);
    assert!(tried.is_empty());
}

#[test]
fn bisection_never_needs_more_than_twelve_rounds() {
    for threshold in [0usize, 1, 2, 1000, 1476, 1477, 2952, 2953] {
        let (found, tried) = bisect_with(1_000_000, threshold);
        assert_eq!(found, threshold);
        assert!(tried.len() <= 12);
    }
}

#[test]
fn bisection_state_after_one_answer() {
    let start = Bisection::start(100);
    assert_eq!((start.low, start.high, start.rounds_left), (0, 100, 15));
    assert_eq!(start.trial(), Some(50));
    let up = start.advance(true);
    assert_eq!((up.low, up.high, up.rounds_left), (50, 100, 14));
    let down = start.advance(false);
    assert_eq!((down.low, down.high, down.rounds_left), (0, 49, 14));
}

#[test]
fn ascent_state_after_one_answer() {
    let start = Ascent::start(10);
    assert_eq!((start.reached, start.ceiling, start.rung), (10, 1010, 0));
    assert_eq!(start.trial(), Some(210));
    let up = start.advance(true);
    assert_eq!((up.reached, up.rung), (210, 0));
    let down = start.advance(false);
    assert_eq!((down.reached, down.rung), (10, 1));
    assert_eq!(down.trial(), Some(110));
}
