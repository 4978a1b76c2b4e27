use wallet_gen::matcher::SearchPattern;
use wallet_gen::search::{next_candidate, SearchState, Step};

#[test]
fn new_state_is_empty() {
    let state = SearchState::new(4);
    assert!(!state.is_found());
    assert_eq!(state.attempts(), 0);
    assert_eq!(state.workers(), 4);
    assert_eq!(state.worker_attempts(3), 0);
}

#[test]
fn misses_are_counted() {
    let mut state = SearchState::new(2);
    assert!(matches!(state.worker_step(0, false), Step::Missed));
    assert!(matches!(state.worker_step(1, false), Step::Missed));
    assert!(matches!(state.worker_step(1, false), Step::Missed));
    assert_eq!(state.attempts(), 3);
    assert_eq!(state.worker_attempts(0), 1);
    assert_eq!(state.worker_attempts(1), 2);
    assert!(!state.is_found());
}

#[test]
fn simultaneous_matches_have_one_winner() {
    let mut state = SearchState::new(4);
    let mut winners = 0;
    for worker in 0..4 {
        if let Step::Won { attempts } = state.worker_step(worker, true) {
            winners += 1;
            assert_eq!(attempts, 1);
        }
    }
    assert_eq!(winners, 1);
    assert!(state.is_found());
    assert_eq!(state.attempts(), 1);
}

#[test]
fn workers_stop_once_found() {
    let mut state = SearchState::new(3);
    assert!(matches!(state.worker_step(0, false), Step::Missed));
    assert!(matches!(state.worker_step(2, true), Step::Won { attempts: 2 }));
    assert!(matches!(state.worker_step(1, false), Step::Stopped));
    assert!(matches!(state.worker_step(1, true), Step::Stopped));
    assert_eq!(state.attempts(), 2);
    assert!(state.is_found());
}

#[test]
fn counter_never_decreases_and_bounds_each_worker() {
    let mut state = SearchState::new(3);
    let mut last = 0;
    for round in 0..30usize {
        let worker = (round * 7) % 3;
        let step = state.worker_step(worker, round == 29);
        assert!(state.attempts() >= last);
        last = state.attempts();
        if let Step::Won { attempts } = step {
            assert!(attempts >= 1);
            for w in 0..3 {
                assert!(attempts >= state.worker_attempts(w));
            }
        }
    }
    assert_eq!(state.attempts(), 30);
}

#[test]
fn search_for_short_prefix_on_four_workers() {
    let pattern = SearchPattern::new("de", "");
    let mut state = SearchState::new(4);
    let mut round: usize = 0;
    let winner = loop {
        let worker = round % 4;
        round += 1;
        let (wallet, matched) = next_candidate(&pattern, 64).expect("a key");
        if let Step::Won { attempts } = state.worker_step(worker, matched) {
            break (wallet, attempts);
        }
    };
    let (wallet, attempts) = winner;
    assert!(wallet.address().starts_with("de"));
    assert_eq!(wallet.address().len(), 40);
    assert!(attempts >= 1);
    assert_eq!(attempts as usize, round);
}

#[test]
fn candidate_reports_its_match() {
    let pattern = SearchPattern::new("", "");
    let (wallet, matched) = next_candidate(&pattern, 64).expect("a key");
    assert!(matched);
    assert_eq!(wallet.address().len(), 40);
}
