use stake_indexer::discovery::{
    epoch_end_bound, should_resync, BoundarySearch, DiscoveryError, DiscoveryState, ProbeResult,
};

fn epoch_id_of(height: u64, boundary: u64) -> String {
    if height < boundary {
        "A".to_string()
    } else {
        "B".to_string()
    }
}

fn run_search(mut search: BoundarySearch, boundary: u64) -> u64 {
    let mut probes = 0;
    while let Some(h) = search.next_probe() {
        search.on_probe(ProbeResult::Block(h, epoch_id_of(h, boundary)));
        probes += 1;
        assert!(probes < 1000, "search did not settle");
    }
    search.result.unwrap()
}

#[test]
fn test_find_boundary() {
    // Blocks [100, 149] carry epoch id "A", [150, ..) carry "B": the search
    // over [100, 200] settles on 150.
    let search = BoundarySearch::new(100, 200, "A".to_string());
    assert_eq!(run_search(search, 150), 150);
}

#[test]
fn test_find_boundary_edges() {
    // Boundary right after the window start.
    let search = BoundarySearch::new(100, 200, "A".to_string());
    assert_eq!(run_search(search, 101), 101);
    // No boundary inside the window: one past the end.
    let search = BoundarySearch::new(100, 200, "A".to_string());
    assert_eq!(run_search(search, 201), 201);
    // Boundary at the window end.
    let search = BoundarySearch::new(100, 200, "A".to_string());
    assert_eq!(run_search(search, 200), 200);
}

#[test]
fn test_find_boundary_with_gaps() {
    // The gap-tolerant read serves height h+1 for every probe; bisection
    // still settles on the boundary.
    let mut search = BoundarySearch::new(100, 200, "A".to_string());
    let mut probes = 0;
    while let Some(h) = search.next_probe() {
        let served = h + 1;
        search.on_probe(ProbeResult::Block(served, epoch_id_of(served, 150)));
        probes += 1;
        assert!(probes < 1000);
        if probes == 3 {
            // From here on the chain answers exactly.
            break;
        }
    }
    while let Some(h) = search.next_probe() {
        search.on_probe(ProbeResult::Block(h, epoch_id_of(h, 150)));
    }
    assert_eq!(search.result.unwrap(), 150);
}

#[test]
fn test_discovery_walk() {
    // Epochs of roughly 100 blocks between start 0 and latest final 350.
    let mut d = DiscoveryState::new(0, 350, 100, "A".to_string(), 10);
    assert_eq!(d.next_window(), Some((0, 150)));
    d.on_boundary(100, "B".to_string(), 20).unwrap();
    assert_eq!(d.next_window(), Some((100, 250)));
    d.on_boundary(200, "C".to_string(), 30).unwrap();
    assert_eq!(d.next_window(), Some((200, 350)));
    d.on_boundary(300, "D".to_string(), 40).unwrap();
    assert_eq!(d.next_window(), None);
    d.finish();

    assert_eq!(d.epochs.len(), 4);
    let starts: Vec<u64> = d.epochs.iter().map(|e| e.start_block).collect();
    let ends: Vec<u64> = d.epochs.iter().map(|e| e.end_block.unwrap()).collect();
    let ids: Vec<&str> = d.epochs.iter().map(|e| e.epoch_id.as_str()).collect();
    assert_eq!(starts, vec![0, 100, 200, 300]);
    assert_eq!(ends, vec![99, 199, 299, 350]);
    assert_eq!(ids, vec!["A", "B", "C", "D"]);
    // Coverage: each epoch ends right before the next starts, ids distinct.
    for i in 0..d.epochs.len() - 1 {
        assert_eq!(ends[i] + 1, starts[i + 1]);
    }
    for i in 0..ids.len() {
        for j in i + 1..ids.len() {
            assert_ne!(ids[i], ids[j]);
        }
    }
}

#[test]
fn test_discovery_rejects_bad_boundaries() {
    let mut d = DiscoveryState::new(0, 350, 100, "A".to_string(), 10);
    assert_eq!(
        d.on_boundary(0, "B".to_string(), 20),
        Err(DiscoveryError::BoundaryOutOfRange)
    );
    assert_eq!(
        d.on_boundary(100, "A".to_string(), 20),
        Err(DiscoveryError::DuplicateEpochId)
    );
    d.on_boundary(100, "B".to_string(), 20).unwrap();
    // An id recorded earlier cannot return.
    assert_eq!(
        d.on_boundary(200, "A".to_string(), 30),
        Err(DiscoveryError::DuplicateEpochId)
    );
}

#[test]
fn test_epoch_end_bound() {
    let mut d = DiscoveryState::new(0, 350, 100, "A".to_string(), 10);
    d.on_boundary(100, "B".to_string(), 20).unwrap();
    d.finish();
    assert_eq!(epoch_end_bound(&d.epochs, 0), 99);
    assert_eq!(epoch_end_bound(&d.epochs, 1), u64::MAX);
}

#[test]
fn test_should_resync() {
    assert!(should_resync(100, 50000, 43200));
    assert!(!should_resync(100, 43300, 43200));
}
