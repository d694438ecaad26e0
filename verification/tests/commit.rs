use boids::commit::{complete, gather};
use boids::partition::partition;

#[test]
fn buffers_are_joined_in_worker_order() {
    let buffers = vec![vec![1, 2], vec![3], vec![], vec![4, 5]];
    assert_eq!(gather(buffers), vec![1, 2, 3, 4, 5]);
}

#[test]
fn no_buffers_no_forces() {
    let buffers: Vec<Vec<u8>> = Vec::new();
    assert!(gather(buffers).is_empty());
}

#[test]
fn empty_buffers_give_nothing() {
    let buffers: Vec<Vec<u8>> = vec![vec![], vec![], vec![]];
    assert!(gather(buffers).is_empty());
}

#[test]
fn forces_come_back_under_the_index_of_their_agent() {
    for (n, t) in [(20000usize, 12usize), (10, 3), (3, 8), (0, 2)] {
        let buffers: Vec<Vec<(usize, usize)>> = partition(n, t)
            .into_iter()
            .enumerate()
            .map(|(worker, range)| range.map(|agent| (worker, agent)).collect())
            .collect();
        let forces = gather(buffers);
        assert_eq!(forces.len(), n);
        for (k, (_, agent)) in forces.iter().enumerate() {
            assert_eq!(*agent, k);
        }
    }
}

#[test]
fn forces_need_not_be_copyable() {
    let buffers = vec![vec![String::from("a")], vec![String::from("b"), String::from("c")]];
    assert_eq!(gather(buffers), vec!["a", "b", "c"]);
}

#[test]
fn buffers_that_fill_their_ranges_are_complete() {
    let ranges = partition(10, 3);
    let buffers = vec![vec![0u8; 4], vec![0u8; 3], vec![0u8; 3]];
    assert!(complete(&buffers, &ranges));

    let none: Vec<Vec<u8>> = Vec::new();
    assert!(complete(&none, &partition(10, 0)));
    assert!(complete(&vec![Vec::<u8>::new(), Vec::new()], &partition(0, 2)));
}

#[test]
fn missing_buffer_is_noticed() {
    let ranges = partition(10, 3);
    let buffers = vec![vec![0u8; 4], vec![0u8; 3]];
    assert!(!complete(&buffers, &ranges));
}

#[test]
fn short_or_long_buffer_is_noticed() {
    let ranges = partition(10, 3);
    assert!(!complete(&vec![vec![0u8; 4], vec![0u8; 2], vec![0u8; 3]], &ranges));
    assert!(!complete(&vec![vec![0u8; 4], vec![0u8; 3], vec![0u8; 4]], &ranges));
    assert!(!complete(&vec![vec![0u8; 3], vec![0u8; 4], vec![0u8; 3]], &ranges));
}

#[test]
fn range_that_runs_backwards_is_never_filled() {
    let ranges = vec![5usize..2];
    assert!(!complete(&vec![Vec::<u8>::new()], &ranges));
    assert!(!complete(&vec![vec![0u8; 3]], &ranges));
}
