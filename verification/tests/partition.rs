use boids::partition::{boundary, partition, worker_range};

fn starts_and_ends(n: usize, t: usize) -> Vec<(usize, usize)> {
    partition(n, t).into_iter().map(|r| (r.start, r.end)).collect()
}

#[test]
fn ten_agents_on_three_workers() {
    assert_eq!(starts_and_ends(10, 3), vec![(0, 4), (4, 7), (7, 10)]);
}

#[test]
fn population_that_divides_evenly() {
    let ranges = starts_and_ends(20000, 8);
    assert_eq!(ranges.len(), 8);
    for (i, (start, end)) in ranges.iter().enumerate() {
        assert_eq!(*start, 2500 * i);
        assert_eq!(*end, 2500 * (i + 1));
    }
}

#[test]
fn more_workers_than_agents() {
    assert_eq!(
        starts_and_ends(3, 8),
        vec![(0, 1), (1, 1), (1, 2), (2, 2), (2, 2), (2, 3), (3, 3), (3, 3)]
    );
}

#[test]
fn empty_population() {
    assert_eq!(starts_and_ends(0, 4), vec![(0, 0), (0, 0), (0, 0), (0, 0)]);
}

#[test]
fn single_worker_takes_all() {
    assert_eq!(starts_and_ends(7, 1), vec![(0, 7)]);
}

#[test]
fn no_worker_no_range() {
    assert!(partition(7, 0).is_empty());
}

#[test]
fn boundary_is_the_ceiling() {
    assert_eq!(boundary(10, 3, 0), 0);
    assert_eq!(boundary(10, 3, 1), 4);
    assert_eq!(boundary(10, 3, 2), 7);
    assert_eq!(boundary(10, 3, 3), 10);
    assert_eq!(boundary(20000, 6, 1), 3334);
    assert_eq!(boundary(20000, 6, 3), 10000);
    assert_eq!(boundary(20000, 6, 5), 16667);
}

#[test]
fn boundary_at_the_machine_limit() {
    assert_eq!(boundary(usize::MAX, usize::MAX, usize::MAX), usize::MAX);
    assert_eq!(boundary(usize::MAX, usize::MAX, 1), 1);
    assert_eq!(boundary(usize::MAX, 2, 1), usize::MAX / 2 + 1);
    assert_eq!(boundary(usize::MAX, 2, 2), usize::MAX);
}

#[test]
fn worker_range_is_one_range_of_the_partition() {
    let all = partition(20000, 7);
    for i in 0..7 {
        assert_eq!(worker_range(20000, 7, i), all[i]);
    }
    assert_eq!(worker_range(20000, 7, 3), 8572..11429);
}

#[test]
fn every_agent_is_covered_exactly_once() {
    for n in [0usize, 1, 2, 5, 16, 17, 100, 1023] {
        for t in [1usize, 2, 3, 4, 7, 8, 16, 33] {
            let mut seen = vec![0u32; n];
            for range in partition(n, t) {
                assert!(range.start <= range.end);
                assert!(range.end <= n);
                for k in range {
                    seen[k] += 1;
                }
            }
            assert!(seen.iter().all(|&c| c == 1), "n = {}, t = {}", n, t);
        }
    }
}

#[test]
fn ranges_lie_end_to_end() {
    for (n, t) in [(20000usize, 12usize), (5, 9), (1, 1), (999, 10)] {
        let ranges = partition(n, t);
        assert_eq!(ranges.len(), t);
        assert_eq!(ranges[0].start, 0);
        assert_eq!(ranges[t - 1].end, n);
        for i in 0..t - 1 {
            assert_eq!(ranges[i].end, ranges[i + 1].start);
        }
    }
}

#[test]
fn ranges_are_as_even_as_possible() {
    for (n, t) in [(20000usize, 12usize), (20000, 7), (5, 9), (999, 10)] {
        for range in partition(n, t) {
            let len = range.end - range.start;
            assert!(len == n / t || len == (n + t - 1) / t);
        }
    }
}

#[test]
fn agent_k_belongs_to_worker_k_times_t_over_n() {
    for (n, t) in [(20000usize, 12usize), (10, 3), (3, 8), (999, 10), (1, 5)] {
        let ranges = partition(n, t);
        for k in 0..n {
            let owner = k * t / n;
            assert!(ranges[owner].contains(&k), "n = {}, t = {}, k = {}", n, t, k);
        }
    }
}
