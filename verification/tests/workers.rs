use boids::partition::partition;
use boids::workers::assign;

#[test]
fn one_range_per_processor() {
    let ranges = assign(20000);
    assert_eq!(ranges.len(), num_cpus::get());
    assert_eq!(ranges, partition(20000, num_cpus::get()));
}

#[test]
fn assigned_ranges_cover_the_population() {
    for n in [0usize, 1, 13, 20000] {
        let ranges = assign(n);
        assert!(!ranges.is_empty());
        assert_eq!(ranges[0].start, 0);
        assert_eq!(ranges[ranges.len() - 1].end, n);
        let mut next = 0;
        for range in ranges {
            assert_eq!(range.start, next);
            assert!(range.start <= range.end);
            next = range.end;
        }
        assert_eq!(next, n);
    }
}
