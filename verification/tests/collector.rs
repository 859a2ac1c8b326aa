use sampling_profiler::collector::Collector;
use sampling_profiler::error::Error;
use sampling_profiler::frames::UnresolvedFrames;

fn sample(stack: &[u64], label: &[u8], thread_id: u64) -> UnresolvedFrames {
    UnresolvedFrames::new(stack, label, thread_id)
}

#[test]
fn new_collector_is_empty() {
    let collector = Collector::new().unwrap();
    assert!(collector.is_empty());
    assert_eq!(collector.len(), 0);
    assert_eq!(collector.total_weight(), 0);
    assert!(collector.get(0).is_none());
    assert_eq!(collector.weight_of(&sample(&[1], b"a", 1)), 0);
}

#[test]
fn add_counts_a_new_identity() {
    let mut collector = Collector::new().unwrap();
    assert_eq!(collector.add(sample(&[1, 2], b"a", 1), 1), Ok(()));
    assert!(!collector.is_empty());
    assert_eq!(collector.len(), 1);
    assert_eq!(collector.total_weight(), 1);
    assert_eq!(collector.weight_of(&sample(&[1, 2], b"a", 1)), 1);
    assert_eq!(collector.weight_of(&sample(&[1, 3], b"a", 1)), 0);
    let entry = collector.get(0).unwrap();
    assert_eq!(entry.count(), 1);
    assert_eq!(entry.item().frames(), &[1, 2]);
    assert_eq!(entry.item().thread_name(), b"a");
    assert_eq!(entry.item().thread_id(), 1);
}

#[test]
fn add_folds_a_known_identity() {
    let mut collector = Collector::new().unwrap();
    assert_eq!(collector.add(sample(&[1, 2], b"a", 1), 3), Ok(()));
    assert_eq!(collector.add(sample(&[1, 2], b"a", 1), 4), Ok(()));
    assert_eq!(collector.len(), 1);
    assert_eq!(collector.total_weight(), 7);
    assert_eq!(collector.weight_of(&sample(&[1, 2], b"a", 1)), 7);
    assert_eq!(collector.get(0).unwrap().count(), 7);
    assert!(collector.get(1).is_none());
}

#[test]
fn add_keeps_the_first_sample_of_an_identity() {
    let mut collector = Collector::new().unwrap();
    collector.add(sample(&[9], b"pool", 100), 1).unwrap();
    collector.add(sample(&[9], b"pool", 200), 1).unwrap();
    assert_eq!(collector.len(), 1);
    let entry = collector.get(0).unwrap();
    assert_eq!(entry.item().thread_id(), 100);
    assert_eq!(entry.count(), 2);
}

#[test]
fn add_keeps_identities_in_order_of_arrival() {
    let mut collector = Collector::new().unwrap();
    collector.add(sample(&[1], b"a", 1), 1).unwrap();
    collector.add(sample(&[2], b"a", 1), 5).unwrap();
    collector.add(sample(&[1], b"b", 2), 2).unwrap();
    collector.add(sample(&[2], b"a", 1), 1).unwrap();
    collector.add(sample(&[1], b"a", 1), 10).unwrap();
    assert_eq!(collector.len(), 3);
    assert_eq!(collector.total_weight(), 19);
    let first = collector.get(0).unwrap();
    assert_eq!((first.item().frames(), first.item().thread_name(), first.count()), (&[1u64][..], &b"a"[..], 11));
    let second = collector.get(1).unwrap();
    assert_eq!((second.item().frames(), second.item().thread_name(), second.count()), (&[2u64][..], &b"a"[..], 6));
    let third = collector.get(2).unwrap();
    assert_eq!((third.item().frames(), third.item().thread_name(), third.count()), (&[1u64][..], &b"b"[..], 2));
    assert!(collector.get(3).is_none());
    assert!(collector.get(usize::MAX).is_none());
}

#[test]
fn add_of_weight_zero_makes_an_entry() {
    let mut collector = Collector::new().unwrap();
    assert_eq!(collector.add(sample(&[1], b"a", 1), 0), Ok(()));
    assert_eq!(collector.len(), 1);
    assert!(!collector.is_empty());
    assert_eq!(collector.total_weight(), 0);
    assert_eq!(collector.weight_of(&sample(&[1], b"a", 1)), 0);
}

#[test]
fn add_takes_the_largest_weight() {
    let mut collector = Collector::new().unwrap();
    assert_eq!(collector.add(sample(&[1], b"a", 1), u32::MAX), Ok(()));
    assert_eq!(collector.add(sample(&[1], b"a", 1), u32::MAX), Ok(()));
    assert_eq!(collector.add(sample(&[2], b"a", 1), u32::MAX), Ok(()));
    assert_eq!(collector.total_weight(), 3 * (u32::MAX as u64));
    assert_eq!(collector.weight_of(&sample(&[1], b"a", 1)), 2 * (u32::MAX as u64));
    assert_eq!(collector.weight_of(&sample(&[2], b"a", 1)), u32::MAX as u64);
}

#[test]
fn total_is_the_sum_of_the_entries() {
    let mut collector = Collector::new().unwrap();
    for round in 0..50u64 {
        for id in 0..7u64 {
            collector.add(sample(&[id, id + 1], b"t", id), (round % 3) as u32).unwrap();
        }
    }
    assert_eq!(collector.len(), 7);
    let mut sum = 0;
    let mut index = 0;
    while let Some(entry) = collector.get(index) {
        sum += entry.count();
        index += 1;
    }
    assert_eq!(index, 7);
    assert_eq!(sum, collector.total_weight());
    assert_eq!(sum, 7 * (17 + 2 * 16));
}

#[test]
fn no_identity_is_held_twice() {
    let mut collector = Collector::new().unwrap();
    for round in 0..20u64 {
        for id in 0..10u64 {
            collector.add(sample(&[id % 5], b"t", round), 1).unwrap();
        }
    }
    assert_eq!(collector.len(), 5);
    for i in 0..collector.len() {
        for j in (i + 1)..collector.len() {
            let a = collector.get(i).unwrap().item();
            let b = collector.get(j).unwrap().item();
            assert!(!a.same_stack(b));
        }
    }
    assert_eq!(collector.total_weight(), 200);
}

#[test]
fn aggregator_error_is_an_error_of_its_own() {
    assert_ne!(Error::AggregatorError, Error::CreatingError);
    assert_ne!(Error::AggregatorError, Error::AlreadyRunning);
    assert_ne!(Error::AggregatorError, Error::NotRunning);
}
