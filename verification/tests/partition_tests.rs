use jolt::partition::partition_requests;

#[test]
fn ten_requests_four_workers() {
    let counts = partition_requests(10, 4);
    assert_eq!(counts, vec![3, 3, 2, 2]);
    let sum: usize = counts.iter().sum();
    assert_eq!(sum, 10);
}

#[test]
fn even_split() {
    let counts = partition_requests(100, 10);
    assert_eq!(counts, vec![10; 10]);
}

#[test]
fn single_worker_takes_all() {
    let counts = partition_requests(7, 1);
    assert_eq!(counts, vec![7]);
}

#[test]
fn more_workers_than_requests() {
    let counts = partition_requests(3, 5);
    assert_eq!(counts, vec![1, 1, 1, 0, 0]);
    let sum: usize = counts.iter().sum();
    assert_eq!(sum, 3);
}

#[test]
fn zero_requests() {
    let counts = partition_requests(0, 4);
    assert_eq!(counts, vec![0, 0, 0, 0]);
}

#[test]
fn shares_never_differ_by_more_than_one() {
    let counts = partition_requests(17, 5);
    assert_eq!(counts, vec![4, 4, 3, 3, 3]);
    let max = counts.iter().max().unwrap();
    let min = counts.iter().min().unwrap();
    assert!(max - min <= 1);
}
