use extension_version_watcher::batching::{plan_batches, sort_files_desc, FileEntry, WORKER_COUNT};

fn entries(sizes: &[u64]) -> Vec<FileEntry> {
    sizes
        .iter()
        .enumerate()
        .map(|(i, s)| FileEntry { path: format!("f{i}"), size: *s })
        .collect()
}

fn batch_total(batch: &Vec<FileEntry>) -> u64 {
    batch.iter().map(|f| f.size).sum()
}

#[test]
fn twelve_skewed_files_stay_balanced_over_five_workers() {
    let sizes: [u64; 12] = [900000, 400, 300, 250, 200, 150, 100, 80, 60, 40, 20, 10];
    let total: u64 = sizes.iter().sum();
    let max: u64 = *sizes.iter().max().unwrap();
    let batches = plan_batches(entries(&sizes), WORKER_COUNT);
    assert_eq!(batches.len(), 5);
    let mut count = 0;
    for batch in &batches {
        count += batch.len();
        let t = batch_total(batch);
        // No batch exceeds the even share by more than one (maximal) file.
        assert!(5 * t <= total + 4 * max);
    }
    assert_eq!(count, 12);
    let spread: u64 = batches.iter().map(batch_total).sum();
    assert_eq!(spread, total);
}

#[test]
fn batch_count_never_exceeds_worker_count() {
    let sizes: Vec<u64> = (1..=100u64).collect();
    let batches = plan_batches(entries(&sizes), WORKER_COUNT);
    assert_eq!(batches.len(), 5);
    let count: usize = batches.iter().map(|b| b.len()).sum();
    assert_eq!(count, 100);
}

#[test]
fn one_oversized_file_does_not_starve_other_workers() {
    let sizes: [u64; 6] = [1000000, 10, 10, 10, 10, 10];
    let batches = plan_batches(entries(&sizes), WORKER_COUNT);
    // The oversized file sits alone; the small files share the other batches.
    let mut with_large = 0;
    for batch in &batches {
        if batch.iter().any(|f| f.size == 1000000) {
            with_large += 1;
            assert_eq!(batch.len(), 1);
        }
    }
    assert_eq!(with_large, 1);
}

#[test]
fn no_files_gives_empty_batches() {
    let batches = plan_batches(Vec::new(), WORKER_COUNT);
    assert_eq!(batches.len(), 5);
    for batch in &batches {
        assert!(batch.is_empty());
    }
}

#[test]
fn files_are_sorted_by_descending_size() {
    let sizes: [u64; 5] = [3, 100, 7, 100, 1];
    let sorted = sort_files_desc(entries(&sizes));
    let got: Vec<u64> = sorted.iter().map(|f| f.size).collect();
    assert_eq!(got, vec![100, 100, 7, 3, 1]);
}

#[test]
fn uniform_files_spread_across_all_batches() {
    let sizes: [u64; 10] = [10; 10];
    let batches = plan_batches(entries(&sizes), WORKER_COUNT);
    for batch in &batches {
        assert_eq!(batch.len(), 2);
    }
}
