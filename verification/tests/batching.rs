use zotero_csv_merge::batch::{split_batches, BATCH_SIZE};

fn sizes(n: usize) -> Vec<usize> {
    let data: Vec<usize> = (0..n).collect();
    split_batches(data).iter().map(|batch| batch.len()).collect()
}

#[test]
fn batch_size_is_fifty() {
    assert_eq!(BATCH_SIZE, 50);
}

#[test]
fn no_records_make_no_batch() {
    assert_eq!(sizes(0), Vec::<usize>::new());
}

#[test]
fn few_records_make_one_batch() {
    assert_eq!(sizes(1), vec![1]);
    assert_eq!(sizes(49), vec![49]);
    assert_eq!(sizes(50), vec![50]);
}

#[test]
fn last_batch_holds_the_remainder() {
    assert_eq!(sizes(51), vec![50, 1]);
    assert_eq!(sizes(120), vec![50, 50, 20]);
    assert_eq!(sizes(149), vec![50, 50, 49]);
}

#[test]
fn a_multiple_of_fifty_makes_full_batches_only() {
    assert_eq!(sizes(100), vec![50, 50]);
    assert_eq!(sizes(150), vec![50, 50, 50]);
}

#[test]
fn batches_laid_end_to_end_are_the_input() {
    for n in [0usize, 1, 49, 50, 51, 99, 100, 101, 120, 250, 333] {
        let data: Vec<usize> = (0..n).map(|i| i * 7 + 3).collect();
        let parts = split_batches(data.clone());
        let joined: Vec<usize> = parts.iter().flatten().copied().collect();
        assert_eq!(joined, data);
        assert_eq!(parts.len(), (n + 49) / 50);
        for (i, part) in parts.iter().enumerate() {
            if i + 1 < parts.len() {
                assert_eq!(part.len(), 50);
            } else if n % 50 == 0 {
                assert_eq!(part.len(), 50);
            } else {
                assert_eq!(part.len(), n % 50);
            }
        }
    }
}

#[test]
fn batches_keep_owned_values_in_order() {
    let data: Vec<String> = (0..53).map(|i| format!("item-{}", i)).collect();
    let parts = split_batches(data);
    assert_eq!(parts.len(), 2);
    assert_eq!(parts[0][0], "item-0");
    assert_eq!(parts[0][49], "item-49");
    assert_eq!(parts[1], vec!["item-50".to_string(), "item-51".to_string(), "item-52".to_string()]);
}
