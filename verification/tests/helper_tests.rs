use grid_utils::sorting::argsort;
use grid_utils::strings::find_instances_of;

#[test]
fn argsort_distinct_values() {
    let v = [3, 1, 2];
    assert_eq!(argsort(&v), vec![1, 2, 0]);
}

#[test]
fn argsort_empty() {
    let v: [i32; 0] = [];
    assert_eq!(argsort(&v), Vec::<usize>::new());
}

#[test]
fn argsort_already_sorted() {
    let v = [10, 20, 30, 40];
    assert_eq!(argsort(&v), vec![0, 1, 2, 3]);
}

#[test]
fn argsort_reverse_sorted() {
    let v = [9, 7, 5, 3];
    assert_eq!(argsort(&v), vec![3, 2, 1, 0]);
}

#[test]
fn argsort_with_duplicates_is_stable() {
    let v = [2, 1, 2, 0];
    let idx = argsort(&v);
    assert_eq!(idx, vec![3, 1, 0, 2]);
    for w in idx.windows(2) {
        assert!(v[w[0]] <= v[w[1]]);
    }
}

#[test]
fn find_instances_basic() {
    assert_eq!(find_instances_of("abcabc", "abc"), vec![0, 3]);
}

#[test]
fn find_instances_non_overlapping() {
    assert_eq!(find_instances_of("aaaa", "aa"), vec![0, 2]);
}

#[test]
fn find_instances_overlap_skipped() {
    assert_eq!(find_instances_of("ababa", "aba"), vec![0]);
}

#[test]
fn find_instances_no_match() {
    assert_eq!(find_instances_of("hello", "x"), Vec::<usize>::new());
}

#[test]
fn find_instances_needle_longer_than_haystack() {
    assert_eq!(find_instances_of("ab", "abc"), Vec::<usize>::new());
}

#[test]
fn find_instances_whole_string() {
    assert_eq!(find_instances_of("word", "word"), vec![0]);
}
