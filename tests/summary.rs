use dicom_thumbs::summary::{summarize, BatchSummary};

#[test]
fn one_corrupt_item_among_four() {
    let s = summarize(&vec![true, false, true, true]);
    assert_eq!(s, BatchSummary { processed: 4, succeeded: 3 });
}

#[test]
fn order_of_outcomes_does_not_matter() {
    assert_eq!(summarize(&vec![false, true, true]), summarize(&vec![true, true, false]));
}

#[test]
fn empty_batch() {
    assert_eq!(summarize(&vec![]), BatchSummary { processed: 0, succeeded: 0 });
}

#[test]
fn all_failed() {
    assert_eq!(summarize(&vec![false, false]), BatchSummary { processed: 2, succeeded: 0 });
}
