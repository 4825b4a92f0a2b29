use excel_loader::batch::{next_chunk_end, CHUNK_ROWS};

#[test]
fn a_chunk_holds_a_thousand_rows() {
    assert_eq!(CHUNK_ROWS, 1000);
}

#[test]
fn chunks_end_after_a_thousand_rows_or_at_the_last() {
    assert_eq!(next_chunk_end(0, 2500), 1000);
    assert_eq!(next_chunk_end(1000, 2500), 2000);
    assert_eq!(next_chunk_end(2000, 2500), 2500);
    assert_eq!(next_chunk_end(0, 1000), 1000);
    assert_eq!(next_chunk_end(0, 1001), 1000);
    assert_eq!(next_chunk_end(1000, 1001), 1001);
    assert_eq!(next_chunk_end(0, 1), 1);
    assert_eq!(next_chunk_end(1, 1001), 1001);
    assert_eq!(next_chunk_end(1, 1002), 1001);
}

#[test]
fn nothing_is_left_past_the_last_row() {
    assert_eq!(next_chunk_end(0, 0), 0);
    assert_eq!(next_chunk_end(5, 5), 5);
    assert_eq!(next_chunk_end(9, 5), 5);
    assert_eq!(next_chunk_end(usize::MAX, usize::MAX), usize::MAX);
    assert_eq!(next_chunk_end(usize::MAX - 10, usize::MAX), usize::MAX);
}

#[test]
fn chunks_walk_over_all_rows() {
    let total = 3210usize;
    let mut start = 0usize;
    let mut sizes = Vec::new();
    while start < total {
        let end = next_chunk_end(start, total);
        sizes.push(end - start);
        start = end;
    }
    assert_eq!(sizes, vec![1000, 1000, 1000, 210]);
}
