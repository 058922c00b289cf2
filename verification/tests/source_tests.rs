use xlang::source::{LineIndex, Span};

#[test]
fn line_col_ascii() {
    // bytes: a=0 b=1 \n=2 c=3 d=4 \n=5 e=6 f=7
    let idx = LineIndex::new("ab\ncd\nef");
    assert_eq!(idx.line_col(0), (1, 1)); // 'a'
    assert_eq!(idx.line_col(1), (1, 2)); // 'b'
    assert_eq!(idx.line_col(3), (2, 1)); // 'c' (after \n at 2)
    assert_eq!(idx.line_col(6), (3, 1)); // 'e' (after \n at 5)
    assert_eq!(idx.line_count(), 3);
}

#[test]
fn line_col_multibyte() {
    // '中' = bytes 0..3, '文' = bytes 3..6, \n = 6, 'x' = 7
    let idx = LineIndex::new("中文\nx");
    assert_eq!(idx.line_col(0), (1, 1)); // 中 start
    assert_eq!(idx.line_col(3), (1, 4)); // 文 start (byte offset 3 → col 4)
    assert_eq!(idx.line_col(7), (2, 1)); // 'x'
}



#[test]
fn span_merge_covers_both() {
    let a = Span::new(0, 5, 10);
    let b = Span::new(0, 8, 20);
    assert_eq!(a.merge(b), Span::new(0, 5, 20));
}



#[test]
fn line_count_is_newlines_plus_one() {
    assert_eq!(LineIndex::new("").line_count(), 1);
    assert_eq!(LineIndex::new("ab").line_count(), 1);
    assert_eq!(LineIndex::new("ab\n").line_count(), 2);
    assert_eq!(LineIndex::new("\n\n\n").line_count(), 4);
}

#[test]
fn line_col_is_ordered_and_ends_on_the_last_line() {
    let src = "ab\ncd\n\nef";
    let idx = LineIndex::new(src);
    let mut prev = (1usize, 1usize);
    for off in 0..=(src.len() as u32 + 3) {
        let lc = idx.line_col(off);
        assert!(lc >= prev, "{off}: {lc:?} < {prev:?}");
        assert!(lc.0 >= 1 && lc.0 <= idx.line_count() && lc.1 >= 1);
        prev = lc;
    }
    assert_eq!(idx.line_col(src.len() as u32 + 3), (4, 6));
}

#[test]
fn line_is_newlines_before_plus_one_and_column_counts_bytes() {
    let idx = LineIndex::new("aé\nb\n\nc");
    assert_eq!(idx.line_col(0), (1, 1));
    assert_eq!(idx.line_col(1), (1, 2));
    assert_eq!(idx.line_col(3), (1, 4));
    assert_eq!(idx.line_col(4), (2, 1));
    assert_eq!(idx.line_col(5), (2, 2));
    assert_eq!(idx.line_col(6), (3, 1));
    assert_eq!(idx.line_col(7), (4, 1));
}
