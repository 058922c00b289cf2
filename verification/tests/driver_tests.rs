use xlang::driver::read_limited;

#[test]
fn read_limited_marks_truncated_output() {
    let captured = read_limited(b"abcdef", 3);

    assert_eq!(captured.text, "abc");
    assert!(captured.truncated);
}
