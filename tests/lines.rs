use void_editor::lines::{build_lines, row_of_offset, Line};

#[test]
fn build_lines_records_each_newline() {
    let text: Vec<char> = "ab\n\ncd\n".chars().collect();
    let lines = build_lines(&text);
    let spans: Vec<(usize, usize)> = lines.iter().map(|l| (l.start, l.end)).collect();
    assert_eq!(vec![(0, 2), (3, 3), (4, 6)], spans);
}

#[test]
fn row_of_offset_takes_the_first_holding_line() {
    let lines = vec![Line::new(0, 2), Line::new(3, 3), Line::new(4, 6)];
    assert_eq!(0, row_of_offset(&lines, 2));
    assert_eq!(1, row_of_offset(&lines, 3));
    assert_eq!(2, row_of_offset(&lines, 5));
    assert_eq!(0, row_of_offset(&lines, 50));
}
