use void_editor::gap_buffer::GapBuffer;

#[test]
fn test_insert() {
    let mut buffer = GapBuffer::new();

    buffer.insert("cara", 0);
    assert_eq!(String::from("cara"), buffer.to_string());
    buffer.insert("pyba", 2);
    assert_eq!(String::from("capybara"), buffer.to_string());
}

#[test]
fn test_insert_char() {
    let mut buffer = GapBuffer::new();

    buffer.insert_char('i', 0);
    assert_eq!(String::from("i"), buffer.to_string());
    buffer.insert_char('!', 1);
    assert_eq!(String::from("i!"), buffer.to_string());
    buffer.insert_char('H', 0);
    assert_eq!(String::from("Hi!"), buffer.to_string());
}

#[test]
fn test_delete_char() {
    let mut buffer = GapBuffer::new();

    buffer.insert("pepperoni", 0);
    buffer.delete_char(2);
    assert_eq!(String::from("peperoni"), buffer.to_string());
}

#[test]
fn test_buffer_overflow() {
    let mut buffer = GapBuffer::new();

    buffer.insert("pepperoni", 0);
    buffer.insert(" pepperidze", 9);
    assert_eq!(String::from("pepperoni pepperidze"), buffer.to_string());
}

#[test]
fn test_len() {
    let mut buffer = GapBuffer::new();

    buffer.insert("Capybara", 0);
    assert_eq!(8, buffer.len());
}

#[test]
fn empty_buffer_has_no_content() {
    let buffer = GapBuffer::new();
    assert_eq!(0, buffer.len());
    assert_eq!(String::new(), buffer.to_string());
    assert!(buffer.to_vec().is_empty());
}

#[test]
fn at_reads_across_the_gap() {
    let mut buffer = GapBuffer::new();
    buffer.insert("abcdef", 0);
    buffer.insert("X", 3);
    assert_eq!('a', buffer.at(0));
    assert_eq!('c', buffer.at(2));
    assert_eq!('X', buffer.at(3));
    assert_eq!('d', buffer.at(4));
    assert_eq!('f', buffer.at(6));
}

#[test]
fn inserts_before_the_gap_move_it_left() {
    let mut buffer = GapBuffer::new();
    buffer.insert("world", 0);
    buffer.insert("hello ", 0);
    assert_eq!(String::from("hello world"), buffer.to_string());
    buffer.delete_char(10);
    buffer.delete_char(0);
    assert_eq!(String::from("ello worl"), buffer.to_string());
}

#[test]
fn many_growths_keep_the_content() {
    let mut buffer = GapBuffer::new();
    let mut expected = String::new();
    for i in 0..100 {
        let c = (b'a' + (i % 26) as u8) as char;
        buffer.insert_char(c, i);
        expected.push(c);
    }
    assert_eq!(100, buffer.len());
    assert_eq!(expected, buffer.to_string());
    let chars: Vec<char> = expected.chars().collect();
    assert_eq!(chars, buffer.to_vec());
}

#[test]
fn insert_chars_puts_text_in_the_middle() {
    let mut buffer = GapBuffer::new();
    buffer.insert("ad", 0);
    buffer.insert_chars(&vec!['b', 'c'], 1);
    assert_eq!(String::from("abcd"), buffer.to_string());
}

#[test]
fn multibyte_characters_count_once() {
    let mut buffer = GapBuffer::new();
    buffer.insert("żółw", 0);
    assert_eq!(4, buffer.len());
    buffer.delete_char(1);
    assert_eq!(String::from("żłw"), buffer.to_string());
}
