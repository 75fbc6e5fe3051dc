use mini_pascal::source::create_source;

#[test]
fn test_get_next_char() {
    let t = "\
        var i: int := 3;\n
        var b: int := i + 5;\n";
    let text = String::from(t);
    let mut source = create_source(text);
    assert_eq!(source.get_next_char(), 'v');
    assert_eq!(source.get_next_char(), 'a');
    assert_eq!(source.get_next_char(), 'r');
    let mut c = '\0';
    while !source.end_of_file() {
        c = source.get_next_char();
    }
    assert_eq!(c, '\n');
}

#[test]
fn peek_does_not_move_and_reverse_steps_back_over_lines() {
    let mut source = create_source(String::from("a\nb"));
    assert_eq!(source.peek(), 'a');
    assert_eq!((source.get_row(), source.get_column()), (0, 0));
    source.reverse();
    assert_eq!((source.get_row(), source.get_column()), (0, 0));
    assert_eq!(source.get_next_char(), 'a');
    assert_eq!(source.get_next_char(), '\n');
    assert_eq!((source.get_row(), source.get_column()), (1, 0));
    source.reverse();
    assert_eq!((source.get_row(), source.get_column()), (0, 1));
    assert_eq!(source.peek(), '\n');
    source.get_next_char();
    assert_eq!(source.get_next_char(), 'b');
    assert_eq!(source.get_next_char(), '\n');
    assert!(source.end_of_file());
    assert_eq!(source.peek(), '\0');
    assert_eq!(source.get_next_char(), '\0');
    assert!(source.end_of_file());
}

#[test]
fn lines_end_at_newlines_with_or_without_carriage_return() {
    let mut source = create_source(String::from("a\r\n\nb\r"));
    let mut all = String::new();
    while !source.end_of_file() {
        all.push(source.get_next_char());
    }
    assert_eq!(all, "a\n\nb\r\n");
}

#[test]
fn empty_text_is_at_its_end() {
    let mut source = create_source(String::new());
    assert!(source.end_of_file());
    assert_eq!(source.get_next_char(), '\0');
}
