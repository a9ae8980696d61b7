use rs_lox::span::{cite_span, Liner};

const TXT: &str = "hello\ni\nlove you\nwont you tell me your name";

fn liner_helper(pos: usize, cor_line: u32, cor_ch: u32) {
    let liner = Liner::from_str(TXT);
    let span = liner.get_span(pos);

    assert_eq!(span.line, cor_line);
    assert_eq!(span.ch_in_line, cor_ch);
}

#[test]
fn liner_in_first() {
    liner_helper(2, 1u32, 2u32);
}

#[test]
fn liner_in_mid() {
    liner_helper(10, 3u32, 3u32);
}

#[test]
fn liner_in_last() {
    liner_helper(20, 4, 4);
}

#[test]
fn it_works() {
    let result = 2 + 2;
    assert_eq!(result, 4);
}

#[test]
fn lib_it_works() {
    let result = 2 + 2;
    assert_eq!(result, 4);
}

#[test]
fn span_on_a_line_feed_belongs_to_the_line_it_ends() {
    let liner = Liner::from_str(TXT);
    let span = liner.get_span(5);
    assert_eq!(span.line, 1);
    assert_eq!(span.ch_in_line, 5);
    assert_eq!(span.abs_ch, 5);
    let span = liner.get_span(6);
    assert_eq!(span.line, 2);
    assert_eq!(span.ch_in_line, 1);
}

#[test]
fn cite_marks_the_stretch_on_one_line() {
    let cited = cite_span("print x", 6, 7);
    assert_eq!(cited, " 1 | print x\n   |       ^\n");
}

#[test]
fn cite_spans_lines() {
    let cited = cite_span("ab\ncd\nef", 1, 7);
    // the first line from the offset on, the line between marked whole and without a line
    // feed behind its marks, the last line up to the offset counted from the line feed
    assert_eq!(cited, " 1 | ab\n   |  ^\n 2 | cd\n   | ^^ 3 | ef\n   | ^^\n");
}

#[test]
fn cite_past_the_end_of_a_later_line_has_no_marks() {
    let cited = cite_span("var a = 1;\nprint a", 18, 18);
    assert_eq!(cited, " 2 | print a\n   |         \n");
}

#[test]
fn cite_numbers_lines_in_decimal() {
    let mut text = String::new();
    for _ in 0..11 {
        text.push_str("x\n");
    }
    text.push_str("yz");
    let cited = cite_span(&text, 23, 24);
    assert_eq!(cited, " 12 | yz\n   |   \n");
}
