use mccs::files::{init, load_file_src, ref_file, FileError};
use mccs::span::SrcScope;

#[test]
fn registering_hands_out_handles_in_order() {
    let mut mgr = init();
    assert_eq!(mgr.len(), 0);
    let a = load_file_src(&mut mgr, "a.mccs", "first");
    let b = load_file_src(&mut mgr, "b.mccs", "second");
    assert_eq!(mgr.len(), 2);
    assert_ne!(a, b);
    assert_eq!(ref_file(&mgr, 0), Ok(a));
    assert_eq!(ref_file(&mgr, 1), Ok(b));
    assert_eq!(a.source(&mgr).unwrap(), "first");
    assert_eq!(a.path(&mgr).unwrap(), "a.mccs");
    assert_eq!(b.source(&mgr).unwrap(), "second");
    assert_eq!(b.path(&mgr).unwrap(), "b.mccs");
}

#[test]
fn earlier_handles_stay_valid_when_files_are_added() {
    let mut mgr = init();
    let a = load_file_src(&mut mgr, "a.mccs", "first");
    let _ = load_file_src(&mut mgr, "b.mccs", "second");
    let _ = load_file_src(&mut mgr, "c.mccs", "third");
    assert_eq!(a.source(&mgr).unwrap(), "first");
}

#[test]
fn a_handle_past_the_end_is_out_of_range() {
    let mgr = init();
    assert_eq!(ref_file(&mgr, 0), Err(FileError::OutOfRange));
    let mut other = init();
    let foreign = load_file_src(&mut other, "x.mccs", "text");
    assert_eq!(foreign.source(&mgr), Err(FileError::OutOfRange));
    assert_eq!(foreign.path(&mgr), Err(FileError::OutOfRange));
    assert_eq!(foreign.line_source(&mgr, 0), Err(FileError::OutOfRange));
    assert_eq!(foreign.get_line_pos(&mgr, 0), Err(FileError::OutOfRange));
    let scope = SrcScope { start: 0, end: 1, file: foreign };
    assert_eq!(scope.lines(&mgr), Err(FileError::OutOfRange));
}

#[test]
fn line_source_gives_the_line_without_its_newline() {
    let mut mgr = init();
    let f = load_file_src(&mut mgr, "a.mccs", "one\ntwo\n\nfour");
    assert_eq!(f.line_source(&mgr, 0).unwrap(), "one");
    assert_eq!(f.line_source(&mgr, 1).unwrap(), "two");
    assert_eq!(f.line_source(&mgr, 2).unwrap(), "");
    assert_eq!(f.line_source(&mgr, 3).unwrap(), "four");
}

#[test]
fn line_source_past_the_end_is_empty() {
    let mut mgr = init();
    let f = load_file_src(&mut mgr, "a.mccs", "one\ntwo");
    assert_eq!(f.line_source(&mgr, 2).unwrap(), "");
    assert_eq!(f.line_source(&mgr, 100).unwrap(), "");
}

#[test]
fn get_line_pos_gives_the_offset_of_the_first_character() {
    let mut mgr = init();
    let f = load_file_src(&mut mgr, "a.mccs", "one\ntwo\n\nfour");
    assert_eq!(f.get_line_pos(&mgr, 0), Ok(0));
    assert_eq!(f.get_line_pos(&mgr, 1), Ok(4));
    assert_eq!(f.get_line_pos(&mgr, 2), Ok(8));
    assert_eq!(f.get_line_pos(&mgr, 3), Ok(9));
}

#[test]
fn get_line_pos_counts_characters_not_bytes() {
    let mut mgr = init();
    let f = load_file_src(&mut mgr, "a.mccs", "héé\nx");
    assert_eq!(f.get_line_pos(&mgr, 1), Ok(4));
}

#[test]
fn get_line_pos_fails_for_a_line_the_file_lacks() {
    let mut mgr = init();
    let f = load_file_src(&mut mgr, "a.mccs", "one\ntwo");
    assert_eq!(f.get_line_pos(&mgr, 2), Err(FileError::LineNotFound));
    assert_eq!(f.get_line_pos(&mgr, 9), Err(FileError::LineNotFound));
}

#[test]
fn the_last_line_may_be_empty() {
    let mut mgr = init();
    let f = load_file_src(&mut mgr, "a.mccs", "one\n");
    assert_eq!(f.get_line_pos(&mgr, 1), Ok(4));
    assert_eq!(f.get_line_pos(&mgr, 2), Err(FileError::LineNotFound));
    let e = load_file_src(&mut mgr, "e.mccs", "");
    assert_eq!(e.get_line_pos(&mgr, 0), Ok(0));
    assert_eq!(e.get_line_pos(&mgr, 1), Err(FileError::LineNotFound));
}

#[test]
fn joining_spans_of_one_file_covers_both() {
    let mut mgr = init();
    let f = load_file_src(&mut mgr, "a.mccs", "0123456789");
    let a = SrcScope { start: 1, end: 3, file: f };
    let b = SrcScope { start: 5, end: 8, file: f };
    assert_eq!(a.join(&b), Some(SrcScope { start: 1, end: 8, file: f }));
    assert_eq!(a.join(&a), Some(a));
}

#[test]
fn joining_spans_of_two_files_is_rejected() {
    let mut mgr = init();
    let f = load_file_src(&mut mgr, "a.mccs", "0123456789");
    let g = load_file_src(&mut mgr, "b.mccs", "0123456789");
    let a = SrcScope { start: 1, end: 3, file: f };
    let b = SrcScope { start: 5, end: 8, file: g };
    assert_eq!(a.join(&b), None);
    assert_eq!(b.join(&a), None);
}

#[test]
fn span_len_is_the_number_of_characters() {
    let mut mgr = init();
    let f = load_file_src(&mut mgr, "a.mccs", "0123456789");
    assert_eq!(SrcScope { start: 2, end: 7, file: f }.len(), 5);
    assert_eq!(SrcScope { start: 4, end: 4, file: f }.len(), 0);
}

#[test]
fn a_span_within_one_line_covers_that_line() {
    let mut mgr = init();
    let f = load_file_src(&mut mgr, "a.mccs", "one\ntwo\nthree");
    assert_eq!(SrcScope { start: 0, end: 3, file: f }.lines(&mgr).unwrap(), vec![0]);
    assert_eq!(SrcScope { start: 4, end: 7, file: f }.lines(&mgr).unwrap(), vec![1]);
    assert_eq!(SrcScope { start: 9, end: 13, file: f }.lines(&mgr).unwrap(), vec![2]);
}

#[test]
fn a_span_over_newlines_covers_every_line_it_reaches() {
    let mut mgr = init();
    let f = load_file_src(&mut mgr, "a.mccs", "one\ntwo\nthree");
    assert_eq!(SrcScope { start: 1, end: 6, file: f }.lines(&mgr).unwrap(), vec![0, 1]);
    assert_eq!(SrcScope { start: 1, end: 13, file: f }.lines(&mgr).unwrap(), vec![0, 1, 2]);
    assert_eq!(SrcScope { start: 1, end: 3, file: f }.lines(&mgr).unwrap(), vec![0]);
    assert_eq!(SrcScope { start: 1, end: 4, file: f }.lines(&mgr).unwrap(), vec![0, 1]);
    assert_eq!(SrcScope { start: 1, end: 5, file: f }.lines(&mgr).unwrap(), vec![0, 1]);
    assert_eq!(SrcScope { start: 3, end: 5, file: f }.lines(&mgr).unwrap(), vec![0]);
}

#[test]
fn an_empty_span_covers_the_line_it_stands_on() {
    let mut mgr = init();
    let f = load_file_src(&mut mgr, "a.mccs", "one\ntwo");
    assert_eq!(SrcScope { start: 5, end: 5, file: f }.lines(&mgr).unwrap(), vec![1]);
    assert_eq!(SrcScope { start: 7, end: 7, file: f }.lines(&mgr).unwrap(), vec![1]);
    let e = load_file_src(&mut mgr, "e.mccs", "");
    assert_eq!(SrcScope { start: 0, end: 0, file: e }.lines(&mgr).unwrap(), vec![0]);
}

#[test]
fn a_span_that_reaches_past_the_text_stops_at_its_end() {
    let mut mgr = init();
    let f = load_file_src(&mut mgr, "a.mccs", "one\ntwo");
    assert_eq!(SrcScope { start: 0, end: 100, file: f }.lines(&mgr).unwrap(), vec![0, 1]);
    assert_eq!(SrcScope { start: 50, end: 100, file: f }.lines(&mgr).unwrap(), vec![1]);
}
