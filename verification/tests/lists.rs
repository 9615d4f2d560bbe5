use textrender::{render_to_string, IndexedList, LimitedSink, Renderable, Sink, TextSink, WriteError};

fn text_of(items: Vec<i32>) -> String {
    render_to_string(&IndexedList::new(items))
}

#[test]
fn list_of_three() {
    assert_eq!(text_of(vec![1, 2, 3]), "[0: 1, 1: 2, 2: 3]");
}

#[test]
fn empty_list_is_two_brackets() {
    assert_eq!(text_of(vec![]), "[]");
}

#[test]
fn list_of_one_has_no_comma() {
    assert_eq!(text_of(vec![42]), "[0: 42]");
}

#[test]
fn list_with_negative_and_extreme_items() {
    assert_eq!(
        text_of(vec![-1, 0, i32::MIN, i32::MAX]),
        "[0: -1, 1: 0, 2: -2147483648, 3: 2147483647]"
    );
}

#[test]
fn list_matches_join_of_labelled_items() {
    let items: Vec<i32> = vec![5, -7, 0, 1000, 12, 9, 8, 7, 6, 5, 4, 3];
    let mut labelled: Vec<String> = Vec::new();
    for (i, v) in items.iter().enumerate() {
        labelled.push(format!("{}: {}", i, v));
    }
    let expected = format!("[{}]", labelled.join(", "));
    assert_eq!(text_of(items), expected);
}

#[test]
fn list_index_reaches_two_digits() {
    let text = text_of(vec![0; 11]);
    assert!(text.ends_with(", 9: 0, 10: 0]"));
}

#[test]
fn list_keeps_its_items() {
    let list = IndexedList::new(vec![3, 1, 2]);
    assert_eq!(list.len(), 3);
    assert_eq!(list.items(), &vec![3, 1, 2]);
    let mut sink = TextSink::new();
    assert_eq!(list.render(&mut sink), Ok(()));
    assert_eq!(list.items(), &vec![3, 1, 2]);
}

#[test]
fn list_appends_to_what_the_sink_holds() {
    let mut sink = TextSink::new();
    assert_eq!(sink.write_str("items = "), Ok(()));
    assert_eq!(IndexedList::new(vec![7, 8]).render(&mut sink), Ok(()));
    assert_eq!(sink.as_str(), "items = [0: 7, 1: 8]");
    assert_eq!(sink.into_string(), "items = [0: 7, 1: 8]");
}

#[test]
fn list_makes_one_write_per_piece() {
    // Five pieces: the two brackets and three entries.
    let mut sink = LimitedSink::new(5);
    assert_eq!(IndexedList::new(vec![1, 2, 3]).render(&mut sink), Ok(()));
    assert_eq!(sink.as_str(), "[0: 1, 1: 2, 2: 3]");
    assert_eq!(sink.remaining(), 0);
    assert_eq!(sink.refused(), 0);
}

#[test]
fn list_stops_at_the_first_refused_write() {
    let expected = ["", "[", "[0: 1", "[0: 1, 1: 2", "[0: 1, 1: 2, 2: 3"];
    for (limit, held) in expected.iter().enumerate() {
        let mut sink = LimitedSink::new(limit);
        let r = IndexedList::new(vec![1, 2, 3]).render(&mut sink);
        assert_eq!(r, Err(WriteError));
        assert_eq!(sink.as_str(), *held);
        assert_eq!(sink.refused(), 1);
        assert_eq!(sink.remaining(), 0);
    }
}

#[test]
fn empty_list_on_a_closed_sink() {
    let mut sink = LimitedSink::new(0);
    assert_eq!(IndexedList::new(vec![]).render(&mut sink), Err(WriteError));
    assert_eq!(sink.as_str(), "");
    assert_eq!(sink.refused(), 1);
}

#[test]
fn limited_sink_counts_every_refusal() {
    let mut sink = LimitedSink::new(1);
    assert_eq!(sink.write_str("a"), Ok(()));
    assert_eq!(sink.write_str("b"), Err(WriteError));
    assert_eq!(sink.write_str("c"), Err(WriteError));
    assert_eq!(sink.as_str(), "a");
    assert_eq!(sink.refused(), 2);
    assert_eq!(sink.remaining(), 0);
}

#[test]
fn list_hands_out_its_pieces_in_turn() {
    let list = IndexedList::new(vec![1, 2, 3]);
    let expected = ["[", "0: 1", ", 1: 2", ", 2: 3", "]"];
    for (k, piece) in expected.iter().enumerate() {
        assert_eq!(list.piece(k), Some(piece.to_string()));
    }
    assert_eq!(list.piece(5), None);
    assert_eq!(list.piece(usize::MAX), None);
}

#[test]
fn empty_list_has_two_pieces() {
    let list = IndexedList::new(vec![]);
    assert_eq!(list.piece(0), Some("[".to_string()));
    assert_eq!(list.piece(1), Some("]".to_string()));
    assert_eq!(list.piece(2), None);
}

#[test]
fn pieces_laid_end_to_end_are_the_text() {
    let list = IndexedList::new(vec![-4, 44, 444]);
    let mut joined = String::new();
    let mut k = 0;
    while let Some(piece) = list.piece(k) {
        joined.push_str(&piece);
        k += 1;
    }
    assert_eq!(joined, render_to_string(&list));
    assert_eq!(joined, "[0: -4, 1: 44, 2: 444]");
}

#[test]
fn entry_text_leads_with_a_comma_after_the_first() {
    assert_eq!(IndexedList::entry_text(0, -5), "0: -5");
    assert_eq!(IndexedList::entry_text(1, 5), ", 1: 5");
    assert_eq!(IndexedList::entry_text(12, i32::MIN), ", 12: -2147483648");
}
