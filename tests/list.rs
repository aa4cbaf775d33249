use cons_render::list::List;
use cons_render::render::{render, BoundedSink, RenderError, RenderRequest, StructuralRender, DisplayRender, TextBuffer};

#[test]
fn empty_list() {
    let empty = List::new();
    assert!(empty.ele() == None);
}

#[test]
fn list_with_an_value() {
    let list = List::from(10);
    assert_eq!(list.ele(), Some(10));
}

#[test]
fn list_len() {
    let list = List::new();
    let list = list.prepend(10);
    let list = list.prepend(20);
    assert_eq!(list.len(), 2);
}

#[test]
fn list_elements() {
    let list = List::from(1);
    let list = list.prepend(2);
    let list = list.prepend(3);
    assert_eq!(list.arr(), vec![3, 2, 1]);
}

fn three_two_one() -> List {
    List::from(1).prepend(2).prepend(3)
}

#[test]
fn empty_list_scenario() {
    let s = List::new();
    assert_eq!(s.len(), 0);
    assert_eq!(s.ele(), None);
    assert_eq!(s.arr(), Vec::<u32>::new());
    assert_eq!(render(&s, RenderRequest::Display), "Nil");
}

#[test]
fn singleton_scenario() {
    let s = List::from(10);
    assert_eq!(s.len(), 1);
    assert_eq!(s.ele(), Some(10));
    assert_eq!(render(&s, RenderRequest::Display), "10 -> Nil");
}

#[test]
fn three_element_scenario() {
    let s = three_two_one();
    assert_eq!(s.arr(), vec![3, 2, 1]);
    assert_eq!(s.len(), 3);
    assert_eq!(render(&s, RenderRequest::Display), "3 -> 2 -> 1 -> Nil");
}

#[test]
fn failing_sink_stops_after_first_refusal() {
    let s = three_two_one();
    let mut sink = BoundedSink::new(5);
    let r = s.render_display(&mut sink);
    assert_eq!(r, Err(RenderError::SinkFull { capacity: 5 }));
    assert_eq!(sink.text().as_str(), "3 -> ");
    // "3 -> " was taken and "2 -> " refused; nothing after it was offered.
    assert_eq!(sink.attempts(), 2);
}

#[test]
fn failing_sink_refusing_end_token() {
    let s = List::from(7);
    let mut sink = BoundedSink::new(6);
    assert_eq!(s.render_display(&mut sink), Err(RenderError::SinkFull { capacity: 6 }));
    assert_eq!(sink.text().as_str(), "7 -> ");
    assert_eq!(sink.attempts(), 2);
}

#[test]
fn bounded_sink_with_exact_room_takes_everything() {
    let s = three_two_one();
    let mut sink = BoundedSink::new(18);
    assert_eq!(s.render_display(&mut sink), Ok(()));
    assert_eq!(sink.text().as_str(), "3 -> 2 -> 1 -> Nil");
    assert_eq!(sink.attempts(), 4);
}

#[test]
fn bounded_sink_with_no_room_refuses_first_chunk() {
    let s = List::new();
    let mut sink = BoundedSink::new(0);
    assert!(s.render_display(&mut sink).is_err());
    assert_eq!(sink.text().as_str(), "");
    assert_eq!(sink.attempts(), 1);
}

#[test]
fn text_buffer_keeps_what_was_there() {
    let s = List::from(4).prepend(5);
    let mut buf = TextBuffer::new();
    assert_eq!(s.render_display(&mut buf), Ok(()));
    assert_eq!(s.render_display(&mut buf), Ok(()));
    assert_eq!(buf.text().as_str(), "5 -> 4 -> Nil5 -> 4 -> Nil");
    assert_eq!(buf.into_string(), "5 -> 4 -> Nil5 -> 4 -> Nil");
}

#[test]
fn rendering_twice_gives_same_text() {
    let s = three_two_one();
    let a = render(&s, RenderRequest::Display);
    let b = render(&s, RenderRequest::Display);
    assert_eq!(a, b);
}

#[test]
fn display_always_ends_with_nil() {
    let mut s = List::new();
    for i in 0..5u32 {
        assert!(render(&s, RenderRequest::Display).ends_with("Nil"));
        s = s.prepend(i);
    }
    assert!(render(&s, RenderRequest::Display).ends_with("Nil"));
}

#[test]
fn length_counts_constructions() {
    let mut s = List::new();
    for i in 0..10u32 {
        assert_eq!(s.len(), i);
        s = s.prepend(i * 7);
    }
    assert_eq!(s.len(), 10);
    assert_eq!(List::from(0).len(), 1);
}

#[test]
fn head_of_prepend_is_new_value() {
    assert_eq!(List::new().prepend(9).ele(), Some(9));
    assert_eq!(three_two_one().prepend(42).ele(), Some(42));
}

#[test]
fn ordered_sequence_matches_length() {
    let s = List::from(u32::MAX).prepend(0).prepend(17);
    let v = s.arr();
    assert_eq!(v, vec![17, 0, u32::MAX]);
    assert_eq!(v.len() as u32, s.len());
}

#[test]
fn large_and_zero_values_display() {
    let s = List::from(u32::MAX).prepend(0);
    assert_eq!(render(&s, RenderRequest::Display), "0 -> 4294967295 -> Nil");
}

#[test]
fn structural_dump_of_list() {
    let s = three_two_one();
    assert_eq!(s.render_structural(), "Cons(3, Cons(2, Cons(1, Nil)))");
    assert_eq!(render(&s, RenderRequest::Dump), "Cons(3, Cons(2, Cons(1, Nil)))");
    assert_eq!(List::new().render_structural(), "Nil");
}
