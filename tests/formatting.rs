use cons_render::debug::MyType;
use cons_render::display::{Color, List};
use cons_render::lines::last_char_of_first_line;
use cons_render::render::{render, BoundedSink, DisplayRender, RenderError, RenderRequest, StructuralRender, TextBuffer};
use cons_render::values::{Number, Pair, Unit};

fn shown<T: DisplayRender>(v: &T) -> String {
    let mut buf = TextBuffer::new();
    assert_eq!(v.render_display(&mut buf), Ok(()));
    buf.into_string()
}

#[test]
fn my_type_dump() {
    assert_eq!(MyType::from(100).render_structural(), "MyType(100)");
    assert_eq!(MyType::from(-7).render_structural(), "MyType(-7)");
    assert_eq!(MyType::from(i32::MIN).render_structural(), "MyType(-2147483648)");
    assert_eq!(MyType::from(0).0, 0);
}

#[test]
fn indexed_list_display() {
    let l = List::from(vec![1, 1, 2, 3, 5, 8, 11]);
    assert_eq!(shown(&l), "[0: 1, 1: 1, 2: 2, 3: 3, 4: 5, 5: 8, 6: 11]");
}

#[test]
fn indexed_list_empty_and_negative() {
    assert_eq!(shown(&List::from(vec![])), "[]");
    assert_eq!(shown(&List::from(vec![-5, i32::MAX])), "[0: -5, 1: 2147483647]");
}

#[test]
fn indexed_list_refused_midway() {
    let l = List::from(vec![10, 20, 30]);
    let mut sink = BoundedSink::new(8);
    assert_eq!(l.render_display(&mut sink), Err(RenderError::SinkFull { capacity: 8 }));
    assert_eq!(sink.text().as_str(), "[0: 10");
    assert_eq!(sink.attempts(), 3);
}

#[test]
fn color_display() {
    assert_eq!(shown(&Color::from(128, 255, 90)), "RGB(128, 255, 90) 0x80FF5A");
    assert_eq!(shown(&Color::from(0, 3, 254)), "RGB(0, 3, 254) 0x0003FE");
    assert_eq!(shown(&Color::from(0, 0, 0)), "RGB(0, 0, 0) 0x000000");
}

#[test]
fn color_modes() {
    let c = Color::from(1, 2, 3);
    assert_eq!(render(&c, RenderRequest::Dump), "Color { red: 1, green: 2, blue: 3 }");
    assert_eq!(render(&c, RenderRequest::Display), "RGB(1, 2, 3) 0x010203");
    assert_eq!(c.render_structural(), format!("{:?}", c));
}

#[test]
fn color_refused() {
    let mut sink = BoundedSink::new(3);
    assert!(Color::from(9, 9, 9).render_display(&mut sink).is_err());
    assert_eq!(sink.text().as_str(), "");
    assert_eq!(sink.attempts(), 1);
}

#[test]
fn first_line_last_char() {
    assert_eq!(last_char_of_first_line("Hello, world\nHow are you today?"), Some('d'));
    assert_eq!(last_char_of_first_line(""), None);
    assert_eq!(last_char_of_first_line("\nhi"), None);
    assert_eq!(last_char_of_first_line("hi"), Some('i'));
    assert_eq!(last_char_of_first_line("ab\r\ncd"), Some('b'));
    assert_eq!(last_char_of_first_line("\r\nx"), None);
    assert_eq!(last_char_of_first_line("héllo wörld\n"), Some('d'));
}

#[test]
fn plain_values() {
    let _u = Unit;
    let p = Pair(1, 'x');
    assert_eq!(p.0, 1);
    assert_eq!(p.1, 'x');
    assert!(Number::Zero != Number::One);
    assert_eq!(Number::Two, Number::Two);
}
