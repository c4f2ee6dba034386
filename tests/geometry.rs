use grt::{Border, Color, Point, Size};

#[test]
fn point_new_and_add() {
    let p = Point::new(3, 4);
    assert_eq!((p.x, p.y), (3, 4));
    let q = p.add(10, 20);
    assert_eq!((q.x, q.y), (13, 24));
    assert_eq!((p.x, p.y), (3, 4));
}

#[test]
fn point_new_vec_keeps_order() {
    let v = Point::new_vec(vec![(1, 2), (3, 4), (5, 6)]);
    assert_eq!(v.len(), 3);
    assert_eq!((v[0].x, v[0].y), (1, 2));
    assert_eq!((v[2].x, v[2].y), (5, 6));
    assert!(Point::new_vec(Vec::new()).is_empty());
}

#[test]
fn zero_values() {
    assert_eq!(Size::as_zero(), Size::new(0, 0));
    assert_eq!(Border::as_zero(), Border::new(0, 0, 0, 0));
    assert_eq!(Point::as_zero(), Point::new(0, 0));
}

#[test]
fn color_with_alpha() {
    assert_eq!(Color::from_string("ff0000ff"), Some(Color::new(255, 0, 0, 255)));
    assert_eq!(Color::from_string("0A0b7F80"), Some(Color::new(10, 11, 127, 128)));
}

#[test]
fn color_without_alpha_is_opaque() {
    assert_eq!(Color::from_string("00ff00"), Some(Color::new(0, 255, 0, 255)));
}

#[test]
fn color_rejects_malformed() {
    assert_eq!(Color::from_string(""), None);
    assert_eq!(Color::from_string("fff0000ff"), None);
    assert_eq!(Color::from_string("gg0000"), None);
    assert_eq!(Color::from_string("12345"), None);
}
