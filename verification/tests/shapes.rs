use rust_primer::shapes::{area1, area2, area3, Rectangle};

#[test]
fn it_works() {
    assert_eq!(2 + 2, 4);
}

#[test]
fn larger_can_hold_smaller() {
    let larger = Rectangle {
        height: 100,
        width: 100,
    };
    let smaller = Rectangle {
        height: 99,
        width: 99,
    };

    assert!(larger.can_hold(&smaller));
}

#[test]
fn smaller_cannot_hold_larger() {
    let larger = Rectangle {
        height: 100,
        width: 100,
    };
    let smaller = Rectangle {
        height: 99,
        width: 99,
    };

    assert!(!smaller.can_hold(&larger));
}

#[test]
fn cannot_hold_equal() {
    let rect_a = Rectangle {
        height: 100,
        width: 100,
    };
    let rect_b = Rectangle {
        height: 100,
        width: 100,
    };

    assert!(!rect_a.can_hold(&rect_b));
}

#[test]
fn cannot_hold_when_only_one_side_is_smaller() {
    let rect = Rectangle { height: 24, width: 42 };
    let tall = Rectangle { height: 30, width: 10 };
    let wide = Rectangle { height: 10, width: 50 };

    assert!(!rect.can_hold(&tall));
    assert!(!rect.can_hold(&wide));
}

#[test]
fn rectangle_area() {
    let rect = Rectangle { height: 24, width: 42 };
    let another_rect = Rectangle { height: 12, width: 21 };

    assert_eq!(rect.area(), 1008);
    assert_eq!(another_rect.area(), 252);
    assert!(rect.can_hold(&another_rect));
}

#[test]
fn rectangle_area_of_empty_and_largest() {
    assert_eq!(Rectangle { height: 0, width: 7 }.area(), 0);
    assert_eq!(Rectangle { height: 65535, width: 65537 }.area(), u32::MAX);
}

#[test]
fn square_has_equal_sides() {
    let square = Rectangle::square(8);

    assert_eq!(square.height, 8);
    assert_eq!(square.width, 8);
    assert_eq!(square.area(), 64);
}

#[test]
fn square_and_rectangle_holding() {
    let rect = Rectangle { height: 24, width: 42 };
    let square = Rectangle::square(8);

    assert!(rect.can_hold(&square));
    assert!(!square.can_hold(&rect));
}

#[test]
fn three_ways_to_an_area() {
    assert_eq!(area1(30, 50), 1500);
    assert_eq!(area2((30, 50)), 1500);
    assert_eq!(area3(&Rectangle { height: 50, width: 30 }), 1500);
}
