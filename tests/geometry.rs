use meez3d::geometry::{Point, Rect};

#[test]
fn rect_getters() {
    let r = Rect {
        x: 10,
        y: 20,
        w: 3,
        h: 4,
    };
    assert_eq!(r.x, 10);
    assert_eq!(r.y, 20);
    assert_eq!(r.w, 3);
    assert_eq!(r.h, 4);
    assert_eq!(r.left(), 10);
    assert_eq!(r.top(), 20);
    assert_eq!(r.right(), 13);
    assert_eq!(r.bottom(), 24);
}

#[test]
fn rect_add_point() {
    let r = Rect {
        x: 10,
        y: 20,
        w: 3,
        h: 4,
    };
    let p = Point::new(100, 200);
    let r = r + p;
    assert_eq!(r.x, 110);
    assert_eq!(r.y, 220);
    assert_eq!(r.w, 3);
    assert_eq!(r.h, 4);
    assert_eq!(r.left(), 110);
    assert_eq!(r.top(), 220);
    assert_eq!(r.right(), 113);
    assert_eq!(r.bottom(), 224);
}

#[test]
fn intersects_is_symmetric() {
    let rects = [
        Rect { x: 0, y: 0, w: 10, h: 10 },
        Rect { x: 5, y: 5, w: 10, h: 10 },
        Rect { x: 20, y: 0, w: 1, h: 1 },
        Rect { x: 10, y: 10, w: 0, h: 0 },
        Rect { x: -5, y: 3, w: 2, h: 20 },
    ];
    for a in rects.iter() {
        for b in rects.iter() {
            assert_eq!(a.intersects(*b), b.intersects(*a));
        }
    }
    assert!(rects[0].intersects(rects[1]));
    assert!(!rects[0].intersects(rects[2]));
}

#[test]
fn touching_rects_intersect() {
    let a = Rect { x: 0, y: 0, w: 10, h: 10 };
    let right = Rect { x: 10, y: 0, w: 5, h: 5 };
    let below = Rect { x: 3, y: 10, w: 5, h: 5 };
    let corner = Rect { x: 10, y: 10, w: 5, h: 5 };
    let apart = Rect { x: 11, y: 0, w: 5, h: 5 };
    assert!(a.intersects(right));
    assert!(a.intersects(below));
    assert!(a.intersects(corner));
    assert!(!a.intersects(apart));
}

#[test]
fn contains_uses_closed_bounds() {
    let r = Rect { x: 0, y: 0, w: 10, h: 5 };
    assert!(r.contains(Point::new(0, 0)));
    assert!(r.contains(Point::new(10, 5)));
    assert!(r.contains(Point::new(4, 2)));
    assert!(!r.contains(Point::new(11, 2)));
    assert!(!r.contains(Point::new(4, -1)));
}

#[test]
fn point_arithmetic() {
    let a = Point::new(3, -4);
    let b = Point::new(10, 20);
    assert_eq!(a + b, Point::new(13, 16));
    assert_eq!(b - a, Point::new(7, 24));
    assert_eq!(Point::from((1, 2)), Point::new(1, 2));
    let mut z = Point::new(5, 6);
    assert!(!z.is_zero());
    z.set_zero();
    assert!(z.is_zero());
    assert_eq!(Point::zero(), Point::new(0, 0));
    let r = Rect { x: 1, y: 2, w: 3, h: 4 };
    assert_eq!(r.top_left(), Point::new(1, 2));
}
