use tilecast::square::{integer_sqrt, perfect_square_root};

#[test]
fn integer_square_roots() {
    let cases: [(u64, u32); 14] = [
        (0, 0),
        (1, 1),
        (2, 1),
        (3, 1),
        (4, 2),
        (8, 2),
        (9, 3),
        (15, 3),
        (16, 4),
        (24, 4),
        (25, 5),
        (250000, 500),
        (4294836225, 65535),
        (u64::MAX, 4294967295),
    ];
    for (n, root) in cases {
        assert_eq!(integer_sqrt(n), root);
    }
}

#[test]
fn integer_square_root_brackets_its_argument() {
    for n in 0u64..2000 {
        let root = integer_sqrt(n) as u64;
        assert!(root * root <= n);
        assert!((root + 1) * (root + 1) > n);
    }
}

#[test]
fn perfect_squares_have_roots() {
    assert_eq!(perfect_square_root(0), Some(0));
    assert_eq!(perfect_square_root(1), Some(1));
    assert_eq!(perfect_square_root(25), Some(5));
    assert_eq!(perfect_square_root(36), Some(6));
    assert_eq!(perfect_square_root(250000), Some(500));
    assert_eq!(perfect_square_root(18446744065119617025), Some(4294967295));
}

#[test]
fn other_numbers_have_none() {
    for n in [2u64, 3, 5, 24, 26, 35, 37, 249999, 250001, 16777217, u64::MAX] {
        assert_eq!(perfect_square_root(n), None);
    }
}
