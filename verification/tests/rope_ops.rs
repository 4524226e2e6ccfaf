use rope::Rope;

#[test]
fn node_test_rope_new() {
    let rope = Rope::new("Hello, World!");
    assert_eq!(rope.is_leaf(), true);
}

#[test]
fn node_test_rope_index() {
    let rope = Rope::new("Hello, World!");
    assert_eq!(rope.index(1).unwrap(), 'e');
    assert_eq!(rope.index(0).unwrap(), 'H');
    assert_eq!(rope.index(3).unwrap(), 'l');
    assert_eq!(rope.index(12).unwrap(), '!');
}

#[test]
fn node_test_rope_join() {
    let rope1 = Rope::new("Hello,");
    let rope2 = Rope::new(" World!");

    let rope = Rope::join(Box::new(rope1), Box::new(rope2));

    println!("weight: {:?}", rope.weight());

    assert_eq!(rope.index(1).unwrap(), 'e');
    assert_eq!(rope.index(0).unwrap(), 'H');
    assert_eq!(rope.index(3).unwrap(), 'l');
    assert_eq!(rope.index(12).unwrap(), '!');
}

#[test]
fn rope_test_rope_new() {
    let rope = Rope::new("Hello, World!");
    assert_eq!(rope.is_leaf(), true);
}

#[test]
fn rope_test_rope_index() {
    let rope = Rope::new("Hello, World!");
    assert_eq!(rope.index(1).unwrap(), 'e');
    assert_eq!(rope.index(0).unwrap(), 'H');
    assert_eq!(rope.index(3).unwrap(), 'l');
    assert_eq!(rope.index(12).unwrap(), '!');
}

#[test]
fn rope_test_rope_join() {
    let rope1 = Rope::new("Hello,");
    let rope2 = Rope::new(" World!");

    let rope = Rope::join(Box::new(rope1), Box::new(rope2));

    assert_eq!(rope.index(1).unwrap(), 'e');
    assert_eq!(rope.index(0).unwrap(), 'H');
    assert_eq!(rope.index(3).unwrap(), 'l');
    assert_eq!(rope.index(12).unwrap(), '!');
}

#[test]
fn test_rope_split() {
    let rope = Rope::new("Hello, World!");
    let (left, right) = rope.split(5);
    assert_eq!(left.buf(), Some("Hello"));
    assert_eq!(right.buf(), Some(", World!"));
}

#[test]
fn test_rope_report() {
    let rope = Rope::new("Hello, World!");

    assert_eq!(rope.report(1, 5).unwrap(), "ello,");

    let (left, right) = rope.split(5);
    assert_eq!(left.report(0, 4).unwrap(), "Hello");
    assert_eq!(right.report(0, 7).unwrap(), ", World!");
    assert_eq!(right.report(0, 8), None);
}

#[test]
fn test_rope_insert() {
    let rope = Rope::new("Hello, World!");

    let rope = rope.insert(" Cruel", 6);

    assert_eq!(rope.report(0, 18).unwrap(), "Hello, Cruel World!");
}

#[test]
fn test_rope_delete() {
    let mut rope = Rope::new("Hello, World!");
    rope = rope.delete(2, 4);
    assert_eq!(rope.report(0, 9).unwrap(), "He, World!");
}

#[test]
fn test_rope_iterator() {
    let rope = Rope::new("Hello!");
    let mut itr = rope.into_iter();

    assert_eq!(itr.next(), Some('H'));
    assert_eq!(itr.next(), Some('e'));
    assert_eq!(itr.next(), Some('l'));
    assert_eq!(itr.next(), Some('l'));
    assert_eq!(itr.next(), Some('o'));
    assert_eq!(itr.next(), Some('!'));
    assert_eq!(itr.next(), None);
}
