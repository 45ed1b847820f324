use expectrl::{Captures, Match};

#[test]
fn test_captures_get() {
    let m = Captures::new(
        b"You can use iterator".to_vec(),
        vec![Match::new(0, 3), Match::new(4, 7)],
    );

    assert_eq!(m.get(0), Some(b"You".as_ref()));
    assert_eq!(m.get(1), Some(b"can".as_ref()));
    assert_eq!(m.get(2), None);

    let m = Captures::new(b"You can use iterator".to_vec(), vec![]);
    assert_eq!(m.get(0), None);
    assert_eq!(m.get(1), None);
    assert_eq!(m.get(2), None);

    let m = Captures::new(vec![], vec![]);
    assert_eq!(m.get(0), None);
    assert_eq!(m.get(1), None);
    assert_eq!(m.get(2), None);
}

#[test]
fn test_captures_index() {
    let m = Captures::new(
        b"You can use iterator".to_vec(),
        vec![Match::new(0, 3), Match::new(4, 7)],
    );

    assert_eq!(&m[0], b"You".as_ref());
    assert_eq!(&m[1], b"can".as_ref());
}

#[test]
fn test_before() {
    let m = Captures::new(b"You can use iterator".to_vec(), vec![Match::new(4, 7)]);
    assert_eq!(m.before(), b"You ".as_ref());

    let m = Captures::new(
        b"You can use iterator".to_vec(),
        vec![Match::new(0, 3), Match::new(4, 7)],
    );
    assert_eq!(m.before(), b"".as_ref());

    let m = Captures::new(b"You can use iterator".to_vec(), vec![]);
    assert_eq!(m.before(), b"".as_ref());

    let m = Captures::new(vec![], vec![]);
    assert_eq!(m.before(), b"".as_ref());
}

#[test]
fn test_matches() {
    let m = Captures::new(b"You can use iterator".to_vec(), vec![Match::new(4, 7)]);
    assert_eq!(m.before(), b"You ".as_ref());

    let m = Captures::new(
        b"You can use iterator".to_vec(),
        vec![Match::new(0, 3), Match::new(4, 7)],
    );
    assert_eq!(m.before(), b"".as_ref());

    let m = Captures::new(b"You can use iterator".to_vec(), vec![]);
    assert_eq!(m.before(), b"".as_ref());

    let m = Captures::new(vec![], vec![]);
    assert_eq!(m.before(), b"".as_ref());
}

#[test]
fn test_captures_into_iter() {
    assert_eq!(
        Captures::new(
            b"You can use iterator".to_vec(),
            vec![Match::new(0, 3), Match::new(4, 7)]
        )
        .matches()
        .collect_all(),
        vec![b"You", b"can"]
    );

    assert_eq!(
        Captures::new(b"You can use iterator".to_vec(), vec![Match::new(4, 20)])
            .matches()
            .collect_all(),
        vec![b"can use iterator"]
    );

    assert_eq!(
        Captures::new(b"You can use iterator".to_vec(), vec![])
            .matches()
            .collect_all(),
        Vec::<&[u8]>::new()
    );
}

#[test]
fn test_captures_matches() {
    assert_eq!(
        Captures::new(
            b"You can use iterator".to_vec(),
            vec![Match::new(0, 3), Match::new(4, 7)]
        )
        .matches()
        .collect_all(),
        vec![b"You", b"can"]
    );

    assert_eq!(
        Captures::new(b"You can use iterator".to_vec(), vec![Match::new(4, 20)])
            .matches()
            .collect_all(),
        vec![b"can use iterator"]
    );

    assert_eq!(
        Captures::new(b"You can use iterator".to_vec(), vec![])
            .matches()
            .collect_all(),
        Vec::<&[u8]>::new()
    );
}

#[test]
fn test_iterator_on_found() {
    assert_eq!(
        Captures::new(
            b"You can use iterator".to_vec(),
            vec![Match::new(0, 3), Match::new(4, 7)]
        )
        .matches()
        .collect_all()
        .into_iter()
        .map(|m| m.to_vec())
        .collect::<Vec<_>>(),
        vec![b"You".to_vec(), b"can".to_vec()]
    );
}

#[test]
fn match_iter_steps_one_match_at_a_time() {
    let c = Captures::new(b"abcdef".to_vec(), vec![Match::new(1, 3), Match::new(0, 6)]);
    let mut it = c.matches();
    assert_eq!(it.len(), 2);
    assert_eq!(it.next(), Some(b"bc".as_ref()));
    assert_eq!(it.len(), 1);
    assert_eq!(it.next(), Some(b"abcdef".as_ref()));
    assert_eq!(it.next(), None);
    assert_eq!(it.len(), 0);
}

#[test]
fn before_uses_the_left_most_start() {
    let c = Captures::new(b"0123456789".to_vec(), vec![Match::new(5, 8), Match::new(2, 3), Match::new(7, 9)]);
    assert_eq!(c.before(), b"01".as_ref());
    assert_eq!(c.as_bytes(), b"0123456789".as_ref());
    assert!(!c.is_empty());
    assert!(Captures::new(b"x".to_vec(), vec![]).is_empty());
}

#[test]
fn right_most_index_is_the_greatest_end() {
    assert_eq!(Captures::right_most_index(&[]), 0);
    assert_eq!(
        Captures::right_most_index(&[Match::new(0, 4), Match::new(2, 9), Match::new(1, 5)]),
        9
    );
}

#[test]
fn clone_keeps_bytes_and_matches() {
    let c = Captures::new(b"hello".to_vec(), vec![Match::new(1, 3)]);
    let d = c.clone();
    assert_eq!(c, d);
    assert_eq!(d.get(0), Some(b"el".as_ref()));
}
