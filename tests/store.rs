use h3x::store::{split_tokens, TextStore, CAPACITY};

fn store_with(bytes: &[u8]) -> TextStore {
    let mut s = TextStore::new();
    assert!(!s.append(bytes));
    s
}

#[test]
fn append_then_list_adds_separator() {
    let mut s = TextStore::new();
    assert!(!s.append(b"abc"));
    assert_eq!(s.list(), b"abc ");
}

#[test]
fn append_empty_is_noop() {
    let mut s = store_with(b"x");
    assert!(!s.append(b""));
    assert_eq!(s.list(), b"x ");
    let mut e = TextStore::new();
    assert!(!e.append(b""));
    assert_eq!(e.list(), b"");
}

#[test]
fn appends_join_with_single_space() {
    let mut s = TextStore::new();
    s.append(b"apple");
    s.append(b"banana");
    assert_eq!(s.list(), b"apple banana ");
    assert_eq!(s.len(), 13);
}

#[test]
fn remove_sole_token_then_again() {
    let mut s = store_with(b"abc");
    assert!(s.remove(b"abc"));
    assert_eq!(s.list(), b"");
    assert!(!s.remove(b"abc"));
    assert_eq!(s.list(), b"");
}

#[test]
fn remove_drops_first_match_only() {
    let mut s = TextStore::new();
    s.append(b"a");
    s.append(b"b");
    s.append(b"a");
    assert!(s.remove(b"a"));
    assert_eq!(s.list(), b"b a ");
}

#[test]
fn remove_missing_leaves_store() {
    let mut s = store_with(b"banana");
    assert!(!s.remove(b"pear"));
    assert_eq!(s.list(), b"banana ");
    assert!(!s.remove(b""));
    assert!(!s.remove(b"ban"));
    assert_eq!(s.list(), b"banana ");
}

#[test]
fn remove_normalizes_whitespace() {
    let mut s = TextStore::new();
    s.append(b"x\t y\n\nz");
    assert_eq!(s.list(), b"x\t y\n\nz ");
    assert!(s.remove(b"y"));
    assert_eq!(s.list(), b"x z ");
}

#[test]
fn append_beyond_capacity_copies_what_fits() {
    let filler = vec![b'f'; CAPACITY - 4];
    let mut s = TextStore::new();
    assert!(!s.append(&filler));
    assert_eq!(s.len(), CAPACITY - 3);
    assert!(s.append(b"abcdef"));
    assert_eq!(s.len(), CAPACITY);
    assert_eq!(&s.list()[CAPACITY - 4..], b" abc");
    assert!(s.append(b"z"));
    assert_eq!(s.len(), CAPACITY);
}

#[test]
fn append_exactly_to_capacity_has_no_separator() {
    let filler = vec![b'f'; CAPACITY - 4];
    let mut s = TextStore::new();
    s.append(&filler);
    assert!(!s.append(b"abc"));
    assert_eq!(s.len(), CAPACITY);
    assert_eq!(&s.list()[CAPACITY - 3..], b"abc");
}

#[test]
fn clear_empties_store() {
    let mut s = store_with(b"abc");
    s.clear();
    assert_eq!(s.list(), b"");
    assert_eq!(s.len(), 0);
}

#[test]
fn tokens_split_on_whitespace() {
    let t = split_tokens(b"  one two\tthree \r\n");
    assert_eq!(t, vec![b"one".to_vec(), b"two".to_vec(), b"three".to_vec()]);
    assert!(split_tokens(b" \t ").is_empty());
}
