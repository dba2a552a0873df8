use morser::strbuf::{Overflow, StrBuf};

#[test]
fn writes_append() {
    let mut b: StrBuf<16> = StrBuf::new();
    assert_eq!(b.as_str(), "");
    assert_eq!(b.write_str("Fizz"), Ok(()));
    assert_eq!(b.write_str(" 7"), Ok(()));
    assert_eq!(b.as_str(), "Fizz 7");
}

#[test]
fn overflow_fails_whole() {
    let mut b: StrBuf<5> = StrBuf::default();
    assert_eq!(b.write_str("abc"), Ok(()));
    assert_eq!(b.write_str("def"), Err(Overflow));
    assert_eq!(b.as_str(), "abc");
    assert_eq!(b.write_str("de"), Ok(()));
    assert_eq!(b.as_str(), "abcde");
    assert_eq!(b.write_str(""), Ok(()));
    assert_eq!(b.write_str("x"), Err(Overflow));
}

#[test]
fn capacity_counts_bytes() {
    let mut b: StrBuf<3> = StrBuf::new();
    assert_eq!(b.write_str("é"), Ok(()));
    assert_eq!(b.write_str("é"), Err(Overflow));
    assert_eq!(b.write_str("e"), Ok(()));
    assert_eq!(b.as_str(), "ée");
}

#[test]
fn clear_empties() {
    let mut b: StrBuf<4> = StrBuf::new();
    assert_eq!(b.write_str("abcd"), Ok(()));
    b.clear();
    assert_eq!(b.as_str(), "");
    assert_eq!(b.write_str("wxyz"), Ok(()));
    assert_eq!(b.as_str(), "wxyz");
}
