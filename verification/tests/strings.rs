use std::str::FromStr;

use pasillo::types::magic::{is_magic, Magic};
use pasillo::types::string::{PStackStr, PStr};

#[test]
fn short_text_is_kept() {
    let s = PStackStr::<8>::from_str("hello").unwrap();
    assert_eq!(s.as_str(), "hello");
    assert_eq!(s.len(), 5);
    assert_eq!(s.capacity(), 8);
}

#[test]
fn long_text_is_cut_to_capacity() {
    let s = PStackStr::<4>::from_str("hello world").unwrap();
    assert_eq!(s.as_str(), "hell");
    assert_eq!(s.len(), 4);
    assert_eq!(s.as_bytes(), b"hell");
}

#[test]
fn cut_inside_a_code_point_keeps_the_bytes() {
    let s = PStackStr::<2>::from_str("h\u{e9}llo").unwrap();
    assert_eq!(s.len(), 2);
    assert_eq!(s.as_bytes(), &[b'h', 0xc3]);
    assert_eq!(s.as_str(), "h");
}

#[test]
fn trailing_nul_bytes_are_not_shown() {
    let s = PStackStr::<8>::from_str("ab\0\0").unwrap();
    assert_eq!(s.len(), 4);
    assert_eq!(s.as_bytes(), b"ab");
    assert_eq!(s.as_str(), "ab");
}

#[test]
fn tagged_string_shows_either_form() {
    let borrowed = PStr::<4>::from_str("borrowed");
    assert_eq!(borrowed.as_str(), "borrowed");
    let owned = PStr::<4>::from(PStackStr::<4>::from_str("owned").unwrap());
    assert_eq!(owned.as_str(), "owne");
}

#[test]
fn fresh_string_carries_its_tag() {
    let s = PStackStr::<8>::from_str("x").unwrap();
    assert!(s.is_magic());
    assert_eq!(s.header(), [0xff, b's', b't', b'r']);
    let mut region = [0u8; 16];
    assert!(!is_magic(&region, 4, <PStackStr<8> as Magic<4>>::MAGIC));
    region[4..8].copy_from_slice(&s.header());
    assert!(is_magic(&region, 4, <PStackStr<8> as Magic<4>>::MAGIC));
    assert!(!is_magic(&region, 3, <PStackStr<8> as Magic<4>>::MAGIC));
    assert!(!is_magic(&region, 13, <PStackStr<8> as Magic<4>>::MAGIC));
}

#[test]
fn string_is_reached_through_std_traits() {
    let s: PStackStr<8> = "hello".parse().unwrap();
    assert_eq!(&*s, "hello");
    assert_eq!(s.as_ref() as &str, "hello");
    assert!(s.starts_with("he"));
    let held = PStr::<8>::from(s);
    assert_eq!(held.as_ref() as &str, "hello");
    let empty = PStackStr::<8>::new();
    assert_eq!(empty.len(), 0);
    assert_eq!(empty.as_str(), "");
}

#[test]
fn buffer_is_padded_with_zero_bytes() {
    let s = PStackStr::<6>::from_str("abc").unwrap();
    assert_eq!(s.inner(), b"abc\0\0\0");
    let t = PStackStr::<2>::from_str("abc").unwrap();
    assert_eq!(t.inner(), b"ab");
    let mut u = PStackStr::<4>::new();
    assert_eq!(u.inner(), &[0u8; 4]);
    u.push(b'z');
    assert_eq!(u.inner(), b"z\0\0\0");
}

#[test]
fn bytes_are_pushed_while_there_is_room() {
    let mut s = PStackStr::<3>::from_str("ab").unwrap();
    assert!(s.push(b'c'));
    assert!(!s.push(b'd'));
    assert_eq!(s.as_str(), "abc");
    assert_eq!(s.len(), 3);
    let mut t = PStackStr::<0>::new();
    assert!(!t.push(b'x'));
    assert_eq!(t.len(), 0);
}
