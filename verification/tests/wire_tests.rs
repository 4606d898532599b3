use win_event_engine::metrics::keys::{collate, Standing};
use win_event_engine::plugins::wire::{
    decode_units, nth_text, read_u16, read_u32, read_u64, split_texts, tail, take_until_null,
};
use win_event_engine::text::{contains_chars, starts_with_chars, string_of};

fn chars(text: &str) -> Vec<char> {
    text.chars().collect()
}

#[test]
fn integers_are_read_low_byte_first() {
    let data = [0x01u8, 0x02, 0x03, 0x04, 0x05, 0x06, 0x07, 0x08, 0xff];
    assert_eq!(read_u16(&data, 0), 0x0201);
    assert_eq!(read_u16(&data, 7), 0xff08);
    assert_eq!(read_u32(&data, 0), 0x0403_0201);
    assert_eq!(read_u32(&data, 5), 0xff08_0706);
    assert_eq!(read_u64(&data, 0), 0x0807_0605_0403_0201);
    assert_eq!(read_u64(&data, 1), 0xff08_0706_0504_0302);
    assert_eq!(read_u64(&[0xff; 8], 0), u64::MAX);
    assert_eq!(tail(&data, 7), &[0x08u8, 0xff][..]);
    assert_eq!(tail(&data, 9), &[0u8; 0][..]);
}

#[test]
fn code_units_and_texts_are_cut_at_nulls() {
    let bytes = [b'a', 0, b'b', 0, 0, 0, b'c', 0, 0xe9, 0, 0, 0, 0, 0, b'd'];
    let units = decode_units(&bytes);
    assert_eq!(units, vec![0x61, 0x62, 0, 0x63, 0xe9, 0, 0]);
    assert_eq!(take_until_null(&units), vec![0x61, 0x62]);
    assert_eq!(take_until_null(&vec![0, 0x61]), Vec::<u16>::new());
    assert_eq!(take_until_null(&vec![0x61]), vec![0x61]);
    let texts = split_texts(&units);
    assert_eq!(texts, vec!["ab".to_string(), "c\u{e9}".to_string()]);
    assert_eq!(nth_text(&texts, 1), Some("c\u{e9}".to_string()));
    assert_eq!(nth_text(&texts, 2), None);
    assert_eq!(split_texts(&vec![0xd800, 0x61]), vec!["\u{fffd}a".to_string()]);
    assert_eq!(split_texts(&vec![]), Vec::<String>::new());
    assert_eq!(decode_units(&[1]), Vec::<u16>::new());
}

#[test]
fn texts_stand_in_one_order() {
    assert_eq!(collate(&chars("a"), &chars("b")), Standing::Before);
    assert_eq!(collate(&chars("b"), &chars("a")), Standing::After);
    assert_eq!(collate(&chars("ab"), &chars("ab")), Standing::Same);
    assert_eq!(collate(&chars(""), &chars("")), Standing::Same);
    assert_eq!(collate(&chars(""), &chars("a")), Standing::Before);
    assert_eq!(collate(&chars("ab"), &chars("a")), Standing::After);
    assert_eq!(collate(&chars("Z"), &chars("a")), Standing::Before);
    assert_eq!(collate(&chars("a\u{e9}"), &chars("az")), Standing::After);
}

#[test]
fn characters_make_texts() {
    assert_eq!(string_of(&chars("h\u{e9}llo")), "h\u{e9}llo");
    assert_eq!(string_of(&vec![]), "");
    assert!(starts_with_chars(&chars("HKEY_USERS\\x"), &chars("HKEY_USERS")));
    assert!(!starts_with_chars(&chars("HKEY"), &chars("HKEY_USERS")));
    assert!(starts_with_chars(&chars("a"), &chars("")));
    assert!(contains_chars(&chars("notepad.exe"), &chars("pad")));
    assert!(contains_chars(&chars("notepad.exe"), &chars("")));
    assert!(!contains_chars(&chars("notepad.exe"), &chars("Pad")));
    assert!(!contains_chars(&chars("ab"), &chars("abc")));
}
