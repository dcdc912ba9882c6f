use nix_bindings::ctext::{null_terminated, CText, NulError};

#[test]
fn c_text_ends_in_one_nul() {
    assert_eq!(CText::new("auto").unwrap().as_bytes_with_nul(), b"auto\0");
    assert_eq!(CText::new("").unwrap().as_bytes_with_nul(), b"\0");
}

#[test]
fn c_text_is_utf8() {
    let c = CText::new("sch\u{f6}n \u{2603} \u{1f600}").unwrap();
    let bytes = c.as_bytes_with_nul();
    assert_eq!(bytes[bytes.len() - 1], 0);
    let text = std::str::from_utf8(&bytes[..bytes.len() - 1]).unwrap();
    assert_eq!(text, "sch\u{f6}n \u{2603} \u{1f600}");
}

#[test]
fn nul_position_counts_bytes() {
    assert_eq!(CText::new("\0").unwrap_err(), NulError { position: 0 });
    assert_eq!(CText::new("ab\0c\0").unwrap_err(), NulError { position: 2 });
    assert_eq!(CText::new("\u{f6}\0").unwrap_err(), NulError { position: 2 });
}

#[test]
fn c_text_reads_back() {
    let c = CText::new("dummy://").unwrap();
    let read: Vec<u8> = c
        .as_bytes_with_nul()
        .iter()
        .copied()
        .take_while(|b| *b != 0)
        .collect();
    assert_eq!(read, b"dummy://");
}

#[test]
fn null_ends_an_array() {
    assert_eq!(null_terminated(&[7u8, 8]), vec![Some(7), Some(8), None]);
    assert_eq!(null_terminated::<u8>(&[]), vec![None]);
}

#[test]
fn null_terminated_reads_back() {
    let items = [3u32, 1, 2];
    let read: Vec<u32> = null_terminated(&items)
        .into_iter()
        .map_while(|item| item)
        .collect();
    assert_eq!(read, items);
}
