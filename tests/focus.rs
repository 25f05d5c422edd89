use termimage::focus::{parse_window_id, window_from_query, FocusError};

#[test]
fn failed_query_keeps_its_error_text() {
    let r = window_from_query(false, &b"".to_vec(), &b"no window".to_vec());
    match r {
        Err(FocusError::QueryFailed(text)) => {
            assert!(String::from_utf8_lossy(&text).contains("no window"));
        }
        other => panic!("unexpected {:?}", other),
    }
}

#[test]
fn successful_query_gives_window() {
    assert_eq!(window_from_query(true, &b"62914566\n".to_vec(), &vec![]), Ok(62914566));
    assert_eq!(window_from_query(true, &b"x\n".to_vec(), &vec![]), Err(FocusError::Unparseable));
}

#[test]
fn window_numbers() {
    assert_eq!(parse_window_id(&b"  42 \t\n".to_vec()), Some(42));
    assert_eq!(parse_window_id(&b"+7".to_vec()), Some(7));
    assert_eq!(parse_window_id(&b"4294967295".to_vec()), Some(u32::MAX));
    assert_eq!(parse_window_id(&b"4294967296".to_vec()), None);
    assert_eq!(parse_window_id(&b"".to_vec()), None);
    assert_eq!(parse_window_id(&b" + ".to_vec()), None);
    assert_eq!(parse_window_id(&b"-1".to_vec()), None);
    assert_eq!(parse_window_id(&b"12 34".to_vec()), None);
    assert_eq!(parse_window_id(&vec![0xc2, 0xa0, 0x37]), Some(7));
    assert_eq!(parse_window_id(&vec![0xe3, 0x80, 0x80, 0x31, 0x32, 0xe2, 0x80, 0xa9, 0x0a]), Some(12));
    assert_eq!(parse_window_id(&vec![0x31, 0xe2, 0x80, 0x8a, 0xc2, 0x85]), Some(1));
    assert_eq!(parse_window_id(&vec![0xc2, 0xa1, 0x37]), None);
    assert_eq!(parse_window_id(&vec![0x37, 0xe2, 0x80, 0x8b]), None);
}
