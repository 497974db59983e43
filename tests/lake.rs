use tachyon::data_lake::{decimal_string, fixed_decimal, TachyonDataLake, TachyonDataLakeTools};

#[test]
fn lake_starts_empty() {
    let lake = TachyonDataLake::<16>::build();
    assert_eq!(lake.len(), 0);
    assert_eq!(lake.as_slice(), &[] as &[u8]);
    let (buf, pos) = lake.into_raw_parts();
    assert_eq!(buf, vec![0u8; 16]);
    assert_eq!(pos, 0);
}

#[test]
fn lake_write_appends_at_cursor() {
    let mut lake = TachyonDataLake::<16>::build();
    lake.write(b"abc");
    lake.write(b"de");
    assert_eq!(lake.len(), 5);
    assert_eq!(lake.as_slice(), b"abcde");
}

#[test]
fn lake_write_that_does_not_fit_starts_over() {
    let mut lake = TachyonDataLake::<8>::build();
    lake.write(b"abcdef");
    lake.write(b"XYZ");
    assert_eq!(lake.len(), 3);
    assert_eq!(lake.as_slice(), b"XYZ");
    let (buf, _) = lake.into_raw_parts();
    assert_eq!(&buf[..], b"XYZdef\0\0");
}

#[test]
fn lake_write_byte_wraps_at_end() {
    let mut lake = TachyonDataLake::<3>::build();
    lake.write_byte(b'a');
    lake.write_byte(b'b');
    assert_eq!(lake.len(), 2);
    lake.write_byte(b'c');
    assert_eq!(lake.len(), 0);
    let (buf, _) = lake.into_raw_parts();
    assert_eq!(&buf[..], b"abc");
}

#[test]
fn lake_numbers() {
    let mut lake = TachyonDataLake::<64>::build();
    lake.write_num_str(12345);
    lake.write(b"|");
    lake.write_num_str(0);
    lake.write(b"|");
    lake.write_num_str_fixed(7, 3);
    lake.write(b"|");
    lake.write_num_str_fixed(1234, 2);
    assert_eq!(lake.as_slice(), b"12345|0|007|34");
    assert_eq!(decimal_string(usize::MAX), usize::MAX.to_string().into_bytes());
    assert_eq!(fixed_decimal(13, 2), b"13".to_vec());
}

#[test]
fn lake_cursor_grows_until_flush() {
    let mut lake = TachyonDataLake::<32>::build();
    let mut last = lake.len();
    for chunk in [&b"GET"[..], b" /", b"x", b"yz", b"\r\n"] {
        lake.write(chunk);
        assert!(lake.len() > last);
        last = lake.len();
    }
    lake.reset_pos();
    assert_eq!(lake.len(), 0);
    assert_eq!(lake.freeze_ptr().len(), 0);
    assert_eq!(lake.freeze_ref().len(), 0);
}

#[test]
fn lake_tools_copy_at_offset() {
    let mut dst = vec![0u8; 6];
    TachyonDataLakeTools::write_to(&mut dst, 2, b"abc");
    assert_eq!(dst, b"\0\0abc\0".to_vec());
}
