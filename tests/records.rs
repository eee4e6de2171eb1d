use rust_byte_record::{clear, render_record, set_field, ByteArray, ByteRecord, BYTE_RECORD_SIZE};

#[test]
fn record_set_field_and_clear() {
    let mut br: ByteRecord = [0; BYTE_RECORD_SIZE];
    set_field(&mut br, 3, &[1, 2, 3, 4]);
    assert_eq!(&br[3..7], &[1, 2, 3, 4]);
    assert!(br[..3].iter().all(|b| *b == 0));
    assert!(br[7..].iter().all(|b| *b == 0));
    clear(&mut br);
    assert_eq!(br, [0; BYTE_RECORD_SIZE]);
}

#[test]
fn record_truncating_write() {
    let mut br: ByteRecord = [7; BYTE_RECORD_SIZE];
    set_field(&mut br, 30, &[1, 2, 3, 4]);
    assert_eq!(&br[30..], &[1, 2]);
    assert!(br[..30].iter().all(|b| *b == 7));
    set_field(&mut br, 32, &[9, 9]);
    set_field(&mut br, usize::MAX, &[9, 9]);
    assert_eq!(&br[30..], &[1, 2]);
    assert!(br[..30].iter().all(|b| *b == 7));
}

#[test]
fn byte_array_scenario() {
    let mut ba = ByteArray::new();
    assert_eq!(ba.len(), 32);
    assert!(!ba.is_empty());
    ba.set_field(2, &[254, 255, 0, 1]);
    assert_eq!(ba.get_field(2, 4), &[254, 255, 0, 1]);
    for (i, b) in ba.array().iter().enumerate() {
        if !(2..6).contains(&i) {
            assert_eq!(*b, 0);
        }
    }
}

#[test]
fn byte_array_clear_and_truncate() {
    let mut ba = ByteArray::default();
    ba.set_field(29, &[5, 6, 7, 8, 9]);
    assert_eq!(ba.get_field(29, 3), &[5, 6, 7]);
    assert_eq!(ba.get_field(0, 29), &[0; 29]);
    ba.clear();
    assert_eq!(ba.array(), &[0; 32]);
    assert_eq!(ba.len(), 32);
}

#[test]
fn byte_array_strings() {
    let mut ba = ByteArray::new();
    ba.set_str(4, "hello");
    assert_eq!(ba.get_str(4, 5), Ok("hello"));
    assert_eq!(ba.get_field(4, 5), &[104, 101, 108, 108, 111]);
    ba.set_field(10, &[0xFF]);
    assert!(ba.get_str(10, 1).is_err());
    ba.set_str(30, "abcd");
    assert_eq!(ba.get_str(30, 2), Ok("ab"));
}

#[test]
fn render_folds_lines() {
    let text = render_record(&[1, 22, 255, 0, 9], 2);
    assert_eq!(
        String::from_utf8(text).unwrap(),
        "\n    1  22 \n  255   0 \n    9 "
    );
    let text = render_record(&[10, 200], 2);
    assert_eq!(String::from_utf8(text).unwrap(), "\n   10 200 \n  ");
    let text = render_record(&[], 4);
    assert_eq!(String::from_utf8(text).unwrap(), "\n  ");
}
