use rust_byte_record::{
    i32_from_bytes, i32_to_bytes, str_from_bytes, str_to_bytes, usize_from_bytes, usize_to_bytes,
    LengthMismatch,
};

#[test]
fn it_works() {
    assert_eq!(2 + 2, 4);
}

#[test]
fn usize_encodes_big_endian() {
    assert_eq!(usize_to_bytes(2555), [0, 0, 0, 0, 0, 0, 9, 251]);
    assert_eq!(usize_to_bytes(0x0102030405060708), [1, 2, 3, 4, 5, 6, 7, 8]);
}

#[test]
fn usize_round_trips() {
    for n in [0usize, 1, 255, 256, 2555, usize::MAX] {
        assert_eq!(usize_from_bytes(&usize_to_bytes(n)), Ok(n));
    }
}

#[test]
fn usize_decode_wrong_length() {
    assert_eq!(
        usize_from_bytes(&[1, 2, 3]),
        Err(LengthMismatch { expected: 8, found: 3 })
    );
    assert_eq!(
        usize_from_bytes(&[0; 9]),
        Err(LengthMismatch { expected: 8, found: 9 })
    );
}

#[test]
fn i32_encodes_twos_complement() {
    assert_eq!(i32_to_bytes(-2555), [255, 255, 246, 5]);
    assert_eq!(i32_to_bytes(2555), [0, 0, 9, 251]);
    assert_eq!(i32_to_bytes(-1), [255, 255, 255, 255]);
}

#[test]
fn i32_round_trips() {
    for n in [0i32, 1, -1, 2555, -2555, i32::MIN, i32::MAX] {
        assert_eq!(i32_from_bytes(&i32_to_bytes(n)), Ok(n));
    }
}

#[test]
fn i32_decode_wrong_length() {
    assert_eq!(
        i32_from_bytes(&[1, 2, 3, 4, 5, 6, 7, 8]),
        Err(LengthMismatch { expected: 4, found: 8 })
    );
    assert_eq!(i32_from_bytes(&[]), Err(LengthMismatch { expected: 4, found: 0 }));
}

#[test]
fn str_round_trips() {
    for s in ["a string", "", "héllo wörld", "日本"] {
        let b = str_to_bytes(s);
        assert_eq!(b.len(), s.len());
        assert_eq!(str_from_bytes(b), Ok(s));
    }
    assert_eq!(str_to_bytes("ab"), &[97, 98]);
}

#[test]
fn str_decode_invalid_byte() {
    let e = str_from_bytes(&[0xFF]).unwrap_err();
    assert_eq!(e.valid_up_to(), 0);
    let e = str_from_bytes(&[104, 105, 0xC3]).unwrap_err();
    assert_eq!(e.valid_up_to(), 2);
}
