//! Constant-pool behaviour: per-record byte consumption, tag dispatch, the
//! double-slot quirk of 8-byte constants, and every lookup error.

use classfile::constant_pool::CPInfoRep;
use classfile::constant_pool::ConstantClass;
use classfile::constant_pool::ConstantDouble;
use classfile::constant_pool::ConstantInvokeDynamic;
use classfile::constant_pool::ConstantMethodref;
use classfile::constant_pool::ConstantPoolRep;
use classfile::constant_pool::RefKind;
use classfile::constant_pool::Tag;
use classfile::error::Error;
use classfile::pos_slice::PoSlice;

#[test]
fn constant_pool_works() {
    let bytes = [0u8; 30];
    let mut pos_slice = PoSlice::new(&bytes);
    let _ = ConstantClass::read(&mut pos_slice).unwrap();
    assert_eq!(pos_slice.pos(), 2);
    let _ = ConstantDouble::read(&mut pos_slice).unwrap();
    assert_eq!(pos_slice.pos(), 10);
    let _ = ConstantMethodref::read(&mut pos_slice).unwrap();
    assert_eq!(pos_slice.pos(), 14);
    let _ = ConstantInvokeDynamic::read(&mut pos_slice).unwrap();
    assert_eq!(pos_slice.pos(), 18);
}

#[test]
fn tag_bytes_decode_exactly() {
    assert_eq!(Tag::new(1).unwrap(), Tag::UTF8);
    assert_eq!(Tag::new(3).unwrap(), Tag::INTEGER);
    assert_eq!(Tag::new(4).unwrap(), Tag::FLOAT);
    assert_eq!(Tag::new(5).unwrap(), Tag::LONG);
    assert_eq!(Tag::new(6).unwrap(), Tag::DOUBLE);
    assert_eq!(Tag::new(7).unwrap(), Tag::CLASS);
    assert_eq!(Tag::new(8).unwrap(), Tag::STRING);
    assert_eq!(Tag::new(9).unwrap(), Tag::FIELD_REF);
    assert_eq!(Tag::new(10).unwrap(), Tag::METHOD_REF);
    assert_eq!(Tag::new(11).unwrap(), Tag::INTERFACE_METHOD_REF);
    assert_eq!(Tag::new(12).unwrap(), Tag::NAME_AND_TYPE);
    assert_eq!(Tag::new(15).unwrap(), Tag::METHOD_HANDLE);
    assert_eq!(Tag::new(16).unwrap(), Tag::METHOD_TYPE);
    assert_eq!(Tag::new(18).unwrap(), Tag::INVOKE_DYNAMIC);
    assert_eq!(Tag::new(0), Err(Error::CPTag(0)));
    assert_eq!(Tag::new(2), Err(Error::CPTag(2)));
    assert_eq!(Tag::new(13), Err(Error::CPTag(13)));
    assert_eq!(Tag::new(255), Err(Error::CPTag(255)));
}

#[test]
fn reference_kinds_decode_exactly() {
    assert_eq!(RefKind::read(1).unwrap(), RefKind::GetField);
    assert_eq!(RefKind::read(5).unwrap(), RefKind::InvokeVirtual);
    assert_eq!(RefKind::read(9).unwrap(), RefKind::InvokeInterface);
    assert_eq!(RefKind::read(0), Err(Error::WrongKind(0)));
    assert_eq!(RefKind::read(10), Err(Error::WrongKind(10)));
}

#[test]
fn pool_lookup_and_double_slot() {
    // count 4: slot 1 a Utf8 "Hi", slot 2 a Long, slot 3 its dead half
    let bytes = [
        0, 4, // count
        1, 0, 2, b'H', b'i', // Utf8, 2 bytes
        5, 0, 0, 0, 1, 0, 0, 0, 2, // Long, high 1, low 2
    ];
    let mut slice = PoSlice::new(&bytes);
    let pool = ConstantPoolRep::read(&mut slice).unwrap();
    assert_eq!(slice.pos(), bytes.len());

    // slot 0 is permanently absent; slot 3 is the dead second half
    assert_eq!(pool.get(0).err().unwrap(), Error::EmptyCPInfo(0));
    assert_eq!(pool.get(3).err().unwrap(), Error::EmptyCPInfo(3));
    // an index at or past the declared count is out of range
    assert_eq!(pool.get(4).err().unwrap(), Error::Index(4));
    assert_eq!(pool.get(100).err().unwrap(), Error::Index(100));

    let utf8 = pool.get(1).unwrap();
    assert_eq!(utf8.tag(), Tag::UTF8);
    assert_eq!(utf8.as_str().unwrap(), "Hi");

    let long = pool.get(2).unwrap();
    assert_eq!(long.tag(), Tag::LONG);
    assert_eq!(long.as_str().err().unwrap(), Error::NotUtf8);
    match long {
        CPInfoRep::Long(v) => {
            assert_eq!(v.0, 1);
            assert_eq!(v.1, 2);
        },
        _ => panic!("expected a Long record"),
    }
}

#[test]
fn pool_rejects_unknown_tag() {
    let bytes = [0, 2, 2, 0, 0]; // count 2, then the unassigned tag byte 2
    let mut slice = PoSlice::new(&bytes);
    assert_eq!(
        ConstantPoolRep::read(&mut slice).err().unwrap(),
        Error::CPTag(2)
    );
}

#[test]
fn pool_rejects_invalid_utf8() {
    let bytes = [0, 2, 1, 0, 1, 0xFF]; // count 2, Utf8 of one byte 0xFF
    let mut slice = PoSlice::new(&bytes);
    assert_eq!(
        ConstantPoolRep::read(&mut slice).err().unwrap(),
        Error::InvalidUtf8
    );
}

#[test]
fn pool_rejects_bad_reference_kind() {
    let bytes = [0, 2, 15, 10, 0, 1]; // count 2, MethodHandle with kind 10
    let mut slice = PoSlice::new(&bytes);
    assert_eq!(
        ConstantPoolRep::read(&mut slice).err().unwrap(),
        Error::WrongKind(10)
    );
}

#[test]
fn pool_truncated_record_fails_in_bounds() {
    let bytes = [0, 2, 7, 0]; // count 2, Class record cut short
    let mut slice = PoSlice::new(&bytes);
    assert_eq!(
        ConstantPoolRep::read(&mut slice).err().unwrap(),
        Error::OutOfBounds(4)
    );
}

#[test]
fn utf8_record_decodes_multibyte_text() {
    // one Utf8 record holding the two-byte encoding of U+00E9
    let bytes = [0, 2, 1, 0, 2, 0xC3, 0xA9];
    let mut slice = PoSlice::new(&bytes);
    let pool = ConstantPoolRep::read(&mut slice).unwrap();
    let text = pool.get(1).unwrap().as_str().unwrap();
    assert_eq!(text, "\u{e9}");
    assert_eq!(text.chars().count(), 1);
}

#[test]
fn pool_decodes_every_record_kind() {
    let bytes = [
        0, 16, // count: slots 0..=15, with two dead slots after Long/Double
        1, 0, 1, b'A', // 1: Utf8
        3, 0, 0, 0, 7, // 2: Integer
        4, 1, 2, 3, 4, // 3: Float bits
        5, 0, 0, 0, 1, 0, 0, 0, 2, // 4: Long (5 is its dead half)
        6, 0, 0, 0, 3, 0, 0, 0, 4, // 6: Double (7 is its dead half)
        7, 0, 1, // 8: Class
        8, 0, 1, // 9: String
        9, 0, 8, 0, 12, // 10: Fieldref
        10, 0, 8, 0, 12, // 11: Methodref
        11, 0, 8, 0, 12, // 12: InterfaceMethodref
        12, 0, 1, 0, 1, // 13: NameAndType
        15, 5, 0, 11, // 14: MethodHandle, kind InvokeVirtual
        16, 0, 1, // 15: MethodType
    ];
    let mut slice = PoSlice::new(&bytes);
    let pool = ConstantPoolRep::read(&mut slice).unwrap();
    assert_eq!(slice.pos(), bytes.len());
    assert_eq!(pool.get(1).unwrap().tag(), Tag::UTF8);
    assert_eq!(pool.get(2).unwrap().tag(), Tag::INTEGER);
    assert_eq!(pool.get(3).unwrap().tag(), Tag::FLOAT);
    assert_eq!(pool.get(4).unwrap().tag(), Tag::LONG);
    assert_eq!(pool.get(5).err().unwrap(), Error::EmptyCPInfo(5));
    assert_eq!(pool.get(6).unwrap().tag(), Tag::DOUBLE);
    assert_eq!(pool.get(7).err().unwrap(), Error::EmptyCPInfo(7));
    assert_eq!(pool.get(8).unwrap().tag(), Tag::CLASS);
    assert_eq!(pool.get(9).unwrap().tag(), Tag::STRING);
    assert_eq!(pool.get(10).unwrap().tag(), Tag::FIELD_REF);
    assert_eq!(pool.get(11).unwrap().tag(), Tag::METHOD_REF);
    assert_eq!(pool.get(12).unwrap().tag(), Tag::INTERFACE_METHOD_REF);
    assert_eq!(pool.get(13).unwrap().tag(), Tag::NAME_AND_TYPE);
    assert_eq!(pool.get(14).unwrap().tag(), Tag::METHOD_HANDLE);
    assert_eq!(pool.get(15).unwrap().tag(), Tag::METHOD_TYPE);
    match pool.get(2).unwrap() {
        CPInfoRep::Integer(v) => assert_eq!(v.0, 7),
        _ => panic!("expected an Integer record"),
    }
    match pool.get(14).unwrap() {
        CPInfoRep::MethodHandle(h) => {
            assert_eq!(h.reference_kind, RefKind::InvokeVirtual);
            assert_eq!(h.reference_index, 11);
        },
        _ => panic!("expected a MethodHandle record"),
    }
}
