//! Whole-file decoding: the fixed section order, the entry-point scan, name
//! resolution through the pool, attribute dispatch and the recursive Code
//! attribute.

use std::rc::Rc;

use classfile::attribute_info::AttributeInfo;
use classfile::class_file::ClassFile;
use classfile::class_file::MemberInfo;
use classfile::constant_pool::ConstantPoolRep;
use classfile::constant_pool::Tag;
use classfile::error::Error;
use classfile::pos_slice::PoSlice;

fn push_u2(v: &mut Vec<u8>, x: u16) {
    v.push((x >> 8) as u8);
    v.push(x as u8);
}

fn push_u4(v: &mut Vec<u8>, x: u32) {
    v.push((x >> 24) as u8);
    v.push((x >> 16) as u8);
    v.push((x >> 8) as u8);
    v.push(x as u8);
}

fn push_utf8(v: &mut Vec<u8>, s: &str) {
    v.push(1);
    push_u2(v, s.len() as u16);
    v.extend_from_slice(s.as_bytes());
}

/// A minimal class file: a four-entry pool (the entry-point name and
/// descriptor, a class name, a Class record), one method, no fields,
/// interfaces or attributes. The method's name and descriptor indices are
/// the caller's.
fn minimal_class_bytes(this_class: u16, name_index: u16, descriptor_index: u16) -> Vec<u8> {
    let mut b = Vec::new();
    push_u4(&mut b, 0xCAFE_BABE);
    push_u2(&mut b, 0); // minor version
    push_u2(&mut b, 52); // major version
    push_u2(&mut b, 5); // pool count: slots 0..=4
    push_utf8(&mut b, "main"); // 1
    push_utf8(&mut b, "([Ljava/lang/String;)V"); // 2
    push_utf8(&mut b, "TestClass"); // 3
    b.push(7); // 4: Class record
    push_u2(&mut b, 3); //    naming entry 3
    push_u2(&mut b, 0x0021); // access flags
    push_u2(&mut b, this_class);
    push_u2(&mut b, 4); // super class
    push_u2(&mut b, 0); // interfaces
    push_u2(&mut b, 0); // fields
    push_u2(&mut b, 1); // methods
    push_u2(&mut b, 9); //   access flags
    push_u2(&mut b, name_index);
    push_u2(&mut b, descriptor_index);
    push_u2(&mut b, 0); //   attributes
    push_u2(&mut b, 0); // class attributes
    b
}

#[test]
fn class_file_decodes_and_finds_main() {
    let bytes = minimal_class_bytes(4, 1, 2);
    let mut slice = PoSlice::new(&bytes);
    let class_file = ClassFile::from_bytes(&mut slice).unwrap();
    // the whole buffer is consumed: nothing trails, nothing overruns
    assert_eq!(slice.pos(), bytes.len());

    assert_eq!(class_file.minor_version(), 0);
    assert_eq!(class_file.major_version(), 52);
    assert_eq!(class_file.name().unwrap(), "TestClass");
    assert_eq!(class_file.super_name().unwrap(), "TestClass");
    assert!(class_file.interfaces().is_empty());
    assert!(class_file.fields().is_empty());
    assert_eq!(class_file.methods().len(), 1);

    let main_method = class_file.get_main_method().unwrap();
    assert_eq!(main_method.access_flags(), 9);
    assert_eq!(main_method.get_name().unwrap(), "main");
    assert_eq!(main_method.get_descriptor().unwrap(), "([Ljava/lang/String;)V");
    assert!(main_method.get_code_attribute().is_none());

    let pool = class_file.constant_pool();
    assert_eq!(pool.get(1).unwrap().as_str().unwrap(), "main");
}

#[test]
fn main_method_not_found() {
    // the one method is named "TestClass", not "main"
    let bytes = minimal_class_bytes(4, 3, 2);
    let mut slice = PoSlice::new(&bytes);
    let class_file = ClassFile::from_bytes(&mut slice).unwrap();
    assert_eq!(
        class_file.get_main_method().err().unwrap(),
        Error::MainNotFound
    );
}

#[test]
fn main_with_wrong_descriptor_not_found() {
    // right name, wrong descriptor
    let bytes = minimal_class_bytes(4, 1, 3);
    let mut slice = PoSlice::new(&bytes);
    let class_file = ClassFile::from_bytes(&mut slice).unwrap();
    assert_eq!(
        class_file.get_main_method().err().unwrap(),
        Error::MainNotFound
    );
}

#[test]
fn main_scan_reports_broken_name_link() {
    // the method's name index is 0, the permanently absent slot
    let bytes = minimal_class_bytes(4, 0, 2);
    let mut slice = PoSlice::new(&bytes);
    let class_file = ClassFile::from_bytes(&mut slice).unwrap();
    assert_eq!(
        class_file.get_main_method().err().unwrap(),
        Error::EmptyCPInfo(0)
    );
}

#[test]
fn class_name_reports_wrong_tag() {
    // this_class names a Utf8 record where a Class record is required
    let bytes = minimal_class_bytes(1, 1, 2);
    let mut slice = PoSlice::new(&bytes);
    let class_file = ClassFile::from_bytes(&mut slice).unwrap();
    assert_eq!(
        class_file.name().err().unwrap(),
        Error::WrongTag(Tag::UTF8)
    );
    assert_eq!(class_file.super_name().unwrap(), "TestClass");
}

#[test]
fn truncated_input_fails_with_bounds_error() {
    let bytes: [u8; 0] = [];
    let mut slice = PoSlice::new(&bytes);
    assert_eq!(
        ClassFile::from_bytes(&mut slice).err().unwrap(),
        Error::OutOfBounds(3)
    );

    // magic and versions present, pool count cut short
    let partial = [0xCA, 0xFE, 0xBA, 0xBE, 0, 0, 0, 52, 0];
    let mut slice = PoSlice::new(&partial);
    assert_eq!(
        ClassFile::from_bytes(&mut slice).err().unwrap(),
        Error::OutOfBounds(9)
    );
}

fn name_pool(names: &[&str]) -> Rc<ConstantPoolRep> {
    let mut b = Vec::new();
    push_u2(&mut b, (names.len() + 1) as u16);
    for name in names {
        push_utf8(&mut b, name);
    }
    let owned = b;
    let mut slice = PoSlice::new(&owned);
    Rc::new(ConstantPoolRep::read(&mut slice).unwrap())
}

#[test]
fn unknown_attribute_consumes_declared_length() {
    // pool: 1 = "Custom" (unknown), 2 = "SourceFile"
    let pool = name_pool(&["Custom", "SourceFile"]);
    let mut b = Vec::new();
    push_u2(&mut b, 2); // two attributes
    push_u2(&mut b, 1); // name: Custom
    push_u4(&mut b, 3); // declared length
    b.extend_from_slice(&[7, 8, 9]);
    push_u2(&mut b, 2); // name: SourceFile
    push_u4(&mut b, 2); // declared length
    push_u2(&mut b, 1); // sourcefile index
    let bytes = b;
    let mut slice = PoSlice::new(&bytes);
    let attrs = AttributeInfo::read_attributes(&mut slice, pool).unwrap();
    // the unknown attribute was skipped by its declared length and the
    // next attribute decoded in step
    assert_eq!(slice.pos(), bytes.len());
    assert_eq!(attrs.len(), 2);
    match &attrs[0] {
        AttributeInfo::Raw(raw) => {
            assert_eq!(raw.name, "Custom");
            assert_eq!(raw.info, vec![7, 8, 9]);
        },
        _ => panic!("expected the raw fallback"),
    }
    assert!(matches!(&attrs[1], AttributeInfo::Source(_)));
    assert!(!attrs[0].is_code());
}

#[test]
fn code_attribute_decodes_recursively() {
    // pool: 1 = "Code", 2 = "Custom"
    let pool = name_pool(&["Code", "Custom"]);
    let mut b = Vec::new();
    push_u2(&mut b, 2); // two attributes
    push_u2(&mut b, 2); // name: Custom (a raw one before the Code)
    push_u4(&mut b, 1);
    b.push(42);
    push_u2(&mut b, 1); // name: Code
    push_u4(&mut b, 31); // declared length of the body below
    push_u2(&mut b, 1); // max_stack
    push_u2(&mut b, 2); // max_locals
    push_u4(&mut b, 3); // code length
    b.extend_from_slice(&[0, 1, 2]);
    push_u2(&mut b, 1); // one exception row
    push_u2(&mut b, 0); //   start_pc
    push_u2(&mut b, 2); //   end_pc
    push_u2(&mut b, 3); //   handler_pc
    push_u2(&mut b, 0); //   catch_type: catch-all
    push_u2(&mut b, 1); // one nested attribute
    push_u2(&mut b, 2); //   name: Custom
    push_u4(&mut b, 2); //   declared length
    b.extend_from_slice(&[5, 6]);
    let bytes = b;
    let mut slice = PoSlice::new(&bytes);
    let attrs = AttributeInfo::read_attributes(&mut slice, pool.clone()).unwrap();
    assert_eq!(slice.pos(), bytes.len());
    assert_eq!(attrs.len(), 2);
    assert!(attrs[1].is_code());

    let member = MemberInfo {
        constant_pool: pool,
        access_flags: 0,
        name_index: 0,
        descriptor_index: 0,
        attributes: attrs,
    };
    let code = member.get_code_attribute().unwrap();
    assert_eq!(code.max_stack, 1);
    assert_eq!(code.max_locals, 2);
    assert_eq!(code.code, vec![0, 1, 2]);
    assert_eq!(code.exception_table.len(), 1);
    assert_eq!(code.exception_table[0].start_pc, 0);
    assert_eq!(code.exception_table[0].end_pc, 2);
    assert_eq!(code.exception_table[0].handler_pc, 3);
    assert_eq!(code.exception_table[0].catch_type, 0);
    assert_eq!(code.attributes.len(), 1);
    match &code.attributes[0] {
        AttributeInfo::Raw(raw) => {
            assert_eq!(raw.name, "Custom");
            assert_eq!(raw.info, vec![5, 6]);
        },
        _ => panic!("expected the raw fallback inside the Code attribute"),
    }
}

#[test]
fn attribute_name_must_be_utf8() {
    // pool: 1 = a Class record, not a Utf8 one
    let mut pb = Vec::new();
    push_u2(&mut pb, 2);
    pb.push(7); // Class record
    push_u2(&mut pb, 1);
    let pool_bytes = pb;
    let mut pslice = PoSlice::new(&pool_bytes);
    let pool = Rc::new(ConstantPoolRep::read(&mut pslice).unwrap());

    let mut b = Vec::new();
    push_u2(&mut b, 1); // one attribute
    push_u2(&mut b, 1); // name index resolves to the Class record
    push_u4(&mut b, 0);
    let bytes = b;
    let mut slice = PoSlice::new(&bytes);
    assert_eq!(
        AttributeInfo::read_attributes(&mut slice, pool).err().unwrap(),
        Error::NotUtf8
    );
}

#[test]
fn constant_value_attribute_decodes() {
    // pool: 1 = "ConstantValue"
    let pool = name_pool(&["ConstantValue"]);
    let mut b = Vec::new();
    push_u2(&mut b, 1); // one attribute
    push_u2(&mut b, 1); // name: ConstantValue
    push_u4(&mut b, 2); // declared length
    push_u2(&mut b, 7); // constant index
    let bytes = b;
    let mut slice = PoSlice::new(&bytes);
    let attrs = AttributeInfo::read_attributes(&mut slice, pool).unwrap();
    assert_eq!(slice.pos(), bytes.len());
    assert_eq!(attrs.len(), 1);
    match &attrs[0] {
        AttributeInfo::Constant(cv) => {
            assert_eq!(cv.name, "ConstantValue");
            assert_eq!(cv.constant_value_index, 7);
        },
        _ => panic!("expected a ConstantValue attribute"),
    }
}

#[test]
fn source_file_attribute_carries_its_index() {
    // pool: 1 = "SourceFile"
    let pool = name_pool(&["SourceFile"]);
    let mut b = Vec::new();
    push_u2(&mut b, 1); // one attribute
    push_u2(&mut b, 1); // name: SourceFile
    push_u4(&mut b, 2); // declared length
    push_u2(&mut b, 9); // sourcefile index
    let bytes = b;
    let mut slice = PoSlice::new(&bytes);
    let attrs = AttributeInfo::read_attributes(&mut slice, pool).unwrap();
    assert_eq!(attrs.len(), 1);
    match &attrs[0] {
        AttributeInfo::Source(sf) => {
            assert_eq!(sf.name, "SourceFile");
            assert_eq!(sf.sourcefile_index, 9);
        },
        _ => panic!("expected a SourceFile attribute"),
    }
}

#[test]
fn interfaces_and_fields_decode_in_order() {
    let mut b = Vec::new();
    push_u4(&mut b, 0xCAFE_BABE);
    push_u2(&mut b, 3); // minor version
    push_u2(&mut b, 55); // major version
    push_u2(&mut b, 3); // pool count
    push_utf8(&mut b, "x"); // 1: field name
    push_utf8(&mut b, "I"); // 2: field descriptor
    push_u2(&mut b, 0x0021); // access flags
    push_u2(&mut b, 0); // this class (never resolved here)
    push_u2(&mut b, 0); // super class
    push_u2(&mut b, 2); // two interfaces
    push_u2(&mut b, 7);
    push_u2(&mut b, 11);
    push_u2(&mut b, 1); // one field
    push_u2(&mut b, 2); //   access flags
    push_u2(&mut b, 1); //   name
    push_u2(&mut b, 2); //   descriptor
    push_u2(&mut b, 0); //   attributes
    push_u2(&mut b, 0); // methods
    push_u2(&mut b, 0); // class attributes
    let bytes = b;
    let mut slice = PoSlice::new(&bytes);
    let class_file = ClassFile::from_bytes(&mut slice).unwrap();
    assert_eq!(slice.pos(), bytes.len());
    assert_eq!(class_file.minor_version(), 3);
    assert_eq!(class_file.major_version(), 55);
    assert_eq!(class_file.interfaces(), &[7, 11]);
    assert_eq!(class_file.fields().len(), 1);
    let field = &class_file.fields()[0];
    assert_eq!(field.access_flags(), 2);
    assert_eq!(field.get_name().unwrap(), "x");
    assert_eq!(field.get_descriptor().unwrap(), "I");
    assert!(class_file.methods().is_empty());
    assert_eq!(
        class_file.get_main_method().err().unwrap(),
        Error::MainNotFound
    );
}
